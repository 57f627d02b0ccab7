//! Ingestion: rows of (id, title, description) read from a table, their
//! embeddings, and the points that are upserted for them.
use vstd::prelude::*;
use crate::point::{Embedding, Payload, Point};
use crate::store::{all_of_dim, batch_dim, insert, isolation_hnsw, Distance, InsertPlan, SearchHit, StoreError};
use crate::pipeline::{descriptions_of, retrieved_text};
use crate::text::chars_of;

verus! {

/// The value of `c` as a digit in base `radix` (10 or 16).
pub open spec fn digit_value(c: char, radix: nat) -> Option<nat> {
    if '0' <= c && c <= '9' {
        Some((c as nat - '0' as nat) as nat)
    } else if radix == 16 && 'a' <= c && c <= 'f' {
        Some((c as nat - 'a' as nat + 10) as nat)
    } else if radix == 16 && 'A' <= c && c <= 'F' {
        Some((c as nat - 'A' as nat + 10) as nat)
    } else {
        None
    }
}

/// Whether every character of `ds` is a digit in base `radix`.
pub open spec fn all_digits(ds: Seq<char>, radix: nat) -> bool {
    forall|i: int| 0 <= i < ds.len() ==> (#[trigger] digit_value(ds[i], radix)) is Some
}

/// The number that the digits `ds` write in base `radix`.
pub open spec fn digits_value(ds: Seq<char>, radix: nat) -> nat
    decreases ds.len(),
{
    if ds.len() == 0 {
        0
    } else {
        digits_value(ds.drop_last(), radix) * radix + match digit_value(ds.last(), radix) {
            Some(d) => d,
            None => 0,
        }
    }
}

/// The number that `s` writes in base `radix`: an optional `+`, then at
/// least one digit.
pub open spec fn unsigned_value(s: Seq<char>, radix: nat) -> Option<nat> {
    let ds = if s.len() > 0 && s[0] == '+' { s.skip(1) } else { s };
    if ds.len() > 0 && all_digits(ds, radix) {
        Some(digits_value(ds, radix))
    } else {
        None
    }
}

/// The number that an id field writes: hexadecimal after a `0x` prefix,
/// else decimal.
pub open spec fn id_value(s: Seq<char>) -> Option<nat> {
    if s.len() >= 2 && s[0] == '0' && s[1] == 'x' {
        unsigned_value(s.skip(2), 16)
    } else {
        unsigned_value(s, 10)
    }
}

/// The id that a field holds, if it writes a number that fits in 64 bits.
pub open spec fn parsed_id(s: Seq<char>) -> Option<u64> {
    match id_value(s) {
        Some(v) => if v <= u64::MAX { Some(v as u64) } else { None },
        None => None,
    }
}

/// A longer run of digits is worth at least as much as its prefix.
proof fn lemma_prefix_value(ds: Seq<char>, radix: nat, i: int)
    requires
        0 <= i <= ds.len(),
        radix >= 1,
    ensures
        digits_value(ds.take(i), radix) <= digits_value(ds, radix),
    decreases ds.len() - i,
{
    if i < ds.len() {
        lemma_prefix_value(ds, radix, i + 1);
        assert(ds.take(i + 1).drop_last() =~= ds.take(i));
        let v = digits_value(ds.take(i), radix);
        assert(v * radix >= v) by (nonlinear_arith)
            requires radix >= 1;
    } else {
        assert(ds.take(i) =~= ds);
    }
}

fn digit_of(c: char, radix: u64) -> (r: Option<u64>)
    requires
        radix == 10 || radix == 16,
    ensures
        r matches Some(d) ==> digit_value(c, radix as nat) == Some(d as nat),
        r is None ==> digit_value(c, radix as nat) is None,
{
    if '0' <= c && c <= '9' {
        Some((c as u64) - ('0' as u64))
    } else if radix == 16 && 'a' <= c && c <= 'f' {
        Some((c as u64) - ('a' as u64) + 10)
    } else if radix == 16 && 'A' <= c && c <= 'F' {
        Some((c as u64) - ('A' as u64) + 10)
    } else {
        None
    }
}

/// The number that `cs[from..]` writes in base `radix`, if it fits in
/// 64 bits.
fn unsigned_from(cs: &Vec<char>, from: usize, radix: u64) -> (r: Option<u64>)
    requires
        from <= cs.len(),
        radix == 10 || radix == 16,
    ensures
        r == (match unsigned_value(cs@.skip(from as int), radix as nat) {
            Some(v) => if v <= u64::MAX { Some(v as u64) } else { None },
            None => None,
        }),
{
    let ghost s = cs@.skip(from as int);
    let mut start = from;
    if start < cs.len() && cs[start] == '+' {
        start = start + 1;
    }
    let ghost ds = cs@.skip(start as int);
    proof {
        if s.len() > 0 && s[0] == '+' {
            assert(s.skip(1) =~= ds);
        } else {
            assert(s =~= ds);
        }
    }
    if start == cs.len() {
        return None;
    }
    let mut acc: u64 = 0;
    let mut i: usize = start;
    while i < cs.len()
        invariant
            start <= i <= cs.len(),
            ds == cs@.skip(start as int),
            s == cs@.skip(from as int),
            ds.len() > 0,
            unsigned_value(s, radix as nat) == (if all_digits(ds, radix as nat) {
                Some(digits_value(ds, radix as nat))
            } else {
                None::<nat>
            }),
            radix == 10 || radix == 16,
            acc as nat == digits_value(ds.take(i - start), radix as nat),
            all_digits(ds.take(i - start), radix as nat),
        decreases cs.len() - i,
    {
        let ghost pre = ds.take(i - start);
        let ghost next = ds.take(i + 1 - start);
        proof {
            assert(next.drop_last() =~= pre);
            assert(next.last() == cs@[i as int]);
        }
        match digit_of(cs[i], radix) {
            None => {
                assert(!all_digits(ds, radix as nat)) by {
                    assert(ds[i - start] == cs@[i as int]);
                }
                return None;
            },
            Some(d) => {
                match acc.checked_mul(radix) {
                    None => {
                        proof { lemma_too_large(ds, radix as nat, i + 1 - start, acc as nat, d as nat); }
                        return None;
                    },
                    Some(m) => {
                        match m.checked_add(d) {
                            None => {
                                proof { lemma_too_large(ds, radix as nat, i + 1 - start, acc as nat, d as nat); }
                                return None;
                            },
                            Some(v) => {
                                acc = v;
                                proof {
                                    assert forall|j: int| 0 <= j < next.len() implies
                                        (#[trigger] digit_value(next[j], radix as nat)) is Some by {
                                        if j < pre.len() {
                                            assert(next[j] == pre[j]);
                                        }
                                    }
                                }
                            },
                        }
                    },
                }
            },
        }
        i = i + 1;
    }
    assert(ds.take(i - start) =~= ds);
    Some(acc)
}

/// A prefix whose value passes 64 bits makes the whole run pass it.
proof fn lemma_too_large(ds: Seq<char>, radix: nat, n: int, acc: nat, d: nat)
    requires
        0 < n <= ds.len(),
        radix >= 1,
        acc == digits_value(ds.take(n - 1), radix),
        digit_value(ds[n - 1], radix) == Some(d),
        acc * radix + d > u64::MAX,
    ensures
        unsigned_value_too_large(ds, radix),
{
    assert(ds.take(n).drop_last() =~= ds.take(n - 1));
    assert(ds.take(n).last() == ds[n - 1]);
    lemma_prefix_value(ds, radix, n);
}

/// Whether the digits `ds` write a number past 64 bits.
pub open spec fn unsigned_value_too_large(ds: Seq<char>, radix: nat) -> bool {
    digits_value(ds, radix) > u64::MAX
}

/// The id that an id field holds: hexadecimal after a `0x` prefix, else
/// decimal, either after an optional `+`; `None` where the field is not
/// such a number or the number does not fit in 64 bits.
pub fn parse_id(field: &str) -> (r: Option<u64>)
    ensures
        r == parsed_id(field@),
{
    let cs = chars_of(field);
    if cs.len() >= 2 && cs[0] == '0' && cs[1] == 'x' {
        unsigned_from(&cs, 2, 16)
    } else {
        assert(cs@.skip(0) =~= cs@);
        unsigned_from(&cs, 0, 10)
    }
}

/// One record of the table: an id, a title and a description.
pub struct Row {
    pub id: u64,
    pub title: String,
    pub description: String,
}

impl View for Row {
    type V = (u64, Seq<char>, Seq<char>);

    open spec fn view(&self) -> (u64, Seq<char>, Seq<char>) {
        (self.id, self.title@, self.description@)
    }
}

/// The text of each field of a record.
pub open spec fn fields_view(fields: Vec<String>) -> Seq<Seq<char>> {
    fields@.map_values(|f: String| f@)
}

/// The fields of each record of a table, or `None` for a record that could
/// not be read.
pub open spec fn records_view(records: Seq<Option<Vec<String>>>) -> Seq<Option<Seq<Seq<char>>>> {
    records.map_values(|r: Option<Vec<String>>| match r {
        Some(fields) => Some(fields_view(fields)),
        None => None,
    })
}

/// The records of a headerless CSV table, as the csv crate reads them.
pub uninterp spec fn csv_records(data: Seq<u8>) -> Seq<Option<Seq<Seq<char>>>>;

/// Relies on csv's `ReaderBuilder` (without headers) and `StringRecord`:
/// splits `data` into records, one entry per record in order, with `None`
/// for one the reader refused (a field count other than the first record's,
/// or text that is not UTF-8).
#[verifier::external_body]
fn split_records(data: &[u8]) -> (r: Vec<Option<Vec<String>>>)
    ensures
        records_view(r@) == csv_records(data@),
{
    let mut reader = csv::ReaderBuilder::new().has_headers(false).from_reader(data);
    reader
        .records()
        .map(|rec| rec.ok().map(|fields| fields.iter().map(|f| f.to_owned()).collect()))
        .collect()
}

/// The row that a record's fields hold: an id, a title and a description,
/// in that order; fields past the third are ignored. `None` where there are
/// fewer than three fields or the first is not an id.
pub open spec fn row_of(fields: Seq<Seq<char>>) -> Option<(u64, Seq<char>, Seq<char>)> {
    if fields.len() >= 3 && parsed_id(fields[0]) is Some {
        Some((parsed_id(fields[0])->Some_0, fields[1], fields[2]))
    } else {
        None
    }
}

/// The row of one record, if it is well formed.
pub fn parse_row(fields: &Vec<String>) -> (r: Option<Row>)
    ensures
        r matches Some(row) ==> row_of(fields_view(*fields)) == Some(row@),
        r is None ==> row_of(fields_view(*fields)) is None,
{
    if fields.len() < 3 {
        return None;
    }
    let ghost v = fields_view(*fields);
    assert(v[0] == fields@[0]@ && v[1] == fields@[1]@ && v[2] == fields@[2]@);
    match parse_id(fields[0].as_str()) {
        Some(id) => Some(Row { id, title: fields[1].clone(), description: fields[2].clone() }),
        None => None,
    }
}

/// The row of a record, where it could be read and is well formed.
pub open spec fn record_row(record: Option<Seq<Seq<char>>>) -> Option<(u64, Seq<char>, Seq<char>)> {
    match record {
        Some(fields) => row_of(fields),
        None => None,
    }
}

/// The rows of the well-formed records, in their order.
pub open spec fn rows_of(records: Seq<Option<Seq<Seq<char>>>>) -> Seq<(u64, Seq<char>, Seq<char>)>
    decreases records.len(),
{
    if records.len() == 0 {
        Seq::empty()
    } else {
        match record_row(records.last()) {
            Some(row) => rows_of(records.drop_last()).push(row),
            None => rows_of(records.drop_last()),
        }
    }
}

/// The positions of the malformed records, in increasing order.
pub open spec fn malformed_of(records: Seq<Option<Seq<Seq<char>>>>) -> Seq<int>
    decreases records.len(),
{
    if records.len() == 0 {
        Seq::empty()
    } else {
        match record_row(records.last()) {
            Some(_) => malformed_of(records.drop_last()),
            None => malformed_of(records.drop_last()).push(records.len() - 1),
        }
    }
}

/// The rows of a table's records, and where the malformed ones stood.
pub struct ParsedRows {
    pub rows: Vec<Row>,
    /// Positions of the records that were skipped.
    pub skipped: Vec<usize>,
}

/// The views of a list of rows.
pub open spec fn rows_view(rows: Seq<Row>) -> Seq<(u64, Seq<char>, Seq<char>)> {
    rows.map_values(|row: Row| row@)
}

/// The positions in `skipped`, as integers.
pub open spec fn positions(skipped: Seq<usize>) -> Seq<int> {
    skipped.map_values(|i: usize| i as int)
}

/// Reads the rows out of a table's records (`None`: a record that could not
/// be read). A malformed record is skipped and its position noted; it does
/// not stop the others.
pub fn read_rows(records: &Vec<Option<Vec<String>>>) -> (r: ParsedRows)
    ensures
        rows_view(r.rows@) == rows_of(records_view(records@)),
        positions(r.skipped@) == malformed_of(records_view(records@)),
{
    let ghost all = records_view(records@);
    let mut rows: Vec<Row> = Vec::new();
    let mut skipped: Vec<usize> = Vec::new();
    let mut i: usize = 0;
    while i < records.len()
        invariant
            i <= records.len(),
            all == records_view(records@),
            rows_view(rows@) == rows_of(all.take(i as int)),
            positions(skipped@) == malformed_of(all.take(i as int)),
        decreases records.len() - i,
    {
        proof {
            assert(all.take(i + 1).drop_last() =~= all.take(i as int));
            assert(all.take(i + 1).last() == all[i as int]);
        }
        let parsed = match &records[i] {
            Some(fields) => parse_row(fields),
            None => None,
        };
        match parsed {
            Some(row) => {
                rows.push(row);
                proof {
                    assert(rows_view(rows@) =~= rows_of(all.take(i as int)).push(row@));
                }
            },
            None => {
                skipped.push(i);
                proof {
                    assert(positions(skipped@) =~= malformed_of(all.take(i as int)).push(i as int));
                }
            },
        }
        i = i + 1;
    }
    assert(all.take(i as int) =~= all);
    ParsedRows { rows, skipped }
}

/// Reads the rows of a headerless CSV table whose columns are id, title and
/// description. Malformed records are skipped and their positions noted.
pub fn load_rows(data: &[u8]) -> (r: ParsedRows)
    ensures
        rows_view(r.rows@) == rows_of(csv_records(data@)),
        positions(r.skipped@) == malformed_of(csv_records(data@)),
{
    let records = split_records(data);
    read_rows(&records)
}

/// The point stored for `row` with vector `v`: the row's id, and a payload
/// of its title and description whose group is the row's id.
pub open spec fn is_point_of(p: Point, row: (u64, Seq<char>, Seq<char>), v: Embedding) -> bool {
    &&& p.id == row.0
    &&& p.vector == v
    &&& p.payload.title@ == row.1
    &&& p.payload.description@ == row.2
    &&& p.payload.group_id == row.0
}

/// The point for one row and the embedding of its description.
pub fn build_point(row: Row, embedding: Embedding) -> (r: Point)
    ensures
        is_point_of(r, row@, embedding),
{
    let id = row.id;
    Point {
        id,
        vector: embedding,
        payload: Payload { title: row.title, description: row.description, group_id: id },
    }
}

/// Why an ingestion was refused.
pub enum IngestError {
    /// The embeddings do not pair one to one with the rows.
    MissingEmbeddings { rows: usize, embeddings: usize },
    /// The store refused the batch.
    Store(StoreError),
}

/// Whether `points` are the points of `rows` with `embeddings`, one for
/// each row and in the rows' order.
pub open spec fn points_of(points: Seq<Point>, rows: Seq<Row>, embeddings: Seq<Embedding>) -> bool {
    &&& points.len() == rows.len()
    &&& embeddings.len() == rows.len()
    &&& forall|i: int| 0 <= i < rows.len() ==> is_point_of(#[trigger] points[i], rows[i]@, embeddings[i])
}

/// The points of `rows`, where `embeddings[i]` is the embedding of the
/// description of `rows[i]`.
pub fn embed_rows(rows: Vec<Row>, embeddings: Vec<Embedding>) -> (r: Result<Vec<Point>, IngestError>)
    ensures
        r is Ok <==> rows@.len() == embeddings@.len(),
        r matches Ok(points) ==> points_of(points@, rows@, embeddings@),
        r matches Err(e) ==> e == (IngestError::MissingEmbeddings {
            rows: rows@.len() as usize,
            embeddings: embeddings@.len() as usize,
        }),
{
    let n = rows.len();
    if n != embeddings.len() {
        return Err(IngestError::MissingEmbeddings { rows: n, embeddings: embeddings.len() });
    }
    let ghost all_rows = rows@;
    let ghost all_embeddings = embeddings@;
    let mut rows = rows;
    let mut embeddings = embeddings;
    let mut backwards: Vec<Point> = Vec::new();
    while rows.len() > 0
        invariant
            n == all_rows.len(),
            n == all_embeddings.len(),
            rows@ == all_rows.take(rows.len() as int),
            embeddings@ == all_embeddings.take(rows.len() as int),
            embeddings.len() == rows.len(),
            backwards@.len() == n - rows.len(),
            forall|j: int| 0 <= j < backwards@.len() ==> is_point_of(
                #[trigger] backwards@[j], all_rows[n - 1 - j]@, all_embeddings[n - 1 - j]),
        decreases rows.len(),
    {
        let row = rows.pop().unwrap();
        let embedding = embeddings.pop().unwrap();
        proof {
            assert(rows@ =~= all_rows.take(rows.len() as int));
            assert(embeddings@ =~= all_embeddings.take(rows.len() as int));
        }
        backwards.push(build_point(row, embedding));
    }
    let mut points: Vec<Point> = Vec::new();
    while backwards.len() > 0
        invariant
            n == all_rows.len(),
            n == all_embeddings.len(),
            backwards@.len() + points@.len() == n,
            forall|j: int| 0 <= j < backwards@.len() ==> is_point_of(
                #[trigger] backwards@[j], all_rows[n - 1 - j]@, all_embeddings[n - 1 - j]),
            forall|j: int| 0 <= j < points@.len() ==> is_point_of(
                #[trigger] points@[j], all_rows[j]@, all_embeddings[j]),
        decreases backwards.len(),
    {
        let p = backwards.pop().unwrap();
        points.push(p);
    }
    Ok(points)
}

/// Whether every embedding of `embeddings` has length `d`.
pub open spec fn all_embeddings_of_dim(embeddings: Seq<Embedding>, d: nat) -> bool {
    forall|i: int| 0 <= i < embeddings.len() ==> (#[trigger] embeddings[i]).dim() == d
}

/// The vector length a batch of embeddings must have: that of the
/// collection if it exists, else that of the first embedding.
pub open spec fn embeddings_dim(embeddings: Seq<Embedding>, existing: Option<u64>) -> nat {
    match existing {
        Some(d) => d as nat,
        None => if embeddings.len() > 0 { embeddings[0].dim() } else { 0 },
    }
}

/// Ingests `rows` into collection `index`, where `embeddings[i]` is the
/// embedding of the description of `rows[i]` and `existing` is the vector
/// length of the collection if it exists: one point per row, upserted in
/// one batch, the collection declared first where it is missing (with the
/// length of the first embedding). No rows: nothing to do.
pub fn ingest(rows: Vec<Row>, embeddings: Vec<Embedding>, index: &str, existing: Option<u64>, isolation: bool) -> (r: Result<InsertPlan, IngestError>)
    ensures
        r is Ok <==> rows@.len() == embeddings@.len()
            && all_embeddings_of_dim(embeddings@, embeddings_dim(embeddings@, existing)),
        r matches Ok(plan) ==> {
            &&& points_of(plan.points@, rows@, embeddings@)
            &&& plan.collection@ == index@
            &&& (plan.create is Some <==> existing is None && rows@.len() > 0)
            &&& plan.create matches Some(c) ==> c.name@ == index@ && c.size == embeddings@[0].dim()
                && c.distance == Distance::Cosine && c.hnsw == isolation_hnsw(isolation)
        },
        rows@.len() != embeddings@.len() ==> r == Err::<InsertPlan, IngestError>(IngestError::MissingEmbeddings {
            rows: rows@.len() as usize,
            embeddings: embeddings@.len() as usize,
        }),
        r matches Err(e) ==> rows@.len() != embeddings@.len() || e is Store,
{
    let ghost es = embeddings@;
    let ghost rs = rows@;
    match embed_rows(rows, embeddings) {
        Err(e) => Err(e),
        Ok(points) => {
            proof {
                assert(batch_dim(points@, existing) == embeddings_dim(es, existing));
                if all_of_dim(points@, batch_dim(points@, existing)) {
                    assert forall|i: int| 0 <= i < es.len() implies
                        (#[trigger] es[i]).dim() == embeddings_dim(es, existing) by {
                        assert(is_point_of(points@[i], rs[i]@, es[i]));
                    }
                }
                if all_embeddings_of_dim(es, embeddings_dim(es, existing)) {
                    assert forall|i: int| 0 <= i < points@.len() implies
                        (#[trigger] points@[i]).vector.dim() == batch_dim(points@, existing) by {
                        assert(is_point_of(points@[i], rs[i]@, es[i]));
                    }
                }
            }
            match insert(points, index, existing, isolation) {
                Ok(plan) => Ok(plan),
                Err(e) => Err(IngestError::Store(e)),
            }
        },
    }
}

/// Ingestion is complete: each row gives exactly one upserted point, in the
/// rows' order, so the ids upserted are the rows' ids.
pub proof fn lemma_every_row_once(points: Seq<Point>, rows: Seq<Row>, embeddings: Seq<Embedding>)
    requires
        points_of(points, rows, embeddings),
    ensures
        points.len() == rows.len(),
        point_ids(points) == row_ids(rows),
{
    assert forall|i: int| 0 <= i < points.len() implies #[trigger] point_ids(points)[i] == row_ids(rows)[i] by {
        assert(is_point_of(points[i], rows[i]@, embeddings[i]));
    }
    assert(point_ids(points) =~= row_ids(rows));
}

/// The ids of `points`, in order.
pub open spec fn point_ids(points: Seq<Point>) -> Seq<u64> {
    points.map_values(|p: Point| p.id)
}

/// The ids of `rows`, in order.
pub open spec fn row_ids(rows: Seq<Row>) -> Seq<u64> {
    rows.map_values(|row: Row| row.id)
}

/// A document ingested with description `d` and then found as the top hit
/// of a search is retrieved as `d`.
pub proof fn lemma_round_trip(p: Point, row: Row, v: Embedding, hits: Seq<SearchHit>)
    requires
        is_point_of(p, row@, v),
        hits.len() > 0,
        hits[0].description == Some(p.payload.description),
    ensures
        retrieved_text(descriptions_of(hits)) == row.description@,
{
}

} // verus!
