//! Decisions of the vector store: which collections exist, how a collection
//! is declared, what a search asks for and keeps, and what an upsert does.
//! The network calls themselves are made by the caller with what these
//! functions return.
use vstd::prelude::*;
use crate::point::{Embedding, Point, Query, GROUP_FIELD};

verus! {

/// Number of candidates a search asks the index for.
pub const SEARCH_LIMIT: u64 = 10;

/// Per-node connectivity of the proximity graph in isolation mode.
pub const ISOLATED_M: u64 = 0;

/// Payload-filtered connectivity kept in isolation mode.
pub const ISOLATED_PAYLOAD_M: u64 = 16;

/// Whether `name` is one of `names`.
pub open spec fn listed(names: Seq<Seq<char>>, name: Seq<char>) -> bool {
    exists|i: int| 0 <= i < names.len() && names[i] == name
}

/// The names of a list of strings.
pub open spec fn names_view(names: Seq<String>) -> Seq<Seq<char>> {
    names.map_values(|s: String| s@)
}

/// Whether `index` is among the collection names `names`, by exact match.
pub fn has_index(names: &Vec<String>, index: &str) -> (r: bool)
    ensures
        r == listed(names_view(names@), index@),
{
    let mut i: usize = 0;
    while i < names.len()
        invariant
            i <= names.len(),
            forall|j: int| 0 <= j < i ==> names@[j]@ != index@,
        decreases names.len() - i,
    {
        if string_eq_str(&names[i], index) {
            assert(names_view(names@)[i as int] == index@);
            return true;
        }
        i = i + 1;
    }
    assert(!listed(names_view(names@), index@)) by {
        assert forall|j: int| 0 <= j < names.len() implies names_view(names@)[j] != index@ by {
            assert(names@[j]@ != index@);
        }
    }
    false
}

/// Whether `a` and `b` hold the same characters.
fn string_eq_str(a: &String, b: &str) -> (r: bool)
    ensures
        r == (a@ == b@),
{
    let x = crate::text::chars_of(a.as_str());
    let y = crate::text::chars_of(b);
    if x.len() != y.len() {
        return false;
    }
    let mut i: usize = 0;
    while i < x.len()
        invariant
            x@ == a@,
            y@ == b@,
            x.len() == y.len(),
            i <= x.len(),
            forall|j: int| 0 <= j < i ==> x@[j] == y@[j],
        decreases x.len() - i,
    {
        if x[i] != y[i] {
            assert(a@[i as int] != b@[i as int]);
            return false;
        }
        i = i + 1;
    }
    assert(x@ =~= y@);
    true
}

/// Distance metric of a collection's vectors.
#[derive(PartialEq, Eq, Structural, Clone, Copy, Debug)]
pub enum Distance {
    Cosine,
}

/// Connectivity settings of the index's proximity graph.
#[derive(PartialEq, Eq, Structural, Clone, Copy, Debug)]
pub struct HnswConfig {
    /// Edges per node of the shared graph.
    pub m: u64,
    /// Edges per node of the graphs built per payload value.
    pub payload_m: u64,
}

/// Everything that declares a collection.
pub struct IndexConfig {
    pub name: String,
    /// Length of every vector the collection holds.
    pub size: u64,
    pub distance: Distance,
    /// `None`: the index's default connectivity.
    pub hnsw: Option<HnswConfig>,
}

/// The graph settings that isolation mode asks for, if any.
pub open spec fn isolation_hnsw(isolation: bool) -> Option<HnswConfig> {
    if isolation {
        Some(HnswConfig { m: ISOLATED_M, payload_m: ISOLATED_PAYLOAD_M })
    } else {
        None
    }
}

/// The declaration of collection `index` with vectors of length `size`
/// under cosine distance. In isolation mode the shared graph is switched off
/// and only the payload-filtered graphs are kept, trading recall for
/// separation between groups.
pub fn create_index(index: &str, size: u64, isolation: bool) -> (r: IndexConfig)
    ensures
        r.name@ == index@,
        r.size == size,
        r.distance == Distance::Cosine,
        r.hnsw == isolation_hnsw(isolation),
{
    let hnsw = if isolation {
        Some(HnswConfig { m: ISOLATED_M, payload_m: ISOLATED_PAYLOAD_M })
    } else {
        None
    };
    IndexConfig { name: index.to_owned(), size, distance: Distance::Cosine, hnsw }
}

/// The collection names after declaring `name` with check-then-create: a
/// name that is listed already is not declared again.
pub open spec fn names_after_create(names: Seq<Seq<char>>, name: Seq<char>) -> Seq<Seq<char>> {
    if listed(names, name) {
        names
    } else {
        names.push(name)
    }
}

/// What to declare, if anything, so that collection `index` exists, given
/// the names of the collections that exist: nothing when it is listed.
pub fn ensure_index(names: &Vec<String>, index: &str, size: u64, isolation: bool) -> (r: Option<IndexConfig>)
    ensures
        r is None <==> listed(names_view(names@), index@),
        r matches Some(c) ==> c.name@ == index@ && c.size == size && c.distance == Distance::Cosine
            && c.hnsw == isolation_hnsw(isolation),
{
    if has_index(names, index) {
        None
    } else {
        Some(create_index(index, size, isolation))
    }
}

/// No name occurs twice in `names`.
pub open spec fn distinct(names: Seq<Seq<char>>) -> bool {
    forall|i: int, j: int| 0 <= i < j < names.len() ==> names[i] != names[j]
}

/// Declaring a collection twice under one name leaves exactly one
/// collection of that name, and the second declaration changes nothing.
pub proof fn lemma_create_idempotent(names: Seq<Seq<char>>, name: Seq<char>)
    requires
        distinct(names),
    ensures
        names_after_create(names_after_create(names, name), name) == names_after_create(names, name),
        distinct(names_after_create(names, name)),
        listed(names_after_create(names, name), name),
{
    let once = names_after_create(names, name);
    if !listed(names, name) {
        assert(once[names.len() as int] == name);
        assert forall|i: int, j: int| 0 <= i < j < once.len() implies once[i] != once[j] by {
            if j == names.len() {
                assert(names[i] != name);
            }
        }
    } else {
        let i = choose|i: int| 0 <= i < names.len() && names[i] == name;
        assert(once[i] == name);
    }
}

/// Restricts a search to points whose payload field `key` equals `value`
/// (the index stores integers as signed 64-bit values).
pub struct GroupFilter {
    pub key: String,
    pub value: i64,
}

/// Everything a nearest-neighbour search sends to the index.
pub struct SearchRequest {
    pub collection: String,
    pub vector: Embedding,
    pub filter: Option<GroupFilter>,
    pub limit: u64,
    pub with_payload: bool,
}

/// A group id as the index stores it: the same 64 bits read as a signed
/// integer.
pub open spec fn stored_group(g: u64) -> int {
    if g <= i64::MAX {
        g as int
    } else {
        g - 0x1_0000_0000_0000_0000
    }
}

/// A group id as the index stores it.
pub fn group_value(g: u64) -> (r: i64)
    ensures
        r == stored_group(g),
{
    if g <= i64::MAX as u64 {
        g as i64
    } else {
        let below: u64 = g - (i64::MAX as u64) - 1;
        (below as i64) + i64::MIN
    }
}

/// The search for `entry` in collection `index`: the `SEARCH_LIMIT`
/// nearest points with their payloads, restricted to points whose
/// `GROUP_FIELD` is `group_id` when one is given.
pub fn search(entry: Query, index: &str, group_id: Option<u64>) -> (r: SearchRequest)
    ensures
        r.collection@ == index@,
        r.vector == entry.embedding,
        r.limit == SEARCH_LIMIT,
        r.with_payload,
        group_id is None <==> r.filter is None,
        group_id matches Some(g) ==> r.filter matches Some(f) && f.key@ == GROUP_FIELD@
            && f.value == stored_group(g),
{
    let filter = match group_id {
        Some(g) => Some(GroupFilter { key: GROUP_FIELD.to_owned(), value: group_value(g) }),
        None => None,
    };
    SearchRequest {
        collection: index.to_owned(),
        vector: entry.embedding,
        filter,
        limit: SEARCH_LIMIT,
        with_payload: true,
    }
}

/// One point that a search returned, most similar first. The payload
/// fields are absent where the stored point lacks them.
pub struct SearchHit {
    pub id: u64,
    pub group_id: Option<u64>,
    pub title: Option<String>,
    pub description: Option<String>,
}

/// Whether a hit may be returned under `group_id`.
pub open spec fn admitted(hit: SearchHit, group_id: Option<u64>) -> bool {
    match group_id {
        Some(g) => hit.group_id == Some(g),
        None => true,
    }
}

/// The hits of `hits` that `group_id` admits, in their order.
pub open spec fn admitted_hits(hits: Seq<SearchHit>, group_id: Option<u64>) -> Seq<SearchHit>
    decreases hits.len(),
{
    if hits.len() == 0 {
        hits
    } else if admitted(hits.last(), group_id) {
        admitted_hits(hits.drop_last(), group_id).push(hits.last())
    } else {
        admitted_hits(hits.drop_last(), group_id)
    }
}

/// Every hit that `admitted_hits` keeps is admitted.
pub proof fn lemma_admitted_hits(hits: Seq<SearchHit>, group_id: Option<u64>)
    ensures
        admitted_hits(hits, group_id).len() <= hits.len(),
        forall|i: int| 0 <= i < admitted_hits(hits, group_id).len()
            ==> admitted(#[trigger] admitted_hits(hits, group_id)[i], group_id),
        group_id is None ==> admitted_hits(hits, group_id) == hits,
    decreases hits.len(),
{
    if hits.len() > 0 {
        lemma_admitted_hits(hits.drop_last(), group_id);
        if group_id is None {
            assert(hits.drop_last().push(hits.last()) =~= hits);
        }
    }
}

/// The first `k` hits of `hits` that `group_id` admits.
pub open spec fn results_of(hits: Seq<SearchHit>, group_id: Option<u64>, k: nat) -> Seq<SearchHit> {
    let a = admitted_hits(hits, group_id);
    a.take(if a.len() < k { a.len() as int } else { k as int })
}

/// A search under a group returns only points of that group; a search
/// without one returns the index's answer as it is, whatever groups it
/// holds, up to `k` points.
pub proof fn lemma_search_scoped(hits: Seq<SearchHit>, group_id: Option<u64>, k: nat)
    ensures
        results_of(hits, group_id, k).len() <= k,
        group_id matches Some(g) ==> forall|i: int| 0 <= i < results_of(hits, group_id, k).len()
            ==> (#[trigger] results_of(hits, group_id, k)[i]).group_id == Some(g),
        group_id is None ==> results_of(hits, group_id, k) == hits.take(
            if hits.len() < k { hits.len() as int } else { k as int },
        ),
{
    lemma_admitted_hits(hits, group_id);
    let a = admitted_hits(hits, group_id);
    assert forall|i: int| 0 <= i < results_of(hits, group_id, k).len()
        implies admitted(#[trigger] results_of(hits, group_id, k)[i], group_id) by {
        assert(results_of(hits, group_id, k)[i] == a[i]);
    }
}

/// What a search returns from the index's answer: the hits in the order the
/// index ranked them, without any that `group_id` excludes, at most `k`.
pub fn search_results(hits: Vec<SearchHit>, group_id: Option<u64>, k: usize) -> (r: Vec<SearchHit>)
    ensures
        r@ == results_of(hits@, group_id, k as nat),
{
    let ghost all = hits@;
    let n = hits.len();
    let mut r: Vec<SearchHit> = Vec::new();
    let mut rest = hits;
    let mut seen: usize = 0;
    while rest.len() > 0 && r.len() < k
        invariant
            seen <= all.len(),
            rest@ == all.skip(seen as int),
            rest.len() == all.len() - seen,
            all.len() == n,
            r.len() <= k,
            r@ == admitted_hits(all.take(seen as int), group_id),
        decreases rest.len(),
    {
        let hit = rest.remove(0);
        proof {
            assert(all.take(seen + 1).drop_last() =~= all.take(seen as int));
            assert(all.take(seen + 1).last() == all[seen as int]);
        }
        let keep = match group_id {
            Some(g) => match hit.group_id {
                Some(h) => h == g,
                None => false,
            },
            None => true,
        };
        if keep {
            r.push(hit);
        }
        seen = seen + 1;
        proof {
            assert(all.skip(seen as int) =~= all.skip(seen - 1).skip(1));
        }
    }
    proof {
        lemma_admitted_prefix(all, group_id, seen as int);
        if rest.len() == 0 {
            assert(all.take(seen as int) =~= all);
        }
    }
    r
}

/// The admitted hits of a prefix are a prefix of the admitted hits.
proof fn lemma_admitted_prefix(hits: Seq<SearchHit>, group_id: Option<u64>, n: int)
    requires
        0 <= n <= hits.len(),
    ensures
        admitted_hits(hits.take(n), group_id).len() <= admitted_hits(hits, group_id).len(),
        admitted_hits(hits.take(n), group_id) == admitted_hits(hits, group_id).take(
            admitted_hits(hits.take(n), group_id).len() as int,
        ),
    decreases hits.len() - n,
{
    if n < hits.len() {
        lemma_admitted_prefix(hits, group_id, n + 1);
        assert(hits.take(n + 1).drop_last() =~= hits.take(n));
        let a = admitted_hits(hits.take(n), group_id);
        let b = admitted_hits(hits.take(n + 1), group_id);
        assert(b.len() >= a.len());
        assert(b.take(a.len() as int) =~= a);
        let c = admitted_hits(hits, group_id);
        assert(c.take(b.len() as int).take(a.len() as int) =~= c.take(a.len() as int));
    } else {
        assert(hits.take(n) =~= hits);
        assert(admitted_hits(hits, group_id).take(admitted_hits(hits, group_id).len() as int)
            =~= admitted_hits(hits, group_id));
    }
}

/// Why the store layer refused a request.
pub enum StoreError {
    /// A point's vector does not have the collection's length.
    DimensionMismatch { id: u64, expected: u64, found: u64 },
    /// The index service could not be reached or refused the request.
    Service(String),
}

/// Whether every point of `points` has a vector of length `d`.
pub open spec fn all_of_dim(points: Seq<Point>, d: nat) -> bool {
    forall|i: int| 0 <= i < points.len() ==> (#[trigger] points[i]).vector.dim() == d
}

/// The vector length an upsert into a collection must have: that of the
/// collection if it exists, else that of the first point.
pub open spec fn batch_dim(points: Seq<Point>, existing: Option<u64>) -> nat {
    match existing {
        Some(d) => d as nat,
        None => if points.len() > 0 { points[0].vector.dim() } else { 0 },
    }
}

/// The index of the first point whose vector is not of length `d`.
pub open spec fn first_off_dim(points: Seq<Point>, d: nat, i: int) -> bool {
    0 <= i < points.len() && points[i].vector.dim() != d
        && forall|j: int| 0 <= j < i ==> (#[trigger] points[j]).vector.dim() == d
}

/// What an upsert sends: a declaration first where the collection is
/// missing, then the points.
pub struct InsertPlan {
    pub create: Option<IndexConfig>,
    pub collection: String,
    pub points: Vec<Point>,
}

/// The upsert of `points` into collection `index`, where `existing` is the
/// vector length of that collection if it exists. A missing collection is
/// declared first with the length of the first point's vector. Every point
/// must have the collection's length; the first one that does not is
/// reported and nothing is sent. An empty batch declares nothing.
pub fn insert(points: Vec<Point>, index: &str, existing: Option<u64>, isolation: bool) -> (r: Result<InsertPlan, StoreError>)
    ensures
        r is Ok <==> all_of_dim(points@, batch_dim(points@, existing)),
        existing matches Some(d) ==> (r is Ok <==> all_of_dim(points@, d as nat)),
        r matches Ok(plan) ==> {
            &&& plan.collection@ == index@
            &&& plan.points@ == points@
            &&& (plan.create is Some <==> existing is None && points@.len() > 0)
            &&& plan.create matches Some(c) ==> c.name@ == index@ && c.size == points@[0].vector.dim()
                && c.distance == Distance::Cosine && c.hnsw == isolation_hnsw(isolation)
        },
        r matches Err(e) ==> e matches StoreError::DimensionMismatch { id, expected, found } && exists|i: int|
            first_off_dim(points@, batch_dim(points@, existing), i) && id == points@[i].id
                && expected == batch_dim(points@, existing) && found == points@[i].vector.dim(),
{
    let d: u64 = match existing {
        Some(d) => d,
        None => if points.len() > 0 { points[0].vector.len() as u64 } else { 0 },
    };
    let mut i: usize = 0;
    while i < points.len()
        invariant
            d == batch_dim(points@, existing),
            i <= points.len(),
            forall|j: int| 0 <= j < i ==> (#[trigger] points@[j]).vector.dim() == d,
        decreases points.len() - i,
    {
        let found = points[i].vector.len() as u64;
        if found != d {
            assert(first_off_dim(points@, d as nat, i as int));
            return Err(StoreError::DimensionMismatch { id: points[i].id, expected: d, found });
        }
        i = i + 1;
    }
    let create = if existing.is_none() && points.len() > 0 {
        Some(create_index(index, d, isolation))
    } else {
        None
    };
    Ok(InsertPlan { create, collection: index.to_owned(), points })
}

} // verus!
