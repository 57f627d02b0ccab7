use rag_pipeline::ingest::{
    build_point, embed_rows, ingest, load_rows, parse_id, parse_row, read_rows, IngestError, Row,
};
use rag_pipeline::point::Embedding;
use rag_pipeline::store::StoreError;

fn row(id: u64, title: &str, description: &str) -> Row {
    Row { id, title: title.to_string(), description: description.to_string() }
}

fn emb(dim: usize) -> Embedding {
    Embedding { bits: vec![0x3f00_0000; dim] }
}

fn fields(fs: &[&str]) -> Vec<String> {
    fs.iter().map(|f| f.to_string()).collect()
}

#[test]
fn ids_in_decimal_and_hex() {
    assert_eq!(parse_id("42"), Some(42));
    assert_eq!(parse_id("+42"), Some(42));
    assert_eq!(parse_id("0x1f"), Some(31));
    assert_eq!(parse_id("0xFF"), Some(255));
    assert_eq!(parse_id("0x+1f"), Some(31));
    assert_eq!(parse_id("0xffffffffffffffff"), Some(u64::MAX));
    assert_eq!(parse_id("007"), Some(7));
    assert_eq!(parse_id("18446744073709551615"), Some(u64::MAX));
}

#[test]
fn malformed_ids() {
    assert_eq!(parse_id(""), None);
    assert_eq!(parse_id("+"), None);
    assert_eq!(parse_id("-1"), None);
    assert_eq!(parse_id(" 1"), None);
    assert_eq!(parse_id("1a"), None);
    assert_eq!(parse_id("0x"), None);
    assert_eq!(parse_id("0xg"), None);
    assert_eq!(parse_id("0X10"), None);
    assert_eq!(parse_id("18446744073709551616"), None);
    assert_eq!(parse_id("0x10000000000000000"), None);
}

#[test]
fn rows_from_fields() {
    let r = parse_row(&fields(&["3", "Title", "Some text", "extra"])).expect("well formed");
    assert_eq!((r.id, r.title.as_str(), r.description.as_str()), (3, "Title", "Some text"));
    assert!(parse_row(&fields(&["3", "Title"])).is_none());
    assert!(parse_row(&fields(&["x", "Title", "text"])).is_none());
}

#[test]
fn malformed_records_are_skipped() {
    let records = vec![
        Some(fields(&["1", "a", "first"])),
        Some(fields(&["oops", "b", "second"])),
        None,
        Some(fields(&["4", "d", "fourth"])),
    ];
    let parsed = read_rows(&records);
    let ids: Vec<u64> = parsed.rows.iter().map(|r| r.id).collect();
    assert_eq!(ids, vec![1, 4]);
    assert_eq!(parsed.skipped, vec![1, 2]);
}

#[test]
fn rows_from_csv_bytes() {
    let data = b"1,Rust,A systems language\n2,Verus,\"Proofs, for Rust\"\nbad,x,y\n3,only two\n";
    let parsed = load_rows(data);
    assert_eq!(parsed.rows.len(), 2);
    assert_eq!(parsed.rows[0].id, 1);
    assert_eq!(parsed.rows[0].title, "Rust");
    assert_eq!(parsed.rows[1].description, "Proofs, for Rust");
    assert_eq!(parsed.skipped, vec![2, 3]);
}

#[test]
fn point_payload_holds_metadata_and_group() {
    let p = build_point(row(9, "T", "D"), emb(2));
    assert_eq!(p.id, 9);
    assert_eq!(p.vector.bits.len(), 2);
    assert_eq!(p.payload.title, "T");
    assert_eq!(p.payload.description, "D");
    assert_eq!(p.payload.group_id, 9);
}

#[test]
fn embeddings_must_pair_with_rows() {
    match embed_rows(vec![row(1, "a", "b")], vec![]) {
        Err(IngestError::MissingEmbeddings { rows, embeddings }) => assert_eq!((rows, embeddings), (1, 0)),
        _ => panic!("unpaired rows are refused"),
    }
}

#[test]
fn every_valid_row_is_upserted_once() {
    let n: u64 = 50;
    let rows: Vec<Row> = (0..n).map(|i| row(i, "t", &format!("doc {i}"))).collect();
    let embeddings: Vec<Embedding> = (0..n).map(|_| emb(4)).collect();
    let plan = match ingest(rows, embeddings, "docs", None, false) {
        Ok(p) => p,
        Err(_) => panic!("valid batch is ingested"),
    };
    let ids: Vec<u64> = plan.points.iter().map(|p| p.id).collect();
    assert_eq!(ids, (0..n).collect::<Vec<u64>>());
    assert_eq!(plan.create.expect("declared").size, 4);
}

#[test]
fn ingest_of_no_rows_is_a_no_op() {
    let plan = match ingest(vec![], vec![], "docs", None, false) {
        Ok(p) => p,
        Err(_) => panic!("empty batch succeeds"),
    };
    assert!(plan.create.is_none());
    assert!(plan.points.is_empty());
}

#[test]
fn ingest_rejects_embedding_of_wrong_length() {
    match ingest(vec![row(1, "a", "b"), row(2, "c", "d")], vec![emb(3), emb(2)], "docs", Some(3), false) {
        Err(IngestError::Store(StoreError::DimensionMismatch { id, expected, found })) => {
            assert_eq!((id, expected, found), (2, 3, 2));
        }
        _ => panic!("wrong length is rejected"),
    }
}
