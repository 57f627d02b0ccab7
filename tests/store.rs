use rag_pipeline::point::{Embedding, Payload, Point, Query};
use rag_pipeline::store::{
    create_index, ensure_index, group_value, has_index, insert, search, search_results, Distance,
    HnswConfig, SearchHit, StoreError, SEARCH_LIMIT,
};

fn point(id: u64, dim: usize) -> Point {
    Point {
        id,
        vector: Embedding { bits: vec![0x3f80_0000; dim] },
        payload: Payload { title: format!("t{id}"), description: format!("d{id}"), group_id: id },
    }
}

fn hit(id: u64, group: Option<u64>) -> SearchHit {
    SearchHit { id, group_id: group, title: None, description: Some(format!("d{id}")) }
}

#[test]
fn has_index_matches_exact_names() {
    let names = vec!["first-index".to_string(), "other".to_string()];
    assert!(has_index(&names, "other"));
    assert!(!has_index(&names, "first"));
    assert!(!has_index(&names, "first-index2"));
    assert!(!has_index(&vec![], "first-index"));
}

#[test]
fn create_index_isolated_and_default() {
    let c = create_index("docs", 384, true);
    assert_eq!(c.name, "docs");
    assert_eq!(c.size, 384);
    assert_eq!(c.distance, Distance::Cosine);
    assert_eq!(c.hnsw, Some(HnswConfig { m: 0, payload_m: 16 }));
    let d = create_index("docs", 384, false);
    assert_eq!(d.hnsw, None);
}

#[test]
fn create_collection_twice_declares_once() {
    let mut names: Vec<String> = vec!["a".to_string()];
    let first = ensure_index(&names, "docs", 4, false);
    let c = first.expect("missing collection is declared");
    assert_eq!(c.size, 4);
    names.push(c.name.clone());
    assert!(ensure_index(&names, "docs", 4, false).is_none());
    assert_eq!(names.iter().filter(|n| n.as_str() == "docs").count(), 1);
}

#[test]
fn group_values_read_as_signed() {
    assert_eq!(group_value(7), 7);
    assert_eq!(group_value(i64::MAX as u64), i64::MAX);
    assert_eq!(group_value(u64::MAX), -1);
    assert_eq!(group_value(1u64 << 63), i64::MIN);
}

#[test]
fn search_request_carries_group_filter() {
    let q = Query { query: "hi".to_string(), embedding: Embedding { bits: vec![1, 2, 3] } };
    let r = search(q, "docs", Some(5));
    assert_eq!(r.collection, "docs");
    assert_eq!(r.vector.bits, vec![1, 2, 3]);
    assert_eq!(r.limit, SEARCH_LIMIT);
    assert_eq!(r.limit, 10);
    assert!(r.with_payload);
    assert_eq!(r.filter.map(|f| (f.key, f.value)), Some(("group_id".to_string(), 5)));
    let q2 = Query { query: "hi".to_string(), embedding: Embedding { bits: vec![] } };
    assert!(search(q2, "docs", None).filter.is_none());
}

#[test]
fn group_filter_keeps_only_that_group() {
    let hits = vec![hit(1, Some(2)), hit(2, Some(3)), hit(3, Some(2)), hit(4, None)];
    let r = search_results(hits, Some(2), 10);
    let ids: Vec<u64> = r.iter().map(|h| h.id).collect();
    assert_eq!(ids, vec![1, 3]);
    assert!(r.iter().all(|h| h.group_id == Some(2)));
}

#[test]
fn no_filter_returns_any_group_up_to_k() {
    let hits = vec![hit(1, Some(2)), hit(2, Some(3)), hit(3, None), hit(4, Some(9))];
    let r = search_results(hits, None, 3);
    let ids: Vec<u64> = r.iter().map(|h| h.id).collect();
    assert_eq!(ids, vec![1, 2, 3]);
}

#[test]
fn insert_creates_missing_collection_with_first_dimension() {
    let plan = match insert(vec![point(1, 3), point(2, 3)], "docs", None, true) {
        Ok(p) => p,
        Err(_) => panic!("batch of equal lengths is accepted"),
    };
    let c = plan.create.expect("missing collection is declared");
    assert_eq!(c.size, 3);
    assert_eq!(c.hnsw, Some(HnswConfig { m: 0, payload_m: 16 }));
    assert_eq!(plan.collection, "docs");
    assert_eq!(plan.points.len(), 2);
}

#[test]
fn insert_into_existing_collection_declares_nothing() {
    let plan = match insert(vec![point(1, 3)], "docs", Some(3), false) {
        Ok(p) => p,
        Err(_) => panic!("matching length is accepted"),
    };
    assert!(plan.create.is_none());
    assert_eq!(plan.points[0].id, 1);
}

#[test]
fn insert_rejects_length_other_than_collection() {
    match insert(vec![point(1, 3), point(2, 4)], "docs", Some(3), false) {
        Err(StoreError::DimensionMismatch { id, expected, found }) => {
            assert_eq!((id, expected, found), (2, 3, 4));
        }
        _ => panic!("mismatched length is rejected"),
    }
}

#[test]
fn insert_rejects_batch_of_mixed_lengths() {
    match insert(vec![point(1, 2), point(2, 2), point(3, 5)], "docs", None, false) {
        Err(StoreError::DimensionMismatch { id, expected, found }) => {
            assert_eq!((id, expected, found), (3, 2, 5));
        }
        _ => panic!("mixed lengths are rejected"),
    }
}

#[test]
fn insert_of_nothing_declares_nothing() {
    let plan = match insert(vec![], "docs", None, false) {
        Ok(p) => p,
        Err(_) => panic!("empty batch is accepted"),
    };
    assert!(plan.create.is_none());
    assert!(plan.points.is_empty());
}
