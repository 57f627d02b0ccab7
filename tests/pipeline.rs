use rag_pipeline::ingest::{build_point, Row};
use rag_pipeline::pipeline::{Feedback, InferenceError, Stage, NOT_FOUND, RAG};
use rag_pipeline::point::Embedding;
use rag_pipeline::store::SearchHit;

fn hit(id: u64, description: Option<&str>) -> SearchHit {
    SearchHit { id, group_id: Some(id), title: None, description: description.map(|d| d.to_string()) }
}

fn retrieved(pipe: &mut RAG, hits: Vec<SearchHit>) -> String {
    let q = pipe.begin_retrieval(Embedding { bits: vec![1, 2] });
    assert_eq!(q.query, pipe.prompt);
    assert_eq!(pipe.stage, Stage::Retrieving);
    pipe.retrieve(&hits)
}

#[test]
fn retrieval_fills_template_with_top_hit() {
    let mut pipe = RAG::new("what?".to_string(), "Context: _RETRIEVED_\nQ: _QUERY_".to_string(), None);
    let v = retrieved(&mut pipe, vec![hit(1, Some("best")), hit(2, Some("second"))]);
    assert_eq!(v, "best");
    assert_eq!(pipe.reprompt, "Context: best\nQ: what?");
    assert_eq!(pipe.stage, Stage::Reprompted);
}

#[test]
fn empty_search_falls_back_to_not_found() {
    let mut pipe = RAG::new("q".to_string(), "A _RETRIEVED_ B _QUERY_ C".to_string(), Some(3));
    let v = retrieved(&mut pipe, vec![]);
    assert_eq!(v, "not found");
    assert_eq!(v, NOT_FOUND);
    assert_eq!(pipe.reprompt, "A not found B q C");
}

#[test]
fn top_hit_without_description_falls_back() {
    let mut pipe = RAG::new("q".to_string(), "_RETRIEVED_".to_string(), None);
    let v = retrieved(&mut pipe, vec![hit(1, None), hit(2, Some("later"))]);
    assert_eq!(v, "not found");
}

#[test]
fn ingested_document_is_retrieved() {
    let p = build_point(Row { id: 1, title: "t".to_string(), description: "foo".to_string() }, Embedding { bits: vec![7] });
    let stored = SearchHit {
        id: p.id,
        group_id: Some(p.payload.group_id),
        title: Some(p.payload.title),
        description: Some(p.payload.description),
    };
    let mut pipe = RAG::new("foo".to_string(), "_RETRIEVED_|_QUERY_".to_string(), None);
    let v = retrieved(&mut pipe, vec![stored]);
    assert_eq!(v, "foo");
    assert_eq!(pipe.reprompt, "foo|foo");
}

#[test]
fn streamed_tokens_arrive_in_order() {
    let mut pipe = RAG::new("q".to_string(), "_RETRIEVED_ _QUERY_".to_string(), None);
    let _ = retrieved(&mut pipe, vec![hit(1, Some("ctx"))]);
    let prompt = pipe.begin_generation();
    assert_eq!(prompt, "ctx q");
    assert_eq!(pipe.stage, Stage::Generating);
    let mut observed: Vec<String> = Vec::new();
    for t in ["He", "llo"] {
        let f = pipe.on_token(t, true);
        observed.push(t.to_string());
        assert_eq!(f, Feedback::Continue);
    }
    assert_eq!(observed, vec!["He".to_string(), "llo".to_string()]);
    let out = match pipe.finish_generation(Ok(())) {
        Ok(s) => s,
        Err(_) => panic!("generation succeeded"),
    };
    assert_eq!(out, "Hello");
    assert_eq!(pipe.stage, Stage::Done);
}

#[test]
fn gone_consumer_stops_generation() {
    let mut pipe = RAG::new("q".to_string(), "p".to_string(), None);
    let _ = retrieved(&mut pipe, vec![]);
    let _ = pipe.begin_generation();
    assert_eq!(pipe.on_token("a", false), Feedback::Stop);
    assert_eq!(pipe.output, "a");
}

#[test]
fn engine_failure_fails_the_request() {
    let mut pipe = RAG::new("q".to_string(), "p".to_string(), None);
    let _ = retrieved(&mut pipe, vec![]);
    let _ = pipe.begin_generation();
    match pipe.finish_generation(Err(InferenceError::Engine("boom".to_string()))) {
        Err(InferenceError::Engine(m)) => assert_eq!(m, "boom"),
        Ok(_) => panic!("failure is surfaced"),
    }
    assert_eq!(pipe.stage, Stage::Failed);
}

#[test]
fn search_failure_fails_the_request() {
    let mut pipe = RAG::new("q".to_string(), "p".to_string(), None);
    let _ = pipe.begin_retrieval(Embedding { bits: vec![] });
    pipe.fail();
    assert_eq!(pipe.stage, Stage::Failed);
}

#[test]
fn parse_retrieved_takes_first_k() {
    let hits = vec![hit(1, Some("a")), hit(2, None), hit(3, Some("c")), hit(4, Some("d"))];
    let docs = RAG::parse_retrieved(&hits, 3);
    assert_eq!(docs, vec![Some("a".to_string()), None, Some("c".to_string())]);
}
