//! The per-request state machine that answers one query:
//! `Idle → Retrieving → Reprompted → Generating → Done`, with `Failed`
//! reachable from every state that is not final. The caller performs the
//! embedding, the search and the generation, and hands each outcome back.
use vstd::prelude::*;
use crate::point::{Embedding, Query};
use crate::store::SearchHit;
use crate::text::{fill_template, filled};

verus! {

/// Number of top-ranked candidates that retrieval looks at.
pub const INSPECTED: usize = 3;

/// What stands in for the retrieved text when the search found nothing.
pub const NOT_FOUND: &'static str = "not found";

/// Where a request stands.
#[derive(PartialEq, Eq, Structural, Clone, Copy, Debug)]
pub enum Stage {
    Idle,
    Retrieving,
    Reprompted,
    Generating,
    Done,
    Failed,
}

impl Stage {
    /// Whether the request is over.
    pub open spec fn is_final(self) -> bool {
        self == Stage::Done || self == Stage::Failed
    }
}

/// What the generator is told after each token.
#[derive(PartialEq, Eq, Structural, Clone, Copy, Debug)]
pub enum Feedback {
    Continue,
    Stop,
}

/// Why generation failed.
pub enum InferenceError {
    /// The inference engine reported an error.
    Engine(String),
}

/// The concatenation of `tokens`, in order.
pub open spec fn joined(tokens: Seq<Seq<char>>) -> Seq<char>
    decreases tokens.len(),
{
    if tokens.len() == 0 {
        Seq::empty()
    } else {
        joined(tokens.drop_last()) + tokens.last()
    }
}

/// One request of the pipeline.
pub struct RAG {
    /// The query text.
    pub prompt: String,
    /// The reprompt template; once retrieval is done, the final prompt.
    pub reprompt: String,
    /// Restricts retrieval to one group, if set.
    pub group_id: Option<u64>,
    pub stage: Stage,
    /// The text generated so far.
    pub output: String,
    /// The tokens generated so far, in order.
    pub tokens: Ghost<Seq<Seq<char>>>,
}

/// The text that retrieval takes from the descriptions of the top-ranked
/// hits: that of the first one, or `NOT_FOUND` where there is none.
pub open spec fn retrieved_text(descriptions: Seq<Option<String>>) -> Seq<char> {
    if descriptions.len() > 0 && descriptions[0] is Some {
        descriptions[0]->Some_0@
    } else {
        NOT_FOUND@
    }
}

/// The descriptions of the hits, in their order.
pub open spec fn descriptions_of(hits: Seq<SearchHit>) -> Seq<Option<String>> {
    hits.map_values(|h: SearchHit| h.description)
}

impl RAG {
    /// The generated text is the concatenation of the tokens.
    pub open spec fn wf(&self) -> bool {
        self.output@ == joined(self.tokens@)
    }

    /// A request for `prompt`, answered with `reprompt` as template.
    pub fn new(prompt: String, reprompt: String, group_id: Option<u64>) -> (r: RAG)
        ensures
            r.prompt == prompt,
            r.reprompt == reprompt,
            r.group_id == group_id,
            r.stage == Stage::Idle,
            r.tokens@ == Seq::<Seq<char>>::empty(),
            r.wf(),
    {
        RAG { prompt, reprompt, group_id, stage: Stage::Idle, output: String::new(), tokens: Ghost(Seq::empty()) }
    }

    /// Starts retrieval with the embedding of the query text: the query
    /// to search with.
    pub fn begin_retrieval(&mut self, embedding: Embedding) -> (r: Query)
        requires
            old(self).stage == Stage::Idle,
        ensures
            final(self).stage == Stage::Retrieving,
            r.query@ == old(self).prompt@,
            r.embedding == embedding,
            final(self).prompt == old(self).prompt,
            final(self).reprompt == old(self).reprompt,
            final(self).group_id == old(self).group_id,
            final(self).output == old(self).output,
            final(self).tokens == old(self).tokens,
    {
        self.stage = Stage::Retrieving;
        Query { query: self.prompt.clone(), embedding }
    }

    /// The descriptions of the first `k` hits, in rank order; `None` where
    /// a hit's payload has no description.
    pub fn parse_retrieved(documents: &Vec<SearchHit>, k: usize) -> (r: Vec<Option<String>>)
        ensures
            r@.len() == if documents@.len() < k { documents@.len() } else { k as nat },
            forall|i: int| 0 <= i < r@.len() ==> (#[trigger] r@[i]) == descriptions_of(documents@)[i],
    {
        let mut docs: Vec<Option<String>> = Vec::new();
        let mut i: usize = 0;
        while i < documents.len() && i < k
            invariant
                i <= documents.len(),
                i <= k,
                docs@.len() == i,
                forall|j: int| 0 <= j < i ==> (#[trigger] docs@[j]) == descriptions_of(documents@)[j],
            decreases documents.len() - i,
        {
            let d = match &documents[i].description {
                Some(t) => Some(t.clone()),
                None => None,
            };
            docs.push(d);
            i = i + 1;
        }
        docs
    }

    /// Finishes retrieval with the hits of the search, best first: takes
    /// the description of the top hit (or `NOT_FOUND`), fills the template
    /// with it and the query, and returns it.
    pub fn retrieve(&mut self, hits: &Vec<SearchHit>) -> (r: String)
        requires
            old(self).stage == Stage::Retrieving,
        ensures
            r@ == retrieved_text(descriptions_of(hits@)),
            final(self).reprompt@ == filled(old(self).reprompt@, r@, old(self).prompt@),
            final(self).stage == Stage::Reprompted,
            final(self).prompt == old(self).prompt,
            final(self).group_id == old(self).group_id,
            final(self).output == old(self).output,
            final(self).tokens == old(self).tokens,
    {
        let docs = Self::parse_retrieved(hits, INSPECTED);
        let v: String = if docs.len() > 0 {
            match &docs[0] {
                Some(t) => t.clone(),
                None => NOT_FOUND.to_owned(),
            }
        } else {
            NOT_FOUND.to_owned()
        };
        self.reprompt = fill_template(self.reprompt.as_str(), v.as_str(), self.prompt.as_str());
        self.stage = Stage::Reprompted;
        v
    }

    /// Starts generation: the prompt to hand to the inference engine.
    pub fn begin_generation(&mut self) -> (r: String)
        requires
            old(self).stage == Stage::Reprompted,
        ensures
            r@ == old(self).reprompt@,
            final(self).stage == Stage::Generating,
            final(self).tokens@ == Seq::<Seq<char>>::empty(),
            final(self).wf(),
            final(self).prompt == old(self).prompt,
            final(self).reprompt == old(self).reprompt,
            final(self).group_id == old(self).group_id,
    {
        self.stage = Stage::Generating;
        self.output = String::new();
        self.tokens = Ghost(Seq::empty());
        self.reprompt.clone()
    }

    /// Takes one generated token, in generation order, after the caller has
    /// offered it to the consumer. Generation goes on while the consumer is
    /// still there and stops once it has gone.
    pub fn on_token(&mut self, token: &str, consumer_open: bool) -> (r: Feedback)
        requires
            old(self).stage == Stage::Generating,
            old(self).wf(),
        ensures
            final(self).wf(),
            final(self).tokens@ == old(self).tokens@.push(token@),
            final(self).output@ == old(self).output@ + token@,
            r == (if consumer_open { Feedback::Continue } else { Feedback::Stop }),
            final(self).stage == Stage::Generating,
            final(self).prompt == old(self).prompt,
            final(self).reprompt == old(self).reprompt,
            final(self).group_id == old(self).group_id,
    {
        self.output.append(token);
        self.tokens = Ghost(self.tokens@.push(token@));
        proof {
            assert(self.tokens@.drop_last() =~= old(self).tokens@);
        }
        if consumer_open {
            Feedback::Continue
        } else {
            Feedback::Stop
        }
    }

    /// Ends generation with the engine's outcome: the whole generated text,
    /// or the engine's error, which ends the request as failed.
    pub fn finish_generation(&mut self, outcome: Result<(), InferenceError>) -> (r: Result<String, InferenceError>)
        requires
            old(self).stage == Stage::Generating,
            old(self).wf(),
        ensures
            outcome is Ok ==> final(self).stage == Stage::Done && (r matches Ok(text)
                && text@ == joined(old(self).tokens@)),
            outcome is Err ==> final(self).stage == Stage::Failed && (r matches Err(e)
                && outcome == Err::<(), InferenceError>(e)),
            final(self).tokens == old(self).tokens,
            final(self).output == old(self).output,
            final(self).prompt == old(self).prompt,
            final(self).reprompt == old(self).reprompt,
            final(self).group_id == old(self).group_id,
    {
        match outcome {
            Ok(()) => {
                self.stage = Stage::Done;
                Ok(self.output.clone())
            },
            Err(e) => {
                self.stage = Stage::Failed;
                Err(e)
            },
        }
    }

    /// Ends the request as failed, as when the embedding or the search
    /// could not be had.
    pub fn fail(&mut self)
        requires
            !old(self).stage.is_final(),
        ensures
            final(self).stage == Stage::Failed,
            final(self).tokens == old(self).tokens,
            final(self).output == old(self).output,
            final(self).prompt == old(self).prompt,
            final(self).reprompt == old(self).reprompt,
            final(self).group_id == old(self).group_id,
    {
        self.stage = Stage::Failed;
    }
}

} // verus!
