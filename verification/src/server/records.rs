//! The server's records held in memory, and requests worked off against them from start to end.

use super::issuer::{reply_view, Issuer, Query, Step};
use super::model::{
    coherent, first_step, lemma_first_step_coherent, lemma_next_step_coherent, rank, serve,
    Answer, RecordsView,
};
use super::shards::{KeySet, ShardedDB};
use crate::protocol::{Rejection, Request, Response};
use vstd::prelude::*;

verus! {

/// All that the server keeps: the sharded database, and the nonces of proofs of work.
pub struct Records {
    /// The nullifiers and the proof of work hashes.
    pub db: ShardedDB,
    /// The nonces.
    pub nonces: KeySet,
}

impl View for Records {
    type V = RecordsView;

    open spec fn view(&self) -> RecordsView {
        RecordsView {
            nullifiers: self.db.nullifiers(),
            pow_hashes: self.db.pow_hashes(),
            nonces: self.nonces@,
        }
    }
}

impl Records {
    /// The database is well-formed.
    pub open spec fn wf(&self) -> bool {
        self.db.wf()
    }

    /// Empty records.
    pub fn new() -> (records: Records)
        ensures
            records.wf(),
            records@.nullifiers == Set::<Seq<u8>>::empty(),
            records@.pow_hashes == Set::<Seq<u8>>::empty(),
            records@.nonces == Set::<Seq<u8>>::empty(),
    {
        Records { db: ShardedDB::create(), nonces: KeySet::new() }
    }

    /// Answers a query, or carries it out.
    pub fn ask(&mut self, query: &Query) -> (answer: Answer)
        requires
            old(self).wf(),
        ensures
            final(self).wf(),
            (final(self)@, answer) == super::model::ask(old(self)@, query@),
    {
        match query {
            Query::HasNullifier(key) => Answer::Found(self.db.contains_nullifier(key)),
            Query::AddNullifier(key) => Answer::Added(self.db.insert_nullifier(*key)),
            Query::HasPowHash(key) => Answer::Found(self.db.contains_pow_hash(key)),
            Query::AddPowHash(key) => Answer::Added(self.db.insert_pow_hash(*key)),
            Query::HasNonce(key) => Answer::Found(self.nonces.contains(key)),
            Query::AddNonce(key) => Answer::Added(self.nonces.insert(*key)),
        }
    }

    /// Works a request off, from the first step to the reply.
    pub fn process_token(&mut self, issuer: &Issuer, request: Request) -> (reply: Result<
        Response,
        Rejection,
    >)
        requires
            old(self).wf(),
        ensures
            final(self).wf(),
            (final(self)@, reply_view(reply)) == serve(
                old(self)@,
                first_step(issuer.request_view(request)),
            ),
            reply matches Ok(response) ==> issuer.is_answer(request, response),
    {
        let mut step = issuer.start(request);
        proof {
            lemma_first_step_coherent(issuer.request_view(request));
        }
        loop
            invariant
                self.wf(),
                step.comes_from(*issuer, request),
                coherent(step.facts(*issuer)),
                serve(self@, step.facts(*issuer)) == serve(
                    old(self)@,
                    first_step(issuer.request_view(request)),
                ),
            decreases rank(step.facts(*issuer)),
        {
            match step {
                Step::Reply(reply) => {
                    return reply;
                },
                Step::Ask(flow, query) => {
                    let answer = self.ask(&query);
                    proof {
                        super::model::lemma_next_step_is_nearer(flow.facts(*issuer), answer);
                        lemma_next_step_coherent(flow.facts(*issuer), answer);
                    }
                    step = issuer.resume(flow, answer);
                },
            }
        }
    }
}

} // verus!
