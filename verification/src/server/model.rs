//! What the server does, over mathematical values: what it learns from a request, the questions
//! it puts to its records, and how their answers decide the reply.

use crate::pow::{credits_for_hash, nonce_hash};
use crate::protocol::Rejection;
use crate::scheme::field_order;
use anonymous_credit_tokens::PublicKey;
use vstd::prelude::*;

verus! {

/// What the server can tell of one spend.
pub struct SpendView {
    /// Whether its proof holds.
    pub valid: bool,
    /// The nullifier that it reveals.
    pub nullifier: Seq<u8>,
    /// The amount that it spends.
    pub charge: nat,
}

/// What the server can tell of a request.
pub enum RequestView {
    Spend(SpendView),
    Issue { acceptable: bool, nonce: Seq<u8> },
    GetPublicKey(PublicKey),
    Combine { spends: Seq<SpendView>, acceptable: bool },
    Split { spend: SpendView, accepted: Seq<bool>, amounts: Seq<u128> },
    CheckNullifier(Seq<u8>),
}

/// A question to the records, or a change to them.
pub enum QueryView {
    HasNullifier(Seq<u8>),
    AddNullifier(Seq<u8>),
    HasPowHash(Seq<u8>),
    AddPowHash(Seq<u8>),
    HasNonce(Seq<u8>),
    AddNonce(Seq<u8>),
}

/// What the records answer.
#[derive(Clone, Copy, Debug, PartialEq, Eq, Structural)]
pub enum Answer {
    /// Whether the key is there.
    Found(bool),
    /// The key is there now; whether it was not there before.
    Added(bool),
    /// The records could not be read or written.
    Failed,
}

/// What the server remembers of a request while its records are asked.
pub enum FlowView {
    Spend,
    IssueHash { acceptable: bool, nonce: Seq<u8>, hash: Seq<u8> },
    IssueNonce { acceptable: bool, nonce: Seq<u8>, hash: Seq<u8> },
    IssueInsert { nonce: Seq<u8>, credits: nat },
    IssueStore { credits: nat },
    SplitSeen { spend: SpendView, accepted: Seq<bool>, amounts: Seq<u128> },
    SplitInsert { accepted: Seq<bool>, amounts: Seq<u128> },
    CombineSeen { spends: Seq<SpendView>, next: int, total: nat, acceptable: bool },
    CombineInsert { spends: Seq<SpendView>, next: int, total: nat, acceptable: bool },
    Status,
}

/// A reply that grants the request: what kind it is and what it is worth.
pub enum ReplyView {
    Refund,
    Issue(nat),
    PublicKey(PublicKey),
    Issuances(Seq<nat>),
    NullifierStatus(bool),
}

/// What comes next: a question to the records, or the reply.
pub enum StepView {
    Ask(FlowView, QueryView),
    Reply(Result<ReplyView, Rejection>),
}

/// The sum of some amounts.
pub open spec fn total(amounts: Seq<u128>) -> nat
    decreases amounts.len(),
{
    if amounts.len() == 0 {
        0
    } else {
        total(amounts.drop_last()) + amounts.last() as nat
    }
}

/// The sum of the charges of some spends, as the scheme adds them up: in its field.
pub open spec fn field_total(spends: Seq<SpendView>) -> nat
    decreases spends.len(),
{
    if spends.len() == 0 {
        0
    } else {
        (field_total(spends.drop_last()) + spends.last().charge) % field_order()
    }
}

/// The amounts as numbers.
pub open spec fn amounts_as_nats(amounts: Seq<u128>) -> Seq<nat> {
    amounts.map_values(|amount: u128| amount as nat)
}

/// Whether all of some flags are set.
pub open spec fn all_set(flags: Seq<bool>) -> bool {
    forall|i: int| 0 <= i < flags.len() ==> #[trigger] flags[i]
}

/// The index of the first flag that is not set.
pub open spec fn first_unset(flags: Seq<bool>) -> int
    decreases flags.len(),
{
    if flags.len() == 0 || !flags[0] {
        0
    } else {
        1 + first_unset(flags.skip(1))
    }
}

/// A refusal.
pub open spec fn refuse(why: Rejection) -> StepView {
    StepView::Reply(Err(why))
}

/// A reply that grants the request.
pub open spec fn grant(reply: ReplyView) -> StepView {
    StepView::Reply(Ok(reply))
}

/// The next step of a combination once the spends before `next` have been checked.
pub open spec fn combine_step(
    spends: Seq<SpendView>,
    next: int,
    total: nat,
    acceptable: bool,
) -> StepView {
    if next < spends.len() {
        if spends[next].valid {
            StepView::Ask(
                FlowView::CombineSeen { spends, next, total, acceptable },
                QueryView::HasNullifier(spends[next].nullifier),
            )
        } else {
            refuse(Rejection::InvalidSpendProof)
        }
    } else if total > u128::MAX {
        refuse(Rejection::TooManyCredits)
    } else {
        StepView::Ask(
            FlowView::CombineInsert { spends, next: 0, total, acceptable },
            QueryView::AddNullifier(spends[0].nullifier),
        )
    }
}

/// The first step for a request.
pub open spec fn first_step(request: RequestView) -> StepView {
    match request {
        RequestView::Spend(spend) => if spend.valid {
            StepView::Ask(FlowView::Spend, QueryView::AddNullifier(spend.nullifier))
        } else {
            refuse(Rejection::BadSpendProof)
        },
        RequestView::Issue { acceptable, nonce } => StepView::Ask(
            FlowView::IssueHash { acceptable, nonce, hash: nonce_hash(nonce) },
            QueryView::HasPowHash(nonce_hash(nonce)),
        ),
        RequestView::GetPublicKey(key) => grant(ReplyView::PublicKey(key)),
        RequestView::Combine { spends, acceptable } => if spends.len() == 0 {
            refuse(Rejection::NoSpendProofs)
        } else {
            combine_step(spends, 0, 0, acceptable)
        },
        RequestView::Split { spend, accepted, amounts } => if accepted.len() != amounts.len() {
            refuse(Rejection::MismatchedAmounts)
        } else if accepted.len() == 0 {
            refuse(Rejection::NoIssuanceRequests)
        } else if !spend.valid {
            refuse(Rejection::InvalidSpendProof)
        } else {
            StepView::Ask(
                FlowView::SplitSeen { spend, accepted, amounts },
                QueryView::HasNullifier(spend.nullifier),
            )
        },
        RequestView::CheckNullifier(nullifier) => StepView::Ask(
            FlowView::Status,
            QueryView::HasNullifier(nullifier),
        ),
    }
}

/// Whether an answer is one that the question of a flow can have. Looking up a nullifier or a
/// hash cannot fail.
pub open spec fn fits(flow: FlowView, answer: Answer) -> bool {
    match flow {
        FlowView::IssueHash { .. }
        | FlowView::SplitSeen { .. }
        | FlowView::CombineSeen { .. }
        | FlowView::Status => answer is Found,
        FlowView::IssueNonce { .. } => answer is Found || answer is Failed,
        _ => answer is Added || answer is Failed,
    }
}

/// The reply to a spend once its nullifier has been handed to the records.
pub open spec fn after_spend(answer: Answer) -> StepView {
    match answer {
        Answer::Added(true) => grant(ReplyView::Refund),
        Answer::Added(false) => refuse(Rejection::NullifierSeen),
        _ => refuse(Rejection::Internal),
    }
}

/// What follows the insertion of a key that was looked up before: refused where the key has
/// appeared in between.
pub open spec fn after_insertion(answer: Answer, next: StepView) -> StepView {
    match answer {
        Answer::Added(true) => next,
        Answer::Added(false) => refuse(Rejection::Inconsistent),
        _ => refuse(Rejection::Internal),
    }
}

/// What follows the insertion of a nonce.
pub open spec fn after_nonce(answer: Answer, credits: nat) -> StepView {
    match answer {
        Answer::Added(true) => grant(ReplyView::Issue(credits)),
        Answer::Added(false) => refuse(Rejection::PowNonceUsed),
        _ => refuse(Rejection::InternalDatabase),
    }
}

/// What follows the look-up of a nonce.
pub open spec fn after_nonce_check(
    answer: Answer,
    acceptable: bool,
    nonce: Seq<u8>,
    hash: Seq<u8>,
) -> StepView {
    match answer {
        Answer::Found(true) => refuse(Rejection::PowNonceUsed),
        Answer::Found(false) => if acceptable {
            StepView::Ask(
                FlowView::IssueInsert { nonce, credits: credits_for_hash(hash) },
                QueryView::AddPowHash(hash),
            )
        } else {
            refuse(Rejection::InvalidIssuanceProof)
        },
        _ => refuse(Rejection::InternalDatabase),
    }
}

/// How the charge of a split is judged: `None` where it is the sum of the amounts.
pub open spec fn charge_fault(charge: nat, amounts: Seq<u128>) -> Option<Rejection> {
    if charge > u128::MAX {
        Some(Rejection::InvalidCharge)
    } else if charge != total(amounts) {
        Some(Rejection::ChargeMismatch)
    } else {
        None
    }
}

/// The reply to a split whose nullifier is recorded.
pub open spec fn split_reply(accepted: Seq<bool>, amounts: Seq<u128>) -> StepView {
    if all_set(accepted) {
        grant(ReplyView::Issuances(amounts_as_nats(amounts)))
    } else {
        refuse(Rejection::InvalidRequestAt(first_unset(accepted) as usize))
    }
}

/// The step that an answer of the records leads to.
pub open spec fn next_step(flow: FlowView, answer: Answer) -> StepView {
    match flow {
        FlowView::Spend => after_spend(answer),
        FlowView::IssueHash { acceptable, nonce, hash } => if answer == Answer::Found(true) {
            refuse(Rejection::PowHashUsed)
        } else {
            StepView::Ask(
                FlowView::IssueNonce { acceptable, nonce, hash },
                QueryView::HasNonce(nonce),
            )
        },
        FlowView::IssueNonce { acceptable, nonce, hash } => after_nonce_check(
            answer,
            acceptable,
            nonce,
            hash,
        ),
        FlowView::IssueInsert { nonce, credits } => after_insertion(
            answer,
            StepView::Ask(FlowView::IssueStore { credits }, QueryView::AddNonce(nonce)),
        ),
        FlowView::IssueStore { credits } => after_nonce(answer, credits),
        FlowView::SplitSeen { spend, accepted, amounts } => if answer == Answer::Found(true) {
            refuse(Rejection::NullifierSeen)
        } else {
            match charge_fault(spend.charge, amounts) {
                Some(why) => refuse(why),
                None => StepView::Ask(
                    FlowView::SplitInsert { accepted, amounts },
                    QueryView::AddNullifier(spend.nullifier),
                ),
            }
        },
        FlowView::SplitInsert { accepted, amounts } => after_insertion(
            answer,
            split_reply(accepted, amounts),
        ),
        FlowView::CombineSeen { spends, next, total, acceptable } => if answer == Answer::Found(
            true,
        ) {
            refuse(Rejection::NullifierSeen)
        } else {
            combine_step(
                spends,
                next + 1,
                (total + spends[next].charge) % field_order(),
                acceptable,
            )
        },
        FlowView::CombineInsert { spends, next, total, acceptable } => after_insertion(
            answer,
            if next + 1 < spends.len() {
                StepView::Ask(
                    FlowView::CombineInsert { spends, next: next + 1, total, acceptable },
                    QueryView::AddNullifier(spends[next + 1].nullifier),
                )
            } else if acceptable {
                grant(ReplyView::Issue(total))
            } else {
                refuse(Rejection::InvalidIssuanceRequest)
            },
        ),
        FlowView::Status => grant(ReplyView::NullifierStatus(answer == Answer::Found(true))),
    }
}

/// What the server's records hold.
#[verifier::ext_equal]
pub struct RecordsView {
    pub nullifiers: Set<Seq<u8>>,
    pub pow_hashes: Set<Seq<u8>>,
    pub nonces: Set<Seq<u8>>,
}

/// What records that never fail hold after a query, and what they answer.
pub open spec fn ask(records: RecordsView, query: QueryView) -> (RecordsView, Answer) {
    match query {
        QueryView::HasNullifier(key) => (records, Answer::Found(records.nullifiers.contains(key))),
        QueryView::AddNullifier(key) => (
            RecordsView { nullifiers: records.nullifiers.insert(key), ..records },
            Answer::Added(!records.nullifiers.contains(key)),
        ),
        QueryView::HasPowHash(key) => (records, Answer::Found(records.pow_hashes.contains(key))),
        QueryView::AddPowHash(key) => (
            RecordsView { pow_hashes: records.pow_hashes.insert(key), ..records },
            Answer::Added(!records.pow_hashes.contains(key)),
        ),
        QueryView::HasNonce(key) => (records, Answer::Found(records.nonces.contains(key))),
        QueryView::AddNonce(key) => (
            RecordsView { nonces: records.nonces.insert(key), ..records },
            Answer::Added(!records.nonces.contains(key)),
        ),
    }
}

/// Whether an answer is one that a query can have.
pub open spec fn suits(query: QueryView, answer: Answer) -> bool {
    match query {
        QueryView::HasNullifier(_) | QueryView::HasPowHash(_) => answer is Found,
        QueryView::HasNonce(_) => answer is Found || answer is Failed,
        _ => answer is Added || answer is Failed,
    }
}

/// Whether every answer that the query of a step can have fits its flow.
pub open spec fn coherent(step: StepView) -> bool {
    match step {
        StepView::Ask(flow, query) => forall|answer: Answer|
            suits(query, answer) ==> #[trigger] fits(flow, answer),
        StepView::Reply(_) => true,
    }
}

/// The query of the first step of a request has only answers that fit.
pub proof fn lemma_first_step_coherent(request: RequestView)
    ensures
        coherent(first_step(request)),
{
}

/// The query of a later step has only answers that fit.
pub proof fn lemma_next_step_coherent(flow: FlowView, answer: Answer)
    ensures
        coherent(next_step(flow, answer)),
{
}

/// A bound on how many steps are still to come.
pub open spec fn rank(step: StepView) -> nat {
    match step {
        StepView::Reply(_) => 0,
        StepView::Ask(flow, _) => flow_rank(flow),
    }
}

/// A bound on how many steps are still to come, this one counted.
pub open spec fn flow_rank(flow: FlowView) -> nat {
    match flow {
        FlowView::Spend => 1,
        FlowView::IssueHash { .. } => 4,
        FlowView::IssueNonce { .. } => 3,
        FlowView::IssueInsert { .. } => 2,
        FlowView::IssueStore { .. } => 1,
        FlowView::SplitSeen { .. } => 2,
        FlowView::SplitInsert { .. } => 1,
        FlowView::CombineSeen { spends, next, .. } => ahead(spends.len(), next) + spends.len() + 2,
        FlowView::CombineInsert { spends, next, .. } => ahead(spends.len(), next) + 1,
        FlowView::Status => 1,
    }
}

/// How many items there are from `next` on.
pub open spec fn ahead(len: nat, next: int) -> nat {
    if next < len {
        (len - next) as nat
    } else {
        0
    }
}

/// Each answer brings the reply nearer.
pub proof fn lemma_next_step_is_nearer(flow: FlowView, answer: Answer)
    ensures
        rank(next_step(flow, answer)) < flow_rank(flow),
{
}

/// What becomes of the records and what is replied, if the records never fail.
pub open spec fn serve(records: RecordsView, step: StepView) -> (
    RecordsView,
    Result<ReplyView, Rejection>,
)
    decreases rank(step),
{
    match step {
        StepView::Reply(reply) => (records, reply),
        StepView::Ask(flow, query) => {
            proof {
                lemma_next_step_is_nearer(flow, ask(records, query).1);
            }
            serve(ask(records, query).0, next_step(flow, ask(records, query).1))
        },
    }
}

} // verus!
