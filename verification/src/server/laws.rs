//! What holds of the server as a whole, whatever the requests and in whatever order they come.
//! The laws speak of records that never fail.

use super::model::{
    all_set, amounts_as_nats, ask, combine_step, field_total, first_step, first_unset, fits,
    lemma_next_step_is_nearer, next_step, rank, serve, total, Answer, FlowView, QueryView,
    RecordsView, ReplyView, RequestView, SpendView, StepView,
};
use crate::pow::{credits_for_hash, nonce_hash};
use crate::protocol::Rejection;
use crate::scheme::field_order;
use anonymous_credit_tokens::PublicKey;
use vstd::prelude::*;

verus! {

/// The records after a request.
pub open spec fn records_after(records: RecordsView, request: RequestView) -> RecordsView {
    serve(records, first_step(request)).0
}

/// The reply to a request.
pub open spec fn reply_to(records: RecordsView, request: RequestView) -> Result<
    ReplyView,
    Rejection,
> {
    serve(records, first_step(request)).1
}

/// Whether a request spends the token with this nullifier.
pub open spec fn spends(request: RequestView, nullifier: Seq<u8>) -> bool {
    match request {
        RequestView::Spend(spend) => spend.nullifier == nullifier,
        RequestView::Split { spend, .. } => spend.nullifier == nullifier,
        RequestView::Combine { spends, .. } => exists|i: int|
            0 <= i < spends.len() && (#[trigger] spends[i]).nullifier == nullifier,
        _ => false,
    }
}

/// Whether some records hold all that others do.
pub open spec fn grown(before: RecordsView, after: RecordsView) -> bool {
    &&& before.nullifiers.subset_of(after.nullifiers)
    &&& before.pow_hashes.subset_of(after.pow_hashes)
    &&& before.nonces.subset_of(after.nonces)
}

proof fn lemma_serve_grows(records: RecordsView, step: StepView)
    ensures
        grown(records, serve(records, step).0),
    decreases rank(step),
{
    if let StepView::Ask(flow, query) = step {
        lemma_next_step_is_nearer(flow, ask(records, query).1);
        lemma_serve_grows(ask(records, query).0, next_step(flow, ask(records, query).1));
    }
}

/// Nothing ever leaves the records.
pub proof fn law_records_only_grow(records: RecordsView, request: RequestView)
    ensures
        grown(records, records_after(records, request)),
{
    lemma_serve_grows(records, first_step(request));
}

/// A spend is refunded exactly where its proof holds and its nullifier is new. Then, and only
/// then, the nullifier is recorded.
pub proof fn law_spend(records: RecordsView, spend: SpendView)
    ensures
        reply_to(records, RequestView::Spend(spend)) == if !spend.valid {
            Err::<ReplyView, Rejection>(Rejection::BadSpendProof)
        } else if records.nullifiers.contains(spend.nullifier) {
            Err(Rejection::NullifierSeen)
        } else {
            Ok(ReplyView::Refund)
        },
        records_after(records, RequestView::Spend(spend)) == if spend.valid {
            RecordsView { nullifiers: records.nullifiers.insert(spend.nullifier), ..records }
        } else {
            records
        },
{
    reveal_with_fuel(serve, 2);
}

/// A token is issued for a proof of work exactly where neither its hash nor its nonce was used
/// before and the request's proof holds. The token is worth what the hash is worth, and both the
/// hash and the nonce are used up.
pub proof fn law_issue(records: RecordsView, acceptable: bool, nonce: Seq<u8>)
    ensures
        ({
            let hash = nonce_hash(nonce);
            let request = RequestView::Issue { acceptable, nonce };
            let reply = reply_to(records, request);
            let after = records_after(records, request);
            if records.pow_hashes.contains(hash) {
                reply == Err::<ReplyView, Rejection>(Rejection::PowHashUsed) && after == records
            } else if records.nonces.contains(nonce) {
                reply == Err::<ReplyView, Rejection>(Rejection::PowNonceUsed) && after == records
            } else if !acceptable {
                reply == Err::<ReplyView, Rejection>(Rejection::InvalidIssuanceProof) && after
                    == records
            } else {
                &&& reply == Ok::<ReplyView, Rejection>(ReplyView::Issue(credits_for_hash(hash)))
                &&& after == RecordsView {
                    pow_hashes: records.pow_hashes.insert(hash),
                    nonces: records.nonces.insert(nonce),
                    ..records
                }
            }
        }),
{
    reveal_with_fuel(serve, 5);
}

/// A proof of work is good for one token: once it has been accepted, no later request with the
/// same nonce is, whatever has happened in between.
pub proof fn law_proof_of_work_counts_once(
    records: RecordsView,
    acceptable: bool,
    nonce: Seq<u8>,
    later: RecordsView,
    acceptable_later: bool,
)
    requires
        reply_to(records, RequestView::Issue { acceptable, nonce }) is Ok,
        grown(records_after(records, RequestView::Issue { acceptable, nonce }), later),
    ensures
        reply_to(later, RequestView::Issue { acceptable: acceptable_later, nonce }) == Err::<
            ReplyView,
            Rejection,
        >(Rejection::PowHashUsed),
{
    law_issue(records, acceptable, nonce);
    law_issue(later, acceptable_later, nonce);
}

/// How a split ends. Where the amounts add up to the charge of a fresh spend, the nullifier is
/// recorded, and the tokens are issued with just those amounts if every request is acceptable.
/// Before that point nothing is recorded.
pub proof fn law_split(
    records: RecordsView,
    spend: SpendView,
    accepted: Seq<bool>,
    amounts: Seq<u128>,
)
    ensures
        ({
            let request = RequestView::Split { spend, accepted, amounts };
            let reply = reply_to(records, request);
            let after = records_after(records, request);
            let paid = RecordsView {
                nullifiers: records.nullifiers.insert(spend.nullifier),
                ..records
            };
            if accepted.len() != amounts.len() {
                reply == Err::<ReplyView, Rejection>(Rejection::MismatchedAmounts) && after
                    == records
            } else if amounts.len() == 0 {
                reply == Err::<ReplyView, Rejection>(Rejection::NoIssuanceRequests) && after
                    == records
            } else if !spend.valid {
                reply == Err::<ReplyView, Rejection>(Rejection::InvalidSpendProof) && after
                    == records
            } else if records.nullifiers.contains(spend.nullifier) {
                reply == Err::<ReplyView, Rejection>(Rejection::NullifierSeen) && after == records
            } else if spend.charge > u128::MAX {
                reply == Err::<ReplyView, Rejection>(Rejection::InvalidCharge) && after == records
            } else if spend.charge != total(amounts) {
                reply == Err::<ReplyView, Rejection>(Rejection::ChargeMismatch) && after == records
            } else if all_set(accepted) {
                reply == Ok::<ReplyView, Rejection>(
                    ReplyView::Issuances(amounts_as_nats(amounts)),
                ) && after == paid
            } else {
                reply == Err::<ReplyView, Rejection>(
                    Rejection::InvalidRequestAt(first_unset(accepted) as usize),
                ) && after == paid
            }
        }),
{
    reveal_with_fuel(serve, 3);
}

/// The sum of some numbers.
pub open spec fn sum(numbers: Seq<nat>) -> nat
    decreases numbers.len(),
{
    if numbers.len() == 0 {
        0
    } else {
        sum(numbers.drop_last()) + numbers.last()
    }
}

pub(crate) proof fn lemma_total_is_sum(amounts: Seq<u128>)
    ensures
        sum(amounts_as_nats(amounts)) == total(amounts),
    decreases amounts.len(),
{
    if amounts.len() > 0 {
        lemma_total_is_sum(amounts.drop_last());
        assert(amounts_as_nats(amounts).drop_last() =~= amounts_as_nats(amounts.drop_last()));
    }
}

/// A split neither makes nor loses credits: the tokens that it issues are worth together what
/// was spent.
pub proof fn law_split_conserves_credits(
    records: RecordsView,
    spend: SpendView,
    accepted: Seq<bool>,
    amounts: Seq<u128>,
)
    ensures
        reply_to(records, RequestView::Split { spend, accepted, amounts }) matches Ok(reply)
            ==> reply matches ReplyView::Issuances(worths) && sum(worths) == spend.charge,
{
    law_split(records, spend, accepted, amounts);
    lemma_total_is_sum(amounts);
}

/// Whether the spends from `next` on hold and have new nullifiers.
pub open spec fn fresh_from(records: RecordsView, spends: Seq<SpendView>, next: int) -> bool {
    forall|i: int|
        next <= i < spends.len() ==> (#[trigger] spends[i]).valid && !records.nullifiers.contains(
            spends[i].nullifier,
        )
}

/// Whether no nullifier occurs twice among some spends.
pub open spec fn distinct_nullifiers(spends: Seq<SpendView>) -> bool {
    forall|i: int, j: int|
        0 <= i < j < spends.len() ==> (#[trigger] spends[i]).nullifier != (
        #[trigger] spends[j]).nullifier
}

/// The nullifiers of the spends from `next` on.
pub open spec fn nullifiers_from(spends: Seq<SpendView>, next: int) -> Set<Seq<u8>> {
    Set::new(
        |nullifier: Seq<u8>|
            exists|i: int|
                next <= i < spends.len() && (#[trigger] spends[i]).nullifier == nullifier,
    )
}

/// The nullifiers of some spends.
pub open spec fn nullifiers_of(spends: Seq<SpendView>) -> Set<Seq<u8>> {
    nullifiers_from(spends, 0)
}

proof fn lemma_combine_checks(
    records: RecordsView,
    spends: Seq<SpendView>,
    next: int,
    sum: nat,
    acceptable: bool,
)
    requires
        0 <= next <= spends.len(),
        spends.len() > 0,
        sum == field_total(spends.take(next)),
    ensures
        ({
            let end = serve(records, combine_step(spends, next, sum, acceptable));
            if !fresh_from(records, spends, next) {
                &&& end.0 == records
                &&& end.1 == Err::<ReplyView, Rejection>(Rejection::InvalidSpendProof) || end.1
                    == Err::<ReplyView, Rejection>(Rejection::NullifierSeen)
            } else if field_total(spends) > u128::MAX {
                end == (records, Err::<ReplyView, Rejection>(Rejection::TooManyCredits))
            } else {
                end == serve(
                    records,
                    StepView::Ask(
                        FlowView::CombineInsert {
                            spends,
                            next: 0,
                            total: field_total(spends),
                            acceptable,
                        },
                        QueryView::AddNullifier(spends[0].nullifier),
                    ),
                )
            }
        }),
    decreases spends.len() - next,
{
    if next < spends.len() {
        let spend = spends[next];
        if spend.valid && !records.nullifiers.contains(spend.nullifier) {
            let more = (sum + spend.charge) % field_order();
            assert(spends.take(next + 1).drop_last() =~= spends.take(next));
            lemma_combine_checks(records, spends, next + 1, more, acceptable);
            assert(fresh_from(records, spends, next) <==> fresh_from(records, spends, next + 1));
        } else {
            assert(!fresh_from(records, spends, next));
            reveal_with_fuel(serve, 2);
        }
    } else {
        assert(spends.take(next) =~= spends);
        reveal_with_fuel(serve, 1);
    }
}

/// Whether inserting the nullifiers from `next` on meets none that is there already.
spec fn insertable(records: RecordsView, spends: Seq<SpendView>, next: int) -> bool {
    forall|i: int|
        next <= i < spends.len() ==> !records.nullifiers.contains((#[trigger] spends[i]).nullifier)
            && forall|j: int|
            next <= j < i ==> (#[trigger] spends[j]).nullifier != spends[i].nullifier
}

proof fn lemma_combine_inserts(
    records: RecordsView,
    spends: Seq<SpendView>,
    next: int,
    sum: nat,
    acceptable: bool,
)
    requires
        0 <= next < spends.len(),
    ensures
        ({
            let step = StepView::Ask(
                FlowView::CombineInsert { spends, next, total: sum, acceptable },
                QueryView::AddNullifier(spends[next].nullifier),
            );
            let end = serve(records, step);
            if insertable(records, spends, next) {
                &&& end.0 == RecordsView {
                    nullifiers: records.nullifiers.union(nullifiers_from(spends, next)),
                    ..records
                }
                &&& end.1 == if acceptable {
                    Ok::<ReplyView, Rejection>(ReplyView::Issue(sum))
                } else {
                    Err(Rejection::InvalidIssuanceRequest)
                }
            } else {
                &&& end.1 == Err::<ReplyView, Rejection>(Rejection::Inconsistent)
                &&& end.0.nullifiers.subset_of(
                    records.nullifiers.union(nullifiers_from(spends, next)),
                )
                &&& end.0 == RecordsView { nullifiers: end.0.nullifiers, ..records }
            }
        }),
    decreases spends.len() - next,
{
    let nullifier = spends[next].nullifier;
    assert(nullifiers_from(spends, next).contains(nullifier));
    let after = ask(records, QueryView::AddNullifier(nullifier)).0;
    if records.nullifiers.contains(nullifier) {
        assert(!insertable(records, spends, next));
        reveal_with_fuel(serve, 2);
    } else if next + 1 < spends.len() {
        lemma_combine_inserts(after, spends, next + 1, sum, acceptable);
        assert(nullifiers_from(spends, next + 1).subset_of(nullifiers_from(spends, next)));
        if insertable(records, spends, next) {
            assert forall|i: int| next + 1 <= i < spends.len() implies !after.nullifiers.contains(
                (#[trigger] spends[i]).nullifier,
            ) && forall|j: int|
                next + 1 <= j < i ==> (#[trigger] spends[j]).nullifier != spends[i].nullifier by {
                assert(spends[next].nullifier != spends[i].nullifier);
            }
            assert(insertable(after, spends, next + 1));
            assert(after.nullifiers.union(nullifiers_from(spends, next + 1))
                =~= records.nullifiers.union(nullifiers_from(spends, next)));
        } else if insertable(after, spends, next + 1) {
            assert forall|i: int| next <= i < spends.len() implies !records.nullifiers.contains(
                (#[trigger] spends[i]).nullifier,
            ) && forall|j: int|
                next <= j < i ==> (#[trigger] spends[j]).nullifier != spends[i].nullifier by {
                if i > next {
                    assert(!after.nullifiers.contains(spends[i].nullifier));
                }
            }
            assert(false);
        }
    } else {
        assert forall|i: int| next <= i < spends.len() implies !records.nullifiers.contains(
            (#[trigger] spends[i]).nullifier,
        ) && forall|j: int|
            next <= j < i ==> (#[trigger] spends[j]).nullifier != spends[i].nullifier by {}
        assert(insertable(records, spends, next));
        assert(after.nullifiers =~= records.nullifiers.union(nullifiers_from(spends, next)));
        reveal_with_fuel(serve, 2);
    }
}

/// How a combination ends. Where all spends hold, with nullifiers that are new and occur once,
/// and their charges add up to what a token can hold, all the nullifiers are recorded, and a
/// token worth the sum is issued if the request is acceptable. Before that point nothing is
/// recorded; where a nullifier occurs twice, no more than those of the spends.
pub proof fn law_combine(records: RecordsView, spends: Seq<SpendView>, acceptable: bool)
    ensures
        ({
            let request = RequestView::Combine { spends, acceptable };
            let reply = reply_to(records, request);
            let after = records_after(records, request);
            let paid = RecordsView {
                nullifiers: records.nullifiers.union(nullifiers_of(spends)),
                ..records
            };
            if spends.len() == 0 {
                reply == Err::<ReplyView, Rejection>(Rejection::NoSpendProofs) && after == records
            } else if !fresh_from(records, spends, 0) {
                &&& reply == Err::<ReplyView, Rejection>(Rejection::InvalidSpendProof) || reply
                    == Err::<ReplyView, Rejection>(Rejection::NullifierSeen)
                &&& after == records
            } else if field_total(spends) > u128::MAX {
                reply == Err::<ReplyView, Rejection>(Rejection::TooManyCredits) && after == records
            } else if !distinct_nullifiers(spends) {
                &&& reply == Err::<ReplyView, Rejection>(Rejection::Inconsistent)
                &&& after.nullifiers.subset_of(paid.nullifiers)
                &&& after == RecordsView { nullifiers: after.nullifiers, ..records }
            } else if acceptable {
                reply == Ok::<ReplyView, Rejection>(ReplyView::Issue(field_total(spends))) && after
                    == paid
            } else {
                reply == Err::<ReplyView, Rejection>(Rejection::InvalidIssuanceRequest) && after
                    == paid
            }
        }),
{
    if spends.len() > 0 {
        assert(spends.take(0) =~= Seq::empty());
        lemma_combine_checks(records, spends, 0, 0, acceptable);
        lemma_combine_inserts(records, spends, 0, field_total(spends), acceptable);
        if fresh_from(records, spends, 0) {
            if insertable(records, spends, 0) {
                assert(distinct_nullifiers(spends));
            } else if distinct_nullifiers(spends) {
                assert forall|i: int| 0 <= i < spends.len() implies !records.nullifiers.contains(
                    (#[trigger] spends[i]).nullifier,
                ) && forall|j: int|
                    0 <= j < i ==> (#[trigger] spends[j]).nullifier != spends[i].nullifier by {}
                assert(false);
            }
        }
    }
}

/// The charges of some spends.
pub open spec fn charges(spends: Seq<SpendView>) -> Seq<nat> {
    spends.map_values(|spend: SpendView| spend.charge)
}

/// Charges that a token can hold add up in the field as they do among the integers.
pub proof fn lemma_field_total_is_sum(spends: Seq<SpendView>)
    requires
        spends.len() <= u64::MAX,
        forall|i: int| 0 <= i < spends.len() ==> (#[trigger] spends[i]).charge <= u128::MAX,
    ensures
        field_total(spends) == sum(charges(spends)),
        sum(charges(spends)) <= spends.len() * u128::MAX,
    decreases spends.len(),
{
    if spends.len() > 0 {
        let rest = spends.drop_last();
        assert forall|i: int| 0 <= i < rest.len() implies (#[trigger] rest[i]).charge
            <= u128::MAX by {
            assert(spends[i].charge <= u128::MAX);
        }
        lemma_field_total_is_sum(rest);
        assert(charges(spends).drop_last() =~= charges(rest));
        assert(spends.last() == spends[spends.len() - 1]);
        assert(spends.len() * u128::MAX < field_order()) by (nonlinear_arith)
            requires
                spends.len() <= u64::MAX,
        ;
        assert(spends.len() * u128::MAX == rest.len() * u128::MAX + u128::MAX) by (nonlinear_arith)
            requires
                spends.len() == rest.len() + 1,
        ;
        vstd::arithmetic::div_mod::lemma_small_mod(sum(charges(spends)), field_order());
    }
}

/// A combination neither makes nor loses credits: the token that it issues is worth what was
/// spent. This is so where each charge is an amount that a token can hold.
pub proof fn law_combine_conserves_credits(
    records: RecordsView,
    spends: Seq<SpendView>,
    acceptable: bool,
)
    requires
        spends.len() <= u64::MAX,
        forall|i: int| 0 <= i < spends.len() ==> (#[trigger] spends[i]).charge <= u128::MAX,
    ensures
        reply_to(records, RequestView::Combine { spends, acceptable }) matches Ok(reply) ==> reply
            == ReplyView::Issue(sum(charges(spends))),
{
    law_combine(records, spends, acceptable);
    lemma_field_total_is_sum(spends);
}

/// A request that spends a token whose nullifier is recorded is refused.
pub proof fn law_spent_token_is_refused(
    records: RecordsView,
    request: RequestView,
    nullifier: Seq<u8>,
)
    requires
        records.nullifiers.contains(nullifier),
        spends(request, nullifier),
    ensures
        reply_to(records, request) is Err,
{
    match request {
        RequestView::Spend(spend) => {
            law_spend(records, spend);
        },
        RequestView::Split { spend, accepted, amounts } => {
            law_split(records, spend, accepted, amounts);
        },
        RequestView::Combine { spends, acceptable } => {
            law_combine(records, spends, acceptable);
            let i = choose|i: int|
                0 <= i < spends.len() && (#[trigger] spends[i]).nullifier == nullifier;
            assert(records.nullifiers.contains(spends[i].nullifier));
        },
        _ => {},
    }
}

/// A request that is granted records the nullifier of every token that it spends.
pub proof fn law_granted_spend_is_recorded(
    records: RecordsView,
    request: RequestView,
    nullifier: Seq<u8>,
)
    requires
        spends(request, nullifier),
        reply_to(records, request) is Ok,
    ensures
        records_after(records, request).nullifiers.contains(nullifier),
{
    match request {
        RequestView::Spend(spend) => {
            law_spend(records, spend);
        },
        RequestView::Split { spend, accepted, amounts } => {
            law_split(records, spend, accepted, amounts);
        },
        RequestView::Combine { spends, acceptable } => {
            law_combine(records, spends, acceptable);
        },
        _ => {},
    }
}

/// No token is spent twice: once a request that spends it has been granted, every later request
/// that spends it is refused, whatever has happened in between.
pub proof fn law_no_double_spend(
    records: RecordsView,
    request: RequestView,
    later: RecordsView,
    again: RequestView,
    nullifier: Seq<u8>,
)
    requires
        spends(request, nullifier),
        reply_to(records, request) is Ok,
        grown(records_after(records, request), later),
        spends(again, nullifier),
    ensures
        reply_to(later, again) is Err,
{
    law_granted_spend_is_recorded(records, request, nullifier);
    law_spent_token_is_refused(later, again, nullifier);
}

/// A refusal leaves the records as they were, unless it comes after the tokens to be spent have
/// been recorded: because an issuance request does not hold, or because a combination spends one
/// token twice.
pub proof fn law_refusal_changes_nothing(records: RecordsView, request: RequestView)
    requires
        reply_to(records, request) matches Err(why) && !(why is InvalidRequestAt
            || why is InvalidIssuanceRequest || why is Inconsistent),
    ensures
        records_after(records, request) == records,
{
    match request {
        RequestView::Spend(spend) => {
            law_spend(records, spend);
            assert(records.nullifiers.contains(spend.nullifier) ==> records.nullifiers.insert(
                spend.nullifier,
            ) =~= records.nullifiers);
        },
        RequestView::Issue { acceptable, nonce } => {
            law_issue(records, acceptable, nonce);
        },
        RequestView::Split { spend, accepted, amounts } => {
            law_split(records, spend, accepted, amounts);
        },
        RequestView::Combine { spends, acceptable } => {
            law_combine(records, spends, acceptable);
        },
        RequestView::GetPublicKey(_) => {},
        RequestView::CheckNullifier(_) => {
            reveal_with_fuel(serve, 2);
        },
    }
}

/// Asking whether a nullifier has been spent tells whether it is recorded, and changes nothing.
pub proof fn law_check_nullifier(records: RecordsView, nullifier: Seq<u8>)
    ensures
        reply_to(records, RequestView::CheckNullifier(nullifier)) == Ok::<ReplyView, Rejection>(
            ReplyView::NullifierStatus(records.nullifiers.contains(nullifier)),
        ),
        records_after(records, RequestView::CheckNullifier(nullifier)) == records,
{
    reveal_with_fuel(serve, 2);
}

/// Asking for the public key gives the issuer's public key, and changes nothing.
pub proof fn law_public_key(records: RecordsView, key: PublicKey)
    ensures
        reply_to(records, RequestView::GetPublicKey(key)) == Ok::<ReplyView, Rejection>(
            ReplyView::PublicKey(key),
        ),
        records_after(records, RequestView::GetPublicKey(key)) == records,
{
}

/// Where the records fail, the request is refused and the server takes the blame.
pub proof fn law_failing_records_grant_nothing(flow: FlowView)
    requires
        fits(flow, Answer::Failed),
    ensures
        next_step(flow, Answer::Failed) matches StepView::Reply(Err(why)) && why.is_internal(),
{
}

/// How a request that has come to this step ends if the records give these answers, one after
/// the other; `None` where more answers are needed.
pub open spec fn outcome(step: StepView, answers: Seq<Answer>) -> Option<
    Result<ReplyView, Rejection>,
>
    decreases answers.len(),
{
    match step {
        StepView::Reply(reply) => Some(reply),
        StepView::Ask(flow, _) => if answers.len() == 0 {
            None
        } else {
            outcome(next_step(flow, answers[0]), answers.skip(1))
        },
    }
}

/// Whether, on the way, the records have answered this query with the news that the key was not
/// there before.
pub open spec fn was_added(step: StepView, answers: Seq<Answer>, query: QueryView) -> bool
    decreases answers.len(),
{
    match step {
        StepView::Reply(_) => false,
        StepView::Ask(flow, asked) => answers.len() > 0 && {
            ||| asked == query && answers[0] == Answer::Added(true)
            ||| was_added(next_step(flow, answers[0]), answers.skip(1), query)
        },
    }
}

proof fn lemma_insertions_are_confirmed(
    spends: Seq<SpendView>,
    next: int,
    sum: nat,
    acceptable: bool,
    answers: Seq<Answer>,
    i: int,
)
    requires
        0 <= next <= i < spends.len(),
        outcome(
            StepView::Ask(
                FlowView::CombineInsert { spends, next, total: sum, acceptable },
                QueryView::AddNullifier(spends[next].nullifier),
            ),
            answers,
        ) matches Some(Ok(_)),
    ensures
        was_added(
            StepView::Ask(
                FlowView::CombineInsert { spends, next, total: sum, acceptable },
                QueryView::AddNullifier(spends[next].nullifier),
            ),
            answers,
            QueryView::AddNullifier(spends[i].nullifier),
        ),
    decreases spends.len() - next,
{
    let rest = answers.skip(1);
    if answers[0] == Answer::Added(true) {
        if next < i {
            lemma_insertions_are_confirmed(spends, next + 1, sum, acceptable, rest, i);
        }
    } else {
        reveal_with_fuel(outcome, 2);
    }
}

proof fn lemma_checks_lead_to_insertions(
    spends: Seq<SpendView>,
    next: int,
    sum: nat,
    acceptable: bool,
    answers: Seq<Answer>,
    i: int,
)
    requires
        0 <= next <= spends.len(),
        0 <= i < spends.len(),
        outcome(combine_step(spends, next, sum, acceptable), answers) matches Some(Ok(_)),
    ensures
        was_added(
            combine_step(spends, next, sum, acceptable),
            answers,
            QueryView::AddNullifier(spends[i].nullifier),
        ),
    decreases spends.len() - next,
{
    if next < spends.len() {
        if spends[next].valid {
            let rest = answers.skip(1);
            if answers[0] == Answer::Found(true) {
                reveal_with_fuel(outcome, 2);
            } else {
                let more = (sum + spends[next].charge) % field_order();
                lemma_checks_lead_to_insertions(spends, next + 1, more, acceptable, rest, i);
            }
        }
    } else if sum <= u128::MAX {
        lemma_insertions_are_confirmed(spends, 0, sum, acceptable, answers, i);
    }
}

/// Whatever the records answer, and whatever other requests do to them in between: a request
/// that spends a token is only granted if the records have confirmed, for this very request,
/// that the token's nullifier is recorded now and was not before. Since records confirm that at
/// most once, no token is spent twice even when requests overlap.
pub proof fn law_grant_needs_a_fresh_nullifier(
    request: RequestView,
    answers: Seq<Answer>,
    nullifier: Seq<u8>,
)
    requires
        spends(request, nullifier),
        outcome(first_step(request), answers) matches Some(Ok(_)),
    ensures
        was_added(first_step(request), answers, QueryView::AddNullifier(nullifier)),
{
    match request {
        RequestView::Spend(_) => {
            reveal_with_fuel(outcome, 2);
        },
        RequestView::Split { .. } => {
            reveal_with_fuel(outcome, 3);
            reveal_with_fuel(was_added, 3);
        },
        RequestView::Combine { spends, acceptable } => {
            let i = choose|i: int|
                0 <= i < spends.len() && (#[trigger] spends[i]).nullifier == nullifier;
            lemma_checks_lead_to_insertions(spends, 0, 0, acceptable, answers, i);
        },
        _ => {},
    }
}

/// In the same way, a token is only issued for a proof of work if the records have confirmed,
/// for this very request, that its hash is recorded now and was not before.
pub proof fn law_issuance_needs_a_fresh_hash(
    acceptable: bool,
    nonce: Seq<u8>,
    answers: Seq<Answer>,
)
    requires
        outcome(first_step(RequestView::Issue { acceptable, nonce }), answers) matches Some(Ok(_)),
    ensures
        was_added(
            first_step(RequestView::Issue { acceptable, nonce }),
            answers,
            QueryView::AddPowHash(nonce_hash(nonce)),
        ),
        was_added(
            first_step(RequestView::Issue { acceptable, nonce }),
            answers,
            QueryView::AddNonce(nonce),
        ),
{
    reveal_with_fuel(outcome, 5);
    reveal_with_fuel(was_added, 5);
}

/// A server whose records work does not blame itself, but for a combination that spends one token
/// twice: every other refusal is the fault of the request.
pub proof fn law_working_records_are_not_to_blame(records: RecordsView, request: RequestView)
    requires
        !(request is Combine),
    ensures
        reply_to(records, request) matches Err(why) ==> !why.is_internal(),
{
    match request {
        RequestView::Spend(spend) => {
            law_spend(records, spend);
        },
        RequestView::Issue { acceptable, nonce } => {
            law_issue(records, acceptable, nonce);
        },
        RequestView::Split { spend, accepted, amounts } => {
            law_split(records, spend, accepted, amounts);
        },
        RequestView::Combine { .. } => {},
        RequestView::GetPublicKey(key) => {
            law_public_key(records, key);
        },
        RequestView::CheckNullifier(nullifier) => {
            law_check_nullifier(records, nullifier);
        },
    }
}

} // verus!
