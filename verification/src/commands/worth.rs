//! What commands do to the value of the user's tokens, together with a client and a server.

use super::laws::{
    law_combine_command, law_import_command, law_issue_command, law_spend_command,
    law_split_command, loaded, run, wants, worth,
};
use super::session::{Action, Command, Event, Next, StoredToken, Turn};
use crate::client::{token_value, Operation, Outcome};
use crate::laws::{
    comes_of, comes_of_work, law_outcomes_are_worth_what_they_should_be, law_work_gives_its_worth,
};
use crate::scheme::token_credits;
use crate::server::issuer::Issuer;
use crate::server::model::RecordsView;
use anonymous_credit_tokens::{CreditToken, Params, PublicKey};
use vstd::arithmetic::power2::pow2;
use vstd::prelude::*;

verus! {

/// The token that a command to issue one stores in the end is worth at least two to the power of
/// the number of bits that the user gave.
pub proof fn law_issued_token_is_worth_its_bits(
    bits: u32,
    turns: Seq<Turn>,
    events: Seq<Event>,
    worked: u32,
    issuer: Issuer,
    records: RecordsView,
    params: Params,
    key: PublicKey,
    token: CreditToken,
    stored: CreditToken,
)
    requires
        run(Command::Issue { bits }, turns, events),
        wants(turns[0], Action::Perform(Operation::Issue { bits: worked })),
        comes_of_work(issuer, records, params, key, worked, token),
        events.len() > 0,
        events[0] == Event::Performed(Ok(Outcome::Token(token))),
        wants(turns[1], Action::Store(stored)),
    ensures
        token_credits(stored) >= pow2(bits as nat),
{
    law_issue_command(bits, turns, events);
    law_work_gives_its_worth(issuer, records, params, key, bits, token);
}

/// The token that a command to spend puts in the place of the old one is worth the old value less
/// the amount that the user gave.
pub proof fn law_spent_token_is_worth_the_rest(
    id: i64,
    amount: u128,
    turns: Seq<Turn>,
    events: Seq<Event>,
    issuer: Issuer,
    records: RecordsView,
    params: Params,
    key: PublicKey,
    old: StoredToken,
    operation: Operation,
    outcome: Outcome,
    place: i64,
    new: CreditToken,
)
    requires
        run(Command::Spend { id, amount }, turns, events),
        events.len() > 2,
        events[0] == Event::Loaded(Ok(old)),
        token_credits(old.token) <= u128::MAX,
        wants(turns[2], Action::Perform(operation)),
        comes_of(issuer, records, params, key, operation, outcome),
        events[2] == Event::Performed(Ok(outcome)),
        wants(turns[3], Action::Update(place, new)),
    ensures
        place == id,
        token_credits(new) == token_credits(old.token) - amount,
        token_value(new) == token_value(old.token) - amount,
{
    law_spend_command(id, amount, turns, events);
    law_outcomes_are_worth_what_they_should_be(issuer, records, params, key, operation, outcome);
}

/// A token that is imported and made anonymous keeps its value.
pub proof fn law_anonymous_token_keeps_its_value(
    turns: Seq<Turn>,
    events: Seq<Event>,
    issuer: Issuer,
    records: RecordsView,
    params: Params,
    key: PublicKey,
    token: CreditToken,
    amount: u128,
    outcome: Outcome,
    new: CreditToken,
)
    requires
        run(Command::Import { anonymize: true }, turns, events),
        events.len() > 1,
        wants(turns[1], Action::Perform(Operation::Spend { token, amount })),
        token_credits(token) <= u128::MAX,
        comes_of(issuer, records, params, key, Operation::Spend { token, amount }, outcome),
        events[1] == Event::Performed(Ok(outcome)),
        wants(turns[2], Action::Store(new)),
    ensures
        token_credits(new) == token_credits(token),
{
    law_import_command(true, turns, events);
    law_outcomes_are_worth_what_they_should_be(
        issuer,
        records,
        params,
        key,
        Operation::Spend { token, amount },
        outcome,
    );
}

/// The token that a command to combine tokens stores is worth what the tokens with the identifiers
/// that the user gave are worth together.
pub proof fn law_combined_token_is_worth_the_sum(
    ids: Vec<i64>,
    turns: Seq<Turn>,
    events: Seq<Event>,
    issuer: Issuer,
    records: RecordsView,
    params: Params,
    key: PublicKey,
    operation: Operation,
    outcome: Outcome,
    new: CreditToken,
)
    requires
        ids.len() >= 2,
        run(Command::Combine { ids }, turns, events),
        turns.len() > ids.len() + 2,
        wants(turns[ids.len() + 1], Action::Perform(operation)),
        comes_of(issuer, records, params, key, operation, outcome),
        events[ids.len() + 1] == Event::Performed(Ok(outcome)),
        wants(turns[ids.len() + 2], Action::Store(new)),
    ensures
        token_credits(new) == worth(loaded(events, ids.len() as int)),
        forall|i: int|
            0 <= i < ids.len() ==> wants(#[trigger] turns[i], Action::Load(ids@[i])),
{
    let n = ids.len() as int;
    law_combine_command(ids, turns, events, n + 1);
    law_combine_command(ids, turns, events, n + 2);
    law_outcomes_are_worth_what_they_should_be(issuer, records, params, key, operation, outcome);
    assert forall|i: int| 0 <= i < ids.len() implies wants(
        #[trigger] turns[i],
        Action::Load(ids@[i]),
    ) by {
        assert(events[i] matches Event::Loaded(Ok(_)));
    }
    if let Operation::Combine { tokens } = operation {
        assert forall|i: int| 0 <= i < n implies tokens@[i] == loaded(events, n)[i] by {
            assert(events[i] matches Event::Loaded(Ok(_)));
        }
        assert(tokens@ =~= loaded(events, n));
    }
}

/// The tokens that a command to split a token stores are worth the amounts that the user gave, one
/// for one, and all of them have been stored before the old token is deleted.
pub proof fn law_split_tokens_are_worth_the_amounts(
    id: i64,
    amounts: Vec<u128>,
    turns: Seq<Turn>,
    events: Seq<Event>,
    issuer: Issuer,
    records: RecordsView,
    params: Params,
    key: PublicKey,
    operation: Operation,
    outcome: Outcome,
    k: int,
    gone: i64,
)
    requires
        amounts.len() > 0,
        run(Command::Split { id, amounts }, turns, events),
        events.len() > 2,
        wants(turns[2], Action::Perform(operation)),
        comes_of(issuer, records, params, key, operation, outcome),
        events[2] == Event::Performed(Ok(outcome)),
        0 <= k < turns.len(),
        wants(turns[k], Action::Delete(gone)),
    ensures
        gone == id,
        k == amounts.len() + 3,
        forall|i: int|
            0 <= i < amounts.len() ==> {
                &&& #[trigger] turns[i + 3].next matches Next::Act(Action::Store(part), _)
                &&& token_credits(part) == amounts@[i]
                &&& events[i + 3] matches Event::Stored(Ok(_))
            },
{
    law_split_command(id, amounts, turns, events, 2);
    law_split_command(id, amounts, turns, events, k);
    law_outcomes_are_worth_what_they_should_be(issuer, records, params, key, operation, outcome);
    if let Outcome::Tokens(tokens) = outcome {
        assert forall|i: int| 0 <= i < amounts.len() implies {
            &&& #[trigger] turns[i + 3].next matches Next::Act(Action::Store(part), _)
            &&& token_credits(part) == amounts@[i]
            &&& events[i + 3] matches Event::Stored(Ok(_))
        } by {
            assert(wants(turns[i + 3], Action::Store(tokens@[i])));
        }
    }
}

} // verus!
