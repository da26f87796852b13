//! What holds of whole operations of a simulated user, from the request to what it holds in the
//! end.

use super::rounds::{round_goes_on, spend_begins, Deed, Round, RoundStep, Sample};
use super::{kept_from, HeldToken, UserView, VirtualUser};
use crate::client::{token_value, Operation, Outcome};
use crate::commands::{Action, Event};
use crate::protocol::ClientError;
use anonymous_credit_tokens::CreditToken;
use vstd::prelude::*;

verus! {

/// Whether a step can come of `go_on`, after a step that was not the last.
pub open spec fn carried_on(
    before: UserView,
    step: RoundStep,
    event: Event,
    after: UserView,
    following: RoundStep,
) -> bool {
    step matches RoundStep::Act(_, round) && round_goes_on(before, round, event, after, following)
}

/// Whether these are the steps of an operation, as far as it has come, with the user at each step
/// and the event that led from each to the next.
pub open spec fn operation_run(
    users: Seq<UserView>,
    steps: Seq<RoundStep>,
    events: Seq<Event>,
) -> bool {
    &&& steps.len() == events.len() + 1
    &&& users.len() == steps.len()
    &&& forall|i: int|
        0 <= i < events.len() ==> carried_on(
            users[i],
            #[trigger] steps[i],
            events[i],
            users[i + 1],
            steps[i + 1],
        )
}

/// Whether a step wants this done.
pub open spec fn demands(step: RoundStep, action: Action) -> bool {
    step matches RoundStep::Act(wanted, _) && wanted == action
}

/// Whether an operation is over: it is measured as a success.
pub open spec fn succeeded(step: RoundStep, deed: Deed) -> bool {
    step == RoundStep::End(Some(Sample { deed, success: true }), Ok(()))
}

/// Whether an operation is over: it is measured as a failure, with this error.
pub open spec fn failed(step: RoundStep, deed: Deed, error: ClientError) -> bool {
    step == RoundStep::End(Some(Sample { deed, success: false }), Err(error))
}

/// Whether an operation is over: it is not measured, and there is this error.
pub open spec fn broke_off(step: RoundStep, error: ClientError) -> bool {
    step == RoundStep::End(None, Err(error))
}

/// A user with these tokens, and else like this one.
pub open spec fn with_tokens(user: UserView, tokens: Seq<HeldToken>) -> UserView {
    UserView { tokens, ..user }
}

/// A token that is issued for a user is stored, and held under the identifier under which it was
/// stored; the user keeps all that it held. Where something goes wrong, nothing changes.
pub proof fn law_issuing_adds_a_token(
    user: VirtualUser,
    users: Seq<UserView>,
    steps: Seq<RoundStep>,
    events: Seq<Event>,
)
    requires
        call_ensures(VirtualUser::issue_token, (&user,), steps[0]),
        users[0] == user@,
        operation_run(users, steps, events),
    ensures
        steps.len() <= 3,
        demands(steps[0], Action::Perform(Operation::Issue { bits: user@.bits })),
        events.len() > 0 ==> match events[0] {
            Event::Performed(Ok(Outcome::Token(token))) => {
                &&& demands(steps[1], Action::Store(token))
                &&& users[1] == users[0]
                &&& events.len() > 1 ==> match events[1] {
                    Event::Stored(Ok(id)) => {
                        &&& succeeded(steps[2], Deed::Issue)
                        &&& users[2] == with_tokens(
                            users[0],
                            users[0].tokens.push(HeldToken { id, token }),
                        )
                    },
                    Event::Stored(Err(error)) => broke_off(steps[2], error) && users[2]
                        == users[0],
                    _ => false,
                }
            },
            Event::Performed(Err(error)) => {
                &&& steps.len() == 2
                &&& failed(steps[1], Deed::Issue, error)
                &&& users[1] == users[0]
            },
            _ => false,
        },
{
}

/// What a spend leaves takes the place of the token that was spent, in the database and with the
/// user, under the same identifier. Where something goes wrong, the user holds what it held.
pub proof fn law_spending_replaces_a_token(
    token: CreditToken,
    amount: u128,
    index: usize,
    id: i64,
    users: Seq<UserView>,
    steps: Seq<RoundStep>,
    events: Seq<Event>,
)
    requires
        operation_run(users, steps, events),
        steps[0] == RoundStep::Act(
            Action::Perform(Operation::Spend { token, amount }),
            Round::Spending { index, id },
        ),
        index < users[0].tokens.len(),
    ensures
        steps.len() <= 3,
        events.len() > 0 ==> match events[0] {
            Event::Performed(Ok(Outcome::Token(rest))) => {
                &&& demands(steps[1], Action::Update(id, rest))
                &&& users[1] == users[0]
                &&& events.len() > 1 ==> match events[1] {
                    Event::Updated(Ok(_)) => {
                        &&& succeeded(steps[2], Deed::Spend)
                        &&& users[2] == with_tokens(
                            users[0],
                            users[0].tokens.update(index as int, HeldToken { id, token: rest }),
                        )
                    },
                    Event::Updated(Err(error)) => broke_off(steps[2], error) && users[2]
                        == users[0],
                    _ => false,
                }
            },
            Event::Performed(Err(error)) => {
                &&& steps.len() == 2
                &&& failed(steps[1], Deed::Spend, error)
                &&& users[1] == users[0]
            },
            _ => false,
        },
{
}

spec fn combine_at(
    indices: Seq<usize>,
    ids: Seq<i64>,
    users: Seq<UserView>,
    steps: Seq<RoundStep>,
    events: Seq<Event>,
    k: int,
) -> bool {
    &&& steps[k] matches RoundStep::Act(action, round)
    &&& users[k] == users[0]
    &&& k > 0 ==> (events[0] matches Event::Performed(Ok(Outcome::Token(_))))
    &&& k > 1 ==> (events[1] matches Event::Stored(Ok(_)))
    &&& if k == 0 {
        &&& round matches Round::Combining { indices: at, ids: all }
        &&& at@ == indices
        &&& all@ == ids
    } else if k == 1 {
        &&& action == Action::Store(events[0]->Performed_0->Ok_0->Token_0)
        &&& round matches Round::CombineStoring { indices: at, ids: all, token }
        &&& at@ == indices
        &&& all@ == ids
        &&& token == events[0]->Performed_0->Ok_0->Token_0
    } else {
        &&& k < ids.len() + 2
        &&& action == Action::Delete(ids[k - 2])
        &&& round matches Round::CombineDeleting { indices: at, ids: all, next, new_id, token }
        &&& at@ == indices
        &&& all@ == ids
        &&& next == k - 2
        &&& new_id == events[1]->Stored_0->Ok_0
        &&& token == events[0]->Performed_0->Ok_0->Token_0
    }
}

proof fn lemma_combine_at(
    indices: Vec<usize>,
    ids: Vec<i64>,
    users: Seq<UserView>,
    steps: Seq<RoundStep>,
    events: Seq<Event>,
    k: int,
)
    requires
        ids.len() > 0,
        operation_run(users, steps, events),
        steps[0] matches RoundStep::Act(_, Round::Combining { indices: at, ids: all }) && at
            == indices && all == ids,
        0 <= k < steps.len(),
        steps[k] is Act,
    ensures
        combine_at(indices@, ids@, users, steps, events, k),
    decreases k,
{
    if k > 0 {
        assert(carried_on(users[k - 1], steps[k - 1], events[k - 1], users[k], steps[k]));
        lemma_combine_at(indices, ids, users, steps, events, k - 1);
    }
}

/// A combination stores the token that comes of it and then deletes the tokens that went into it,
/// each once and in order. In the end the user holds what it held but for those tokens, and the
/// new one behind them. Tokens that cannot be deleted do not matter; where something else goes
/// wrong, the user holds what it held.
pub proof fn law_combining_replaces_tokens(
    tokens: Vec<CreditToken>,
    indices: Vec<usize>,
    ids: Vec<i64>,
    users: Seq<UserView>,
    steps: Seq<RoundStep>,
    events: Seq<Event>,
    k: int,
)
    requires
        ids.len() > 0,
        operation_run(users, steps, events),
        steps[0] == RoundStep::Act(
            Action::Perform(Operation::Combine { tokens }),
            Round::Combining { indices, ids },
        ),
        0 <= k < events.len(),
    ensures
        users[k] == users[0],
        k == 0 ==> match events[0] {
            Event::Performed(Ok(Outcome::Token(token))) => demands(steps[1], Action::Store(token)),
            Event::Performed(Err(error)) => failed(steps[1], Deed::Combine, error) && users[1]
                == users[0],
            _ => false,
        },
        k == 1 ==> match events[1] {
            Event::Stored(Ok(_)) => demands(steps[2], Action::Delete(ids@[0])),
            Event::Stored(Err(error)) => broke_off(steps[2], error) && users[2] == users[0],
            _ => false,
        },
        k > 1 ==> {
            &&& k < ids.len() + 2
            &&& events[0] matches Event::Performed(Ok(Outcome::Token(token)))
            &&& events[1] matches Event::Stored(Ok(id))
            &&& events[k] is Deleted
            &&& if k + 1 < ids.len() + 2 {
                demands(steps[k + 1], Action::Delete(ids@[k - 1]))
            } else {
                &&& succeeded(steps[k + 1], Deed::Combine)
                &&& users[k + 1] == with_tokens(
                    users[0],
                    kept_from(users[0].tokens, indices@, 0).push(HeldToken { id, token }),
                )
            }
        },
{
    assert(carried_on(users[k], steps[k], events[k], users[k + 1], steps[k + 1]));
    lemma_combine_at(indices, ids, users, steps, events, k);
}

/// The identifiers under which tokens could be stored, by some events, in order.
pub open spec fn identifiers(events: Seq<Event>, from: int, to: int) -> Seq<i64>
    decreases to - from,
{
    if to <= from {
        seq![]
    } else {
        match events[to - 1] {
            Event::Stored(Ok(id)) => identifiers(events, from, to - 1).push(id),
            _ => identifiers(events, from, to - 1),
        }
    }
}

spec fn split_at(
    index: usize,
    id: i64,
    users: Seq<UserView>,
    steps: Seq<RoundStep>,
    events: Seq<Event>,
    k: int,
) -> bool {
    &&& steps[k] matches RoundStep::Act(action, round)
    &&& users[k] == users[0]
    &&& k > 0 ==> (events[0] matches Event::Performed(Ok(Outcome::Tokens(_))))
    &&& if k == 0 {
        round == Round::Splitting { index, id }
    } else if k == 1 {
        &&& action == Action::Delete(id)
        &&& round == Round::SplitDeleting {
            index,
            tokens: events[0]->Performed_0->Ok_0->Tokens_0,
        }
    } else {
        &&& k < events[0]->Performed_0->Ok_0->Tokens_0.len() + 2
        &&& action == Action::Store(events[0]->Performed_0->Ok_0->Tokens_0@[k - 2])
        &&& round matches Round::SplitStoring { index: at, tokens, ids, next }
        &&& at == index
        &&& tokens == events[0]->Performed_0->Ok_0->Tokens_0
        &&& ids@ =~= identifiers(events, 2, k)
        &&& next == k - 2
    }
}

proof fn lemma_split_at(
    index: usize,
    id: i64,
    users: Seq<UserView>,
    steps: Seq<RoundStep>,
    events: Seq<Event>,
    k: int,
)
    requires
        operation_run(users, steps, events),
        steps[0] matches RoundStep::Act(_, round) && round == (Round::Splitting { index, id }),
        index < users[0].tokens.len(),
        0 <= k < steps.len(),
        steps[k] is Act,
    ensures
        split_at(index, id, users, steps, events, k),
    decreases k,
{
    if k > 0 {
        assert(carried_on(users[k - 1], steps[k - 1], events[k - 1], users[k], steps[k]));
        lemma_split_at(index, id, users, steps, events, k - 1);
    }
}

/// A split deletes the token that was split and then stores the tokens that come of it, each once
/// and in order. In the end the user holds what it held but for the token that was split, and
/// behind that, in order, as many of the new tokens as could be stored, with their identifiers.
pub proof fn law_splitting_replaces_a_token(
    token: CreditToken,
    amounts: Vec<u128>,
    index: usize,
    id: i64,
    users: Seq<UserView>,
    steps: Seq<RoundStep>,
    events: Seq<Event>,
    k: int,
)
    requires
        operation_run(users, steps, events),
        steps[0] == RoundStep::Act(
            Action::Perform(Operation::Split { token, amounts }),
            Round::Splitting { index, id },
        ),
        index < users[0].tokens.len(),
        0 <= k < events.len(),
    ensures
        users[k] == users[0],
        match events[0] {
            Event::Performed(Ok(Outcome::Tokens(tokens))) => {
                &&& demands(steps[1], Action::Delete(id))
                &&& k < tokens.len() + 2
                &&& 1 <= k && k + 1 < tokens.len() + 2 ==> demands(
                    steps[k + 1],
                    Action::Store(tokens@[k - 1]),
                )
                &&& k + 1 == tokens.len() + 2 ==> {
                    let ids = identifiers(events, 2, k + 1);
                    let held = users[k + 1].tokens;
                    let left = users[0].tokens.remove(index as int);
                    &&& succeeded(steps[k + 1], Deed::Split)
                    &&& users[k + 1] == with_tokens(users[0], held)
                    &&& held.len() == left.len() + ids.len()
                    &&& ids.len() <= tokens.len()
                    &&& held.take(left.len() as int) =~= left
                    &&& forall|i: int|
                        0 <= i < ids.len() ==> held[left.len() + i] == (HeldToken {
                            id: #[trigger] ids[i],
                            token: tokens@[i],
                        })
                }
            },
            Event::Performed(Err(error)) => {
                &&& steps.len() == 2
                &&& failed(steps[1], Deed::Split, error)
                &&& users[1] == users[0]
            },
            _ => false,
        },
{
    assert(carried_on(users[0], steps[0], events[0], users[1], steps[1]));
    assert(carried_on(users[k], steps[k], events[k], users[k + 1], steps[k + 1]));
    lemma_split_at(index, id, users, steps, events, k);
    lemma_few_identifiers(events, 2, k + 1);
}

proof fn lemma_few_identifiers(events: Seq<Event>, from: int, to: int)
    ensures
        identifiers(events, from, to).len() <= if to > from { to - from } else { 0 },
    decreases to - from,
{
    if to > from {
        lemma_few_identifiers(events, from, to - 1);
    }
}

/// Where every part of a split could be stored, the user holds each of them under the identifier
/// under which it was stored.
pub proof fn law_stored_parts_are_held(events: Seq<Event>, count: int, i: int)
    requires
        0 <= i < count,
        forall|j: int| 2 <= j < count + 2 ==> (#[trigger] events[j] matches Event::Stored(stored)
            && stored is Ok),
    ensures
        identifiers(events, 2, count + 2).len() == count,
        identifiers(events, 2, count + 2)[i] == events[i + 2]->Stored_0->Ok_0,
    decreases count,
{
    assert(events[count + 1] matches Event::Stored(Ok(_)));
    if count > 1 {
        if i < count - 1 {
            law_stored_parts_are_held(events, count - 1, i);
        } else {
            law_stored_parts_are_held(events, count - 1, 0);
        }
    } else {
        reveal_with_fuel(identifiers, 2);
    }
}

/// What a user begins to do fits what it holds: it splits a token that it holds into two or three
/// amounts that add up to its value, and combines tokens that it holds, each with its identifier.
pub proof fn law_users_use_what_they_hold(
    user: VirtualUser,
    counter: u32,
    seed: u32,
    combination: (RoundStep, u32),
    split: RoundStep,
)
    requires
        seed < 1_000_000_000,
        user@.tokens.len() <= usize::MAX,
        call_ensures(VirtualUser::combine_random_tokens, (&user, counter, seed), combination),
        call_ensures(VirtualUser::split_random_token, (&user,), split),
    ensures
        combination.0 matches RoundStep::Act(action, Round::Combining { indices, ids }) ==> {
            &&& action matches Action::Perform(Operation::Combine { tokens })
            &&& tokens.len() == ids.len() == indices.len()
            &&& 2 <= indices.len() <= 3
            &&& indices@.no_duplicates()
            &&& forall|i: int|
                #![trigger indices@[i]]
                0 <= i < indices.len() ==> {
                    &&& indices@[i] < user@.tokens.len()
                    &&& user@.tokens[indices@[i] as int].token == tokens@[i]
                    &&& user@.tokens[indices@[i] as int].id == ids@[i]
                }
        },
        user@.tokens.len() >= 2 ==> combination.0 is Act,
        split matches RoundStep::Act(action, Round::Splitting { index, id }) ==> {
            &&& action matches Action::Perform(Operation::Split { token, amounts })
            &&& index < user@.tokens.len()
            &&& user@.tokens[index as int] == (HeldToken { id, token })
            &&& token_value(token) > 1
            &&& 2 <= amounts.len() <= 3
            &&& crate::server::total(amounts@) == token_value(token)
            &&& forall|i: int| 0 <= i < amounts.len() - 1 ==> #[trigger] amounts@[i] >= 1
            &&& token_value(token) >= amounts.len() ==> amounts@[amounts.len() - 1] >= 1
        },
        (exists|i: int|
            0 <= i < user@.tokens.len() && token_value((#[trigger] user@.tokens[i]).token) > 1)
            ==> (split matches RoundStep::Act(_, Round::Splitting { .. })),
{
    super::law_picked_indices(user@.tokens.len(), seed as nat, 2);
    super::law_picked_indices(user@.tokens.len(), seed as nat, 3);
    super::law_tokens_can_be_split(user@.tokens);
    let able = super::splittable_from(user@.tokens, 0);
    if exists|i: int|
        0 <= i < user@.tokens.len() && token_value((#[trigger] user@.tokens[i]).token) > 1 {
        let i = choose|i: int|
            0 <= i < user@.tokens.len() && token_value((#[trigger] user@.tokens[i]).token) > 1;
        assert(able.contains(i as usize));
        assert(able.len() > 0);
    }
}

/// A user spends only what it has, and never a whole token: the token that it is to spend from is
/// one that it holds, under its identifier, and is worth more than the amount. A user all of whose
/// tokens are worth more than a credit spends, and drops nothing; what it drops is worth one
/// credit at most.
pub proof fn law_users_spend_what_they_hold(before: UserView, after: UserView, step: RoundStep)
    requires
        spend_begins(before, after, step),
    ensures
        step matches RoundStep::Act(action, round) ==> {
            &&& action matches Action::Perform(Operation::Spend { token, amount })
            &&& round matches Round::Spending { index, id }
            &&& index < before.tokens.len()
            &&& before.tokens[index as int].id == id
            &&& before.tokens[index as int].token == token
            &&& 0 < amount < token_value(token)
            &&& amount < 100
            &&& after == before
        },
        before.tokens.len() > 0 && (forall|i: int|
            0 <= i < before.tokens.len() ==> token_value((#[trigger] before.tokens[i]).token) > 1)
            ==> step is Act,
        before.tokens.len() == 0 <==> (step matches RoundStep::End(_, Err(_))),
        after.tokens.len() + 1 >= before.tokens.len(),
        forall|i: int|
            0 <= i < before.tokens.len() && token_value((#[trigger] before.tokens[i]).token) > 1
                ==> after.tokens.contains(before.tokens[i]),
{
    if step is End && before.tokens.len() > 0 {
        let gone = choose|index: int|
            {
                &&& 0 <= index < before.tokens.len()
                &&& token_value((#[trigger] before.tokens[index]).token) <= 1
                &&& after == super::rounds::holding(before, before.tokens.remove(index))
            };
        assert forall|i: int|
            0 <= i < before.tokens.len() && token_value((#[trigger] before.tokens[i]).token)
                > 1 implies after.tokens.contains(before.tokens[i]) by {
            if i < gone {
                assert(after.tokens[i] == before.tokens[i]);
            } else {
                assert(after.tokens[i - 1] == before.tokens[i]);
            }
        }
    } else {
        assert forall|i: int|
            0 <= i < before.tokens.len() && token_value((#[trigger] before.tokens[i]).token)
                > 1 implies after.tokens.contains(before.tokens[i]) by {
            assert(after.tokens[i] == before.tokens[i]);
        }
    }
}

} // verus!
