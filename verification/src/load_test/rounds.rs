//! One operation of a simulated user, from the plan to the last token that is stored.
//!
//! An operation runs in steps. Each step asks for one action, and wants to hear how it went, or
//! ends the operation and says what is to be measured.

use super::{held, kept_from, pieces_fit, splittable_from, HeldToken, UserView, VirtualUser};
use crate::client::{token_value, Operation, Outcome};
use crate::commands::session::{gives_token, gives_tokens, is_token};
use crate::commands::{Action, Event};
use crate::protocol::ClientError;
use crate::server::total;
use anonymous_credit_tokens::CreditToken;
use vstd::prelude::*;

verus! {

/// What a user can do with the server.
#[derive(Clone, Copy, Debug, PartialEq, Eq, Structural)]
pub enum Deed {
    Issue,
    Spend,
    Combine,
    Split,
}

impl Deed {
    /// The name under which a deed is measured.
    pub open spec fn label(self) -> Seq<char> {
        match self {
            Deed::Issue => "issue"@,
            Deed::Spend => "spend"@,
            Deed::Combine => "combine"@,
            Deed::Split => "split"@,
        }
    }

    /// The name under which a deed is measured.
    pub fn name(&self) -> (name: &'static str)
        ensures
            name@ == self.label(),
    {
        match self {
            Deed::Issue => "issue",
            Deed::Spend => "spend",
            Deed::Combine => "combine",
            Deed::Split => "split",
        }
    }
}

/// What is measured of an operation: what it was, and whether it succeeded.
#[derive(Clone, Copy, Debug, PartialEq, Eq, Structural)]
pub struct Sample {
    pub deed: Deed,
    pub success: bool,
}

/// How far an operation has come.
pub enum Round {
    Issuing,
    IssueStoring { token: CreditToken },
    Spending { index: usize, id: i64 },
    SpendUpdating { index: usize, id: i64, token: CreditToken },
    Combining { indices: Vec<usize>, ids: Vec<i64> },
    CombineStoring { indices: Vec<usize>, ids: Vec<i64>, token: CreditToken },
    CombineDeleting {
        indices: Vec<usize>,
        ids: Vec<i64>,
        next: usize,
        new_id: i64,
        token: CreditToken,
    },
    Splitting { index: usize, id: i64 },
    SplitDeleting { index: usize, tokens: Vec<CreditToken> },
    SplitStoring { index: usize, tokens: Vec<CreditToken>, ids: Vec<i64>, next: usize },
}

/// What comes next in an operation.
pub enum RoundStep {
    /// Do this, and come back with how it went.
    Act(Action, Round),
    /// The operation is over: what is to be measured, if anything, and how it went.
    End(Option<Sample>, Result<(), ClientError>),
}

impl Round {
    /// Whether what is remembered of an operation fits the user.
    pub open spec fn sound(&self, user: UserView) -> bool {
        match self {
            Round::Spending { index, .. } => *index < user.tokens.len(),
            Round::SpendUpdating { index, .. } => *index < user.tokens.len(),
            Round::Combining { ids, .. } => ids.len() > 0,
            Round::CombineStoring { ids, .. } => ids.len() > 0,
            Round::CombineDeleting { ids, next, .. } => *next < ids.len(),
            Round::Splitting { index, .. } => *index < user.tokens.len(),
            Round::SplitDeleting { index, .. } => *index < user.tokens.len(),
            Round::SplitStoring { index, tokens, next, .. } => *index < user.tokens.len() && *next
                < tokens.len(),
            _ => true,
        }
    }
}

/// Whether an event is one that the action of an operation can have.
pub open spec fn round_fits(round: Round, event: Event) -> bool {
    match round {
        Round::Issuing | Round::Spending { .. } | Round::Combining { .. } => {
            event matches Event::Performed(performed) && is_token(performed)
        },
        Round::Splitting { .. } => {
            &&& event matches Event::Performed(performed)
            &&& performed matches Ok(outcome) ==> outcome is Tokens
        },
        Round::IssueStoring { .. } | Round::CombineStoring { .. } | Round::SplitStoring { .. } =>
        event is Stored,
        Round::SpendUpdating { .. } => event is Updated,
        Round::CombineDeleting { .. } | Round::SplitDeleting { .. } => event is Deleted,
    }
}

/// Whether an operation ends with a failure that is measured.
pub open spec fn falls_through(step: RoundStep, deed: Deed, error: ClientError) -> bool {
    step == RoundStep::End(Some(Sample { deed, success: false }), Err(error))
}

/// Whether an operation ends well.
pub open spec fn succeeds(step: RoundStep, deed: Deed) -> bool {
    step == RoundStep::End(Some(Sample { deed, success: true }), Ok(()))
}

/// A user with other tokens.
pub open spec fn holding(user: UserView, tokens: Seq<HeldToken>) -> UserView {
    UserView { tokens, ..user }
}

/// How issuing a token goes on. The token is held once it is stored.
pub open spec fn issue_round(
    before: UserView,
    round: Round,
    event: Event,
    after: UserView,
    step: RoundStep,
) -> bool {
    match (round, event) {
        (Round::Issuing, Event::Performed(Err(error))) => after == before && falls_through(
            step,
            Deed::Issue,
            error,
        ),
        (Round::Issuing, Event::Performed(Ok(Outcome::Token(token)))) => after == before && step
            == RoundStep::Act(Action::Store(token), Round::IssueStoring { token }),
        (Round::IssueStoring { .. }, Event::Stored(Err(error))) => after == before && step
            == RoundStep::End(None, Err(error)),
        (Round::IssueStoring { token }, Event::Stored(Ok(id))) => {
            &&& after == holding(before, before.tokens.push(HeldToken { id, token }))
            &&& succeeds(step, Deed::Issue)
        },
        _ => false,
    }
}

/// How spending goes on. The rest takes the token's place once the database has it.
pub open spec fn spend_round(
    before: UserView,
    round: Round,
    event: Event,
    after: UserView,
    step: RoundStep,
) -> bool {
    match (round, event) {
        (Round::Spending { .. }, Event::Performed(Err(error))) => after == before && falls_through(
            step,
            Deed::Spend,
            error,
        ),
        (Round::Spending { index, id }, Event::Performed(Ok(Outcome::Token(token)))) => after
            == before && step == RoundStep::Act(
            Action::Update(id, token),
            Round::SpendUpdating { index, id, token },
        ),
        (Round::SpendUpdating { .. }, Event::Updated(Err(error))) => after == before && step
            == RoundStep::End(None, Err(error)),
        (Round::SpendUpdating { index, id, token }, Event::Updated(Ok(_))) => {
            &&& after == holding(
                before,
                before.tokens.update(index as int, HeldToken { id, token }),
            )
            &&& succeeds(step, Deed::Spend)
        },
        _ => false,
    }
}

/// How combining goes on. The new token is stored first; then the old ones are deleted, and one
/// that cannot be deleted does no harm.
pub open spec fn combine_round(
    before: UserView,
    round: Round,
    event: Event,
    after: UserView,
    step: RoundStep,
) -> bool {
    match (round, event) {
        (Round::Combining { .. }, Event::Performed(Err(error))) => after == before && falls_through(
            step,
            Deed::Combine,
            error,
        ),
        (Round::Combining { indices, ids }, Event::Performed(Ok(Outcome::Token(token)))) => after
            == before && step == RoundStep::Act(
            Action::Store(token),
            Round::CombineStoring { indices, ids, token },
        ),
        (Round::CombineStoring { .. }, Event::Stored(Err(error))) => after == before && step
            == RoundStep::End(None, Err(error)),
        (Round::CombineStoring { indices, ids, token }, Event::Stored(Ok(new_id))) => after
            == before && step == RoundStep::Act(
            Action::Delete(ids@[0]),
            Round::CombineDeleting { indices, ids, next: 0, new_id, token },
        ),
        (Round::CombineDeleting { indices, ids, next, new_id, token }, Event::Deleted(_)) => if next
            + 1 < ids.len() {
            after == before && step == RoundStep::Act(
                Action::Delete(ids@[next + 1]),
                Round::CombineDeleting { indices, ids, next: (next + 1) as usize, new_id, token },
            )
        } else {
            &&& after == holding(
                before,
                kept_from(before.tokens, indices@, 0).push(HeldToken { id: new_id, token }),
            )
            &&& succeeds(step, Deed::Combine)
        },
        _ => false,
    }
}

/// The identifiers after one more token was to be stored.
pub open spec fn with_stored(ids: Seq<i64>, stored: Result<i64, ClientError>) -> Seq<i64> {
    match stored {
        Ok(id) => ids.push(id),
        Err(_) => ids,
    }
}

/// How splitting goes on. The old token is deleted, then the new ones are stored. At the end the
/// identifiers go to the new tokens in order. So after a token that could not be stored, each
/// further identifier is held with an earlier token than the one stored under it, and the last
/// tokens, one for each that could not be stored, are not held.
pub open spec fn split_round(
    before: UserView,
    round: Round,
    event: Event,
    after: UserView,
    step: RoundStep,
) -> bool {
    match (round, event) {
        (Round::Splitting { .. }, Event::Performed(Err(error))) => after == before && falls_through(
            step,
            Deed::Split,
            error,
        ),
        (Round::Splitting { index, id }, Event::Performed(Ok(Outcome::Tokens(tokens)))) => after
            == before && step == RoundStep::Act(
            Action::Delete(id),
            Round::SplitDeleting { index, tokens },
        ),
        (Round::SplitDeleting { index, tokens }, Event::Deleted(_)) => if tokens.len() == 0 {
            after == holding(before, before.tokens.remove(index as int)) && succeeds(
                step,
                Deed::Split,
            )
        } else {
            &&& after == before
            &&& step matches RoundStep::Act(
                Action::Store(first),
                Round::SplitStoring { index: at, tokens: all, ids, next },
            )
            &&& first == tokens@[0]
            &&& at == index
            &&& all == tokens
            &&& ids@ == Seq::<i64>::empty()
            &&& next == 0
        },
        (Round::SplitStoring { index, tokens, ids, next }, Event::Stored(stored)) => if next + 1
            < tokens.len() {
            &&& after == before
            &&& step matches RoundStep::Act(
                Action::Store(following),
                Round::SplitStoring { index: at, tokens: all, ids: known, next: then_next },
            )
            &&& following == tokens@[next + 1]
            &&& at == index
            &&& all == tokens
            &&& known@ == with_stored(ids@, stored)
            &&& then_next == next + 1
        } else {
            &&& after == holding(
                before,
                before.tokens.remove(index as int) + held(tokens@, with_stored(ids@, stored)),
            )
            &&& succeeds(step, Deed::Split)
        },
        _ => false,
    }
}

/// How an operation goes on.
pub open spec fn round_goes_on(
    before: UserView,
    round: Round,
    event: Event,
    after: UserView,
    step: RoundStep,
) -> bool {
    match round {
        Round::Issuing | Round::IssueStoring { .. } => issue_round(
            before,
            round,
            event,
            after,
            step,
        ),
        Round::Spending { .. } | Round::SpendUpdating { .. } => spend_round(
            before,
            round,
            event,
            after,
            step,
        ),
        Round::Combining { .. } | Round::CombineStoring { .. } | Round::CombineDeleting { .. } =>
        combine_round(before, round, event, after, step),
        Round::Splitting { .. } | Round::SplitDeleting { .. } | Round::SplitStoring { .. } =>
        split_round(before, round, event, after, step),
    }
}

/// The identifiers of the tokens at some indices.
pub open spec fn ids_at(tokens: Seq<HeldToken>, indices: Seq<usize>) -> Seq<i64> {
    indices.map_values(|index: usize| tokens[index as int].id)
}

/// The tokens at some indices.
pub open spec fn tokens_at(tokens: Seq<HeldToken>, indices: Seq<usize>) -> Seq<CreditToken> {
    indices.map_values(|index: usize| tokens[index as int].token)
}

/// How a user begins to spend: without tokens it does not; else it is to spend less than a hundred
/// credits, and less than all, from a token that it holds, or it drops a token from which nothing
/// can be spent.
pub open spec fn spend_begins(before: UserView, after: UserView, step: RoundStep) -> bool {
    if before.tokens.len() == 0 {
        &&& step matches RoundStep::End(None, Err(ClientError::Interaction(detail)))
        &&& detail@ == "No tokens to spend"@
        &&& after == before
    } else {
        match step {
            RoundStep::Act(
                Action::Perform(Operation::Spend { token, amount }),
                Round::Spending { index, id },
            ) => {
                &&& index < before.tokens.len()
                &&& HeldToken { id, token } == before.tokens[index as int]
                &&& 1 <= amount < 100
                &&& amount < token_value(token)
                &&& after == before
            },
            RoundStep::End(None, Ok(_)) => exists|index: int|
                {
                    &&& 0 <= index < before.tokens.len()
                    &&& token_value((#[trigger] before.tokens[index]).token) <= 1
                    &&& after == holding(before, before.tokens.remove(index))
                },
            _ => false,
        }
    }
}

fn fall_through(deed: Deed, error: ClientError) -> (step: RoundStep)
    ensures
        falls_through(step, deed, error),
{
    RoundStep::End(Some(Sample { deed, success: false }), Err(error))
}

fn succeed(deed: Deed) -> (step: RoundStep)
    ensures
        succeeds(step, deed),
{
    RoundStep::End(Some(Sample { deed, success: true }), Ok(()))
}

impl VirtualUser {
    /// Begins to have a token issued.
    pub fn issue_token(&self) -> (step: RoundStep)
        ensures
            step == RoundStep::Act(
                Action::Perform(Operation::Issue { bits: self@.bits }),
                Round::Issuing,
            ),
    {
        RoundStep::Act(Action::Perform(Operation::Issue { bits: self.bits }), Round::Issuing)
    }

    /// Begins to spend a random amount of a random token. A token from which nothing can be
    /// spent is dropped, and that is all.
    pub fn spend_random_token(&mut self) -> (step: RoundStep)
        ensures
            spend_begins(old(self)@, final(self)@, step),
    {
        match self.plan_random_spend() {
            Ok(Some(plan)) => RoundStep::Act(
                Action::Perform(Operation::Spend { token: plan.token, amount: plan.amount }),
                Round::Spending { index: plan.index, id: plan.id },
            ),
            Ok(None) => RoundStep::End(None, Ok(())),
            Err(error) => RoundStep::End(None, Err(error)),
        }
    }

    /// Begins to combine the tokens at some indices.
    pub fn combine_tokens_at(&self, indices: Vec<usize>) -> (step: RoundStep)
        requires
            indices.len() > 0,
            forall|i: int|
                0 <= i < indices.len() ==> (#[trigger] indices@[i]) < self@.tokens.len(),
        ensures
            step matches RoundStep::Act(
                Action::Perform(Operation::Combine { tokens }),
                Round::Combining { indices: at, ids },
            ) && at == indices && tokens@ == tokens_at(self@.tokens, indices@) && ids@ == ids_at(
                self@.tokens,
                indices@,
            ),
    {
        let mut tokens: Vec<CreditToken> = Vec::new();
        let mut ids: Vec<i64> = Vec::new();
        let mut i: usize = 0;
        while i < indices.len()
            invariant
                i <= indices.len(),
                forall|j: int|
                    0 <= j < indices.len() ==> (#[trigger] indices@[j]) < self.tokens@.len(),
                tokens@ =~= tokens_at(self.tokens@, indices@).take(i as int),
                ids@ =~= ids_at(self.tokens@, indices@).take(i as int),
            decreases indices.len() - i,
        {
            let index: usize = indices[i];
            tokens.push(self.tokens[index].token.clone());
            ids.push(self.tokens[index].id);
            i = i + 1;
        }
        assert(tokens_at(self.tokens@, indices@).take(i as int) =~= tokens_at(
            self.tokens@,
            indices@,
        ));
        assert(ids_at(self.tokens@, indices@).take(i as int) =~= ids_at(self.tokens@, indices@));
        RoundStep::Act(
            Action::Perform(Operation::Combine { tokens }),
            Round::Combining { indices, ids },
        )
    }

    /// Begins to combine tokens that are picked by a seed. Gives the shared counter after this
    /// occasion, too.
    pub fn combine_random_tokens(&self, counter: u32, seed: u32) -> (begun: (RoundStep, u32))
        requires
            seed < 1_000_000_000,
        ensures
            self@.tokens.len() < 2 ==> {
                &&& begun.0 matches RoundStep::End(None, Err(ClientError::Interaction(detail)))
                &&& detail@ == "Not enough tokens to combine"@
                &&& begun.1 == counter
            },
            self@.tokens.len() >= 2 ==> {
                let next = if self@.tokens.len() < 3 {
                    counter as int
                } else if counter == u32::MAX {
                    0
                } else {
                    counter + 1
                };
                let count = if self@.tokens.len() >= 3 && next % 3 == 0 {
                    3nat
                } else {
                    2
                };
                let indices = super::picked(
                    super::indices_below(self@.tokens.len()),
                    seed as nat,
                    0,
                    count,
                );
                &&& begun.1 == next
                &&& begun.0 matches RoundStep::Act(
                    Action::Perform(Operation::Combine { tokens }),
                    Round::Combining { indices: at, ids },
                )
                &&& at@ == indices
                &&& tokens@ == tokens_at(self@.tokens, indices)
                &&& ids@ == ids_at(self@.tokens, indices)
            },
    {
        match self.plan_combine(counter, seed) {
            Ok((indices, next)) => {
                proof {
                    assert(self.tokens@.len() == self.tokens.len());
                    super::law_picked_indices(self@.tokens.len(), seed as nat, 2);
                    super::law_picked_indices(self@.tokens.len(), seed as nat, 3);
                }
                (self.combine_tokens_at(indices), next)
            },
            Err(error) => (RoundStep::End(None, Err(error)), counter),
        }
    }

    /// Begins to split a random token into random amounts. Where no token can be split, a token
    /// is issued instead.
    pub fn split_random_token(&self) -> (step: RoundStep)
        ensures
            self@.tokens.len() == 0 ==> {
                &&& step matches RoundStep::End(None, Err(ClientError::Interaction(detail)))
                &&& detail@ == "No tokens to split"@
            },
            self@.tokens.len() > 0 && splittable_from(self@.tokens, 0).len() == 0 ==> step
                == RoundStep::Act(
                Action::Perform(Operation::Issue { bits: self@.bits }),
                Round::Issuing,
            ),
            splittable_from(self@.tokens, 0).len() > 0 ==> {
                &&& step matches RoundStep::Act(
                    Action::Perform(Operation::Split { token, amounts }),
                    Round::Splitting { index, id },
                )
                &&& splittable_from(self@.tokens, 0).contains(index)
                &&& index < self@.tokens.len()
                &&& HeldToken { id, token } == self@.tokens[index as int]
                &&& amounts.len() == 2 || amounts.len() == 3
                &&& total(amounts@) == token_value(token)
                &&& pieces_fit(token_value(token) as nat, amounts@)
                &&& forall|i: int| 0 <= i < amounts.len() - 1 ==> #[trigger] amounts@[i] >= 1
                &&& token_value(token) >= amounts.len() ==> forall|i: int|
                    0 <= i < amounts.len() ==> #[trigger] amounts@[i] >= 1
            },
    {
        match self.plan_random_split() {
            Ok(Some(plan)) => RoundStep::Act(
                Action::Perform(Operation::Split { token: plan.token, amounts: plan.amounts }),
                Round::Splitting { index: plan.index, id: plan.id },
            ),
            Ok(None) => self.issue_token(),
            Err(error) => RoundStep::End(None, Err(error)),
        }
    }

    /// Whether `go_on` takes an event for an operation: what is remembered of it fits the user,
    /// and its action can have gone this way.
    pub fn can_go_on(&self, round: &Round, event: &Event) -> (yes: bool)
        ensures
            yes == (round.sound(self@) && round_fits(*round, *event)),
    {
        let held: usize = self.tokens.len();
        match (round, event) {
            (Round::Issuing, Event::Performed(performed)) => gives_token(performed),
            (Round::IssueStoring { .. }, Event::Stored(_)) => true,
            (Round::Spending { index, .. }, Event::Performed(performed)) => *index < held
                && gives_token(performed),
            (Round::SpendUpdating { index, .. }, Event::Updated(_)) => *index < held,
            (Round::Combining { ids, .. }, Event::Performed(performed)) => ids.len() > 0
                && gives_token(performed),
            (Round::CombineStoring { ids, .. }, Event::Stored(_)) => ids.len() > 0,
            (Round::CombineDeleting { ids, next, .. }, Event::Deleted(_)) => *next < ids.len(),
            (Round::Splitting { index, .. }, Event::Performed(performed)) => *index < held
                && gives_tokens(performed),
            (Round::SplitDeleting { index, .. }, Event::Deleted(_)) => *index < held,
            (Round::SplitStoring { index, tokens, next, .. }, Event::Stored(_)) => *index < held
                && *next < tokens.len(),
            _ => false,
        }
    }

    /// Goes on with an operation, with how the last action went.
    pub fn go_on(&mut self, round: Round, event: Event) -> (step: RoundStep)
        requires
            round.sound(old(self)@),
            round_fits(round, event),
        ensures
            round_goes_on(old(self)@, round, event, final(self)@, step),
    {
        match (round, event) {
            (Round::Issuing, Event::Performed(Ok(Outcome::Token(token)))) => RoundStep::Act(
                Action::Store(token.clone()),
                Round::IssueStoring { token },
            ),
            (Round::Issuing, Event::Performed(Err(error))) => fall_through(Deed::Issue, error),
            (Round::IssueStoring { token }, Event::Stored(Ok(id))) => {
                self.add_token(id, token);
                succeed(Deed::Issue)
            },
            (Round::Spending { index, id }, Event::Performed(Ok(Outcome::Token(token)))) => {
                RoundStep::Act(
                    Action::Update(id, token.clone()),
                    Round::SpendUpdating { index, id, token },
                )
            },
            (Round::Spending { .. }, Event::Performed(Err(error))) => fall_through(
                Deed::Spend,
                error,
            ),
            (Round::SpendUpdating { index, id, token }, Event::Updated(Ok(_))) => {
                self.spent(index, id, token);
                succeed(Deed::Spend)
            },
            (Round::Combining { indices, ids }, Event::Performed(Ok(Outcome::Token(token)))) => {
                RoundStep::Act(
                    Action::Store(token.clone()),
                    Round::CombineStoring { indices, ids, token },
                )
            },
            (Round::Combining { .. }, Event::Performed(Err(error))) => fall_through(
                Deed::Combine,
                error,
            ),
            (Round::CombineStoring { indices, ids, token }, Event::Stored(Ok(new_id))) => {
                let first: i64 = ids[0];
                RoundStep::Act(
                    Action::Delete(first),
                    Round::CombineDeleting { indices, ids, next: 0, new_id, token },
                )
            },
            (Round::CombineDeleting { indices, ids, next, new_id, token }, Event::Deleted(_)) => {
                if next + 1 < ids.len() {
                    let following: i64 = ids[next + 1];
                    return RoundStep::Act(
                        Action::Delete(following),
                        Round::CombineDeleting { indices, ids, next: next + 1, new_id, token },
                    );
                }
                self.combined(&indices, new_id, token);
                succeed(Deed::Combine)
            },
            (Round::Splitting { index, id }, Event::Performed(Ok(Outcome::Tokens(tokens)))) => {
                RoundStep::Act(Action::Delete(id), Round::SplitDeleting { index, tokens })
            },
            (Round::Splitting { .. }, Event::Performed(Err(error))) => fall_through(
                Deed::Split,
                error,
            ),
            (Round::SplitDeleting { index, tokens }, Event::Deleted(_)) => {
                let ids: Vec<i64> = Vec::new();
                if tokens.len() == 0 {
                    proof {
                        assert(held(tokens@, ids@) =~= Seq::empty());
                        let left = self@.tokens.remove(index as int);
                        assert(left + held(tokens@, ids@) =~= left);
                    }
                    self.split(index, tokens, &ids);
                    return succeed(Deed::Split);
                }
                RoundStep::Act(
                    Action::Store(tokens[0].clone()),
                    Round::SplitStoring { index, tokens, ids, next: 0 },
                )
            },
            (Round::SplitStoring { index, tokens, ids, next }, Event::Stored(stored)) => {
                let mut ids = ids;
                if let Ok(id) = stored {
                    ids.push(id);
                }
                if next + 1 < tokens.len() {
                    return RoundStep::Act(
                        Action::Store(tokens[next + 1].clone()),
                        Round::SplitStoring { index, tokens, ids, next: next + 1 },
                    );
                }
                self.split(index, tokens, &ids);
                succeed(Deed::Split)
            },
            (_, Event::Stored(Err(error))) => RoundStep::End(None, Err(error)),
            (_, Event::Updated(Err(error))) => RoundStep::End(None, Err(error)),
            _ => RoundStep::End(None, Ok(())),
        }
    }
}

/// Whatever is remembered of an operation keeps fitting the user, from step to step.
pub proof fn law_rounds_stay_sound(
    before: UserView,
    round: Round,
    event: Event,
    after: UserView,
    step: RoundStep,
)
    requires
        round.sound(before),
        round_goes_on(before, round, event, after, step),
    ensures
        step matches RoundStep::Act(_, next) ==> next.sound(after),
{
}

/// Only an operation that succeeds changes what a user holds: issuing adds a token, spending
/// keeps their number, and splitting takes one away at most.
pub proof fn law_successes_are_accounted_for(
    before: UserView,
    round: Round,
    event: Event,
    after: UserView,
    step: RoundStep,
)
    requires
        round.sound(before),
        round_goes_on(before, round, event, after, step),
    ensures
        succeeds(step, Deed::Issue) ==> after.tokens.len() == before.tokens.len() + 1,
        succeeds(step, Deed::Spend) ==> after.tokens.len() == before.tokens.len(),
        succeeds(step, Deed::Split) ==> after.tokens.len() + 1 >= before.tokens.len(),
        !(step matches RoundStep::End(Some(_), Ok(_))) ==> after == before,
{
}

} // verus!
