//! The users that a load test simulates: which operation they try next, and on which tokens.

pub mod laws;
pub mod rounds;

use crate::client::{token_value, CreditTokenExt};
use crate::protocol::ClientError;
use crate::server::total;
use anonymous_credit_tokens::CreditToken;
use rand::Rng;
use vstd::prelude::*;

verus! {

/// `rand::thread_rng().gen_range(low..high)`: some number from `low` on and below `high`.
#[verifier::external_body]
fn draw(low: u128, high: u128) -> (r: u128)
    requires
        low < high,
    ensures
        low <= r < high,
{
    rand::thread_rng().gen_range(low..high)
}

/// A draw from a range of indices.
fn draw_index(low: usize, high: usize) -> (index: usize)
    requires
        low < high,
    ensures
        low <= index < high,
{
    draw(low as u128, high as u128) as usize
}

/// Draws a number below a hundred, by which a user chooses an operation.
pub fn draw_percent() -> (percent: u8)
    ensures
        percent < 100,
{
    draw(0, 100) as u8
}

/// A token that a user holds, and the identifier under which it is stored.
pub struct HeldToken {
    pub id: i64,
    pub token: CreditToken,
}

/// What a user can do next.
#[derive(Clone, Copy, Debug, PartialEq, Eq, Structural)]
pub enum Move {
    /// Have a token issued.
    Issue,
    /// Spend from a token.
    Spend,
    /// Combine tokens.
    Combine,
    /// Split a token.
    Split,
    /// Wait for so many milliseconds.
    Sleep(u64),
    /// Stop.
    Stop,
}

/// What a user is in the middle of.
#[derive(Clone, Copy, Debug, PartialEq, Eq, Structural)]
pub enum Phase {
    /// Nothing yet.
    Starting,
    /// The first token is being issued.
    First,
    /// A token is being issued because there was none left.
    Refilling,
    /// A pause after a token could not be issued.
    Waiting,
    /// An operation is being tried.
    Acting,
    /// A pause after an operation has failed.
    Recovering,
    /// The pause after every operation.
    Resting,
    /// One more token is being issued.
    ToppingUp,
    /// Nothing more.
    Stopped,
}

/// What has happened since the last move.
#[derive(Clone, Copy, Debug, PartialEq, Eq, Structural)]
pub enum Signal {
    /// The user is to start.
    Begin,
    /// The operation is over; whether it succeeded.
    Finished(bool),
    /// The pause is over.
    Rested,
}

/// How long a user waits after a failure.
pub const FAILURE_PAUSE_MS: u64 = 500;

/// How long a user waits after every operation.
pub const PAUSE_MS: u64 = 300;

/// The tokens that have value, in order.
pub open spec fn valuable(tokens: Seq<HeldToken>) -> Seq<HeldToken>
    decreases tokens.len(),
{
    if tokens.len() == 0 {
        tokens
    } else if token_value(tokens.last().token) > 0 {
        valuable(tokens.drop_last()).push(tokens.last())
    } else {
        valuable(tokens.drop_last())
    }
}

/// The operation that a percentage stands for, for a user with this many tokens.
pub open spec fn chosen(percent: u8, held: nat, spend_below: u8, combine_below: u8) -> Move {
    if percent < spend_below && held > 0 {
        Move::Spend
    } else if percent < combine_below && held >= 2 {
        Move::Combine
    } else if held >= 1 && (percent >= combine_below || (combine_below == 0 && spend_below == 0)) {
        Move::Split
    } else {
        Move::Issue
    }
}

/// A simulated user.
pub struct VirtualUser {
    pub tokens: Vec<HeldToken>,
    pub bits: u32,
    pub max_tokens: usize,
    spend_threshold: u8,
    combine_threshold: u8,
    phase: Phase,
}

/// A simulated user, as a mathematical value.
#[verifier::ext_equal]
pub struct UserView {
    pub tokens: Seq<HeldToken>,
    pub bits: u32,
    pub max_tokens: usize,
    pub spend_below: u8,
    pub combine_below: u8,
    pub phase: Phase,
}

impl View for VirtualUser {
    type V = UserView;

    closed spec fn view(&self) -> UserView {
        UserView {
            tokens: self.tokens@,
            bits: self.bits,
            max_tokens: self.max_tokens,
            spend_below: self.spend_threshold,
            combine_below: self.combine_threshold,
            phase: self.phase,
        }
    }
}

/// What a user does when it is free: nothing more once the test is over, issue a token where no
/// token with value is left, else the chosen operation. Tokens without value are dropped.
pub open spec fn free_move(user: UserView, running: bool, percent: u8) -> (UserView, Move) {
    let tokens = valuable(user.tokens);
    if !running {
        (UserView { phase: Phase::Stopped, ..user }, Move::Stop)
    } else if tokens.len() == 0 {
        (UserView { tokens, phase: Phase::Refilling, ..user }, Move::Issue)
    } else {
        (
            UserView { tokens, phase: Phase::Acting, ..user },
            chosen(percent, tokens.len(), user.spend_below, user.combine_below),
        )
    }
}

/// What a user does next. `due` says whether it is time for one more token.
pub open spec fn next_move_of(
    user: UserView,
    signal: Signal,
    running: bool,
    percent: u8,
    due: bool,
) -> (UserView, Move) {
    match (user.phase, signal) {
        (Phase::Starting, _) => (UserView { phase: Phase::First, ..user }, Move::Issue),
        (Phase::First, Signal::Finished(false)) => (
            UserView { phase: Phase::Stopped, ..user },
            Move::Stop,
        ),
        (Phase::Refilling, Signal::Finished(false)) => (
            UserView { phase: Phase::Waiting, ..user },
            Move::Sleep(FAILURE_PAUSE_MS),
        ),
        (Phase::Acting, Signal::Finished(false)) => (
            UserView { phase: Phase::Recovering, ..user },
            Move::Sleep(FAILURE_PAUSE_MS),
        ),
        (Phase::Acting, _) | (Phase::Recovering, _) => (
            UserView { phase: Phase::Resting, ..user },
            Move::Sleep(PAUSE_MS),
        ),
        (Phase::Resting, _) => if user.tokens.len() < user.max_tokens && due {
            (UserView { phase: Phase::ToppingUp, ..user }, Move::Issue)
        } else {
            free_move(user, running, percent)
        },
        (Phase::Stopped, _) => (user, Move::Stop),
        _ => free_move(user, running, percent),
    }
}

/// A shared counter after one more tick, and whether this tick is one of every `period`.
pub fn tick(counter: u32, period: u32) -> (ticked: (u32, bool))
    requires
        period > 0,
    ensures
        ticked.0 == if counter == u32::MAX { 0 } else { counter + 1 },
        ticked.1 <==> ticked.0 as nat % period as nat == 0,
{
    let next: u32 = counter.wrapping_add(1);
    (next, next % period == 0)
}

impl VirtualUser {
    /// A user who spends and combines with these shares, and splits else.
    pub fn new(bits: u32, max_tokens: usize, spend_percent: u8, combine_percent: u8) -> (user:
        VirtualUser)
        requires
            spend_percent + combine_percent <= u8::MAX,
        ensures
            user@ == (UserView {
                tokens: Seq::empty(),
                bits,
                max_tokens,
                spend_below: spend_percent,
                combine_below: (spend_percent + combine_percent) as u8,
                phase: Phase::Starting,
            }),
    {
        VirtualUser {
            tokens: Vec::new(),
            bits,
            max_tokens,
            spend_threshold: spend_percent,
            combine_threshold: spend_percent + combine_percent,
            phase: Phase::Starting,
        }
    }

    fn drop_empty(&mut self)
        ensures
            final(self)@ == (UserView { tokens: valuable(old(self)@.tokens), ..old(self)@ }),
    {
        let ghost all = self.tokens@;
        let mut i: usize = self.tokens.len();
        assert(all.take(i as int) =~= all);
        let ghost mut kept: Seq<HeldToken> = Seq::empty();
        while i > 0
            invariant
                i <= all.len(),
                self.tokens@ =~= all.take(i as int) + kept,
                valuable(all) =~= valuable(all.take(i as int)) + kept,
                self.bits == old(self).bits,
                self.max_tokens == old(self).max_tokens,
                self.spend_threshold == old(self).spend_threshold,
                self.combine_threshold == old(self).combine_threshold,
                self.phase == old(self).phase,
            decreases i,
        {
            i = i - 1;
            assert(all.take(i + 1).drop_last() =~= all.take(i as int));
            assert(self.tokens@[i as int] == all[i as int]);
            if self.tokens[i].token.get_value() == 0 {
                self.tokens.remove(i);
            } else {
                proof {
                    kept = seq![all[i as int]] + kept;
                }
            }
        }
        assert(self@ =~= UserView { tokens: valuable(old(self)@.tokens), ..old(self)@ });
    }

    fn choose_move(&self, percent: u8) -> (choice: Move)
        ensures
            choice == chosen(
                percent,
                self@.tokens.len(),
                self@.spend_below,
                self@.combine_below,
            ),
    {
        if percent < self.spend_threshold && self.tokens.len() > 0 {
            Move::Spend
        } else if percent < self.combine_threshold && self.tokens.len() >= 2 {
            Move::Combine
        } else if self.tokens.len() >= 1 && (percent >= self.combine_threshold || (
        self.combine_threshold == 0 && self.spend_threshold == 0)) {
            Move::Split
        } else {
            Move::Issue
        }
    }

    fn decide(&mut self, running: bool, percent: u8) -> (choice: Move)
        ensures
            (final(self)@, choice) == free_move(old(self)@, running, percent),
    {
        if !running {
            self.phase = Phase::Stopped;
            return Move::Stop;
        }
        self.drop_empty();
        if self.tokens.len() == 0 {
            self.phase = Phase::Refilling;
            return Move::Issue;
        }
        self.phase = Phase::Acting;
        self.choose_move(percent)
    }

    /// Whether the pause after an operation is on.
    pub fn is_resting(&self) -> (resting: bool)
        ensures
            resting <==> self@.phase == Phase::Resting,
    {
        self.phase == Phase::Resting
    }

    /// What the user does next, after what has happened since the last move.
    pub fn next_move(&mut self, signal: Signal, running: bool, percent: u8, due: bool) -> (choice:
        Move)
        ensures
            (final(self)@, choice) == next_move_of(old(self)@, signal, running, percent, due),
    {
        match (self.phase, signal) {
            (Phase::Starting, _) => {
                self.phase = Phase::First;
                Move::Issue
            },
            (Phase::First, Signal::Finished(false)) => {
                self.phase = Phase::Stopped;
                Move::Stop
            },
            (Phase::Refilling, Signal::Finished(false)) => {
                self.phase = Phase::Waiting;
                Move::Sleep(FAILURE_PAUSE_MS)
            },
            (Phase::Acting, Signal::Finished(false)) => {
                self.phase = Phase::Recovering;
                Move::Sleep(FAILURE_PAUSE_MS)
            },
            (Phase::Acting, _) | (Phase::Recovering, _) => {
                self.phase = Phase::Resting;
                Move::Sleep(PAUSE_MS)
            },
            (Phase::Resting, _) => {
                if self.tokens.len() < self.max_tokens && due {
                    self.phase = Phase::ToppingUp;
                    return Move::Issue;
                }
                self.decide(running, percent)
            },
            (Phase::Stopped, _) => Move::Stop,
            _ => self.decide(running, percent),
        }
    }
}

/// A spend that a user is to try.
pub struct SpendPlan {
    pub index: usize,
    pub id: i64,
    pub token: CreditToken,
    pub amount: u128,
}

/// How much of a drawn amount is spent from a token of this value: something is always left.
pub open spec fn spend_amount(amount: nat, value: nat) -> nat {
    let most = if value > 1 {
        (value - 1) as nat
    } else {
        0
    };
    if amount < most {
        amount
    } else {
        most
    }
}

/// A split that a user is to try.
pub struct SplitPlan {
    pub index: usize,
    pub id: i64,
    pub token: CreditToken,
    pub amounts: Vec<u128>,
}

/// The indices of the tokens that are worth more than one credit, from `next` on.
pub open spec fn splittable_from(tokens: Seq<HeldToken>, next: int) -> Seq<usize>
    decreases tokens.len() - next,
{
    if next >= tokens.len() {
        seq![]
    } else if token_value(tokens[next].token) > 1 {
        seq![next as usize] + splittable_from(tokens, next + 1)
    } else {
        splittable_from(tokens, next + 1)
    }
}

/// The range from which a piece of a split is drawn, when so much remains and so many pieces are
/// still to follow it: `None` where the piece is one credit.
pub open spec fn piece_range_of(remaining: nat, following: nat) -> Option<(nat, nat)> {
    if remaining - following <= 1 {
        None
    } else {
        Some((1, (remaining - following) as nat))
    }
}

/// The range from which a piece of a split is drawn, when so much remains and so many pieces are
/// still to follow it: `None` where the piece is one credit.
pub fn piece_range(remaining: u128, following: u128) -> (range: Option<(u128, u128)>)
    requires
        following <= remaining,
    ensures
        range is Some <==> piece_range_of(remaining as nat, following as nat) is Some,
        range matches Some((low, high)) ==> piece_range_of(remaining as nat, following as nat)
            == Some((low as nat, high as nat)),
{
    let most: u128 = remaining - following;
    if most <= 1 {
        None
    } else {
        Some((1, most))
    }
}

/// Whether a piece of a split lies in the range from which it is drawn, with what the pieces
/// before it leave of the value and with the pieces that follow it.
pub open spec fn piece_fits(value: nat, pieces: nat, amounts: Seq<u128>, i: int) -> bool {
    let remaining = (value - total(amounts.take(i))) as nat;
    match piece_range_of(remaining, (pieces - 1 - i) as nat) {
        Some((low, high)) => low <= amounts[i] < high,
        None => amounts[i] == 1,
    }
}

/// Whether every piece of a split but the last, which is the rest, lies in its range.
pub open spec fn pieces_fit(value: nat, amounts: Seq<u128>) -> bool {
    forall|i: int|
        0 <= i < amounts.len() - 1 ==> #[trigger] piece_fits(value, amounts.len(), amounts, i)
}

/// Draws the amounts of a split. They add up to the value; all but the last are positive, and the
/// last is too where the value is enough for that.
pub fn draw_amounts(value: u128, pieces: usize) -> (amounts: Vec<u128>)
    requires
        pieces >= 1,
        pieces <= value + 1,
    ensures
        amounts.len() == pieces,
        total(amounts@) == value,
        pieces_fit(value as nat, amounts@),
        forall|i: int| 0 <= i < pieces - 1 ==> #[trigger] amounts@[i] >= 1,
        pieces <= value ==> amounts@[pieces - 1] >= 1,
{
    let mut amounts: Vec<u128> = Vec::new();
    let mut remaining: u128 = value;
    while amounts.len() + 1 < pieces
        invariant
            1 <= pieces <= value + 1,
            amounts.len() < pieces,
            remaining + total(amounts@) == value,
            remaining >= pieces - amounts.len() - 1,
            pieces <= value ==> remaining >= pieces - amounts.len(),
            forall|j: int|
                0 <= j < amounts.len() ==> #[trigger] piece_fits(
                    value as nat,
                    pieces as nat,
                    amounts@,
                    j,
                ),
            forall|j: int| 0 <= j < amounts.len() ==> #[trigger] amounts@[j] >= 1,
        decreases pieces - amounts.len(),
    {
        let following: u128 = (pieces - amounts.len() - 1) as u128;
        let amount: u128 = match piece_range(remaining, following) {
            Some((low, high)) => draw(low, high),
            None => 1,
        };
        let ghost before = amounts@;
        amounts.push(amount);
        proof {
            assert(amounts@.drop_last() =~= before);
            lemma_pieces_still_fit(value as nat, pieces as nat, before, amount);
            assert(amounts@.take(before.len() as int) =~= before);
        }
        remaining = remaining - amount;
    }
    let ghost before = amounts@;
    amounts.push(remaining);
    proof {
        assert(amounts@.drop_last() =~= before);
        lemma_pieces_still_fit(value as nat, pieces as nat, before, remaining);
    }
    amounts
}

proof fn lemma_pieces_still_fit(value: nat, pieces: nat, amounts: Seq<u128>, next: u128)
    requires
        forall|j: int|
            0 <= j < amounts.len() ==> #[trigger] piece_fits(value, pieces, amounts, j),
    ensures
        forall|j: int|
            0 <= j < amounts.len() ==> #[trigger] piece_fits(
                value,
                pieces,
                amounts.push(next),
                j,
            ),
{
    assert forall|j: int| 0 <= j < amounts.len() implies #[trigger] piece_fits(
        value,
        pieces,
        amounts.push(next),
        j,
    ) by {
        assert(piece_fits(value, pieces, amounts, j));
        assert(amounts.push(next).take(j) =~= amounts.take(j));
    }
}

/// How many tokens are combined: three on every third occasion where there are enough, else two.
/// Gives the shared counter after this occasion, too; it only counts where there are enough.
pub fn combine_count(held: usize, counter: u32) -> (count: (usize, u32))
    ensures
        held < 3 ==> count == (2usize, counter),
        held >= 3 ==> {
            let next = if counter == u32::MAX { 0 } else { counter + 1 };
            count.1 == next && count.0 == if next % 3 == 0 { 3usize } else { 2usize }
        },
{
    if held < 3 {
        return (2, counter);
    }
    let (next, third) = tick(counter, 3);
    (if third { 3 } else { 2 }, next)
}

/// What is picked out of some indices, by a seed: each time the index at the seed plus the number
/// of picks so far, counted round.
pub open spec fn picked(available: Seq<usize>, seed: nat, taken: nat, count: nat) -> Seq<usize>
    decreases count,
{
    if count == 0 || available.len() == 0 {
        seq![]
    } else {
        let at = (seed + taken) as int % available.len() as int;
        seq![available[at]] + picked(
            available.remove(at),
            seed,
            taken + 1,
            (count - 1) as nat,
        )
    }
}

/// The numbers below a bound, in order.
pub open spec fn indices_below(len: nat) -> Seq<usize> {
    Seq::new(len, |i: int| i as usize)
}

/// Picks indices below `len` by a seed.
pub fn pick_indices(len: usize, count: usize, seed: u32) -> (indices: Vec<usize>)
    requires
        seed < 1_000_000_000,
        count <= 1_000_000_000,
    ensures
        indices@ == picked(indices_below(len as nat), seed as nat, 0, count as nat),
{
    let mut available: Vec<usize> = Vec::new();
    let mut i: usize = 0;
    while i < len
        invariant
            i <= len,
            available.len() == i,
            forall|j: int| 0 <= j < i ==> #[trigger] available@[j] == j,
        decreases len - i,
    {
        available.push(i);
        i = i + 1;
    }
    assert(available@ =~= indices_below(len as nat));
    let ghost whole = picked(available@, seed as nat, 0, count as nat);
    let mut indices: Vec<usize> = Vec::new();
    assert(indices@ + whole =~= whole);
    while indices.len() < count && available.len() > 0
        invariant
            seed < 1_000_000_000,
            indices.len() <= count <= 1_000_000_000,
            whole =~= indices@ + picked(
                available@,
                seed as nat,
                indices@.len(),
                (count - indices.len()) as nat,
            ),
        decreases count - indices.len(),
    {
        let at: usize = (seed as usize + indices.len()) % available.len();
        let ghost before = indices@;
        let ghost left = available@;
        let index: usize = available.remove(at);
        indices.push(index);
        assert(before + (seq![left[at as int]] + picked(
            left.remove(at as int),
            seed as nat,
            before.len() + 1,
            (count - before.len() - 1) as nat,
        )) =~= indices@ + picked(
            available@,
            seed as nat,
            indices@.len(),
            (count - indices.len()) as nat,
        ));
    }
    assert(indices@ =~= whole);
    indices
}

proof fn lemma_picked(available: Seq<usize>, seed: nat, taken: nat, count: nat)
    requires
        available.no_duplicates(),
    ensures
        picked(available, seed, taken, count).len() == if count < available.len() {
            count
        } else {
            available.len()
        },
        picked(available, seed, taken, count).no_duplicates(),
        forall|i: int|
            0 <= i < picked(available, seed, taken, count).len() ==> available.contains(
                #[trigger] picked(available, seed, taken, count)[i],
            ),
    decreases count,
{
    if count > 0 && available.len() > 0 {
        let at = (seed + taken) as int % available.len() as int;
        assert(0 <= at < available.len());
        let rest = available.remove(at);
        assert forall|i: int, j: int| 0 <= i < rest.len() && 0 <= j < rest.len() && i
            != j implies rest[i] != rest[j] by {
            let a = if i < at { i } else { i + 1 };
            let b = if j < at { j } else { j + 1 };
            assert(rest[i] == available[a] && rest[j] == available[b]);
        }
        lemma_picked(rest, seed, taken + 1, (count - 1) as nat);
        let tail = picked(rest, seed, taken + 1, (count - 1) as nat);
        let all = picked(available, seed, taken, count);
        assert(all =~= seq![available[at]] + tail);
        assert forall|i: int| 0 <= i < tail.len() implies tail[i] != available[at]
            && available.contains(#[trigger] tail[i]) by {
            assert(rest.contains(tail[i]));
            let k = choose|k: int| 0 <= k < rest.len() && rest[k] == tail[i];
            let a = if k < at { k } else { k + 1 };
            assert(available[a] == tail[i]);
        }
        assert forall|i: int, j: int| 0 <= i < all.len() && 0 <= j < all.len() && i
            != j implies all[i] != all[j] by {
            if i == 0 {
                assert(all[j] == tail[j - 1]);
            } else if j == 0 {
                assert(all[i] == tail[i - 1]);
            } else {
                assert(all[i] == tail[i - 1] && all[j] == tail[j - 1]);
            }
        }
        assert forall|i: int| 0 <= i < all.len() implies available.contains(#[trigger] all[i]) by {
            if i > 0 {
                assert(all[i] == tail[i - 1]);
            }
        }
    }
}

/// Picking gives as many indices as were asked for, or all there are; all different, and all
/// below the bound.
pub proof fn law_picked_indices(len: nat, seed: nat, count: nat)
    requires
        len <= usize::MAX,
    ensures
        ({
            let indices = picked(indices_below(len), seed, 0, count);
            &&& indices.len() == if count < len { count } else { len }
            &&& indices.no_duplicates()
            &&& forall|i: int| 0 <= i < indices.len() ==> #[trigger] indices[i] < len
        }),
{
    let available = indices_below(len);
    lemma_picked(available, seed, 0, count);
    let indices = picked(available, seed, 0, count);
    assert forall|i: int| 0 <= i < indices.len() implies #[trigger] indices[i] < len by {
        assert(available.contains(indices[i]));
    }
}

/// The tokens from `next` on whose index is not among those that are gone, in order.
pub open spec fn kept_from(tokens: Seq<HeldToken>, gone: Seq<usize>, next: int) -> Seq<HeldToken>
    decreases tokens.len() - next,
{
    if next >= tokens.len() {
        seq![]
    } else if gone.contains(next as usize) {
        kept_from(tokens, gone, next + 1)
    } else {
        seq![tokens[next]] + kept_from(tokens, gone, next + 1)
    }
}

fn has_index(indices: &Vec<usize>, index: usize) -> (found: bool)
    ensures
        found <==> indices@.contains(index),
{
    let mut i: usize = 0;
    while i < indices.len()
        invariant
            i <= indices.len(),
            forall|j: int| 0 <= j < i ==> indices@[j] != index,
        decreases indices.len() - i,
    {
        if indices[i] == index {
            return true;
        }
        i = i + 1;
    }
    false
}

/// New tokens with identifiers, in order, as far as there are any.
pub open spec fn held(tokens: Seq<CreditToken>, ids: Seq<i64>) -> Seq<HeldToken> {
    Seq::new(
        if tokens.len() < ids.len() {
            tokens.len()
        } else {
            ids.len()
        },
        |i: int| HeldToken { id: ids[i], token: tokens[i] },
    )
}

impl VirtualUser {
    /// Adds a token that was issued.
    pub fn add_token(&mut self, id: i64, token: CreditToken)
        ensures
            final(self)@ == (UserView {
                tokens: old(self)@.tokens.push(HeldToken { id, token }),
                ..old(self)@
            }),
    {
        self.tokens.push(HeldToken { id, token });
    }

    /// Plans to spend up to an amount from a token. A token from which nothing can be spent is
    /// dropped.
    pub fn plan_spend(&mut self, index: usize, amount: u128) -> (plan: Option<SpendPlan>)
        requires
            index < old(self)@.tokens.len(),
        ensures
            ({
                let chosen = old(self)@.tokens[index as int];
                let spent = spend_amount(amount as nat, token_value(chosen.token) as nat);
                if spent == 0 {
                    &&& plan is None
                    &&& final(self)@ == (UserView {
                        tokens: old(self)@.tokens.remove(index as int),
                        ..old(self)@
                    })
                } else {
                    &&& plan matches Some(plan)
                    &&& plan.index == index
                    &&& plan.id == chosen.id
                    &&& plan.token == chosen.token
                    &&& plan.amount == spent
                    &&& final(self)@ == old(self)@
                }
            }),
    {
        let value: u128 = self.tokens[index].token.get_value();
        let most: u128 = if value > 1 {
            value - 1
        } else {
            0
        };
        let spent: u128 = if amount < most {
            amount
        } else {
            most
        };
        if spent == 0 {
            self.tokens.remove(index);
            return None;
        }
        Some(
            SpendPlan {
                index,
                id: self.tokens[index].id,
                token: self.tokens[index].token.clone(),
                amount: spent,
            },
        )
    }

    /// Plans to spend a random amount from a random token. Without tokens there is nothing to
    /// plan; else the plan is one that `plan_spend` makes for some token and some amount below a
    /// hundred.
    pub fn plan_random_spend(&mut self) -> (plan: Result<Option<SpendPlan>, ClientError>)
        ensures
            old(self)@.tokens.len() == 0 ==> {
                &&& plan matches Err(ClientError::Interaction(detail))
                &&& detail@ == "No tokens to spend"@
                &&& final(self)@ == old(self)@
            },
            old(self)@.tokens.len() > 0 ==> plan is Ok,
            plan matches Ok(Some(plan)) ==> {
                &&& plan.index < old(self)@.tokens.len()
                &&& plan.id == old(self)@.tokens[plan.index as int].id
                &&& plan.token == old(self)@.tokens[plan.index as int].token
                &&& 1 <= plan.amount < 100
                &&& plan.amount < token_value(plan.token)
                &&& final(self)@ == old(self)@
            },
            plan matches Ok(None) ==> exists|index: int|
                {
                    &&& 0 <= index < old(self)@.tokens.len()
                    &&& token_value((#[trigger] old(self)@.tokens[index]).token) <= 1
                    &&& final(self)@ == (UserView {
                        tokens: old(self)@.tokens.remove(index),
                        ..old(self)@
                    })
                },
    {
        if self.tokens.len() == 0 {
            return Err(ClientError::Interaction(String::from_str("No tokens to spend")));
        }
        let amount: u128 = draw(1, 100);
        let index: usize = draw_index(0, self.tokens.len());
        Ok(self.plan_spend(index, amount))
    }

    /// Puts what a spend has left in the place of the token that was spent.
    pub fn spent(&mut self, index: usize, id: i64, token: CreditToken)
        requires
            index < old(self)@.tokens.len(),
        ensures
            final(self)@ == (UserView {
                tokens: old(self)@.tokens.update(index as int, HeldToken { id, token }),
                ..old(self)@
            }),
    {
        self.tokens[index] = HeldToken { id, token };
    }

    /// Plans which tokens to combine, by a seed.
    pub fn plan_combine(&self, counter: u32, seed: u32) -> (plan: Result<
        (Vec<usize>, u32),
        ClientError,
    >)
        requires
            seed < 1_000_000_000,
        ensures
            self@.tokens.len() < 2 ==> {
                &&& plan matches Err(ClientError::Interaction(detail))
                &&& detail@ == "Not enough tokens to combine"@
            },
            self@.tokens.len() == 2 ==> {
                &&& plan matches Ok((indices, next))
                &&& indices@ == picked(indices_below(2), seed as nat, 0, 2)
                &&& next == counter
            },
            self@.tokens.len() >= 3 ==> {
                &&& plan matches Ok((indices, next))
                &&& next == if counter == u32::MAX { 0 } else { counter + 1 }
                &&& indices@ == picked(
                    indices_below(self@.tokens.len()),
                    seed as nat,
                    0,
                    if next % 3 == 0 { 3 } else { 2 },
                )
            },
    {
        if self.tokens.len() < 2 {
            return Err(ClientError::Interaction(String::from_str("Not enough tokens to combine")));
        }
        let (count, next) = combine_count(self.tokens.len(), counter);
        Ok((pick_indices(self.tokens.len(), count, seed), next))
    }

    /// Drops the tokens that were combined, and adds the one that they have become.
    pub fn combined(&mut self, indices: &Vec<usize>, id: i64, token: CreditToken)
        ensures
            final(self)@ == (UserView {
                tokens: kept_from(old(self)@.tokens, indices@, 0).push(HeldToken { id, token }),
                ..old(self)@
            }),
    {
        let ghost all = self.tokens@;
        let mut i: usize = self.tokens.len();
        assert(all.take(i as int) =~= all);
        while i > 0
            invariant
                i <= all.len() <= usize::MAX,
                self.tokens@ =~= all.take(i as int) + kept_from(all, indices@, i as int),
                self.bits == old(self).bits,
                self.max_tokens == old(self).max_tokens,
                self.spend_threshold == old(self).spend_threshold,
                self.combine_threshold == old(self).combine_threshold,
                self.phase == old(self).phase,
            decreases i,
        {
            i = i - 1;
            assert(self.tokens@[i as int] == all[i as int]);
            if has_index(indices, i) {
                self.tokens.remove(i);
            }
        }
        self.tokens.push(HeldToken { id, token });
    }

    /// The indices of the tokens that are worth more than one credit.
    pub fn splittable(&self) -> (indices: Vec<usize>)
        ensures
            indices@ == splittable_from(self@.tokens, 0),
    {
        let mut indices: Vec<usize> = Vec::new();
        let mut i: usize = 0;
        assert(indices@ + splittable_from(self.tokens@, 0) =~= splittable_from(self.tokens@, 0));
        while i < self.tokens.len()
            invariant
                i <= self.tokens.len(),
                splittable_from(self.tokens@, 0) =~= indices@ + splittable_from(
                    self.tokens@,
                    i as int,
                ),
            decreases self.tokens.len() - i,
        {
            let ghost before = indices@;
            if self.tokens[i].token.get_value() > 1 {
                indices.push(i);
                assert(before + (seq![i] + splittable_from(self.tokens@, i + 1)) =~= indices@
                    + splittable_from(self.tokens@, i + 1));
            }
            i = i + 1;
        }
        indices
    }

    /// Plans to split a random token into random amounts. Where no token can be split, there is
    /// no plan, and a token is to be issued instead.
    pub fn plan_random_split(&self) -> (plan: Result<Option<SplitPlan>, ClientError>)
        ensures
            self@.tokens.len() == 0 ==> {
                &&& plan matches Err(ClientError::Interaction(detail))
                &&& detail@ == "No tokens to split"@
            },
            self@.tokens.len() > 0 ==> plan is Ok,
            plan matches Ok(None) ==> splittable_from(self@.tokens, 0).len() == 0,
            plan matches Ok(Some(plan)) ==> {
                &&& splittable_from(self@.tokens, 0).contains(plan.index)
                &&& plan.index < self@.tokens.len()
                &&& plan.id == self@.tokens[plan.index as int].id
                &&& plan.token == self@.tokens[plan.index as int].token
                &&& plan.amounts.len() == 2 || plan.amounts.len() == 3
                &&& total(plan.amounts@) == token_value(plan.token)
                &&& pieces_fit(token_value(plan.token) as nat, plan.amounts@)
                &&& forall|i: int|
                    0 <= i < plan.amounts.len() - 1 ==> #[trigger] plan.amounts@[i] >= 1
                &&& token_value(plan.token) >= plan.amounts.len() ==> forall|i: int|
                    0 <= i < plan.amounts.len() ==> #[trigger] plan.amounts@[i] >= 1
            },
    {
        if self.tokens.len() == 0 {
            return Err(ClientError::Interaction(String::from_str("No tokens to split")));
        }
        let indices = self.splittable();
        if indices.len() == 0 {
            return Ok(None);
        }
        let at: usize = draw_index(0, indices.len());
        let index: usize = indices[at];
        proof {
            lemma_splittable(self.tokens@, 0, at as int);
        }
        let pieces: usize = draw_index(2, 4);
        let value: u128 = self.tokens[index].token.get_value();
        Ok(
            Some(
                SplitPlan {
                    index,
                    id: self.tokens[index].id,
                    token: self.tokens[index].token.clone(),
                    amounts: draw_amounts(value, pieces),
                },
            ),
        )
    }

    /// Drops the token that was split, and adds those that it has become, each with the identifier
    /// at its place, as far as there are identifiers.
    pub fn split(&mut self, index: usize, tokens: Vec<CreditToken>, ids: &Vec<i64>)
        requires
            index < old(self)@.tokens.len(),
        ensures
            final(self)@ == (UserView {
                tokens: old(self)@.tokens.remove(index as int) + held(tokens@, ids@),
                ..old(self)@
            }),
    {
        self.tokens.remove(index);
        let ghost kept = self.tokens@;
        let mut i: usize = 0;
        while i < tokens.len() && i < ids.len()
            invariant
                i <= held(tokens@, ids@).len(),
                self.tokens@ =~= kept + held(tokens@, ids@).take(i as int),
                self.bits == old(self).bits,
                self.max_tokens == old(self).max_tokens,
                self.spend_threshold == old(self).spend_threshold,
                self.combine_threshold == old(self).combine_threshold,
                self.phase == old(self).phase,
            decreases tokens.len() - i,
        {
            self.tokens.push(HeldToken { id: ids[i], token: tokens[i].clone() });
            i = i + 1;
        }
        assert(held(tokens@, ids@).take(i as int) =~= held(tokens@, ids@));
    }
}

proof fn lemma_splittable(tokens: Seq<HeldToken>, next: int, at: int)
    requires
        0 <= next,
        0 <= at < splittable_from(tokens, next).len(),
        tokens.len() <= usize::MAX,
    ensures
        splittable_from(tokens, next)[at] < tokens.len(),
        token_value(tokens[splittable_from(tokens, next)[at] as int].token) > 1,
    decreases tokens.len() - next,
{
    if next < tokens.len() {
        if token_value(tokens[next].token) > 1 {
            if at > 0 {
                lemma_splittable(tokens, next + 1, at - 1);
            }
        } else {
            lemma_splittable(tokens, next + 1, at);
        }
    }
}

/// The operation that a user chooses is one that its tokens allow.
pub proof fn law_chosen_operation_is_possible(
    percent: u8,
    held: nat,
    spend_below: u8,
    combine_below: u8,
)
    ensures
        ({
            let choice = chosen(percent, held, spend_below, combine_below);
            &&& choice == Move::Spend ==> held >= 1
            &&& choice == Move::Combine ==> held >= 2
            &&& choice == Move::Split ==> held >= 1
            &&& !(choice is Sleep) && choice != Move::Stop
        }),
{
}

/// A user never spends a whole token: something is left of any token that has value.
pub proof fn law_spending_leaves_something(amount: nat, value: nat)
    requires
        value > 0,
    ensures
        spend_amount(amount, value) < value,
        spend_amount(amount, value) <= amount,
{
}

/// What is kept of a user's tokens are tokens of that user, and all of them have value.
pub proof fn law_kept_tokens_have_value(tokens: Seq<HeldToken>)
    ensures
        forall|i: int|
            0 <= i < valuable(tokens).len() ==> token_value(
                (#[trigger] valuable(tokens)[i]).token,
            ) > 0 && tokens.contains(valuable(tokens)[i]),
    decreases tokens.len(),
{
    if tokens.len() > 0 {
        let rest = tokens.drop_last();
        law_kept_tokens_have_value(rest);
        assert forall|i: int| 0 <= i < valuable(tokens).len() implies token_value(
            (#[trigger] valuable(tokens)[i]).token,
        ) > 0 && tokens.contains(valuable(tokens)[i]) by {
            if i < valuable(rest).len() {
                assert(valuable(tokens)[i] == valuable(rest)[i]);
                let k = choose|k: int| 0 <= k < rest.len() && rest[k] == valuable(rest)[i];
                assert(tokens[k] == rest[k]);
            } else {
                assert(tokens[tokens.len() - 1] == tokens.last());
            }
        }
    }
}

proof fn lemma_kept_from(tokens: Seq<HeldToken>, gone: Seq<usize>, next: int)
    requires
        0 <= next <= tokens.len() <= usize::MAX,
    ensures
        forall|i: int|
            0 <= i < kept_from(tokens, gone, next).len() ==> exists|k: int|
                next <= k < tokens.len() && !gone.contains(k as usize)
                    && #[trigger] kept_from(tokens, gone, next)[i] == #[trigger] tokens[k],
        forall|k: int|
            next <= k < tokens.len() && !gone.contains(k as usize) ==> kept_from(
                tokens,
                gone,
                next,
            ).contains(#[trigger] tokens[k]),
    decreases tokens.len() - next,
{
    if next < tokens.len() {
        lemma_kept_from(tokens, gone, next + 1);
        let rest = kept_from(tokens, gone, next + 1);
        let kept = kept_from(tokens, gone, next);
        let shift: int = if gone.contains(next as usize) {
            0
        } else {
            1
        };
        assert(forall|i: int| 0 <= i < rest.len() ==> kept[i + shift] == #[trigger] rest[i]);
        assert forall|i: int| 0 <= i < kept.len() implies exists|k: int|
            next <= k < tokens.len() && !gone.contains(k as usize) && #[trigger] kept[i]
                == #[trigger] tokens[k] by {
            if i < shift {
                assert(kept[i] == tokens[next]);
            } else {
                assert(kept[i] == rest[i - shift]);
            }
        }
        assert forall|k: int|
            next <= k < tokens.len() && !gone.contains(k as usize) implies kept.contains(
            #[trigger] tokens[k],
        ) by {
            if k == next {
                assert(kept[0] == tokens[k]);
            } else {
                assert(rest.contains(tokens[k]));
                let i = choose|i: int| 0 <= i < rest.len() && rest[i] == tokens[k];
                assert(kept[i + shift] == tokens[k]);
            }
        }
    }
}

/// What a user keeps after a combination are just the tokens that did not go into it.
pub proof fn law_combined_tokens_are_gone(tokens: Seq<HeldToken>, gone: Seq<usize>)
    requires
        tokens.len() <= usize::MAX,
    ensures
        forall|i: int|
            0 <= i < kept_from(tokens, gone, 0).len() ==> exists|k: int|
                0 <= k < tokens.len() && !gone.contains(k as usize)
                    && #[trigger] kept_from(tokens, gone, 0)[i] == #[trigger] tokens[k],
        forall|k: int|
            0 <= k < tokens.len() && !gone.contains(k as usize) ==> kept_from(
                tokens,
                gone,
                0,
            ).contains(#[trigger] tokens[k]),
{
    lemma_kept_from(tokens, gone, 0);
}

/// A user with at least two tokens does what its shares say: out of a hundred percentages, as many
/// as the share of spending lead to a spend, the next as many as the share of combining to a
/// combination, and the others to a split. A user with one token does not combine, and one without
/// tokens has one issued.
pub proof fn law_operations_have_their_shares(
    bits: u32,
    max_tokens: usize,
    spend_percent: u8,
    combine_percent: u8,
    user: VirtualUser,
    percent: u8,
    held: nat,
)
    requires
        call_ensures(VirtualUser::new, (bits, max_tokens, spend_percent, combine_percent), user),
        spend_percent + combine_percent <= 100,
        percent < 100,
    ensures
        ({
            let choice = chosen(percent, held, user@.spend_below, user@.combine_below);
            let both = spend_percent + combine_percent;
            &&& held >= 2 ==> (choice == Move::Spend <==> percent < spend_percent)
            &&& held >= 2 ==> (choice == Move::Combine <==> spend_percent <= percent < both)
            &&& held >= 2 ==> (choice == Move::Split <==> percent >= both)
            &&& held == 1 ==> (choice == Move::Spend <==> percent < spend_percent)
            &&& held == 1 ==> (choice == Move::Split <==> percent >= both)
            &&& held == 1 ==> (choice == Move::Issue <==> spend_percent <= percent < both)
            &&& held == 0 ==> choice == Move::Issue
        }),
        user@.tokens.len() == 0,
        user@.bits == bits,
        user@.max_tokens == max_tokens,
{
}

/// What a user keeps are just its tokens with value, in order.
pub proof fn law_tokens_with_value_are_kept(tokens: Seq<HeldToken>)
    ensures
        valuable(tokens) == tokens.filter(|held: HeldToken| token_value(held.token) > 0),
    decreases tokens.len(),
{
    reveal(Seq::filter);
    if tokens.len() > 0 {
        law_tokens_with_value_are_kept(tokens.drop_last());
    }
}

/// The smaller one of what was drawn and all but one of the credits is spent.
pub proof fn law_as_much_as_possible_is_spent(amount: nat, value: nat)
    ensures
        value > 0 ==> spend_amount(amount, value) == amount || spend_amount(amount, value) == value
            - 1,
        value == 0 ==> spend_amount(amount, value) == 0,
{
}

proof fn lemma_splittable_from(tokens: Seq<HeldToken>, next: int)
    requires
        0 <= next <= tokens.len() <= usize::MAX,
    ensures
        forall|i: usize| #[trigger]
            splittable_from(tokens, next).contains(i) <==> next <= i < tokens.len() && token_value(
                tokens[i as int].token,
            ) > 1,
        forall|i: int, j: int|
            0 <= i < j < splittable_from(tokens, next).len() ==> #[trigger] splittable_from(
                tokens,
                next,
            )[i] < #[trigger] splittable_from(tokens, next)[j],
    decreases tokens.len() - next,
{
    if next < tokens.len() {
        lemma_splittable_from(tokens, next + 1);
        let rest = splittable_from(tokens, next + 1);
        let all = splittable_from(tokens, next);
        if token_value(tokens[next].token) > 1 {
            assert(all =~= seq![next as usize] + rest);
            assert forall|i: usize| #[trigger] all.contains(i) <==> next <= i < tokens.len()
                && token_value(tokens[i as int].token) > 1 by {
                if i == next {
                    assert(all[0] == i);
                } else if rest.contains(i) {
                    let k = choose|k: int| 0 <= k < rest.len() && rest[k] == i;
                    assert(all[k + 1] == i);
                } else if all.contains(i) {
                    let k = choose|k: int| 0 <= k < all.len() && all[k] == i;
                    assert(rest[k - 1] == i);
                }
            }
            assert forall|i: int, j: int| 0 <= i < j < all.len() implies #[trigger] all[i]
                < #[trigger] all[j] by {
                assert(all[j] == rest[j - 1]);
                assert(rest.contains(rest[j - 1]));
                if i > 0 {
                    assert(all[i] == rest[i - 1]);
                }
            }
        } else {
            assert(all =~= rest);
        }
    }
}

/// A token can be split just where it is worth more than one credit; the indices of such tokens
/// come in order.
pub proof fn law_tokens_can_be_split(tokens: Seq<HeldToken>)
    requires
        tokens.len() <= usize::MAX,
    ensures
        forall|i: usize| #[trigger]
            splittable_from(tokens, 0).contains(i) <==> i < tokens.len() && token_value(
                tokens[i as int].token,
            ) > 1,
        forall|i: int, j: int|
            0 <= i < j < splittable_from(tokens, 0).len() ==> #[trigger] splittable_from(
                tokens,
                0,
            )[i] < #[trigger] splittable_from(tokens, 0)[j],
{
    lemma_splittable_from(tokens, 0);
}

/// How many of the indices from `next` up to another are not gone.
pub open spec fn kept_before(gone: Seq<usize>, next: int, index: int) -> nat
    decreases index - next,
{
    if index <= next {
        0
    } else {
        kept_before(gone, next, index - 1) + if gone.contains((index - 1) as usize) {
            0nat
        } else {
            1
        }
    }
}

proof fn lemma_kept_before(gone: Seq<usize>, next: int, index: int)
    requires
        next < index,
    ensures
        kept_before(gone, next, index) == kept_before(gone, next + 1, index) + if gone.contains(
            next as usize,
        ) {
            0nat
        } else {
            1
        },
    decreases index - next,
{
    if index > next + 1 {
        lemma_kept_before(gone, next, index - 1);
    } else {
        reveal_with_fuel(kept_before, 2);
    }
}

/// Whether a token that is kept stands behind as many as are kept before it.
pub open spec fn keeps_its_place(
    tokens: Seq<HeldToken>,
    gone: Seq<usize>,
    next: int,
    k: int,
) -> bool {
    let place = kept_before(gone, next, k) as int;
    place < kept_from(tokens, gone, next).len() && kept_from(tokens, gone, next)[place] == tokens[k]
}

proof fn lemma_kept_in_order(tokens: Seq<HeldToken>, gone: Seq<usize>, next: int)
    requires
        0 <= next <= tokens.len() <= usize::MAX,
    ensures
        kept_from(tokens, gone, next).len() == kept_before(gone, next, tokens.len() as int),
        forall|k: int|
            next <= k < tokens.len() && !gone.contains(k as usize) ==> #[trigger] keeps_its_place(
                tokens,
                gone,
                next,
                k,
            ),
    decreases tokens.len() - next,
{
    if next < tokens.len() {
        lemma_kept_in_order(tokens, gone, next + 1);
        lemma_kept_before(gone, next, tokens.len() as int);
        let rest = kept_from(tokens, gone, next + 1);
        let all = kept_from(tokens, gone, next);
        assert forall|k: int|
            next <= k < tokens.len() && !gone.contains(k as usize) implies #[trigger]
            keeps_its_place(tokens, gone, next, k) by {
            if k > next {
                lemma_kept_before(gone, next, k);
                assert(keeps_its_place(tokens, gone, next + 1, k));
            }
        }
    }
}

/// The tokens that did not go into a combination keep their order: each stands behind as many as
/// were kept before it, and no token comes to them.
pub proof fn law_kept_tokens_keep_their_order(tokens: Seq<HeldToken>, gone: Seq<usize>)
    requires
        tokens.len() <= usize::MAX,
    ensures
        kept_from(tokens, gone, 0).len() == kept_before(gone, 0, tokens.len() as int),
        forall|k: int|
            0 <= k < tokens.len() && !gone.contains(k as usize) ==> #[trigger] keeps_its_place(
                tokens,
                gone,
                0,
                k,
            ),
{
    lemma_kept_in_order(tokens, gone, 0);
}

/// How a user goes about its work. It starts with a token of its own, and stops where that cannot
/// be had or the test is over, and only there. It rests after every operation, and longer after
/// one that failed; it never rests otherwise. It operates only with tokens that have value, and
/// tokens are all that a move changes, apart from what the user is in the middle of.
pub proof fn law_users_work_and_rest(
    user: UserView,
    signal: Signal,
    running: bool,
    percent: u8,
    due: bool,
)
    ensures
        ({
            let (after, choice) = next_move_of(user, signal, running, percent, due);
            let failed = signal == Signal::Finished(false);
            let kept = user.tokens.filter(|held: HeldToken| token_value(held.token) > 0);
            &&& user.phase == Phase::Starting ==> choice == Move::Issue
            &&& choice == Move::Stop <==> user.phase == Phase::Stopped || (user.phase
                == Phase::First && failed) || (!running && (user.phase == Phase::First
                || user.phase == Phase::Waiting || user.phase == Phase::ToppingUp || (user.phase
                == Phase::Refilling && !failed) || (user.phase == Phase::Resting && !(due
                && user.tokens.len() < user.max_tokens))))
            &&& choice == Move::Stop ==> after.phase == Phase::Stopped
            &&& choice is Sleep <==> user.phase == Phase::Acting || user.phase == Phase::Recovering
                || (user.phase == Phase::Refilling && failed)
            &&& choice matches Move::Sleep(ms) ==> ms == if failed && user.phase
                != Phase::Recovering {
                500u64
            } else {
                300u64
            }
            &&& user.phase == Phase::Resting && due && user.tokens.len() < user.max_tokens
                ==> choice == Move::Issue && after.phase == Phase::ToppingUp
            &&& (choice == Move::Spend || choice == Move::Combine || choice == Move::Split) ==> {
                &&& running
                &&& after.phase == Phase::Acting
                &&& after.tokens == kept
                &&& kept.len() > 0
                &&& choice == chosen(percent, kept.len(), user.spend_below, user.combine_below)
            }
            &&& after.phase == Phase::Refilling && user.phase != Phase::Refilling ==> choice
                == Move::Issue && kept.len() == 0
            &&& after.tokens == user.tokens || after.tokens == kept
            &&& after.bits == user.bits
            &&& after.max_tokens == user.max_tokens
            &&& after.spend_below == user.spend_below
            &&& after.combine_below == user.combine_below
        }),
{
    law_tokens_with_value_are_kept(user.tokens);
}

/// A piece of a split can be whatever leaves more credits than there are pieces to follow it; where
/// nothing leaves so much, it is not drawn.
pub proof fn law_pieces_leave_enough(remaining: nat, following: nat, amount: nat)
    ensures
        match piece_range_of(remaining, following) {
            Some((low, high)) => (low <= amount < high) <==> (amount >= 1 && remaining - amount
                > following),
            None => remaining <= following + 1,
        },
{
}

/// A counter comes to be due once in every period, and three tokens are combined on every third
/// occasion on which there are enough, else two.
pub proof fn law_counters_come_round(
    counter: u32,
    period: u32,
    ticked: (u32, bool),
    held: usize,
    count: (usize, u32),
)
    requires
        period > 0,
        counter < u32::MAX,
        call_ensures(tick, (counter, period), ticked),
        call_ensures(combine_count, (held, counter), count),
    ensures
        ticked.0 == counter + 1,
        ticked.1 <==> exists|n: int| counter + 1 == #[trigger] (n * period),
        held < 3 ==> count == (2usize, counter),
        held >= 3 ==> count.1 == counter + 1,
        held >= 3 ==> (count.0 == 3 <==> (counter + 1) % 3 == 0) && (count.0 == 2 || count.0 == 3),
{
    let next = counter + 1;
    let p = period as int;
    vstd::arithmetic::div_mod::lemma_fundamental_div_mod(next, p);
    if next % p == 0 {
        assert(next == (next / p) * p) by (nonlinear_arith)
            requires
                next == p * (next / p) + next % p,
                next % p == 0,
        ;
    }
    if exists|n: int| next == #[trigger] (n * period) {
        let n = choose|n: int| next == #[trigger] (n * period);
        vstd::arithmetic::div_mod::lemma_mod_multiples_basic(n, p);
    }
}

} // verus!
