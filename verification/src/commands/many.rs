//! The commands that turn several tokens into one, and one token into several.

use super::lines::{
    about, about_error, about_error_text, about_text, bad, bold, good, id_line, no_lines,
    number_line, plain, rule, said, say, say_id, say_number, say_rule, say_str, warning, Line,
    Tone,
};
use super::session::{
    acts, asks, cancelled, ends, fails, fits, turn_act, turn_end, turn_fail, Action, Event, Next,
    Session, Turn,
};
use crate::client::{
    split_mismatch, split_mismatch_text, sum_differs, token_value, CreditTokenExt, Operation,
    Outcome,
};
use crate::server::{total, total_amount};
use crate::text::{
    decimal, decimal_text, join2, join3, join4, signed_decimal, signed_decimal_text,
};
use vstd::prelude::*;

verus! {

/// The line for a token that is to be combined.
pub open spec fn combined_line(id: i64, value: nat) -> (Seq<char>, Tone) {
    plain("ID: "@ + signed_decimal(id as int) + ", Value: "@ + decimal(value))
}

/// What is said once the last of the combined tokens has been dealt with.
pub open spec fn leftovers(all: bool) -> Seq<(Seq<char>, Tone)> {
    if all {
        seq![]
    } else {
        seq![
            warning(
                "Warning: Some tokens could not be deleted. You may see invalid tokens in your list."@,
            ),
        ]
    }
}

/// What is said where the tokens are worth more together than a single token can be.
pub open spec fn too_much() -> (Seq<char>, Tone) {
    bad("Error: The total value to combine is more than one token can hold"@)
}

/// How a command to combine tokens goes on. The new token is stored before any of the old ones
/// is deleted. Tokens that are worth too much together end the command.
pub open spec fn combine_goes_on(session: Session, event: Event, turn: Turn) -> bool {
    match (session, event) {
        (Session::CombineLoading { ids, tokens, .. }, Event::Loaded(Err(error))) => ends(
            turn,
            seq![
                bad(
                    about_error(
                        "Error: Could not find token with ID "@,
                        ids@[tokens.len() as int],
                        error,
                    ),
                ),
            ],
        ),
        (Session::CombineLoading { ids, tokens, sum }, Event::Loaded(Ok(stored))) => {
            let at = tokens.len() as int;
            let value = token_value(stored.token);
            let line = combined_line(ids@[at], value as nat);
            if sum + value > u128::MAX {
                ends(turn, seq![line, too_much()])
            } else if at + 1 < ids.len() {
                &&& said(turn.lines@) =~= seq![line]
                &&& turn.next matches Next::Act(
                    Action::Load(next),
                    Session::CombineLoading { ids: all, tokens: loaded, sum: more },
                )
                &&& next == ids@[at + 1]
                &&& all == ids
                &&& loaded@ == tokens@.push(stored.token)
                &&& more == sum + value
            } else {
                &&& said(turn.lines@) =~= seq![
                    line,
                    rule(),
                    number_line("Total value to combine: "@, (sum + value) as nat),
                ]
                &&& turn.next matches Next::Act(
                    Action::Confirm(prompt, true),
                    Session::CombineConfirming { ids: all, tokens: loaded },
                )
                &&& prompt@ == "Combine these "@ + decimal((at + 1) as nat)
                    + " tokens into a new one?"@
                &&& all == ids
                &&& loaded@ == tokens@.push(stored.token)
            }
        },
        (Session::CombineConfirming { .. }, Event::Confirmed(Err(error))) => fails(turn, error),
        (Session::CombineConfirming { .. }, Event::Confirmed(Ok(false))) => ends(turn, cancelled()),
        (Session::CombineConfirming { ids, tokens }, Event::Confirmed(Ok(true))) => acts(
            turn,
            seq![],
            Action::Perform(Operation::Combine { tokens }),
            Session::Combining { ids },
        ),
        (Session::Combining { .. }, Event::Performed(Err(error))) => fails(turn, error),
        (Session::Combining { ids }, Event::Performed(Ok(Outcome::Token(token)))) => acts(
            turn,
            seq![],
            Action::Store(token),
            Session::CombineStoring { ids, value: token_value(token) },
        ),
        (Session::CombineStoring { .. }, Event::Stored(Err(error))) => fails(turn, error),
        (Session::CombineStoring { ids, value }, Event::Stored(Ok(id))) => acts(
            turn,
            seq![
                good("Successfully combined tokens!"@),
                id_line("New token ID: "@, id),
                number_line("Combined value: "@, value as nat),
                plain("Deleting the combined tokens from the database..."@),
            ],
            Action::Delete(ids@[0]),
            Session::CombineDeleting { ids, next: 0, all: true },
        ),
        (Session::CombineDeleting { ids, next, all }, Event::Deleted(deleted)) => {
            let id = ids@[next as int];
            let line = match deleted {
                Ok(_) => plain(about("Token with ID "@, id, " deleted"@)),
                Err(error) => warning(
                    about_error("Warning: Failed to delete token with ID "@, id, error),
                ),
            };
            let still = all && deleted is Ok;
            if next + 1 < ids.len() {
                acts(
                    turn,
                    seq![line],
                    Action::Delete(ids@[next + 1]),
                    Session::CombineDeleting { ids, next: (next + 1) as usize, all: still },
                )
            } else {
                ends(turn, seq![line] + leftovers(still))
            }
        },
        _ => false,
    }
}

pub(crate) fn advance_combine(session: Session, event: Event) -> (turn: Turn)
    requires
        session.sound(),
        fits(session, event),
        session is CombineLoading || session is CombineConfirming || session is Combining
            || session is CombineStoring || session is CombineDeleting,
    ensures
        combine_goes_on(session, event, turn),
{
    let mut lines = no_lines();
    match (session, event) {
        (Session::CombineLoading { ids, tokens, .. }, Event::Loaded(Err(error))) => {
            say(
                &mut lines,
                about_error_text("Error: Could not find token with ID ", ids[tokens.len()], &error),
                Tone::Bad,
            );
            turn_end(lines)
        },
        (Session::CombineLoading { ids, tokens, sum }, Event::Loaded(Ok(stored))) => {
            let at: usize = tokens.len();
            let value: u128 = stored.token.get_value();
            let mut tokens = tokens;
            tokens.push(stored.token);
            say(
                &mut lines,
                join4(
                    "ID: ",
                    signed_decimal_text(ids[at]).as_str(),
                    ", Value: ",
                    decimal_text(value).as_str(),
                ),
                Tone::Plain,
            );
            let sum: u128 = match sum.checked_add(value) {
                Some(sum) => sum,
                None => {
                    say_str(
                        &mut lines,
                        "Error: The total value to combine is more than one token can hold",
                        Tone::Bad,
                    );
                    return turn_end(lines);
                },
            };
            if at + 1 < ids.len() {
                let next: i64 = ids[at + 1];
                return turn_act(
                    lines,
                    Action::Load(next),
                    Session::CombineLoading { ids, tokens, sum },
                );
            }
            say_rule(&mut lines);
            say_number(&mut lines, "Total value to combine: ", sum);
            let prompt = join3(
                "Combine these ",
                decimal_text((at + 1) as u128).as_str(),
                " tokens into a new one?",
            );
            turn_act(
                lines,
                Action::Confirm(prompt, true),
                Session::CombineConfirming { ids, tokens },
            )
        },
        (Session::CombineConfirming { ids, tokens }, Event::Confirmed(Ok(yes))) => {
            if !yes {
                say_str(&mut lines, "Operation cancelled.", Tone::Plain);
                return turn_end(lines);
            }
            turn_act(
                lines,
                Action::Perform(Operation::Combine { tokens }),
                Session::Combining { ids },
            )
        },
        (Session::Combining { ids }, Event::Performed(Ok(Outcome::Token(token)))) => {
            let value: u128 = token.get_value();
            turn_act(lines, Action::Store(token), Session::CombineStoring { ids, value })
        },
        (Session::CombineStoring { ids, value }, Event::Stored(Ok(id))) => {
            say_str(&mut lines, "Successfully combined tokens!", Tone::Good);
            say_id(&mut lines, "New token ID: ", id);
            say_number(&mut lines, "Combined value: ", value);
            say_str(&mut lines, "Deleting the combined tokens from the database...", Tone::Plain);
            let first: i64 = ids[0];
            turn_act(
                lines,
                Action::Delete(first),
                Session::CombineDeleting { ids, next: 0, all: true },
            )
        },
        (Session::CombineDeleting { ids, next, all }, Event::Deleted(deleted)) => {
            let id: i64 = ids[next];
            let mut still = all;
            match deleted {
                Ok(_) => say(&mut lines, about_text("Token with ID ", id, " deleted"), Tone::Plain),
                Err(error) => {
                    still = false;
                    say(
                        &mut lines,
                        about_error_text("Warning: Failed to delete token with ID ", id, &error),
                        Tone::Warning,
                    );
                },
            }
            if next + 1 < ids.len() {
                let following: i64 = ids[next + 1];
                return turn_act(
                    lines,
                    Action::Delete(following),
                    Session::CombineDeleting { ids, next: next + 1, all: still },
                );
            }
            if !still {
                say_str(
                    &mut lines,
                    "Warning: Some tokens could not be deleted. You may see invalid tokens in your list.",
                    Tone::Warning,
                );
            }
            turn_end(lines)
        },
        (_, Event::Confirmed(Err(error))) => turn_fail(error),
        (_, Event::Performed(Err(error))) => turn_fail(error),
        (_, Event::Stored(Err(error))) => turn_fail(error),
        _ => turn_end(lines),
    }
}

/// The lines for the amounts of a split.
pub open spec fn amount_lines(amounts: Seq<u128>) -> Seq<(Seq<char>, Tone)> {
    Seq::new(
        amounts.len(),
        |i: int|
            plain(
                "Token "@ + decimal((i + 1) as nat) + ": "@ + decimal(amounts[i] as nat),
            ),
    )
}

/// What is said before the token that was split is deleted.
pub open spec fn split_farewell() -> Seq<(Seq<char>, Tone)> {
    seq![rule(), plain("Deleting the original token from the database..."@)]
}

/// How a command to split a token goes on. All new tokens are stored before the old one is
/// deleted.
pub open spec fn split_goes_on(session: Session, event: Event, turn: Turn) -> bool {
    match (session, event) {
        (Session::SplitLoading { .. }, Event::Loaded(Err(error))) => fails(turn, error),
        (Session::SplitLoading { id, amounts }, Event::Loaded(Ok(stored))) => {
            let value = token_value(stored.token);
            if total(amounts@) != value {
                ends(
                    turn,
                    seq![bad("Error: "@ + split_mismatch(total(amounts@), value as nat))],
                )
            } else {
                asks(
                    turn,
                    seq![
                        bold(
                            "Splitting token (ID: "@ + signed_decimal(id as int)
                                + ") with value "@ + decimal(value as nat),
                        ),
                        rule(),
                        plain("Requested amounts:"@),
                    ] + amount_lines(amounts@) + seq![
                        rule(),
                        number_line("Total: "@, value as nat),
                    ],
                    "Split this token into "@ + decimal(amounts.len() as nat) + " new tokens?"@,
                    true,
                    Session::SplitConfirming { id, token: stored.token, amounts },
                )
            }
        },
        (Session::SplitConfirming { .. }, Event::Confirmed(Err(error))) => fails(turn, error),
        (Session::SplitConfirming { .. }, Event::Confirmed(Ok(false))) => ends(turn, cancelled()),
        (Session::SplitConfirming { id, token, amounts }, Event::Confirmed(Ok(true))) => acts(
            turn,
            seq![],
            Action::Perform(Operation::Split { token, amounts }),
            Session::Splitting { id },
        ),
        (Session::Splitting { .. }, Event::Performed(Err(error))) => fails(turn, error),
        (Session::Splitting { id }, Event::Performed(Ok(Outcome::Tokens(tokens)))) => {
            let head = seq![
                good("Successfully split token!"@),
                plain("New tokens:"@),
                rule(),
            ];
            if tokens.len() == 0 {
                acts(
                    turn,
                    head + split_farewell(),
                    Action::Delete(id),
                    Session::SplitDeleting { id },
                )
            } else {
                acts(
                    turn,
                    head,
                    Action::Store(tokens@[0]),
                    Session::SplitStoring { id, tokens, next: 0 },
                )
            }
        },
        (Session::SplitStoring { .. }, Event::Stored(Err(error))) => fails(turn, error),
        (Session::SplitStoring { id, tokens, next }, Event::Stored(Ok(new_id))) => {
            let line = plain(
                "Token "@ + decimal((next + 1) as nat) + ": ID: "@ + signed_decimal(new_id as int)
                    + ", Value: "@ + decimal(token_value(tokens@[next as int]) as nat),
            );
            if next + 1 < tokens.len() {
                acts(
                    turn,
                    seq![line],
                    Action::Store(tokens@[next + 1]),
                    Session::SplitStoring { id, tokens, next: (next + 1) as usize },
                )
            } else {
                acts(
                    turn,
                    seq![line] + split_farewell(),
                    Action::Delete(id),
                    Session::SplitDeleting { id },
                )
            }
        },
        (Session::SplitDeleting { id }, Event::Deleted(Ok(_))) => ends(
            turn,
            seq![plain(about("Original token with ID "@, id, " deleted"@))],
        ),
        (Session::SplitDeleting { id }, Event::Deleted(Err(error))) => ends(
            turn,
            seq![
                warning(
                    about_error(
                        "Warning: Failed to delete original token with ID "@,
                        id,
                        error,
                    ),
                ),
            ],
        ),
        _ => false,
    }
}

fn say_amounts(lines: &mut Vec<Line>, amounts: &Vec<u128>)
    ensures
        said(final(lines)@) =~= said(old(lines)@) + amount_lines(amounts@),
{
    let mut i: usize = 0;
    while i < amounts.len()
        invariant
            i <= amounts.len(),
            said(lines@) =~= said(old(lines)@) + amount_lines(amounts@).take(i as int),
        decreases amounts.len() - i,
    {
        say(
            lines,
            join4(
                "Token ",
                decimal_text(i as u128 + 1).as_str(),
                ": ",
                decimal_text(amounts[i]).as_str(),
            ),
            Tone::Plain,
        );
        i = i + 1;
    }
    assert(amount_lines(amounts@).take(i as int) =~= amount_lines(amounts@));
}

pub(crate) fn advance_split(session: Session, event: Event) -> (turn: Turn)
    requires
        session.sound(),
        fits(session, event),
        session is SplitLoading || session is SplitConfirming || session is Splitting
            || session is SplitStoring || session is SplitDeleting,
    ensures
        split_goes_on(session, event, turn),
{
    let mut lines = no_lines();
    match (session, event) {
        (Session::SplitLoading { id, amounts }, Event::Loaded(Ok(stored))) => {
            let sum = total_amount(&amounts);
            let value: u128 = stored.token.get_value();
            if sum_differs(sum, value) {
                say(
                    &mut lines,
                    join2("Error: ", split_mismatch_text(sum, value).as_str()),
                    Tone::Bad,
                );
                return turn_end(lines);
            }
            say(
                &mut lines,
                join4(
                    "Splitting token (ID: ",
                    signed_decimal_text(id).as_str(),
                    ") with value ",
                    decimal_text(value).as_str(),
                ),
                Tone::Bold,
            );
            say_rule(&mut lines);
            say_str(&mut lines, "Requested amounts:", Tone::Plain);
            say_amounts(&mut lines, &amounts);
            say_rule(&mut lines);
            say_number(&mut lines, "Total: ", value);
            let prompt = join3(
                "Split this token into ",
                decimal_text(amounts.len() as u128).as_str(),
                " new tokens?",
            );
            turn_act(
                lines,
                Action::Confirm(prompt, true),
                Session::SplitConfirming { id, token: stored.token, amounts },
            )
        },
        (Session::SplitConfirming { id, token, amounts }, Event::Confirmed(Ok(yes))) => {
            if !yes {
                say_str(&mut lines, "Operation cancelled.", Tone::Plain);
                return turn_end(lines);
            }
            turn_act(
                lines,
                Action::Perform(Operation::Split { token, amounts }),
                Session::Splitting { id },
            )
        },
        (Session::Splitting { id }, Event::Performed(Ok(Outcome::Tokens(tokens)))) => {
            say_str(&mut lines, "Successfully split token!", Tone::Good);
            say_str(&mut lines, "New tokens:", Tone::Plain);
            say_rule(&mut lines);
            if tokens.len() == 0 {
                say_rule(&mut lines);
                say_str(
                    &mut lines,
                    "Deleting the original token from the database...",
                    Tone::Plain,
                );
                return turn_act(lines, Action::Delete(id), Session::SplitDeleting { id });
            }
            let first = tokens[0].clone();
            turn_act(lines, Action::Store(first), Session::SplitStoring { id, tokens, next: 0 })
        },
        (Session::SplitStoring { id, tokens, next }, Event::Stored(Ok(new_id))) => {
            let start = join4(
                "Token ",
                decimal_text(next as u128 + 1).as_str(),
                ": ID: ",
                signed_decimal_text(new_id).as_str(),
            );
            say(
                &mut lines,
                join3(
                    start.as_str(),
                    ", Value: ",
                    decimal_text(tokens[next].get_value()).as_str(),
                ),
                Tone::Plain,
            );
            if next + 1 < tokens.len() {
                let following = tokens[next + 1].clone();
                return turn_act(
                    lines,
                    Action::Store(following),
                    Session::SplitStoring { id, tokens, next: next + 1 },
                );
            }
            say_rule(&mut lines);
            say_str(
                &mut lines,
                "Deleting the original token from the database...",
                Tone::Plain,
            );
            turn_act(lines, Action::Delete(id), Session::SplitDeleting { id })
        },
        (Session::SplitDeleting { id }, Event::Deleted(Ok(_))) => {
            say(&mut lines, about_text("Original token with ID ", id, " deleted"), Tone::Plain);
            turn_end(lines)
        },
        (Session::SplitDeleting { id }, Event::Deleted(Err(error))) => {
            say(
                &mut lines,
                about_error_text("Warning: Failed to delete original token with ID ", id, &error),
                Tone::Warning,
            );
            turn_end(lines)
        },
        (_, Event::Loaded(Err(error))) => turn_fail(error),
        (_, Event::Confirmed(Err(error))) => turn_fail(error),
        (_, Event::Performed(Err(error))) => turn_fail(error),
        (_, Event::Stored(Err(error))) => turn_fail(error),
        _ => turn_end(lines),
    }
}

} // verus!
