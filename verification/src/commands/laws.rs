//! What holds of whole runs of commands, from what the user asks for to the last action.
//!
//! A run is a sequence of turns, each but the first with the event that led to it. The laws say
//! what a run does to the user's tokens, and what the user is told of it, whatever happens on the
//! way.

use super::lines::{said, Tone};
use super::session::{fails, fits, Action, Command, Event, Next, Session, StoredToken, Turn};
use super::single::{listed, text_lines};
use super::{advance, begin, begins, goes_on, law_sessions_stay_sound};
use crate::client::{token_value, Operation, Outcome};
use crate::codec::{
    all_digits, copies, encodes_to, hex_bytes, hex_text, imports, law_hex_text_reads_back,
    token_decoding, token_encoding,
};
use crate::laws::values;
use crate::protocol::ClientError;
use crate::scheme::token_nullifier;
use crate::server::laws::sum;
use crate::server::total;
use crate::text::{decimal, signed_decimal, trimmed};
use anonymous_credit_tokens::CreditToken;
use vstd::prelude::*;
use vstd::utf8::encode_utf8;

verus! {

/// Whether a turn can come of `advance`, after a turn that was not the last.
pub open spec fn advanced(turn: Turn, event: Event, following: Turn) -> bool {
    turn.next matches Next::Act(_, session) && goes_on(session, event, following)
}

/// Whether these are the turns of a command, as far as it has come, each but the first with the
/// event that led to it.
pub open spec fn run(command: Command, turns: Seq<Turn>, events: Seq<Event>) -> bool {
    &&& turns.len() == events.len() + 1
    &&& begins(command, turns[0])
    &&& forall|i: int|
        0 <= i < events.len() ==> advanced(#[trigger] turns[i], events[i], turns[i + 1])
}

/// `begin` starts a run, and `advance` carries it on: with the session of its last turn and how
/// the action of that turn went, one more turn comes to it.
pub proof fn law_begin_and_advance_make_runs(
    command: Command,
    first: Turn,
    turns: Seq<Turn>,
    events: Seq<Event>,
    action: Action,
    session: Session,
    event: Event,
    turn: Turn,
)
    requires
        call_ensures(begin, (command,), first),
        run(command, turns, events),
        turns.last().next == Next::Act(action, session),
        call_ensures(advance, (session, event), turn),
    ensures
        run(command, seq![first], seq![]),
        run(command, turns.push(turn), events.push(event)),
{
    let longer = turns.push(turn);
    let more = events.push(event);
    assert forall|i: int| 0 <= i < more.len() implies advanced(
        #[trigger] longer[i],
        more[i],
        longer[i + 1],
    ) by {
        if i < events.len() {
            assert(longer[i] == turns[i]);
            assert(advanced(turns[i], events[i], turns[i + 1]));
        }
    }
}

/// Whether a turn wants this done.
pub open spec fn wants(turn: Turn, action: Action) -> bool {
    turn.next matches Next::Act(wanted, _) && wanted == action
}

/// Whether a turn puts a question to the user, with the answer that counts by default.
pub open spec fn wonders(turn: Turn, question: Seq<char>, default: bool) -> bool {
    &&& turn.next matches Next::Act(Action::Confirm(asked, answer), _)
    &&& asked@ =~= question
    &&& answer == default
}

/// Whether a turn is the last, with this outcome.
pub open spec fn stops(turn: Turn, outcome: Result<(), ClientError>) -> bool {
    turn.next == Next::End(outcome)
}

/// The text of a line of a turn.
pub open spec fn line(turn: Turn, i: int) -> Seq<char> {
    said(turn.lines@)[i].0
}

/// The number of lines of a turn.
pub open spec fn lines(turn: Turn) -> int {
    turn.lines@.len() as int
}

/// To issue a token, just the number of bits that the user gave is worked for. The token that
/// comes of it is stored, and the user is told its identifier and its value. What goes wrong is
/// reported, and nothing is stored.
pub proof fn law_issue_command(bits: u32, turns: Seq<Turn>, events: Seq<Event>)
    requires
        run(Command::Issue { bits }, turns, events),
    ensures
        turns.len() <= 3,
        wants(turns[0], Action::Perform(Operation::Issue { bits })),
        line(turns[0], 0) =~= "Issuing a new credit token with "@ + decimal(bits as nat)
            + " proof of work bits..."@,
        events.len() > 0 ==> match events[0] {
            Event::Performed(Ok(Outcome::Token(token))) => {
                &&& wants(turns[1], Action::Store(token))
                &&& events.len() > 1 ==> match events[1] {
                    Event::Stored(Ok(id)) => {
                        &&& stops(turns[2], Ok(()))
                        &&& line(turns[2], 1) =~= "Token ID: "@ + signed_decimal(id as int)
                        &&& line(turns[2], 2) =~= "Token Value: "@ + decimal(
                            token_value(token) as nat,
                        )
                    },
                    Event::Stored(Err(error)) => stops(turns[2], Err(error)),
                    _ => false,
                }
            },
            Event::Performed(Err(error)) => turns.len() == 2 && stops(turns[1], Err(error)),
            _ => false,
        },
{
}

/// To spend, just the amount that the user gave is spent, from just the token with the identifier
/// that the user gave, once the user has agreed; what is left takes the place of that token, and
/// the user is told its value. A token that is not worth the amount is not touched.
pub proof fn law_spend_command(id: i64, amount: u128, turns: Seq<Turn>, events: Seq<Event>)
    requires
        run(Command::Spend { id, amount }, turns, events),
    ensures
        turns.len() <= 5,
        wants(turns[0], Action::Load(id)),
        events.len() > 0 ==> match events[0] {
            Event::Loaded(Err(error)) => turns.len() == 2 && stops(turns[1], Err(error)),
            Event::Loaded(Ok(stored)) => if amount > token_value(stored.token) {
                &&& turns.len() == 2
                &&& stops(turns[1], Ok(()))
                &&& line(turns[1], 0) =~= "Error: Cannot spend "@ + decimal(amount as nat)
                    + ". Token only has "@ + decimal(token_value(stored.token) as nat)
                    + " credits."@
            } else {
                &&& wonders(
                    turns[1],
                    "Spend "@ + decimal(amount as nat) + " credits from token "@ + signed_decimal(
                        id as int,
                    ) + "?"@,
                    true,
                )
                &&& events.len() > 1 ==> match events[1] {
                    Event::Confirmed(Ok(true)) => wants(
                        turns[2],
                        Action::Perform(Operation::Spend { token: stored.token, amount }),
                    ),
                    Event::Confirmed(Ok(false)) => turns.len() == 3 && stops(turns[2], Ok(())),
                    Event::Confirmed(Err(error)) => turns.len() == 3 && stops(
                        turns[2],
                        Err(error),
                    ),
                    _ => false,
                }
                &&& events.len() > 2 ==> match events[2] {
                    Event::Performed(Ok(Outcome::Token(rest))) => {
                        &&& wants(turns[3], Action::Update(id, rest))
                        &&& events.len() > 3 ==> match events[3] {
                            Event::Updated(Ok(_)) => {
                                &&& stops(turns[4], Ok(()))
                                &&& line(turns[4], 1) =~= "Remaining balance: "@ + decimal(
                                    token_value(rest) as nat,
                                )
                            },
                            Event::Updated(Err(error)) => stops(turns[4], Err(error)),
                            _ => false,
                        }
                    },
                    Event::Performed(Err(error)) => turns.len() == 4 && stops(
                        turns[3],
                        Err(error),
                    ),
                    _ => false,
                }
            },
            _ => false,
        },
{
}

/// To forget a token, just that token is deleted, and only once the user has agreed, where the
/// answer that counts by default is no. The user is told what would be lost.
pub proof fn law_forget_command(id: i64, turns: Seq<Turn>, events: Seq<Event>)
    requires
        run(Command::Forget { id }, turns, events),
    ensures
        turns.len() <= 4,
        wants(turns[0], Action::Load(id)),
        events.len() > 0 ==> match events[0] {
            Event::Loaded(Err(error)) => {
                &&& turns.len() == 2
                &&& stops(turns[1], Ok(()))
                &&& lines(turns[1]) == 1
                &&& line(turns[1], 0) =~= "Error: Could not find token with ID "@
                    + signed_decimal(id as int) + ": "@ + error.text()
            },
            Event::Loaded(Ok(stored)) => {
                &&& wonders(
                    turns[1],
                    "Are you sure you want to forget token "@ + signed_decimal(id as int) + "?"@,
                    false,
                )
                &&& token_value(stored.token) > 0 ==> line(turns[1], lines(turns[1]) - 1)
                    =~= "Warning: This token has "@ + decimal(token_value(stored.token) as nat)
                    + " credits that will be permanently lost."@
                &&& line(turns[1], 2) =~= "Value: "@ + decimal(token_value(stored.token) as nat)
                &&& events.len() > 1 ==> match events[1] {
                    Event::Confirmed(Ok(true)) => wants(turns[2], Action::Delete(id)),
                    Event::Confirmed(Ok(false)) => turns.len() == 3 && stops(turns[2], Ok(())),
                    Event::Confirmed(Err(error)) => turns.len() == 3 && stops(
                        turns[2],
                        Err(error),
                    ),
                    _ => false,
                }
                &&& events.len() > 2 ==> match events[2] {
                    Event::Deleted(deleted) => {
                        &&& stops(turns[3], Ok(()))
                        &&& line(turns[3], 0) =~= match deleted {
                            Ok(_) => "Token with ID "@ + signed_decimal(id as int)
                                + " has been forgotten."@,
                            Err(error) => "Error: Failed to forget token with ID "@
                                + signed_decimal(id as int) + ": "@ + error.text(),
                        }
                    },
                    _ => false,
                }
            },
            _ => false,
        },
{
}

/// To check a token, the server is asked for the nullifier of just that token, and the user is
/// told what it has answered.
pub proof fn law_check_command(id: i64, turns: Seq<Turn>, events: Seq<Event>)
    requires
        run(Command::CheckNullifier { id }, turns, events),
    ensures
        turns.len() <= 3,
        wants(turns[0], Action::Load(id)),
        events.len() > 0 ==> match events[0] {
            Event::Loaded(Err(error)) => {
                &&& turns.len() == 2
                &&& stops(turns[1], Ok(()))
                &&& lines(turns[1]) == 1
                &&& line(turns[1], 0) =~= "Error: Could not find token with ID "@
                    + signed_decimal(id as int) + ": "@ + error.text()
            },
            Event::Loaded(Ok(stored)) => {
                &&& turns[1].next matches Next::Act(Action::CheckNullifier(nullifier), _)
                &&& nullifier@ == token_nullifier(stored.token)
                &&& line(turns[1], 2) =~= "Value: "@ + decimal(token_value(stored.token) as nat)
                &&& events.len() > 1 ==> match events[1] {
                    Event::Performed(Ok(Outcome::NullifierSpent(spent))) => {
                        &&& stops(turns[2], Ok(()))
                        &&& line(turns[2], 0) =~= if spent {
                            "Token's nullifier has been spent."@
                        } else {
                            "Token's nullifier has not been spent."@
                        }
                    },
                    Event::Performed(Err(error)) => {
                        &&& stops(turns[2], Ok(()))
                        &&& lines(turns[2]) == 1
                        &&& line(turns[2], 0) =~= "Error checking nullifier status: "@
                            + error.text()
                    },
                    _ => false,
                }
            },
            _ => false,
        },
{
}

/// The user is told both counts, and their sum.
pub proof fn law_stats_command(detailed: bool, turns: Seq<Turn>, events: Seq<Event>)
    requires
        run(Command::Stats { detailed }, turns, events),
    ensures
        turns.len() <= 2,
        wants(turns[0], Action::Count),
        events.len() > 0 ==> {
            &&& stops(turns[1], Ok(()))
            &&& match events[0] {
                Event::Counted(Ok((nullifiers, pow_hashes))) => {
                    &&& line(turns[1], 2) =~= "Nullifiers: "@ + decimal(nullifiers as nat)
                    &&& line(turns[1], 3) =~= "Proof-of-Work Hashes: "@ + decimal(
                        pow_hashes as nat,
                    )
                    &&& line(turns[1], lines(turns[1]) - 1) =~= "Total Entries: "@ + decimal(
                        (nullifiers + pow_hashes) as nat,
                    )
                    &&& lines(turns[1]) == if detailed { 6int } else { 5 }
                },
                Event::Counted(Err(error)) => {
                    &&& lines(turns[1]) == 1
                    &&& line(turns[1], 0) =~= "Error retrieving database statistics: "@
                        + error.text()
                },
                _ => false,
            }
        },
{
}

/// The tokens that a list is to show: those with value, and the others only on request.
pub open spec fn to_show(tokens: Seq<StoredToken>, show_zero: bool) -> Seq<StoredToken> {
    tokens.filter(|stored: StoredToken| show_zero || token_value(stored.token) > 0)
}

/// Whether four lines, from one on, are about this token: its identifier, its value, and when it
/// was stored.
pub open spec fn entry(texts: Seq<(Seq<char>, Tone)>, from: int, stored: StoredToken) -> bool {
    &&& texts[from].0 =~= "ID: "@ + signed_decimal(stored.id as int)
    &&& texts[from + 1].0 =~= "Value: "@ + decimal(token_value(stored.token) as nat)
    &&& texts[from + 2].0 =~= "Created: "@ + match stored.created {
        Some(time) => time@,
        None => "Unknown"@,
    }
}

proof fn lemma_listed(tokens: Seq<StoredToken>, show_zero: bool)
    ensures
        listed(tokens, show_zero).len() == 4 * to_show(tokens, show_zero).len(),
        forall|i: int|
            0 <= i < to_show(tokens, show_zero).len() ==> entry(
                listed(tokens, show_zero),
                4 * i,
                #[trigger] to_show(tokens, show_zero)[i],
            ),
    decreases tokens.len(),
{
    reveal(Seq::filter);
    if tokens.len() > 0 {
        let rest = tokens.drop_last();
        lemma_listed(rest, show_zero);
        let before = listed(rest, show_zero);
        let all = listed(tokens, show_zero);
        let shown = to_show(tokens, show_zero);
        assert forall|i: int| 0 <= i < shown.len() implies entry(
            all,
            4 * i,
            #[trigger] shown[i],
        ) by {
            if i < to_show(rest, show_zero).len() {
                assert(shown[i] == to_show(rest, show_zero)[i]);
                assert(entry(before, 4 * i, to_show(rest, show_zero)[i]));
                assert(all[4 * i] == before[4 * i]);
                assert(all[4 * i + 1] == before[4 * i + 1]);
                assert(all[4 * i + 2] == before[4 * i + 2]);
            }
        }
    }
}

/// A list has one entry for each token of the database that has value, or for each token where
/// empty ones are to be shown, in the order of the database; whether a token is listed does not
/// depend on the others. Where no token is to be shown, the user is told so.
pub proof fn law_list_command(show_zero: bool, turns: Seq<Turn>, events: Seq<Event>)
    requires
        run(Command::List { show_zero }, turns, events),
    ensures
        turns.len() <= 2,
        wants(turns[0], Action::LoadAll),
        events.len() > 0 ==> match events[0] {
            Event::AllLoaded(Ok(tokens)) => {
                let shown = to_show(tokens@, show_zero);
                &&& stops(turns[1], Ok(()))
                &&& shown.len() == 0 ==> lines(turns[1]) == 1 && line(turns[1], 0)
                    =~= if tokens.len() == 0 {
                    "No credit tokens found."@
                } else {
                    "No tokens found matching your criteria."@
                }
                &&& shown.len() > 0 ==> lines(turns[1]) == 2 + 4 * shown.len()
                &&& forall|i: int|
                    0 <= i < shown.len() ==> entry(
                        said(turns[1].lines@),
                        2 + 4 * i,
                        #[trigger] shown[i],
                    )
            },
            Event::AllLoaded(Err(error)) => stops(turns[1], Err(error)),
            _ => false,
        },
{
    if events.len() > 0 {
        if let Event::AllLoaded(Ok(tokens)) = events[0] {
            lemma_listed(tokens@, show_zero);
            let texts = said(turns[1].lines@);
            let body = listed(tokens@, show_zero);
            let shown = to_show(tokens@, show_zero);
            if tokens.len() == 0 {
                reveal(Seq::filter);
            }
            assert(texts.len() == turns[1].lines@.len());
            assert forall|i: int| 0 <= i < shown.len() implies entry(
                texts,
                2 + 4 * i,
                #[trigger] shown[i],
            ) by {
                assert(entry(body, 4 * i, shown[i]));
                assert(texts[2 + 4 * i] == body[4 * i]);
                assert(texts[2 + 4 * i + 1] == body[4 * i + 1]);
                assert(texts[2 + 4 * i + 2] == body[4 * i + 2]);
            }
        }
    }
}

/// Some texts, one behind the other.
pub open spec fn joined(texts: Seq<Seq<char>>) -> Seq<char>
    decreases texts.len(),
{
    if texts.len() == 0 {
        seq![]
    } else {
        joined(texts.drop_last()) + texts.last()
    }
}

/// The texts of the lines of a turn, from one on.
pub open spec fn texts_from(turn: Turn, from: int) -> Seq<Seq<char>> {
    Seq::new((lines(turn) - from) as nat, |i: int| line(turn, from + i))
}

proof fn lemma_text_lines_join(text: Seq<char>, count: int)
    requires
        0 <= count <= text_lines(text).len(),
    ensures
        joined(Seq::new(count as nat, |i: int| text_lines(text)[i].0)) =~= text.take(
            if 64 * count < text.len() {
                64 * count
            } else {
                text.len() as int
            },
        ),
    decreases count,
{
    let texts = Seq::new(count as nat, |i: int| text_lines(text)[i].0);
    if count > 0 {
        lemma_text_lines_join(text, count - 1);
        assert(texts.drop_last() =~= Seq::new(
            (count - 1) as nat,
            |i: int| text_lines(text)[i].0,
        ));
    }
}

/// To show a token, the user is told its value and sees its bytes in hexadecimal digits, all of
/// them and in order, in lines that are not longer than 64 digits.
pub proof fn law_show_command(id: i64, turns: Seq<Turn>, events: Seq<Event>)
    requires
        run(Command::Show { id }, turns, events),
    ensures
        turns.len() <= 2,
        wants(turns[0], Action::Load(id)),
        events.len() > 0 ==> match events[0] {
            Event::Loaded(Ok(stored)) => {
                &&& line(turns[1], 2) =~= "Value: "@ + decimal(token_value(stored.token) as nat)
                &&& match token_encoding(stored.token) {
                    Ok(bytes) => {
                        let from: int = if stored.created is Some { 5 } else { 4 };
                        &&& stops(turns[1], Ok(()))
                        &&& lines(turns[1]) >= from
                        &&& joined(texts_from(turns[1], from)) =~= hex_text(bytes)
                        &&& forall|i: int|
                            from <= i < lines(turns[1]) ==> #[trigger] line(turns[1], i).len()
                                <= 64
                    },
                    Err(_) => turns[1].next matches Next::End(Err(ClientError::Serialization(_))),
                }
            },
            Event::Loaded(Err(error)) => stops(turns[1], Err(error)),
            _ => false,
        },
{
    if events.len() > 0 {
        if let Event::Loaded(Ok(stored)) = events[0] {
            if let Ok(bytes) = token_encoding(stored.token) {
                let text = hex_text(bytes);
                let from: int = if stored.created is Some { 5 } else { 4 };
                let shown = text_lines(text);
                assert(lines(turns[1]) == from + shown.len());
                lemma_text_lines_join(text, shown.len() as int);
                assert(texts_from(turns[1], from) =~= Seq::new(
                    shown.len(),
                    |i: int| text_lines(text)[i].0,
                ));
                assert forall|i: int| from <= i < lines(turns[1]) implies #[trigger] line(
                    turns[1],
                    i,
                ).len() <= 64 by {
                    assert(line(turns[1], i) == shown[i - from].0);
                }
            }
        }
    }
}

/// To export a token, the bytes of just that token are written in hexadecimal digits. It is
/// deleted only where the user wants it forgotten, and only once the text has been written.
pub proof fn law_export_command(
    id: i64,
    path: String,
    forget: bool,
    turns: Seq<Turn>,
    events: Seq<Event>,
)
    requires
        run(Command::Export { id, path, forget }, turns, events),
    ensures
        turns.len() <= 4,
        wants(turns[0], Action::Load(id)),
        events.len() > 0 ==> match events[0] {
            Event::Loaded(Ok(stored)) => match token_encoding(stored.token) {
                Ok(bytes) => {
                    &&& turns[1].next matches Next::Act(Action::Write(text), _)
                    &&& text@ =~= hex_text(bytes)
                    &&& line(turns[1], 1) =~= "Value: "@ + decimal(
                        token_value(stored.token) as nat,
                    )
                    &&& events.len() > 1 ==> match events[1] {
                        Event::Written(Ok(_)) => {
                            &&& line(turns[2], 0) =~= "Token successfully exported to "@ + path@
                            &&& if forget {
                                &&& wants(turns[2], Action::Delete(id))
                                &&& token_value(stored.token) > 0 ==> line(turns[2], 1)
                                    =~= "Warning: This token has "@ + decimal(
                                    token_value(stored.token) as nat,
                                ) + " credits that will be forgotten."@
                            } else {
                                turns.len() == 3 && stops(turns[2], Ok(()))
                            }
                        },
                        Event::Written(Err(error)) => turns.len() == 3 && stops(
                            turns[2],
                            Err(error),
                        ),
                        _ => false,
                    }
                    &&& events.len() > 2 ==> match events[2] {
                        Event::Deleted(deleted) => {
                            &&& stops(turns[3], Ok(()))
                            &&& line(turns[3], 0) =~= match deleted {
                                Ok(_) => "Token with ID "@ + signed_decimal(id as int)
                                    + " has been forgotten after export."@,
                                Err(error) => "Error: Failed to forget token with ID "@
                                    + signed_decimal(id as int) + ": "@ + error.text(),
                            }
                        },
                        _ => false,
                    }
                },
                Err(_) => {
                    &&& turns.len() == 2
                    &&& turns[1].next matches Next::End(Err(ClientError::Serialization(_)))
                },
            },
            Event::Loaded(Err(error)) => turns.len() == 2 && stops(turns[1], Err(error)),
            _ => false,
        },
{
}

/// To import a token, what is stored is the token that was read, or, where it is to be made
/// anonymous, the one that comes of spending nothing from it. A text that holds no token is an
/// error, and nothing is stored.
pub proof fn law_import_command(anonymize: bool, turns: Seq<Turn>, events: Seq<Event>)
    requires
        run(Command::Import { anonymize }, turns, events),
    ensures
        turns.len() <= 4,
        wants(turns[0], Action::Read),
        events.len() > 0 ==> match events[0] {
            Event::Read(Ok(text)) => {
                let codes = encode_utf8(trimmed(text@));
                if codes.len() % 2 == 0 && all_digits(codes) && token_decoding(
                    hex_bytes(codes),
                ) is Ok {
                    let token = token_decoding(hex_bytes(codes))->Ok_0;
                    if anonymize {
                        &&& wants(
                            turns[1],
                            Action::Perform(Operation::Spend { token, amount: 0 }),
                        )
                        &&& events.len() > 1 ==> match events[1] {
                            Event::Performed(Ok(Outcome::Token(fresh))) => wants(
                                turns[2],
                                Action::Store(fresh),
                            ),
                            Event::Performed(Err(error)) => turns.len() == 3 && stops(
                                turns[2],
                                Err(error),
                            ),
                            _ => false,
                        }
                        &&& events.len() > 2 ==> stored_in_the_end(turns[3], events[2], token)
                    } else {
                        &&& turns.len() <= 3
                        &&& wants(turns[1], Action::Store(token))
                        &&& events.len() > 1 ==> stored_in_the_end(turns[2], events[1], token)
                    }
                } else {
                    &&& turns.len() == 2
                    &&& turns[1].next matches Next::End(Err(ClientError::Io(_)))
                }
            },
            Event::Read(Err(error)) => turns.len() == 2 && stops(turns[1], Err(error)),
            _ => false,
        },
{
    if events.len() > 0 {
        if let Event::Read(Ok(text)) = events[0] {
            let codes = encode_utf8(trimmed(text@));
            assert(advanced(turns[0], events[0], turns[1]));
            let read = choose|read: Result<CreditToken, ClientError>|
                {
                    &&& #[trigger] imports(codes, read)
                    &&& match read {
                        Err(error) => fails(turns[1], error),
                        Ok(token) => if anonymize {
                            wants(
                                turns[1],
                                Action::Perform(Operation::Spend { token, amount: 0 }),
                            )
                        } else {
                            wants(turns[1], Action::Store(token))
                        },
                    }
                };
            assert(imports(codes, read));
        }
    }
}

/// Whether a turn tells how storing an imported token went.
pub open spec fn stored_in_the_end(turn: Turn, event: Event, token: CreditToken) -> bool {
    match event {
        Event::Stored(Ok(id)) => {
            &&& stops(turn, Ok(()))
            &&& line(turn, 1) =~= "New Token ID: "@ + signed_decimal(id as int)
            &&& line(turn, 2) =~= "Token Value: "@ + decimal(token_value(token) as nat)
        },
        Event::Stored(Err(error)) => stops(turn, Err(error)),
        _ => false,
    }
}

/// A token that was exported can be imported again: the token that is stored then has the same
/// nullifier and the same credits.
pub proof fn law_export_and_import(
    id: i64,
    path: String,
    forget: bool,
    out: Seq<Turn>,
    out_events: Seq<Event>,
    back: Seq<Turn>,
    back_events: Seq<Event>,
    stored: StoredToken,
    written: String,
    text: String,
)
    requires
        run(Command::Export { id, path, forget }, out, out_events),
        out_events.len() > 0,
        out_events[0] == Event::Loaded(Ok(stored)),
        wants(out[1], Action::Write(written)),
        run(Command::Import { anonymize: false }, back, back_events),
        back_events.len() > 0,
        text@ == written@,
        back_events[0] == Event::Read(Ok(text)),
    ensures
        back[1].next matches Next::Act(Action::Store(token), _) && copies(
            stored.token,
            Ok::<CreditToken, ClientError>(token),
        ),
{
    law_export_command(id, path, forget, out, out_events);
    law_import_command(false, back, back_events);
    if let Ok(bytes) = token_encoding(stored.token) {
        law_hex_text_reads_back(bytes);
        assert(encodes_to(stored.token, bytes));
        let codes = encode_utf8(trimmed(text@));
        assert(advanced(back[0], back_events[0], back[1]));
        let read = choose|read: Result<CreditToken, ClientError>|
            {
                &&& #[trigger] imports(codes, read)
                &&& match read {
                    Err(error) => fails(back[1], error),
                    Ok(token) => wants(back[1], Action::Store(token)),
                }
            };
        assert(imports(codes, read));
    }
}

/// The tokens that the first events have loaded.
pub open spec fn loaded(events: Seq<Event>, count: int) -> Seq<CreditToken> {
    Seq::new(count as nat, |i: int| events[i]->Loaded_0->Ok_0.token)
}

/// Whether the first events have each loaded a token.
pub open spec fn all_loaded(events: Seq<Event>, count: int) -> bool {
    forall|i: int|
        0 <= i < count ==> (#[trigger] events[i] matches Event::Loaded(loaded) && loaded is Ok)
}

/// What tokens are worth together.
pub open spec fn worth(tokens: Seq<CreditToken>) -> nat {
    sum(values(tokens))
}

proof fn lemma_worth_of_one_more(events: Seq<Event>, count: int)
    requires
        0 <= count < events.len(),
    ensures
        loaded(events, count + 1) =~= loaded(events, count).push(
            events[count]->Loaded_0->Ok_0.token,
        ),
        worth(loaded(events, count + 1)) == worth(loaded(events, count)) + token_value(
            events[count]->Loaded_0->Ok_0.token,
        ),
{
    let fewer = loaded(events, count);
    let more = loaded(events, count + 1);
    assert(more =~= fewer.push(events[count]->Loaded_0->Ok_0.token));
    assert(values(more).drop_last() =~= values(fewer));
}

/// Whether tokens could be deleted at each of some events.
pub open spec fn all_deleted(events: Seq<Event>, from: int, to: int) -> bool {
    forall|i: int|
        from <= i < to ==> (#[trigger] events[i] matches Event::Deleted(deleted) && deleted is Ok)
}

/// What a run of `combine` remembers at a turn that is not the last.
spec fn combine_at(ids: Seq<i64>, turns: Seq<Turn>, events: Seq<Event>, k: int) -> bool {
    let n = ids.len() as int;
    &&& turns[k].next matches Next::Act(action, session)
    &&& k <= n ==> all_loaded(events, k) && worth(loaded(events, k)) <= u128::MAX
    &&& k > n ==> all_loaded(events, n) && worth(loaded(events, n)) <= u128::MAX
    &&& k > n ==> events[n] == Event::Confirmed(Ok(true))
    &&& k > n + 1 ==> (events[n + 1] matches Event::Performed(Ok(Outcome::Token(_))))
    &&& k > n + 2 ==> (events[n + 2] matches Event::Stored(Ok(_)))
    &&& if k < n {
        &&& action == Action::Load(ids[k])
        &&& session matches Session::CombineLoading { ids: all, tokens, sum: so_far }
        &&& all@ == ids
        &&& tokens@ =~= loaded(events, k)
        &&& so_far == worth(tokens@)
    } else if k == n {
        &&& wonders(
            turns[k],
            "Combine these "@ + decimal(ids.len()) + " tokens into a new one?"@,
            true,
        )
        &&& line(turns[k], lines(turns[k]) - 1) =~= "Total value to combine: "@ + decimal(
            worth(loaded(events, n)),
        )
        &&& session matches Session::CombineConfirming { ids: all, tokens }
        &&& all@ == ids
        &&& tokens@ =~= loaded(events, n)
    } else if k == n + 1 {
        &&& action matches Action::Perform(Operation::Combine { tokens })
        &&& tokens@ =~= loaded(events, n)
        &&& session matches Session::Combining { ids: all }
        &&& all@ == ids
    } else if k == n + 2 {
        &&& action == Action::Store(events[n + 1]->Performed_0->Ok_0->Token_0)
        &&& session matches Session::CombineStoring { ids: all, value }
        &&& all@ == ids
        &&& value == token_value(events[n + 1]->Performed_0->Ok_0->Token_0)
    } else {
        &&& k < 2 * n + 3
        &&& action == Action::Delete(ids[k - n - 3])
        &&& session matches Session::CombineDeleting { ids: all, next, all: gone }
        &&& all@ == ids
        &&& next == k - n - 3
        &&& gone == all_deleted(events, n + 3, k)
    }
}

proof fn lemma_combine_loads(ids: Seq<i64>, turns: Seq<Turn>, events: Seq<Event>, k: int)
    requires
        1 <= k <= ids.len(),
        k <= events.len(),
        combine_at(ids, turns, events, k - 1),
        advanced(turns[k - 1], events[k - 1], turns[k]),
        turns[k].next is Act,
    ensures
        combine_at(ids, turns, events, k),
{
    lemma_worth_of_one_more(events, k - 1);
}

proof fn lemma_combine_performs(ids: Seq<i64>, turns: Seq<Turn>, events: Seq<Event>, k: int)
    requires
        0 < ids.len() < k <= ids.len() + 2,
        k <= events.len(),
        combine_at(ids, turns, events, k - 1),
        advanced(turns[k - 1], events[k - 1], turns[k]),
        turns[k].next is Act,
    ensures
        combine_at(ids, turns, events, k),
{
}

proof fn lemma_combine_deletes(ids: Seq<i64>, turns: Seq<Turn>, events: Seq<Event>, k: int)
    requires
        0 < ids.len(),
        ids.len() + 3 <= k <= events.len(),
        combine_at(ids, turns, events, k - 1),
        advanced(turns[k - 1], events[k - 1], turns[k]),
        turns[k].next is Act,
    ensures
        combine_at(ids, turns, events, k),
{
}

proof fn lemma_combine_at(ids: Vec<i64>, turns: Seq<Turn>, events: Seq<Event>, k: int)
    requires
        ids.len() >= 2,
        run(Command::Combine { ids }, turns, events),
        0 <= k < turns.len(),
        turns[k].next is Act,
    ensures
        combine_at(ids@, turns, events, k),
    decreases k,
{
    if k == 0 {
        assert(loaded(events, 0) =~= Seq::empty());
        assert(values(loaded(events, 0)) =~= Seq::empty());
    } else {
        assert(advanced(turns[k - 1], events[k - 1], turns[k]));
        lemma_combine_at(ids, turns, events, k - 1);
        if k <= ids.len() {
            lemma_combine_loads(ids@, turns, events, k);
        } else if k <= ids.len() + 2 {
            lemma_combine_performs(ids@, turns, events, k);
        } else {
            lemma_combine_deletes(ids@, turns, events, k);
        }
    }
}

/// To combine tokens, one token is loaded for each identifier that the user gave, in that order;
/// once the user has agreed, just these tokens are combined, and the token that comes of it is
/// stored. Only after that are tokens deleted: those that were combined, each once and in order,
/// and no others.
pub proof fn law_combine_command(ids: Vec<i64>, turns: Seq<Turn>, events: Seq<Event>, k: int)
    requires
        ids.len() >= 2,
        run(Command::Combine { ids }, turns, events),
        0 <= k < turns.len(),
        turns[k].next is Act,
    ensures
        k < 2 * ids.len() + 3,
        k < ids.len() ==> wants(turns[k], Action::Load(ids@[k])),
        k == ids.len() ==> wonders(
            turns[k],
            "Combine these "@ + decimal(ids@.len()) + " tokens into a new one?"@,
            true,
        ) && line(turns[k], lines(turns[k]) - 1) =~= "Total value to combine: "@ + decimal(
            worth(loaded(events, ids.len() as int)),
        ),
        k == ids.len() + 1 ==> {
            &&& turns[k].next matches Next::Act(Action::Perform(Operation::Combine { tokens }), _)
            &&& tokens.len() == ids.len()
            &&& forall|i: int|
                0 <= i < ids.len() ==> {
                    &&& wants(turns[i], Action::Load(ids@[i]))
                    &&& #[trigger] events[i] matches Event::Loaded(Ok(stored))
                    &&& tokens@[i] == stored.token
                }
            &&& events[k - 1] == Event::Confirmed(Ok(true))
        },
        k == ids.len() + 2 ==> {
            &&& events[k - 1] matches Event::Performed(Ok(Outcome::Token(token)))
            &&& wants(turns[k], Action::Store(token))
        },
        k >= ids.len() + 3 ==> {
            &&& wants(turns[k], Action::Delete(ids@[k - ids.len() - 3]))
            &&& events[ids.len() + 2] matches Event::Stored(Ok(_))
            &&& turns[ids.len() + 1].next matches Next::Act(
                Action::Perform(Operation::Combine { tokens }),
                _,
            )
            &&& tokens.len() == ids.len()
            &&& events[k - ids.len() - 3] matches Event::Loaded(Ok(stored))
            &&& tokens@[k - ids.len() - 3] == stored.token
        },
{
    let n = ids.len() as int;
    lemma_combine_at(ids, turns, events, k);
    if k == n + 1 {
        assert forall|i: int| 0 <= i < n implies {
            &&& wants(turns[i], Action::Load(ids@[i]))
            &&& #[trigger] events[i] matches Event::Loaded(Ok(_))
        } by {
            assert(advanced(turns[i], events[i], turns[i + 1]));
            lemma_combine_at(ids, turns, events, i);
        }
    }
    if k >= n + 3 {
        assert(advanced(turns[n + 1], events[n + 1], turns[n + 2]));
        lemma_combine_at(ids, turns, events, n + 1);
        assert(events[k - n - 3] matches Event::Loaded(Ok(_)));
    }
}

/// How a command to combine tokens should go on after an event.
pub open spec fn combine_reacts(
    ids: Seq<i64>,
    turns: Seq<Turn>,
    events: Seq<Event>,
    k: int,
) -> bool {
    match events[k] {
        Event::Loaded(Ok(stored)) => {
            &&& line(turns[k + 1], 0) =~= "ID: "@ + signed_decimal(ids[k] as int) + ", Value: "@
                + decimal(token_value(stored.token) as nat)
            &&& if worth(loaded(events, k + 1)) <= u128::MAX {
                turns[k + 1].next is Act
            } else {
                stops(turns[k + 1], Ok(()))
            }
        },
        Event::Loaded(Err(error)) => {
            &&& stops(turns[k + 1], Ok(()))
            &&& line(turns[k + 1], 0) =~= "Error: Could not find token with ID "@ + signed_decimal(
                ids[k] as int,
            ) + ": "@ + error.text()
        },
        Event::Confirmed(Ok(yes)) => if yes {
            turns[k + 1].next is Act
        } else {
            stops(turns[k + 1], Ok(()))
        },
        Event::Confirmed(Err(error)) => stops(turns[k + 1], Err(error)),
        Event::Performed(Ok(_)) => turns[k + 1].next is Act,
        Event::Performed(Err(error)) => stops(turns[k + 1], Err(error)),
        Event::Stored(Ok(id)) => {
            &&& turns[k + 1].next is Act
            &&& line(turns[k + 1], 1) =~= "New token ID: "@ + signed_decimal(id as int)
            &&& events[k - 1] matches Event::Performed(Ok(Outcome::Token(token)))
            &&& line(turns[k + 1], 2) =~= "Combined value: "@ + decimal(
                token_value(token) as nat,
            )
        },
        Event::Stored(Err(error)) => stops(turns[k + 1], Err(error)),
        Event::Deleted(deleted) => {
            let id = signed_decimal(ids[k - ids.len() - 3] as int);
            &&& line(turns[k + 1], 0) =~= match deleted {
                Ok(_) => "Token with ID "@ + id + " deleted"@,
                Err(error) => "Warning: Failed to delete token with ID "@ + id + ": "@
                    + error.text(),
            }
            &&& if k + 1 < 2 * ids.len() + 3 {
                turns[k + 1].next is Act
            } else {
                &&& stops(turns[k + 1], Ok(()))
                &&& lines(turns[k + 1]) == if all_deleted(
                    events,
                    (ids.len() + 3) as int,
                    (2 * ids.len() + 3) as int,
                ) {
                    1int
                } else {
                    2
                }
            }
        },
        _ => false,
    }
}

proof fn lemma_reaction_to_loading(
    ids: Seq<i64>,
    turns: Seq<Turn>,
    events: Seq<Event>,
    k: int,
)
    requires
        0 <= k < ids.len(),
        k < events.len(),
        combine_at(ids, turns, events, k),
        advanced(turns[k], events[k], turns[k + 1]),
    ensures
        combine_reacts(ids, turns, events, k),
{
    lemma_worth_of_one_more(events, k);
}

proof fn lemma_reaction_to_performing(
    ids: Seq<i64>,
    turns: Seq<Turn>,
    events: Seq<Event>,
    k: int,
)
    requires
        0 < ids.len() <= k < ids.len() + 3,
        combine_at(ids, turns, events, k),
        advanced(turns[k], events[k], turns[k + 1]),
    ensures
        combine_reacts(ids, turns, events, k),
{
}

proof fn lemma_reaction_to_deleting(
    ids: Seq<i64>,
    turns: Seq<Turn>,
    events: Seq<Event>,
    k: int,
)
    requires
        0 < ids.len(),
        ids.len() + 3 <= k,
        combine_at(ids, turns, events, k),
        advanced(turns[k], events[k], turns[k + 1]),
    ensures
        combine_reacts(ids, turns, events, k),
{
}

/// A command to combine tokens goes on as long as nothing stands in its way: tokens that are
/// there and are worth no more together than one token can hold, a user who agrees, a token that
/// comes of the combination, and room to store it; tokens that cannot be deleted do not stop it.
/// It stops where one of these fails, with what went wrong.
pub proof fn law_combine_command_goes_on(
    ids: Vec<i64>,
    turns: Seq<Turn>,
    events: Seq<Event>,
    k: int,
)
    requires
        ids.len() >= 2,
        run(Command::Combine { ids }, turns, events),
        0 <= k < events.len(),
    ensures
        combine_reacts(ids@, turns, events, k),
{
    assert(advanced(turns[k], events[k], turns[k + 1]));
    lemma_combine_at(ids, turns, events, k);
    if k < ids.len() {
        lemma_reaction_to_loading(ids@, turns, events, k);
    } else if k < ids.len() + 3 {
        lemma_reaction_to_performing(ids@, turns, events, k);
    } else {
        lemma_reaction_to_deleting(ids@, turns, events, k);
    }
}

/// Fewer than two tokens are not combined: nothing is done.
pub proof fn law_few_tokens_are_not_combined(ids: Vec<i64>, turns: Seq<Turn>, events: Seq<Event>)
    requires
        ids.len() < 2,
        run(Command::Combine { ids }, turns, events),
    ensures
        turns.len() == 1,
        stops(turns[0], Ok(())),
{
}

/// The tokens that a run of `split` has been given.
pub open spec fn parts(events: Seq<Event>) -> Seq<CreditToken> {
    events[2]->Performed_0->Ok_0->Tokens_0@
}

/// What a run of `split` remembers at a turn that is not the last.
spec fn split_at(
    id: i64,
    amounts: Vec<u128>,
    turns: Seq<Turn>,
    events: Seq<Event>,
    k: int,
) -> bool {
    &&& turns[k].next matches Next::Act(action, session)
    &&& k > 0 ==> (events[0] matches Event::Loaded(Ok(stored)) && total(amounts@) == token_value(
        stored.token,
    ))
    &&& k > 1 ==> events[1] == Event::Confirmed(Ok(true))
    &&& k > 2 ==> (events[2] matches Event::Performed(Ok(Outcome::Tokens(_))))
    &&& forall|i: int| 3 <= i < k ==> (#[trigger] events[i] matches Event::Stored(Ok(_)))
    &&& if k == 0 {
        &&& action == Action::Load(id)
        &&& session == Session::SplitLoading { id, amounts }
    } else if k == 1 {
        &&& wonders(
            turns[1],
            "Split this token into "@ + decimal(amounts@.len()) + " new tokens?"@,
            true,
        )
        &&& session == Session::SplitConfirming {
            id,
            token: events[0]->Loaded_0->Ok_0.token,
            amounts,
        }
    } else if k == 2 {
        &&& action == Action::Perform(
            Operation::Split { token: events[0]->Loaded_0->Ok_0.token, amounts },
        )
        &&& session == Session::Splitting { id }
    } else if k - 3 < parts(events).len() {
        &&& action == Action::Store(parts(events)[k - 3])
        &&& session matches Session::SplitStoring { id: at, tokens, next }
        &&& at == id
        &&& tokens@ == parts(events)
        &&& next == k - 3
    } else {
        &&& k == parts(events).len() + 3
        &&& action == Action::Delete(id)
        &&& session == Session::SplitDeleting { id }
    }
}

proof fn lemma_split_asks(
    id: i64,
    amounts: Vec<u128>,
    turns: Seq<Turn>,
    events: Seq<Event>,
    k: int,
)
    requires
        1 <= k <= 2,
        split_at(id, amounts, turns, events, k - 1),
        advanced(turns[k - 1], events[k - 1], turns[k]),
        turns[k].next is Act,
    ensures
        split_at(id, amounts, turns, events, k),
{
}

proof fn lemma_split_performs(
    id: i64,
    amounts: Vec<u128>,
    turns: Seq<Turn>,
    events: Seq<Event>,
)
    requires
        split_at(id, amounts, turns, events, 2),
        advanced(turns[2], events[2], turns[3]),
        turns[3].next is Act,
    ensures
        split_at(id, amounts, turns, events, 3),
{
}

proof fn lemma_split_stores(
    id: i64,
    amounts: Vec<u128>,
    turns: Seq<Turn>,
    events: Seq<Event>,
    k: int,
)
    requires
        k > 3,
        split_at(id, amounts, turns, events, k - 1),
        advanced(turns[k - 1], events[k - 1], turns[k]),
        turns[k].next is Act,
    ensures
        split_at(id, amounts, turns, events, k),
{
    assert(events[k - 1] matches Event::Stored(Ok(_)));
    assert forall|i: int| 3 <= i < k implies (#[trigger] events[i] matches Event::Stored(
        Ok(_),
    )) by {}
}

proof fn lemma_split_at(
    id: i64,
    amounts: Vec<u128>,
    turns: Seq<Turn>,
    events: Seq<Event>,
    k: int,
)
    requires
        amounts.len() > 0,
        run(Command::Split { id, amounts }, turns, events),
        0 <= k < turns.len(),
        turns[k].next is Act,
    ensures
        split_at(id, amounts, turns, events, k),
    decreases k,
{
    if k > 0 {
        assert(advanced(turns[k - 1], events[k - 1], turns[k]));
        lemma_split_at(id, amounts, turns, events, k - 1);
        if k <= 2 {
            lemma_split_asks(id, amounts, turns, events, k);
        } else if k == 3 {
            lemma_split_performs(id, amounts, turns, events);
        } else {
            lemma_split_stores(id, amounts, turns, events, k);
        }
    }
}

/// To split a token, just the token with the identifier that the user gave is split into just the
/// amounts that the user gave, once the user has agreed. The tokens that come of it are stored,
/// each once and in order; only when all of them have been stored is the old token deleted, and
/// no other token is.
pub proof fn law_split_command(
    id: i64,
    amounts: Vec<u128>,
    turns: Seq<Turn>,
    events: Seq<Event>,
    k: int,
)
    requires
        amounts.len() > 0,
        run(Command::Split { id, amounts }, turns, events),
        0 <= k < turns.len(),
        turns[k].next is Act,
    ensures
        k == 0 ==> wants(turns[0], Action::Load(id)),
        k == 1 ==> wonders(
            turns[1],
            "Split this token into "@ + decimal(amounts@.len()) + " new tokens?"@,
            true,
        ) && forall|i: int|
            0 <= i < amounts.len() ==> #[trigger] line(turns[1], 3 + i) =~= "Token "@ + decimal(
                (i + 1) as nat,
            ) + ": "@ + decimal(amounts@[i] as nat),
        k == 2 ==> {
            &&& events[0] matches Event::Loaded(Ok(stored))
            &&& events[1] == Event::Confirmed(Ok(true))
            &&& wants(
                turns[2],
                Action::Perform(Operation::Split { token: stored.token, amounts }),
            )
        },
        k > 2 ==> {
            &&& events[2] matches Event::Performed(Ok(Outcome::Tokens(tokens)))
            &&& k <= tokens.len() + 3
            &&& k < tokens.len() + 3 ==> wants(turns[k], Action::Store(tokens@[k - 3]))
            &&& k == tokens.len() + 3 ==> {
                &&& wants(turns[k], Action::Delete(id))
                &&& forall|i: int|
                    0 <= i < tokens.len() ==> {
                        &&& wants(turns[i + 3], Action::Store(#[trigger] tokens@[i]))
                        &&& events[i + 3] matches Event::Stored(Ok(_))
                    }
            }
        },
{
    lemma_split_at(id, amounts, turns, events, k);
    if k > 2 && k == parts(events).len() + 3 {
        let tokens = events[2]->Performed_0->Ok_0->Tokens_0;
        assert forall|i: int| 0 <= i < tokens.len() implies {
            &&& wants(turns[i + 3], Action::Store(#[trigger] tokens@[i]))
            &&& events[i + 3] matches Event::Stored(Ok(_))
        } by {
            assert(advanced(turns[i + 3], events[i + 3], turns[i + 3 + 1]));
            lemma_split_at(id, amounts, turns, events, i + 3);
        }
    }
}

/// How a command to split a token should go on after an event.
pub open spec fn split_reacts(
    id: i64,
    amounts: Vec<u128>,
    turns: Seq<Turn>,
    events: Seq<Event>,
    k: int,
) -> bool {
    match events[k] {
        Event::Loaded(Ok(stored)) => if total(amounts@) == token_value(stored.token) {
            turns[k + 1].next is Act
        } else {
            &&& stops(turns[k + 1], Ok(()))
            &&& lines(turns[k + 1]) == 1
            &&& total(amounts@) <= u128::MAX ==> line(turns[k + 1], 0) =~= "Error: "@ + (
            "Total amount ("@ + decimal(total(amounts@)) + ") does not match token value ("@
                + decimal(token_value(stored.token) as nat) + ")"@)
        },
        Event::Loaded(Err(error)) => stops(turns[k + 1], Err(error)),
        Event::Confirmed(Ok(yes)) => if yes {
            turns[k + 1].next is Act
        } else {
            stops(turns[k + 1], Ok(()))
        },
        Event::Confirmed(Err(error)) => stops(turns[k + 1], Err(error)),
        Event::Performed(Ok(_)) => turns[k + 1].next is Act,
        Event::Performed(Err(error)) => stops(turns[k + 1], Err(error)),
        Event::Stored(Ok(new_id)) => {
            &&& turns[k + 1].next is Act
            &&& k >= 3
            &&& line(turns[k + 1], 0) =~= "Token "@ + decimal((k - 2) as nat) + ": ID: "@
                + signed_decimal(new_id as int) + ", Value: "@ + decimal(
                token_value(parts(events)[k - 3]) as nat,
            )
        },
        Event::Stored(Err(error)) => stops(turns[k + 1], Err(error)),
        Event::Deleted(deleted) => {
            &&& stops(turns[k + 1], Ok(()))
            &&& line(turns[k + 1], 0) =~= match deleted {
                Ok(_) => "Original token with ID "@ + signed_decimal(id as int) + " deleted"@,
                Err(error) => "Warning: Failed to delete original token with ID "@
                    + signed_decimal(id as int) + ": "@ + error.text(),
            }
        },
        _ => false,
    }
}

proof fn lemma_reaction_to_splitting(
    id: i64,
    amounts: Vec<u128>,
    turns: Seq<Turn>,
    events: Seq<Event>,
    k: int,
)
    requires
        0 <= k < 3,
        split_at(id, amounts, turns, events, k),
        advanced(turns[k], events[k], turns[k + 1]),
    ensures
        split_reacts(id, amounts, turns, events, k),
{
}

proof fn lemma_reaction_to_storing(
    id: i64,
    amounts: Vec<u128>,
    turns: Seq<Turn>,
    events: Seq<Event>,
    k: int,
)
    requires
        k >= 3,
        split_at(id, amounts, turns, events, k),
        advanced(turns[k], events[k], turns[k + 1]),
    ensures
        split_reacts(id, amounts, turns, events, k),
{
}

/// A command to split a token goes on as long as nothing stands in its way: a token that is there
/// and is worth what the amounts add up to, a user who agrees, tokens that come of the split, and
/// room to store them. It stops where one of these fails, with what went wrong.
pub proof fn law_split_command_goes_on(
    id: i64,
    amounts: Vec<u128>,
    turns: Seq<Turn>,
    events: Seq<Event>,
    k: int,
)
    requires
        amounts.len() > 0,
        run(Command::Split { id, amounts }, turns, events),
        0 <= k < events.len(),
    ensures
        split_reacts(id, amounts, turns, events, k),
{
    assert(advanced(turns[k], events[k], turns[k + 1]));
    lemma_split_at(id, amounts, turns, events, k);
    if k < 3 {
        lemma_reaction_to_splitting(id, amounts, turns, events, k);
    } else {
        lemma_reaction_to_storing(id, amounts, turns, events, k);
    }
}

/// A token is not split into nothing: nothing is done.
pub proof fn law_nothing_is_split_into_nothing(
    id: i64,
    amounts: Vec<u128>,
    turns: Seq<Turn>,
    events: Seq<Event>,
)
    requires
        amounts.len() == 0,
        run(Command::Split { id, amounts }, turns, events),
    ensures
        turns.len() == 1,
        stops(turns[0], Ok(())),
{
}

/// Whether an event tells how an action went, well or not.
pub open spec fn tells_of(action: Action, event: Event) -> bool {
    match action {
        Action::Load(_) => event is Loaded,
        Action::LoadAll => event is AllLoaded,
        Action::Confirm(_, _) => event is Confirmed,
        Action::Perform(operation) => {
            &&& event matches Event::Performed(performed)
            &&& performed matches Ok(outcome) ==> match operation {
                Operation::Split { .. } => outcome is Tokens,
                _ => outcome is Token,
            }
        },
        Action::CheckNullifier(_) => {
            &&& event matches Event::Performed(performed)
            &&& performed matches Ok(outcome) ==> outcome is NullifierSpent
        },
        Action::Store(_) => event is Stored,
        Action::Update(_, _) => event is Updated,
        Action::Delete(_) => event is Deleted,
        Action::Write(_) => event is Written,
        Action::Read => event is Read,
        Action::Count => event is Counted,
    }
}

/// A command can always be carried on: however the action of its last turn went, `advance` takes
/// the event that tells of it.
pub proof fn law_every_event_is_taken(
    command: Command,
    turns: Seq<Turn>,
    events: Seq<Event>,
    action: Action,
    session: Session,
    event: Event,
)
    requires
        run(command, turns, events),
        turns.last().next == Next::Act(action, session),
        tells_of(action, event),
    ensures
        fits(session, event),
        session.sound(),
{
    let last = turns.len() - 1;
    if last > 0 {
        assert(advanced(turns[last - 1], events[last - 1], turns[last]));
        if let Next::Act(_, before) = turns[last - 1].next {
            lemma_step_is_taken(before, events[last - 1], turns[last], action, session, event);
        }
    }
    lemma_session_is_sound(command, turns, events, action, session);
}

proof fn lemma_session_is_sound(
    command: Command,
    turns: Seq<Turn>,
    events: Seq<Event>,
    action: Action,
    session: Session,
)
    requires
        run(command, turns, events),
        turns.last().next == Next::Act(action, session),
    ensures
        session.sound(),
    decreases turns.len(),
{
    let last = turns.len() - 1;
    if last > 0 {
        assert(advanced(turns[last - 1], events[last - 1], turns[last]));
        if let Next::Act(earlier, before) = turns[last - 1].next {
            let fewer = turns.drop_last();
            let less = events.drop_last();
            assert forall|i: int| 0 <= i < less.len() implies advanced(
                #[trigger] fewer[i],
                less[i],
                fewer[i + 1],
            ) by {
                assert(advanced(turns[i], events[i], turns[i + 1]));
            }
            lemma_session_is_sound(command, fewer, less, earlier, before);
            law_sessions_stay_sound(command, turns[0], before, events[last - 1], turns[last]);
        }
    }
}

proof fn lemma_step_is_taken(
    before: Session,
    earlier: Event,
    turn: Turn,
    action: Action,
    session: Session,
    event: Event,
)
    requires
        goes_on(before, earlier, turn),
        turn.next == Next::Act(action, session),
        tells_of(action, event),
    ensures
        fits(session, event),
{
}

} // verus!
