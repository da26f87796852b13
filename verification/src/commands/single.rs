//! The commands that deal with one token at a time, the list of all tokens, and the command that
//! shows how much the server has recorded.

use super::lines::{
    about, about_error, about_error_text, about_text, bad, bold, created_lines, good, id_line,
    no_lines, number_line, plain, rule, said, say, say_created, say_id, say_number, say_rule,
    say_str, warning, Line, Tone,
};
use super::session::{
    acts, asks, cancelled, ends, fails, fits, turn_act, turn_end, turn_fail, Action, Event, Next,
    Session, StoredToken, Turn,
};
use crate::client::{nullifier_bytes, token_value, CreditTokenExt, Operation, Outcome};
use crate::codec::{
    encode_error_text, export_token, hex_lines, hex_text, import_token, imports, token_encoding,
    LINE,
};
use crate::protocol::ClientError;
use crate::scheme::token_nullifier;
use crate::text::{
    decimal, decimal_text, join2, join3, join5, signed_decimal, signed_decimal_text, trimmed,
};
use anonymous_credit_tokens::CreditToken;
use bincode::error::EncodeError;
use vstd::prelude::*;
use vstd::utf8::encode_utf8;

verus! {

/// How a command to issue a token goes on.
pub open spec fn issue_goes_on(session: Session, event: Event, turn: Turn) -> bool {
    match (session, event) {
        (Session::Issuing, Event::Performed(Err(error))) => fails(turn, error),
        (Session::Issuing, Event::Performed(Ok(Outcome::Token(token)))) => acts(
            turn,
            seq![],
            Action::Store(token),
            Session::IssueStoring { value: token_value(token) },
        ),
        (Session::IssueStoring { .. }, Event::Stored(Err(error))) => fails(turn, error),
        (Session::IssueStoring { value }, Event::Stored(Ok(id))) => ends(
            turn,
            seq![
                good("Successfully issued a new credit token!"@),
                id_line("Token ID: "@, id),
                number_line("Token Value: "@, value as nat),
            ],
        ),
        _ => false,
    }
}

pub(crate) fn advance_issue(session: Session, event: Event) -> (turn: Turn)
    requires
        fits(session, event),
        session is Issuing || session is IssueStoring,
    ensures
        issue_goes_on(session, event, turn),
{
    let mut lines = no_lines();
    match (session, event) {
        (Session::Issuing, Event::Performed(Ok(Outcome::Token(token)))) => {
            let value: u128 = token.get_value();
            turn_act(lines, Action::Store(token), Session::IssueStoring { value })
        },
        (Session::IssueStoring { value }, Event::Stored(Ok(id))) => {
            say_str(&mut lines, "Successfully issued a new credit token!", Tone::Good);
            say_id(&mut lines, "Token ID: ", id);
            say_number(&mut lines, "Token Value: ", value);
            turn_end(lines)
        },
        (_, Event::Performed(Err(error))) => turn_fail(error),
        (_, Event::Stored(Err(error))) => turn_fail(error),
        _ => turn_end(lines),
    }
}

/// The lines for the tokens of a list. Tokens without value are left out unless they are to be
/// shown.
pub open spec fn listed(tokens: Seq<StoredToken>, show_zero: bool) -> Seq<(Seq<char>, Tone)>
    decreases tokens.len(),
{
    if tokens.len() == 0 {
        seq![]
    } else {
        let before = listed(tokens.drop_last(), show_zero);
        let stored = tokens.last();
        if show_zero || token_value(stored.token) > 0 {
            before + seq![
                id_line("ID: "@, stored.id),
                number_line("Value: "@, token_value(stored.token) as nat),
                plain(
                    "Created: "@ + match stored.created {
                        Some(time) => time@,
                        None => "Unknown"@,
                    },
                ),
                rule(),
            ]
        } else {
            before
        }
    }
}

/// How a command to list the tokens goes on.
pub open spec fn list_goes_on(session: Session, event: Event, turn: Turn) -> bool {
    match (session, event) {
        (Session::Listing { .. }, Event::AllLoaded(Err(error))) => fails(turn, error),
        (Session::Listing { show_zero }, Event::AllLoaded(Ok(tokens))) => if tokens.len() == 0 {
            ends(turn, seq![plain("No credit tokens found."@)])
        } else if listed(tokens@, show_zero).len() == 0 {
            ends(turn, seq![plain("No tokens found matching your criteria."@)])
        } else {
            ends(
                turn,
                seq![bold("Your credit tokens:"@), rule()] + listed(tokens@, show_zero),
            )
        },
        _ => false,
    }
}

pub(crate) fn advance_list(session: Session, event: Event) -> (turn: Turn)
    requires
        fits(session, event),
        session is Listing,
    ensures
        list_goes_on(session, event, turn),
{
    let mut lines = no_lines();
    match (session, event) {
        (Session::Listing { show_zero }, Event::AllLoaded(Ok(tokens))) => {
            if tokens.len() == 0 {
                say_str(&mut lines, "No credit tokens found.", Tone::Plain);
                return turn_end(lines);
            }
            say_str(&mut lines, "Your credit tokens:", Tone::Bold);
            say_rule(&mut lines);
            let ghost head = said(lines@);
            let mut i: usize = 0;
            assert(tokens@.take(0) =~= Seq::empty());
            while i < tokens.len()
                invariant
                    i <= tokens.len(),
                    head.len() == 2,
                    said(lines@) =~= head + listed(tokens@.take(i as int), show_zero),
                decreases tokens.len() - i,
            {
                let stored = &tokens[i];
                let value: u128 = stored.token.get_value();
                proof {
                    assert(tokens@.take(i + 1).drop_last() =~= tokens@.take(i as int));
                }
                if show_zero || value > 0 {
                    say_id(&mut lines, "ID: ", stored.id);
                    say_number(&mut lines, "Value: ", value);
                    match &stored.created {
                        Some(time) => say(
                            &mut lines,
                            join2("Created: ", time.as_str()),
                            Tone::Plain,
                        ),
                        None => say(&mut lines, join2("Created: ", "Unknown"), Tone::Plain),
                    }
                    say_rule(&mut lines);
                }
                i = i + 1;
            }
            assert(tokens@.take(i as int) =~= tokens@);
            if lines.len() == 2 {
                let mut none = no_lines();
                say_str(&mut none, "No tokens found matching your criteria.", Tone::Plain);
                return turn_end(none);
            }
            turn_end(lines)
        },
        (_, Event::AllLoaded(Err(error))) => turn_fail(error),
        _ => turn_end(lines),
    }
}

/// How a command to spend goes on.
pub open spec fn spend_goes_on(session: Session, event: Event, turn: Turn) -> bool {
    match (session, event) {
        (Session::SpendLoading { .. }, Event::Loaded(Err(error))) => fails(turn, error),
        (Session::SpendLoading { id, amount }, Event::Loaded(Ok(stored))) => if amount
            > token_value(stored.token) {
            ends(
                turn,
                seq![
                    bad(
                        "Error: Cannot spend "@ + decimal(amount as nat) + ". Token only has "@
                            + decimal(token_value(stored.token) as nat) + " credits."@,
                    ),
                ],
            )
        } else {
            asks(
                turn,
                seq![],
                "Spend "@ + decimal(amount as nat) + " credits from token "@ + signed_decimal(
                    id as int,
                ) + "?"@,
                true,
                Session::SpendConfirming { id, token: stored.token, amount },
            )
        },
        (Session::SpendConfirming { .. }, Event::Confirmed(Err(error))) => fails(turn, error),
        (Session::SpendConfirming { .. }, Event::Confirmed(Ok(false))) => ends(turn, cancelled()),
        (Session::SpendConfirming { id, token, amount }, Event::Confirmed(Ok(true))) => acts(
            turn,
            seq![
                plain(
                    "Spending "@ + decimal(amount as nat) + " credits from token "@
                        + signed_decimal(id as int) + "..."@,
                ),
            ],
            Action::Perform(Operation::Spend { token, amount }),
            Session::Spending { id },
        ),
        (Session::Spending { .. }, Event::Performed(Err(error))) => fails(turn, error),
        (Session::Spending { id }, Event::Performed(Ok(Outcome::Token(token)))) => acts(
            turn,
            seq![],
            Action::Update(id, token),
            Session::SpendUpdating { value: token_value(token) },
        ),
        (Session::SpendUpdating { .. }, Event::Updated(Err(error))) => fails(turn, error),
        (Session::SpendUpdating { value }, Event::Updated(Ok(_))) => ends(
            turn,
            seq![
                good("Successfully spent credits!"@),
                number_line("Remaining balance: "@, value as nat),
            ],
        ),
        _ => false,
    }
}

pub(crate) fn advance_spend(session: Session, event: Event) -> (turn: Turn)
    requires
        fits(session, event),
        session is SpendLoading || session is SpendConfirming || session is Spending
            || session is SpendUpdating,
    ensures
        spend_goes_on(session, event, turn),
{
    let mut lines = no_lines();
    match (session, event) {
        (Session::SpendLoading { id, amount }, Event::Loaded(Ok(stored))) => {
            let value: u128 = stored.token.get_value();
            if amount > value {
                say(
                    &mut lines,
                    join5(
                        "Error: Cannot spend ",
                        decimal_text(amount).as_str(),
                        ". Token only has ",
                        decimal_text(value).as_str(),
                        " credits.",
                    ),
                    Tone::Bad,
                );
                return turn_end(lines);
            }
            let prompt = join5(
                "Spend ",
                decimal_text(amount).as_str(),
                " credits from token ",
                signed_decimal_text(id).as_str(),
                "?",
            );
            turn_act(
                lines,
                Action::Confirm(prompt, true),
                Session::SpendConfirming { id, token: stored.token, amount },
            )
        },
        (Session::SpendConfirming { id, token, amount }, Event::Confirmed(Ok(yes))) => {
            if !yes {
                say_str(&mut lines, "Operation cancelled.", Tone::Plain);
                return turn_end(lines);
            }
            say(
                &mut lines,
                join5(
                    "Spending ",
                    decimal_text(amount).as_str(),
                    " credits from token ",
                    signed_decimal_text(id).as_str(),
                    "...",
                ),
                Tone::Plain,
            );
            turn_act(
                lines,
                Action::Perform(Operation::Spend { token, amount }),
                Session::Spending { id },
            )
        },
        (Session::Spending { id }, Event::Performed(Ok(Outcome::Token(token)))) => {
            let value: u128 = token.get_value();
            turn_act(lines, Action::Update(id, token), Session::SpendUpdating { value })
        },
        (Session::SpendUpdating { value }, Event::Updated(Ok(_))) => {
            say_str(&mut lines, "Successfully spent credits!", Tone::Good);
            say_number(&mut lines, "Remaining balance: ", value);
            turn_end(lines)
        },
        (_, Event::Loaded(Err(error))) => turn_fail(error),
        (_, Event::Confirmed(Err(error))) => turn_fail(error),
        (_, Event::Performed(Err(error))) => turn_fail(error),
        (_, Event::Updated(Err(error))) => turn_fail(error),
        _ => turn_end(lines),
    }
}

/// The lines with which a token is introduced: a heading, its value, and when it was stored.
pub open spec fn introduction(heading: Seq<char>, stored: StoredToken) -> Seq<(Seq<char>, Tone)> {
    seq![
        bold(heading),
        rule(),
        number_line("Value: "@, token_value(stored.token) as nat),
    ] + created_lines(stored.created)
}

pub(crate) fn introduce(heading: String, stored: &StoredToken) -> (lines: Vec<Line>)
    ensures
        said(lines@) =~= introduction(heading@, *stored),
{
    let mut lines = no_lines();
    say(&mut lines, heading, Tone::Bold);
    say_rule(&mut lines);
    say_number(&mut lines, "Value: ", stored.token.get_value());
    say_created(&mut lines, &stored.created);
    lines
}

/// Whether a turn says these lines and ends because a token could not be turned into bytes.
pub open spec fn fails_to_encode(
    turn: Turn,
    lines: Seq<(Seq<char>, Tone)>,
    fault: EncodeError,
) -> bool {
    &&& said(turn.lines@) =~= lines
    &&& turn.next matches Next::End(Err(ClientError::Serialization(detail)))
    &&& detail@ == encode_error_text(fault)
}

/// The lines of a long text.
pub open spec fn text_lines(text: Seq<char>) -> Seq<(Seq<char>, Tone)> {
    Seq::new(
        ((text.len() + LINE - 1) / LINE as int) as nat,
        |i: int|
            plain(
                text.subrange(
                    LINE * i,
                    if LINE * (i + 1) < text.len() {
                        LINE * (i + 1)
                    } else {
                        text.len() as int
                    },
                ),
            ),
    )
}

/// How a command to show a token goes on.
pub open spec fn show_goes_on(session: Session, event: Event, turn: Turn) -> bool {
    match (session, event) {
        (Session::Showing { .. }, Event::Loaded(Err(error))) => fails(turn, error),
        (Session::Showing { id }, Event::Loaded(Ok(stored))) => {
            let head = introduction(about("Credit Token (ID: "@, id, ")"@), stored);
            match token_encoding(stored.token) {
                Err(fault) => fails_to_encode(turn, head, fault),
                Ok(bytes) => ends(
                    turn,
                    head + seq![plain("Hex representation:"@)] + text_lines(hex_text(bytes)),
                ),
            }
        },
        _ => false,
    }
}

pub(crate) fn advance_show(session: Session, event: Event) -> (turn: Turn)
    requires
        fits(session, event),
        session is Showing,
    ensures
        show_goes_on(session, event, turn),
{
    match (session, event) {
        (Session::Showing { id }, Event::Loaded(Ok(stored))) => {
            let mut lines = introduce(about_text("Credit Token (ID: ", id, ")"), &stored);
            let text = match export_token(&stored.token) {
                Ok(text) => text,
                Err(error) => {
                    return Turn { lines, next: Next::End(Err(error)) };
                },
            };
            say_str(&mut lines, "Hex representation:", Tone::Plain);
            let ghost head = said(lines@);
            let chunks = hex_lines(text.as_str());
            let mut i: usize = 0;
            while i < chunks.len()
                invariant
                    i <= chunks.len(),
                    said(lines@) =~= head + chunks@.take(i as int).map_values(
                        |chunk: String| plain(chunk@),
                    ),
                decreases chunks.len() - i,
            {
                say_str(&mut lines, chunks[i].as_str(), Tone::Plain);
                i = i + 1;
            }
            proof {
                assert(chunks@.take(i as int) =~= chunks@);
                assert(chunks@.map_values(|chunk: String| plain(chunk@)) =~= text_lines(text@));
            }
            turn_end(lines)
        },
        (_, Event::Loaded(Err(error))) => turn_fail(error),
        _ => turn_end(no_lines()),
    }
}

/// How a command to export a token goes on.
pub open spec fn export_goes_on(session: Session, event: Event, turn: Turn) -> bool {
    match (session, event) {
        (Session::ExportLoading { .. }, Event::Loaded(Err(error))) => fails(turn, error),
        (Session::ExportLoading { id, path, forget }, Event::Loaded(Ok(stored))) => {
            let value = token_value(stored.token);
            let head = seq![
                bold(about("Exporting Credit Token (ID: "@, id, ")"@)),
                number_line("Value: "@, value as nat),
            ];
            match token_encoding(stored.token) {
                Err(fault) => fails_to_encode(turn, head, fault),
                Ok(bytes) => {
                    &&& said(turn.lines@) =~= head
                    &&& turn.next matches Next::Act(Action::Write(text), at)
                    &&& text@ == hex_text(bytes)
                    &&& at == Session::ExportWriting { id, path, value, forget }
                },
            }
        },
        (Session::ExportWriting { .. }, Event::Written(Err(error))) => fails(turn, error),
        (Session::ExportWriting { id, path, value, forget }, Event::Written(Ok(_))) => {
            let done = good("Token successfully exported to "@ + path@);
            if !forget {
                ends(turn, seq![done])
            } else if value > 0 {
                acts(
                    turn,
                    seq![
                        done,
                        warning(
                            "Warning: This token has "@ + decimal(value as nat)
                                + " credits that will be forgotten."@,
                        ),
                    ],
                    Action::Delete(id),
                    Session::ExportDeleting { id },
                )
            } else {
                acts(turn, seq![done], Action::Delete(id), Session::ExportDeleting { id })
            }
        },
        (Session::ExportDeleting { id }, Event::Deleted(Ok(_))) => ends(
            turn,
            seq![good(about("Token with ID "@, id, " has been forgotten after export."@))],
        ),
        (Session::ExportDeleting { id }, Event::Deleted(Err(error))) => ends(
            turn,
            seq![bad(about_error("Error: Failed to forget token with ID "@, id, error))],
        ),
        _ => false,
    }
}

pub(crate) fn advance_export(session: Session, event: Event) -> (turn: Turn)
    requires
        fits(session, event),
        session is ExportLoading || session is ExportWriting || session is ExportDeleting,
    ensures
        export_goes_on(session, event, turn),
{
    let mut lines = no_lines();
    match (session, event) {
        (Session::ExportLoading { id, path, forget }, Event::Loaded(Ok(stored))) => {
            let value: u128 = stored.token.get_value();
            say(&mut lines, about_text("Exporting Credit Token (ID: ", id, ")"), Tone::Bold);
            say_number(&mut lines, "Value: ", value);
            match export_token(&stored.token) {
                Ok(text) => turn_act(
                    lines,
                    Action::Write(text),
                    Session::ExportWriting { id, path, value, forget },
                ),
                Err(error) => Turn { lines, next: Next::End(Err(error)) },
            }
        },
        (Session::ExportWriting { id, path, value, forget }, Event::Written(Ok(_))) => {
            say(
                &mut lines,
                join2("Token successfully exported to ", path.as_str()),
                Tone::Good,
            );
            if !forget {
                return turn_end(lines);
            }
            if value > 0 {
                say(
                    &mut lines,
                    join3(
                        "Warning: This token has ",
                        decimal_text(value).as_str(),
                        " credits that will be forgotten.",
                    ),
                    Tone::Warning,
                );
            }
            turn_act(lines, Action::Delete(id), Session::ExportDeleting { id })
        },
        (Session::ExportDeleting { id }, Event::Deleted(Ok(_))) => {
            say(
                &mut lines,
                about_text("Token with ID ", id, " has been forgotten after export."),
                Tone::Good,
            );
            turn_end(lines)
        },
        (Session::ExportDeleting { id }, Event::Deleted(Err(error))) => {
            say(
                &mut lines,
                about_error_text("Error: Failed to forget token with ID ", id, &error),
                Tone::Bad,
            );
            turn_end(lines)
        },
        (_, Event::Loaded(Err(error))) => turn_fail(error),
        (_, Event::Written(Err(error))) => turn_fail(error),
        _ => turn_end(lines),
    }
}

/// How a command to import a token goes on.
pub open spec fn import_goes_on(session: Session, event: Event, turn: Turn) -> bool {
    match (session, event) {
        (Session::ImportReading { .. }, Event::Read(Err(error))) => fails(turn, error),
        (Session::ImportReading { anonymize }, Event::Read(Ok(text))) => exists|
            read: Result<CreditToken, ClientError>,
        |
            {
                &&& #[trigger] imports(encode_utf8(trimmed(text@)), read)
                &&& match read {
                    Err(error) => fails(turn, error),
                    Ok(token) => if anonymize {
                        acts(
                            turn,
                            seq![plain("Anonymizing token by spending 0 credits..."@)],
                            Action::Perform(Operation::Spend { token, amount: 0 }),
                            Session::ImportAnonymizing { value: token_value(token) },
                        )
                    } else {
                        acts(
                            turn,
                            seq![],
                            Action::Store(token),
                            Session::ImportStoring { value: token_value(token) },
                        )
                    },
                }
            },
        (Session::ImportAnonymizing { .. }, Event::Performed(Err(error))) => fails(turn, error),
        (Session::ImportAnonymizing { value }, Event::Performed(Ok(Outcome::Token(token)))) => acts(
            turn,
            seq![good("Token successfully anonymized!"@)],
            Action::Store(token),
            Session::ImportStoring { value },
        ),
        (Session::ImportStoring { .. }, Event::Stored(Err(error))) => fails(turn, error),
        (Session::ImportStoring { value }, Event::Stored(Ok(id))) => ends(
            turn,
            seq![
                good("Successfully imported credit token!"@),
                id_line("New Token ID: "@, id),
                number_line("Token Value: "@, value as nat),
            ],
        ),
        _ => false,
    }
}

pub(crate) fn advance_import(session: Session, event: Event) -> (turn: Turn)
    requires
        fits(session, event),
        session is ImportReading || session is ImportAnonymizing || session is ImportStoring,
    ensures
        import_goes_on(session, event, turn),
{
    let mut lines = no_lines();
    match (session, event) {
        (Session::ImportReading { anonymize }, Event::Read(Ok(text))) => {
            let read = import_token(text.as_str());
            let ghost outcome = read;
            assert(imports(encode_utf8(trimmed(text@)), outcome));
            match read {
                Err(error) => turn_fail(error),
                Ok(token) => {
                    let value: u128 = token.get_value();
                    if anonymize {
                        say_str(
                            &mut lines,
                            "Anonymizing token by spending 0 credits...",
                            Tone::Plain,
                        );
                        return turn_act(
                            lines,
                            Action::Perform(Operation::Spend { token, amount: 0 }),
                            Session::ImportAnonymizing { value },
                        );
                    }
                    turn_act(lines, Action::Store(token), Session::ImportStoring { value })
                },
            }
        },
        (Session::ImportAnonymizing { value }, Event::Performed(Ok(Outcome::Token(token)))) => {
            say_str(&mut lines, "Token successfully anonymized!", Tone::Good);
            turn_act(lines, Action::Store(token), Session::ImportStoring { value })
        },
        (Session::ImportStoring { value }, Event::Stored(Ok(id))) => {
            say_str(&mut lines, "Successfully imported credit token!", Tone::Good);
            say_id(&mut lines, "New Token ID: ", id);
            say_number(&mut lines, "Token Value: ", value);
            turn_end(lines)
        },
        (_, Event::Read(Err(error))) => turn_fail(error),
        (_, Event::Performed(Err(error))) => turn_fail(error),
        (_, Event::Stored(Err(error))) => turn_fail(error),
        _ => turn_end(lines),
    }
}

/// The warning before a token is deleted for good.
pub open spec fn forget_warning(value: nat) -> Seq<char> {
    if value > 0 {
        "Warning: This token has "@ + decimal(value) + " credits that will be permanently lost."@
    } else {
        "This token will be permanently removed from your database."@
    }
}

/// How a command to forget a token goes on.
pub open spec fn forget_goes_on(session: Session, event: Event, turn: Turn) -> bool {
    match (session, event) {
        (Session::ForgetLoading { id }, Event::Loaded(Err(error))) => ends(
            turn,
            seq![bad(about_error("Error: Could not find token with ID "@, id, error))],
        ),
        (Session::ForgetLoading { id }, Event::Loaded(Ok(stored))) => asks(
            turn,
            introduction(about("Token to forget (ID: "@, id, ")"@), stored) + seq![
                rule(),
                warning(forget_warning(token_value(stored.token) as nat)),
            ],
            about("Are you sure you want to forget token "@, id, "?"@),
            false,
            Session::ForgetConfirming { id },
        ),
        (Session::ForgetConfirming { .. }, Event::Confirmed(Err(error))) => fails(turn, error),
        (Session::ForgetConfirming { .. }, Event::Confirmed(Ok(false))) => ends(turn, cancelled()),
        (Session::ForgetConfirming { id }, Event::Confirmed(Ok(true))) => acts(
            turn,
            seq![],
            Action::Delete(id),
            Session::ForgetDeleting { id },
        ),
        (Session::ForgetDeleting { id }, Event::Deleted(Ok(_))) => ends(
            turn,
            seq![good(about("Token with ID "@, id, " has been forgotten."@))],
        ),
        (Session::ForgetDeleting { id }, Event::Deleted(Err(error))) => ends(
            turn,
            seq![bad(about_error("Error: Failed to forget token with ID "@, id, error))],
        ),
        _ => false,
    }
}

pub(crate) fn advance_forget(session: Session, event: Event) -> (turn: Turn)
    requires
        fits(session, event),
        session is ForgetLoading || session is ForgetConfirming || session is ForgetDeleting,
    ensures
        forget_goes_on(session, event, turn),
{
    let mut lines = no_lines();
    match (session, event) {
        (Session::ForgetLoading { id }, Event::Loaded(Err(error))) => {
            say(
                &mut lines,
                about_error_text("Error: Could not find token with ID ", id, &error),
                Tone::Bad,
            );
            turn_end(lines)
        },
        (Session::ForgetLoading { id }, Event::Loaded(Ok(stored))) => {
            let mut intro = introduce(about_text("Token to forget (ID: ", id, ")"), &stored);
            let value: u128 = stored.token.get_value();
            say_rule(&mut intro);
            if value > 0 {
                say(
                    &mut intro,
                    join3(
                        "Warning: This token has ",
                        decimal_text(value).as_str(),
                        " credits that will be permanently lost.",
                    ),
                    Tone::Warning,
                );
            } else {
                say_str(
                    &mut intro,
                    "This token will be permanently removed from your database.",
                    Tone::Warning,
                );
            }
            let prompt = about_text("Are you sure you want to forget token ", id, "?");
            turn_act(intro, Action::Confirm(prompt, false), Session::ForgetConfirming { id })
        },
        (Session::ForgetConfirming { id }, Event::Confirmed(Ok(yes))) => {
            if !yes {
                say_str(&mut lines, "Operation cancelled.", Tone::Plain);
                return turn_end(lines);
            }
            turn_act(lines, Action::Delete(id), Session::ForgetDeleting { id })
        },
        (Session::ForgetDeleting { id }, Event::Deleted(Ok(_))) => {
            say(
                &mut lines,
                about_text("Token with ID ", id, " has been forgotten."),
                Tone::Good,
            );
            turn_end(lines)
        },
        (Session::ForgetDeleting { id }, Event::Deleted(Err(error))) => {
            say(
                &mut lines,
                about_error_text("Error: Failed to forget token with ID ", id, &error),
                Tone::Bad,
            );
            turn_end(lines)
        },
        (_, Event::Confirmed(Err(error))) => turn_fail(error),
        _ => turn_end(lines),
    }
}

/// How a command to check a token's nullifier goes on.
pub open spec fn check_goes_on(session: Session, event: Event, turn: Turn) -> bool {
    match (session, event) {
        (Session::CheckLoading { id }, Event::Loaded(Err(error))) => ends(
            turn,
            seq![bad(about_error("Error: Could not find token with ID "@, id, error))],
        ),
        (Session::CheckLoading { id }, Event::Loaded(Ok(stored))) => {
            &&& said(turn.lines@) =~= introduction(
                about("Checking token (ID: "@, id, ")"@),
                stored,
            ) + seq![rule()]
            &&& turn.next matches Next::Act(Action::CheckNullifier(nullifier), Session::Checking)
            &&& nullifier@ == token_nullifier(stored.token)
        },
        (Session::Checking, Event::Performed(Ok(Outcome::NullifierSpent(true)))) => ends(
            turn,
            seq![
                warning("Token's nullifier has been spent."@),
                warning("Warning: This token cannot be spent and may be invalid."@),
            ],
        ),
        (Session::Checking, Event::Performed(Ok(Outcome::NullifierSpent(false)))) => ends(
            turn,
            seq![
                good("Token's nullifier has not been spent."@),
                good("The token appears to be valid and can be spent."@),
            ],
        ),
        (Session::Checking, Event::Performed(Err(error))) => ends(
            turn,
            seq![bad("Error checking nullifier status: "@ + error.text())],
        ),
        _ => false,
    }
}

pub(crate) fn advance_check(session: Session, event: Event) -> (turn: Turn)
    requires
        fits(session, event),
        session is CheckLoading || session is Checking,
    ensures
        check_goes_on(session, event, turn),
{
    let mut lines = no_lines();
    match (session, event) {
        (Session::CheckLoading { id }, Event::Loaded(Err(error))) => {
            say(
                &mut lines,
                about_error_text("Error: Could not find token with ID ", id, &error),
                Tone::Bad,
            );
            turn_end(lines)
        },
        (Session::CheckLoading { id }, Event::Loaded(Ok(stored))) => {
            let mut intro = introduce(about_text("Checking token (ID: ", id, ")"), &stored);
            say_rule(&mut intro);
            turn_act(
                intro,
                Action::CheckNullifier(nullifier_bytes(&stored.token)),
                Session::Checking,
            )
        },
        (Session::Checking, Event::Performed(Ok(Outcome::NullifierSpent(spent)))) => {
            if spent {
                say_str(&mut lines, "Token's nullifier has been spent.", Tone::Warning);
                say_str(
                    &mut lines,
                    "Warning: This token cannot be spent and may be invalid.",
                    Tone::Warning,
                );
            } else {
                say_str(&mut lines, "Token's nullifier has not been spent.", Tone::Good);
                say_str(
                    &mut lines,
                    "The token appears to be valid and can be spent.",
                    Tone::Good,
                );
            }
            turn_end(lines)
        },
        (Session::Checking, Event::Performed(Err(error))) => {
            say(
                &mut lines,
                join2("Error checking nullifier status: ", error.message().as_str()),
                Tone::Bad,
            );
            turn_end(lines)
        },
        _ => turn_end(lines),
    }
}

/// The lines for what the server has recorded.
pub open spec fn statistics(nullifiers: nat, pow_hashes: nat, detailed: bool) -> Seq<
    (Seq<char>, Tone),
> {
    let between = if detailed {
        seq![rule()]
    } else {
        seq![]
    };
    seq![
        bold("Database Statistics"@),
        rule(),
        number_line("Nullifiers: "@, nullifiers),
        number_line("Proof-of-Work Hashes: "@, pow_hashes),
    ] + between + seq![number_line("Total Entries: "@, nullifiers + pow_hashes)]
}

/// How a command to show what the server has recorded goes on.
pub open spec fn stats_goes_on(session: Session, event: Event, turn: Turn) -> bool {
    match (session, event) {
        (Session::Counting { detailed }, Event::Counted(Ok((nullifiers, pow_hashes)))) => ends(
            turn,
            statistics(nullifiers as nat, pow_hashes as nat, detailed),
        ),
        (Session::Counting { .. }, Event::Counted(Err(error))) => ends(
            turn,
            seq![bad("Error retrieving database statistics: "@ + error.text())],
        ),
        _ => false,
    }
}

pub(crate) fn advance_stats(session: Session, event: Event) -> (turn: Turn)
    requires
        fits(session, event),
        session is Counting,
    ensures
        stats_goes_on(session, event, turn),
{
    let mut lines = no_lines();
    match (session, event) {
        (Session::Counting { detailed }, Event::Counted(Ok((nullifiers, pow_hashes)))) => {
            say_str(&mut lines, "Database Statistics", Tone::Bold);
            say_rule(&mut lines);
            say_number(&mut lines, "Nullifiers: ", nullifiers as u128);
            say_number(&mut lines, "Proof-of-Work Hashes: ", pow_hashes as u128);
            if detailed {
                say_rule(&mut lines);
            }
            say_number(&mut lines, "Total Entries: ", nullifiers as u128 + pow_hashes as u128);
        },
        (_, Event::Counted(Err(error))) => {
            say(
                &mut lines,
                join2("Error retrieving database statistics: ", error.message().as_str()),
                Tone::Bad,
            );
        },
        _ => {},
    }
    turn_end(lines)
}

} // verus!
