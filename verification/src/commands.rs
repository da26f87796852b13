//! The commands of the command line: what is said to the user, and in which order tokens are
//! loaded, used, stored and deleted.
//!
//! A command runs in turns. Each turn says something and then either asks its caller for one
//! action, and wants to hear how it went, or ends the command.

pub mod laws;
pub mod lines;
pub mod many;
pub mod session;
pub mod single;
pub mod worth;

pub use lines::{Line, Tone};
pub use session::{
    accepts, token_not_found, touched, Action, Command, Event, Next, Session, StoredToken, Turn,
};

use crate::client::{Operation, Outcome};
use crate::text::{decimal, decimal_text, join3};
use anonymous_credit_tokens::CreditToken;
use lines::{bad, bold, no_lines, plain, rule, said, say, say_rule, say_str};
use many::{advance_combine, advance_split, combine_goes_on, split_goes_on};
use session::{acts, cancelled, ends, fits, turn_act, turn_end};
use single::{
    advance_check, advance_export, advance_forget, advance_import, advance_issue, advance_list,
    advance_show, advance_spend, advance_stats, check_goes_on, export_goes_on, forget_goes_on,
    import_goes_on, issue_goes_on, list_goes_on, show_goes_on, spend_goes_on, stats_goes_on,
};
use vstd::prelude::*;

verus! {

/// Whether a turn is the right one to begin a command with.
pub open spec fn begins(command: Command, turn: Turn) -> bool {
    match command {
        Command::Issue { bits } => acts(
            turn,
            seq![
                plain(
                    "Issuing a new credit token with "@ + decimal(bits as nat)
                        + " proof of work bits..."@,
                ),
                plain("This may take some time depending on the difficulty..."@),
            ],
            Action::Perform(Operation::Issue { bits }),
            Session::Issuing,
        ),
        Command::List { show_zero } => acts(
            turn,
            seq![],
            Action::LoadAll,
            Session::Listing { show_zero },
        ),
        Command::Spend { id, amount } => acts(
            turn,
            seq![],
            Action::Load(id),
            Session::SpendLoading { id, amount },
        ),
        Command::Show { id } => acts(turn, seq![], Action::Load(id), Session::Showing { id }),
        Command::Export { id, path, forget } => acts(
            turn,
            seq![],
            Action::Load(id),
            Session::ExportLoading { id, path, forget },
        ),
        Command::Import { anonymize } => acts(
            turn,
            seq![],
            Action::Read,
            Session::ImportReading { anonymize },
        ),
        Command::Combine { ids } => if ids.len() == 0 {
            ends(turn, seq![bad("Error: No token IDs provided to combine"@)])
        } else if ids.len() < 2 {
            ends(turn, seq![bad("Error: At least two tokens are required for combining"@)])
        } else {
            &&& said(turn.lines@) =~= seq![bold("Tokens to combine:"@), rule()]
            &&& turn.next matches Next::Act(
                Action::Load(first),
                Session::CombineLoading { ids: all, tokens, sum },
            )
            &&& first == ids@[0]
            &&& all == ids
            &&& tokens@ == Seq::<CreditToken>::empty()
            &&& sum == 0
        },
        Command::Split { id, amounts } => if amounts.len() == 0 {
            ends(turn, seq![bad("Error: No amounts provided for splitting"@)])
        } else {
            acts(turn, seq![], Action::Load(id), Session::SplitLoading { id, amounts })
        },
        Command::Forget { id } => acts(
            turn,
            seq![],
            Action::Load(id),
            Session::ForgetLoading { id },
        ),
        Command::CheckNullifier { id } => acts(
            turn,
            seq![],
            Action::Load(id),
            Session::CheckLoading { id },
        ),
        Command::Stats { detailed } => acts(
            turn,
            seq![bold("Retrieving database statistics..."@)],
            Action::Count,
            Session::Counting { detailed },
        ),
    }
}

/// Begins a command.
pub fn begin(command: Command) -> (turn: Turn)
    ensures
        begins(command, turn),
{
    let mut lines = no_lines();
    match command {
        Command::Issue { bits } => {
            say(
                &mut lines,
                join3(
                    "Issuing a new credit token with ",
                    decimal_text(bits as u128).as_str(),
                    " proof of work bits...",
                ),
                Tone::Plain,
            );
            say_str(
                &mut lines,
                "This may take some time depending on the difficulty...",
                Tone::Plain,
            );
            turn_act(lines, Action::Perform(Operation::Issue { bits }), Session::Issuing)
        },
        Command::List { show_zero } => turn_act(
            lines,
            Action::LoadAll,
            Session::Listing { show_zero },
        ),
        Command::Spend { id, amount } => turn_act(
            lines,
            Action::Load(id),
            Session::SpendLoading { id, amount },
        ),
        Command::Show { id } => turn_act(lines, Action::Load(id), Session::Showing { id }),
        Command::Export { id, path, forget } => turn_act(
            lines,
            Action::Load(id),
            Session::ExportLoading { id, path, forget },
        ),
        Command::Import { anonymize } => turn_act(
            lines,
            Action::Read,
            Session::ImportReading { anonymize },
        ),
        Command::Combine { ids } => {
            if ids.len() == 0 {
                say_str(&mut lines, "Error: No token IDs provided to combine", Tone::Bad);
                return turn_end(lines);
            }
            if ids.len() < 2 {
                say_str(
                    &mut lines,
                    "Error: At least two tokens are required for combining",
                    Tone::Bad,
                );
                return turn_end(lines);
            }
            say_str(&mut lines, "Tokens to combine:", Tone::Bold);
            say_rule(&mut lines);
            let first: i64 = ids[0];
            turn_act(
                lines,
                Action::Load(first),
                Session::CombineLoading { ids, tokens: Vec::new(), sum: 0 },
            )
        },
        Command::Split { id, amounts } => {
            if amounts.len() == 0 {
                say_str(&mut lines, "Error: No amounts provided for splitting", Tone::Bad);
                return turn_end(lines);
            }
            turn_act(lines, Action::Load(id), Session::SplitLoading { id, amounts })
        },
        Command::Forget { id } => turn_act(lines, Action::Load(id), Session::ForgetLoading { id }),
        Command::CheckNullifier { id } => turn_act(
            lines,
            Action::Load(id),
            Session::CheckLoading { id },
        ),
        Command::Stats { detailed } => {
            say_str(&mut lines, "Retrieving database statistics...", Tone::Bold);
            turn_act(lines, Action::Count, Session::Counting { detailed })
        },
    }
}

/// Whether a turn is the right one for a session after an event.
pub open spec fn goes_on(session: Session, event: Event, turn: Turn) -> bool {
    match session {
        Session::Issuing | Session::IssueStoring { .. } => issue_goes_on(session, event, turn),
        Session::Listing { .. } => list_goes_on(session, event, turn),
        Session::SpendLoading { .. }
        | Session::SpendConfirming { .. }
        | Session::Spending { .. }
        | Session::SpendUpdating { .. } => spend_goes_on(session, event, turn),
        Session::Showing { .. } => show_goes_on(session, event, turn),
        Session::ExportLoading { .. }
        | Session::ExportWriting { .. }
        | Session::ExportDeleting { .. } => export_goes_on(session, event, turn),
        Session::ImportReading { .. }
        | Session::ImportAnonymizing { .. }
        | Session::ImportStoring { .. } => import_goes_on(session, event, turn),
        Session::CombineLoading { .. }
        | Session::CombineConfirming { .. }
        | Session::Combining { .. }
        | Session::CombineStoring { .. }
        | Session::CombineDeleting { .. } => combine_goes_on(session, event, turn),
        Session::SplitLoading { .. }
        | Session::SplitConfirming { .. }
        | Session::Splitting { .. }
        | Session::SplitStoring { .. }
        | Session::SplitDeleting { .. } => split_goes_on(session, event, turn),
        Session::ForgetLoading { .. }
        | Session::ForgetConfirming { .. }
        | Session::ForgetDeleting { .. } => forget_goes_on(session, event, turn),
        Session::CheckLoading { .. } | Session::Checking => check_goes_on(session, event, turn),
        Session::Counting { .. } => stats_goes_on(session, event, turn),
    }
}

/// Goes on with a command, with how the last action went.
pub fn advance(session: Session, event: Event) -> (turn: Turn)
    requires
        session.sound(),
        fits(session, event),
    ensures
        goes_on(session, event, turn),
{
    match &session {
        Session::Issuing | Session::IssueStoring { .. } => advance_issue(session, event),
        Session::Listing { .. } => advance_list(session, event),
        Session::SpendLoading { .. }
        | Session::SpendConfirming { .. }
        | Session::Spending { .. }
        | Session::SpendUpdating { .. } => advance_spend(session, event),
        Session::Showing { .. } => advance_show(session, event),
        Session::ExportLoading { .. }
        | Session::ExportWriting { .. }
        | Session::ExportDeleting { .. } => advance_export(session, event),
        Session::ImportReading { .. }
        | Session::ImportAnonymizing { .. }
        | Session::ImportStoring { .. } => advance_import(session, event),
        Session::CombineLoading { .. }
        | Session::CombineConfirming { .. }
        | Session::Combining { .. }
        | Session::CombineStoring { .. }
        | Session::CombineDeleting { .. } => advance_combine(session, event),
        Session::SplitLoading { .. }
        | Session::SplitConfirming { .. }
        | Session::Splitting { .. }
        | Session::SplitStoring { .. }
        | Session::SplitDeleting { .. } => advance_split(session, event),
        Session::ForgetLoading { .. }
        | Session::ForgetConfirming { .. }
        | Session::ForgetDeleting { .. } => advance_forget(session, event),
        Session::CheckLoading { .. } | Session::Checking => advance_check(session, event),
        Session::Counting { .. } => advance_stats(session, event),
    }
}

/// Whatever a command remembers hangs together, from its first turn on.
pub proof fn law_sessions_stay_sound(
    command: Command,
    first: Turn,
    session: Session,
    event: Event,
    turn: Turn,
)
    requires
        begins(command, first),
        session.sound(),
        goes_on(session, event, turn),
    ensures
        first.next matches Next::Act(_, next) ==> next.sound(),
        turn.next matches Next::Act(_, next) ==> next.sound(),
{
}

/// A token leaves the database only when nothing is lost by it, or because the user wants it to:
/// once the token that replaces it has been stored, once the last of the tokens that replace it
/// has been stored, once it has been written to a file and is to be forgotten, or once the user
/// has confirmed that it is to be forgotten.
pub proof fn law_tokens_are_deleted_last(session: Session, event: Event, turn: Turn)
    requires
        goes_on(session, event, turn),
        turn.next matches Next::Act(Action::Delete(_), _),
    ensures
        match session {
            Session::CombineStoring { .. } => event matches Event::Stored(Ok(_)),
            Session::CombineDeleting { .. } => true,
            Session::Splitting { .. } => event matches Event::Performed(
                Ok(Outcome::Tokens(tokens)),
            ) && tokens.len() == 0,
            Session::SplitStoring { tokens, next, .. } => event matches Event::Stored(Ok(_))
                && next + 1 >= tokens.len(),
            Session::ExportWriting { forget, .. } => event matches Event::Written(Ok(_)) && forget,
            Session::ForgetConfirming { .. } => event matches Event::Confirmed(Ok(yes)) && yes,
            _ => false,
        },
{
}

/// A question that the user answers with no ends the command, and nothing more is done.
pub proof fn law_no_means_no(session: Session, turn: Turn)
    requires
        goes_on(session, Event::Confirmed(Ok(false)), turn),
    ensures
        ends(turn, cancelled()),
{
}

} // verus!
