//! What a command wants done, what it hears of it, and what it remembers in between.

use super::lines::{plain, said, Line, Tone};
use crate::client::{Operation, Outcome};
use crate::protocol::ClientError;
use crate::text::{join3, signed_decimal, signed_decimal_text};
use anonymous_credit_tokens::CreditToken;
use vstd::prelude::*;

verus! {

/// A token as the database of tokens keeps it.
pub struct StoredToken {
    pub id: i64,
    pub token: CreditToken,
    /// When it was stored, where that is known.
    pub created: Option<String>,
}

/// The text for a token that is not in the database.
pub open spec fn not_found(id: i64) -> Seq<char> {
    "Token with ID "@ + signed_decimal(id as int) + " not found"@
}

/// The error for a token that is not in the database.
pub fn token_not_found(id: i64) -> (error: ClientError)
    ensures
        error matches ClientError::Io(detail) && detail@ == not_found(id),
{
    ClientError::Io(join3("Token with ID ", signed_decimal_text(id).as_str(), " not found"))
}

/// Whether a change that touched so many rows went well just where there was a row.
pub open spec fn touches(rows: nat, id: i64, outcome: Result<(), ClientError>) -> bool {
    if rows > 0 {
        outcome is Ok
    } else {
        outcome matches Err(ClientError::Io(detail)) && detail@ == not_found(id)
    }
}

/// How a change to one token in the database went, by the number of rows that it touched.
pub fn touched(rows: usize, id: i64) -> (outcome: Result<(), ClientError>)
    ensures
        touches(rows as nat, id, outcome),
{
    if rows == 0 {
        return Err(token_not_found(id));
    }
    Ok(())
}

/// What the user asks for.
pub enum Command {
    /// Have a token issued for a proof of work.
    Issue { bits: u32 },
    /// List the tokens, those without value only on request.
    List { show_zero: bool },
    /// Spend an amount from a token.
    Spend { id: i64, amount: u128 },
    /// Show a token.
    Show { id: i64 },
    /// Write a token to a file, and forget it on request.
    Export { id: i64, path: String, forget: bool },
    /// Read a token from a file, and exchange it for a fresh one on request.
    Import { anonymize: bool },
    /// Combine tokens into one.
    Combine { ids: Vec<i64> },
    /// Split a token into tokens with the given amounts.
    Split { id: i64, amounts: Vec<u128> },
    /// Delete a token.
    Forget { id: i64 },
    /// Ask the server whether a token has been spent.
    CheckNullifier { id: i64 },
    /// Ask how much the server has recorded. On request the total is set apart.
    Stats { detailed: bool },
}

/// What a command wants done.
pub enum Action {
    /// Load a token from the database.
    Load(i64),
    /// Load all tokens from the database.
    LoadAll,
    /// Ask the user a question, with the answer that counts by default.
    Confirm(String, bool),
    /// Have the client do something with the server.
    Perform(Operation),
    /// Have the client ask the server whether a nullifier has been spent.
    CheckNullifier([u8; 32]),
    /// Put a new token into the database.
    Store(CreditToken),
    /// Put a token in the place of another one in the database.
    Update(i64, CreditToken),
    /// Delete a token from the database.
    Delete(i64),
    /// Write a text to the command's file.
    Write(String),
    /// Read the text of the command's file.
    Read,
    /// Find out how many nullifiers and how many proof of work hashes the server has recorded.
    Count,
}

/// How an action went.
pub enum Event {
    Loaded(Result<StoredToken, ClientError>),
    AllLoaded(Result<Vec<StoredToken>, ClientError>),
    Confirmed(Result<bool, ClientError>),
    Performed(Result<Outcome, ClientError>),
    Stored(Result<i64, ClientError>),
    Updated(Result<(), ClientError>),
    Deleted(Result<(), ClientError>),
    Written(Result<(), ClientError>),
    Read(Result<String, ClientError>),
    /// The number of nullifiers, and that of proof of work hashes.
    Counted(Result<(u64, u64), ClientError>),
}

/// How far a command has come.
pub enum Session {
    Issuing,
    IssueStoring { value: u128 },
    Listing { show_zero: bool },
    SpendLoading { id: i64, amount: u128 },
    SpendConfirming { id: i64, token: CreditToken, amount: u128 },
    Spending { id: i64 },
    SpendUpdating { value: u128 },
    Showing { id: i64 },
    ExportLoading { id: i64, path: String, forget: bool },
    ExportWriting { id: i64, path: String, value: u128, forget: bool },
    ExportDeleting { id: i64 },
    ImportReading { anonymize: bool },
    ImportAnonymizing { value: u128 },
    ImportStoring { value: u128 },
    CombineLoading { ids: Vec<i64>, tokens: Vec<CreditToken>, sum: u128 },
    CombineConfirming { ids: Vec<i64>, tokens: Vec<CreditToken> },
    Combining { ids: Vec<i64> },
    CombineStoring { ids: Vec<i64>, value: u128 },
    CombineDeleting { ids: Vec<i64>, next: usize, all: bool },
    SplitLoading { id: i64, amounts: Vec<u128> },
    SplitConfirming { id: i64, token: CreditToken, amounts: Vec<u128> },
    Splitting { id: i64 },
    SplitStoring { id: i64, tokens: Vec<CreditToken>, next: usize },
    SplitDeleting { id: i64 },
    ForgetLoading { id: i64 },
    ForgetConfirming { id: i64 },
    ForgetDeleting { id: i64 },
    CheckLoading { id: i64 },
    Checking,
    Counting { detailed: bool },
}

impl Session {
    /// Whether what a session remembers hangs together.
    pub open spec fn sound(&self) -> bool {
        match self {
            Session::CombineLoading { ids, tokens, .. } => tokens.len() < ids.len(),
            Session::CombineConfirming { ids, .. } => ids.len() > 0,
            Session::Combining { ids } => ids.len() > 0,
            Session::CombineStoring { ids, .. } => ids.len() > 0,
            Session::CombineDeleting { ids, next, .. } => next < ids.len(),
            Session::SplitStoring { tokens, next, .. } => next < tokens.len(),
            _ => true,
        }
    }

    fn hangs_together(&self) -> (yes: bool)
        ensures
            yes == self.sound(),
    {
        match self {
            Session::CombineLoading { ids, tokens, .. } => tokens.len() < ids.len(),
            Session::CombineConfirming { ids, .. } => ids.len() > 0,
            Session::Combining { ids } => ids.len() > 0,
            Session::CombineStoring { ids, .. } => ids.len() > 0,
            Session::CombineDeleting { ids, next, .. } => *next < ids.len(),
            Session::SplitStoring { tokens, next, .. } => *next < tokens.len(),
            _ => true,
        }
    }
}

/// What comes after the lines of a turn.
pub enum Next {
    /// Do this, and come back with how it went.
    Act(Action, Session),
    /// The command is over.
    End(Result<(), ClientError>),
}

/// One turn of a command.
pub struct Turn {
    pub lines: Vec<Line>,
    pub next: Next,
}

/// Whether a turn says these lines and wants this done.
pub open spec fn acts(
    turn: Turn,
    lines: Seq<(Seq<char>, Tone)>,
    action: Action,
    session: Session,
) -> bool {
    said(turn.lines@) =~= lines && turn.next == Next::Act(action, session)
}

/// Whether a turn says these lines and puts this question to the user.
pub open spec fn asks(
    turn: Turn,
    lines: Seq<(Seq<char>, Tone)>,
    prompt: Seq<char>,
    default: bool,
    session: Session,
) -> bool {
    &&& said(turn.lines@) =~= lines
    &&& turn.next matches Next::Act(Action::Confirm(question, answer), at)
    &&& question@ == prompt
    &&& answer == default
    &&& at == session
}

/// Whether a turn says these lines and ends the command.
pub open spec fn ends(turn: Turn, lines: Seq<(Seq<char>, Tone)>) -> bool {
    said(turn.lines@) =~= lines && turn.next == Next::End(Ok(()))
}

/// Whether a turn says nothing and ends the command with an error.
pub open spec fn fails(turn: Turn, error: ClientError) -> bool {
    said(turn.lines@) =~= Seq::<(Seq<char>, Tone)>::empty() && turn.next == Next::End(Err(error))
}

/// What is said when the user does not go through with a command.
pub open spec fn cancelled() -> Seq<(Seq<char>, Tone)> {
    seq![plain("Operation cancelled."@)]
}

pub(crate) fn turn_act(lines: Vec<Line>, action: Action, session: Session) -> (turn: Turn)
    ensures
        turn.lines@ == lines@,
        turn.next == Next::Act(action, session),
{
    Turn { lines, next: Next::Act(action, session) }
}

pub(crate) fn turn_end(lines: Vec<Line>) -> (turn: Turn)
    ensures
        ends(turn, said(lines@)),
{
    Turn { lines, next: Next::End(Ok(())) }
}

pub(crate) fn turn_fail(error: ClientError) -> (turn: Turn)
    ensures
        fails(turn, error),
{
    let lines: Vec<Line> = Vec::new();
    assert(said(lines@) =~= Seq::empty());
    Turn { lines, next: Next::End(Err(error)) }
}

/// Whether an outcome is a token.
pub open spec fn is_token(performed: Result<Outcome, ClientError>) -> bool {
    performed matches Ok(outcome) ==> outcome is Token
}

/// Whether an event is one that the action of a session can have.
pub open spec fn fits(session: Session, event: Event) -> bool {
    match session {
        Session::Issuing => event matches Event::Performed(performed) && is_token(performed),
        Session::IssueStoring { .. } => event is Stored,
        Session::Listing { .. } => event is AllLoaded,
        Session::SpendLoading { .. } => event is Loaded,
        Session::SpendConfirming { .. } => event is Confirmed,
        Session::Spending { .. } => event matches Event::Performed(performed) && is_token(performed),
        Session::SpendUpdating { .. } => event is Updated,
        Session::Showing { .. } => event is Loaded,
        Session::ExportLoading { .. } => event is Loaded,
        Session::ExportWriting { .. } => event is Written,
        Session::ExportDeleting { .. } => event is Deleted,
        Session::ImportReading { .. } => event is Read,
        Session::ImportAnonymizing { .. } => event matches Event::Performed(performed) && is_token(
            performed,
        ),
        Session::ImportStoring { .. } => event is Stored,
        Session::CombineLoading { .. } => event is Loaded,
        Session::CombineConfirming { .. } => event is Confirmed,
        Session::Combining { .. } => event matches Event::Performed(performed) && is_token(
            performed,
        ),
        Session::CombineStoring { .. } => event is Stored,
        Session::CombineDeleting { .. } => event is Deleted,
        Session::SplitLoading { .. } => event is Loaded,
        Session::SplitConfirming { .. } => event is Confirmed,
        Session::Splitting { .. } => {
            &&& event matches Event::Performed(performed)
            &&& performed matches Ok(outcome) ==> outcome is Tokens
        },
        Session::SplitStoring { .. } => event is Stored,
        Session::SplitDeleting { .. } => event is Deleted,
        Session::ForgetLoading { .. } => event is Loaded,
        Session::ForgetConfirming { .. } => event is Confirmed,
        Session::ForgetDeleting { .. } => event is Deleted,
        Session::CheckLoading { .. } => event is Loaded,
        Session::Checking => {
            &&& event matches Event::Performed(performed)
            &&& performed matches Ok(outcome) ==> outcome is NullifierSpent
        },
        Session::Counting { .. } => event is Counted,
    }
}

pub(crate) fn gives_token(performed: &Result<Outcome, ClientError>) -> (yes: bool)
    ensures
        yes == is_token(*performed),
{
    match performed {
        Ok(Outcome::Token(_)) => true,
        Ok(_) => false,
        Err(_) => true,
    }
}

pub(crate) fn gives_tokens(performed: &Result<Outcome, ClientError>) -> (yes: bool)
    ensures
        yes == (performed matches Ok(outcome) ==> outcome is Tokens),
{
    match performed {
        Ok(Outcome::Tokens(_)) => true,
        Ok(_) => false,
        Err(_) => true,
    }
}

/// Whether `advance` takes an event for a session: what the session remembers hangs together, and
/// its action can have gone this way.
pub fn accepts(session: &Session, event: &Event) -> (yes: bool)
    ensures
        yes == (session.sound() && fits(*session, *event)),
{
    if !session.hangs_together() {
        return false;
    }
    match (session, event) {
        (
            Session::Issuing
            | Session::Spending { .. }
            | Session::ImportAnonymizing { .. }
            | Session::Combining { .. },
            Event::Performed(performed),
        ) => gives_token(performed),
        (
            Session::IssueStoring { .. }
            | Session::ImportStoring { .. }
            | Session::CombineStoring { .. }
            | Session::SplitStoring { .. },
            Event::Stored(_),
        ) => true,
        (Session::Listing { .. }, Event::AllLoaded(_)) => true,
        (
            Session::SpendLoading { .. }
            | Session::Showing { .. }
            | Session::ExportLoading { .. }
            | Session::CombineLoading { .. }
            | Session::SplitLoading { .. }
            | Session::ForgetLoading { .. }
            | Session::CheckLoading { .. },
            Event::Loaded(_),
        ) => true,
        (
            Session::SpendConfirming { .. }
            | Session::CombineConfirming { .. }
            | Session::SplitConfirming { .. }
            | Session::ForgetConfirming { .. },
            Event::Confirmed(_),
        ) => true,
        (Session::SpendUpdating { .. }, Event::Updated(_)) => true,
        (Session::ExportWriting { .. }, Event::Written(_)) => true,
        (
            Session::ExportDeleting { .. }
            | Session::CombineDeleting { .. }
            | Session::SplitDeleting { .. }
            | Session::ForgetDeleting { .. },
            Event::Deleted(_),
        ) => true,
        (Session::ImportReading { .. }, Event::Read(_)) => true,
        (Session::Counting { .. }, Event::Counted(_)) => true,
        (Session::Splitting { .. }, Event::Performed(performed)) => gives_tokens(performed),
        (Session::Checking, Event::Performed(performed)) => match performed {
            Ok(Outcome::NullifierSpent(_)) => true,
            Ok(_) => false,
            Err(_) => true,
        },
        _ => false,
    }
}

} // verus!
