//! Lines of text for the user.

use crate::protocol::ClientError;
use crate::text::{decimal, decimal_text, join2, join3, join4, signed_decimal, signed_decimal_text};
use vstd::prelude::*;

verus! {

/// How a line is to look.
#[derive(Clone, Copy, Debug, PartialEq, Eq, Structural)]
pub enum Tone {
    Plain,
    Bold,
    Good,
    Warning,
    Bad,
}

/// A line of text for the user.
pub struct Line {
    pub text: String,
    pub tone: Tone,
}

impl View for Line {
    type V = (Seq<char>, Tone);

    open spec fn view(&self) -> (Seq<char>, Tone) {
        (self.text@, self.tone)
    }
}

/// What some lines say.
pub open spec fn said(lines: Seq<Line>) -> Seq<(Seq<char>, Tone)> {
    lines.map_values(|line: Line| line@)
}

/// A line that separates: fifty dashes.
pub open spec fn rule() -> (Seq<char>, Tone) {
    (Seq::new(50, |i: int| '-'), Tone::Plain)
}

/// A plain line.
pub open spec fn plain(text: Seq<char>) -> (Seq<char>, Tone) {
    (text, Tone::Plain)
}

/// A line that stands out.
pub open spec fn bold(text: Seq<char>) -> (Seq<char>, Tone) {
    (text, Tone::Bold)
}

/// A line with good news.
pub open spec fn good(text: Seq<char>) -> (Seq<char>, Tone) {
    (text, Tone::Good)
}

/// A line with a warning.
pub open spec fn warning(text: Seq<char>) -> (Seq<char>, Tone) {
    (text, Tone::Warning)
}

/// A line with bad news.
pub open spec fn bad(text: Seq<char>) -> (Seq<char>, Tone) {
    (text, Tone::Bad)
}

pub(crate) fn say(lines: &mut Vec<Line>, text: String, tone: Tone)
    ensures
        said(final(lines)@) == said(old(lines)@).push((text@, tone)),
{
    lines.push(Line { text, tone });
    assert(said(lines@) =~= said(old(lines)@).push((text@, tone)));
}

pub(crate) fn say_str(lines: &mut Vec<Line>, text: &str, tone: Tone)
    ensures
        said(final(lines)@) == said(old(lines)@).push((text@, tone)),
{
    say(lines, String::from_str(text), tone)
}

pub(crate) fn say_rule(lines: &mut Vec<Line>)
    ensures
        said(final(lines)@) == said(old(lines)@).push(rule()),
{
    proof {
        reveal_strlit("--------------------------------------------------");
        assert("--------------------------------------------------"@ =~= rule().0);
    }
    say_str(lines, "--------------------------------------------------", Tone::Plain)
}

pub(crate) fn no_lines() -> (lines: Vec<Line>)
    ensures
        said(lines@) == Seq::<(Seq<char>, Tone)>::empty(),
{
    let lines: Vec<Line> = Vec::new();
    assert(said(lines@) =~= Seq::empty());
    lines
}

/// A plain line with a label and a number.
pub open spec fn number_line(label: Seq<char>, number: nat) -> (Seq<char>, Tone) {
    plain(label + decimal(number))
}

/// A plain line with a label and an identifier.
pub open spec fn id_line(label: Seq<char>, id: i64) -> (Seq<char>, Tone) {
    plain(label + signed_decimal(id as int))
}

pub(crate) fn say_number(lines: &mut Vec<Line>, label: &str, number: u128)
    ensures
        said(final(lines)@) == said(old(lines)@).push(number_line(label@, number as nat)),
{
    say(lines, join2(label, decimal_text(number).as_str()), Tone::Plain)
}

pub(crate) fn say_id(lines: &mut Vec<Line>, label: &str, id: i64)
    ensures
        said(final(lines)@) == said(old(lines)@).push(id_line(label@, id)),
{
    say(lines, join2(label, signed_decimal_text(id).as_str()), Tone::Plain)
}

/// The line for the time at which a token was stored, where that is known.
pub open spec fn created_lines(created: Option<String>) -> Seq<(Seq<char>, Tone)> {
    match created {
        Some(time) => seq![plain("Created: "@ + time@)],
        None => seq![],
    }
}

pub(crate) fn say_created(lines: &mut Vec<Line>, created: &Option<String>)
    ensures
        said(final(lines)@) =~= said(old(lines)@) + created_lines(*created),
{
    if let Some(time) = created {
        say(lines, join2("Created: ", time.as_str()), Tone::Plain);
    }
}

/// A text about a token: the words before its identifier, and those behind it.
pub open spec fn about(before: Seq<char>, id: i64, behind: Seq<char>) -> Seq<char> {
    before + signed_decimal(id as int) + behind
}

pub(crate) fn about_text(before: &str, id: i64, behind: &str) -> (text: String)
    ensures
        text@ == about(before@, id, behind@),
{
    join3(before, signed_decimal_text(id).as_str(), behind)
}

/// A text about a token and what went wrong with it.
pub open spec fn about_error(before: Seq<char>, id: i64, error: ClientError) -> Seq<char> {
    about(before, id, ": "@) + error.text()
}

pub(crate) fn about_error_text(before: &str, id: i64, error: &ClientError) -> (text: String)
    ensures
        text@ == about_error(before@, id, *error),
{
    join4(before, signed_decimal_text(id).as_str(), ": ", error.message().as_str())
}

} // verus!
