//! What a trace reports, and the line of text that each report is.

use crate::text;
use crate::text::{decimal_string, quote};
use vstd::prelude::*;

verus! {

/// One end of a transfer.
#[derive(Debug, PartialEq, Eq)]
pub enum Party {
    Variable(String),
    Function(String),
    Nowhere,
}

/// How a value, or access to it, goes from one party to another.
#[derive(Clone, Copy, Debug, PartialEq, Eq, Structural)]
pub enum Transfer {
    Move,
    Copy,
    StaticBorrow,
    MutableBorrow,
    PassByStaticReference,
    PassByMutableReference,
}

/// A line of a trace.
#[derive(Debug, PartialEq, Eq)]
pub enum Event {
    Blank,
    FunctionCall(String),
    AssignExpression(String),
    OnLine(usize),
    Statement(String),
    StatementLine(usize),
    LhsPath(String),
    LhsNotListed,
    InitRefParam(String),
    InitOwnerParam(String),
    Bind(String),
    Transfer { how: Transfer, from: Party, to: Party },
}

/// The view of a [`Party`].
pub enum PartyView {
    Variable(Seq<char>),
    Function(Seq<char>),
    Nowhere,
}

/// The view of an [`Event`].
pub enum EventView {
    Blank,
    FunctionCall(Seq<char>),
    AssignExpression(Seq<char>),
    OnLine(usize),
    Statement(Seq<char>),
    StatementLine(usize),
    LhsPath(Seq<char>),
    LhsNotListed,
    InitRefParam(Seq<char>),
    InitOwnerParam(Seq<char>),
    Bind(Seq<char>),
    Transfer { how: Transfer, from: PartyView, to: PartyView },
}

impl View for Party {
    type V = PartyView;

    open spec fn view(&self) -> PartyView {
        match *self {
            Party::Variable(name) => PartyView::Variable(name@),
            Party::Function(name) => PartyView::Function(name@),
            Party::Nowhere => PartyView::Nowhere,
        }
    }
}

impl View for Event {
    type V = EventView;

    open spec fn view(&self) -> EventView {
        match *self {
            Event::Blank => EventView::Blank,
            Event::FunctionCall(text) => EventView::FunctionCall(text@),
            Event::AssignExpression(text) => EventView::AssignExpression(text@),
            Event::OnLine(line) => EventView::OnLine(line),
            Event::Statement(text) => EventView::Statement(text@),
            Event::StatementLine(line) => EventView::StatementLine(line),
            Event::LhsPath(def_path) => EventView::LhsPath(def_path@),
            Event::LhsNotListed => EventView::LhsNotListed,
            Event::InitRefParam(name) => EventView::InitRefParam(name@),
            Event::InitOwnerParam(name) => EventView::InitOwnerParam(name@),
            Event::Bind(name) => EventView::Bind(name@),
            Event::Transfer { how, from, to } => EventView::Transfer { how, from: from@, to: to@ },
        }
    }
}

impl PartyView {
    /// How the party is written: a function with the brackets of a call.
    pub open spec fn text(self) -> Seq<char> {
        match self {
            PartyView::Variable(name) => name,
            PartyView::Function(name) => name + "()"@,
            PartyView::Nowhere => "none"@,
        }
    }
}

impl Transfer {
    /// The word for the transfer.
    pub open spec fn spec_word(self) -> Seq<char> {
        match self {
            Transfer::Move => "Move"@,
            Transfer::Copy => "Copy"@,
            Transfer::StaticBorrow => "StaticBorrow"@,
            Transfer::MutableBorrow => "MutableBorrow"@,
            Transfer::PassByStaticReference => "PassByStaticReference"@,
            Transfer::PassByMutableReference => "PassByMutableReference"@,
        }
    }

    /// The word for the transfer.
    fn word(self) -> (word: &'static str)
        ensures
            word@ == self.spec_word(),
    {
        match self {
            Transfer::Move => "Move",
            Transfer::Copy => "Copy",
            Transfer::StaticBorrow => "StaticBorrow",
            Transfer::MutableBorrow => "MutableBorrow",
            Transfer::PassByStaticReference => "PassByStaticReference",
            Transfer::PassByMutableReference => "PassByMutableReference",
        }
    }
}

/// The line for a `let` whose pattern is a path, from the path in quotes.
pub open spec fn lhs_path_text(quoted: Seq<char>) -> Seq<char> {
    "lhs path: "@ + quoted
}

impl EventView {
    /// The line of text that the event is.
    pub open spec fn text(self) -> Seq<char> {
        match self {
            EventView::Blank => ""@,
            EventView::FunctionCall(text) => "Function Call: "@ + text,
            EventView::AssignExpression(text) => "Assign Expression: "@ + text,
            EventView::OnLine(line) => "On line: "@ + text::decimal(line as nat),
            EventView::Statement(text) => "Statement: "@ + text,
            EventView::StatementLine(line) => "on line: "@ + text::decimal(line as nat),
            EventView::LhsPath(def_path) => lhs_path_text(text::debug_quoted(def_path)),
            EventView::LhsNotListed => "lhs is not listed"@,
            EventView::InitRefParam(name) => "InitRefParam("@ + name + ")"@,
            EventView::InitOwnerParam(name) => "InitOwnerParam("@ + name + ")"@,
            EventView::Bind(name) => "Bind("@ + name + ")"@,
            EventView::Transfer { how, from, to } => how.spec_word() + "("@ + from.text() + "->"@
                + to.text() + ")"@,
        }
    }
}

/// The three, one behind the other.
fn join(a: &str, b: &str, c: &str) -> (joined: String)
    ensures
        joined@ == a@ + b@ + c@,
{
    let mut joined = a.to_owned();
    joined.append(b);
    joined.append(c);
    joined
}

/// The line for a `let` whose pattern is a path, from the path in quotes.
pub fn lhs_path_line(quoted: &str) -> (line: String)
    ensures
        line@ == lhs_path_text(quoted@),
{
    let mut line = "lhs path: ".to_owned();
    line.append(quoted);
    line
}

impl Party {
    /// How the party is written: a function with the brackets of a call.
    fn text(&self) -> (text: String)
        ensures
            text@ == self@.text(),
    {
        match self {
            Party::Variable(name) => name.as_str().to_owned(),
            Party::Function(name) => {
                let mut text = name.as_str().to_owned();
                text.append("()");
                text
            },
            Party::Nowhere => "none".to_owned(),
        }
    }
}

impl Event {
    /// The line of text that the event is.
    pub fn text(&self) -> (text: String)
        ensures
            text@ == self@.text(),
    {
        proof {
            reveal_strlit("");
        }
        match self {
            Event::Blank => "".to_owned(),
            Event::FunctionCall(text) => join("Function Call: ", text.as_str(), ""),
            Event::AssignExpression(text) => join("Assign Expression: ", text.as_str(), ""),
            Event::OnLine(line) => join("On line: ", decimal_string(*line).as_str(), ""),
            Event::Statement(text) => join("Statement: ", text.as_str(), ""),
            Event::StatementLine(line) => join("on line: ", decimal_string(*line).as_str(), ""),
            Event::LhsPath(def_path) => lhs_path_line(quote(def_path.as_str()).as_str()),
            Event::LhsNotListed => "lhs is not listed".to_owned(),
            Event::InitRefParam(name) => join("InitRefParam(", name.as_str(), ")"),
            Event::InitOwnerParam(name) => join("InitOwnerParam(", name.as_str(), ")"),
            Event::Bind(name) => join("Bind(", name.as_str(), ")"),
            Event::Transfer { how, from, to } => {
                let opening = join(how.word(), "(", from.text().as_str());
                join(opening.as_str(), "->", join(to.text().as_str(), ")", "").as_str())
            },
        }
    }
}

} // verus!
