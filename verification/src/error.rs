//! What can go wrong while declaring flags or parsing arguments.

use vstd::prelude::*;
use vstd::string::StringExecFns;

verus! {

/// A failure, over the characters of the names and tokens involved.
pub enum Failure {
    /// A declaration that is not of one of the accepted forms.
    InvalidSpec(Seq<char>),
    /// A flag that was never declared.
    UnknownFlag(Seq<char>),
    /// A flag that was given twice.
    DuplicateFlag(Seq<char>),
    /// A flag that needs a parameter and has none.
    MissingParameter(Seq<char>),
    /// A flag that takes no parameter, and the value that follows it.
    UnexpectedParameter(Seq<char>, Seq<char>),
    /// A flag that comes after the first leftover value.
    UnexpectedFlag(Seq<char>),
}

/// A failure as the parser reports it. Flags are given by name, without
/// their dashes; a declaration is given as it was written.
#[derive(Debug, Clone, PartialEq, Eq)]
pub enum ParseError {
    /// A declaration that is not of one of the accepted forms.
    InvalidSpec(String),
    /// A flag that was never declared.
    UnknownFlag(String),
    /// A flag that was given twice.
    DuplicateFlag(String),
    /// A flag that needs a parameter and has none.
    MissingParameter(String),
    /// A flag that takes no parameter, and the value that follows it.
    UnexpectedParameter(String, String),
    /// A flag that comes after the first leftover value.
    UnexpectedFlag(String),
}

impl View for ParseError {
    type V = Failure;

    open spec fn view(&self) -> Failure {
        match self {
            ParseError::InvalidSpec(s) => Failure::InvalidSpec(s@),
            ParseError::UnknownFlag(s) => Failure::UnknownFlag(s@),
            ParseError::DuplicateFlag(s) => Failure::DuplicateFlag(s@),
            ParseError::MissingParameter(s) => Failure::MissingParameter(s@),
            ParseError::UnexpectedParameter(s, v) => Failure::UnexpectedParameter(s@, v@),
            ParseError::UnexpectedFlag(s) => Failure::UnexpectedFlag(s@),
        }
    }
}

/// The text that describes a failure.
pub open spec fn describe(f: Failure) -> Seq<char> {
    match f {
        Failure::InvalidSpec(s) => "Illegal flag specification: "@ + s,
        Failure::UnknownFlag(name) => "Invalid flag specified: "@ + name + "."@,
        Failure::DuplicateFlag(name) => "Duplicate flag found: "@ + name,
        Failure::MissingParameter(name) => "Flag \""@ + name
            + "\" needs to have a parameter, none found."@,
        Failure::UnexpectedParameter(name, value) => "Flag \""@ + name
            + "\" must not have a parameter, \""@ + value + "\" found."@,
        Failure::UnexpectedFlag(name) => "Unexpected flag: \""@ + name + "\"."@,
    }
}

impl ParseError {
    /// A sentence that says what went wrong. Names and values stand in it
    /// as they were given.
    pub fn message(&self) -> (text: String)
        ensures
            text@ == describe(self@),
    {
        match self {
            ParseError::InvalidSpec(s) => {
                let mut text = String::from_str("Illegal flag specification: ");
                text.append(s.as_str());
                text
            },
            ParseError::UnknownFlag(name) => {
                let mut text = String::from_str("Invalid flag specified: ");
                text.append(name.as_str());
                text.append(".");
                text
            },
            ParseError::DuplicateFlag(name) => {
                let mut text = String::from_str("Duplicate flag found: ");
                text.append(name.as_str());
                text
            },
            ParseError::MissingParameter(name) => {
                let mut text = String::from_str("Flag \"");
                text.append(name.as_str());
                text.append("\" needs to have a parameter, none found.");
                text
            },
            ParseError::UnexpectedParameter(name, value) => {
                let mut text = String::from_str("Flag \"");
                text.append(name.as_str());
                text.append("\" must not have a parameter, \"");
                text.append(value.as_str());
                text.append("\" found.");
                text
            },
            ParseError::UnexpectedFlag(name) => {
                let mut text = String::from_str("Unexpected flag: \"");
                text.append(name.as_str());
                text.append("\".");
                text
            },
        }
    }
}

} // verus!
