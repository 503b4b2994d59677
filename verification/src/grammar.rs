//! The written form of a flag's declaration.
//!
//! A declaration is a flag with two dashes, by itself or followed by the
//! name of its parameter: `--flag` takes no parameter, `--flag value` needs
//! one, and `--flag [value]` may have one. A regular expression reads the
//! form; what it captured decides the arity.

use vstd::prelude::*;
use crate::arity::ArgSpec;

verus! {

/// The regular expression for a declaration. Its groups are, in order: the
/// flag's name, an opening bracket, the parameter's name, a closing bracket.
pub const FLAG_PATTERN: &'static str = "^--(\\w+)\\s*(\\[)?(\\w+)?(\\])?$";

/// `regex::Error`: why a pattern was refused. It is carried as it is.
#[verifier::external_type_specification]
#[verifier::external_body]
pub struct ExRegexError(regex::Error);

/// Whether `regex::Regex::new` accepts `pattern`.
pub uninterp spec fn regex_accepts(pattern: Seq<char>) -> bool;

/// What `regex::Regex::captures` finds in `text` for the regular expression
/// compiled from `pattern`: `None` where nothing matches, else the groups of
/// the first match, the whole match first, each with the text it took or
/// `None` where it took no part.
pub uninterp spec fn regex_captures(pattern: Seq<char>, text: Seq<char>) -> Option<
    Seq<Option<Seq<char>>>,
>;

/// Compiles `pattern` with `regex::Regex::new` and searches `text` with
/// `regex::Regex::captures`.
///
/// Trusted: the pattern is accepted or refused as `regex_accepts` says, and
/// for an accepted pattern the groups returned are those of
/// `regex_captures`, each as the part of `text` that it matched.
#[verifier::external_body]
pub(crate) fn captures<'h>(pattern: &str, text: &'h str) -> (r: Result<
    Option<Vec<Option<&'h str>>>,
    regex::Error,
>)
    ensures
        r is Ok <==> regex_accepts(pattern@),
        r matches Ok(found) ==> found.deep_view() == regex_captures(pattern@, text@),
{
    match regex::Regex::new(pattern) {
        Ok(re) => Ok(
            re.captures(text).map(|caps| caps.iter().map(|m| m.map(|m| m.as_str())).collect()),
        ),
        Err(e) => Err(e),
    }
}

/// The flag's name and arity that the groups of a matched declaration stand
/// for; `None` where the brackets do not pair up around a parameter name.
pub open spec fn declaration(groups: Seq<Option<Seq<char>>>) -> Option<(Seq<char>, ArgSpec)> {
    if groups.len() == 5 && groups[1] is Some {
        let name = groups[1]->0;
        if groups[2] is None && groups[3] is None && groups[4] is None {
            Some((name, ArgSpec::Never))
        } else if groups[2] is Some && groups[3] is Some && groups[4] is Some {
            Some((name, ArgSpec::Optional))
        } else if groups[2] is None && groups[3] is Some && groups[4] is None {
            Some((name, ArgSpec::Required))
        } else {
            None
        }
    } else {
        None
    }
}

/// The flag's name and arity that the declaration `text` stands for; `None`
/// where it is not a declaration.
pub open spec fn declared_flag(text: Seq<char>) -> Option<(Seq<char>, ArgSpec)> {
    if regex_accepts(FLAG_PATTERN@) {
        match regex_captures(FLAG_PATTERN@, text) {
            Some(groups) => declaration(groups),
            None => None,
        }
    } else {
        None
    }
}

/// Reads name and arity off the groups that `FLAG_PATTERN` captured.
pub fn read_declaration<'h>(groups: &Vec<Option<&'h str>>) -> (r: Option<(&'h str, ArgSpec)>)
    ensures
        match r {
            Some((name, arity)) => declaration(groups.deep_view()) == Some((name@, arity)),
            None => declaration(groups.deep_view()) is None,
        },
{
    if groups.len() != 5 {
        return None;
    }
    let ghost view = groups.deep_view();
    assert(forall|i: int| 0 <= i < 5 ==> view[i] == groups@[i].deep_view());
    let name = match groups[1] {
        Some(name) => name,
        None => {
            return None;
        },
    };
    match (groups[2], groups[3], groups[4]) {
        (None, None, None) => Some((name, ArgSpec::Never)),
        (Some(_), Some(_), Some(_)) => Some((name, ArgSpec::Optional)),
        (None, Some(_), None) => Some((name, ArgSpec::Required)),
        _ => None,
    }
}

/// Reads a declaration: the flag's name and its arity, or `None` where
/// `text` is not a declaration.
pub fn parse_declaration<'h>(text: &'h str) -> (r: Option<(&'h str, ArgSpec)>)
    ensures
        match r {
            Some((name, arity)) => declared_flag(text@) == Some((name@, arity)),
            None => declared_flag(text@) is None,
        },
{
    match captures(FLAG_PATTERN, text) {
        Ok(Some(groups)) => read_declaration(&groups),
        Ok(None) => None,
        Err(_) => None,
    }
}

} // verus!
