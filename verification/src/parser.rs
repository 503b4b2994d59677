//! The parser: flags are declared, then the arguments are parsed once.

use vstd::prelude::*;
use crate::arity::{ArgSpec, ArgType};
use crate::error::{Failure, ParseError};
use crate::grammar::{declared_flag, parse_declaration};
use crate::model::{declare, lemma_first_flag, parse_outcome, scan, Found, Registry};
use crate::table::Table;
use crate::token::{flag_name, get_arg, is_flag, lemma_value_is_its_name, trim_dashes};

verus! {

/// The characters of a parameter, if there is one.
spec fn value_view(v: Option<&str>) -> Option<Seq<char>> {
    match v {
        Some(s) => Some(s@),
        None => None,
    }
}

/// The flags found, each with the characters of its parameter.
spec fn found_view(m: Map<Seq<char>, Option<&str>>) -> Found {
    m.map_values(|v: Option<&str>| value_view(v))
}

/// A command-line parser over the arguments of one program run.
pub struct CLParser<'a> {
    args: &'a Vec<String>,
    arg_spec_map: Table<'a, ArgType>,
    arg_found_map: Table<'a, Option<&'a str>>,
    /// The values behind the flags, as the last successful parse left them.
    pub left_overs: Vec<&'a str>,
}

impl<'a> CLParser<'a> {
    /// The tokens to parse; the first is the program's name.
    pub closed spec fn tokens(&self) -> Seq<Seq<char>> {
        self.args.deep_view()
    }

    /// The flags declared so far.
    pub closed spec fn declared(&self) -> Registry {
        self.arg_spec_map@
    }

    /// The flags that the last parse found.
    pub closed spec fn found(&self) -> Found {
        found_view(self.arg_found_map@)
    }

    /// The characters of `left_overs`.
    pub closed spec fn leftovers(&self) -> Seq<Seq<char>> {
        self.left_overs.deep_view()
    }

    /// A parser for `args`, with no flag declared and nothing parsed.
    pub fn new(args: &'a Vec<String>) -> (p: CLParser<'a>)
        ensures
            p.tokens() == args.deep_view(),
            p.declared() == Map::<Seq<char>, ArgType>::empty(),
            p.found() == Map::<Seq<char>, Option<Seq<char>>>::empty(),
            p.leftovers() == Seq::<Seq<char>>::empty(),
    {
        let p = CLParser {
            args,
            arg_spec_map: Table::new(),
            arg_found_map: Table::new(),
            left_overs: Vec::new(),
        };
        assert(p.found() =~= Map::<Seq<char>, Option<Seq<char>>>::empty());
        assert(p.leftovers() =~= Seq::<Seq<char>>::empty());
        p
    }

    /// Declares a flag in its written form: `--flag`, `--flag value` or
    /// `--flag [value]`. A flag declared before is declared anew.
    ///
    /// `arg` must be a declaration; `try_define` takes any text.
    pub fn define(&mut self, arg: &'a str) -> (ret: &mut Self)
        requires
            declared_flag(arg@) is Some,
        ensures
            declared_flag(arg@) matches Some((name, arity)) && ret.declared() == declare(
                old(self).declared(),
                name,
                arity,
            ),
            ret.tokens() == old(self).tokens(),
            ret.found() == old(self).found(),
            ret.leftovers() == old(self).leftovers(),
            *final(self) == *final(ret),
    {
        match parse_declaration(arg) {
            Some((flag, arg_spec)) => {
                self.arg_spec_map.insert(flag, ArgType(ArgSpec::Required, arg_spec));
            },
            None => {
                unreached::<()>();
            },
        }
        self
    }

    /// Declares a flag in its written form, as `define` does, where `arg` is
    /// a declaration; else leaves the parser as it was and reports `arg`.
    pub fn try_define(&mut self, arg: &'a str) -> (r: Result<(), ParseError>)
        ensures
            match declared_flag(arg@) {
                Some((name, arity)) => r is Ok && final(self).declared() == declare(
                    old(self).declared(),
                    name,
                    arity,
                ),
                None => r is Err && r->Err_0@ == Failure::InvalidSpec(arg@)
                    && final(self).declared() == old(self).declared(),
            },
            final(self).tokens() == old(self).tokens(),
            final(self).found() == old(self).found(),
            final(self).leftovers() == old(self).leftovers(),
    {
        match parse_declaration(arg) {
            Some(_) => {
                self.define(arg);
                Ok(())
            },
            None => Err(ParseError::InvalidSpec(arg.to_owned())),
        }
    }

    /// Declares the flag that `flag` names, with the arity given. `flag` is
    /// written with its dashes; a token without one is no flag and is
    /// reported. A flag declared before is declared anew.
    pub fn define_with(&mut self, flag: &'a str, arity: ArgSpec) -> (r: Result<(), ParseError>)
        ensures
            is_flag(flag@) ==> r is Ok && final(self).declared() == declare(
                old(self).declared(),
                flag_name(flag@),
                arity,
            ),
            !is_flag(flag@) ==> r is Err && r->Err_0@ == Failure::InvalidSpec(flag@)
                && final(self).declared() == old(self).declared(),
            final(self).tokens() == old(self).tokens(),
            final(self).found() == old(self).found(),
            final(self).leftovers() == old(self).leftovers(),
    {
        let (name, is_flag) = trim_dashes(flag);
        if !is_flag {
            return Err(ParseError::InvalidSpec(flag.to_owned()));
        }
        self.arg_spec_map.insert(name, ArgType(ArgSpec::Required, arity));
        Ok(())
    }

    /// Parses the tokens against the declared flags.
    ///
    /// On success the flags found and the leftovers are those of
    /// `parse_outcome`; on failure both are empty and the error says why.
    /// What an earlier parse found is forgotten either way, and the
    /// declarations are left as they were.
    #[verifier::loop_isolation(false)]
    pub fn parse(&mut self) -> (r: Result<(), ParseError>)
        ensures
            final(self).tokens() == old(self).tokens(),
            final(self).declared() == old(self).declared(),
            match parse_outcome(old(self).declared(), old(self).tokens()) {
                Ok(p) => r is Ok && final(self).found() == p.found && final(self).leftovers()
                    == p.leftovers,
                Err(e) => r is Err && r->Err_0@ == e && final(self).found() == Map::<
                    Seq<char>,
                    Option<Seq<char>>,
                >::empty() && final(self).leftovers() == Seq::<Seq<char>>::empty(),
            },
    {
        self.arg_found_map = Table::new();
        self.left_overs = Vec::new();
        assert(self.found() =~= Map::<Seq<char>, Option<Seq<char>>>::empty());
        assert(self.leftovers() =~= Seq::<Seq<char>>::empty());

        let args = self.args;
        let ghost tokens = self.tokens();
        let ghost specs = self.declared();
        let mut found: Table<'a, Option<&'a str>> = Table::new();
        assert(found_view(found@) =~= Map::<Seq<char>, Option<Seq<char>>>::empty());
        let mut ix: usize = 1;

        // While there are flags: check each against its declaration.
        while ix < args.len()
            invariant
                scan(specs, tokens, ix as nat, found_view(found@)) == parse_outcome(specs, tokens),
            decreases args@.len() - ix,
        {
            let (arg, is_flag) = get_arg(args, ix);
            let (next_arg, is_next_flag) = get_arg(args, ix + 1);
            let arg = arg.unwrap();
            assert(tokens[ix as int] == args@[ix as int]@);
            if !is_flag {
                break;
            }
            proof {
                if ix + 1 < args@.len() {
                    assert(tokens[ix + 1] == args@[ix + 1]@);
                    if !is_next_flag {
                        lemma_value_is_its_name(tokens[ix + 1]);
                    }
                }
            }
            let arg_spec = match self.arg_spec_map.get(arg) {
                Some(arg_spec) => arg_spec,
                None => {
                    return Err(ParseError::UnknownFlag(arg.to_owned()));
                },
            };
            if found.get(arg).is_some() {
                return Err(ParseError::DuplicateFlag(arg.to_owned()));
            }
            let value: Option<&'a str> = if is_next_flag {
                None
            } else {
                next_arg
            };
            match arg_spec.1 {
                ArgSpec::Never => {
                    if let Some(v) = value {
                        return Err(ParseError::UnexpectedParameter(arg.to_owned(), v.to_owned()));
                    }
                },
                ArgSpec::Optional => {},
                ArgSpec::Required => {
                    if value.is_none() {
                        return Err(ParseError::MissingParameter(arg.to_owned()));
                    }
                },
            }
            assert(found_view(found@.insert(arg@, value)) =~= found_view(found@).insert(
                arg@,
                value_view(value),
            ));
            found.insert(arg, value);
            if value.is_some() {
                ix = ix + 2;
            } else {
                ix = ix + 1;
            }
        }

        // What remains are leftovers, and none of them may be a flag.
        let start = ix;
        let mut left: Vec<&'a str> = Vec::new();
        while ix < args.len()
            invariant
                start <= ix,
                ix <= args@.len() || ix == start,
                forall|j: int| start <= j < ix ==> !is_flag(#[trigger] tokens[j]),
                left@.len() == ix - start,
                forall|j: int| 0 <= j < left@.len() ==> (#[trigger] left@[j])@ == tokens[start + j],
            decreases args@.len() - ix,
        {
            let (arg, is_flag) = get_arg(args, ix);
            let arg = arg.unwrap();
            assert(tokens[ix as int] == args@[ix as int]@);
            if is_flag {
                proof {
                    lemma_first_flag(tokens, start as nat);
                }
                return Err(ParseError::UnexpectedFlag(arg.to_owned()));
            }
            proof {
                lemma_value_is_its_name(tokens[ix as int]);
            }
            left.push(arg);
            ix = ix + 1;
        }
        proof {
            if start < args@.len() {
                lemma_first_flag(tokens, start as nat);
                assert(left.deep_view() =~= tokens.subrange(start as int, tokens.len() as int));
            } else {
                assert(left.deep_view() =~= Seq::<Seq<char>>::empty());
            }
        }
        self.arg_found_map = found;
        self.left_overs = left;
        Ok(())
    }

    /// Whether the last parse found the flag `key`, with a parameter or without.
    pub fn is_set(&self, key: &str) -> (r: bool)
        ensures
            r == self.found().contains_key(key@),
    {
        self.arg_found_map.get(key).is_some()
    }

    /// The parameter that the last parse found for the flag `key`; `None`
    /// where the flag was not given or was given without one.
    pub fn get(&self, key: &str) -> (r: Option<&'a str>)
        ensures
            match r {
                Some(v) => self.found().contains_key(key@) && self.found()[key@] == Some(v@),
                None => !self.found().contains_key(key@) || self.found()[key@] is None,
            },
    {
        match self.arg_found_map.get(key) {
            Some(v) => v,
            None => None,
        }
    }
}

} // verus!
