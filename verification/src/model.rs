//! What parsing means, as a function of the declared flags and the tokens.
//!
//! The scanner reads the tokens once, from left to right, starting behind
//! the program's name. While it sees flags, it checks each against its
//! declaration and lets it take the next token as its parameter where the
//! declaration allows. The first value that no flag takes ends the flags;
//! from there on every token is a leftover, and none may be a flag.

use vstd::prelude::*;
use crate::arity::{ArgSpec, ArgType};
use crate::error::Failure;
use crate::token::{flag_name, is_flag};

verus! {

/// The declared flags: from a flag's name to its declaration.
pub type Registry = Map<Seq<char>, ArgType>;

/// The declarations after `name` is declared with `arity`: a flag declared
/// before is declared anew.
pub open spec fn declare(specs: Registry, name: Seq<char>, arity: ArgSpec) -> Registry {
    specs.insert(name, ArgType(ArgSpec::Required, arity))
}

/// The flags found so far: from a flag's name to its parameter, if it has one.
pub type Found = Map<Seq<char>, Option<Seq<char>>>;

/// The result of a parse that succeeded.
pub struct Parsed {
    /// The flags that were given, each with its parameter.
    pub found: Found,
    /// The values behind the flags, in order.
    pub leftovers: Seq<Seq<char>>,
}

/// The token behind position `i` exists and is a value.
pub open spec fn value_follows(args: Seq<Seq<char>>, i: nat) -> bool {
    i + 1 < args.len() && !is_flag(args[(i + 1) as int])
}

/// Whether the flag `name` at position `i`, declared with `arity`, takes the
/// next token as its parameter; or why it cannot stand there.
pub open spec fn arity_rule(arity: ArgSpec, name: Seq<char>, args: Seq<Seq<char>>, i: nat) -> Result<
    bool,
    Failure,
> {
    match arity {
        ArgSpec::Never => if value_follows(args, i) {
            Err(Failure::UnexpectedParameter(name, args[(i + 1) as int]))
        } else {
            Ok(false)
        },
        ArgSpec::Optional => Ok(value_follows(args, i)),
        ArgSpec::Required => if value_follows(args, i) {
            Ok(true)
        } else {
            Err(Failure::MissingParameter(name))
        },
    }
}

/// The position of the first flag at or behind `from`; `args.len()` if there is none.
pub open spec fn first_flag_from(args: Seq<Seq<char>>, from: nat) -> nat
    decreases args.len() - from,
{
    if from >= args.len() {
        args.len()
    } else if is_flag(args[from as int]) {
        from
    } else {
        first_flag_from(args, from + 1)
    }
}

/// The first flag from `from` on lies at or behind `from`, no flag stands
/// between the two, and where it lies inside `args` it is a flag indeed.
pub proof fn lemma_first_flag(args: Seq<Seq<char>>, from: nat)
    requires
        from <= args.len(),
    ensures
        from <= first_flag_from(args, from) <= args.len(),
        forall|j: int| from <= j < first_flag_from(args, from) ==> !is_flag(#[trigger] args[j]),
        first_flag_from(args, from) < args.len() ==> is_flag(
            args[first_flag_from(args, from) as int],
        ),
    decreases args.len() - from,
{
    if from < args.len() && !is_flag(args[from as int]) {
        lemma_first_flag(args, from + 1);
    }
}

/// The leftovers from position `from` on: all the tokens there, unless one is a flag.
pub open spec fn leftovers_from(args: Seq<Seq<char>>, from: nat) -> Result<Seq<Seq<char>>, Failure> {
    let k = first_flag_from(args, from);
    if k < args.len() {
        Err(Failure::UnexpectedFlag(flag_name(args[k as int])))
    } else {
        Ok(args.subrange(from as int, args.len() as int))
    }
}

/// The scan from position `i` on, with the flags in `found` already seen.
pub open spec fn scan(specs: Registry, args: Seq<Seq<char>>, i: nat, found: Found) -> Result<
    Parsed,
    Failure,
>
    decreases args.len() - i,
{
    if i >= args.len() {
        Ok(Parsed { found, leftovers: Seq::empty() })
    } else if !is_flag(args[i as int]) {
        match leftovers_from(args, i) {
            Ok(leftovers) => Ok(Parsed { found, leftovers }),
            Err(e) => Err(e),
        }
    } else {
        let name = flag_name(args[i as int]);
        if !specs.contains_key(name) {
            Err(Failure::UnknownFlag(name))
        } else if found.contains_key(name) {
            Err(Failure::DuplicateFlag(name))
        } else {
            match arity_rule(specs[name].1, name, args, i) {
                Err(e) => Err(e),
                Ok(true) => scan(specs, args, i + 2, found.insert(name, Some(args[(i + 1) as int]))),
                Ok(false) => scan(specs, args, i + 1, found.insert(name, None)),
            }
        }
    }
}

/// The outcome of parsing `args`, whose first token is the program's name,
/// against the declarations in `specs`.
pub open spec fn parse_outcome(specs: Registry, args: Seq<Seq<char>>) -> Result<Parsed, Failure> {
    scan(specs, args, 1, Map::empty())
}

} // verus!
