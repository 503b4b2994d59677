//! What holds of every parse, proved from the meaning of parsing.

use vstd::prelude::*;
use crate::arity::ArgSpec;
use crate::error::Failure;
use crate::model::{
    arity_rule, first_flag_from, leftovers_from, lemma_first_flag, parse_outcome, scan, Found,
    Parsed, Registry,
};
use crate::token::{flag_name, is_flag};

verus! {

/// Every flag in `found` is declared, and has a parameter or none as its
/// declaration asks.
pub open spec fn respects(specs: Registry, found: Found) -> bool {
    forall|name: Seq<char>| #[trigger]
        found.contains_key(name) ==> specs.contains_key(name) && match specs[name].1 {
            ArgSpec::Never => found[name] is None,
            ArgSpec::Optional => true,
            ArgSpec::Required => found[name] is Some,
        }
}

/// `tail` is what `args` ends with.
pub open spec fn is_suffix(tail: Seq<Seq<char>>, args: Seq<Seq<char>>) -> bool {
    tail.len() <= args.len() && tail == args.subrange(args.len() - tail.len(), args.len() as int)
}

/// No token of `tokens` is a flag.
pub open spec fn all_values(tokens: Seq<Seq<char>>) -> bool {
    forall|j: int| 0 <= j < tokens.len() ==> !is_flag(#[trigger] tokens[j])
}

/// Where only values follow the program's name, they are all leftovers, in
/// order, and no flag is found.
pub proof fn lemma_values_only(specs: Registry, args: Seq<Seq<char>>)
    requires
        forall|i: int| 1 <= i < args.len() ==> !is_flag(#[trigger] args[i]),
    ensures
        parse_outcome(specs, args) == Ok::<Parsed, Failure>(
            Parsed {
                found: Map::empty(),
                leftovers: if args.len() >= 1 {
                    args.skip(1)
                } else {
                    Seq::empty()
                },
            },
        ),
{
    if args.len() >= 2 {
        lemma_first_flag(args, 1);
        assert(args.subrange(1, args.len() as int) =~= args.skip(1));
    } else if args.len() == 1 {
        assert(args.skip(1) =~= Seq::<Seq<char>>::empty());
    }
}

/// What holds all of a map with one more key holds all of the map.
proof fn lemma_kept_through_insert(
    found: Found,
    name: Seq<char>,
    value: Option<Seq<char>>,
    later: Found,
)
    requires
        !found.contains_key(name),
        found.insert(name, value).submap_of(later),
    ensures
        found.submap_of(later),
{
    let next = found.insert(name, value);
    assert forall|k: Seq<char>| #[trigger]
        found.dom().contains(k) implies #[trigger] later.dom().contains(k) && found[k]
        == later[k] by {
        assert(next.dom().contains(k));
        assert(next.submap_of(later));
        assert(later.dom().contains(k));
    }
}

/// A scan that succeeds keeps the flags it started with, finds only declared
/// flags with the parameters that their declarations ask for, and leaves
/// over a tail of the tokens that holds no flag.
pub proof fn lemma_scan_respects(specs: Registry, args: Seq<Seq<char>>, i: nat, found: Found)
    requires
        respects(specs, found),
    ensures
        scan(specs, args, i, found) matches Ok(p) ==> {
            &&& respects(specs, p.found)
            &&& found.submap_of(p.found)
            &&& all_values(p.leftovers)
            &&& is_suffix(p.leftovers, args)
        },
    decreases args.len() - i,
{
    let outcome = scan(specs, args, i, found);
    if i >= args.len() {
        assert(Seq::<Seq<char>>::empty() =~= args.subrange(
            args.len() as int,
            args.len() as int,
        ));
    } else if !is_flag(args[i as int]) {
        lemma_first_flag(args, i);
        if leftovers_from(args, i) is Ok {
            let tail = args.subrange(i as int, args.len() as int);
            assert(tail =~= args.subrange(args.len() - tail.len(), args.len() as int));
            assert forall|j: int| 0 <= j < tail.len() implies !is_flag(#[trigger] tail[j]) by {
                assert(tail[j] == args[i + j]);
            }
        }
    } else {
        let name = flag_name(args[i as int]);
        if outcome is Ok {
            let p = outcome->Ok_0;
            let takes = arity_rule(specs[name].1, name, args, i)->Ok_0;
            let next = if takes {
                found.insert(name, Some(args[(i + 1) as int]))
            } else {
                found.insert(name, None)
            };
            let behind: nat = if takes {
                i + 2
            } else {
                i + 1
            };
            assert(outcome == scan(specs, args, behind, next));
            assert(respects(specs, next));
            lemma_scan_respects(specs, args, behind, next);
            lemma_kept_through_insert(found, name, next[name], p.found);
        }
    }
    if outcome is Ok {
        let p = outcome->Ok_0;
        assert(respects(specs, p.found));
        assert(found.submap_of(p.found));
        assert(all_values(p.leftovers));
        assert(is_suffix(p.leftovers, args));
    }
}

/// A parse that succeeds finds only declared flags, each with a parameter
/// where its declaration needs one and without where it takes none; its
/// leftovers are the end of the tokens and hold no flag.
pub proof fn lemma_parse_respects(specs: Registry, args: Seq<Seq<char>>)
    ensures
        parse_outcome(specs, args) matches Ok(p) ==> {
            &&& respects(specs, p.found)
            &&& all_values(p.leftovers)
            &&& is_suffix(p.leftovers, args)
        },
{
    lemma_scan_respects(specs, args, 1, Map::empty());
}

/// Once the scan stands at a value, a flag anywhere behind it makes the
/// parse fail; the error names the first such flag.
pub proof fn lemma_flag_behind_value(
    specs: Registry,
    args: Seq<Seq<char>>,
    i: nat,
    found: Found,
    k: nat,
)
    requires
        i < k < args.len(),
        !is_flag(args[i as int]),
        is_flag(args[k as int]),
    ensures
        first_flag_from(args, i) <= k,
        scan(specs, args, i, found) == Err::<Parsed, Failure>(
            Failure::UnexpectedFlag(flag_name(args[first_flag_from(args, i) as int])),
        ),
{
    lemma_first_flag(args, i);
}

/// A flag that takes no parameter may be followed by another flag.
pub proof fn lemma_never_then_flag(
    specs: Registry,
    cmd: Seq<char>,
    f: Seq<char>,
    g: Seq<char>,
)
    requires
        is_flag(f),
        is_flag(g),
        flag_name(f) != flag_name(g),
        specs.contains_key(flag_name(f)),
        specs[flag_name(f)].1 == ArgSpec::Never,
        specs.contains_key(flag_name(g)),
        specs[flag_name(g)].1 != ArgSpec::Required,
    ensures
        parse_outcome(specs, seq![cmd, f, g]) == Ok::<Parsed, Failure>(
            Parsed {
                found: Map::empty().insert(flag_name(f), None).insert(flag_name(g), None),
                leftovers: Seq::empty(),
            },
        ),
{
    let args = seq![cmd, f, g];
    let found1 = Map::<Seq<char>, Option<Seq<char>>>::empty().insert(flag_name(f), None);
    let found2 = found1.insert(flag_name(g), None);
    assert(scan(specs, args, 3, found2) == Ok::<Parsed, Failure>(
        Parsed { found: found2, leftovers: Seq::empty() },
    ));
    assert(scan(specs, args, 2, found1) == scan(specs, args, 3, found2));
    assert(scan(specs, args, 1, Map::empty()) == scan(specs, args, 2, found1));
}

/// A flag that takes no parameter may not be followed by a value.
pub proof fn lemma_never_rejects_value(
    specs: Registry,
    cmd: Seq<char>,
    f: Seq<char>,
    value: Seq<char>,
)
    requires
        is_flag(f),
        !is_flag(value),
        specs.contains_key(flag_name(f)),
        specs[flag_name(f)].1 == ArgSpec::Never,
    ensures
        parse_outcome(specs, seq![cmd, f, value]) == Err::<Parsed, Failure>(
            Failure::UnexpectedParameter(flag_name(f), value),
        ),
{
}

/// A flag that needs a parameter may not stand last.
pub proof fn lemma_required_at_end(specs: Registry, cmd: Seq<char>, f: Seq<char>)
    requires
        is_flag(f),
        specs.contains_key(flag_name(f)),
        specs[flag_name(f)].1 == ArgSpec::Required,
    ensures
        parse_outcome(specs, seq![cmd, f]) == Err::<Parsed, Failure>(
            Failure::MissingParameter(flag_name(f)),
        ),
{
}

/// A flag that needs a parameter may not be followed by another flag.
pub proof fn lemma_required_then_flag(
    specs: Registry,
    cmd: Seq<char>,
    f: Seq<char>,
    g: Seq<char>,
)
    requires
        is_flag(f),
        is_flag(g),
        specs.contains_key(flag_name(f)),
        specs[flag_name(f)].1 == ArgSpec::Required,
    ensures
        parse_outcome(specs, seq![cmd, f, g]) == Err::<Parsed, Failure>(
            Failure::MissingParameter(flag_name(f)),
        ),
{
}

/// A flag that needs or may have a parameter takes the value behind it.
pub proof fn lemma_flag_takes_value(
    specs: Registry,
    cmd: Seq<char>,
    f: Seq<char>,
    value: Seq<char>,
)
    requires
        is_flag(f),
        !is_flag(value),
        specs.contains_key(flag_name(f)),
        specs[flag_name(f)].1 != ArgSpec::Never,
    ensures
        parse_outcome(specs, seq![cmd, f, value]) == Ok::<Parsed, Failure>(
            Parsed {
                found: Map::empty().insert(flag_name(f), Some(value)),
                leftovers: Seq::empty(),
            },
        ),
{
    let args = seq![cmd, f, value];
    let found1 = Map::<Seq<char>, Option<Seq<char>>>::empty().insert(flag_name(f), Some(value));
    assert(scan(specs, args, 3, found1) == Ok::<Parsed, Failure>(
        Parsed { found: found1, leftovers: Seq::empty() },
    ));
}

/// A flag whose parameter may be left out may stand last, without one.
pub proof fn lemma_optional_at_end(specs: Registry, cmd: Seq<char>, f: Seq<char>)
    requires
        is_flag(f),
        specs.contains_key(flag_name(f)),
        specs[flag_name(f)].1 == ArgSpec::Optional,
    ensures
        parse_outcome(specs, seq![cmd, f]) == Ok::<Parsed, Failure>(
            Parsed { found: Map::empty().insert(flag_name(f), None), leftovers: Seq::empty() },
        ),
{
    let args = seq![cmd, f];
    let found1 = Map::<Seq<char>, Option<Seq<char>>>::empty().insert(flag_name(f), None);
    assert(scan(specs, args, 2, found1) == Ok::<Parsed, Failure>(
        Parsed { found: found1, leftovers: Seq::empty() },
    ));
}

/// A flag given twice, each time with a value, is refused at its second
/// place, whatever dashes it is written with.
pub proof fn lemma_duplicate_fails(
    specs: Registry,
    cmd: Seq<char>,
    f1: Seq<char>,
    v1: Seq<char>,
    f2: Seq<char>,
    v2: Seq<char>,
)
    requires
        is_flag(f1),
        is_flag(f2),
        flag_name(f1) == flag_name(f2),
        !is_flag(v1),
        !is_flag(v2),
        specs.contains_key(flag_name(f1)),
        specs[flag_name(f1)].1 != ArgSpec::Never,
    ensures
        parse_outcome(specs, seq![cmd, f1, v1, f2, v2]) == Err::<Parsed, Failure>(
            Failure::DuplicateFlag(flag_name(f1)),
        ),
{
    let args = seq![cmd, f1, v1, f2, v2];
    let found1 = Map::<Seq<char>, Option<Seq<char>>>::empty().insert(flag_name(f1), Some(v1));
    assert(scan(specs, args, 3, found1) == Err::<Parsed, Failure>(
        Failure::DuplicateFlag(flag_name(f1)),
    ));
}

/// A flag that was found before is refused wherever the scan meets it again.
pub proof fn lemma_seen_flag_fails(specs: Registry, args: Seq<Seq<char>>, i: nat, found: Found)
    requires
        i < args.len(),
        is_flag(args[i as int]),
        specs.contains_key(flag_name(args[i as int])),
        found.contains_key(flag_name(args[i as int])),
    ensures
        scan(specs, args, i, found) == Err::<Parsed, Failure>(
            Failure::DuplicateFlag(flag_name(args[i as int])),
        ),
{
}

} // verus!
