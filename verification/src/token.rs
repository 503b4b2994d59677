//! Classification of raw command-line tokens.
//!
//! A token that starts with one or more dashes is a flag; its name is what
//! follows the dashes. Every other token is a value.

use vstd::prelude::*;
use vstd::std_specs::iter::IteratorSpec;
use vstd::string::*;

verus! {

/// Number of `-` characters at the front of `s`.
pub open spec fn dash_count(s: Seq<char>) -> nat
    decreases s.len(),
{
    if s.len() > 0 && s[0] == '-' {
        1 + dash_count(s.drop_first())
    } else {
        0
    }
}

/// A token is a flag when it starts with a dash.
pub open spec fn is_flag(s: Seq<char>) -> bool {
    s.len() > 0 && s[0] == '-'
}

/// The token without its leading dashes.
pub open spec fn flag_name(s: Seq<char>) -> Seq<char> {
    s.skip(dash_count(s) as int)
}

/// `dash_count` is the length of the longest prefix made of dashes only.
pub proof fn lemma_dash_count(s: Seq<char>, n: int)
    requires
        0 <= n <= s.len(),
        forall|i: int| 0 <= i < n ==> s[i] == '-',
        n < s.len() ==> s[n] != '-',
    ensures
        dash_count(s) == n,
    decreases n,
{
    if n > 0 {
        let t = s.drop_first();
        assert forall|i: int| 0 <= i < n - 1 implies t[i] == '-' by {
            assert(t[i] == s[i + 1]);
        }
        lemma_dash_count(t, n - 1);
    }
}

/// A value has no dashes to lose: it is its own name.
pub proof fn lemma_value_is_its_name(s: Seq<char>)
    requires
        !is_flag(s),
    ensures
        flag_name(s) == s,
{
    assert(s.skip(0) =~= s);
}

/// Splits a token into its name and whether it is a flag.
pub fn trim_dashes<'a>(flag: &'a str) -> (r: (&'a str, bool))
    ensures
        r.0@ == flag_name(flag@),
        r.1 == is_flag(flag@),
{
    broadcast use group_string_axioms;

    let len = flag.unicode_len();
    let mut dashes: usize = 0;
    let mut it = flag.chars();
    loop
        invariant_except_break
            it.remaining() == flag@.skip(dashes as int),
        invariant
            len == flag@.len(),
            dashes <= len,
            forall|i: int| 0 <= i < dashes ==> flag@[i] == '-',
        ensures
            dashes < len ==> flag@[dashes as int] != '-',
        decreases len - dashes,
    {
        match it.next() {
            Some(c) => {
                if c == '-' {
                    dashes = dashes + 1;
                } else {
                    break;
                }
            },
            None => {
                break;
            },
        }
    }
    proof {
        lemma_dash_count(flag@, dashes as int);
    }
    (flag.substring_char(dashes, len), dashes > 0)
}

/// The token at position `ix`, split into its name and whether it is a
/// flag; `(None, false)` behind the last token.
pub fn get_arg<'a>(args: &'a Vec<String>, ix: usize) -> (r: (Option<&'a str>, bool))
    ensures
        ix < args@.len() ==> r.0 is Some && r.0->0@ == flag_name(args@[ix as int]@) && r.1
            == is_flag(args@[ix as int]@),
        ix >= args@.len() ==> r.0 is None && !r.1,
{
    if ix < args.len() {
        let arg = &args[ix];
        let (flag, is_flag) = trim_dashes(arg.as_str());
        (Some(flag), is_flag)
    } else {
        (None, false)
    }
}

} // verus!
