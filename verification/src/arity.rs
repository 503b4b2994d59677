//! How many parameters a flag takes.

use vstd::prelude::*;

verus! {

/// Whether something may, must or must not be given.
#[derive(Debug, Copy, Clone, PartialEq, Eq, Structural)]
pub enum ArgSpec {
    /// Not accepted.
    Never,
    /// Accepted, and may be left out.
    Optional,
    /// Must be given.
    Required,
}

/// The declaration of a flag: `.0` is for the flag's name, which every
/// declaration has, and `.1` is for the parameter that may follow the flag.
#[derive(Debug, Copy, Clone, PartialEq, Eq, Structural)]
pub struct ArgType(pub ArgSpec, pub ArgSpec);

} // verus!
