//! The built-in task that collects entries of deleted tasks.
use vstd::prelude::*;

use crate::text::{eq_ignore_ascii_case, equal_ignoring_ascii_case, trim, trimmed};

verus! {

/// Name of the built-in task.
pub const UNBESTIMMT_NAME: &'static str = "unbestimmt";

/// A name users may not give a task: the built-in name, ignoring surrounding
/// white space and ASCII case.
pub open spec fn is_reserved(name: Seq<char>) -> bool {
    equal_ignoring_ascii_case(trimmed(name), UNBESTIMMT_NAME@)
}

/// Whether the name is reserved for the built-in task.
pub fn is_reserved_task_name(name: &str) -> (r: bool)
    ensures
        r == is_reserved(name@),
{
    eq_ignore_ascii_case(trim(name), UNBESTIMMT_NAME)
}

} // verus!
