//! Naming helpers for the document store: the kind of an entity is the
//! last path segment of its model type's name.

use vstd::prelude::*;
use vstd::string::StrSliceExecFns;

verus! {

/// Where the kind name starts in the first `n` characters of a type
/// name: just after the last `::` separator, or at the start where
/// there is none.
pub open spec fn spec_kind_start(s: Seq<char>, n: int) -> int
    decreases n,
{
    if n < 2 {
        0
    } else if s[n - 2] == ':' && s[n - 1] == ':' {
        n
    } else {
        spec_kind_start(s, n - 1)
    }
}

/// The kind a type name infers: its last `::`-separated path segment
/// (the whole name where no separator occurs).
pub fn infer_kind(full_name: &str) -> (r: String)
    ensures
        r@ == full_name@.subrange(
            spec_kind_start(full_name@, full_name@.len() as int),
            full_name@.len() as int,
        ),
{
    let n = full_name.unicode_len();
    let mut start: usize = 0;
    let mut i: usize = 0;
    while n >= 2 && i < n - 1
        invariant
            n == full_name@.len(),
            i <= n,
            start as int == spec_kind_start(full_name@, i as int + 1),
            start <= n,
        decreases n - i,
    {
        let a = full_name.get_char(i);
        let b = full_name.get_char(i + 1);
        if a == ':' && b == ':' {
            start = i + 2;
        }
        i += 1;
    }
    proof {
        if (i as int) + 1 == n as int {
            assert(spec_kind_start(full_name@, n as int) == spec_kind_start(
                full_name@,
                i as int + 1,
            ));
        } else {
            // the name has fewer than two characters
            assert(spec_kind_start(full_name@, n as int) == spec_kind_start(
                full_name@,
                i as int + 1,
            ));
        }
    }
    full_name.substring_char(start, n).to_owned()
}

} // verus!
