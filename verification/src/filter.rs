//! The caller-side name filters: whether the statement under the current
//! database or table naming context may be emitted, given the sets of names
//! the run is restricted to.

use vstd::prelude::*;

verus! {

/// Whether some entry of `allowed` equals `name`.
pub fn name_in(allowed: &Vec<String>, name: &String) -> (r: bool)
    ensures
        r == exists|i: int| 0 <= i < allowed@.len() && allowed@[i]@ == name@,
{
    let mut i: usize = 0;
    while i < allowed.len()
        invariant
            i <= allowed@.len(),
            forall|j: int| 0 <= j < i ==> allowed@[j]@ != name@,
        decreases allowed@.len() - i,
    {
        if allowed[i].eq(name) {
            assert(allowed@[i as int]@ == name@);
            return true;
        }
        i += 1;
    }
    false
}

/// Whether output may pass a name filter: an empty filter restricts
/// nothing, and while no name has been reported yet nothing is suppressed.
/// Otherwise the last reported name must be among the allowed ones.
pub fn should_emit(allowed: &Vec<String>, current: &Option<String>) -> (r: bool)
    ensures
        r == (allowed@.len() == 0 || match current {
            Some(n) => exists|i: int| 0 <= i < allowed@.len() && allowed@[i]@ == n@,
            None => true,
        }),
{
    if allowed.len() == 0 {
        return true;
    }
    match current {
        Some(n) => name_in(allowed, n),
        None => true,
    }
}

} // verus!
