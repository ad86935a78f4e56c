//! A slot that is filled once, on demand, by a computation that may fail.

use vstd::prelude::*;

verus! {

/// Gets the value that `cell` holds. Where it holds none yet, runs `f`: the value that `f`
/// makes is stored in `cell` and returned; an error of `f` is returned and leaves `cell` empty.
pub fn get_or_init_err<T, E, F: FnOnce() -> Result<T, E>>(cell: &mut Option<T>, f: F) -> (r: Result<&T, E>)
    requires
        *old(cell) is None ==> f.requires(()),
    ensures
        *old(cell) matches Some(v) ==> {
            &&& *final(cell) == *old(cell)
            &&& r matches Ok(x) && *x == v
        },
        *old(cell) is None ==> exists|res: Result<T, E>|
            #![trigger f.ensures((), res)]
            f.ensures((), res) && match res {
                Ok(v) => *final(cell) == Some(v) && (r matches Ok(x) && *x == v),
                Err(e) => *final(cell) is None && r == Err::<&T, E>(e),
            },
{
    if cell.is_some() {
        return Ok(cell.as_ref().unwrap());
    }
    match f() {
        Ok(value) => {
            *cell = Some(value);
            Ok(cell.as_ref().unwrap())
        },
        Err(e) => Err(e),
    }
}

} // verus!
