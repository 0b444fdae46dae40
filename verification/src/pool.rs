//! The rule on the size of a worker pool.
use vstd::prelude::*;
use vstd::string::*;

verus! {

/// Checks the number of workers that a pool is asked for. A pool needs at
/// least one worker; the error is the text to refuse the pool with.
pub fn check_size(size: usize) -> (r: Result<(), String>)
    ensures
        match r {
            Ok(_) => size >= 1,
            Err(message) => size < 1 && message@ == "size must be greater than 0"@,
        },
{
    if size < 1 {
        Err(String::from_str("size must be greater than 0"))
    } else {
        Ok(())
    }
}

} // verus!
