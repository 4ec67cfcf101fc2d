//! Settings that are read from the environment.

use vstd::prelude::*;

use crate::numbers::number;
use crate::numbers::number_of;

verus! {

pub const TRAIN_WORKERS: usize = 2;

pub const QUERY_CAPACITY: usize = 2;

pub const CACHE_SIZE: usize = 16;

/// Reads a numeric setting: the default where it is not set, an error message
/// where it is set to something that is not a number in range.
pub fn parse_env(name: &str, raw: Option<&str>, default: usize) -> (r: Result<usize, String>)
    ensures
        match raw {
            None => r == Ok::<usize, String>(default),
            Some(text) => if number(text@) is Some && number(text@)->0 <= usize::MAX {
                r is Ok && r->Ok_0 == number(text@)->0
            } else {
                r is Err && r->Err_0@ == "invalid value for "@ + name@ + ": "@ + text@
            },
        },
{
    match raw {
        None => Ok(default),
        Some(text) => match number_of(text) {
            Some(n) => Ok(n),
            None => {
                let mut message = "invalid value for ".to_owned();
                message.append(name);
                message.append(": ");
                message.append(text);
                Err(message)
            },
        },
    }
}

} // verus!
