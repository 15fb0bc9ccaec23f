//! User and group queries on platforms without a user database.

use vstd::prelude::*;

verus! {

/// Errors of the system queries.
#[derive(Clone, Copy, Debug)]
pub enum Error {
    /// The named operation is not implemented on this platform.
    Unimplemented(&'static str),
}

/// The error for an operation that is not implemented.
pub fn unimp<T>(msg: &'static str) -> (r: Result<T, Error>)
    ensures
        r == Err::<T, Error>(Error::Unimplemented(msg)),
{
    Err(Error::Unimplemented(msg))
}

/// Whether the current user is the administrator: never, here.
pub fn is_root() -> (r: bool)
    ensures
        !r,
{
    false
}

/// The effective user id: not implemented here.
pub fn get_effective_uid() -> (r: Result<u32, Error>)
    ensures
        r == Err::<u32, Error>(Error::Unimplemented("get effective uid")),
{
    unimp("get effective uid")
}

/// The effective group id: not implemented here.
pub fn get_effective_gid() -> (r: Result<u32, Error>)
    ensures
        r == Err::<u32, Error>(Error::Unimplemented("get effective gid")),
{
    unimp("get effective gid")
}

/// All user names: none are known here.
pub fn get_all_users() -> (r: Result<Vec<String>, Error>)
    ensures
        r matches Ok(v) && v@.len() == 0,
{
    Ok(Vec::new())
}

/// All group names: none are known here.
pub fn get_all_groups() -> (r: Result<Vec<String>, Error>)
    ensures
        r matches Ok(v) && v@.len() == 0,
{
    Ok(Vec::new())
}

} // verus!
