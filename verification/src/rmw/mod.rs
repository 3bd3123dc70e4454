//! What the ROS middleware interface does beyond its C signatures.

pub mod callback_slot;
pub mod entry;
pub mod exec_callback;
pub mod guard_condition;
pub mod pubsub;
pub mod service;

use vstd::prelude::*;

verus! {

/// What a call of the interface returns.
#[derive(Debug, Clone, Copy, PartialEq, Eq, Structural)]
pub enum RmwRet {
    Success,
    Failure,
    Unsupported,
    InvalidArgument,
    IncorrectImplementation,
}

/// What a call returns before it does anything, or success where nothing is wrong:
/// whether every pointer is there, what the check of the implementation said, and
/// whether the object holds its data. The first that is wrong decides.
pub open spec fn entry_ret(present: bool, implementation: RmwRet, has_data: bool) -> RmwRet {
    if !present {
        RmwRet::InvalidArgument
    } else if implementation != RmwRet::Success {
        implementation
    } else if !has_data {
        RmwRet::InvalidArgument
    } else {
        RmwRet::Success
    }
}

/// What a call returns before it does anything, or success where nothing is wrong.
pub fn check_arguments(present: bool, implementation: RmwRet, has_data: bool) -> (r: RmwRet)
    ensures
        r == entry_ret(present, implementation, has_data),
{
    if !present {
        return RmwRet::InvalidArgument;
    }
    match implementation {
        RmwRet::Success => if has_data {
            RmwRet::Success
        } else {
            RmwRet::InvalidArgument
        },
        ret => ret,
    }
}

/// What a call returns whose work was done, or not.
pub fn ret_of(done: bool) -> (r: RmwRet)
    ensures
        r == (if done {
            RmwRet::Success
        } else {
            RmwRet::Failure
        }),
{
    if done {
        RmwRet::Success
    } else {
        RmwRet::Failure
    }
}

/// A call goes on where every pointer is there, the implementation is the right one
/// and the object holds its data; otherwise it returns for the first of these that
/// is wrong.
pub proof fn the_first_wrong_argument_decides(
    present: bool,
    implementation: RmwRet,
    has_data: bool,
)
    ensures
        entry_ret(present, implementation, has_data) is Success <==> present && implementation
            is Success && has_data,
        !present ==> entry_ret(present, implementation, has_data) is InvalidArgument,
        present && !(implementation is Success) ==> entry_ret(present, implementation, has_data)
            == implementation,
        present && implementation is Success && !has_data ==> entry_ret(
            present,
            implementation,
            has_data,
        ) is InvalidArgument,
{
}

} // verus!
