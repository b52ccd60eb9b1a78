//! The standard SBI error codes, told apart as `sbi_spec` tells them apart.
use vstd::prelude::*;
use sbi_spec::binary::{SbiRegister, SbiRet};
use self::SbiErrorKind as K;
use sbi_spec::binary::Error::{
    AlreadyAvailable, AlreadyStarted, AlreadyStopped, BadRange, Custom, Denied, DeniedLocked,
    Failed, InvalidAddress, InvalidParam, InvalidState, Io, NoShmem, NotSupported, Timeout,
};

verus! {

/// What an SBI error code stands for: success, one of the standard errors,
/// or a code the standard does not define.
#[derive(Clone, Copy, Debug, PartialEq, Eq, Structural)]
pub enum SbiErrorKind {
    Success,
    Failed,
    NotSupported,
    InvalidParam,
    Denied,
    InvalidAddress,
    AlreadyAvailable,
    AlreadyStarted,
    AlreadyStopped,
    NoShmem,
    InvalidState,
    BadRange,
    Timeout,
    Io,
    DeniedLocked,
    Custom,
}

/// The kind of the error code `error`: 0 is success, -1 to -14 are the
/// standard errors in the order of the specification, any other code is
/// not standard.
pub open spec fn spec_sbi_error_kind(error: i64) -> SbiErrorKind {
    if error == 0 {
        SbiErrorKind::Success
    } else if error == -1 {
        SbiErrorKind::Failed
    } else if error == -2 {
        SbiErrorKind::NotSupported
    } else if error == -3 {
        SbiErrorKind::InvalidParam
    } else if error == -4 {
        SbiErrorKind::Denied
    } else if error == -5 {
        SbiErrorKind::InvalidAddress
    } else if error == -6 {
        SbiErrorKind::AlreadyAvailable
    } else if error == -7 {
        SbiErrorKind::AlreadyStarted
    } else if error == -8 {
        SbiErrorKind::AlreadyStopped
    } else if error == -9 {
        SbiErrorKind::NoShmem
    } else if error == -10 {
        SbiErrorKind::InvalidState
    } else if error == -11 {
        SbiErrorKind::BadRange
    } else if error == -12 {
        SbiErrorKind::Timeout
    } else if error == -13 {
        SbiErrorKind::Io
    } else if error == -14 {
        SbiErrorKind::DeniedLocked
    } else {
        SbiErrorKind::Custom
    }
}

/// Classifies `error` with `<i64 as SbiRegister>::into_result` on an
/// `SbiRet` that carries it. Claimed, as the crate's source shows: the
/// result is `Ok` for 0, the standard error of each code from -1 to -14,
/// and `Custom` for every other code.
#[verifier::external_body]
pub(crate) fn sbi_error_kind(error: i64) -> (kind: SbiErrorKind)
    ensures
        kind == spec_sbi_error_kind(error),
{
    match <i64 as SbiRegister>::into_result(SbiRet { error, value: 0 }) {
        Ok(_) => K::Success, Err(Failed) => K::Failed, Err(NotSupported) => K::NotSupported,
        Err(InvalidParam) => K::InvalidParam, Err(Denied) => K::Denied,
        Err(InvalidAddress) => K::InvalidAddress, Err(AlreadyAvailable) => K::AlreadyAvailable,
        Err(AlreadyStarted) => K::AlreadyStarted, Err(AlreadyStopped) => K::AlreadyStopped,
        Err(NoShmem) => K::NoShmem, Err(InvalidState) => K::InvalidState,
        Err(BadRange) => K::BadRange, Err(Timeout) => K::Timeout, Err(Io) => K::Io,
        Err(DeniedLocked) => K::DeniedLocked, Err(Custom(_)) => K::Custom,
    }
}

} // verus!
