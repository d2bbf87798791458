//! Error-conversion glue: `.compat()` as `failure::ResultExt` offers it,
//! turning a result whose error comes from the BLE transport (which
//! reports through `failure`) into an `anyhow` result.

use vstd::prelude::*;

verus! {

#[verifier::external_type_specification]
#[verifier::external_body]
pub struct ExAnyhowError(anyhow::Error);

#[verifier::external_type_specification]
#[verifier::external_body]
pub struct ExBtleplugError(btleplug::Error);

/// Just `.compat()` from `failure::ResultExt`, for the transport's
/// results.
pub trait FailureCompat<T> {
    fn compat(self) -> Result<T, anyhow::Error>;
}

/// Relies on `failure::Fail::compat` and `anyhow::Error::from`: the
/// conversion wraps the error value and leaves an `Ok` untouched;
/// nothing is promised of it here.
#[verifier::external_body]
fn compat_result<T>(r: Result<T, btleplug::Error>) -> Result<T, anyhow::Error> {
    match r {
        Ok(v) => Ok(v),
        Err(err) => Err(anyhow::Error::from(failure::Fail::compat(err))),
    }
}

impl<T> FailureCompat<T> for Result<T, btleplug::Error> {
    fn compat(self) -> Result<T, anyhow::Error> {
        compat_result(self)
    }
}

} // verus!
