use vstd::prelude::*;

verus! {

/// `core::fmt::Error`, the payload-free error of formatting.
#[verifier::external_type_specification]
#[verifier::external_body]
pub struct ExFmtError(core::fmt::Error);

/// `std::io::Error`, the error of I/O operations.
#[verifier::external_type_specification]
#[verifier::external_body]
pub struct ExIoError(std::io::Error);

/// Relies on `core::fmt::Error`, a unit struct: builds its one value.
#[verifier::external_body]
pub(crate) fn fmt_error() -> (r: core::fmt::Error) {
    core::fmt::Error
}

/// Relies on `std::io::Error::new`: an error of kind `InvalidData` whose
/// `Display` is `message`.
#[verifier::external_body]
pub(crate) fn invalid_data_error(message: String) -> (r: std::io::Error) {
    std::io::Error::new(std::io::ErrorKind::InvalidData, message)
}

/// Relies on `std::io::Error::kind`: whether `e` is of kind `Interrupted`,
/// the kind of an operation that may be retried.
#[verifier::external_body]
pub(crate) fn is_interrupted(e: &std::io::Error) -> (r: bool) {
    e.kind() == std::io::ErrorKind::Interrupted
}

/// Relies on `std::io::Error::new`: an error of kind `WriteZero` whose
/// `Display` is `message`.
#[verifier::external_body]
pub(crate) fn write_zero_error(message: &str) -> (r: std::io::Error) {
    std::io::Error::new(std::io::ErrorKind::WriteZero, message)
}

} // verus!
