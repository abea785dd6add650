//! The error surfaced to callers: a single category wrapping an I/O
//! failure from opening or reading a configuration file.

use vstd::prelude::*;

verus! {

/// `std::io::Error` is declared so that it can stand in a field; the crate
/// only carries such a value through, never inspects it.
#[verifier::external_type_specification]
#[verifier::external_body]
pub struct ExIoError(std::io::Error);

/// What can go wrong during a load: only the surrounding I/O. The policies
/// themselves always succeed, but the loader propagates a failure should a
/// future policy report one.
#[derive(Debug)]
pub enum FaktorError {
    Io(std::io::Error),
}

impl From<std::io::Error> for FaktorError {
    fn from(err: std::io::Error) -> (r: Self) {
        FaktorError::Io(err)
    }
}

impl vstd::std_specs::convert::FromSpecImpl<std::io::Error> for FaktorError {
    open spec fn obeys_from_spec() -> bool {
        true
    }

    open spec fn from_spec(err: std::io::Error) -> FaktorError {
        FaktorError::Io(err)
    }
}

} // verus!
