//! The Win32 error-code value type and its conversions.
//!
//! [`Win32Error`] wraps a single 32-bit OS error code (zero means success);
//! any 32-bit value is a legal code. [`OsError`] models the host OS-error
//! abstraction of a hosted standard library: the only part of such a value
//! this crate's logic reads is its optional raw OS code. Converting an
//! [`OsError`] that carries no raw code fails with [`TryFromIoError`], the
//! sole checked error in the crate.

use vstd::prelude::*;
use vstd::std_specs::convert::FromSpec;
use vstd::std_specs::convert::FromSpecImpl;
use vstd::std_specs::convert::TryFromSpec;
use vstd::std_specs::convert::TryFromSpecImpl;

verus! {

/// A wrapper over a Win32 API error code.
///
/// Equality, ordering and hashing are structural, based solely on the code.
#[derive(Debug, Copy, Clone, PartialEq, Eq, PartialOrd, Ord, Hash, Structural)]
pub struct Win32Error {
    /// The raw OS error code (zero means success).
    pub code: u32,
}

impl Win32Error {
    /// Constructs a new error from an arbitrary 32-bit code.
    pub fn new(code: u32) -> (r: Self)
        ensures
            r == (Win32Error { code }),
    {
        Win32Error { code }
    }

    /// Returns the underlying error code.
    pub fn code(&self) -> (r: u32)
        ensures
            r == self.code,
    {
        self.code
    }
}

impl From<u32> for Win32Error {
    /// Wraps a raw 32-bit code, exactly as [`Win32Error::new`] does.
    fn from(code: u32) -> (r: Self) {
        Win32Error { code }
    }
}

impl FromSpecImpl<u32> for Win32Error {
    open spec fn obeys_from_spec() -> bool {
        true
    }

    open spec fn from_spec(code: u32) -> Win32Error {
        Win32Error { code }
    }
}

impl From<Win32Error> for u32 {
    /// Unwraps the raw 32-bit code.
    fn from(e: Win32Error) -> (r: u32) {
        e.code
    }
}

impl FromSpecImpl<Win32Error> for u32 {
    open spec fn obeys_from_spec() -> bool {
        true
    }

    open spec fn from_spec(e: Win32Error) -> u32 {
        e.code
    }
}

/// A value of the host OS-error abstraction, reduced to the one attribute
/// this crate reads of it: the raw OS error code it carries, if any.
///
/// An OS error that did not originate in an OS call (and so was constructed
/// without a raw code) holds `None`.
#[derive(Debug, Copy, Clone, PartialEq, Eq)]
pub struct OsError {
    /// The raw OS error code the value carries, if any. The host API hands
    /// the code out as a signed 32-bit integer.
    pub raw_code: Option<i32>,
}

impl OsError {
    /// Constructs an OS error carrying the given raw code.
    pub fn from_raw_os_error(code: i32) -> (r: Self)
        ensures
            r == (OsError { raw_code: Some(code) }),
    {
        OsError { raw_code: Some(code) }
    }

    /// Constructs an OS error that carries no raw code, standing for an
    /// error that did not originate in an OS call.
    pub fn without_raw_code() -> (r: Self)
        ensures
            r == (OsError { raw_code: None::<i32> }),
    {
        OsError { raw_code: None }
    }

    /// Returns the raw OS error code the value carries, if any.
    pub fn raw_os_error(&self) -> (r: Option<i32>)
        ensures
            r == self.raw_code,
    {
        self.raw_code
    }
}

impl From<Win32Error> for OsError {
    /// Converting into the OS-error abstraction always succeeds and keeps
    /// the raw code (reinterpreted as the host API's signed integer).
    fn from(e: Win32Error) -> (r: OsError) {
        OsError { raw_code: Some(e.code as i32) }
    }
}

impl FromSpecImpl<Win32Error> for OsError {
    open spec fn obeys_from_spec() -> bool {
        true
    }

    open spec fn from_spec(e: Win32Error) -> OsError {
        OsError { raw_code: Some(e.code as i32) }
    }
}

/// The failure of converting an OS-error value that carries no raw OS code
/// into a [`Win32Error`].
#[derive(Debug, Copy, Clone, PartialEq, Eq, PartialOrd, Ord, Hash, Structural)]
pub struct TryFromIoError;

impl TryFromIoError {
    /// Returns the human-readable description of this failure.
    pub fn message(&self) -> (r: String)
        ensures
            r@ == "the given io error did not contain a windows api error code."@,
    {
        String::from_str("the given io error did not contain a windows api error code.")
    }
}

impl TryFrom<OsError> for Win32Error {
    type Error = TryFromIoError;

    /// Extracts the raw OS code; fails with [`TryFromIoError`] exactly when
    /// the value carries none.
    fn try_from(e: OsError) -> (r: Result<Win32Error, TryFromIoError>) {
        match e.raw_code {
            Some(code) => Ok(Win32Error { code: code as u32 }),
            None => Err(TryFromIoError),
        }
    }
}

impl TryFromSpecImpl<OsError> for Win32Error {
    open spec fn obeys_try_from_spec() -> bool {
        true
    }

    open spec fn try_from_spec(e: OsError) -> Result<Win32Error, TryFromIoError> {
        match e.raw_code {
            Some(code) => Ok(Win32Error { code: code as u32 }),
            None => Err(TryFromIoError),
        }
    }
}

/// Converting a raw code into an error and back returns the code, and
/// converting an error into its raw code and back returns the error: the
/// two raw-integer conversions are inverse of each other.
pub proof fn lemma_raw_code_round_trip(n: u32, e: Win32Error)
    ensures
        <u32 as FromSpec<Win32Error>>::from_spec(<Win32Error as FromSpec<u32>>::from_spec(n)) == n,
        <Win32Error as FromSpec<u32>>::from_spec(<u32 as FromSpec<Win32Error>>::from_spec(e)) == e,
{
}

/// Round trip through the OS-error abstraction: an error converted into an
/// OS-error value and back converts successfully to the original error.
pub proof fn lemma_os_error_round_trip(e: Win32Error)
    ensures
        <Win32Error as TryFromSpec<OsError>>::try_from_spec(
            <OsError as FromSpec<Win32Error>>::from_spec(e),
        ) == Ok::<Win32Error, TryFromIoError>(e),
{
    let n = e.code;
    assert(((n as i32) as u32) == n) by (bit_vector);
}

/// An OS-error value that carries no raw code converts to exactly the
/// `TryFromIoError` failure, never to any other outcome.
pub proof fn lemma_no_raw_code_fails(o: OsError)
    requires
        o.raw_code is None,
    ensures
        <Win32Error as TryFromSpec<OsError>>::try_from_spec(o) == Err::<
            Win32Error,
            TryFromIoError,
        >(TryFromIoError),
{
}

/// The construction paths from one raw integer agree: direct construction,
/// the raw-integer conversion, and the round trip through the OS-error
/// abstraction all yield the same value.
pub proof fn lemma_construction_paths_agree(n: u32)
    ensures
        <Win32Error as FromSpec<u32>>::from_spec(n) == (Win32Error { code: n }),
        <Win32Error as TryFromSpec<OsError>>::try_from_spec(
            <OsError as FromSpec<Win32Error>>::from_spec((Win32Error { code: n })),
        ) == Ok::<Win32Error, TryFromIoError>((Win32Error { code: n })),
{
    lemma_os_error_round_trip(Win32Error { code: n });
}

} // verus!
