//! A result type for unit tests that turns any failure into an immediate,
//! loud abort of the running test, keeping the failure's full diagnostic
//! text, so that test code can use `?` freely without ever swallowing an
//! error.

use vstd::prelude::*;

pub mod diagnostic;

verus! {

/// An error that can never be constructed: its only variant holds a value
/// of `core::convert::Infallible`, of which none exists.
///
/// Any function whose return type is `TestError` can therefore never
/// return normally: holding a value of this type is a static proof of
/// divergence.
#[derive(Debug)]
pub enum TestError {
    Never(core::convert::Infallible),
}

/// The result type for a unit test: either a success carrying `T`, or a
/// failure arm that is structurally impossible to populate.
pub type TestResult<T = ()> = Result<T, TestError>;

/// Relies on `format!` with the alternate flag `{:#}`: the expanded
/// rendering of `error`, which for chain-aware failure types unrolls the
/// whole causal chain rather than only the outermost message. The text is
/// the business of each `Display` impl, so nothing is stated of it.
#[verifier::external_body]
fn render_alternate<T: core::fmt::Display>(error: &T) -> String {
    format!("{:#}", error)
}

/// Relies on `Option::expect` panicking on `None`: aborts the current test
/// abruptly with `msg` as the panic payload. The option is always empty,
/// so this call never returns; the test harness above catches the unwind
/// and reports the test as failed.
#[verifier::external_body]
fn abort_with(msg: String) -> TestError {
    let nothing: Option<TestError> = None;
    nothing.expect(msg.as_str())
}

impl<T: core::fmt::Display> vstd::std_specs::convert::FromSpecImpl<T> for TestError {
    /// The conversion aborts instead of returning, so no returned value is
    /// ever there to be described.
    open spec fn obeys_from_spec() -> bool {
        false
    }

    open spec fn from_spec(v: T) -> TestError {
        arbitrary()
    }
}

impl<T: core::fmt::Display> From<T> for TestError {
    /// The universal conversion rule: any displayable failure converts to
    /// [`TestError`], and the conversion never completes normally — it
    /// builds the diagnostic payload `error: <label> - <rendered message>`
    /// and aborts the running test with it. The label here is the fixed
    /// category `propagated failure`: at its boundary the library treats
    /// every failure as the one kind it knows.
    fn from(error: T) -> TestError {
        let rendered = render_alternate::<T>(&error);
        let msg = diagnostic::diagnostic_message("propagated failure", rendered.as_str());
        abort_with(msg)
    }
}

} // verus!
