//! The one error of every operation.

use vstd::prelude::*;
use vstd::string::StringExecFns;

verus! {

/// The uniform failure value of every operation: a message for the log, and
/// a flag that marks a transient condition the caller retries in silence.
#[derive(Clone, Debug, PartialEq, Eq)]
pub struct RokitError {
    pub msg: String,
    pub ignore: bool,
}

/// The mathematical content of a [`RokitError`].
pub struct ErrorView {
    pub msg: Seq<char>,
    pub ignore: bool,
}

impl View for RokitError {
    type V = ErrorView;

    open spec fn view(&self) -> ErrorView {
        ErrorView { msg: self.msg@, ignore: self.ignore }
    }
}

/// A failure that the caller must surface and treat as final.
pub open spec fn fatal(msg: Seq<char>) -> ErrorView {
    ErrorView { msg, ignore: false }
}

/// A result with its error taken by its view.
pub open spec fn outcome_view<T>(r: Result<T, RokitError>) -> Result<T, ErrorView> {
    match r {
        Ok(v) => Ok(v),
        Err(e) => Err(e@),
    }
}

/// A text result with both sides taken by their views.
pub open spec fn text_view(r: Result<String, RokitError>) -> Result<Seq<char>, ErrorView> {
    match r {
        Ok(s) => Ok(s@),
        Err(e) => Err(e@),
    }
}

impl Default for RokitError {
    fn default() -> (e: Self)
        ensures
            e@ == fatal(Seq::<char>::empty()),
    {
        RokitError { msg: String::new(), ignore: false }
    }
}

impl RokitError {
    /// A non-ignorable error with the given message.
    pub fn new_msg(msg: String) -> (e: Self)
        ensures
            e@ == fatal(msg@),
    {
        RokitError { msg, ignore: false }
    }

    /// An error with the given message and ignore flag.
    pub fn new(ignore: bool, msg: String) -> (e: Self)
        ensures
            e@ == (ErrorView { msg: msg@, ignore }),
    {
        RokitError { msg, ignore }
    }
}

/// A non-ignorable error whose message is `prefix` followed by `detail`.
pub fn failure(prefix: &str, detail: &str) -> (e: RokitError)
    ensures
        e@ == fatal(prefix@ + detail@),
{
    RokitError::new_msg(String::from_str(prefix).concat(detail))
}

} // verus!
