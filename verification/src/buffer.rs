//! The weights-source capability: one operation, `getn`, shared by every
//! backend variant.

use vstd::prelude::*;

verus! {

/// Why a request for weight words could not be served.
#[derive(Clone, Copy, Debug, PartialEq, Eq, Structural)]
pub enum WeightsError {
    /// The source cannot supply the requested number of values.
    Exhausted,
    /// Bytes were present but did not form the requested whole 32-bit values.
    Malformed,
    /// The underlying file or connection failed independently of content.
    IoFailure,
}

/// A source of 32-bit weight words, served in caller-sized batches.
///
/// Each backend describes itself through three spec functions: `ok_on` says
/// exactly which requests it serves, `words_out` what a served request
/// returns, and `advanced` how serving moves its state. `getn` then promises:
/// a request is served if and only if `ok_on` holds, a served request returns
/// exactly `words_out` (`n` words, in source order), and a refused request is
/// exhaustion and leaves the source untouched.
pub trait WeightsBuffer: Sized {
    /// The instance is well formed.
    spec fn wf(&self) -> bool;

    /// A request for `n` words will be served.
    spec fn ok_on(&self, n: int) -> bool;

    /// The words that a request for `n` returns.
    spec fn words_out(&self, n: int) -> Seq<u32>;

    /// How serving `n` words moves the state from `self` to `post`.
    spec fn advanced(&self, post: Self, n: int) -> bool;

    /// Serve the next `n` weight words.
    fn getn(&mut self, n: usize) -> (r: Result<Vec<u32>, WeightsError>)
        requires
            old(self).wf(),
        ensures
            final(self).wf(),
            (r is Ok) <==> old(self).ok_on(n as int),
            (r matches Ok(v) ==> v@.len() == n && v@ == old(self).words_out(n as int)
                && old(self).advanced(*final(self), n as int)),
            (r matches Err(e) ==> e == WeightsError::Exhausted && *final(self) == *old(self)),
    ;
}

} // verus!
