//! A parker: the decision half of putting a thread to sleep and waking it.
use vstd::prelude::*;

verus! {

/// A parker holds at most one wake-up token. `unpark` leaves the token;
/// `park` consumes it and returns at once, or, without one, tells the
/// caller to sleep until the next `unpark`.
pub struct Parker {
    notified: bool,
}

impl Parker {
    /// Whether a wake-up token is waiting.
    pub closed spec fn has_token(&self) -> bool {
        self.notified
    }

    /// A parker without a token.
    pub fn new() -> (r: Parker)
        ensures
            !r.has_token(),
    {
        Parker { notified: false }
    }

    /// Parks: consumes the token if there is one. Returns whether the
    /// caller must sleep, which it must exactly when there was no token.
    pub fn park(&mut self) -> (must_sleep: bool)
        ensures
            must_sleep == !old(self).has_token(),
            !final(self).has_token(),
    {
        if self.notified {
            self.notified = false;
            false
        } else {
            true
        }
    }

    /// Unparks: leaves a token, so that the sleeping or the next `park` returns.
    pub fn unpark(&mut self)
        ensures
            final(self).has_token(),
    {
        self.notified = true;
    }
}

} // verus!
