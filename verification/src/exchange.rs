//! Reading a response of unknown size into a buffer of known size.
//!
//! A request is first made with a small buffer. Where the response does not
//! fit, the same request is made again with a buffer twice as large, until
//! the response fits or the buffer would grow beyond its limit.

use vstd::prelude::*;
use crate::errors::{HttpError, RequestError};
use crate::gateway::HttpRequest;

verus! {

/// The size of the buffer that a request is first made with.
pub const INITIAL_BUFFER_SIZE: usize = 4096;

/// The size that the buffer does not grow beyond.
pub const MAX_BUFFER_SIZE: usize = 4194304;

/// What came of one attempt at a request.
#[derive(Debug)]
pub enum Attempt {
    /// The response came and fits; this is its body.
    Complete(Vec<u8>),
    /// The response does not fit into the buffer.
    BufferTooSmall,
    /// The request failed.
    Failed(HttpError),
}

/// What is to be done after an attempt.
#[derive(Debug)]
pub enum Verdict {
    /// Make the request again, with the buffer as large as it now is.
    Retry,
    /// The response is there; this is its body.
    Deliver(Vec<u8>),
    /// The request is given up.
    GiveUp(RequestError),
}

/// Whether a buffer of `size` bytes may grow to twice its size.
pub open spec fn can_grow(size: usize) -> bool {
    0 < size && 2 * size <= MAX_BUFFER_SIZE
}

/// The number of times that a buffer of `size` bytes can still grow.
pub open spec fn growths_left(size: nat) -> nat
    decreases MAX_BUFFER_SIZE - size,
{
    if 0 < size && 2 * size <= MAX_BUFFER_SIZE {
        1 + growths_left(2 * size)
    } else {
        0
    }
}

/// A buffer of the initial size can grow ten times, and no more.
pub proof fn lemma_growths_from_start()
    ensures
        growths_left(INITIAL_BUFFER_SIZE as nat) == 10,
{
    reveal_with_fuel(growths_left, 12);
}

/// A buffer that grows can grow once less afterwards.
pub proof fn lemma_growth_counts(size: usize)
    requires
        can_grow(size),
    ensures
        growths_left((2 * size) as nat) + 1 == growths_left(size as nat),
{
}

/// A request that is made until its response fits into the buffer.
#[derive(Debug)]
pub struct Exchange {
    request: HttpRequest,
    buffer_size: usize,
}

impl Exchange {
    /// The request that is made, at every attempt.
    pub closed spec fn spec_request(&self) -> HttpRequest {
        self.request
    }

    /// The size of the buffer that the next attempt is made with.
    pub closed spec fn spec_buffer_size(&self) -> usize {
        self.buffer_size
    }

    /// An exchange that makes `request`, first with a buffer of the initial size.
    pub fn new(request: HttpRequest) -> (exchange: Self)
        ensures
            exchange.spec_request() == request,
            exchange.spec_buffer_size() == INITIAL_BUFFER_SIZE,
    {
        Exchange { request, buffer_size: INITIAL_BUFFER_SIZE }
    }

    /// The request that is made, at every attempt.
    pub fn request(&self) -> (request: &HttpRequest)
        ensures
            *request == self.spec_request(),
    {
        &self.request
    }

    /// The size of the buffer that the next attempt is made with.
    pub fn buffer_size(&self) -> (size: usize)
        ensures
            size == self.spec_buffer_size(),
    {
        self.buffer_size
    }

    /// Takes in what came of an attempt, and says what is to be done.
    ///
    /// A response that fits is delivered as it is. Where the response does
    /// not fit, the buffer grows to twice its size and the request is to be
    /// made again; where the buffer cannot grow, the request is given up as
    /// `ResponseTooLarge`. A request that failed is given up with its failure.
    /// The request itself never changes.
    pub fn on_attempt(&mut self, outcome: Attempt) -> (verdict: Verdict)
        ensures
            final(self).spec_request() == old(self).spec_request(),
            match outcome {
                Attempt::Complete(body) => {
                    &&& verdict == Verdict::Deliver(body)
                    &&& final(self).spec_buffer_size() == old(self).spec_buffer_size()
                },
                Attempt::BufferTooSmall => if can_grow(old(self).spec_buffer_size()) {
                    &&& verdict == Verdict::Retry
                    &&& final(self).spec_buffer_size() == 2 * old(self).spec_buffer_size()
                } else {
                    &&& verdict == Verdict::GiveUp(RequestError::ResponseTooLarge)
                    &&& final(self).spec_buffer_size() == old(self).spec_buffer_size()
                },
                Attempt::Failed(error) => {
                    &&& verdict == Verdict::GiveUp(RequestError::Http(error))
                    &&& final(self).spec_buffer_size() == old(self).spec_buffer_size()
                },
            },
    {
        match outcome {
            Attempt::Complete(body) => Verdict::Deliver(body),
            Attempt::BufferTooSmall => {
                if 0 < self.buffer_size && self.buffer_size <= MAX_BUFFER_SIZE / 2 {
                    self.buffer_size = self.buffer_size * 2;
                    Verdict::Retry
                } else {
                    Verdict::GiveUp(RequestError::ResponseTooLarge)
                }
            },
            Attempt::Failed(error) => Verdict::GiveUp(RequestError::Http(error)),
        }
    }
}

} // verus!
