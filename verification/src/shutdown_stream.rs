//! The decisions of a stream that ends when its shutdown signal fires or when the wrapped stream
//! ends; the shutdown is always checked before the stream.
use vstd::prelude::*;

verus! {

/// What one poll of a shutdown stream does, once the shutdown signal has been polled.
#[derive(Clone, Copy, Debug, PartialEq, Eq, Structural)]
pub enum PollPlan {
    /// The stream is over: yield its end.
    End,
    /// Poll the wrapped stream and yield what it yields.
    PollStream,
}

/// The plan of a poll: the wrapped stream is polled only while neither the shutdown signal nor
/// the stream is spent and the signal has not just fired.
pub open spec fn spec_poll_plan(shutdown_terminated: bool, shutdown_fired: bool, stream_terminated: bool) -> PollPlan {
    if !shutdown_terminated && !shutdown_fired && !stream_terminated {
        PollPlan::PollStream
    } else {
        PollPlan::End
    }
}

/// The plan of a poll: when the shutdown signal is already spent, or has just fired, the stream
/// is over; otherwise the wrapped stream is polled unless it has ended.
pub fn poll_plan(shutdown_terminated: bool, shutdown_fired: bool, stream_terminated: bool) -> (r: PollPlan)
    ensures
        r == spec_poll_plan(shutdown_terminated, shutdown_fired, stream_terminated),
{
    if !shutdown_terminated {
        if shutdown_fired {
            return PollPlan::End;
        }
        if !stream_terminated {
            return PollPlan::PollStream;
        }
    }
    PollPlan::End
}

/// The shutdown stream is over once its shutdown signal or the wrapped stream is.
pub fn is_terminated(shutdown_terminated: bool, stream_terminated: bool) -> (r: bool)
    ensures
        r == (shutdown_terminated || stream_terminated),
{
    shutdown_terminated || stream_terminated
}

/// A shutdown stream that reports itself terminated never polls the wrapped stream again:
/// whatever the signal does, each poll ends it.
pub proof fn lemma_terminated_stream_stays_ended(
    shutdown_terminated: bool,
    shutdown_fired: bool,
    stream_terminated: bool,
)
    requires
        shutdown_terminated || stream_terminated,
    ensures
        spec_poll_plan(shutdown_terminated, shutdown_fired, stream_terminated) == PollPlan::End,
{
}

} // verus!
