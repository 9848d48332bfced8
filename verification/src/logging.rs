//! Log output that tolerates a closed reader: a broken pipe on the log sink is
//! treated as a successful write, so piping the logs into a pager that quits early
//! does not turn into errors.

use vstd::prelude::*;

verus! {

/// Makes writers that ignore broken pipes, from an inner writer factory.
pub struct IgnoreBrokenPipe<W>(pub W);

/// A writer whose broken-pipe failures are reported as success.
pub struct IgnoreBrokenPipeWriter<W>(pub W);

impl<W> IgnoreBrokenPipe<W> {
    /// Wraps a writer made by the inner factory.
    pub fn wrap_writer<V>(&self, inner: V) -> (w: IgnoreBrokenPipeWriter<V>)
        ensures
            w.0 == inner,
    {
        IgnoreBrokenPipeWriter(inner)
    }
}

/// The result reported for a write of `len` bytes whose inner write gave `res`;
/// `broken_pipe` says whether the inner error, if any, is a broken pipe. A broken pipe
/// counts as the whole buffer written; anything else is passed through.
pub fn write_outcome<E>(res: Result<usize, E>, broken_pipe: bool, len: usize) -> (r: Result<
    usize,
    E,
>)
    ensures
        res is Err && broken_pipe ==> r == Ok::<usize, E>(len),
        !(res is Err && broken_pipe) ==> r == res,
{
    match res {
        Err(e) => if broken_pipe {
            Ok(len)
        } else {
            Err(e)
        },
        Ok(n) => Ok(n),
    }
}

/// The result reported for a flush whose inner flush gave `res`: a broken pipe counts
/// as success, anything else is passed through.
pub fn flush_outcome<E>(res: Result<(), E>, broken_pipe: bool) -> (r: Result<(), E>)
    ensures
        res is Err && broken_pipe ==> r == Ok::<(), E>(()),
        !(res is Err && broken_pipe) ==> r == res,
{
    match res {
        Err(e) => if broken_pipe {
            Ok(())
        } else {
            Err(e)
        },
        Ok(u) => Ok(u),
    }
}

} // verus!
