//! The pumping engine's state: which of the four endpoints are still open,
//! the residual not yet written to the child's stdin, and ghost histories
//! that tie the request body to what the child received.

use vstd::prelude::*;

verus! {

/// One framed item of the child's output.
pub enum Output {
    Stdout(Vec<u8>),
    Stderr(Vec<u8>),
}

impl Output {
    /// The stdout bytes; only for stdout items.
    pub fn unwrap_out(self) -> (r: Vec<u8>)
        requires
            self is Stdout,
        ensures
            self == Output::Stdout(r),
    {
        match self {
            Output::Stdout(v) => v,
            Output::Stderr(_) => unreached(),
        }
    }

    /// The stderr bytes; only for stderr items.
    pub fn unwrap_err(self) -> (r: Vec<u8>)
        requires
            self is Stderr,
        ensures
            self == Output::Stderr(r),
    {
        match self {
            Output::Stderr(v) => v,
            Output::Stdout(_) => unreached(),
        }
    }
}

/// The error item the stream reports for any failed endpoint.
#[derive(Debug)]
pub struct ProcessError {}

/// The pump's bookkeeping between polls. The ghost `fed` history holds
/// every byte taken from the request-body source; `written` holds every
/// byte the child's stdin accepted. While the sink has not failed,
/// `fed == written + residual`: nothing is lost or reordered.
pub struct PumpState {
    stdout_open: bool,
    stderr_open: bool,
    stdin_open: bool,
    source_done: bool,
    residual: Vec<u8>,
    fed: Ghost<Seq<u8>>,
    written: Ghost<Seq<u8>>,
    sink_failed: Ghost<bool>,
}

impl PumpState {
    pub closed spec fn stdout_open(&self) -> bool {
        self.stdout_open
    }

    pub closed spec fn stderr_open(&self) -> bool {
        self.stderr_open
    }

    pub closed spec fn stdin_open(&self) -> bool {
        self.stdin_open
    }

    pub closed spec fn source_done(&self) -> bool {
        self.source_done
    }

    pub closed spec fn residual(&self) -> Seq<u8> {
        self.residual@
    }

    /// Every byte pulled from the request-body source, in order.
    pub closed spec fn fed(&self) -> Seq<u8> {
        self.fed@
    }

    /// Every byte the child's stdin accepted, in order.
    pub closed spec fn written(&self) -> Seq<u8> {
        self.written@
    }

    /// Whether stdin failed or refused bytes while some were pending.
    pub closed spec fn sink_failed(&self) -> bool {
        self.sink_failed@
    }

    /// The backpressure and accounting invariant: while the sink works,
    /// what was fed is what was written plus the residual, and a closed
    /// stdin holds no residual.
    pub closed spec fn wf(&self) -> bool {
        &&& (!self.sink_failed@ ==> self.fed@ == self.written@ + self.residual@)
        &&& (!self.sink_failed@ && !self.stdin_open ==> self.residual@.len() == 0)
        &&& (self.sink_failed@ ==> !self.stdin_open)
    }

    /// A pump over freshly piped streams.
    pub fn new() -> (r: PumpState)
        ensures
            r.wf(),
            r.stdout_open(),
            r.stderr_open(),
            r.stdin_open(),
            !r.source_done(),
            !r.sink_failed(),
            r.residual() == Seq::<u8>::empty(),
            r.fed() == Seq::<u8>::empty(),
            r.written() == Seq::<u8>::empty(),
    {
        let r = PumpState {
            stdout_open: true,
            stderr_open: true,
            stdin_open: true,
            source_done: false,
            residual: Vec::new(),
            fed: Ghost(Seq::empty()),
            written: Ghost(Seq::empty()),
            sink_failed: Ghost(false),
        };
        proof {
            assert(r.fed@ =~= r.written@ + r.residual@);
        }
        r
    }

    /// Whether the stream is over: both output pipes reported end.
    pub fn at_end(&self) -> (r: bool)
        ensures
            r == (!self.stdout_open() && !self.stderr_open()),
    {
        !self.stdout_open && !self.stderr_open
    }

    pub fn is_stdout_open(&self) -> (r: bool)
        ensures
            r == self.stdout_open(),
    {
        self.stdout_open
    }

    pub fn is_stderr_open(&self) -> (r: bool)
        ensures
            r == self.stderr_open(),
    {
        self.stderr_open
    }

    pub fn is_stdin_open(&self) -> (r: bool)
        ensures
            r == self.stdin_open(),
    {
        self.stdin_open
    }

    pub fn is_source_done(&self) -> (r: bool)
        ensures
            r == self.source_done(),
    {
        self.source_done
    }

    /// The bytes still owed to the child's stdin.
    pub fn residual_bytes(&self) -> (r: &Vec<u8>)
        ensures
            r@ == self.residual(),
    {
        &self.residual
    }

    /// A zero-length stdout read: that side is closed; the stream ends
    /// when stderr is closed too.
    pub fn on_stdout_eof(&mut self) -> (end: bool)
        requires
            old(self).wf(),
            old(self).stdout_open(),
        ensures
            final(self).wf(),
            !final(self).stdout_open(),
            final(self).stderr_open() == old(self).stderr_open(),
            final(self).stdin_open() == old(self).stdin_open(),
            final(self).source_done() == old(self).source_done(),
            final(self).residual() == old(self).residual(),
            final(self).fed() == old(self).fed(),
            final(self).written() == old(self).written(),
            final(self).sink_failed() == old(self).sink_failed(),
            end == !old(self).stderr_open(),
    {
        self.stdout_open = false;
        !self.stderr_open
    }

    /// A zero-length stderr read, the mirror case.
    pub fn on_stderr_eof(&mut self) -> (end: bool)
        requires
            old(self).wf(),
            old(self).stderr_open(),
        ensures
            final(self).wf(),
            !final(self).stderr_open(),
            final(self).stdout_open() == old(self).stdout_open(),
            final(self).stdin_open() == old(self).stdin_open(),
            final(self).source_done() == old(self).source_done(),
            final(self).residual() == old(self).residual(),
            final(self).fed() == old(self).fed(),
            final(self).written() == old(self).written(),
            final(self).sink_failed() == old(self).sink_failed(),
            end == !old(self).stdout_open(),
    {
        self.stderr_open = false;
        !self.stdout_open
    }

    /// A failed stdout read closes that side; the poll reports an error
    /// item.
    pub fn on_stdout_error(&mut self)
        requires
            old(self).wf(),
            old(self).stdout_open(),
        ensures
            final(self).wf(),
            !final(self).stdout_open(),
            final(self).stderr_open() == old(self).stderr_open(),
            final(self).stdin_open() == old(self).stdin_open(),
            final(self).source_done() == old(self).source_done(),
            final(self).residual() == old(self).residual(),
            final(self).fed() == old(self).fed(),
            final(self).written() == old(self).written(),
            final(self).sink_failed() == old(self).sink_failed(),
    {
        self.stdout_open = false;
    }

    /// A failed stderr read, the mirror case.
    pub fn on_stderr_error(&mut self)
        requires
            old(self).wf(),
            old(self).stderr_open(),
        ensures
            final(self).wf(),
            !final(self).stderr_open(),
            final(self).stdout_open() == old(self).stdout_open(),
            final(self).stdin_open() == old(self).stdin_open(),
            final(self).source_done() == old(self).source_done(),
            final(self).residual() == old(self).residual(),
            final(self).fed() == old(self).fed(),
            final(self).written() == old(self).written(),
            final(self).sink_failed() == old(self).sink_failed(),
    {
        self.stderr_open = false;
    }

    /// One chunk pulled from the request-body source. The source is only
    /// pulled while no residual is pending, so the chunk becomes the whole
    /// residual.
    pub fn on_source_chunk(&mut self, chunk: Vec<u8>)
        requires
            old(self).wf(),
            old(self).stdin_open(),
            !old(self).source_done(),
            old(self).residual().len() == 0,
        ensures
            final(self).wf(),
            final(self).stdout_open() == old(self).stdout_open(),
            final(self).stderr_open() == old(self).stderr_open(),
            final(self).stdin_open(),
            !final(self).source_done(),
            final(self).residual() == chunk@,
            final(self).fed() == old(self).fed() + chunk@,
            final(self).written() == old(self).written(),
            final(self).sink_failed() == old(self).sink_failed(),
    {
        proof {
            assert(old(self).fed@ =~= old(self).written@ + old(self).residual@);
            assert(old(self).fed@ =~= old(self).written@);
        }
        self.fed = Ghost(self.fed@ + chunk@);
        self.residual = chunk;
        proof {
            assert(self.fed@ =~= self.written@ + self.residual@);
        }
    }

    /// The source reported end of stream: stdin is half-closed exactly
    /// now if the residual is flushed, or right after it is.
    pub fn on_source_end(&mut self) -> (close_stdin: bool)
        requires
            old(self).wf(),
            !old(self).source_done(),
        ensures
            final(self).wf(),
            final(self).stdout_open() == old(self).stdout_open(),
            final(self).stderr_open() == old(self).stderr_open(),
            final(self).source_done(),
            final(self).residual() == old(self).residual(),
            final(self).fed() == old(self).fed(),
            final(self).written() == old(self).written(),
            final(self).sink_failed() == old(self).sink_failed(),
            close_stdin == (old(self).stdin_open() && old(self).residual().len() == 0),
            final(self).stdin_open() == (old(self).stdin_open() && old(self).residual().len()
                != 0),
    {
        self.source_done = true;
        if self.stdin_open && self.residual.len() == 0 {
            self.stdin_open = false;
            true
        } else {
            false
        }
    }

    /// The source reported an error: it is spent; a pending chunk is
    /// dropped only by the source itself, the residual stays.
    pub fn on_source_error(&mut self)
        requires
            old(self).wf(),
            !old(self).source_done(),
        ensures
            final(self).wf(),
            final(self).stdout_open() == old(self).stdout_open(),
            final(self).stderr_open() == old(self).stderr_open(),
            final(self).stdin_open() == old(self).stdin_open(),
            final(self).source_done(),
            final(self).residual() == old(self).residual(),
            final(self).fed() == old(self).fed(),
            final(self).written() == old(self).written(),
            final(self).sink_failed() == old(self).sink_failed(),
    {
        self.source_done = true;
    }

    /// The child's stdin accepted `n` bytes of the residual. A zero-size
    /// accepted write closes the sink with the rest undelivered; a short
    /// write keeps the tail; a full write after end of source half-closes
    /// stdin.
    pub fn on_stdin_wrote(&mut self, n: usize) -> (close_stdin: bool)
        requires
            old(self).wf(),
            old(self).stdin_open(),
            !old(self).sink_failed(),
            0 < old(self).residual().len(),
            n <= old(self).residual().len(),
        ensures
            final(self).wf(),
            final(self).stdout_open() == old(self).stdout_open(),
            final(self).stderr_open() == old(self).stderr_open(),
            final(self).source_done() == old(self).source_done(),
            final(self).fed() == old(self).fed(),
            n == 0 ==> {
                &&& final(self).sink_failed()
                &&& !final(self).stdin_open()
                &&& final(self).written() == old(self).written()
                &&& close_stdin
            },
            n > 0 ==> {
                &&& !final(self).sink_failed()
                &&& final(self).written() == old(self).written() + old(self).residual().take(
                    n as int,
                )
                &&& final(self).residual() == old(self).residual().skip(n as int)
                &&& final(self).stdin_open() == !(final(self).residual().len() == 0 && old(
                    self,
                ).source_done())
                &&& close_stdin == (final(self).residual().len() == 0 && old(self).source_done())
            },
    {
        if n == 0 {
            self.sink_failed = Ghost(true);
            self.stdin_open = false;
            self.residual = Vec::new();
            return true;
        }
        let ghost rpre = self.residual@;
        let rest = self.residual.split_off(n);
        self.written = Ghost(self.written@ + self.residual@);
        proof {
            assert(self.residual@ =~= rpre.take(n as int));
            assert(rest@ =~= rpre.skip(n as int));
        }
        self.residual = rest;
        proof {
            if !self.sink_failed@ {
                assert(self.fed@ =~= self.written@ + self.residual@);
            }
        }
        if self.residual.len() == 0 && self.source_done {
            self.stdin_open = false;
            true
        } else {
            false
        }
    }

    /// Writing to the child's stdin failed: the sink is closed, the
    /// residual is discarded, and the poll reports an error item.
    pub fn on_stdin_error(&mut self)
        requires
            old(self).wf(),
            old(self).stdin_open(),
        ensures
            final(self).wf(),
            final(self).stdout_open() == old(self).stdout_open(),
            final(self).stderr_open() == old(self).stderr_open(),
            !final(self).stdin_open(),
            final(self).source_done() == old(self).source_done(),
            final(self).fed() == old(self).fed(),
            final(self).written() == old(self).written(),
            final(self).sink_failed(),
            final(self).residual().len() == 0,
    {
        self.sink_failed = Ghost(true);
        self.stdin_open = false;
        self.residual = Vec::new();
    }
}

/// Body passthrough: once stdin is closed without a sink failure, the
/// bytes the child received on stdin are exactly the request-body bytes,
/// in source order.
pub proof fn lemma_body_passthrough(p: &PumpState)
    requires
        p.wf(),
        !p.sink_failed(),
        !p.stdin_open(),
    ensures
        p.written() == p.fed(),
{
    assert(p.fed() =~= p.written() + p.residual());
    assert(p.residual().len() == 0);
    assert(p.written() + p.residual() =~= p.written());
}

} // verus!
