//! The host side of the sandboxed-binary convention: the staging buffer through
//! which results reach the guest, the guest's error reports, and a run's outcome.

use vstd::prelude::*;
use vstd::string::StringExecFns;

verus! {

/// The kind code of a report of a normal failure.
pub const ERROR_TYPE_NORMAL: i32 = 1;

/// The kind code of a report of a panic.
pub const ERROR_TYPE_PANIC: i32 = 2;

#[derive(Debug, Clone, Copy, PartialEq, Eq, Structural)]
pub enum SandboxError {
    /// A call started while the previous call's descriptor was still open.
    DescriptorStillOpen,
    /// The handle names no open descriptor.
    UnknownDescriptor,
    /// No fresh handles are left.
    HandlesExhausted,
    /// The guest's buffer cannot take the whole result.
    BufferTooSmall,
    /// A pointer and length reach outside the guest's memory.
    OutOfBounds,
    /// Guest bytes that should be text are not UTF-8.
    NotText,
}

/// A result staged for the guest: its handle, whether it is an error, its bytes,
/// and how many of them the guest has read.
pub struct Staged {
    pub handle: u64,
    pub is_err: bool,
    pub data: Vec<u8>,
    pub read_pos: usize,
}

/// The single staging area of one execution context. Each handle is used once,
/// so a handle that was closed is never mistaken for a later one.
pub struct CallBuffer {
    pub call_buffer: Option<Staged>,
    pub next_handle: u64,
}

impl CallBuffer {
    pub open spec fn wf(&self) -> bool {
        self.call_buffer matches Some(s) ==> s.read_pos <= s.data@.len() && s.handle < self.next_handle
    }

    /// Whether `d` names the open descriptor.
    pub open spec fn is_open(&self, d: u64) -> bool {
        self.call_buffer matches Some(s) && s.handle == d
    }

    pub fn new() -> (r: CallBuffer)
        ensures
            r.wf(),
            r.call_buffer is None,
            r.next_handle == 1,
    {
        CallBuffer { call_buffer: None, next_handle: 1 }
    }

    /// Stages the result of a call and returns its descriptor; refused while the
    /// previous descriptor is open.
    pub fn stage(&mut self, result: Result<Vec<u8>, Vec<u8>>) -> (r: Result<u64, SandboxError>)
        requires
            old(self).wf(),
        ensures
            final(self).wf(),
            old(self).call_buffer is Some ==> r == Err::<u64, SandboxError>(SandboxError::DescriptorStillOpen)
                && *final(self) == *old(self),
            old(self).call_buffer is None && old(self).next_handle == u64::MAX ==> r == Err::<u64, SandboxError>(
                SandboxError::HandlesExhausted) && *final(self) == *old(self),
            old(self).call_buffer is None && old(self).next_handle < u64::MAX ==> {
                &&& r == Ok::<u64, SandboxError>(old(self).next_handle)
                &&& final(self).next_handle == old(self).next_handle + 1
                &&& final(self).call_buffer matches Some(s) && s.handle == old(self).next_handle && s.read_pos == 0
                    && s.is_err == (result is Err) && s.data@ == match result {
                    Ok(v) => v@,
                    Err(v) => v@,
                }
            },
    {
        if self.call_buffer.is_some() {
            return Err(SandboxError::DescriptorStillOpen);
        }
        if self.next_handle == u64::MAX {
            return Err(SandboxError::HandlesExhausted);
        }
        let handle = self.next_handle;
        let (is_err, data) = match result {
            Ok(v) => (false, v),
            Err(v) => (true, v),
        };
        self.call_buffer = Some(Staged { handle, is_err, data, read_pos: 0 });
        self.next_handle = handle + 1;
        Ok(handle)
    }

    /// Whether descriptor `d` holds an error.
    pub fn descriptor_is_err(&self, d: u64) -> (r: Result<bool, SandboxError>)
        ensures
            self.is_open(d) ==> r == Ok::<bool, SandboxError>(self.call_buffer->Some_0.is_err),
            !self.is_open(d) ==> r == Err::<bool, SandboxError>(SandboxError::UnknownDescriptor),
    {
        match &self.call_buffer {
            Some(s) => {
                if s.handle == d {
                    Ok(s.is_err)
                } else {
                    Err(SandboxError::UnknownDescriptor)
                }
            },
            None => Err(SandboxError::UnknownDescriptor),
        }
    }

    /// The next at most `buf_len` unread bytes of descriptor `d`; empty once all
    /// have been read.
    pub fn descriptor_read(&mut self, d: u64, buf_len: usize) -> (r: Result<Vec<u8>, SandboxError>)
        requires
            old(self).wf(),
        ensures
            final(self).wf(),
            !old(self).is_open(d) ==> r == Err::<Vec<u8>, SandboxError>(SandboxError::UnknownDescriptor)
                && *final(self) == *old(self),
            old(self).is_open(d) ==> {
                let s = old(self).call_buffer->Some_0;
                let n = if buf_len < s.data@.len() - s.read_pos { buf_len as int } else { s.data@.len() - s.read_pos };
                &&& r is Ok
                &&& r->Ok_0@ == s.data@.subrange(s.read_pos as int, s.read_pos + n)
                &&& final(self).next_handle == old(self).next_handle
                &&& final(self).call_buffer matches Some(t) && t.handle == s.handle && t.is_err == s.is_err
                    && t.data@ == s.data@ && t.read_pos == s.read_pos + n
            },
    {
        match &mut self.call_buffer {
            Some(s) => {
                if s.handle != d {
                    return Err(SandboxError::UnknownDescriptor);
                }
                let remaining = s.data.len() - s.read_pos;
                let n = if buf_len < remaining { buf_len } else { remaining };
                let mut out: Vec<u8> = Vec::new();
                let mut i: usize = 0;
                while i < n
                    invariant
                        0 <= i <= n,
                        s.read_pos + n <= s.data@.len(),
                        s.data@.len() <= usize::MAX,
                        out@ == s.data@.subrange(s.read_pos as int, s.read_pos + i),
                    decreases n - i,
                {
                    out.push(s.data[s.read_pos + i]);
                    i = i + 1;
                    assert(out@ =~= s.data@.subrange(s.read_pos as int, s.read_pos + i));
                }
                s.read_pos = s.read_pos + n;
                Ok(out)
            },
            None => Err(SandboxError::UnknownDescriptor),
        }
    }

    /// Releases descriptor `d`, so that the next call can stage its result.
    pub fn descriptor_close(&mut self, d: u64) -> (r: Result<(), SandboxError>)
        requires
            old(self).wf(),
        ensures
            final(self).wf(),
            final(self).next_handle == old(self).next_handle,
            old(self).is_open(d) ==> r is Ok && final(self).call_buffer is None,
            !old(self).is_open(d) ==> r == Err::<(), SandboxError>(SandboxError::UnknownDescriptor)
                && *final(self) == *old(self),
    {
        let open = match &self.call_buffer {
            Some(s) => s.handle == d,
            None => false,
        };
        if !open {
            return Err(SandboxError::UnknownDescriptor);
        }
        self.call_buffer = None;
        Ok(())
    }

    /// The length of the whole staged result, `None` when nothing is staged.
    pub fn len(&self) -> (r: Option<usize>)
        ensures
            match self.call_buffer {
                Some(s) => r == Some(s.data@.len() as usize),
                None => r is None,
            },
    {
        match &self.call_buffer {
            Some(s) => Some(s.data.len()),
            None => None,
        }
    }

    /// Hands the whole staged result to a guest buffer of `buf_len` bytes and
    /// releases it.
    pub fn take(&mut self, buf_len: usize) -> (r: Result<Vec<u8>, SandboxError>)
        requires
            old(self).wf(),
        ensures
            final(self).wf(),
            final(self).next_handle == old(self).next_handle,
            match old(self).call_buffer {
                None => r == Err::<Vec<u8>, SandboxError>(SandboxError::UnknownDescriptor) && *final(self) == *old(self),
                Some(s) => if s.data@.len() <= buf_len {
                    r is Ok && r->Ok_0@ == s.data@ && final(self).call_buffer is None
                } else {
                    r == Err::<Vec<u8>, SandboxError>(SandboxError::BufferTooSmall) && *final(self) == *old(self)
                },
            },
    {
        let fits = match &self.call_buffer {
            None => return Err(SandboxError::UnknownDescriptor),
            Some(s) => s.data.len() <= buf_len,
        };
        if !fits {
            return Err(SandboxError::BufferTooSmall);
        }
        let staged = self.call_buffer.take();
        match staged {
            Some(s) => Ok(s.data),
            None => Err(SandboxError::UnknownDescriptor),
        }
    }
}

/// A failure that the guest reported.
#[derive(Debug, Clone, PartialEq, Eq)]
pub enum WasmError {
    /// The guest decided to fail.
    Normal(String),
    /// The guest panicked.
    Panic(String),
}

/// What an error report of kind `kind` with message `msg` records.
pub open spec fn report_spec(kind: i32, msg: Seq<char>) -> (bool, Seq<char>) {
    if kind == ERROR_TYPE_NORMAL {
        (false, msg)
    } else if kind == ERROR_TYPE_PANIC {
        (true, msg)
    } else {
        (false, "Unknown error type: "@ + msg)
    }
}

pub open spec fn error_view(e: WasmError) -> (bool, Seq<char>) {
    match e {
        WasmError::Normal(m) => (false, m@),
        WasmError::Panic(m) => (true, m@),
    }
}

/// Turns an error report into a recorded failure; an unknown kind counts as normal.
pub fn classify_report(kind: i32, msg: &str) -> (r: WasmError)
    ensures
        error_view(r) == report_spec(kind, msg@),
{
    if kind == ERROR_TYPE_NORMAL {
        WasmError::Normal(msg.to_string())
    } else if kind == ERROR_TYPE_PANIC {
        WasmError::Panic(msg.to_string())
    } else {
        let mut m = String::from_str("Unknown error type: ");
        m.append(msg);
        WasmError::Normal(m)
    }
}

/// How the guest's entry point ended.
#[derive(Debug, Clone, PartialEq, Eq)]
pub enum GuestExit {
    /// It returned this status.
    Returned(i32),
    /// It trapped, with the engine's message.
    Trapped(String),
}

/// One line per reported failure.
pub open spec fn error_line(e: WasmError) -> Seq<char> {
    match e {
        WasmError::Normal(m) => "Error: "@ + m@,
        WasmError::Panic(m) => "Panic: "@ + m@,
    }
}

/// The lines of `errors`, each after a newline.
pub open spec fn error_lines(errors: Seq<WasmError>) -> Seq<char>
    decreases errors.len(),
{
    if errors.len() == 0 {
        Seq::empty()
    } else {
        error_lines(errors.drop_last()) + "\n"@ + error_line(errors.last())
    }
}

/// The outcome of a run: success only for status zero; otherwise a message that
/// lists the reported failures, or says that none was reported.
pub open spec fn outcome_spec(exit: GuestExit, errors: Seq<WasmError>) -> Result<(), Seq<char>> {
    match exit {
        GuestExit::Returned(code) => if code == 0 {
            Ok(())
        } else if errors.len() > 0 {
            Err("WASM execution failed:"@ + error_lines(errors))
        } else {
            Err("WASM execution failed with unknown error"@)
        },
        GuestExit::Trapped(t) => if errors.len() > 0 {
            Err("WASM execution trapped:"@ + error_lines(errors))
        } else {
            Err("WASM execution trapped: "@ + t@)
        },
    }
}

fn append_error_lines(out: &mut String, errors: &Vec<WasmError>)
    ensures
        final(out)@ == old(out)@ + error_lines(errors@),
{
    let mut i: usize = 0;
    assert(errors@.subrange(0, 0) =~= Seq::<WasmError>::empty());
    assert(out@ =~= old(out)@ + error_lines(errors@.subrange(0, 0)));
    while i < errors.len()
        invariant
            0 <= i <= errors@.len(),
            out@ == old(out)@ + error_lines(errors@.subrange(0, i as int)),
        decreases errors@.len() - i,
    {
        let ghost before = out@;
        out.append("\n");
        match &errors[i] {
            WasmError::Normal(m) => {
                out.append("Error: ");
                out.append(m.as_str());
            },
            WasmError::Panic(m) => {
                out.append("Panic: ");
                out.append(m.as_str());
            },
        }
        proof {
            assert(errors@.subrange(0, i + 1).drop_last() =~= errors@.subrange(0, i as int));
            assert(out@ =~= old(out)@ + error_lines(errors@.subrange(0, i + 1)));
        }
        i = i + 1;
    }
    assert(errors@.subrange(0, errors@.len() as int) =~= errors@);
}

/// The outcome of a run from how the entry point ended and what the guest reported.
pub fn run_outcome(exit: &GuestExit, errors: &Vec<WasmError>) -> (r: Result<(), String>)
    ensures
        match r {
            Ok(()) => outcome_spec(*exit, errors@) == Ok::<(), Seq<char>>(()),
            Err(m) => outcome_spec(*exit, errors@) == Err::<(), Seq<char>>(m@),
        },
{
    match exit {
        GuestExit::Returned(code) => {
            if *code == 0 {
                Ok(())
            } else if errors.len() > 0 {
                let mut m = String::from_str("WASM execution failed:");
                append_error_lines(&mut m, errors);
                Err(m)
            } else {
                Err(String::from_str("WASM execution failed with unknown error"))
            }
        },
        GuestExit::Trapped(t) => {
            if errors.len() > 0 {
                let mut m = String::from_str("WASM execution trapped:");
                append_error_lines(&mut m, errors);
                Err(m)
            } else {
                let mut m = String::from_str("WASM execution trapped: ");
                m.append(t.as_str());
                Err(m)
            }
        },
    }
}

/// A run that returns a non-zero status after reporting a normal failure fails,
/// and its message names that failure as an error, not a panic.
pub proof fn lemma_reported_failure_fails(code: i32, msg: Seq<char>, e: WasmError)
    requires
        code != 0,
        error_view(e) == report_spec(ERROR_TYPE_NORMAL, msg),
    ensures
        e matches WasmError::Normal(m) && m@ == msg,
        outcome_spec(GuestExit::Returned(code), seq![e]) == Err::<(), Seq<char>>(
            "WASM execution failed:"@ + "\n"@ + "Error: "@ + msg,
        ),
{
    let s = seq![e];
    assert(s.drop_last() =~= Seq::<WasmError>::empty());
    assert(error_lines(s) == error_lines(s.drop_last()) + "\n"@ + error_line(e));
    assert(("WASM execution failed:"@ + (Seq::<char>::empty() + "\n"@ + error_line(e))) =~= (
        "WASM execution failed:"@ + "\n"@ + "Error: "@ + msg));
}

} // verus!
