//! Running the compiler: what is kept of its output, and how it is stopped.
//!
//! The compiler is the only child process. Its stdout and stderr share one pipe
//! so the order of the output matches the order it was written; a runaway
//! error cascade can print hundreds of megabytes, so only so much is kept.
//! Spawning, reading the pipe and waiting are the caller's; what is kept of
//! each chunk, and the text that comes out at the end, are decided here.
use crate::textops::{chars_of, decimal, decimal_of, decode_lossy, push_chars, push_str, string_from_chars, utf8_lossy};
use vstd::prelude::*;

verus! {

/// Windows: do not flash a console window when a GUI process spawns a child.
pub const CREATE_NO_WINDOW: u32 = 134217728;

/// How much is read from the pipe at a time.
pub const READ_CHUNK: usize = 8192;

/// The output collected so far, against a budget.
pub struct Capture {
    cap: usize,
    bytes: Vec<u8>,
    dropped: bool,
}

pub struct CaptureSpec {
    pub cap: nat,
    pub bytes: Seq<u8>,
    pub dropped: bool,
}

impl View for Capture {
    type V = CaptureSpec;

    closed spec fn view(&self) -> CaptureSpec {
        CaptureSpec { cap: self.cap as nat, bytes: self.bytes@, dropped: self.dropped }
    }
}

/// Everything the compiler wrote, chunk after chunk.
pub open spec fn concat(chunks: Seq<Seq<u8>>) -> Seq<u8>
    decreases chunks.len(),
{
    if chunks.len() == 0 {
        Seq::empty()
    } else {
        concat(chunks.drop_last()) + chunks.last()
    }
}

/// One chunk added: as much as there is room for, and a note that some was
/// dropped when it did not all fit.
pub open spec fn after_chunk(c: CaptureSpec, chunk: Seq<u8>) -> CaptureSpec {
    let room: nat = if c.bytes.len() >= c.cap {
        0
    } else {
        (c.cap - c.bytes.len()) as nat
    };
    CaptureSpec {
        cap: c.cap,
        bytes: c.bytes + chunk.take(if chunk.len() <= room {
            chunk.len() as int
        } else {
            room as int
        }),
        dropped: c.dropped || chunk.len() > room,
    }
}

/// The capture after the chunks, from empty.
pub open spec fn captured(chunks: Seq<Seq<u8>>, cap: nat) -> CaptureSpec
    decreases chunks.len(),
{
    if chunks.len() == 0 {
        CaptureSpec { cap, bytes: Seq::empty(), dropped: false }
    } else {
        after_chunk(captured(chunks.drop_last(), cap), chunks.last())
    }
}

/// What is kept is exactly the first `cap` bytes of everything the compiler
/// wrote, in order, and it is marked as cut short exactly when there was more.
pub proof fn law_the_capture_is_the_start_of_the_output(chunks: Seq<Seq<u8>>, cap: nat)
    ensures
        captured(chunks, cap).bytes == concat(chunks).take(
            if concat(chunks).len() <= cap {
                concat(chunks).len() as int
            } else {
                cap as int
            },
        ),
        captured(chunks, cap).dropped == (concat(chunks).len() > cap),
        captured(chunks, cap).cap == cap,
    decreases chunks.len(),
{
    if chunks.len() > 0 {
        let prev = chunks.drop_last();
        law_the_capture_is_the_start_of_the_output(prev, cap);
        let all = concat(chunks);
        let before = concat(prev);
        let last = chunks.last();
        assert(all == before + last);
        let c = captured(prev, cap);
        if before.len() <= cap {
            assert(c.bytes =~= before);
            if last.len() <= cap - before.len() {
                assert(captured(chunks, cap).bytes =~= all.take(all.len() as int));
            } else {
                assert(captured(chunks, cap).bytes =~= all.take(cap as int));
            }
        } else {
            assert(c.bytes =~= before.take(cap as int));
            assert(captured(chunks, cap).bytes =~= all.take(cap as int));
        }
    }
}

impl Capture {
    /// An empty capture that keeps at most `cap` bytes: the room left in the
    /// build's budget, not a fresh allowance per file.
    pub fn new(cap: usize) -> (c: Capture)
        ensures
            c@ == (CaptureSpec { cap: cap as nat, bytes: Seq::empty(), dropped: false }),
    {
        Capture { cap, bytes: Vec::new(), dropped: false }
    }

    /// Add a chunk read from the pipe.
    pub fn push(&mut self, chunk: &[u8])
        requires
            old(self)@.bytes.len() <= old(self)@.cap,
        ensures
            final(self)@ == after_chunk(old(self)@, chunk@),
            final(self)@.bytes.len() <= final(self)@.cap,
    {
        let room = self.cap.saturating_sub(self.bytes.len());
        if chunk.len() > room {
            self.dropped = true;
        }
        let n = if chunk.len() <= room {
            chunk.len()
        } else {
            room
        };
        let ghost before = self.bytes@;
        let ghost cap = self.cap;
        let ghost dropped = self.dropped;
        assert(before.len() + n <= cap);
        for i in 0..n
            invariant
                n <= chunk@.len(),
                self.cap == cap,
                self.dropped == dropped,
                self.bytes@ == before + chunk@.take(i as int),
        {
            self.bytes.push(chunk[i]);
            assert(self.bytes@ =~= before + chunk@.take(i + 1));
        }
    }

    pub fn bytes(&self) -> (b: &[u8])
        ensures
            b@ == self@.bytes,
    {
        self.bytes.as_slice()
    }

    pub fn dropped(&self) -> (r: bool)
        ensures
            r == self@.dropped,
    {
        self.dropped
    }
}

/// An integer as `{}` prints it.
pub open spec fn int_text(x: int) -> Seq<char> {
    if x < 0 {
        "-"@ + decimal((-x) as nat)
    } else {
        decimal(x as nat)
    }
}

/// How the run ended, as far as the text is concerned.
pub struct Ending {
    /// The pump thread panicked, so some output may be missing.
    pub pump_failed: bool,
    /// The exit code; none when a signal ended it.
    pub code: Option<i32>,
    /// The user asked the build to stop.
    pub cancelled: bool,
    /// The signal that ended it, where the platform has signals.
    pub signal: Option<i32>,
}

/// The compiler's output as text, with a line for each way it is incomplete:
/// cut short, partly lost, or ended by a signal nobody asked for. Cancelling
/// is the one legitimate way to be killed, and says so for itself.
pub open spec fn spec_output_text(bytes: Seq<u8>, dropped: bool, e: Ending) -> Seq<char> {
    utf8_lossy(bytes) + (if dropped {
        "\n… (output truncated)\n"@
    } else {
        Seq::empty()
    }) + (if e.pump_failed {
        "\n… (some compiler output could not be captured)\n"@
    } else {
        Seq::empty()
    }) + (match (e.code, e.cancelled, e.signal) {
        (None, false, Some(sig)) => "\n… the compiler itself stopped unexpectedly (signal "@
            + int_text(sig as int) + ")\n"@,
        _ => Seq::empty(),
    })
}

fn push_int(v: &mut Vec<char>, x: i32)
    ensures
        final(v)@ == old(v)@ + int_text(x as int),
{
    if x < 0 {
        push_str(v, "-");
        let m: i64 = -(x as i64);
        let d = decimal_of(m as u64);
        push_chars(v, d.as_slice());
        proof {
            reveal_strlit("-");
        }
    } else {
        let d = decimal_of(x as u64);
        push_chars(v, d.as_slice());
    }
}

impl Capture {
    /// The exit code and the text, once the compiler has exited and the pipe
    /// is drained.
    pub fn finish(self, e: Ending) -> (r: (Option<i32>, String))
        ensures
            r.0 == e.code,
            r.1@ == spec_output_text(self@.bytes, self@.dropped, e),
    {
        let mut v = decode_lossy(self.bytes.as_slice());
        let ghost base = v@;
        if self.dropped {
            push_str(&mut v, "\n… (output truncated)\n");
        }
        let ghost a = v@;
        if e.pump_failed {
            push_str(&mut v, "\n… (some compiler output could not be captured)\n");
        }
        let ghost b = v@;
        match (e.code, e.cancelled, e.signal) {
            (None, false, Some(sig)) => {
                push_str(&mut v, "\n… the compiler itself stopped unexpectedly (signal ");
                push_int(&mut v, sig);
                push_str(&mut v, ")\n");
            },
            _ => {},
        }
        assert(v@ =~= spec_output_text(self@.bytes, self@.dropped, e));
        (e.code, string_from_chars(v.as_slice()))
    }
}

/// The program and arguments that stop a compile and everything it started:
/// the whole process group on Unix, the whole tree on Windows. Never a shell.
pub fn stop_command(pid: u32, windows: bool) -> (r: (&'static str, Vec<String>))
    ensures
        windows ==> r.0@ == "taskkill"@ && crate::textops::views(r.1@) == seq!["/T"@, "/F"@, "/PID"@, decimal(pid as nat)],
        !windows ==> r.0@ == "kill"@ && crate::textops::views(r.1@) == seq!["-KILL"@, "-"@ + decimal(pid as nat)],
{
    let d = decimal_of(pid as u64);
    let mut v: Vec<String> = Vec::new();
    if windows {
        v.push(crate::textops::owned("/T"));
        v.push(crate::textops::owned("/F"));
        v.push(crate::textops::owned("/PID"));
        v.push(string_from_chars(d.as_slice()));
        assert(crate::textops::views(v@) =~= seq!["/T"@, "/F"@, "/PID"@, decimal(pid as nat)]);
        ("taskkill", v)
    } else {
        let mut m: Vec<char> = Vec::new();
        push_str(&mut m, "-");
        push_chars(&mut m, d.as_slice());
        v.push(crate::textops::owned("-KILL"));
        v.push(string_from_chars(m.as_slice()));
        assert(crate::textops::views(v@) =~= seq!["-KILL"@, "-"@ + decimal(pid as nat)]);
        ("kill", v)
    }
}

} // verus!
