//! Bounding what a command writes, and turning the way it ended into a result.
//!
//! Spawning, waiting and signalling are done by the caller; this module keeps
//! the head/tail line budget of each stream, decides step by step when a
//! process that outlives its budget is signalled and killed, and decides what
//! a run amounts to.

use vstd::prelude::*;
use std::collections::VecDeque;
use crate::config::TerminationSignal;
use crate::error::ExecutionError;
use crate::text::{decimal, join_seqs, join_strings, strip_crlf, strs_view, trim_crlf, u64_to_string};

verus! {

/// Hard ceiling (256 MiB) on how many bytes are read from one stream (stdout or
/// stderr) before reading stops and the child is left to be terminated.
pub const MAX_STREAM_BYTES: usize = 268435456;

/// Execution result
#[derive(Debug, Clone)]
pub struct ExecutionResult {
    /// Exit code (0 for success)
    pub exit_code: i32,
    /// STDOUT content
    pub stdout: String,
    /// STDERR content
    pub stderr: String,
    /// Whether execution was stopped due to stop_after
    pub stopped_after: bool,
}

/// Position of the first line kept in the tail, once `n` lines have been read
/// with a head budget `h` and a tail budget `t`.
pub open spec fn tail_start(n: int, h: int, t: int) -> int {
    if n <= h {
        n
    } else if n - t > h {
        n - t
    } else {
        h
    }
}

/// The lines a collector with budgets `h` and `t` keeps at its head.
pub open spec fn kept_head(lines: Seq<Seq<char>>, h: int, t: int) -> Seq<Seq<char>> {
    if h == 0 && t == 0 {
        seq![]
    } else if lines.len() <= h {
        lines
    } else {
        lines.take(h)
    }
}

/// The lines a collector with budgets `h` and `t` keeps at its tail: every line
/// when both budgets are 0, otherwise the last `t` lines that are not in the head.
pub open spec fn kept_tail(lines: Seq<Seq<char>>, h: int, t: int) -> Seq<Seq<char>> {
    if h == 0 && t == 0 {
        lines
    } else if t == 0 {
        seq![]
    } else {
        lines.subrange(tail_start(lines.len() as int, h, t), lines.len() as int)
    }
}

/// The line that stands where lines were left out.
pub open spec fn omission_marker(omitted: nat) -> Seq<char> {
    "\n... ("@ + decimal(omitted) + " lines omitted) ...\n"@
}

/// The text rendered from a head, a tail and a line count, with the budgets `h` and `t`.
pub open spec fn render_text(
    head: Seq<Seq<char>>,
    tail: Seq<Seq<char>>,
    total: int,
    h: u64,
    t: u64,
) -> Seq<char> {
    let omitted = total - head.len() - tail.len();
    if h == 0 && t == 0 {
        join_seqs(tail, "\n"@)
    } else if h > 0 && t > 0 && omitted > 0 {
        join_seqs(head, "\n"@) + omission_marker(omitted as nat) + join_seqs(tail, "\n"@)
    } else if h > 0 && t == 0 {
        join_seqs(head, "\n"@)
    } else if t > 0 && h == 0 {
        join_seqs(tail, "\n"@)
    } else {
        join_seqs(head + tail, "\n"@)
    }
}

/// What a stream bounded to its first `h` and last `t` lines reads as: every
/// line when both budgets are 0; the first `h` lines when `t` is 0; the last
/// `t` lines when `h` is 0; and otherwise every line, or, when there are more
/// than `h + t`, the first `h`, a line counting the others, and the last `t`.
pub open spec fn bounded_text(lines: Seq<Seq<char>>, h: nat, t: nat) -> Seq<char> {
    let n = lines.len();
    if h == 0 && t == 0 {
        join_seqs(lines, "\n"@)
    } else if t == 0 {
        join_seqs(if n <= h { lines } else { lines.take(h as int) }, "\n"@)
    } else if h == 0 {
        join_seqs(if n <= t { lines } else { lines.skip(n - t) }, "\n"@)
    } else if n > h + t {
        join_seqs(lines.take(h as int), "\n"@) + omission_marker((n - h - t) as nat) + join_seqs(
            lines.skip(n - t),
            "\n"@,
        )
    } else {
        join_seqs(lines, "\n"@)
    }
}

/// Output collected from a child stream, bounded to a head/tail line budget
/// and a byte ceiling.
pub struct CappedOutput {
    /// First `keep_head` lines (in order).
    head: Vec<String>,
    /// Last `keep_tail` lines (in order); every line when both budgets are 0.
    tail: VecDeque<String>,
    /// Total number of lines observed (may exceed head + tail).
    total_lines: usize,
    keep_head: usize,
    keep_tail: usize,
    bytes: usize,
    max_bytes: usize,
    /// Every line read so far, without its line ending.
    lines: Ghost<Seq<Seq<char>>>,
}

impl CappedOutput {
    /// Every line read so far, without its line ending.
    pub closed spec fn lines(&self) -> Seq<Seq<char>> {
        self.lines@
    }

    pub closed spec fn head_view(&self) -> Seq<Seq<char>> {
        strs_view(self.head@)
    }

    pub closed spec fn tail_view(&self) -> Seq<Seq<char>> {
        strs_view(self.tail@)
    }

    pub closed spec fn total(&self) -> int {
        self.total_lines as int
    }

    pub closed spec fn head_budget(&self) -> nat {
        self.keep_head as nat
    }

    pub closed spec fn tail_budget(&self) -> nat {
        self.keep_tail as nat
    }

    pub closed spec fn bytes_read(&self) -> nat {
        self.bytes as nat
    }

    pub closed spec fn byte_ceiling(&self) -> nat {
        self.max_bytes as nat
    }

    /// Reading has stopped: a line brought the byte count to the ceiling.
    pub closed spec fn is_done(&self) -> bool {
        self.total_lines > 0 && self.bytes >= self.max_bytes
    }

    /// The collector keeps exactly the head and tail of what it has read.
    pub closed spec fn wf(&self) -> bool {
        &&& self.head_view() == kept_head(self.lines@, self.keep_head as int, self.keep_tail as int)
        &&& self.tail_view() == kept_tail(self.lines@, self.keep_head as int, self.keep_tail as int)
        &&& self.total_lines == self.lines@.len()
        &&& self.total_lines <= self.bytes
    }

    /// An empty collector keeping the first `keep_head` and the last
    /// `keep_tail` lines, reading at most up to `max_bytes` bytes.
    pub fn new(keep_head: usize, keep_tail: usize, max_bytes: usize) -> (c: CappedOutput)
        ensures
            c.wf(),
            c.lines() == Seq::<Seq<char>>::empty(),
            c.head_budget() == keep_head,
            c.tail_budget() == keep_tail,
            c.byte_ceiling() == max_bytes,
            c.bytes_read() == 0,
            !c.is_done(),
    {
        let c = CappedOutput {
            head: Vec::new(),
            tail: VecDeque::new(),
            total_lines: 0,
            keep_head,
            keep_tail,
            bytes: 0,
            max_bytes,
            lines: Ghost(Seq::empty()),
        };
        proof {
            assert(c.head_view() =~= Seq::<Seq<char>>::empty());
            assert(c.tail_view() =~= Seq::<Seq<char>>::empty());
            assert(Seq::<Seq<char>>::empty().subrange(0, 0) =~= Seq::<Seq<char>>::empty());
        }
        c
    }

    /// Record one line read from the stream (`n_bytes` bytes, its line ending
    /// included) and say whether reading should go on: it stops once the
    /// bytes read reach the ceiling.
    pub fn push_line(&mut self, raw: &str, n_bytes: usize) -> (more: bool)
        requires
            old(self).wf(),
            !old(self).is_done(),
            n_bytes >= 1,
        ensures
            final(self).wf(),
            final(self).lines() == old(self).lines().push(strip_crlf(raw@)),
            final(self).head_budget() == old(self).head_budget(),
            final(self).tail_budget() == old(self).tail_budget(),
            final(self).byte_ceiling() == old(self).byte_ceiling(),
            final(self).bytes_read() == if old(self).bytes_read() + n_bytes > usize::MAX {
                usize::MAX as nat
            } else {
                (old(self).bytes_read() + n_bytes) as nat
            },
            more == !final(self).is_done(),
            final(self).is_done() == (final(self).bytes_read() >= final(self).byte_ceiling()),
    {
        let ghost old_lines = self.lines@;
        let ghost h = self.keep_head as int;
        let ghost t = self.keep_tail as int;
        let ghost n = old_lines.len() as int;
        let trimmed = trim_crlf(raw);
        let ghost x = trimmed@;
        let ghost new_lines = old_lines.push(x);
        if self.keep_head == 0 && self.keep_tail == 0 {
            let ghost prev = self.tail@;
            self.tail.push_back(trimmed);
            proof {
                assert(strs_view(self.tail@) =~= strs_view(prev).push(x));
            }
        } else if self.head.len() < self.keep_head {
            let ghost prev = self.head@;
            self.head.push(trimmed);
            proof {
                assert(strs_view(self.head@) =~= strs_view(prev).push(x));
                assert(n < h);
                assert(new_lines.subrange(n + 1, n + 1) =~= Seq::<Seq<char>>::empty());
                if t != 0 {
                    assert(old_lines.subrange(n, n) =~= Seq::<Seq<char>>::empty());
                }
            }
        } else if self.keep_tail > 0 {
            proof {
                assert(n >= h);
                if n == h {
                    assert(old_lines.take(h) =~= old_lines);
                }
                assert(tail_start(n + 1, h, t) == if n - h >= t {
                    tail_start(n, h, t) + 1
                } else {
                    h
                });
            }
            proof {
                assert(strs_view(self.tail@).len() == self.tail@.len());
            }
            if self.tail.len() == self.keep_tail {
                let ghost prev = self.tail@;
                self.tail.pop_front();
                proof {
                    assert(strs_view(self.tail@) =~= strs_view(prev).subrange(1, prev.len() as int));
                    assert(strs_view(self.tail@) =~= old_lines.subrange(
                        tail_start(n + 1, h, t),
                        n,
                    ));
                }
            } else {
                proof {
                    assert(strs_view(self.tail@) =~= old_lines.subrange(
                        tail_start(n + 1, h, t),
                        n,
                    ));
                }
            }
            let ghost prev = self.tail@;
            self.tail.push_back(trimmed);
            proof {
                assert(strs_view(self.tail@) =~= strs_view(prev).push(x));
                assert(strs_view(self.tail@) =~= new_lines.subrange(tail_start(n + 1, h, t), n + 1));
                if n > h {
                    assert(new_lines.take(h) =~= old_lines.take(h));
                } else {
                    assert(new_lines.take(h) =~= old_lines);
                }
            }
        } else {
            proof {
                assert(n >= h);
                if n > h {
                    assert(new_lines.take(h) =~= old_lines.take(h));
                } else {
                    assert(new_lines.take(h) =~= old_lines);
                }
            }
        }
        self.total_lines = self.total_lines + 1;
        self.bytes = self.bytes.saturating_add(n_bytes);
        self.lines = Ghost(new_lines);
        self.bytes < self.max_bytes
    }

    /// Render the bounded output as a string: the head, then
    /// `... (N lines omitted) ...` when lines were dropped between head and
    /// tail, then the tail, one line per line. With both budgets 0 every line
    /// read is given.
    pub fn render(&self, head_lines: u64, tail_lines: u64) -> (r: String)
        ensures
            r@ == render_text(self.head_view(), self.tail_view(), self.total(), head_lines, tail_lines),
    {
        let tail = deque_strings(&self.tail);
        if head_lines == 0 && tail_lines == 0 {
            return join_strings(&tail, "\n");
        }
        let omitted: usize = if self.total_lines >= self.head.len() {
            let rest = self.total_lines - self.head.len();
            if rest >= tail.len() {
                rest - tail.len()
            } else {
                0
            }
        } else {
            0
        };
        if head_lines > 0 && tail_lines > 0 && omitted > 0 {
            let mut r = join_strings(&self.head, "\n");
            r.append("\n... (");
            let count = u64_to_string(omitted as u64);
            r.append(count.as_str());
            r.append(" lines omitted) ...\n");
            let t = join_strings(&tail, "\n");
            r.append(t.as_str());
            proof {
                reveal_strlit("\n... (");
                reveal_strlit(" lines omitted) ...\n");
            }
            r
        } else if head_lines > 0 && tail_lines == 0 {
            join_strings(&self.head, "\n")
        } else if tail_lines > 0 && head_lines == 0 {
            join_strings(&tail, "\n")
        } else {
            let mut all: Vec<String> = Vec::new();
            let mut i: usize = 0;
            while i < self.head.len()
                invariant
                    i <= self.head@.len(),
                    strs_view(all@) == strs_view(self.head@.take(i as int)),
                decreases self.head@.len() - i,
            {
                let ghost prev = all@;
                all.push(self.head[i].clone());
                proof {
                    let hd = self.head@;
                    assert(hd.take(i + 1) == hd.take(i as int).push(hd[i as int]));
                    assert(strs_view(all@) =~= strs_view(prev).push(hd[i as int]@));
                    assert(strs_view(hd.take(i + 1)) =~= strs_view(hd.take(i as int)).push(
                        hd[i as int]@,
                    ));
                }
                i = i + 1;
            }
            let mut k: usize = 0;
            proof {
                assert(self.head@.take(self.head@.len() as int) == self.head@);
            }
            while k < tail.len()
                invariant
                    k <= tail@.len(),
                    strs_view(all@) == strs_view(self.head@) + strs_view(tail@.take(k as int)),
                decreases tail@.len() - k,
            {
                let ghost prev = all@;
                all.push(tail[k].clone());
                proof {
                    let tl = tail@;
                    assert(tl.take(k + 1) == tl.take(k as int).push(tl[k as int]));
                    assert(strs_view(all@) =~= strs_view(prev).push(tl[k as int]@));
                    assert(strs_view(tl.take(k + 1)) =~= strs_view(tl.take(k as int)).push(
                        tl[k as int]@,
                    ));
                }
                k = k + 1;
            }
            proof {
                assert(tail@.take(tail@.len() as int) == tail@);
            }
            join_strings(&all, "\n")
        }
    }
}

/// The strings of a deque, in order.
fn deque_strings(d: &VecDeque<String>) -> (r: Vec<String>)
    ensures
        strs_view(r@) == strs_view(d@),
{
    let mut r: Vec<String> = Vec::new();
    let mut i: usize = 0;
    while i < d.len()
        invariant
            i <= d@.len(),
            strs_view(r@) == strs_view(d@.take(i as int)),
        decreases d@.len() - i,
    {
        let ghost prev = r@;
        r.push(d[i].clone());
        proof {
            assert(d@.take(i + 1) == d@.take(i as int).push(d@[i as int]));
            assert(strs_view(r@) =~= strs_view(prev).push(d@[i as int]@));
            assert(strs_view(d@.take(i + 1)) =~= strs_view(d@.take(i as int)).push(d@[i as int]@));
        }
        i = i + 1;
    }
    proof {
        assert(d@.take(d@.len() as int) == d@);
    }
    r
}

/// A collector rendered with the budgets it was made with gives the first and
/// last lines of everything it read, with the count of the lines in between.
pub proof fn lemma_render_keeps_ends(c: CappedOutput)
    requires
        c.wf(),
    ensures
        render_text(
            c.head_view(),
            c.tail_view(),
            c.total(),
            c.head_budget() as u64,
            c.tail_budget() as u64,
        ) == bounded_text(c.lines(), c.head_budget(), c.tail_budget()),
{
    let lines = c.lines();
    let n = lines.len() as int;
    let h = c.head_budget() as int;
    let t = c.tail_budget() as int;
    if h == 0 && t == 0 {
    } else if t == 0 {
    } else if h == 0 {
        if n <= t {
            assert(lines.subrange(0, n) =~= lines);
        } else {
            assert(lines.subrange(n - t, n) =~= lines.skip(n - t));
        }
    } else if n > h + t {
        assert(lines.subrange(n - t, n) =~= lines.skip(n - t));
    } else if n <= h {
        assert(lines.subrange(n, n) =~= Seq::<Seq<char>>::empty());
        assert(lines + Seq::<Seq<char>>::empty() =~= lines);
    } else {
        assert(lines.take(h) + lines.subrange(h, n) =~= lines);
    }
}



/// What a collector holds is bounded: it has read no more lines than bytes,
/// and it keeps at most its head budget at the head and its tail budget at the
/// tail (every line only when both budgets are 0).
pub proof fn lemma_collector_bounded(c: CappedOutput)
    requires
        c.wf(),
    ensures
        c.lines().len() <= c.bytes_read(),
        c.total() == c.lines().len(),
        c.head_view().len() <= c.head_budget(),
        (c.head_budget() > 0 || c.tail_budget() > 0) ==> c.tail_view().len() <= c.tail_budget(),
{
}

/// How a run ended, as the caller that spawned and watched the process saw it.
#[derive(Debug)]
pub enum ProcessOutcome {
    /// The process could not be started.
    SpawnFailed { reason: String },
    /// The process exited on its own; `code` is `None` when a signal ended it.
    Exited { code: Option<i32> },
    /// Waiting for the process failed.
    WaitFailed { reason: String },
    /// The timeout passed; after the termination signal and the grace period
    /// the process had exited.
    TimedOutExited { code: Option<i32> },
    /// The timeout passed and the process outlived the grace period, so it was killed.
    TimedOutKilled,
    /// The `stop_after` budget passed; after the termination signal and the
    /// grace period the process had exited.
    StoppedExited { code: Option<i32> },
    /// The `stop_after` budget passed and the process outlived the grace
    /// period, so it was killed.
    StoppedKilled,
}

/// The exit code reported for a process: its own, or -1 when a signal ended it.
pub open spec fn exit_code_value(code: Option<i32>) -> i32 {
    match code {
        Some(c) => c,
        None => -1i32,
    }
}

/// Derive an exit code from a process's own code (`None` when a signal ended
/// it): a killed process is reported as -1, never as a success.
pub fn exit_code_from_status(code: Option<i32>) -> (r: i32)
    ensures
        r == exit_code_value(code),
{
    match code {
        Some(c) => c,
        None => -1,
    }
}

/// Whether a `stop_after` budget governs the run: only a positive one does.
pub fn stop_after_applies(stop_after_secs: Option<u64>) -> (r: bool)
    ensures
        r == (stop_after_secs matches Some(s) && s > 0),
{
    match stop_after_secs {
        Some(s) => s > 0,
        None => false,
    }
}

/// `r` holds exit code `code`, the rendered streams, and `stopped`.
pub open spec fn finished_as(
    r: ExecutionResult,
    code: i32,
    stdout: CappedOutput,
    stderr: CappedOutput,
    output_head_lines: u64,
    output_tail_lines: u64,
    stderr_lines: u64,
    stopped: bool,
) -> bool {
    &&& r.exit_code == code
    &&& r.stdout@ == render_text(
        stdout.head_view(),
        stdout.tail_view(),
        stdout.total(),
        output_head_lines,
        output_tail_lines,
    )
    &&& r.stderr@ == render_text(stderr.head_view(), stderr.tail_view(), stderr.total(), 0, stderr_lines)
    &&& r.stopped_after == stopped
}

fn finish(
    code: i32,
    stdout: &CappedOutput,
    stderr: &CappedOutput,
    output_head_lines: u64,
    output_tail_lines: u64,
    stderr_lines: u64,
    stopped: bool,
) -> (r: ExecutionResult)
    ensures
        finished_as(r, code, *stdout, *stderr, output_head_lines, output_tail_lines, stderr_lines, stopped),
{
    ExecutionResult {
        exit_code: code,
        stdout: stdout.render(output_head_lines, output_tail_lines),
        stderr: stderr.render(0, stderr_lines),
        stopped_after: stopped,
    }
}

/// What a run of `command` amounts to, given how it ended and what its streams
/// held. A process that exits, even after being signalled at its timeout, gives
/// its exit code; one still running when the timeout's grace period is over is
/// a timeout error; one stopped by `stop_after` is a success whether or not it
/// exited (exit code 0 when it had to be killed). Stdout is rendered with the
/// head/tail budgets and stderr with its tail budget.
pub fn conclude_execution(
    command: &str,
    timeout_secs: u64,
    outcome: ProcessOutcome,
    stdout: &CappedOutput,
    stderr: &CappedOutput,
    output_head_lines: u64,
    output_tail_lines: u64,
    stderr_lines: u64,
) -> (res: Result<ExecutionResult, ExecutionError>)
    ensures
        match outcome {
            ProcessOutcome::SpawnFailed { reason } => res matches Err(
                ExecutionError::CommandNotFound(m),
            ) && m@ == command@ + ": "@ + reason@,
            ProcessOutcome::WaitFailed { reason } => res matches Err(
                ExecutionError::CommandFailed { command: c, exit_code, stderr: e },
            ) && c@ == command@ && exit_code is None && e@ == "Process wait error: "@ + reason@,
            ProcessOutcome::TimedOutKilled => res matches Err(
                ExecutionError::Timeout { command: c, timeout },
            ) && c@ == command@ && timeout == timeout_secs,
            ProcessOutcome::Exited { code } => res matches Ok(r) && finished_as(
                r,
                exit_code_value(code),
                *stdout,
                *stderr,
                output_head_lines,
                output_tail_lines,
                stderr_lines,
                false,
            ),
            ProcessOutcome::TimedOutExited { code } => res matches Ok(r) && finished_as(
                r,
                exit_code_value(code),
                *stdout,
                *stderr,
                output_head_lines,
                output_tail_lines,
                stderr_lines,
                false,
            ),
            ProcessOutcome::StoppedExited { code } => res matches Ok(r) && finished_as(
                r,
                exit_code_value(code),
                *stdout,
                *stderr,
                output_head_lines,
                output_tail_lines,
                stderr_lines,
                true,
            ),
            ProcessOutcome::StoppedKilled => res matches Ok(r) && finished_as(
                r,
                0,
                *stdout,
                *stderr,
                output_head_lines,
                output_tail_lines,
                stderr_lines,
                true,
            ),
        },
{
    match outcome {
        ProcessOutcome::SpawnFailed { reason } => {
            let mut m = String::from_str(command);
            m.append(": ");
            m.append(reason.as_str());
            proof {
                reveal_strlit(": ");
            }
            Err(ExecutionError::CommandNotFound(m))
        },
        ProcessOutcome::WaitFailed { reason } => {
            let mut e = String::from_str("Process wait error: ");
            e.append(reason.as_str());
            Err(
                ExecutionError::CommandFailed {
                    command: String::from_str(command),
                    exit_code: None,
                    stderr: e,
                },
            )
        },
        ProcessOutcome::TimedOutKilled => Err(
            ExecutionError::Timeout { command: String::from_str(command), timeout: timeout_secs },
        ),
        ProcessOutcome::Exited { code } => Ok(
            finish(
                exit_code_from_status(code),
                stdout,
                stderr,
                output_head_lines,
                output_tail_lines,
                stderr_lines,
                false,
            ),
        ),
        ProcessOutcome::TimedOutExited { code } => Ok(
            finish(
                exit_code_from_status(code),
                stdout,
                stderr,
                output_head_lines,
                output_tail_lines,
                stderr_lines,
                false,
            ),
        ),
        ProcessOutcome::StoppedExited { code } => Ok(
            finish(
                exit_code_from_status(code),
                stdout,
                stderr,
                output_head_lines,
                output_tail_lines,
                stderr_lines,
                true,
            ),
        ),
        ProcessOutcome::StoppedKilled => Ok(
            finish(0, stdout, stderr, output_head_lines, output_tail_lines, stderr_lines, true),
        ),
    }
}


/// Which time budget ran out.
#[derive(Clone, Copy, Debug, PartialEq, Eq, Structural)]
pub enum StopReason {
    /// The `stop_after` budget: the run is stopped, which is no failure.
    StopAfter,
    /// The timeout.
    Timeout,
}

/// Where the watch over a running process stands.
#[derive(Debug)]
pub enum Watch {
    /// The process runs within its budget.
    Running,
    /// The budget ran out and the termination signal is being sent.
    Stopping(StopReason),
    /// The signal is over; the process is checked once the grace period and
    /// one second more have passed.
    Settling(StopReason),
    /// The watch is over.
    Done,
}

/// What happened to the watched process.
#[derive(Debug)]
pub enum WatchEvent {
    /// The process exited; `code` is `None` when a signal ended it.
    Exited { code: Option<i32> },
    /// Waiting for the process failed.
    WaitFailed { reason: String },
    /// The budget ran out while the process was running.
    BudgetElapsed(StopReason),
    /// The termination signal was sent (and, when delivered, its grace period waited).
    SignalDone,
    /// The check after the grace period: `Some(code)` when the process had
    /// exited, `None` when it was still running.
    Checked(Option<Option<i32>>),
}

/// What the caller does next.
#[derive(Debug)]
pub enum WatchAction {
    /// Send `signal`; when it is delivered, wait `grace` seconds. With
    /// `exit_ends_run`, an exit of the process meanwhile ends the run as an
    /// ordinary exit.
    Signal { signal: TerminationSignal, grace: u64, exit_ends_run: bool },
    /// Wait this many seconds, then check whether the process has exited.
    WaitThenCheck(u64),
    /// Kill the process (`SIGKILL`); the run ended as given.
    KillThenFinish(ProcessOutcome),
    /// The run ended as given.
    Finish(ProcessOutcome),
}

pub open spec fn unexpected_event_reason() -> Seq<char> {
    "unexpected event while watching the run"@
}

/// The outcome of a run whose process exited after the signal for `r`.
pub open spec fn exited_after_stop(r: StopReason, code: Option<i32>) -> ProcessOutcome {
    match r {
        StopReason::StopAfter => ProcessOutcome::StoppedExited { code },
        StopReason::Timeout => ProcessOutcome::TimedOutExited { code },
    }
}

/// The outcome of a run whose process outlived the grace period after the signal for `r`.
pub open spec fn killed_after_stop(r: StopReason) -> ProcessOutcome {
    match r {
        StopReason::StopAfter => ProcessOutcome::StoppedKilled,
        StopReason::Timeout => ProcessOutcome::TimedOutKilled,
    }
}

/// The wait after the signal before the check: the grace period and one second more.
pub open spec fn settle_wait(grace: u64) -> u64 {
    if grace < u64::MAX {
        (grace + 1) as u64
    } else {
        u64::MAX
    }
}

/// One step of the watch: from `w`, on event `ev`, the next state and what
/// the caller does. An exit or failed wait while running ends the run; a spent
/// budget sends `signal`; after the signal the process is given the grace
/// period and one second more, then it has exited or is killed. While the
/// `stop_after` signal is under way an exit still ends the run as an ordinary
/// exit. `None` for an event the state does not expect.
pub open spec fn watch_next(w: Watch, ev: WatchEvent, signal: TerminationSignal, grace: u64) -> Option<(
    Watch,
    WatchAction,
)> {
    match (w, ev) {
        (Watch::Running, WatchEvent::Exited { code }) => Some((
            Watch::Done,
            WatchAction::Finish(ProcessOutcome::Exited { code }),
        )),
        (Watch::Running, WatchEvent::WaitFailed { reason }) => Some((
            Watch::Done,
            WatchAction::Finish(ProcessOutcome::WaitFailed { reason }),
        )),
        (Watch::Running, WatchEvent::BudgetElapsed(r)) => Some((
            Watch::Stopping(r),
            WatchAction::Signal { signal, grace, exit_ends_run: r == StopReason::StopAfter },
        )),
        (Watch::Stopping(StopReason::StopAfter), WatchEvent::Exited { code }) => Some((
            Watch::Done,
            WatchAction::Finish(ProcessOutcome::Exited { code }),
        )),
        (Watch::Stopping(StopReason::StopAfter), WatchEvent::WaitFailed { reason }) => Some((
            Watch::Done,
            WatchAction::Finish(ProcessOutcome::WaitFailed { reason }),
        )),
        (Watch::Stopping(r), WatchEvent::SignalDone) => Some((
            Watch::Settling(r),
            WatchAction::WaitThenCheck(settle_wait(grace)),
        )),
        (Watch::Settling(r), WatchEvent::Checked(Some(code))) => Some((
            Watch::Done,
            WatchAction::Finish(exited_after_stop(r, code)),
        )),
        (Watch::Settling(r), WatchEvent::Checked(None)) => Some((
            Watch::Done,
            WatchAction::KillThenFinish(killed_after_stop(r)),
        )),
        _ => None,
    }
}

/// One step of the watch over a running process (see [`watch_next`]); an
/// event the state does not expect ends the watch as a failed wait.
pub fn watch_step(w: Watch, ev: WatchEvent, signal: TerminationSignal, grace: u64) -> (r: (
    Watch,
    WatchAction,
))
    ensures
        match watch_next(w, ev, signal, grace) {
            Some(next) => r == next,
            None => r.0 is Done && (r.1 matches WatchAction::Finish(
                ProcessOutcome::WaitFailed { reason },
            ) && reason@ == unexpected_event_reason()),
        },
{
    match (w, ev) {
        (Watch::Running, WatchEvent::Exited { code }) => (
            Watch::Done,
            WatchAction::Finish(ProcessOutcome::Exited { code }),
        ),
        (Watch::Running, WatchEvent::WaitFailed { reason }) => (
            Watch::Done,
            WatchAction::Finish(ProcessOutcome::WaitFailed { reason }),
        ),
        (Watch::Running, WatchEvent::BudgetElapsed(r)) => {
            let exit_ends_run = match r {
                StopReason::StopAfter => true,
                StopReason::Timeout => false,
            };
            (Watch::Stopping(r), WatchAction::Signal { signal, grace, exit_ends_run })
        },
        (Watch::Stopping(StopReason::StopAfter), WatchEvent::Exited { code }) => (
            Watch::Done,
            WatchAction::Finish(ProcessOutcome::Exited { code }),
        ),
        (Watch::Stopping(StopReason::StopAfter), WatchEvent::WaitFailed { reason }) => (
            Watch::Done,
            WatchAction::Finish(ProcessOutcome::WaitFailed { reason }),
        ),
        (Watch::Stopping(r), WatchEvent::SignalDone) => (
            Watch::Settling(r),
            WatchAction::WaitThenCheck(grace.saturating_add(1)),
        ),
        (Watch::Settling(r), WatchEvent::Checked(Some(code))) => {
            let outcome = match r {
                StopReason::StopAfter => ProcessOutcome::StoppedExited { code },
                StopReason::Timeout => ProcessOutcome::TimedOutExited { code },
            };
            (Watch::Done, WatchAction::Finish(outcome))
        },
        (Watch::Settling(r), WatchEvent::Checked(None)) => {
            let outcome = match r {
                StopReason::StopAfter => ProcessOutcome::StoppedKilled,
                StopReason::Timeout => ProcessOutcome::TimedOutKilled,
            };
            (Watch::Done, WatchAction::KillThenFinish(outcome))
        },
        _ => (
            Watch::Done,
            WatchAction::Finish(
                ProcessOutcome::WaitFailed {
                    reason: String::from_str("unexpected event while watching the run"),
                },
            ),
        ),
    }
}

/// A spent budget escalates in order: the termination signal (with its grace
/// period), then a wait of the grace period and one second more, then the
/// check: a process that has exited ends the run with its code, one still
/// running is killed. The outcome names the budget that ran out.
pub proof fn lemma_budget_escalation(
    r: StopReason,
    signal: TerminationSignal,
    grace: u64,
    code: Option<i32>,
)
    ensures
        watch_next(Watch::Running, WatchEvent::BudgetElapsed(r), signal, grace) == Some(
            (
                Watch::Stopping(r),
                WatchAction::Signal { signal, grace, exit_ends_run: r == StopReason::StopAfter },
            ),
        ),
        watch_next(Watch::Stopping(r), WatchEvent::SignalDone, signal, grace) == Some(
            (Watch::Settling(r), WatchAction::WaitThenCheck(settle_wait(grace))),
        ),
        settle_wait(grace) > grace || grace == u64::MAX,
        watch_next(Watch::Settling(r), WatchEvent::Checked(Some(code)), signal, grace) == Some(
            (Watch::Done, WatchAction::Finish(exited_after_stop(r, code))),
        ),
        watch_next(Watch::Settling(r), WatchEvent::Checked(None), signal, grace) == Some(
            (Watch::Done, WatchAction::KillThenFinish(killed_after_stop(r))),
        ),
{
}

/// A process is only ever killed after the termination signal: a kill comes
/// only from settling on a process still running, settling only follows the
/// signal, and the signal only follows a spent budget.
pub proof fn lemma_kill_follows_signal(
    w: Watch,
    ev: WatchEvent,
    signal: TerminationSignal,
    grace: u64,
)
    requires
        watch_next(w, ev, signal, grace) is Some,
    ensures
        ({
            let (next, action) = watch_next(w, ev, signal, grace)->0;
            &&& (action is KillThenFinish ==> w is Settling && ev == WatchEvent::Checked(None))
            &&& (next is Settling ==> w is Stopping && ev is SignalDone)
            &&& (next is Stopping ==> w is Running && ev is BudgetElapsed)
            &&& (action is Signal ==> w is Running && ev is BudgetElapsed)
        }),
{
}

/// A run stopped by its `stop_after` budget never counts as a timeout, and a
/// timed-out run never as stopped.
pub proof fn lemma_outcome_names_budget(r: StopReason, code: Option<i32>)
    ensures
        r == StopReason::StopAfter ==> (exited_after_stop(r, code) is StoppedExited
            && killed_after_stop(r) is StoppedKilled),
        r == StopReason::Timeout ==> (exited_after_stop(r, code) is TimedOutExited
            && killed_after_stop(r) is TimedOutKilled),
{
}

} // verus!
