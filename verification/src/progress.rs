//! Progress reporting: the text of a duration, the label of a message, and
//! how a batch is run.

use vstd::prelude::*;

verus! {

/// `String::push` appends one character to the string.
pub assume_specification[ String::push ](s: &mut String, c: char)
    ensures
        final(s)@ == old(s)@.push(c),
;

/// The character that writes a digit.
pub open spec fn digit_char(d: int) -> char {
    if d == 0 {
        '0'
    } else if d == 1 {
        '1'
    } else if d == 2 {
        '2'
    } else if d == 3 {
        '3'
    } else if d == 4 {
        '4'
    } else if d == 5 {
        '5'
    } else if d == 6 {
        '6'
    } else if d == 7 {
        '7'
    } else if d == 8 {
        '8'
    } else {
        '9'
    }
}

/// The decimal digits of `n`, without leading zeros.
pub open spec fn decimal(n: nat) -> Seq<char>
    decreases n,
{
    if n < 10 {
        seq![digit_char(n as int)]
    } else {
        decimal(n / 10).push(digit_char((n % 10) as int))
    }
}

/// The text of a duration of `secs` seconds: seconds alone below a minute,
/// else minutes and seconds.
pub open spec fn time_text(secs: nat) -> Seq<char> {
    if secs < 60 {
        decimal(secs).push('s')
    } else {
        (decimal(secs / 60) + seq!['m', ' '] + decimal(secs % 60)).push('s')
    }
}

/// The label of the message at `position` out of `total`.
pub open spec fn label_text(position: nat, total: nat) -> Seq<char> {
    (seq!['['] + decimal(position) + seq!['/'] + decimal(total)).push(']')
}

/// The character that writes the digit `d`.
fn digit_to_char(d: u64) -> (c: char)
    requires
        d < 10,
    ensures
        c == digit_char(d as int),
{
    if d == 0 {
        '0'
    } else if d == 1 {
        '1'
    } else if d == 2 {
        '2'
    } else if d == 3 {
        '3'
    } else if d == 4 {
        '4'
    } else if d == 5 {
        '5'
    } else if d == 6 {
        '6'
    } else if d == 7 {
        '7'
    } else if d == 8 {
        '8'
    } else {
        '9'
    }
}

/// Appends the decimal digits of `n` to `out`.
pub fn push_decimal(out: &mut String, n: u64)
    ensures
        final(out)@ == old(out)@ + decimal(n as nat),
    decreases n,
{
    if n >= 10 {
        push_decimal(out, n / 10);
    }
    out.push(digit_to_char(n % 10));
}

/// Appends the characters of `v` to `out`.
pub fn push_chars(out: &mut String, v: &Vec<char>)
    ensures
        final(out)@ == old(out)@ + v@,
{
    let mut i: usize = 0;
    while i < v.len()
        invariant
            0 <= i <= v@.len(),
            out@ == old(out)@ + v@.take(i as int),
        decreases v@.len() - i,
    {
        out.push(v[i]);
        assert(v@.take(i + 1) =~= v@.take(i as int).push(v@[i as int]));
        i += 1;
    }
    assert(v@.take(v@.len() as int) =~= v@);
}

/// The string that the characters of `v` spell.
pub fn string_of(v: &Vec<char>) -> (s: String)
    ensures
        s@ == v@,
{
    let mut s = String::new();
    push_chars(&mut s, v);
    s
}

/// Writes a duration in whole seconds: `42s`, `3m 7s`.
pub fn format_time(secs: u64) -> (s: String)
    ensures
        s@ == time_text(secs as nat),
{
    let mut s = String::new();
    if secs < 60 {
        push_decimal(&mut s, secs);
    } else {
        push_decimal(&mut s, secs / 60);
        s.push('m');
        s.push(' ');
        push_decimal(&mut s, secs % 60);
    }
    s.push('s');
    s
}

/// Writes the label of a message: its position among the messages of the
/// batch and the number of jobs, as `[3/12]`.
pub fn progress_label(position: usize, total: usize) -> (s: String)
    ensures
        s@ == label_text(position as nat, total as nat),
{
    let mut s = String::new();
    s.push('[');
    push_decimal(&mut s, position as u64);
    s.push('/');
    push_decimal(&mut s, total as u64);
    s.push(']');
    s
}

/// The consumer's count of the messages that have arrived.
pub struct ProgressCounter {
    pub total: usize,
    pub received: usize,
}

impl ProgressCounter {
    /// A counter for a batch of `total` jobs.
    pub fn new(total: usize) -> (c: ProgressCounter)
        ensures
            c.total == total,
            c.received == 0,
    {
        ProgressCounter { total, received: 0 }
    }

    /// Counts one message and returns its label. The count stops at the
    /// largest number that it can hold.
    pub fn receive(&mut self) -> (label: String)
        ensures
            final(self).total == old(self).total,
            final(self).received == if old(self).received == usize::MAX {
                usize::MAX
            } else {
                (old(self).received + 1) as usize
            },
            label@ == label_text(final(self).received as nat, final(self).total as nat),
    {
        if self.received < usize::MAX {
            self.received = self.received + 1;
        }
        progress_label(self.received, self.total)
    }
}

/// How a batch is run.
#[derive(Clone, Copy, Debug, PartialEq, Eq)]
pub enum ExecutionPath {
    /// There is nothing to do.
    Idle,
    /// One job, on the calling thread.
    Inline,
    /// On a pool of this many workers.
    Pool(usize),
}

/// Calls `num_cpus::get`: the number of logical cores that the machine
/// reports now. The crate documents that it is at least 1; nothing else is
/// claimed of the number.
#[verifier::external_body]
fn available_cores() -> (n: usize)
    ensures
        n >= 1,
{
    num_cpus::get()
}

/// The number of workers of a pool: the configured number if there is one,
/// else the number of cores.
pub fn worker_count(configured: Option<usize>, cores: usize) -> (n: usize)
    ensures
        n == match configured {
            Some(threads) => threads,
            None => cores,
        },
{
    match configured {
        Some(threads) => threads,
        None => cores,
    }
}

/// How a batch of `jobs` jobs is run when the machine has `cores` cores: a
/// single job whose outputs are all resolved runs on the calling thread;
/// any other batch runs on a pool.
pub fn plan_with(jobs: usize, outputs_resolved: bool, configured: Option<usize>, cores: usize) -> (r:
    ExecutionPath)
    ensures
        r == if jobs == 0 {
            ExecutionPath::Idle
        } else if jobs == 1 && outputs_resolved {
            ExecutionPath::Inline
        } else {
            ExecutionPath::Pool(
                match configured {
                    Some(threads) => threads,
                    None => cores,
                },
            )
        },
{
    if jobs == 0 {
        ExecutionPath::Idle
    } else if jobs == 1 && outputs_resolved {
        ExecutionPath::Inline
    } else {
        ExecutionPath::Pool(worker_count(configured, cores))
    }
}

/// How a batch of `jobs` jobs is run on this machine. Without a configured
/// number of threads a pool has as many workers as the machine has cores,
/// which is at least one.
pub fn plan_execution(jobs: usize, outputs_resolved: bool, configured: Option<usize>) -> (r:
    ExecutionPath)
    ensures
        jobs == 0 ==> r == ExecutionPath::Idle,
        jobs == 1 && outputs_resolved ==> r == ExecutionPath::Inline,
        jobs > 1 || (jobs == 1 && !outputs_resolved) ==> (r matches ExecutionPath::Pool(workers)
            && match configured {
            Some(threads) => workers == threads,
            None => workers >= 1,
        }),
{
    let cores = match configured {
        Some(threads) => threads,
        None => available_cores(),
    };
    plan_with(jobs, outputs_resolved, configured, cores)
}

} // verus!
