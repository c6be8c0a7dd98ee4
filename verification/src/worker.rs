//! Workers: who they are, what they are doing, and what they announce.

use vstd::prelude::*;
use vstd::string::*;

verus! {

/// What a worker is doing.
#[derive(Debug, Clone, Copy, PartialEq, Eq, Structural)]
pub enum WorkerState {
    /// Waiting for a job.
    Idle,
    /// Running the job it took from the queue.
    Running,
}

/// One worker of a pool: its number and its current state.
#[derive(Debug, Clone, Copy, PartialEq, Eq, Structural)]
pub struct Worker {
    /// The worker's number: its position in the pool's roster.
    pub id: usize,
    /// What the worker is doing.
    pub state: WorkerState,
}

/// The character for a single decimal digit.
pub open spec fn digit(d: nat) -> char
    recommends
        d < 10,
{
    if d == 0 {
        '0'
    } else if d == 1 {
        '1'
    } else if d == 2 {
        '2'
    } else if d == 3 {
        '3'
    } else if d == 4 {
        '4'
    } else if d == 5 {
        '5'
    } else if d == 6 {
        '6'
    } else if d == 7 {
        '7'
    } else if d == 8 {
        '8'
    } else {
        '9'
    }
}

/// The decimal numeral of `n`, most significant digit first, without
/// leading zeros.
pub open spec fn decimal(n: nat) -> Seq<char>
    decreases n,
{
    if n < 10 {
        seq![digit(n)]
    } else {
        decimal(n / 10).push(digit(n % 10))
    }
}

/// The line a worker announces when it takes a job.
pub open spec fn announcement_text(id: nat) -> Seq<char> {
    "Worker "@ + decimal(id) + " got a job; executing."@
}

/// The one-character string for a single decimal digit.
fn digit_str(d: usize) -> (s: &'static str)
    requires
        d < 10,
    ensures
        s@ == seq![digit(d as nat)],
{
    proof {
        reveal_strlit("0");
        reveal_strlit("1");
        reveal_strlit("2");
        reveal_strlit("3");
        reveal_strlit("4");
        reveal_strlit("5");
        reveal_strlit("6");
        reveal_strlit("7");
        reveal_strlit("8");
        reveal_strlit("9");
    }
    let s = if d == 0 {
        "0"
    } else if d == 1 {
        "1"
    } else if d == 2 {
        "2"
    } else if d == 3 {
        "3"
    } else if d == 4 {
        "4"
    } else if d == 5 {
        "5"
    } else if d == 6 {
        "6"
    } else if d == 7 {
        "7"
    } else if d == 8 {
        "8"
    } else {
        "9"
    };
    assert(s@ =~= seq![digit(d as nat)]);
    s
}

/// Appends the decimal numeral of `n` to `text`.
fn append_decimal(text: &mut String, n: usize)
    ensures
        final(text)@ == old(text)@ + decimal(n as nat),
    decreases n,
{
    if n >= 10 {
        append_decimal(text, n / 10);
    }
    text.append(digit_str(n % 10));
    assert(text@ =~= old(text)@ + decimal(n as nat));
}

/// The line that worker number `id` announces when it takes a job.
pub fn announcement(id: usize) -> (line: String)
    ensures
        line@ == announcement_text(id as nat),
{
    let mut line = String::from_str("Worker ");
    append_decimal(&mut line, id);
    line.append(" got a job; executing.");
    line
}

impl Worker {
    /// A worker with the given number, waiting for its first job.
    pub fn new(id: usize) -> (worker: Worker)
        ensures
            worker == (Worker { id, state: WorkerState::Idle }),
    {
        Worker { id, state: WorkerState::Idle }
    }

    /// Whether the worker is waiting for a job.
    pub fn is_idle(&self) -> (idle: bool)
        ensures
            idle == (self.state == WorkerState::Idle),
    {
        match self.state {
            WorkerState::Idle => true,
            WorkerState::Running => false,
        }
    }
}

} // verus!
