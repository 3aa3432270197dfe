//! The debug log the view shows: the most recent lines, oldest first.
use vstd::prelude::*;

verus! {

/// How many lines are kept before the oldest are dropped.
pub const CAPACITY: usize = 1000;

/// The lines the view renders.
pub struct Log {
    lines: Vec<String>,
}

/// The last `n` lines of `s` (all of them when there are fewer).
pub open spec fn keep_last(s: Seq<Seq<char>>, n: nat) -> Seq<Seq<char>> {
    if s.len() > n {
        s.skip(s.len() - n)
    } else {
        s
    }
}

/// The log never holds more than `CAPACITY` lines, the line just added is
/// the last one, and nothing is dropped while there is room.
pub proof fn law_log_keeps_newest(l: Seq<Seq<char>>, msg: Seq<char>)
    ensures
        keep_last(l.push(msg), CAPACITY as nat).len() <= CAPACITY,
        keep_last(l.push(msg), CAPACITY as nat).last() == msg,
        l.len() < CAPACITY ==> keep_last(l.push(msg), CAPACITY as nat) == l.push(msg),
{
}

impl View for Log {
    type V = Seq<Seq<char>>;

    closed spec fn view(&self) -> Seq<Seq<char>> {
        self.lines@.map_values(|l: String| l@)
    }
}

impl Log {
    /// An empty log.
    pub fn new() -> (l: Log)
        ensures
            l@ == Seq::<Seq<char>>::empty(),
    {
        let l = Log { lines: Vec::new() };
        assert(l@ =~= Seq::<Seq<char>>::empty());
        l
    }
}

/// Append a line, dropping the oldest beyond `CAPACITY`.
pub fn line(log: &mut Log, msg: String)
    ensures
        final(log)@ == keep_last(old(log)@.push(msg@), CAPACITY as nat),
{
    let ghost before = log@;
    log.lines.push(msg);
    assert(log@ =~= before.push(msg@));
    let ghost all = log@;
    let ghost all_lines = log.lines@;
    let mut dropped: usize = 0;
    assert(all_lines.len() == log.lines.len());
    while log.lines.len() > CAPACITY
        invariant
            all_lines.len() <= usize::MAX,
            dropped <= all_lines.len(),
            log.lines@ == all_lines.skip(dropped as int),
            dropped > 0 ==> log.lines@.len() >= CAPACITY,
        decreases log.lines.len(),
    {
        log.lines.remove(0);
        proof {
            assert(log.lines@ =~= all_lines.skip(dropped + 1));
        }
        dropped += 1;
    }
    assert(log.lines@.map_values(|l: String| l@) =~= all.skip(dropped as int));
    assert(log@ =~= keep_last(all, CAPACITY as nat));
}

/// Number of lines currently held.
pub fn len(log: &Log) -> (n: usize)
    ensures
        n == log@.len(),
{
    log.lines.len()
}

/// A copy of every line currently held.
pub fn snapshot(log: &Log) -> (v: Vec<String>)
    ensures
        v@.map_values(|l: String| l@) == log@,
{
    let mut v: Vec<String> = Vec::new();
    let mut i: usize = 0;
    while i < log.lines.len()
        invariant
            i <= log.lines@.len(),
            v@.len() == i,
            forall|j: int| 0 <= j < i ==> #[trigger] v@[j]@ == log.lines@[j]@,
        decreases log.lines@.len() - i,
    {
        v.push(log.lines[i].clone());
        i += 1;
    }
    assert(v@.map_values(|l: String| l@) =~= log@);
    v
}

} // verus!
