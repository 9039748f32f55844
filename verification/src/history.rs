//! Bounded metric history behind the sparklines: system-wide series, and one
//! series per live process.
use std::collections::HashMap;

use vstd::prelude::*;

verus! {

broadcast use vstd::std_specs::hash::group_hash_axioms;

/// How many samples a series keeps.
pub const CAPACITY: usize = 120;

/// A series after recording `value`: the oldest sample goes when it is full.
pub open spec fn pushed<T>(s: Seq<T>, value: T) -> Seq<T> {
    if s.len() >= CAPACITY {
        s.drop_first().push(value)
    } else {
        s.push(value)
    }
}

/// The last `width` samples of a series (all of them when there are fewer).
pub open spec fn last_n<T>(s: Seq<T>, width: nat) -> Seq<T> {
    if width >= s.len() {
        s
    } else {
        s.subrange(s.len() - width, s.len() as int)
    }
}

/// A bounded series of samples, oldest first.
pub struct Series<T> {
    values: Vec<T>,
}

impl<T> Series<T> {
    #[verifier::type_invariant]
    spec fn bounded(self) -> bool {
        self.values@.len() <= CAPACITY
    }

    /// The samples, oldest first.
    pub closed spec fn view(&self) -> Seq<T> {
        self.values@
    }
}

impl<T: Copy> Series<T> {
    /// An empty series.
    pub fn new() -> (r: Series<T>)
        ensures
            r@ == Seq::<T>::empty(),
    {
        Series { values: Vec::new() }
    }

    /// Records a sample; a series never holds more than [`CAPACITY`].
    pub fn push(&mut self, value: T)
        ensures
            final(self)@ == pushed(old(self)@, value),
            final(self)@.len() <= CAPACITY,
    {
        proof {
            use_type_invariant(&*self);
        }
        let mut values: Vec<T> = Vec::new();
        std::mem::swap(&mut values, &mut self.values);
        if values.len() == CAPACITY {
            values.remove(0);
        }
        values.push(value);
        proof {
            assert(values@ =~= pushed(old(self)@, value));
        }
        self.values = values;
    }

    /// The number of samples.
    pub fn len(&self) -> (r: usize)
        ensures
            r == self@.len(),
            r <= CAPACITY,
    {
        proof {
            use_type_invariant(self);
        }
        self.values.len()
    }

    /// The last `width` samples, oldest first.
    pub fn recent(&self, width: usize) -> (r: Vec<T>)
        ensures
            r@ == last_n(self@, width as nat),
    {
        let n = self.values.len();
        let start = if width >= n {
            0
        } else {
            n - width
        };
        let mut r: Vec<T> = Vec::new();
        let mut i = start;
        while i < n
            invariant
                start <= i <= n,
                n == self.values@.len(),
                r@ == self.values@.subrange(start as int, i as int),
            decreases n - i,
        {
            r.push(self.values[i]);
            i = i + 1;
            assert(r@ =~= self.values@.subrange(start as int, i as int));
        }
        assert(width >= n ==> self.values@.subrange(0, n as int) =~= self.values@);
        r
    }
}

/// The per-process series after one sample of the live processes: each
/// listed PID gets its value appended (to the series it had, or to a new
/// one), and PIDs that are not listed are dropped.
pub open spec fn record_processes<T>(old: Map<u32, Seq<T>>, samples: Seq<(u32, T)>) -> Map<u32, Seq<T>>
    decreases samples.len(),
{
    if samples.len() == 0 {
        Map::empty()
    } else {
        let acc = record_processes(old, samples.drop_last());
        let (pid, value) = samples.last();
        let base = if acc.contains_key(pid) {
            acc[pid]
        } else if old.contains_key(pid) {
            old[pid]
        } else {
            Seq::empty()
        };
        acc.insert(pid, pushed(base, value))
    }
}

/// The samples of a map of series.
pub open spec fn series_views<T>(m: Map<u32, Series<T>>) -> Map<u32, Seq<T>> {
    m.map_values(|s: Series<T>| s@)
}

/// The metric history: total CPU, memory use, and per-process CPU.
pub struct History<T> {
    cpu: Series<T>,
    memory: Series<T>,
    process_cpu: HashMap<u32, Series<T>>,
}

impl<T: Copy> History<T> {
    pub closed spec fn cpu(&self) -> Seq<T> {
        self.cpu@
    }

    pub closed spec fn memory(&self) -> Seq<T> {
        self.memory@
    }

    pub closed spec fn processes(&self) -> Map<u32, Seq<T>> {
        series_views(self.process_cpu@)
    }

    /// An empty history.
    pub fn new() -> (r: History<T>)
        ensures
            r.cpu() == Seq::<T>::empty(),
            r.memory() == Seq::<T>::empty(),
            r.processes() == Map::<u32, Seq<T>>::empty(),
    {
        let r = History { cpu: Series::new(), memory: Series::new(), process_cpu: HashMap::new() };
        assert(r.processes() =~= Map::<u32, Seq<T>>::empty());
        r
    }

    /// Records total CPU use and memory use.
    pub fn record_usage(&mut self, cpu_usage: T, memory_percent: T)
        ensures
            final(self).cpu() == pushed(old(self).cpu(), cpu_usage),
            final(self).memory() == pushed(old(self).memory(), memory_percent),
            final(self).processes() == old(self).processes(),
    {
        self.cpu.push(cpu_usage);
        self.memory.push(memory_percent);
    }

    /// Records one sample: total CPU, memory use, and each live process's
    /// CPU as `(pid, value)`.
    pub fn record(&mut self, cpu_usage: T, memory_percent: T, processes: &Vec<(u32, T)>)
        ensures
            final(self).cpu() == pushed(old(self).cpu(), cpu_usage),
            final(self).memory() == pushed(old(self).memory(), memory_percent),
            final(self).processes() == record_processes(old(self).processes(), processes@),
    {
        self.record_usage(cpu_usage, memory_percent);
        let ghost before = self.processes();
        let mut old_map: HashMap<u32, Series<T>> = HashMap::new();
        std::mem::swap(&mut old_map, &mut self.process_cpu);
        let mut next: HashMap<u32, Series<T>> = HashMap::new();
        let mut i: usize = 0;
        assert(series_views(next@) =~= record_processes(before, processes@.subrange(0, 0)));
        while i < processes.len()
            invariant
                i <= processes@.len(),
                series_views(next@) == record_processes(before, processes@.subrange(0, i as int)),
                forall|k: u32|
                    !next@.contains_key(k) ==> (old_map@.contains_key(k) == before.contains_key(k)),
                forall|k: u32|
                    !next@.contains_key(k) && old_map@.contains_key(k) ==> old_map@[k]@ == before[k],
            decreases processes.len() - i,
        {
            let (pid, value) = processes[i];
            let ghost prefix = processes@.subrange(0, i as int);
            let ghost acc = record_processes(before, prefix);
            proof {
                assert(processes@.subrange(0, i + 1).drop_last() =~= prefix);
                assert(processes@.subrange(0, i + 1).last() == (pid, value));
            }
            let mut series = match next.remove(&pid) {
                Some(s) => s,
                None => match old_map.remove(&pid) {
                    Some(s) => s,
                    None => Series::new(),
                },
            };
            series.push(value);
            next.insert(pid, series);
            i = i + 1;
            proof {
                assert(series_views(next@) =~= acc.insert(pid, series@));
                assert(series_views(next@) =~= record_processes(before, processes@.subrange(0, i as int)));
            }
        }
        assert(processes@.subrange(0, processes@.len() as int) =~= processes@);
        self.process_cpu = next;
    }

    /// The last `width` total CPU samples.
    pub fn cpu_recent(&self, width: usize) -> (r: Vec<T>)
        ensures
            r@ == last_n(self.cpu(), width as nat),
    {
        self.cpu.recent(width)
    }

    /// The last `width` memory samples.
    pub fn memory_recent(&self, width: usize) -> (r: Vec<T>)
        ensures
            r@ == last_n(self.memory(), width as nat),
    {
        self.memory.recent(width)
    }

    /// The last `width` CPU samples of a process, once it has at least two.
    pub fn process_cpu_recent(&self, pid: u32, width: usize) -> (r: Option<Vec<T>>)
        ensures
            self.processes().contains_key(pid) && self.processes()[pid].len() >= 2 ==> (r matches Some(
                v,
            ) && v@ == last_n(self.processes()[pid], width as nat)),
            !(self.processes().contains_key(pid) && self.processes()[pid].len() >= 2) ==> r is None,
    {
        match self.process_cpu.get(&pid) {
            None => None,
            Some(series) => {
                if series.len() < 2 {
                    None
                } else {
                    Some(series.recent(width))
                }
            },
        }
    }
}

/// Recording keeps a series within [`CAPACITY`] samples and puts the new
/// sample last.
pub proof fn lemma_pushed_bounded<T>(s: Seq<T>, value: T)
    requires
        s.len() <= CAPACITY,
    ensures
        pushed(s, value).len() <= CAPACITY,
        pushed(s, value).last() == value,
        s.len() < CAPACITY ==> pushed(s, value).len() == s.len() + 1,
{
}

/// A series after recording `values`, in order.
pub open spec fn recorded<T>(s: Seq<T>, values: Seq<T>) -> Seq<T>
    decreases values.len(),
{
    if values.len() == 0 {
        s
    } else {
        pushed(recorded(s, values.drop_last()), values.last())
    }
}

/// The smaller of two numbers.
pub open spec fn min_nat(a: nat, b: nat) -> nat {
    if a < b {
        a
    } else {
        b
    }
}

/// Recording keeps the last [`CAPACITY`] samples of everything recorded.
proof fn lemma_recorded_keeps_last<T>(s: Seq<T>, values: Seq<T>)
    requires
        s.len() <= CAPACITY,
    ensures
        recorded(s, values) == last_n(s + values, CAPACITY as nat),
    decreases values.len(),
{
    if values.len() == 0 {
        assert(s + values =~= s);
    } else {
        let v1 = values.drop_last();
        let x = values.last();
        lemma_recorded_keeps_last(s, v1);
        let t = s + v1;
        assert(s + values =~= t.push(x));
        let k = last_n(t, CAPACITY as nat);
        if t.len() < CAPACITY {
            assert(last_n(t.push(x), CAPACITY as nat) =~= t.push(x));
        } else {
            assert(k.len() == CAPACITY);
            assert(pushed(k, x) =~= last_n(t.push(x), CAPACITY as nat));
        }
    }
}

/// After `values` are recorded into an empty series (by `record` or
/// `record_usage`), its last `width` samples are the last
/// `min(width, values.len(), CAPACITY)` values recorded, in order.
pub proof fn lemma_recent_after_records<T>(values: Seq<T>, width: nat)
    ensures
        last_n(recorded(Seq::<T>::empty(), values), width) == values.subrange(
            values.len() - min_nat(min_nat(width, values.len()), CAPACITY as nat),
            values.len() as int,
        ),
        last_n(recorded(Seq::<T>::empty(), values), width).len() == min_nat(
            min_nat(width, values.len()),
            CAPACITY as nat,
        ),
{
    lemma_recorded_keeps_last(Seq::<T>::empty(), values);
    assert(Seq::<T>::empty() + values =~= values);
    let n = values.len();
    let k = min_nat(min_nat(width, n), CAPACITY as nat);
    let r = last_n(recorded(Seq::<T>::empty(), values), width);
    assert(r =~= values.subrange(n - k, n as int));
}

/// After a sample, exactly the processes in it have a series: those that
/// are gone are dropped.
pub proof fn lemma_record_keeps_live_pids<T>(old: Map<u32, Seq<T>>, samples: Seq<(u32, T)>, pid: u32)
    ensures
        record_processes(old, samples).contains_key(pid) <==> exists|i: int|
            0 <= i < samples.len() && (#[trigger] samples[i]).0 == pid,
    decreases samples.len(),
{
    if samples.len() > 0 {
        let prefix = samples.drop_last();
        lemma_record_keeps_live_pids(old, prefix, pid);
        if exists|i: int| 0 <= i < samples.len() && (#[trigger] samples[i]).0 == pid {
            let i = choose|i: int| 0 <= i < samples.len() && (#[trigger] samples[i]).0 == pid;
            if i < samples.len() - 1 {
                assert(prefix[i] == samples[i]);
            }
        }
        if exists|i: int| 0 <= i < prefix.len() && (#[trigger] prefix[i]).0 == pid {
            let i = choose|i: int| 0 <= i < prefix.len() && (#[trigger] prefix[i]).0 == pid;
            assert(samples[i] == prefix[i]);
        }
    }
}

/// The series of a process that is sampled again gets that sample appended
/// to what it had, within [`CAPACITY`].
pub proof fn lemma_record_appends<T>(old: Map<u32, Seq<T>>, pid: u32, value: T)
    ensures
        record_processes(old, seq![(pid, value)])[pid] == pushed(
            if old.contains_key(pid) {
                old[pid]
            } else {
                Seq::empty()
            },
            value,
        ),
{
    let samples = seq![(pid, value)];
    assert(samples.drop_last() =~= Seq::<(u32, T)>::empty());
    assert(record_processes(old, samples.drop_last()) == Map::<u32, Seq<T>>::empty());
    assert(samples.last() == (pid, value));
}

} // verus!
