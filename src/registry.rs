//! The instruments that the collection cycle fills, and how one scrape's
//! outcome changes them.
use vstd::prelude::*;
use crate::scrape::{FetchError, field_or_zero, field_reading, read_field};

verus! {

/// What a source is, which decides the fields asked of it.
#[derive(Clone, Copy, PartialEq, Eq, Structural)]
pub enum Role {
    /// A cluster broker: gives `message_throughput`.
    Broker,
    /// A host or VM agent: gives `cpu_usage` and `memory_usage`.
    HostAgent,
}

pub open spec fn throughput_field() -> Seq<char> {
    "message_throughput"@
}

pub open spec fn cpu_field() -> Seq<char> {
    "cpu_usage"@
}

pub open spec fn memory_field() -> Seq<char> {
    "memory_usage"@
}

/// The instruments' values, in millionths.
pub struct Readings {
    /// The counter `message_throughput_total`.
    pub throughput: int,
    /// The gauge `cpu_usage`, one per source.
    pub cpu: Seq<i64>,
    /// The gauge `memory_usage`, one per source.
    pub memory: Seq<i64>,
}

/// The instruments of the cycle. Values are held in millionths of a unit.
pub struct Instruments {
    /// Counter: the sum of every throughput reported so far.
    pub throughput_total: u64,
    /// Gauge: the last CPU usage of each source, by its position.
    pub cpu_usage: Vec<i64>,
    /// Gauge: the last memory usage of each source, by its position.
    pub memory_usage: Vec<i64>,
}

impl View for Instruments {
    type V = Readings;

    open spec fn view(&self) -> Readings {
        Readings {
            throughput: self.throughput_total as int,
            cpu: self.cpu_usage@,
            memory: self.memory_usage@,
        }
    }
}

/// A counter after an increment by `delta`: a delta that is not positive
/// leaves it as it is, and it stops at the largest `u64`.
pub open spec fn counter_step(total: int, delta: int) -> int {
    if delta <= 0 {
        total
    } else if total + delta > u64::MAX {
        u64::MAX as int
    } else {
        total + delta
    }
}

/// The instruments after source `index`, of role `role`, gave `outcome`.
pub open spec fn applied(
    before: Readings,
    index: int,
    role: Role,
    outcome: Result<String, FetchError>,
) -> Readings {
    match outcome {
        Err(_) => before,
        Ok(body) => match role {
            Role::Broker => Readings {
                throughput: counter_step(before.throughput, field_or_zero(body@, throughput_field())),
                ..before
            },
            Role::HostAgent => Readings {
                cpu: before.cpu.update(index, field_or_zero(body@, cpu_field()) as i64),
                memory: before.memory.update(index, field_or_zero(body@, memory_field()) as i64),
                ..before
            },
        },
    }
}

pub open spec fn absent(body: Seq<char>, field: Seq<char>) -> nat {
    if field_reading(body, field) is None {
        1
    } else {
        0
    }
}

/// How many of the fields asked of a source of role `role` had no value in
/// what it gave (zero where the scrape failed).
pub open spec fn missing_fields(role: Role, outcome: Result<String, FetchError>) -> nat {
    match outcome {
        Err(_) => 0,
        Ok(body) => match role {
            Role::Broker => absent(body@, throughput_field()),
            Role::HostAgent => absent(body@, cpu_field()) + absent(body@, memory_field()),
        },
    }
}

/// One scrape of the cycle: the source's position, its role and what came back.
pub struct ScrapeStep {
    pub index: int,
    pub role: Role,
    pub outcome: Result<String, FetchError>,
}

/// The instruments after `steps`, taken in order.
pub open spec fn applied_all(before: Readings, steps: Seq<ScrapeStep>) -> Readings
    decreases steps.len(),
{
    if steps.len() == 0 {
        before
    } else {
        let last = steps.last();
        applied(applied_all(before, steps.drop_last()), last.index, last.role, last.outcome)
    }
}

/// A source that fails to respond leaves every instrument at its last value.
pub proof fn lemma_failure_keeps_values(
    before: Readings,
    index: int,
    role: Role,
    error: FetchError,
)
    ensures
        applied(before, index, role, Err(error)) == before,
{
}

/// Whatever the sources return, over any number of scrapes, the throughput
/// counter never goes down.
pub proof fn lemma_counter_never_decreases(before: Readings, steps: Seq<ScrapeStep>)
    requires
        0 <= before.throughput <= u64::MAX,
    ensures
        applied_all(before, steps).throughput >= before.throughput,
        applied_all(before, steps).throughput <= u64::MAX,
    decreases steps.len(),
{
    if steps.len() > 0 {
        lemma_counter_never_decreases(before, steps.drop_last());
    }
}

impl Instruments {
    pub open spec fn wf(&self, n: nat) -> bool {
        self.cpu_usage@.len() == n && self.memory_usage@.len() == n
    }

    /// Instruments for `n` sources, all at zero.
    pub fn new(n: usize) -> (r: Instruments)
        ensures
            r.wf(n as nat),
            r@.throughput == 0,
            forall|i: int| 0 <= i < n ==> r@.cpu[i] == 0 && r@.memory[i] == 0,
    {
        let mut cpu: Vec<i64> = Vec::new();
        let mut memory: Vec<i64> = Vec::new();
        let mut i: usize = 0;
        while i < n
            invariant
                i <= n,
                cpu@.len() == i,
                memory@.len() == i,
                forall|j: int| 0 <= j < i ==> cpu@[j] == 0 && memory@[j] == 0,
            decreases n - i,
        {
            cpu.push(0);
            memory.push(0);
            i = i + 1;
        }
        Instruments { throughput_total: 0, cpu_usage: cpu, memory_usage: memory }
    }

    /// Records what source `index`, of role `role`, gave: a counter is raised
    /// by the reported amount, a gauge is set to the reported value, and a
    /// failed scrape changes nothing. A field without a value counts as zero;
    /// the result says how many fields were without one.
    pub fn apply(&mut self, index: usize, role: Role, outcome: &Result<String, FetchError>) -> (r:
        usize)
        requires
            index < old(self).cpu_usage@.len(),
            old(self).wf(old(self).cpu_usage@.len()),
        ensures
            final(self)@ == applied(old(self)@, index as int, role, *outcome),
            final(self).wf(old(self).cpu_usage@.len()),
            r == missing_fields(role, *outcome),
    {
        match outcome {
            Err(_) => 0,
            Ok(body) => match role {
                Role::Broker => {
                    let (delta, missing) = value_or_zero(body.as_str(), "message_throughput");
                    if delta > 0 {
                        let d = delta as u64;
                        if self.throughput_total > u64::MAX - d {
                            self.throughput_total = u64::MAX;
                        } else {
                            self.throughput_total = self.throughput_total + d;
                        }
                    }
                    missing
                },
                Role::HostAgent => {
                    let (cpu, cpu_missing) = value_or_zero(body.as_str(), "cpu_usage");
                    let (memory, memory_missing) = value_or_zero(body.as_str(), "memory_usage");
                    self.cpu_usage.set(index, cpu);
                    self.memory_usage.set(index, memory);
                    cpu_missing + memory_missing
                },
            },
        }
    }
}

/// The value of `field` in `body`, zero where it has none, and whether it had none.
fn value_or_zero(body: &str, field: &str) -> (r: (i64, usize))
    ensures
        r.0 == field_or_zero(body@, field@),
        r.1 == absent(body@, field@),
{
    match read_field(body, field) {
        Some(v) => (v, 0),
        None => (0, 1),
    }
}

} // verus!
