//! The collection cycle and its schedule, as a machine from state and event
//! to next state and action. The caller performs each action (a scrape, a
//! push, a sleep) and hands back what came of it as the next event.
use vstd::prelude::*;
use crate::registry::{Instruments, Readings, Role, applied, missing_fields};
use crate::scrape::{FetchError, scrape_url, url_for};

verus! {

/// A source of metrics.
pub struct Source {
    pub name: String,
    /// Host name or IP address; the metrics port and path are added to it.
    pub address: String,
    pub role: Role,
}

/// Why a push to the gateway did not succeed.
pub enum PushError {
    /// The gateway could not be reached.
    Unreachable(String),
    /// The gateway answered with a status outside 200..=299.
    Rejected(u16),
}

/// Where the collector stands.
#[derive(Clone, Copy, PartialEq, Eq, Structural)]
pub enum Phase {
    /// Waiting for the next tick.
    Idle,
    /// Waiting for the outcome of the scrape of the source at this position.
    Scraping(usize),
    /// Waiting for the outcome of the push.
    Pushing,
    /// Terminated; nothing more happens.
    Stopped,
}

/// What the caller hands to the collector.
pub enum Event {
    /// The interval has passed: a new cycle begins.
    Tick,
    /// The outcome of the scrape that was asked for.
    Scraped(Result<String, FetchError>),
    /// The outcome of the push that was asked for.
    Pushed(Result<(), PushError>),
    /// The process is asked to stop.
    Terminate,
}

/// What the caller is to do next.
pub enum Action {
    /// Fetch `url` (the source at `index`), giving up after `timeout_ms`.
    Scrape { index: usize, url: String, timeout_ms: u64 },
    /// Push a snapshot of the instruments to the gateway.
    Push,
    /// Sleep this many milliseconds, then hand over a tick.
    Sleep(u64),
    /// Stop.
    Halt,
    /// Nothing: the event did not fit the phase.
    Nothing,
}

/// An action without its payload of text.
pub enum Step {
    Scrape(int),
    Push,
    Sleep(u64),
    Halt,
    Nothing,
}

impl Action {
    pub open spec fn step(&self) -> Step {
        match self {
            Action::Scrape { index, .. } => Step::Scrape(*index as int),
            Action::Push => Step::Push,
            Action::Sleep(ms) => Step::Sleep(*ms),
            Action::Halt => Step::Halt,
            Action::Nothing => Step::Nothing,
        }
    }
}

/// How the current cycle went so far.
#[derive(Clone, Copy, PartialEq, Eq, Structural)]
pub struct CycleReport {
    /// Sources whose scrape gave a body.
    pub succeeded: usize,
    /// Sources whose scrape failed.
    pub failed: usize,
    /// Fields asked of the succeeded sources that had no value, and were
    /// taken as zero (stops at the largest `usize`).
    pub missing: usize,
}

pub open spec fn capped_add(a: usize, b: nat) -> usize {
    if a + b > usize::MAX {
        usize::MAX
    } else {
        (a + b) as usize
    }
}

/// The phase after `e` in phase `p`, with `n` sources.
pub open spec fn next_phase(p: Phase, n: nat, e: Event) -> Phase {
    match (p, e) {
        (Phase::Stopped, _) => Phase::Stopped,
        (_, Event::Terminate) => Phase::Stopped,
        (Phase::Idle, Event::Tick) => if n == 0 {
            Phase::Pushing
        } else {
            Phase::Scraping(0)
        },
        (Phase::Scraping(i), Event::Scraped(_)) => if i + 1 < n {
            Phase::Scraping((i + 1) as usize)
        } else {
            Phase::Pushing
        },
        (Phase::Pushing, Event::Pushed(_)) => Phase::Idle,
        _ => p,
    }
}

/// The action after `e` in phase `p`, with `n` sources and a tick every
/// `interval_ms`.
pub open spec fn next_step(p: Phase, n: nat, e: Event, interval_ms: u64) -> Step {
    match (p, e) {
        (Phase::Stopped, _) => Step::Nothing,
        (_, Event::Terminate) => Step::Halt,
        (Phase::Idle, Event::Tick) => if n == 0 {
            Step::Push
        } else {
            Step::Scrape(0)
        },
        (Phase::Scraping(i), Event::Scraped(_)) => if i + 1 < n {
            Step::Scrape(i + 1)
        } else {
            Step::Push
        },
        (Phase::Pushing, Event::Pushed(_)) => Step::Sleep(interval_ms),
        _ => Step::Nothing,
    }
}

/// The phase after the events `es`, in order.
pub open spec fn phase_after(p: Phase, n: nat, es: Seq<Event>) -> Phase
    decreases es.len(),
{
    if es.len() == 0 {
        p
    } else {
        phase_after(next_phase(p, n, es[0]), n, es.drop_first())
    }
}

/// How many pushes the events `es` give rise to.
pub open spec fn pushes(p: Phase, n: nat, es: Seq<Event>, interval_ms: u64) -> nat
    decreases es.len(),
{
    if es.len() == 0 {
        0
    } else {
        (if next_step(p, n, es[0], interval_ms) is Push {
            1nat
        } else {
            0nat
        }) + pushes(next_phase(p, n, es[0]), n, es.drop_first(), interval_ms)
    }
}

/// One scrape event per outcome, in order.
pub open spec fn scraped_events(outcomes: Seq<Result<String, FetchError>>) -> Seq<Event> {
    outcomes.map_values(|o: Result<String, FetchError>| Event::Scraped(o))
}

/// The events of one cycle: a tick, then one scrape outcome per source.
pub open spec fn cycle_events(outcomes: Seq<Result<String, FetchError>>) -> Seq<Event> {
    seq![Event::Tick] + scraped_events(outcomes)
}

proof fn lemma_scrapes_then_push(
    i: nat,
    n: nat,
    outcomes: Seq<Result<String, FetchError>>,
    interval_ms: u64,
)
    requires
        i < n,
        i + outcomes.len() == n,
        n <= usize::MAX,
    ensures
        pushes(Phase::Scraping(i as usize), n, scraped_events(outcomes), interval_ms) == 1,
        phase_after(Phase::Scraping(i as usize), n, scraped_events(outcomes)) == Phase::Pushing,
    decreases outcomes.len(),
{
    let es = scraped_events(outcomes);
    let rest = outcomes.drop_first();
    let es_rest = scraped_events(rest);
    assert(es.drop_first() =~= es_rest);
    assert(es[0] == Event::Scraped(outcomes[0]));
    let p = Phase::Scraping(i as usize);
    if i + 1 < n {
        assert(next_phase(p, n, es[0]) == Phase::Scraping((i + 1) as usize));
        assert(!(next_step(p, n, es[0], interval_ms) is Push));
        lemma_scrapes_then_push(i + 1, n, rest, interval_ms);
    } else {
        assert(next_phase(p, n, es[0]) == Phase::Pushing);
        assert(next_step(p, n, es[0], interval_ms) is Push);
        assert(es_rest.len() == 0);
        assert(pushes(Phase::Pushing, n, es_rest, interval_ms) == 0);
        assert(phase_after(Phase::Pushing, n, es_rest) == Phase::Pushing);
    }
}

/// Whatever each source returns, failures included, one cycle gives rise to
/// exactly one push, and ends waiting on it.
pub proof fn lemma_one_push_per_cycle(
    n: nat,
    outcomes: Seq<Result<String, FetchError>>,
    interval_ms: u64,
)
    requires
        outcomes.len() == n,
        n <= usize::MAX,
    ensures
        pushes(Phase::Idle, n, cycle_events(outcomes), interval_ms) == 1,
        phase_after(Phase::Idle, n, cycle_events(outcomes)) == Phase::Pushing,
{
    let es = cycle_events(outcomes);
    let scraped = scraped_events(outcomes);
    assert(es.drop_first() =~= scraped);
    assert(es[0] == Event::Tick);
    assert(es.len() > 0);
    if n == 0 {
        assert(next_phase(Phase::Idle, n, es[0]) == Phase::Pushing);
        assert(next_step(Phase::Idle, n, es[0], interval_ms) is Push);
        assert(scraped.len() == 0);
        assert(pushes(Phase::Pushing, n, scraped, interval_ms) == 0);
        assert(phase_after(Phase::Pushing, n, scraped) == Phase::Pushing);
    } else {
        assert(next_phase(Phase::Idle, n, es[0]) == Phase::Scraping(0));
        assert(!(next_step(Phase::Idle, n, es[0], interval_ms) is Push));
        lemma_scrapes_then_push(0, n, outcomes, interval_ms);
        assert(pushes(Phase::Scraping(0), n, scraped, interval_ms) == 1);
    }
}

/// A failed push is followed by the same sleep as a successful one: no
/// backoff, and no change to the schedule.
pub proof fn lemma_push_failure_keeps_interval(n: nat, error: PushError, interval_ms: u64)
    ensures
        next_step(Phase::Pushing, n, Event::Pushed(Err(error)), interval_ms) == Step::Sleep(
            interval_ms,
        ),
        next_step(Phase::Pushing, n, Event::Pushed(Ok(())), interval_ms) == Step::Sleep(
            interval_ms,
        ),
        next_phase(Phase::Pushing, n, Event::Pushed(Err(error))) == Phase::Idle,
{
}

/// The collector: its sources, its instruments and where it stands.
pub struct Collector {
    pub sources: Vec<Source>,
    pub instruments: Instruments,
    pub phase: Phase,
    pub report: CycleReport,
    /// Time between the end of one cycle and the start of the next.
    pub interval_ms: u64,
    /// Bound on each scrape.
    pub timeout_ms: u64,
}

impl Collector {
    pub open spec fn wf(&self) -> bool {
        &&& self.instruments.wf(self.sources@.len())
        &&& self.phase matches Phase::Scraping(i) ==> i < self.sources@.len()
            && self.report.succeeded + self.report.failed == i
        &&& self.phase is Pushing ==> self.report.succeeded + self.report.failed
            == self.sources@.len()
    }

    /// A collector for `sources`, idle, with every instrument at zero.
    pub fn new(sources: Vec<Source>, interval_ms: u64, timeout_ms: u64) -> (r: Collector)
        ensures
            r.wf(),
            r.sources@ == sources@,
            r.phase == Phase::Idle,
            r.interval_ms == interval_ms,
            r.timeout_ms == timeout_ms,
            r.instruments@.throughput == 0,
            forall|i: int|
                0 <= i < sources@.len() ==> r.instruments@.cpu[i] == 0
                    && r.instruments@.memory[i] == 0,
    {
        let n = sources.len();
        Collector {
            sources,
            instruments: Instruments::new(n),
            phase: Phase::Idle,
            report: CycleReport { succeeded: 0, failed: 0, missing: 0 },
            interval_ms,
            timeout_ms,
        }
    }

    /// The instruments after `e`: a scrape's outcome is applied to the
    /// instruments of the source it came from; nothing else changes them.
    pub open spec fn readings_after(&self, e: Event) -> Readings {
        match (self.phase, e) {
            (Phase::Scraping(i), Event::Scraped(o)) => applied(
                self.instruments@,
                i as int,
                self.sources@[i as int].role,
                o,
            ),
            _ => self.instruments@,
        }
    }

    /// The report after `e`: a tick that starts a cycle clears it, and a
    /// scrape's outcome is counted.
    pub open spec fn report_after(&self, e: Event) -> CycleReport {
        match (self.phase, e) {
            (Phase::Idle, Event::Tick) => CycleReport { succeeded: 0, failed: 0, missing: 0 },
            (Phase::Scraping(i), Event::Scraped(o)) => if o is Ok {
                CycleReport {
                    succeeded: (self.report.succeeded + 1) as usize,
                    missing: capped_add(
                        self.report.missing,
                        missing_fields(self.sources@[i as int].role, o),
                    ),
                    ..self.report
                }
            } else {
                CycleReport { failed: (self.report.failed + 1) as usize, ..self.report }
            },
            _ => self.report,
        }
    }

    fn scrape_action(&self, index: usize) -> (r: Action)
        requires
            index < self.sources@.len(),
        ensures
            r.step() == Step::Scrape(index as int),
            r matches Action::Scrape { url, timeout_ms, .. } ==> url@ == url_for(
                self.sources@[index as int].address@,
            ) && timeout_ms == self.timeout_ms,
    {
        Action::Scrape {
            index,
            url: scrape_url(self.sources[index].address.as_str()),
            timeout_ms: self.timeout_ms,
        }
    }

    /// Takes one event and says what to do next.
    pub fn handle(&mut self, e: Event) -> (r: Action)
        requires
            old(self).wf(),
        ensures
            final(self).wf(),
            final(self).sources@ == old(self).sources@,
            final(self).interval_ms == old(self).interval_ms,
            final(self).timeout_ms == old(self).timeout_ms,
            final(self).phase == next_phase(old(self).phase, old(self).sources@.len(), e),
            r.step() == next_step(old(self).phase, old(self).sources@.len(), e, old(self).interval_ms),
            final(self).instruments@ == old(self).readings_after(e),
            final(self).report == old(self).report_after(e),
            r matches Action::Scrape { index, url, timeout_ms } ==> index < old(self).sources@.len()
                && url@ == url_for(old(self).sources@[index as int].address@) && timeout_ms
                == old(self).timeout_ms,
    {
        let n = self.sources.len();
        match self.phase {
            Phase::Stopped => Action::Nothing,
            _ => match e {
                Event::Terminate => {
                    self.phase = Phase::Stopped;
                    Action::Halt
                },
                Event::Tick => {
                    if self.phase == Phase::Idle {
                        self.report = CycleReport { succeeded: 0, failed: 0, missing: 0 };
                        if n == 0 {
                            self.phase = Phase::Pushing;
                            Action::Push
                        } else {
                            self.phase = Phase::Scraping(0);
                            self.scrape_action(0)
                        }
                    } else {
                        Action::Nothing
                    }
                },
                Event::Scraped(outcome) => {
                    if let Phase::Scraping(i) = self.phase {
                        let role = self.sources[i].role;
                        let missing = self.instruments.apply(i, role, &outcome);
                        if outcome.is_ok() {
                            self.report.succeeded = self.report.succeeded + 1;
                            if self.report.missing > usize::MAX - missing {
                                self.report.missing = usize::MAX;
                            } else {
                                self.report.missing = self.report.missing + missing;
                            }
                        } else {
                            self.report.failed = self.report.failed + 1;
                        }
                        if i + 1 < n {
                            self.phase = Phase::Scraping(i + 1);
                            self.scrape_action(i + 1)
                        } else {
                            self.phase = Phase::Pushing;
                            Action::Push
                        }
                    } else {
                        Action::Nothing
                    }
                },
                Event::Pushed(_) => {
                    if self.phase == Phase::Pushing {
                        self.phase = Phase::Idle;
                        Action::Sleep(self.interval_ms)
                    } else {
                        Action::Nothing
                    }
                },
            },
        }
    }
}

} // verus!
