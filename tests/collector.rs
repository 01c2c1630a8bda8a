use push_gateway::cycle::{Action, Collector, Event, Phase, PushError, Source};
use push_gateway::registry::Role;
use push_gateway::scrape::FetchError;

fn source(name: &str, address: &str, role: Role) -> Source {
    Source { name: name.to_string(), address: address.to_string(), role }
}

fn scraped(body: &str) -> Event {
    Event::Scraped(Ok(body.to_string()))
}

fn unreachable() -> Event {
    Event::Scraped(Err(FetchError::Unreachable("connection refused".to_string())))
}

#[test]
fn test_collect_redpanda_metrics() {
    let mut c = Collector::new(vec![source("redpanda-1", "localhost:9092", Role::Broker)], 15_000, 5_000);
    assert!(matches!(c.handle(Event::Tick), Action::Scrape { index: 0, .. }));
    assert!(matches!(c.handle(unreachable()), Action::Push));
    assert_eq!(c.instruments.throughput_total, 0);
    assert_eq!(c.report.failed, 1);
}

#[test]
fn test_collect_vm_metrics() {
    let mut c = Collector::new(vec![source("vm", "localhost", Role::HostAgent)], 15_000, 5_000);
    c.handle(Event::Tick);
    c.handle(scraped("cpu_usage=12.5\nmemory_usage=40"));
    assert_eq!(c.instruments.cpu_usage, vec![12_500_000]);
    assert_eq!(c.instruments.memory_usage, vec![40_000_000]);
    assert!(c.instruments.cpu_usage[0] >= 0);
}

#[test]
fn test_push_metrics_to_gateway() {
    let mut c = Collector::new(vec![], 15_000, 5_000);
    assert!(matches!(c.handle(Event::Tick), Action::Push));
    assert!(matches!(c.handle(Event::Pushed(Ok(()))), Action::Sleep(15_000)));
    assert!(c.phase == Phase::Idle);
}

#[test]
fn test_end_to_end_metrics_collection() {
    let mut c = Collector::new(
        vec![
            source("redpanda-1", "localhost:9092", Role::Broker),
            source("vm", "localhost", Role::HostAgent),
        ],
        15_000,
        5_000,
    );
    match c.handle(Event::Tick) {
        Action::Scrape { index, url, timeout_ms } => {
            assert_eq!(index, 0);
            assert_eq!(url, "http://localhost:9092:9644/metrics");
            assert_eq!(timeout_ms, 5_000);
        }
        _ => panic!("expected a scrape"),
    }
    match c.handle(scraped("message_throughput=3")) {
        Action::Scrape { index, url, .. } => {
            assert_eq!(index, 1);
            assert_eq!(url, "http://localhost:9644/metrics");
        }
        _ => panic!("expected a scrape"),
    }
    assert!(matches!(c.handle(scraped("cpu_usage=1\nmemory_usage=2")), Action::Push));
    assert!(matches!(c.handle(Event::Pushed(Ok(()))), Action::Sleep(15_000)));
    assert_eq!(c.instruments.throughput_total, 3_000_000);
    assert_eq!(c.instruments.cpu_usage[1], 1_000_000);
    assert_eq!(c.instruments.memory_usage[1], 2_000_000);
    assert_eq!(c.report.succeeded, 2);
}

#[test]
fn broker_throughput_counted_once() {
    let mut c = Collector::new(vec![source("broker-1", "10.0.0.1", Role::Broker)], 15_000, 5_000);
    c.handle(Event::Tick);
    c.handle(scraped("message_throughput=42.5"));
    assert_eq!(c.instruments.throughput_total, 42_500_000);
    c.handle(Event::Pushed(Ok(())));
    assert_eq!(c.instruments.throughput_total, 42_500_000);
}

#[test]
fn host_agent_gauges_set() {
    let mut c = Collector::new(vec![source("vm-1", "10.0.0.2", Role::HostAgent)], 15_000, 5_000);
    c.handle(Event::Tick);
    c.handle(scraped("cpu_usage=55\nmemory_usage=80"));
    assert_eq!(c.instruments.cpu_usage[0], 55_000_000);
    assert_eq!(c.instruments.memory_usage[0], 80_000_000);
}

#[test]
fn failed_source_keeps_last_values() {
    let mut c = Collector::new(
        vec![source("vm-1", "a", Role::HostAgent), source("broker-1", "b", Role::Broker)],
        1_000,
        500,
    );
    c.handle(Event::Tick);
    c.handle(scraped("cpu_usage=55\nmemory_usage=80"));
    c.handle(scraped("message_throughput=7"));
    c.handle(Event::Pushed(Ok(())));
    c.handle(Event::Tick);
    c.handle(Event::Scraped(Err(FetchError::BadStatus(503))));
    c.handle(unreachable());
    assert_eq!(c.instruments.cpu_usage[0], 55_000_000);
    assert_eq!(c.instruments.memory_usage[0], 80_000_000);
    assert_eq!(c.instruments.throughput_total, 7_000_000);
    assert_eq!(c.report.failed, 2);
    assert_eq!(c.report.succeeded, 0);
}

#[test]
fn counter_never_decreases() {
    let mut c = Collector::new(vec![source("broker-1", "b", Role::Broker)], 1_000, 500);
    let bodies = ["message_throughput=5", "message_throughput=-3", "nothing here", "message_throughput=0.25"];
    let mut last: u64 = 0;
    for body in bodies.iter() {
        c.handle(Event::Tick);
        c.handle(scraped(body));
        c.handle(Event::Pushed(Ok(())));
        assert!(c.instruments.throughput_total >= last);
        last = c.instruments.throughput_total;
    }
    assert_eq!(last, 5_250_000);
}

#[test]
fn no_reachable_source_still_pushes_once() {
    let mut c = Collector::new(
        vec![source("a", "a", Role::Broker), source("b", "b", Role::HostAgent), source("c", "c", Role::Broker)],
        1_000,
        500,
    );
    let mut pushes = 0;
    let mut actions = vec![c.handle(Event::Tick)];
    for _ in 0..3 {
        actions.push(c.handle(unreachable()));
    }
    for a in actions.iter() {
        if matches!(a, Action::Push) {
            pushes += 1;
        }
    }
    assert_eq!(pushes, 1);
    assert!(matches!(actions[3], Action::Push));
    assert!(c.phase == Phase::Pushing);
}

#[test]
fn empty_source_list_pushes_once() {
    let mut c = Collector::new(vec![], 1_000, 500);
    assert!(matches!(c.handle(Event::Tick), Action::Push));
    assert!(matches!(c.handle(Event::Tick), Action::Nothing));
}

#[test]
fn rejected_push_keeps_interval() {
    let mut c = Collector::new(vec![source("a", "a", Role::Broker)], 15_000, 500);
    c.handle(Event::Tick);
    c.handle(unreachable());
    assert!(matches!(c.handle(Event::Pushed(Err(PushError::Rejected(500)))), Action::Sleep(15_000)));
    assert!(c.phase == Phase::Idle);
    assert!(matches!(c.handle(Event::Tick), Action::Scrape { index: 0, .. }));
}

#[test]
fn timed_out_source_does_not_stall_cycle() {
    let mut c = Collector::new(
        vec![source("slow", "slow", Role::Broker), source("fast", "fast", Role::Broker)],
        15_000,
        2_000,
    );
    match c.handle(Event::Tick) {
        Action::Scrape { timeout_ms, .. } => assert_eq!(timeout_ms, 2_000),
        _ => panic!("expected a scrape"),
    }
    let timed_out = Event::Scraped(Err(FetchError::Unreachable("operation timed out".to_string())));
    match c.handle(timed_out) {
        Action::Scrape { index, timeout_ms, .. } => {
            assert_eq!(index, 1);
            assert_eq!(timeout_ms, 2_000);
        }
        _ => panic!("expected the next scrape"),
    }
    assert!(matches!(c.handle(scraped("message_throughput=1")), Action::Push));
}

#[test]
fn terminate_stops_collector() {
    let mut c = Collector::new(vec![source("a", "a", Role::Broker)], 1_000, 500);
    c.handle(Event::Tick);
    assert!(matches!(c.handle(Event::Terminate), Action::Halt));
    assert!(c.phase == Phase::Stopped);
    assert!(matches!(c.handle(Event::Tick), Action::Nothing));
}

#[test]
fn events_out_of_phase_are_ignored() {
    let mut c = Collector::new(vec![source("a", "a", Role::Broker)], 1_000, 500);
    assert!(matches!(c.handle(scraped("message_throughput=9")), Action::Nothing));
    assert!(matches!(c.handle(Event::Pushed(Ok(()))), Action::Nothing));
    assert_eq!(c.instruments.throughput_total, 0);
    assert!(c.phase == Phase::Idle);
}

#[test]
fn counter_saturates_at_largest() {
    let mut c = Collector::new(vec![source("a", "a", Role::Broker)], 1_000, 500);
    c.instruments.throughput_total = u64::MAX - 10;
    c.handle(Event::Tick);
    c.handle(scraped("message_throughput=1"));
    assert_eq!(c.instruments.throughput_total, u64::MAX);
}

#[test]
fn missing_fields_are_counted() {
    let mut c = Collector::new(
        vec![source("vm-1", "a", Role::HostAgent), source("broker-1", "b", Role::Broker), source("vm-2", "c", Role::HostAgent)],
        1_000,
        500,
    );
    c.handle(Event::Tick);
    c.handle(scraped("cpu_usage=5\nmemory_usage=oops"));
    c.handle(scraped("message_throughput=2"));
    c.handle(unreachable());
    assert_eq!(c.report.missing, 1);
    assert_eq!(c.report.succeeded, 2);
    assert_eq!(c.report.failed, 1);
    assert_eq!(c.instruments.memory_usage[0], 0);
    c.handle(Event::Pushed(Ok(())));
    c.handle(Event::Tick);
    assert_eq!(c.report.missing, 0);
    c.handle(scraped("nothing"));
    assert_eq!(c.report.missing, 2);
}
