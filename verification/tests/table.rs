use pm3::config::ProcessConfig;
use pm3::dispatch::{Action, Dispatcher, Event, StopOutcome};
use pm3::paths::Paths;
use pm3::process::{ManagedProcess, SpawnOutcome};
use pm3::protocol::{ProcessStatus, Request};
use pm3::table::ProcessTable;

fn record(name: &str, pid: u32) -> ManagedProcess {
    ManagedProcess {
        name: name.to_string(),
        config: ProcessConfig::new("sleep 999".to_string()),
        pid: Some(pid),
        status: ProcessStatus::Online,
        started_at: 0,
        restarts: 0,
    }
}

#[test]
fn a_new_table_is_empty() {
    let table = ProcessTable::new();
    assert!(table.is_empty());
    assert_eq!(table.len(), 0);
    assert_eq!(table.position(&"web".to_string()), None);
    assert!(!table.contains_key(&"web".to_string()));
    assert!(table.names().is_empty());
    assert!(table.list(0).is_empty());
}

#[test]
fn records_stand_in_the_order_they_came() {
    let mut table = ProcessTable::new();
    table.insert(record("web", 1));
    table.insert(record("worker", 2));
    table.insert(record("db", 3));
    assert_eq!(table.len(), 3);
    assert_eq!(table.names(), vec!["web", "worker", "db"]);
    assert_eq!(table.position(&"worker".to_string()), Some(1));
    assert_eq!(table.entry(2).name, "db");
    assert_eq!(table.get(&"db".to_string()), Some(&record("db", 3)));
    assert_eq!(table.get(&"ghost".to_string()), None);
    assert!(table.contains_key(&"web".to_string()));
}

#[test]
fn a_name_stands_once() {
    let mut table = ProcessTable::new();
    table.insert(record("web", 1));
    table.insert(record("worker", 2));
    table.insert(record("web", 3));
    assert_eq!(table.len(), 2);
    assert_eq!(table.names(), vec!["web", "worker"]);
    assert_eq!(table.get(&"web".to_string()).unwrap().pid, Some(3));
}

#[test]
fn a_stopped_record_has_no_child() {
    let mut table = ProcessTable::new();
    let mut web = record("web", 1);
    web.restarts = 4;
    table.insert(web);
    table.insert(record("worker", 2));
    table.mark_stopped(0);
    let web = table.entry(0);
    assert_eq!(web.status, ProcessStatus::Stopped);
    assert_eq!(web.pid, None);
    assert_eq!(web.restarts, 4);
    assert_eq!(table.entry(1), &record("worker", 2));
}

#[test]
fn a_dispatcher_goes_on_from_a_table() {
    let mut table = ProcessTable::new();
    let mut worn = record("worn", 1);
    worn.restarts = u32::MAX;
    let mut fresh = record("fresh", 2);
    fresh.restarts = u32::MAX - 1;
    table.insert(worn);
    table.insert(fresh);
    let mut d = Dispatcher::with_table(Paths::with_base("/d".to_string()), table);

    // The counter of `fresh` has room for one restart more.
    let request = Request::Restart { names: Some(vec!["fresh".to_string()]) };
    assert!(matches!(d.dispatch(request, 0), Action::Stop { .. }));
    assert!(matches!(d.step(Event::Stop(StopOutcome::Stopped)), Action::Launch { .. }));
    let launched = Event::Launch(SpawnOutcome::Spawned { pid: Some(3), at: 0 });
    assert!(d.accepts(&launched));
    assert!(matches!(d.step(launched), Action::Reply { .. }));
    assert_eq!(d.table().get(&"fresh".to_string()).unwrap().restarts, u32::MAX);

    // The counter of `worn` has not.
    let request = Request::Restart { names: Some(vec!["worn".to_string()]) };
    assert!(matches!(d.dispatch(request, 0), Action::Stop { .. }));
    assert!(matches!(d.step(Event::Stop(StopOutcome::Stopped)), Action::Launch { .. }));
    assert!(!d.accepts(&Event::Launch(SpawnOutcome::Spawned { pid: Some(4), at: 0 })));
    assert!(d.accepts(&Event::Launch(SpawnOutcome::Failed { reason: "x".to_string() })));
}
