use raid_monitor::monitor::{Action, Event, Monitor, MDSTAT_PATH, SLEEP_DURATION};
use raid_monitor::parser::ParseError;

const HEALTHY: &str = "Personalities : [raid1]
md0 : active raid1 sdb1[1] sda1[0]
      104320 blocks [2/2] [UU]

md1 : active raid1 sdb2[1] sda2[0]
      1959808 blocks [2/2] [UU]

unused devices: <none>
";

const MD1_FAILING: &str = "Personalities : [raid1]
md0 : active raid1 sdb1[1] sda1[0]
      104320 blocks [2/2] [UU]

md1 : active raid1 sdb2[1] sda2[0](F)
      1959808 blocks [2/1] [_U]

unused devices: <none>
";

const BOTH_FAILING: &str = "Personalities : [raid1]
md0 : active raid1 sdb1[1](F) sda1[0]
      104320 blocks [2/1] [U_]

md1 : active raid1 sdb2[1] sda2[0](F)
      1959808 blocks [2/1] [_U]

unused devices: <none>
";

const BROKEN: &str = "Personalities : [raid1]
md0 : active raid1 sdb1[1] sda1[0]
      104320 blocks [2/2] [UU]

md1 : active raid1 sdb2[1] sda2[0](F)
      1959808 blocks [\u{0662}/1] [_U]
";

fn names(monitor: &Monitor) -> Vec<String> {
    monitor.failing().raids().iter().map(|r| r.name.clone()).collect()
}

#[test]
fn fixed_settings_of_the_monitor() {
    assert_eq!(SLEEP_DURATION, 900);
    assert_eq!(MDSTAT_PATH, "/proc/mdstat");
}

#[test]
fn new_monitor_tracks_nothing() {
    let monitor = Monitor::new();
    assert!(monitor.failing().raids().is_empty());
}

#[test]
fn cycle_on_a_healthy_report_is_silent() {
    let mut monitor = Monitor::new();
    assert!(monitor.cycle(HEALTHY).unwrap().is_none());
    assert!(names(&monitor).is_empty());
}

#[test]
fn cycle_alerts_on_a_new_failure() {
    let mut monitor = Monitor::new();
    let alert = monitor.cycle(MD1_FAILING).unwrap().unwrap();
    assert_eq!(alert.summary, "One or more raids are failing");
    assert_eq!(alert.body, "The following raids are failing: md1 (1/2)");
    assert_eq!(alert.icon, "drive-harddisk");
    assert_eq!(names(&monitor), vec![String::from("md1")]);
}

#[test]
fn cycle_is_silent_on_a_failure_that_goes_on() {
    let mut monitor = Monitor::new();
    assert!(monitor.cycle(MD1_FAILING).unwrap().is_some());
    assert!(monitor.cycle(MD1_FAILING).unwrap().is_none());
    assert!(monitor.cycle(MD1_FAILING).unwrap().is_none());
    assert_eq!(names(&monitor), vec![String::from("md1")]);
}

#[test]
fn cycle_lists_every_failing_array_in_the_alert() {
    let mut monitor = Monitor::new();
    assert!(monitor.cycle(MD1_FAILING).unwrap().is_some());
    let alert = monitor.cycle(BOTH_FAILING).unwrap().unwrap();
    assert_eq!(alert.body, "The following raids are failing: md1 (1/2) ,md0 (1/2)");
    assert_eq!(names(&monitor), vec![String::from("md1"), String::from("md0")]);
}

#[test]
fn cycle_is_silent_on_recovery_and_alerts_on_a_flap() {
    let mut monitor = Monitor::new();
    assert!(monitor.cycle(MD1_FAILING).unwrap().is_some());
    assert!(monitor.cycle(HEALTHY).unwrap().is_none());
    assert!(names(&monitor).is_empty());
    let alert = monitor.cycle(MD1_FAILING).unwrap().unwrap();
    assert_eq!(alert.body, "The following raids are failing: md1 (1/2)");
}

#[test]
fn cycle_fails_on_a_report_that_does_not_parse_and_keeps_its_state() {
    let mut monitor = Monitor::new();
    assert!(monitor.cycle(BOTH_FAILING).unwrap().is_some());
    assert_eq!(monitor.cycle(BROKEN).err(), Some(ParseError::InvalidCount));
    assert_eq!(names(&monitor), vec![String::from("md0"), String::from("md1")]);
    assert!(monitor.cycle(BOTH_FAILING).unwrap().is_none());
}

#[test]
fn the_program_waits_first_and_samples_after_each_wait() {
    let mut monitor = Monitor::new();
    assert!(matches!(monitor.advance(Event::Started), Ok(Action::Wait)));
    assert!(matches!(monitor.advance(Event::Waited), Ok(Action::Sample)));
    assert!(names(&monitor).is_empty());
}

#[test]
fn a_healthy_report_is_followed_by_the_next_wait() {
    let mut monitor = Monitor::new();
    let action = monitor.advance(Event::Sampled(String::from(HEALTHY)));
    assert!(matches!(action, Ok(Action::Wait)));
    assert!(names(&monitor).is_empty());
}

#[test]
fn a_new_failure_is_followed_by_its_alert_and_then_the_next_wait() {
    let mut monitor = Monitor::new();
    match monitor.advance(Event::Sampled(String::from(MD1_FAILING))) {
        Ok(Action::Alert(alert)) => {
            assert_eq!(alert.summary, "One or more raids are failing");
            assert_eq!(alert.body, "The following raids are failing: md1 (1/2)");
            assert_eq!(alert.icon, "drive-harddisk");
        }
        other => panic!("expected an alert, got {:?}", other),
    }
    assert!(matches!(monitor.advance(Event::Alerted), Ok(Action::Wait)));
    assert_eq!(names(&monitor), vec![String::from("md1")]);
}

#[test]
fn events_other_than_a_report_leave_the_tracked_arrays() {
    let mut monitor = Monitor::new();
    assert!(monitor.cycle(BOTH_FAILING).unwrap().is_some());
    assert!(matches!(monitor.advance(Event::Started), Ok(Action::Wait)));
    assert!(matches!(monitor.advance(Event::Waited), Ok(Action::Sample)));
    assert!(matches!(monitor.advance(Event::Alerted), Ok(Action::Wait)));
    assert_eq!(names(&monitor), vec![String::from("md0"), String::from("md1")]);
}

#[test]
fn a_report_that_does_not_parse_has_no_next_action() {
    let mut monitor = Monitor::new();
    let out = monitor.advance(Event::Sampled(String::from(BROKEN)));
    assert_eq!(out.err(), Some(ParseError::InvalidCount));
    assert!(names(&monitor).is_empty());
}

#[test]
fn a_run_of_several_cycles() {
    let reports = [HEALTHY, MD1_FAILING, MD1_FAILING, BOTH_FAILING, HEALTHY, BOTH_FAILING];
    let expected = [
        None,
        Some("The following raids are failing: md1 (1/2)"),
        None,
        Some("The following raids are failing: md1 (1/2) ,md0 (1/2)"),
        None,
        Some("The following raids are failing: md0 (1/2) ,md1 (1/2)"),
    ];
    let mut monitor = Monitor::new();
    let mut event = Event::Started;
    let mut shown: Vec<Option<String>> = Vec::new();
    let mut next_report = 0;
    let mut alerted = false;
    loop {
        event = match monitor.advance(event).unwrap() {
            Action::Wait => {
                if next_report > 0 && !alerted {
                    shown.push(None);
                }
                alerted = false;
                if next_report == reports.len() {
                    break;
                }
                Event::Waited
            }
            Action::Sample => {
                next_report += 1;
                Event::Sampled(String::from(reports[next_report - 1]))
            }
            Action::Alert(alert) => {
                shown.push(Some(alert.body));
                alerted = true;
                Event::Alerted
            }
        };
    }
    let expected: Vec<Option<String>> =
        expected.iter().map(|body| body.map(String::from)).collect();
    assert_eq!(shown, expected);
}
