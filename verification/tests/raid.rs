use raid_monitor::raid::Raid;

fn raid(name: &str, all_devices: u8, current_devices: u8) -> Raid {
    Raid { name: String::from(name), all_devices, current_devices }
}

#[test]
fn is_failing_when_fewer_devices_are_active() {
    assert!(raid("md0", 2, 1).is_failing());
    assert!(raid("md0", 2, 0).is_failing());
    assert!(raid("md0", 9, 8).is_failing());
}

#[test]
fn is_not_failing_when_all_devices_are_active() {
    assert!(!raid("md0", 2, 2).is_failing());
    assert!(!raid("md0", 0, 0).is_failing());
}

#[test]
fn is_not_failing_when_more_devices_are_active_than_configured() {
    assert!(!raid("md0", 2, 3).is_failing());
}

#[test]
fn records_are_equal_by_name_alone() {
    assert!(raid("md0", 2, 2) == raid("md0", 2, 1));
    assert!(raid("md0", 2, 2) == raid("md0", 4, 0));
    assert!(raid("md0", 2, 2) != raid("md1", 2, 2));
    assert!(raid("md0", 2, 2) != raid("md", 2, 2));
    assert!(raid("", 1, 1) == raid("", 2, 2));
}

#[test]
fn label_shows_active_before_configured() {
    assert_eq!(raid("md0", 2, 1).to_string(), "md0 (1/2)");
    assert_eq!(raid("md127", 4, 3).to_string(), "md127 (3/4)");
    assert_eq!(raid("md1", 2, 2).to_string(), "md1 (2/2)");
}

#[test]
fn label_writes_counts_of_any_length() {
    assert_eq!(raid("big", 255, 100).to_string(), "big (100/255)");
    assert_eq!(raid("big", 12, 0).to_string(), "big (0/12)");
}

#[test]
fn label_keeps_the_name_as_it_is() {
    assert_eq!(raid("", 2, 1).to_string(), " (1/2)");
    assert_eq!(raid("md 0 é", 2, 1).to_string(), "md 0 é (1/2)");
}

#[test]
fn clone_keeps_every_field() {
    let original = raid("md0", 2, 1);
    let copy = original.clone();
    assert_eq!(copy.name, "md0");
    assert_eq!(copy.all_devices, 2);
    assert_eq!(copy.current_devices, 1);
    assert_eq!(original.name, "md0");
}
