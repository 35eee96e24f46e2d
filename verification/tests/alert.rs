use raid_monitor::alert::{notification, raid_list, BODY_INTRO, ICON, SEPARATOR, SUMMARY};
use raid_monitor::raid::Raid;

fn raid(name: &str, all_devices: u8, current_devices: u8) -> Raid {
    Raid { name: String::from(name), all_devices, current_devices }
}

#[test]
fn fixed_texts_of_an_alert() {
    assert_eq!(SUMMARY, "One or more raids are failing");
    assert_eq!(BODY_INTRO, "The following raids are failing: ");
    assert_eq!(SEPARATOR, " ,");
    assert_eq!(ICON, "drive-harddisk");
}

#[test]
fn list_of_no_array_is_empty() {
    assert_eq!(raid_list(&vec![]), "");
}

#[test]
fn list_of_one_array_is_its_label() {
    assert_eq!(raid_list(&vec![raid("md0", 2, 1)]), "md0 (1/2)");
}

#[test]
fn list_joins_labels_in_order() {
    let raids = vec![raid("md0", 2, 1), raid("md1", 4, 0), raid("md2", 12, 11)];
    assert_eq!(raid_list(&raids), "md0 (1/2) ,md1 (0/4) ,md2 (11/12)");
}

#[test]
fn list_is_what_std_joins() {
    let raids = vec![raid("a", 2, 1), raid("", 200, 100), raid("c d", 9, 0), raid("e", 1, 0)];
    let labels: Vec<String> = raids.iter().map(|r| r.to_string()).collect();
    assert_eq!(raid_list(&raids), labels.join(" ,"));
}

#[test]
fn notification_for_one_array() {
    let alert = notification(&vec![raid("md0", 2, 1)]);
    assert_eq!(alert.summary, "One or more raids are failing");
    assert_eq!(alert.body, "The following raids are failing: md0 (1/2)");
    assert_eq!(alert.icon, "drive-harddisk");
}

#[test]
fn notification_for_several_arrays() {
    let alert = notification(&vec![raid("md0", 2, 1), raid("md127", 4, 2)]);
    assert_eq!(alert.summary, "One or more raids are failing");
    assert_eq!(alert.body, "The following raids are failing: md0 (1/2) ,md127 (2/4)");
    assert_eq!(alert.icon, "drive-harddisk");
}

#[test]
fn notification_for_no_array() {
    let alert = notification(&vec![]);
    assert_eq!(alert.body, "The following raids are failing: ");
}
