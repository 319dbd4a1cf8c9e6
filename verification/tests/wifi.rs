use capsulator::wifi::{scan_command, state_command, WifiList};

fn list() -> WifiList {
    WifiList::new(vec!["Home".to_string(), "Cafe".to_string(), "Office".to_string()])
}

#[test]
fn fresh_list_hides_every_password_field() {
    let l = list();
    assert_eq!(l.len(), 3);
    for i in 0..3 {
        assert!(!l.password_shown(i));
        assert_eq!(l.button_class(i), "wifi-entry");
    }
}

#[test]
fn selecting_opens_exactly_one_field() {
    let mut l = list();
    l.select(1);
    l.select(2);
    for i in 0..3 {
        assert_eq!(l.password_shown(i), i == 2);
        assert_eq!(l.button_class(i), if i == 2 { "wifi-selected" } else { "wifi-entry" });
    }
}

#[test]
fn connect_command_names_network_and_password() {
    let l = list();
    assert_eq!(
        l.connect_command(1, "hunter2"),
        vec!["nmcli", "device", "wifi", "connect", "Cafe", "password", "hunter2"]
    );
}

#[test]
fn network_manager_queries() {
    assert_eq!(scan_command(), vec!["nmcli", "-t", "-f", "SSID", "device", "wifi", "list"]);
    assert_eq!(state_command(), vec!["nmcli", "-t", "-f", "STATE", "general"]);
}
