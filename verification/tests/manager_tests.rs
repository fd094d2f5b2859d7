use wings_rs::manager::{
    boot_action, plan_boot, recorded_state, should_restart, start_after_install, BootAction, Manager,
};
use wings_rs::schedule::ServerState;

#[test]
fn servers_are_added_found_and_deleted() {
    let mut m: Manager<&str> = Manager::new(4);
    m.create_server(1, "one");
    m.create_server(2, "two");
    m.create_server(1, "one again");
    assert_eq!(m.get_servers().len(), 3);
    assert_eq!(m.find_server(2), Some(&"two"));
    assert_eq!(m.find_server(1), Some(&"one"));
    assert_eq!(m.position(9), None);
    assert_eq!(m.delete_server(1), Some("one"));
    assert_eq!(m.get_servers(), &vec![(2, "two"), (1, "one again")]);
    assert_eq!(m.delete_server(9), None);
    assert_eq!(m.get_servers().len(), 2);
}

#[test]
fn create_then_delete_restores_list() {
    let mut m: Manager<u32> = Manager::new(0);
    m.create_server(1, 10);
    let before = m.get_servers().clone();
    m.create_server(2, 20);
    assert_eq!(m.delete_server(2), Some(20));
    assert_eq!(m.get_servers(), &before);
}

#[test]
fn boot_actions() {
    assert_eq!(boot_action(Some(true), 0), BootAction::AttachInstallation { reinstall: true });
    assert_eq!(boot_action(None, 5), BootAction::AttachContainer);
    assert_eq!(boot_action(None, 0), BootAction::Nothing);
}

#[test]
fn restarts_only_servers_that_went_down() {
    assert!(should_restart(ServerState::Running, ServerState::Offline));
    assert!(should_restart(ServerState::Starting, ServerState::Stopping));
    assert!(!should_restart(ServerState::Running, ServerState::Running));
    assert!(!should_restart(ServerState::Offline, ServerState::Offline));
}

#[test]
fn recorded_state_defaults_to_offline() {
    assert_eq!(recorded_state(None), ServerState::Offline);
    assert_eq!(recorded_state(Some(ServerState::Running)), ServerState::Running);
}

#[test]
fn start_on_completion() {
    assert!(start_after_install(true, Some(true)));
    assert!(!start_after_install(true, Some(false)));
    assert!(!start_after_install(true, None));
    assert!(!start_after_install(false, Some(true)));
}

#[test]
fn boot_plan_takes_recorded_entries_once() {
    let servers = vec![1u128, 2, 3, 1];
    let mut states = std::collections::HashMap::new();
    states.insert(1u128, ServerState::Running);
    states.insert(3u128, ServerState::Stopping);
    states.insert(9u128, ServerState::Starting);
    let mut installing = std::collections::HashMap::new();
    installing.insert(2u128, (true, "script"));
    installing.insert(8u128, (false, "other"));
    let plan = plan_boot(&servers, &mut states, &mut installing, 5);
    assert_eq!(plan.len(), 4);
    assert_eq!(plan[0].uuid, 1);
    assert_eq!(plan[0].previous, ServerState::Running);
    assert_eq!(plan[0].action, BootAction::AttachContainer);
    assert_eq!(plan[1].action, BootAction::AttachInstallation { reinstall: true });
    assert_eq!(plan[1].installation, Some("script"));
    assert_eq!(plan[1].previous, ServerState::Offline);
    assert_eq!(plan[2].previous, ServerState::Stopping);
    assert_eq!(plan[3].uuid, 1);
    assert_eq!(plan[3].previous, ServerState::Offline);
    assert_eq!(states.len(), 1);
    assert_eq!(installing.len(), 1);
    let plan = plan_boot(&vec![7u128], &mut std::collections::HashMap::new(), &mut installing, 0);
    assert_eq!(plan[0].action, BootAction::Nothing);
}
