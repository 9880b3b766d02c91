use ec2_instance_manager::app::{App, AppEvent, AppState, Command, Key};
use ec2_instance_manager::config::AppConfig;
use ec2_instance_manager::instance::InstanceInfo;

fn inst(id: &str, name: Option<&str>, state: &str) -> InstanceInfo {
    InstanceInfo {
        id: id.to_string(),
        name: name.map(|n| n.to_string()),
        instance_type: "t3.micro".to_string(),
        state: state.to_string(),
        architecture: Some("x86_64".to_string()),
        availability_zone: Some("us-east-1a".to_string()),
        public_ip: None,
        launch_time: None,
    }
}

fn test_app(instances: Vec<InstanceInfo>) -> App {
    let config = AppConfig {
        filter: None,
        t_family_credit: Some("unlimited".to_string()),
        default_instance_type: Some("t3a.nano".to_string()),
        refresh_interval_seconds: Some(5),
    };
    App::new(instances, Vec::new(), config, false)
}

// Filtering "web" over a running Web and a stopped DB leaves only i-1.
#[test]
fn test_scenario_web_filter() {
    let mut app = test_app(vec![
        inst("i-1", Some("Web"), "running"),
        inst("i-2", Some("DB"), "stopped"),
    ]);
    app.filter = "web".to_string();
    app.update_filter();
    assert_eq!(app.filtered_instances.len(), 1);
    assert_eq!(app.filtered_instances[0].id, "i-1");
}

// Rebooting a stopped instance: no confirmation, an explanatory error,
// and no remote call.
#[test]
fn test_reboot_stopped_instance_is_refused() {
    let mut app = test_app(vec![inst("i-2", Some("DB"), "stopped")]);
    let cmds = app.handle_key(Key::Char('r'));
    assert_eq!(cmds.len(), 0);
    assert!(matches!(
        &app.state,
        AppState::Processing(m)
            if m == "Error: Cannot reboot instance i-2 because it is in state 'stopped'."
    ));
}

// Rebooting a running instance asks for confirmation first; y launches it.
#[test]
fn test_reboot_running_instance_confirms() {
    let mut app = test_app(vec![inst("i-1", Some("Web"), "running")]);
    let cmds = app.handle_key(Key::Char('r'));
    assert_eq!(cmds.len(), 0);
    assert!(matches!(&app.state, AppState::ConfirmReboot(id) if id == "i-1"));
    let cmds = app.handle_key(Key::Char('y'));
    assert!(matches!(&app.state, AppState::Processing(m) if m == "Rebooting i-1..."));
    assert_eq!(cmds.len(), 1);
    assert!(matches!(&cmds[0], Command::RebootInstance { instance_id } if instance_id == "i-1"));
}

// f forces the reboot; n cancels it.
#[test]
fn test_reboot_force_and_cancel() {
    let mut app = test_app(vec![inst("i-1", Some("Web"), "running")]);
    app.handle_key(Key::Char('r'));
    let cmds = app.handle_key(Key::Char('f'));
    assert!(matches!(&app.state, AppState::Processing(m) if m == "Forced Rebooting i-1..."));
    assert!(matches!(
        &cmds[0],
        Command::ForceRebootInstance { instance_id } if instance_id == "i-1"
    ));

    let mut app = test_app(vec![inst("i-1", Some("Web"), "running")]);
    app.handle_key(Key::Char('r'));
    let cmds = app.handle_key(Key::Char('n'));
    assert_eq!(cmds.len(), 0);
    assert!(matches!(app.state, AppState::List));
}

// s and S launch the stop and start operations on the selected instance.
#[test]
fn test_stop_and_start_commands() {
    let mut app = test_app(vec![inst("i-1", Some("Web"), "running")]);
    let cmds = app.handle_key(Key::Char('s'));
    assert!(matches!(&app.state, AppState::Processing(m) if m == "Stopping i-1..."));
    assert!(matches!(&cmds[0], Command::StopInstance { instance_id } if instance_id == "i-1"));

    let mut app = test_app(vec![inst("i-1", Some("Web"), "running")]);
    let cmds = app.handle_key(Key::Char('S'));
    assert!(matches!(&app.state, AppState::Processing(m) if m == "Starting i-1..."));
    assert!(matches!(&cmds[0], Command::StartInstance { instance_id } if instance_id == "i-1"));
}

// The filter editor: f enters it, typing applies live, Esc leaves it.
#[test]
fn test_filter_input_mode() {
    let mut app = test_app(vec![
        inst("i-1", Some("Web"), "running"),
        inst("i-2", Some("DB"), "stopped"),
    ]);
    app.handle_key(Key::Char('f'));
    assert!(matches!(app.state, AppState::FilterInput));
    app.handle_key(Key::Char('d'));
    app.handle_key(Key::Char('b'));
    assert_eq!(app.filter, "db");
    assert_eq!(app.filtered_instances.len(), 1);
    assert_eq!(app.filtered_instances[0].id, "i-2");
    app.handle_key(Key::Backspace);
    assert_eq!(app.filter, "d");
    app.handle_key(Key::Esc);
    assert!(matches!(app.state, AppState::List));
    assert_eq!(app.filter, "d");
}

// An error event lands in Processing with the "Error: " prefix and stays
// until dismissed.
#[test]
fn test_error_event_and_dismissal() {
    let mut app = test_app(vec![inst("i-1", Some("Web"), "running")]);
    let cmd = app.handle_event(AppEvent::Error("Stop failed: boom".to_string()));
    assert!(cmd.is_none());
    assert!(matches!(&app.state, AppState::Processing(m) if m == "Error: Stop failed: boom"));
    let cmds = app.handle_key(Key::Char('x'));
    assert_eq!(cmds.len(), 0);
    assert!(matches!(&app.state, AppState::Processing(_)));
    app.handle_key(Key::Esc);
    assert!(matches!(app.state, AppState::List));
}

// The change signal triggers a refresh and dismisses Processing.
#[test]
fn test_instances_updated_signal() {
    let mut app = test_app(vec![inst("i-1", Some("Web"), "running")]);
    app.handle_event(AppEvent::Message("Stopped. Refreshing...".to_string()));
    assert!(matches!(&app.state, AppState::Processing(_)));
    let cmd = app.handle_event(AppEvent::InstancesUpdated);
    assert_eq!(cmd, Some(Command::Refresh));
    assert!(matches!(app.state, AppState::List));
}

// A fetched instance list replaces the cache wholesale and re-applies the
// filter; the refresh stamp is set.
#[test]
fn test_instances_fetched_replaces_list() {
    let mut app = test_app(vec![inst("i-1", Some("Web"), "running")]);
    app.last_refreshed = None;
    let cmd = app.handle_event(AppEvent::InstancesFetched(vec![
        inst("i-9", Some("New"), "running"),
    ]));
    assert!(cmd.is_none());
    assert_eq!(app.instances.len(), 1);
    assert_eq!(app.filtered_instances[0].id, "i-9");
    assert_eq!(app.last_refreshed.as_ref().map(|s| s.len()), Some(8));
}

// Ctrl-C force-quits from any mode; q quits from the list.
#[test]
fn test_quit_keys() {
    let mut app = test_app(vec![inst("i-1", Some("Web"), "running")]);
    app.handle_key(Key::Char('f'));
    app.handle_key(Key::CtrlC);
    assert!(app.should_quit);
    assert!(matches!(app.state, AppState::FilterInput));

    let mut app = test_app(vec![inst("i-1", Some("Web"), "running")]);
    let cmds = app.handle_key(Key::Char('q'));
    assert!(app.should_quit);
    assert_eq!(cmds.len(), 0);
}

// Selection movement wraps at both ends and pages by twenty.
#[test]
fn test_selection_navigation() {
    let mut instances = Vec::new();
    for i in 0..30 {
        instances.push(inst(&format!("i-{:02}", i), Some(&format!("n{:02}", i)), "running"));
    }
    let mut app = test_app(instances);
    assert_eq!(app.selected, Some(0));
    app.handle_key(Key::Up);
    assert_eq!(app.selected, Some(29));
    app.handle_key(Key::Down);
    assert_eq!(app.selected, Some(0));
    app.handle_key(Key::PageDown);
    assert_eq!(app.selected, Some(20));
    app.handle_key(Key::PageDown);
    assert_eq!(app.selected, Some(29));
    app.handle_key(Key::PageUp);
    assert_eq!(app.selected, Some(9));
    app.handle_key(Key::End);
    assert_eq!(app.selected, Some(29));
    app.handle_key(Key::Home);
    assert_eq!(app.selected, Some(0));
}

// The configuration defaults: standard credits, a small burstable type,
// fifteen seconds.
#[test]
fn test_config_defaults() {
    let c = AppConfig::default();
    assert_eq!(c.filter, None);
    assert_eq!(c.t_family_credit.as_deref(), Some("standard"));
    assert_eq!(c.default_instance_type.as_deref(), Some("t3a.nano"));
    assert_eq!(c.refresh_interval_seconds, Some(15));

    let mut partial = AppConfig {
        filter: Some("web".to_string()),
        t_family_credit: None,
        default_instance_type: Some("m5.large".to_string()),
        refresh_interval_seconds: None,
    };
    partial.apply_missing_defaults();
    assert_eq!(partial.filter.as_deref(), Some("web"));
    assert_eq!(partial.t_family_credit.as_deref(), Some("standard"));
    assert_eq!(partial.default_instance_type.as_deref(), Some("m5.large"));
    assert_eq!(partial.refresh_interval_seconds, Some(15));
}
