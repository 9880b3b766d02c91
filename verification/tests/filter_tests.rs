use ec2_instance_manager::app::App;
use ec2_instance_manager::config::AppConfig;
use ec2_instance_manager::instance::InstanceInfo;

fn create_mock_instance(id: &str, name: Option<&str>, state: &str) -> InstanceInfo {
    InstanceInfo {
        id: id.to_string(),
        name: name.map(|n| n.to_string()),
        instance_type: "t3.micro".to_string(),
        state: state.to_string(),
        architecture: Some("x86_64".to_string()),
        availability_zone: Some("us-east-1a".to_string()),
        public_ip: None,
        launch_time: None,
    }
}

fn create_test_app(instances: Vec<InstanceInfo>) -> App {
    let config = AppConfig {
        filter: None,
        t_family_credit: None,
        default_instance_type: None,
        refresh_interval_seconds: Some(5),
    };
    App::new(instances, Vec::new(), config, false)
}

#[test]
fn test_filter_empty() {
    let instances = vec![
        create_mock_instance("i-1", Some("Foo"), "running"),
        create_mock_instance("i-2", Some("Bar"), "stopped"),
    ];
    let mut app = create_test_app(instances);

    app.filter = String::new();
    app.update_filter();

    assert_eq!(app.filtered_instances.len(), 2);
}

#[test]
fn test_filter_by_id() {
    let instances = vec![
        create_mock_instance("i-123", Some("Foo"), "running"),
        create_mock_instance("i-456", Some("Bar"), "stopped"),
    ];
    let mut app = create_test_app(instances);

    app.filter = "123".to_string();
    app.update_filter();

    assert_eq!(app.filtered_instances.len(), 1);
    assert_eq!(app.filtered_instances[0].id, "i-123");
}

#[test]
fn test_filter_by_name() {
    let instances = vec![
        create_mock_instance("i-1", Some("WebServer"), "running"),
        create_mock_instance("i-2", Some("DB"), "stopped"),
    ];
    let mut app = create_test_app(instances);

    app.filter = "Web".to_string();
    app.update_filter();

    assert_eq!(app.filtered_instances.len(), 1);
    assert_eq!(app.filtered_instances[0].name.as_deref(), Some("WebServer"));
}

#[test]
fn test_filter_by_state() {
    let instances = vec![
        create_mock_instance("i-1", None, "running"),
        create_mock_instance("i-2", None, "stopped"),
    ];
    let mut app = create_test_app(instances);

    app.filter = "stopped".to_string();
    app.update_filter();

    assert_eq!(app.filtered_instances.len(), 1);
    assert_eq!(app.filtered_instances[0].state, "stopped");
}

#[test]
fn test_filter_case_insensitive() {
    let instances = vec![create_mock_instance("i-1", Some("TEST"), "running")];
    let mut app = create_test_app(instances);

    app.filter = "test".to_string();
    app.update_filter();
    assert_eq!(app.filtered_instances.len(), 1);

    app.filter = "RUNNING".to_string();
    app.update_filter();
    assert_eq!(app.filtered_instances.len(), 1);
}

// Filtering the filtered result again with the same text gives the same set.
#[test]
fn test_filter_idempotent() {
    let instances = vec![
        create_mock_instance("i-1", Some("Web"), "running"),
        create_mock_instance("i-2", Some("DB"), "stopped"),
        create_mock_instance("i-3", Some("Webby"), "stopped"),
    ];
    let mut app = create_test_app(instances);
    app.filter = "web".to_string();
    app.update_filter();
    let first: Vec<String> = app.filtered_instances.iter().map(|i| i.id.clone()).collect();

    app.instances = app
        .filtered_instances
        .iter()
        .map(|i| create_mock_instance(&i.id, i.name.as_deref(), &i.state))
        .collect();
    app.update_filter();
    let second: Vec<String> = app.filtered_instances.iter().map(|i| i.id.clone()).collect();
    assert_eq!(first, second);
}

// A query matching none of the four fields excludes the instance.
#[test]
fn test_filter_excludes_nonmatching() {
    let instances = vec![
        create_mock_instance("i-1", Some("Alpha"), "running"),
        create_mock_instance("i-2", Some("Beta"), "stopped"),
    ];
    let mut app = create_test_app(instances);
    app.filter = "gamma".to_string();
    app.update_filter();
    assert_eq!(app.filtered_instances.len(), 0);
}

// The visible list is re-sorted by display name, missing names first.
#[test]
fn test_filter_sorts_by_name() {
    let instances = vec![
        create_mock_instance("i-3", Some("Zeta"), "running"),
        create_mock_instance("i-1", Some("Alpha"), "running"),
        create_mock_instance("i-2", None, "running"),
    ];
    let mut app = create_test_app(instances);
    app.filter = String::new();
    app.update_filter();
    let names: Vec<Option<String>> =
        app.filtered_instances.iter().map(|i| i.name.clone()).collect();
    assert_eq!(
        names,
        vec![None, Some("Alpha".to_string()), Some("Zeta".to_string())]
    );
}

// The selection is kept in range, otherwise reset to the top when the
// result is non-empty, and cleared when it is empty.
#[test]
fn test_filter_selection_rules() {
    let instances = vec![
        create_mock_instance("i-1", Some("A"), "running"),
        create_mock_instance("i-2", Some("B"), "stopped"),
    ];
    let mut app = create_test_app(instances);
    assert_eq!(app.selected, Some(0));

    app.selected = Some(1);
    app.filter = "i-1".to_string();
    app.update_filter();
    assert_eq!(app.selected, Some(0));

    app.filter = "absent".to_string();
    app.update_filter();
    assert_eq!(app.selected, None);

    // narrowing to nothing cleared the selection; widening the filter
    // again resets it to the top entry
    app.filter = "i-".to_string();
    app.update_filter();
    assert_eq!(app.selected, Some(0));
}

// A saved filter is applied as part of construction.
#[test]
fn test_new_applies_saved_filter() {
    let instances = vec![
        create_mock_instance("i-1", Some("Web"), "running"),
        create_mock_instance("i-2", Some("DB"), "stopped"),
    ];
    let config = AppConfig {
        filter: Some("db".to_string()),
        t_family_credit: None,
        default_instance_type: None,
        refresh_interval_seconds: None,
    };
    let app = App::new(instances, Vec::new(), config, false);
    assert_eq!(app.filter, "db");
    assert_eq!(app.filtered_instances.len(), 1);
    assert_eq!(app.filtered_instances[0].id, "i-2");
    assert_eq!(app.selected, Some(0));
}
