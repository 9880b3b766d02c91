use ec2_instance_manager::app::{App, AppEvent, AppState, Command, Key};
use ec2_instance_manager::config::AppConfig;
use ec2_instance_manager::instance::InstanceInfo;

fn inst(id: &str, name: Option<&str>, state: &str, itype: &str) -> InstanceInfo {
    InstanceInfo {
        id: id.to_string(),
        name: name.map(|n| n.to_string()),
        instance_type: itype.to_string(),
        state: state.to_string(),
        architecture: Some("x86_64".to_string()),
        availability_zone: Some("us-east-1a".to_string()),
        public_ip: None,
        launch_time: None,
    }
}

fn test_app(instances: Vec<InstanceInfo>) -> App {
    let config = AppConfig {
        filter: None,
        t_family_credit: None,
        default_instance_type: Some("t3a.nano".to_string()),
        refresh_interval_seconds: Some(5),
    };
    App::new(instances, Vec::new(), config, true)
}

fn picker_state(app: &App) -> (String, Vec<String>, Option<usize>, bool) {
    match &app.state {
        AppState::SelectingType { input, options, selected_index, default_mode_active } => (
            input.clone(),
            options.clone(),
            *selected_index,
            *default_mode_active,
        ),
        other => panic!("expected the type picker, found {:?}", other),
    }
}

// Entering the picker: default type shown, options alphabetical, default mode on.
#[test]
fn test_picker_opens_in_default_mode() {
    let mut app = test_app(vec![inst("i-1", Some("Web"), "running", "t3.micro")]);
    let cmds = app.handle_key(Key::Char('c'));
    let (input, options, idx, dma) = picker_state(&app);
    assert_eq!(input, "t3a.nano");
    assert!(dma);
    assert_eq!(idx, None);
    let mut sorted = options.clone();
    sorted.sort();
    assert_eq!(options, sorted);
    assert_eq!(options.len(), 15);
    // pricing available and the cache empty: both fetches are launched
    assert_eq!(cmds.len(), 2);
    assert!(matches!(cmds[0], Command::FetchOnDemandPrices));
    assert!(matches!(
        &cmds[1],
        Command::FetchSpotPrices { availability_zone } if availability_zone == "us-east-1a"
    ));
}

// Any navigation key clears the input, selects the top entry and ends
// default mode; it is cleared exactly once.
#[test]
fn test_default_mode_cleared_by_navigation() {
    let mut app = test_app(vec![inst("i-1", Some("Web"), "running", "t3.micro")]);
    app.handle_key(Key::Char('c'));
    app.handle_key(Key::Down);
    let (input, _, idx, dma) = picker_state(&app);
    assert_eq!(input, "");
    assert_eq!(idx, Some(0));
    assert!(!dma);
    // a second navigation key moves the selection, nothing more
    app.handle_key(Key::Down);
    let (input2, _, idx2, dma2) = picker_state(&app);
    assert_eq!(input2, "");
    assert_eq!(idx2, Some(1));
    assert!(!dma2);
}

// Home from default mode clears the input and deactivates in one stroke.
#[test]
fn test_default_mode_cleared_by_home() {
    let mut app = test_app(vec![inst("i-1", Some("Web"), "running", "t3.micro")]);
    app.handle_key(Key::Char('c'));
    app.handle_key(Key::Home);
    let (input, _, idx, dma) = picker_state(&app);
    assert_eq!(input, "");
    assert_eq!(idx, Some(0));
    assert!(!dma);
}

// End from default mode jumps straight to the last option.
#[test]
fn test_default_mode_cleared_by_end() {
    let mut app = test_app(vec![inst("i-1", Some("Web"), "running", "t3.micro")]);
    app.handle_key(Key::Char('c'));
    app.handle_key(Key::End);
    let (_, options, idx, dma) = picker_state(&app);
    assert_eq!(idx, Some(options.len() - 1));
    assert!(!dma);
}

// Backspacing the input down to empty re-enters default mode.
#[test]
fn test_backspace_to_empty_restores_default_mode() {
    let mut app = test_app(vec![inst("i-1", Some("Web"), "running", "t3.micro")]);
    app.handle_key(Key::Char('c'));
    app.handle_key(Key::Char('m')); // deactivates and types one character
    let (input, _, _, dma) = picker_state(&app);
    assert_eq!(input, "m");
    assert!(!dma);
    app.handle_key(Key::Backspace);
    let (input2, options2, idx2, dma2) = picker_state(&app);
    assert_eq!(input2, "t3a.nano");
    assert!(dma2);
    assert_eq!(idx2, None);
    let mut sorted = options2.clone();
    sorted.sort();
    assert_eq!(options2, sorted);
}

// A bulk on-demand price event does not reorder the options while default
// mode is active.
#[test]
fn test_bulk_prices_keep_order_in_default_mode() {
    let mut app = test_app(vec![inst("i-1", Some("Web"), "running", "t3.micro")]);
    app.handle_key(Key::Char('c'));
    let (_, before, idx_before, _) = picker_state(&app);
    let cmd = app.handle_event(AppEvent::BulkOnDemandFetched(vec![
        ("t3.nano".to_string(), 5200u64),
        ("m5.large".to_string(), 96000u64),
    ]));
    assert!(cmd.is_none());
    let (_, after, idx_after, dma) = picker_state(&app);
    assert!(dma);
    assert_eq!(before, after);
    assert_eq!(idx_before, idx_after);
}

// The same event reorders the options by ascending price once the picker
// is engaged, and resets the selection to the top.
#[test]
fn test_bulk_prices_resort_when_engaged() {
    let mut app = test_app(vec![inst("i-1", Some("Web"), "running", "t3.micro")]);
    app.handle_key(Key::Char('c'));
    app.handle_key(Key::Down); // engage the picker
    app.handle_key(Key::Down); // move off the top
    let (_, _, idx, _) = picker_state(&app);
    assert_eq!(idx, Some(1));
    app.handle_event(AppEvent::BulkOnDemandFetched(vec![
        ("t3.nano".to_string(), 5200u64),
        ("m5.large".to_string(), 96000u64),
    ]));
    let (_, options, idx2, dma) = picker_state(&app);
    assert!(!dma);
    assert_eq!(idx2, Some(0));
    // priced types come first, cheapest first; the rest stay alphabetical
    assert_eq!(options[0], "t3.nano");
    assert_eq!(options[1], "m5.large");
    let rest: Vec<String> = options[2..].to_vec();
    let mut rest_sorted = rest.clone();
    rest_sorted.sort();
    assert_eq!(rest, rest_sorted);
}

// Typing filters the candidates to those containing the text.
#[test]
fn test_typing_filters_options() {
    let mut app = test_app(vec![inst("i-1", Some("Web"), "running", "t3.micro")]);
    app.handle_key(Key::Char('c'));
    app.handle_key(Key::Char('t'));
    app.handle_key(Key::Char('3'));
    app.handle_key(Key::Char('a'));
    let (input, options, idx, dma) = picker_state(&app);
    assert_eq!(input, "t3a");
    assert!(!dma);
    assert_eq!(idx, Some(0));
    assert_eq!(options.len(), 4);
    for o in &options {
        assert!(o.contains("t3a"));
    }
}

// With a single option left, Enter selects it regardless of the index.
#[test]
fn test_enter_single_option_overrides_index() {
    let mut app = test_app(vec![inst("i-1", Some("Web"), "running", "m5.large")]);
    app.handle_key(Key::Char('c'));
    app.state = AppState::SelectingType {
        input: "anything".to_string(),
        options: vec!["t3.micro".to_string()],
        selected_index: Some(7),
        default_mode_active: false,
    };
    let cmds = app.handle_key(Key::Enter);
    assert!(matches!(&app.state, AppState::Processing(m) if m == "Stopping i-1..."));
    assert_eq!(cmds.len(), 1);
    assert!(matches!(
        &cmds[0],
        Command::Resize { instance_id, new_type, credit_spec }
            if instance_id == "i-1" && new_type == "t3.micro" && credit_spec == "standard"
    ));
}

// Enter on the instance's current type returns to the list without a call.
#[test]
fn test_enter_same_type_is_a_noop_return() {
    let mut app = test_app(vec![inst("i-1", Some("Web"), "running", "t3.micro")]);
    app.state = AppState::SelectingType {
        input: String::new(),
        options: vec!["t3.micro".to_string()],
        selected_index: Some(0),
        default_mode_active: false,
    };
    let cmds = app.handle_key(Key::Enter);
    assert!(matches!(app.state, AppState::List));
    assert_eq!(cmds.len(), 0);
}

// With no selection and no exact match, Enter does nothing.
#[test]
fn test_enter_without_selection_is_noop() {
    let mut app = test_app(vec![inst("i-1", Some("Web"), "running", "t3.micro")]);
    app.state = AppState::SelectingType {
        input: "nosuch".to_string(),
        options: vec!["a1.large".to_string(), "m5.large".to_string()],
        selected_index: None,
        default_mode_active: false,
    };
    let cmds = app.handle_key(Key::Enter);
    assert_eq!(cmds.len(), 0);
    assert!(matches!(&app.state, AppState::SelectingType { .. }));
}

// Typed text that names an option exactly is chosen when nothing is
// highlighted.
#[test]
fn test_enter_exact_text_match() {
    let mut app = test_app(vec![inst("i-1", Some("Web"), "running", "t3.micro")]);
    app.state = AppState::SelectingType {
        input: "m5.large".to_string(),
        options: vec!["a1.large".to_string(), "m5.large".to_string()],
        selected_index: None,
        default_mode_active: false,
    };
    let cmds = app.handle_key(Key::Enter);
    assert!(matches!(&app.state, AppState::Processing(m) if m == "Stopping i-1..."));
    assert!(matches!(
        &cmds[0],
        Command::Resize { new_type, .. } if new_type == "m5.large"
    ));
}
