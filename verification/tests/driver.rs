use runtext::actions::command::CommandLine;
use runtext::actions::Action;
use runtext::context::{Context, TriggerBehavior};
use runtext::driver::{drive, Activation, Transition};
use runtext::registry::{get_action, get_trigger, ActionKind, TriggerKind};
use runtext::error::ConfigError;
use runtext::triggers::{Activity, Trigger};
use serde_yaml::{Mapping, Value};

use Activity::{Active, Inactive};
use Transition::{Enter, Leave};

fn text(s: &str) -> Value {
    Value::String(s.to_owned())
}

fn context(
    triggers: Vec<(&str, Value)>,
    actions: Vec<(&str, Value)>,
    trigger_behavior: TriggerBehavior,
) -> Context {
    Context {
        actions: actions.into_iter().map(|(name, cfg)| (name.to_owned(), cfg)).collect(),
        name: "Test".to_owned(),
        triggers: triggers.into_iter().map(|(name, cfg)| (name.to_owned(), cfg)).collect(),
        trigger_behavior,
    }
}

fn issued(behavior: TriggerBehavior, total: usize, events: &[Activity]) -> Vec<Transition> {
    let mut activation = Activation::new(behavior, total);
    let mut transitions = Vec::new();
    for event in events {
        assert!(activation.admits(*event));
        transitions.push(activation.on_event(*event));
    }
    transitions
}

#[test]
fn and_enters_while_all_triggers_are_active() {
    assert_eq!(
        issued(TriggerBehavior::And, 2, &[Active, Active, Inactive, Active, Inactive, Inactive]),
        vec![Leave, Enter, Leave, Enter, Leave, Leave]
    );
    assert_eq!(
        issued(TriggerBehavior::And, 3, &[Active, Active, Inactive, Active, Active]),
        vec![Leave, Leave, Leave, Leave, Enter]
    );
}

#[test]
fn and_with_one_trigger_follows_it() {
    assert_eq!(
        issued(TriggerBehavior::And, 1, &[Active, Inactive, Active, Inactive]),
        vec![Enter, Leave, Enter, Leave]
    );
}

#[test]
fn and_judges_the_level_on_every_event() {
    // Two active signals in a row are no correct trigger behaviour; the
    // policy still looks at the counter alone, and a counter that passes
    // the number of triggers leaves.
    assert_eq!(
        issued(TriggerBehavior::And, 2, &[Active, Active, Active, Inactive, Inactive]),
        vec![Leave, Enter, Leave, Enter, Leave]
    );
}

#[test]
fn or_enters_on_the_first_active_trigger_only() {
    assert_eq!(
        issued(TriggerBehavior::Or, 2, &[Active, Active, Inactive, Inactive, Active]),
        vec![Enter, Leave, Leave, Leave, Enter]
    );
    assert_eq!(
        issued(TriggerBehavior::Or, 3, &[Active, Inactive, Active, Active, Active, Inactive]),
        vec![Enter, Leave, Enter, Leave, Leave, Leave]
    );
}

#[test]
fn or_leaves_while_a_trigger_is_still_active() {
    // The second active signal, and the inactive one that leaves one
    // trigger active, both have the actions left.
    let transitions = issued(TriggerBehavior::Or, 2, &[Active, Active, Inactive]);
    assert_eq!(transitions[1], Leave);
    assert_eq!(transitions[2], Leave);
}

#[test]
fn counter_follows_the_events() {
    let mut activation = Activation::new(TriggerBehavior::Or, 4);
    assert_eq!(activation.counter(), 0);
    assert_eq!(activation.total(), 4);
    assert_eq!(activation.behavior(), TriggerBehavior::Or);
    activation.on_event(Active);
    activation.on_event(Active);
    assert_eq!(activation.counter(), 2);
    activation.on_event(Inactive);
    assert_eq!(activation.counter(), 1);
    activation.on_event(Inactive);
    assert_eq!(activation.counter(), 0);
    assert_eq!(activation.total(), 4);
}

#[test]
fn inactive_event_is_admitted_after_an_active_one_only() {
    let mut activation = Activation::new(TriggerBehavior::And, 1);
    assert!(!activation.admits(Inactive));
    assert!(activation.admits(Active));
    activation.on_event(Active);
    assert!(activation.admits(Inactive));
    assert!(activation.admits(Active));
}

#[test]
fn actions_are_resolved_by_their_trimmed_name() {
    for name in ["command", " command", "command\n", "\t command  "] {
        match get_action::<u32>(name, &text("ls -l")).unwrap() {
            ActionKind::Command(action) => {
                assert_eq!(action.enter_command().program, "ls");
            }
        }
    }
}

#[test]
fn triggers_are_resolved_by_their_trimmed_name() {
    for name in ["wifi", " wifi ", "wifi\r\n"] {
        match get_trigger(name, &text("HomeNet")).unwrap() {
            TriggerKind::Wifi(trigger) => assert_eq!(trigger.name(), "HomeNet"),
        }
    }
}

#[test]
fn unknown_action_name_is_reported_as_written() {
    let error = get_action::<u32>(" shell ", &text("ls")).unwrap_err();
    assert_eq!(error, ConfigError::UnknownAction(" shell ".to_owned()));
    assert_eq!(error.message(), "Unknown action name ' shell '.");
    for name in ["", "Command", "com mand", "wifi", "commands"] {
        assert_eq!(
            get_action::<u32>(name, &text("ls")).unwrap_err(),
            ConfigError::UnknownAction(name.to_owned())
        );
    }
}

#[test]
fn unknown_trigger_name_is_reported_as_written() {
    let error = get_trigger("bluetooth", &text("x")).unwrap_err();
    assert_eq!(error, ConfigError::UnknownTrigger("bluetooth".to_owned()));
    assert_eq!(error.message(), "Unknown trigger name 'bluetooth'.");
    for name in ["", "WIFI", "command", "wi fi"] {
        assert_eq!(
            get_trigger(name, &text("x")).unwrap_err(),
            ConfigError::UnknownTrigger(name.to_owned())
        );
    }
}

#[test]
fn malformed_configuration_is_reported() {
    assert_eq!(
        get_action::<u32>("command", &Value::Null).unwrap_err(),
        ConfigError::UnknownFormat
    );
    assert_eq!(
        get_action::<u32>("command", &Value::Mapping(Mapping::new())).unwrap_err(),
        ConfigError::MissingEnterCommand
    );
    assert_eq!(
        get_action::<u32>("command", &text("")).unwrap_err(),
        ConfigError::MissingCommandName
    );
    assert_eq!(get_trigger("wifi", &Value::Bool(true)).unwrap_err(), ConfigError::UnknownFormat);
}

#[test]
fn error_messages() {
    assert_eq!(ConfigError::MissingEnterCommand.message(), "Missing enter command key.");
    assert_eq!(ConfigError::UnknownFormat.message(), "Unknown configuration format");
    assert_eq!(ConfigError::MissingCommandName.message(), "Missing command name.");
}

#[test]
fn drive_resolves_every_entry() {
    let ctx = context(
        vec![("wifi", text("Home")), (" wifi", text("Office"))],
        vec![("command", text("backup start")), ("command ", text("notify"))],
        TriggerBehavior::Or,
    );
    let driver = drive::<u32>(ctx).unwrap();
    assert_eq!(driver.triggers.len(), 2);
    assert_eq!(driver.actions.len(), 2);
    match (&driver.triggers[0], &driver.triggers[1]) {
        (TriggerKind::Wifi(first), TriggerKind::Wifi(second)) => {
            assert_eq!(first.name(), "Home");
            assert_eq!(second.name(), "Office");
        }
    }
    match (&driver.actions[0], &driver.actions[1]) {
        (ActionKind::Command(first), ActionKind::Command(second)) => {
            assert_eq!(first.enter_command().program, "backup");
            assert_eq!(second.enter_command().program, "notify");
            assert!(!first.has_child());
        }
    }
    assert_eq!(driver.activation.counter(), 0);
    assert_eq!(driver.activation.total(), 2);
    assert_eq!(driver.activation.behavior(), TriggerBehavior::Or);
}

#[test]
fn drive_fails_on_an_unknown_action() {
    let ctx = context(
        vec![("wifi", text("Home"))],
        vec![("command", text("ls")), ("mail", text("someone"))],
        TriggerBehavior::And,
    );
    assert_eq!(drive::<u32>(ctx).unwrap_err(), ConfigError::UnknownAction("mail".to_owned()));
}

#[test]
fn drive_fails_on_an_unknown_trigger() {
    let ctx = context(
        vec![("wifi", text("Home")), ("gps", text("here"))],
        vec![("command", text("ls"))],
        TriggerBehavior::And,
    );
    assert_eq!(drive::<u32>(ctx).unwrap_err(), ConfigError::UnknownTrigger("gps".to_owned()));
}

#[test]
fn drive_reports_the_first_failure_actions_first() {
    let ctx = context(
        vec![("gps", text("here"))],
        vec![("command", Value::Null), ("mail", text("someone"))],
        TriggerBehavior::And,
    );
    assert_eq!(drive::<u32>(ctx).unwrap_err(), ConfigError::UnknownFormat);

    let ctx = context(
        vec![("gps", text("here")), ("wifi", Value::Null)],
        vec![("command", text("ls"))],
        TriggerBehavior::And,
    );
    assert_eq!(drive::<u32>(ctx).unwrap_err(), ConfigError::UnknownTrigger("gps".to_owned()));
}

#[test]
fn drive_of_an_empty_context() {
    let driver = drive::<u32>(context(vec![], vec![], TriggerBehavior::And)).unwrap();
    assert_eq!(driver.triggers.len(), 0);
    assert_eq!(driver.actions.len(), 0);
    assert_eq!(driver.activation.total(), 0);
}

#[test]
fn command_runs_while_the_network_is_joined() {
    let ctx = context(
        vec![("wifi", text("HomeNet"))],
        vec![("command", text("echo enter"))],
        TriggerBehavior::And,
    );
    let mut driver = drive::<u32>(ctx).unwrap();
    let mut stream = match &mut driver.triggers[0] {
        TriggerKind::Wifi(trigger) => trigger.listen(),
    };

    // The network is joined: the trigger signals, the driver enters, the
    // owner starts the command and records the child.
    let signal = stream.poll(Some("HomeNet")).unwrap();
    assert_eq!(signal, Active);
    assert_eq!(driver.activation.on_event(signal), Enter);
    let ActionKind::Command(action) = &driver.actions[0];
    assert_eq!(
        action.enter_command(),
        &CommandLine { program: "echo".to_owned(), args: vec!["enter".to_owned()] }
    );
    assert_eq!(driver.actions[0].enter(4711), None);

    // Nothing changes: no signal.
    assert_eq!(stream.poll(Some("HomeNet")), None);

    // The network is left: the child is handed out to be killed, and there
    // is no leave command to run.
    let signal = stream.poll(Some("Elsewhere")).unwrap();
    assert_eq!(signal, Inactive);
    assert_eq!(driver.activation.on_event(signal), Leave);
    assert_eq!(driver.actions[0].leave(), Some(4711));
    let ActionKind::Command(action) = &driver.actions[0];
    assert_eq!(action.exit_command(), None);
    assert!(!action.has_child());
}

#[test]
fn two_networks_under_or() {
    let ctx = context(
        vec![("wifi", text("Home")), ("wifi ", text("Office"))],
        vec![("command", text("sync"))],
        TriggerBehavior::Or,
    );
    let mut driver = drive::<u32>(ctx).unwrap();
    let mut streams = Vec::new();
    for trigger in driver.triggers.iter_mut() {
        match trigger {
            TriggerKind::Wifi(trigger) => streams.push(trigger.listen()),
        }
    }
    let mut transitions = Vec::new();
    let mut started = 0;
    for observed in [Some("Cafe"), Some("Home"), Some("Office"), None, Some("Home")] {
        for stream in streams.iter_mut() {
            if let Some(signal) = stream.poll(observed) {
                assert!(driver.activation.admits(signal));
                let transition = driver.activation.on_event(signal);
                match transition {
                    Enter => {
                        // No entering finds a child that it would replace.
                        started += 1;
                        assert_eq!(driver.actions[0].enter(started), None);
                    }
                    Leave => {
                        driver.actions[0].leave();
                    }
                }
                transitions.push(transition);
            }
        }
    }
    assert_eq!(started, 3);
    // One network is observed at a time: when the office is joined, home
    // is left first and the counter passes through zero.
    assert_eq!(transitions, vec![Enter, Leave, Enter, Leave, Enter]);
    assert_eq!(driver.activation.counter(), 1);
}
