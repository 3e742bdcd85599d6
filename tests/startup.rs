use desktop_app::{failure_message, start, startup_plugins, step, Action, Event, Plugin, Stage};

#[test]
fn plugins_in_registration_order() {
    assert_eq!(
        startup_plugins(),
        vec![Plugin::Dialog, Plugin::Fs, Plugin::WindowState]
    );
}

#[test]
fn each_plugin_registered_once() {
    let plugins = startup_plugins();
    for (i, a) in plugins.iter().enumerate() {
        for b in plugins.iter().skip(i + 1) {
            assert_ne!(a, b);
        }
    }
}

#[test]
fn failure_message_text() {
    assert_eq!(failure_message(), "error while running tauri application");
}

fn drive(events: &[Event]) -> Option<Vec<Action>> {
    let mut stage = start();
    let mut actions = Vec::new();
    for e in events {
        let (next, action) = step(stage, *e)?;
        stage = next;
        actions.push(action);
    }
    Some(actions)
}

#[test]
fn startup_registers_then_runs_then_exits() {
    let events = [
        Event::Ready,
        Event::Ready,
        Event::Ready,
        Event::Ready,
        Event::RunReturned(true),
    ];
    assert_eq!(
        drive(&events),
        Some(vec![
            Action::Register(Plugin::Dialog),
            Action::Register(Plugin::Fs),
            Action::Register(Plugin::WindowState),
            Action::Run,
            Action::Exit,
        ])
    );
}

#[test]
fn failed_run_aborts() {
    let events = [
        Event::Ready,
        Event::Ready,
        Event::Ready,
        Event::Ready,
        Event::RunReturned(false),
    ];
    let actions = drive(&events).unwrap();
    assert_eq!(actions[3], Action::Run);
    assert_eq!(actions[4], Action::Abort);
}

#[test]
fn run_result_before_run_is_refused() {
    assert_eq!(step(start(), Event::RunReturned(true)), None);
    assert_eq!(step(Stage::Registering(2), Event::RunReturned(false)), None);
}

#[test]
fn nothing_follows_exit_or_abort() {
    for stage in [Stage::Exited, Stage::Aborted] {
        assert_eq!(step(stage, Event::Ready), None);
        assert_eq!(step(stage, Event::RunReturned(true)), None);
    }
}

#[test]
fn no_second_run() {
    assert_eq!(step(Stage::Running, Event::Ready), None);
    assert_eq!(
        step(Stage::Registering(3), Event::Ready),
        Some((Stage::Running, Action::Run))
    );
}
