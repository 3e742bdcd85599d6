use vstd::prelude::*;

verus! {

/// A plugin that the application registers with the framework before its
/// event loop starts.
#[derive(Clone, Copy, Debug, PartialEq, Eq, Structural)]
pub enum Plugin {
    /// Native open, save and message dialogs.
    Dialog,
    /// Access to the filesystem from the front end.
    Fs,
    /// Saving and restoring the size and position of windows.
    WindowState,
}

/// The plugins the application starts with, in registration order.
pub open spec fn startup_order() -> Seq<Plugin> {
    seq![Plugin::Dialog, Plugin::Fs, Plugin::WindowState]
}

/// The diagnostic printed when the framework fails to start or run.
pub open spec fn failure_text() -> Seq<char> {
    "error while running tauri application"@
}

/// The plugins to register, in order: dialogs, then the filesystem, then
/// window state. Each appears once.
pub fn startup_plugins() -> (r: Vec<Plugin>)
    ensures
        r@ == startup_order(),
        r@.no_duplicates(),
{
    let mut r: Vec<Plugin> = Vec::new();
    r.push(Plugin::Dialog);
    r.push(Plugin::Fs);
    r.push(Plugin::WindowState);
    assert(r@ =~= startup_order());
    r
}

/// The message the application aborts with when the framework's run call
/// returns an error.
pub fn failure_message() -> (r: String)
    ensures
        r@ == failure_text(),
{
    String::from_str("error while running tauri application")
}

/// Where startup stands between calls into the framework.
#[derive(Clone, Copy, Debug, PartialEq, Eq, Structural)]
pub enum Stage {
    /// The given number of plugins have been registered; the framework has
    /// not been run yet.
    Registering(usize),
    /// The framework's run call has been made and its result is awaited.
    Running,
    /// The run call returned success: the application has exited.
    Exited,
    /// The run call returned an error: the application aborts.
    Aborted,
}

/// What the framework reports back after the last action.
#[derive(Clone, Copy, Debug, PartialEq, Eq, Structural)]
pub enum Event {
    /// The last call returned and startup may go on (also the first event).
    Ready,
    /// The framework's run call returned; `true` when it returned success.
    RunReturned(bool),
}

/// The next call to make into the framework.
#[derive(Clone, Copy, Debug, PartialEq, Eq, Structural)]
pub enum Action {
    /// Register this plugin with the application builder.
    Register(Plugin),
    /// Hand control to the framework's event loop.
    Run,
    /// Leave normally.
    Exit,
    /// Terminate the process with the failure message.
    Abort,
}

/// The transition taken on an event in a stage, with the action it calls
/// for; `None` where the event cannot occur in that stage.
pub open spec fn transition(s: Stage, e: Event) -> Option<(Stage, Action)> {
    match (s, e) {
        (Stage::Registering(k), Event::Ready) => if k < startup_order().len() {
            Some((Stage::Registering((k + 1) as usize), Action::Register(startup_order()[k as int])))
        } else {
            Some((Stage::Running, Action::Run))
        },
        (Stage::Running, Event::RunReturned(ok)) => if ok {
            Some((Stage::Exited, Action::Exit))
        } else {
            Some((Stage::Aborted, Action::Abort))
        },
        _ => None,
    }
}

/// The actions taken for a sequence of events from a stage, or `None` where
/// one of the events cannot occur where it comes.
pub open spec fn actions_from(s: Stage, events: Seq<Event>) -> Option<Seq<Action>>
    decreases events.len(),
{
    if events.len() == 0 {
        Some(Seq::empty())
    } else {
        match transition(s, events[0]) {
            None => None,
            Some((t, a)) => match actions_from(t, events.drop_first()) {
                None => None,
                Some(rest) => Some(seq![a] + rest),
            },
        }
    }
}

/// Whether the framework's run call is reported to have succeeded.
pub open spec fn run_succeeded(events: Seq<Event>) -> bool {
    events.len() > 4 && events[4] == Event::RunReturned(true)
}

/// The action that startup takes at the given step: the plugins in order,
/// then one run call, then exit or abort by its result.
pub open spec fn planned(i: int, ok: bool) -> Action {
    if i < 3 {
        Action::Register(startup_order()[i])
    } else if i == 3 {
        Action::Run
    } else if ok {
        Action::Exit
    } else {
        Action::Abort
    }
}

/// How many steps of the plan lie behind a stage.
pub open spec fn position(s: Stage) -> int {
    match s {
        Stage::Registering(k) => if k < 3 { k as int } else { 3 },
        Stage::Running => 4,
        _ => 5,
    }
}

/// The stage before anything has been registered.
pub fn start() -> (r: Stage)
    ensures
        r == Stage::Registering(0),
{
    Stage::Registering(0)
}

fn plugin_at(k: usize) -> (r: Plugin)
    requires
        k < 3,
    ensures
        r == startup_order()[k as int],
{
    match k {
        0 => Plugin::Dialog,
        1 => Plugin::Fs,
        _ => Plugin::WindowState,
    }
}

/// Decides the next stage and the next call from the current stage and what
/// the framework reported; `None` where the event cannot occur in the stage.
pub fn step(s: Stage, e: Event) -> (r: Option<(Stage, Action)>)
    ensures
        r == transition(s, e),
{
    match (s, e) {
        (Stage::Registering(k), Event::Ready) => if k < 3 {
            Some((Stage::Registering(k + 1), Action::Register(plugin_at(k))))
        } else {
            Some((Stage::Running, Action::Run))
        },
        (Stage::Running, Event::RunReturned(ok)) => if ok {
            Some((Stage::Exited, Action::Exit))
        } else {
            Some((Stage::Aborted, Action::Abort))
        },
        _ => None,
    }
}

proof fn lemma_follows_plan_from(s: Stage, events: Seq<Event>)
    requires
        actions_from(s, events) is Some,
    ensures
        position(s) + events.len() <= 5,
        actions_from(s, events)->0.len() == events.len(),
        forall|i: int|
            0 <= i < events.len() ==> #[trigger] actions_from(s, events)->0[i] == planned(
                position(s) + i,
                0 <= 4 - position(s) < events.len() && events[4 - position(s)] == Event::RunReturned(true),
            ),
    decreases events.len(),
{
    if events.len() > 0 {
        let (t, a) = transition(s, events[0])->0;
        let rest = events.drop_first();
        lemma_follows_plan_from(t, rest);
        let acts = actions_from(s, events)->0;
        assert(acts == seq![a] + actions_from(t, rest)->0);
        assert(position(t) == position(s) + 1);
        let ok = 0 <= 4 - position(s) < events.len() && events[4 - position(s)] == Event::RunReturned(true);
        let ok_t = 0 <= 4 - position(t) < rest.len() && rest[4 - position(t)] == Event::RunReturned(true);
        if position(s) < 4 {
            assert(ok == ok_t);
        }
        assert forall|i: int| 0 <= i < events.len() implies #[trigger] acts[i] == planned(position(s) + i, ok) by {
            if i > 0 {
                assert(acts[i] == actions_from(t, rest)->0[i - 1]);
            }
        }
    }
}

/// From the first stage, every sequence of events that can occur makes at
/// most five calls, and the calls follow the plan: the plugins in
/// registration order, then the run call, then exit or abort by its result.
pub proof fn lemma_startup_follows_plan(events: Seq<Event>)
    requires
        actions_from(Stage::Registering(0), events) is Some,
    ensures
        events.len() <= 5,
        actions_from(Stage::Registering(0), events)->0.len() == events.len(),
        forall|i: int|
            0 <= i < events.len() ==> #[trigger] actions_from(Stage::Registering(0), events)->0[i]
                == planned(i, run_succeeded(events)),
{
    lemma_follows_plan_from(Stage::Registering(0), events);
}

/// The framework is run at most once, after exactly the three plugin
/// registrations, and no plugin is registered after it.
pub proof fn lemma_run_once_after_registrations(events: Seq<Event>)
    requires
        actions_from(Stage::Registering(0), events) is Some,
    ensures
        forall|i: int|
            0 <= i < events.len() && #[trigger] actions_from(Stage::Registering(0), events)->0[i]
                == Action::Run ==> i == 3,
        forall|j: int|
            0 <= j < events.len() && #[trigger] actions_from(Stage::Registering(0), events)->0[j]
                is Register ==> j < 3,
{
    lemma_startup_follows_plan(events);
}

/// The application aborts exactly where the run call reports an error, and
/// exits exactly where it reports success; nothing follows either.
pub proof fn lemma_abort_only_on_failed_run(events: Seq<Event>)
    requires
        actions_from(Stage::Registering(0), events) is Some,
    ensures
        forall|i: int|
            0 <= i < events.len() ==> (#[trigger] actions_from(Stage::Registering(0), events)->0[i]
                == Action::Abort <==> events[i] == Event::RunReturned(false)),
        forall|i: int|
            0 <= i < events.len() ==> (actions_from(Stage::Registering(0), events)->0[i]
                == Action::Exit <==> #[trigger] events[i] == Event::RunReturned(true)),
        forall|i: int|
            0 <= i < events.len() && (actions_from(Stage::Registering(0), events)->0[i] == Action::Abort
                || actions_from(Stage::Registering(0), events)->0[i] == Action::Exit) ==> i
                == events.len() - 1,
{
    lemma_startup_follows_plan(events);
    lemma_events_forced(Stage::Registering(0), events);
}

proof fn lemma_events_forced(s: Stage, events: Seq<Event>)
    requires
        actions_from(s, events) is Some,
    ensures
        forall|i: int|
            0 <= i < events.len() ==> (#[trigger] events[i] is RunReturned <==> position(s) + i == 4),
    decreases events.len(),
{
    if events.len() > 0 {
        let (t, a) = transition(s, events[0])->0;
        let rest = events.drop_first();
        lemma_events_forced(t, rest);
        assert forall|i: int| 0 <= i < events.len() implies (#[trigger] events[i] is RunReturned
            <==> position(s) + i == 4) by {
            if i > 0 {
                assert(events[i] == rest[i - 1]);
            }
        }
    }
}

} // verus!
