//! The backend supervisor as a state machine: it mounts the download
//! directory, launches the engine, and on a stop signal notifies the gateway,
//! signals the engine and removes the mount. The caller performs each action
//! it asks for and reports what came of it as the next event.

use vstd::prelude::*;

verus! {

/// A signal the process received.
#[derive(Debug, Clone, Copy, PartialEq, Eq, Structural)]
pub enum SignalKind {
    /// SIGINT.
    Interrupt,
    /// SIGHUP.
    HangUp,
    /// SIGTERM.
    Terminate,
    /// Any other signal.
    Other,
}

/// Where the supervisor stands.
#[derive(Debug, Clone, Copy, PartialEq, Eq, Structural)]
pub enum SupervisorState {
    /// Not started.
    Idle,
    /// Setting up the mount; `mounted` once it is in place and the engine is
    /// being launched.
    Mounting { mounted: bool },
    /// The engine runs as process `pid`.
    Running { pid: i32 },
    /// Stopping the engine `pid`; `signalled` once the signal to it was sent.
    ShuttingDown { pid: i32, signalled: bool },
    /// Done; `failed` when start-up failed.
    Stopped { failed: bool },
}

/// What the caller reports.
#[derive(Debug, Clone, Copy, PartialEq, Eq, Structural)]
pub enum SupervisorEvent {
    /// Start the supervisor.
    Start,
    /// The state directory and the mount were set up, or not.
    Mounted { ok: bool },
    /// The engine was launched as process `pid`.
    Spawned { pid: i32 },
    /// The engine could not be launched.
    SpawnFailed,
    /// The process received a signal.
    Signal { kind: SignalKind },
    /// The interrupt was delivered to the engine, or not.
    InterruptSent { ok: bool },
    /// The mount was removed, or not.
    Unmounted { ok: bool },
}

/// What the supervisor asks the caller to do, in order.
#[derive(Debug, Clone, Copy, PartialEq, Eq, Structural)]
pub enum SupervisorAction {
    /// Make sure the runtime state directory exists, with its owner.
    PrepareStateDir,
    /// Remove a mount left at the target; failure is expected and ignored.
    ClearStaleMount,
    /// Bind-mount the download directory onto the target.
    BindMount,
    /// Launch the engine.
    SpawnEngine,
    /// Tell the gateway to stop taking requests.
    NotifyShutdown,
    /// Send SIGINT to the engine.
    Interrupt { pid: i32 },
    /// Send SIGTERM to the engine.
    Terminate { pid: i32 },
    /// Remove the mount; failure is only logged.
    Unmount,
}

/// The signals that stop the supervisor.
pub open spec fn stops(kind: SignalKind) -> bool {
    kind != SignalKind::Other
}

/// The state after `e` in state `s`; events that do not fit the state leave
/// it as it is.
pub open spec fn next_state(s: SupervisorState, e: SupervisorEvent) -> SupervisorState {
    match (s, e) {
        (SupervisorState::Idle, SupervisorEvent::Start) => SupervisorState::Mounting {
            mounted: false,
        },
        (SupervisorState::Mounting { mounted: false }, SupervisorEvent::Mounted { ok }) => if ok {
            SupervisorState::Mounting { mounted: true }
        } else {
            SupervisorState::Stopped { failed: true }
        },
        (SupervisorState::Mounting { mounted: true }, SupervisorEvent::Spawned { pid }) =>
            SupervisorState::Running { pid },
        (SupervisorState::Mounting { mounted: true }, SupervisorEvent::SpawnFailed) =>
            SupervisorState::Stopped { failed: true },
        (SupervisorState::Running { pid }, SupervisorEvent::Signal { kind }) => if stops(kind) {
            SupervisorState::ShuttingDown { pid, signalled: false }
        } else {
            s
        },
        (
            SupervisorState::ShuttingDown { pid, signalled: false },
            SupervisorEvent::InterruptSent { .. },
        ) => SupervisorState::ShuttingDown { pid, signalled: true },
        (SupervisorState::ShuttingDown { signalled: true, .. }, SupervisorEvent::Unmounted { .. }) =>
            SupervisorState::Stopped { failed: false },
        _ => s,
    }
}

/// The actions asked for on `e` in state `s`.
pub open spec fn actions(s: SupervisorState, e: SupervisorEvent) -> Seq<SupervisorAction> {
    match (s, e) {
        (SupervisorState::Idle, SupervisorEvent::Start) => seq![
            SupervisorAction::PrepareStateDir,
            SupervisorAction::ClearStaleMount,
            SupervisorAction::BindMount,
        ],
        (SupervisorState::Mounting { mounted: false }, SupervisorEvent::Mounted { ok }) => if ok {
            seq![SupervisorAction::SpawnEngine]
        } else {
            seq![]
        },
        (SupervisorState::Mounting { mounted: true }, SupervisorEvent::SpawnFailed) => seq![
            SupervisorAction::Unmount,
        ],
        (SupervisorState::Running { pid }, SupervisorEvent::Signal { kind }) => if stops(kind) {
            seq![SupervisorAction::NotifyShutdown, SupervisorAction::Interrupt { pid }]
        } else {
            seq![]
        },
        (
            SupervisorState::ShuttingDown { pid, signalled: false },
            SupervisorEvent::InterruptSent { ok },
        ) => if ok {
            seq![SupervisorAction::Unmount]
        } else {
            seq![SupervisorAction::Terminate { pid }, SupervisorAction::Unmount]
        },
        _ => seq![],
    }
}

impl SupervisorState {
    /// The state after `e`, with the actions it asks for.
    pub fn step(&self, e: SupervisorEvent) -> (r: (SupervisorState, Vec<SupervisorAction>))
        ensures
            r.0 == next_state(*self, e),
            r.1@ == actions(*self, e),
    {
        let r = match (*self, e) {
            (SupervisorState::Idle, SupervisorEvent::Start) => (
                SupervisorState::Mounting { mounted: false },
                vec![
                    SupervisorAction::PrepareStateDir,
                    SupervisorAction::ClearStaleMount,
                    SupervisorAction::BindMount,
                ],
            ),
            (SupervisorState::Mounting { mounted: false }, SupervisorEvent::Mounted { ok }) => if ok {
                (SupervisorState::Mounting { mounted: true }, vec![SupervisorAction::SpawnEngine])
            } else {
                (SupervisorState::Stopped { failed: true }, vec![])
            },
            (SupervisorState::Mounting { mounted: true }, SupervisorEvent::Spawned { pid }) => (
                SupervisorState::Running { pid },
                vec![],
            ),
            (SupervisorState::Mounting { mounted: true }, SupervisorEvent::SpawnFailed) => (
                SupervisorState::Stopped { failed: true },
                vec![SupervisorAction::Unmount],
            ),
            (SupervisorState::Running { pid }, SupervisorEvent::Signal { kind }) => if kind
                != SignalKind::Other {
                (
                    SupervisorState::ShuttingDown { pid, signalled: false },
                    vec![SupervisorAction::NotifyShutdown, SupervisorAction::Interrupt { pid }],
                )
            } else {
                (*self, vec![])
            },
            (
                SupervisorState::ShuttingDown { pid, signalled: false },
                SupervisorEvent::InterruptSent { ok },
            ) => if ok {
                (SupervisorState::ShuttingDown { pid, signalled: true }, vec![SupervisorAction::Unmount])
            } else {
                (
                    SupervisorState::ShuttingDown { pid, signalled: true },
                    vec![SupervisorAction::Terminate { pid }, SupervisorAction::Unmount],
                )
            },
            (
                SupervisorState::ShuttingDown { signalled: true, .. },
                SupervisorEvent::Unmounted { .. },
            ) => (SupervisorState::Stopped { failed: false }, vec![]),
            _ => (*self, vec![]),
        };
        assert(r.1@ =~= actions(*self, e));
        r
    }

    /// Whether the supervisor is done.
    pub fn is_stopped(&self) -> (r: bool)
        ensures
            r == (*self is Stopped),
    {
        match self {
            SupervisorState::Stopped { .. } => true,
            _ => false,
        }
    }
}

/// The state after the events `es` from `s`, with all actions asked for on
/// the way.
pub open spec fn run(s: SupervisorState, es: Seq<SupervisorEvent>) -> (SupervisorState, Seq<SupervisorAction>)
    decreases es.len(),
{
    if es.len() == 0 {
        (s, Seq::empty())
    } else {
        let (s1, a1) = run(s, es.drop_last());
        (next_state(s1, es.last()), a1 + actions(s1, es.last()))
    }
}

/// How many gateway notifications `acts` holds.
pub open spec fn notices(acts: Seq<SupervisorAction>) -> nat
    decreases acts.len(),
{
    if acts.len() == 0 {
        0
    } else {
        notices(acts.drop_last()) + if acts.last() == SupervisorAction::NotifyShutdown {
            1nat
        } else {
            0nat
        }
    }
}

/// An action that signals the engine.
pub open spec fn signals_engine(a: SupervisorAction) -> bool {
    a is Interrupt || a is Terminate
}

/// Every signal to the engine in `acts` comes after a gateway notification.
pub open spec fn notified_first(acts: Seq<SupervisorAction>) -> bool {
    forall|j: int|
        0 <= j < acts.len() && #[trigger] signals_engine(acts[j]) ==> exists|i: int|
            0 <= i < j && acts[i] == SupervisorAction::NotifyShutdown
}

proof fn lemma_notices_concat(a: Seq<SupervisorAction>, b: Seq<SupervisorAction>)
    ensures
        notices(a + b) == notices(a) + notices(b),
    decreases b.len(),
{
    if b.len() == 0 {
        assert(a + b =~= a);
    } else {
        lemma_notices_concat(a, b.drop_last());
        assert((a + b).drop_last() =~= a + b.drop_last());
    }
}

proof fn lemma_notices_one(a: SupervisorAction)
    ensures
        notices(seq![a]) == if a == SupervisorAction::NotifyShutdown {
            1nat
        } else {
            0nat
        },
{
    assert(seq![a].drop_last() =~= Seq::<SupervisorAction>::empty());
    assert(notices(Seq::<SupervisorAction>::empty()) == 0);
    assert(seq![a].last() == a);
}

proof fn lemma_notice_exists(a: Seq<SupervisorAction>)
    requires
        notices(a) > 0,
    ensures
        exists|i: int| 0 <= i < a.len() && a[i] == SupervisorAction::NotifyShutdown,
    decreases a.len(),
{
    if a.last() != SupervisorAction::NotifyShutdown {
        lemma_notice_exists(a.drop_last());
        let i = choose|i: int| 0 <= i < a.drop_last().len() && a.drop_last()[i] == SupervisorAction::NotifyShutdown;
        assert(a[i] == a.drop_last()[i]);
    }
}

/// One step notifies the gateway exactly when a running engine gets a stop
/// signal.
proof fn lemma_step_notices(s: SupervisorState, e: SupervisorEvent)
    ensures
        notices(actions(s, e)) == if s is Running && stop_signal(e) {
            1nat
        } else {
            0nat
        },
{
    let a = actions(s, e);
    if a.len() == 0 {
    } else if a.len() == 1 {
        assert(a =~= seq![a[0]]);
        lemma_notices_one(a[0]);
    } else if a.len() == 2 {
        assert(a =~= seq![a[0]] + seq![a[1]]);
        lemma_notices_concat(seq![a[0]], seq![a[1]]);
        lemma_notices_one(a[0]);
        lemma_notices_one(a[1]);
    } else {
        assert(a =~= seq![a[0]] + seq![a[1]] + seq![a[2]]);
        lemma_notices_concat(seq![a[0]] + seq![a[1]], seq![a[2]]);
        lemma_notices_concat(seq![a[0]], seq![a[1]]);
        lemma_notices_one(a[0]);
        lemma_notices_one(a[1]);
        lemma_notices_one(a[2]);
    }
}

/// `e` is a signal that stops the supervisor.
spec fn stop_signal(e: SupervisorEvent) -> bool {
    match e {
        SupervisorEvent::Signal { kind } => stops(kind),
        _ => false,
    }
}

/// What the actions asked for so far say about the state reached.
spec fn history_fits(s: SupervisorState, acts: Seq<SupervisorAction>) -> bool {
    if s is ShuttingDown || s == (SupervisorState::Stopped { failed: false }) {
        notices(acts) == 1 && notified_first(acts)
    } else {
        notices(acts) == 0 && forall|j: int| 0 <= j < acts.len() ==> !#[trigger] signals_engine(acts[j])
    }
}

proof fn lemma_history(es: Seq<SupervisorEvent>)
    ensures
        history_fits(run(SupervisorState::Idle, es).0, run(SupervisorState::Idle, es).1),
    decreases es.len(),
{
    if es.len() > 0 {
        lemma_history(es.drop_last());
        let (s1, a1) = run(SupervisorState::Idle, es.drop_last());
        let e = es.last();
        let a2 = actions(s1, e);
        let acts = a1 + a2;
        lemma_notices_concat(a1, a2);
        lemma_step_notices(s1, e);
        if s1 is ShuttingDown || s1 == (SupervisorState::Stopped { failed: false }) {
            lemma_notice_exists(a1);
        }
        assert forall|j: int| 0 <= j < acts.len() && #[trigger] signals_engine(acts[j]) implies exists|i: int|
            0 <= i < j && acts[i] == SupervisorAction::NotifyShutdown by {
            if j < a1.len() {
                assert(acts[j] == a1[j]);
                let i = choose|i: int| 0 <= i < j && a1[i] == SupervisorAction::NotifyShutdown;
                assert(acts[i] == a1[i]);
            } else if s1 is Running {
                assert(acts[j] == a2[j - a1.len()]);
                assert(acts[a1.len() as int] == SupervisorAction::NotifyShutdown);
            } else {
                assert(acts[j] == a2[j - a1.len()]);
                let i = choose|i: int| 0 <= i < a1.len() && a1[i] == SupervisorAction::NotifyShutdown;
                assert(acts[i] == a1[i]);
            }
        }
    }
}

/// Shutdown ordering: over any run from `Idle`, the gateway is notified at
/// most once, and every signal to the engine comes after that notification.
pub proof fn lemma_shutdown_order(es: Seq<SupervisorEvent>)
    ensures
        notices(run(SupervisorState::Idle, es).1) <= 1,
        notified_first(run(SupervisorState::Idle, es).1),
{
    lemma_history(es);
}

/// Teardown is idempotent: once the engine was signalled, removing the
/// mount twice, with any outcome each time (the second finds nothing
/// mounted), leaves the supervisor stopped without failure and asks for
/// nothing more.
pub proof fn lemma_teardown_twice(pid: i32, first: bool, second: bool)
    ensures
        ({
            let s0 = SupervisorState::ShuttingDown { pid, signalled: true };
            let s1 = next_state(s0, SupervisorEvent::Unmounted { ok: first });
            let s2 = next_state(s1, SupervisorEvent::Unmounted { ok: second });
            &&& s1 == SupervisorState::Stopped { failed: false }
            &&& s2 == s1
            &&& actions(s0, SupervisorEvent::Unmounted { ok: first }).len() == 0
            &&& actions(s1, SupervisorEvent::Unmounted { ok: second }).len() == 0
        }),
{
}

} // verus!
