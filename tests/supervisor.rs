use xunlei::shutdown::ShutdownNotifier;
use xunlei::supervisor::{SignalKind, SupervisorAction, SupervisorEvent, SupervisorState};

fn drive(events: &[SupervisorEvent]) -> (SupervisorState, Vec<SupervisorAction>) {
    let mut s = SupervisorState::Idle;
    let mut all = Vec::new();
    for e in events {
        let (n, acts) = s.step(*e);
        s = n;
        all.extend(acts);
    }
    (s, all)
}

#[test]
fn start_mounts_then_spawns() {
    let (s, acts) = drive(&[SupervisorEvent::Start]);
    assert_eq!(s, SupervisorState::Mounting { mounted: false });
    assert_eq!(
        acts,
        vec![
            SupervisorAction::PrepareStateDir,
            SupervisorAction::ClearStaleMount,
            SupervisorAction::BindMount
        ]
    );
    let (s, acts) = drive(&[SupervisorEvent::Start, SupervisorEvent::Mounted { ok: true }]);
    assert_eq!(s, SupervisorState::Mounting { mounted: true });
    assert_eq!(acts.last(), Some(&SupervisorAction::SpawnEngine));
}

#[test]
fn mount_failure_aborts_before_spawn() {
    let (s, acts) = drive(&[SupervisorEvent::Start, SupervisorEvent::Mounted { ok: false }]);
    assert_eq!(s, SupervisorState::Stopped { failed: true });
    assert!(!acts.contains(&SupervisorAction::SpawnEngine));
}

#[test]
fn stop_signal_notifies_before_signalling_engine() {
    let (s, acts) = drive(&[
        SupervisorEvent::Start,
        SupervisorEvent::Mounted { ok: true },
        SupervisorEvent::Spawned { pid: 42 },
        SupervisorEvent::Signal { kind: SignalKind::Other },
        SupervisorEvent::Signal { kind: SignalKind::Terminate },
        SupervisorEvent::Signal { kind: SignalKind::Interrupt },
    ]);
    assert_eq!(s, SupervisorState::ShuttingDown { pid: 42, signalled: false });
    let notices = acts.iter().filter(|a| **a == SupervisorAction::NotifyShutdown).count();
    assert_eq!(notices, 1);
    let n = acts.iter().position(|a| *a == SupervisorAction::NotifyShutdown).unwrap();
    let k = acts.iter().position(|a| *a == SupervisorAction::Interrupt { pid: 42 }).unwrap();
    assert!(n < k);
}

#[test]
fn failed_interrupt_escalates_to_terminate() {
    let (s, acts) = drive(&[
        SupervisorEvent::Start,
        SupervisorEvent::Mounted { ok: true },
        SupervisorEvent::Spawned { pid: 7 },
        SupervisorEvent::Signal { kind: SignalKind::HangUp },
        SupervisorEvent::InterruptSent { ok: false },
    ]);
    assert_eq!(s, SupervisorState::ShuttingDown { pid: 7, signalled: true });
    let tail = &acts[acts.len() - 2..];
    assert_eq!(tail, &[SupervisorAction::Terminate { pid: 7 }, SupervisorAction::Unmount]);
}

#[test]
fn teardown_twice_is_not_fatal() {
    let s = SupervisorState::ShuttingDown { pid: 9, signalled: true };
    let (s1, a1) = s.step(SupervisorEvent::Unmounted { ok: true });
    let (s2, a2) = s1.step(SupervisorEvent::Unmounted { ok: false });
    assert_eq!(s1, SupervisorState::Stopped { failed: false });
    assert_eq!(s2, s1);
    assert!(a1.is_empty() && a2.is_empty());
    assert!(s2.is_stopped());
}

#[test]
fn notifier_sends_once() {
    let (tx, mut rx) = tokio::sync::mpsc::channel::<()>(1);
    let mut n = ShutdownNotifier::new(tx);
    assert!(!n.sent());
    assert!(n.notify());
    assert!(!n.notify());
    assert!(n.sent());
    assert_eq!(rx.try_recv(), Ok(()));
    assert!(rx.try_recv().is_err());
}

#[test]
fn notifier_without_receiver_is_quiet() {
    let (tx, rx) = tokio::sync::mpsc::channel::<()>(1);
    drop(rx);
    let mut n = ShutdownNotifier::new(tx);
    assert!(n.notify());
    assert!(!n.notify());
}
