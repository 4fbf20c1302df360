use mailsync::sync::orchestrator::{startup_plan, StartupAction, SWEEP_INTERVAL_SECS};
use mailsync::sync::checkpoint::FolderRole;
use mailsync::sync::orchestrator::{FolderSweep, FolderSweepAction, Sweep, SweepAction};
use mailsync::sync::registry::{Registration, WatchRegistry};
use mailsync::sync::watch::{
    primary_folder_path, primary_folder_role, WatchAction, WatchEvent, WatchState,
    WatchSupervisor, RECONNECT_BACKOFF_SECS,
};

#[test]
fn supervisor_connects_syncs_and_watches() {
    let mut s = WatchSupervisor::for_account(Some(7)).unwrap();
    assert_eq!(s.account_id, 7);
    assert_eq!(s.state, WatchState::Idle);
    assert_eq!(s.pending_action(), WatchAction::AwaitStart);
    assert_eq!(s.step(WatchEvent::Started), WatchAction::Connect);
    assert_eq!(s.step(WatchEvent::Connected), WatchAction::SyncPrimaryFolder);
    assert_eq!(s.state, WatchState::Syncing);
    assert_eq!(s.step(WatchEvent::PassCompleted), WatchAction::Watch);
    assert_eq!(s.step(WatchEvent::ChangeSignaled), WatchAction::SyncPrimaryFolder);
    assert_eq!(s.state, WatchState::Reacting);
    assert_eq!(s.step(WatchEvent::PassCompleted), WatchAction::Watch);
    assert_eq!(s.state, WatchState::Watching);
}

#[test]
fn account_without_identifier_is_not_watched() {
    assert!(WatchSupervisor::for_account(None).is_none());
}

#[test]
fn failures_back_off_thirty_seconds_and_reconnect() {
    assert_eq!(RECONNECT_BACKOFF_SECS, 30);
    let wait = WatchAction::Wait { seconds: 30 };
    let cases = [
        (vec![WatchEvent::Started], WatchEvent::ConnectFailed),
        (vec![WatchEvent::Started, WatchEvent::Connected], WatchEvent::PassFailed),
        (vec![WatchEvent::Started, WatchEvent::Connected], WatchEvent::ConnectionLost),
        (
            vec![WatchEvent::Started, WatchEvent::Connected, WatchEvent::PassCompleted],
            WatchEvent::ConnectionLost,
        ),
        (
            vec![
                WatchEvent::Started,
                WatchEvent::Connected,
                WatchEvent::PassCompleted,
                WatchEvent::ChangeSignaled,
            ],
            WatchEvent::PassFailed,
        ),
    ];
    for (prefix, failure) in cases {
        let mut s = WatchSupervisor::for_account(Some(1)).unwrap();
        for e in prefix {
            s.step(e);
        }
        assert_eq!(s.step(failure), wait);
        assert_eq!(s.state, WatchState::BackingOff);
        assert_eq!(s.step(WatchEvent::BackoffElapsed), WatchAction::Connect);
    }
}

#[test]
fn retries_never_give_up() {
    let mut s = WatchSupervisor::for_account(Some(1)).unwrap();
    s.step(WatchEvent::Started);
    for _ in 0..1000 {
        assert_eq!(s.step(WatchEvent::ConnectFailed), WatchAction::Wait { seconds: 30 });
        assert_eq!(s.step(WatchEvent::BackoffElapsed), WatchAction::Connect);
    }
    assert!(!s.is_stopped());
}

#[test]
fn cancellation_stops_from_every_state() {
    let paths: Vec<Vec<WatchEvent>> = vec![
        vec![],
        vec![WatchEvent::Started],
        vec![WatchEvent::Started, WatchEvent::Connected],
        vec![WatchEvent::Started, WatchEvent::Connected, WatchEvent::PassCompleted],
        vec![
            WatchEvent::Started,
            WatchEvent::Connected,
            WatchEvent::PassCompleted,
            WatchEvent::ChangeSignaled,
        ],
        vec![WatchEvent::Started, WatchEvent::ConnectFailed],
    ];
    let all = [
        WatchEvent::Started,
        WatchEvent::Connected,
        WatchEvent::ConnectFailed,
        WatchEvent::PassCompleted,
        WatchEvent::PassFailed,
        WatchEvent::ChangeSignaled,
        WatchEvent::ConnectionLost,
        WatchEvent::BackoffElapsed,
        WatchEvent::Cancelled,
    ];
    for path in paths {
        let mut s = WatchSupervisor::for_account(Some(1)).unwrap();
        for e in path {
            s.step(e);
        }
        assert_eq!(s.step(WatchEvent::Cancelled), WatchAction::Exit);
        assert!(s.is_stopped());
        for e in all {
            assert_eq!(s.step(e), WatchAction::Exit);
            assert_eq!(s.state, WatchState::Stopped);
        }
    }
}

#[test]
fn events_that_are_not_waited_for_change_nothing() {
    let mut s = WatchSupervisor::for_account(Some(1)).unwrap();
    assert_eq!(s.step(WatchEvent::ChangeSignaled), WatchAction::AwaitStart);
    s.step(WatchEvent::Started);
    assert_eq!(s.step(WatchEvent::BackoffElapsed), WatchAction::Connect);
    assert_eq!(s.step(WatchEvent::PassCompleted), WatchAction::Connect);
    s.step(WatchEvent::Connected);
    s.step(WatchEvent::PassCompleted);
    assert_eq!(s.step(WatchEvent::PassFailed), WatchAction::Watch);
}

#[test]
fn registry_keeps_one_supervisor_for_each_account() {
    let mut r = WatchRegistry::new();
    assert_eq!(r.lookup(5), None);
    assert_eq!(r.register(5), Some(Registration { handle: 0, replaced: None }));
    assert_eq!(r.register(6), Some(Registration { handle: 1, replaced: None }));
    assert_eq!(r.register(5), Some(Registration { handle: 2, replaced: Some(0) }));
    assert_eq!(r.lookup(5), Some(2));
    assert_eq!(r.lookup(6), Some(1));
    assert!(!r.finished(5, 0));
    assert_eq!(r.lookup(5), Some(2));
    assert!(r.finished(5, 2));
    assert_eq!(r.lookup(5), None);
    assert_eq!(r.remove(6), Some(1));
    assert_eq!(r.remove(6), None);
    assert!(!r.finished(6, 1));
}

#[test]
fn startup_sweeps_then_schedules_then_watches() {
    assert_eq!(SWEEP_INTERVAL_SECS, 300);
    assert_eq!(
        startup_plan(&vec![Some(3), None, Some(1)]),
        vec![
            StartupAction::InitialSweep,
            StartupAction::SchedulePeriodicSweep { interval_secs: 300 },
            StartupAction::StartWatch { account_id: 3 },
            StartupAction::StartWatch { account_id: 1 },
        ]
    );
    assert_eq!(startup_plan(&Vec::new()).len(), 2);
}

#[test]
fn sweep_goes_on_after_a_failure() {
    let mut sweep = Sweep::new(3);
    assert_eq!(sweep.pending_action(), SweepAction::SyncAccount { index: 0 });
    assert_eq!(sweep.report(false), SweepAction::SyncAccount { index: 1 });
    assert_eq!(sweep.report(true), SweepAction::SyncAccount { index: 2 });
    assert_eq!(sweep.report(false), SweepAction::Done);
    assert_eq!(sweep, Sweep { accounts: 3, tried: 3, failed: 2 });
    assert_eq!(sweep.report(false), SweepAction::Done);
    assert_eq!(sweep.failed, 2);
    assert_eq!(Sweep::new(0).pending_action(), SweepAction::Done);
}

#[test]
fn primary_folder_is_the_inbox() {
    assert_eq!(primary_folder_path(), "INBOX");
    assert_eq!(primary_folder_role(), FolderRole::Inbox);
}

#[test]
fn failed_folder_does_not_keep_the_sweep_from_the_next() {
    let mut sweep = FolderSweep::new(3);
    assert_eq!(sweep.pending_action(), FolderSweepAction::SyncFolder { index: 0 });
    assert_eq!(sweep.report(false), FolderSweepAction::SyncFolder { index: 1 });
    assert_eq!(sweep.report(true), FolderSweepAction::SyncFolder { index: 2 });
    assert_eq!(sweep.report(false), FolderSweepAction::Done { failed: 2 });
    assert_eq!(sweep.report(false), FolderSweepAction::Done { failed: 2 });
    assert_eq!(FolderSweep::new(0).pending_action(), FolderSweepAction::Done { failed: 0 });
}
