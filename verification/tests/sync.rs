use better_im::index_model::SemanticProgress;
use better_im::sync::{
    backfill_after_batch, backfill_on_batch, backfill_start, embed_query_text, event_is_relevant,
    initial_sync_kind, should_embed_after_sync, startup_step, watch_target, BackfillStep,
    StartupAction, StartupEvent, StartupPhase, SyncKind, WatchSetupError, EMBED_BATCH,
};

#[test]
fn empty_index_gets_a_full_reindex() {
    assert_eq!(initial_sync_kind(0), SyncKind::Full);
    assert_eq!(initial_sync_kind(12), SyncKind::Incremental);
}

#[test]
fn embedding_after_sync_needs_an_opted_in_index() {
    assert!(!should_embed_after_sync(false, 10));
    assert!(!should_embed_after_sync(true, 0));
    assert!(should_embed_after_sync(true, 1));
}

#[test]
fn query_quotes_become_spaces_for_the_model() {
    assert_eq!(embed_query_text("\"dinner\" \"beach\""), " dinner   beach ");
    assert_eq!(embed_query_text(""), "");
}

#[test]
fn backfill_advances_until_a_short_batch() {
    let p = backfill_start(300);
    assert_eq!(p, SemanticProgress { done: 0, total: 300 });
    assert_eq!(backfill_start(-1).total, usize::MAX);
    assert_eq!(backfill_on_batch(0), BackfillStep::Finished);
    assert_eq!(backfill_on_batch(3), BackfillStep::Embed);
    let (p, more) = backfill_after_batch(p, EMBED_BATCH, 128);
    assert_eq!(p.done, 128);
    assert!(more);
    let (p, more) = backfill_after_batch(p, 44, 44);
    assert_eq!(p, SemanticProgress { done: 172, total: 300 });
    assert!(!more);
}

#[test]
fn startup_runs_probe_sync_watch() {
    let (ph, a) = startup_step(StartupPhase::Probing, StartupEvent::Probed(true));
    assert_eq!((ph, a), (StartupPhase::Syncing, StartupAction::RunInitialSync));
    let (ph, a) = startup_step(ph, StartupEvent::Synced(true));
    assert_eq!((ph, a), (StartupPhase::StartingWatcher, StartupAction::ReportAndStartWatcher));
    let (ph, a) = startup_step(ph, StartupEvent::WatcherStarted(true));
    assert_eq!((ph, a), (StartupPhase::Done, StartupAction::KeepWatcher));
    assert_eq!(startup_step(StartupPhase::Syncing, StartupEvent::Synced(false)).1, StartupAction::StartWatcher);
    assert_eq!(startup_step(StartupPhase::StartingWatcher, StartupEvent::WatcherStarted(false)).1, StartupAction::Stop);
}

#[test]
fn denied_access_resets_the_started_flag() {
    assert_eq!(
        startup_step(StartupPhase::Probing, StartupEvent::Probed(false)),
        (StartupPhase::Done, StartupAction::ResetStartedFlag)
    );
    assert_eq!(startup_step(StartupPhase::Done, StartupEvent::Probed(true)), (StartupPhase::Done, StartupAction::Stop));
}

#[test]
fn watch_target_splits_directory_and_name() {
    assert_eq!(watch_target("/tmp/chat.db"), Ok(("/tmp".to_string(), "chat.db".to_string())));
    assert_eq!(watch_target("/"), Err(WatchSetupError::NoParent));
    assert_eq!(watch_target(".."), Err(WatchSetupError::NoFileName));
    assert_eq!(WatchSetupError::NoParent.message(), "source db path has no parent directory");
}

#[test]
fn sidecar_events_are_relevant() {
    let names = vec![None, Some("chat.db-wal".to_string())];
    assert!(event_is_relevant(&names, "chat.db"));
    assert!(!event_is_relevant(&vec![Some("other.db".to_string())], "chat.db"));
    assert!(!event_is_relevant(&vec![], "chat.db"));
}

fn run_backfill(missing: i64) -> Vec<SemanticProgress> {
    let mut remaining = missing as usize;
    let mut p = backfill_start(missing);
    let mut reports = vec![p];
    loop {
        let batch = remaining.min(EMBED_BATCH);
        if backfill_on_batch(batch) == BackfillStep::Finished {
            break;
        }
        remaining -= batch;
        let (next, more) = backfill_after_batch(p, batch, batch);
        p = next;
        reports.push(p);
        if !more {
            break;
        }
    }
    reports
}

#[test]
fn backfill_reports_rise_to_the_missing_count() {
    let r = run_backfill(300);
    let done: Vec<usize> = r.iter().map(|p| p.done).collect();
    assert_eq!(done, vec![0, 128, 256, 300]);
    assert!(r.iter().all(|p| p.total == 300));
    let again = run_backfill(0);
    assert_eq!(again, vec![SemanticProgress { done: 0, total: 0 }]);
    let full = run_backfill(256);
    assert_eq!(full.last().unwrap().done, 256);
}
