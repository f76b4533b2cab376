//! The decisions around keeping the index current: what to sync first, when
//! to embed, how a semantic backfill advances, how the background start-up
//! proceeds, and which file events the watcher reacts to. The work itself
//! (reading, writing, embedding, waiting) is the caller's.

use vstd::prelude::*;
use crate::index_model::SemanticProgress;
use crate::paths::{path_file_name, path_parent, std_file_name, std_parent};
use crate::text::{chars_of, starts_with, starts_with_chars, string_from_chars};

verus! {

// ---------------------------------------------------------------------------
// Syncing
// ---------------------------------------------------------------------------

/// How the index is brought up to date.
#[derive(Debug, Clone, Copy, PartialEq, Eq, Structural)]
pub enum SyncKind {
    /// Rebuild everything from the source.
    Full,
    /// Index only rows above the watermark.
    Incremental,
}

/// The first sync of a session: a full reindex when the index holds no
/// message, else an incremental one.
pub fn initial_sync_kind(message_count: i64) -> (r: SyncKind)
    ensures
        r == (if message_count == 0 {
            SyncKind::Full
        } else {
            SyncKind::Incremental
        }),
{
    if message_count == 0 {
        SyncKind::Full
    } else {
        SyncKind::Incremental
    }
}

/// Whether a sync should also embed the newly indexed messages: only with an
/// embedder attached and once the semantic index has been built (it holds a
/// vector), so keyword-only use pays nothing.
pub fn should_embed_after_sync(has_embedder: bool, vector_count: i64) -> (r: bool)
    ensures
        r == (has_embedder && vector_count != 0),
{
    has_embedder && vector_count != 0
}

// ---------------------------------------------------------------------------
// Semantic backfill
// ---------------------------------------------------------------------------

/// Messages embedded per model call.
pub const EMBED_BATCH: usize = 128;

/// The text a query's free-text terms are embedded as: the FTS expression with
/// its quotes turned into spaces.
pub open spec fn embed_text_spec(fts: Seq<char>) -> Seq<char> {
    fts.map_values(|c: char| if c == '"' { ' ' } else { c })
}

/// The plain text to embed for an FTS expression.
pub fn embed_query_text(fts: &str) -> (r: String)
    ensures
        r@ == embed_text_spec(fts@),
{
    let chars = chars_of(fts);
    let mut out: Vec<char> = Vec::new();
    let mut i: usize = 0;
    while i < chars.len()
        invariant
            i <= chars@.len(),
            chars@ == fts@,
            out@ == embed_text_spec(chars@.take(i as int)),
        decreases chars@.len() - i,
    {
        let c = chars[i];
        out.push(if c == '"' { ' ' } else { c });
        i = i + 1;
        assert(embed_text_spec(chars@.take(i as int)) =~= embed_text_spec(chars@.take(i - 1)).push(
            if c == '"' { ' ' } else { c },
        ));
    }
    assert(chars@.take(chars@.len() as int) =~= chars@);
    string_from_chars(out.as_slice())
}

/// The progress a backfill starts from: nothing done, out of the number of
/// messages lacking a vector (all of `usize` when that count does not fit).
pub fn backfill_start(missing: i64) -> (r: SemanticProgress)
    ensures
        r.done == 0,
        r.total == (if 0 <= missing <= usize::MAX {
            missing as usize
        } else {
            usize::MAX
        }),
{
    let total = if missing >= 0 && (missing as u64) <= (usize::MAX as u64) {
        missing as usize
    } else {
        usize::MAX
    };
    SemanticProgress { done: 0, total }
}

/// What a backfill does after fetching a batch.
#[derive(Debug, Clone, Copy, PartialEq, Eq)]
pub enum BackfillStep {
    /// The batch was empty: the backfill is over.
    Finished,
    /// Embed and store the batch, then call [`backfill_after_batch`].
    Embed,
}

/// After fetching a batch: stop on an empty one, else embed it.
pub fn backfill_on_batch(batch_len: usize) -> (r: BackfillStep)
    ensures
        r == (if batch_len == 0 {
            BackfillStep::Finished
        } else {
            BackfillStep::Embed
        }),
{
    if batch_len == 0 {
        BackfillStep::Finished
    } else {
        BackfillStep::Embed
    }
}

/// Whether a backfill goes on after a batch of `batch_len` rows: only after a
/// full batch (a short one means every missing row has been drained).
pub fn backfill_continues(batch_len: usize) -> (r: bool)
    ensures
        r == (batch_len >= EMBED_BATCH),
{
    batch_len >= EMBED_BATCH
}

/// The progress after a batch of `batch_len` rows of which `embedded` were
/// stored, and whether the backfill goes on.
pub open spec fn after_batch_spec(p: SemanticProgress, batch_len: nat, embedded: nat) -> (SemanticProgress, bool) {
    (SemanticProgress { done: (p.done + embedded) as usize, total: p.total }, batch_len >= EMBED_BATCH)
}

/// After a batch of `batch_len` rows was embedded (`embedded` vectors
/// written): the progress advances by what was written, and the backfill
/// goes on only after a full batch (a short one means every missing row has
/// been drained).
pub fn backfill_after_batch(p: SemanticProgress, batch_len: usize, embedded: usize) -> (r: (SemanticProgress, bool))
    requires
        p.done + embedded <= usize::MAX,
    ensures
        r.0.done == p.done + embedded,
        r.0.total == p.total,
        r.1 == (batch_len >= EMBED_BATCH),
        r == after_batch_spec(p, batch_len as nat, embedded as nat),
{
    (SemanticProgress { done: p.done + embedded, total: p.total }, backfill_continues(batch_len))
}

// ---------------------------------------------------------------------------
// Background start-up
// ---------------------------------------------------------------------------

/// Where the one-shot start-up task stands.
#[derive(Debug, Clone, Copy, PartialEq, Eq, Structural)]
pub enum StartupPhase {
    /// Checking that the source database can be opened.
    Probing,
    /// Running the initial sync.
    Syncing,
    /// Starting the file watcher.
    StartingWatcher,
    /// Nothing left to do.
    Done,
}

/// What the outside work of a phase produced.
#[derive(Debug, Clone, Copy, PartialEq, Eq, Structural)]
pub enum StartupEvent {
    /// The probe ran: whether the source could be opened.
    Probed(bool),
    /// The initial sync ran: whether it succeeded.
    Synced(bool),
    /// The watcher start ran: whether a watcher is now running.
    WatcherStarted(bool),
}

/// What the caller does next.
#[derive(Debug, Clone, Copy, PartialEq, Eq, Structural)]
pub enum StartupAction {
    /// Access is denied: clear the started flag so a later check can retry,
    /// and stop.
    ResetStartedFlag,
    /// Run the initial sync (full or incremental per [`initial_sync_kind`]).
    RunInitialSync,
    /// Tell the UI the index was updated, then start the watcher.
    ReportAndStartWatcher,
    /// Start the watcher (nothing to report).
    StartWatcher,
    /// Keep the running watcher alive in the application state.
    KeepWatcher,
    /// Nothing more.
    Stop,
}

/// The start-up transition: probe access; without it, reset the guard and
/// stop; with it, sync, report a successful sync, start the watcher, and keep
/// it when it started. Anything unexpected ends the task.
pub open spec fn startup_step_spec(phase: StartupPhase, e: StartupEvent) -> (StartupPhase, StartupAction) {
    match (phase, e) {
        (StartupPhase::Probing, StartupEvent::Probed(false)) => (StartupPhase::Done, StartupAction::ResetStartedFlag),
        (StartupPhase::Probing, StartupEvent::Probed(true)) => (StartupPhase::Syncing, StartupAction::RunInitialSync),
        (StartupPhase::Syncing, StartupEvent::Synced(true)) => (StartupPhase::StartingWatcher, StartupAction::ReportAndStartWatcher),
        (StartupPhase::Syncing, StartupEvent::Synced(false)) => (StartupPhase::StartingWatcher, StartupAction::StartWatcher),
        (StartupPhase::StartingWatcher, StartupEvent::WatcherStarted(true)) => (StartupPhase::Done, StartupAction::KeepWatcher),
        _ => (StartupPhase::Done, StartupAction::Stop),
    }
}

/// The next phase and action of the start-up task.
pub fn startup_step(phase: StartupPhase, e: StartupEvent) -> (r: (StartupPhase, StartupAction))
    ensures
        r == startup_step_spec(phase, e),
{
    match (phase, e) {
        (StartupPhase::Probing, StartupEvent::Probed(false)) => (StartupPhase::Done, StartupAction::ResetStartedFlag),
        (StartupPhase::Probing, StartupEvent::Probed(true)) => (StartupPhase::Syncing, StartupAction::RunInitialSync),
        (StartupPhase::Syncing, StartupEvent::Synced(true)) => (StartupPhase::StartingWatcher, StartupAction::ReportAndStartWatcher),
        (StartupPhase::Syncing, StartupEvent::Synced(false)) => (StartupPhase::StartingWatcher, StartupAction::StartWatcher),
        (StartupPhase::StartingWatcher, StartupEvent::WatcherStarted(true)) => (StartupPhase::Done, StartupAction::KeepWatcher),
        _ => (StartupPhase::Done, StartupAction::Stop),
    }
}

/// Start-up never does anything after it is done, and a denied probe never
/// leads to a sync: it resets the started flag (so a later access check can
/// start again) and ends the task.
pub proof fn lemma_startup_done_is_final(e: StartupEvent)
    ensures
        startup_step_spec(StartupPhase::Done, e) == (StartupPhase::Done, StartupAction::Stop),
        startup_step_spec(StartupPhase::Probing, StartupEvent::Probed(false)) == (
            StartupPhase::Done,
            StartupAction::ResetStartedFlag,
        ),
{
}

// ---------------------------------------------------------------------------
// Watching
// ---------------------------------------------------------------------------

/// Why a watcher cannot be set up for a path.
#[derive(Debug, Clone, Copy, PartialEq, Eq, Structural)]
pub enum WatchSetupError {
    /// The path has no parent directory to watch.
    NoParent,
    /// The path has no file name to match events against.
    NoFileName,
}

impl WatchSetupError {
    /// The error text shown to the caller.
    pub fn message(&self) -> (r: &'static str)
        ensures
            r@ == (match self {
                WatchSetupError::NoParent => "source db path has no parent directory"@,
                WatchSetupError::NoFileName => "source db path has no file name"@,
            }),
    {
        match self {
            WatchSetupError::NoParent => "source db path has no parent directory",
            WatchSetupError::NoFileName => "source db path has no file name",
        }
    }
}

/// What to watch for a source database: its directory, and the file name
/// that events must start with (so the `-wal` / `-shm` sidecars count too).
pub fn watch_target(source_db: &str) -> (r: Result<(String, String), WatchSetupError>)
    ensures
        path_parent(source_db@) is None ==> r == Err::<(String, String), WatchSetupError>(WatchSetupError::NoParent),
        path_parent(source_db@) is Some && path_file_name(source_db@) is None ==> r == Err::<(String, String), WatchSetupError>(WatchSetupError::NoFileName),
        r matches Ok(t) ==> Some(t.0@) == path_parent(source_db@) && Some(t.1@) == path_file_name(source_db@),
        (path_parent(source_db@) is Some && path_file_name(source_db@) is Some) ==> r is Ok,
{
    let dir = match std_parent(source_db) {
        Some(d) => d,
        None => return Err(WatchSetupError::NoParent),
    };
    match std_file_name(source_db) {
        Some(name) => Ok((dir, name)),
        None => Err(WatchSetupError::NoFileName),
    }
}

/// Whether a file event concerns the database: some path it names has a
/// file name starting with the database's.
pub open spec fn event_relevant_spec(names: Seq<Option<String>>, target: Seq<char>) -> bool {
    exists|i: int| 0 <= i < names.len() && #[trigger] name_matches(names[i], target)
}

/// Whether one path's file name starts with the target name.
pub open spec fn name_matches(name: Option<String>, target: Seq<char>) -> bool {
    match name {
        Some(n) => starts_with(n@, target),
        None => false,
    }
}

/// Whether a file event (given the file names of its paths) concerns the
/// database or its sidecars.
pub fn event_is_relevant(names: &Vec<Option<String>>, target: &str) -> (r: bool)
    ensures
        r == event_relevant_spec(names@, target@),
{
    let t = chars_of(target);
    let mut i: usize = 0;
    while i < names.len()
        invariant
            i <= names@.len(),
            t@ == target@,
            forall|j: int| 0 <= j < i ==> !name_matches(#[trigger] names@[j], target@),
        decreases names@.len() - i,
    {
        match &names[i] {
            Some(n) => {
                let c = chars_of(n.as_str());
                if starts_with_chars(c.as_slice(), t.as_slice()) {
                    assert(name_matches(names@[i as int], target@));
                    return true;
                }
            },
            None => {},
        }
        i = i + 1;
    }
    false
}


// ---------------------------------------------------------------------------
// Backfill law
// ---------------------------------------------------------------------------

/// The rows one fetch of a backfill returns from a store that lacks
/// `remaining` vectors: all of them, up to a batch.
pub open spec fn batch_size(remaining: nat) -> nat {
    if remaining < EMBED_BATCH {
        remaining
    } else {
        EMBED_BATCH as nat
    }
}

/// The progress a backfill reports after each batch, from progress `p`, over
/// a store lacking `remaining` vectors, when every fetched row gets its
/// vector stored (the embedder gives one vector per text): it fetches a
/// batch, stops on an empty one, otherwise advances by the batch and goes on
/// after a full one.
pub open spec fn backfill_reports(p: SemanticProgress, remaining: nat) -> Seq<SemanticProgress>
    decreases remaining,
{
    let b = batch_size(remaining);
    if b == 0 {
        Seq::empty()
    } else {
        let (q, more) = after_batch_spec(p, b, b);
        if more {
            seq![q] + backfill_reports(q, (remaining - b) as nat)
        } else {
            seq![q]
        }
    }
}

/// How many vectors the store still lacks when that backfill stops.
pub open spec fn backfill_left(remaining: nat) -> nat
    decreases remaining,
{
    let b = batch_size(remaining);
    if b == 0 {
        remaining
    } else if b >= EMBED_BATCH {
        backfill_left((remaining - b) as nat)
    } else {
        (remaining - b) as nat
    }
}

proof fn lemma_backfill_drains(remaining: nat)
    ensures
        backfill_left(remaining) == 0,
    decreases remaining,
{
    let b = batch_size(remaining);
    if b > 0 && b >= EMBED_BATCH {
        lemma_backfill_drains((remaining - b) as nat);
    }
}

proof fn lemma_backfill_reports_from(p: SemanticProgress, remaining: nat)
    requires
        p.done + remaining <= usize::MAX,
    ensures
        forall|i: int| 0 <= i < backfill_reports(p, remaining).len() ==> {
            let q = #[trigger] backfill_reports(p, remaining)[i];
            &&& q.total == p.total
            &&& p.done < q.done <= p.done + remaining
        },
        forall|i: int, j: int| 0 <= i < j < backfill_reports(p, remaining).len() ==>
            backfill_reports(p, remaining)[i].done < backfill_reports(p, remaining)[j].done,
        remaining > 0 <==> backfill_reports(p, remaining).len() > 0,
        remaining > 0 ==> backfill_reports(p, remaining).last().done == p.done + remaining,
    decreases remaining,
{
    let b = batch_size(remaining);
    if b > 0 {
        let q = SemanticProgress { done: (p.done + b) as usize, total: p.total };
        assert(after_batch_spec(p, b, b).0 == q);
        if b >= EMBED_BATCH {
            let rest = (remaining - b) as nat;
            lemma_backfill_reports_from(q, rest);
            let tail = backfill_reports(q, rest);
            let all = backfill_reports(p, remaining);
            assert(all == seq![q] + tail);
            assert forall|i: int| 0 <= i < all.len() implies {
                let x = #[trigger] all[i];
                &&& x.total == p.total
                &&& p.done < x.done <= p.done + remaining
            } by {
                if i > 0 {
                    assert(all[i] == tail[i - 1]);
                }
            }
            assert forall|i: int, j: int| 0 <= i < j < all.len() implies all[i].done < all[j].done by {
                assert(all[j] == tail[j - 1]);
                if i > 0 {
                    assert(all[i] == tail[i - 1]);
                }
            }
            if rest > 0 {
                assert(all.last() == tail.last());
            }
        }
    }
}

/// A semantic backfill over a store lacking `missing` vectors, each fetched
/// row getting its vector: the first report is nothing done out of `missing`;
/// every later report keeps that total and strictly raises what is done; the
/// last says all `missing` are done, and the backfill then reports nothing
/// more; the store then lacks no vector. A store lacking none (as right after
/// a backfill) gets no batch report, so the build embeds nothing.
pub proof fn lemma_backfill_progress(missing: i64)
    requires
        0 <= missing <= usize::MAX,
    ensures
        ({
            let start = SemanticProgress { done: 0, total: missing as usize };
            let rs = backfill_reports(start, missing as nat);
            &&& forall|i: int| 0 <= i < rs.len() ==> (#[trigger] rs[i]).total == missing
                && 0 < rs[i].done <= missing
            &&& forall|i: int, j: int| 0 <= i < j < rs.len() ==> rs[i].done < rs[j].done
            &&& (missing > 0 ==> rs.len() > 0 && rs.last().done == missing)
            &&& (missing == 0 ==> rs.len() == 0)
            &&& backfill_left(missing as nat) == 0
        }),
{
    lemma_backfill_drains(missing as nat);
    let start = SemanticProgress { done: 0, total: missing as usize };
    lemma_backfill_reports_from(start, missing as nat);
}

} // verus!
