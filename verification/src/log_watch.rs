//! The tailer: follows a log file that another process appends to, line by
//! line, across rotations of the file.
//!
//! The watcher itself touches no file. Whoever owns the open file reads from
//! it and inspects the path, and hands each outcome to the watcher, which
//! keeps the cursor and the identity of the file and decides what comes next.

use crate::matcher::{
    is_trigger, match_line, spec_fetch_player_ids, spec_match_line, MatchResult,
};
use crate::text::{byte_len, total_byte_len};
use vstd::prelude::*;
use vstd::string::*;

verus! {

/// Seconds to wait before looking again when nothing new was found.
pub const POLL_INTERVAL_SECS: u64 = 1;

/// What the consumer of a line asks of the watcher.
#[derive(Clone, Copy, Debug, PartialEq, Eq, Structural)]
pub enum LogWatcherAction {
    /// Go on with the next line.
    NoAction,
    /// Skip what the file holds so far and go on at its end.
    SeekToEnd,
}

/// Where a tailing session stands.
#[derive(Clone, Copy, Debug, PartialEq, Eq, Structural)]
pub enum WatchState {
    /// The file is open and is read line by line.
    Idle,
    /// The path is missing or unreadable for the moment; it is looked at
    /// again after each interval.
    Rotating,
    /// Another file has taken the path. What is left of the old one is read
    /// before the new one, which has the identity `next_id`, is taken up.
    Draining { next_id: u64 },
    /// The session is over.
    Terminated,
}

/// How results are handed to the caller.
#[derive(Clone, Copy, Debug, PartialEq, Eq, Structural)]
pub enum WatchMode {
    /// The session ends with the identifiers of the first lobby line.
    Completion,
    /// Every line is forwarded and the session goes on.
    Streaming,
}

/// What opening the path gave.
#[derive(Clone, Copy, Debug, PartialEq, Eq, Structural)]
pub enum OpenOutcome {
    /// The file is open; it has this identity and this many bytes.
    Opened { unique_id: u64, len: u64 },
    /// Nothing exists at the path.
    NotFound,
    /// The file may not be read.
    PermissionDenied,
    /// Opening failed for another reason.
    Other,
}

/// Why no session could be started.
#[derive(Clone, Copy, Debug, PartialEq, Eq, Structural)]
pub enum OpenFailure {
    NotFound,
    PermissionDenied,
    Other,
}

/// What looking at the path gave.
#[derive(Clone, Copy, Debug, PartialEq, Eq, Structural)]
pub enum ProbeOutcome {
    /// A file exists at the path and has this identity.
    Found { unique_id: u64 },
    /// Nothing exists at the path.
    NotFound,
    /// The file exists but its identity could not be determined.
    Failed,
}

/// What one attempt to read a line gave.
#[derive(Debug, PartialEq, Eq)]
pub enum ReadOutcome {
    /// The bytes from the cursor up to and including the next line
    /// terminator, or up to the end of the file where no terminator follows;
    /// empty at the end of the file.
    Data(String),
    /// The read failed.
    Failed,
}

/// What the watcher decided after a read.
#[derive(Debug, PartialEq, Eq)]
pub enum WatchStep {
    /// A line was consumed: its text without the terminator, and what the
    /// matcher made of it. Read on.
    Line { text: String, matched: MatchResult },
    /// A lobby line was consumed in completion mode: the session is over and
    /// these are its identifiers.
    Completed(Vec<i32>),
    /// No complete line is there. Look at the path and report with
    /// `reopen_if_log_rotated`.
    CheckRotation,
    /// The old file is drained. Go on at byte 0 of the file that took its
    /// place.
    Reopened,
    /// The read failed and nothing changed. Report it and read on.
    ReadFailed,
    /// The session is over.
    Stopped,
}

/// What the watcher decided after a look at the path.
#[derive(Clone, Copy, Debug, PartialEq, Eq, Structural)]
pub enum RotationStep {
    /// Another file has taken the path: read the old one until it is quiet.
    Drain,
    /// The same file is still there: wait one interval, then read on.
    Unchanged,
    /// The path is missing or unreadable: wait one interval, then look again.
    Retry,
    /// The session is over.
    Stopped,
}

/// One tailing session.
pub struct LogWatcher {
    filename: String,
    unique_id: u64,
    pos: u64,
    finish: bool,
    state: WatchState,
}

/// A tailing session as a value.
pub struct WatcherModel {
    /// The path that is followed.
    pub filename: Seq<char>,
    /// Identity of the file that is open.
    pub unique_id: u64,
    /// Number of bytes of the open file that were consumed.
    pub pos: nat,
    /// Whether the caller asked the session to stop.
    pub finish: bool,
    pub state: WatchState,
}

/// A read outcome as a value.
pub enum ReadModel {
    Data(Seq<char>),
    Failed,
}

/// A decision after a read as a value.
pub enum StepModel {
    Line { text: Seq<char>, matched: Option<Seq<i32>> },
    Completed(Seq<i32>),
    CheckRotation,
    Reopened,
    ReadFailed,
    Stopped,
}

impl View for LogWatcher {
    type V = WatcherModel;

    closed spec fn view(&self) -> WatcherModel {
        WatcherModel {
            filename: self.filename@,
            unique_id: self.unique_id,
            pos: self.pos as nat,
            finish: self.finish,
            state: self.state,
        }
    }
}

impl View for ReadOutcome {
    type V = ReadModel;

    open spec fn view(&self) -> ReadModel {
        match self {
            ReadOutcome::Data(chunk) => ReadModel::Data(chunk@),
            ReadOutcome::Failed => ReadModel::Failed,
        }
    }
}

impl View for WatchStep {
    type V = StepModel;

    open spec fn view(&self) -> StepModel {
        match self {
            WatchStep::Line { text, matched } => StepModel::Line { text: text@, matched: matched@ },
            WatchStep::Completed(ids) => StepModel::Completed(ids@),
            WatchStep::CheckRotation => StepModel::CheckRotation,
            WatchStep::Reopened => StepModel::Reopened,
            WatchStep::ReadFailed => StepModel::ReadFailed,
            WatchStep::Stopped => StepModel::Stopped,
        }
    }
}

impl WatcherModel {
    /// While an old file is drained, the file that waits is another one.
    pub open spec fn valid(self) -> bool {
        self.state matches WatchState::Draining { next_id } ==> next_id != self.unique_id
    }
}

/// A chunk that ends in a line terminator holds a whole line.
pub open spec fn is_complete(chunk: Seq<char>) -> bool {
    chunk.len() > 0 && chunk.last() == '\n'
}

/// What a chunk gives as the next line: the line without its terminator and
/// the number of bytes that it takes in the file, terminator included;
/// nothing where the chunk does not end in a terminator.
pub open spec fn spec_next_line(chunk: Seq<char>) -> Option<(Seq<char>, nat)> {
    if is_complete(chunk) {
        Some((chunk.drop_last(), byte_len(chunk)))
    } else {
        None
    }
}

/// The session that opening `filename` starts: at the end of the file, so
/// that only what is appended later is seen.
pub open spec fn spec_register(filename: Seq<char>, opened: OpenOutcome) -> Result<
    WatcherModel,
    OpenFailure,
> {
    match opened {
        OpenOutcome::Opened { unique_id, len } => Ok(
            WatcherModel {
                filename,
                unique_id,
                pos: len as nat,
                finish: false,
                state: WatchState::Idle,
            },
        ),
        OpenOutcome::NotFound => Err(OpenFailure::NotFound),
        OpenOutcome::PermissionDenied => Err(OpenFailure::PermissionDenied),
        OpenOutcome::Other => Err(OpenFailure::Other),
    }
}

/// The session after a read, and what was decided.
///
/// A whole line moves the cursor by its bytes, terminator included, and goes
/// to the matcher without the terminator. Anything less is left where it is,
/// to be read again when more has arrived: while idle the path is then looked
/// at, while draining the old file counts as finished.
pub open spec fn spec_watch(w: WatcherModel, mode: WatchMode, read: ReadModel) -> (
    WatcherModel,
    StepModel,
) {
    match w.state {
        WatchState::Terminated => (w, StepModel::Stopped),
        WatchState::Rotating => (w, StepModel::CheckRotation),
        _ => match read {
            ReadModel::Failed => (w, StepModel::ReadFailed),
            ReadModel::Data(chunk) => if let Some((line, consumed)) = spec_next_line(chunk) {
                let pos = w.pos + consumed;
                match (mode, spec_match_line(line)) {
                    (WatchMode::Completion, Some(ids)) => (
                        WatcherModel { pos, state: WatchState::Terminated, ..w },
                        StepModel::Completed(ids),
                    ),
                    (_, matched) => (
                        WatcherModel { pos, ..w },
                        StepModel::Line { text: line, matched },
                    ),
                }
            } else {
                match w.state {
                    WatchState::Draining { next_id } => if w.finish {
                        (WatcherModel { state: WatchState::Terminated, ..w }, StepModel::Stopped)
                    } else {
                        (
                            WatcherModel {
                                unique_id: next_id,
                                pos: 0,
                                state: WatchState::Idle,
                                ..w
                            },
                            StepModel::Reopened,
                        )
                    },
                    _ => (w, StepModel::CheckRotation),
                }
            },
        },
    }
}

/// The session after a look at the path, and what was decided.
pub open spec fn spec_reopen(w: WatcherModel, probe: ProbeOutcome) -> (WatcherModel, RotationStep) {
    match w.state {
        WatchState::Terminated => (w, RotationStep::Stopped),
        WatchState::Draining { .. } => (w, RotationStep::Drain),
        _ => match probe {
            ProbeOutcome::Found { unique_id } => if unique_id != w.unique_id {
                (
                    WatcherModel { state: WatchState::Draining { next_id: unique_id }, ..w },
                    RotationStep::Drain,
                )
            } else {
                (WatcherModel { state: WatchState::Idle, ..w }, RotationStep::Unchanged)
            },
            _ => (WatcherModel { state: WatchState::Rotating, ..w }, RotationStep::Retry),
        },
    }
}

/// The session after the consumer's answer to a line.
pub open spec fn spec_seek(w: WatcherModel, action: LogWatcherAction, end: u64) -> WatcherModel {
    match action {
        LogWatcherAction::NoAction => w,
        LogWatcherAction::SeekToEnd => WatcherModel { pos: end as nat, ..w },
    }
}

/// Takes the next line out of what one read gave: the line without its
/// terminator, and the number of bytes to move the cursor by. A chunk that
/// does not end in a terminator is no line yet and gives nothing.
pub fn read_next_line(chunk: &str) -> (r: Option<(&str, usize)>)
    ensures
        match r {
            Some((line, consumed)) => spec_next_line(chunk@) == Some((line@, consumed as nat)),
            None => spec_next_line(chunk@) is None,
        },
{
    let n: usize = chunk.unicode_len();
    if n > 0 && chunk.get_char(n - 1) == '\n' {
        let line = chunk.substring_char(0, n - 1);
        assert(line@ =~= chunk@.drop_last());
        Some((line, chunk.as_bytes().len()))
    } else {
        None
    }
}

impl LogWatcher {
    /// Every session is a valid one.
    #[verifier::type_invariant]
    spec fn well_formed(self) -> bool {
        self@.valid()
    }

    /// Starts a session on `filename` from what opening it gave. The cursor
    /// starts at the end of the file.
    pub fn register(filename: &str, opened: OpenOutcome) -> (r: Result<LogWatcher, OpenFailure>)
        ensures
            match r {
                Ok(w) => spec_register(filename@, opened) == Ok::<WatcherModel, OpenFailure>(w@),
                Err(e) => spec_register(filename@, opened) == Err::<WatcherModel, OpenFailure>(
                    e,
                ),
            },
            r matches Ok(w) ==> w@.valid(),
    {
        match opened {
            OpenOutcome::Opened { unique_id, len } => Ok(
                LogWatcher {
                    filename: filename.to_owned(),
                    unique_id,
                    pos: len,
                    finish: false,
                    state: WatchState::Idle,
                },
            ),
            OpenOutcome::NotFound => Err(OpenFailure::NotFound),
            OpenOutcome::PermissionDenied => Err(OpenFailure::PermissionDenied),
            OpenOutcome::Other => Err(OpenFailure::Other),
        }
    }

    /// The path that is followed.
    pub fn filename(&self) -> (r: &str)
        ensures
            r@ == self@.filename,
    {
        self.filename.as_str()
    }

    /// Identity of the file that is open.
    pub fn unique_id(&self) -> (r: u64)
        ensures
            r == self@.unique_id,
    {
        self.unique_id
    }

    /// Number of bytes of the open file that were consumed.
    pub fn pos(&self) -> (r: u64)
        ensures
            r == self@.pos,
    {
        self.pos
    }

    /// Where the session stands.
    pub fn state(&self) -> (r: WatchState)
        ensures
            r == self@.state,
            self@.valid(),
    {
        proof {
            use_type_invariant(self);
        }
        self.state
    }

    /// Whether the caller asked the session to stop.
    pub fn is_finishing(&self) -> (r: bool)
        ensures
            r == self@.finish,
    {
        self.finish
    }

    /// Asks the session to stop: the next drained file ends it.
    pub fn finish(&mut self)
        ensures
            final(self)@ == (WatcherModel { finish: true, ..old(self)@ }),
            final(self)@.valid(),
    {
        proof {
            use_type_invariant(&*self);
        }
        self.finish = true;
    }

    /// Whether the file that has the identity `current` is another one than
    /// the one that is open.
    pub fn has_rotated(&self, current: u64) -> (r: bool)
        ensures
            r == (current != self@.unique_id),
    {
        current != self.unique_id
    }

    /// Carries out what the consumer of a line asked for; `end` is the
    /// length of the open file.
    pub fn seek(&mut self, action: LogWatcherAction, end: u64)
        ensures
            final(self)@ == spec_seek(old(self)@, action, end),
            final(self)@.valid(),
    {
        proof {
            use_type_invariant(&*self);
        }
        match action {
            LogWatcherAction::NoAction => {},
            LogWatcherAction::SeekToEnd => {
                self.pos = end;
            },
        }
    }

    /// Takes the outcome of one read and decides what comes next.
    pub fn watch(&mut self, mode: WatchMode, read: ReadOutcome) -> (step: WatchStep)
        requires
            read matches ReadOutcome::Data(chunk) ==> old(self)@.pos + byte_len(chunk@)
                <= u64::MAX,
        ensures
            (final(self)@, step@) == spec_watch(old(self)@, mode, read@),
            final(self)@.valid(),
    {
        proof {
            use_type_invariant(&*self);
        }
        match self.state {
            WatchState::Terminated => {
                return WatchStep::Stopped;
            },
            WatchState::Rotating => {
                return WatchStep::CheckRotation;
            },
            _ => {},
        }
        let chunk = match read {
            ReadOutcome::Failed => {
                return WatchStep::ReadFailed;
            },
            ReadOutcome::Data(chunk) => chunk,
        };
        if let Some((line, consumed)) = read_next_line(chunk.as_str()) {
            self.pos = self.pos + consumed as u64;
            match match_line(line) {
                MatchResult::Event(ids) => match mode {
                    WatchMode::Completion => {
                        self.state = WatchState::Terminated;
                        WatchStep::Completed(ids)
                    },
                    WatchMode::Streaming => WatchStep::Line {
                        text: line.to_owned(),
                        matched: MatchResult::Event(ids),
                    },
                },
                MatchResult::NoEvent => WatchStep::Line {
                    text: line.to_owned(),
                    matched: MatchResult::NoEvent,
                },
            }
        } else {
            match self.state {
                WatchState::Draining { next_id } => {
                    if self.finish {
                        self.state = WatchState::Terminated;
                        WatchStep::Stopped
                    } else {
                        self.state = WatchState::Idle;
                        self.unique_id = next_id;
                        self.pos = 0;
                        WatchStep::Reopened
                    }
                },
                _ => WatchStep::CheckRotation,
            }
        }
    }

    /// Takes the outcome of one look at the path and decides what comes
    /// next: whether another file has taken the place of the open one.
    pub fn reopen_if_log_rotated(&mut self, probe: ProbeOutcome) -> (step: RotationStep)
        ensures
            (final(self)@, step) == spec_reopen(old(self)@, probe),
            final(self)@.valid(),
    {
        proof {
            use_type_invariant(&*self);
        }
        match self.state {
            WatchState::Terminated => {
                return RotationStep::Stopped;
            },
            WatchState::Draining { .. } => {
                return RotationStep::Drain;
            },
            _ => {},
        }
        match probe {
            ProbeOutcome::Found { unique_id } => {
                if unique_id != self.unique_id {
                    self.state = WatchState::Draining { next_id: unique_id };
                    RotationStep::Drain
                } else {
                    self.state = WatchState::Idle;
                    RotationStep::Unchanged
                }
            },
            _ => {
                self.state = WatchState::Rotating;
                RotationStep::Retry
            },
        }
    }
}

/// The session after a series of reads, and what was decided after each.
pub open spec fn spec_watch_all(w: WatcherModel, mode: WatchMode, reads: Seq<ReadModel>) -> (
    WatcherModel,
    Seq<StepModel>,
)
    decreases reads.len(),
{
    if reads.len() == 0 {
        (w, Seq::empty())
    } else {
        let (before, steps) = spec_watch_all(w, mode, reads.drop_last());
        let (after, step) = spec_watch(before, mode, reads.last());
        (after, steps.push(step))
    }
}

/// The reads that find the whole lines `chunks`, one after the other.
pub open spec fn reads_of(chunks: Seq<Seq<char>>) -> Seq<ReadModel> {
    Seq::new(chunks.len(), |i: int| ReadModel::Data(chunks[i]))
}

/// A read that found a whole line.
pub open spec fn is_whole(read: ReadModel) -> bool {
    read matches ReadModel::Data(chunk) && is_complete(chunk)
}

/// The reads of `reads` that found a whole line, in their order.
pub open spec fn whole_reads(reads: Seq<ReadModel>) -> Seq<ReadModel>
    decreases reads.len(),
{
    if reads.len() == 0 {
        reads
    } else if is_whole(reads.last()) {
        whole_reads(reads.drop_last()).push(reads.last())
    } else {
        whole_reads(reads.drop_last())
    }
}

/// The steps of `steps` that hand something to the caller: a line or the
/// players of a lobby.
pub open spec fn deliveries(steps: Seq<StepModel>) -> Seq<StepModel>
    decreases steps.len(),
{
    if steps.len() == 0 {
        steps
    } else if steps.last() is Line || steps.last() is Completed {
        deliveries(steps.drop_last()).push(steps.last())
    } else {
        deliveries(steps.drop_last())
    }
}

/// Reading the line `chunk` ends a session in mode `mode`: it announces a
/// lobby, and the session is to end with the first lobby.
pub open spec fn completes(mode: WatchMode, chunk: Seq<char>) -> bool {
    mode == WatchMode::Completion && is_trigger(chunk.drop_last())
}

/// The step that delivers the line `chunk` without ending the session.
pub open spec fn line_step(chunk: Seq<char>) -> StepModel {
    StepModel::Line { text: chunk.drop_last(), matched: spec_match_line(chunk.drop_last()) }
}

/// A session starts at the end of the file: nothing that the file held
/// before is ever read.
pub proof fn lemma_register_starts_at_end(filename: Seq<char>, unique_id: u64, len: u64)
    ensures
        spec_register(filename, OpenOutcome::Opened { unique_id, len }) matches Ok(w) && w.pos
            == len && w.unique_id == unique_id && w.state == WatchState::Idle && !w.finish
            && w.filename == filename && w.valid(),
{
}

/// No step leads out of the valid sessions.
pub proof fn lemma_steps_keep_valid(
    w: WatcherModel,
    mode: WatchMode,
    read: ReadModel,
    probe: ProbeOutcome,
    action: LogWatcherAction,
    end: u64,
)
    requires
        w.valid(),
    ensures
        spec_watch(w, mode, read).0.valid(),
        spec_reopen(w, probe).0.valid(),
        spec_seek(w, action, end).valid(),
        (WatcherModel { finish: true, ..w }).valid(),
{
}

/// A read never turns an idle session into one that waits for the path or
/// drains a file: it stays idle or, with a lobby in completion mode, ends.
pub proof fn lemma_idle_reads_stay_idle(w: WatcherModel, mode: WatchMode, reads: Seq<ReadModel>)
    requires
        w.state is Idle || w.state is Terminated,
    ensures
        ({
            let after = spec_watch_all(w, mode, reads).0;
            &&& after.state is Idle || after.state is Terminated
            &&& after.unique_id == w.unique_id
            &&& after.finish == w.finish
            &&& after.filename == w.filename
            &&& after.pos >= w.pos
        }),
        spec_watch_all(w, mode, reads).1.len() == reads.len(),
    decreases reads.len(),
{
    if reads.len() > 0 {
        lemma_idle_reads_stay_idle(w, mode, reads.drop_last());
    }
}

/// A line that is not terminated yet is not consumed and not delivered, in
/// no part: the cursor stays, and once the rest has arrived the next read
/// delivers the whole line.
pub proof fn lemma_partial_line_is_kept(
    w: WatcherModel,
    mode: WatchMode,
    partial: Seq<char>,
    rest: Seq<char>,
)
    requires
        w.state == WatchState::Idle,
        !is_complete(partial),
        is_complete(partial + rest),
    ensures
        spec_watch(w, mode, ReadModel::Data(partial)) == (w, StepModel::CheckRotation),
        ({
            let whole = partial + rest;
            let before = spec_watch(w, mode, ReadModel::Data(partial)).0;
            let (after, step) = spec_watch(before, mode, ReadModel::Data(whole));
            &&& (after, step) == spec_watch(w, mode, ReadModel::Data(whole))
            &&& after.pos == w.pos + byte_len(whole)
            &&& completes(mode, whole) ==> step == StepModel::Completed(
                spec_match_line(whole.drop_last())->0,
            )
            &&& !completes(mode, whole) ==> step == line_step(whole)
        }),
{
}

/// However the writes of the other process fall, the same lines give the
/// same result. Reads that find no whole line, because the line is still
/// being written or because the read failed, leave an idle session as it is
/// and deliver nothing: the session ends where it would have ended had every
/// read found a whole line, with the same cursor, and has delivered the same
/// lines and players in the same order.
pub proof fn lemma_partial_reads_change_nothing(
    w: WatcherModel,
    mode: WatchMode,
    reads: Seq<ReadModel>,
)
    requires
        w.state is Idle || w.state is Terminated,
    ensures
        spec_watch_all(w, mode, reads).0 == spec_watch_all(w, mode, whole_reads(reads)).0,
        deliveries(spec_watch_all(w, mode, reads).1) == deliveries(
            spec_watch_all(w, mode, whole_reads(reads)).1,
        ),
    decreases reads.len(),
{
    if reads.len() > 0 {
        let init = reads.drop_last();
        lemma_partial_reads_change_nothing(w, mode, init);
        lemma_idle_reads_stay_idle(w, mode, init);
        let (before, steps) = spec_watch_all(w, mode, init);
        let (after, step) = spec_watch(before, mode, reads.last());
        if is_whole(reads.last()) {
            let kept = whole_reads(reads);
            assert(kept.drop_last() =~= whole_reads(init));
            assert(kept.last() == reads.last());
            let (before2, steps2) = spec_watch_all(w, mode, whole_reads(init));
            assert(before2 == before);
            let all = steps.push(step);
            let all2 = steps2.push(step);
            assert(all.drop_last() =~= steps);
            assert(all2.drop_last() =~= steps2);
        } else {
            assert(after == before);
            assert(!(step is Line) && !(step is Completed));
            let all = steps.push(step);
            assert(all.drop_last() =~= steps);
        }
    }
}

/// The cursor goes back to 0 exactly when the identity of the open file
/// changes; as long as the identity stays, a read never moves it back.
pub proof fn lemma_cursor_follows_identity(w: WatcherModel, mode: WatchMode, read: ReadModel)
    requires
        w.valid(),
    ensures
        ({
            let (after, step) = spec_watch(w, mode, read);
            &&& after.unique_id != w.unique_id <==> step is Reopened
            &&& step is Reopened ==> after.pos == 0 && after.state == WatchState::Idle
            &&& after.unique_id == w.unique_id ==> after.pos >= w.pos
            &&& after.pos != w.pos && !(step is Reopened) ==> (step is Line || step is Completed)
        }),
{
}

/// The cursor only ever moves past whole lines: a read that moves it found a
/// line and moves it by the bytes of that line, terminator included.
pub proof fn lemma_cursor_moves_by_whole_lines(w: WatcherModel, mode: WatchMode, read: ReadModel)
    ensures
        ({
            let (after, step) = spec_watch(w, mode, read);
            (step is Line || step is Completed) ==> (read matches ReadModel::Data(chunk)
                && is_complete(chunk) && after.pos == w.pos + byte_len(chunk))
        }),
        ({
            let (after, step) = spec_watch(w, mode, read);
            !(step is Line || step is Completed || step is Reopened) ==> after.pos == w.pos
        }),
{
}

/// A look at the path never moves the cursor and never changes the identity
/// of the open file.
pub proof fn lemma_probe_keeps_cursor(w: WatcherModel, probe: ProbeOutcome)
    ensures
        spec_reopen(w, probe).0.pos == w.pos,
        spec_reopen(w, probe).0.unique_id == w.unique_id,
        spec_reopen(w, probe).0.finish == w.finish,
        spec_reopen(w, probe).0.filename == w.filename,
{
}

/// A missing path is no failure: the session waits and looks again, for as
/// long as it takes.
pub proof fn lemma_missing_path_is_retried(w: WatcherModel, probe: ProbeOutcome)
    requires
        w.state == WatchState::Idle || w.state == WatchState::Rotating,
        probe is NotFound || probe is Failed,
    ensures
        spec_reopen(w, probe) == (
            WatcherModel { state: WatchState::Rotating, ..w },
            RotationStep::Retry,
        ),
{
}

/// A session that is over stays over.
pub proof fn lemma_terminated_is_final(
    w: WatcherModel,
    mode: WatchMode,
    read: ReadModel,
    probe: ProbeOutcome,
)
    requires
        w.state == WatchState::Terminated,
    ensures
        spec_watch(w, mode, read) == (w, StepModel::Stopped),
        spec_reopen(w, probe) == (w, RotationStep::Stopped),
{
}

/// A line that does not announce a lobby never ends a session and is
/// reported as no event: the line is consumed, the session goes on as it was,
/// and a read that finds nothing after it moves nothing.
pub proof fn lemma_plain_line_goes_on(w: WatcherModel, mode: WatchMode, chunk: Seq<char>)
    requires
        w.state == WatchState::Idle,
        is_complete(chunk),
        !is_trigger(chunk.drop_last()),
    ensures
        spec_watch(w, mode, ReadModel::Data(chunk)) == (
            WatcherModel { pos: w.pos + byte_len(chunk), ..w },
            StepModel::Line { text: chunk.drop_last(), matched: None::<Seq<i32>> },
        ),
        spec_watch(
            spec_watch(w, mode, ReadModel::Data(chunk)).0,
            mode,
            ReadModel::Data(Seq::empty()),
        ) == (WatcherModel { pos: w.pos + byte_len(chunk), ..w }, StepModel::CheckRotation),
{
}

/// In completion mode the first lobby line ends the session with its
/// players; in streaming mode it is forwarded like every other line.
pub proof fn lemma_lobby_line_completes(w: WatcherModel, chunk: Seq<char>)
    requires
        w.state is Idle || w.state is Draining,
        is_complete(chunk),
        is_trigger(chunk.drop_last()),
    ensures
        spec_watch(w, WatchMode::Completion, ReadModel::Data(chunk)) == (
            WatcherModel { pos: w.pos + byte_len(chunk), state: WatchState::Terminated, ..w },
            StepModel::Completed(spec_fetch_player_ids(chunk.drop_last())),
        ),
        spec_watch(w, WatchMode::Streaming, ReadModel::Data(chunk)) == (
            WatcherModel { pos: w.pos + byte_len(chunk), ..w },
            line_step(chunk),
        ),
{
}

/// As long as no line ends the session, whole lines come out one for one
/// and in the order in which they were read, and the cursor moves by their
/// bytes. This holds while a file is read and while an old file is drained.
pub proof fn lemma_lines_stream_in_order(
    w: WatcherModel,
    mode: WatchMode,
    chunks: Seq<Seq<char>>,
)
    requires
        w.state is Idle || w.state is Draining,
        forall|i: int| 0 <= i < chunks.len() ==> is_complete(#[trigger] chunks[i]),
        forall|i: int| 0 <= i < chunks.len() ==> !completes(mode, #[trigger] chunks[i]),
    ensures
        ({
            let (after, steps) = spec_watch_all(w, mode, reads_of(chunks));
            &&& after == WatcherModel { pos: w.pos + total_byte_len(chunks), ..w }
            &&& steps.len() == chunks.len()
            &&& forall|i: int| 0 <= i < chunks.len() ==> #[trigger] steps[i] == line_step(chunks[i])
        }),
    decreases chunks.len(),
{
    if chunks.len() > 0 {
        let init = chunks.drop_last();
        assert forall|i: int| 0 <= i < init.len() implies is_complete(#[trigger] init[i])
            && !completes(mode, init[i]) by {
            assert(init[i] == chunks[i]);
        }
        lemma_lines_stream_in_order(w, mode, init);
        assert(reads_of(chunks).drop_last() =~= reads_of(init));
        assert(reads_of(chunks).last() == ReadModel::Data(chunks.last()));
        assert(is_complete(chunks.last()) && !completes(mode, chunks.last()));
        let (before, steps_before) = spec_watch_all(w, mode, reads_of(init));
        let (after, steps) = spec_watch_all(w, mode, reads_of(chunks));
        assert forall|i: int| 0 <= i < chunks.len() implies #[trigger] steps[i] == line_step(
            chunks[i],
        ) by {
            if i < init.len() {
                assert(steps[i] == steps_before[i]);
                assert(init[i] == chunks[i]);
            }
        }
    }
}

/// In completion mode a session delivers every line up to the first lobby
/// line in order, and ends with the players of that line, the cursor behind
/// it.
pub proof fn lemma_first_lobby_line_completes(w: WatcherModel, chunks: Seq<Seq<char>>)
    requires
        w.state is Idle || w.state is Draining,
        chunks.len() > 0,
        forall|i: int| 0 <= i < chunks.len() ==> is_complete(#[trigger] chunks[i]),
        forall|i: int| 0 <= i < chunks.len() - 1 ==> !is_trigger(#[trigger] chunks[i].drop_last()),
        is_trigger(chunks.last().drop_last()),
    ensures
        ({
            let (after, steps) = spec_watch_all(w, WatchMode::Completion, reads_of(chunks));
            &&& after == WatcherModel {
                pos: w.pos + total_byte_len(chunks),
                state: WatchState::Terminated,
                ..w
            }
            &&& steps.len() == chunks.len()
            &&& forall|i: int|
                0 <= i < chunks.len() - 1 ==> #[trigger] steps[i] == line_step(chunks[i])
            &&& steps.last() == StepModel::Completed(
                spec_fetch_player_ids(chunks.last().drop_last()),
            )
        }),
{
    let init = chunks.drop_last();
    assert forall|i: int| 0 <= i < init.len() implies is_complete(#[trigger] init[i])
        && !completes(WatchMode::Completion, init[i]) by {
        assert(init[i] == chunks[i]);
        assert(!is_trigger(chunks[i].drop_last()));
    }
    lemma_lines_stream_in_order(w, WatchMode::Completion, init);
    assert(reads_of(chunks).drop_last() =~= reads_of(init));
    assert(reads_of(chunks).last() == ReadModel::Data(chunks.last()));
    let (before, steps_before) = spec_watch_all(w, WatchMode::Completion, reads_of(init));
    lemma_lobby_line_completes(before, chunks.last());
    let (after, steps) = spec_watch_all(w, WatchMode::Completion, reads_of(chunks));
    assert forall|i: int| 0 <= i < chunks.len() - 1 implies #[trigger] steps[i] == line_step(
        chunks[i],
    ) by {
        assert(steps[i] == steps_before[i]);
        assert(init[i] == chunks[i]);
    }
}

/// Across a rotation nothing is lost and nothing changes place: once another
/// file is found at the path, the lines still left in the old file are
/// delivered in order, and only when the old file is quiet does the session
/// take up the new file, at byte 0 and under its identity. Then the lines of
/// the new file follow in their order, counted from its first byte.
pub proof fn lemma_rotation_continuity(
    w: WatcherModel,
    mode: WatchMode,
    next_id: u64,
    left: Seq<Seq<char>>,
    fresh: Seq<Seq<char>>,
)
    requires
        w.state == WatchState::Idle || w.state == WatchState::Rotating,
        !w.finish,
        next_id != w.unique_id,
        forall|i: int| 0 <= i < left.len() ==> is_complete(#[trigger] left[i]),
        forall|i: int| 0 <= i < left.len() ==> !completes(mode, #[trigger] left[i]),
        forall|i: int| 0 <= i < fresh.len() ==> is_complete(#[trigger] fresh[i]),
        forall|i: int| 0 <= i < fresh.len() ==> !completes(mode, #[trigger] fresh[i]),
    ensures
        ({
            let (found, rotation) = spec_reopen(w, ProbeOutcome::Found { unique_id: next_id });
            let (drained, old_steps) = spec_watch_all(found, mode, reads_of(left));
            let (reopened, switch) = spec_watch(drained, mode, ReadModel::Data(Seq::empty()));
            let (after, new_steps) = spec_watch_all(reopened, mode, reads_of(fresh));
            &&& rotation == RotationStep::Drain
            &&& found.state == WatchState::Draining { next_id }
            &&& old_steps.len() == left.len()
            &&& forall|i: int| 0 <= i < left.len() ==> #[trigger] old_steps[i] == line_step(left[i])
            &&& drained.unique_id == w.unique_id
            &&& drained.pos == w.pos + total_byte_len(left)
            &&& switch == StepModel::Reopened
            &&& reopened == WatcherModel {
                unique_id: next_id,
                pos: 0,
                state: WatchState::Idle,
                ..w
            }
            &&& new_steps.len() == fresh.len()
            &&& forall|i: int|
                0 <= i < fresh.len() ==> #[trigger] new_steps[i] == line_step(fresh[i])
            &&& after == WatcherModel {
                unique_id: next_id,
                pos: total_byte_len(fresh),
                state: WatchState::Idle,
                ..w
            }
        }),
{
    let (found, rotation) = spec_reopen(w, ProbeOutcome::Found { unique_id: next_id });
    lemma_lines_stream_in_order(found, mode, left);
    let (drained, old_steps) = spec_watch_all(found, mode, reads_of(left));
    let (reopened, switch) = spec_watch(drained, mode, ReadModel::Data(Seq::empty()));
    lemma_lines_stream_in_order(reopened, mode, fresh);
}

/// A lobby that is announced in the new file after a rotation ends a session
/// in completion mode with its players, under the identity of the new file:
/// the lines left in the old file and the lines of the new file before the
/// lobby have all been delivered, in that order.
pub proof fn lemma_rotation_then_lobby(
    w: WatcherModel,
    next_id: u64,
    left: Seq<Seq<char>>,
    fresh: Seq<Seq<char>>,
)
    requires
        w.state == WatchState::Idle || w.state == WatchState::Rotating,
        !w.finish,
        next_id != w.unique_id,
        forall|i: int| 0 <= i < left.len() ==> is_complete(#[trigger] left[i]),
        forall|i: int| 0 <= i < left.len() ==> !is_trigger(#[trigger] left[i].drop_last()),
        fresh.len() > 0,
        forall|i: int| 0 <= i < fresh.len() ==> is_complete(#[trigger] fresh[i]),
        forall|i: int| 0 <= i < fresh.len() - 1 ==> !is_trigger(#[trigger] fresh[i].drop_last()),
        is_trigger(fresh.last().drop_last()),
    ensures
        ({
            let mode = WatchMode::Completion;
            let (found, rotation) = spec_reopen(w, ProbeOutcome::Found { unique_id: next_id });
            let (drained, old_steps) = spec_watch_all(found, mode, reads_of(left));
            let (reopened, switch) = spec_watch(drained, mode, ReadModel::Data(Seq::empty()));
            let (after, new_steps) = spec_watch_all(reopened, mode, reads_of(fresh));
            &&& old_steps.len() == left.len()
            &&& forall|i: int| 0 <= i < left.len() ==> #[trigger] old_steps[i] == line_step(left[i])
            &&& switch == StepModel::Reopened
            &&& reopened.pos == 0
            &&& new_steps.len() == fresh.len()
            &&& forall|i: int|
                0 <= i < fresh.len() - 1 ==> #[trigger] new_steps[i] == line_step(fresh[i])
            &&& new_steps.last() == StepModel::Completed(
                spec_fetch_player_ids(fresh.last().drop_last()),
            )
            &&& after == WatcherModel {
                unique_id: next_id,
                pos: total_byte_len(fresh),
                state: WatchState::Terminated,
                ..w
            }
        }),
{
    let mode = WatchMode::Completion;
    let (found, rotation) = spec_reopen(w, ProbeOutcome::Found { unique_id: next_id });
    assert forall|i: int| 0 <= i < left.len() implies !completes(mode, #[trigger] left[i]) by {
        assert(!is_trigger(left[i].drop_last()));
    }
    lemma_lines_stream_in_order(found, mode, left);
    let (drained, old_steps) = spec_watch_all(found, mode, reads_of(left));
    let (reopened, switch) = spec_watch(drained, mode, ReadModel::Data(Seq::empty()));
    lemma_first_lobby_line_completes(reopened, fresh);
}

/// A session that was asked to stop ends where it would otherwise take up
/// the new file.
pub proof fn lemma_finish_ends_at_rotation(w: WatcherModel, mode: WatchMode, partial: Seq<char>)
    requires
        w.state is Draining,
        w.finish,
        !is_complete(partial),
    ensures
        spec_watch(w, mode, ReadModel::Data(partial)) == (
            WatcherModel { state: WatchState::Terminated, ..w },
            StepModel::Stopped,
        ),
{
}

} // verus!
