use vstd::prelude::*;
use crate::music_library::{Song, SongView};

verus! {

/// The single source of truth for what the system is doing with audio.
/// `Starting` and `Skip` are transient: a command that observes one of them
/// treats the player as busy and mutates nothing (`stop` excepted).
pub enum PlayerState {
    Stopped,
    Starting,
    Skip(Song),
    Paused(Song),
    Playing(Song),
}

/// The mathematical value of a playback state: the variant with the song
/// snapshot's fields as plain values.
pub enum StateView {
    Stopped,
    Starting,
    Skip(SongView),
    Paused(SongView),
    Playing(SongView),
}

impl View for PlayerState {
    type V = StateView;

    open spec fn view(&self) -> StateView {
        match self {
            PlayerState::Stopped => StateView::Stopped,
            PlayerState::Starting => StateView::Starting,
            PlayerState::Skip(s) => StateView::Skip(s@),
            PlayerState::Paused(s) => StateView::Paused(s@),
            PlayerState::Playing(s) => StateView::Playing(s@),
        }
    }
}

impl Clone for PlayerState {
    fn clone(&self) -> (r: Self)
        ensures
            r == *self,
    {
        match self {
            PlayerState::Stopped => PlayerState::Stopped,
            PlayerState::Starting => PlayerState::Starting,
            PlayerState::Skip(s) => PlayerState::Skip(s.clone()),
            PlayerState::Paused(s) => PlayerState::Paused(s.clone()),
            PlayerState::Playing(s) => PlayerState::Playing(s.clone()),
        }
    }
}

/// The playback verbs a command invocation can issue.
#[derive(Clone, Copy, PartialEq, Eq, Debug, Structural)]
pub enum Verb {
    Play,
    Pause,
    Resume,
    Skip,
    Stop,
    Status,
}

/// What peeking at the head of the queue store gave: the store could not be
/// read at all, it was empty, or its first song.
pub enum PeekResult {
    Unavailable,
    Empty,
    Head(Song),
}

/// What a command reports back to the user, beyond any state write.
#[derive(Clone, Copy, PartialEq, Eq, Debug, Structural)]
pub enum Message {
    AlreadyPlaying,
    AlreadyPaused,
    NoSongPlaying,
    QueueEmpty,
    QueueUnavailable,
    Busy,
    StartingPlayback,
}

/// Everything a verb decides: the state to persist (`None`: leave the store
/// untouched), whether to launch the playback worker, and what to report.
pub struct CommandOutcome {
    pub write: Option<PlayerState>,
    pub start_worker: bool,
    pub message: Option<Message>,
}

/// The transition table: for every state and verb, the outcome the command
/// dispatcher owes. Total over the five-state domain; no state/verb pair is
/// left undefined.
pub open spec fn spec_dispatch(st: PlayerState, v: Verb, peek: PeekResult) -> CommandOutcome {
    match v {
        Verb::Play => match st {
            PlayerState::Stopped => match peek {
                PeekResult::Head(song) => CommandOutcome {
                    write: Some(PlayerState::Playing(song)),
                    start_worker: true,
                    message: Some(Message::StartingPlayback),
                },
                PeekResult::Empty => CommandOutcome {
                    write: None,
                    start_worker: false,
                    message: Some(Message::QueueEmpty),
                },
                PeekResult::Unavailable => CommandOutcome {
                    write: None,
                    start_worker: false,
                    message: Some(Message::QueueUnavailable),
                },
            },
            PlayerState::Playing(_) => CommandOutcome {
                write: None,
                start_worker: false,
                message: Some(Message::AlreadyPlaying),
            },
            PlayerState::Paused(song) => CommandOutcome {
                write: Some(PlayerState::Playing(song)),
                start_worker: false,
                message: None,
            },
            _ => busy_outcome(),
        },
        Verb::Pause => match st {
            PlayerState::Playing(song) => CommandOutcome {
                write: Some(PlayerState::Paused(song)),
                start_worker: false,
                message: None,
            },
            PlayerState::Paused(_) => CommandOutcome {
                write: None,
                start_worker: false,
                message: Some(Message::AlreadyPaused),
            },
            PlayerState::Stopped => no_song_outcome(),
            _ => busy_outcome(),
        },
        Verb::Resume => match st {
            PlayerState::Paused(song) => CommandOutcome {
                write: Some(PlayerState::Playing(song)),
                start_worker: false,
                message: None,
            },
            PlayerState::Playing(_) => CommandOutcome {
                write: None,
                start_worker: false,
                message: Some(Message::AlreadyPlaying),
            },
            PlayerState::Stopped => no_song_outcome(),
            _ => busy_outcome(),
        },
        Verb::Skip => match st {
            PlayerState::Playing(song) => CommandOutcome {
                write: Some(PlayerState::Skip(song)),
                start_worker: false,
                message: None,
            },
            PlayerState::Paused(song) => CommandOutcome {
                write: Some(PlayerState::Skip(song)),
                start_worker: false,
                message: None,
            },
            PlayerState::Stopped => no_song_outcome(),
            _ => busy_outcome(),
        },
        Verb::Stop => CommandOutcome {
            write: Some(PlayerState::Stopped),
            start_worker: false,
            message: None,
        },
        Verb::Status => CommandOutcome { write: None, start_worker: false, message: None },
    }
}

pub open spec fn busy_outcome() -> CommandOutcome {
    CommandOutcome { write: None, start_worker: false, message: Some(Message::Busy) }
}

pub open spec fn no_song_outcome() -> CommandOutcome {
    CommandOutcome { write: None, start_worker: false, message: Some(Message::NoSongPlaying) }
}

/// The state the store holds after a verb: what the verb wrote, or the old
/// state where it wrote nothing.
pub open spec fn next_state(st: PlayerState, v: Verb, peek: PeekResult) -> PlayerState {
    match spec_dispatch(st, v, peek).write {
        Some(s) => s,
        None => st,
    }
}

/// The state after a whole sequence of verbs, each answered from the same
/// queue peek.
pub open spec fn run_verbs(st: PlayerState, verbs: Seq<Verb>, peek: PeekResult) -> PlayerState
    decreases verbs.len(),
{
    if verbs.len() == 0 {
        st
    } else {
        run_verbs(next_state(st, verbs[0], peek), verbs.drop_first(), peek)
    }
}

/// Each state knows how to answer each verb; the dispatcher is polymorphic
/// over the current capability.
pub trait PlayerAction {
    /// The playback state this capability acts for.
    spec fn current(&self) -> PlayerState;

    /// Begin playback: from `Stopped` take the queue's head; from `Paused`
    /// resume; report a no-op otherwise.
    fn play(&self, peek: PeekResult) -> (r: CommandOutcome)
        ensures
            r == spec_dispatch(self.current(), Verb::Play, peek),
    ;

    /// Suspend output; meaningful only while playing.
    fn pause(&self) -> (r: CommandOutcome)
        ensures
            r == spec_dispatch(self.current(), Verb::Pause, PeekResult::Empty),
    ;

    /// Continue suspended output; meaningful only while paused.
    fn resume(&self) -> (r: CommandOutcome)
        ensures
            r == spec_dispatch(self.current(), Verb::Resume, PeekResult::Empty),
    ;

    /// Ask the worker to advance past the active song.
    fn skip(&self) -> (r: CommandOutcome)
        ensures
            r == spec_dispatch(self.current(), Verb::Skip, PeekResult::Empty),
    ;

    /// Halt playback; writes `Stopped` whatever the current state.
    fn stop(&self) -> (r: CommandOutcome)
        ensures
            r == spec_dispatch(self.current(), Verb::Stop, PeekResult::Empty),
    ;

    /// Render the current state; a pure read, never a write.
    fn status(&self) -> (r: PlayerState)
        ensures
            r == self.current(),
    ;
}

/// The command dispatcher: holds the state a command invocation observed and
/// answers the verbs for it.
pub struct Player {
    pub state: PlayerState,
}

impl Player {
    /// Build the dispatcher for an observed state. The state store's reader
    /// hands over `Stopped` where the record was missing or malformed.
    pub fn load(state: PlayerState) -> (r: Player)
        ensures
            r.state == state,
    {
        Player { state }
    }
}

impl PlayerAction for Player {
    open spec fn current(&self) -> PlayerState {
        self.state
    }

    fn play(&self, peek: PeekResult) -> (r: CommandOutcome) {
        match &self.state {
            PlayerState::Stopped => match peek {
                PeekResult::Head(song) => CommandOutcome {
                    write: Some(PlayerState::Playing(song)),
                    start_worker: true,
                    message: Some(Message::StartingPlayback),
                },
                PeekResult::Empty => CommandOutcome {
                    write: None,
                    start_worker: false,
                    message: Some(Message::QueueEmpty),
                },
                PeekResult::Unavailable => CommandOutcome {
                    write: None,
                    start_worker: false,
                    message: Some(Message::QueueUnavailable),
                },
            },
            PlayerState::Playing(_) => CommandOutcome {
                write: None,
                start_worker: false,
                message: Some(Message::AlreadyPlaying),
            },
            PlayerState::Paused(song) => CommandOutcome {
                write: Some(PlayerState::Playing(song.clone())),
                start_worker: false,
                message: None,
            },
            _ => CommandOutcome {
                write: None,
                start_worker: false,
                message: Some(Message::Busy),
            },
        }
    }

    fn pause(&self) -> (r: CommandOutcome) {
        match &self.state {
            PlayerState::Playing(song) => CommandOutcome {
                write: Some(PlayerState::Paused(song.clone())),
                start_worker: false,
                message: None,
            },
            PlayerState::Paused(_) => CommandOutcome {
                write: None,
                start_worker: false,
                message: Some(Message::AlreadyPaused),
            },
            PlayerState::Stopped => CommandOutcome {
                write: None,
                start_worker: false,
                message: Some(Message::NoSongPlaying),
            },
            _ => CommandOutcome {
                write: None,
                start_worker: false,
                message: Some(Message::Busy),
            },
        }
    }

    fn resume(&self) -> (r: CommandOutcome) {
        match &self.state {
            PlayerState::Paused(song) => CommandOutcome {
                write: Some(PlayerState::Playing(song.clone())),
                start_worker: false,
                message: None,
            },
            PlayerState::Playing(_) => CommandOutcome {
                write: None,
                start_worker: false,
                message: Some(Message::AlreadyPlaying),
            },
            PlayerState::Stopped => CommandOutcome {
                write: None,
                start_worker: false,
                message: Some(Message::NoSongPlaying),
            },
            _ => CommandOutcome {
                write: None,
                start_worker: false,
                message: Some(Message::Busy),
            },
        }
    }

    fn skip(&self) -> (r: CommandOutcome) {
        match &self.state {
            PlayerState::Playing(song) => CommandOutcome {
                write: Some(PlayerState::Skip(song.clone())),
                start_worker: false,
                message: None,
            },
            PlayerState::Paused(song) => CommandOutcome {
                write: Some(PlayerState::Skip(song.clone())),
                start_worker: false,
                message: None,
            },
            PlayerState::Stopped => CommandOutcome {
                write: None,
                start_worker: false,
                message: Some(Message::NoSongPlaying),
            },
            _ => CommandOutcome {
                write: None,
                start_worker: false,
                message: Some(Message::Busy),
            },
        }
    }

    fn stop(&self) -> (r: CommandOutcome) {
        CommandOutcome {
            write: Some(PlayerState::Stopped),
            start_worker: false,
            message: None,
        }
    }

    fn status(&self) -> (r: PlayerState) {
        self.state.clone()
    }
}

/// The song a state carries, if its variant carries one.
pub open spec fn spec_song_of(st: PlayerState) -> Option<Song> {
    match st {
        PlayerState::Playing(s) => Some(s),
        PlayerState::Paused(s) => Some(s),
        PlayerState::Skip(s) => Some(s),
        _ => None,
    }
}

/// The status line for a state.
pub open spec fn spec_render_status(st: PlayerState) -> Seq<char> {
    match st {
        PlayerState::Playing(s) => "Playing: "@ + s.name@ + " by "@ + s.artist@,
        PlayerState::Paused(s) => "Paused: "@ + s.name@ + " by "@ + s.artist@,
        PlayerState::Skip(s) => "Skipping: "@ + s.name@ + " by "@ + s.artist@,
        PlayerState::Starting => "Starting playback"@,
        PlayerState::Stopped => "No songs playing"@,
    }
}

/// Render the status line for a state: what the status verb shows.
pub fn render_status(state: &PlayerState) -> (r: String)
    ensures
        r@ == spec_render_status(*state),
{
    let mut r = String::new();
    match state {
        PlayerState::Playing(s) => {
            r.append("Playing: ");
            r.append(s.name.as_str());
            r.append(" by ");
            r.append(s.artist.as_str());
        },
        PlayerState::Paused(s) => {
            r.append("Paused: ");
            r.append(s.name.as_str());
            r.append(" by ");
            r.append(s.artist.as_str());
        },
        PlayerState::Skip(s) => {
            r.append("Skipping: ");
            r.append(s.name.as_str());
            r.append(" by ");
            r.append(s.artist.as_str());
        },
        PlayerState::Starting => {
            r.append("Starting playback");
        },
        PlayerState::Stopped => {
            r.append("No songs playing");
        },
    }
    proof {
        assert(r@ =~= spec_render_status(*state));
    }
    r
}

/// The text for a report, against the state it was issued from.
pub open spec fn spec_render_message(st: PlayerState, m: Message) -> Seq<char> {
    match m {
        Message::AlreadyPlaying => match spec_song_of(st) {
            Some(s) => s.name@ + " by "@ + s.artist@ + " is already playing"@,
            None => "Already playing"@,
        },
        Message::AlreadyPaused => match spec_song_of(st) {
            Some(s) => s.name@ + " by "@ + s.artist@ + " is already paused"@,
            None => "Already paused"@,
        },
        Message::NoSongPlaying => "No song playing"@,
        Message::QueueEmpty => "Queue is empty!"@,
        Message::QueueUnavailable => "Error loading queue"@,
        Message::Busy => "Player is busy, try again"@,
        Message::StartingPlayback => "Starting Playback"@,
    }
}

/// Render a report for the user, naming the active song where the report
/// is about one.
pub fn render_message(state: &PlayerState, m: Message) -> (r: String)
    ensures
        r@ == spec_render_message(*state, m),
{
    let mut r = String::new();
    match m {
        Message::AlreadyPlaying => {
            match state {
                PlayerState::Playing(s) | PlayerState::Paused(s) | PlayerState::Skip(s) => {
                    r.append(s.name.as_str());
                    r.append(" by ");
                    r.append(s.artist.as_str());
                    r.append(" is already playing");
                },
                _ => {
                    r.append("Already playing");
                },
            }
        },
        Message::AlreadyPaused => {
            match state {
                PlayerState::Playing(s) | PlayerState::Paused(s) | PlayerState::Skip(s) => {
                    r.append(s.name.as_str());
                    r.append(" by ");
                    r.append(s.artist.as_str());
                    r.append(" is already paused");
                },
                _ => {
                    r.append("Already paused");
                },
            }
        },
        Message::NoSongPlaying => {
            r.append("No song playing");
        },
        Message::QueueEmpty => {
            r.append("Queue is empty!");
        },
        Message::QueueUnavailable => {
            r.append("Error loading queue");
        },
        Message::Busy => {
            r.append("Player is busy, try again");
        },
        Message::StartingPlayback => {
            r.append("Starting Playback");
        },
    }
    proof {
        assert(r@ =~= spec_render_message(*state, m));
    }
    r
}

/// The worker's liveness marker: the recorded process identity of the one
/// playback worker allowed to run at a time.
pub struct WorkerHandle {
    pub pid: u32,
}

/// Whether starting a worker is permitted: only where no handle is recorded,
/// or the recorded process is no longer alive. A stale marker never blocks a
/// new worker; a live one always does.
pub open spec fn spec_worker_start_allowed(handle: Option<WorkerHandle>, alive: bool) -> bool {
    match handle {
        Some(_) => !alive,
        None => true,
    }
}

/// Decide whether to spawn a worker, given the recorded handle and whether
/// its process was confirmed alive by the caller's liveness check.
pub fn worker_start_allowed(handle: &Option<WorkerHandle>, alive: bool) -> (r: bool)
    ensures
        r == spec_worker_start_allowed(*handle, alive),
{
    match handle {
        Some(_) => !alive,
        None => true,
    }
}

/// No second worker while one is alive: whenever a live handle exists, the
/// start decision refuses, so no second sink-owning process is spawned.
pub proof fn lemma_singleton_worker(handle: Option<WorkerHandle>, alive: bool)
    requires
        handle is Some,
        alive,
    ensures
        !spec_worker_start_allowed(handle, alive),
{
}

/// Invalid transitions never mutate state: for every state/verb pair the
/// table marks as a no-op, the dispatcher writes nothing.
pub proof fn lemma_invalid_transitions_do_not_mutate(st: PlayerState, v: Verb, peek: PeekResult)
    ensures
        v == Verb::Play && st is Playing ==> spec_dispatch(st, v, peek).write is None,
        v == Verb::Pause && !(st is Playing) ==> spec_dispatch(st, v, peek).write is None,
        v == Verb::Resume && !(st is Paused) ==> spec_dispatch(st, v, peek).write is None,
        v == Verb::Skip && !(st is Playing || st is Paused) ==> spec_dispatch(
            st,
            v,
            peek,
        ).write is None,
        v == Verb::Status ==> spec_dispatch(st, v, peek).write is None,
        (st is Skip || st is Starting) && v != Verb::Stop ==> spec_dispatch(
            st,
            v,
            peek,
        ).write is None,
{
}

/// Playing on an empty queue is a pure no-op: the state store is not
/// written, no worker is started, and the answer is the empty-queue report.
pub proof fn lemma_play_on_empty_queue()
    ensures
        spec_dispatch(PlayerState::Stopped, Verb::Play, PeekResult::Empty) == (CommandOutcome {
            write: None,
            start_worker: false,
            message: Some(Message::QueueEmpty),
        }),
{
}

/// Stopping is idempotent: `stop` writes `Stopped` from every state and
/// reports no error, and a second `stop` right after does the same.
pub proof fn lemma_stop_idempotent(st: PlayerState, peek: PeekResult)
    ensures
        spec_dispatch(st, Verb::Stop, peek).write == Some(PlayerState::Stopped),
        spec_dispatch(st, Verb::Stop, peek).message is None,
        spec_dispatch(next_state(st, Verb::Stop, peek), Verb::Stop, peek).write == Some(
            PlayerState::Stopped,
        ),
        spec_dispatch(next_state(st, Verb::Stop, peek), Verb::Stop, peek).message is None,
{
}

/// A sequence of verbs is the step-by-step walk of the table: the state
/// after `verbs` then one more verb `v` is one table step from the state
/// after `verbs` alone.
pub proof fn lemma_run_verbs_step(st: PlayerState, verbs: Seq<Verb>, v: Verb, peek: PeekResult)
    ensures
        run_verbs(st, verbs.push(v), peek) == next_state(run_verbs(st, verbs, peek), v, peek),
    decreases verbs.len(),
{
    if verbs.len() == 0 {
        assert(verbs.push(v)[0] == v);
        assert(verbs.push(v).drop_first() =~= Seq::<Verb>::empty());
        assert(run_verbs(st, verbs.push(v), peek) == run_verbs(
            next_state(st, v, peek),
            Seq::<Verb>::empty(),
            peek,
        ));
        assert(run_verbs(next_state(st, v, peek), Seq::<Verb>::empty(), peek) == next_state(
            st,
            v,
            peek,
        ));
        assert(run_verbs(st, verbs, peek) == st);
    } else {
        assert(verbs.push(v)[0] == verbs[0]);
        assert(verbs.push(v).drop_first() =~= verbs.drop_first().push(v));
        lemma_run_verbs_step(next_state(st, verbs[0], peek), verbs.drop_first(), v, peek);
    }
}

/// The dispatcher never writes the transient `Starting` state: commands
/// alone, in any number, cannot move the store to `Starting`.
pub proof fn lemma_run_verbs_never_starting(st: PlayerState, verbs: Seq<Verb>, peek: PeekResult)
    requires
        !(st is Starting),
    ensures
        !(run_verbs(st, verbs, peek) is Starting),
    decreases verbs.len(),
{
    if verbs.len() > 0 {
        lemma_run_verbs_never_starting(next_state(st, verbs[0], peek), verbs.drop_first(), peek);
    }
}

} // verus!
