use vstd::prelude::*;
use crate::music_library::Song;
use crate::player::PlayerState;
use crate::queue::Queue;

verus! {

/// What one reconciliation pass decides, before any queue work: resume or
/// pause the sink, advance the queue, shut down, or wait for the next tick.
#[derive(Clone, Copy, PartialEq, Eq, Debug, Structural)]
pub enum TickPlan {
    /// The sink is paused but the state asks for playback: resume it.
    ResumeSink,
    /// The sink ran dry while playing, or a skip was requested: pop the
    /// queue and begin the next song. On a skip the sink is stopped first
    /// and a failed pop is still persisted.
    AdvanceQueue { from_skip: bool },
    /// The state asks for a pause the sink has not made yet.
    PauseSink,
    /// The state is `Stopped`: flush the sink if it still holds audio and
    /// leave the loop.
    Shutdown { stop_sink: bool },
    /// Nothing to reconcile this tick.
    Wait,
}

/// The plan for one tick, from the observed state and sink alone.
pub open spec fn spec_plan_tick(st: PlayerState, sink_paused: bool, sink_empty: bool) -> TickPlan {
    match st {
        PlayerState::Playing(_) => if sink_paused {
            TickPlan::ResumeSink
        } else if sink_empty {
            TickPlan::AdvanceQueue { from_skip: false }
        } else {
            TickPlan::Wait
        },
        PlayerState::Paused(_) => if !sink_paused {
            TickPlan::PauseSink
        } else {
            TickPlan::Wait
        },
        PlayerState::Skip(_) => TickPlan::AdvanceQueue { from_skip: true },
        PlayerState::Stopped => TickPlan::Shutdown { stop_sink: !sink_empty },
        PlayerState::Starting => TickPlan::Wait,
    }
}

/// Decide what this tick does, from the loaded state and the sink's two
/// observable facts: whether it is paused and whether it has run dry.
pub fn plan_tick(state: &PlayerState, sink_paused: bool, sink_empty: bool) -> (r: TickPlan)
    ensures
        r == spec_plan_tick(*state, sink_paused, sink_empty),
{
    match state {
        PlayerState::Playing(_) => if sink_paused {
            TickPlan::ResumeSink
        } else if sink_empty {
            TickPlan::AdvanceQueue { from_skip: false }
        } else {
            TickPlan::Wait
        },
        PlayerState::Paused(_) => if !sink_paused {
            TickPlan::PauseSink
        } else {
            TickPlan::Wait
        },
        PlayerState::Skip(_) => TickPlan::AdvanceQueue { from_skip: true },
        PlayerState::Stopped => TickPlan::Shutdown { stop_sink: !sink_empty },
        PlayerState::Starting => TickPlan::Wait,
    }
}

/// Everything one reconciliation pass asks of its surroundings, in the
/// order the worker performs it: sink commands first, then the song to
/// decode and append, then the queue and state writes, then termination.
pub struct TickOutcome {
    /// Resume the paused sink.
    pub resume_sink: bool,
    /// Pause the running sink.
    pub pause_sink: bool,
    /// Stop the sink, discarding whatever it still holds.
    pub stop_sink: bool,
    /// Decode this song's file and append it to the sink; it is the song
    /// just popped from the queue, and its file was confirmed to open.
    pub begin_song: Option<Song>,
    /// Persist the popped queue, before the state write that follows it.
    pub persist_queue: bool,
    /// Persist this playback state.
    pub write: Option<PlayerState>,
    /// Leave the reconciliation loop after the writes.
    pub terminate: bool,
}

/// An outcome that touches nothing: for the ticks with nothing to do.
pub open spec fn idle_outcome() -> TickOutcome {
    TickOutcome {
        resume_sink: false,
        pause_sink: false,
        stop_sink: false,
        begin_song: None,
        persist_queue: false,
        write: None,
        terminate: false,
    }
}

/// The whole tick as a function: from the loaded state, the sink facts, the
/// loaded queue and whether the queue's head song could be opened, to the
/// outcome and the queue left behind. `head_opens` is consulted only on the
/// ticks that pop.
pub open spec fn spec_reconcile(
    st: PlayerState,
    sink_paused: bool,
    sink_empty: bool,
    q: Seq<Song>,
    head_opens: bool,
) -> (TickOutcome, Seq<Song>) {
    match spec_plan_tick(st, sink_paused, sink_empty) {
        TickPlan::ResumeSink => (TickOutcome { resume_sink: true, ..idle_outcome() }, q),
        TickPlan::PauseSink => (TickOutcome { pause_sink: true, ..idle_outcome() }, q),
        TickPlan::Shutdown { stop_sink } => (
            TickOutcome { stop_sink, terminate: true, ..idle_outcome() },
            q,
        ),
        TickPlan::Wait => (idle_outcome(), q),
        TickPlan::AdvanceQueue { from_skip } => if q.len() == 0 {
            // The queue has run out: stop the sink, park the state at
            // `Stopped`, and let the worker exit.
            (
                TickOutcome {
                    stop_sink: true,
                    write: Some(PlayerState::Stopped),
                    terminate: true,
                    ..idle_outcome()
                },
                q,
            )
        } else if head_opens {
            // The popped song decodes: hand it to the sink, persist the pop
            // before committing the `Playing` state that follows it.
            (
                TickOutcome {
                    stop_sink: from_skip,
                    begin_song: Some(q[0]),
                    persist_queue: true,
                    write: Some(PlayerState::Playing(q[0])),
                    ..idle_outcome()
                },
                q.drop_first(),
            )
        } else {
            // The popped song cannot be opened: advance past it rather than
            // halting. A skip sweep persists the pop so the bad entry cannot
            // re-enter the queue; a pop out of `Playing` leaves the store
            // untouched and lets the following skip sweep consume the entry.
            (
                TickOutcome {
                    stop_sink: from_skip,
                    persist_queue: from_skip,
                    write: Some(PlayerState::Skip(q[0])),
                    ..idle_outcome()
                },
                q.drop_first(),
            )
        },
    }
}

/// Reconcile the sink with the desired state, once. The caller performs the
/// outcome's sink commands and writes in the order of its fields, sleeps one
/// tick and calls again, until the outcome says to terminate.
pub fn reconcile_tick(
    state: &PlayerState,
    sink_paused: bool,
    sink_empty: bool,
    queue: &mut Queue,
    head_opens: bool,
) -> (r: TickOutcome)
    ensures
        (r, final(queue)@) == spec_reconcile(
            *state,
            sink_paused,
            sink_empty,
            old(queue)@,
            head_opens,
        ),
{
    let plan = plan_tick(state, sink_paused, sink_empty);
    match plan {
        TickPlan::ResumeSink => TickOutcome {
            resume_sink: true,
            pause_sink: false,
            stop_sink: false,
            begin_song: None,
            persist_queue: false,
            write: None,
            terminate: false,
        },
        TickPlan::PauseSink => TickOutcome {
            resume_sink: false,
            pause_sink: true,
            stop_sink: false,
            begin_song: None,
            persist_queue: false,
            write: None,
            terminate: false,
        },
        TickPlan::Shutdown { stop_sink } => TickOutcome {
            resume_sink: false,
            pause_sink: false,
            stop_sink,
            begin_song: None,
            persist_queue: false,
            write: None,
            terminate: true,
        },
        TickPlan::Wait => TickOutcome {
            resume_sink: false,
            pause_sink: false,
            stop_sink: false,
            begin_song: None,
            persist_queue: false,
            write: None,
            terminate: false,
        },
        TickPlan::AdvanceQueue { from_skip } => match queue.pop() {
            None => TickOutcome {
                resume_sink: false,
                pause_sink: false,
                stop_sink: true,
                begin_song: None,
                persist_queue: false,
                write: Some(PlayerState::Stopped),
                terminate: true,
            },
            Some(song) => if head_opens {
                TickOutcome {
                    resume_sink: false,
                    pause_sink: false,
                    stop_sink: from_skip,
                    begin_song: Some(song.clone()),
                    persist_queue: true,
                    write: Some(PlayerState::Playing(song)),
                    terminate: false,
                }
            } else {
                TickOutcome {
                    resume_sink: false,
                    pause_sink: false,
                    stop_sink: from_skip,
                    begin_song: None,
                    persist_queue: from_skip,
                    write: Some(PlayerState::Skip(song)),
                    terminate: false,
                }
            },
        },
    }
}

/// A tick never lengthens the queue, and consumes at most its head: what is
/// left is the queue itself or the queue less its first song. In particular
/// no popped song ever re-enters the queue.
pub proof fn lemma_tick_consumes_at_most_head(
    st: PlayerState,
    sink_paused: bool,
    sink_empty: bool,
    q: Seq<Song>,
    head_opens: bool,
)
    ensures
        spec_reconcile(st, sink_paused, sink_empty, q, head_opens).1 == q || (q.len() > 0
            && spec_reconcile(st, sink_paused, sink_empty, q, head_opens).1 == q.drop_first()),
{
}

/// No duplicate playback: whenever a tick commits `Playing` of a song, that
/// song was the queue's head, the tick asks for the popped queue to be
/// persisted, and the write comes after that persistence in the outcome's
/// order. A crash between the two may drop the popped song, never play it
/// twice.
pub proof fn lemma_playing_commit_follows_pop(
    st: PlayerState,
    sink_paused: bool,
    sink_empty: bool,
    q: Seq<Song>,
    head_opens: bool,
    s: Song,
)
    ensures
        ({
            let (out, rest) = spec_reconcile(st, sink_paused, sink_empty, q, head_opens);
            out.write == Some(PlayerState::Playing(s)) ==> {
                &&& q.len() > 0
                &&& s == q[0]
                &&& out.persist_queue
                &&& rest == q.drop_first()
            }
        }),
{
}

/// A finished track advances the queue: while `Playing`, a dry sink and a
/// queue whose head opens yield `Playing` of that head, the pop persisted,
/// and the tail left waiting; the worker keeps running.
pub proof fn lemma_track_finished_advances(prior: Song, q: Seq<Song>, sink_paused: bool)
    requires
        q.len() > 0,
        !sink_paused,
    ensures
        ({
            let (out, rest) = spec_reconcile(PlayerState::Playing(prior), sink_paused, true, q, true);
            &&& out.write == Some(PlayerState::Playing(q[0]))
            &&& out.begin_song == Some(q[0])
            &&& out.persist_queue
            &&& !out.terminate
            &&& rest == q.drop_first()
        }),
{
}

/// A skip against an empty queue parks the player: the tick writes
/// `Stopped` and the worker terminates, whatever song the skip carried.
pub proof fn lemma_skip_empty_queue(
    skipped: Song,
    sink_paused: bool,
    sink_empty: bool,
    head_opens: bool,
)
    ensures
        ({
            let (out, rest) = spec_reconcile(
                PlayerState::Skip(skipped),
                sink_paused,
                sink_empty,
                Seq::<Song>::empty(),
                head_opens,
            );
            &&& out.write == Some(PlayerState::Stopped)
            &&& out.terminate
            &&& rest.len() == 0
        }),
{
}

/// A song whose file cannot be opened never halts the worker and never
/// re-enters the queue: the tick consumes it, records a skip of it, and
/// keeps running. Out of a skip sweep the pop is persisted at once; out of
/// `Playing` the store is left for the sweep that follows.
pub proof fn lemma_decode_failure_skips(prior: Song, q: Seq<Song>, from_skip: bool)
    requires
        q.len() > 0,
    ensures
        ({
            let st = if from_skip {
                PlayerState::Skip(prior)
            } else {
                PlayerState::Playing(prior)
            };
            let (out, rest) = spec_reconcile(st, false, true, q, false);
            &&& out.write == Some(PlayerState::Skip(q[0]))
            &&& out.begin_song is None
            &&& out.persist_queue == from_skip
            &&& !out.terminate
            &&& rest == q.drop_first()
        }),
{
}

} // verus!
