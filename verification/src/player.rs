//! The playback/queue controller.
//!
//! The controller owns the queue, the index into it, the playhead and the
//! volume, and keeps the playback state as an explicit variant. It is a
//! plain state machine: every operation that needs the audio device or the
//! presence service returns what is to be done as a value (a file to
//! decode, a volume to push, a status to publish), and the surrounding
//! shell performs it and reports the outcome back through
//! [`Player::track_loaded`] and [`Player::track_failed`].
//!
//! Volume is a whole-number fraction of [`MAX_VOLUME`], so `50` stands for
//! half of full volume.

use vstd::prelude::*;

use crate::track::Track;

verus! {

/// Full volume; every volume the controller holds is `<=` this.
pub const MAX_VOLUME: u32 = 100;

/// The three playback states: nothing loaded in the sink, a track
/// audible, or a track held at its current position.
#[derive(Clone, Copy, Debug, PartialEq, Eq, Structural)]
pub enum PlayState {
    Idle,
    Playing,
    Paused,
}

/// An order to the shell: stop the sink, decode the file at `path`, hand
/// it to the sink, and report back with the queue position `index`.
pub struct PlayRequest {
    pub index: usize,
    pub path: Vec<u8>,
}

/// A "now listening" status for the presence service.
pub struct PresenceInfo {
    pub artist: String,
    pub title: String,
}

/// What one controller tick asks of the shell: a volume to push to the
/// sink, if the sink's differs, and a track to start, if the queue is to
/// auto-advance.
pub struct UpdateAction {
    pub set_volume: Option<u32>,
    pub play: Option<PlayRequest>,
}

/// The playback/queue controller.
pub struct Player {
    pub queue: Vec<Track>,
    pub queue_index: usize,
    pub playhead: u64,
    pub volume: u32,
    pub state: PlayState,
    pub presence_enabled: bool,
}

/// Pausing holds an audible track; in any other state it changes nothing.
pub open spec fn pause_step(s: PlayState) -> PlayState {
    if s is Playing {
        PlayState::Paused
    } else {
        s
    }
}

/// Playing resumes a held track; in any other state it changes nothing.
pub open spec fn play_step(s: PlayState) -> PlayState {
    if s is Paused {
        PlayState::Playing
    } else {
        s
    }
}

/// The whole controller after a pause: only the state moves.
pub open spec fn pause_transition(p: Player) -> Player {
    Player { state: pause_step(p.state), ..p }
}

/// Pausing twice in a row is the same as pausing once: the second pause
/// finds the controller already paused (or idle) and changes nothing,
/// so no error arises and the state is stable.
pub proof fn lemma_pause_idempotent(p: Player)
    ensures
        pause_transition(pause_transition(p)) == pause_transition(p),
{
}

/// The queue built from one directory scan: the tracks that could be
/// read, in scan order, with the unreadable entries left out.
pub open spec fn loaded_tracks(entries: Seq<Option<Track>>) -> Seq<Track>
    decreases entries.len(),
{
    if entries.len() == 0 {
        Seq::empty()
    } else {
        loaded_tracks(entries.drop_last()) + (match entries.last() {
            Some(t) => seq![t],
            None => Seq::<Track>::empty(),
        })
    }
}

impl Player {
    /// The controller's invariant: the index stays inside the queue
    /// whenever the queue is non-empty (and is pinned to 0 when it is
    /// empty), the volume never exceeds full, and a track can only be
    /// playing or paused when there is one.
    pub open spec fn wf(&self) -> bool {
        &&& self.queue@.len() == 0 ==> self.queue_index == 0
        &&& self.queue@.len() > 0 ==> self.queue_index < self.queue@.len()
        &&& self.volume <= MAX_VOLUME
        &&& !(self.state is Idle) ==> self.queue@.len() > 0
    }

    /// A fresh controller: empty queue, full volume, nothing playing.
    pub fn new(presence_enabled: bool) -> (p: Player)
        ensures
            p.wf(),
            p.queue@.len() == 0,
            p.queue_index == 0,
            p.playhead == 0,
            p.volume == MAX_VOLUME,
            p.state is Idle,
            p.presence_enabled == presence_enabled,
    {
        Player {
            queue: Vec::new(),
            queue_index: 0,
            playhead: 0,
            volume: MAX_VOLUME,
            state: PlayState::Idle,
            presence_enabled,
        }
    }

    /// Whether a track is audible right now.
    pub fn playing(&self) -> (r: bool)
        ensures
            r == (self.state is Playing),
    {
        self.state == PlayState::Playing
    }

    /// Resume a held track. The shell mirrors this by starting the sink.
    pub fn play(&mut self)
        ensures
            *final(self) == (Player { state: play_step(old(self).state), ..*old(self) }),
    {
        if self.state == PlayState::Paused {
            self.state = PlayState::Playing;
        }
    }

    /// Hold the current track. The shell mirrors this by pausing the
    /// sink. Pausing twice in a row is the same as pausing once
    /// ([`lemma_pause_idempotent`]).
    pub fn pause(&mut self)
        ensures
            *final(self) == pause_transition(*old(self)),
    {
        if self.state == PlayState::Playing {
            self.state = PlayState::Paused;
        }
    }

    /// Whether a following track exists for [`Player::next`] to reach.
    pub fn can_next(&self) -> (r: bool)
        requires
            self.wf(),
        ensures
            r == (self.queue_index + 1 != self.queue@.len()),
    {
        let n: usize = self.queue.len();
        self.queue_index + 1 != n
    }

    /// Whether a preceding track exists for [`Player::prev`] to reach.
    pub fn can_prev(&self) -> (r: bool)
        ensures
            r == (self.queue_index != 0),
    {
        self.queue_index != 0
    }

    /// The track under the queue index, if the queue has any.
    pub fn track(&self) -> (r: Option<&Track>)
        requires
            self.wf(),
        ensures
            self.queue@.len() > 0 ==> (r matches Some(t) && *t == self.queue@[self.queue_index as int]),
            self.queue@.len() == 0 ==> r is None,
    {
        if self.queue.len() > 0 {
            Some(&self.queue[self.queue_index])
        } else {
            None
        }
    }

    /// The volume the controller holds (the sink may lag one tick).
    pub fn volume(&self) -> (r: u32)
        ensures
            r == self.volume,
    {
        self.volume
    }

    /// Store a new volume; it reaches the sink on the next tick.
    pub fn set_volume(&mut self, value: u32)
        requires
            value <= MAX_VOLUME,
        ensures
            *final(self) == (Player { volume: value, ..*old(self) }),
    {
        self.volume = value;
    }

    /// Move the playhead to `secs` and return the offset the shell must
    /// push to the sink. If the sink rejects the seek, the next tick
    /// resynchronizes the playhead from the sink's real position.
    pub fn update_playhead(&mut self, secs: u64) -> (r: u64)
        ensures
            *final(self) == (Player { playhead: secs, ..*old(self) }),
            r == secs,
    {
        self.playhead = secs;
        secs
    }

    /// Begin playing the track at `index`: bounds-check it and, when it
    /// is in range, order the shell to decode that file. Nothing changes
    /// until the shell reports back; an out-of-range index changes
    /// nothing at all.
    pub fn play_track(&mut self, index: usize) -> (r: Option<PlayRequest>)
        requires
            old(self).wf(),
        ensures
            *final(self) == *old(self),
            index < old(self).queue@.len() ==> (r matches Some(req) && req.index == index
                && req.path@ == old(self).queue@[index as int].path@),
            index >= old(self).queue@.len() ==> r is None,
    {
        if index < self.queue.len() {
            let path = self.queue[index].path.clone();
            proof {
                assert(path@ =~= self.queue@[index as int].path@);
            }
            Some(PlayRequest { index, path })
        } else {
            None
        }
    }

    /// Begin playing the track after the current one; out of range past
    /// the last track, nothing changes.
    pub fn next(&mut self) -> (r: Option<PlayRequest>)
        requires
            old(self).wf(),
        ensures
            *final(self) == *old(self),
            old(self).queue_index + 1 < old(self).queue@.len() ==> (r matches Some(req)
                && req.index == old(self).queue_index + 1
                && req.path@ == old(self).queue@[old(self).queue_index + 1].path@),
            old(self).queue_index + 1 >= old(self).queue@.len() ==> r is None,
    {
        let n: usize = self.queue.len();
        if self.queue_index >= n {
            return None;
        }
        self.play_track(self.queue_index + 1)
    }

    /// Begin playing the track before the current one. Only meant where
    /// [`Player::can_prev`] holds; the controls stay disabled otherwise.
    pub fn prev(&mut self) -> (r: Option<PlayRequest>)
        requires
            old(self).wf(),
            old(self).queue_index != 0,
        ensures
            *final(self) == *old(self),
            (r matches Some(req) && req.index == old(self).queue_index - 1
                && req.path@ == old(self).queue@[old(self).queue_index - 1].path@),
    {
        self.play_track(self.queue_index - 1)
    }

    /// The shell decoded the file of the request for `index` and handed
    /// it to the sink: the controller moves there, counts the track as
    /// playing from its start, and, when presence reporting is on, hands
    /// back the status to publish.
    pub fn track_loaded(&mut self, index: usize) -> (r: Option<PresenceInfo>)
        requires
            old(self).wf(),
            index < old(self).queue@.len(),
        ensures
            final(self).wf(),
            *final(self) == (Player {
                queue_index: index,
                playhead: 0,
                state: PlayState::Playing,
                ..*old(self)
            }),
            old(self).presence_enabled ==> (r matches Some(p)
                && p.artist@ == old(self).queue@[index as int].artist@
                && p.title@ == old(self).queue@[index as int].title@),
            !old(self).presence_enabled ==> r is None,
    {
        self.queue_index = index;
        self.playhead = 0;
        self.state = PlayState::Playing;
        if self.presence_enabled {
            let t = &self.queue[index];
            Some(PresenceInfo { artist: t.artist.clone(), title: t.title.clone() })
        } else {
            None
        }
    }

    /// The shell could not decode the file of the last request (corrupt
    /// or unsupported): the sink stays cleared, playback stops, and the
    /// queue position is left where it was. No retry, no auto-advance.
    pub fn track_failed(&mut self)
        ensures
            *final(self) == (Player { state: PlayState::Idle, ..*old(self) }),
    {
        self.state = PlayState::Idle;
    }

    /// One controller tick, run every render frame with what the sink
    /// reports: its playhead position, its active volume, and whether it
    /// has run out of audio. The playhead is refreshed from the sink; a
    /// differing sink volume is ordered back in line (the controller is
    /// authoritative); and a sink that ran out while a track was playing
    /// auto-advances to the following track, or stops after the last one
    /// (the queue does not wrap around).
    pub fn update(&mut self, sink_pos: u64, sink_volume: u32, sink_empty: bool) -> (r: UpdateAction)
        requires
            old(self).wf(),
        ensures
            final(self).wf(),
            final(self).queue == old(self).queue,
            final(self).queue_index == old(self).queue_index,
            final(self).playhead == sink_pos,
            final(self).volume == old(self).volume,
            final(self).presence_enabled == old(self).presence_enabled,
            r.set_volume == (if sink_volume != old(self).volume {
                Some(old(self).volume)
            } else {
                None::<u32>
            }),
            (old(self).state is Playing && sink_empty && old(self).queue_index + 1
                < old(self).queue@.len()) ==> (r.play matches Some(req)
                && req.index == old(self).queue_index + 1
                && req.path@ == old(self).queue@[old(self).queue_index + 1].path@
                && final(self).state == old(self).state),
            !(old(self).state is Playing && sink_empty && old(self).queue_index + 1
                < old(self).queue@.len()) ==> r.play is None,
            (old(self).state is Playing && sink_empty && old(self).queue_index + 1
                >= old(self).queue@.len()) ==> final(self).state is Idle,
            !(old(self).state is Playing && sink_empty) ==> final(self).state == old(self).state,
    {
        self.playhead = sink_pos;
        let set_volume: Option<u32> = if sink_volume != self.volume {
            Some(self.volume)
        } else {
            None
        };
        let mut play: Option<PlayRequest> = None;
        if self.state == PlayState::Playing && sink_empty {
            let n: usize = self.queue.len();
            if self.queue_index + 1 < n {
                play = self.next();
            } else {
                self.state = PlayState::Idle;
            }
        }
        UpdateAction { set_volume, play }
    }

    /// Replace the queue with the outcome of one directory scan, given in
    /// scan order: the tracks that could be read, and `None` for every
    /// entry that could not (those are skipped, not fatal). The index
    /// returns to the front, playback stops, and the playhead resets;
    /// the shell mirrors this by clearing the sink.
    pub fn load_library_into_queue(&mut self, entries: Vec<Option<Track>>)
        requires
            old(self).wf(),
        ensures
            final(self).wf(),
            final(self).queue@ == loaded_tracks(entries@),
            final(self).queue_index == 0,
            final(self).playhead == 0,
            final(self).state is Idle,
            final(self).volume == old(self).volume,
            final(self).presence_enabled == old(self).presence_enabled,
    {
        let mut entries = entries;
        let ghost all = entries@;
        self.queue.clear();
        self.queue_index = 0;
        self.playhead = 0;
        self.state = PlayState::Idle;
        let ghost mut done: Seq<Option<Track>> = Seq::empty();
        while entries.len() > 0
            invariant
                all == done + entries@,
                self.queue@ == loaded_tracks(done),
                self.queue_index == 0,
                self.playhead == 0,
                self.state is Idle,
                self.volume == old(self).volume,
                self.presence_enabled == old(self).presence_enabled,
            decreases entries@.len(),
        {
            let e = entries.remove(0);
            proof {
                let done2 = done.push(e);
                assert(done2.drop_last() =~= done);
                assert(all =~= done2 + entries@);
                assert(loaded_tracks(done2) == loaded_tracks(done) + (match e {
                    Some(t) => seq![t],
                    None => Seq::<Track>::empty(),
                }));
                done = done2;
            }
            match e {
                Some(t) => {
                    self.queue.push(t);
                    proof {
                        assert(self.queue@ =~= loaded_tracks(done));
                    }
                },
                None => {
                    proof {
                        assert(self.queue@ =~= loaded_tracks(done));
                    }
                },
            }
        }
        proof {
            assert(done =~= all);
        }
    }
}

} // verus!
