//! The track manager: the sole owner of the track table and the source of
//! truth for control-plane state.
//!
//! Every mutation appends exactly one event (device changes append two, in
//! order) to an event log that the owner drains and fans out to
//! subscribers in publication order. A removed id is tombstoned so the
//! receive side does not recreate it implicitly until the user re-creates
//! it.

use vstd::prelude::*;
use crate::config::MAX_TRACKS;
use crate::control::{ControlMessage, TrackConfig, TrackConfigUpdate, TrackStatus};
use crate::errors::TrackError;
use crate::track::{status_matches, Track, TrackState, TrackView};

verus! {

/// Events published by the track manager, one per mutation.
#[derive(Debug, Clone)]
pub enum TrackEvent {
    Created(u8),
    Removed(u8),
    Started(u8),
    Stopped(u8),
    ConfigUpdated(u8),
    /// A device change: track id, old device id, new device id.
    DeviceChanged(u8, String, String),
    Error(u8, String),
}

/// Number of occupied slots in a track table.
pub open spec fn count_some(s: Seq<Option<Track>>) -> nat
    decreases s.len(),
{
    if s.len() == 0 {
        0
    } else {
        count_some(s.drop_last()) + if s.last() is Some {
            1nat
        } else {
            0nat
        }
    }
}

/// Whether any track in the table is soloed.
pub open spec fn any_solo(s: Seq<Option<Track>>) -> bool {
    exists|i: int| 0 <= i < s.len() && (#[trigger] s[i] matches Some(t) && t@.solo)
}

/// Whether the track with this id sounds: false for a missing or muted
/// track; while any track is soloed, true only for soloed tracks;
/// otherwise true.
pub open spec fn spec_should_output(s: Seq<Option<Track>>, track_id: u8) -> bool {
    match s[track_id as int] {
        Some(t) => !t@.muted && (any_solo(s) ==> t@.solo),
        None => false,
    }
}

/// Updating one slot changes the occupancy by the difference of the old
/// and new slot states.
proof fn lemma_count_update(s: Seq<Option<Track>>, i: int, v: Option<Track>)
    requires
        0 <= i < s.len(),
    ensures
        count_some(s.update(i, v)) == count_some(s) - (if s[i] is Some {
            1int
        } else {
            0int
        }) + (if v is Some {
            1int
        } else {
            0int
        }),
    decreases s.len(),
{
    let updated = s.update(i, v);
    if i == s.len() - 1 {
        assert(updated.drop_last() =~= s.drop_last());
    } else {
        lemma_count_update(s.drop_last(), i, v);
        assert(updated.drop_last() =~= s.drop_last().update(i, v));
        assert(updated.last() == s.last());
    }
}

/// What the receive side does with a packet for an unknown or known
/// track id.
#[derive(Debug, Clone, Copy, PartialEq, Eq, Structural)]
pub enum AdmitDecision {
    /// The id was deleted by the user; drop the packet.
    Tombstoned,
    /// The track exists; deliver to it.
    Existing,
    /// Unknown id, not tombstoned: create the track implicitly, then
    /// deliver.
    CreateNew,
}

/// What handling one control command asks the caller to do.
#[derive(Debug, Clone)]
pub enum ControlOutcome {
    /// Send this reply back.
    Reply(ControlMessage),
    /// Ask the audio engine for the device list and reply with it.
    NeedDevices,
    /// Nothing to send.
    NoReply,
}

/// The track manager.
pub struct TrackManager {
    tracks: Vec<Option<Track>>,
    tombstones: Vec<bool>,
    next_id: u8,
    max_tracks: usize,
    solo_active: bool,
    count: usize,
    events: Vec<TrackEvent>,
}

impl TrackManager {
    /// The track table: one slot per id.
    pub closed spec fn spec_tracks(&self) -> Seq<Option<Track>> {
        self.tracks@
    }

    /// The slot of one id.
    pub open spec fn spec_track(&self, track_id: u8) -> Option<Track> {
        self.spec_tracks()[track_id as int]
    }

    /// The tombstone flags: true for ids deleted by the user.
    pub closed spec fn spec_tombstones(&self) -> Seq<bool> {
        self.tombstones@
    }

    /// The id the next auto-assignment will try.
    pub closed spec fn spec_next_id(&self) -> u8 {
        self.next_id
    }

    /// The capacity of the manager.
    pub closed spec fn spec_max_tracks(&self) -> usize {
        self.max_tracks
    }

    /// Whether any track is currently soloed.
    pub closed spec fn spec_solo_active(&self) -> bool {
        self.solo_active
    }

    /// Number of tracks held.
    pub closed spec fn spec_count(&self) -> usize {
        self.count
    }

    /// The pending events, in publication order.
    pub closed spec fn spec_events(&self) -> Seq<TrackEvent> {
        self.events@
    }

    /// All observable parts equal between two managers.
    pub open spec fn same_as(&self, other: &TrackManager) -> bool {
        &&& self.spec_tracks() == other.spec_tracks()
        &&& self.spec_tombstones() == other.spec_tombstones()
        &&& self.spec_count() == other.spec_count()
        &&& self.spec_events() == other.spec_events()
        &&& self.spec_solo_active() == other.spec_solo_active()
        &&& self.spec_next_id() == other.spec_next_id()
        &&& self.spec_max_tracks() == other.spec_max_tracks()
    }

    /// Well-formedness: one slot and one tombstone flag per id, each
    /// occupied slot holding a well-formed track whose id is its index,
    /// the occupancy counter exact, the solo flag the table's truth, and
    /// the capacity within the id space.
    pub closed spec fn wf(&self) -> bool {
        &&& self.tracks@.len() == 256
        &&& self.tombstones@.len() == 256
        &&& self.max_tracks <= 256
        &&& self.count == count_some(self.tracks@)
        &&& self.solo_active == any_solo(self.tracks@)
        &&& forall|i: int|
            0 <= i < 256 ==> (#[trigger] self.tracks@[i] matches Some(t) ==> t@.id == i && t.wf())
    }

    /// An empty manager at full capacity with no pending events.
    pub fn new() -> (r: TrackManager)
        ensures
            r.wf(),
            r.spec_count() == 0,
            r.spec_events() == Seq::<TrackEvent>::empty(),
            r.spec_next_id() == 0,
            r.spec_max_tracks() == MAX_TRACKS,
            r.spec_solo_active() == false,
            r.spec_tracks().len() == 256,
            r.spec_tombstones().len() == 256,
            forall|i: int| 0 <= i < 256 ==> (#[trigger] r.spec_tracks()[i]) is None,
            forall|i: int| 0 <= i < 256 ==> !(#[trigger] r.spec_tombstones()[i]),
    {
        let mut tracks: Vec<Option<Track>> = Vec::new();
        let mut tombstones: Vec<bool> = Vec::new();
        let mut i: usize = 0;
        while i < 256
            invariant
                i <= 256,
                tracks@.len() == i,
                tombstones@.len() == i,
                forall|j: int| 0 <= j < i ==> (#[trigger] tracks@[j]) is None,
                forall|j: int| 0 <= j < i ==> !(#[trigger] tombstones@[j]),
                count_some(tracks@) == 0,
            decreases 256 - i,
        {
            let ghost before = tracks@;
            tracks.push(None);
            tombstones.push(false);
            proof {
                assert(tracks@.drop_last() =~= before);
            }
            i = i + 1;
        }
        TrackManager {
            tracks,
            tombstones,
            next_id: 0,
            max_tracks: MAX_TRACKS,
            solo_active: false,
            count: 0,
            events: Vec::new(),
        }
    }

    /// Take the pending events, in publication order; the log is empty
    /// afterwards. The owner fans these out to every subscriber.
    pub fn take_events(&mut self) -> (r: Vec<TrackEvent>)
        requires
            old(self).wf(),
        ensures
            final(self).wf(),
            r@ == old(self).spec_events(),
            final(self).spec_events() == Seq::<TrackEvent>::empty(),
            final(self).spec_tracks() == old(self).spec_tracks(),
            final(self).spec_tombstones() == old(self).spec_tombstones(),
            final(self).spec_count() == old(self).spec_count(),
            final(self).spec_solo_active() == old(self).spec_solo_active(),
            final(self).spec_next_id() == old(self).spec_next_id(),
            final(self).spec_max_tracks() == old(self).spec_max_tracks(),
    {
        let mut drained: Vec<TrackEvent> = Vec::new();
        core::mem::swap(&mut drained, &mut self.events);
        drained
    }

    /// Create a track. The id is the caller's, or the next auto-assigned
    /// one. Fails with `MaxTracksReached` at capacity and with
    /// `AlreadyExists` on an id collision; on success the track starts
    /// stopped and unflagged, its tombstone is cleared, and `Created` is
    /// published.
    pub fn create_track(&mut self, config: TrackConfig) -> (r: Result<u8, TrackError>)
        requires
            old(self).wf(),
        ensures
            final(self).wf(),
            final(self).spec_max_tracks() == old(self).spec_max_tracks(),
            old(self).spec_count() >= old(self).spec_max_tracks() ==> r == Err::<
                u8,
                TrackError,
            >(TrackError::MaxTracksReached(old(self).spec_max_tracks())) && final(self).same_as(old(self)),
            old(self).spec_count() < old(self).spec_max_tracks() ==> ({
                let id = match config.track_id {
                    Some(i) => i,
                    None => old(self).spec_next_id(),
                };
                &&& final(self).spec_next_id() == (if config.track_id is Some {
                    old(self).spec_next_id()
                } else {
                    vstd::wrapping::u8_specs::wrapping_add(old(self).spec_next_id(), 1)
                })
                &&& (old(self).spec_track(id) is Some ==> r == Err::<u8, TrackError>(
                    TrackError::AlreadyExists(id),
                ) && final(self).spec_tracks() == old(self).spec_tracks() && final(self).spec_events() == old(self).spec_events() && final(self).spec_tombstones() == old(self).spec_tombstones() && final(self).spec_count() == old(self).spec_count())
                &&& (old(self).spec_track(id) is None ==> r == Ok::<u8, TrackError>(id) && ({
                    &&& (final(self).spec_track(id) matches Some(t) && t@.id == id && t@.name
                        == config.name@ && t@.device_id == config.device_id@ && t@.state
                        == TrackState::Stopped && !t@.muted && !t@.solo && t@.config == (
                    TrackConfig { track_id: Some(id), ..config }))
                    &&& final(self).spec_tracks() == old(self).spec_tracks().update(
                        id as int,
                        final(self).spec_track(id),
                    )
                    &&& final(self).spec_count() == old(self).spec_count() + 1
                    &&& final(self).spec_tombstones() == old(self).spec_tombstones().update(
                        id as int,
                        false,
                    )
                    &&& final(self).spec_events() == old(self).spec_events().push(
                        TrackEvent::Created(id),
                    )
                }))
            }),
    {
        if self.count >= self.max_tracks {
            return Err(TrackError::MaxTracksReached(self.max_tracks));
        }
        let id: u8 = match config.track_id {
            Some(i) => i,
            None => {
                let assigned = self.next_id;
                self.next_id = self.next_id.wrapping_add(1);
                assigned
            },
        };
        if self.tracks[id as usize].is_some() {
            return Err(TrackError::AlreadyExists(id));
        }
        let stored = TrackConfig { track_id: Some(id), ..config };
        let track = Track::new(id, stored);
        let ghost tracks0 = self.tracks@;
        self.tracks[id as usize] = Some(track);
        proof {
            lemma_count_update(tracks0, id as int, self.tracks@[id as int]);
        }
        self.count = self.count + 1;
        self.tombstones[id as usize] = false;
        self.events.push(TrackEvent::Created(id));
        proof {
            assert(any_solo(self.tracks@) == any_solo(tracks0)) by {
                lemma_any_solo_update_unflagged(tracks0, id as int, self.tracks@[id as int]);
            }
        }
        Ok(id)
    }

    /// Remove a track: it is stopped and handed back, the id is
    /// tombstoned against implicit recreation, `Removed` is published and
    /// the solo flag re-derived. Fails with `NotFound` for an absent id.
    pub fn remove_track(&mut self, track_id: u8) -> (r: Result<Track, TrackError>)
        requires
            old(self).wf(),
        ensures
            final(self).wf(),
            final(self).spec_max_tracks() == old(self).spec_max_tracks(),
            old(self).spec_track(track_id) is None ==> (r matches Err(e) && e
                == TrackError::NotFound(track_id)) && final(self).same_as(old(self)),
            old(self).spec_track(track_id) matches Some(t) ==> ({
                &&& (r matches Ok(removed) && removed@ == (TrackView {
                    state: TrackState::Stopped,
                    ..t@
                }))
                &&& final(self).spec_tracks() == old(self).spec_tracks().update(
                    track_id as int,
                    None::<Track>,
                )
                &&& final(self).spec_count() == old(self).spec_count() - 1
                &&& final(self).spec_tombstones() == old(self).spec_tombstones().update(
                    track_id as int,
                    true,
                )
                &&& final(self).spec_events() == old(self).spec_events().push(
                    TrackEvent::Removed(track_id),
                )
                &&& final(self).spec_solo_active() == any_solo(final(self).spec_tracks())
            }),
    {
        let ghost tracks0 = self.tracks@;
        let slot = self.tracks[track_id as usize].take();
        match slot {
            None => {
                proof {
                    assert(self.tracks@ =~= tracks0);
                    assert(final(self).spec_tracks() == old(self).spec_tracks());
                }
                Err(TrackError::NotFound(track_id))
            },
            Some(mut track) => {
                proof {
                    lemma_count_update(tracks0, track_id as int, None::<Track>);
                }
                track.stop();
                self.count = self.count - 1;
                self.tombstones[track_id as usize] = true;
                self.events.push(TrackEvent::Removed(track_id));
                self.update_solo_state();
                Ok(track)
            },
        }
    }

    /// The track with this id, if any.
    pub fn get_track(&self, track_id: u8) -> (r: Option<&Track>)
        requires
            self.wf(),
        ensures
            match r {
                Some(t) => self.spec_track(track_id) == Some(*t),
                None => self.spec_track(track_id) is None,
            },
    {
        self.tracks[track_id as usize].as_ref()
    }

    /// Mutable access to the track with this id, if any. The caller may
    /// change the track's flags, counters and meter; the rest of the
    /// manager is untouched, and the solo flag must be re-derived through
    /// the manager's own mutators, which is why this hands out the track
    /// only.
    pub fn get_track_mut(&mut self, track_id: u8) -> (r: Option<&mut Track>)
        requires
            old(self).wf(),
        ensures
            old(self).spec_track(track_id) is None ==> r is None && final(self).same_as(old(self)),
            old(self).spec_track(track_id) matches Some(t0) ==> (r matches Some(t) && *t == t0 && (
            final(t).wf() && final(t)@.id == t0@.id && final(t)@.solo == t0@.solo && final(t)@.muted
                == t0@.muted ==> final(self).wf()) && final(self).spec_tracks() == old(self).spec_tracks().update(track_id as int, Some(*final(t))) && final(self).spec_events()
                == old(self).spec_events() && final(self).spec_tombstones() == old(self).spec_tombstones() && final(self).spec_count() == old(self).spec_count() && final(self).spec_solo_active() == old(self).spec_solo_active() && final(self).spec_next_id()
                == old(self).spec_next_id() && final(self).spec_max_tracks() == old(self).spec_max_tracks()),
    {
        if self.tracks[track_id as usize].is_none() {
            return None;
        }
        let ghost tracks0 = self.tracks@;
        let slot = &mut self.tracks[track_id as usize];
        match slot {
            Some(track) => {
                proof {
                    assert(tracks0[track_id as int] is Some);
                    assert forall|v: Option<Track>| v is Some implies count_some(
                        tracks0.update(track_id as int, v),
                    ) == count_some(tracks0) by {
                        lemma_count_update(tracks0, track_id as int, v);
                    }
                    assert forall|v: Option<Track>|
                        (tracks0[track_id as int] matches Some(t0) && (v matches Some(t1)
                            && t1@.solo == t0@.solo)) implies any_solo(
                        tracks0.update(track_id as int, v),
                    ) == any_solo(tracks0) by {
                        lemma_any_solo_update_same_flags_value(tracks0, track_id as int, v);
                    }
                }
                Some(track)
            },
            None => None,
        }
    }

    /// Start a track and publish `Started`. Fails with `NotFound` for an
    /// absent id.
    pub fn start_track(&mut self, track_id: u8) -> (r: Result<(), TrackError>)
        requires
            old(self).wf(),
        ensures
            final(self).wf(),
            final(self).spec_max_tracks() == old(self).spec_max_tracks(),
            old(self).spec_track(track_id) is None ==> (r matches Err(e) && e
                == TrackError::NotFound(track_id)) && final(self).same_as(old(self)),
            old(self).spec_track(track_id) matches Some(t) ==> r is Ok && ({
                &&& (final(self).spec_track(track_id) matches Some(t1) && t1@ == (TrackView {
                    state: TrackState::Running,
                    packets_count: if t@.state == TrackState::Running {
                        t@.packets_count
                    } else {
                        0
                    },
                    packets_lost: if t@.state == TrackState::Running {
                        t@.packets_lost
                    } else {
                        0
                    },
                    ..t@
                }))
                &&& final(self).spec_events() == old(self).spec_events().push(
                    TrackEvent::Started(track_id),
                )
                &&& final(self).spec_count() == old(self).spec_count()
                &&& final(self).spec_solo_active() == old(self).spec_solo_active()
                &&& final(self).spec_tombstones() == old(self).spec_tombstones()
            }),
    {
        let ghost tracks0 = self.tracks@;
        let slot = &mut self.tracks[track_id as usize];
        match slot {
            None => {
                proof {
                    assert(final(self).spec_tracks() =~= old(self).spec_tracks());
                }
                Err(TrackError::NotFound(track_id))
            },
            Some(track) => {
                let _ = track.start();
                proof {
                    lemma_count_update(tracks0, track_id as int, self.tracks@[track_id as int]);
                    lemma_any_solo_update_same_flags_value(
                        tracks0,
                        track_id as int,
                        self.tracks@[track_id as int],
                    );
                }
                self.events.push(TrackEvent::Started(track_id));
                Ok(())
            },
        }
    }

    /// Stop a track and publish `Stopped`. Fails with `NotFound` for an
    /// absent id.
    pub fn stop_track(&mut self, track_id: u8) -> (r: Result<(), TrackError>)
        requires
            old(self).wf(),
        ensures
            final(self).wf(),
            final(self).spec_max_tracks() == old(self).spec_max_tracks(),
            old(self).spec_track(track_id) is None ==> (r matches Err(e) && e
                == TrackError::NotFound(track_id)) && final(self).same_as(old(self)),
            old(self).spec_track(track_id) matches Some(t) ==> r is Ok && ({
                &&& (final(self).spec_track(track_id) matches Some(t1) && t1@ == (TrackView {
                    state: TrackState::Stopped,
                    ..t@
                }))
                &&& final(self).spec_events() == old(self).spec_events().push(
                    TrackEvent::Stopped(track_id),
                )
                &&& final(self).spec_count() == old(self).spec_count()
                &&& final(self).spec_solo_active() == old(self).spec_solo_active()
                &&& final(self).spec_tombstones() == old(self).spec_tombstones()
            }),
    {
        let ghost tracks0 = self.tracks@;
        let slot = &mut self.tracks[track_id as usize];
        match slot {
            None => {
                proof {
                    assert(final(self).spec_tracks() =~= old(self).spec_tracks());
                }
                Err(TrackError::NotFound(track_id))
            },
            Some(track) => {
                track.stop();
                proof {
                    lemma_count_update(tracks0, track_id as int, self.tracks@[track_id as int]);
                    lemma_any_solo_update_same_flags_value(
                        tracks0,
                        track_id as int,
                        self.tracks@[track_id as int],
                    );
                }
                self.events.push(TrackEvent::Stopped(track_id));
                Ok(())
            },
        }
    }

    /// Patch a track's configuration. When the device id changes,
    /// `DeviceChanged` is published and then `ConfigUpdated`, in that
    /// order; otherwise `ConfigUpdated` alone. Fails with `NotFound` for
    /// an absent id.
    pub fn update_track(&mut self, track_id: u8, update: TrackConfigUpdate) -> (r: Result<
        (),
        TrackError,
    >)
        requires
            old(self).wf(),
        ensures
            final(self).wf(),
            final(self).spec_max_tracks() == old(self).spec_max_tracks(),
            old(self).spec_track(track_id) is None ==> (r matches Err(e) && e
                == TrackError::NotFound(track_id)) && final(self).same_as(old(self)),
            old(self).spec_track(track_id) matches Some(t) ==> r is Ok && ({
                let device_changed = update.device_id matches Some(d) && d@ != t@.device_id;
                &&& (final(self).spec_track(track_id) matches Some(t1) && t1@.name == (
                match update.name {
                    Some(n) => n@,
                    None => t@.name,
                }) && t1@.device_id == (match update.device_id {
                    Some(d) => d@,
                    None => t@.device_id,
                }) && t1@.config.bitrate == (match update.bitrate {
                    Some(b) => b,
                    None => t@.config.bitrate,
                }) && t1@.config.frame_size_us == (match update.frame_size_us {
                    Some(f) => f,
                    None => t@.config.frame_size_us,
                }) && t1@.config.fec_enabled == (match update.fec_enabled {
                    Some(f) => f,
                    None => t@.config.fec_enabled,
                }) && t1@.muted == t@.muted && t1@.solo == t@.solo && t1@.state == t@.state)
                &&& (device_changed ==> final(self).spec_events().len() == old(self).spec_events().len() + 2 && final(self).spec_events().subrange(
                    0,
                    old(self).spec_events().len() as int,
                ) == old(self).spec_events() && (final(self).spec_events()[old(self).spec_events().len() as int] matches TrackEvent::DeviceChanged(id2, od, nd) && id2
                    == track_id && od@ == t@.device_id && nd == update.device_id.unwrap()) && final(self).spec_events().last() == TrackEvent::ConfigUpdated(track_id))
                &&& (!device_changed ==> final(self).spec_events() == old(self).spec_events().push(TrackEvent::ConfigUpdated(track_id)))
                &&& final(self).spec_count() == old(self).spec_count()
                &&& final(self).spec_solo_active() == old(self).spec_solo_active()
                &&& final(self).spec_tombstones() == old(self).spec_tombstones()
            }),
    {
        let ghost tracks0 = self.tracks@;
        let has_track = self.tracks[track_id as usize].is_some();
        if !has_track {
            return Err(TrackError::NotFound(track_id));
        }
        let old_device_id: String;
        {
            let slot = &mut self.tracks[track_id as usize];
            match slot {
                Some(track) => {
                    old_device_id = track.device_id_string();
                    let _ = track.update_config(&update);
                    proof {
                        lemma_count_update(tracks0, track_id as int, self.tracks@[track_id as int]);
                        lemma_any_solo_update_same_flags_value(
                            tracks0,
                            track_id as int,
                            self.tracks@[track_id as int],
                        );
                    }
                },
                None => {
                    old_device_id = String::new();
                },
            }
        }
        match update.device_id {
            Some(ref new_id) => {
                if !old_device_id.eq(new_id) {
                    self.events.push(
                        TrackEvent::DeviceChanged(track_id, old_device_id, new_id.clone()),
                    );
                }
            },
            None => {},
        }
        self.events.push(TrackEvent::ConfigUpdated(track_id));
        Ok(())
    }

    /// Set a track's mute flag. Fails with `NotFound` for an absent id.
    pub fn set_muted(&mut self, track_id: u8, muted: bool) -> (r: Result<(), TrackError>)
        requires
            old(self).wf(),
        ensures
            final(self).wf(),
            final(self).spec_max_tracks() == old(self).spec_max_tracks(),
            old(self).spec_track(track_id) is None ==> (r matches Err(e) && e
                == TrackError::NotFound(track_id)) && final(self).same_as(old(self)),
            old(self).spec_track(track_id) matches Some(t) ==> r is Ok && ({
                &&& (final(self).spec_track(track_id) matches Some(t1) && t1@ == (TrackView {
                    muted,
                    ..t@
                }))
                &&& final(self).spec_tracks() == old(self).spec_tracks().update(
                    track_id as int,
                    final(self).spec_track(track_id),
                )
                &&& final(self).spec_events() == old(self).spec_events()
                &&& final(self).spec_count() == old(self).spec_count()
                &&& final(self).spec_solo_active() == old(self).spec_solo_active()
                &&& final(self).spec_tombstones() == old(self).spec_tombstones()
            }),
    {
        let ghost tracks0 = self.tracks@;
        let slot = &mut self.tracks[track_id as usize];
        match slot {
            None => {
                proof {
                    assert(final(self).spec_tracks() =~= old(self).spec_tracks());
                }
                Err(TrackError::NotFound(track_id))
            },
            Some(track) => {
                track.set_muted(muted);
                proof {
                    lemma_count_update(tracks0, track_id as int, self.tracks@[track_id as int]);
                    lemma_any_solo_update_same_flags_value(
                        tracks0,
                        track_id as int,
                        self.tracks@[track_id as int],
                    );
                }
                Ok(())
            },
        }
    }

    /// Set a track's solo flag and re-derive the manager-wide solo flag.
    /// Fails with `NotFound` for an absent id.
    pub fn set_solo(&mut self, track_id: u8, solo: bool) -> (r: Result<(), TrackError>)
        requires
            old(self).wf(),
        ensures
            final(self).wf(),
            final(self).spec_max_tracks() == old(self).spec_max_tracks(),
            old(self).spec_track(track_id) is None ==> (r matches Err(e) && e
                == TrackError::NotFound(track_id)) && final(self).same_as(old(self)),
            old(self).spec_track(track_id) matches Some(t) ==> r is Ok && ({
                &&& (final(self).spec_track(track_id) matches Some(t1) && t1@ == (TrackView {
                    solo,
                    ..t@
                }))
                &&& final(self).spec_tracks() == old(self).spec_tracks().update(
                    track_id as int,
                    final(self).spec_track(track_id),
                )
                &&& final(self).spec_events() == old(self).spec_events()
                &&& final(self).spec_count() == old(self).spec_count()
                &&& final(self).spec_solo_active() == any_solo(final(self).spec_tracks())
                &&& final(self).spec_tombstones() == old(self).spec_tombstones()
            }),
    {
        let ghost tracks0 = self.tracks@;
        let found: bool;
        {
            let slot = &mut self.tracks[track_id as usize];
            match slot {
                None => {
                    found = false;
                },
                Some(track) => {
                    found = true;
                    track.set_solo(solo);
                },
            }
        }
        proof {
            lemma_count_update(tracks0, track_id as int, self.tracks@[track_id as int]);
        }
        if !found {
            proof {
                assert(self.tracks@ =~= tracks0);
            }
            return Err(TrackError::NotFound(track_id));
        }
        self.update_solo_state();
        Ok(())
    }

    /// Re-derive the manager-wide solo flag from the table.
    fn update_solo_state(&mut self)
        requires
            old(self).spec_tracks().len() == 256,
        ensures
            *final(self) == (TrackManager {
                solo_active: any_solo(old(self).spec_tracks()),
                ..*old(self)
            }),
            final(self).spec_solo_active() == any_solo(old(self).spec_tracks()),
    {
        let mut found = false;
        let mut i: usize = 0;
        while i < 256
            invariant
                i <= 256,
                *self == *old(self),
                self.spec_tracks().len() == 256,
                found ==> any_solo(self.spec_tracks()),
                !found ==> forall|j: int|
                    0 <= j < i ==> !(#[trigger] self.spec_tracks()[j] matches Some(t) && t@.solo),
            decreases 256 - i,
        {
            let is_solo = match &self.tracks[i] {
                Some(t) => t.is_solo(),
                None => false,
            };
            if is_solo {
                found = true;
                proof {
                    assert(self.spec_tracks()[i as int] matches Some(t) && t@.solo);
                }
            }
            i = i + 1;
        }
        self.solo_active = found;
        proof {
            if !found {
                assert(!any_solo(self.spec_tracks()));
            }
        }
    }

    /// Whether the track with this id should sound, honouring mute and
    /// solo: a muted track never sounds; while any track is soloed only
    /// soloed tracks sound; otherwise every present track sounds.
    pub fn should_output(&self, track_id: u8) -> (r: bool)
        requires
            self.wf(),
        ensures
            r == spec_should_output(self.spec_tracks(), track_id),
    {
        match &self.tracks[track_id as usize] {
            Some(track) => {
                if track.is_muted() {
                    return false;
                }
                if self.solo_active {
                    return track.is_solo();
                }
                true
            },
            None => false,
        }
    }

    /// Number of tracks held.
    pub fn track_count(&self) -> (r: usize)
        ensures
            r == self.spec_count(),
    {
        self.count
    }

    /// The ids of all tracks held, in ascending order.
    pub fn track_ids(&self) -> (r: Vec<u8>)
        requires
            self.wf(),
        ensures
            forall|k: int|
                0 <= k < r@.len() ==> self.spec_track(#[trigger] r@[k]) is Some,
            forall|i: int|
                0 <= i < 256 && (#[trigger] self.spec_tracks()[i]) is Some ==> r@.contains(i as u8),
    {
        let mut r: Vec<u8> = Vec::new();
        let mut i: usize = 0;
        while i < 256
            invariant
                i <= 256,
                self.spec_tracks().len() == 256,
                forall|k: int|
                    0 <= k < r@.len() ==> self.spec_track(#[trigger] r@[k]) is Some,
                forall|j: int|
                    0 <= j < i && (#[trigger] self.spec_tracks()[j]) is Some ==> r@.contains(
                        j as u8,
                    ),
            decreases 256 - i,
        {
            if self.tracks[i].is_some() {
                let ghost before = r@;
                r.push(i as u8);
                proof {
                    assert(r@[before.len() as int] == i as u8);
                    assert forall|y: u8| before.contains(y) implies r@.contains(y) by {
                        let w = choose|w: int| 0 <= w < before.len() && before[w] == y;
                        assert(r@[w] == y);
                    }
                }
            }
            i = i + 1;
        }
        r
    }

    /// Status snapshots of all tracks held.
    pub fn get_all_statuses(&self) -> (r: Vec<TrackStatus>)
        requires
            self.wf(),
        ensures
            r@.len() == count_some(self.spec_tracks()),
            forall|k: int|
                0 <= k < r@.len() ==> (self.spec_track((#[trigger] r@[k]).track_id) matches Some(t)
                    && status_matches(r@[k], t@)),
    {
        let mut r: Vec<TrackStatus> = Vec::new();
        let mut i: usize = 0;
        while i < 256
            invariant
                self.wf(),
                i <= 256,
                r@.len() == count_some(self.spec_tracks().take(i as int)),
                forall|k: int|
                    0 <= k < r@.len() ==> (self.spec_track((#[trigger] r@[k]).track_id) matches
                        Some(t) && status_matches(r@[k], t@)),
            decreases 256 - i,
        {
            proof {
                assert(self.spec_tracks().take(i + 1).drop_last() =~= self.spec_tracks().take(
                    i as int,
                ));
                assert(self.spec_tracks().take(i + 1).last() == self.spec_tracks()[i as int]);
            }
            match &self.tracks[i] {
                Some(track) => {
                    let st = track.status();
                    proof {
                        assert(st.track_id == i as u8);
                    }
                    r.push(st);
                },
                None => {},
            }
            i = i + 1;
        }
        proof {
            assert(self.spec_tracks().take(256) =~= self.spec_tracks());
        }
        r
    }

    /// What the receive side should do with a packet for this id:
    /// drop it when the id is tombstoned, deliver when the track exists,
    /// create the track implicitly otherwise.
    pub fn admit_incoming(&self, track_id: u8) -> (r: AdmitDecision)
        requires
            self.wf(),
        ensures
            self.spec_tombstones()[track_id as int] && self.spec_track(track_id) is None ==> r
                == AdmitDecision::Tombstoned,
            self.spec_track(track_id) is Some ==> r == AdmitDecision::Existing,
            !self.spec_tombstones()[track_id as int] && self.spec_track(track_id) is None ==> r
                == AdmitDecision::CreateNew,
    {
        if self.tracks[track_id as usize].is_some() {
            AdmitDecision::Existing
        } else if self.tombstones[track_id as usize] {
            AdmitDecision::Tombstoned
        } else {
            AdmitDecision::CreateNew
        }
    }

    /// Put a track into the Error state with a message and publish
    /// `Error`. Fails with `NotFound` for an absent id.
    pub fn set_track_error(&mut self, track_id: u8, message: String) -> (r: Result<
        (),
        TrackError,
    >)
        requires
            old(self).wf(),
        ensures
            final(self).wf(),
            old(self).spec_track(track_id) is None ==> (r matches Err(e) && e
                == TrackError::NotFound(track_id)) && final(self).same_as(old(self)),
            old(self).spec_track(track_id) matches Some(t) ==> r is Ok && ({
                &&& (final(self).spec_track(track_id) matches Some(t1) && t1@ == (TrackView {
                    state: TrackState::Error,
                    last_error: Some(message@),
                    ..t@
                }))
                &&& final(self).spec_events() == old(self).spec_events().push(
                    TrackEvent::Error(track_id, message),
                )
                &&& final(self).spec_count() == old(self).spec_count()
                &&& final(self).spec_solo_active() == old(self).spec_solo_active()
            }),
    {
        let ghost tracks0 = self.tracks@;
        let event_message = message.clone();
        let slot = &mut self.tracks[track_id as usize];
        match slot {
            None => {
                proof {
                    assert(final(self).spec_tracks() =~= old(self).spec_tracks());
                }
                Err(TrackError::NotFound(track_id))
            },
            Some(track) => {
                track.set_error(message);
                proof {
                    lemma_count_update(tracks0, track_id as int, self.tracks@[track_id as int]);
                    lemma_any_solo_update_same_flags_value(
                        tracks0,
                        track_id as int,
                        self.tracks@[track_id as int],
                    );
                }
                self.events.push(TrackEvent::Error(track_id, event_message));
                Ok(())
            },
        }
    }
}

/// Same statement over an owned slot value.
proof fn lemma_any_solo_update_same_flags_value(s: Seq<Option<Track>>, i: int, v: Option<Track>)
    requires
        0 <= i < s.len(),
        s[i] matches Some(t0) && (v matches Some(t1) && t0@.solo == t1@.solo),
    ensures
        any_solo(s.update(i, v)) == any_solo(s),
{
    let updated = s.update(i, v);
    if any_solo(s) {
        let w = choose|w: int| 0 <= w < s.len() && (#[trigger] s[w] matches Some(x) && x@.solo);
        if w == i {
            assert(updated[i] matches Some(x) && x@.solo);
        } else {
            assert(updated[w] matches Some(x) && x@.solo);
        }
    }
    if any_solo(updated) {
        let w = choose|w: int|
            0 <= w < updated.len() && (#[trigger] updated[w] matches Some(x) && x@.solo);
        if w == i {
            assert(s[i] matches Some(x) && x@.solo);
        } else {
            assert(s[w] matches Some(x) && x@.solo);
        }
    }
}

/// Filling an empty slot with an unsoloed track keeps the solo truth
/// unchanged.
proof fn lemma_any_solo_update_unflagged(s: Seq<Option<Track>>, i: int, v: Option<Track>)
    requires
        0 <= i < s.len(),
        s[i] is None,
        v matches Some(t) && !t@.solo,
    ensures
        any_solo(s.update(i, v)) == any_solo(s),
{
    let updated = s.update(i, v);
    if any_solo(s) {
        let w = choose|w: int| 0 <= w < s.len() && (#[trigger] s[w] matches Some(x) && x@.solo);
        assert(updated[w] matches Some(x) && x@.solo);
    }
    if any_solo(updated) {
        let w = choose|w: int|
            0 <= w < updated.len() && (#[trigger] updated[w] matches Some(x) && x@.solo);
        assert(w != i);
        assert(s[w] matches Some(x) && x@.solo);
    }
}

/// Solo semantics law: while some track is soloed, a soloed, unmuted
/// track sounds and an unsoloed one does not; and a muted track never
/// sounds.
pub proof fn lemma_solo_semantics(s: Seq<Option<Track>>, soloed: u8, other: u8, muted: u8)
    requires
        s.len() == 256,
        s[soloed as int] matches Some(t) && t@.solo && !t@.muted,
        s[other as int] matches Some(t2) && !t2@.solo,
        s[muted as int] matches Some(t3) && t3@.muted,
    ensures
        spec_should_output(s, soloed),
        !spec_should_output(s, other),
        !spec_should_output(s, muted),
{
    assert(s[soloed as int] matches Some(t) && t@.solo);
    assert(any_solo(s));
}

impl TrackManager {
    /// Handle one control command: mutate the table through the manager's
    /// own operations and say what to send back. A `Ping` is answered with
    /// a `Pong`; `GetStatus` with a `Status` snapshot; `ListDevices` asks
    /// the caller to consult the audio engine; a failed command is
    /// answered with an `Error` reply and leaves the manager unchanged;
    /// replies and other informational messages are ignored.
    pub fn apply_control(&mut self, msg: ControlMessage) -> (r: ControlOutcome)
        requires
            old(self).wf(),
        ensures
            final(self).wf(),
            match msg {
                ControlMessage::Ping => (r matches ControlOutcome::Reply(m) && m is Pong) && final(self).same_as(old(self)),
                ControlMessage::ListDevices => r is NeedDevices && final(self).same_as(old(self)),
                ControlMessage::GetStatus => (r matches ControlOutcome::Reply(m) && (m matches
                    ControlMessage::Status(sts) && sts@.len() == count_some(
                    old(self).spec_tracks(),
                ) && (forall|k: int|
                    0 <= k < sts@.len() ==> (old(self).spec_track(
                        (#[trigger] sts@[k]).track_id,
                    ) matches Some(t) && status_matches(sts@[k], t@))))) && final(self).same_as(
                    old(self),
                ),
                ControlMessage::SetMute { track_id, muted } => {
                    if old(self).spec_track(track_id) is Some {
                        r is NoReply && (final(self).spec_track(track_id) matches Some(t1)
                            && t1@.muted == muted)
                    } else {
                        (r matches ControlOutcome::Reply(m) && m is Error) && final(self).same_as(
                            old(self),
                        )
                    }
                },
                ControlMessage::SetSolo { track_id, solo } => {
                    if old(self).spec_track(track_id) is Some {
                        r is NoReply && (final(self).spec_track(track_id) matches Some(t1)
                            && t1@.solo == solo) && final(self).spec_solo_active() == any_solo(
                            final(self).spec_tracks(),
                        )
                    } else {
                        (r matches ControlOutcome::Reply(m) && m is Error) && final(self).same_as(
                            old(self),
                        )
                    }
                },
                ControlMessage::CreateTrack(config) => {
                    let id = match config.track_id {
                        Some(i) => i,
                        None => old(self).spec_next_id(),
                    };
                    if old(self).spec_count() < old(self).spec_max_tracks() && old(self).spec_track(id) is None {
                        r is NoReply && final(self).spec_count() == old(self).spec_count() + 1
                            && final(self).spec_track(id) is Some
                    } else {
                        (r matches ControlOutcome::Reply(m) && m is Error)
                    }
                },
                ControlMessage::RemoveTrack { track_id } => {
                    if old(self).spec_track(track_id) is Some {
                        r is NoReply && final(self).spec_track(track_id) is None && final(self).spec_tombstones()[track_id as int]
                    } else {
                        (r matches ControlOutcome::Reply(m) && m is Error) && final(self).same_as(
                            old(self),
                        )
                    }
                },
                ControlMessage::UpdateTrack { track_id, .. } => {
                    if old(self).spec_track(track_id) is Some {
                        r is NoReply && final(self).spec_track(track_id) is Some
                    } else {
                        (r matches ControlOutcome::Reply(m) && m is Error) && final(self).same_as(
                            old(self),
                        )
                    }
                },
                _ => r is NoReply && final(self).same_as(old(self)),
            },
    {
        match msg {
            ControlMessage::Ping => ControlOutcome::Reply(ControlMessage::Pong),
            ControlMessage::ListDevices => ControlOutcome::NeedDevices,
            ControlMessage::GetStatus => {
                let statuses = self.get_all_statuses();
                ControlOutcome::Reply(ControlMessage::Status(statuses))
            },
            ControlMessage::SetMute { track_id, muted } => {
                match self.set_muted(track_id, muted) {
                    Ok(()) => ControlOutcome::NoReply,
                    Err(e) => ControlOutcome::Reply(
                        ControlMessage::Error { message: e.message() },
                    ),
                }
            },
            ControlMessage::SetSolo { track_id, solo } => {
                match self.set_solo(track_id, solo) {
                    Ok(()) => ControlOutcome::NoReply,
                    Err(e) => ControlOutcome::Reply(
                        ControlMessage::Error { message: e.message() },
                    ),
                }
            },
            ControlMessage::CreateTrack(config) => {
                match self.create_track(config) {
                    Ok(_) => ControlOutcome::NoReply,
                    Err(e) => ControlOutcome::Reply(
                        ControlMessage::Error { message: e.message() },
                    ),
                }
            },
            ControlMessage::RemoveTrack { track_id } => {
                match self.remove_track(track_id) {
                    Ok(_) => ControlOutcome::NoReply,
                    Err(e) => ControlOutcome::Reply(
                        ControlMessage::Error { message: e.message() },
                    ),
                }
            },
            ControlMessage::UpdateTrack { track_id, config } => {
                match self.update_track(track_id, config) {
                    Ok(()) => ControlOutcome::NoReply,
                    Err(e) => ControlOutcome::Reply(
                        ControlMessage::Error { message: e.message() },
                    ),
                }
            },
            _ => ControlOutcome::NoReply,
        }
    }
}

} // verus!
