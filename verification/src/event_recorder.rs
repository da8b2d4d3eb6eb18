//! Recording of operation control messages.
//!
//! Incoming control messages are recorded as they arrive, and turned into
//! a sequence of time-bounded operation entries once per audio block.

use vstd::prelude::*;
use vstd::pervasive::unreached;

use crate::event::StateChange;
use crate::op_sequence::{Entry, OpSequence};
use crate::ops::Operation;
use crate::units::{BeatFraction, SamplePosition};

verus! {

/// A control message, stamped with the sample position it maps to.
#[derive(Clone, Copy, Debug, PartialEq, Eq)]
pub struct RecordedEvent {
    pub time: SamplePosition,
    pub state_change: StateChange,
    pub operation: Operation,
}

/// Converts timestamped on/off control events into operation entries.
///
/// Events are buffered in arrival order. Once per processing window the
/// buffer is resolved: matched on/off pairs become closed entries, and
/// triggers still held become open entries. Wall-clock timestamps (in
/// nanoseconds on the caller's monotonic clock) are translated to sample
/// positions against the most recent sync point.
pub struct EventRecorder {
    pub event_buffer: Vec<RecordedEvent>,
    pub sample_rate: u32,
    pub active_reverse: Option<Entry>,
    pub active_jumps: Vec<(BeatFraction, Entry)>,
    pub active_repeats: Vec<(BeatFraction, Entry)>,
    pub event_sync_time: u64,
    pub event_sync_sample_position: SamplePosition,
}

/// No key occurs twice in an association list of open triggers.
pub open spec fn distinct_keys(list: Seq<(BeatFraction, Entry)>) -> bool {
    forall|i: int, j: int|
        0 <= i < j < list.len() ==> (#[trigger] list[i]).0 != (#[trigger] list[j]).0
}

/// Whether some entry of the list is keyed by `key`.
pub open spec fn assoc_contains(list: Seq<(BeatFraction, Entry)>, key: BeatFraction) -> bool {
    exists|i: int| 0 <= i < list.len() && (#[trigger] list[i]).0 == key
}

/// The position of `key` in the list; meaningful when `assoc_contains`
/// holds, and unique when the keys are distinct.
pub open spec fn key_index(list: Seq<(BeatFraction, Entry)>, key: BeatFraction) -> int {
    choose|i: int| 0 <= i < list.len() && (#[trigger] list[i]).0 == key
}

/// Every entry of an association list of open triggers is open (no
/// duration yet), carries the operation its key stands for, and no key
/// repeats.
pub open spec fn wf_active_list(
    list: Seq<(BeatFraction, Entry)>,
    keyed: spec_fn(BeatFraction) -> Operation,
) -> bool {
    &&& forall|i: int|
        0 <= i < list.len() ==> (#[trigger] list[i]).1.duration is None && list[i].1.operation
            == keyed(list[i].0)
    &&& distinct_keys(list)
}

/// The resolution state while a window's events are folded into entries:
/// the open triggers, and the closed entries emitted so far.
#[verifier::ext_equal]
pub ghost struct ResolveState {
    pub reverse: Option<Entry>,
    pub repeats: Seq<(BeatFraction, Entry)>,
    pub jumps: Seq<(BeatFraction, Entry)>,
    pub out: Seq<Entry>,
}

impl ResolveState {
    pub open spec fn wf(&self) -> bool {
        &&& match self.reverse {
            Some(e) => e.duration is None && e.operation == Operation::Reverse,
            None => true,
        }
        &&& wf_active_list(self.repeats, |b: BeatFraction| Operation::Repeat { loop_size: b })
        &&& wf_active_list(self.jumps, |b: BeatFraction| Operation::Jump { offset: b })
    }
}

/// `a - b`, saturating at zero.
pub open spec fn sat_sub(a: int, b: int) -> int {
    if a >= b {
        a - b
    } else {
        0
    }
}

/// Close an open entry at `event_time`: its duration runs from whichever
/// is later of its own start and the window start, and saturates at zero
/// should the event time precede both.
pub open spec fn close_entry(open_entry: Entry, event_time: int, period_start: int) -> Entry {
    Entry {
        start: open_entry.start,
        duration: Some(
            sat_sub(
                event_time,
                if open_entry.start as int >= period_start {
                    open_entry.start as int
                } else {
                    period_start
                },
            ) as usize,
        ),
        operation: open_entry.operation,
    }
}

/// Fold one due event into the resolution state.
///
/// An "on" while the trigger is free opens an entry at the event's
/// position; an "off" while it is held closes and emits it. Any other
/// combination is a mismatched transition and is dropped without touching
/// the state. `Repeat` and `Jump` triggers are keyed by their parameter,
/// so distinct parameters are held independently.
pub open spec fn dispatch_event(
    state: ResolveState,
    ev: RecordedEvent,
    period_start: int,
) -> ResolveState {
    match ev.operation {
        Operation::Reverse => {
            if ev.state_change == StateChange::On && state.reverse is None {
                ResolveState {
                    reverse: Some(
                        Entry { start: ev.time, duration: None, operation: ev.operation },
                    ),
                    ..state
                }
            } else if ev.state_change == StateChange::Off && state.reverse is Some {
                ResolveState {
                    reverse: None,
                    out: state.out.push(
                        close_entry(state.reverse->0, ev.time as int, period_start),
                    ),
                    ..state
                }
            } else {
                state
            }
        },
        Operation::Repeat { loop_size } => {
            if ev.state_change == StateChange::On && !assoc_contains(state.repeats, loop_size) {
                ResolveState {
                    repeats: state.repeats.push(
                        (loop_size, Entry { start: ev.time, duration: None, operation: ev.operation }),
                    ),
                    ..state
                }
            } else if ev.state_change == StateChange::Off && assoc_contains(
                state.repeats,
                loop_size,
            ) {
                let idx = key_index(state.repeats, loop_size);
                ResolveState {
                    repeats: state.repeats.remove(idx),
                    out: state.out.push(
                        close_entry(state.repeats[idx].1, ev.time as int, period_start),
                    ),
                    ..state
                }
            } else {
                state
            }
        },
        Operation::Jump { offset } => {
            if ev.state_change == StateChange::On && !assoc_contains(state.jumps, offset) {
                ResolveState {
                    jumps: state.jumps.push(
                        (offset, Entry { start: ev.time, duration: None, operation: ev.operation }),
                    ),
                    ..state
                }
            } else if ev.state_change == StateChange::Off && assoc_contains(state.jumps, offset) {
                let idx = key_index(state.jumps, offset);
                ResolveState {
                    jumps: state.jumps.remove(idx),
                    out: state.out.push(
                        close_entry(state.jumps[idx].1, ev.time as int, period_start),
                    ),
                    ..state
                }
            } else {
                state
            }
        },
        _ => state,
    }
}

/// Resolve a window: every event due before `period_end` is folded into
/// the state, in arrival order, and leaves the buffer; later events stay,
/// in their order. Returns the events kept and the final state.
pub open spec fn resolve_events(
    events: Seq<RecordedEvent>,
    state: ResolveState,
    period_start: int,
    period_end: int,
) -> (Seq<RecordedEvent>, ResolveState)
    decreases events.len(),
{
    if events.len() == 0 {
        (events, state)
    } else {
        let ev = events[0];
        let rest = events.drop_first();
        if ev.time < period_end {
            resolve_events(rest, dispatch_event(state, ev, period_start), period_start, period_end)
        } else {
            let tail = resolve_events(rest, state, period_start, period_end);
            (seq![ev] + tail.0, tail.1)
        }
    }
}

/// The entries still open after resolution, appended to the output in a
/// fixed order: the reverse trigger first, then repeats, then jumps, each
/// in the order the triggers were opened.
pub open spec fn open_entries(state: ResolveState) -> Seq<Entry> {
    (match state.reverse {
        Some(e) => seq![e],
        None => Seq::<Entry>::empty(),
    }) + state.repeats.map_values(|p: (BeatFraction, Entry)| p.1) + state.jumps.map_values(
        |p: (BeatFraction, Entry)| p.1,
    )
}

/// In a list with distinct keys any position holding `key` is the one
/// `key_index` names.
proof fn lemma_key_index_is_unique(list: Seq<(BeatFraction, Entry)>, key: BeatFraction, idx: int)
    requires
        distinct_keys(list),
        0 <= idx < list.len(),
        list[idx].0 == key,
    ensures
        assoc_contains(list, key),
        key_index(list, key) == idx,
{
    assert(assoc_contains(list, key));
    let chosen = key_index(list, key);
    assert(0 <= chosen < list.len() && list[chosen].0 == key);
    if chosen < idx {
        assert(list[chosen].0 != list[idx].0);
    } else if idx < chosen {
        assert(list[idx].0 != list[chosen].0);
    }
}

/// Find the position of `key` among the open triggers, scanning from the
/// front.
fn find_key(list: &Vec<(BeatFraction, Entry)>, key: BeatFraction) -> (r: Option<usize>)
    ensures
        r is Some <==> assoc_contains(list@, key),
        r matches Some(i) ==> 0 <= i < list@.len() && list@[i as int].0 == key,
{
    let n = list.len();
    let mut i: usize = 0;
    while i < n
        invariant
            i <= n,
            n == list@.len(),
            forall|j: int| 0 <= j < i ==> (#[trigger] list@[j]).0 != key,
        decreases n - i,
    {
        if list[i].0 == key {
            return Some(i);
        }
        i += 1;
    }
    None
}

impl EventRecorder {
    /// The recorder's internal consistency: every open trigger it tracks
    /// is an open entry of the operation its slot stands for.
    pub open spec fn wf(&self) -> bool {
        &&& match self.active_reverse {
            Some(e) => e.duration is None && e.operation == Operation::Reverse,
            None => true,
        }
        &&& wf_active_list(
            self.active_repeats@,
            |b: BeatFraction| Operation::Repeat { loop_size: b },
        )
        &&& wf_active_list(self.active_jumps@, |b: BeatFraction| Operation::Jump { offset: b })
    }

    /// The sample position a wall-clock timestamp maps to, anchored at the
    /// sync point: the position the playback side most recently published,
    /// plus the elapsed nanoseconds converted to samples.
    pub open spec fn spec_sample_position_of(&self, time_nanos: int) -> int {
        self.event_sync_sample_position + (time_nanos - self.event_sync_time)
            * self.sample_rate / 1_000_000_000
    }

    /// Whether a timestamp can be translated at all: it does not precede
    /// the sync point, and the position it maps to fits the sample clock.
    pub open spec fn can_translate(&self, time_nanos: int) -> bool {
        &&& self.event_sync_time <= time_nanos
        &&& self.spec_sample_position_of(time_nanos) <= usize::MAX
    }

    pub fn new(sample_rate: u32) -> (r: EventRecorder)
        ensures
            r.event_buffer@ == Seq::<RecordedEvent>::empty(),
            r.sample_rate == sample_rate,
            r.active_reverse is None,
            r.active_jumps@ == Seq::<(BeatFraction, Entry)>::empty(),
            r.active_repeats@ == Seq::<(BeatFraction, Entry)>::empty(),
            r.event_sync_time == 0,
            r.event_sync_sample_position == 0,
            r.wf(),
    {
        EventRecorder {
            event_buffer: Vec::new(),
            sample_rate,
            active_reverse: None,
            active_jumps: Vec::new(),
            active_repeats: Vec::new(),
            event_sync_time: 0,
            event_sync_sample_position: 0,
        }
    }

    /// Anchor the event clock: `sample_position` is where playback stands
    /// at wall-clock `time_nanos`. Future events are placed relative to
    /// this point, so a performer's reaction lines up with what they just
    /// heard.
    pub fn set_event_sync_point(&mut self, time_nanos: u64, sample_position: SamplePosition)
        ensures
            *final(self) == (EventRecorder {
                event_sync_time: time_nanos,
                event_sync_sample_position: sample_position,
                ..*old(self)
            }),
    {
        self.event_sync_time = time_nanos;
        self.event_sync_sample_position = sample_position;
    }

    /// Translate a wall-clock timestamp into a sample position, or `None`
    /// when the timestamp precedes the sync point or the result would not
    /// fit the sample clock.
    pub fn time_to_sample_position(&self, time_nanos: u64) -> (r: Option<SamplePosition>)
        ensures
            r is Some <==> self.can_translate(time_nanos as int),
            r matches Some(p) ==> p as int == self.spec_sample_position_of(time_nanos as int),
    {
        if time_nanos < self.event_sync_time {
            return None;
        }
        let elapsed = (time_nanos - self.event_sync_time) as u128;
        let rate = self.sample_rate as u128;
        assert(elapsed * rate <= 0xffff_ffff_ffff_ffffu128 * 0xffff_ffffu128) by (nonlinear_arith)
            requires
                elapsed <= 0xffff_ffff_ffff_ffffu128,
                rate <= 0xffff_ffffu128,
        ;
        let duration_samples = elapsed * rate / 1_000_000_000;
        let position = (self.event_sync_sample_position as u128) + duration_samples;
        if position <= usize::MAX as u128 {
            Some(position as usize)
        } else {
            None
        }
    }

    /// Record one control event. A message with no actual transition is
    /// ignored; any other is appended to the event buffer stamped with the
    /// sample position its timestamp translates to.
    pub fn record_event(
        &mut self,
        timestamp_nanos: u64,
        state_change: StateChange,
        operation: Operation,
    )
        requires
            state_change == StateChange::NoChange || old(self).can_translate(
                timestamp_nanos as int,
            ),
        ensures
            state_change == StateChange::NoChange ==> *final(self) == *old(self),
            state_change != StateChange::NoChange ==> {
                &&& final(self).event_buffer@ == old(self).event_buffer@.push(RecordedEvent {
                    time: old(self).spec_sample_position_of(timestamp_nanos as int) as usize,
                    state_change,
                    operation,
                })
                &&& final(self).sample_rate == old(self).sample_rate
                &&& final(self).active_reverse == old(self).active_reverse
                &&& final(self).active_jumps == old(self).active_jumps
                &&& final(self).active_repeats == old(self).active_repeats
                &&& final(self).event_sync_time == old(self).event_sync_time
                &&& final(self).event_sync_sample_position == old(
                    self,
                ).event_sync_sample_position
            },
    {
        if state_change == StateChange::NoChange {
            return;
        }
        let time = match self.time_to_sample_position(timestamp_nanos) {
            Some(t) => t,
            None => {
                proof {
                    assert(false);
                }
                0
            },
        };
        self.event_buffer.push(RecordedEvent { time, state_change, operation });
    }

    /// The recorder's open triggers, as a resolution state with no output
    /// yet.
    pub open spec fn resolution(&self) -> ResolveState {
        ResolveState {
            reverse: self.active_reverse,
            repeats: self.active_repeats@,
            jumps: self.active_jumps@,
            out: Seq::<Entry>::empty(),
        }
    }

    /// Turn the recorded events into the operation entries for the window
    /// `[period_start, period_start + period_duration)`.
    ///
    /// Every buffered event due before the window's end — including a
    /// stale event from before the window's start, which resolves into
    /// this window — is resolved in arrival order: matched on/off pairs
    /// become closed entries, mismatched transitions are dropped, and
    /// either way the event leaves the buffer. The
    /// returned sequence holds the entries closed in this window followed
    /// by every trigger still open, the latter with no duration so that
    /// operations spanning windows continue to apply.
    pub fn ops_for_period(
        &mut self,
        period_start: SamplePosition,
        period_duration: SamplePosition,
    ) -> (r: OpSequence)
        requires
            old(self).wf(),
            period_start + period_duration <= usize::MAX,
        ensures
            final(self).wf(),
            final(self).sample_rate == old(self).sample_rate,
            final(self).event_sync_time == old(self).event_sync_time,
            final(self).event_sync_sample_position == old(self).event_sync_sample_position,
            ({
                let resolved = resolve_events(
                    old(self).event_buffer@,
                    old(self).resolution(),
                    period_start as int,
                    period_start + period_duration,
                );
                &&& final(self).event_buffer@ == resolved.0
                &&& final(self).active_reverse == resolved.1.reverse
                &&& final(self).active_repeats@ == resolved.1.repeats
                &&& final(self).active_jumps@ == resolved.1.jumps
                &&& r@ == resolved.1.out + open_entries(resolved.1)
            }),
    {
        let mut op_sequence: OpSequence = Vec::new();
        let period_end = period_start + period_duration;
        let ghost orig = *self;
        let ghost ps = period_start as int;
        let ghost pe = period_end as int;
        let ghost total = resolve_events(orig.event_buffer@, orig.resolution(), ps, pe);
        proof {
            assert(self.event_buffer@.subrange(0, self.event_buffer@.len() as int)
                =~= self.event_buffer@);
            assert((ResolveState {
                reverse: self.active_reverse,
                repeats: self.active_repeats@,
                jumps: self.active_jumps@,
                out: op_sequence@,
            }) =~= orig.resolution());
            assert(Seq::<RecordedEvent>::empty() + total.0 =~= total.0);
        }

        let mut i: usize = 0;
        while i < self.event_buffer.len()
            invariant
                i <= self.event_buffer@.len(),
                pe == ps + period_duration,
                ps == period_start,
                pe == period_end,
                self.wf(),
                self.sample_rate == orig.sample_rate,
                self.event_sync_time == orig.event_sync_time,
                self.event_sync_sample_position == orig.event_sync_sample_position,
                ({
                    let suffix = self.event_buffer@.subrange(
                        i as int,
                        self.event_buffer@.len() as int,
                    );
                    let cur = ResolveState {
                        reverse: self.active_reverse,
                        repeats: self.active_repeats@,
                        jumps: self.active_jumps@,
                        out: op_sequence@,
                    };
                    let res = resolve_events(suffix, cur, ps, pe);
                    &&& res.1 == total.1
                    &&& self.event_buffer@.subrange(0, i as int) + res.0 == total.0
                }),
            decreases self.event_buffer@.len() - i,
        {
            let ghost pre_buf = self.event_buffer@;
            let ghost pre_cur = ResolveState {
                reverse: self.active_reverse,
                repeats: self.active_repeats@,
                jumps: self.active_jumps@,
                out: op_sequence@,
            };
            let ev = self.event_buffer[i];
            if ev.time < period_end {
                match ev.operation {
                    Operation::Reverse => {
                        let is_on = ev.state_change == StateChange::On;
                        let is_off = ev.state_change == StateChange::Off;
                        if is_on && self.active_reverse.is_none() {
                            self.active_reverse = Some(
                                Entry { start: ev.time, duration: None, operation: ev.operation },
                            );
                        } else if is_off && self.active_reverse.is_some() {
                            let open_entry = match self.active_reverse {
                                Some(e) => e,
                                None => unreached(),
                            };
                            op_sequence.push(close_open_entry(open_entry, ev.time, period_start));
                            self.active_reverse = None;
                        }
                    },
                    Operation::Repeat { loop_size } => {
                        let is_on = ev.state_change == StateChange::On;
                        let is_off = ev.state_change == StateChange::Off;
                        match find_key(&self.active_repeats, loop_size) {
                            None => {
                                if is_on {
                                    self.active_repeats.push(
                                        (
                                            loop_size,
                                            Entry {
                                                start: ev.time,
                                                duration: None,
                                                operation: ev.operation,
                                            },
                                        ),
                                    );
                                }
                            },
                            Some(idx) => {
                                if is_off {
                                    proof {
                                        lemma_key_index_is_unique(
                                            self.active_repeats@,
                                            loop_size,
                                            idx as int,
                                        );
                                    }
                                    let open_entry = self.active_repeats[idx].1;
                                    op_sequence.push(
                                        close_open_entry(open_entry, ev.time, period_start),
                                    );
                                    self.active_repeats.remove(idx);
                                }
                            },
                        }
                    },
                    Operation::Jump { offset } => {
                        let is_on = ev.state_change == StateChange::On;
                        let is_off = ev.state_change == StateChange::Off;
                        match find_key(&self.active_jumps, offset) {
                            None => {
                                if is_on {
                                    self.active_jumps.push(
                                        (
                                            offset,
                                            Entry {
                                                start: ev.time,
                                                duration: None,
                                                operation: ev.operation,
                                            },
                                        ),
                                    );
                                }
                            },
                            Some(idx) => {
                                if is_off {
                                    proof {
                                        lemma_key_index_is_unique(
                                            self.active_jumps@,
                                            offset,
                                            idx as int,
                                        );
                                    }
                                    let open_entry = self.active_jumps[idx].1;
                                    op_sequence.push(
                                        close_open_entry(open_entry, ev.time, period_start),
                                    );
                                    self.active_jumps.remove(idx);
                                }
                            },
                        }
                    },
                    _ => {},
                }
                self.event_buffer.remove(i);
                proof {
                    let post_cur = ResolveState {
                        reverse: self.active_reverse,
                        repeats: self.active_repeats@,
                        jumps: self.active_jumps@,
                        out: op_sequence@,
                    };
                    assert(post_cur =~= dispatch_event(pre_cur, ev, ps));
                    let old_suffix = pre_buf.subrange(i as int, pre_buf.len() as int);
                    let new_suffix = self.event_buffer@.subrange(
                        i as int,
                        self.event_buffer@.len() as int,
                    );
                    assert(old_suffix[0] == ev);
                    assert(old_suffix.drop_first() =~= new_suffix);
                    assert(self.event_buffer@.subrange(0, i as int) =~= pre_buf.subrange(
                        0,
                        i as int,
                    ));
                }
            } else {
                i += 1;
                proof {
                    let old_suffix = pre_buf.subrange(i - 1, pre_buf.len() as int);
                    let new_suffix = self.event_buffer@.subrange(
                        i as int,
                        self.event_buffer@.len() as int,
                    );
                    assert(old_suffix[0] == ev);
                    assert(old_suffix.drop_first() =~= new_suffix);
                    let res = resolve_events(new_suffix, pre_cur, ps, pe);
                    assert(self.event_buffer@.subrange(0, i as int) =~= pre_buf.subrange(
                        0,
                        i - 1,
                    ).push(ev));
                    assert(pre_buf.subrange(0, i - 1) + (seq![ev] + res.0)
                        =~= self.event_buffer@.subrange(0, i as int) + res.0);
                }
            }
        }
        proof {
            assert(self.event_buffer@.subrange(i as int, self.event_buffer@.len() as int)
                =~= Seq::<RecordedEvent>::empty());
            assert(self.event_buffer@.subrange(0, i as int) =~= self.event_buffer@);
            assert(self.event_buffer@ + Seq::<RecordedEvent>::empty() =~= self.event_buffer@);
        }
        let ghost fin = *self;
        let ghost closed_out = op_sequence@;
        let ghost rev_part = match self.active_reverse {
            Some(e) => seq![e],
            None => Seq::<Entry>::empty(),
        };

        if self.active_reverse.is_some() {
            let open_entry = match self.active_reverse {
                Some(e) => e,
                None => unreached(),
            };
            op_sequence.push(open_entry);
        }
        proof {
            assert(op_sequence@ =~= closed_out + rev_part);
        }

        let ghost repeats_mapped = self.active_repeats@.map_values(|p: (BeatFraction, Entry)| p.1);
        let n_repeats = self.active_repeats.len();
        let mut k: usize = 0;
        while k < n_repeats
            invariant
                *self == fin,
                k <= n_repeats,
                n_repeats == self.active_repeats@.len(),
                repeats_mapped == self.active_repeats@.map_values(|p: (BeatFraction, Entry)| p.1),
                op_sequence@ =~= closed_out + rev_part + repeats_mapped.subrange(0, k as int),
            decreases n_repeats - k,
        {
            op_sequence.push(self.active_repeats[k].1);
            proof {
                assert(repeats_mapped.subrange(0, k + 1) =~= repeats_mapped.subrange(
                    0,
                    k as int,
                ).push(self.active_repeats@[k as int].1));
            }
            k += 1;
        }
        proof {
            assert(repeats_mapped.subrange(0, n_repeats as int) =~= repeats_mapped);
        }

        let ghost jumps_mapped = self.active_jumps@.map_values(|p: (BeatFraction, Entry)| p.1);
        let n_jumps = self.active_jumps.len();
        let mut j: usize = 0;
        while j < n_jumps
            invariant
                *self == fin,
                j <= n_jumps,
                n_jumps == self.active_jumps@.len(),
                jumps_mapped == self.active_jumps@.map_values(|p: (BeatFraction, Entry)| p.1),
                op_sequence@ =~= closed_out + rev_part + repeats_mapped + jumps_mapped.subrange(
                    0,
                    j as int,
                ),
            decreases n_jumps - j,
        {
            op_sequence.push(self.active_jumps[j].1);
            proof {
                assert(jumps_mapped.subrange(0, j + 1) =~= jumps_mapped.subrange(
                    0,
                    j as int,
                ).push(self.active_jumps@[j as int].1));
            }
            j += 1;
        }
        proof {
            assert(jumps_mapped.subrange(0, n_jumps as int) =~= jumps_mapped);
            assert(op_sequence@ =~= closed_out + (rev_part + repeats_mapped + jumps_mapped));
        }
        op_sequence
    }
}

/// Close an open entry at `event_time`: the duration runs from whichever
/// is later of the entry's own start and the window start, saturating at
/// zero should the event time precede both.
fn close_open_entry(open_entry: Entry, event_time: SamplePosition, period_start: SamplePosition) -> (r:
    Entry)
    ensures
        r == close_entry(open_entry, event_time as int, period_start as int),
{
    let floor = if open_entry.start >= period_start {
        open_entry.start
    } else {
        period_start
    };
    let duration = if event_time >= floor {
        event_time - floor
    } else {
        0
    };
    Entry { start: open_entry.start, duration: Some(duration), operation: open_entry.operation }
}

} // verus!
