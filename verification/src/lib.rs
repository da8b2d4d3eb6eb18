//! A live-looping audio effects engine.
//!
//! Audio is captured into a circular loop buffer and played back while
//! timed operations (reverse, jump, repeat) bend the playback position.
//! The engine composes all operations active at a given sample clock into
//! a single transformed position inside the loop, sample-accurately.

pub mod app_error;
pub mod buffers;
pub mod control_surface;
pub mod event;
pub mod event_recorder;
pub mod op_sequence;
pub mod ops;
pub mod patch_error;
pub mod patterns;
pub mod units;

pub use app_error::AppError;
pub use control_surface::midi::MidiControlSurface;
pub use event::StateChange;
pub use event_recorder::EventRecorder;
pub use op_sequence::OpSequence;
pub use ops::Operation;
pub use patch_error::PatchError;
pub use units::BeatFraction;
pub use units::SampleOffset;
pub use units::SamplePosition;
pub use units::SampleScale;

use vstd::prelude::*;
use vstd::arithmetic::div_mod::{
    lemma_mod_division_less_than_divisor, lemma_mod_self_0, lemma_small_mod,
};

use crate::buffers::{other_buffer, InputBuffer, LoopBuffers};
use crate::event_recorder::{open_entries, resolve_events, RecordedEvent, ResolveState};
use crate::op_sequence::{op_active, spec_op_active, Entry};
use crate::ops::{get_transform, transform_delta};
use crate::units::lemma_mod_of_negative;

verus! {

/// Engine configuration: the sample rate, and the factor that turns beat
/// fractions into samples.
pub struct Config {
    pub sample_rate: u32,
    pub beat_fraction_to_samples: SampleScale,
}

impl Config {
    pub open spec fn valid(&self) -> bool {
        self.beat_fraction_to_samples.valid()
    }
}

impl Default for Config {
    /// 44.1 kHz with one beat lasting one second: a sixteenth of a beat
    /// is 44100 / 16 samples.
    fn default() -> (c: Config)
        ensures
            c.sample_rate == 44100,
            c.beat_fraction_to_samples == (SampleScale { num: 44100u64, den: 16u64 }),
            c.valid(),
    {
        Config {
            sample_rate: 44100,
            beat_fraction_to_samples: SampleScale { num: 44100, den: 16 },
        }
    }
}

/// The delta an entry contributes at `clock`: its operation's transform
/// while the entry is active, and nothing otherwise.
pub open spec fn active_delta(e: Entry, scale: SampleScale, clock: int) -> int {
    if spec_op_active(e, clock) {
        transform_delta(e.operation, scale, clock, e.start as int)
    } else {
        0
    }
}

/// The play clock after every active entry's delta has been added.
/// Deltas are summed, so the result cannot depend on the order in which
/// the entries are visited.
pub open spec fn transformed_clock(ops: Seq<Entry>, scale: SampleScale, play_clock: int) -> int
    decreases ops.len(),
{
    if ops.len() == 0 {
        play_clock
    } else {
        transformed_clock(ops.drop_last(), scale, play_clock) + active_delta(
            ops.last(),
            scale,
            play_clock,
        )
    }
}

/// A transformed clock mapped into the loop: the Euclidean remainder by
/// the loop length, non-negative whatever the sign of the clock.
pub open spec fn wrapped_position(transformed: int, loop_length: int) -> int {
    transformed % loop_length
}

/// The sample the engine emits for `play_clock`.
pub open spec fn spec_next_sample<S>(
    loop_buffer: Seq<S>,
    ops: Seq<Entry>,
    scale: SampleScale,
    play_clock: int,
    loop_length: int,
) -> S {
    loop_buffer[wrapped_position(transformed_clock(ops, scale, play_clock), loop_length)]
}

/// Map a signed transformed clock into `[0, loop_length)`.
///
/// For a non-negative clock this is the plain remainder. For a negative
/// clock the remainder of the magnitude is mirrored from the end of the
/// loop, and a magnitude that is an exact multiple of the length lands on
/// zero rather than on `loop_length`.
pub fn loop_position(transformed_clock: i128, loop_length: SamplePosition) -> (r: SamplePosition)
    requires
        loop_length > 0,
    ensures
        r as int == wrapped_position(transformed_clock as int, loop_length as int),
        r < loop_length,
{
    let l = loop_length as u128;
    if transformed_clock >= 0 {
        ((transformed_clock as u128) % l) as usize
    } else {
        let magnitude = if transformed_clock == i128::MIN {
            0x8000_0000_0000_0000_0000_0000_0000_0000u128
        } else {
            (-transformed_clock) as u128
        };
        let rem = magnitude % l;
        proof {
            lemma_mod_of_negative(magnitude as int, l as int);
        }
        if rem == 0 {
            0
        } else {
            (l - rem) as usize
        }
    }
}

/// The position-mapping law: for every loop length `l > 0` and signed
/// transformed clock `t`, the mapped position lies in `[0, l)`; it agrees
/// with the plain remainder for non-negative `t` and with the mirrored
/// formula `(l - (-t) % l) % l` for negative `t`, including the boundary
/// case where the magnitude is an exact multiple of `l`.
pub proof fn lemma_position_mapping(t: int, l: int)
    requires
        l > 0,
    ensures
        0 <= wrapped_position(t, l) < l,
        t >= 0 ==> wrapped_position(t, l) == t % l,
        t < 0 ==> wrapped_position(t, l) == (l - (-t) % l) % l,
        t < 0 && (-t) % l == 0 ==> wrapped_position(t, l) == 0,
{
    lemma_mod_division_less_than_divisor(t, l);
    if t < 0 {
        let m = -t;
        lemma_mod_of_negative(m, l);
        lemma_mod_division_less_than_divisor(m, l);
        if m % l == 0 {
            lemma_mod_self_0(l);
        } else {
            lemma_small_mod((l - m % l) as nat, l as nat);
        }
    }
}

/// An empty operation sequence is the identity: the engine's sample for
/// `play_clock` is exactly the raw loop buffer at `play_clock % loop_length`.
pub proof fn lemma_empty_sequence_is_identity<S>(
    loop_buffer: Seq<S>,
    scale: SampleScale,
    play_clock: int,
    loop_length: int,
)
    requires
        loop_length > 0,
        play_clock >= 0,
    ensures
        spec_next_sample(loop_buffer, Seq::<Entry>::empty(), scale, play_clock, loop_length)
            == loop_buffer[play_clock % loop_length],
{
    assert(transformed_clock(Seq::<Entry>::empty(), scale, play_clock) == play_clock);
}

/// Composing two entries is commutative: whichever of the two is applied
/// first, the transformed clock comes out the same.
pub proof fn lemma_composition_commutative(
    first: Entry,
    second: Entry,
    scale: SampleScale,
    play_clock: int,
)
    ensures
        transformed_clock(seq![first, second], scale, play_clock) == transformed_clock(
            seq![second, first],
            scale,
            play_clock,
        ),
{
    let ab = seq![first, second];
    let ba = seq![second, first];
    let only_first = seq![first];
    let only_second = seq![second];
    let none = Seq::<Entry>::empty();
    assert(ab.drop_last() =~= only_first);
    assert(ba.drop_last() =~= only_second);
    assert(only_first.drop_last() =~= none);
    assert(only_second.drop_last() =~= none);
    assert(transformed_clock(none, scale, play_clock) == play_clock);
    assert(transformed_clock(only_first, scale, play_clock) == play_clock + active_delta(
        first,
        scale,
        play_clock,
    ));
    assert(transformed_clock(only_second, scale, play_clock) == play_clock + active_delta(
        second,
        scale,
        play_clock,
    ));
    assert(transformed_clock(ab, scale, play_clock) == play_clock + active_delta(
        first,
        scale,
        play_clock,
    ) + active_delta(second, scale, play_clock));
    assert(transformed_clock(ba, scale, play_clock) == play_clock + active_delta(
        second,
        scale,
        play_clock,
    ) + active_delta(first, scale, play_clock));
}

/// How many samples a block renders before the play position wraps the
/// loop: the room left to the end of the buffer, capped at the block
/// length.
pub open spec fn first_span(play_clock: int, loop_length: int, out_len: int) -> int {
    let room = loop_length - play_clock % loop_length;
    if room <= out_len {
        room
    } else {
        out_len
    }
}

/// Pulling one entry out: the transformed clock equals that of the rest
/// plus the entry's own delta, wherever in the sequence it stands.
pub proof fn lemma_transformed_clock_remove(
    ops: Seq<Entry>,
    i: int,
    scale: SampleScale,
    play_clock: int,
)
    requires
        0 <= i < ops.len(),
    ensures
        transformed_clock(ops, scale, play_clock) == transformed_clock(
            ops.remove(i),
            scale,
            play_clock,
        ) + active_delta(ops[i], scale, play_clock),
    decreases ops.len(),
{
    if i == ops.len() - 1 {
        assert(ops.remove(i) =~= ops.drop_last());
    } else {
        lemma_transformed_clock_remove(ops.drop_last(), i, scale, play_clock);
        assert(ops.remove(i).drop_last() =~= ops.drop_last().remove(i));
        assert(ops.remove(i).last() == ops.last());
        assert(ops.drop_last()[i] == ops[i]);
    }
}

/// Composition is order-independent in full: two sequences holding the
/// same entries, however arranged, give the same transformed clock —
/// the deltas are summed, so no iteration order can show through.
pub proof fn lemma_transformed_clock_order_independent(
    ops1: Seq<Entry>,
    ops2: Seq<Entry>,
    scale: SampleScale,
    play_clock: int,
)
    requires
        ops1.to_multiset() == ops2.to_multiset(),
    ensures
        transformed_clock(ops1, scale, play_clock) == transformed_clock(
            ops2,
            scale,
            play_clock,
        ),
    decreases ops1.len(),
{
    broadcast use vstd::seq_lib::group_to_multiset_ensures;
    broadcast use vstd::multiset::group_multiset_axioms;

    if ops1.len() == 0 {
        assert(ops1.to_multiset().len() == ops1.len());
        assert(ops2.to_multiset().len() == ops2.len());
        assert(ops2.len() == 0);
    } else {
        let e = ops1.last();
        assert(ops1.drop_last().push(e) =~= ops1);
        assert(ops1.to_multiset().count(e) > 0);
        assert(ops2.contains(e));
        let i = choose|i: int| 0 <= i < ops2.len() && ops2[i] == e;
        assert(ops1.to_multiset() =~= ops1.drop_last().to_multiset().insert(e));
        assert(ops2.remove(i).to_multiset() =~= ops2.to_multiset().remove(e));
        assert(ops1.drop_last().to_multiset() =~= ops2.remove(i).to_multiset());
        lemma_transformed_clock_order_independent(
            ops1.drop_last(),
            ops2.remove(i),
            scale,
            play_clock,
        );
        lemma_transformed_clock_remove(ops2, i, scale, play_clock);
    }
}

/// The engine: composes the entries active at each play clock into one
/// position inside the loop buffer and reads the sample there.
pub struct Boucle {
    pub event_recorder: EventRecorder,
    pub sample_rate: u32,
    pub beat_fraction_to_samples: SampleScale,
    pub loop_length: SamplePosition,
}

impl Boucle {
    pub open spec fn valid(&self) -> bool {
        self.beat_fraction_to_samples.valid() && self.loop_length > 0
    }

    pub fn new(config: &Config, loop_length: SamplePosition) -> (b: Boucle)
        requires
            config.valid(),
        ensures
            b.sample_rate == config.sample_rate,
            b.beat_fraction_to_samples == config.beat_fraction_to_samples,
            b.loop_length == loop_length,
            b.event_recorder.wf(),
            b.event_recorder.sample_rate == config.sample_rate,
            b.event_recorder.event_buffer@ == Seq::<RecordedEvent>::empty(),
            b.event_recorder.active_reverse is None,
            b.event_recorder.active_jumps@ == Seq::<(BeatFraction, Entry)>::empty(),
            b.event_recorder.active_repeats@ == Seq::<(BeatFraction, Entry)>::empty(),
            b.event_recorder.event_sync_time == 0,
            b.event_recorder.event_sync_sample_position == 0,
            loop_length > 0 ==> b.valid(),
    {
        Boucle {
            event_recorder: EventRecorder::new(config.sample_rate),
            sample_rate: config.sample_rate,
            beat_fraction_to_samples: config.beat_fraction_to_samples,
            loop_length,
        }
    }

    /// Replace the loop length. When it grows, older recordings may play
    /// from the newly exposed part of the buffer; erasing them first is
    /// the caller's choice.
    pub fn set_loop_length(&mut self, loop_length: SamplePosition)
        ensures
            *final(self) == (Boucle { loop_length, ..*old(self) }),
    {
        self.loop_length = loop_length;
    }

    pub fn loop_length(&self) -> (r: SamplePosition)
        ensures
            r == self.loop_length,
    {
        self.loop_length
    }

    /// The output sample for `play_clock`: every active entry's delta is
    /// added to the clock, the sum is wrapped into the loop, and the loop
    /// buffer is read at the wrapped position.
    pub fn next_sample<S: Copy>(
        &self,
        loop_buffer: &[S],
        op_sequence: &OpSequence,
        play_clock: SamplePosition,
    ) -> (s: S)
        requires
            self.valid(),
            loop_buffer@.len() >= self.loop_length,
        ensures
            s == spec_next_sample(
                loop_buffer@,
                op_sequence@,
                self.beat_fraction_to_samples,
                play_clock as int,
                self.loop_length as int,
            ),
    {
        let loop_length = self.loop_length();
        let mut transformed: i128 = play_clock as i128;
        let n = op_sequence.len();
        let mut i: usize = 0;
        while i < n
            invariant
                self.valid(),
                i <= n,
                n == op_sequence@.len(),
                transformed == transformed_clock(
                    op_sequence@.subrange(0, i as int),
                    self.beat_fraction_to_samples,
                    play_clock as int,
                ),
                play_clock as int - (i as int) * 0x8000_0000_0000_0000 <= transformed,
                transformed <= play_clock as int + (i as int) * 0x7fff_ffff_ffff_ffff,
            decreases n - i,
        {
            let entry = &op_sequence[i];
            if op_active(entry, play_clock) {
                let t = get_transform(
                    entry.operation,
                    self.beat_fraction_to_samples,
                    play_clock,
                    entry.start,
                    loop_length,
                );
                transformed = transformed + (t as i128);
            }
            proof {
                let s = op_sequence@;
                assert(s.subrange(0, i + 1).drop_last() =~= s.subrange(0, i as int));
                assert(s.subrange(0, i + 1).last() == s[i as int]);
            }
            i += 1;
        }
        proof {
            assert(op_sequence@.subrange(0, n as int) =~= op_sequence@);
        }
        let pos = loop_position(transformed, loop_length);
        loop_buffer[pos]
    }

    /// Emit the `out_buffer_length` samples for the contiguous clock range
    /// `[play_clock, play_clock + out_buffer_length)`.
    pub fn process_buffer<S: Copy>(
        &self,
        loop_buffer: &[S],
        play_clock: SamplePosition,
        out_buffer_length: usize,
        ops: &OpSequence,
    ) -> (out: Vec<S>)
        requires
            self.valid(),
            loop_buffer@.len() >= self.loop_length,
            play_clock + out_buffer_length <= usize::MAX,
        ensures
            out@.len() == out_buffer_length,
            forall|k: int|
                0 <= k < out_buffer_length ==> out@[k] == spec_next_sample(
                    loop_buffer@,
                    ops@,
                    self.beat_fraction_to_samples,
                    play_clock + k,
                    self.loop_length as int,
                ),
    {
        let mut out: Vec<S> = Vec::new();
        let mut sample: usize = 0;
        while sample < out_buffer_length
            invariant
                self.valid(),
                loop_buffer@.len() >= self.loop_length,
                play_clock + out_buffer_length <= usize::MAX,
                sample <= out_buffer_length,
                out@.len() == sample,
                forall|k: int|
                    0 <= k < sample ==> out@[k] == spec_next_sample(
                        loop_buffer@,
                        ops@,
                        self.beat_fraction_to_samples,
                        play_clock + k,
                        self.loop_length as int,
                    ),
            decreases out_buffer_length - sample,
        {
            let s = self.next_sample(loop_buffer, ops, play_clock + sample);
            out.push(s);
            sample += 1;
        }
        out
    }

    /// Render one output block and advance the play side.
    ///
    /// The engine computes the operation sequence for the span about to
    /// be played, renders it from the current output buffer, flips to the
    /// other buffer when the play position wraps the loop length and
    /// renders the remainder there, publishes the new play clock, and
    /// re-anchors the event recorder's sync point at `now_nanos`.
    pub fn render_block<S: Copy>(
        &mut self,
        buffers: &mut LoopBuffers<S>,
        out_len: usize,
        now_nanos: u64,
    ) -> (out: Vec<S>)
        requires
            old(self).valid(),
            old(self).event_recorder.wf(),
            old(buffers)@.wf(),
            old(self).loop_length == old(buffers)@.input_a.len(),
            out_len <= old(buffers)@.input_a.len(),
            old(buffers)@.play_clock + out_len <= usize::MAX,
        ensures
            out@.len() == out_len,
            final(buffers)@.input_a == old(buffers)@.input_a,
            final(buffers)@.input_b == old(buffers)@.input_b,
            final(buffers)@.current_input == old(buffers)@.current_input,
            final(buffers)@.record_pos == old(buffers)@.record_pos,
            final(buffers)@.play_clock == old(buffers)@.play_clock + out_len,
            final(self).sample_rate == old(self).sample_rate,
            final(self).beat_fraction_to_samples == old(self).beat_fraction_to_samples,
            final(self).loop_length == old(self).loop_length,
            final(self).event_recorder.wf(),
            final(self).event_recorder.sample_rate == old(self).event_recorder.sample_rate,
            final(self).event_recorder.event_sync_time == now_nanos,
            final(self).event_recorder.event_sync_sample_position == old(buffers)@.play_clock
                + out_len,
            ({
                let len = old(buffers)@.input_a.len() as int;
                let pc0 = old(buffers)@.play_clock;
                let scale = old(self).beat_fraction_to_samples;
                let span = first_span(pc0, len, out_len as int);
                let first = resolve_events(
                    old(self).event_recorder.event_buffer@,
                    old(self).event_recorder.resolution(),
                    pc0,
                    pc0 + span,
                );
                let ops1 = first.1.out + open_entries(first.1);
                let buf1 = if old(buffers)@.current_output == InputBuffer::A {
                    old(buffers)@.input_a
                } else {
                    old(buffers)@.input_b
                };
                &&& forall|k: int|
                    0 <= k < span ==> out@[k] == spec_next_sample(buf1, ops1, scale, pc0 + k, len)
                &&& if span == out_len {
                    &&& final(self).event_recorder.event_buffer@ == first.0
                    &&& final(self).event_recorder.active_reverse == first.1.reverse
                    &&& final(self).event_recorder.active_repeats@ == first.1.repeats
                    &&& final(self).event_recorder.active_jumps@ == first.1.jumps
                    &&& final(buffers)@.current_output == old(buffers)@.current_output
                } else {
                    let second_init = ResolveState {
                        reverse: first.1.reverse,
                        repeats: first.1.repeats,
                        jumps: first.1.jumps,
                        out: Seq::<Entry>::empty(),
                    };
                    let second = resolve_events(first.0, second_init, pc0 + span, pc0 + out_len);
                    let ops2 = second.1.out + open_entries(second.1);
                    let buf2 = if old(buffers)@.current_output == InputBuffer::A {
                        old(buffers)@.input_b
                    } else {
                        old(buffers)@.input_a
                    };
                    &&& forall|k: int|
                        span <= k < out_len ==> out@[k] == spec_next_sample(
                            buf2,
                            ops2,
                            scale,
                            pc0 + k,
                            len,
                        )
                    &&& final(self).event_recorder.event_buffer@ == second.0
                    &&& final(self).event_recorder.active_reverse == second.1.reverse
                    &&& final(self).event_recorder.active_repeats@ == second.1.repeats
                    &&& final(self).event_recorder.active_jumps@ == second.1.jumps
                    &&& final(buffers)@.current_output == other_buffer(
                        old(buffers)@.current_output,
                    )
                }
            }),
    {
        let buffer_length = buffers.input_a.len();
        let play_clock_start = buffers.play_clock;
        let play_pos = play_clock_start % buffer_length;
        let room = buffer_length - play_pos;
        let span = if room <= out_len {
            room
        } else {
            out_len
        };
        let ops = self.event_recorder.ops_for_period(play_clock_start, span);
        let mut out = match buffers.current_output {
            InputBuffer::A => self.process_buffer(
                buffers.input_a.as_slice(),
                play_clock_start,
                span,
                &ops,
            ),
            InputBuffer::B => self.process_buffer(
                buffers.input_b.as_slice(),
                play_clock_start,
                span,
                &ops,
            ),
        };
        let mut play_clock = play_clock_start + span;
        if span < out_len {
            buffers.current_output = match buffers.current_output {
                InputBuffer::A => InputBuffer::B,
                InputBuffer::B => InputBuffer::A,
            };
            let span_2 = out_len - span;
            let ops_2 = self.event_recorder.ops_for_period(play_clock, span_2);
            let mut out_2 = match buffers.current_output {
                InputBuffer::A => self.process_buffer(
                    buffers.input_a.as_slice(),
                    play_clock,
                    span_2,
                    &ops_2,
                ),
                InputBuffer::B => self.process_buffer(
                    buffers.input_b.as_slice(),
                    play_clock,
                    span_2,
                    &ops_2,
                ),
            };
            out.append(&mut out_2);
            play_clock = play_clock + span_2;
        }
        buffers.play_clock = play_clock;
        self.event_recorder.set_event_sync_point(now_nanos, play_clock);
        out
    }
}

} // verus!
