//! The double-buffered loop store.
//!
//! One buffer records while the other plays. Each side walks its buffer
//! with a monotonically increasing clock; wrapping into the fixed loop
//! length happens only at the point of indexing, and when a side's
//! position wraps it flips to the other buffer.

use vstd::prelude::*;

use crate::units::SamplePosition;

verus! {

/// Which of the two loop buffers a side (input or output) is using.
#[derive(Clone, Copy, Debug, PartialEq, Eq, Structural)]
pub enum InputBuffer {
    A,
    B,
}

/// The buffer a side flips to at wraparound.
pub open spec fn other_buffer(b: InputBuffer) -> InputBuffer {
    match b {
        InputBuffer::A => InputBuffer::B,
        InputBuffer::B => InputBuffer::A,
    }
}

/// Two loop buffers of the fixed loop length, with the record and play
/// clocks and each side's current buffer designation.
pub struct LoopBuffers<S> {
    pub input_a: Vec<S>,
    pub input_b: Vec<S>,
    pub current_input: InputBuffer,
    pub current_output: InputBuffer,
    pub record_pos: SamplePosition,
    pub play_clock: SamplePosition,
}

/// The mathematical image of `LoopBuffers`.
#[verifier::ext_equal]
pub ghost struct BuffersModel<S> {
    pub input_a: Seq<S>,
    pub input_b: Seq<S>,
    pub current_input: InputBuffer,
    pub current_output: InputBuffer,
    pub record_pos: int,
    pub play_clock: int,
}

impl<S> View for LoopBuffers<S> {
    type V = BuffersModel<S>;

    open spec fn view(&self) -> BuffersModel<S> {
        BuffersModel {
            input_a: self.input_a@,
            input_b: self.input_b@,
            current_input: self.current_input,
            current_output: self.current_output,
            record_pos: self.record_pos as int,
            play_clock: self.play_clock as int,
        }
    }
}

impl<S> BuffersModel<S> {
    /// Both buffers share one positive length and the record position
    /// lies inside it.
    pub open spec fn wf(&self) -> bool {
        &&& self.input_a.len() == self.input_b.len()
        &&& self.input_a.len() > 0
        &&& 0 <= self.record_pos < self.input_a.len()
        &&& 0 <= self.play_clock
    }
}

/// One recorded sample: it lands at the record position of the current
/// input buffer; then the position advances, wrapping to zero — and
/// flipping the input side to the other buffer — when it reaches the
/// loop length.
pub open spec fn record_one<S>(m: BuffersModel<S>, s: S) -> BuffersModel<S> {
    let written = if m.current_input == InputBuffer::A {
        BuffersModel { input_a: m.input_a.update(m.record_pos, s), ..m }
    } else {
        BuffersModel { input_b: m.input_b.update(m.record_pos, s), ..m }
    };
    if m.record_pos + 1 >= m.input_a.len() {
        BuffersModel { current_input: other_buffer(m.current_input), record_pos: 0, ..written }
    } else {
        BuffersModel { record_pos: m.record_pos + 1, ..written }
    }
}

/// A chunk of recorded samples folded in one after another.
pub open spec fn record_fold<S>(m: BuffersModel<S>, data: Seq<S>) -> BuffersModel<S>
    decreases data.len(),
{
    if data.len() == 0 {
        m
    } else {
        record_one(record_fold(m, data.drop_last()), data.last())
    }
}

/// Recording touches only the input side: well-formedness, the buffer
/// lengths, and the whole play side survive any chunk.
pub proof fn lemma_record_fold_frame<S>(m: BuffersModel<S>, data: Seq<S>)
    requires
        m.wf(),
    ensures
        record_fold(m, data).wf(),
        record_fold(m, data).input_a.len() == m.input_a.len(),
        record_fold(m, data).input_b.len() == m.input_b.len(),
        record_fold(m, data).current_output == m.current_output,
        record_fold(m, data).play_clock == m.play_clock,
    decreases data.len(),
{
    if data.len() > 0 {
        lemma_record_fold_frame(m, data.drop_last());
    }
}

/// A vector of `n` copies of `fill`.
fn filled_vec<S: Copy>(n: usize, fill: S) -> (v: Vec<S>)
    ensures
        v@.len() == n,
        forall|i: int| 0 <= i < n ==> v@[i] == fill,
{
    let mut v: Vec<S> = Vec::new();
    let mut k: usize = 0;
    while k < n
        invariant
            k <= n,
            v@.len() == k,
            forall|i: int| 0 <= i < k ==> v@[i] == fill,
        decreases n - k,
    {
        v.push(fill);
        k += 1;
    }
    v
}

/// Create the pair of loop buffers, each `buffer_size_samples` long and
/// filled with `silence`. Playback starts on buffer A while recording
/// goes to buffer B.
pub fn create_buffers<S: Copy>(buffer_size_samples: usize, silence: S) -> (r: LoopBuffers<S>)
    requires
        buffer_size_samples > 0,
    ensures
        r@.wf(),
        r@.input_a.len() == buffer_size_samples,
        forall|i: int| 0 <= i < buffer_size_samples ==> r@.input_a[i] == silence,
        forall|i: int| 0 <= i < buffer_size_samples ==> r@.input_b[i] == silence,
        r@.current_input == InputBuffer::B,
        r@.current_output == InputBuffer::A,
        r@.record_pos == 0,
        r@.play_clock == 0,
{
    LoopBuffers {
        input_a: filled_vec(buffer_size_samples, silence),
        input_b: filled_vec(buffer_size_samples, silence),
        current_input: InputBuffer::B,
        current_output: InputBuffer::A,
        record_pos: 0,
        play_clock: 0,
    }
}

/// Record a contiguous chunk of freshly captured audio: each sample goes
/// to the current input buffer at the record position, which wraps and
/// flips the input side at the loop length. The play side is untouched.
pub fn record_chunk<S: Copy>(buffers: &mut LoopBuffers<S>, data: &[S])
    requires
        old(buffers)@.wf(),
    ensures
        final(buffers)@ == record_fold(old(buffers)@, data@),
        final(buffers)@.wf(),
        final(buffers)@.input_a.len() == old(buffers)@.input_a.len(),
        final(buffers)@.current_output == old(buffers)@.current_output,
        final(buffers)@.play_clock == old(buffers)@.play_clock,
{
    proof {
        lemma_record_fold_frame(old(buffers)@, data@);
    }
    let buffer_length = buffers.input_a.len();
    let n = data.len();
    let mut k: usize = 0;
    while k < n
        invariant
            k <= n,
            n == data@.len(),
            old(buffers)@.wf(),
            buffers@.wf(),
            buffer_length == buffers@.input_a.len(),
            buffers@ == record_fold(old(buffers)@, data@.subrange(0, k as int)),
        decreases n - k,
    {
        let ghost pre = buffers@;
        let s = data[k];
        let pos = buffers.record_pos;
        match buffers.current_input {
            InputBuffer::A => {
                buffers.input_a[pos] = s;
            },
            InputBuffer::B => {
                buffers.input_b[pos] = s;
            },
        }
        let next = pos + 1;
        if next >= buffer_length {
            buffers.current_input = match buffers.current_input {
                InputBuffer::A => InputBuffer::B,
                InputBuffer::B => InputBuffer::A,
            };
            buffers.record_pos = 0;
        } else {
            buffers.record_pos = next;
        }
        proof {
            assert(buffers@ =~= record_one(pre, data@[k as int]));
            assert(data@.subrange(0, k + 1).drop_last() =~= data@.subrange(0, k as int));
            assert(data@.subrange(0, k + 1).last() == data@[k as int]);
            lemma_record_fold_frame(old(buffers)@, data@.subrange(0, k + 1));
        }
        k += 1;
    }
    proof {
        assert(data@.subrange(0, n as int) =~= data@);
    }
}

/// Fill both loop buffers from a decoded recording: each position takes
/// the recording's sample where one exists, and `silence` past its end.
pub fn load_loop<S: Copy>(buffers: &mut LoopBuffers<S>, samples: &[S], silence: S)
    requires
        old(buffers)@.wf(),
    ensures
        final(buffers)@.wf(),
        final(buffers)@.input_a.len() == old(buffers)@.input_a.len(),
        final(buffers)@.input_b.len() == old(buffers)@.input_b.len(),
        forall|i: int|
            0 <= i < final(buffers)@.input_a.len() ==> final(buffers)@.input_a[i] == (if i
                < samples@.len() {
                samples@[i]
            } else {
                silence
            }),
        forall|i: int|
            0 <= i < final(buffers)@.input_b.len() ==> final(buffers)@.input_b[i] == (if i
                < samples@.len() {
                samples@[i]
            } else {
                silence
            }),
        final(buffers)@.current_input == old(buffers)@.current_input,
        final(buffers)@.current_output == old(buffers)@.current_output,
        final(buffers)@.record_pos == old(buffers)@.record_pos,
        final(buffers)@.play_clock == old(buffers)@.play_clock,
{
    let buffer_length = buffers.input_a.len();
    let mut i: usize = 0;
    while i < buffer_length
        invariant
            i <= buffer_length,
            buffers@.wf(),
            buffer_length == buffers@.input_a.len(),
            buffers@.input_b.len() == old(buffers)@.input_b.len(),
            forall|j: int|
                0 <= j < i ==> buffers@.input_a[j] == (if j < samples@.len() {
                    samples@[j]
                } else {
                    silence
                }),
            forall|j: int|
                0 <= j < i ==> buffers@.input_b[j] == (if j < samples@.len() {
                    samples@[j]
                } else {
                    silence
                }),
            buffers@.current_input == old(buffers)@.current_input,
            buffers@.current_output == old(buffers)@.current_output,
            buffers@.record_pos == old(buffers)@.record_pos,
            buffers@.play_clock == old(buffers)@.play_clock,
        decreases buffer_length - i,
    {
        let s = if i < samples.len() {
            samples[i]
        } else {
            silence
        };
        buffers.input_a[i] = s;
        buffers.input_b[i] = s;
        i += 1;
    }
}

} // verus!
