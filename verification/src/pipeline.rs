use crate::dedup::{dedup_seq, DedupState};
use crate::error::PipelineError;
use crate::fingerprint::{fingerprint, fingerprint_spec};
use crate::frame::Frame;
use crate::resample::{resample, resampled_of};
use vstd::prelude::*;

verus! {

/// Totals of one stream traversal: the deduplicated fingerprints in
/// emission order, how many frames were seen, and how many fingerprints
/// were emitted.
#[derive(Clone, PartialEq, Eq, Debug)]
pub struct PipelineOutput {
    pub fingerprints: Vec<u64>,
    pub total_count: u64,
    pub emitted_count: u64,
}

/// The fingerprint a well-formed frame reduces to: the gradient hash of
/// its resampled 9-by-8 luma grid.
pub open spec fn frame_fingerprint(f: Frame) -> u64 {
    fingerprint_spec(resampled_of(f.luma(), f.width as int, f.height as int))
}

/// The fingerprints of a frame sequence, in arrival order.
pub open spec fn stream_fingerprints(frames: Seq<Frame>) -> Seq<u64> {
    frames.map_values(|f: Frame| frame_fingerprint(f))
}

/// Every frame of the sequence is well-formed.
pub open spec fn all_wf(frames: Seq<Frame>) -> bool {
    forall|i: int| 0 <= i < frames.len() ==> #[trigger] frames[i].wf()
}

/// The error a malformed frame is rejected with: a zero dimension takes
/// precedence over a buffer of the wrong size.
pub open spec fn frame_error(f: Frame) -> PipelineError {
    if !f.has_valid_dimensions() {
        PipelineError::InvalidDimensions
    } else {
        PipelineError::BufferSizeMismatch
    }
}

/// Push one frame through resample, fingerprint and the dedup reducer.
/// A malformed frame is rejected before it reaches the reducer, leaving
/// the reducer's state untouched; a well-formed frame always reaches it
/// and counts toward the total.
pub fn process_frame(state: &mut DedupState, frame: &Frame) -> (r: Result<
    Option<u64>,
    PipelineError,
>)
    requires
        old(state).total_count < u64::MAX,
        old(state).emitted_count < u64::MAX,
    ensures
        frame.wf() ==> ({
            let fp = frame_fingerprint(*frame);
            &&& final(state).total_count == old(state).total_count + 1
            &&& (old(state).emits(fp) ==> r == Ok::<Option<u64>, PipelineError>(Some(fp))
                && final(state).last_emitted == Some(fp)
                && final(state).emitted_count == old(state).emitted_count + 1)
            &&& (!old(state).emits(fp) ==> r == Ok::<Option<u64>, PipelineError>(None::<u64>)
                && final(state).last_emitted == old(state).last_emitted
                && final(state).emitted_count == old(state).emitted_count)
        }),
        !frame.wf() ==> r == Err::<Option<u64>, PipelineError>(frame_error(*frame))
            && *final(state) == *old(state),
{
    let grid = match resample(frame) {
        Ok(g) => g,
        Err(e) => {
            return Err(e);
        },
    };
    let fp = match fingerprint(&grid) {
        Ok(fp) => fp,
        Err(e) => {
            return Err(e);
        },
    };
    Ok(state.observe(fp))
}

/// Law: the pipeline is deterministic.  Its output is a function of the
/// frame sequence alone, so running it twice over the same frames yields
/// the same fingerprint sequence, and with it the same totals.
pub proof fn lemma_pipeline_deterministic(frames: Seq<Frame>, out1: Seq<u64>, out2: Seq<u64>)
    requires
        out1 == dedup_seq(stream_fingerprints(frames)),
        out2 == dedup_seq(stream_fingerprints(frames)),
    ensures
        out1 == out2,
        out1.len() == out2.len(),
{
}

/// Run the whole pipeline over a frame sequence: resample and fingerprint
/// each frame in order and collapse runs of equal consecutive
/// fingerprints.  Succeeds exactly when every frame is well-formed, and
/// then reports the deduplicated fingerprints and both totals; otherwise
/// the stream is aborted with the error of its first malformed frame.
pub fn run_pipeline(frames: &Vec<Frame>) -> (r: Result<PipelineOutput, PipelineError>)
    requires
        frames@.len() < u64::MAX,
    ensures
        r is Ok <==> all_wf(frames@),
        r is Ok ==> ({
            let out = r->Ok_0;
            &&& out.fingerprints@ == dedup_seq(stream_fingerprints(frames@))
            &&& out.total_count == frames@.len()
            &&& out.emitted_count == out.fingerprints@.len()
        }),
        r is Err ==> (exists|i: int|
            0 <= i < frames@.len() && !(#[trigger] frames@[i].wf()) && (forall|j: int|
                0 <= j < i ==> (#[trigger] frames@[j].wf())) && r == Err::<
                PipelineOutput,
                PipelineError,
            >(frame_error(frames@[i]))),
{
    let mut state = DedupState::new();
    let mut emitted: Vec<u64> = Vec::new();
    let mut i: usize = 0;
    while i < frames.len()
        invariant
            frames@.len() < u64::MAX,
            i <= frames@.len(),
            forall|j: int| 0 <= j < i ==> (#[trigger] frames@[j].wf()),
            state.total_count == i,
            state.emitted_count == emitted@.len(),
            emitted@ == dedup_seq(stream_fingerprints(frames@.take(i as int))),
            state.last_emitted == (if emitted@.len() == 0 {
                None::<u64>
            } else {
                Some(emitted@.last())
            }),
        decreases frames@.len() - i,
    {
        let ghost prefix = stream_fingerprints(frames@.take(i as int));
        let frame = &frames[i];
        let ghost fp = frame_fingerprint(*frame);
        proof {
            crate::dedup::lemma_dedup_seq_len(prefix);
        }
        match process_frame(&mut state, frame) {
            Ok(emission) => {
                proof {
                    assert(frames@.take(i + 1).map_values(|f: Frame| frame_fingerprint(f))
                        =~= prefix.push(fp));
                    assert(prefix.push(fp).drop_last() =~= prefix);
                }
                match emission {
                    Some(fp_out) => {
                        emitted.push(fp_out);
                    },
                    None => {
                    },
                }
            },
            Err(e) => {
                return Err(e);
            },
        }
        i = i + 1;
    }
    proof {
        assert(frames@.take(frames@.len() as int) =~= frames@);
    }
    Ok(
        PipelineOutput {
            fingerprints: emitted,
            total_count: state.total_count,
            emitted_count: state.emitted_count,
        },
    )
}

} // verus!
