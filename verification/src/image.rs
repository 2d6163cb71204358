//! A run over an image held in memory.

use crate::code::{all_symbols, code_texts, lemma_decode_total, spec_decode};
use crate::error::ApplyError;
use crate::patch::{base_offset_at, lemma_banks_apart, spec_patch, Patch};
use crate::platform::{Codec, Mode};
use crate::run::{begin, spec_begin, spec_plan, spec_step, step, Action, Event, State};
use vstd::prelude::*;

verus! {

/// What a run leaves behind.
pub struct Outcome {
    /// The image after the run.
    pub image: Seq<u8>,
    /// The patches that were written, in the order of their codes.
    pub patches: Seq<Patch>,
    /// The error that ended the run, if one did.
    pub error: Option<ApplyError>,
}

/// A run that ended early: the patches written before, and the error.
#[derive(Debug, PartialEq, Eq)]
pub struct Failure {
    /// The patches that were written before the run failed.
    pub applied: Vec<Patch>,
    /// Why the run failed.
    pub error: ApplyError,
}

/// What a run over the first `n` codes of `codes` leaves of `image`. The codes
/// are taken in order, each from its own base offset and against the image as
/// the codes before it left it. The first code that gives no patch, or a
/// patch outside the image, ends the run: neither it nor any later code
/// writes.
pub open spec fn run_prefix(codes: Seq<Seq<char>>, image: Seq<u8>, n: nat) -> Outcome
    decreases n,
{
    if n == 0 {
        Outcome { image, patches: Seq::empty(), error: None }
    } else {
        let before = run_prefix(codes, image, (n - 1) as nat);
        if before.error is Some {
            before
        } else {
            match spec_patch(codes[n - 1], before.image, base_offset_at((n - 1) as nat)) {
                Err(e) => Outcome { error: Some(e), ..before },
                Ok(patch) => if patch.offset < before.image.len() {
                    Outcome {
                        image: before.image.update(patch.offset as int, patch.value),
                        patches: before.patches.push(patch),
                        error: None,
                    }
                } else {
                    Outcome { error: Some(ApplyError::ImageIo), ..before }
                },
            }
        }
    }
}

/// What applying `codes` to `image` on the platform that `mode` selects
/// leaves behind. A platform without decoder fails the run before any code.
pub open spec fn spec_apply(mode: Mode, codes: Seq<Seq<char>>, image: Seq<u8>) -> Outcome {
    match mode.spec_platform().spec_codec() {
        Codec::Nes => run_prefix(codes, image, codes.len()),
        Codec::Unsupported(_) => Outcome {
            image,
            patches: Seq::empty(),
            error: Some(ApplyError::PlatformNotImplemented),
        },
    }
}

/// A run that has failed stays as it is, however many codes follow.
pub proof fn lemma_run_stops(codes: Seq<Seq<char>>, image: Seq<u8>, k: nat, n: nat)
    requires
        k <= n,
        run_prefix(codes, image, k).error is Some,
    ensures
        run_prefix(codes, image, n) == run_prefix(codes, image, k),
    decreases n,
{
    if k < n {
        lemma_run_stops(codes, image, k, (n - 1) as nat);
    }
}

/// A run over `n` codes writes at most `n` patches, exactly `n` where it ends
/// without error, and keeps the length of the image.
pub proof fn lemma_run_shape(codes: Seq<Seq<char>>, image: Seq<u8>, n: nat)
    ensures
        run_prefix(codes, image, n).patches.len() <= n,
        run_prefix(codes, image, n).error is None ==> run_prefix(codes, image, n).patches.len()
            == n,
        run_prefix(codes, image, n).image.len() == image.len(),
    decreases n,
{
    if n > 0 {
        lemma_run_shape(codes, image, (n - 1) as nat);
    }
}

/// A run writes its patches in the order of the list: the patch at position
/// `i` is the one of the code at position `i`, at that code's address in the
/// bank of position `i`, inside the image.
pub proof fn lemma_run_in_order(codes: Seq<Seq<char>>, image: Seq<u8>, n: nat, i: int)
    requires
        0 <= i < run_prefix(codes, image, n).patches.len(),
    ensures
        spec_decode(codes[i]) is Ok,
        run_prefix(codes, image, n).patches[i].offset == spec_decode(
            codes[i],
        ).unwrap().spec_offset(base_offset_at(i as nat)),
        run_prefix(codes, image, n).patches[i].offset < image.len(),
    decreases n,
{
    if n > 0 {
        let before = run_prefix(codes, image, (n - 1) as nat);
        lemma_run_shape(codes, image, (n - 1) as nat);
        if i < before.patches.len() {
            lemma_run_in_order(codes, image, (n - 1) as nat, i);
        }
    }
}

/// The patches of a run land in different banks: a patch that comes later in
/// the run lies at a higher offset, whatever the addresses of the two codes.
pub proof fn lemma_run_offsets_increase(
    codes: Seq<Seq<char>>,
    image: Seq<u8>,
    n: nat,
    i: int,
    j: int,
)
    requires
        0 <= i < j < run_prefix(codes, image, n).patches.len(),
    ensures
        run_prefix(codes, image, n).patches[i].offset < run_prefix(
            codes,
            image,
            n,
        ).patches[j].offset,
{
    lemma_run_in_order(codes, image, n, i);
    lemma_run_in_order(codes, image, n, j);
    lemma_banks_apart(codes[i], i as nat, codes[j], j as nat);
}

/// A character outside the alphabet in the code at position `k` fails the
/// whole run, on any platform. Where the platform has a decoder, the run
/// leaves the image as the codes before position `k` left it: neither that
/// code nor any later one writes a byte.
pub proof fn lemma_invalid_character_fails(
    mode: Mode,
    codes: Seq<Seq<char>>,
    image: Seq<u8>,
    k: nat,
)
    requires
        k < codes.len(),
        !all_symbols(codes[k as int]),
    ensures
        spec_apply(mode, codes, image).error is Some,
        spec_apply(mode, codes, image).patches.len() <= k,
        mode.spec_platform().spec_codec() == Codec::Nes ==> {
            &&& spec_apply(mode, codes, image).image == run_prefix(codes, image, k).image
            &&& spec_apply(mode, codes, image).patches == run_prefix(codes, image, k).patches
        },
{
    if mode.spec_platform().spec_codec() == Codec::Nes {
        lemma_run_shape(codes, image, k);
        lemma_decode_total(codes[k as int]);
        if run_prefix(codes, image, k).error is Some {
            lemma_run_stops(codes, image, k, codes.len());
        } else {
            lemma_run_stops(codes, image, k + 1, codes.len());
        }
    }
}

/// Whether a machine in `state`, whose host holds `image` and has written
/// `applied`, stands where the run from `initial` stands after as many codes.
#[verifier::opaque]
spec fn tracks(
    mode: Mode,
    codes: Seq<Seq<char>>,
    initial: Seq<u8>,
    state: State,
    image: Seq<u8>,
    applied: Seq<Patch>,
) -> bool {
    let k = applied.len();
    let so_far = run_prefix(codes, initial, k);
    let decoding = mode.spec_platform().spec_codec() == Codec::Nes;
    &&& so_far.image == image
    &&& so_far.patches == applied
    &&& so_far.error is None
    &&& match state {
        State::AwaitingByte { .. } => decoding && k < codes.len() && state == spec_plan(
            codes,
            image.len(),
            k as int,
        ),
        State::AwaitingWrite { index, patch } => decoding && k < codes.len() && index == k
            && patch.offset < image.len() && spec_patch(codes[k as int], image, base_offset_at(k))
            == Ok::<Patch, ApplyError>(patch),
        State::Finished => decoding && k == codes.len(),
        State::Failed(error) => {
            let end = spec_apply(mode, codes, initial);
            end.image == image && end.patches == applied && end.error == Some(error)
        },
    }
}

/// How far a machine in `state` is from the end of its run, after `done` of
/// `total` codes.
spec fn distance(state: State, total: nat, done: nat) -> int {
    3 * (total - done) + match state {
        State::AwaitingByte { .. } => 2int,
        State::AwaitingWrite { .. } => 1int,
        _ => 0int,
    }
}

/// The state that [`spec_plan`] gives for the code after `applied` tracks the
/// run.
proof fn lemma_plan_tracks(
    mode: Mode,
    codes: Seq<Seq<char>>,
    initial: Seq<u8>,
    image: Seq<u8>,
    applied: Seq<Patch>,
)
    requires
        mode.spec_platform().spec_codec() == Codec::Nes,
        applied.len() <= codes.len() <= usize::MAX,
        image.len() <= u64::MAX,
        run_prefix(codes, initial, applied.len()).image == image,
        run_prefix(codes, initial, applied.len()).patches == applied,
        run_prefix(codes, initial, applied.len()).error is None,
    ensures
        tracks(
            mode,
            codes,
            initial,
            spec_plan(codes, image.len(), applied.len() as int),
            image,
            applied,
        ),
{
    reveal(tracks);
    let k = applied.len();
    let state = spec_plan(codes, image.len(), k as int);
    match state {
        State::Failed(error) => {
            let failed = run_prefix(codes, initial, k + 1);
            assert(failed.error == Some(error));
            assert(failed.image == image);
            assert(failed.patches == applied);
            lemma_run_stops(codes, initial, k + 1, codes.len());
        },
        State::AwaitingWrite { index, .. } => {
            assert(index == k);
        },
        _ => {},
    }
}

/// The state in which a run begins tracks the run.
proof fn lemma_begin_tracks(mode: Mode, codes: Seq<Seq<char>>, initial: Seq<u8>)
    requires
        codes.len() <= usize::MAX,
        initial.len() <= u64::MAX,
    ensures
        tracks(
            mode,
            codes,
            initial,
            spec_begin(mode, codes, initial.len()),
            initial,
            Seq::empty(),
        ),
{
    if mode.spec_platform().spec_codec() == Codec::Nes {
        lemma_plan_tracks(mode, codes, initial, initial, Seq::empty());
    } else {
        reveal(tracks);
    }
}

/// A machine that waits for a byte asks for one inside the image, and that
/// byte leads to a state that tracks the run.
proof fn lemma_byte_tracks(
    mode: Mode,
    codes: Seq<Seq<char>>,
    initial: Seq<u8>,
    state: State,
    image: Seq<u8>,
    applied: Seq<Patch>,
)
    requires
        tracks(mode, codes, initial, state, image, applied),
        codes.len() <= usize::MAX,
        image.len() <= u64::MAX,
        state is AwaitingByte,
    ensures
        state->AwaitingByte_offset < image.len(),
        tracks(
            mode,
            codes,
            initial,
            spec_step(
                codes,
                image.len(),
                state,
                Event::Byte(image[state->AwaitingByte_offset as int]),
            ),
            image,
            applied,
        ),
{
    reveal(tracks);
}

/// A machine that waits for a write asks for one inside the image, and the
/// patch, once written, leads to a state that tracks the run.
proof fn lemma_written_tracks(
    mode: Mode,
    codes: Seq<Seq<char>>,
    initial: Seq<u8>,
    state: State,
    image: Seq<u8>,
    applied: Seq<Patch>,
)
    requires
        tracks(mode, codes, initial, state, image, applied),
        codes.len() <= usize::MAX,
        image.len() <= u64::MAX,
        state is AwaitingWrite,
    ensures
        applied.len() < codes.len(),
        state->AwaitingWrite_patch.offset < image.len(),
        ({
            let patch = state->AwaitingWrite_patch;
            tracks(
                mode,
                codes,
                initial,
                spec_step(codes, image.len(), state, Event::Written),
                image.update(patch.offset as int, patch.value),
                applied.push(patch),
            )
        }),
{
    reveal(tracks);
    let patch = state->AwaitingWrite_patch;
    let k = applied.len();
    let after = run_prefix(codes, initial, k + 1);
    assert(after.image == image.update(patch.offset as int, patch.value));
    assert(after.patches == applied.push(patch));
    assert(after.error is None);
    lemma_plan_tracks(
        mode,
        codes,
        initial,
        image.update(patch.offset as int, patch.value),
        applied.push(patch),
    );
}

/// A machine that tracks the run and has come to rest has left what the run
/// leaves.
proof fn lemma_rest_tracks(
    mode: Mode,
    codes: Seq<Seq<char>>,
    initial: Seq<u8>,
    state: State,
    image: Seq<u8>,
    applied: Seq<Patch>,
)
    requires
        tracks(mode, codes, initial, state, image, applied),
        state is Finished || state is Failed,
    ensures
        spec_apply(mode, codes, initial).image == image,
        spec_apply(mode, codes, initial).patches == applied,
        spec_apply(mode, codes, initial).error == match state {
            State::Failed(error) => Some(error),
            _ => None,
        },
{
    reveal(tracks);
}

/// Applies `codes` in order to `image` on the platform that `mode` selects,
/// and returns the patches that were written. The run stops at the first code
/// that fails; the image then holds the patches of the codes before it, which
/// the failure lists. The run is the one that the machine of [`crate::run`]
/// makes with the image as its host.
pub fn apply_codes(mode: Mode, codes: &[&str], image: &mut Vec<u8>) -> (r: Result<
    Vec<Patch>,
    Failure,
>)
    ensures
        ({
            let end = spec_apply(mode, code_texts(codes@), old(image)@);
            &&& final(image)@ == end.image
            &&& match r {
                Ok(patches) => end.error is None && patches@ == end.patches,
                Err(failure) => end.error == Some(failure.error) && failure.applied@
                    == end.patches,
            }
        }),
{
    let ghost initial = image@;
    let ghost texts = code_texts(codes@);
    let total = codes.len();
    let image_len = image.len() as u64;
    let mut applied: Vec<Patch> = Vec::new();
    let (mut state, mut action) = begin(mode, codes, image_len);
    proof {
        lemma_begin_tracks(mode, texts, initial);
    }
    loop
        invariant
            initial == old(image)@,
            texts == code_texts(codes@),
            texts.len() == total,
            image@.len() == image_len <= usize::MAX,
            action == state.spec_action(),
            tracks(mode, texts, initial, state, image@, applied@),
            applied@.len() <= texts.len(),
        decreases distance(state, texts.len(), applied@.len()),
    {
        let event = match action {
            Action::Read { offset } => {
                proof {
                    lemma_byte_tracks(mode, texts, initial, state, image@, applied@);
                }
                Event::Byte(image[offset as usize])
            },
            Action::Write(patch) => {
                proof {
                    lemma_written_tracks(mode, texts, initial, state, image@, applied@);
                }
                image.set(patch.offset as usize, patch.value);
                applied.push(patch);
                Event::Written
            },
            Action::Done => {
                proof {
                    lemma_rest_tracks(mode, texts, initial, state, image@, applied@);
                }
                return Ok(applied);
            },
            Action::Fail(error) => {
                proof {
                    lemma_rest_tracks(mode, texts, initial, state, image@, applied@);
                }
                return Err(Failure { applied, error });
            },
        };
        let next = step(codes, image_len, state, event);
        state = next.0;
        action = next.1;
    }
}

} // verus!
