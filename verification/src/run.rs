//! A run over a list of codes, as a state machine.
//!
//! The machine decides; its host reads and writes the image. The host starts
//! with [`begin`], performs the action it is handed, reports what came of it
//! as an [`Event`] to [`step`], and goes on until the action is
//! [`Action::Done`] or [`Action::Fail`]. The image keeps its length during a
//! run, and the machine asks for no byte outside it.

use crate::code::{code_texts, decode, spec_decode, DecodedCode};
use crate::error::ApplyError;
use crate::patch::{base_offset, base_offset_at, Patch};
use crate::platform::{Codec, Mode};
use vstd::prelude::*;

verus! {

/// What the host has to do next.
#[derive(Clone, Copy, Debug, PartialEq, Eq, Structural)]
pub enum Action {
    /// Read the byte at `offset` and report it with [`Event::Byte`].
    Read { offset: u64 },
    /// Store the patch's value at its offset and report [`Event::Written`].
    Write(Patch),
    /// Every code has been applied.
    Done,
    /// The run has failed. Nothing more is to be written.
    Fail(ApplyError),
}

/// What the host reports.
#[derive(Clone, Copy, Debug, PartialEq, Eq, Structural)]
pub enum Event {
    /// The byte that the image holds at the offset of the read.
    Byte(u8),
    /// The patch has been written.
    Written,
    /// The read or the write failed.
    IoFailed,
}

/// Where a run stands.
#[derive(Clone, Copy, Debug, PartialEq, Eq, Structural)]
pub enum State {
    /// The code at position `index` needs the byte at `offset`.
    AwaitingByte { index: usize, offset: u64, code: DecodedCode },
    /// The patch of the code at position `index` is being written.
    AwaitingWrite { index: usize, patch: Patch },
    /// Every code has been applied.
    Finished,
    /// The run has failed.
    Failed(ApplyError),
}

impl State {
    /// The action that the host owes in this state.
    pub open spec fn spec_action(self) -> Action {
        match self {
            State::AwaitingByte { offset, .. } => Action::Read { offset },
            State::AwaitingWrite { patch, .. } => Action::Write(patch),
            State::Finished => Action::Done,
            State::Failed(error) => Action::Fail(error),
        }
    }

    /// The action that the host owes in this state.
    pub fn action(&self) -> (action: Action)
        ensures
            action == self.spec_action(),
    {
        match self {
            State::AwaitingByte { offset, .. } => Action::Read { offset: *offset },
            State::AwaitingWrite { patch, .. } => Action::Write(*patch),
            State::Finished => Action::Done,
            State::Failed(error) => Action::Fail(*error),
        }
    }
}

/// The state in which the run over an image of `image_len` bytes takes up the
/// code at position `index`. Past the end of the list the run is finished. A
/// string that is no code fails the run, and so does an offset outside the
/// image. A code with compare byte asks for the byte at its offset; one
/// without is written at once.
pub open spec fn spec_plan(codes: Seq<Seq<char>>, image_len: nat, index: int) -> State {
    if index >= codes.len() {
        State::Finished
    } else {
        match spec_decode(codes[index]) {
            Err(e) => State::Failed(ApplyError::Decode(e)),
            Ok(code) => {
                let offset = code.spec_offset(base_offset_at(index as nat));
                if offset >= image_len {
                    State::Failed(ApplyError::ImageIo)
                } else if code.compare is Some {
                    State::AwaitingByte { index: index as usize, offset: offset as u64, code }
                } else {
                    State::AwaitingWrite {
                        index: index as usize,
                        patch: Patch { offset: offset as u64, value: code.value },
                    }
                }
            },
        }
    }
}

/// The state in which a run begins: with the first code on a platform that has
/// a decoder, failed on any other.
pub open spec fn spec_begin(mode: Mode, codes: Seq<Seq<char>>, image_len: nat) -> State {
    match mode.spec_platform().spec_codec() {
        Codec::Nes => spec_plan(codes, image_len, 0),
        Codec::Unsupported(_) => State::Failed(ApplyError::PlatformNotImplemented),
    }
}

/// The state that follows `state` on `event`. The byte that was asked for
/// settles what is written. A write that was made leads to the next code. A
/// read or write that failed fails the run. An event that answers nothing
/// that was asked leaves the state as it is; so does any event once the run
/// is finished or has failed.
pub open spec fn spec_step(
    codes: Seq<Seq<char>>,
    image_len: nat,
    state: State,
    event: Event,
) -> State {
    match (state, event) {
        (State::AwaitingByte { index, offset, code }, Event::Byte(live)) => State::AwaitingWrite {
            index,
            patch: Patch { offset, value: code.spec_replacement(live) },
        },
        (State::AwaitingWrite { index, .. }, Event::Written) => spec_plan(
            codes,
            image_len,
            index + 1,
        ),
        (State::AwaitingByte { .. }, Event::IoFailed) => State::Failed(ApplyError::ImageIo),
        (State::AwaitingWrite { .. }, Event::IoFailed) => State::Failed(ApplyError::ImageIo),
        _ => state,
    }
}

/// Takes up the code at position `index`.
fn plan(codes: &[&str], image_len: u64, index: usize) -> (state: State)
    ensures
        state == spec_plan(code_texts(codes@), image_len as nat, index as int),
{
    if index >= codes.len() {
        return State::Finished;
    }
    let code = match decode(codes[index]) {
        Ok(code) => code,
        Err(e) => {
            return State::Failed(ApplyError::Decode(e));
        },
    };
    let offset = match base_offset(index) {
        Some(base) => code.offset(base),
        None => None,
    };
    match offset {
        Some(offset) if offset < image_len => {
            if code.reads_image() {
                State::AwaitingByte { index, offset, code }
            } else {
                State::AwaitingWrite { index, patch: Patch { offset, value: code.value } }
            }
        },
        _ => State::Failed(ApplyError::ImageIo),
    }
}

/// Begins a run over `codes` and an image of `image_len` bytes, on the
/// platform that `mode` selects.
pub fn begin(mode: Mode, codes: &[&str], image_len: u64) -> (first: (State, Action))
    ensures
        first.0 == spec_begin(mode, code_texts(codes@), image_len as nat),
        first.1 == first.0.spec_action(),
{
    let state = match mode.platform().codec() {
        Codec::Nes => plan(codes, image_len, 0),
        Codec::Unsupported(_) => State::Failed(ApplyError::PlatformNotImplemented),
    };
    (state, state.action())
}

/// Moves the run over `codes` and an image of `image_len` bytes from `state`
/// on `event`.
pub fn step(codes: &[&str], image_len: u64, state: State, event: Event) -> (next: (State, Action))
    ensures
        next.0 == spec_step(code_texts(codes@), image_len as nat, state, event),
        next.1 == next.0.spec_action(),
{
    let next = match (state, event) {
        (State::AwaitingByte { index, offset, code }, Event::Byte(live)) => State::AwaitingWrite {
            index,
            patch: Patch { offset, value: code.replacement(live) },
        },
        (State::AwaitingWrite { index, .. }, Event::Written) => {
            if index < codes.len() {
                plan(codes, image_len, index + 1)
            } else {
                State::Finished
            }
        },
        (State::AwaitingByte { .. }, Event::IoFailed) => State::Failed(ApplyError::ImageIo),
        (State::AwaitingWrite { .. }, Event::IoFailed) => State::Failed(ApplyError::ImageIo),
        _ => state,
    };
    (next, next.action())
}

/// A run that is finished or has failed stays so: no event moves it, and it
/// asks for no further read or write.
pub proof fn lemma_rest_is_final(
    codes: Seq<Seq<char>>,
    image_len: nat,
    state: State,
    event: Event,
)
    requires
        state is Finished || state is Failed,
    ensures
        spec_step(codes, image_len, state, event) == state,
        !(state.spec_action() is Read),
        !(state.spec_action() is Write),
{
}

} // verus!
