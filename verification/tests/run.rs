use genie_patch::code::{DecodeError, DecodedCode};
use genie_patch::error::ApplyError;
use genie_patch::image::{apply_codes, Failure};
use genie_patch::patch::Patch;
use genie_patch::platform::Mode;
use genie_patch::run::{begin, step, Action, Event, State};

/// Length of an image of four banks.
const LEN: u64 = 0x10 + 4 * 0x8000;

fn banks_of_nops(banks: usize) -> Vec<u8> {
    vec![0xea; 0x10 + banks * 0x8000]
}

#[test]
fn empty_list_is_done_at_once() {
    let codes: [&str; 0] = [];
    assert_eq!(begin(Mode::NES, &codes, LEN), (State::Finished, Action::Done));
    let mut image = banks_of_nops(1);
    assert_eq!(apply_codes(Mode::Nintendo, &codes, &mut image), Ok(vec![]));
    assert_eq!(image, banks_of_nops(1));
}

#[test]
fn six_letter_code_is_written_without_a_read() {
    let codes = ["SXIOPO"];
    let patch = Patch { offset: 0x11e9, value: 0xad };
    let (state, action) = begin(Mode::NES, &codes, LEN);
    assert_eq!(state, State::AwaitingWrite { index: 0, patch });
    assert_eq!(action, Action::Write(patch));
    assert_eq!(state.action(), action);
    assert_eq!(step(&codes, LEN, state, Event::Written), (State::Finished, Action::Done));
}

#[test]
fn eight_letter_code_asks_for_the_live_byte() {
    let codes = ["ZEXPYGLA"];
    let code = DecodedCode { address: 0x14a7, value: 0x02, compare: Some(0x03) };
    let (state, action) = begin(Mode::Nintendo, &codes, LEN);
    assert_eq!(state, State::AwaitingByte { index: 0, offset: 0x14b7, code });
    assert_eq!(action, Action::Read { offset: 0x14b7 });

    let applied = Patch { offset: 0x14b7, value: 0x02 };
    assert_eq!(
        step(&codes, LEN, state, Event::Byte(0x03)),
        (State::AwaitingWrite { index: 0, patch: applied }, Action::Write(applied))
    );
    let kept = Patch { offset: 0x14b7, value: 0xea };
    let (state, action) = step(&codes, LEN, state, Event::Byte(0xea));
    assert_eq!(state, State::AwaitingWrite { index: 0, patch: kept });
    assert_eq!(action, Action::Write(kept));
    assert_eq!(step(&codes, LEN, state, Event::Written), (State::Finished, Action::Done));
}

#[test]
fn each_code_moves_one_bank_on() {
    let codes = ["SXIOPO", "SXIOPO", "AAAAAA", "ZEXPYGLA"];
    let (state, action) = begin(Mode::NES, &codes, LEN);
    assert_eq!(action, Action::Write(Patch { offset: 0x10 + 0x11d9, value: 0xad }));
    let (state, action) = step(&codes, LEN, state, Event::Written);
    assert_eq!(action, Action::Write(Patch { offset: 0x8010 + 0x11d9, value: 0xad }));
    let (state, action) = step(&codes, LEN, state, Event::Written);
    assert_eq!(action, Action::Write(Patch { offset: 0x1_0010, value: 0x00 }));
    let (state, action) = step(&codes, LEN, state, Event::Written);
    assert_eq!(action, Action::Read { offset: 0x1_8010 + 0x14a7 });
    let (state, action) = step(&codes, LEN, state, Event::Byte(0x03));
    assert_eq!(action, Action::Write(Patch { offset: 0x1_8010 + 0x14a7, value: 0x02 }));
    assert_eq!(step(&codes, LEN, state, Event::Written), (State::Finished, Action::Done));
}

#[test]
fn bad_first_code_fails_the_run_at_once() {
    let error = ApplyError::Decode(DecodeError::InvalidCharacter);
    assert_eq!(
        begin(Mode::NES, &["SXIOPQ", "SXIOPO"], LEN),
        (State::Failed(error), Action::Fail(error))
    );
    let error = ApplyError::Decode(DecodeError::InvalidLength);
    assert_eq!(begin(Mode::NES, &["SXIOPOS"], LEN), (State::Failed(error), Action::Fail(error)));
    assert_eq!(begin(Mode::NES, &[""], LEN), (State::Failed(error), Action::Fail(error)));
}

#[test]
fn bad_later_code_fails_the_run_when_it_is_reached() {
    let codes = ["SXIOPO", "GOSS!P", "AAAAAA"];
    let (state, action) = begin(Mode::NES, &codes, LEN);
    assert_eq!(action, Action::Write(Patch { offset: 0x11e9, value: 0xad }));
    let error = ApplyError::Decode(DecodeError::InvalidCharacter);
    let (state, action) = step(&codes, LEN, state, Event::Written);
    assert_eq!(state, State::Failed(error));
    assert_eq!(action, Action::Fail(error));
    for event in [Event::Written, Event::Byte(0), Event::IoFailed] {
        assert_eq!(step(&codes, LEN, state, event), (State::Failed(error), Action::Fail(error)));
    }
}

#[test]
fn other_platforms_fail_before_any_code() {
    let error = ApplyError::PlatformNotImplemented;
    for mode in [
        Mode::GameBoy,
        Mode::GB,
        Mode::GameGear,
        Mode::GG,
        Mode::MasterSystem,
        Mode::SMS,
        Mode::Genesis,
        Mode::SG,
        Mode::MegaDrive,
        Mode::MD,
        Mode::SuperNintendo,
        Mode::SNES,
    ] {
        assert_eq!(begin(mode, &["SXIOPO"], LEN), (State::Failed(error), Action::Fail(error)));
        assert_eq!(begin(mode, &[], LEN), (State::Failed(error), Action::Fail(error)));
        assert_eq!(begin(mode, &["bad"], LEN), (State::Failed(error), Action::Fail(error)));
        let mut image = banks_of_nops(1);
        assert_eq!(
            apply_codes(mode, &["SXIOPO"], &mut image),
            Err(Failure { applied: vec![], error })
        );
        assert_eq!(image, banks_of_nops(1));
    }
}

#[test]
fn failed_read_or_write_fails_the_run() {
    let codes = ["ZEXPYGLA", "SXIOPO"];
    let error = ApplyError::ImageIo;
    let (reading, _) = begin(Mode::NES, &codes, LEN);
    assert_eq!(
        step(&codes, LEN, reading, Event::IoFailed),
        (State::Failed(error), Action::Fail(error))
    );
    let (writing, _) = step(&codes, LEN, reading, Event::Byte(0x03));
    assert_eq!(
        step(&codes, LEN, writing, Event::IoFailed),
        (State::Failed(error), Action::Fail(error))
    );
}

#[test]
fn event_that_answers_nothing_is_ignored() {
    let codes = ["ZEXPYGLA", "SXIOPO"];
    let (reading, read) = begin(Mode::NES, &codes, LEN);
    assert_eq!(step(&codes, LEN, reading, Event::Written), (reading, read));
    let (writing, write) = step(&codes, LEN, reading, Event::Byte(0x03));
    assert_eq!(step(&codes, LEN, writing, Event::Byte(0x55)), (writing, write));
}

#[test]
fn machine_asks_for_no_byte_outside_the_image() {
    let error = ApplyError::ImageIo;
    let failed = (State::Failed(error), Action::Fail(error));
    // The offset of the first code is 0x11e9.
    assert_eq!(begin(Mode::NES, &["SXIOPO"], 0), failed);
    assert_eq!(begin(Mode::NES, &["SXIOPO"], 0x11e9), failed);
    assert_eq!(
        begin(Mode::NES, &["SXIOPO"], 0x11ea).1,
        Action::Write(Patch { offset: 0x11e9, value: 0xad })
    );
    // The offset of the first code is 0x14b7.
    assert_eq!(begin(Mode::NES, &["ZEXPYGLA"], 0x14b7), failed);
    assert_eq!(begin(Mode::NES, &["ZEXPYGLA"], 0x14b8).1, Action::Read { offset: 0x14b7 });
    // The second code lies one bank on.
    let codes = ["AAAAAA", "AAAAAA"];
    let (state, action) = begin(Mode::NES, &codes, 0x8010);
    assert_eq!(action, Action::Write(Patch { offset: 0x10, value: 0 }));
    assert_eq!(step(&codes, 0x8010, state, Event::Written), failed);
    assert_eq!(
        step(&codes, 0x8011, state, Event::Written).1,
        Action::Write(Patch { offset: 0x8010, value: 0 })
    );
}

#[test]
fn bad_code_is_reported_before_its_offset() {
    let error = ApplyError::Decode(DecodeError::InvalidCharacter);
    assert_eq!(begin(Mode::NES, &["SXIOPQ"], 0), (State::Failed(error), Action::Fail(error)));
}

#[test]
fn finished_run_stays_finished() {
    let codes = ["SXIOPO"];
    for event in [Event::Written, Event::Byte(7), Event::IoFailed] {
        assert_eq!(step(&codes, LEN, State::Finished, event), (State::Finished, Action::Done));
    }
}

#[test]
fn write_past_the_end_of_the_list_finishes() {
    let codes = ["SXIOPO"];
    let patch = Patch { offset: 0, value: 0 };
    for index in [1, 2, usize::MAX] {
        assert_eq!(
            step(&codes, LEN, State::AwaitingWrite { index, patch }, Event::Written),
            (State::Finished, Action::Done)
        );
    }
}

#[test]
fn two_six_letter_codes_land_one_bank_apart() {
    let mut image = banks_of_nops(2);
    let patches = apply_codes(Mode::NES, &["SXIOPO", "SXIOPO"], &mut image).unwrap();
    assert_eq!(
        patches,
        vec![Patch { offset: 0x11e9, value: 0xad }, Patch { offset: 0x91e9, value: 0xad }]
    );
    assert_eq!(patches[1].offset - patches[0].offset, 0x8000);
    assert_eq!(patches[0].offset - 0x10, 0x11d9);
    assert_eq!(patches[1].offset - 0x8010, 0x11d9);
    let mut expected = banks_of_nops(2);
    expected[0x11e9] = 0xad;
    expected[0x91e9] = 0xad;
    assert_eq!(image, expected);
}

#[test]
fn codes_are_applied_in_the_order_of_the_list() {
    let mut image = banks_of_nops(3);
    let patches = apply_codes(Mode::NES, &["GOSSIP", "PIGPOG", "APZLGI"], &mut image).unwrap();
    assert_eq!(
        patches,
        vec![
            Patch { offset: 0x10 + 0x51dd, value: 0x14 },
            Patch { offset: 0x8010 + 0x1c41, value: 0x51 },
            Patch { offset: 0x1_0010 + 0x3524, value: 0x10 },
        ]
    );
    let mut image = banks_of_nops(3);
    let patches = apply_codes(Mode::NES, &["APZLGI", "PIGPOG", "GOSSIP"], &mut image).unwrap();
    assert_eq!(
        patches,
        vec![
            Patch { offset: 0x10 + 0x3524, value: 0x10 },
            Patch { offset: 0x8010 + 0x1c41, value: 0x51 },
            Patch { offset: 0x1_0010 + 0x51dd, value: 0x14 },
        ]
    );
    assert!(patches[0].offset < patches[1].offset && patches[1].offset < patches[2].offset);
}

#[test]
fn mismatching_compare_rewrites_the_byte_it_found() {
    let mut image = banks_of_nops(1);
    let before = image.clone();
    let patches = apply_codes(Mode::NES, &["ZEXPYGLA"], &mut image).unwrap();
    assert_eq!(patches, vec![Patch { offset: 0x14b7, value: 0xea }]);
    assert_eq!(image, before);
}

#[test]
fn matching_compare_stores_the_value() {
    let mut image = banks_of_nops(1);
    image[0x14b7] = 0x03;
    let patches = apply_codes(Mode::NES, &["ZEXPYGLA"], &mut image).unwrap();
    assert_eq!(patches, vec![Patch { offset: 0x14b7, value: 0x02 }]);
    let mut expected = banks_of_nops(1);
    expected[0x14b7] = 0x02;
    assert_eq!(image, expected);
}

#[test]
fn mixed_run_over_three_banks() {
    let mut image = banks_of_nops(3);
    image[0x8010 + 0x14a7] = 0x03;
    image[0x1_0010 + 0x1b0a] = 0xdd;
    let patches = apply_codes(Mode::NES, &["SXIOPO", "ZEXPYGLA", "TYEOXUKS"], &mut image).unwrap();
    assert_eq!(
        patches,
        vec![
            Patch { offset: 0x11e9, value: 0xad },
            Patch { offset: 0x94b7, value: 0x02 },
            Patch { offset: 0x1_1b1a, value: 0xdd },
        ]
    );
    let mut expected = banks_of_nops(3);
    expected[0x11e9] = 0xad;
    expected[0x94b7] = 0x02;
    expected[0x1_1b1a] = 0xdd;
    assert_eq!(image, expected);
}

#[test]
fn invalid_character_stops_the_run_before_its_code() {
    let mut image = banks_of_nops(3);
    let result = apply_codes(Mode::NES, &["SXIOPO", "GOSS1P", "APZLGI"], &mut image);
    assert_eq!(
        result,
        Err(Failure {
            applied: vec![Patch { offset: 0x11e9, value: 0xad }],
            error: ApplyError::Decode(DecodeError::InvalidCharacter),
        })
    );
    let mut expected = banks_of_nops(3);
    expected[0x11e9] = 0xad;
    assert_eq!(image, expected);
}

#[test]
fn invalid_character_in_first_code_writes_nothing() {
    let mut image = banks_of_nops(2);
    let result = apply_codes(Mode::NES, &["SXI0PO", "SXIOPO"], &mut image);
    assert_eq!(
        result,
        Err(Failure { applied: vec![], error: ApplyError::Decode(DecodeError::InvalidCharacter) })
    );
    assert_eq!(image, banks_of_nops(2));
}

#[test]
fn invalid_length_stops_the_run_before_its_code() {
    let mut image = banks_of_nops(2);
    let result = apply_codes(Mode::NES, &["AAAAAA", "SXIOPOS"], &mut image);
    assert_eq!(
        result,
        Err(Failure {
            applied: vec![Patch { offset: 0x10, value: 0x00 }],
            error: ApplyError::Decode(DecodeError::InvalidLength),
        })
    );
    let mut expected = banks_of_nops(2);
    expected[0x10] = 0x00;
    assert_eq!(image, expected);
}

#[test]
fn write_outside_the_image_stops_the_run() {
    // One bank only: the second code's bank is not there.
    let mut image = banks_of_nops(1);
    let result = apply_codes(Mode::NES, &["SXIOPO", "SXIOPO", "AAAAAA"], &mut image);
    assert_eq!(
        result,
        Err(Failure {
            applied: vec![Patch { offset: 0x11e9, value: 0xad }],
            error: ApplyError::ImageIo,
        })
    );
    let mut expected = banks_of_nops(1);
    expected[0x11e9] = 0xad;
    assert_eq!(image, expected);
    assert_eq!(image.len(), 0x8010);
}

#[test]
fn read_outside_the_image_stops_the_run() {
    let mut image = vec![0x03u8; 0x14b7];
    let result = apply_codes(Mode::NES, &["ZEXPYGLA"], &mut image);
    assert_eq!(result, Err(Failure { applied: vec![], error: ApplyError::ImageIo }));
    assert_eq!(image, vec![0x03u8; 0x14b7]);
    let mut image = vec![0x03u8; 0x14b8];
    let result = apply_codes(Mode::NES, &["ZEXPYGLA"], &mut image);
    assert_eq!(result, Ok(vec![Patch { offset: 0x14b7, value: 0x02 }]));
}

#[test]
fn empty_image_takes_no_patch() {
    let mut image: Vec<u8> = Vec::new();
    let result = apply_codes(Mode::NES, &["AAAAAA"], &mut image);
    assert_eq!(result, Err(Failure { applied: vec![], error: ApplyError::ImageIo }));
    assert!(image.is_empty());
}

#[test]
fn run_in_memory_follows_the_machine() {
    let codes = ["SXIOPO", "ZEXPYGLA", "TYEOXUKS", "GOSSIP"];
    let mut image = banks_of_nops(4);
    image[0x94b7] = 0x03;
    let mut by_hand = image.clone();
    let mut written = Vec::new();
    let (mut state, mut action) = begin(Mode::NES, &codes, by_hand.len() as u64);
    loop {
        let event = match action {
            Action::Read { offset } => Event::Byte(by_hand[offset as usize]),
            Action::Write(patch) => {
                by_hand[patch.offset as usize] = patch.value;
                written.push(patch);
                Event::Written
            }
            Action::Done => break,
            Action::Fail(error) => panic!("{:?}", error),
        };
        (state, action) = step(&codes, by_hand.len() as u64, state, event);
    }
    assert_eq!(apply_codes(Mode::NES, &codes, &mut image), Ok(written));
    assert_eq!(image, by_hand);
}
