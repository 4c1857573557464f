use std::cell::RefCell;
use std::rc::Rc;

use fast_emu_gui::emu_data::{test_data, EmuData, InternalCommand};
use fast_emu_gui::error::FastEmuGUIError;
use fast_emu_gui::frame_buffer::{FrameBuffer, SyncHandle};
use fast_emu_gui::frequency::{Frequency, FrequencyUnit};
use fast_emu_gui::registers::{DisplayFormat, Register};

/// Records every acquire and release in a shared log.
struct Recorder {
    log: Rc<RefCell<Vec<&'static str>>>,
}

impl SyncHandle for Recorder {
    fn acquire(&mut self) {
        self.log.borrow_mut().push("acquire");
    }

    fn release(&mut self) {
        self.log.borrow_mut().push("release");
    }
}

type Command = InternalCommand<Recorder>;

fn lines(data: &EmuData) -> Vec<Vec<String>> {
    data.register_sets().iter().map(|(_, set)| set.get_register_strings()).collect()
}

fn value(group: &str, register: &str, value: u64) -> Command {
    InternalCommand::UpdateRegisterValue {
        group_name: group.to_string(),
        register_name: register.to_string(),
        value,
    }
}

fn format(group: &str, register: &str, new_format: DisplayFormat) -> Command {
    InternalCommand::UpdateRegisterFormat {
        group_name: group.to_string(),
        register_name: register.to_string(),
        new_format,
    }
}

#[test]
fn test_data_contents() {
    let data = test_data();
    assert_eq!(data.name(), "FastEmuGUI");
    assert_eq!(data.frequency(), None);
    assert_eq!(data.register_sets().len(), 1);
    assert_eq!(data.register_sets()[0].0, "General Purpose");
    assert_eq!(lines(&data), vec![vec!["R1: 0x1234".to_string(), "R2: 0o053170".to_string()]]);
    let fb = data.frame_buffer().as_ref().unwrap();
    assert_eq!((fb.height(), fb.width()), (100, 100));
    assert!(fb.get_image().is_empty());
    let fresh = EmuData::new();
    assert_eq!(fresh.name(), "FastEmuGUI");
    assert!(fresh.register_sets().is_empty());
    assert!(fresh.frame_buffer().is_none());
}

#[test]
fn update_value_of_existing_register() {
    let mut data = test_data();
    assert!(data.run_command(value("General Purpose", "R1", 0xbeef)).is_ok());
    assert_eq!(data.register_sets()[0].1.registers[0].1.value, 0xbeef);
    assert_eq!(lines(&data)[0][0], "R1: 0xbeef");
}

#[test]
fn update_missing_register_changes_nothing() {
    let mut data = test_data();
    let before = lines(&data);
    assert!(data.run_command(value("General Purpose", "R9", 1)).is_ok());
    assert!(data.run_command(value("Control", "R1", 1)).is_ok());
    assert!(data.run_command(format("Control", "R1", DisplayFormat::Binary)).is_ok());
    assert_eq!(lines(&data), before);
    assert_eq!(data.register_sets()[0].1.registers[0].1, Register::new(0x1234, DisplayFormat::Hex, 16));
}

#[test]
fn last_format_change_wins() {
    let mut data = test_data();
    data.run_commands(vec![
        format("General Purpose", "R2", DisplayFormat::Hex),
        format("General Purpose", "R2", DisplayFormat::Binary),
    ]);
    let reg = data.register_sets()[0].1.registers[1].1;
    assert_eq!(reg.display_format(), DisplayFormat::Binary);
    assert_eq!(reg.display_precision(), 16);
    assert_eq!(lines(&data)[0][1], "R2: 0b0101011001111000");
}

#[test]
fn frame_of_wrong_length_is_refused() {
    let log = Rc::new(RefCell::new(Vec::new()));
    let mut fb = FrameBuffer::new(2, 3);
    let mut handle = Recorder { log: log.clone() };
    match fb.update_frame_buffer(&[1, 2, 3], &mut handle) {
        Err(FastEmuGUIError::MismatchedBufferSize { expected, received }) => {
            assert_eq!((expected, received), (24, 3));
        },
        _ => panic!("a short frame must be refused"),
    }
    assert!(fb.get_image().is_empty());
    assert!(log.borrow().is_empty());

    let frame: Vec<u8> = (0..24).collect();
    assert!(fb.update_frame_buffer(&frame, &mut handle).is_ok());
    let longer: Vec<u8> = (0..25).collect();
    assert!(fb.update_frame_buffer(&longer, &mut handle).is_err());
    assert_eq!(fb.get_image(), &frame);
}

#[test]
fn frame_of_right_length_is_copied_under_lock() {
    let log = Rc::new(RefCell::new(Vec::new()));
    let mut fb = FrameBuffer::new(1, 2);
    let frame = vec![9u8, 8, 7, 6, 5, 4, 3, 2];
    assert!(fb.update_frame_buffer(&frame, &mut Recorder { log: log.clone() }).is_ok());
    assert_eq!(fb.get_image(), &frame);
    assert_eq!(*log.borrow(), vec!["acquire", "release"]);
}

#[test]
fn frame_command_goes_through_state() {
    let log = Rc::new(RefCell::new(Vec::new()));
    let mut data = test_data();
    let short = InternalCommand::UpdateFrameBuffer { buffer: vec![0; 10], mutex: Recorder { log: log.clone() } };
    match data.run_command(short) {
        Err(FastEmuGUIError::MismatchedBufferSize { expected, received }) => {
            assert_eq!((expected, received), (40000, 10));
        },
        _ => panic!("a short frame must be refused"),
    }
    let full = InternalCommand::UpdateFrameBuffer { buffer: vec![7; 40000], mutex: Recorder { log: log.clone() } };
    assert!(data.run_command(full).is_ok());
    assert_eq!(data.frame_buffer().as_ref().unwrap().get_image(), &vec![7u8; 40000]);
    assert_eq!(*log.borrow(), vec!["acquire", "release"]);

    let mut empty = EmuData::new();
    let frame = InternalCommand::UpdateFrameBuffer { buffer: vec![1; 4], mutex: Recorder { log: log.clone() } };
    assert!(empty.run_command(frame).is_ok());
    assert!(empty.frame_buffer().is_none());
}

#[test]
fn set_frequency_replaces_target() {
    let mut data = test_data();
    let mhz = Frequency { unit: FrequencyUnit::MHz, magnitude_bits: 4.194304f32.to_bits() };
    assert!(data.run_command(InternalCommand::<Recorder>::SetFrequency(mhz)).is_ok());
    assert_eq!(data.frequency(), Some(mhz));
    let ghz = Frequency { unit: FrequencyUnit::GHz, magnitude_bits: 1.0f32.to_bits() };
    assert!(data.run_command(InternalCommand::<Recorder>::SetFrequency(ghz)).is_ok());
    assert_eq!(data.frequency(), Some(ghz));
}

#[test]
fn interleaved_producers_keep_their_order() {
    // Two producers, each with its own order, merged by arrival.
    let a = [value("General Purpose", "R1", 1), value("General Purpose", "R1", 2)];
    let b = [value("General Purpose", "R2", 10), format("General Purpose", "R2", DisplayFormat::Hex)];
    let mut arrival = Vec::new();
    let mut a = a.into_iter();
    let mut b = b.into_iter();
    arrival.push(a.next().unwrap());
    arrival.push(b.next().unwrap());
    arrival.push(b.next().unwrap());
    arrival.push(a.next().unwrap());

    let mut batched = test_data();
    batched.run_commands(arrival);
    assert_eq!(lines(&batched), vec![vec!["R1: 0x0002".to_string(), "R2: 0x000a".to_string()]]);

    let mut one_by_one = test_data();
    for c in [
        value("General Purpose", "R1", 1),
        value("General Purpose", "R2", 10),
        format("General Purpose", "R2", DisplayFormat::Hex),
        value("General Purpose", "R1", 2),
    ] {
        assert!(one_by_one.run_command(c).is_ok());
    }
    assert_eq!(lines(&one_by_one), lines(&batched));
}

#[test]
fn groups_are_unique() {
    let mut data = EmuData::new();
    assert!(data.add_register_set("Control".to_string(), fast_emu_gui::registers::RegisterSet::empty()));
    assert!(!data.add_register_set("Control".to_string(), fast_emu_gui::registers::RegisterSet::empty()));
    assert_eq!(data.register_sets().len(), 1);
    data.set_name("Board".to_string());
    assert_eq!(data.name(), "Board");
}
