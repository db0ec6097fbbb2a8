use gan_robot::dispatch::DispatchStep;
use gan_robot::gan_robot_controller::find_characteristic;
use gan_robot::{
    ConnectEvent, ConnectStep, Connected, ControllerError, FaceRotation, GanRobotController,
    Uninitialized,
};

const MOVE_UUID: &str = "0000fff3-0000-1000-8000-00805f9b34fb";
const STATUS_UUID: &str = "0000fff2-0000-1000-8000-00805f9b34fb";
const MOVE_ID: u128 = 0x0000fff3_0000_1000_8000_00805f9b34fb;
const STATUS_ID: u128 = 0x0000fff2_0000_1000_8000_00805f9b34fb;

fn unconnected() -> GanRobotController<Uninitialized> {
    GanRobotController::try_new("GAN-a7f13", MOVE_UUID, STATUS_UUID).unwrap()
}

fn connected() -> GanRobotController<Connected> {
    unconnected().try_connect(&[STATUS_ID, MOVE_ID]).unwrap()
}

fn name(text: &str) -> ConnectEvent {
    ConnectEvent::LocalName(Some(text.to_string()))
}

#[test]
fn try_new_reads_both_identifiers() {
    let controller = unconnected();
    assert_eq!(controller.name(), "GAN-a7f13");
    assert_eq!(controller.move_characteristic(), MOVE_ID);
    assert_eq!(controller.status_characteristic(), STATUS_ID);
}

#[test]
fn a_new_session_scans_without_a_time_limit() {
    assert_eq!(unconnected().scan_timeout_ms(), None);
}

#[test]
fn a_scan_may_be_given_a_time_limit() {
    let controller = unconnected().with_scan_timeout(1500);
    assert_eq!(controller.scan_timeout_ms(), Some(1500));
    assert_eq!(controller.name(), "GAN-a7f13");
    assert_eq!(controller.move_characteristic(), MOVE_ID);
    assert_eq!(controller.status_characteristic(), STATUS_ID);
    let controller = controller.with_scan_timeout(0);
    assert_eq!(controller.scan_timeout_ms(), Some(0));
}

#[test]
fn try_new_takes_the_forms_that_the_uuid_parser_takes() {
    let controller = GanRobotController::try_new(
        "x",
        "0000FFF300001000800000805F9B34FB",
        "{0000fff2-0000-1000-8000-00805f9b34fb}",
    )
    .unwrap();
    assert_eq!(controller.move_characteristic(), MOVE_ID);
    assert_eq!(controller.status_characteristic(), STATUS_ID);
    let controller = GanRobotController::try_new(
        "",
        "urn:uuid:a1a2a3a4-b1b2-c1c2-d1d2-d3d4d5d6d7d8",
        "00000000-0000-0000-0000-000000000000",
    )
    .unwrap();
    assert_eq!(controller.name(), "");
    assert_eq!(controller.move_characteristic(), 0xa1a2a3a4b1b2c1c2d1d2d3d4d5d6d7d8);
    assert_eq!(controller.status_characteristic(), 0);
}

#[test]
fn try_new_refuses_what_is_no_uuid() {
    for (move_text, status_text) in [
        ("fff3", STATUS_UUID),
        (MOVE_UUID, "fff2"),
        ("", ""),
        (MOVE_UUID, "0000fff2-0000-1000-8000-00805f9b34fg"),
        ("0000fff3-0000-1000-8000-00805f9b34fb ", STATUS_UUID),
    ] {
        let made = GanRobotController::try_new("GAN-a7f13", move_text, status_text);
        assert_eq!(made.err(), Some(ControllerError::InvalidUuid));
    }
}

#[test]
fn from_parsed_needs_both_identifiers() {
    let made = GanRobotController::from_parsed("robot", Some(7), Some(9)).unwrap();
    assert_eq!(made.name(), "robot");
    assert_eq!(made.move_characteristic(), 7);
    assert_eq!(made.status_characteristic(), 9);
    for (m, s) in [(None, Some(9)), (Some(7), None), (None, None)] {
        let made = GanRobotController::from_parsed("robot", m, s);
        assert_eq!(made.err(), Some(ControllerError::InvalidUuid));
    }
}

#[test]
fn connecting_starts_with_the_adapter() {
    assert_eq!(unconnected().first_step(), ConnectStep::AcquireAdapter);
}

#[test]
fn without_an_adapter_connecting_fails() {
    let controller = unconnected();
    let step = controller.next_step(ConnectStep::AcquireAdapter, ConnectEvent::Adapters(0));
    assert_eq!(step, ConnectStep::Fail(ControllerError::NoAdapter));
}

#[test]
fn with_an_adapter_the_scan_starts() {
    let controller = unconnected();
    for count in [1, 2, usize::MAX] {
        let step = controller.next_step(ConnectStep::AcquireAdapter, ConnectEvent::Adapters(count));
        assert_eq!(step, ConnectStep::StartScan);
    }
    let step = controller.next_step(ConnectStep::StartScan, ConnectEvent::Completed);
    assert_eq!(step, ConnectStep::AwaitDevice);
}

#[test]
fn devices_of_other_names_are_passed_over() {
    let controller = unconnected();
    let mut step = ConnectStep::AwaitDevice;
    for other in ["GAN-a7f1", "gan-a7f13", "GAN-a7f13 ", "", "GAN-a7f130"] {
        step = controller.next_step(step, ConnectEvent::DeviceDiscovered);
        assert_eq!(step, ConnectStep::ReadName);
        step = controller.next_step(step, name(other));
        assert_eq!(step, ConnectStep::AwaitDevice);
    }
    step = controller.next_step(step, ConnectEvent::DeviceDiscovered);
    step = controller.next_step(step, ConnectEvent::LocalName(None));
    assert_eq!(step, ConnectStep::AwaitDevice);
}

#[test]
fn the_first_device_of_the_wanted_name_is_connected_to() {
    let controller = unconnected();
    let mut step = controller.first_step();
    step = controller.next_step(step, ConnectEvent::Adapters(1));
    step = controller.next_step(step, ConnectEvent::Completed);
    step = controller.next_step(step, ConnectEvent::OtherEvent);
    assert_eq!(step, ConnectStep::AwaitDevice);
    step = controller.next_step(step, ConnectEvent::DeviceDiscovered);
    step = controller.next_step(step, name("Other"));
    step = controller.next_step(step, ConnectEvent::DeviceDiscovered);
    step = controller.next_step(step, name("GAN-a7f13"));
    assert_eq!(step, ConnectStep::StopScan);
    step = controller.next_step(step, ConnectEvent::Completed);
    assert_eq!(step, ConnectStep::OpenConnection);
    step = controller.next_step(step, ConnectEvent::Completed);
    assert_eq!(step, ConnectStep::Resolve);
    let connected = controller.try_connect(&[1, MOVE_ID, 2, STATUS_ID]).unwrap();
    assert_eq!(connected.move_characteristic(), 1);
    assert_eq!(connected.status_characteristic(), 3);
}

#[test]
fn a_scan_that_ends_without_the_device_fails() {
    let controller = unconnected();
    let mut step = ConnectStep::AwaitDevice;
    step = controller.next_step(step, ConnectEvent::DeviceDiscovered);
    step = controller.next_step(step, name("Other"));
    step = controller.next_step(step, ConnectEvent::ScanEnded);
    assert_eq!(step, ConnectStep::Fail(ControllerError::DeviceNotFound));
    let step = controller.next_step(ConnectStep::AwaitDevice, ConnectEvent::ScanEnded);
    assert_eq!(step, ConnectStep::Fail(ControllerError::DeviceNotFound));
}

#[test]
fn a_session_without_a_name_matches_nameless_devices() {
    let controller = GanRobotController::try_new("", MOVE_UUID, STATUS_UUID).unwrap();
    assert!(controller.is_target(&None));
    assert!(controller.is_target(&Some(String::new())));
    assert!(!controller.is_target(&Some("GAN".to_string())));
    let controller = unconnected();
    assert!(!controller.is_target(&None));
    assert!(controller.is_target(&Some("GAN-a7f13".to_string())));
    assert!(!controller.is_target(&Some("GAN-A7F13".to_string())));
}

#[test]
fn a_failure_ends_the_attempt() {
    let controller = unconnected();
    for step in [
        ConnectStep::AcquireAdapter,
        ConnectStep::StartScan,
        ConnectStep::AwaitDevice,
        ConnectStep::ReadName,
        ConnectStep::StopScan,
        ConnectStep::OpenConnection,
    ] {
        let next = controller.next_step(step, ConnectEvent::Failed);
        assert_eq!(next, ConnectStep::Fail(ControllerError::Transport));
    }
}

#[test]
fn final_connect_steps_stay() {
    let controller = unconnected();
    for step in [ConnectStep::Resolve, ConnectStep::Fail(ControllerError::NoAdapter)] {
        assert_eq!(controller.next_step(step, ConnectEvent::Failed), step);
        assert_eq!(controller.next_step(step, ConnectEvent::Completed), step);
        assert_eq!(controller.next_step(step, ConnectEvent::Adapters(0)), step);
        assert_eq!(controller.next_step(step, name("GAN-a7f13")), step);
    }
}

#[test]
fn connect_events_that_answer_nothing_change_nothing() {
    let controller = unconnected();
    let step = controller.next_step(ConnectStep::AcquireAdapter, ConnectEvent::Completed);
    assert_eq!(step, ConnectStep::AcquireAdapter);
    let step = controller.next_step(ConnectStep::StartScan, ConnectEvent::Adapters(0));
    assert_eq!(step, ConnectStep::StartScan);
    let step = controller.next_step(ConnectStep::AwaitDevice, name("GAN-a7f13"));
    assert_eq!(step, ConnectStep::AwaitDevice);
    let step = controller.next_step(ConnectStep::ReadName, ConnectEvent::ScanEnded);
    assert_eq!(step, ConnectStep::ReadName);
    let step = controller.next_step(ConnectStep::StopScan, ConnectEvent::DeviceDiscovered);
    assert_eq!(step, ConnectStep::StopScan);
}

#[test]
fn find_characteristic_gives_the_first_place() {
    assert_eq!(find_characteristic(&[5, 6, 7], 6), Some(1));
    assert_eq!(find_characteristic(&[6, 6, 6], 6), Some(0));
    assert_eq!(find_characteristic(&[5, 6, 7], 8), None);
    assert_eq!(find_characteristic(&[], 0), None);
    assert_eq!(find_characteristic(&[u128::MAX], u128::MAX), Some(0));
}

#[test]
fn try_connect_needs_both_characteristics() {
    let connected = unconnected().try_connect(&[STATUS_ID, MOVE_ID]).unwrap();
    assert_eq!(connected.move_characteristic(), 1);
    assert_eq!(connected.status_characteristic(), 0);
    for offered in [vec![], vec![MOVE_ID], vec![STATUS_ID], vec![1, 2, 3]] {
        let failed = unconnected().try_connect(&offered);
        assert_eq!(failed.err(), Some(ControllerError::CharacteristicNotFound));
    }
}

#[test]
fn one_characteristic_may_serve_for_both() {
    let controller = GanRobotController::try_new("x", MOVE_UUID, MOVE_UUID).unwrap();
    let connected = controller.try_connect(&[9, MOVE_ID, MOVE_ID]).unwrap();
    assert_eq!(connected.move_characteristic(), 1);
    assert_eq!(connected.status_characteristic(), 1);
}

#[test]
fn do_moves_drops_unknown_tokens() {
    let moves: Vec<FaceRotation> =
        ["R", "Q9", "F'"].iter().map(|t| FaceRotation::from(*t)).collect();
    assert_eq!(moves, vec![FaceRotation::R, FaceRotation::Invalid, FaceRotation::FPrime]);
    let mut payload = [0xffu8; 18];
    payload[0] = 0x05;
    let plan = connected().do_moves(&moves);
    assert_eq!(plan, Ok(DispatchStep::Write { payload, settle_ms: 225 }));
}

#[test]
fn do_moves_of_thirty_six_succeeds_and_of_thirty_seven_fails() {
    let controller = connected();
    let plan = controller.do_moves(&[FaceRotation::R2; 36]);
    assert_eq!(plan, Ok(DispatchStep::Write { payload: [0x11; 18], settle_ms: 6750 }));
    let plan = controller.do_moves(&[FaceRotation::R2; 37]);
    assert_eq!(plan, Err(ControllerError::TooManyMoves));
}

#[test]
fn do_moves_counts_after_dropping_invalid_entries() {
    let mut moves = vec![FaceRotation::D; 36];
    moves.push(FaceRotation::Invalid);
    moves.insert(0, FaceRotation::Invalid);
    let plan = connected().do_moves(&moves);
    assert_eq!(plan, Ok(DispatchStep::Write { payload: [0x66; 18], settle_ms: 4050 }));
}

#[test]
fn do_moves_raw_packs_the_codes_as_given() {
    let mut payload = [0xffu8; 18];
    payload[0] = 0x02;
    payload[1] = 0x4f;
    let controller = connected();
    let plan = controller.do_moves_raw(&[0, 2, 4]);
    assert_eq!(plan, Ok(DispatchStep::Write { payload, settle_ms: 412 }));
    assert_eq!(controller.do_moves_raw(&[0; 36]).is_ok(), true);
    assert_eq!(controller.do_moves_raw(&[0; 37]), Err(ControllerError::TooManyMoves));
}

#[test]
fn scramble_plans_the_moves_it_drew() {
    let controller = connected();
    for n in [0usize, 1, 8, 20, 36, 1000] {
        let (moves, step) = controller.scramble(n).unwrap();
        assert_eq!(moves.len(), n.min(20));
        for (i, m) in moves.iter().enumerate() {
            assert!(!moves[..i].contains(m));
        }
        assert_eq!(controller.do_moves(&moves), Ok(step));
    }
}

#[test]
fn get_remaining_moves_reads_the_first_byte() {
    let controller = connected();
    assert_eq!(controller.get_remaining_moves(&[3]), 3);
    assert_eq!(controller.get_remaining_moves(&[1]), 1);
    assert_eq!(controller.get_remaining_moves(&[]), 0);
    assert_eq!(controller.get_remaining_moves(&[0, 7]), 0);
}

#[test]
fn disconnect_uses_the_session_up() {
    let controller = connected();
    controller.disconnect();
}

#[test]
fn errors_have_messages() {
    assert_eq!(ControllerError::DeviceNotFound.to_string(), "GAN robot not found");
    assert_eq!(
        ControllerError::CharacteristicNotFound.to_string(),
        "Move characteristic not found"
    );
    assert_eq!(
        ControllerError::TooManyMoves.to_string(),
        "Too many moves. Can only do 36 moves at a time"
    );
    assert_eq!(ControllerError::NoAdapter.to_string(), "No Bluetooth adapter found");
    assert_eq!(
        ControllerError::InvalidUuid.to_string(),
        "Characteristic identifier is not a UUID"
    );
    assert_eq!(ControllerError::Transport.to_string(), "Bluetooth transport failed");
}
