//! The transports.

use swtrust::server::device::{Calls, Device};
use swtrust::server::pipe;
use swtrust::server::qemu::{self, ControlEnded, Link};
use swtrust::server::simulator::{self as sim, ErrorKind};
use swtrust::server::socket::{self, Ended};
use swtrust::tpm::constants::rc;
use swtrust::tpm::marshal::Reader;

#[derive(Debug, Default)]
struct FakeDevice {
    powered: bool,
    established: bool,
    events: Vec<String>,
}

impl FakeDevice {
    fn log(&mut self, s: &str) {
        self.events.push(s.to_string());
    }

    fn events(&self) -> Vec<String> {
        self.events.clone()
    }
}

impl Device for FakeDevice {
    fn calls(&self) -> Calls {
        unreachable!()
    }

    fn execute(&mut self, locality: u8, command: &[u8]) -> Vec<u8> {
        self.log(&format!("execute loc={locality} len={}", command.len()));
        vec![0x80, 0x01, 0x00, 0x00, 0x00, 0x0a, 0x00, 0x00, 0x00, 0x00]
    }

    fn power_on(&mut self) {
        self.powered = true;
        self.log("power_on");
    }

    fn power_off(&mut self) {
        self.powered = false;
        self.log("power_off");
    }

    fn is_powered_on(&self) -> bool {
        self.powered
    }

    fn nv_on(&mut self) {
        self.log("nv_on");
    }

    fn nv_off(&mut self) {
        self.log("nv_off");
    }

    fn physical_presence(&mut self, asserted: bool) {
        self.log(&format!("pp={asserted}"));
    }

    fn cancel(&mut self, asserted: bool) {
        self.log(&format!("cancel={asserted}"));
    }

    fn hash_start(&mut self) {
        self.established = true;
        self.log("hash_start");
    }

    fn hash_data(&mut self, data: &[u8]) {
        self.log(&format!("hash_data len={}", data.len()));
    }

    fn hash_end(&mut self) {
        self.log("hash_end");
    }

    fn established(&mut self) -> bool {
        self.established
    }

    fn reset_established(&mut self, locality: u8) {
        self.established = false;
        self.log(&format!("reset_established loc={locality}"));
    }

    fn act_get_signaled(&mut self, act: u32) -> bool {
        act == 0
    }
}

const COMMAND: [u8; 12] = [
    0x80, 0x01, 0x00, 0x00, 0x00, 0x0c, 0x00, 0x00, 0x01, 0x44, 0x00, 0x00,
];

#[test]
fn command_size_is_read_from_the_header() {
    let head = [0x80u8, 0x01, 0x00, 0x00, 0x00, 0x0c];
    assert_eq!(pipe::command_size(&head).unwrap(), 12);
}

#[test]
fn command_size_rejects_short_and_huge_values() {
    assert_eq!(
        pipe::command_size(&[0x80, 0x01, 0x00, 0x00, 0x00, 0x09])
            .unwrap_err()
            .kind(),
        ErrorKind::InvalidData
    );
    assert_eq!(
        pipe::command_size(&[0x80, 0x01, 0xff, 0xff, 0xff, 0xff])
            .unwrap_err()
            .kind(),
        ErrorKind::InvalidData
    );
    assert_eq!(
        pipe::command_size(&[0x80, 0x01]).unwrap_err().kind(),
        ErrorKind::UnexpectedEof
    );
}

#[test]
fn reads_a_framed_command() {
    let mut cur = Reader::new(&COMMAND);
    let got = pipe::read_command(&mut cur).unwrap().unwrap();
    assert_eq!(got, COMMAND);
    assert_eq!(pipe::read_command(&mut cur).unwrap(), None);
}

#[test]
fn reads_back_to_back_commands() {
    let two = [0x80u8, 0x01, 0x00, 0x00, 0x00, 0x0a, 0x00, 0x00, 0x01, 0x7b];
    let mut data = COMMAND.to_vec();
    data.extend_from_slice(&two);
    let mut cur = Reader::new(&data);
    assert_eq!(pipe::read_command(&mut cur).unwrap().unwrap(), COMMAND);
    assert_eq!(pipe::read_command(&mut cur).unwrap().unwrap(), two);
    assert_eq!(pipe::read_command(&mut cur).unwrap(), None);
}

#[test]
fn truncated_body_is_an_error() {
    let data = vec![0x80u8, 0x01, 0x00, 0x00, 0x00, 0x0c, 0x00];
    let mut cur = Reader::new(&data);
    assert_eq!(
        pipe::read_command(&mut cur).unwrap_err().kind(),
        ErrorKind::UnexpectedEof
    );
}

#[test]
fn truncated_header_is_an_error() {
    let data = vec![0x80u8, 0x01];
    let mut cur = Reader::new(&data);
    assert_eq!(
        pipe::read_command(&mut cur).unwrap_err().kind(),
        ErrorKind::UnexpectedEof
    );
}

#[test]
fn a_pipe_answers_each_command_at_locality_zero() {
    let mut device = FakeDevice::default();
    let mut data = COMMAND.to_vec();
    data.extend_from_slice(&COMMAND);
    data.push(0x80);
    let (end, responses) = pipe::serve_connection(&data, &mut device);
    assert_eq!(end.unwrap_err().kind(), ErrorKind::UnexpectedEof);
    assert_eq!(responses.len(), 2);
    assert_eq!(
        device.events(),
        vec!["execute loc=0 len=12", "execute loc=0 len=12"]
    );
}

#[test]
fn integers_round_trip() {
    let mut buf = Vec::new();
    sim::write_u32(&mut buf, 0x1234_5678);
    assert_eq!(buf, vec![0x12, 0x34, 0x56, 0x78]);
    let mut cur = Reader::new(&buf);
    assert_eq!(sim::read_u32(&mut cur).unwrap(), 0x1234_5678);
}

#[test]
fn blob_round_trip() {
    let mut buf = Vec::new();
    sim::write_blob(&mut buf, &[1, 2, 3]);
    assert_eq!(buf, vec![0, 0, 0, 3, 1, 2, 3]);
    let mut cur = Reader::new(&buf);
    assert_eq!(sim::read_blob(&mut cur).unwrap(), vec![1, 2, 3]);
}

#[test]
fn clean_end_of_stream_is_none() {
    let mut cur = Reader::new(&[]);
    assert_eq!(sim::read_u32_opt(&mut cur).unwrap(), None);
}

#[test]
fn partial_length_is_an_error() {
    let data = vec![0x00, 0x01];
    let mut cur = Reader::new(&data);
    let e = sim::read_u32_opt(&mut cur).unwrap_err();
    assert_eq!(e.kind(), ErrorKind::UnexpectedEof);
}

#[test]
fn oversized_blob_is_rejected() {
    let mut data = Vec::new();
    sim::write_u32(&mut data, sim::MAX_TRANSFER + 1);
    let mut cur = Reader::new(&data);
    let e = sim::read_blob(&mut cur).unwrap_err();
    assert_eq!(e.kind(), ErrorKind::InvalidData);
}

#[test]
fn endpoint_info_advertises_platform_and_pp() {
    assert_eq!(sim::ENDPOINT_INFO, 0x09);
}

fn exchange(request: &[u8], device: &mut FakeDevice) -> Vec<u8> {
    let (end, out) = socket::serve_connection(request, device);
    assert!(!matches!(end, Ended::Failed(_)));
    out
}

#[test]
fn handshake_reports_version_and_endpoint_info() {
    let mut device = FakeDevice::default();
    let mut req = Vec::new();
    sim::write_u32(&mut req, sim::REMOTE_HANDSHAKE);
    sim::write_u32(&mut req, 1);
    let out = exchange(&req, &mut device);
    assert_eq!(out.len(), 12);
    assert_eq!(&out[0..4], &sim::SERVER_VERSION.to_be_bytes());
    assert_eq!(&out[4..8], &sim::ENDPOINT_INFO.to_be_bytes());
    assert_eq!(&out[8..12], &[0, 0, 0, 0]);
}

#[test]
fn send_command_returns_response_then_ack() {
    let mut device = FakeDevice::default();
    let mut req = Vec::new();
    sim::write_u32(&mut req, sim::SEND_COMMAND);
    req.push(3);
    sim::write_blob(&mut req, &COMMAND);
    let out = exchange(&req, &mut device);
    assert_eq!(&out[0..4], &10u32.to_be_bytes());
    assert_eq!(&out[4..14], &[0x80, 0x01, 0, 0, 0, 0x0a, 0, 0, 0, 0]);
    assert_eq!(&out[14..18], &[0, 0, 0, 0]);
    assert_eq!(device.events(), vec!["execute loc=3 len=12"]);
}

#[test]
fn platform_signals_are_acknowledged() {
    let mut device = FakeDevice::default();
    let mut req = Vec::new();
    for opcode in [
        sim::SIGNAL_POWER_ON,
        sim::SIGNAL_NV_ON,
        sim::SIGNAL_PHYS_PRES_ON,
        sim::SIGNAL_PHYS_PRES_OFF,
        sim::SIGNAL_CANCEL_ON,
        sim::SIGNAL_CANCEL_OFF,
        sim::SIGNAL_HASH_START,
        sim::SIGNAL_HASH_END,
        sim::SIGNAL_NV_OFF,
        sim::SIGNAL_POWER_OFF,
    ] {
        sim::write_u32(&mut req, opcode);
    }
    let out = exchange(&req, &mut device);
    assert_eq!(out.len(), 40);
    assert!(out.iter().all(|b| *b == 0));
    assert_eq!(
        device.events(),
        vec![
            "power_on",
            "nv_on",
            "pp=true",
            "pp=false",
            "cancel=true",
            "cancel=false",
            "hash_start",
            "hash_end",
            "nv_off",
            "power_off",
        ]
    );
}

#[test]
fn hash_data_carries_a_blob() {
    let mut device = FakeDevice::default();
    let mut req = Vec::new();
    sim::write_u32(&mut req, sim::SIGNAL_HASH_DATA);
    sim::write_blob(&mut req, &[1, 2, 3, 4]);
    let out = exchange(&req, &mut device);
    assert_eq!(out, vec![0, 0, 0, 0]);
    assert_eq!(device.events(), vec!["hash_data len=4"]);
}

#[test]
fn act_signaled_is_reported() {
    let mut device = FakeDevice::default();
    let mut req = Vec::new();
    sim::write_u32(&mut req, sim::ACT_GET_SIGNALED);
    sim::write_u32(&mut req, 0);
    sim::write_u32(&mut req, sim::ACT_GET_SIGNALED);
    sim::write_u32(&mut req, 1);
    let out = exchange(&req, &mut device);
    assert_eq!(&out[0..4], &1u32.to_be_bytes());
    assert_eq!(&out[4..8], &[0, 0, 0, 0]);
    assert_eq!(&out[8..12], &0u32.to_be_bytes());
    assert_eq!(&out[12..16], &[0, 0, 0, 0]);
}

#[test]
fn stop_sets_the_shutdown_flag() {
    let mut device = FakeDevice::default();
    let mut req = Vec::new();
    sim::write_u32(&mut req, sim::STOP);
    let (end, out) = socket::serve_connection(&req, &mut device);
    assert_eq!(end, Ended::Stop);
    assert_eq!(out, vec![0, 0, 0, 0]);
}

#[test]
fn unknown_opcode_closes_the_connection() {
    let mut device = FakeDevice::default();
    let mut req = Vec::new();
    sim::write_u32(&mut req, 999);
    let (end, _) = socket::serve_connection(&req, &mut device);
    match end {
        Ended::Failed(e) => assert_eq!(e.kind(), ErrorKind::InvalidData),
        other => panic!("ended with {other:?}"),
    }
}

fn control(request: &[u8], device: &mut FakeDevice, link: &mut Link) -> Vec<u8> {
    let (end, out) = qemu::serve_control(request, device, link);
    assert!(!matches!(end, ControlEnded::Failed(_)));
    out
}

fn data(request: &[u8], device: &mut FakeDevice, link: &Link) -> Vec<u8> {
    let (end, responses) = qemu::serve_data(request, device, link);
    end.unwrap();
    responses.concat()
}

/// A control request with no payload.
fn bare(number: u32) -> Vec<u8> {
    number.to_be_bytes().to_vec()
}

/// A control request whose payload is a single word.
fn with_word(number: u32, word: u32) -> Vec<u8> {
    let mut v = number.to_be_bytes().to_vec();
    v.extend_from_slice(&word.to_be_bytes());
    v
}

#[test]
fn capabilities_claim_only_what_is_done() {
    let mut device = FakeDevice::default();
    let out = control(&bare(qemu::GET_CAPABILITY), &mut device, &mut Link::default());
    assert_eq!(out.len(), 8);
    assert_eq!(&out[0..4], &0u32.to_be_bytes());
    assert_eq!(
        u32::from_be_bytes([out[4], out[5], out[6], out[7]]),
        qemu::CAPABILITIES
    );
}

#[test]
fn the_required_capabilities_for_a_tpm_2_are_claimed() {
    for bit in [
        qemu::CAP_INIT,
        qemu::CAP_SHUTDOWN,
        qemu::CAP_GET_ESTABLISHED,
        qemu::CAP_SET_LOCALITY,
        qemu::CAP_RESET_ESTABLISHED,
        qemu::CAP_STOP,
        qemu::CAP_SET_BUFFERSIZE,
    ] {
        assert_eq!(qemu::CAPABILITIES & bit, bit, "missing capability {bit:#x}");
    }
    assert_eq!(qemu::CAPABILITIES & qemu::CAP_SET_DATAFD, 0);
    assert_eq!(qemu::CAPABILITIES & qemu::CAP_GET_STATEBLOB, 0);
    assert_eq!(qemu::CAPABILITIES & qemu::CAP_SET_STATEBLOB, 0);
    assert_eq!(qemu::CAPABILITIES & qemu::CAP_CANCEL, 0);
}

#[test]
fn init_powers_the_tpm_and_makes_storage_available() {
    let mut device = FakeDevice::default();
    let out = control(&with_word(qemu::INIT, 0), &mut device, &mut Link::default());
    assert_eq!(out, vec![0, 0, 0, 0]);
    assert_eq!(device.events(), vec!["power_on", "nv_on"]);
    assert!(device.is_powered_on());
}

#[test]
fn stop_removes_power_without_ending_the_connection() {
    let mut device = FakeDevice::default();
    let mut req = with_word(qemu::INIT, 0);
    req.extend_from_slice(&bare(qemu::STOP));
    req.extend_from_slice(&bare(qemu::GET_CAPABILITY));
    let out = control(&req, &mut device, &mut Link::default());
    assert_eq!(&out[0..4], &0u32.to_be_bytes());
    assert_eq!(&out[4..8], &0u32.to_be_bytes());
    assert_eq!(out.len(), 16);
    assert!(!device.is_powered_on());
}

#[test]
fn the_locality_chosen_on_the_control_channel_reaches_the_data_channel() {
    let mut device = FakeDevice::default();
    let mut link = Link::default();
    let out = control(
        &with_word(qemu::SET_LOCALITY, 0x03_ff_ff_ff),
        &mut device,
        &mut link,
    );
    assert_eq!(out, vec![0, 0, 0, 0]);
    assert_eq!(link.locality(), 3);

    let out = data(&COMMAND, &mut device, &link);
    assert_eq!(out, vec![0x80, 0x01, 0, 0, 0, 0x0a, 0, 0, 0, 0]);
    assert!(device
        .events()
        .contains(&"execute loc=3 len=12".to_string()));
}

#[test]
fn a_locality_above_four_is_refused() {
    let mut device = FakeDevice::default();
    let mut link = Link::default();
    let out = control(
        &with_word(qemu::SET_LOCALITY, 0x05_00_00_00),
        &mut device,
        &mut link,
    );
    assert_eq!(out, rc::LOCALITY.to_be_bytes().to_vec());
    assert_eq!(link.locality(), 0);
}

#[test]
fn the_establishment_flag_is_reported_and_cleared() {
    let mut device = FakeDevice::default();
    let mut link = Link::default();

    let out = control(&bare(qemu::GET_ESTABLISHED), &mut device, &mut link);
    assert_eq!(out, vec![0, 0, 0, 0, 0, 0, 0, 0]);

    let out = control(&bare(qemu::HASH_START), &mut device, &mut link);
    assert_eq!(out, vec![0, 0, 0, 0]);
    let out = control(&bare(qemu::GET_ESTABLISHED), &mut device, &mut link);
    assert_eq!(out, vec![0, 0, 0, 0, 1, 0, 0, 0]);

    let out = control(
        &with_word(qemu::RESET_ESTABLISHED, 0x03_00_00_00),
        &mut device,
        &mut link,
    );
    assert_eq!(out, vec![0, 0, 0, 0]);
    let out = control(&bare(qemu::GET_ESTABLISHED), &mut device, &mut link);
    assert_eq!(out, vec![0, 0, 0, 0, 0, 0, 0, 0]);
}

#[test]
fn a_buffer_size_request_of_zero_asks_without_changing() {
    let mut device = FakeDevice::default();
    let mut link = Link::default();
    let out = control(&with_word(qemu::SET_BUFFERSIZE, 0), &mut device, &mut link);
    assert_eq!(out.len(), 16);
    assert_eq!(&out[0..4], &0u32.to_be_bytes());
    assert_eq!(&out[4..8], &qemu::MAX_BUFFER_SIZE.to_be_bytes());
    assert_eq!(&out[8..12], &qemu::MIN_BUFFER_SIZE.to_be_bytes());
    assert_eq!(&out[12..16], &qemu::MAX_BUFFER_SIZE.to_be_bytes());
    assert_eq!(link.buffer_size(), qemu::MAX_BUFFER_SIZE);
}

#[test]
fn a_buffer_size_inside_the_range_is_agreed_exactly() {
    let mut device = FakeDevice::default();
    let mut link = Link::default();
    let out = control(
        &with_word(qemu::SET_BUFFERSIZE, 3968),
        &mut device,
        &mut link,
    );
    assert_eq!(&out[4..8], &3968u32.to_be_bytes());
    assert_eq!(link.buffer_size(), 3968);
}

#[test]
fn a_buffer_size_outside_the_range_is_answered_with_the_nearest() {
    let mut device = FakeDevice::default();
    let mut link = Link::default();
    let out = control(
        &with_word(qemu::SET_BUFFERSIZE, 65536),
        &mut device,
        &mut link,
    );
    assert_eq!(&out[4..8], &qemu::MAX_BUFFER_SIZE.to_be_bytes());
    let out = control(&with_word(qemu::SET_BUFFERSIZE, 16), &mut device, &mut link);
    assert_eq!(&out[4..8], &qemu::MIN_BUFFER_SIZE.to_be_bytes());
}

#[test]
fn hash_data_carries_a_counted_blob() {
    let mut device = FakeDevice::default();
    let mut req = bare(qemu::HASH_DATA);
    sim::write_blob(&mut req, &[1, 2, 3, 4]);
    let out = control(&req, &mut device, &mut Link::default());
    assert_eq!(out, vec![0, 0, 0, 0]);
    assert_eq!(device.events(), vec!["hash_data len=4"]);
}

#[test]
fn shutdown_sets_the_shutdown_flag() {
    let mut device = FakeDevice::default();
    let (end, out) =
        qemu::serve_control(&bare(qemu::SHUTDOWN), &mut device, &mut Link::default());
    assert_eq!(end, ControlEnded::Shutdown);
    assert_eq!(out, vec![0, 0, 0, 0]);
}

#[test]
fn an_unknown_control_request_closes_the_channel() {
    let mut device = FakeDevice::default();
    let (end, _) = qemu::serve_control(&bare(4242), &mut device, &mut Link::default());
    match end {
        ControlEnded::Failed(e) => assert_eq!(e.kind(), ErrorKind::InvalidData),
        other => panic!("ended with {other:?}"),
    }
}

#[test]
fn several_commands_run_back_to_back_on_one_data_connection() {
    let mut device = FakeDevice::default();
    let link = Link::default();
    let mut req = Vec::new();
    req.extend_from_slice(&COMMAND);
    req.extend_from_slice(&COMMAND);
    let out = data(&req, &mut device, &link);
    assert_eq!(out.len(), 20);
    assert_eq!(&out[0..10], &out[10..20]);
}

#[test]
fn a_command_size_below_a_header_is_refused() {
    let mut device = FakeDevice::default();
    let bad = [0x80u8, 0x01, 0x00, 0x00, 0x00, 0x09, 0x00, 0x00, 0x01, 0x44];
    let (end, _) = qemu::serve_data(&bad, &mut device, &Link::default());
    assert_eq!(end.unwrap_err().kind(), ErrorKind::InvalidData);
}

#[test]
fn an_oversized_command_is_refused_without_allocating_for_it() {
    let mut device = FakeDevice::default();
    let mut bad = vec![0x80u8, 0x01];
    bad.extend_from_slice(&u32::MAX.to_be_bytes());
    bad.extend_from_slice(&[0x00, 0x00, 0x01, 0x44]);
    let (end, _) = qemu::serve_data(&bad, &mut device, &Link::default());
    assert_eq!(end.unwrap_err().kind(), ErrorKind::InvalidData);
}

#[test]
fn a_clean_end_of_stream_on_the_data_channel_is_not_an_error() {
    let mut device = FakeDevice::default();
    let out = data(&[], &mut device, &Link::default());
    assert!(out.is_empty());
}

#[test]
fn a_refused_locality_reaches_no_device() {
    for number in [qemu::SET_LOCALITY, qemu::RESET_ESTABLISHED] {
        let mut device = FakeDevice::default();
        let mut link = Link::default();
        let out = control(&with_word(number, 0x05_00_00_00), &mut device, &mut link);
        assert_eq!(out, rc::LOCALITY.to_be_bytes().to_vec());
        assert!(device.events().is_empty());
    }
}

#[test]
fn requests_reach_the_device_in_order_and_once() {
    let mut device = FakeDevice::default();
    let mut req = Vec::new();
    sim::write_u32(&mut req, sim::SIGNAL_POWER_ON);
    sim::write_u32(&mut req, sim::SEND_COMMAND);
    req.push(2);
    sim::write_blob(&mut req, &COMMAND);
    sim::write_u32(&mut req, sim::SIGNAL_RESET);
    sim::write_u32(&mut req, sim::SESSION_END);
    sim::write_u32(&mut req, sim::SIGNAL_POWER_OFF);
    let out = exchange(&req, &mut device);
    assert_eq!(
        device.events(),
        vec!["power_on", "execute loc=2 len=12", "power_off", "power_on"]
    );
    assert_eq!(out.len(), 4 + 18 + 4);
}
