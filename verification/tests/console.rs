//! The console, the log and the texts both are made of.

use swtrust::console::lines::LineBuffer;
use swtrust::console::{execute, Outcome, Platform, HELP, MAX_LINE};
use swtrust::logging::{
    command_line, describe, describe_response, file_name, name, response_line,
};
use swtrust::tpm::constants::{alg, cc, hc};
use swtrust::tpm::crypto::hash::digest;
use swtrust::tpm::engine::nv::NvIndex;
use swtrust::tpm::engine::state::TpmState;
use swtrust::tpm::structures::attributes::NvAttributes;
use swtrust::tpm::structures::base::Tpm2bDigest;
use swtrust::tpm::structures::nv::NvPublic;
use swtrust::util::text::{decimal, decode_hex, encode_hex, hex_number, split_words};
use swtrust::util::time::{date_of, date_string, timestamp_string, Date};

fn manufactured() -> TpmState {
    TpmState::manufacture(&[0x5a; 48]).unwrap()
}

/// What the console prints for a line.
fn said(state: &mut TpmState, line: &str) -> String {
    let platform = Platform {
        powered: true,
        locality: 3,
    };
    match execute(state, platform, line) {
        Outcome::Output(text) => text,
        other => panic!("{line}: {other:?}"),
    }
}

#[test]
fn the_console_tells_its_state() {
    let mut state = manufactured();
    let status = said(&mut state, "status");
    assert!(status.starts_with("powered        true\nstarted        false\n"), "{status}");
    assert!(status.contains("\nlocality       3\n"), "{status}");
    assert!(status.ends_with("\nsessions       0"), "{status}");
    assert_eq!(said(&mut state, "help"), HELP);
    assert_eq!(said(&mut state, "   "), "");
    assert_eq!(said(&mut state, "frob"), "unknown command frob, try help");
    let platform = Platform {
        powered: true,
        locality: 0,
    };
    assert_eq!(execute(&mut state, platform, "quit"), Outcome::Quit);
    assert_eq!(execute(&mut state, platform, "exit"), Outcome::Quit);
    assert_eq!(
        execute(&mut state, platform, "save"),
        Outcome::Save("state written".to_string())
    );
}

#[test]
fn the_console_works_on_registers() {
    let mut state = manufactured();
    state.on_startup_clear(0).unwrap();
    let zeros = "00".repeat(32);
    assert_eq!(said(&mut state, "pcr read 16"), zeros);
    let ones = "11".repeat(32);
    assert_eq!(
        said(&mut state, &format!("pcr write 16 {ones}")),
        format!("16 set to {ones}")
    );
    assert_eq!(said(&mut state, "pcr read 16 sha256"), ones);
    let mut both = vec![0x11u8; 32];
    both.extend_from_slice(&[0x22; 32]);
    let extended = encode_hex(&digest(alg::SHA256, &both).unwrap());
    assert_eq!(
        said(&mut state, &format!("pcr extend 16 {}", "22".repeat(32))),
        format!("16 now {extended}")
    );
    assert_eq!(said(&mut state, "pcr reset 16"), "16 reset");
    assert_eq!(said(&mut state, "pcr read 16"), zeros);
    assert_eq!(said(&mut state, "pcr list").lines().count(), 24);
    assert_eq!(
        said(&mut state, "pcr"),
        "error: try pcr list, read, extend, write or reset"
    );
    assert_eq!(
        said(&mut state, "pcr read 1 sha9"),
        "error: unknown hash algorithm sha9"
    );
    assert!(said(&mut state, "pcr read").starts_with("error: "));
    assert!(said(&mut state, "pcr reset 0").starts_with("error: PCR 0 cannot be reset"));
}

#[test]
fn the_console_works_on_indices() {
    let mut state = manufactured();
    assert_eq!(said(&mut state, "nv list"), "no index is defined");
    state
        .nv
        .define(NvIndex {
            public: NvPublic {
                nv_index: hc::NV_INDEX_FIRST + 1,
                name_alg: alg::SHA256,
                attributes: NvAttributes(NvAttributes::OWNERWRITE | NvAttributes::OWNERREAD),
                auth_policy: Tpm2bDigest::empty(),
                data_size: 8,
            },
            auth: Vec::new(),
            data: Vec::new(),
            read_locked: false,
            write_locked: false,
        })
        .unwrap();
    assert_eq!(said(&mut state, "nv write 0x01000001 2 abcd"), "wrote 2 octets");
    assert_eq!(said(&mut state, "nv read 0x01000001 2 2"), "abcd");
    assert!(said(&mut state, "nv list").starts_with("01000001 size 8     written true  type 0 "));
    assert_eq!(said(&mut state, "nv undefine 0x01000001"), "01000001 removed");
    assert!(said(&mut state, "nv read 0x01000001").starts_with("error: "));
    assert_eq!(said(&mut state, "nv"), "error: try nv list, read, write or undefine");
}

#[test]
fn the_console_works_on_the_generator_and_the_keys() {
    let mut state = manufactured();
    assert_eq!(said(&mut state, "rng seed 0011"), "reseeded, counter 1");
    assert_eq!(said(&mut state, "rng stir 0011"), "stirred");
    assert_eq!(said(&mut state, "rng bytes 8").len(), 16);
    assert!(said(&mut state, "rng show").starts_with("key            "));
    assert!(said(&mut state, "rng bytes 100000").starts_with("error: at most "));
    assert_eq!(said(&mut state, "key list"), "no object is loaded");
    assert!(said(&mut state, "key show 0x80000000").starts_with("error: "));
}

#[test]
fn a_line_may_come_in_pieces() {
    let mut line = LineBuffer::new();
    assert_eq!(line.take(b"pcr "), (4, false));
    assert_eq!(line.take(b"list\r\nhelp"), (6, true));
    assert_eq!(line.finish().unwrap(), b"pcr list");
    let mut long = LineBuffer::new();
    assert_eq!(long.take(&vec![0x61; MAX_LINE]), (MAX_LINE, false));
    assert_eq!(long.take(b"a\n"), (2, true));
    assert!(long.finish().is_none());
}

#[test]
fn the_log_names_commands_and_codes() {
    let cmd = [
        0x80u8, 0x01, 0x00, 0x00, 0x00, 0x0c, 0x00, 0x00, 0x01, 0x44, 0x00, 0x00,
    ];
    let rsp = [0x80u8, 0x01, 0x00, 0x00, 0x00, 0x0a, 0x00, 0x00, 0x00, 0x00];
    assert_eq!(describe(&cmd), "tag=0x8001 size=12 cc=0x00000144(TPM2_Startup)");
    assert_eq!(describe_response(&rsp), "tag=0x8001 size=10 rc=0x00000000");
    assert_eq!(
        command_line(1, 0, &cmd),
        "conn=1 locality=0 tag=0x8001 size=12 cc=0x00000144(TPM2_Startup) cmd  \
         80010000000c000001440000"
    );
    assert_eq!(
        response_line(1, &rsp),
        "conn=1 tag=0x8001 size=10 rc=0x00000000 rsp  80010000000a00000000"
    );
    assert_eq!(name(cc::GetRandom), "TPM2_GetRandom");
    assert_eq!(name(0), "Unknown");
    assert_eq!(file_name("2024-02-29"), "2024-02-29.log");
}

#[test]
fn a_truncated_buffer_is_logged_as_short() {
    assert_eq!(command_line(1, 0, &[0x80]), "conn=1 locality=0 short cmd  80");
    assert_eq!(response_line(1, &[]), "conn=1 short rsp  ");
}

#[test]
fn days_are_counted_through_leap_years() {
    assert_eq!(
        date_of(0),
        Date {
            year: 1970,
            month: 1,
            day: 1
        }
    );
    assert_eq!(date_string(date_of(951_782_400)), "2000-02-29");
    assert_eq!(date_string(date_of(951_782_400 + 86_400)), "2000-03-01");
    assert_eq!(date_string(date_of(1_735_689_599)), "2024-12-31");
    assert_eq!(date_string(date_of(4_107_542_400)), "2100-03-01");
    assert_eq!(timestamp_string(1_735_689_599), "2024-12-31 23:59:59");
}

#[test]
fn texts_are_written_and_read() {
    assert_eq!(decimal(0), "0");
    assert_eq!(decimal(u64::MAX), "18446744073709551615");
    assert_eq!(hex_number(0xabc, 4), "0abc");
    assert_eq!(decode_hex(&encode_hex(&[0, 1, 0xfe, 0xff])).unwrap(), [0, 1, 0xfe, 0xff]);
    assert_eq!(decode_hex("abc"), None);
    assert_eq!(decode_hex("zz"), None);
    assert_eq!(split_words("  a\tbc \n d"), ["a", "bc", "d"]);
}
