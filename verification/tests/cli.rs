//! The command line.

use swtrust::cli::{
    parse, Config, Interface, ParseOutcome, DEFAULT_COMMAND_PORT, DEFAULT_PIPE_NAME,
};

fn run(args: &[&str]) -> Config {
    match parse(args).expect("parse") {
        ParseOutcome::Run(c) => *c,
        other => panic!("expected run, got {other:?}"),
    }
}

#[test]
fn defaults_match_specification() {
    let c = run(&[]);
    assert_eq!(c.interface, Interface::Socket);
    assert_eq!(c.port, DEFAULT_COMMAND_PORT);
    assert_eq!(c.state_dir, "state");
    assert_eq!(c.log_dir, ".");
    assert!(!c.verbose);
    assert!(!c.console);
}

#[test]
fn the_console_is_asked_for_by_name_or_letter() {
    assert!(run(&["--console"]).console);
    assert!(run(&["-c"]).console);
    let c = run(&["--verbose"]);
    assert!(c.verbose);
    assert!(!c.console);
}

#[test]
fn selects_pipe_interface() {
    let c = run(&["--interface", "pipe"]);
    assert_eq!(c.interface, Interface::Pipe);
    assert_eq!(c.pipe_name, DEFAULT_PIPE_NAME);
}

#[test]
fn accepts_inline_values() {
    let c = run(&["--port=3000", "--state=C:/tpm", "--verbose"]);
    assert_eq!(c.port, 3000);
    assert_eq!(c.state_dir, "C:/tpm");
    assert!(c.verbose);
}

#[test]
fn short_flags() {
    let c = run(&["-i", "pipe", "-n", "\\\\.\\pipe\\x", "-s", "st", "-l", "logs", "-v"]);
    assert_eq!(c.interface, Interface::Pipe);
    assert_eq!(c.pipe_name, "\\\\.\\pipe\\x");
    assert_eq!(c.state_dir, "st");
    assert_eq!(c.log_dir, "logs");
    assert!(c.verbose);
}

#[test]
fn rejects_unknown_interface() {
    assert!(parse(&["--interface", "carrier-pigeon"]).is_err());
}

#[test]
fn rejects_missing_value() {
    assert!(parse(&["--port"]).is_err());
}

#[test]
fn rejects_bad_port() {
    assert!(parse(&["--port", "notanumber"]).is_err());
    assert!(parse(&["--port", "65535"]).is_err());
}

#[test]
fn help_and_version() {
    assert!(matches!(parse(&["--help"]).unwrap(), ParseOutcome::Help));
    assert!(matches!(parse(&["-V"]).unwrap(), ParseOutcome::Version));
}

#[test]
fn an_interface_may_be_written_in_capitals() {
    assert_eq!(run(&["-i", "QEMU"]).interface, Interface::Qemu);
    assert_eq!(run(&["-i", "Named-Pipe"]).interface, Interface::Pipe);
    assert_eq!(run(&["-i", "TCP"]).interface, Interface::Socket);
    assert_eq!(Interface::Qemu.name(), "qemu");
}

#[test]
fn what_is_wrong_with_a_line_is_said() {
    assert_eq!(
        parse(&["-i", "Carrier"]).unwrap_err(),
        "unknown interface 'carrier', expected 'socket', 'pipe' or 'qemu'"
    );
    assert_eq!(parse(&["-p", "70000"]).unwrap_err(), "invalid port '70000'");
    assert_eq!(
        parse(&["-p", "65535"]).unwrap_err(),
        "port must be below 65535 to leave room for the platform port"
    );
    assert_eq!(parse(&["-p"]).unwrap_err(), "option --port requires a value");
    assert_eq!(parse(&["--what=1"]).unwrap_err(), "unknown argument '--what'");
    assert_eq!(parse(&["-x=1"]).unwrap_err(), "unknown argument '-x=1'");
}

#[test]
fn the_last_option_of_a_kind_holds() {
    let c = run(&["-p", "1", "--port=+65534", "-a", "::1", "--ptp"]);
    assert_eq!(c.port, 65534);
    assert_eq!(c.address, "::1");
    assert!(c.ptp);
}
