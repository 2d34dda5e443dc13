//! The command line of the daemon.

use vstd::prelude::*;

use crate::util::text::{chars_of, lower, lowered, parse_number, same, texts, unsigned_in};

verus! {

/// The transport the daemon listens on.
#[derive(Debug, Clone, Copy, PartialEq, Eq, Structural)]
pub enum Interface {
    /// TCP sockets with the TPM simulator protocol.
    Socket,
    /// A named pipe.
    Pipe,
    /// TCP sockets with a data channel and a control channel, which is what a
    /// virtual machine monitor attaches to.
    Qemu,
}

impl Interface {
    /// What the interface is called.
    pub open spec fn name_of(self) -> Seq<char> {
        match self {
            Interface::Socket => "socket"@,
            Interface::Pipe => "pipe"@,
            Interface::Qemu => "qemu"@,
        }
    }

    /// What the interface is called.
    pub fn name(&self) -> (r: &'static str)
        ensures
            r@ == self.name_of(),
    {
        match self {
            Interface::Socket => "socket",
            Interface::Pipe => "pipe",
            Interface::Qemu => "qemu",
        }
    }
}

/// The command port unless another is asked for.
pub const DEFAULT_COMMAND_PORT: u16 = 2321;

/// The named pipe unless another is asked for.
pub const DEFAULT_PIPE_NAME: &'static str = "\\\\.\\pipe\\swtrust";

/// The address the sockets listen on unless another is asked for.
pub const DEFAULT_ADDRESS: &'static str = "127.0.0.1";

/// The version of the program.
pub const VERSION: &'static str = "0.1.0";

/// What the daemon is to do.
#[derive(Debug)]
pub struct Config {
    pub interface: Interface,
    pub address: String,
    /// The command port. The platform port is always the next one.
    pub port: u16,
    pub pipe_name: String,
    pub state_dir: String,
    pub log_dir: String,
    pub verbose: bool,
    /// Run the debug console on the standard input beside the transport.
    pub console: bool,
    /// Follow the PC Client profile as written, which takes away the algorithms
    /// it deprecated.
    pub ptp: bool,
}

/// What a configuration holds.
#[verifier::ext_equal]
pub struct ConfigView {
    pub interface: Interface,
    pub address: Seq<char>,
    pub port: u16,
    pub pipe_name: Seq<char>,
    pub state_dir: Seq<char>,
    pub log_dir: Seq<char>,
    pub verbose: bool,
    pub console: bool,
    pub ptp: bool,
}

impl View for Config {
    type V = ConfigView;

    open spec fn view(&self) -> ConfigView {
        ConfigView {
            interface: self.interface,
            address: self.address@,
            port: self.port,
            pipe_name: self.pipe_name@,
            state_dir: self.state_dir@,
            log_dir: self.log_dir@,
            verbose: self.verbose,
            console: self.console,
            ptp: self.ptp,
        }
    }
}

/// What the daemon does unless it is asked otherwise.
pub open spec fn default_config() -> ConfigView {
    ConfigView {
        interface: Interface::Socket,
        address: DEFAULT_ADDRESS@,
        port: DEFAULT_COMMAND_PORT,
        pipe_name: DEFAULT_PIPE_NAME@,
        state_dir: "state"@,
        log_dir: "."@,
        verbose: false,
        console: false,
        ptp: false,
    }
}

impl Default for Config {
    fn default() -> (r: Config)
        ensures
            r@ == default_config(),
    {
        Config {
            interface: Interface::Socket,
            address: String::from_str(DEFAULT_ADDRESS),
            port: DEFAULT_COMMAND_PORT,
            pipe_name: String::from_str(DEFAULT_PIPE_NAME),
            state_dir: String::from_str("state"),
            log_dir: String::from_str("."),
            verbose: false,
            console: false,
            ptp: false,
        }
    }
}

impl Clone for Config {
    fn clone(&self) -> (r: Config)
        ensures
            r@ == self@,
    {
        Config {
            interface: self.interface,
            address: self.address.clone(),
            port: self.port,
            pipe_name: self.pipe_name.clone(),
            state_dir: self.state_dir.clone(),
            log_dir: self.log_dir.clone(),
            verbose: self.verbose,
            console: self.console,
            ptp: self.ptp,
        }
    }
}

/// What a command line asks for.
#[derive(Debug)]
pub enum ParseOutcome {
    Run(Box<Config>),
    Help,
    Version,
}

/// What a command line asks for.
pub enum OutcomeView {
    Run(ConfigView),
    Help,
    Version,
}

/// What an outcome holds.
pub open spec fn outcome_view(o: ParseOutcome) -> OutcomeView {
    match o {
        ParseOutcome::Run(c) => OutcomeView::Run((*c)@),
        ParseOutcome::Help => OutcomeView::Help,
        ParseOutcome::Version => OutcomeView::Version,
    }
}

/// The help text.
pub const HELP: &'static str = "swtrust 0.1.0 - software TPM 2.0\n\nUSAGE:\n    swtrust [OPTIONS]\n\nOPTIONS:\n    -i, --interface <socket|pipe|qemu>\n                                   Transport to listen on. Default: socket\n    -a, --address <addr>           Bind address for the socket interfaces. Default: 127.0.0.1\n    -p, --port <port>              Command port for the socket interfaces. Default: 2321\n                                   socket: the platform control port is <port> + 1.\n                                   qemu:   <port> carries commands and <port> + 1 the\n                                           control channel.\n    -n, --pipe-name <name>         Named pipe path. Default: \\\\.\\pipe\\swtrust\n    -s, --state <dir>              Directory holding the TPM state file. Default: ./state\n    -l, --log-dir <dir>            Directory for YYYY-MM-DD.log files. Default: .\n    -v, --verbose                  Also print command logs to stdout\n    -c, --console                  Run the debug console on stdin\n        --ptp                      Follow the PC Client Platform TPM Profile 1.07 as\n                                   written. SHA-1 is then not implemented, which is\n                                   what the profile requires and what BitLocker and\n                                   TPM virtual smart cards cannot work without.\n    -h, --help                     Print this help\n    -V, --version                  Print version\n";

/// Where the first equals sign from `i` on stands, or the length.
pub open spec fn equals_from(s: Seq<char>, i: int) -> int
    decreases s.len() - i,
{
    if i >= s.len() {
        s.len() as int
    } else if s[i] == '=' {
        i
    } else {
        equals_from(s, i + 1)
    }
}

/// The name of an option and the value written behind it with an equals sign.
pub open spec fn option_of(s: Seq<char>) -> (Seq<char>, Option<Seq<char>>) {
    let at = equals_from(s, 0);
    if 2 <= at < s.len() && s[0] == '-' && s[1] == '-' {
        (s.subrange(0, at), Some(s.subrange(at + 1, s.len() as int)))
    } else {
        (s, None)
    }
}

/// The value of the option at `i`. It is the next word unless it was written
/// behind an equals sign.
pub open spec fn value_at(
    args: Seq<Seq<char>>,
    i: int,
    inline: Option<Seq<char>>,
    name: Seq<char>,
) -> Result<Seq<char>, Seq<char>> {
    match inline {
        Some(v) => Ok(v),
        None => if i + 1 < args.len() {
            Ok(args[i + 1])
        } else {
            Err("option "@ + name + " requires a value"@)
        },
    }
}

/// The interface that is called that.
pub open spec fn interface_of(v: Seq<char>) -> Result<Interface, Seq<char>> {
    let s = lowered(v);
    if s == "socket"@ || s == "tcp"@ {
        Ok(Interface::Socket)
    } else if s == "pipe"@ || s == "named-pipe"@ || s == "namedpipe"@ {
        Ok(Interface::Pipe)
    } else if s == "qemu"@ || s == "vmm"@ {
        Ok(Interface::Qemu)
    } else {
        Err("unknown interface '"@ + s + "', expected 'socket', 'pipe' or 'qemu'"@)
    }
}

/// The port that is called that. The one above it has to be there too.
pub open spec fn port_of(v: Seq<char>) -> Result<u16, Seq<char>> {
    match unsigned_in(v, 10) {
        Some(n) => if n > 65535 {
            Err("invalid port '"@ + v + "'"@)
        } else if n == 65535 {
            Err("port must be below 65535 to leave room for the platform port"@)
        } else {
            Ok(n as u16)
        },
        None => Err("invalid port '"@ + v + "'"@),
    }
}

/// An option that has a value.
pub enum Valued {
    Interface,
    Address,
    Port,
    PipeName,
    State,
    LogDir,
}

/// The option that has a value and is called that.
pub open spec fn valued_of(name: Seq<char>) -> Option<Valued> {
    if name == "-i"@ || name == "--interface"@ {
        Some(Valued::Interface)
    } else if name == "-a"@ || name == "--address"@ {
        Some(Valued::Address)
    } else if name == "-p"@ || name == "--port"@ {
        Some(Valued::Port)
    } else if name == "-n"@ || name == "--pipe-name"@ {
        Some(Valued::PipeName)
    } else if name == "-s"@ || name == "--state"@ {
        Some(Valued::State)
    } else if name == "-l"@ || name == "--log-dir"@ {
        Some(Valued::LogDir)
    } else {
        None
    }
}

/// What an option with a value is called in full.
pub open spec fn full_name(o: Valued) -> Seq<char> {
    match o {
        Valued::Interface => "--interface"@,
        Valued::Address => "--address"@,
        Valued::Port => "--port"@,
        Valued::PipeName => "--pipe-name"@,
        Valued::State => "--state"@,
        Valued::LogDir => "--log-dir"@,
    }
}

/// The configuration once an option is given its value.
pub open spec fn with_value(c: ConfigView, o: Valued, v: Seq<char>) -> Result<ConfigView, Seq<char>> {
    match o {
        Valued::Interface => match interface_of(v) {
            Ok(interface) => Ok(ConfigView { interface, ..c }),
            Err(e) => Err(e),
        },
        Valued::Address => Ok(ConfigView { address: v, ..c }),
        Valued::Port => match port_of(v) {
            Ok(port) => Ok(ConfigView { port, ..c }),
            Err(e) => Err(e),
        },
        Valued::PipeName => Ok(ConfigView { pipe_name: v, ..c }),
        Valued::State => Ok(ConfigView { state_dir: v, ..c }),
        Valued::LogDir => Ok(ConfigView { log_dir: v, ..c }),
    }
}

/// What the words from `i` on ask for, beside what is asked for already. The
/// last option of a kind holds. The first request for the help text or the
/// version ends the reading.
pub open spec fn parsed_from(args: Seq<Seq<char>>, i: int, c: ConfigView) -> Result<
    OutcomeView,
    Seq<char>,
>
    decreases args.len() - i,
{
    if i >= args.len() {
        Ok(OutcomeView::Run(c))
    } else {
        let (name, inline) = option_of(args[i]);
        if name == "-h"@ || name == "--help"@ {
            Ok(OutcomeView::Help)
        } else if name == "-V"@ || name == "--version"@ {
            Ok(OutcomeView::Version)
        } else if name == "-v"@ || name == "--verbose"@ {
            parsed_from(args, i + 1, ConfigView { verbose: true, ..c })
        } else if name == "--ptp"@ {
            parsed_from(args, i + 1, ConfigView { ptp: true, ..c })
        } else if name == "-c"@ || name == "--console"@ {
            parsed_from(args, i + 1, ConfigView { console: true, ..c })
        } else {
            match valued_of(name) {
                None => Err("unknown argument '"@ + name + "'"@),
                Some(o) => match value_at(args, i, inline, full_name(o)) {
                    Err(e) => Err(e),
                    Ok(v) => match with_value(c, o, v) {
                        Err(e) => Err(e),
                        Ok(next) => if inline is Some {
                            parsed_from(args, i + 1, next)
                        } else {
                            parsed_from(args, i + 2, next)
                        },
                    },
                },
            }
        }
    }
}

/// Where the first equals sign stands, or the length.
fn find_equals(c: &Vec<char>) -> (r: usize)
    ensures
        r == equals_from(c@, 0),
        r <= c@.len(),
{
    let mut i: usize = 0;
    while i < c.len()
        invariant
            i <= c@.len(),
            equals_from(c@, 0) == equals_from(c@, i as int),
        decreases c@.len() - i,
    {
        if c[i] == '=' {
            return i;
        }
        i = i + 1;
    }
    i
}

/// The name of an option and the value written behind it.
fn split_option<'a>(s: &'a str) -> (r: (&'a str, Option<&'a str>))
    ensures
        r.0@ == option_of(s@).0,
        match option_of(s@).1 {
            Some(v) => r.1 is Some && r.1->Some_0@ == v,
            None => r.1 is None,
        },
{
    let c: Vec<char> = chars_of(s);
    let at: usize = find_equals(&c);
    if at >= 2 && at < c.len() && c[0] == '-' && c[1] == '-' {
        (s.substring_char(0, at), Some(s.substring_char(at + 1, c.len())))
    } else {
        (s, None)
    }
}

/// Three texts one after the other.
fn joined(a: &str, b: &str, c: &str) -> (r: String)
    ensures
        r@ == a@ + b@ + c@,
{
    let mut out: String = String::from_str(a);
    out.append(b);
    out.append(c);
    out
}

/// The interface that is called that.
fn read_interface(v: &str) -> (r: Result<Interface, String>)
    ensures
        match interface_of(v@) {
            Ok(i) => r is Ok && r->Ok_0 == i,
            Err(e) => r is Err && r->Err_0@ == e,
        },
{
    let s: String = lower(v);
    if same(s.as_str(), "socket") || same(s.as_str(), "tcp") {
        return Ok(Interface::Socket);
    }
    if same(s.as_str(), "pipe") || same(s.as_str(), "named-pipe") || same(
        s.as_str(),
        "namedpipe",
    ) {
        return Ok(Interface::Pipe);
    }
    if same(s.as_str(), "qemu") || same(s.as_str(), "vmm") {
        return Ok(Interface::Qemu);
    }
    Err(joined("unknown interface '", s.as_str(), "', expected 'socket', 'pipe' or 'qemu'"))
}

/// The port that is called that.
fn read_port(v: &str) -> (r: Result<u16, String>)
    ensures
        match port_of(v@) {
            Ok(p) => r is Ok && r->Ok_0 == p,
            Err(e) => r is Err && r->Err_0@ == e,
        },
{
    match parse_number(v, 10) {
        Some(n) => if n > 65535 {
            Err(joined("invalid port '", v, "'"))
        } else if n == 65535 {
            Err(String::from_str("port must be below 65535 to leave room for the platform port"))
        } else {
            Ok(n as u16)
        },
        None => Err(joined("invalid port '", v, "'")),
    }
}

/// The option that has a value and is called that, and what it is called in
/// full.
fn find_valued(name: &str) -> (r: Option<(Valued, &'static str)>)
    ensures
        match valued_of(name@) {
            Some(o) => r is Some && (r->Some_0).0 == o && (r->Some_0).1@ == full_name(o),
            None => r is None,
        },
{
    if same(name, "-i") || same(name, "--interface") {
        Some((Valued::Interface, "--interface"))
    } else if same(name, "-a") || same(name, "--address") {
        Some((Valued::Address, "--address"))
    } else if same(name, "-p") || same(name, "--port") {
        Some((Valued::Port, "--port"))
    } else if same(name, "-n") || same(name, "--pipe-name") {
        Some((Valued::PipeName, "--pipe-name"))
    } else if same(name, "-s") || same(name, "--state") {
        Some((Valued::State, "--state"))
    } else if same(name, "-l") || same(name, "--log-dir") {
        Some((Valued::LogDir, "--log-dir"))
    } else {
        None
    }
}

/// Give an option its value.
fn set_value(c: Config, o: Valued, v: &str) -> (r: Result<Config, String>)
    ensures
        match with_value(c@, o, v@) {
            Ok(n) => r is Ok && r->Ok_0@ == n,
            Err(e) => r is Err && r->Err_0@ == e,
        },
{
    let mut c: Config = c;
    match o {
        Valued::Interface => match read_interface(v) {
            Ok(i) => {
                c.interface = i;
            },
            Err(e) => {
                return Err(e);
            },
        },
        Valued::Address => {
            c.address = String::from_str(v);
        },
        Valued::Port => match read_port(v) {
            Ok(p) => {
                c.port = p;
            },
            Err(e) => {
                return Err(e);
            },
        },
        Valued::PipeName => {
            c.pipe_name = String::from_str(v);
        },
        Valued::State => {
            c.state_dir = String::from_str(v);
        },
        Valued::LogDir => {
            c.log_dir = String::from_str(v);
        },
    }
    Ok(c)
}

/// Read a command line without the name of the program.
pub fn parse(args: &[&str]) -> (r: Result<ParseOutcome, String>)
    ensures
        match parsed_from(texts(args@), 0, default_config()) {
            Ok(o) => r is Ok && outcome_view(r->Ok_0) == o,
            Err(e) => r is Err && r->Err_0@ == e,
        },
{
    let mut c: Config = Config::default();
    let mut i: usize = 0;
    let ghost all = texts(args@);
    while i < args.len()
        invariant
            i <= args@.len(),
            all == texts(args@),
            parsed_from(all, 0, default_config()) == parsed_from(all, i as int, c@),
        decreases args@.len() - i,
    {
        let (name, inline) = split_option(args[i]);
        assert(all[i as int] == args@[i as int]@);
        if same(name, "-h") || same(name, "--help") {
            return Ok(ParseOutcome::Help);
        }
        if same(name, "-V") || same(name, "--version") {
            return Ok(ParseOutcome::Version);
        }
        if same(name, "-v") || same(name, "--verbose") {
            c.verbose = true;
        } else if same(name, "--ptp") {
            c.ptp = true;
        } else if same(name, "-c") || same(name, "--console") {
            c.console = true;
        } else {
            let (o, full) = match find_valued(name) {
                Some(v) => v,
                None => {
                    return Err(joined("unknown argument '", name, "'"));
                },
            };
            let v: &str = match inline {
                Some(v) => v,
                None => {
                    if args.len() - i < 2 {
                        return Err(joined("option ", full, " requires a value"));
                    }
                    i = i + 1;
                    assert(all[i as int] == args@[i as int]@);
                    args[i]
                },
            };
            match set_value(c, o, v) {
                Ok(n) => {
                    c = n;
                },
                Err(e) => {
                    return Err(e);
                },
            }
        }
        i = i + 1;
    }
    Ok(ParseOutcome::Run(Box::new(c)))
}

} // verus!
