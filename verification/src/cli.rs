//! The command line of the overlay host.

use vstd::prelude::*;
use crate::text::{self, parse_u64, str_eq};

verus! {

/// What the command line asks for. The configuration path is kept as the
/// text given; the sampling interval is in milliseconds.
#[derive(Debug, Clone, PartialEq, Eq)]
pub struct Cli {
    pub overlay: bool,
    pub overlay_layer: Option<String>,
    pub configure: bool,
    pub print_config_path: bool,
    pub config_path: Option<String>,
    pub once: bool,
    pub wait: bool,
    pub interval_ms: u64,
    /// `--help` or `-h` was given: the help text is shown and nothing else
    /// happens; the arguments after it are not read.
    pub help: bool,
}

/// The command line with no arguments.
pub open spec fn default_cli() -> Cli {
    Cli {
        overlay: false,
        overlay_layer: None,
        configure: false,
        print_config_path: false,
        config_path: None,
        once: false,
        wait: false,
        interval_ms: 100,
        help: false,
    }
}

/// The argument after position `i`, when there is one.
pub open spec fn next_arg(args: Seq<String>, i: int) -> Option<String> {
    if i + 1 < args.len() { Some(args[i + 1]) } else { None }
}

/// The interval an `--interval-ms` value sets: a decimal `u64`, at least 1;
/// anything else leaves the interval as it was.
pub open spec fn interval_value(value: Option<String>) -> Option<u64> {
    match value {
        Some(v) => match text::bounded(text::decimal_value(v@), u64::MAX as nat) {
            Some(n) => Some(if n < 1 { 1u64 } else { n as u64 }),
            None => None,
        },
        None => None,
    }
}

/// The command line after reading `args` from position `i` on: each flag
/// sets its field; `--overlay-layer`, `--config` and `--interval-ms` take
/// the next argument as their value; `--help` stops the reading; anything
/// else is skipped.
pub open spec fn parse_from(cli: Cli, args: Seq<String>, i: int) -> Cli
    decreases args.len() + 1 - i,
{
    if i < 0 || i >= args.len() {
        cli
    } else {
        let a = args[i]@;
        if a == "--overlay"@ {
            parse_from(Cli { overlay: true, ..cli }, args, i + 1)
        } else if a == "--overlay-layer"@ {
            parse_from(Cli { overlay_layer: next_arg(args, i), ..cli }, args, i + 2)
        } else if a == "--configure"@ {
            parse_from(Cli { configure: true, ..cli }, args, i + 1)
        } else if a == "--print-config-path"@ {
            parse_from(Cli { print_config_path: true, ..cli }, args, i + 1)
        } else if a == "--config"@ {
            let c = match next_arg(args, i) {
                Some(v) => Cli { config_path: Some(v), ..cli },
                None => cli,
            };
            parse_from(c, args, i + 2)
        } else if a == "--once"@ {
            parse_from(Cli { once: true, ..cli }, args, i + 1)
        } else if a == "--wait"@ {
            parse_from(Cli { wait: true, ..cli }, args, i + 1)
        } else if a == "--interval-ms"@ {
            let c = match interval_value(next_arg(args, i)) {
                Some(ms) => Cli { interval_ms: ms, ..cli },
                None => cli,
            };
            parse_from(c, args, i + 2)
        } else if a == "--help"@ || a == "-h"@ {
            Cli { help: true, ..cli }
        } else {
            parse_from(cli, args, i + 1)
        }
    }
}

impl Cli {
    /// Reads the command line (without the program name).
    pub fn parse(args: Vec<String>) -> (cli: Cli)
        ensures
            cli == parse_from(default_cli(), args@, 0),
    {
        let mut cli = Cli {
            overlay: false,
            overlay_layer: None,
            configure: false,
            print_config_path: false,
            config_path: None,
            once: false,
            wait: false,
            interval_ms: 100,
            help: false,
        };
        let mut i: usize = 0;
        while i < args.len()
            invariant
                i <= args@.len(),
                parse_from(cli, args@, i as int) == parse_from(default_cli(), args@, 0),
            decreases args@.len() - i,
        {
            let a = args[i].as_str();
            let ghost i0 = i as int;
            if str_eq(a, "--overlay") {
                cli.overlay = true;
                i = i + 1;
            } else if str_eq(a, "--overlay-layer") {
                if i + 1 < args.len() {
                    cli.overlay_layer = Some(args[i + 1].clone());
                    i = i + 2;
                } else {
                    cli.overlay_layer = None;
                    i = args.len();
                    assert(parse_from(cli, args@, i0 + 2) == cli);
                }
            } else if str_eq(a, "--configure") {
                cli.configure = true;
                i = i + 1;
            } else if str_eq(a, "--print-config-path") {
                cli.print_config_path = true;
                i = i + 1;
            } else if str_eq(a, "--config") {
                if i + 1 < args.len() {
                    cli.config_path = Some(args[i + 1].clone());
                    i = i + 2;
                } else {
                    i = args.len();
                    assert(parse_from(cli, args@, i0 + 2) == cli);
                }
            } else if str_eq(a, "--once") {
                cli.once = true;
                i = i + 1;
            } else if str_eq(a, "--wait") {
                cli.wait = true;
                i = i + 1;
            } else if str_eq(a, "--interval-ms") {
                if i + 1 < args.len() {
                    if let Some(ms) = parse_u64(args[i + 1].as_str()) {
                        cli.interval_ms = if ms < 1 { 1 } else { ms };
                    }
                    i = i + 2;
                } else {
                    i = args.len();
                    assert(parse_from(cli, args@, i0 + 2) == cli);
                }
            } else if str_eq(a, "--help") || str_eq(a, "-h") {
                cli.help = true;
                return cli;
            } else {
                i = i + 1;
            }
        }
        cli
    }
}

} // verus!
