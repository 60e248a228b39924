//! Command-line parsing: flags, their values, and the rule that a token
//! (or the explicit no-auth flag) must be present.

use vstd::prelude::*;

use crate::text::{spec_trim, str_eq, str_to_string, str_trim, strs_view};

verus! {

/// The configuration the daemon starts with. The listen address is kept
/// as text; binding validates it.
#[derive(Debug)]
pub struct DaemonConfig {
    pub listen: String,
    pub token: Option<String>,
    pub data_dir: Option<String>,
}

/// What an argument list means.
#[derive(Debug)]
pub enum ParseOutcome {
    /// `-h` or `--help`: print usage and exit successfully.
    Help,
    Run(DaemonConfig),
}

/// The abstract reading of the argument list, one flag at a time.
pub enum ArgsOutcome {
    Help,
    Run { listen: Seq<char>, token: Option<Seq<char>>, data_dir: Option<Seq<char>> },
    Fail { msg: Seq<char> },
}

pub open spec fn spec_parse_args(
    args: Seq<Seq<char>>,
    i: int,
    listen: Seq<char>,
    token: Option<Seq<char>>,
    insecure: bool,
    data_dir: Option<Seq<char>>,
) -> ArgsOutcome
    decreases args.len() - i,
{
    if i < 0 || i >= args.len() {
        if token is None && !insecure {
            ArgsOutcome::Fail {
                msg: "Missing --token (or set CODEX_MONITOR_DAEMON_TOKEN). Use --insecure-no-auth for local dev only."@,
            }
        } else {
            ArgsOutcome::Run { listen, token, data_dir }
        }
    } else {
        let a = args[i];
        if a == "-h"@ || a == "--help"@ {
            ArgsOutcome::Help
        } else if a == "--listen"@ {
            if i + 1 >= args.len() {
                ArgsOutcome::Fail { msg: "--listen requires a value"@ }
            } else {
                spec_parse_args(args, i + 2, args[i + 1], token, insecure, data_dir)
            }
        } else if a == "--token"@ {
            if i + 1 >= args.len() {
                ArgsOutcome::Fail { msg: "--token requires a value"@ }
            } else if spec_trim(args[i + 1]).len() == 0 {
                ArgsOutcome::Fail { msg: "--token requires a non-empty value"@ }
            } else {
                spec_parse_args(args, i + 2, listen, Some(spec_trim(args[i + 1])), insecure, data_dir)
            }
        } else if a == "--data-dir"@ {
            if i + 1 >= args.len() {
                ArgsOutcome::Fail { msg: "--data-dir requires a value"@ }
            } else if spec_trim(args[i + 1]).len() == 0 {
                ArgsOutcome::Fail { msg: "--data-dir requires a non-empty value"@ }
            } else {
                spec_parse_args(args, i + 2, listen, token, insecure, Some(spec_trim(args[i + 1])))
            }
        } else if a == "--insecure-no-auth"@ {
            spec_parse_args(args, i + 1, listen, None, true, data_dir)
        } else {
            ArgsOutcome::Fail { msg: "Unknown argument: "@ + a }
        }
    }
}

/// The token the environment supplies: trimmed, and dropped when empty.
pub open spec fn spec_env_token(env_token: Option<Seq<char>>) -> Option<Seq<char>> {
    match env_token {
        Some(t) => if spec_trim(t).len() > 0 {
            Some(spec_trim(t))
        } else {
            None
        },
        None => None,
    }
}

/// The address clients connect to unless `--listen` overrides it.
pub fn default_listen_addr() -> (r: String)
    ensures
        r@ == "127.0.0.1:4732"@,
{
    str_to_string("127.0.0.1:4732")
}

/// Reads the argument list (without the program name) against the token
/// the environment may supply. Flags consume the following argument;
/// `--insecure-no-auth` clears any token; with neither token nor that
/// flag the call fails with the usage hint.
pub fn parse_args(args: &Vec<String>, env_token: Option<String>) -> (r: Result<
    ParseOutcome,
    String,
>)
    ensures
        ({
            let spec_r = spec_parse_args(
                strs_view(args@),
                0,
                "127.0.0.1:4732"@,
                spec_env_token(
                    match env_token {
                        Some(t) => Some(t@),
                        None => None,
                    },
                ),
                false,
                None,
            );
            match r {
                Ok(o) => match o {
                    ParseOutcome::Help => spec_r is Help,
                    ParseOutcome::Run(c) => {
                        &&& spec_r matches ArgsOutcome::Run { listen, token, data_dir }
                        &&& c.listen@ == listen
                        &&& (match c.token {
                            Some(t) => token == Some(t@),
                            None => token is None,
                        })
                        &&& (match c.data_dir {
                            Some(d) => data_dir == Some(d@),
                            None => data_dir is None,
                        })
                    },
                },
                Err(e) => spec_r matches ArgsOutcome::Fail { msg } && e@ == msg,
            }
        }),
{
    let ghost views = strs_view(args@);
    let ghost env_view: Option<Seq<char>> = match &env_token {
        Some(t) => Some(t@),
        None => None,
    };
    let mut listen = default_listen_addr();
    let mut token: Option<String> = match &env_token {
        Some(t) => {
            let tt = str_trim(t.as_str());
            if tt.as_str().unicode_len() > 0 {
                Some(tt)
            } else {
                None
            }
        },
        None => None,
    };
    let mut insecure = false;
    let mut data_dir: Option<String> = None;
    proof {
        assert(match &token {
            Some(t) => Some(t@),
            None => None,
        } == spec_env_token(env_view));
    }
    let ghost target = spec_parse_args(
        views,
        0,
        "127.0.0.1:4732"@,
        spec_env_token(env_view),
        false,
        None,
    );
    let mut i: usize = 0;
    while i < args.len()
        invariant
            views == strs_view(args@),
            0 <= i <= views.len(),
            target == spec_parse_args(
                views,
                0,
                "127.0.0.1:4732"@,
                spec_env_token(
                    match env_token {
                        Some(t) => Some(t@),
                        None => None,
                    },
                ),
                false,
                None,
            ),
            target == spec_parse_args(
                views,
                i as int,
                listen@,
                match token {
                    Some(t) => Some(t@),
                    None => None,
                },
                insecure,
                match data_dir {
                    Some(d) => Some(d@),
                    None => None,
                },
            ),
        decreases views.len() - i,
    {
        proof {
            assert(views[i as int] == args@[i as int]@);
        }
        let a = &args[i];
        if str_eq(a.as_str(), "-h") || str_eq(a.as_str(), "--help") {
            return Ok(ParseOutcome::Help);
        } else if str_eq(a.as_str(), "--listen") {
            if i + 1 >= args.len() {
                return Err(str_to_string("--listen requires a value"));
            }
            listen = args[i + 1].clone();
            i += 2;
        } else if str_eq(a.as_str(), "--token") {
            if i + 1 >= args.len() {
                return Err(str_to_string("--token requires a value"));
            }
            let t = str_trim(args[i + 1].as_str());
            if t.as_str().unicode_len() == 0 {
                return Err(str_to_string("--token requires a non-empty value"));
            }
            token = Some(t);
            i += 2;
        } else if str_eq(a.as_str(), "--data-dir") {
            if i + 1 >= args.len() {
                return Err(str_to_string("--data-dir requires a value"));
            }
            let d = str_trim(args[i + 1].as_str());
            if d.as_str().unicode_len() == 0 {
                return Err(str_to_string("--data-dir requires a non-empty value"));
            }
            data_dir = Some(d);
            i += 2;
        } else if str_eq(a.as_str(), "--insecure-no-auth") {
            insecure = true;
            token = None;
            i += 1;
        } else {
            let mut e = str_to_string("Unknown argument: ");
            e.append(a.as_str());
            return Err(e);
        }
    }
    if token.is_none() && !insecure {
        return Err(
            str_to_string(
                "Missing --token (or set CODEX_MONITOR_DAEMON_TOKEN). Use --insecure-no-auth for local dev only.",
            ),
        );
    }
    Ok(ParseOutcome::Run(DaemonConfig { listen, token, data_dir }))
}

/// The directory for the daemon's state when `--data-dir` is absent:
/// `$XDG_DATA_HOME/codex-monitor-daemon` when that variable is set and
/// non-empty, else `.local/share/codex-monitor-daemon` under the home
/// directory (or the working directory without one).
pub fn default_data_dir(xdg_data_home: Option<String>, home: Option<String>) -> (r: String)
    ensures
        r@ == match xdg_data_home {
            Some(x) => if spec_trim(x@).len() > 0 {
                spec_trim(x@) + "/codex-monitor-daemon"@
            } else {
                default_home_dir(
                    match home {
                        Some(h) => Some(h@),
                        None => None,
                    },
                )
            },
            None => default_home_dir(
                match home {
                    Some(h) => Some(h@),
                    None => None,
                },
            ),
        },
{
    match xdg_data_home {
        Some(x) => {
            let mut t = str_trim(x.as_str());
            if t.as_str().unicode_len() > 0 {
                t.append("/codex-monitor-daemon");
                return t;
            }
        },
        None => {},
    }
    let mut base = match home {
        Some(h) => h,
        None => str_to_string("."),
    };
    base.append("/.local/share/codex-monitor-daemon");
    base
}

/// The fallback under the home directory.
pub open spec fn default_home_dir(home: Option<Seq<char>>) -> Seq<char> {
    match home {
        Some(h) => h + "/.local/share/codex-monitor-daemon"@,
        None => "."@ + "/.local/share/codex-monitor-daemon"@,
    }
}

/// The usage text printed by `--help` and on argument errors.
pub fn usage() -> (r: String)
    ensures
        r@ == "USAGE:\n  codex-monitor-daemon [--listen <addr>] [--data-dir <path>] [--token <token> | --insecure-no-auth]\n\n"@
            + "OPTIONS:\n  --listen <addr>        Bind address (default: 127.0.0.1:4732)\n"@
            + "  --data-dir <path>      Data dir holding workspaces.json/settings.json\n"@
            + "  --token <token>        Shared token required by clients\n"@
            + "  --insecure-no-auth      Disable auth (dev only)\n"@
            + "  -h, --help             Show this help\n"@,
{
    let mut s = str_to_string(
        "USAGE:\n  codex-monitor-daemon [--listen <addr>] [--data-dir <path>] [--token <token> | --insecure-no-auth]\n\n",
    );
    s.append("OPTIONS:\n  --listen <addr>        Bind address (default: 127.0.0.1:4732)\n");
    s.append("  --data-dir <path>      Data dir holding workspaces.json/settings.json\n");
    s.append("  --token <token>        Shared token required by clients\n");
    s.append("  --insecure-no-auth      Disable auth (dev only)\n");
    s.append("  -h, --help             Show this help\n");
    s
}

} // verus!
