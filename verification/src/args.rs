//! The daemon's command line: one argument, `--systemd` or `--dev`.
use vstd::prelude::*;

verus! {

/// Where the daemon gets its listening socket from.
#[derive(Debug, Clone, Copy, PartialEq, Eq, Structural)]
pub enum RunMode {
    /// systemd passes the socket (socket activation).
    Systemd,
    /// The daemon binds `$XDG_RUNTIME_DIR/weather-mon-dev.sock` itself.
    Dev,
}

/// The parsed command line.
#[derive(Debug, Clone, Copy, PartialEq, Eq, Structural)]
pub struct Args {
    pub mode: RunMode,
}

/// Why the command line was refused.
#[derive(Debug)]
pub enum ArgsError {
    /// No argument was given.
    Missing,
    /// The argument is neither `--systemd` nor `--dev`.
    Unknown(String),
}

impl Args {
    /// Parses the first command-line argument (after the program's name).
    pub fn parse(first: Option<&str>) -> (r: Result<Args, ArgsError>)
        ensures
            first is None ==> r matches Err(ArgsError::Missing),
            first matches Some(a) ==> {
                &&& a@ == "--systemd"@ ==> r == Ok::<Args, ArgsError>(Args { mode: RunMode::Systemd })
                &&& a@ == "--dev"@ ==> r == Ok::<Args, ArgsError>(Args { mode: RunMode::Dev })
                &&& a@ != "--systemd"@ && a@ != "--dev"@ ==> (r matches Err(ArgsError::Unknown(s))
                    && s@ == a@)
            },
    {
        proof {
            reveal_strlit("--systemd");
            reveal_strlit("--dev");
        }
        let arg = match first {
            Some(a) => a.to_owned(),
            None => {
                return Err(ArgsError::Missing);
            },
        };
        let systemd = "--systemd".to_owned();
        let dev = "--dev".to_owned();
        assert(arg@ == first.unwrap()@);
        if arg == systemd {
            Ok(Args { mode: RunMode::Systemd })
        } else if arg == dev {
            Ok(Args { mode: RunMode::Dev })
        } else {
            Err(ArgsError::Unknown(arg))
        }
    }
}

} // verus!
