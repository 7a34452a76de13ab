//! The server configuration and its command-line reader: a list of
//! option/value pairs applied to the default configuration, with the
//! first offending pair reported as the error.

use vstd::prelude::*;

use crate::text::{parse_usize, parse_usize_spec, str_eq};

verus! {

/// The configuration the server runs with.
#[derive(Debug)]
pub struct Config {
    pub port: String,
    pub addr: String,
    pub max_threads: Option<usize>,
    pub default_file: String,
    pub err404_file: Option<String>,
    pub limit_requests: Option<usize>,
}

/// The mathematical shape of a configuration: each string by its
/// characters.
pub ghost struct ConfigView {
    pub port: Seq<char>,
    pub addr: Seq<char>,
    pub max_threads: Option<usize>,
    pub default_file: Seq<char>,
    pub err404_file: Option<Seq<char>>,
    pub limit_requests: Option<usize>,
}

impl View for Config {
    type V = ConfigView;

    open spec fn view(&self) -> ConfigView {
        ConfigView {
            port: self.port@,
            addr: self.addr@,
            max_threads: self.max_threads,
            default_file: self.default_file@,
            err404_file: match self.err404_file {
                Some(s) => Some(s@),
                None => None,
            },
            limit_requests: self.limit_requests,
        }
    }
}

impl PartialEq for Config {
    fn eq(&self, other: &Self) -> bool {
        let err404_eq = match (&self.err404_file, &other.err404_file) {
            (Some(x), Some(y)) => *x == *y,
            (None, None) => true,
            _ => false,
        };
        let max_threads_eq = match (&self.max_threads, &other.max_threads) {
            (Some(x), Some(y)) => *x == *y,
            (None, None) => true,
            _ => false,
        };
        let limit_eq = match (&self.limit_requests, &other.limit_requests) {
            (Some(x), Some(y)) => *x == *y,
            (None, None) => true,
            _ => false,
        };
        self.port == other.port && self.addr == other.addr && max_threads_eq && self.default_file
            == other.default_file && err404_eq && limit_eq
    }
}

impl vstd::std_specs::cmp::PartialEqSpecImpl for Config {
    open spec fn obeys_eq_spec() -> bool {
        true
    }

    open spec fn eq_spec(&self, other: &Self) -> bool {
        self@ == other@
    }
}

/// The configuration the server starts from when no option says
/// otherwise.
pub open spec fn default_config_view() -> ConfigView {
    ConfigView {
        port: "6969"@,
        addr: "127.0.0.1"@,
        max_threads: None,
        default_file: "index.html"@,
        err404_file: None,
        limit_requests: None,
    }
}

/// What one option/value pair does to a configuration: the new
/// configuration, or the message the pair is rejected with.
pub open spec fn apply_option(c: ConfigView, arg: Seq<char>, value: Seq<char>) -> Result<
    ConfigView,
    Seq<char>,
> {
    if arg == "--port"@ || arg == "-p"@ {
        Ok(ConfigView { port: value, ..c })
    } else if arg == "--addr"@ || arg == "-a"@ {
        Ok(ConfigView { addr: value, ..c })
    } else if arg == "--default-file"@ || arg == "-f"@ {
        Ok(ConfigView { default_file: value, ..c })
    } else if arg == "--err404-file"@ || arg == "-e"@ {
        Ok(ConfigView { err404_file: Some(value), ..c })
    } else if arg == "--max-threads"@ || arg == "-t"@ {
        match parse_usize_spec(value) {
            None => Err(value + " is not a valid number!"@),
            Some(n) => if n == 0 {
                Err(value + " is not integer greater then 0!"@)
            } else {
                Ok(ConfigView { max_threads: Some(n), ..c })
            },
        }
    } else if arg == "--limit-requests"@ || arg == "-l"@ {
        match parse_usize_spec(value) {
            None => Err(value + " is not a valid number!"@),
            Some(n) => Ok(ConfigView { limit_requests: Some(n), ..c }),
        }
    } else {
        Err("No such option: "@ + arg)
    }
}

/// The configuration the argument list from index `i` on builds, by
/// pairs, or the message the first offending pair is rejected with;
/// an option with no value after it is rejected.
pub open spec fn build_step(c: ConfigView, args: Seq<Seq<char>>, i: int) -> Result<
    ConfigView,
    Seq<char>,
>
    decreases args.len() - i,
{
    if i >= args.len() {
        Ok(c)
    } else if i + 1 >= args.len() {
        Err("No value specified for "@ + args[i])
    } else {
        match apply_option(c, args[i], args[i + 1]) {
            Ok(c2) => build_step(c2, args, i + 2),
            Err(m) => Err(m),
        }
    }
}

/// The configuration a whole command line builds: the first argument
/// is the program's name and is skipped; an empty command line gives
/// the default configuration.
pub open spec fn build_cmdline_spec(args: Seq<Seq<char>>) -> Result<ConfigView, Seq<char>> {
    if args.len() == 0 {
        Ok(default_config_view())
    } else {
        build_step(default_config_view(), args, 1)
    }
}

impl Config {
    /// The default configuration.
    pub fn new() -> (c: Config)
        ensures
            c@ == default_config_view(),
    {
        Config {
            port: String::from_str("6969"),
            addr: String::from_str("127.0.0.1"),
            max_threads: None,
            default_file: String::from_str("index.html"),
            err404_file: None,
            limit_requests: None,
        }
    }

    /// Applies one option/value pair, exactly as [`apply_option`]
    /// says; a rejected pair leaves the configuration unchanged.
    fn set_option(&mut self, arg: String, value: String) -> (r: Result<(), String>)
        ensures
            match r {
                Ok(()) => apply_option(old(self)@, arg@, value@) == Ok::<ConfigView, Seq<char>>(
                    final(self)@,
                ),
                Err(m) => apply_option(old(self)@, arg@, value@) == Err::<ConfigView, Seq<char>>(
                    m@,
                ) && final(self)@ == old(self)@,
            },
    {
        if str_eq(arg.as_str(), "--port") || str_eq(arg.as_str(), "-p") {
            self.port = value;
            Ok(())
        } else if str_eq(arg.as_str(), "--addr") || str_eq(arg.as_str(), "-a") {
            self.addr = value;
            Ok(())
        } else if str_eq(arg.as_str(), "--default-file") || str_eq(arg.as_str(), "-f") {
            self.default_file = value;
            Ok(())
        } else if str_eq(arg.as_str(), "--err404-file") || str_eq(arg.as_str(), "-e") {
            self.err404_file = Some(value);
            Ok(())
        } else if str_eq(arg.as_str(), "--max-threads") || str_eq(arg.as_str(), "-t") {
            match parse_usize(value.as_str()) {
                None => Err(value.concat(" is not a valid number!")),
                Some(n) => {
                    if n == 0 {
                        Err(value.concat(" is not integer greater then 0!"))
                    } else {
                        self.max_threads = Some(n);
                        Ok(())
                    }
                },
            }
        } else if str_eq(arg.as_str(), "--limit-requests") || str_eq(arg.as_str(), "-l") {
            match parse_usize(value.as_str()) {
                None => Err(value.concat(" is not a valid number!")),
                Some(n) => {
                    self.limit_requests = Some(n);
                    Ok(())
                },
            }
        } else {
            Err(String::from_str("No such option: ").concat(arg.as_str()))
        }
    }

    /// Builds a configuration from the command line's arguments, the
    /// program's name first, exactly as [`build_cmdline_spec`] says.
    pub fn build_from_cmdline(args: Vec<String>) -> (r: Result<Config, String>)
        ensures
            match r {
                Ok(c) => build_cmdline_spec(args.deep_view()) == Ok::<ConfigView, Seq<char>>(c@),
                Err(m) => build_cmdline_spec(args.deep_view()) == Err::<ConfigView, Seq<char>>(m@),
            },
    {
        let mut config = Config::new();
        let n = args.len();
        if n == 0 {
            return Ok(config);
        }
        let mut i: usize = 1;
        while i < n
            invariant
                1 <= i <= n,
                n == args@.len(),
                build_cmdline_spec(args.deep_view()) == build_step(config@, args.deep_view(), i as int),
            decreases n - i,
        {
            let arg = args[i].clone();
            proof {
                assert(args.deep_view()[i as int] == args@[i as int]@);
            }
            if i + 1 == n {
                return Err(String::from_str("No value specified for ").concat(arg.as_str()));
            }
            proof {
                assert(args.deep_view()[i + 1 as int] == args@[i + 1 as int]@);
            }
            let value = args[i + 1].clone();
            match config.set_option(arg, value) {
                Ok(()) => {
                    i = i + 2;
                },
                Err(m) => {
                    return Err(m);
                },
            }
        }
        Ok(config)
    }
}

} // verus!
