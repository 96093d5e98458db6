//! The server and key that the tool is logged in with.

use vstd::prelude::*;
use vstd::string::{StrSliceExecFns, StringExecFns};

verus! {

/// The login: where the server is and the key that opens it.
#[derive(Clone, Debug)]
pub struct Config {
    /// The path of the file that keeps the login.
    pub config_file: String,
    /// The address of the server. Empty while logged out.
    pub server: String,
    /// The key for the server's interface. Empty while logged out.
    pub apikey: String,
}

/// A login as plain values.
pub ghost struct ConfigView {
    pub config_file: Seq<char>,
    pub server: Seq<char>,
    pub apikey: Seq<char>,
}

impl View for Config {
    type V = ConfigView;

    open spec fn view(&self) -> ConfigView {
        ConfigView { config_file: self.config_file@, server: self.server@, apikey: self.apikey@ }
    }
}

/// Whether a server and a key are there.
pub open spec fn is_logged_in(config: ConfigView) -> bool {
    config.server.len() > 0 && config.apikey.len() > 0
}

/// The path of `name` under the directory `dir`: the two with a `/` between
/// them, unless `dir` is empty or ends with one already. A name that begins
/// with `/` is a path of its own.
pub open spec fn joined(dir: Seq<char>, name: Seq<char>) -> Seq<char> {
    if name.len() > 0 && name[0] == '/' {
        name
    } else if dir.len() == 0 || dir.last() == '/' {
        dir + name
    } else {
        dir + seq!['/'] + name
    }
}

/// The name of the directory that keeps login and selection, in the user's
/// home directory.
pub open spec fn config_dir_name() -> Seq<char> {
    ".immichctl"@
}

/// The name of the file that keeps the login, in its directory.
pub open spec fn config_file_name() -> Seq<char> {
    "config.json"@
}

/// The path of `name` under the directory `dir`.
pub fn join_path(dir: &str, name: &str) -> (path: String)
    ensures
        path@ == joined(dir@, name@),
{
    proof {
        reveal_strlit("/");
    }
    let n = dir.unicode_len();
    if name.unicode_len() > 0 && name.get_char(0) == '/' {
        name.to_owned()
    } else if n == 0 || dir.get_char(n - 1) == '/' {
        dir.to_owned().concat(name)
    } else {
        dir.to_owned().concat("/").concat(name)
    }
}

impl Config {
    /// The login kept in `config_file`: server and key as in `stored`, which
    /// is what the file held, or logged out where it held nothing that could
    /// be read.
    pub fn load(config_file: &str, stored: Option<(String, String)>) -> (config: Config)
        ensures
            config@ == (ConfigView {
                config_file: config_file@,
                server: match stored {
                    Some(pair) => pair.0@,
                    None => Seq::empty(),
                },
                apikey: match stored {
                    Some(pair) => pair.1@,
                    None => Seq::empty(),
                },
            }),
    {
        match stored {
            Some((server, apikey)) => Config {
                config_file: config_file.to_owned(),
                server,
                apikey,
            },
            None => Config {
                config_file: config_file.to_owned(),
                server: String::new(),
                apikey: String::new(),
            },
        }
    }

    /// The path of the file that keeps the login where none is named:
    /// `config.json` in `.immichctl` in the user's home directory.
    pub fn get_default_config_file(home_dir: Option<&str>) -> (path: Option<String>)
        ensures
            match home_dir {
                Some(home) => path is Some && path->0@ == joined(
                    joined(home@, config_dir_name()),
                    config_file_name(),
                ),
                None => path is None,
            },
    {
        match home_dir {
            Some(home) => {
                let dir = join_path(home, ".immichctl");
                Some(join_path(dir.as_str(), "config.json"))
            },
            None => None,
        }
    }

    /// Whether a server and a key are there.
    pub fn logged_in(&self) -> (b: bool)
        ensures
            b == is_logged_in(self@),
    {
        !self.server.as_str().is_empty() && !self.apikey.as_str().is_empty()
    }

    /// Forgets server and key.
    pub fn logout(&mut self)
        ensures
            final(self)@ == (ConfigView {
                server: Seq::empty(),
                apikey: Seq::empty(),
                ..old(self)@
            }),
            !is_logged_in(final(self)@),
    {
        self.server = String::new();
        self.apikey = String::new();
    }
}

} // verus!
