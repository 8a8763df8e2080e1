//! The arguments of the gateway program.
use vstd::prelude::*;

use crate::config;
use crate::config::{GatewayConfig, SidecarConfig, DEFAULT_SOCKET_MODE};
use crate::text;
use crate::text::{parse_octal, same_text};

verus! {

/// How the gateway program is to run.
#[derive(Debug, Clone)]
pub struct Arguments {
    /// The database file.
    pub db: String,
    /// The Unix domain socket to listen on.
    pub socket: Option<String>,
    /// Permission bits of the socket file.
    pub socket_mode: u32,
    /// The address to listen on for HTTP.
    pub http: Option<String>,
    /// The token that HTTP calls have to present.
    pub http_token: Option<String>,
}

/// Why arguments cannot be used.
#[derive(Debug, Clone)]
pub enum ArgumentError {
    /// The database is missing, or both the socket and the HTTP address are.
    Usage,
    /// The permission bits are not a number in base eight.
    SocketMode(String),
}

/// An [`ArgumentError`] as a mathematical value.
pub enum ArgumentErrorView {
    Usage,
    SocketMode(Seq<char>),
}

impl View for ArgumentError {
    type V = ArgumentErrorView;

    open spec fn view(&self) -> ArgumentErrorView {
        match *self {
            ArgumentError::Usage => ArgumentErrorView::Usage,
            ArgumentError::SocketMode(s) => ArgumentErrorView::SocketMode(s@),
        }
    }
}

/// The arguments that were given. Of one that is given twice, the last counts.
#[verifier::ext_equal]
pub struct Given {
    pub db: Option<Seq<char>>,
    pub socket: Option<Seq<char>>,
    pub socket_mode: Option<u32>,
    pub http: Option<Seq<char>>,
    pub http_token: Option<Seq<char>>,
}

/// No arguments.
pub open spec fn nothing_given() -> Given {
    Given { db: None, socket: None, socket_mode: None, http: None, http_token: None }
}

/// Whether `word` is an option that takes a value.
pub open spec fn is_option(word: Seq<char>) -> bool {
    ||| word == "--db"@
    ||| word == "--socket"@
    ||| word == "--socket-mode"@
    ||| word == "--http"@
    ||| word == "--http-token"@
}

/// What is given once `option` is given with `value`.
pub open spec fn with_option(g: Given, option: Seq<char>, value: Seq<char>) -> Result<
    Given,
    ArgumentErrorView,
> {
    if option == "--db"@ {
        Ok(Given { db: Some(value), ..g })
    } else if option == "--socket"@ {
        Ok(Given { socket: Some(value), ..g })
    } else if option == "--socket-mode"@ {
        match text::octal(value) {
            Some(mode) => Ok(Given { socket_mode: Some(mode), ..g }),
            None => Err(ArgumentErrorView::SocketMode(value)),
        }
    } else if option == "--http"@ {
        Ok(Given { http: Some(value), ..g })
    } else {
        Ok(Given { http_token: Some(value), ..g })
    }
}

/// What the words from `i` on give, beside what was given before. A word that is
/// no option, or an option at the very end, gives nothing.
pub open spec fn given(words: Seq<Seq<char>>, i: int, g: Given) -> Result<Given, ArgumentErrorView>
    decreases words.len() - i,
{
    if i < 0 || i >= words.len() {
        Ok(g)
    } else if is_option(words[i]) {
        if i + 1 < words.len() {
            match with_option(g, words[i], words[i + 1]) {
                Ok(more) => given(words, i + 2, more),
                Err(e) => Err(e),
            }
        } else {
            Ok(g)
        }
    } else {
        given(words, i + 1, g)
    }
}

/// What was asked for in words, the first of which is the program's name.
pub open spec fn arguments_of(words: Seq<Seq<char>>) -> Result<Given, ArgumentErrorView> {
    match given(words, 1, nothing_given()) {
        Err(e) => Err(e),
        Ok(g) => if g.db is None || (g.socket is None && g.http is None) {
            Err(ArgumentErrorView::Usage)
        } else {
            Ok(g)
        },
    }
}

/// The texts of some words.
pub open spec fn word_views(words: Seq<String>) -> Seq<Seq<char>> {
    Seq::new(words.len(), |i: int| words[i]@)
}

/// Reads the arguments of the program: a database, and a socket or an HTTP address
/// or both.
pub fn parse_args(words: &Vec<String>) -> (r: Result<Arguments, ArgumentError>)
    ensures
        match r {
            Ok(a) => arguments_of(word_views(words@)) matches Ok(g) && {
                &&& g.db == Some(a.db@)
                &&& g.socket == crate::request::opt_text(a.socket)
                &&& a.socket_mode == (match g.socket_mode {
                    Some(mode) => mode,
                    None => DEFAULT_SOCKET_MODE,
                })
                &&& g.http == crate::request::opt_text(a.http)
                &&& g.http_token == crate::request::opt_text(a.http_token)
            },
            Err(e) => arguments_of(word_views(words@)) == Err::<Given, ArgumentErrorView>(e@),
        },
{
    let ghost all = word_views(words@);
    let n = words.len();
    let mut db: Option<String> = None;
    let mut socket: Option<String> = None;
    let mut socket_mode: Option<u32> = None;
    let mut http: Option<String> = None;
    let mut http_token: Option<String> = None;
    let mut i: usize = 1;
    while i < n
        invariant
            n == words@.len(),
            all == word_views(words@),
            1 <= i,
            given(all, 1, nothing_given()) == given(
                all,
                i as int,
                (Given {
                    db: crate::request::opt_text(db),
                    socket: crate::request::opt_text(socket),
                    socket_mode,
                    http: crate::request::opt_text(http),
                    http_token: crate::request::opt_text(http_token),
                }),
            ),
        decreases n - i,
    {
        let word = &words[i];
        assert(all[i as int] == word@);
        let is_db = same_text(word, "--db");
        let is_socket = same_text(word, "--socket");
        let is_mode = same_text(word, "--socket-mode");
        let is_http = same_text(word, "--http");
        let is_token = same_text(word, "--http-token");
        if !(is_db || is_socket || is_mode || is_http || is_token) {
            i = i + 1;
        } else if n - i < 2 {
            i = n;
        } else {
            let value = &words[i + 1];
            assert(all[i + 1] == value@);
            if is_db {
                db = Some(value.clone());
            } else if is_socket {
                socket = Some(value.clone());
            } else if is_mode {
                match parse_octal(value) {
                    Some(mode) => {
                        socket_mode = Some(mode);
                    },
                    None => {
                        return Err(ArgumentError::SocketMode(value.clone()));
                    },
                }
            } else if is_http {
                http = Some(value.clone());
            } else {
                http_token = Some(value.clone());
            }
            i = i + 2;
        }
    }
    match db {
        Some(db) => {
            if socket.is_none() && http.is_none() {
                return Err(ArgumentError::Usage);
            }
            let socket_mode = match socket_mode {
                Some(mode) => mode,
                None => DEFAULT_SOCKET_MODE,
            };
            Ok(Arguments { db, socket, socket_mode, http, http_token })
        },
        None => Err(ArgumentError::Usage),
    }
}

impl Arguments {
    /// The configuration of the writer: the database, and defaults for the rest.
    pub fn gateway_config(&self) -> (r: GatewayConfig)
        ensures
            r == config::default_config(config::path_of(self.db@)),
    {
        let mut r = GatewayConfig::default();
        r.db_path = config::path_from(&self.db);
        r
    }

    /// The configuration for the Unix domain socket, if one is to be listened on.
    pub fn sidecar_config(&self) -> (r: Option<SidecarConfig>)
        ensures
            match (r, self.socket) {
                (Some(c), Some(socket)) => {
                    &&& c.gateway == config::default_config(config::path_of(self.db@))
                    &&& c.socket_path == config::path_of(socket@)
                    &&& c.socket_mode == self.socket_mode
                },
                (None, None) => true,
                _ => false,
            },
    {
        match &self.socket {
            Some(socket) => Some(
                SidecarConfig {
                    gateway: self.gateway_config(),
                    socket_path: config::path_from(socket),
                    socket_mode: self.socket_mode,
                },
            ),
            None => None,
        }
    }
}

} // verus!
