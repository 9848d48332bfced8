//! Start-up settings of the dashboard server: listening port and web UI directory,
//! each read from an optional (environment) string with a fallback.

use vstd::prelude::*;
use crate::numbers::{parse_u16, parse_unsigned};
use crate::text::{chars_of, string_of_range, trim_bounds, trimmed};

verus! {

/// Default listening port used when the port setting is unset or invalid.
pub const DEFAULT_PORT: u16 = 3000;

/// Default static web UI directory, relative to the process working directory.
pub const DEFAULT_WEBUI_DIR: &'static str = "src/my-server/webui";

/// The port chosen for an optional setting: its trimmed text parsed as a `u16`, unless
/// that fails or gives 0, in which case [`DEFAULT_PORT`].
pub open spec fn chosen_port(value: Option<Seq<char>>) -> u16 {
    match value {
        Some(v) => match parse_unsigned(trimmed(v), 0xFFFF) {
            Some(p) => if p != 0 {
                p as u16
            } else {
                DEFAULT_PORT
            },
            None => DEFAULT_PORT,
        },
        None => DEFAULT_PORT,
    }
}

/// The web UI directory chosen for an optional setting: its trimmed text unless absent
/// or blank, in which case [`DEFAULT_WEBUI_DIR`].
pub open spec fn chosen_webui_dir(value: Option<Seq<char>>) -> Seq<char> {
    match value {
        Some(v) => if trimmed(v).len() > 0 {
            trimmed(v)
        } else {
            DEFAULT_WEBUI_DIR@
        },
        None => DEFAULT_WEBUI_DIR@,
    }
}

/// Parses a port from an optional string, falling back to [`DEFAULT_PORT`].
///
/// Invalid or out-of-range values (and 0) are ignored so a malformed setting never
/// prevents the server from starting.
pub fn parse_port(value: Option<String>) -> (port: u16)
    ensures
        port == chosen_port(
            match value {
                Some(s) => Some(s@),
                None => None,
            },
        ),
{
    match value {
        None => DEFAULT_PORT,
        Some(s) => {
            let v = chars_of(s.as_str());
            let (a, b) = trim_bounds(v.as_slice());
            let t = slice_range(&v, a, b);
            match parse_u16(t.as_slice()) {
                Some(p) => if p != 0 {
                    p
                } else {
                    DEFAULT_PORT
                },
                None => DEFAULT_PORT,
            }
        },
    }
}

/// The characters `v[a..b]` as a new vector.
fn slice_range(v: &Vec<char>, a: usize, b: usize) -> (r: Vec<char>)
    requires
        a <= b <= v@.len(),
    ensures
        r@ == v@.subrange(a as int, b as int),
{
    let mut r: Vec<char> = Vec::new();
    let mut i = a;
    while i < b
        invariant
            a <= i <= b <= v@.len(),
            r@ == v@.subrange(a as int, i as int),
        decreases b - i,
    {
        r.push(v[i]);
        i = i + 1;
        assert(r@ =~= v@.subrange(a as int, i as int));
    }
    r
}

/// Picks the web UI directory from an optional string, falling back to
/// [`DEFAULT_WEBUI_DIR`] when the value is absent or blank.
pub fn pick_webui_dir(value: Option<String>) -> (dir: String)
    ensures
        dir@ == chosen_webui_dir(
            match value {
                Some(s) => Some(s@),
                None => None,
            },
        ),
{
    match value {
        None => String::from_str(DEFAULT_WEBUI_DIR),
        Some(s) => {
            let v = chars_of(s.as_str());
            let (a, b) = trim_bounds(v.as_slice());
            if a < b {
                string_of_range(v.as_slice(), a, b)
            } else {
                String::from_str(DEFAULT_WEBUI_DIR)
            }
        },
    }
}

/// Whatever the setting holds, the chosen port is one the server can listen on: never 0.
pub proof fn lemma_chosen_port_nonzero(value: Option<Seq<char>>)
    ensures
        chosen_port(value) != 0,
{
}

/// Whatever the setting holds, the chosen web UI directory is never blank, and a setting
/// with text in it is used trimmed.
pub proof fn lemma_chosen_webui_dir_not_blank(value: Option<Seq<char>>)
    ensures
        chosen_webui_dir(value).len() > 0,
        value matches Some(v) ==> (trimmed(v).len() > 0 ==> chosen_webui_dir(value) == trimmed(v)),
{
    reveal_strlit("src/my-server/webui");
}

} // verus!
