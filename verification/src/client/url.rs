//! The address of the server.

use vstd::prelude::*;
use vstd::string::*;

use crate::text::{
    chars_of, decimal, find_char, find_text, position_of_char, position_of_text, u64_text,
};

verus! {

/// Where the port of a URL begins whose host begins at `host`: at the first
/// colon of the host or, where it is in brackets, after them.
pub open spec fn port_position(url: Seq<char>, host: int) -> Option<int> {
    match find_char(url, ']', host) {
        Some(bracket) => find_char(url, ':', bracket),
        None => find_char(url, ':', host),
    }
}

/// A URL with its port replaced, or with a port put in where it has none. What
/// has no scheme is left as it is.
pub open spec fn with_port(url: Seq<char>, port: u16) -> Seq<char> {
    match find_text(url, "://"@, 0) {
        None => url,
        Some(scheme) => {
            let host = scheme + 3;
            let (start, path) = match port_position(url, host) {
                Some(colon) => (colon, find_char(url, '/', colon)),
                None => match find_char(url, '/', host) {
                    Some(slash) => (slash, Some(slash)),
                    None => (url.len() as int, None),
                },
            };
            url.take(start) + ":"@ + decimal(port as nat) + (match path {
                Some(slash) => url.skip(slash),
                None => Seq::empty(),
            })
        },
    }
}

/// Replace the port of a URL.
pub fn override_url_port(url: &str, port: u16) -> (t: String)
    ensures
        t@ == with_port(url@, port),
{
    proof {
        reveal_strlit("://");
    }
    let chars = chars_of(url);
    let scheme: usize = match position_of_text(&chars, &chars_of("://"), 0) {
        Some(i) => i,
        None => {
            return url.to_owned();
        },
    };
    let host: usize = scheme + 3;
    let colon = match position_of_char(&chars, ']', host) {
        Some(bracket) => position_of_char(&chars, ':', bracket),
        None => position_of_char(&chars, ':', host),
    };
    let path = match colon {
        Some(c) => position_of_char(&chars, '/', c),
        None => position_of_char(&chars, '/', host),
    };
    let start: usize = match colon {
        Some(c) => c,
        None => match path {
            Some(slash) => slash,
            None => chars.len(),
        },
    };
    let mut t = url.substring_char(0, start).to_owned();
    t.append(":");
    t.append(u64_text(port as u64).as_str());
    match path {
        Some(slash) => {
            t.append(url.substring_char(slash, chars.len()));
            proof {
                assert(url@.subrange(slash as int, url@.len() as int) =~= url@.skip(slash as int));
            }
        },
        None => {},
    }
    proof {
        assert(url@.subrange(0, start as int) =~= url@.take(start as int));
        assert(t@ =~= with_port(url@, port));
    }
    t
}

} // verus!
