//! Where the server listens and where it keeps its data.

use vstd::prelude::*;
use vstd::string::*;

use crate::text::{chars_of, decimal, law_numbers_are_written, number_of, u64_text};

verus! {

/// The number that a sequence of decimal digits stands for.
pub open spec fn digits_value(s: Seq<char>) -> nat
    decreases s.len(),
{
    if s.len() == 0 {
        0
    } else {
        digits_value(s.drop_last()) * 10 + (s.last() as nat - '0' as nat) as nat
    }
}

/// Whether a text is one or more decimal digits.
pub open spec fn all_digits(s: Seq<char>) -> bool {
    s.len() > 0 && forall|i: int| 0 <= i < s.len() ==> '0' <= #[trigger] s[i] <= '9'
}

/// A text without the plus sign that it may begin with.
pub open spec fn unsigned(s: Seq<char>) -> Seq<char> {
    if s.len() > 0 && s[0] == '+' {
        s.drop_first()
    } else {
        s
    }
}

/// The port that a text stands for: decimal digits, possibly after a plus
/// sign, for a number that fits.
pub open spec fn port_value(s: Seq<char>) -> Option<u16> {
    let digits = unsigned(s);
    if all_digits(digits) && digits_value(digits) <= u16::MAX {
        Some(digits_value(digits) as u16)
    } else {
        None
    }
}

/// Read a port.
pub fn parse_port(s: &str) -> (port: Option<u16>)
    ensures
        port == port_value(s@),
{
    let chars = chars_of(s);
    let start: usize = if chars.len() > 0 && chars[0] == '+' {
        1
    } else {
        0
    };
    let ghost digits = s@.subrange(start as int, s@.len() as int);
    proof {
        if start == 0 {
            assert(digits =~= s@);
        } else {
            assert(digits =~= s@.drop_first());
        }
        assert(digits.take(0) =~= Seq::empty());
    }
    if start == chars.len() {
        return None;
    }
    let mut value: u32 = 0;
    let mut fits = true;
    let mut i: usize = start;
    while i < chars.len()
        invariant
            chars@ == s@,
            start <= 1,
            digits == s@.subrange(start as int, s@.len() as int),
            digits == unsigned(s@),
            start <= i <= chars.len(),
            forall|j: int| 0 <= j < i - start ==> '0' <= #[trigger] digits[j] <= '9',
            fits ==> value == digits_value(digits.take(i - start)) && value <= u16::MAX,
            !fits ==> digits_value(digits.take(i - start)) > u16::MAX,
        decreases chars.len() - i,
    {
        let c = chars[i];
        proof {
            assert(digits[i - start] == c);
            assert(digits.take(i + 1 - start).drop_last() =~= digits.take(i - start));
        }
        if !('0' <= c && c <= '9') {
            proof {
                assert(!all_digits(digits));
            }
            return None;
        }
        if fits {
            value = value * 10 + (c as u32 - '0' as u32);
            if value > u16::MAX as u32 {
                fits = false;
            }
        }
        i = i + 1;
    }
    proof {
        assert(digits.take(i - start) =~= digits);
    }
    if fits {
        Some(value as u16)
    } else {
        None
    }
}

/// The path of the database: the command line, or else the environment, or
/// else `chatter.db`.
pub fn database_path(db: Option<String>, db_path_var: Option<String>) -> (path: String)
    ensures
        path@ == (match db {
            Some(db) => db@,
            None => match db_path_var {
                Some(path) => path@,
                None => "chatter.db"@,
            },
        }),
{
    match db {
        Some(db) => db,
        None => match db_path_var {
            Some(path) => path,
            None => "chatter.db".to_owned(),
        },
    }
}

/// The address to listen on: the environment where it holds a host and a port
/// that can be read, and the command line for the rest.
pub fn bind_address(
    host: String,
    port: u16,
    host_var: Option<String>,
    port_var: Option<String>,
) -> (address: String)
    ensures
        address@ == (match host_var {
            Some(host) => host@,
            None => host@,
        }) + ":"@ + decimal(
            (match port_var {
                Some(var) => match port_value(var@) {
                    Some(port) => port,
                    None => port,
                },
                None => port,
            }) as nat,
        ),
{
    let host = match host_var {
        Some(host) => host,
        None => host,
    };
    let port: u16 = match port_var {
        Some(var) => match parse_port(var.as_str()) {
            Some(port) => port,
            None => port,
        },
        None => port,
    };
    let mut address = host;
    address.append(":");
    address.append(u64_text(port as u64).as_str());
    address
}

/// A port is read from its digits, also after a plus sign; what is too large
/// for a port, or holds anything else, is none.
pub proof fn law_ports_are_read(n: nat, other: Seq<char>)
    ensures
        n <= 65_535 ==> port_value(decimal(n)) == Some(n as u16) && port_value(
            seq!['+'] + decimal(n),
        ) == Some(n as u16),
        n > 65_535 ==> port_value(decimal(n)) is None,
        port_value(Seq::empty()) is None,
        port_value(seq!['+']) is None,
        (exists|i: int| 0 < i < other.len() && !('0' <= #[trigger] other[i] <= '9')) ==> port_value(
            other,
        ) is None,
        other.len() > 0 && other[0] != '+' && !('0' <= other[0] <= '9') ==> port_value(
            other,
        ) is None,
{
    law_numbers_are_written(n);
    lemma_same_number(decimal(n));
    let d = decimal(n);
    let plus = seq!['+'] + d;
    assert(plus.drop_first() =~= d);
    assert(unsigned(d) == d) by {
        assert('0' <= d[0] <= '9');
    }
    assert(seq!['+'].drop_first() =~= Seq::<char>::empty());
    if exists|i: int| 0 < i < other.len() && !('0' <= #[trigger] other[i] <= '9') {
        let i = choose|i: int| 0 < i < other.len() && !('0' <= #[trigger] other[i] <= '9');
        if other[0] == '+' {
            assert(other.drop_first()[i - 1] == other[i]);
        }
    }
}

/// Digits stand for one number.
proof fn lemma_same_number(s: Seq<char>)
    requires
        forall|i: int| 0 <= i < s.len() ==> '0' <= #[trigger] s[i] <= '9',
    ensures
        digits_value(s) == number_of(s),
    decreases s.len(),
{
    if s.len() > 0 {
        let short = s.drop_last();
        assert(forall|i: int| 0 <= i < short.len() ==> #[trigger] short[i] == s[i]);
        lemma_same_number(short);
        assert(s[s.len() - 1] == s.last());
    }
}

} // verus!
