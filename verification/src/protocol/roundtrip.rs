//! The text of a message determines the message.

use vstd::prelude::*;
use vstd::string::*;

use super::json::{
    client_json, delivery_json, entry_json, escaped, escaped_text, hex_digit, json_bool,
    json_option, json_text, server_json, with_commas,
};
use super::message::{
    ClientMessageView, DeliveryView, HistoryEntryView, ServerMessageView,
};
use super::validate::{client_trimmed, client_verdict};
use crate::text::{decimal, decimal_int, digit, lemma_decimal_digits};

verus! {

/// Whether a sequence goes on with something that is no digit.
spec fn no_digit_first(s: Seq<char>) -> bool {
    s.len() > 0 && !('0' <= s[0] <= '9')
}

/// What follows equal beginnings of equal sequences is equal.
proof fn lemma_cancel(start: Seq<char>, x: Seq<char>, y: Seq<char>)
    requires
        start + x == start + y,
    ensures
        x == y,
{
    assert(x =~= (start + x).skip(start.len() as int));
    assert(y =~= (start + y).skip(start.len() as int));
}

/// Where two sequences begin with parts of the same length, the parts are
/// equal and so is what follows.
proof fn lemma_cancel_parts(a: Seq<char>, b: Seq<char>, x: Seq<char>, y: Seq<char>)
    requires
        a + x == b + y,
        a.len() == b.len(),
    ensures
        a == b,
        x == y,
{
    assert(a =~= (a + x).take(a.len() as int));
    assert(b =~= (b + y).take(b.len() as int));
    lemma_cancel(a, x, y);
}

/// Parts of a text may be taken together from the end as well.
proof fn lemma_assoc(a: Seq<char>, b: Seq<char>, x: Seq<char>)
    ensures
        a + b + x == a + (b + x),
{
    assert(a + b + x =~= a + (b + x));
}

/// The same of four parts and a rest.
proof fn lemma_regroup4(a: Seq<char>, b: Seq<char>, c: Seq<char>, d: Seq<char>, x: Seq<char>)
    ensures
        a + b + c + d + x == a + (b + (c + (d + x))),
{
    lemma_assoc(a + b + c, d, x);
    lemma_assoc(a + b, c, d + x);
    lemma_assoc(a, b, c + (d + x));
}

/// The same of eight parts and a rest.
proof fn lemma_regroup8(
    a: Seq<char>,
    b: Seq<char>,
    c: Seq<char>,
    d: Seq<char>,
    e: Seq<char>,
    f: Seq<char>,
    g: Seq<char>,
    h: Seq<char>,
    x: Seq<char>,
)
    ensures
        a + b + c + d + e + f + g + h + x == a + (b + (c + (d + (e + (f + (g + (h + x))))))),
{
    lemma_regroup4(a + b + c + d + e, f, g, h, x);
    lemma_assoc(a + b + c + d, e, f + (g + (h + x)));
    lemma_regroup4(a, b, c, d, e + (f + (g + (h + x))));
}

// ── Literals ────────────────────────────────────────────────────────────

/// The digits of numbers below sixteen tell them apart.
proof fn lemma_hex_digit(a: int, b: int)
    requires
        0 <= a < 16,
        0 <= b < 16,
        hex_digit(a) == hex_digit(b),
    ensures
        a == b,
{
}

/// An escaped character tells which it is, and where it ends.
proof fn lemma_escaped(a: char, b: char, x: Seq<char>, y: Seq<char>)
    requires
        escaped(a) + x == escaped(b) + y,
    ensures
        a == b,
        x == y,
{
    let l = escaped(a) + x;
    let r = escaped(b) + y;
    assert(l[0] == escaped(a)[0]);
    assert(r[0] == escaped(b)[0]);
    if escaped(a).len() > 1 && escaped(b).len() > 1 {
        assert(l[1] == escaped(a)[1]);
        assert(r[1] == escaped(b)[1]);
        if escaped(a)[1] == 'u' {
            assert(l[4] == escaped(a)[4] && l[5] == escaped(a)[5]);
            assert(r[4] == escaped(b)[4] && r[5] == escaped(b)[5]);
            lemma_hex_digit(a as int / 16, b as int / 16);
            lemma_hex_digit(a as int % 16, b as int % 16);
        }
    }
    assert(a == b);
    lemma_cancel(escaped(a), x, y);
}

/// An escaped text tells which it is, and where its literal ends.
proof fn lemma_escaped_text(a: Seq<char>, b: Seq<char>, x: Seq<char>, y: Seq<char>)
    requires
        escaped_text(a) + seq!['"'] + x == escaped_text(b) + seq!['"'] + y,
    ensures
        a == b,
        x == y,
    decreases a.len(),
{
    let l = escaped_text(a) + seq!['"'] + x;
    let r = escaped_text(b) + seq!['"'] + y;
    if a.len() == 0 {
        assert(l[0] == '"');
        if b.len() > 0 {
            assert(r[0] == escaped(b[0])[0]);
        }
        assert(a =~= b);
        assert(l =~= seq!['"'] + x);
        assert(r =~= seq!['"'] + y);
        lemma_cancel(seq!['"'], x, y);
    } else if b.len() == 0 {
        assert(r[0] == '"');
        assert(l[0] == escaped(a[0])[0]);
    } else {
        let xs = escaped_text(a.drop_first()) + seq!['"'] + x;
        let ys = escaped_text(b.drop_first()) + seq!['"'] + y;
        assert(l =~= escaped(a[0]) + xs);
        assert(r =~= escaped(b[0]) + ys);
        lemma_escaped(a[0], b[0], xs, ys);
        lemma_escaped_text(a.drop_first(), b.drop_first(), x, y);
        assert(a =~= seq![a[0]] + a.drop_first());
        assert(b =~= seq![b[0]] + b.drop_first());
    }
}

/// A string literal tells which text it stands for, and where it ends.
proof fn lemma_json_text(a: Seq<char>, b: Seq<char>, x: Seq<char>, y: Seq<char>)
    requires
        json_text(a) + x == json_text(b) + y,
    ensures
        a == b,
        x == y,
{
    let quote = seq!['"'];
    assert(json_text(a) + x =~= quote + (escaped_text(a) + quote + x));
    assert(json_text(b) + y =~= quote + (escaped_text(b) + quote + y));
    lemma_cancel(quote, escaped_text(a) + quote + x, escaped_text(b) + quote + y);
    lemma_escaped_text(a, b, x, y);
}

// ── Numbers ─────────────────────────────────────────────────────────────

/// A number in decimal tells which it is.
proof fn lemma_decimal_unique(n: nat, m: nat)
    requires
        decimal(n) == decimal(m),
    ensures
        n == m,
    decreases n,
{
    lemma_decimal_digits(n / 10);
    lemma_decimal_digits(m / 10);
    assert(decimal(n).last() == digit(n % 10));
    assert(decimal(m).last() == digit(m % 10));
    assert(n % 10 == m % 10);
    if n >= 10 && m >= 10 {
        assert(decimal(n).drop_last() =~= decimal(n / 10));
        assert(decimal(m).drop_last() =~= decimal(m / 10));
        lemma_decimal_unique(n / 10, m / 10);
    }
}

/// A number tells which it is, and where it ends if no digit follows.
proof fn lemma_decimal(n: nat, m: nat, x: Seq<char>, y: Seq<char>)
    requires
        decimal(n) + x == decimal(m) + y,
        no_digit_first(x),
        no_digit_first(y),
    ensures
        n == m,
        x == y,
{
    lemma_decimal_digits(n);
    lemma_decimal_digits(m);
    let l = decimal(n) + x;
    let r = decimal(m) + y;
    let a = decimal(n).len() as int;
    let b = decimal(m).len() as int;
    if a < b {
        assert(l[a] == x[0]);
        assert(r[a] == decimal(m)[a]);
    }
    if b < a {
        assert(r[b] == y[0]);
        assert(l[b] == decimal(n)[b]);
    }
    lemma_cancel_parts(decimal(n), decimal(m), x, y);
    lemma_decimal_unique(n, m);
}

/// A signed number tells which it is, and where it ends if no digit follows.
proof fn lemma_decimal_int(n: int, m: int, x: Seq<char>, y: Seq<char>)
    requires
        decimal_int(n) + x == decimal_int(m) + y,
        no_digit_first(x),
        no_digit_first(y),
    ensures
        n == m,
        x == y,
{
    let l = decimal_int(n) + x;
    let r = decimal_int(m) + y;
    lemma_decimal_digits(if n < 0 { (-n) as nat } else { n as nat });
    lemma_decimal_digits(if m < 0 { (-m) as nat } else { m as nat });
    assert(l[0] == decimal_int(n)[0]);
    assert(r[0] == decimal_int(m)[0]);
    if n < 0 {
        assert(l[0] == '-');
    } else {
        assert(l[0] == decimal(n as nat)[0]);
    }
    if m < 0 {
        assert(r[0] == '-');
    } else {
        assert(r[0] == decimal(m as nat)[0]);
    }
    if n < 0 {
        let sign = seq!['-'];
        assert(l =~= sign + (decimal((-n) as nat) + x));
        assert(r =~= sign + (decimal((-m) as nat) + y));
        lemma_cancel(sign, decimal((-n) as nat) + x, decimal((-m) as nat) + y);
        lemma_decimal((-n) as nat, (-m) as nat, x, y);
    } else {
        lemma_decimal(n as nat, m as nat, x, y);
    }
}

/// A number that may be missing tells which it is.
proof fn lemma_json_option(n: Option<u64>, m: Option<u64>, x: Seq<char>, y: Seq<char>)
    requires
        json_option(n) + x == json_option(m) + y,
        no_digit_first(x),
        no_digit_first(y),
    ensures
        n == m,
        x == y,
{
    reveal_strlit("null");
    let l = json_option(n) + x;
    let r = json_option(m) + y;
    assert(l[0] == json_option(n)[0] || n is Some);
    match (n, m) {
        (Some(a), Some(b)) => {
            lemma_decimal(a as nat, b as nat, x, y);
        },
        (Some(a), None) => {
            lemma_decimal_digits(a as nat);
            assert(l[0] == decimal(a as nat)[0]);
            assert(r[0] == 'n');
        },
        (None, Some(b)) => {
            lemma_decimal_digits(b as nat);
            assert(r[0] == decimal(b as nat)[0]);
            assert(l[0] == 'n');
        },
        (None, None) => {
            lemma_cancel("null"@, x, y);
        },
    }
}

/// A truth value tells which it is.
proof fn lemma_json_bool(a: bool, b: bool, x: Seq<char>, y: Seq<char>)
    requires
        json_bool(a) + x == json_bool(b) + y,
    ensures
        a == b,
        x == y,
{
    reveal_strlit("true");
    reveal_strlit("false");
    assert((json_bool(a) + x)[0] == json_bool(a)[0]);
    assert((json_bool(b) + y)[0] == json_bool(b)[0]);
    lemma_cancel(json_bool(a), x, y);
}

/// A history entry from its end.
proof fn lemma_entry_parts(a: HistoryEntryView, x: Seq<char>)
    ensures
        entry_json(a) + x == "{\"id\":"@ + (decimal(a.id as nat) + (",\"login\":"@ + (json_text(
            a.login,
        ) + (",\"timestamp\":"@ + (decimal_int(a.timestamp as int) + (",\"message\":"@ + (json_text(
            a.message,
        ) + ("}"@ + x)))))))),
{
    let s = "{\"id\":"@ + decimal(a.id as nat) + ",\"login\":"@ + json_text(a.login)
        + ",\"timestamp\":"@ + decimal_int(a.timestamp as int) + ",\"message\":"@ + json_text(
        a.message,
    );
    lemma_assoc(s, "}"@, x);
    lemma_regroup8(
        "{\"id\":"@,
        decimal(a.id as nat),
        ",\"login\":"@,
        json_text(a.login),
        ",\"timestamp\":"@,
        decimal_int(a.timestamp as int),
        ",\"message\":"@,
        json_text(a.message),
        "}"@ + x,
    );
}

/// A history entry tells which it is, and where it ends.
proof fn lemma_entry_json(a: HistoryEntryView, b: HistoryEntryView, x: Seq<char>, y: Seq<char>)
    requires
        entry_json(a) + x == entry_json(b) + y,
    ensures
        a == b,
        x == y,
{
    reveal_strlit(",\"login\":");
    reveal_strlit(",\"message\":");
    let i = "{\"id\":"@;
    let l = ",\"login\":"@;
    let t = ",\"timestamp\":"@;
    let m = ",\"message\":"@;
    let e = "}"@;
    let ax4 = m + (json_text(a.message) + (e + x));
    let ax3 = json_text(a.login) + (t + (decimal_int(a.timestamp as int) + ax4));
    let bx4 = m + (json_text(b.message) + (e + y));
    let bx3 = json_text(b.login) + (t + (decimal_int(b.timestamp as int) + bx4));
    lemma_entry_parts(a, x);
    lemma_entry_parts(b, y);
    lemma_cancel(i, decimal(a.id as nat) + (l + ax3), decimal(b.id as nat) + (l + bx3));
    assert((l + ax3)[0] == ',' && (l + bx3)[0] == ',');
    lemma_decimal(a.id as nat, b.id as nat, l + ax3, l + bx3);
    lemma_cancel(l, ax3, bx3);
    lemma_json_text(
        a.login,
        b.login,
        t + (decimal_int(a.timestamp as int) + ax4),
        t + (decimal_int(b.timestamp as int) + bx4),
    );
    lemma_cancel(
        t,
        decimal_int(a.timestamp as int) + ax4,
        decimal_int(b.timestamp as int) + bx4,
    );
    assert(ax4[0] == ',' && bx4[0] == ',');
    lemma_decimal_int(a.timestamp as int, b.timestamp as int, ax4, bx4);
    lemma_cancel(m, json_text(a.message) + (e + x), json_text(b.message) + (e + y));
    lemma_json_text(a.message, b.message, e + x, e + y);
    lemma_cancel(e, x, y);
}

// ── Arrays ──────────────────────────────────────────────────────────────

/// A list with commas from its first item on.
proof fn lemma_commas_first(parts: Seq<Seq<char>>)
    requires
        parts.len() > 1,
    ensures
        with_commas(parts) == parts[0] + ","@ + with_commas(parts.drop_first()),
    decreases parts.len(),
{
    let rest = parts.drop_first();
    if parts.len() == 2 {
        assert(with_commas(parts.drop_last()) == parts[0]);
        assert(with_commas(rest) == parts[1]);
    } else {
        lemma_commas_first(parts.drop_last());
        assert(parts.drop_last().drop_first() =~= rest.drop_last());
        assert(with_commas(rest) == with_commas(rest.drop_last()) + ","@ + rest.last());
        assert(with_commas(parts) =~= parts[0] + ","@ + with_commas(rest));
    }
}

/// The items of a list with commas, from the first on, up to the closing bracket.
proof fn lemma_commas_step(parts: Seq<Seq<char>>, x: Seq<char>) -> (rest: Seq<char>)
    requires
        parts.len() > 0,
    ensures
        with_commas(parts) + "]"@ + x == parts[0] + rest,
        rest == (if parts.len() == 1 {
            "]"@ + x
        } else {
            ","@ + (with_commas(parts.drop_first()) + "]"@ + x)
        }),
{
    if parts.len() == 1 {
        assert(with_commas(parts) + "]"@ + x =~= parts[0] + ("]"@ + x));
        "]"@ + x
    } else {
        lemma_commas_first(parts);
        let rest = ","@ + (with_commas(parts.drop_first()) + "]"@ + x);
        assert(with_commas(parts) + "]"@ + x =~= parts[0] + rest);
        rest
    }
}

/// An array of strings tells which they are.
proof fn lemma_room_array(a: Seq<Seq<char>>, b: Seq<Seq<char>>, x: Seq<char>, y: Seq<char>)
    requires
        ({
            let f = |r: Seq<char>| json_text(r);
            with_commas(a.map_values(f)) + "]"@ + x == with_commas(b.map_values(f)) + "]"@ + y
        }),
    ensures
        a == b,
        x == y,
    decreases a.len(),
{
    reveal_strlit("]");
    reveal_strlit(",");
    let f = |r: Seq<char>| json_text(r);
    let am = a.map_values(f);
    let bm = b.map_values(f);
    let l = with_commas(am) + "]"@ + x;
    let r = with_commas(bm) + "]"@ + y;
    if a.len() == 0 {
        assert(l =~= "]"@ + x);
        assert(l[0] == ']');
        if b.len() > 0 {
            let rest = lemma_commas_step(bm, y);
            assert((json_text(b[0]) + rest)[0] == '"');
        }
        assert(a =~= b);
        assert(r =~= "]"@ + y);
        lemma_cancel("]"@, x, y);
    } else if b.len() == 0 {
        assert(r =~= "]"@ + y);
        let rest = lemma_commas_step(am, x);
        assert((json_text(a[0]) + rest)[0] == '"');
    } else {
        let ra = lemma_commas_step(am, x);
        let rb = lemma_commas_step(bm, y);
        lemma_json_text(a[0], b[0], ra, rb);
        assert(ra[0] == if a.len() == 1 { ']' } else { ',' });
        assert(rb[0] == if b.len() == 1 { ']' } else { ',' });
        assert(am.drop_first() =~= a.drop_first().map_values(f));
        assert(bm.drop_first() =~= b.drop_first().map_values(f));
        if a.len() == 1 {
            lemma_cancel("]"@, x, y);
        } else {
            lemma_cancel(
                ","@,
                with_commas(am.drop_first()) + "]"@ + x,
                with_commas(bm.drop_first()) + "]"@ + y,
            );
            lemma_room_array(a.drop_first(), b.drop_first(), x, y);
        }
        assert(a =~= seq![a[0]] + a.drop_first());
        assert(b =~= seq![b[0]] + b.drop_first());
    }
}

/// An array of history entries tells which they are.
proof fn lemma_entry_array(
    a: Seq<HistoryEntryView>,
    b: Seq<HistoryEntryView>,
    x: Seq<char>,
    y: Seq<char>,
)
    requires
        ({
            let f = |e: HistoryEntryView| entry_json(e);
            with_commas(a.map_values(f)) + "]"@ + x == with_commas(b.map_values(f)) + "]"@ + y
        }),
    ensures
        a == b,
        x == y,
    decreases a.len(),
{
    reveal_strlit("]");
    reveal_strlit(",");
    reveal_strlit("{\"id\":");
    let f = |e: HistoryEntryView| entry_json(e);
    let am = a.map_values(f);
    let bm = b.map_values(f);
    let l = with_commas(am) + "]"@ + x;
    let r = with_commas(bm) + "]"@ + y;
    if a.len() == 0 {
        assert(l =~= "]"@ + x);
        assert(l[0] == ']');
        if b.len() > 0 {
            let rest = lemma_commas_step(bm, y);
            assert((entry_json(b[0]) + rest)[0] == '{');
        }
        assert(a =~= b);
        assert(r =~= "]"@ + y);
        lemma_cancel("]"@, x, y);
    } else if b.len() == 0 {
        assert(r =~= "]"@ + y);
        let rest = lemma_commas_step(am, x);
        assert((entry_json(a[0]) + rest)[0] == '{');
    } else {
        let ra = lemma_commas_step(am, x);
        let rb = lemma_commas_step(bm, y);
        lemma_entry_json(a[0], b[0], ra, rb);
        assert(ra[0] == if a.len() == 1 { ']' } else { ',' });
        assert(rb[0] == if b.len() == 1 { ']' } else { ',' });
        assert(am.drop_first() =~= a.drop_first().map_values(f));
        assert(bm.drop_first() =~= b.drop_first().map_values(f));
        if a.len() == 1 {
            lemma_cancel("]"@, x, y);
        } else {
            lemma_cancel(
                ","@,
                with_commas(am.drop_first()) + "]"@ + x,
                with_commas(bm.drop_first()) + "]"@ + y,
            );
            lemma_entry_array(a.drop_first(), b.drop_first(), x, y);
        }
        assert(a =~= seq![a[0]] + a.drop_first());
        assert(b =~= seq![b[0]] + b.drop_first());
    }
}

// ── Messages ────────────────────────────────────────────────────────────

/// A message with one text tells which.
proof fn lemma_one_field(start: Seq<char>, a: Seq<char>, b: Seq<char>, end: Seq<char>)
    requires
        start + json_text(a) + end == start + json_text(b) + end,
    ensures
        a == b,
{
    assert(start + json_text(a) + end =~= start + (json_text(a) + end));
    assert(start + json_text(b) + end =~= start + (json_text(b) + end));
    lemma_cancel(start, json_text(a) + end, json_text(b) + end);
    lemma_json_text(a, b, end, end);
}

/// A message with two texts tells which.
proof fn lemma_two_fields(
    start: Seq<char>,
    a1: Seq<char>,
    b1: Seq<char>,
    mid: Seq<char>,
    a2: Seq<char>,
    b2: Seq<char>,
    end: Seq<char>,
)
    requires
        start + json_text(a1) + mid + json_text(a2) + end == start + json_text(b1) + mid
            + json_text(b2) + end,
    ensures
        a1 == b1,
        a2 == b2,
{
    let at = mid + (json_text(a2) + end);
    let bt = mid + (json_text(b2) + end);
    assert(start + json_text(a1) + mid + json_text(a2) + end =~= start + (json_text(a1) + at));
    assert(start + json_text(b1) + mid + json_text(b2) + end =~= start + (json_text(b1) + bt));
    lemma_cancel(start, json_text(a1) + at, json_text(b1) + bt);
    lemma_json_text(a1, b1, at, bt);
    lemma_cancel(mid, json_text(a2) + end, json_text(b2) + end);
    lemma_json_text(a2, b2, end, end);
}

/// The kind of a client message shows in its text.
spec fn client_kind(m: ClientMessageView) -> int {
    match m {
        ClientMessageView::CreateAccount { login, passwd } => 0,
        ClientMessageView::Login { login, passwd } => 1,
        ClientMessageView::JoinRoom { room } => 2,
        ClientMessageView::LeaveRoom { room } => 3,
        ClientMessageView::SendMessage { room, message } => 4,
        ClientMessageView::GetHistory { room, cursor } => 5,
        ClientMessageView::Logout => 6,
    }
}

/// The kind of a client message shows in its text.
proof fn lemma_client_kind(a: ClientMessageView, b: ClientMessageView)
    requires
        client_json(a) == client_json(b),
    ensures
        client_kind(a) == client_kind(b),
{
    lemma_client_mark(a);
    lemma_client_mark(b);
}

/// The characters by which the kinds of client messages differ.
spec fn client_mark(m: ClientMessageView) -> (char, char) {
    match m {
        ClientMessageView::CreateAccount { login, passwd } => ('C', 'r'),
        ClientMessageView::Login { login, passwd } => ('L', 'o'),
        ClientMessageView::JoinRoom { room } => ('J', 'o'),
        ClientMessageView::LeaveRoom { room } => ('L', 'e'),
        ClientMessageView::SendMessage { room, message } => ('S', 'e'),
        ClientMessageView::GetHistory { room, cursor } => ('G', 'e'),
        ClientMessageView::Logout => ('o', 'g'),
    }
}

/// Where these characters stand.
proof fn lemma_client_mark(m: ClientMessageView)
    ensures
        client_json(m).len() > 3,
        client_mark(m) == (client_json(m)[2], client_json(m)[3]),
{
    reveal_strlit("{\"CreateAccount\":{\"login\":");
    reveal_strlit("{\"Login\":{\"login\":");
    reveal_strlit("{\"JoinRoom\":{\"room\":");
    reveal_strlit("{\"LeaveRoom\":{\"room\":");
    reveal_strlit("{\"SendMessage\":{\"room\":");
    reveal_strlit("{\"GetHistory\":{\"room\":");
    reveal_strlit("\"Logout\"");
}

/// No two client messages have the same text: nothing that is sent is lost.
pub proof fn law_client_texts_tell_messages_apart(a: ClientMessageView, b: ClientMessageView)
    requires
        client_json(a) == client_json(b),
    ensures
        a == b,
{
    lemma_client_kind(a, b);
    let end = "}}"@;
    match (a, b) {
        (
            ClientMessageView::CreateAccount { login: l1, passwd: p1 },
            ClientMessageView::CreateAccount { login: l2, passwd: p2 },
        ) => {
            lemma_two_fields(
                "{\"CreateAccount\":{\"login\":"@,
                l1,
                l2,
                ",\"passwd\":"@,
                p1,
                p2,
                end,
            );
        },
        (
            ClientMessageView::Login { login: l1, passwd: p1 },
            ClientMessageView::Login { login: l2, passwd: p2 },
        ) => {
            lemma_two_fields("{\"Login\":{\"login\":"@, l1, l2, ",\"passwd\":"@, p1, p2, end);
        },
        (ClientMessageView::JoinRoom { room: r1 }, ClientMessageView::JoinRoom { room: r2 }) => {
            lemma_one_field("{\"JoinRoom\":{\"room\":"@, r1, r2, end);
        },
        (ClientMessageView::LeaveRoom { room: r1 }, ClientMessageView::LeaveRoom { room: r2 }) => {
            lemma_one_field("{\"LeaveRoom\":{\"room\":"@, r1, r2, end);
        },
        (
            ClientMessageView::SendMessage { room: r1, message: m1 },
            ClientMessageView::SendMessage { room: r2, message: m2 },
        ) => {
            lemma_two_fields(
                "{\"SendMessage\":{\"room\":"@,
                r1,
                r2,
                ",\"message\":"@,
                m1,
                m2,
                end,
            );
        },
        (
            ClientMessageView::GetHistory { room: r1, cursor: c1 },
            ClientMessageView::GetHistory { room: r2, cursor: c2 },
        ) => {
            reveal_strlit("}}");
            let start = "{\"GetHistory\":{\"room\":"@;
            let mid = ",\"cursor\":"@;
            let at = mid + (json_option(c1) + end);
            let bt = mid + (json_option(c2) + end);
            assert(client_json(a) =~= start + (json_text(r1) + at));
            assert(client_json(b) =~= start + (json_text(r2) + bt));
            lemma_cancel(start, json_text(r1) + at, json_text(r2) + bt);
            lemma_json_text(r1, r2, at, bt);
            lemma_cancel(mid, json_option(c1) + end, json_option(c2) + end);
            lemma_json_option(c1, c2, end, end);
        },
        _ => {},
    }
}

/// A message that was sent can be read back from its text in one way only: as
/// the message with its names trimmed.
pub proof fn law_sent_text_tells_the_message(sent: ClientMessageView, read: ClientMessageView)
    requires
        client_verdict(client_trimmed(sent)) is Ok,
        client_json(read) == client_json(client_trimmed(sent)),
    ensures
        read == client_trimmed(sent),
        client_verdict(read) is Ok,
{
    law_client_texts_tell_messages_apart(read, client_trimmed(sent));
}

/// The kinds of server messages.
spec fn server_kind(m: ServerMessageView) -> int {
    match m {
        ServerMessageView::LoginOk { login } => 0,
        ServerMessageView::LoginFailed { reason } => 1,
        ServerMessageView::AccountCreated { login } => 2,
        ServerMessageView::AccountCreationFailed { reason } => 3,
        ServerMessageView::IncomingMessage { login, room, message, timestamp } => 4,
        ServerMessageView::RoomList { rooms } => 5,
        ServerMessageView::RoomHistory { room, messages, has_more } => 6,
        ServerMessageView::LogoutOk => 7,
        ServerMessageView::Error { message, code } => 8,
    }
}

/// The character in which the kinds of server messages differ that begin alike.
spec fn server_mark(m: ServerMessageView) -> (char, int, char) {
    match m {
        ServerMessageView::LoginOk { login } => ('L', 7, 'O'),
        ServerMessageView::LoginFailed { reason } => ('L', 7, 'F'),
        ServerMessageView::AccountCreated { login } => ('A', 14, 'e'),
        ServerMessageView::AccountCreationFailed { reason } => ('A', 14, 'i'),
        ServerMessageView::IncomingMessage { login, room, message, timestamp } => ('I', 3, 'n'),
        ServerMessageView::RoomList { rooms } => ('R', 6, 'L'),
        ServerMessageView::RoomHistory { room, messages, has_more } => ('R', 6, 'H'),
        ServerMessageView::LogoutOk => ('o', 3, 'g'),
        ServerMessageView::Error { message, code } => ('E', 3, 'r'),
    }
}

/// Where these characters stand.
proof fn lemma_server_mark(d: DeliveryView)
    ensures
        ({
            let (first, at, other) = server_mark(d.message);
            &&& server_json(d.message).len() > at
            &&& server_json(d.message)[2] == first
            &&& server_json(d.message)[at] == other
            &&& delivery_json(d).len() > at
            &&& delivery_json(d)[2] == first
            &&& delivery_json(d)[at] == other
        }),
{
    reveal_strlit("{\"LoginOk\":{\"login\":");
    reveal_strlit("{\"LoginFailed\":{\"reason\":");
    reveal_strlit("{\"AccountCreated\":{\"login\":");
    reveal_strlit("{\"AccountCreationFailed\":{\"reason\":");
    reveal_strlit("{\"IncomingMessage\":{\"login\":");
    reveal_strlit("{\"IncomingMessage\":{\"id\":");
    reveal_strlit("{\"RoomList\":{\"rooms\":");
    reveal_strlit("{\"RoomHistory\":{\"room\":");
    reveal_strlit("\"LogoutOk\"");
    reveal_strlit("{\"Error\":{\"message\":");
}

/// What stands after the start of a chat message.
spec fn chat_tail(
    login: Seq<char>,
    room: Seq<char>,
    message: Seq<char>,
    timestamp: i64,
) -> Seq<char> {
    json_text(login) + (",\"room\":"@ + (json_text(room) + (",\"message\":"@ + (json_text(message)
        + (",\"timestamp\":"@ + (decimal_int(timestamp as int) + "}}"@))))))
}

/// A chat message from its end.
proof fn lemma_chat_parts(
    start: Seq<char>,
    login: Seq<char>,
    room: Seq<char>,
    message: Seq<char>,
    timestamp: i64,
)
    ensures
        start + json_text(login) + ",\"room\":"@ + json_text(room) + ",\"message\":"@ + json_text(
            message,
        ) + ",\"timestamp\":"@ + decimal_int(timestamp as int) + "}}"@ == start + chat_tail(
            login,
            room,
            message,
            timestamp,
        ),
{
    lemma_regroup8(
        start,
        json_text(login),
        ",\"room\":"@,
        json_text(room),
        ",\"message\":"@,
        json_text(message),
        ",\"timestamp\":"@,
        decimal_int(timestamp as int),
        "}}"@,
    );
}

/// A page of history from its end.
proof fn lemma_history_parts(room: Seq<char>, messages: Seq<HistoryEntryView>, has_more: bool)
    ensures
        ({
            let f = |e: HistoryEntryView| entry_json(e);
            let list = with_commas(messages.map_values(f));
            let rest = ",\"has_more\":"@ + (json_bool(has_more) + "}}"@);
            server_json(ServerMessageView::RoomHistory { room, messages, has_more })
                == "{\"RoomHistory\":{\"room\":"@ + (json_text(room) + (",\"messages\":"@ + ("["@ + (
            list + "]"@ + rest))))
        }),
{
    let f = |e: HistoryEntryView| entry_json(e);
    let list = with_commas(messages.map_values(f));
    let start = "{\"RoomHistory\":{\"room\":"@;
    let mid = ",\"messages\":"@;
    let more = ",\"has_more\":"@;
    let end = "}}"@;
    let rest = more + (json_bool(has_more) + end);
    let array = "["@ + list + "]"@;
    lemma_regroup4(start + json_text(room) + mid, array, more, json_bool(has_more), end);
    lemma_assoc(start + json_text(room), mid, array + rest);
    lemma_assoc(start, json_text(room), mid + (array + rest));
    lemma_assoc("["@ + list, "]"@, rest);
    lemma_assoc("["@, list, "]"@ + rest);
    lemma_assoc(list, "]"@, rest);
}

/// What stands after the start of a chat message tells which it is.
proof fn lemma_chat_tail(
    l1: Seq<char>,
    r1: Seq<char>,
    m1: Seq<char>,
    t1: i64,
    l2: Seq<char>,
    r2: Seq<char>,
    m2: Seq<char>,
    t2: i64,
)
    requires
        chat_tail(l1, r1, m1, t1) == chat_tail(l2, r2, m2, t2),
    ensures
        l1 == l2,
        r1 == r2,
        m1 == m2,
        t1 == t2,
{
    reveal_strlit("}}");
    let rs = ",\"room\":"@;
    let ms = ",\"message\":"@;
    let ts = ",\"timestamp\":"@;
    let end = "}}"@;
    let a4 = decimal_int(t1 as int) + end;
    let b4 = decimal_int(t2 as int) + end;
    let a3 = json_text(m1) + (ts + a4);
    let b3 = json_text(m2) + (ts + b4);
    let a2 = json_text(r1) + (ms + a3);
    let b2 = json_text(r2) + (ms + b3);
    lemma_json_text(l1, l2, rs + a2, rs + b2);
    lemma_cancel(rs, a2, b2);
    lemma_json_text(r1, r2, ms + a3, ms + b3);
    lemma_cancel(ms, a3, b3);
    lemma_json_text(m1, m2, ts + a4, ts + b4);
    lemma_cancel(ts, a4, b4);
    lemma_decimal_int(t1 as int, t2 as int, end, end);
}

/// No two server messages have the same text.
#[verifier::rlimit(30)]
pub proof fn law_server_texts_tell_messages_apart(a: ServerMessageView, b: ServerMessageView)
    requires
        server_json(a) == server_json(b),
    ensures
        a == b,
{
    lemma_server_mark(DeliveryView { id: 0, message: a });
    lemma_server_mark(DeliveryView { id: 0, message: b });
    assert(server_kind(a) == server_kind(b));
    let end = "}}"@;
    match (a, b) {
        (ServerMessageView::LoginOk { login: l1 }, ServerMessageView::LoginOk { login: l2 }) => {
            lemma_one_field("{\"LoginOk\":{\"login\":"@, l1, l2, end);
        },
        (
            ServerMessageView::LoginFailed { reason: r1 },
            ServerMessageView::LoginFailed { reason: r2 },
        ) => {
            lemma_one_field("{\"LoginFailed\":{\"reason\":"@, r1, r2, end);
        },
        (
            ServerMessageView::AccountCreated { login: l1 },
            ServerMessageView::AccountCreated { login: l2 },
        ) => {
            lemma_one_field("{\"AccountCreated\":{\"login\":"@, l1, l2, end);
        },
        (
            ServerMessageView::AccountCreationFailed { reason: r1 },
            ServerMessageView::AccountCreationFailed { reason: r2 },
        ) => {
            lemma_one_field("{\"AccountCreationFailed\":{\"reason\":"@, r1, r2, end);
        },
        (
            ServerMessageView::IncomingMessage { login: l1, room: r1, message: m1, timestamp: t1 },
            ServerMessageView::IncomingMessage { login: l2, room: r2, message: m2, timestamp: t2 },
        ) => {
            let start = "{\"IncomingMessage\":{\"login\":"@;
            lemma_chat_parts(start, l1, r1, m1, t1);
            lemma_chat_parts(start, l2, r2, m2, t2);
            lemma_cancel(start, chat_tail(l1, r1, m1, t1), chat_tail(l2, r2, m2, t2));
            lemma_chat_tail(l1, r1, m1, t1, l2, r2, m2, t2);
        },
        (ServerMessageView::RoomList { rooms: r1 }, ServerMessageView::RoomList { rooms: r2 }) => {
            let start = "{\"RoomList\":{\"rooms\":"@;
            let f = |r: Seq<char>| json_text(r);
            let at = with_commas(r1.map_values(f)) + "]"@ + end;
            let bt = with_commas(r2.map_values(f)) + "]"@ + end;
            let al = with_commas(r1.map_values(f));
            let bl = with_commas(r2.map_values(f));
            assert(server_json(a) =~= (start + "["@) + (al + "]"@ + end));
            assert(server_json(b) =~= (start + "["@) + (bl + "]"@ + end));
            lemma_cancel(start + "["@, at, bt);
            lemma_room_array(r1, r2, end, end);
        },
        (
            ServerMessageView::RoomHistory { room: r1, messages: m1, has_more: h1 },
            ServerMessageView::RoomHistory { room: r2, messages: m2, has_more: h2 },
        ) => {
            let start = "{\"RoomHistory\":{\"room\":"@;
            let mid = ",\"messages\":"@;
            let more = ",\"has_more\":"@;
            let f = |e: HistoryEntryView| entry_json(e);
            let ax = more + (json_bool(h1) + end);
            let bx = more + (json_bool(h2) + end);
            let at = with_commas(m1.map_values(f)) + "]"@ + ax;
            let bt = with_commas(m2.map_values(f)) + "]"@ + bx;
            lemma_history_parts(r1, m1, h1);
            lemma_history_parts(r2, m2, h2);
            let ar = mid + ("["@ + at);
            let br = mid + ("["@ + bt);
            lemma_cancel(start, json_text(r1) + ar, json_text(r2) + br);
            lemma_json_text(r1, r2, ar, br);
            lemma_cancel(mid, "["@ + at, "["@ + bt);
            lemma_cancel("["@, at, bt);
            lemma_entry_array(m1, m2, ax, bx);
            lemma_cancel(more, json_bool(h1) + end, json_bool(h2) + end);
            lemma_json_bool(h1, h2, end, end);
        },
        (
            ServerMessageView::Error { message: m1, code: c1 },
            ServerMessageView::Error { message: m2, code: c2 },
        ) => {
            lemma_two_fields("{\"Error\":{\"message\":"@, m1, m2, ",\"code\":"@, c1, c2, end);
        },
        _ => {},
    }
}

/// No two deliveries have the same text, but for the id of what is no chat
/// message.
pub proof fn law_delivery_texts_tell_deliveries_apart(a: DeliveryView, b: DeliveryView)
    requires
        delivery_json(a) == delivery_json(b),
    ensures
        a.message == b.message,
        a.message is IncomingMessage ==> a.id == b.id,
{
    lemma_server_mark(a);
    lemma_server_mark(b);
    assert(server_kind(a.message) == server_kind(b.message));
    match (a.message, b.message) {
        (
            ServerMessageView::IncomingMessage { login: l1, room: r1, message: m1, timestamp: t1 },
            ServerMessageView::IncomingMessage { login: l2, room: r2, message: m2, timestamp: t2 },
        ) => {
            reveal_strlit(",\"login\":");
            let start = "{\"IncomingMessage\":{\"id\":"@;
            let login = ",\"login\":"@;
            let at = login + chat_tail(l1, r1, m1, t1);
            let bt = login + chat_tail(l2, r2, m2, t2);
            let an = decimal(a.id as nat);
            let bn = decimal(b.id as nat);
            lemma_chat_parts(start + an + login, l1, r1, m1, t1);
            lemma_chat_parts(start + bn + login, l2, r2, m2, t2);
            lemma_assoc(start + an, login, chat_tail(l1, r1, m1, t1));
            lemma_assoc(start + bn, login, chat_tail(l2, r2, m2, t2));
            lemma_assoc(start, an, at);
            lemma_assoc(start, bn, bt);
            lemma_cancel(start, decimal(a.id as nat) + at, decimal(b.id as nat) + bt);
            assert(at[0] == ',' && bt[0] == ',');
            lemma_decimal(a.id as nat, b.id as nat, at, bt);
            lemma_cancel(login, chat_tail(l1, r1, m1, t1), chat_tail(l2, r2, m2, t2));
            lemma_chat_tail(l1, r1, m1, t1, l2, r2, m2, t2);
        },
        _ => {
            law_server_texts_tell_messages_apart(a.message, b.message);
        },
    }
}

} // verus!
