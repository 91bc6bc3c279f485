//! What holds of the client as a whole.

use vstd::prelude::*;
use vstd::string::*;

use super::app::{
    asking_older, broken, chat_entry, credentials_submitted, disconnected, handled,
    message_submitted, oldest_id, queued, received, received_history, reconnect_plan, reconnected,
};
use super::entry::{ids_above, newest, EntryView, MAX_HISTORY};
use super::net::first_message;
use super::screen::{last_day, selected, shown_day, shown_items, ItemView};
use super::state::{can_number, started, ActionView, AppView, AuthMode, InputMode};
use super::url::{port_position, with_port};
use super::utils::separator_text;
use crate::protocol::json::client_json;
use crate::protocol::message::{
    ClientMessageView, DeliveryView, HistoryEntryView, ServerMessageView,
};
use crate::protocol::validate::{client_verdict, server_verdict};
use crate::text::{
    decimal, find_char, find_text, is_blank, lemma_decimal_digits, lemma_find_char,
    lemma_find_char_at, lemma_find_char_none, lemma_find_text_occurs, occurs_at, trimmed,
};

verus! {

broadcast use vstd::string::group_string_axioms;

// ── Messages ────────────────────────────────────────────────────────────

/// The largest id of a log.
proof fn lemma_largest(ids: Set<u64>) -> (largest: u64)
    requires
        ids.finite(),
        ids.len() > 0,
    ensures
        ids.contains(largest),
        forall|id: u64| ids.contains(id) ==> id <= largest,
    decreases ids.len(),
{
    let one = ids.choose();
    let rest = ids.remove(one);
    if rest.len() == 0 {
        assert forall|id: u64| ids.contains(id) implies id <= one by {
            if id != one {
                assert(rest.contains(id));
            }
        }
        one
    } else {
        let other = lemma_largest(rest);
        let largest = if other > one { other } else { one };
        assert forall|id: u64| ids.contains(id) implies id <= largest by {
            if id != one {
                assert(rest.contains(id));
            }
        }
        largest
    }
}

/// Of a set of ids, those with fewer than a count of others above them are no
/// more than that count.
proof fn lemma_newest_count(log: Map<u64, EntryView>, count: nat)
    requires
        log.dom().finite(),
    ensures
        newest(log, count).dom().finite(),
        newest(log, count).len() <= count,
        log.len() <= count ==> newest(log, count) == log,
        log.len() > count ==> newest(log, count).len() == count,
    decreases log.len(),
{
    let kept = newest(log, count);
    assert(kept.dom().subset_of(log.dom()));
    vstd::set_lib::lemma_set_subset_finite(log.dom(), kept.dom());
    if log.len() == 0 {
        assert(log.dom() =~= Set::empty());
        assert(kept.dom() =~= Set::empty());
        assert(kept =~= log);
    } else if count == 0 {
        assert(kept.dom() =~= Set::empty());
    } else {
        let top = lemma_largest(log.dom());
        let rest = log.remove(top);
        let below = (count - 1) as nat;
        lemma_newest_count(rest, below);
        assert forall|id: u64| log.contains_key(id) && id != top implies ids_above(log, id).len()
            == ids_above(rest, id).len() + 1 by {
            assert(ids_above(log, id).remove(top) =~= ids_above(rest, id));
            assert(ids_above(log, id).contains(top));
            vstd::set_lib::lemma_set_subset_finite(log.dom(), ids_above(log, id));
        }
        assert(ids_above(log, top) =~= Set::empty());
        assert(kept.dom() =~= newest(rest, below).dom().insert(top)) by {
            assert forall|id: u64| kept.dom().contains(id) <==> newest(
                rest,
                below,
            ).dom().insert(top).contains(id) by {
                if log.contains_key(id) && id != top {
                    assert(ids_above(log, id).len() == ids_above(rest, id).len() + 1);
                }
            }
        }
        assert(!newest(rest, below).dom().contains(top));
        if log.len() <= count {
            assert(kept.dom() =~= log.dom());
            assert(kept =~= log);
        }
    }
}

/// After a message from the server the client shows no more messages than it
/// may, and those are the newest: none that it dropped has a larger id than one
/// that it kept.
pub proof fn law_newest_messages_are_kept(a: AppView, d: DeliveryView)
    requires
        server_verdict(d.message) is Ok,
        received(a, d).messages.dom().finite(),
    ensures
        ({
            let all = received(a, d).messages;
            let kept = handled(a, d).messages;
            &&& kept.len() <= MAX_HISTORY
            &&& all.len() <= MAX_HISTORY ==> kept == all
            &&& all.len() > MAX_HISTORY ==> kept.len() == MAX_HISTORY
            &&& forall|id: u64| #[trigger]
                kept.contains_key(id) ==> all.contains_key(id) && kept[id] == all[id]
            &&& forall|id: u64, other: u64| #[trigger]
                kept.contains_key(id) && #[trigger] all.contains_key(other)
                    && !kept.contains_key(other) ==> other < id
        }),
{
    let all = received(a, d).messages;
    let kept = handled(a, d).messages;
    lemma_newest_count(all, MAX_HISTORY as nat);
    assert forall|id: u64, other: u64| #[trigger] kept.contains_key(id)
        && #[trigger] all.contains_key(other) && !kept.contains_key(other) implies other < id by {
        if other >= id {
            assert(ids_above(all, other).subset_of(ids_above(all, id)));
            vstd::set_lib::lemma_set_subset_finite(all.dom(), ids_above(all, id));
            vstd::set_lib::lemma_len_subset(ids_above(all, other), ids_above(all, id));
        }
    }
}

/// A chat message that comes twice is shown once.
pub proof fn law_messages_are_shown_once(
    a: AppView,
    id: u64,
    login: Seq<char>,
    room: Seq<char>,
    message: Seq<char>,
    timestamp: i64,
)
    requires
        !(login == "Server"@ && room == "system"@),
    ensures
        ({
            let d = DeliveryView {
                id,
                message: ServerMessageView::IncomingMessage { login, room, message, timestamp },
            };
            received(received(a, d), d) == received(a, d)
        }),
{
    let entry = chat_entry(a.login, id, login, message, timestamp);
    assert(a.messages.insert(id, entry).insert(id, entry) =~= a.messages.insert(id, entry));
}

/// Chat messages and history of other rooms than the client's change nothing.
pub proof fn law_other_rooms_are_not_shown(
    a: AppView,
    id: u64,
    login: Seq<char>,
    room: Seq<char>,
    message: Seq<char>,
    timestamp: i64,
    page: Seq<HistoryEntryView>,
    has_more: bool,
)
    requires
        room != a.room,
        !(login == "Server"@ && room == "system"@),
    ensures
        received(
            a,
            (DeliveryView {
                id,
                message: ServerMessageView::IncomingMessage { login, room, message, timestamp },
            }),
        ) == a,
        received(
            a,
            (DeliveryView {
                id,
                message: ServerMessageView::RoomHistory { room, messages: page, has_more },
            }),
        ) == a,
{
}

/// What the user submits is shown at once as an own message, and queued for
/// the room that the user is in.
pub proof fn law_own_messages_are_shown_and_sent(a: AppView, now: i64)
    requires
        can_number(a, 1),
        !is_blank(a.input),
        a.room.len() > 0,
    ensures
        ({
            let after = message_submitted(a, now);
            let shown = after.messages[a.system_message_id];
            &&& after.messages.contains_key(a.system_message_id)
            &&& shown.content == trimmed(a.input)
            &&& shown.is_own
            &&& shown.msg_type is Chat
            &&& after.pending_actions == a.pending_actions.push(
                ActionView::SendMessage { room: a.room, message: trimmed(a.input) },
            )
            &&& after.input.len() == 0
        }),
{
}

// ── Paging ──────────────────────────────────────────────────────────────

/// Whether older messages are only waited for where there are any.
pub open spec fn paging_is_sound(a: AppView) -> bool {
    a.loading_older ==> a.oldest_message_id is Some && a.has_more_history
}

/// Whatever happens, the client waits for older messages only where there are any.
pub proof fn law_paging_stays_sound(
    a: AppView,
    url: Seq<char>,
    user: Seq<char>,
    d: DeliveryView,
    code: Option<u16>,
    reason: Seq<char>,
    index: int,
    now: i64,
)
    requires
        paging_is_sound(a),
    ensures
        paging_is_sound(started(url, user)),
        paging_is_sound(handled(a, d)),
        paging_is_sound(asking_older(a)),
        paging_is_sound(disconnected(a, code, Some(reason))),
        paging_is_sound(broken(a, reason)),
        paging_is_sound(reconnected(a)),
        paging_is_sound(credentials_submitted(a)),
        paging_is_sound(message_submitted(a, now)),
        paging_is_sound(selected(a, index)),
{
}

/// The id of a page's first message in order is the smallest.
pub proof fn lemma_oldest_id(page: Seq<HistoryEntryView>)
    ensures
        page.len() == 0 <==> oldest_id(page) is None,
        oldest_id(page) matches Some(id) ==> (exists|i: int|
            0 <= i < page.len() && (#[trigger] page[i]).id == id) && (forall|i: int|
            0 <= i < page.len() ==> id <= (#[trigger] page[i]).id),
    decreases page.len(),
{
    if page.len() > 0 {
        let short = page.drop_last();
        lemma_oldest_id(short);
        if oldest_id(short) is Some {
            let id = oldest_id(short)->0;
            let i = choose|i: int| 0 <= i < short.len() && (#[trigger] short[i]).id == id;
            assert(page[i].id == id);
        }
        assert(page[page.len() - 1] == page.last());
        assert forall|i: int| 0 <= i < page.len() implies oldest_id(page)->0 <= (
        #[trigger] page[i]).id by {
            if i < short.len() {
                assert(short[i] == page[i]);
            }
        }
    }
}

/// The cursor with which older messages are asked for is the smallest id of
/// the page that came last.
pub proof fn law_next_page_starts_before_the_last(
    a: AppView,
    page: Seq<HistoryEntryView>,
    has_more: bool,
)
    requires
        page.len() > 0,
        has_more,
    ensures
        ({
            let b = received_history(a, a.room, page, has_more);
            let asked = asking_older(b);
            let cursor = b.oldest_message_id;
            &&& asked.pending_actions == b.pending_actions.push(
                ActionView::GetHistory { room: a.room, cursor },
            )
            &&& cursor is Some
            &&& exists|i: int| 0 <= i < page.len() && (#[trigger] page[i]).id == cursor->0
            &&& forall|i: int| 0 <= i < page.len() ==> cursor->0 <= (#[trigger] page[i]).id
        }),
{
    lemma_oldest_id(page);
}

// ── Connecting again ────────────────────────────────────────────────────

/// Who has logged in and loses the connection has login and password sent
/// again over the next.
pub proof fn law_credentials_are_sent_again(
    a: AppView,
    d: DeliveryView,
    login: Seq<char>,
    code: Option<u16>,
    reason: Option<Seq<char>>,
)
    requires
        !is_blank(a.login_input),
        a.password_input.len() > 0,
        a.auth_mode == AuthMode::Login,
        d.message == (ServerMessageView::LoginOk { login }),
        server_verdict(d.message) is Ok,
        login.len() > 0,
        client_verdict(ClientMessageView::Login { login, passwd: a.password_input }) is Ok,
    ensures
        ({
            let plan = reconnect_plan(handled(credentials_submitted(a), d));
            first_message(plan.login, plan.password) == Some(
                client_json(ClientMessageView::Login { login, passwd: a.password_input }),
            )
        }),
{
}

/// A lost connection takes the client out of its room, and back on a screen
/// that says so; a new one takes who had a login back to the chat.
pub proof fn law_disconnecting_and_back(
    a: AppView,
    code: Option<u16>,
    reason: Option<Seq<char>>,
)
    ensures
        disconnected(a, code, reason).room.len() == 0,
        disconnected(a, code, reason).input_mode == InputMode::Disconnected,
        reconnected(disconnected(a, code, reason)).input_mode == (if a.login.len() > 0 {
            InputMode::Normal
        } else {
            InputMode::Splash
        }),
{
}

// ── The list of messages ────────────────────────────────────────────────

/// The separators of a list.
pub open spec fn separators(list: Seq<ItemView>) -> Seq<ItemView> {
    list.filter(|i: ItemView| i is Separator)
}

/// The number of days that chat messages stand under, counted anew with each change.
pub open spec fn day_changes(log: Seq<EntryView>) -> nat
    decreases log.len(),
{
    if log.len() == 0 {
        0
    } else {
        let e = log.last();
        let before = day_changes(log.drop_last());
        if e.msg_type is Chat && last_day(log.drop_last()) != Some(shown_day(e.timestamp)) {
            before + 1
        } else {
            before
        }
    }
}

/// The list holds each message once and one separator for each change of day.
pub proof fn law_list_shows_every_message(log: Seq<EntryView>, now: i64)
    ensures
        shown_items(log, now).len() == log.len() + day_changes(log),
        separators(shown_items(log, now)).len() == day_changes(log),
    decreases log.len(),
{
    reveal_with_fuel(Seq::filter, 3);
    if log.len() > 0 {
        law_list_shows_every_message(log.drop_last(), now);
        let before = shown_items(log.drop_last(), now);
        let after = shown_items(log, now);
        let e = log.last();
        if e.msg_type is Chat && last_day(log.drop_last()) != Some(shown_day(e.timestamp)) {
            let s = ItemView::Separator(separator_text(e.timestamp, now));
            assert(after.drop_last() =~= before.push(s));
            assert(before.push(s).drop_last() =~= before);
        } else {
            assert(after.drop_last() =~= before);
        }
    }
}

// ── The address of the server ───────────────────────────────────────────

/// Whether the brackets of a URL without a port, if it has any, stand before its path.
pub open spec fn brackets_before_path(url: Seq<char>, host: int) -> bool {
    port_position(url, host) is None ==> match (
        find_char(url, ']', host),
        find_char(url, '/', host),
    ) {
        (Some(bracket), Some(slash)) => bracket < slash,
        _ => true,
    }
}

/// The scheme of a URL is found again where the URL is changed after it only.
proof fn lemma_same_scheme(url: Seq<char>, other: Seq<char>, scheme: int)
    requires
        find_text(url, "://"@, 0) == Some(scheme),
        scheme + 3 <= other.len(),
        forall|k: int| 0 <= k < scheme + 3 ==> #[trigger] other[k] == url[k],
    ensures
        find_text(other, "://"@, 0) == Some(scheme),
        scheme + 3 <= url.len(),
{
    reveal_strlit("://");
    let part = "://"@;
    lemma_find_text_occurs(url, part, 0);
    lemma_find_text_occurs(other, part, 0);
    assert(other.subrange(scheme, scheme + 3) =~= url.subrange(scheme, scheme + 3));
    assert(occurs_at(other, part, scheme));
    assert forall|k: int| 0 <= k < scheme implies !#[trigger] occurs_at(other, part, k) by {
        if occurs_at(other, part, k) {
            assert(other.subrange(k, k + 3) =~= url.subrange(k, k + 3));
            assert(occurs_at(url, part, k));
        }
    }
}

/// Of two ports that a URL is given, one after the other, the last counts.
pub proof fn law_last_port_counts(url: Seq<char>, first: u16, second: u16)
    requires
        find_text(url, "://"@, 0) matches Some(scheme) ==> brackets_before_path(url, scheme + 3),
    ensures
        with_port(with_port(url, first), second) == with_port(url, second),
{
    if find_text(url, "://"@, 0) is Some {
        reveal_strlit(":");
        reveal_strlit("://");
        let scheme = find_text(url, "://"@, 0)->0;
        lemma_find_text_occurs(url, "://"@, 0);
        let host = scheme + 3;
        let (start, path) = match port_position(url, host) {
            Some(colon) => (colon, find_char(url, '/', colon)),
            None => match find_char(url, '/', host) {
                Some(slash) => (slash, Some(slash)),
                None => (url.len() as int, None),
            },
        };
        let tail = match path {
            Some(slash) => url.skip(slash),
            None => Seq::empty(),
        };
        let digits = decimal(first as nat);
        let once = with_port(url, first);
        lemma_decimal_digits(first as nat);
        lemma_find_char(url, ']', host);
        lemma_find_char(url, '/', host);
        lemma_find_char(url, ':', host);
        match find_char(url, ']', host) {
            Some(bracket) => {
                lemma_find_char(url, ':', bracket);
            },
            None => {},
        }
        match port_position(url, host) {
            Some(colon) => {
                lemma_find_char(url, '/', colon);
            },
            None => {},
        }
        assert(host <= start <= url.len());
        assert(once =~= url.take(start) + ":"@ + digits + tail);
        assert forall|k: int| 0 <= k < start implies #[trigger] once[k] == url[k] by {}
        assert(once[start] == ':');
        let end = start + 1 + digits.len();
        assert forall|k: int| start < k < end implies '0' <= #[trigger] once[k] <= '9' by {
            assert(once[k] == digits[k - start - 1]);
        }
        assert forall|k: int| end <= k < once.len() implies #[trigger] once[k] == tail[k - end] by {}
        lemma_same_scheme(url, once, scheme);
        // The port is found again at the same place.
        assert(port_position(once, host) == Some(start)) by {
            match find_char(url, ']', host) {
                Some(bracket) => {
                    assert(bracket < start) by {
                        if port_position(url, host) is Some {
                            assert(url[start] == ':' && url[bracket] == ']');
                        }
                    }
                    lemma_find_char_at(once, ']', host, bracket);
                    assert forall|k: int| bracket <= k < start implies #[trigger] once[k]
                        != ':' by {
                        assert(url[k] != ':');
                    }
                    lemma_find_char_at(once, ':', bracket, start);
                },
                None => {
                    assert forall|k: int| host <= k < once.len() implies #[trigger] once[k]
                        != ']' by {
                        if k < start {
                            assert(url[k] != ']');
                        } else if k >= end {
                            assert(path is Some);
                            assert(tail[k - end] == url[path->0 + (k - end)]);
                        }
                    }
                    lemma_find_char_none(once, ']', host);
                    assert forall|k: int| host <= k < start implies #[trigger] once[k] != ':' by {
                        assert(url[k] != ':');
                    }
                    lemma_find_char_at(once, ':', host, start);
                },
            }
        }
        // And what follows it is what followed before.
        match path {
            Some(slash) => {
                assert(tail[0] == url[slash]);
                assert forall|k: int| start <= k < end implies #[trigger] once[k] != '/' by {}
                lemma_find_char_at(once, '/', start, end);
                assert(once.skip(end) =~= tail);
            },
            None => {
                assert forall|k: int| start <= k < once.len() implies #[trigger] once[k]
                    != '/' by {}
                lemma_find_char_none(once, '/', start);
            },
        }
        assert(once.take(start) =~= url.take(start));
    }
}

} // verus!
