//! What is read from a line of the client log and from a trade whisper.

use vstd::prelude::*;
use vstd::string::*;
use crate::events::{
    is_requested, kind_name, listing_texts, message_of, reported, requested, EventKind,
    SessionStats, TradeRequest, TradeTexts,
};
use crate::laws::texts::{
    a_set_is_taken_off_the_end, a_text_begins_with_its_front, a_text_holds_its_parts,
    a_text_is_cut_where_the_part_first_stands, all_white, is_tight,
    white_space_at_the_ends_is_taken_off,
};
use crate::text::{
    a_text_is_cut_at_the_first_mark, begins_with, cut, first_mark, holds, trimmed, trimmed_end_of,
};

verus! {

// ---------------------------------------------------------------- lines

/// A line with a header, and with a message behind it that may have white space around it.
pub open spec fn client_line(
    header: Seq<char>,
    front: Seq<char>,
    message: Seq<char>,
    back: Seq<char>,
) -> Seq<char> {
    header + "] "@ + (front + message + back)
}

/// What is read of a line is its message: without the header that ends in the first bracket, without
/// the white space around it, and without the colon that may stand in front of it.
pub proof fn a_line_tells_its_message(
    header: Seq<char>,
    front: Seq<char>,
    message: Seq<char>,
    back: Seq<char>,
)
    requires
        first_mark(header, "] "@),
        all_white(front),
        all_white(back),
        is_tight(message),
    ensures
        !begins_with(message, ": "@) ==> message_of(client_line(header, front, message, back))
            == message,
        message.len() > 0 ==> message_of(client_line(header, front, ": "@ + message, back))
            == message,
{
    reveal_strlit("] ");
    reveal_strlit(": ");
    a_text_is_cut_at_the_first_mark(header, "] "@, front + message + back);
    white_space_at_the_ends_is_taken_off(front, message, back);
    let marked = ": "@ + message;
    if message.len() > 0 {
        assert(marked[0] == ':' && marked.last() == message.last());
        a_text_is_cut_at_the_first_mark(header, "] "@, front + marked + back);
        white_space_at_the_ends_is_taken_off(front, marked, back);
        a_text_begins_with_its_front(": "@, message);
    }
}

/// A line without a header is its message.
pub proof fn a_line_without_a_header_is_its_message(
    front: Seq<char>,
    message: Seq<char>,
    back: Seq<char>,
)
    requires
        !holds(front + message + back, "] "@),
        all_white(front),
        all_white(back),
        is_tight(message),
        !begins_with(message, ": "@),
    ensures
        message_of(front + message + back) == message,
{
    a_text_is_cut_where_the_part_first_stands(front + message + back, "] "@);
    white_space_at_the_ends_is_taken_off(front, message, back);
}

// ---------------------------------------------------------------- kinds

/// The event of an entered area carries the name of the area, without the full stops behind it.
pub proof fn an_entered_area_is_named(area: Seq<char>, stops: Seq<char>)
    requires
        forall|i: int| 0 <= i < stops.len() ==> #[trigger] stops[i] == '.',
        area.len() > 0 ==> area.last() != '.',
    ensures
        reported("You have entered "@ + (area + stops)) == Some((EventKind::AreaEntered, area)),
{
    reveal_strlit(".");
    a_text_begins_with_its_front("You have entered "@, area + stops);
    assert("."@[0] == '.');
    assert forall|i: int| 0 <= i < stops.len() implies "."@.contains(#[trigger] stops[i]) by {
        assert("."@[0] == stops[i]);
    }
    a_set_is_taken_off_the_end(area, stops, "."@);
}

/// The event of a line that enters no area carries the whole message of the line, whatever its kind.
pub proof fn an_event_carries_the_whole_message(
    header: Seq<char>,
    front: Seq<char>,
    message: Seq<char>,
    back: Seq<char>,
)
    requires
        first_mark(header, "] "@),
        all_white(front),
        all_white(back),
        is_tight(message),
        !begins_with(message, ": "@),
        !begins_with(message, "You have entered "@),
    ensures
        reported(message_of(client_line(header, front, message, back))) matches Some((kind, text))
            ==> text == message && kind != EventKind::AreaEntered,
{
    a_line_tells_its_message(header, front, message, back);
}

/// A message that says that someone died reports a death.
pub proof fn a_death_is_reported(front: Seq<char>, back: Seq<char>)
    ensures
        ({
            let message = front + "has died"@ + back;
            !begins_with(message, "You have entered "@) ==> reported(message) == Some(
                (EventKind::Death, message),
            )
        }),
        ({
            let message = front + "You have died"@ + back;
            !begins_with(message, "You have entered "@) ==> reported(message) == Some(
                (EventKind::Death, message),
            )
        }),
{
    a_text_holds_its_parts(front, "has died"@, back);
    a_text_holds_its_parts(front, "You have died"@, back);
}

/// Whether a message tells of an area or of a death.
pub open spec fn enters_or_dies(message: Seq<char>) -> bool {
    ||| begins_with(message, "You have entered "@)
    ||| holds(message, "has died"@)
    ||| holds(message, "You have died"@)
}

/// A message that says that someone reached a level reports it, where nobody died.
pub proof fn a_level_is_reported(front: Seq<char>, back: Seq<char>)
    ensures
        ({
            let message = front + "is now level"@ + back;
            !enters_or_dies(message) ==> reported(message) == Some((EventKind::LevelUp, message))
        }),
        ({
            let message = front + "You have reached level"@ + back;
            !enters_or_dies(message) ==> reported(message) == Some((EventKind::LevelUp, message))
        }),
{
    a_text_holds_its_parts(front, "is now level"@, back);
    a_text_holds_its_parts(front, "You have reached level"@, back);
}

/// Whether a message tells of an area, a death or a level.
pub open spec fn tells_of_the_character(message: Seq<char>) -> bool {
    ||| enters_or_dies(message)
    ||| holds(message, "is now level"@)
    ||| holds(message, "You have reached level"@)
}

/// A whisper that asks for an item is a trade whisper, in either wording.
pub proof fn a_trade_whisper_is_reported(front: Seq<char>, back: Seq<char>)
    ensures
        ({
            let message = front + "Hi, I would like to buy your"@ + back;
            !tells_of_the_character(message) ==> reported(message) == Some(
                (EventKind::TradeWhisper, message),
            )
        }),
        ({
            let message = front + "Hi, I'd like to buy your"@ + back;
            !tells_of_the_character(message) ==> reported(message) == Some(
                (EventKind::TradeWhisper, message),
            )
        }),
{
    a_text_holds_its_parts(front, "Hi, I would like to buy your"@, back);
    a_text_holds_its_parts(front, "Hi, I'd like to buy your"@, back);
}

/// Whether a message tells of the character or asks for an item.
pub open spec fn tells_or_asks(message: Seq<char>) -> bool {
    ||| tells_of_the_character(message)
    ||| holds(message, "Hi, I would like to buy your"@)
    ||| holds(message, "Hi, I'd like to buy your"@)
}

/// A whisper and a line of a channel are chat, where they say nothing else.
pub proof fn chat_is_reported(front: Seq<char>, back: Seq<char>, message: Seq<char>)
    requires
        message == front + "@From "@ + back || message == front + "@To "@ + back || message == "#"@
            + back || message == "%"@ + back || message == "&"@ + back || message == "$"@ + back,
    ensures
        !tells_or_asks(message) ==> reported(message) == Some((EventKind::Chat, message)),
{
    a_text_holds_its_parts(front, "@From "@, back);
    a_text_holds_its_parts(front, "@To "@, back);
    a_text_begins_with_its_front("#"@, back);
    a_text_begins_with_its_front("%"@, back);
    a_text_begins_with_its_front("&"@, back);
    a_text_begins_with_its_front("$"@, back);
}

/// Whether a message is chat.
pub open spec fn is_chatter(message: Seq<char>) -> bool {
    ||| holds(message, "@From "@)
    ||| holds(message, "@To "@)
    ||| begins_with(message, "#"@)
    ||| begins_with(message, "%"@)
    ||| begins_with(message, "&"@)
    ||| begins_with(message, "$"@)
}

/// What the client says of itself is a system event, where it is nothing else.
pub proof fn the_client_is_reported(front: Seq<char>, back: Seq<char>, message: Seq<char>)
    requires
        message == front + "Connected to "@ + back || message == front
            + "Closing game gracefully"@ + back,
    ensures
        !tells_or_asks(message) && !is_chatter(message) ==> reported(message) == Some(
            (EventKind::System, message),
        ),
{
    a_text_holds_its_parts(front, "Connected to "@, back);
    a_text_holds_its_parts(front, "Closing game gracefully"@, back);
}

/// A message that says none of this reports nothing, and an event says what its kind is for.
pub proof fn other_messages_report_nothing(message: Seq<char>)
    ensures
        !tells_or_asks(message) && !is_chatter(message) && !holds(message, "Connected to "@)
            && !holds(message, "Closing game gracefully"@) ==> reported(message) is None,
        reported(message) matches Some((kind, _)) ==> match kind {
            EventKind::AreaEntered => begins_with(message, "You have entered "@),
            EventKind::Death => holds(message, "has died"@) || holds(message, "You have died"@),
            EventKind::LevelUp => holds(message, "is now level"@) || holds(
                message,
                "You have reached level"@,
            ),
            EventKind::TradeWhisper => holds(message, "Hi, I would like to buy your"@) || holds(
                message,
                "Hi, I'd like to buy your"@,
            ),
            EventKind::Chat => is_chatter(message),
            EventKind::System => holds(message, "Connected to "@) || holds(
                message,
                "Closing game gracefully"@,
            ),
        },
{
}

/// Each kind of event goes by its own name.
pub proof fn kinds_go_by_their_names(kind: EventKind)
    ensures
        kind_name(kind) == match kind {
            EventKind::AreaEntered => "AreaEntered"@,
            EventKind::LevelUp => "LevelUp"@,
            EventKind::Death => "Death"@,
            EventKind::TradeWhisper => "TradeWhisper"@,
            EventKind::Chat => "Chat"@,
            EventKind::System => "System"@,
        },
{
}

/// An event raises the count of its kind by one and no other count; chat and system events raise
/// none. A count has room below the largest number it can hold.
pub proof fn an_event_raises_its_count(stats: SessionStats, kind: EventKind)
    requires
        stats.has_room(kind),
    ensures
        stats.counting(kind).areas == stats.areas + (if kind == EventKind::AreaEntered {
            1int
        } else {
            0
        }),
        stats.counting(kind).levels == stats.levels + (if kind == EventKind::LevelUp {
            1int
        } else {
            0
        }),
        stats.counting(kind).deaths == stats.deaths + (if kind == EventKind::Death {
            1int
        } else {
            0
        }),
        stats.counting(kind).trade_whispers == stats.trade_whispers + (if kind
            == EventKind::TradeWhisper {
            1int
        } else {
            0
        }),
{
}

/// There is no room only where the count of the kind is the largest number it can hold.
pub proof fn counts_have_room_up_to_the_largest(stats: SessionStats)
    ensures
        stats.has_room(EventKind::AreaEntered) <==> stats.areas < 0xffff_ffff,
        stats.has_room(EventKind::LevelUp) <==> stats.levels < 0xffff_ffff,
        stats.has_room(EventKind::Death) <==> stats.deaths < 0xffff_ffff,
        stats.has_room(EventKind::TradeWhisper) <==> stats.trade_whispers < 0xffff_ffff,
        stats.has_room(EventKind::Chat),
        stats.has_room(EventKind::System),
{
}

// ---------------------------------------------------------------- trade requests

/// A trade request comes from a buyer, whose name ends at a colon, asks for an item and says for
/// what it is listed; whatever lacks one of these is none.
pub proof fn what_is_no_trade_request(message: Seq<char>)
    ensures
        !begins_with(message, "@From "@) ==> requested(message) is None,
        !holds(message, ":"@) ==> requested(message) is None,
        !holds(message, "buy your "@) ==> requested(message) is None,
        !holds(message, " listed for "@) ==> requested(message) is None,
{
    let mark = "@From "@;
    reveal_strlit("@From ");
    if requested(message) is Some {
        let sender = message.skip(mark.len() as int);
        a_text_is_cut_where_the_part_first_stands(sender, ":"@);
        let (buyer, rest) = cut(sender, ":"@)->0;
        assert(message =~= mark + sender);
        assert(message =~= (mark + buyer) + ":"@ + rest);
        a_text_holds_its_parts(mark + buyer, ":"@, rest);
        a_text_is_cut_where_the_part_first_stands(message, "buy your "@);
        let (front, tail) = cut(message, "buy your "@)->0;
        a_text_is_cut_where_the_part_first_stands(tail, "buy your "@);
        let (request, end) = match cut(tail, "buy your "@) {
            Some((part, end)) => (part, "buy your "@ + end),
            None => (tail, Seq::empty()),
        };
        a_text_is_cut_where_the_part_first_stands(request, " listed for "@);
        let (item, listing) = cut(request, " listed for "@)->0;
        assert(tail =~= request + end);
        assert(message =~= (front + "buy your "@ + item) + " listed for "@ + (listing + end));
        a_text_holds_its_parts(front + "buy your "@ + item, " listed for "@, listing + end);
    }
}

/// A trade request tells the texts that were read, and the whole whisper beside them.
pub proof fn a_trade_request_keeps_the_whisper(trade: Option<TradeRequest>, message: Seq<char>)
    requires
        is_requested(trade, message),
    ensures
        trade is None <==> requested(message) is None,
        trade matches Some(t) ==> (requested(message) matches Some(texts) && t.buyer@ == texts.buyer
            && t.item@ == texts.item && t.price@ == texts.price && t.league@ == texts.league
            && t.location@ == texts.location && t.raw_message@ == message),
{
}

/// The start of a whisper, up to the item.
pub open spec fn greeting_of(buyer: Seq<char>, words: Seq<char>) -> Seq<char> {
    "@From "@ + buyer + ":"@ + words
}

/// A request that names no league has its price up to the end; one that names no place in the stash
/// has its league up to the end, without the full stops behind it. The white space around a part
/// does not count.
pub proof fn a_request_may_name_less(
    buyer: Seq<char>,
    words: Seq<char>,
    item: Seq<char>,
    price: Seq<char>,
    league: Seq<char>,
)
    requires
        first_mark(buyer, ":"@),
        first_mark(greeting_of(buyer, words), "buy your "@),
        first_mark(item, " listed for "@),
        !holds(item + " listed for "@ + price, "buy your "@),
        !holds(price, " in "@),
        first_mark(price, " in "@),
        !holds(item + " listed for "@ + (price + " in "@ + league), "buy your "@),
        !holds(league, " (stash tab "@),
    ensures
        requested(
            greeting_of(buyer, words) + "buy your "@ + (item + " listed for "@ + price),
        ) == Some(
            TradeTexts {
                buyer: trimmed(buyer),
                item: trimmed(item),
                price: trimmed(price),
                league: Seq::empty(),
                location: Seq::empty(),
            },
        ),
        requested(
            greeting_of(buyer, words) + "buy your "@ + (item + " listed for "@ + (price + " in "@
                + league)),
        ) == Some(
            TradeTexts {
                buyer: trimmed(buyer),
                item: trimmed(item),
                price: trimmed(price),
                league: trimmed(trimmed_end_of(league, "."@)),
                location: Seq::empty(),
            },
        ),
{
    reveal_strlit("@From ");
    reveal_strlit(":");
    reveal_strlit("buy your ");
    reveal_strlit(" listed for ");
    reveal_strlit(" in ");
    reveal_strlit(" (stash tab ");
    lemma_requested(buyer, words, item, price);
    lemma_requested(buyer, words, item, price + " in "@ + league);
    a_text_is_cut_where_the_part_first_stands(price, " in "@);
    a_text_is_cut_at_the_first_mark(price, " in "@, league);
    a_text_is_cut_where_the_part_first_stands(league, " (stash tab "@);
    let none = Seq::<char>::empty();
    assert(!holds(none, " (stash tab "@));
    assert(trimmed_end_of(none, "."@) =~= none);
    assert(trimmed_end_of(none, ")."@) =~= none);
    white_space_at_the_ends_is_taken_off(none, none, none);
}

proof fn lemma_requested(buyer: Seq<char>, words: Seq<char>, item: Seq<char>, listing: Seq<char>)
    requires
        first_mark(buyer, ":"@),
        first_mark(greeting_of(buyer, words), "buy your "@),
        first_mark(item, " listed for "@),
        !holds(item + " listed for "@ + listing, "buy your "@),
    ensures
        ({
            let message = greeting_of(buyer, words) + "buy your "@ + (item + " listed for "@
                + listing);
            let (price, league, location) = listing_texts(listing);
            requested(message) == Some(
                TradeTexts { buyer: trimmed(buyer), item: trimmed(item), price, league, location },
            )
        }),
{
    reveal_strlit("@From ");
    reveal_strlit(":");
    reveal_strlit("buy your ");
    reveal_strlit(" listed for ");
    let request = item + " listed for "@ + listing;
    let message = greeting_of(buyer, words) + "buy your "@ + request;
    let rest = words + "buy your "@ + request;
    assert(message =~= "@From "@ + (buyer + ":"@ + rest));
    a_text_begins_with_its_front("@From "@, buyer + ":"@ + rest);
    a_text_is_cut_at_the_first_mark(buyer, ":"@, rest);
    a_text_is_cut_at_the_first_mark(greeting_of(buyer, words), "buy your "@, request);
    a_text_is_cut_at_the_first_mark(item, " listed for "@, listing);
    a_text_is_cut_where_the_part_first_stands(request, "buy your "@);
}

/// A place in the stash is what stands behind the words that introduce it, without the bracket and
/// the full stop that close it.
pub proof fn a_request_names_its_place(
    buyer: Seq<char>,
    words: Seq<char>,
    item: Seq<char>,
    price: Seq<char>,
    league: Seq<char>,
    place: Seq<char>,
    end: Seq<char>,
)
    requires
        first_mark(buyer, ":"@),
        first_mark(greeting_of(buyer, words), "buy your "@),
        first_mark(item, " listed for "@),
        first_mark(price, " in "@),
        first_mark(league, " (stash tab "@),
        ({
            let listing = price + " in "@ + (league + " (stash tab "@ + (place + end));
            !holds(item + " listed for "@ + listing, "buy your "@)
        }),
        place.len() > 0 ==> place.last() != ')' && place.last() != '.',
        forall|i: int| 0 <= i < end.len() ==> #[trigger] end[i] == ')' || end[i] == '.',
    ensures
        ({
            let listing = price + " in "@ + (league + " (stash tab "@ + (place + end));
            requested(greeting_of(buyer, words) + "buy your "@ + (item + " listed for "@ + listing))
                == Some(
                TradeTexts {
                    buyer: trimmed(buyer),
                    item: trimmed(item),
                    price: trimmed(price),
                    league: trimmed(league),
                    location: place,
                },
            )
        }),
{
    reveal_strlit(" in ");
    reveal_strlit(" (stash tab ");
    reveal_strlit(").");
    let details = league + " (stash tab "@ + (place + end);
    let listing = price + " in "@ + details;
    lemma_requested(buyer, words, item, listing);
    a_text_is_cut_at_the_first_mark(price, " in "@, details);
    a_text_is_cut_at_the_first_mark(league, " (stash tab "@, place + end);
    assert(")."@[0] == ')' && ")."@[1] == '.');
    assert forall|i: int| 0 <= i < end.len() implies ")."@.contains(#[trigger] end[i]) by {
        if end[i] == ')' {
            assert(")."@[0] == end[i]);
        } else {
            assert(")."@[1] == end[i]);
        }
    }
    if place.len() > 0 && ")."@.contains(place.last()) {
        let k = choose|k: int| 0 <= k < ")."@.len() && ")."@[k] == place.last();
        assert(k == 0 || k == 1);
    }
    a_set_is_taken_off_the_end(place, end, ")."@);
}

} // verus!
