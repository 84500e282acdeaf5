//! Events read from the game's client log, trade requests among them, and what a session counts.

use vstd::prelude::*;
use crate::clock::{rfc3339_text, EventTime};
use crate::text::{
    a_text_is_cut_at_the_first_mark, begins_with, behind, contains, cut, first_mark, holds,
    split_once, starts_with, strip_prefix, trim, trim_end_of, trimmed, trimmed_end_of,
};

verus! {

/// What a line of the client log reports.
#[derive(Debug, Clone, Copy, PartialEq, Eq, Structural)]
pub enum EventKind {
    AreaEntered,
    LevelUp,
    Death,
    TradeWhisper,
    Chat,
    System,
}

/// The name of a kind of event.
pub open spec fn kind_name(kind: EventKind) -> Seq<char> {
    match kind {
        EventKind::AreaEntered => "AreaEntered"@,
        EventKind::LevelUp => "LevelUp"@,
        EventKind::Death => "Death"@,
        EventKind::TradeWhisper => "TradeWhisper"@,
        EventKind::Chat => "Chat"@,
        EventKind::System => "System"@,
    }
}

/// Different kinds of events have different names.
pub proof fn kinds_have_different_names(a: EventKind, b: EventKind)
    requires
        a != b,
    ensures
        kind_name(a) != kind_name(b),
{
    reveal_strlit("AreaEntered");
    reveal_strlit("LevelUp");
    reveal_strlit("Death");
    reveal_strlit("TradeWhisper");
    reveal_strlit("Chat");
    reveal_strlit("System");
    assert("AreaEntered"@.len() == 11 && "LevelUp"@.len() == 7 && "Death"@.len() == 5
        && "TradeWhisper"@.len() == 12 && "Chat"@.len() == 4 && "System"@.len() == 6);
}

impl EventKind {
    /// The name of this kind of event.
    pub fn name(self) -> (r: &'static str)
        ensures
            r@ == kind_name(self),
    {
        match self {
            EventKind::AreaEntered => "AreaEntered",
            EventKind::LevelUp => "LevelUp",
            EventKind::Death => "Death",
            EventKind::TradeWhisper => "TradeWhisper",
            EventKind::Chat => "Chat",
            EventKind::System => "System",
        }
    }
}

/// Something that happened in the game, with the moment at which it was read.
#[derive(Debug, Clone, PartialEq, Eq)]
pub struct GameEvent {
    pub occurred_at: EventTime,
    pub kind: EventKind,
    pub message: String,
}

impl GameEvent {
    /// An event of the moment of the call.
    pub fn new(kind: EventKind, message: &str) -> (r: Self)
        ensures
            r.kind == kind,
            r.message@ == message@,
            rfc3339_text(
                r.occurred_at.seconds as int,
                r.occurred_at.nanos as int,
                r.occurred_at.offset as int,
            ) is Some,
    {
        GameEvent { occurred_at: EventTime::now(), kind, message: message.to_string() }
    }
}

/// A buyer's request for a listed item.
#[derive(Debug, Clone, PartialEq, Eq)]
pub struct TradeRequest {
    pub buyer: String,
    pub item: String,
    pub price: String,
    pub league: String,
    pub location: String,
    pub raw_message: String,
}

/// How often each counted thing happened in a session.
#[derive(Debug, Clone, Copy, PartialEq, Eq, Structural)]
pub struct SessionStats {
    pub areas: u32,
    pub levels: u32,
    pub deaths: u32,
    pub trade_whispers: u32,
}

impl Default for SessionStats {
    fn default() -> (r: Self)
        ensures
            r == (SessionStats { areas: 0, levels: 0, deaths: 0, trade_whispers: 0 }),
    {
        SessionStats { areas: 0, levels: 0, deaths: 0, trade_whispers: 0 }
    }
}

impl SessionStats {
    /// The count that an event of the kind raises; chat and system lines raise none.
    pub open spec fn count_of(self, kind: EventKind) -> Option<u32> {
        match kind {
            EventKind::AreaEntered => Some(self.areas),
            EventKind::LevelUp => Some(self.levels),
            EventKind::Death => Some(self.deaths),
            EventKind::TradeWhisper => Some(self.trade_whispers),
            EventKind::Chat | EventKind::System => None,
        }
    }

    /// Whether the count of the kind can still be raised.
    pub open spec fn has_room(self, kind: EventKind) -> bool {
        match self.count_of(kind) {
            Some(count) => count < u32::MAX,
            None => true,
        }
    }

    /// The counts after one more event of the kind.
    pub open spec fn counting(self, kind: EventKind) -> SessionStats {
        match kind {
            EventKind::AreaEntered => SessionStats { areas: (self.areas + 1) as u32, ..self },
            EventKind::LevelUp => SessionStats { levels: (self.levels + 1) as u32, ..self },
            EventKind::Death => SessionStats { deaths: (self.deaths + 1) as u32, ..self },
            EventKind::TradeWhisper => SessionStats {
                trade_whispers: (self.trade_whispers + 1) as u32,
                ..self
            },
            EventKind::Chat | EventKind::System => self,
        }
    }

    /// Whether the count of the event's kind can still be raised.
    pub fn can_record(&self, event: &GameEvent) -> (r: bool)
        ensures
            r == self.has_room(event.kind),
    {
        match event.kind {
            EventKind::AreaEntered => self.areas < u32::MAX,
            EventKind::LevelUp => self.levels < u32::MAX,
            EventKind::Death => self.deaths < u32::MAX,
            EventKind::TradeWhisper => self.trade_whispers < u32::MAX,
            EventKind::Chat | EventKind::System => true,
        }
    }

    /// Counts the event.
    pub fn record(&mut self, event: &GameEvent)
        requires
            old(self).has_room(event.kind),
        ensures
            *final(self) == old(self).counting(event.kind),
    {
        match event.kind {
            EventKind::AreaEntered => {
                self.areas = self.areas + 1;
            },
            EventKind::LevelUp => {
                self.levels = self.levels + 1;
            },
            EventKind::Death => {
                self.deaths = self.deaths + 1;
            },
            EventKind::TradeWhisper => {
                self.trade_whispers = self.trade_whispers + 1;
            },
            EventKind::Chat | EventKind::System => {},
        }
    }
}

// ---------------------------------------------------------------- client lines

/// What a line of the client log says, without the header that ends in a bracket.
pub open spec fn message_of(line: Seq<char>) -> Seq<char> {
    let body = trimmed(
        match cut(line, "] "@) {
            Some((_, tail)) => tail,
            None => line,
        },
    );
    match behind(body, ": "@) {
        Some(tail) => tail,
        None => body,
    }
}

/// The header of a line does not matter.
pub proof fn the_header_does_not_matter(header: Seq<char>, other: Seq<char>, text: Seq<char>)
    requires
        first_mark(header, "] "@),
        first_mark(other, "] "@),
    ensures
        message_of(header + "] "@ + text) == message_of(other + "] "@ + text),
{
    reveal_strlit("] ");
    a_text_is_cut_at_the_first_mark(header, "] "@, text);
    a_text_is_cut_at_the_first_mark(other, "] "@, text);
}

/// Whether a message tells of a death.
pub open spec fn tells_of_death(message: Seq<char>) -> bool {
    holds(message, "has died"@) || holds(message, "You have died"@)
}

/// Whether a message tells of a new level.
pub open spec fn tells_of_level(message: Seq<char>) -> bool {
    holds(message, "is now level"@) || holds(message, "You have reached level"@)
}

/// Whether a message asks to buy something.
pub open spec fn asks_to_buy(message: Seq<char>) -> bool {
    holds(message, "Hi, I would like to buy your"@) || holds(message, "Hi, I'd like to buy your"@)
}

/// Whether a message is chat: a whisper, or a line of one of the channels.
pub open spec fn is_chat(message: Seq<char>) -> bool {
    ||| holds(message, "@From "@)
    ||| holds(message, "@To "@)
    ||| begins_with(message, "#"@)
    ||| begins_with(message, "%"@)
    ||| begins_with(message, "&"@)
    ||| begins_with(message, "$"@)
}

/// Whether a message tells of the client itself.
pub open spec fn tells_of_client(message: Seq<char>) -> bool {
    holds(message, "Connected to "@) || holds(message, "Closing game gracefully"@)
}

/// The kind of event that a message reports and the text that an event of it carries. An entered
/// area goes before everything else, then a death, a level, a trade request, chat, and the client.
pub open spec fn reported(message: Seq<char>) -> Option<(EventKind, Seq<char>)> {
    match behind(message, "You have entered "@) {
        Some(area) => Some((EventKind::AreaEntered, trimmed_end_of(area, "."@))),
        None => if tells_of_death(message) {
            Some((EventKind::Death, message))
        } else if tells_of_level(message) {
            Some((EventKind::LevelUp, message))
        } else if asks_to_buy(message) {
            Some((EventKind::TradeWhisper, message))
        } else if is_chat(message) {
            Some((EventKind::Chat, message))
        } else if tells_of_client(message) {
            Some((EventKind::System, message))
        } else {
            None
        },
    }
}

fn classify<'a>(message: &'a str) -> (r: Option<(EventKind, &'a str)>)
    ensures
        match r {
            Some((kind, text)) => reported(message@) == Some((kind, text@)),
            None => reported(message@) is None,
        },
{
    if let Some(area) = strip_prefix(message, "You have entered ") {
        return Some((EventKind::AreaEntered, trim_end_of(area, ".")));
    }
    let kind = if contains(message, "has died") || contains(message, "You have died") {
        EventKind::Death
    } else if contains(message, "is now level") || contains(message, "You have reached level") {
        EventKind::LevelUp
    } else if contains(message, "Hi, I would like to buy your") || contains(
        message,
        "Hi, I'd like to buy your",
    ) {
        EventKind::TradeWhisper
    } else if contains(message, "@From ") || contains(message, "@To ") || starts_with(message, "#")
        || starts_with(message, "%") || starts_with(message, "&") || starts_with(message, "$") {
        EventKind::Chat
    } else if contains(message, "Connected to ") || contains(message, "Closing game gracefully") {
        EventKind::System
    } else {
        return None;
    };
    Some((kind, message))
}

/// The event that a line of the client log reports, if it reports one.
pub fn parse_client_line(line: &str) -> (r: Option<GameEvent>)
    ensures
        match r {
            Some(event) => {
                &&& reported(message_of(line@)) == Some((event.kind, event.message@))
                &&& rfc3339_text(
                    event.occurred_at.seconds as int,
                    event.occurred_at.nanos as int,
                    event.occurred_at.offset as int,
                ) is Some
            },
            None => reported(message_of(line@)) is None,
        },
{
    let body = trim(
        match split_once(line, "] ") {
            Some((_, tail)) => tail,
            None => line,
        },
    );
    let message = match strip_prefix(body, ": ") {
        Some(tail) => tail,
        None => body,
    };
    match classify(message) {
        Some((kind, text)) => Some(GameEvent::new(kind, text)),
        None => None,
    }
}

// ---------------------------------------------------------------- trade requests

/// The texts of a trade request.
pub struct TradeTexts {
    pub buyer: Seq<char>,
    pub item: Seq<char>,
    pub price: Seq<char>,
    pub league: Seq<char>,
    pub location: Seq<char>,
}

/// What stands behind the first `mark` of `s`, up to the next one.
pub open spec fn second_part(s: Seq<char>, mark: Seq<char>) -> Option<Seq<char>> {
    match cut(s, mark) {
        Some((_, tail)) => match cut(tail, mark) {
            Some((part, _)) => Some(part),
            None => Some(tail),
        },
        None => None,
    }
}

/// The price, the league and the place in the stash that a listing names; the league and the place
/// may be missing.
pub open spec fn listing_texts(listing: Seq<char>) -> (Seq<char>, Seq<char>, Seq<char>) {
    let (price, remainder) = match cut(listing, " in "@) {
        Some(parts) => parts,
        None => (listing, Seq::empty()),
    };
    let (league, details) = match cut(remainder, " (stash tab "@) {
        Some(parts) => parts,
        None => (trimmed_end_of(remainder, "."@), Seq::empty()),
    };
    (trimmed(price), trimmed(league), trimmed_end_of(details, ")."@))
}

/// The texts of the trade request that a whisper makes: it comes from a buyer, names what to buy
/// and for what it is listed.
pub open spec fn requested(message: Seq<char>) -> Option<TradeTexts> {
    match behind(message, "@From "@) {
        None => None,
        Some(sender) => match (cut(sender, ":"@), second_part(message, "buy your "@)) {
            (Some((buyer, _)), Some(request)) => match cut(request, " listed for "@) {
                Some((item, listing)) => {
                    let (price, league, location) = listing_texts(listing);
                    Some(
                        TradeTexts { buyer: trimmed(buyer), item: trimmed(item), price, league, location },
                    )
                },
                None => None,
            },
            _ => None,
        },
    }
}

/// Whether a trade request is the one that a whisper makes; it keeps the whole whisper.
pub open spec fn is_requested(trade: Option<TradeRequest>, message: Seq<char>) -> bool {
    match trade {
        Some(trade) => {
            &&& requested(message) == Some(
                TradeTexts {
                    buyer: trade.buyer@,
                    item: trade.item@,
                    price: trade.price@,
                    league: trade.league@,
                    location: trade.location@,
                },
            )
            &&& trade.raw_message@ == message
        },
        None => requested(message) is None,
    }
}

/// The trade request that a whisper makes.
pub fn parse_trade_request(message: &str) -> (r: Option<TradeRequest>)
    ensures
        is_requested(r, message@),
{
    let sender = strip_prefix(message, "@From ")?;
    let (buyer, _) = split_once(sender, ":")?;
    let (_, behind_mark) = split_once(message, "buy your ")?;
    let request = match split_once(behind_mark, "buy your ") {
        Some((part, _)) => part,
        None => behind_mark,
    };
    let (item, listing) = split_once(request, " listed for ")?;
    let (price, remainder) = match split_once(listing, " in ") {
        Some(parts) => parts,
        None => (listing, ""),
    };
    proof {
        reveal_strlit("");
        assert(""@ =~= Seq::<char>::empty());
    }
    let (league, details) = match split_once(remainder, " (stash tab ") {
        Some(parts) => parts,
        None => (trim_end_of(remainder, "."), ""),
    };
    Some(
        TradeRequest {
            buyer: trim(buyer).to_string(),
            item: trim(item).to_string(),
            price: trim(price).to_string(),
            league: trim(league).to_string(),
            location: trim_end_of(details, ").").to_string(),
            raw_message: message.to_string(),
        },
    )
}

/// What a whisper asks for and what it offers.
pub open spec fn offer(
    item: Seq<char>,
    price: Seq<char>,
    league: Seq<char>,
    place: Seq<char>,
) -> Seq<char> {
    item + " listed for "@ + (price + " in "@ + (league + " (stash tab "@ + (place + ")"@)))
}

/// The whisper of a buyer.
pub open spec fn whisper(
    buyer: Seq<char>,
    greeting: Seq<char>,
    item: Seq<char>,
    price: Seq<char>,
    league: Seq<char>,
    place: Seq<char>,
) -> Seq<char> {
    "@From "@ + buyer + ":"@ + greeting + "buy your "@ + offer(item, price, league, place)
}

/// The parts of a whisper are read back, where no part holds the mark that ends it and none has
/// white space around it.
pub proof fn a_whisper_reads_back(
    buyer: Seq<char>,
    greeting: Seq<char>,
    item: Seq<char>,
    price: Seq<char>,
    league: Seq<char>,
    place: Seq<char>,
)
    requires
        first_mark(buyer, ":"@),
        first_mark("@From "@ + buyer + ":"@ + greeting, "buy your "@),
        !holds(offer(item, price, league, place), "buy your "@),
        first_mark(item, " listed for "@),
        first_mark(price, " in "@),
        first_mark(league, " (stash tab "@),
        trimmed(buyer) == buyer,
        trimmed(item) == item,
        trimmed(price) == price,
        trimmed(league) == league,
        trimmed_end_of(place, ")."@) == place,
    ensures
        requested(whisper(buyer, greeting, item, price, league, place)) == Some(
            TradeTexts { buyer, item, price, league, location: place },
        ),
{
    let request = offer(item, price, league, place);
    let message = whisper(buyer, greeting, item, price, league, place);
    reveal_strlit("@From ");
    reveal_strlit(":");
    reveal_strlit("buy your ");
    reveal_strlit(" listed for ");
    reveal_strlit(" in ");
    reveal_strlit(" (stash tab ");
    reveal_strlit(")");
    reveal_strlit(").");
    let sender = buyer + ":"@ + (greeting + "buy your "@ + request);
    assert(message =~= "@From "@ + sender);
    assert(message.subrange(0, "@From "@.len() as int) =~= "@From "@);
    assert(message.skip("@From "@.len() as int) =~= sender);
    a_text_is_cut_at_the_first_mark(buyer, ":"@, greeting + "buy your "@ + request);
    a_text_is_cut_at_the_first_mark("@From "@ + buyer + ":"@ + greeting, "buy your "@, request);
    let listing = price + " in "@ + (league + " (stash tab "@ + (place + ")"@));
    a_text_is_cut_at_the_first_mark(item, " listed for "@, listing);
    a_text_is_cut_at_the_first_mark(price, " in "@, league + " (stash tab "@ + (place + ")"@));
    a_text_is_cut_at_the_first_mark(league, " (stash tab "@, place + ")"@);
    let details = place + ")"@;
    assert(details.last() == ')');
    assert(")."@[0] == ')');
    assert(details.drop_last() =~= place);
}

} // verus!
