//! What the window shows of a session.

use vstd::prelude::*;
use vstd::string::*;
use crate::clock::clock_of;
use crate::events::{kind_name, EventKind, GameEvent};
use crate::number::{decimal, write_u64};
use crate::session::{
    context_length, shown_places, shown_places_are_places, Companion, CompanionState, EventFilter,
    Page,
};
use crate::text::same_text;

verus! {

/// What the window is filled with: the small window over the game, or a page.
#[derive(Debug, Clone, Copy, PartialEq, Eq, Structural)]
pub enum Screen {
    Compact,
    Full(Page),
}

/// How a text stands out.
#[derive(Debug, Clone, Copy, PartialEq, Eq, Structural)]
pub enum Accent {
    Gold,
    Success,
    Danger,
    Trade,
    Muted,
}

/// A button that moves the window.
#[derive(Debug, Clone, Copy, PartialEq, Eq, Structural)]
pub enum WindowButton {
    LeaveGame,
    Mini,
    InGame,
}

/// A button that has the log followed or left.
#[derive(Debug, Clone, Copy, PartialEq, Eq, Structural)]
pub enum MonitorButton {
    Start,
    Stop,
}

/// A count with its label.
#[derive(Debug, Clone, Copy)]
pub struct StatCard {
    pub label: &'static str,
    pub value: u32,
    pub accent: Accent,
}

/// The label, value and accent of a count.
pub open spec fn card(c: StatCard) -> (Seq<char>, u32, Accent) {
    (c.label@, c.value, c.accent)
}

/// An event in the feed.
#[derive(Debug)]
pub struct EventLine {
    pub clock: String,
    pub kind: &'static str,
    pub message: String,
    pub accent: Accent,
}

/// How events of a kind stand out.
pub open spec fn accent_of(kind: EventKind) -> Accent {
    match kind {
        EventKind::AreaEntered => Accent::Gold,
        EventKind::LevelUp => Accent::Success,
        EventKind::Death => Accent::Danger,
        EventKind::TradeWhisper => Accent::Trade,
        EventKind::Chat | EventKind::System => Accent::Muted,
    }
}

/// An event in the feed.
pub fn event_line(event: &GameEvent) -> (r: EventLine)
    ensures
        shows_event(r, *event),
{
    EventLine {
        clock: event.occurred_at.clock(),
        kind: event.kind.name(),
        message: event.message.clone(),
        accent: match event.kind {
            EventKind::AreaEntered => Accent::Gold,
            EventKind::LevelUp => Accent::Success,
            EventKind::Death => Accent::Danger,
            EventKind::TradeWhisper => Accent::Trade,
            EventKind::Chat | EventKind::System => Accent::Muted,
        },
    }
}

/// Whether a message of the conversation is the user's.
pub open spec fn is_users(role: Seq<char>) -> bool {
    role == "user"@
}

/// A text and how it stands out.
pub open spec fn label(l: (&'static str, Accent)) -> (Seq<char>, Accent) {
    (l.0@, l.1)
}

/// Who is named above a message of the conversation, and how the name stands out.
pub open spec fn speaker_of(role: Seq<char>) -> (Seq<char>, Accent) {
    if is_users(role) {
        ("YOU"@, Accent::Gold)
    } else {
        ("OLLAMA"@, Accent::Success)
    }
}

/// What is told of the event history, and how it stands out.
pub open spec fn history_label(available: bool) -> (Seq<char>, Accent) {
    if available {
        ("SQLite event history is available"@, Accent::Success)
    } else {
        ("SQLite storage could not be opened"@, Accent::Danger)
    }
}

/// Who is named above a message of the conversation, and how the name stands out.
pub fn speaker(role: &str) -> (r: (&'static str, Accent))
    ensures
        label(r) == speaker_of(role@),
{
    if same_text(role, "user") {
        ("YOU", Accent::Gold)
    } else {
        ("OLLAMA", Accent::Success)
    }
}

/// What is told of the event history, and how it stands out.
pub fn storage_label(available: bool) -> (r: (&'static str, Accent))
    ensures
        label(r) == history_label(available),
{
    if available {
        ("SQLite event history is available", Accent::Success)
    } else {
        ("SQLite storage could not be opened", Accent::Danger)
    }
}

/// What the window is filled with.
pub open spec fn screen_of(s: CompanionState) -> Screen {
    if s.overlay_mode && s.compact_mode {
        Screen::Compact
    } else {
        Screen::Full(s.page)
    }
}

/// The counts that the dashboard shows.
pub open spec fn cards_of(s: CompanionState) -> Seq<(Seq<char>, u32, Accent)> {
    seq![
        ("AREAS VISITED"@, s.stats.areas, Accent::Gold),
        ("LEVEL-UPS"@, s.stats.levels, Accent::Success),
        ("DEATHS"@, s.stats.deaths, Accent::Danger),
        ("TRADE WHISPERS"@, s.stats.trade_whispers, Accent::Trade),
    ]
}

/// The buttons that move the window.
pub open spec fn buttons_of(s: CompanionState) -> Seq<WindowButton> {
    if s.overlay_mode {
        seq![WindowButton::LeaveGame, WindowButton::Mini]
    } else {
        seq![WindowButton::InGame]
    }
}

/// The button that has the log followed or left.
pub open spec fn log_button(s: CompanionState) -> MonitorButton {
    if s.monitoring {
        MonitorButton::Stop
    } else {
        MonitorButton::Start
    }
}

/// What is told of the log, and how it stands out.
pub open spec fn log_label(s: CompanionState) -> (Seq<char>, Accent) {
    if s.monitoring {
        ("● LIVE"@, Accent::Success)
    } else {
        ("● OFFLINE"@, Accent::Muted)
    }
}

/// How what is told of the game and the log stands out.
pub open spec fn accent_of_connection(s: CompanionState) -> Accent {
    if s.game_running || s.monitoring {
        Accent::Success
    } else {
        Accent::Muted
    }
}

/// What the small window tells of the game, and how it stands out.
pub open spec fn small_game_label(s: CompanionState) -> (Seq<char>, Accent) {
    if s.game_running {
        ("● GAME"@, Accent::Success)
    } else {
        ("○ GAME"@, Accent::Muted)
    }
}

/// What the page of the assistant tells of the events that it is told of.
pub open spec fn told_events(s: CompanionState) -> Seq<char> {
    decimal(context_length(s.recent) as nat) + " log events in context"@
}

/// What the small window tells of the events that the assistant is told of.
pub open spec fn available_events(s: CompanionState) -> Seq<char> {
    decimal(context_length(s.recent) as nat) + " recent log events available"@
}

/// Whether the user still has to choose a log.
pub open spec fn needs_setup(s: CompanionState) -> bool {
    s.log_path.len() == 0
}

impl Companion {
    /// What the window is filled with.
    pub fn screen(&self) -> (r: Screen)
        ensures
            r == screen_of(self@),
    {
        if self.overlay_mode && self.compact_mode {
            Screen::Compact
        } else {
            Screen::Full(self.page)
        }
    }

    /// The counts that the dashboard shows.
    pub fn stat_cards(&self) -> (r: Vec<StatCard>)
        ensures
            r@.map_values(|c: StatCard| card(c)) == cards_of(self@),
    {
        let r: Vec<StatCard> = vec![
            StatCard { label: "AREAS VISITED", value: self.stats.areas, accent: Accent::Gold },
            StatCard { label: "LEVEL-UPS", value: self.stats.levels, accent: Accent::Success },
            StatCard { label: "DEATHS", value: self.stats.deaths, accent: Accent::Danger },
            StatCard {
                label: "TRADE WHISPERS",
                value: self.stats.trade_whispers,
                accent: Accent::Trade,
            },
        ];
        assert(r@.map_values(|c: StatCard| card(c)) =~= cards_of(self@));
        r
    }

    /// Whether the user still has to choose a log.
    pub fn shows_setup(&self) -> (r: bool)
        ensures
            r == needs_setup(self@),
    {
        self.log_path.as_str().is_empty()
    }

    /// The buttons that move the window.
    pub fn window_buttons(&self) -> (r: Vec<WindowButton>)
        ensures
            r@ == buttons_of(self@),
    {
        if self.overlay_mode {
            vec![WindowButton::LeaveGame, WindowButton::Mini]
        } else {
            vec![WindowButton::InGame]
        }
    }

    /// The button that has the log followed or left.
    pub fn monitor_button(&self) -> (r: MonitorButton)
        ensures
            r == log_button(self@),
    {
        if self.monitoring {
            MonitorButton::Stop
        } else {
            MonitorButton::Start
        }
    }

    /// What is told of the log, and how it stands out.
    pub fn monitor_label(&self) -> (r: (&'static str, Accent))
        ensures
            label(r) == log_label(self@),
    {
        if self.monitoring {
            ("● LIVE", Accent::Success)
        } else {
            ("● OFFLINE", Accent::Muted)
        }
    }

    /// How what is told of the game and the log stands out.
    pub fn connection_accent(&self) -> (r: Accent)
        ensures
            r == accent_of_connection(self@),
    {
        if self.game_running || self.monitoring {
            Accent::Success
        } else {
            Accent::Muted
        }
    }

    /// What the small window tells of the game, and how it stands out.
    pub fn game_label(&self) -> (r: (&'static str, Accent))
        ensures
            label(r) == small_game_label(self@),
    {
        if self.game_running {
            ("● GAME", Accent::Success)
        } else {
            ("○ GAME", Accent::Muted)
        }
    }

    /// What the page of the assistant tells of the events that it is told of.
    pub fn context_label(&self) -> (r: String)
        ensures
            r@ == told_events(self@),
    {
        let mut text = write_u64(self.context_size() as u64);
        text.append(" log events in context");
        text
    }

    /// What the small window tells of the events that the assistant is told of.
    pub fn available_label(&self) -> (r: String)
        ensures
            r@ == available_events(self@),
    {
        let mut text = write_u64(self.context_size() as u64);
        text.append(" recent log events available");
        text
    }

    /// The events that the feed shows, the newest first.
    pub fn feed(&self) -> (r: Vec<EventLine>)
        ensures
            lines_show(r@, self@.recent, shown_in_feed(self@)),
    {
        self.lines_of(self.filter)
    }

    /// The trade requests, the newest first.
    pub fn trade_inbox(&self) -> (r: Vec<EventLine>)
        ensures
            lines_show(r@, self@.recent, shown_in_inbox(self@)),
    {
        self.lines_of(EventFilter::Trades)
    }

    fn lines_of(&self, filter: EventFilter) -> (r: Vec<EventLine>)
        ensures
            lines_show(r@, self@.recent, shown_places(self@.recent, filter)),
    {
        let places = self.shown_events(filter);
        let ghost all = self.recent@;
        let count: usize = self.recent.len();
        assert(count == all.len());
        proof {
            shown_places_are_places(all, filter);
        }
        let mut out: Vec<EventLine> = Vec::new();
        let mut i: usize = 0;
        while i < places.len()
            invariant
                i <= places@.len(),
                all == self.recent@,
                count == all.len(),
                forall|k: int| 0 <= k < places@.len() ==> #[trigger] places@[k] < all.len(),
                out@.len() == i,
                forall|k: int|
                    0 <= k < i ==> shows_event(#[trigger] out@[k], all[places@[k] as int]),
            decreases places@.len() - i,
        {
            let place: usize = places[i];
            out.push(event_line(&self.recent[place]));
            i = i + 1;
        }
        out
    }
}

/// Whether a line of the feed shows an event.
pub open spec fn shows_event(line: EventLine, event: GameEvent) -> bool {
    &&& line.clock@ == clock_of(event.occurred_at)
    &&& line.kind@ == kind_name(event.kind)
    &&& line.message@ == event.message@
    &&& line.accent == accent_of(event.kind)
}

/// Whether lines show the events at the places, one after the other.
pub open spec fn lines_show(lines: Seq<EventLine>, events: Seq<GameEvent>, places: Seq<usize>) -> bool {
    &&& lines.len() == places.len()
    &&& forall|k: int|
        0 <= k < lines.len() ==> shows_event(#[trigger] lines[k], events[places[k] as int])
}

/// Which events the inbox of trade requests shows.
pub open spec fn shown_in_inbox(s: CompanionState) -> Seq<usize> {
    shown_places(s.recent, EventFilter::Trades)
}

/// Which events the feed shows.
pub open spec fn shown_in_feed(s: CompanionState) -> Seq<usize> {
    shown_places(s.recent, s.filter)
}

} // verus!
