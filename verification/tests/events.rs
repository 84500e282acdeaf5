use exile_companion::clock::EventTime;
use exile_companion::events::{
    parse_client_line, parse_trade_request, EventKind, GameEvent, SessionStats,
};
use exile_companion::logs::{
    replay_start, skips_first_line, tail_step, TailAction, TailInput, REPLAY_BYTES,
    WAIT_MILLIS,
};
use exile_companion::storage::event_row;

#[test]
fn parses_area() {
    let event = parse_client_line(
        "2026/08/08 12:00:00 123 [INFO Client 1] You have entered The Coast.",
    )
    .unwrap();
    assert_eq!(event.kind, EventKind::AreaEntered);
    assert_eq!(event.message, "The Coast");
}

#[test]
fn ignores_noise() {
    assert!(parse_client_line("Generating level 3 area").is_none());
}

#[test]
fn parses_real_client_area_format_with_colon() {
    let event = parse_client_line(
        "2026/08/08 23:31:06 37366161 cffb065b [INFO Client 332] : You have entered The Twilight Strand.",
    )
    .unwrap();
    assert_eq!(event.kind, EventKind::AreaEntered);
    assert_eq!(event.message, "The Twilight Strand");
}

#[test]
fn parses_global_chat() {
    let event =
        parse_client_line("2026/08/08 23:31:33 1 abcd [INFO Client 332] #Player: hello").unwrap();
    assert_eq!(event.kind, EventKind::Chat);
}

#[test]
fn parses_trade_request_details() {
    let message = "@From BuyerOne: Hi, I would like to buy your Doom Crown listed for 10 chaos in Mirage (stash tab \"Sell\"; position: left 3, top 4)";
    let trade = parse_trade_request(message).unwrap();
    assert_eq!(trade.buyer, "BuyerOne");
    assert_eq!(trade.item, "Doom Crown");
    assert_eq!(trade.price, "10 chaos");
    assert_eq!(trade.league, "Mirage");
    assert!(trade.location.contains("Sell"));
}

fn kind_of(line: &str) -> Option<EventKind> {
    parse_client_line(line).map(|event| event.kind)
}

#[test]
fn each_kind_of_line_is_recognized() {
    assert_eq!(kind_of("[x] : Hero has died."), Some(EventKind::Death));
    assert_eq!(kind_of("[x] You have died"), Some(EventKind::Death));
    assert_eq!(kind_of("[x] : Hero (Witch) is now level 12"), Some(EventKind::LevelUp));
    assert_eq!(kind_of("You have reached level 2"), Some(EventKind::LevelUp));
    assert_eq!(
        kind_of("[x] @From A: Hi, I'd like to buy your ring"),
        Some(EventKind::TradeWhisper)
    );
    assert_eq!(kind_of("[x] @To A: thanks"), Some(EventKind::Chat));
    assert_eq!(kind_of("%party"), Some(EventKind::Chat));
    assert_eq!(kind_of("&guild"), Some(EventKind::Chat));
    assert_eq!(kind_of("$trade"), Some(EventKind::Chat));
    assert_eq!(kind_of("[x] Connected to server"), Some(EventKind::System));
    assert_eq!(kind_of("Closing game gracefully"), Some(EventKind::System));
    assert_eq!(kind_of(""), None);
}

#[test]
fn an_area_goes_before_everything_else() {
    let event = parse_client_line("] You have entered a place where someone has died...").unwrap();
    assert_eq!(event.kind, EventKind::AreaEntered);
    assert_eq!(event.message, "a place where someone has died");
}

#[test]
fn the_header_ends_at_the_first_bracket_and_space() {
    let event = parse_client_line("a] #b] c").unwrap();
    assert_eq!(event.message, "#b] c");
}

#[test]
fn a_trade_request_may_lack_league_and_location() {
    let trade = parse_trade_request("@From B : I want to buy your  Ring  listed for 1 alch.").unwrap();
    assert_eq!(trade.buyer, "B");
    assert_eq!(trade.item, "Ring");
    assert_eq!(trade.price, "1 alch.");
    assert_eq!(trade.league, "");
    assert_eq!(trade.location, "");
    let trade = parse_trade_request("@From B: buy your Ring listed for 1 alch in Standard..").unwrap();
    assert_eq!(trade.league, "Standard");
    assert_eq!(trade.location, "");
    let trade = parse_trade_request("@From B: buy your Ring listed for 1 alch in SSF (stash tab \"~b\"; left 1, top 2).)").unwrap();
    assert_eq!(trade.location, "\"~b\"; left 1, top 2");
    assert_eq!(trade.raw_message, "@From B: buy your Ring listed for 1 alch in SSF (stash tab \"~b\"; left 1, top 2).)");
}

#[test]
fn what_is_no_trade_request() {
    assert!(parse_trade_request("@To B: buy your Ring listed for 1").is_none());
    assert!(parse_trade_request("@From B buy your Ring listed for 1").is_none());
    assert!(parse_trade_request("@From B: sell your Ring listed for 1").is_none());
    assert!(parse_trade_request("@From B: buy your Ring").is_none());
    assert!(parse_trade_request("@From B: buy your A buy your B listed for 1").is_none());
}

#[test]
fn a_session_counts_by_kind() {
    let mut stats = SessionStats::default();
    for kind in [
        EventKind::AreaEntered,
        EventKind::AreaEntered,
        EventKind::LevelUp,
        EventKind::Death,
        EventKind::TradeWhisper,
        EventKind::Chat,
        EventKind::System,
    ] {
        let event = GameEvent::new(kind, "x");
        assert!(stats.can_record(&event));
        stats.record(&event);
    }
    assert_eq!((stats.areas, stats.levels, stats.deaths, stats.trade_whispers), (2, 1, 1, 1));
    let full = SessionStats { areas: u32::MAX, ..stats };
    assert!(!full.can_record(&GameEvent::new(EventKind::AreaEntered, "x")));
    assert!(full.can_record(&GameEvent::new(EventKind::Chat, "x")));
}

#[test]
fn a_row_holds_the_moment_kind_and_message() {
    let event = GameEvent {
        occurred_at: EventTime { seconds: 0, nanos: 0, offset: 3600 },
        kind: EventKind::LevelUp,
        message: "x".to_string(),
    };
    let row = event_row(&event).unwrap();
    assert_eq!(row.occurred_at, "1970-01-01T01:00:00+01:00");
    assert_eq!(row.kind, "LevelUp");
    assert_eq!(row.message, "x");
    let impossible = GameEvent {
        occurred_at: EventTime { seconds: 0, nanos: 0, offset: 86_400 },
        kind: EventKind::LevelUp,
        message: "x".to_string(),
    };
    assert!(event_row(&impossible).is_none());
}

#[test]
fn an_event_that_is_read_can_be_recorded() {
    let event = parse_client_line("#hello").unwrap();
    assert!(event_row(&event).is_some());
    assert!(chrono::DateTime::parse_from_rfc3339(&event_row(&event).unwrap().occurred_at).is_ok());
}

#[test]
fn kinds_are_named_as_they_are_written() {
    for kind in [
        EventKind::AreaEntered,
        EventKind::LevelUp,
        EventKind::Death,
        EventKind::TradeWhisper,
        EventKind::Chat,
        EventKind::System,
    ] {
        assert_eq!(kind.name(), format!("{:?}", kind));
    }
}

#[test]
fn the_clock_agrees_with_chrono() {
    for seconds in [0i64, 59, 3_600, 86_399, 86_400, 1_700_000_123, -1, -86_401] {
        for offset in [0i32, 3_600, -3_600, 19_800, 86_399, -86_399, 1] {
            for nanos in [0u32, 999_999_999] {
                let time = EventTime { seconds, nanos, offset };
                let zone = chrono::FixedOffset::east_opt(offset).unwrap();
                let moment =
                    chrono::DateTime::from_timestamp(seconds, nanos).unwrap().with_timezone(&zone);
                assert_eq!(time.clock(), moment.format("%H:%M:%S").to_string());
                assert_eq!(time.rfc3339().unwrap(), moment.to_rfc3339());
            }
        }
    }
    let leap = EventTime { seconds: 59, nanos: 1_500_000_000, offset: 0 };
    let moment = chrono::DateTime::from_timestamp(59, 1_500_000_000).unwrap();
    assert_eq!(leap.clock(), moment.format("%H:%M:%S").to_string());
    assert_eq!(leap.clock(), "00:00:60");
}

#[test]
fn moments_are_equal_whatever_the_offset() {
    let a = EventTime { seconds: 5, nanos: 6, offset: 0 };
    let b = EventTime { seconds: 5, nanos: 6, offset: 60 };
    let c = EventTime { seconds: 5, nanos: 7, offset: 0 };
    assert_eq!(a, b);
    assert_ne!(a, c);
}

#[test]
fn the_end_of_the_log_is_read_again() {
    assert_eq!(REPLAY_BYTES, 256 * 1024);
    assert_eq!(WAIT_MILLIS, 250);
    assert_eq!(replay_start(0), 0);
    assert_eq!(replay_start(REPLAY_BYTES), 0);
    assert_eq!(replay_start(REPLAY_BYTES + 7), 7);
    assert!(!skips_first_line(0));
    assert!(skips_first_line(7));
}

#[test]
fn following_the_log() {
    assert!(matches!(tail_step(TailInput::StopRequested), TailAction::Finish));
    assert!(matches!(tail_step(TailInput::ReceiverGone), TailAction::Finish));
    assert!(matches!(tail_step(TailInput::EndReached), TailAction::Wait));
    assert!(matches!(tail_step(TailInput::Delivered), TailAction::Continue));
    assert!(matches!(tail_step(TailInput::Line("noise\n".to_string())), TailAction::Continue));
    match tail_step(TailInput::Line("[x] #hi\n".to_string())) {
        TailAction::Deliver(event) => {
            assert_eq!(event.kind, EventKind::Chat);
            assert_eq!(event.message, "#hi");
            assert!(event.occurred_at.rfc3339().is_some());
        }
        _ => panic!("nothing delivered"),
    }
}

#[test]
fn headers_do_not_matter() {
    let message = |line: &str| parse_client_line(line).map(|event| event.message);
    assert_eq!(message("] #x"), message("2026/08/08 12:00:00 [INFO Client 1] #x"));
    assert_eq!(message("other] : #x "), Some("#x".to_string()));
}

#[test]
fn a_whisper_is_taken_apart() {
    let (buyer, item, price, league, place) = ("B C", "Ring of X", "1 div", "SSF", "\"~price\"; left 1");
    let whisper = format!(
        "@From {buyer}: Hello, may I buy your {item} listed for {price} in {league} (stash tab {place})"
    );
    let trade = parse_trade_request(&whisper).unwrap();
    assert_eq!(trade.buyer, buyer);
    assert_eq!(trade.item, item);
    assert_eq!(trade.price, price);
    assert_eq!(trade.league, league);
    assert_eq!(trade.location, place);
}
