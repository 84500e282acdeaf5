use exile_companion::assistant::{
    accept_answer, chat_request, is_local_endpoint, AnswerError, ChatMessage, EndpointError,
    OllamaClient,
};
use exile_companion::clock::EventTime;
use exile_companion::display::{
    event_line, speaker, storage_label, Accent, MonitorButton, Screen, WindowButton,
};
use exile_companion::events::{EventKind, GameEvent};
use exile_companion::links::Link;
use exile_companion::paths::{
    path_order, PathOrder, PathPart, CURRENT_RANK, DISK_RANK, NAME_RANK, PARENT_RANK, ROOT_RANK,
    SHARE_RANK,
};
use exile_companion::platform::{
    candidate_log_paths, common_log_paths, discover_client_log, is_poe_process_name, is_poe_running,
    order_locations, DirectoryPath, LogEnvironment, LogLocation,
};
use exile_companion::session::{
    check_model, Companion, EventFilter, Page, WindowChange, DEFAULT_MODEL, FIRST_CHECK_MILLIS,
    INSTRUCTIONS, RECENT_EVENTS,
};

// ---------------------------------------------------------------- endpoints

#[test]
fn rejects_remote_endpoints() {
    assert!(OllamaClient::new("https://example.com").is_err());
    assert!(OllamaClient::new("http://localhost.attacker.example").is_err());
    assert!(OllamaClient::new("http://localhost@attacker.example").is_err());
    assert!(OllamaClient::new("http://127.0.0.1.attacker.example").is_err());
}

#[test]
fn accepts_loopback_endpoints() {
    assert!(OllamaClient::new("http://127.0.0.1:11434").is_ok());
    assert!(OllamaClient::new("http://localhost:11434/").is_ok());
    assert!(OllamaClient::new("http://[::1]:11434").is_ok());
}

#[test]
fn an_endpoint_says_nothing_but_where() {
    let error = |endpoint: &str| OllamaClient::new(endpoint).unwrap_err();
    assert_eq!(error("nothing"), EndpointError::Invalid);
    assert_eq!(error("https://localhost"), EndpointError::NotLocal);
    assert_eq!(error("http://localhost/api"), EndpointError::NotLocal);
    assert_eq!(error("http://localhost?x"), EndpointError::NotLocal);
    assert_eq!(error("http://localhost#x"), EndpointError::NotLocal);
    assert_eq!(error("http://user@localhost"), EndpointError::NotLocal);
    assert_eq!(error("http://:password@localhost"), EndpointError::NotLocal);
    assert_eq!(EndpointError::Invalid.message(), "invalid Ollama endpoint");
    assert_eq!(EndpointError::NotLocal.message(), "only local Ollama endpoints are allowed");
}

#[test]
fn addresses_of_the_server() {
    let client = OllamaClient::new(" http://localhost:11434// ");
    assert_eq!(client.unwrap_err(), EndpointError::NotLocal);
    let client = OllamaClient::new(" http://localhost:11434/ ").unwrap();
    assert_eq!(client.models_url(), "http://localhost:11434/api/tags");
    assert_eq!(client.chat_url(), "http://localhost:11434/api/chat");
}

#[test]
fn local_links_one_by_one() {
    let link = |host: Option<&str>| Link {
        scheme: "http".to_string(),
        username: String::new(),
        password: None,
        host: host.map(String::from),
        path: "/".to_string(),
        query: None,
        fragment: None,
    };
    for host in ["127.0.0.1", "localhost", "::1", "[::1]"] {
        assert!(is_local_endpoint(&link(Some(host))));
        assert!(OllamaClient::at("http://x//", Some(link(Some(host)))).is_ok());
    }
    assert!(!is_local_endpoint(&link(Some("127.0.0.2"))));
    assert!(!is_local_endpoint(&link(None)));
    assert_eq!(OllamaClient::at("x", None).unwrap_err(), EndpointError::Invalid);
    assert_eq!(
        OllamaClient::at("http://x//", Some(link(Some("::1")))).unwrap().models_url(),
        "http://x/api/tags"
    );
}

#[test]
fn requests_and_answers() {
    let request = chat_request("m", vec![ChatMessage::new("user", "q")]);
    assert_eq!(request.model, "m");
    assert_eq!(request.messages, vec![ChatMessage::new("user", "q")]);
    assert!(!request.stream && !request.think);
    assert_eq!(request.keep_alive, "10m");
    assert_eq!(accept_answer(" a ".to_string()), Ok(" a ".to_string()));
    assert_eq!(accept_answer(" \n".to_string()), Err(AnswerError::Empty));
    assert_eq!(AnswerError::Empty.message(), "Ollama returned an empty answer");
}

// ---------------------------------------------------------------- the platform

fn directory(text: &str) -> DirectoryPath {
    let parts = std::path::Path::new(text)
        .components()
        .map(|part| {
            let (rank, name) = match part {
                std::path::Component::Prefix(_) => panic!("a prefix"),
                std::path::Component::RootDir => (ROOT_RANK, ""),
                std::path::Component::CurDir => (CURRENT_RANK, ""),
                std::path::Component::ParentDir => (PARENT_RANK, ""),
                std::path::Component::Normal(name) => (NAME_RANK, name.to_str().unwrap()),
            };
            PathPart { rank, name: name.to_string() }
        })
        .collect();
    DirectoryPath { text: text.to_string(), parts }
}

fn environment() -> LogEnvironment {
    LogEnvironment {
        program_files_x86: Some(directory("/x86")),
        program_files: Some(directory("/pf")),
        steam_compat_data: Some(directory("/compat")),
        user_profile: Some(directory("/user")),
        home: Some(directory("/home")),
    }
}

fn path_of(location: &LogLocation) -> std::path::PathBuf {
    std::path::Path::new(&location.root.text).join(location.relative())
}

#[test]
fn candidates_end_in_client_log() {
    assert!(candidate_log_paths(&environment())
        .iter()
        .all(|location| { path_of(location).file_name().is_some_and(|name| name == "Client.txt") }));
}

#[test]
fn recognizes_native_windows_and_truncated_proton_names() {
    for name in [
        "PathOfExile.exe",
        "PathOfExile_x64.exe",
        "PathOfExileSteam.exe",
        "PathOfExileSte",
    ] {
        assert!(is_poe_process_name(name), "did not recognize {name}");
    }
    assert!(!is_poe_process_name("poe-app"));
}

fn candidate_texts(environment: &LogEnvironment) -> Vec<String> {
    candidate_log_paths(environment).iter().map(|l| path_of(l).display().to_string()).collect()
}

#[test]
fn candidates_in_full() {
    let game = "Grinding Gear Games/Path of Exile/logs/Client.txt";
    let steam = "steamapps/common/Path of Exile/logs/Client.txt";
    let proton = "steamapps/compatdata/238960/pfx/drive_c/users/steamuser/Documents/My Games/Path of Exile/logs/Client.txt";
    let all = vec![
        format!("/compat/pfx/drive_c/Program Files (x86)/{game}"),
        format!("/home/.local/share/Steam/{steam}"),
        format!("/home/.local/share/Steam/{proton}"),
        format!("/home/.steam/steam/{steam}"),
        format!("/home/.steam/steam/{proton}"),
        format!("/home/.var/app/com.valvesoftware.Steam/.local/share/Steam/{steam}"),
        format!("/home/.var/app/com.valvesoftware.Steam/.local/share/Steam/{proton}"),
        format!("/pf/{game}"),
        "/user/Documents/My Games/Path of Exile/logs/Client.txt".to_string(),
        format!("/x86/{game}"),
        format!("/x86/Steam/{steam}"),
    ];
    assert_eq!(candidate_texts(&environment()), all);
    let common: Vec<String> = common_log_paths(&environment())
        .iter()
        .map(|l| path_of(l).display().to_string())
        .collect();
    assert_eq!(common, vec![all[9].clone(), all[0].clone()]);
    let nothing = LogEnvironment {
        program_files_x86: None,
        program_files: None,
        steam_compat_data: None,
        user_profile: None,
        home: None,
    };
    assert!(candidate_log_paths(&nothing).is_empty());
    assert!(common_log_paths(&nothing).is_empty());
}

#[test]
fn a_candidate_is_listed_once() {
    let twice = LogEnvironment {
        program_files_x86: Some(directory("/games/")),
        program_files: Some(directory("/games")),
        steam_compat_data: None,
        user_profile: None,
        home: None,
    };
    assert_eq!(
        candidate_texts(&twice),
        vec![
            "/games/Grinding Gear Games/Path of Exile/logs/Client.txt",
            "/games/Steam/steamapps/common/Path of Exile/logs/Client.txt",
        ]
    );
    assert_eq!(candidate_log_paths(&twice)[0].root.text, "/games/");
}

#[test]
fn paths_are_ordered_as_std_orders_them() {
    let texts = [
        "/b/c", "/a b/x", "/a/x", "/a/x/y", "/a//x", "b", "../a", "/", "", "./a", "/a/./x", "a",
        "/ä/x", "/a/X", "/a.b", "a/b", "/a/x",
    ];
    let locations: Vec<LogLocation> = texts
        .iter()
        .map(|t| LogLocation { root: directory(t), names: vec!["x".to_string(), "y".to_string()] })
        .collect();
    let mut expected: Vec<std::path::PathBuf> = locations.iter().map(path_of).collect();
    expected.sort();
    expected.dedup();
    let expected: Vec<String> = expected.iter().map(|p| p.display().to_string()).collect();
    let ordered: Vec<String> =
        order_locations(&locations).iter().map(|l| path_of(l).display().to_string()).collect();
    assert_eq!(ordered, expected);
}

#[test]
fn parts_are_ordered_by_rank_and_name() {
    let path = |parts: Vec<(u8, &str)>| -> Vec<PathPart> {
        parts.iter().map(|p| PathPart { rank: p.0, name: p.1.to_string() }).collect()
    };
    let disk = path(vec![(DISK_RANK, "C"), (ROOT_RANK, ""), (NAME_RANK, "a")]);
    let share = path(vec![(SHARE_RANK, "s"), (SHARE_RANK, "t"), (ROOT_RANK, "")]);
    assert_eq!(path_order(&share, &disk), PathOrder::Before);
    assert_eq!(path_order(&disk, &share), PathOrder::After);
    assert_eq!(path_order(&disk, &disk), PathOrder::Same);
    assert_eq!(path_order(&disk, &path(vec![(DISK_RANK, "C")])), PathOrder::After);
    assert_eq!(path_order(&path(vec![]), &disk), PathOrder::Before);
    assert_eq!(path_order(&path(vec![(DISK_RANK, "D")]), &disk), PathOrder::After);
}

#[test]
fn the_first_file_is_taken() {
    assert_eq!(discover_client_log(&vec![false, true, true]), Some(1));
    assert_eq!(discover_client_log(&vec![false]), None);
    assert_eq!(discover_client_log(&vec![]), None);
}

#[test]
fn names_of_processes() {
    assert!(is_poe_process_name("pathofexile"));
    assert!(is_poe_process_name("PATHOFEXILE_X"));
    assert!(!is_poe_process_name("pathofexil"));
    assert!(!is_poe_process_name("pathofexile2"));
    assert!(is_poe_process_name("pathofexile22"));
    assert!(is_poe_process_name("pathofexileä"));
    assert!(!is_poe_process_name("xpathofexile"));
    assert!(is_poe_running(&vec!["a".to_string(), "PathOfExile.exe".to_string()]));
    assert!(!is_poe_running(&vec!["a".to_string()]));
    assert!(!is_poe_running(&vec![]));
}

// ---------------------------------------------------------------- the session

fn event(seconds: i64, kind: EventKind, message: &str) -> GameEvent {
    GameEvent {
        occurred_at: EventTime { seconds, nanos: 0, offset: 0 },
        kind,
        message: message.to_string(),
    }
}

#[test]
fn a_session_begins() {
    let session = Companion::new("path".to_string());
    assert_eq!(session.page, Page::Dashboard);
    assert_eq!(session.filter, EventFilter::All);
    assert_eq!(session.log_path, "path");
    assert_eq!(session.status, "Choose your Client.txt file to begin");
    assert_eq!(session.ai_endpoint, "http://127.0.0.1:11434");
    assert_eq!(session.ai_model, "qwen3.5:2b");
    assert_eq!(session.ai_status, "Ollama is optional and runs locally");
    assert!(session.auto_connect && session.auto_overlay);
    assert!(!session.monitoring && !session.waiting && !session.game_running);
    assert!(!session.overlay_mode && !session.compact_mode);
    assert!(OllamaClient::new(&session.ai_endpoint).is_ok());
}

#[test]
fn titles_of_pages() {
    assert_eq!(Page::Dashboard.title(), "Session dashboard");
    assert_eq!(Page::Assistant.title(), "PoE assistant");
    assert_eq!(Page::Trade.title(), "Trade inbox");
    assert_eq!(Page::Tools.title(), "Companion tools");
    assert_eq!(Page::Settings.title(), "Settings");
}

#[test]
fn events_are_counted_and_remembered() {
    let mut session = Companion::new(String::new());
    for i in 0..(RECENT_EVENTS as i64 + 5) {
        session.collect(event(i, EventKind::AreaEntered, &i.to_string()));
    }
    session.collect(event(0, EventKind::Death, "d"));
    assert_eq!(session.recent.len(), 200);
    assert_eq!(session.recent[0].message, "d");
    assert_eq!(session.recent[1].message, "204");
    assert_eq!(session.recent[199].message, "6");
    assert_eq!(session.stats.areas, 205);
    assert_eq!(session.stats.deaths, 1);
}

#[test]
fn filters_show_events() {
    let mut session = Companion::new(String::new());
    session.collect(event(0, EventKind::AreaEntered, "a"));
    session.collect(event(1, EventKind::TradeWhisper, "t"));
    session.collect(event(2, EventKind::LevelUp, "l"));
    session.collect(event(3, EventKind::Death, "d"));
    session.collect(event(4, EventKind::Chat, "c"));
    assert_eq!(session.shown_events(EventFilter::All), vec![0, 1, 2, 3, 4]);
    assert_eq!(session.shown_events(EventFilter::Character), vec![1, 2]);
    assert_eq!(session.shown_events(EventFilter::Trades), vec![3]);
    assert_eq!(session.shown_events(EventFilter::Areas), vec![4]);
    session.filter = EventFilter::Areas;
    assert!(session.matches_filter(&event(0, EventKind::AreaEntered, "")));
    assert!(!session.matches_filter(&event(0, EventKind::Chat, "")));
}

#[test]
fn the_assistant_is_told_of_the_last_events() {
    let mut session = Companion::new(String::new());
    assert_eq!(
        session.client_context(),
        "No parsed Client.txt events are available for this session."
    );
    assert_eq!(session.context_size(), 0);
    session.collect(event(1, EventKind::AreaEntered, "The\nCoast"));
    session.collect(event(3_661, EventKind::Death, "x"));
    assert_eq!(
        session.client_context(),
        "00:00:01 | AreaEntered | The Coast\n01:01:01 | Death | x"
    );
    for i in 0..40 {
        session.collect(event(i, EventKind::Chat, &i.to_string()));
    }
    let context = session.client_context();
    assert_eq!(session.context_size(), 30);
    assert_eq!(context.split('\n').count(), 30);
    assert!(context.starts_with("00:00:10 | Chat | 10\n"));
    assert!(context.ends_with("00:00:39 | Chat | 39"));
}

#[test]
fn a_question_is_asked_and_answered() {
    let mut session = Companion::new(String::new());
    assert!(!session.can_ask());
    assert!(session.ask_ollama().is_none());
    session.ai_input = " why? ".to_string();
    session.ai_model = " m ".to_string();
    assert!(session.can_ask());
    let question = session.ask_ollama().unwrap();
    assert_eq!(question.endpoint, "http://127.0.0.1:11434");
    assert_eq!(question.model, "m");
    assert_eq!(
        question.messages,
        vec![
            ChatMessage::new("system", INSTRUCTIONS),
            ChatMessage::new("system", "Recent parsed Client.txt context:\n---\nNo parsed Client.txt events are available for this session.\n---"),
            ChatMessage::new("user", "why?"),
        ]
    );
    assert_eq!(session.ai_input, "");
    assert_eq!(session.ai_status, "Thinking with m…");
    session.ai_input = "again".to_string();
    assert!(session.ask_ollama().is_none());
    assert_eq!(session.last_answer(), None);
    session.collect_ai(Ok("because".to_string()));
    assert_eq!(session.last_answer(), Some("because"));
    assert_eq!(session.ai_status, "Answer generated locally");
    let question = session.ask_ollama().unwrap();
    assert_eq!(question.messages[2], ChatMessage::new("user", "why?"));
    assert_eq!(question.messages[3], ChatMessage::new("assistant", "because"));
    assert_eq!(question.messages[4], ChatMessage::new("user", "again"));
    session.collect_ai(Err("broken".to_string()));
    assert_eq!(session.ai_status, "broken");
    assert_eq!(session.last_answer(), Some("because"));
    assert!(!session.waiting);
}

#[test]
fn a_question_carries_eight_messages() {
    let mut session = Companion::new(String::new());
    for i in 0..12 {
        session.ai_messages.push(ChatMessage::new("user", &i.to_string()));
    }
    session.ai_input = "q".to_string();
    let question = session.ask_ollama().unwrap();
    assert_eq!(question.messages.len(), 11);
    assert_eq!(question.messages[2].content, "4");
    assert_eq!(question.messages[9].content, "11");
    assert_eq!(session.ai_messages.len(), 13);
}

#[test]
fn models_are_listed() {
    let models = vec!["a".to_string(), "b".to_string()];
    assert_eq!(check_model(&models, "b"), Ok(()));
    assert_eq!(
        check_model(&models, "c"),
        Err("Model 'c' is not installed yet. Run: ollama pull c".to_string())
    );
    let mut session = Companion::new(String::new());
    session.test_connection(Err("down".to_string()));
    assert_eq!(session.ai_status, "down");
    session.test_connection(Ok(vec![]));
    assert_eq!(session.ai_status, "Ollama is running, but no models are installed");
    assert_eq!(session.ai_model, DEFAULT_MODEL);
    session.test_connection(Ok(models.clone()));
    assert_eq!(session.ai_model, "a");
    assert_eq!(session.ai_status, "Connected — available: a, b");
    session.ai_model = "b".to_string();
    session.test_connection(Ok(models));
    assert_eq!(session.ai_model, "b");
}

#[test]
fn the_window_follows_the_running_game() {
    let mut session = Companion::new(String::new());
    assert_eq!(session.connection_label(), "◇ GAME CLOSED");
    assert_eq!(session.poll_game(false), WindowChange::Keep);
    assert_eq!(session.poll_game(true), WindowChange::Enter);
    assert!(session.overlay_mode && !session.compact_mode);
    assert_eq!(session.page, Page::Assistant);
    assert_eq!(session.status, "In-game overlay opened automatically");
    assert_eq!(session.connection_label(), "◆ POE 1 DETECTED");
    assert_eq!(session.poll_game(true), WindowChange::Keep);
    session.enter_compact_mode();
    assert!(session.overlay_mode && session.compact_mode);
    assert_eq!(session.poll_game(false), WindowChange::Leave);
    assert!(!session.overlay_mode && !session.compact_mode);
    assert_eq!(session.status, "Path of Exile closed — returned to dashboard");
    session.auto_overlay = false;
    assert_eq!(session.poll_game(true), WindowChange::Keep);
    assert!(session.game_running && !session.overlay_mode);
    session.enter_overlay();
    session.exit_overlay();
    assert!(!session.overlay_mode);
}

#[test]
fn the_log_is_chosen_and_followed() {
    let mut session = Companion::new(String::new());
    assert!(session.needs_log(true));
    session.found_log("p".to_string());
    assert_eq!(session.status, "Path of Exile client log detected automatically");
    assert!(!session.needs_log(true));
    assert!(session.needs_log(false));
    session.choose_log(" q ".to_string());
    assert_eq!(session.status, "Client log selected — ready to monitor");
    assert_eq!(session.log_file(), "q");
    assert!(session.starts_by_itself(true));
    assert!(!session.starts_by_itself(false));
    session.start(false);
    assert_eq!(session.status, "Client.txt was not found at that path");
    assert!(!session.monitoring);
    session.start(true);
    assert_eq!(session.status, "Listening for new client events");
    assert!(session.monitoring);
    assert!(!session.starts_by_itself(true));
    assert_eq!(session.connection_label(), "◆ CLIENT LOG CONNECTED");
    session.stop();
    assert!(!session.monitoring);
    session.start(true);
    session.stop_monitoring();
    assert_eq!(session.status, "Monitoring stopped");
    session.auto_connect = false;
    assert!(!session.starts_by_itself(true));
}

// ---------------------------------------------------------------- the window

#[test]
fn the_window_shows_a_session() {
    let mut session = Companion::new(String::new());
    assert!(session.shows_setup());
    assert_eq!(session.screen(), Screen::Full(Page::Dashboard));
    assert_eq!(session.window_buttons(), vec![WindowButton::InGame]);
    assert_eq!(session.monitor_button(), MonitorButton::Start);
    assert_eq!(session.monitor_label(), ("● OFFLINE", Accent::Muted));
    assert_eq!(session.connection_accent(), Accent::Muted);
    assert_eq!(session.game_label(), ("○ GAME", Accent::Muted));
    session.start(true);
    session.found_log("p".to_string());
    session.poll_game(true);
    assert!(!session.shows_setup());
    assert_eq!(session.screen(), Screen::Full(Page::Assistant));
    assert_eq!(session.window_buttons(), vec![WindowButton::LeaveGame, WindowButton::Mini]);
    assert_eq!(session.monitor_button(), MonitorButton::Stop);
    assert_eq!(session.monitor_label(), ("● LIVE", Accent::Success));
    assert_eq!(session.connection_accent(), Accent::Success);
    assert_eq!(session.game_label(), ("● GAME", Accent::Success));
    session.enter_compact_mode();
    assert_eq!(session.screen(), Screen::Compact);
}

#[test]
fn the_feed_shows_events() {
    let mut session = Companion::new(String::new());
    session.collect(event(1, EventKind::AreaEntered, "a"));
    session.collect(event(2, EventKind::TradeWhisper, "t"));
    session.collect(event(3, EventKind::Death, "d"));
    let shown = |lines: Vec<exile_companion::display::EventLine>| {
        lines
            .into_iter()
            .map(|l| (l.clock, l.kind, l.message, l.accent))
            .collect::<Vec<_>>()
    };
    assert_eq!(
        shown(session.feed()),
        vec![
            ("00:00:03".to_string(), "Death", "d".to_string(), Accent::Danger),
            ("00:00:02".to_string(), "TradeWhisper", "t".to_string(), Accent::Trade),
            ("00:00:01".to_string(), "AreaEntered", "a".to_string(), Accent::Gold),
        ]
    );
    assert_eq!(shown(session.trade_inbox()).len(), 1);
    session.filter = EventFilter::Areas;
    assert_eq!(shown(session.feed())[0].2, "a");
    assert_eq!(event_line(&event(0, EventKind::LevelUp, "")).accent, Accent::Success);
    assert_eq!(event_line(&event(0, EventKind::Chat, "")).accent, Accent::Muted);
    assert_eq!(event_line(&event(0, EventKind::System, "")).accent, Accent::Muted);
    let cards: Vec<(&str, u32, Accent)> =
        session.stat_cards().iter().map(|c| (c.label, c.value, c.accent)).collect();
    assert_eq!(
        cards,
        vec![
            ("AREAS VISITED", 1, Accent::Gold),
            ("LEVEL-UPS", 0, Accent::Success),
            ("DEATHS", 1, Accent::Danger),
            ("TRADE WHISPERS", 1, Accent::Trade),
        ]
    );
    assert_eq!(session.context_label(), "3 log events in context");
    assert_eq!(session.available_label(), "3 recent log events available");
}

#[test]
fn labels_of_the_window() {
    assert_eq!(speaker("user"), ("YOU", Accent::Gold));
    assert_eq!(speaker("assistant"), ("OLLAMA", Accent::Success));
    assert_eq!(storage_label(true), ("SQLite event history is available", Accent::Success));
    assert_eq!(storage_label(false), ("SQLite storage could not be opened", Accent::Danger));
}

#[test]
fn the_game_is_looked_for_every_two_seconds() {
    assert!(!Companion::game_check_is_due(0));
    assert!(!Companion::game_check_is_due(1_999));
    assert!(Companion::game_check_is_due(2_000));
    assert!(Companion::game_check_is_due(FIRST_CHECK_MILLIS));
}
