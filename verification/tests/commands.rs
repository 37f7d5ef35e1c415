use mirishita_info_bot::callback_types::{BgStatus, CallbackType};
use mirishita_info_bot::cmd::card::{handler as card_handler, random_card_reply, CardCommand};
use mirishita_info_bot::cmd::curr_borders::handler as curr_borders_handler;
use mirishita_info_bot::cmd::curr_event::handler as curr_event_handler;
use mirishita_info_bot::cmd::last_borders::{
    event_reply, event_text, handler as last_borders_handler, last_something, lookup_event,
    lookup_with_all, lookup_with_current, no_current_event, send_event_data, EventFetched,
    EventLookup, EventQuery, EventStep,
};
use mirishita_info_bot::cmd::last_event::handler as last_event_handler;
use mirishita_info_bot::cmd::list_characters::IdolCategory;
use mirishita_info_bot::handler::{
    bad_usage_reply, callback_answer, handle_callback, handler_callback, handler_text,
    not_found_reply, ping_reply, text_command, CallbackPlan, CallbackStep, TextAction, TextCommand,
};
use mirishita_info_bot::matsurihi::{
    CardItem, Event, EventBorderView, EventSchedule, PointMetrics, Rarity, ScoreItem, Timestamp,
};
use mirishita_info_bot::telegram::{ParseMode, Reply};
use mirishita_info_bot::types::{BotError, MessageIdentifier};

fn ts(secs: i64) -> Timestamp {
    Timestamp::new(secs, 0).unwrap()
}

fn event(id: u32, name: &str, begin: i64, end: i64) -> Event {
    Event {
        id,
        name: name.to_string(),
        typ: 3,
        schedule: EventSchedule {
            begin_date: ts(begin),
            end_date: ts(end),
            page_begin_date: ts(begin),
            page_end_date: ts(end),
            boost_begin_date: None,
            boost_end_date: None,
        },
    }
}

fn metrics(scores: Vec<ScoreItem>, count: u32) -> PointMetrics {
    PointMetrics { scores, summary_time: ts(1431648000), count }
}

fn score(rank: u32, s: Option<&str>) -> ScoreItem {
    ScoreItem { rank, score: s.map(|x| x.to_string()) }
}

fn borders() -> EventBorderView {
    EventBorderView {
        event_point: metrics(
            vec![score(1, Some("12345")), score(2, Some("678")), score(3, None), score(4, Some("9"))],
            100,
        ),
        high_score: metrics(vec![], 0),
        lounge_point: metrics(vec![], 0),
    }
}

fn query(with_border: bool, event: i32) -> EventQuery {
    EventQuery { with_border, event }
}

fn msg() -> MessageIdentifier {
    MessageIdentifier::from_message(11, 22)
}

fn text_of(r: &Reply) -> String {
    match r {
        Reply::SendMessage { text, .. } => text.clone(),
        _ => panic!("not a text message"),
    }
}

#[test]
fn text_command_classifies_commands() {
    assert_eq!(text_command("  /ping  "), TextCommand::Ping);
    assert_eq!(text_command("/last_event 3"), TextCommand::LastEvent);
    assert_eq!(text_command("/last_borders 5"), TextCommand::LastBorders);
    assert_eq!(text_command("/last_borders"), TextCommand::LastBorders);
    assert_eq!(text_command("/curr_event"), TextCommand::CurrEvent);
    assert_eq!(text_command("/curr_borders"), TextCommand::CurrBorders);
    assert_eq!(text_command("/card 12"), TextCommand::Card);
    assert_eq!(text_command("/cardigan"), TextCommand::Card);
    assert_eq!(text_command("/list_characters"), TextCommand::ListCharacters);
    assert_eq!(text_command("hello"), TextCommand::NotFound);
    assert_eq!(text_command(""), TextCommand::NotFound);
}

#[test]
fn handler_text_actions() {
    match handler_text(" /ping ", msg()) {
        TextAction::Send(r) => assert_eq!(text_of(&r), "Hi\\!"),
        _ => panic!("not a reply"),
    }
    assert!(matches!(
        handler_text("/last_borders 3", msg()),
        TextAction::Event(EventQuery { with_border: true, event: 3 })
    ));
    assert!(matches!(
        handler_text("/last_event", msg()),
        TextAction::Event(EventQuery { with_border: false, event: -1 })
    ));
    assert!(matches!(
        handler_text("/curr_borders", msg()),
        TextAction::Event(EventQuery { with_border: true, event: 0 })
    ));
    assert!(matches!(
        handler_text("/curr_event", msg()),
        TextAction::Event(EventQuery { with_border: false, event: 0 })
    ));
    assert!(matches!(
        handler_text("/card 7", msg()),
        TextAction::Card(CardCommand::ShowCard { card_id: 7, .. })
    ));
    match handler_text("/list_characters", msg()) {
        TextAction::Send(Reply::SendMessage { chat, text, reply_to, .. }) => {
            assert_eq!(chat, 22);
            assert_eq!(text, "Select a group...");
            assert_eq!(reply_to, Some(11));
        }
        _ => panic!("not the menu"),
    }
    match handler_text("/nope_x", msg()) {
        TextAction::Send(r) => assert_eq!(text_of(&r), "Command not found: /nope\\_x"),
        _ => panic!("not a reply"),
    }
}

#[test]
fn replies_to_ping_and_unknown_commands() {
    match ping_reply(9) {
        Reply::SendMessage { chat, text, parse_mode, .. } => {
            assert_eq!(chat, 9);
            assert_eq!(text, "Hi\\!");
            assert_eq!(parse_mode, Some(ParseMode::MarkdownV2));
        }
        _ => panic!("not a text message"),
    }
    match bad_usage_reply(9) {
        Reply::SendMessage { text, .. } => assert_eq!(text, "Bad command usage"),
        _ => panic!("not a text message"),
    }
    match not_found_reply("  /foo_bar  ", 9) {
        Reply::SendMessage { chat, text, .. } => {
            assert_eq!(chat, 9);
            assert_eq!(text, "Command not found: /foo\\_bar");
        }
        _ => panic!("not a text message"),
    }
}

#[test]
fn card_command_arguments() {
    assert!(matches!(
        card_handler("/card 12", msg()),
        CardCommand::ShowCard {
            card_id: 12,
            with_annotation: true,
            with_plus: true,
            bg: BgStatus::Unset,
            photo_editable: false
        }
    ));
    assert!(matches!(card_handler("  /card +7 ", msg()), CardCommand::ShowCard { card_id: 7, .. }));
    assert!(matches!(card_handler("/card", msg()), CardCommand::RandomCard { idol_id: None }));
    assert!(matches!(
        card_handler("/card 天海春香", msg()),
        CardCommand::RandomCard { idol_id: Some(1) }
    ));
    assert!(matches!(
        card_handler("/card 春日未来", msg()),
        CardCommand::RandomCard { idol_id: Some(14) }
    ));
    for bad in ["/card a b", "/card  12"] {
        match card_handler(bad, msg()) {
            CardCommand::Send(r) => assert_eq!(text_of(&r), "Bad command usage"),
            _ => panic!("not bad usage"),
        }
    }
    match card_handler("/card 001har0012", msg()) {
        CardCommand::Send(Reply::SendPhoto { chat, photo, caption, keyboard }) => {
            assert_eq!(chat, 22);
            assert_eq!(photo, "https://storage.matsurihi.me/mltd/card/001har0012_1_a.png");
            assert_eq!(caption, photo);
            assert!(keyboard.is_none());
        }
        _ => panic!("not a picture"),
    }
}

fn card(id: u32, name: &str) -> CardItem {
    CardItem {
        id,
        name: name.to_string(),
        idol_id: 1,
        resource_id: format!("res{}", id),
        rarity: Rarity::SR,
        event_id: None,
        category: "normal".to_string(),
        extra_type: 0,
        costume: None,
        bonus_costume: None,
        rank5_costune: None,
        flavor_text: String::new(),
        flavor_text_awakened: String::new(),
        level_max: 1,
        level_max_awakened: 1,
        center_effect: None,
        center_effect_name: String::new(),
        skill: None,
        skill_name: String::new(),
        add_date: None,
    }
}

#[test]
fn random_card_is_the_drawn_one() {
    let cards = vec![card(5, "a"), card(6, "b"), card(7, "c")];
    for (draw, id) in [(0u64, 5u32), (1, 6), (5, 7), (u64::MAX, 5)] {
        match random_card_reply(&cards, draw, msg()) {
            Ok(Reply::SendPhoto { chat, caption, photo, keyboard: Some(_) }) => {
                assert_eq!(chat, 22);
                assert!(caption.contains(&format!("\"/card {}\"", id)));
                assert_eq!(photo, format!("https://storage.matsurihi.me/mltd/card/res{}_1_a.png", id));
            }
            _ => panic!("not a new photo"),
        }
    }
    assert!(matches!(random_card_reply(&vec![], 3, msg()), Err(BotError::NoCardFound)));
}

#[test]
fn event_command_arguments() {
    assert_eq!(last_borders_handler("/last_borders"), query(true, -1));
    assert_eq!(last_borders_handler("/last_borders -1"), query(true, -1));
    assert_eq!(last_borders_handler("/last_borders 0"), query(true, 0));
    assert_eq!(last_borders_handler("/last_borders 3"), query(true, 3));
    assert_eq!(last_borders_handler("/last_borders -2"), query(true, -2));
    assert_eq!(last_borders_handler("/last_borders abc"), query(true, -1));
    assert_eq!(last_borders_handler("/last_borders 3 4"), query(true, 3));
    assert_eq!(last_event_handler("/last_event 5"), query(false, 5));
    assert_eq!(last_event_handler("/last_event"), query(false, -1));
    assert_eq!(last_something("/x 2147483648", false), query(false, -1));
    assert_eq!(curr_event_handler(), query(false, 0));
    assert_eq!(curr_borders_handler(), query(true, 0));
}

#[test]
fn no_argument_is_the_same_as_minus_one() {
    assert_eq!(last_borders_handler("/last_borders"), last_borders_handler("/last_borders -1"));
    assert_eq!(last_event_handler("/last_event"), last_event_handler("/last_event -1"));
}

#[test]
fn lookup_of_the_requested_event() {
    assert_eq!(lookup_event(3), EventLookup::Found(3));
    assert_eq!(lookup_event(0), EventLookup::NeedCurrentIds);
    assert_eq!(lookup_event(-2), EventLookup::NeedCurrentIds);
    assert_eq!(lookup_with_current(0, &vec![]), EventLookup::NoCurrentEvent);
    assert_eq!(lookup_with_current(-1, &vec![]), EventLookup::NeedAllEvents);
    assert_eq!(lookup_with_current(0, &vec![170, 172, 171]), EventLookup::Found(172));
    assert_eq!(lookup_with_current(-1, &vec![172, 170]), EventLookup::Found(171));
    let events: Vec<Event> = (1..=5).map(|i| event(i, "e", 0, 1)).collect();
    assert_eq!(lookup_with_all(-1, &events), 5);
    assert_eq!(lookup_with_all(-2, &events), 4);
    assert_eq!(lookup_with_all(-1, &vec![]), 0);
    let unordered = vec![event(3, "c", 0, 1), event(9, "i", 0, 1), event(4, "d", 0, 1)];
    assert_eq!(lookup_with_all(-1, &unordered), 9);
}

#[test]
fn event_text_without_metrics() {
    let e = event(3, "Test", 0, 1);
    assert_eq!(event_text(3, Some(&e), None, false, 3), "<b>Test</b> (#3)\nNo metrics available");
    assert_eq!(event_text(3, None, None, false, 3), "Event not found!");
    assert_eq!(no_current_event(), "No current event!");
}

#[test]
fn event_text_with_borders() {
    let e = event(42, "Tour", 0, 1);
    let b = borders();
    assert_eq!(
        event_text(42, Some(&e), Some(&b), true, -1),
        "<b>Tour</b> (#42)\nUpdated: 2015-05-15 09:00:00 +09:00\nRank #1: 12345\nRank #2: 678\nParticipants: 100\n"
    );
}

#[test]
fn event_text_suggests_the_borders_command() {
    let e = event(42, "Tour", 0, 1);
    let b = borders();
    assert_eq!(
        event_text(42, Some(&e), Some(&b), false, 0),
        "<b>Tour</b> (#42)\nUpdated: 2015-05-15 09:00:00 +09:00\nParticipants: 100\n<i>For score borders, use /curr_borders</i>"
    );
    assert_eq!(
        event_text(42, Some(&e), Some(&b), false, -1),
        "<b>Tour</b> (#42)\nUpdated: 2015-05-15 09:00:00 +09:00\nParticipants: 100\n<i>For score borders, use /last_borders 42</i>"
    );
    assert_eq!(text_command("/curr_borders"), TextCommand::CurrBorders);
    assert_eq!(text_command("/last_borders 42"), TextCommand::LastBorders);
    assert_eq!(last_borders_handler("/last_borders 42"), query(true, 42));
}

#[test]
fn event_reply_answers_in_html() {
    match event_reply("<b>x</b>".to_string(), msg()) {
        Reply::SendMessage { chat, text, parse_mode, reply_to, keyboard } => {
            assert_eq!(chat, 22);
            assert_eq!(text, "<b>x</b>");
            assert_eq!(parse_mode, Some(ParseMode::Html));
            assert_eq!(reply_to, Some(11));
            assert!(keyboard.is_none());
        }
        _ => panic!("not a text message"),
    }
}

fn nothing_fetched() -> EventFetched {
    EventFetched { current_ids: None, all_events: None, event: None, borders: None }
}

#[test]
fn send_event_data_for_a_number() {
    let q = query(true, 3);
    let mut f = nothing_fetched();
    assert!(matches!(send_event_data(q, msg(), &f), EventStep::NeedEvent(3)));
    f.event = Some(Some(event(3, "Tour", 0, 1)));
    assert!(matches!(send_event_data(q, msg(), &f), EventStep::NeedBorders(3)));
    f.borders = Some(Some(borders()));
    match send_event_data(q, msg(), &f) {
        EventStep::Send(r) => assert_eq!(
            text_of(&r),
            "<b>Tour</b> (#3)\nUpdated: 2015-05-15 09:00:00 +09:00\nRank #1: 12345\nRank #2: 678\nParticipants: 100\n"
        ),
        _ => panic!("not a reply"),
    }
}

#[test]
fn send_event_data_for_the_current_event() {
    let q = query(false, 0);
    let mut f = nothing_fetched();
    assert!(matches!(send_event_data(q, msg(), &f), EventStep::NeedCurrentIds));
    f.current_ids = Some(vec![]);
    match send_event_data(q, msg(), &f) {
        EventStep::Send(r) => assert_eq!(text_of(&r), "No current event!"),
        _ => panic!("not a reply"),
    }
    f.current_ids = Some(vec![170, 172]);
    assert!(matches!(send_event_data(q, msg(), &f), EventStep::NeedEvent(172)));
    f.event = Some(None);
    match send_event_data(q, msg(), &f) {
        EventStep::Send(r) => assert_eq!(text_of(&r), "Event not found!"),
        _ => panic!("not a reply"),
    }
    f.event = Some(Some(event(172, "Now", 0, 1)));
    f.borders = Some(None);
    match send_event_data(q, msg(), &f) {
        EventStep::Send(r) => assert_eq!(text_of(&r), "<b>Now</b> (#172)\nNo metrics available"),
        _ => panic!("not a reply"),
    }
}

#[test]
fn send_event_data_counting_back() {
    let mut f = nothing_fetched();
    f.current_ids = Some(vec![]);
    assert!(matches!(send_event_data(query(false, -1), msg(), &f), EventStep::NeedAllEvents));
    f.all_events = Some((1..=5).map(|i| event(i, "e", 0, 1)).collect());
    assert!(matches!(send_event_data(query(false, -1), msg(), &f), EventStep::NeedEvent(5)));
    assert!(matches!(send_event_data(query(false, -2), msg(), &f), EventStep::NeedEvent(4)));
    let mut g = nothing_fetched();
    g.current_ids = Some(vec![9]);
    assert!(matches!(send_event_data(query(true, -1), msg(), &g), EventStep::NeedEvent(8)));
    assert!(matches!(send_event_data(query(true, -2), msg(), &g), EventStep::NeedEvent(7)));
}

#[test]
fn handle_callback_steps() {
    assert!(matches!(handle_callback("q".to_string(), None, true), CallbackStep::Ignore));
    match handle_callback("q".to_string(), Some(None), true) {
        CallbackStep::Answer(a) => {
            assert_eq!(a.callback_query_id, "q");
            assert_eq!(
                a.text.as_deref(),
                Some("Cannot extract intent. Please start again from the commands.")
            );
            assert!(a.show_alert);
        }
        _ => panic!("not an answer"),
    }
    let cb = CallbackType::ListIdol { idol_id: 14, page_id: 2 };
    match handle_callback("q".to_string(), Some(Some(cb)), false) {
        CallbackStep::Answer(a) => {
            assert_eq!(a.text.as_deref(), Some("Cannot find original message or chat."));
            assert!(!a.show_alert);
        }
        _ => panic!("not an answer"),
    }
    match handle_callback("q".to_string(), Some(Some(cb)), true) {
        CallbackStep::Run(c) => assert_eq!(c, cb),
        _ => panic!("not run"),
    }
}

#[test]
fn callback_answers() {
    let a = callback_answer("id".to_string(), Some("Bad page_id".to_string()));
    assert_eq!(a.callback_query_id, "id");
    assert_eq!(a.text.as_deref(), Some("Bad page_id"));
    assert!(a.show_alert);
    let a = callback_answer("id".to_string(), None);
    assert!(a.text.is_none());
    assert!(!a.show_alert);
}

#[test]
fn handler_callback_plans() {
    let m = MessageIdentifier::from_message(1, 2);
    assert!(matches!(
        handler_callback(CallbackType::ListIdol { idol_id: 14, page_id: 0 }, m),
        Err(BotError::BadPageId)
    ));
    assert!(matches!(
        handler_callback(CallbackType::ListIdol { idol_id: 99, page_id: 1 }, m),
        Ok(CallbackPlan::Done)
    ));
    assert!(matches!(
        handler_callback(CallbackType::ListIdol { idol_id: 14, page_id: 2 }, m),
        Ok(CallbackPlan::ListCards { idol_id: 14, page_id: 2 })
    ));
    assert!(matches!(
        handler_callback(
            CallbackType::IdolCard { card_id: 5, with_annotation: true, with_plus: false, bg: BgStatus::Yes },
            m
        ),
        Ok(CallbackPlan::ShowCard { card_id: 5, with_annotation: true, with_plus: false, bg: BgStatus::Yes })
    ));
    match handler_callback(
        CallbackType::ListIdolCategory { category: IdolCategory::FairyStars, force_new_msg: false },
        m,
    ) {
        Ok(CallbackPlan::Send(Reply::EditMessageText { chat, message_id, text, .. })) => {
            assert_eq!(chat, 2);
            assert_eq!(message_id, 1);
            assert_eq!(text, "You've selected: Fairy Stars\nNow select an idol...");
        }
        _ => panic!("not an edit"),
    }
}
