use mirishita_info_bot::callback_types::{encode_callback, BgStatus, CallbackType};
use mirishita_info_bot::cmd::list_characters::{
    card_page_reply, card_view_reply, category_members, category_name, find_idol_category, handler,
    respond_step_2, respond_step_3, respond_step_4, CardListStep, IdolCategory,
};
use mirishita_info_bot::constants::idol_name;
use mirishita_info_bot::matsurihi::{CardItem, Rarity};
use mirishita_info_bot::telegram::Reply;
use mirishita_info_bot::types::{BotError, MessageIdentifier};
use telegram_bot_raw::{InlineKeyboardButton, InlineKeyboardMarkup};

fn card(id: u32, name: &str, rarity: Rarity) -> CardItem {
    CardItem {
        id,
        name: name.to_string(),
        idol_id: 14,
        resource_id: format!("014mir{:04}", id),
        rarity,
        event_id: None,
        category: "normal".to_string(),
        extra_type: 0,
        costume: None,
        bonus_costume: None,
        rank5_costune: None,
        flavor_text: String::new(),
        flavor_text_awakened: String::new(),
        level_max: 1,
        level_max_awakened: 1,
        center_effect: None,
        center_effect_name: String::new(),
        skill: None,
        skill_name: String::new(),
        add_date: None,
    }
}

fn button(label: &str, cb: CallbackType) -> InlineKeyboardButton {
    InlineKeyboardButton::callback(label, encode_callback(&cb))
}

fn keyboard(rows: Vec<Vec<InlineKeyboardButton>>) -> InlineKeyboardMarkup {
    let mut k = InlineKeyboardMarkup::new();
    for r in rows {
        k.add_row(r);
    }
    k
}

fn msg() -> MessageIdentifier {
    MessageIdentifier::from_message(77, 88)
}

fn ic(card_id: u32, with_annotation: bool, with_plus: bool, bg: BgStatus) -> CallbackType {
    CallbackType::IdolCard { card_id, with_annotation, with_plus, bg }
}

#[test]
fn categories_and_members() {
    assert_eq!(category_members(&IdolCategory::NamukoPro), (1..=13).collect::<Vec<u32>>());
    assert_eq!(
        category_members(&IdolCategory::FairyStars),
        vec![15, 20, 25, 31, 33, 34, 38, 44, 46, 47, 49, 50, 51]
    );
    assert_eq!(category_name(&IdolCategory::NamukoPro), "765PRO Allstars");
    assert_eq!(category_name(&IdolCategory::AngelStars), "Angel Stars");
    assert_eq!(IdolCategory::PrincessStars.code(), 1);
    assert_eq!(IdolCategory::from_code(3), Some(IdolCategory::AngelStars));
    assert_eq!(IdolCategory::from_code(4), None);
}

#[test]
fn every_named_idol_has_one_group() {
    for id in 1..=52u32 {
        let c = find_idol_category(&id).unwrap();
        assert!(category_members(&c).contains(&id));
        assert!(idol_name(id).is_some());
    }
    assert_eq!(find_idol_category(&14), Ok(IdolCategory::PrincessStars));
    assert_eq!(find_idol_category(&0), Err(BotError::IdolNotFound));
    assert_eq!(find_idol_category(&53), Err(BotError::IdolNotFound));
}

#[test]
fn first_menu_lists_the_groups() {
    match handler(msg()) {
        Reply::SendMessage { chat, text, parse_mode, reply_to, keyboard: Some(kb) } => {
            assert_eq!(chat, 88);
            assert_eq!(text, "Select a group...");
            assert!(parse_mode.is_none());
            assert_eq!(reply_to, Some(77));
            let expected = keyboard(
                [
                    IdolCategory::NamukoPro,
                    IdolCategory::PrincessStars,
                    IdolCategory::FairyStars,
                    IdolCategory::AngelStars,
                ]
                .iter()
                .map(|c| {
                    vec![button(
                        category_name(c),
                        CallbackType::ListIdolCategory { category: *c, force_new_msg: true },
                    )]
                })
                .collect(),
            );
            assert_eq!(kb, expected);
            assert_eq!(
                serde_json::to_string(&kb).unwrap(),
                "{\"inline_keyboard\":[[{\"text\":\"765PRO Allstars\",\"callback_data\":\"{\\\"LIC\\\":{\\\"c\\\":0,\\\"f\\\":true}}\"}],[{\"text\":\"Princess Stars\",\"callback_data\":\"{\\\"LIC\\\":{\\\"c\\\":1,\\\"f\\\":true}}\"}],[{\"text\":\"Fairy Stars\",\"callback_data\":\"{\\\"LIC\\\":{\\\"c\\\":2,\\\"f\\\":true}}\"}],[{\"text\":\"Angel Stars\",\"callback_data\":\"{\\\"LIC\\\":{\\\"c\\\":3,\\\"f\\\":true}}\"}]]}"
            );
        }
        _ => panic!("not a message with a keyboard"),
    }
}

fn idol_rows(members: &[u32]) -> InlineKeyboardMarkup {
    keyboard(
        members
            .chunks(3)
            .map(|ch| {
                ch.iter()
                    .map(|i| {
                        button(idol_name(*i).unwrap(), CallbackType::ListIdol { idol_id: *i, page_id: 1 })
                    })
                    .collect()
            })
            .collect(),
    )
}

#[test]
fn step_2_lists_the_idols_three_a_row() {
    let members = category_members(&IdolCategory::FairyStars);
    match respond_step_2(IdolCategory::FairyStars, false, msg()) {
        Reply::EditMessageText { chat, message_id, text, keyboard } => {
            assert_eq!(chat, 88);
            assert_eq!(message_id, 77);
            assert_eq!(text, "You've selected: Fairy Stars\nNow select an idol...");
            assert_eq!(keyboard, idol_rows(&members));
        }
        _ => panic!("not an edit"),
    }
    match respond_step_2(IdolCategory::NamukoPro, true, msg()) {
        Reply::SendMessage { chat, text, reply_to, keyboard: Some(kb), .. } => {
            assert_eq!(chat, 88);
            assert_eq!(reply_to, Some(77));
            assert_eq!(text, "You've selected: 765PRO Allstars\nNow select an idol...");
            assert_eq!(kb, idol_rows(&category_members(&IdolCategory::NamukoPro)));
        }
        _ => panic!("not a new message"),
    }
}

#[test]
fn step_3_checks() {
    let cards = twelve_cards();
    assert!(matches!(respond_step_3(14, 0, msg(), None), Err(BotError::BadPageId)));
    assert!(matches!(respond_step_3(14, 0, msg(), Some(&cards)), Err(BotError::BadPageId)));
    assert!(matches!(respond_step_3(99, 1, msg(), None), Ok(CardListStep::Done)));
    assert!(matches!(respond_step_3(0, 1, msg(), Some(&cards)), Ok(CardListStep::Done)));
    assert!(matches!(respond_step_3(14, 1, msg(), None), Ok(CardListStep::NeedCards)));
    match respond_step_3(14, 2, msg(), Some(&cards)) {
        Ok(CardListStep::Send(Reply::EditMessageText { text, .. })) => {
            assert_eq!(text, "Showing cards of 春日未来...\nPage 2 / 2")
        }
        _ => panic!("not a page"),
    }
}

fn twelve_cards() -> Vec<CardItem> {
    (1..=12)
        .map(|i| card(i, &format!("Card{}", i), if i % 4 == 0 { Rarity::SSR } else { Rarity::R }))
        .collect()
}

fn card_row(c: &CardItem) -> Vec<InlineKeyboardButton> {
    let bg = if c.rarity == Rarity::SSR { BgStatus::No } else { BgStatus::Unset };
    vec![button(&format!("{} [{}]", c.name, c.rarity.as_str()), ic(c.id, true, true, bg))]
}

#[test]
fn step_3_first_page() {
    let cards = twelve_cards();
    match card_page_reply(14, 1, msg(), &cards) {
        Reply::EditMessageText { chat, message_id, text, keyboard: kb } => {
            assert_eq!(chat, 88);
            assert_eq!(message_id, 77);
            assert_eq!(text, "Showing cards of 春日未来...\nPage 1 / 2");
            let mut rows: Vec<Vec<InlineKeyboardButton>> = cards[..10].iter().map(card_row).collect();
            rows.push(vec![
                button(
                    "Up",
                    CallbackType::ListIdolCategory {
                        category: IdolCategory::PrincessStars,
                        force_new_msg: false,
                    },
                ),
                button("Next", CallbackType::ListIdol { idol_id: 14, page_id: 2 }),
            ]);
            assert_eq!(kb, keyboard(rows));
        }
        _ => panic!("not an edit"),
    }
}

#[test]
fn step_3_last_page() {
    let cards = twelve_cards();
    match card_page_reply(14, 2, msg(), &cards) {
        Reply::EditMessageText { text, keyboard: kb, .. } => {
            assert_eq!(text, "Showing cards of 春日未来...\nPage 2 / 2");
            let mut rows: Vec<Vec<InlineKeyboardButton>> = cards[10..].iter().map(card_row).collect();
            rows.push(vec![
                button("Prev", CallbackType::ListIdol { idol_id: 14, page_id: 1 }),
                button(
                    "Up",
                    CallbackType::ListIdolCategory {
                        category: IdolCategory::PrincessStars,
                        force_new_msg: false,
                    },
                ),
            ]);
            assert_eq!(kb, keyboard(rows));
        }
        _ => panic!("not an edit"),
    }
}

#[test]
fn step_3_page_past_the_end() {
    let cards = twelve_cards();
    match card_page_reply(14, 5, msg(), &cards) {
        Reply::EditMessageText { text, keyboard: kb, .. } => {
            assert_eq!(text, "Showing cards of 春日未来...\nPage 5 / 2");
            let rows = vec![vec![
                button("Prev", CallbackType::ListIdol { idol_id: 14, page_id: 4 }),
                button(
                    "Up",
                    CallbackType::ListIdolCategory {
                        category: IdolCategory::PrincessStars,
                        force_new_msg: false,
                    },
                ),
            ]];
            assert_eq!(kb, keyboard(rows));
        }
        _ => panic!("not an edit"),
    }
}

#[test]
fn step_3_exact_pages() {
    let cards: Vec<CardItem> = twelve_cards().into_iter().take(10).collect();
    match card_page_reply(14, 1, msg(), &cards) {
        Reply::EditMessageText { text, keyboard: kb, .. } => {
            assert_eq!(text, "Showing cards of 春日未来...\nPage 1 / 1");
            let json = serde_json::to_string(&kb).unwrap();
            assert!(!json.contains("Next"));
            assert!(!json.contains("Prev"));
        }
        _ => panic!("not an edit"),
    }
    match card_page_reply(14, 1, msg(), &vec![]) {
        Reply::EditMessageText { text, .. } => {
            assert_eq!(text, "Showing cards of 春日未来...\nPage 1 / 0")
        }
        _ => panic!("not an edit"),
    }
}

#[test]
fn step_4_ssr_card_starts_without_background() {
    let c = card(123, "Shining", Rarity::SSR);
    match card_view_reply(123, true, true, BgStatus::Unset, msg(), false, &c) {
        Reply::SendPhoto { chat, photo, caption, keyboard: Some(kb) } => {
            assert_eq!(chat, 88);
            assert_eq!(photo, "https://storage.matsurihi.me/mltd/card/014mir0123_1_a.png");
            assert_eq!(caption, "Shining [SSR+]\n(Use \"/card 123\" to check the card)");
            let expected = keyboard(vec![
                vec![
                    button("Toggle SSR/SSR+", ic(123, true, false, BgStatus::No)),
                    button("Toggle annotation", ic(123, false, true, BgStatus::No)),
                ],
                vec![button("Toggle background", ic(123, false, true, BgStatus::Yes))],
            ]);
            assert_eq!(kb, expected);
        }
        _ => panic!("not a photo"),
    }
}

#[test]
fn step_4_background_shown_in_place() {
    let c = card(9, "Bright", Rarity::SSR);
    match card_view_reply(9, false, false, BgStatus::Yes, msg(), true, &c) {
        Reply::EditMessageMedia { chat, message_id, photo, caption, keyboard: kb } => {
            assert_eq!(chat, 88);
            assert_eq!(message_id, 77);
            assert_eq!(photo, "https://storage.matsurihi.me/mltd/card_bg/014mir0009_0.png");
            assert_eq!(caption, "Bright [SSR]\n(Use \"/card 9\" to check the card)");
            let expected = keyboard(vec![vec![
                button("Toggle SSR/SSR+", ic(9, false, true, BgStatus::Yes)),
                button("Toggle background", ic(9, true, false, BgStatus::No)),
            ]]);
            assert_eq!(kb, expected);
        }
        _ => panic!("not a media edit"),
    }
}

#[test]
fn step_4_card_without_background() {
    let c = card(4, "Plain", Rarity::N);
    match card_view_reply(4, true, false, BgStatus::Unset, msg(), true, &c) {
        Reply::EditMessageMedia { photo, caption, keyboard: kb, .. } => {
            assert_eq!(photo, "https://storage.matsurihi.me/mltd/card/014mir0004_0_a.png");
            assert_eq!(caption, "Plain [N]\n(Use \"/card 4\" to check the card)");
            let expected = keyboard(vec![vec![
                button("Toggle N/N+", ic(4, true, true, BgStatus::Unset)),
                button("Toggle annotation", ic(4, false, false, BgStatus::Unset)),
            ]]);
            assert_eq!(kb, expected);
        }
        _ => panic!("not a media edit"),
    }
}

#[test]
fn every_card_is_on_its_page() {
    let cards: Vec<CardItem> = (1..=25).map(|i| card(i, "c", Rarity::R)).collect();
    for (i, c) in cards.iter().enumerate() {
        let page = (i / 10 + 1) as u32;
        match card_page_reply(14, page, msg(), &cards) {
            Reply::EditMessageText { keyboard: kb, .. } => {
                let json = serde_json::to_string(&kb).unwrap();
                let data = encode_callback(&ic(c.id, true, true, BgStatus::Unset));
                assert!(json.contains(&serde_json::to_string(&data).unwrap()));
            }
            _ => panic!("not an edit"),
        }
    }
}

fn button_data(kb: &InlineKeyboardMarkup, label: &str) -> Option<String> {
    let v = serde_json::to_value(kb).unwrap();
    for row in v["inline_keyboard"].as_array().unwrap() {
        for b in row.as_array().unwrap() {
            if b["text"] == label {
                return Some(b["callback_data"].as_str().unwrap().to_string());
            }
        }
    }
    None
}

fn step_4_keyboard(cb: CallbackType, c: &CardItem) -> InlineKeyboardMarkup {
    match cb {
        CallbackType::IdolCard { card_id, with_annotation, with_plus, bg } => {
            match card_view_reply(card_id, with_annotation, with_plus, bg, msg(), true, c) {
                Reply::EditMessageMedia { keyboard, .. } => keyboard,
                _ => panic!("not a media edit"),
            }
        }
        _ => panic!("not a card"),
    }
}

#[test]
fn toggle_buttons_lead_back() {
    let c = card(123, "Shining", Rarity::SSR);
    let start = ic(123, true, true, BgStatus::No);
    let kb = step_4_keyboard(start, &c);
    let toggles = [
        ("Toggle SSR/SSR+", ic(123, true, false, BgStatus::No)),
        ("Toggle annotation", ic(123, false, true, BgStatus::No)),
        ("Toggle background", ic(123, false, true, BgStatus::Yes)),
    ];
    for (label, next) in toggles {
        assert_eq!(button_data(&kb, label).unwrap(), encode_callback(&next), "{}", label);
        let back = button_data(&step_4_keyboard(next, &c), label).unwrap();
        assert_eq!(back, encode_callback(&start), "{}", label);
    }
}

#[test]
fn step_4_fetched_card() {
    let c = card(4, "Plain", Rarity::N);
    assert!(matches!(
        respond_step_4(4, true, true, BgStatus::Unset, msg(), false, vec![]),
        Err(BotError::NoCardFound)
    ));
    match respond_step_4(4, true, true, BgStatus::Unset, msg(), false, vec![c, card(5, "Other", Rarity::R)]) {
        Ok(Reply::SendPhoto { photo, caption, keyboard: Some(_), .. }) => {
            assert_eq!(photo, "https://storage.matsurihi.me/mltd/card/014mir0004_1_a.png");
            assert_eq!(caption, "Plain [N+]\n(Use \"/card 4\" to check the card)");
        }
        _ => panic!("not a new photo"),
    }
}
