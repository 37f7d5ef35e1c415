use mirishita_info_bot::constants::{event_type_name, idol_name, PAGE_SIZE};
use mirishita_info_bot::telegram::{
    add_row, api_url, callback_button, new_keyboard, respond_img, respond_text, ParseMode, Reply,
};
use mirishita_info_bot::text::{
    chars_of, copy_range, parse_i32, parse_u32, push_decimal, split_spaces_of,
    trim, white_space,
};
use mirishita_info_bot::types::{BotError, MessageIdentifier};
use mirishita_info_bot::utils::{escape, markdown_special};
use telegram_bot_raw::{InlineKeyboardButton, InlineKeyboardMarkup};

fn chars(s: &str) -> Vec<char> {
    s.chars().collect()
}

fn text(v: &[char]) -> String {
    v.iter().collect()
}

#[test]
fn escape_marks_each_special_character() {
    assert_eq!(escape("Hi!"), "Hi\\!");
    assert_eq!(escape("a_b.c"), "a\\_b\\.c");
    assert_eq!(
        escape("_*[]()~`>#+-=|{}.!"),
        "\\_\\*\\[\\]\\(\\)\\~\\`\\>\\#\\+\\-\\=\\|\\{\\}\\.\\!"
    );
    assert_eq!(escape("*a*(b)"), "\\*a\\*\\(b\\)");
}

#[test]
fn escape_leaves_other_characters() {
    assert_eq!(escape(""), "");
    assert_eq!(escape("\\ abc 天海春香 :;,?"), "\\ abc 天海春香 :;,?");
}

#[test]
fn escape_matches_chained_replace() {
    let s = "Command not found: /foo_bar-1.5 {x} #y! *[a](b)";
    let expected = s
        .replace('_', "\\_")
        .replace('*', "\\*")
        .replace('[', "\\[")
        .replace(']', "\\]")
        .replace('(', "\\(")
        .replace(')', "\\)")
        .replace('~', "\\~")
        .replace('`', "\\`")
        .replace('>', "\\>")
        .replace('#', "\\#")
        .replace('+', "\\+")
        .replace('-', "\\-")
        .replace('=', "\\=")
        .replace('|', "\\|")
        .replace('{', "\\{")
        .replace('}', "\\}")
        .replace('.', "\\.")
        .replace('!', "\\!");
    assert_eq!(escape(s), expected);
}

#[test]
fn escape_is_character_by_character() {
    let parts = ["", "a_b", "(x)", "plain", "1.5!"];
    for a in parts {
        for b in parts {
            assert_eq!(escape(&format!("{}{}", a, b)), format!("{}{}", escape(a), escape(b)));
        }
        let marked = a.chars().filter(|c| markdown_special(*c)).count();
        assert_eq!(escape(a).chars().count(), a.chars().count() + marked);
    }
}

#[test]
fn markdown_special_characters() {
    assert!(markdown_special('_'));
    assert!(markdown_special('!'));
    assert!(markdown_special('*'));
    assert!(markdown_special(')'));
    assert!(!markdown_special('\\'));
    assert!(!markdown_special('a'));
}

#[test]
fn trim_removes_unicode_white_space() {
    assert_eq!(trim("  /ping \n"), chars("/ping"));
    assert_eq!(trim("\u{3000}\t/card 1\u{a0}"), chars("/card 1"));
    assert_eq!(trim("   "), chars(""));
    assert_eq!(trim(""), chars(""));
    assert_eq!(trim("a b"), chars("a b"));
}

#[test]
fn trim_agrees_with_str_trim() {
    for s in ["\u{2028}x\u{85}", " \u{200b}x ", "\r\n\u{1680}y z\u{2009}", "\u{180e}q"] {
        assert_eq!(text(&trim(s)), s.trim());
    }
}

#[test]
fn white_space_agrees_with_char_is_whitespace() {
    for u in 0u32..0x3100 {
        if let Some(c) = char::from_u32(u) {
            assert_eq!(white_space(c), c.is_whitespace(), "U+{:04X}", u);
        }
    }
}

#[test]
fn parse_u32_as_from_str() {
    assert_eq!(parse_u32(&chars("12")), Some(12));
    assert_eq!(parse_u32(&chars("+12")), Some(12));
    assert_eq!(parse_u32(&chars("007")), Some(7));
    assert_eq!(parse_u32(&chars("4294967295")), Some(u32::MAX));
    assert_eq!(parse_u32(&chars("4294967296")), None);
    assert_eq!(parse_u32(&chars("")), None);
    assert_eq!(parse_u32(&chars("+")), None);
    assert_eq!(parse_u32(&chars("-1")), None);
    assert_eq!(parse_u32(&chars("1a")), None);
    assert_eq!(parse_u32(&chars("１")), None);
    for s in ["0", "99999999999", "+0", "++1", " 1", "123456"] {
        assert_eq!(parse_u32(&chars(s)), s.parse::<u32>().ok(), "{}", s);
    }
}

#[test]
fn parse_i32_as_from_str() {
    assert_eq!(parse_i32(&chars("-1")), Some(-1));
    assert_eq!(parse_i32(&chars("-0")), Some(0));
    assert_eq!(parse_i32(&chars("+5")), Some(5));
    assert_eq!(parse_i32(&chars("-2147483648")), Some(i32::MIN));
    assert_eq!(parse_i32(&chars("2147483647")), Some(i32::MAX));
    assert_eq!(parse_i32(&chars("2147483648")), None);
    assert_eq!(parse_i32(&chars("-2147483649")), None);
    assert_eq!(parse_i32(&chars("-")), None);
    assert_eq!(parse_i32(&chars("abc")), None);
    for s in ["-00012", "+-1", "3", "-2", "0x10", ""] {
        assert_eq!(parse_i32(&chars(s)), s.parse::<i32>().ok(), "{}", s);
    }
}

#[test]
fn split_spaces_as_str_split() {
    let fields = split_spaces_of(&chars("a  b"));
    assert_eq!(fields, vec![chars("a"), chars(""), chars("b")]);
    assert_eq!(split_spaces_of(&chars("")), vec![chars("")]);
    let s = " x y\tz ";
    let expected: Vec<Vec<char>> = s.split(' ').map(|f| f.chars().collect()).collect();
    assert_eq!(split_spaces_of(&chars(s)), expected);
}

#[test]
fn push_decimal_writes_numerals() {
    let mut s = String::from("n=");
    push_decimal(&mut s, 0);
    assert_eq!(s, "n=0");
    let mut s = String::new();
    push_decimal(&mut s, 1234567890123);
    assert_eq!(s, "1234567890123");
    let mut s = String::new();
    push_decimal(&mut s, u64::MAX);
    assert_eq!(s, u64::MAX.to_string());
}

#[test]
fn chars_and_copy_range() {
    assert_eq!(chars_of("天海"), vec!['天', '海']);
    assert_eq!(copy_range(&chars("abcdef"), 1, 4), chars("bcd"));
    assert_eq!(copy_range(&chars("abc"), 2, 2), chars(""));
}

#[test]
fn idol_and_event_type_names() {
    assert_eq!(idol_name(1), Some("天海春香"));
    assert_eq!(idol_name(14), Some("春日未来"));
    assert_eq!(idol_name(52), Some("桜守歌織"));
    assert_eq!(idol_name(0), None);
    assert_eq!(idol_name(53), None);
    assert_eq!(event_type_name(1), Some("THEATER SHOW TIME☆"));
    assert_eq!(event_type_name(16), Some("プラチナスタートレジャー"));
    assert_eq!(event_type_name(8), None);
    assert_eq!(event_type_name(15), None);
    assert_eq!(PAGE_SIZE, 10);
}

#[test]
fn message_identifier_and_errors() {
    let m = MessageIdentifier::from_message(5, -100);
    assert_eq!(m.id, 5);
    assert_eq!(m.chat, -100);
    assert_eq!(BotError::BadPageId.message(), "Bad page_id");
    assert_eq!(BotError::IdolNotFound.message(), "Idol not found");
    assert_eq!(BotError::NoCardFound.message(), "No card found");
}

#[test]
fn respond_text_escapes_for_markdown() {
    match respond_text("Hi!", 42) {
        Reply::SendMessage { chat, text, parse_mode, reply_to, keyboard } => {
            assert_eq!(chat, 42);
            assert_eq!(text, "Hi\\!");
            assert_eq!(parse_mode, Some(ParseMode::MarkdownV2));
            assert_eq!(reply_to, None);
            assert!(keyboard.is_none());
        }
        _ => panic!("not a text message"),
    }
}

#[test]
fn respond_img_sends_the_picture() {
    match respond_img("https://example.com/a.png", "cap_tion", 7) {
        Reply::SendPhoto { chat, photo, caption, keyboard } => {
            assert_eq!(chat, 7);
            assert_eq!(photo, "https://example.com/a.png");
            assert_eq!(caption, "cap_tion");
            assert!(keyboard.is_none());
        }
        _ => panic!("not a photo"),
    }
}

#[test]
fn api_url_of_a_method() {
    assert_eq!(
        api_url("123:ABC", "sendMessage"),
        "https://api.telegram.org/bot123:ABC/sendMessage"
    );
}

#[test]
fn keyboard_wrappers_build_rows_in_order() {
    let mut kb = new_keyboard();
    assert_eq!(kb, InlineKeyboardMarkup::new());
    add_row(&mut kb, vec![callback_button("A", "1"), callback_button("B", "2")]);
    add_row(&mut kb, vec![callback_button("C", "3")]);
    let mut expected = InlineKeyboardMarkup::new();
    expected.add_row(vec![
        InlineKeyboardButton::callback("A", "1"),
        InlineKeyboardButton::callback("B", "2"),
    ]);
    expected.add_row(vec![InlineKeyboardButton::callback("C", "3")]);
    assert_eq!(kb, expected);
    assert_eq!(
        serde_json::to_string(&kb).unwrap(),
        "{\"inline_keyboard\":[[{\"text\":\"A\",\"callback_data\":\"1\"},{\"text\":\"B\",\"callback_data\":\"2\"}],[{\"text\":\"C\",\"callback_data\":\"3\"}]]}"
    );
}
