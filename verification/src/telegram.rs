//! The replies that the bot sends to Telegram, and the inline keyboards in
//! them (`telegram_bot_raw`'s).
use vstd::prelude::*;

use telegram_bot_raw::{InlineKeyboardButton, InlineKeyboardMarkup};

use crate::text::escape_spec;
use crate::utils::escape;

verus! {

#[verifier::external_type_specification]
#[verifier::external_body]
pub struct ExInlineKeyboardButton(InlineKeyboardButton);

#[verifier::external_type_specification]
#[verifier::external_body]
pub struct ExInlineKeyboardMarkup(InlineKeyboardMarkup);

/// The rows of an inline keyboard, top to bottom; each button, left to
/// right, as its label and the callback data it carries.
pub uninterp spec fn keyboard_rows(k: InlineKeyboardMarkup) -> Seq<Seq<(Seq<char>, Seq<char>)>>;

/// The label of a button and the callback data it carries.
pub uninterp spec fn button_content(b: InlineKeyboardButton) -> (Seq<char>, Seq<char>);

/// The buttons of a row as label and callback data.
pub open spec fn row_content(row: Seq<InlineKeyboardButton>) -> Seq<(Seq<char>, Seq<char>)> {
    row.map_values(|b: InlineKeyboardButton| button_content(b))
}

/// `InlineKeyboardButton::callback`: a button with label `text` that sends
/// `data` back when pressed. Its source stores both strings as given.
#[verifier::external_body]
pub fn callback_button(text: &str, data: &str) -> (b: InlineKeyboardButton)
    ensures
        button_content(b) == (text@, data@),
{
    InlineKeyboardButton::callback(text, data)
}

/// `InlineKeyboardMarkup::new`: a keyboard without rows.
#[verifier::external_body]
pub fn new_keyboard() -> (k: InlineKeyboardMarkup)
    ensures
        keyboard_rows(k) == Seq::<Seq<(Seq<char>, Seq<char>)>>::empty(),
{
    InlineKeyboardMarkup::new()
}

/// `InlineKeyboardMarkup::add_row`: its source pushes the row below the
/// others.
#[verifier::external_body]
pub fn add_row(k: &mut InlineKeyboardMarkup, row: Vec<InlineKeyboardButton>)
    ensures
        keyboard_rows(*final(k)) == keyboard_rows(*old(k)).push(row_content(row@)),
{
    k.add_row(row);
}

/// How Telegram is to read the text of a message.
#[derive(Clone, Copy, Debug, PartialEq, Eq, Structural)]
pub enum ParseMode {
    MarkdownV2,
    Html,
}

/// A request to Telegram that answers the user.
pub enum Reply {
    /// Send a text message (`sendMessage`).
    SendMessage {
        chat: i64,
        text: String,
        parse_mode: Option<ParseMode>,
        reply_to: Option<i64>,
        keyboard: Option<InlineKeyboardMarkup>,
    },
    /// Replace the text of a message (`editMessageText`).
    EditMessageText { chat: i64, message_id: i64, text: String, keyboard: InlineKeyboardMarkup },
    /// Send a picture (`sendPhoto`).
    SendPhoto { chat: i64, photo: String, caption: String, keyboard: Option<InlineKeyboardMarkup> },
    /// Replace the picture of a message (`editMessageMedia`).
    EditMessageMedia {
        chat: i64,
        message_id: i64,
        photo: String,
        caption: String,
        keyboard: InlineKeyboardMarkup,
    },
}

/// `r` sends `text` to `chat` as `respond_text` does: escaped for
/// MarkdownV2, answering no message, without keyboard.
pub open spec fn is_text_reply(r: Reply, chat: i64, text: Seq<char>) -> bool {
    r matches Reply::SendMessage { chat: c, text: t, parse_mode, reply_to, keyboard } && c == chat
        && t@ == escape_spec(text) && parse_mode == Some(ParseMode::MarkdownV2) && reply_to is None
        && keyboard is None
}

/// `r` sends the picture at `url` to `chat` with `caption`, without keyboard.
pub open spec fn is_img_reply(r: Reply, chat: i64, url: Seq<char>, caption: Seq<char>) -> bool {
    r matches Reply::SendPhoto { chat: c, photo, caption: cap, keyboard } && c == chat && photo@
        == url && cap@ == caption && keyboard is None
}

/// Send text to a chat: the text escaped for MarkdownV2.
pub fn respond_text(text: &str, chat: i64) -> (r: Reply)
    ensures
        is_text_reply(r, chat, text@),
{
    Reply::SendMessage {
        chat,
        text: escape(text),
        parse_mode: Some(ParseMode::MarkdownV2),
        reply_to: None,
        keyboard: None,
    }
}

/// Send an image to a chat.
pub fn respond_img(url: &str, caption: &str, chat: i64) -> (r: Reply)
    ensures
        is_img_reply(r, chat, url@, caption@),
{
    Reply::SendPhoto {
        chat,
        photo: String::from_str(url),
        caption: String::from_str(caption),
        keyboard: None,
    }
}

/// The address of a method of the Bot API for the bot with `token`.
pub open spec fn api_url_spec(token: Seq<char>, method: Seq<char>) -> Seq<char> {
    "https://api.telegram.org/bot"@ + token + "/"@ + method
}

/// The address of a method of the Bot API (what `respond_raw` posts to).
pub fn api_url(token: &str, method: &str) -> (r: String)
    ensures
        r@ == api_url_spec(token@, method@),
{
    let mut s = String::from_str("https://api.telegram.org/bot");
    s.append(token);
    s.append("/");
    s.append(method);
    s
}

} // verus!
