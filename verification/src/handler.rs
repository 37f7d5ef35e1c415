//! Various handlers: which command a text message is, and what a pressed
//! button asks for.
use vstd::prelude::*;

use crate::callback_types::{BgStatus, CallbackType};
use crate::cmd::card::{card_command_spec, handler as card_handler, CardCommand};
use crate::cmd::last_borders::{
    borders_hint, handler as last_borders_handler, is_command_word, lemma_numeric_argument,
    requested_event_spec, EventQuery,
};
use crate::cmd::list_characters::{
    handler as list_characters_handler, is_group_menu_reply, is_step_2_reply, respond_step_2,
    respond_step_3, suggested_card_command, CardListStep, IdolCategory,
};
use crate::cmd::{curr_borders, curr_event, last_event};
use crate::constants::idol_name_spec;
use crate::telegram::{is_text_reply, respond_text, Reply};
use crate::text::{
    all_digits, chars_of, decimal, escape_spec, is_white_space, lemma_decimal,
    lemma_parse_u32_decimal, lemma_split_two, lemma_trim_unchanged, parse_u32_spec,
    split_spaces, trim, trim_spec,
};
use crate::types::{BotError, MessageIdentifier};

verus! {

/// The commands that a text message can be.
#[derive(Clone, Copy, Debug, PartialEq, Eq, Structural)]
pub enum TextCommand {
    Ping,
    LastEvent,
    LastBorders,
    CurrEvent,
    CurrBorders,
    Card,
    ListCharacters,
    /// No command the bot knows.
    NotFound,
}

/// `p` begins `s`.
pub open spec fn starts_with(s: Seq<char>, p: Seq<char>) -> bool {
    p.len() <= s.len() && s.take(p.len() as int) == p
}

/// The command of a (trimmed) text: the first of the commands that begins
/// it, in this order.
pub open spec fn classify_spec(t: Seq<char>) -> TextCommand {
    if starts_with(t, "/ping"@) {
        TextCommand::Ping
    } else if starts_with(t, "/last_event"@) {
        TextCommand::LastEvent
    } else if starts_with(t, "/last_borders"@) {
        TextCommand::LastBorders
    } else if starts_with(t, "/curr_event"@) {
        TextCommand::CurrEvent
    } else if starts_with(t, "/curr_borders"@) {
        TextCommand::CurrBorders
    } else if starts_with(t, "/card"@) {
        TextCommand::Card
    } else if starts_with(t, "/list_characters"@) {
        TextCommand::ListCharacters
    } else {
        TextCommand::NotFound
    }
}

/// Whether `p` begins `v`.
fn begins_with(v: &Vec<char>, p: &str) -> (r: bool)
    ensures
        r == starts_with(v@, p@),
{
    let pv = chars_of(p);
    if pv.len() > v.len() {
        return false;
    }
    let mut i: usize = 0;
    while i < pv.len()
        invariant
            pv@ == p@,
            pv.len() <= v.len(),
            i <= pv.len(),
            forall|j: int| 0 <= j < i ==> v@[j] == pv@[j],
        decreases pv.len() - i,
    {
        if v[i] != pv[i] {
            assert(v@.take(pv.len() as int)[i as int] != p@[i as int]);
            return false;
        }
        i = i + 1;
    }
    assert(v@.take(pv.len() as int) =~= p@);
    true
}

/// Which command a text message is, once trimmed.
pub fn text_command(data: &str) -> (r: TextCommand)
    ensures
        r == classify_spec(trim_spec(data@)),
{
    let t = trim(data);
    if begins_with(&t, "/ping") {
        TextCommand::Ping
    } else if begins_with(&t, "/last_event") {
        TextCommand::LastEvent
    } else if begins_with(&t, "/last_borders") {
        TextCommand::LastBorders
    } else if begins_with(&t, "/curr_event") {
        TextCommand::CurrEvent
    } else if begins_with(&t, "/curr_borders") {
        TextCommand::CurrBorders
    } else if begins_with(&t, "/card") {
        TextCommand::Card
    } else if begins_with(&t, "/list_characters") {
        TextCommand::ListCharacters
    } else {
        TextCommand::NotFound
    }
}

/// A text that begins with `p` at least as long as `q`, where `p` and `q`
/// differ at index `k`, does not begin with `q`.
proof fn lemma_not_starts_with(t: Seq<char>, p: Seq<char>, q: Seq<char>, k: int)
    requires
        starts_with(t, p),
        0 <= k < p.len(),
        k < q.len(),
        p[k] != q[k],
    ensures
        !starts_with(t, q),
{
    assert(t[k] == t.take(p.len() as int)[k]);
    if starts_with(t, q) {
        assert(t[k] == t.take(q.len() as int)[k]);
    }
}

/// The command that the caption of a shown card quotes, `/card` and the
/// card's id, is read as a `/card` command whose one argument is that id
/// (so `cmd::card::handler` answers it with `CardCommand::ById` of the
/// card).
pub proof fn lemma_suggested_card_command(card_id: u32)
    ensures
        classify_spec(trim_spec(suggested_card_command(card_id))) == TextCommand::Card,
        split_spaces(trim_spec(suggested_card_command(card_id))) == seq![
            "/card"@,
            decimal(card_id as nat),
        ],
        parse_u32_spec(split_spaces(trim_spec(suggested_card_command(card_id)))[1]) == Some(
            card_id,
        ),
{
    let d = decimal(card_id as nat);
    let s = suggested_card_command(card_id);
    let c = "/card"@;
    reveal_strlit("/card ");
    reveal_strlit("/card");
    reveal_strlit("/ping");
    reveal_strlit("/last_event");
    reveal_strlit("/last_borders");
    reveal_strlit("/curr_event");
    reveal_strlit("/curr_borders");
    lemma_decimal(card_id as nat);
    assert(all_digits(d));
    assert(s[0] == '/');
    assert(s.last() == d.last());
    assert(!is_white_space(s.last()));
    lemma_trim_unchanged(s);
    assert(s =~= c + seq![' '] + d);
    assert forall|i: int| 0 <= i < d.len() implies #[trigger] d[i] != ' ' by {
        assert(all_digits(d));
    }
    lemma_split_two(c, d);
    lemma_parse_u32_decimal(card_id);
    assert(s.take(c.len() as int) =~= c);
    assert(starts_with(s, c));
    assert(c[1] == 'c' && c[2] == 'a');
    assert("/ping"@[1] == 'p');
    assert("/last_event"@[1] == 'l');
    assert("/curr_event"@[2] == 'u');
    assert("/curr_borders"@[2] == 'u');
    assert("/last_borders"@[1] == 'l');
    lemma_not_starts_with(s, c, "/ping"@, 1);
    lemma_not_starts_with(s, c, "/last_event"@, 1);
    lemma_not_starts_with(s, c, "/last_borders"@, 1);
    lemma_not_starts_with(s, c, "/curr_event"@, 2);
    lemma_not_starts_with(s, c, "/curr_borders"@, 2);
}

/// The command that the text about an event suggests for its borders is
/// read as a borders command for that event: `/curr_borders` where the
/// current event was asked for, else `/last_borders` with the event's
/// number (a number that an `i32` holds, as the argument is read as one).
pub proof fn lemma_suggested_borders_command(requested: i32, event_id: u32)
    requires
        requested != 0 ==> event_id <= i32::MAX,
    ensures
        requested == 0 ==> classify_spec(trim_spec(borders_hint(requested, event_id)))
            == TextCommand::CurrBorders,
        requested != 0 ==> classify_spec(trim_spec(borders_hint(requested, event_id)))
            == TextCommand::LastBorders,
        requested != 0 ==> requested_event_spec(borders_hint(requested, event_id)) == event_id,
{
    reveal_strlit("/ping");
    reveal_strlit("/last_event");
    reveal_strlit("/last_borders");
    reveal_strlit("/last_borders ");
    reveal_strlit("/curr_event");
    reveal_strlit("/curr_borders");
    reveal_strlit(" ");
    reveal_strlit("");
    let s = borders_hint(requested, event_id);
    if requested == 0 {
        let c = "/curr_borders"@;
        lemma_trim_unchanged(c);
        assert(c.take(c.len() as int) =~= c);
        assert(starts_with(c, c));
        lemma_not_starts_with(c, c, "/ping"@, 1);
        lemma_not_starts_with(c, c, "/last_event"@, 1);
        lemma_not_starts_with(c, c, "/last_borders"@, 1);
        lemma_not_starts_with(c, c, "/curr_event"@, 6);
    } else {
        let c = "/last_borders"@;
        let d = decimal(event_id as nat);
        lemma_decimal(event_id as nat);
        assert(all_digits(d));
        assert(s =~= c + " "@ + ""@ + d);
        assert(s.last() == d.last());
        assert(!is_white_space(s.last()));
        lemma_trim_unchanged(s);
        assert(is_command_word(c));
        lemma_numeric_argument(c, event_id, false);
        assert(s.take(c.len() as int) =~= c);
        assert(starts_with(s, c));
        lemma_not_starts_with(s, c, "/ping"@, 1);
        lemma_not_starts_with(s, c, "/last_event"@, 6);
    }
}

/// The text that answers `/ping`.
pub open spec fn ping_text() -> Seq<char> {
    "Hi!"@
}

/// The text that answers a command used wrongly.
pub open spec fn bad_usage_text() -> Seq<char> {
    "Bad command usage"@
}

/// The text that answers an unknown command.
pub open spec fn not_found_text(data: Seq<char>) -> Seq<char> {
    "Command not found: "@ + trim_spec(data)
}

/// The answer to `/ping`.
pub fn ping_reply(chat: i64) -> (r: Reply)
    ensures
        is_text_reply(r, chat, ping_text()),
{
    respond_text("Hi!", chat)
}

/// The answer to a command used wrongly.
pub fn bad_usage_reply(chat: i64) -> (r: Reply)
    ensures
        is_text_reply(r, chat, bad_usage_text()),
{
    respond_text("Bad command usage", chat)
}

/// The answer to an unknown command: the (trimmed) text, quoted.
pub fn not_found_reply(data: &str, chat: i64) -> (r: Reply)
    ensures
        is_text_reply(r, chat, not_found_text(data@)),
{
    let t = trim(data);
    let mut s = String::from_str("Command not found: ");
    let mut i: usize = 0;
    let ghost head = s@;
    while i < t.len()
        invariant
            i <= t.len(),
            s@ == head + t@.take(i as int),
        decreases t.len() - i,
    {
        crate::text::push_char(&mut s, t[i]);
        i = i + 1;
        assert(s@ =~= head + t@.take(i as int));
    }
    assert(t@.take(t.len() as int) =~= t@);
    respond_text(s.as_str(), chat)
}

/// What a text message asks for.
pub enum TextAction {
    /// Send this.
    Send(Reply),
    /// Send the data of an event (`cmd::last_borders::send_event_data`).
    Event(EventQuery),
    /// Show a card (see `cmd::card`).
    Card(CardCommand),
}

/// Handler for all text messages: what the message `msg` with text `data`
/// asks for, by the command that begins it once trimmed.
pub fn handler_text(data: &str, msg: MessageIdentifier) -> (r: TextAction)
    ensures
        match classify_spec(trim_spec(data@)) {
            TextCommand::Ping => r matches TextAction::Send(reply) && is_text_reply(
                reply,
                msg.chat,
                ping_text(),
            ),
            TextCommand::LastEvent => r == TextAction::Event(
                EventQuery { with_border: false, event: requested_event_spec(data@) },
            ),
            TextCommand::LastBorders => r == TextAction::Event(
                EventQuery { with_border: true, event: requested_event_spec(data@) },
            ),
            TextCommand::CurrEvent => r == TextAction::Event(
                EventQuery { with_border: false, event: 0 },
            ),
            TextCommand::CurrBorders => r == TextAction::Event(
                EventQuery { with_border: true, event: 0 },
            ),
            TextCommand::Card => r matches TextAction::Card(c) && card_command_spec(c, data@, msg),
            TextCommand::ListCharacters => r matches TextAction::Send(reply) && is_group_menu_reply(
                reply,
                msg,
            ),
            TextCommand::NotFound => r matches TextAction::Send(reply) && is_text_reply(
                reply,
                msg.chat,
                not_found_text(data@),
            ),
        },
{
    match text_command(data) {
        TextCommand::Ping => TextAction::Send(ping_reply(msg.chat)),
        TextCommand::LastEvent => TextAction::Event(last_event::handler(data)),
        TextCommand::LastBorders => TextAction::Event(last_borders_handler(data)),
        TextCommand::CurrEvent => TextAction::Event(curr_event::handler()),
        TextCommand::CurrBorders => TextAction::Event(curr_borders::handler()),
        TextCommand::Card => TextAction::Card(card_handler(data, msg)),
        TextCommand::ListCharacters => TextAction::Send(list_characters_handler(msg)),
        TextCommand::NotFound => TextAction::Send(not_found_reply(data, msg.chat)),
    }
}

/// An answer to a pressed button: a note to show, and whether as an alert.
#[derive(Debug)]
pub struct AnswerCallbackQuery {
    pub callback_query_id: String,
    pub text: Option<String>,
    pub show_alert: bool,
}

/// The note when a button's data reads as no callback.
pub open spec fn no_intent_text() -> Seq<char> {
    "Cannot extract intent. Please start again from the commands."@
}

/// The note when the message of a button is not at hand.
pub open spec fn no_original_text() -> Seq<char> {
    "Cannot find original message or chat."@
}

/// What to do about a pressed button.
#[derive(Debug)]
pub enum CallbackStep {
    /// The button carries no data: nothing.
    Ignore,
    /// Answer it and do nothing else.
    Answer(AnswerCallbackQuery),
    /// Do what it asks for, then answer it (see `callback_answer`).
    Run(CallbackType),
}

/// The callbackQuery handler: what a pressed button asks for. `data` is
/// its callback data as read (as JSON) into a callback: `None` where the
/// button carried no data, `Some(None)` where the data reads as no
/// callback. `has_original_message` tells whether the message the button
/// belongs to came with it.
pub fn handle_callback(
    query_id: String,
    data: Option<Option<CallbackType>>,
    has_original_message: bool,
) -> (r: CallbackStep)
    ensures
        match data {
            None => r is Ignore,
            Some(None) => r matches CallbackStep::Answer(a) && a.callback_query_id == query_id
                && a.text is Some && a.text.unwrap()@ == no_intent_text() && a.show_alert,
            Some(Some(cb)) => if has_original_message {
                r == CallbackStep::Run(cb)
            } else {
                r matches CallbackStep::Answer(a) && a.callback_query_id == query_id
                    && a.text is Some && a.text.unwrap()@ == no_original_text() && !a.show_alert
            },
        },
{
    let d = match data {
        None => {
            return CallbackStep::Ignore;
        },
        Some(d) => d,
    };
    match d {
        None => CallbackStep::Answer(
            AnswerCallbackQuery {
                callback_query_id: query_id,
                text: Some(
                    String::from_str("Cannot extract intent. Please start again from the commands."),
                ),
                show_alert: true,
            },
        ),
        Some(cb) => {
            if has_original_message {
                CallbackStep::Run(cb)
            } else {
                CallbackStep::Answer(
                    AnswerCallbackQuery {
                        callback_query_id: query_id,
                        text: Some(String::from_str("Cannot find original message or chat.")),
                        show_alert: false,
                    },
                )
            }
        },
    }
}

/// Respond to callback queries: after a button's request was carried out,
/// the error's message as an alert where it failed, else a plain answer.
pub fn callback_answer(query_id: String, error: Option<String>) -> (r: AnswerCallbackQuery)
    ensures
        r.callback_query_id == query_id,
        r.text == error,
        r.show_alert == error is Some,
{
    let alert = error.is_some();
    AnswerCallbackQuery { callback_query_id: query_id, text: error, show_alert: alert }
}

/// What a button's request takes.
pub enum CallbackPlan {
    /// Send this.
    Send(Reply),
    /// Nothing to show.
    Done,
    /// Fetch the idol's cards, then show this page of them (step 3).
    ListCards { idol_id: u32, page_id: u32 },
    /// Fetch the card, then show it this way (step 4).
    ShowCard { card_id: u32, with_annotation: bool, with_plus: bool, bg: BgStatus },
}

/// Handler for all callback items: what the request of a button of message
/// `msgid` takes.
pub fn handler_callback(cb: CallbackType, msgid: MessageIdentifier) -> (r: Result<CallbackPlan, BotError>)
    ensures
        match cb {
            CallbackType::ListIdolCategory { category, force_new_msg } => r matches Ok(
                CallbackPlan::Send(reply),
            ) && is_step_2_reply(reply, category, force_new_msg, msgid),
            CallbackType::ListIdol { idol_id, page_id } => if page_id == 0 {
                r == Err::<CallbackPlan, BotError>(BotError::BadPageId)
            } else if idol_name_spec(idol_id) is Some {
                r matches Ok(CallbackPlan::ListCards { idol_id: i, page_id: p }) && i == idol_id
                    && p == page_id
            } else {
                r matches Ok(CallbackPlan::Done)
            },
            CallbackType::IdolCard { card_id, with_annotation, with_plus, bg } => r matches Ok(
                CallbackPlan::ShowCard { card_id: c, with_annotation: a, with_plus: p, bg: b },
            ) && c == card_id && a == with_annotation && p == with_plus && b == bg,
        },
{
    match cb {
        CallbackType::ListIdolCategory { category, force_new_msg } => {
            Ok(CallbackPlan::Send(respond_step_2(category, force_new_msg, msgid)))
        },
        CallbackType::ListIdol { idol_id, page_id } => {
            match respond_step_3(idol_id, page_id, msgid, None) {
                Err(e) => Err(e),
                Ok(CardListStep::NeedCards) => Ok(CallbackPlan::ListCards { idol_id, page_id }),
                Ok(_) => Ok(CallbackPlan::Done),
            }
        },
        CallbackType::IdolCard { card_id, with_annotation, with_plus, bg } => {
            Ok(CallbackPlan::ShowCard { card_id, with_annotation, with_plus, bg })
        },
    }
}

} // verus!
