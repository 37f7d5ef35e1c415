//! ## /last_borders
//!
//! This command is used to display the score metrics for current event.
//!
//! This command (and [`/last_event`](super::last_event)) accepts the following
//! types of inputs:
//! * `/last_borders` - Borders for last event
//! * `/last_borders -1` - Borders for last event (== `/last_borders`)
//! * `/last_borders 0` - Borders for current event (if any)
//! * `/last_borders 3` - Borders for event #3
//! * `/last_borders -2` - Borders for the previous of last event
use vstd::prelude::*;

use crate::matsurihi::{jst_text, offset_text, Event, EventBorderView, ScoreItem};
use crate::telegram::{ParseMode, Reply};
use crate::text::{
    all_digits, decimal, digit_value, digits_value, is_white_space, signed_digits, lemma_decimal, lemma_parse_i32_decimal,
    lemma_split_extend, lemma_split_two, lemma_trim_unchanged, parse_i32, parse_i32_spec,
    push_decimal, split_spaces, split_spaces_of, trim, trim_spec, lemma_split_spaces_len,
};
use crate::types::MessageIdentifier;

verus! {

/// What an event command asks for: whether to list the borders, and which
/// event (negative: the last but so many; 0: the current one; positive: the
/// event with that number).
#[derive(Clone, Copy, Debug, PartialEq, Eq, Structural)]
pub struct EventQuery {
    pub with_border: bool,
    pub event: i32,
}

/// The event that a `/last_…` command asks for: its argument, where it
/// has one that reads as an `i32`, else -1 (the last event).
pub open spec fn requested_event_spec(command: Seq<char>) -> i32 {
    let fields = split_spaces(trim_spec(command));
    if fields.len() >= 2 {
        match parse_i32_spec(fields[1]) {
            Some(v) => v,
            None => -1i32,
        }
    } else {
        -1i32
    }
}

/// The event that a `/last_…` command asks for.
pub fn last_something(command: &str, with_border: bool) -> (r: EventQuery)
    ensures
        r.with_border == with_border,
        r.event == requested_event_spec(command@),
{
    let t = trim(command);
    let fields = split_spaces_of(&t);
    let event = if fields.len() >= 2 {
        match parse_i32(&fields[1]) {
            Some(v) => v,
            None => -1,
        }
    } else {
        -1
    };
    EventQuery { with_border, event }
}

/// A command word: not empty, without spaces, and neither beginning nor
/// ending with white space.
pub open spec fn is_command_word(w: Seq<char>) -> bool {
    &&& w.len() > 0
    &&& !is_white_space(w[0])
    &&& !is_white_space(w.last())
    &&& forall|i: int| 0 <= i < w.len() ==> #[trigger] w[i] != ' '
}

/// A command with no argument asks for the last event, as the same command
/// with the argument `-1` does.
pub proof fn lemma_no_argument_is_last(command: Seq<char>)
    requires
        is_command_word(command),
    ensures
        requested_event_spec(command) == -1,
        requested_event_spec(command + " -1"@) == -1,
{
    let e = Seq::<char>::empty();
    lemma_trim_unchanged(command);
    lemma_split_extend(e, command);
    assert(e + command =~= command);
    assert(split_spaces(e) == seq![e]);
    assert(split_spaces(command).len() == 1);
    reveal_strlit(" -1");
    let m = seq!['-', '1'];
    let t = command + " -1"@;
    assert(t =~= command + seq![' '] + m);
    assert(t.last() == '1');
    lemma_trim_unchanged(t);
    lemma_split_two(command, m);
    assert(signed_digits(m) =~= seq!['1']);
    assert(seq!['1'].drop_last() =~= e);
    assert(digits_value(e) == 0);
    assert(('1' as int) == 49);
    assert(digit_value('1') == 1);
    assert(digits_value(seq!['1']) == 10 * digits_value(e) + digit_value('1'));
    assert(all_digits(seq!['1']));
}

/// A command whose argument is the numeral of a number `n`, with or
/// without a minus sign, asks for event `n` (the event with that number) or
/// `-n` (the last but so many).
pub proof fn lemma_numeric_argument(command: Seq<char>, n: u32, negative: bool)
    requires
        is_command_word(command),
        n <= i32::MAX,
    ensures
        requested_event_spec(
            command + " "@ + (if negative {
                "-"@
            } else {
                ""@
            }) + decimal(n as nat),
        ) == (if negative {
            -(n as int)
        } else {
            n as int
        }),
{
    reveal_strlit(" ");
    reveal_strlit("-");
    reveal_strlit("");
    let d = decimal(n as nat);
    lemma_decimal(n as nat);
    let arg = if negative {
        seq!['-'] + d
    } else {
        d
    };
    let t = command + " "@ + (if negative {
        "-"@
    } else {
        ""@
    }) + d;
    assert(t =~= command + seq![' '] + arg);
    assert(t.last() == d.last());
    assert(all_digits(d));
    lemma_trim_unchanged(t);
    assert forall|i: int| 0 <= i < arg.len() implies #[trigger] arg[i] != ' ' by {
        if negative && i > 0 {
            assert(arg[i] == d[i - 1]);
        }
    }
    lemma_split_two(command, arg);
    if negative {
        assert(signed_digits(arg) =~= d);
    } else {
        lemma_parse_i32_decimal(n);
    }
}

/// ## /last_borders: the borders of the event that the command asks for.
pub fn handler(command: &str) -> (r: EventQuery)
    ensures
        r.with_border,
        r.event == requested_event_spec(command@),
{
    last_something(command, true)
}

/// The value of the bits of a `u32` read as an `i32` (`x as i32`).
pub open spec fn as_i32(x: u32) -> int {
    if x <= i32::MAX {
        x as int
    } else {
        x - 0x1_0000_0000
    }
}

/// The value of the bits of an `i32` read as a `u32` (`v as u32`).
pub open spec fn as_u32(v: int) -> u32 {
    if v >= 0 {
        v as u32
    } else {
        (v + 0x1_0000_0000) as u32
    }
}

fn u32_as_i32(x: u32) -> (r: i32)
    ensures
        r == as_i32(x),
{
    if x <= 0x7fff_ffff {
        x as i32
    } else {
        ((x as i64) - 0x1_0000_0000) as i32
    }
}

fn i32_as_u32(v: i32) -> (r: u32)
    ensures
        r == as_u32(v as int),
{
    if v >= 0 {
        v as u32
    } else {
        ((v as i64) + 0x1_0000_0000) as u32
    }
}

/// The largest of some ids.
pub open spec fn max_id(ids: Seq<u32>) -> Option<u32>
    decreases ids.len(),
{
    if ids.len() == 0 {
        None
    } else {
        match max_id(ids.drop_last()) {
            Some(m) => Some(if m < ids.last() {
                ids.last()
            } else {
                m
            }),
            None => Some(ids.last()),
        }
    }
}

/// The largest id of some events, 0 where there is none.
pub open spec fn max_event_id(events: Seq<Event>) -> u32
    decreases events.len(),
{
    if events.len() == 0 {
        0
    } else {
        let m = max_event_id(events.drop_last());
        if events.len() == 1 {
            events.last().id
        } else if m < events.last().id {
            events.last().id
        } else {
            m
        }
    }
}

/// How far the search for the event of a query has come.
#[derive(Clone, Copy, Debug, PartialEq, Eq, Structural)]
pub enum EventLookup {
    /// The event is this one.
    Found(u32),
    /// The current event was asked for, and none is running.
    NoCurrentEvent,
    /// The ids of the running events are needed.
    NeedCurrentIds,
    /// The ids of all events are needed.
    NeedAllEvents,
}

/// The first step: a positive number names the event; otherwise the
/// running events are needed.
pub fn lookup_event(requested: i32) -> (r: EventLookup)
    ensures
        requested > 0 ==> r == EventLookup::Found(requested as u32),
        requested <= 0 ==> r == EventLookup::NeedCurrentIds,
{
    if requested > 0 {
        EventLookup::Found(requested as u32)
    } else {
        EventLookup::NeedCurrentIds
    }
}

/// With the ids of the running events: counting back from the newest
/// running event; where none runs, there is no current event, or all events
/// are needed.
pub fn lookup_with_current(requested: i32, current_ids: &Vec<u32>) -> (r: EventLookup)
    requires
        requested <= 0,
        max_id(current_ids@) matches Some(m) ==> as_i32(m) + requested >= i32::MIN,
    ensures
        match max_id(current_ids@) {
            Some(m) => r == EventLookup::Found(as_u32(as_i32(m) + requested)),
            None => if requested == 0 {
                r == EventLookup::NoCurrentEvent
            } else {
                r == EventLookup::NeedAllEvents
            },
        },
{
    let mut best: Option<u32> = None;
    let mut i: usize = 0;
    assert(current_ids@.take(0) =~= Seq::<u32>::empty());
    while i < current_ids.len()
        invariant
            i <= current_ids.len(),
            best == max_id(current_ids@.take(i as int)),
        decreases current_ids.len() - i,
    {
        let x = current_ids[i];
        assert(current_ids@.take(i + 1).drop_last() =~= current_ids@.take(i as int));
        best = match best {
            Some(m) => Some(if m < x { x } else { m }),
            None => Some(x),
        };
        i = i + 1;
    }
    assert(current_ids@.take(current_ids.len() as int) =~= current_ids@);
    match best {
        Some(m) => {
            let v = u32_as_i32(m) + requested;
            EventLookup::Found(i32_as_u32(v))
        },
        None => {
            if requested == 0 {
                EventLookup::NoCurrentEvent
            } else {
                EventLookup::NeedAllEvents
            }
        },
    }
}

/// With all events: counting back from the one after the newest event (the
/// newest is `-1`).
pub fn lookup_with_all(requested: i32, events: &Vec<Event>) -> (r: u32)
    requires
        requested < 0,
        as_i32(max_event_id(events@)) + 1 <= i32::MAX,
        as_i32(max_event_id(events@)) + 1 + requested >= i32::MIN,
    ensures
        r == as_u32(as_i32(max_event_id(events@)) + 1 + requested),
{
    let mut last: u32 = 0;
    let mut i: usize = 0;
    assert(events@.take(0) =~= Seq::<Event>::empty());
    while i < events.len()
        invariant
            i <= events.len(),
            last == max_event_id(events@.take(i as int)),
        decreases events.len() - i,
    {
        let x = events[i].id;
        assert(events@.take(i + 1).drop_last() =~= events@.take(i as int));
        if i == 0 || last < x {
            last = x;
        }
        i = i + 1;
    }
    assert(events@.take(events.len() as int) =~= events@);
    let v = u32_as_i32(last) + 1 + requested;
    i32_as_u32(v)
}

/// How many borders from the first have a score: the borders are listed
/// up to the first one without.
pub open spec fn scored_len(scores: Seq<ScoreItem>) -> nat
    decreases scores.len(),
{
    if scores.len() == 0 || scores[0].score is None {
        0
    } else {
        1 + scored_len(scores.drop_first())
    }
}

/// The line of a border: `Rank #<rank>: <score>`.
pub open spec fn rank_line(s: ScoreItem) -> Seq<char> {
    "Rank #"@ + decimal(s.rank as nat) + ": "@ + s.score.unwrap()@ + "\n"@
}

/// The lines of some borders, in order.
pub open spec fn rank_lines(scores: Seq<ScoreItem>) -> Seq<char>
    decreases scores.len(),
{
    if scores.len() == 0 {
        Seq::empty()
    } else {
        rank_lines(scores.drop_last()) + rank_line(scores.last())
    }
}

proof fn lemma_scored_len(s: Seq<ScoreItem>, i: int)
    requires
        0 <= i <= s.len(),
        forall|j: int| 0 <= j < i ==> (#[trigger] s[j]).score is Some,
        i == s.len() || s[i].score is None,
    ensures
        scored_len(s) == i,
    decreases i,
{
    if i > 0 {
        let t = s.drop_first();
        assert forall|j: int| 0 <= j < i - 1 implies (#[trigger] t[j]).score is Some by {
            assert(t[j] == s[j + 1]);
        }
        if i < s.len() {
            assert(t[i - 1] == s[i]);
        }
        lemma_scored_len(t, i - 1);
    }
}

/// The command that the text about an event suggests for its borders:
/// `/curr_borders` where the current event was asked for, else
/// `/last_borders` with the event's number.
pub open spec fn borders_hint(requested: i32, event_id: u32) -> Seq<char> {
    if requested == 0 {
        "/curr_borders"@
    } else {
        "/last_borders "@ + decimal(event_id as nat)
    }
}

/// The text about an event: its name and number, then where borders are
/// known, when they were updated (in Japan time), the borders (for a borders
/// command), the number of participants, and (for an event command) which
/// command shows the borders.
pub open spec fn event_text_spec(
    event: Event,
    metrics: Option<EventBorderView>,
    with_border: bool,
    requested: i32,
    event_id: u32,
) -> Seq<char> {
    "<b>"@ + event.name@ + "</b> (#"@ + decimal(event.id as nat) + ")\n"@ + match metrics {
        None => "No metrics available"@,
        Some(m) => "Updated: "@ + jst_text(
            m.event_point.summary_time.secs_spec(),
            m.event_point.summary_time.nanos_spec(),
        ) + "\n"@ + (if with_border {
            rank_lines(m.event_point.scores@.take(scored_len(m.event_point.scores@) as int))
        } else {
            Seq::empty()
        }) + "Participants: "@ + decimal(m.event_point.count as nat) + "\n"@ + (if !with_border {
            "<i>For score borders, use "@ + borders_hint(requested, event_id) + "</i>"@
        } else {
            Seq::empty()
        }),
    }
}

/// The borders are listed one line each, in order, each line naming that
/// border's own rank and its score: no borders give no lines, and one more
/// border gives one more line, `Rank #<its rank>: <its score>`.
pub proof fn lemma_rank_lines(scores: Seq<ScoreItem>, x: ScoreItem)
    ensures
        rank_lines(Seq::<ScoreItem>::empty()) == Seq::<char>::empty(),
        rank_lines(scores.push(x)) == rank_lines(scores) + ("Rank #"@ + decimal(x.rank as nat)
            + ": "@ + x.score.unwrap()@ + "\n"@),
        rank_lines(seq![x]) == "Rank #"@ + decimal(x.rank as nat) + ": "@ + x.score.unwrap()@
            + "\n"@,
{
    assert(scores.push(x).drop_last() =~= scores);
    assert(seq![x].drop_last() =~= Seq::<ScoreItem>::empty());
    assert(Seq::<char>::empty() + ("Rank #"@ + decimal(x.rank as nat) + ": "@ + x.score.unwrap()@
        + "\n"@) =~= "Rank #"@ + decimal(x.rank as nat) + ": "@ + x.score.unwrap()@ + "\n"@);
}

/// The text of a borders command about an event with borders: its name
/// and number, the update time in Japan time, the lines of the borders up
/// to the first one without a score (`k` of them), and the participants.
pub proof fn lemma_borders_text(
    e: Event,
    m: EventBorderView,
    requested: i32,
    event_id: u32,
    k: int,
)
    requires
        0 <= k <= m.event_point.scores@.len(),
        forall|j: int| 0 <= j < k ==> (#[trigger] m.event_point.scores@[j]).score is Some,
        k == m.event_point.scores@.len() || m.event_point.scores@[k].score is None,
    ensures
        event_text_spec(e, Some(m), true, requested, event_id) == "<b>"@ + e.name@ + "</b> (#"@
            + decimal(e.id as nat) + ")\n"@ + ("Updated: "@ + offset_text(
            m.event_point.summary_time.secs_spec(),
            m.event_point.summary_time.nanos_spec(),
            32400,
        ) + "\n"@ + rank_lines(m.event_point.scores@.take(k)) + "Participants: "@ + decimal(
            m.event_point.count as nat,
        ) + "\n"@),
{
    lemma_scored_len(m.event_point.scores@, k);
    let body = "Updated: "@ + offset_text(
        m.event_point.summary_time.secs_spec(),
        m.event_point.summary_time.nanos_spec(),
        32400,
    ) + "\n"@ + rank_lines(m.event_point.scores@.take(k)) + "Participants: "@ + decimal(
        m.event_point.count as nat,
    ) + "\n"@;
    assert(body + Seq::<char>::empty() =~= body);
}

/// The text when no event is running and the current one was asked for.
pub open spec fn no_current_event_text() -> Seq<char> {
    "No current event!"@
}

/// The text when the data source knows no event with the number asked for.
pub open spec fn event_not_found_text() -> Seq<char> {
    "Event not found!"@
}

/// The text about event `event_id`: `event` as the data source describes
/// it (`None` where it knows no such event), with its borders `metrics`
/// where known.
pub fn event_text(
    event_id: u32,
    event: Option<&Event>,
    metrics: Option<&EventBorderView>,
    with_border: bool,
    requested: i32,
) -> (r: String)
    ensures
        match event {
            Some(e) => r@ == event_text_spec(
                *e,
                match metrics {
                    Some(m) => Some(*m),
                    None => None,
                },
                with_border,
                requested,
                event_id,
            ),
            None => r@ == event_not_found_text(),
        },
{
    let event = match event {
        Some(e) => e,
        None => {
            return String::from_str("Event not found!");
        },
    };
    let mut ret = String::from_str("<b>");
    ret.append(event.name.as_str());
    ret.append("</b> (#");
    push_decimal(&mut ret, event.id as u64);
    ret.append(")\n");
    let ghost head = ret@;
    match metrics {
        None => {
            ret.append("No metrics available");
        },
        Some(m) => {
            ret.append("Updated: ");
            ret.append(m.event_point.summary_time.jst_display().as_str());
            ret.append("\n");
            let ghost before_lines = ret@;
            if with_border {
                let scores = &m.event_point.scores;
                let mut i: usize = 0;
                assert(scores@.take(0) =~= Seq::<ScoreItem>::empty());
                while i < scores.len() && scores[i].score.is_some()
                    invariant
                        i <= scores.len(),
                        forall|j: int| 0 <= j < i ==> (#[trigger] scores@[j]).score is Some,
                        ret@ == before_lines + rank_lines(scores@.take(i as int)),
                    decreases scores.len() - i,
                {
                    let item = &scores[i];
                    let ghost prev = ret@;
                    ret.append("Rank #");
                    push_decimal(&mut ret, item.rank as u64);
                    ret.append(": ");
                    match &item.score {
                        Some(sc) => ret.append(sc.as_str()),
                        None => {},
                    }
                    ret.append("\n");
                    assert(scores@.take(i + 1).drop_last() =~= scores@.take(i as int));
                    assert(ret@ =~= before_lines + rank_lines(scores@.take(i + 1)));
                    i = i + 1;
                }
                proof {
                    lemma_scored_len(scores@, i as int);
                }
            }
            ret.append("Participants: ");
            push_decimal(&mut ret, m.event_point.count as u64);
            ret.append("\n");
            if !with_border {
                ret.append("<i>For score borders, use ");
                if requested == 0 {
                    ret.append("/curr_borders");
                } else {
                    ret.append("/last_borders ");
                    push_decimal(&mut ret, event_id as u64);
                }
                ret.append("</i>");
            }
        },
    }
    ret
}

/// The text when no event is running and the current one was asked for.
pub fn no_current_event() -> (r: String)
    ensures
        r@ == no_current_event_text(),
{
    String::from_str("No current event!")
}

/// `r` answers the command's message `msg` with `text`, in HTML.
pub open spec fn is_event_reply(r: Reply, msg: MessageIdentifier, text: Seq<char>) -> bool {
    r matches Reply::SendMessage { chat, text: t, parse_mode, reply_to, keyboard } && chat
        == msg.chat && t@ == text && parse_mode == Some(ParseMode::Html) && reply_to == Some(msg.id)
        && keyboard is None
}

/// The text, in HTML, answering the command's message.
pub fn event_reply(text: String, msg: MessageIdentifier) -> (r: Reply)
    ensures
        is_event_reply(r, msg, text@),
{
    Reply::SendMessage {
        chat: msg.chat,
        text,
        parse_mode: Some(ParseMode::Html),
        reply_to: Some(msg.id),
        keyboard: None,
    }
}

/// The event that a query for `requested` is about, from the ids of the
/// running events and all events: a positive number names the event;
/// otherwise count back from the newest running event, or, where none
/// runs, from the one after the newest event; `None` where the current
/// event was asked for and none runs.
pub open spec fn chosen_event(requested: i32, ids: Seq<u32>, events: Seq<Event>) -> Option<u32> {
    if requested > 0 {
        Some(requested as u32)
    } else {
        match max_id(ids) {
            Some(m) => Some(as_u32(as_i32(m) + requested)),
            None => if requested == 0 {
                None
            } else {
                Some(as_u32(as_i32(max_event_id(events)) + 1 + requested))
            },
        }
    }
}

/// Where counting back starts: the newest running event's number where one
/// runs, else one past the newest event's.
pub open spec fn event_base(ids: Seq<u32>, events: Seq<Event>) -> int {
    match max_id(ids) {
        Some(m) => as_i32(m),
        None => as_i32(max_event_id(events)) + 1,
    }
}

/// What has been fetched for an event query so far; each `None` until it
/// is fetched.
pub struct EventFetched {
    /// The ids of the running events.
    pub current_ids: Option<Vec<u32>>,
    /// All events.
    pub all_events: Option<Vec<Event>>,
    /// The event chosen, `Some(None)` where the data source failed to give
    /// it.
    pub event: Option<Option<Event>>,
    /// Its borders, `Some(None)` where the data source has none.
    pub borders: Option<Option<EventBorderView>>,
}

/// What sending the data of an event takes next.
pub enum EventStep {
    /// The ids of the running events are needed.
    NeedCurrentIds,
    /// All events are needed.
    NeedAllEvents,
    /// The event with this id is needed.
    NeedEvent(u32),
    /// The borders of the event with this id are needed.
    NeedBorders(u32),
    /// Send this; done.
    Send(Reply),
}

/// The ids of the running events as fetched, empty until then.
pub open spec fn fetched_ids(f: EventFetched) -> Seq<u32> {
    if f.current_ids is Some {
        f.current_ids.unwrap()@
    } else {
        Seq::empty()
    }
}

/// All events as fetched, none until then.
pub open spec fn fetched_events(f: EventFetched) -> Seq<Event> {
    if f.all_events is Some {
        f.all_events.unwrap()@
    } else {
        Seq::empty()
    }
}

/// Counting back stays within `i32` for the data fetched (as the lookup
/// computes in `i32`).
pub open spec fn lookup_fits(requested: i32, f: EventFetched) -> bool {
    &&& (requested <= 0 && f.current_ids is Some && max_id(fetched_ids(f)) is Some) ==> as_i32(
        max_id(fetched_ids(f)).unwrap(),
    ) + requested >= i32::MIN
    &&& (requested < 0 && f.all_events is Some) ==> (as_i32(max_event_id(fetched_events(f))) + 1
        <= i32::MAX && as_i32(max_event_id(fetched_events(f))) + 1 + requested >= i32::MIN)
}

/// Send event data, used by /{curr,last}_{event,borders}: given what has
/// been fetched, the next thing to fetch, or the reply. The event is
/// `chosen_event`; its ids and events are fetched only where it needs them
/// (the running events' for a number of 0 or less; all events only where
/// none runs and a negative number was asked for). The reply answers the
/// command's message in HTML: "No current event!", "Event not found!"
/// where the event cannot be fetched, or the text about the event and its
/// borders.
pub fn send_event_data(query: EventQuery, msg: MessageIdentifier, fetched: &EventFetched) -> (r: EventStep)
    requires
        lookup_fits(query.event, *fetched),
    ensures
        ({
            let i = query.event;
            let ids = fetched_ids(*fetched);
            let events = fetched_events(*fetched);
            if i <= 0 && fetched.current_ids is None {
                r is NeedCurrentIds
            } else if i < 0 && max_id(ids) is None && fetched.all_events is None {
                r is NeedAllEvents
            } else {
                match chosen_event(i, ids, events) {
                    None => r matches EventStep::Send(reply) && is_event_reply(
                        reply,
                        msg,
                        no_current_event_text(),
                    ),
                    Some(id) => match fetched.event {
                        None => r == EventStep::NeedEvent(id),
                        Some(None) => r matches EventStep::Send(reply) && is_event_reply(
                            reply,
                            msg,
                            event_not_found_text(),
                        ),
                        Some(Some(e)) => match fetched.borders {
                            None => r == EventStep::NeedBorders(id),
                            Some(b) => r matches EventStep::Send(reply) && is_event_reply(
                                reply,
                                msg,
                                event_text_spec(e, b, query.with_border, i, id),
                            ),
                        },
                    },
                }
            }
        }),
{
    let i = query.event;
    let mut lookup = lookup_event(i);
    if lookup == EventLookup::NeedCurrentIds {
        match &fetched.current_ids {
            None => {
                return EventStep::NeedCurrentIds;
            },
            Some(ids) => {
                lookup = lookup_with_current(i, ids);
            },
        }
    }
    if lookup == EventLookup::NeedAllEvents {
        match &fetched.all_events {
            None => {
                return EventStep::NeedAllEvents;
            },
            Some(events) => {
                lookup = EventLookup::Found(lookup_with_all(i, events));
            },
        }
    }
    let id = match lookup {
        EventLookup::Found(id) => id,
        _ => {
            return EventStep::Send(event_reply(no_current_event(), msg));
        },
    };
    match &fetched.event {
        None => EventStep::NeedEvent(id),
        Some(None) => EventStep::Send(
            event_reply(event_text(id, None, None, query.with_border, i), msg),
        ),
        Some(Some(e)) => match &fetched.borders {
            None => EventStep::NeedBorders(id),
            Some(b) => {
                let m = match b {
                    Some(v) => Some(v),
                    None => None,
                };
                EventStep::Send(event_reply(event_text(id, Some(e), m, query.with_border, i), msg))
            },
        },
    }
}

/// Counting back: for a negative number, the event chosen is the number
/// added to where counting starts (`event_base`), so each step further
/// back is the event before: `-1` is the one before the newest running
/// event, or the newest event where none runs; `-2` the one before that.
pub proof fn lemma_look_back(requested: i32, ids: Seq<u32>, events: Seq<Event>)
    requires
        i32::MIN < requested < 0,
        event_base(ids, events) <= i32::MAX,
        event_base(ids, events) + requested - 1 >= i32::MIN,
    ensures
        chosen_event(requested, ids, events) == Some(as_u32(event_base(ids, events) + requested)),
        chosen_event((requested - 1) as i32, ids, events) == Some(
            as_u32(event_base(ids, events) + requested - 1),
        ),
        as_i32(chosen_event((requested - 1) as i32, ids, events).unwrap()) == as_i32(
            chosen_event(requested, ids, events).unwrap(),
        ) - 1,
{
    let b = event_base(ids, events);
    lemma_as_i32_as_u32(b + requested);
    lemma_as_i32_as_u32(b + requested - 1);
}

/// An `i32` value read as a `u32` and back is itself.
proof fn lemma_as_i32_as_u32(v: int)
    requires
        i32::MIN <= v <= i32::MAX,
    ensures
        as_i32(as_u32(v)) == v,
{
}

} // verus!
