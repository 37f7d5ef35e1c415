//! The data of Matsurihi.me's Princess API, as far as the bot reads it, the
//! addresses it is fetched from, and the computations on it.
//!
//! Read [Princess API Docs](https://api.matsurihi.me/docs/) for details.
use vstd::prelude::*;

use crate::text::{decimal, push_decimal};
use crate::types::BotError;

verus! {

/// `chrono` can represent the moment `secs` seconds and `nanos` nanoseconds
/// after 1970-01-01 00:00:00 UTC (what `DateTime::from_timestamp` accepts).
pub uninterp spec fn timestamp_representable(secs: i64, nanos: u32) -> bool;

/// How `chrono` displays that moment in UTC, e.g. `2015-05-15 00:00:00 UTC`.
pub uninterp spec fn utc_text(secs: i64, nanos: u32) -> Seq<char>;

/// How `chrono` displays that moment at the fixed offset of `offset_secs`
/// seconds east of UTC, e.g. `2015-05-15 09:00:00 +09:00` at 32400.
pub uninterp spec fn offset_text(secs: i64, nanos: u32, offset_secs: i32) -> Seq<char>;

/// Japan's offset from UTC, in seconds east (UTC+9).
pub const JST_OFFSET: i32 = 32400;

/// How `chrono` displays that moment in Japan time.
pub open spec fn jst_text(secs: i64, nanos: u32) -> Seq<char> {
    offset_text(secs, nanos, JST_OFFSET)
}

/// Calls `chrono::DateTime::from_timestamp` and tells whether it gave a
/// moment. Its source gives `None` for a nanosecond part of two seconds or
/// more; which seconds are in range is left to the name.
#[verifier::external_body]
fn chrono_accepts(secs: i64, nanos: u32) -> (r: bool)
    ensures
        r == timestamp_representable(secs, nanos),
        r ==> nanos < 2_000_000_000,
{
    chrono::DateTime::from_timestamp(secs, nanos).is_some()
}

/// Displays a moment with `chrono` (`DateTime<Utc>` as `Display`).
#[verifier::external_body]
fn chrono_utc_text(secs: i64, nanos: u32) -> (r: String)
    requires
        timestamp_representable(secs, nanos),
    ensures
        r@ == utc_text(secs, nanos),
{
    chrono::DateTime::from_timestamp(secs, nanos).unwrap().to_string()
}

/// Displays a moment at a fixed offset with `chrono`
/// (`FixedOffset::east_opt`, `DateTime::with_timezone`, then `Display`).
/// `east_opt` accepts offsets of less than a day either way; the display of
/// a representable moment at such an offset does not fail.
#[verifier::external_body]
fn chrono_offset_text(secs: i64, nanos: u32, offset_secs: i32) -> (r: String)
    requires
        timestamp_representable(secs, nanos),
        -86_400 < offset_secs < 86_400,
    ensures
        r@ == offset_text(secs, nanos, offset_secs),
{
    let offset = chrono::FixedOffset::east_opt(offset_secs).unwrap();
    chrono::DateTime::from_timestamp(secs, nanos).unwrap().with_timezone(&offset).to_string()
}

/// Calls `chrono::Utc::now` and gives the moment as `DateTime::timestamp`
/// and `DateTime::timestamp_subsec_nanos` give it; chrono's documentation
/// guarantees that these two round-trip through `DateTime::from_timestamp`.
/// Which moment comes back depends on the clock and is left unsaid (off
/// wasm, the source panics on a clock set before 1970).
#[verifier::external_body]
fn chrono_now() -> (r: (i64, u32))
    ensures
        timestamp_representable(r.0, r.1),
{
    let now = chrono::Utc::now();
    (now.timestamp(), now.timestamp_subsec_nanos())
}

/// A moment in time: seconds and nanoseconds since 1970-01-01 00:00:00 UTC,
/// as `DateTime::timestamp` and `DateTime::timestamp_subsec_nanos` give them.
#[derive(Clone, Copy, Debug)]
pub struct Timestamp {
    secs: i64,
    nanos: u32,
}

impl Timestamp {
    #[verifier::type_invariant]
    spec fn representable(self) -> bool {
        timestamp_representable(self.secs, self.nanos)
    }

    /// The seconds since the epoch.
    pub closed spec fn secs_spec(self) -> i64 {
        self.secs
    }

    /// The nanoseconds past the second.
    pub closed spec fn nanos_spec(self) -> u32 {
        self.nanos
    }

    /// The moment, where `chrono` can represent it.
    pub fn new(secs: i64, nanos: u32) -> (r: Option<Timestamp>)
        ensures
            r is Some <==> timestamp_representable(secs, nanos),
            r matches Some(t) ==> t.secs_spec() == secs && t.nanos_spec() == nanos,
    {
        if chrono_accepts(secs, nanos) {
            Some(Timestamp { secs, nanos })
        } else {
            None
        }
    }

    /// The present moment, as the clock gives it.
    pub fn now() -> (r: Timestamp)
        ensures
            timestamp_representable(r.secs_spec(), r.nanos_spec()),
    {
        let (secs, nanos) = chrono_now();
        Timestamp { secs, nanos }
    }

    /// The seconds since the epoch.
    pub fn secs(&self) -> (r: i64)
        ensures
            r == self.secs_spec(),
    {
        self.secs
    }

    /// The nanoseconds past the second.
    pub fn nanos(&self) -> (r: u32)
        ensures
            r == self.nanos_spec(),
    {
        self.nanos
    }

    /// This moment as `chrono` displays it in UTC.
    pub fn utc_display(&self) -> (r: String)
        ensures
            r@ == utc_text(self.secs_spec(), self.nanos_spec()),
    {
        proof {
            use_type_invariant(self);
        }
        chrono_utc_text(self.secs, self.nanos)
    }

    /// This moment as `chrono` displays it at UTC+9.
    pub fn jst_display(&self) -> (r: String)
        ensures
            r@ == jst_text(self.secs_spec(), self.nanos_spec()),
    {
        proof {
            use_type_invariant(self);
        }
        chrono_offset_text(self.secs, self.nanos, JST_OFFSET)
    }

    /// Whether this moment is not later than `other`.
    pub fn not_after(&self, other: &Timestamp) -> (r: bool)
        ensures
            r == ts_le(*self, *other),
    {
        self.secs < other.secs || (self.secs == other.secs && self.nanos <= other.nanos)
    }
}

/// `a` is not later than `b`: the order of `DateTime<Utc>`, which is the
/// order of (seconds, nanoseconds), a leap second's nanoseconds running past
/// one second.
pub open spec fn ts_le(a: Timestamp, b: Timestamp) -> bool {
    a.secs_spec() < b.secs_spec() || (a.secs_spec() == b.secs_spec() && a.nanos_spec()
        <= b.nanos_spec())
}

/// A card's rarity.
#[derive(Clone, Copy, Debug, PartialEq, Eq, Structural)]
pub enum Rarity {
    N,
    R,
    SR,
    SSR,
}

/// How a rarity is displayed.
pub open spec fn rarity_text(r: Rarity) -> Seq<char> {
    match r {
        Rarity::N => "N"@,
        Rarity::R => "R"@,
        Rarity::SR => "SR"@,
        Rarity::SSR => "SSR"@,
    }
}

/// The number that stands for a rarity in the API.
pub open spec fn rarity_code(r: Rarity) -> nat {
    match r {
        Rarity::N => 1,
        Rarity::R => 2,
        Rarity::SR => 3,
        Rarity::SSR => 4,
    }
}

impl Rarity {
    /// How this rarity is displayed.
    pub fn as_str(&self) -> (r: &'static str)
        ensures
            r@ == rarity_text(*self),
    {
        match self {
            Rarity::N => "N",
            Rarity::R => "R",
            Rarity::SR => "SR",
            Rarity::SSR => "SSR",
        }
    }

    /// The rarity that `n` stands for in the API, if any.
    pub fn from_code(n: u8) -> (r: Option<Rarity>)
        ensures
            match r {
                Some(x) => rarity_code(x) == n,
                None => !(1 <= n <= 4),
            },
    {
        if n == 1 {
            Some(Rarity::N)
        } else if n == 2 {
            Some(Rarity::R)
        } else if n == 3 {
            Some(Rarity::SR)
        } else if n == 4 {
            Some(Rarity::SSR)
        } else {
            None
        }
    }
}

/// A skill of a card.
#[derive(Clone, Debug)]
pub struct SkillItem {
    pub id: u32,
    pub description: String,
    pub effect_id: u8,
    pub evaluation: u8,
    pub evaluation2: u8,
    pub duration: u32,
    pub interval: u32,
    pub probability: u32,
    pub value: Vec<u32>,
}

/// A costume.
#[derive(Clone, Debug)]
pub struct ConsumeItem {
    pub id: u32,
    pub name: String,
    pub description: String,
    pub resource_id: String,
    pub model_id: String,
    pub sort_id: u32,
}

/// A center effect.
#[derive(Clone, Debug)]
pub struct CenterEffectItem {
    pub id: u32,
    pub description: String,
    pub idol_type: u8,
    pub specific_idol_type: Option<u8>,
    pub attribute: u8,
    pub value: u32,
    pub song_type: Option<u8>,
    pub attribute2: Option<u32>,
    pub value2: Option<u32>,
}

/// A card.
#[derive(Clone, Debug)]
pub struct CardItem {
    pub id: u32,
    pub name: String,
    pub idol_id: u32,
    pub resource_id: String,
    pub rarity: Rarity,
    pub event_id: Option<u32>,
    pub category: String,
    pub extra_type: u32,
    pub costume: Option<ConsumeItem>,
    pub bonus_costume: Option<ConsumeItem>,
    pub rank5_costune: Option<ConsumeItem>,
    pub flavor_text: String,
    pub flavor_text_awakened: String,
    pub level_max: u32,
    pub level_max_awakened: u32,
    pub center_effect: Option<CenterEffectItem>,
    pub center_effect_name: String,
    pub skill: Option<Vec<SkillItem>>,
    pub skill_name: String,
    pub add_date: Option<Timestamp>,
}

/// A border: the score at a rank.
#[derive(Clone, Debug)]
pub struct ScoreItem {
    pub rank: u32,
    /// The score rounded to a whole number and written in decimal, where
    /// the rank has one.
    pub score: Option<String>,
}

/// The borders of one ranking.
#[derive(Clone, Debug)]
pub struct PointMetrics {
    pub scores: Vec<ScoreItem>,
    pub summary_time: Timestamp,
    pub count: u32,
}

/// The borders of an event.
#[derive(Clone, Debug)]
pub struct EventBorderView {
    pub event_point: PointMetrics,
    pub high_score: PointMetrics,
    pub lounge_point: PointMetrics,
}

/// When an event runs.
#[derive(Clone, Debug)]
pub struct EventSchedule {
    pub begin_date: Timestamp,
    pub end_date: Timestamp,
    pub page_begin_date: Timestamp,
    pub page_end_date: Timestamp,
    pub boost_begin_date: Option<Timestamp>,
    pub boost_end_date: Option<Timestamp>,
}

/// An event.
#[derive(Clone, Debug)]
pub struct Event {
    pub id: u32,
    pub name: String,
    /// See `event_type_name` in constants for the names of the types.
    pub typ: u32,
    pub schedule: EventSchedule,
}

/// The summary of an event: its name in bold, then when it starts and ends.
pub open spec fn event_summary_spec(e: Event) -> Seq<char> {
    "**"@ + e.name@ + "**\nStarts: "@ + utc_text(
        e.schedule.begin_date.secs_spec(),
        e.schedule.begin_date.nanos_spec(),
    ) + "\nEnds: "@ + utc_text(e.schedule.end_date.secs_spec(), e.schedule.end_date.nanos_spec())
        + "\n"@
}

impl Event {
    /// The summary of this event, three lines in Markdown.
    pub fn summary(&self) -> (r: String)
        ensures
            r@ == event_summary_spec(*self),
    {
        let mut s = String::new();
        s.append("**");
        s.append(self.name.as_str());
        s.append("**\nStarts: ");
        s.append(self.schedule.begin_date.utc_display().as_str());
        s.append("\nEnds: ");
        s.append(self.schedule.end_date.utc_display().as_str());
        s.append("\n");
        s
    }
}

/// The address of a card's picture.
pub open spec fn card_url_spec(card_res_id: Seq<char>, plus: bool, with_annotation: bool) -> Seq<
    char,
> {
    "https://storage.matsurihi.me/mltd/card/"@ + card_res_id + "_"@ + (if plus {
        "1"@
    } else {
        "0"@
    }) + "_"@ + (if with_annotation {
        "a"@
    } else {
        "b"@
    }) + ".png"@
}

/// The address of a card background's picture.
pub open spec fn card_bg_url_spec(card_res_id: Seq<char>, plus: bool) -> Seq<char> {
    "https://storage.matsurihi.me/mltd/card_bg/"@ + card_res_id + "_"@ + (if plus {
        "1"@
    } else {
        "0"@
    }) + ".png"@
}

/// Get a card's URL.
pub fn get_card_url(card_res_id: &str, plus: bool, with_annotation: bool) -> (r: String)
    ensures
        r@ == card_url_spec(card_res_id@, plus, with_annotation),
{
    let mut s = String::from_str("https://storage.matsurihi.me/mltd/card/");
    s.append(card_res_id);
    s.append("_");
    s.append(if plus { "1" } else { "0" });
    s.append("_");
    s.append(if with_annotation { "a" } else { "b" });
    s.append(".png");
    s
}

/// Get a card background's URL.
pub fn get_card_bg_url(card_res_id: &str, plus: bool) -> (r: String)
    ensures
        r@ == card_bg_url_spec(card_res_id@, plus),
{
    let mut s = String::from_str("https://storage.matsurihi.me/mltd/card_bg/");
    s.append(card_res_id);
    s.append("_");
    s.append(if plus { "1" } else { "0" });
    s.append(".png");
    s
}

/// Where all events are listed.
pub open spec fn events_url_spec() -> Seq<char> {
    "https://api.matsurihi.me/mltd/v1/events?prettyPrint=false"@
}

/// Where an event is described.
pub open spec fn event_url_spec(event_id: u32) -> Seq<char> {
    "https://api.matsurihi.me/mltd/v1/events/"@ + decimal(event_id as nat) + "?prettyPrint=false"@
}

/// Where the borders of an event are.
pub open spec fn event_borders_url_spec(event_id: u32) -> Seq<char> {
    "https://api.matsurihi.me/mltd/v1/events/"@ + decimal(event_id as nat)
        + "/rankings/borderPoints?prettyPrint=false"@
}

/// Where a card is described.
pub open spec fn card_api_url_spec(card_id: u32) -> Seq<char> {
    "https://api.matsurihi.me/mltd/v1/cards/"@ + decimal(card_id as nat) + "?prettyPrint=false"@
}

/// Where all cards are listed.
pub open spec fn all_cards_url_spec() -> Seq<char> {
    "https://api.matsurihi.me/mltd/v1/cards?prettyPrint=false"@
}

/// Where the cards of an idol are listed.
pub open spec fn idol_cards_url_spec(idol_id: u32) -> Seq<char> {
    "https://api.matsurihi.me/mltd/v1/cards?prettyPrint=false&idolId="@ + decimal(idol_id as nat)
}

/// Where all events are listed.
pub fn events_url() -> (r: String)
    ensures
        r@ == events_url_spec(),
{
    String::from_str("https://api.matsurihi.me/mltd/v1/events?prettyPrint=false")
}

/// Where an event is described.
pub fn event_url(event_id: u32) -> (r: String)
    ensures
        r@ == event_url_spec(event_id),
{
    let mut s = String::from_str("https://api.matsurihi.me/mltd/v1/events/");
    push_decimal(&mut s, event_id as u64);
    s.append("?prettyPrint=false");
    s
}

/// Where the borders of an event are.
pub fn event_borders_url(event_id: u32) -> (r: String)
    ensures
        r@ == event_borders_url_spec(event_id),
{
    let mut s = String::from_str("https://api.matsurihi.me/mltd/v1/events/");
    push_decimal(&mut s, event_id as u64);
    s.append("/rankings/borderPoints?prettyPrint=false");
    s
}

/// Where a card is described.
pub fn card_api_url(card_id: u32) -> (r: String)
    ensures
        r@ == card_api_url_spec(card_id),
{
    let mut s = String::from_str("https://api.matsurihi.me/mltd/v1/cards/");
    push_decimal(&mut s, card_id as u64);
    s.append("?prettyPrint=false");
    s
}

/// Where all cards are listed.
pub fn all_cards_url() -> (r: String)
    ensures
        r@ == all_cards_url_spec(),
{
    String::from_str("https://api.matsurihi.me/mltd/v1/cards?prettyPrint=false")
}

/// Where the cards of an idol are listed.
pub fn idol_cards_url(idol_id: u32) -> (r: String)
    ensures
        r@ == idol_cards_url_spec(idol_id),
{
    let mut s = String::from_str("https://api.matsurihi.me/mltd/v1/cards?prettyPrint=false&idolId=");
    push_decimal(&mut s, idol_id as u64);
    s
}

/// The event is running at `now`: it has begun and not yet ended.
pub open spec fn is_current(e: Event, now: Timestamp) -> bool {
    ts_le(e.schedule.begin_date, now) && ts_le(now, e.schedule.end_date)
}

/// The ids of the events that are running at `now`, in the order listed.
pub open spec fn current_ids_spec(events: Seq<Event>, now: Timestamp) -> Seq<u32>
    decreases events.len(),
{
    if events.len() == 0 {
        Seq::empty()
    } else {
        let rest = current_ids_spec(events.drop_last(), now);
        if is_current(events.last(), now) {
            rest.push(events.last().id)
        } else {
            rest
        }
    }
}

/// The events listed as running at `now` are those whose own begin and end
/// dates hold `now` (seconds, then nanoseconds, compared), in the order
/// listed; the page and boost dates play no part: an event that has ended
/// is not listed, however long its page stays open.
pub proof fn lemma_current_ids(events: Seq<Event>, e: Event, now: Timestamp)
    ensures
        current_ids_spec(Seq::<Event>::empty(), now) == Seq::<u32>::empty(),
        current_ids_spec(events.push(e), now) == current_ids_spec(events, now) + if ({
            let b = e.schedule.begin_date;
            let x = e.schedule.end_date;
            &&& (b.secs_spec() < now.secs_spec() || (b.secs_spec() == now.secs_spec()
                && b.nanos_spec() <= now.nanos_spec()))
            &&& (now.secs_spec() < x.secs_spec() || (now.secs_spec() == x.secs_spec()
                && now.nanos_spec() <= x.nanos_spec()))
        }) {
            seq![e.id]
        } else {
            Seq::<u32>::empty()
        },
{
    assert(events.push(e).drop_last() =~= events);
}

/// Get the IDs for all ongoing events among `events` at `now`.
pub fn get_current_event_ids(events: &Vec<Event>, now: &Timestamp) -> (r: Vec<u32>)
    ensures
        r@ == current_ids_spec(events@, *now),
{
    let mut r: Vec<u32> = Vec::new();
    let mut i: usize = 0;
    assert(events@.take(0) =~= Seq::<Event>::empty());
    while i < events.len()
        invariant
            i <= events.len(),
            r@ == current_ids_spec(events@.take(i as int), *now),
        decreases events.len() - i,
    {
        let e = &events[i];
        assert(events@.take(i + 1).drop_last() =~= events@.take(i as int));
        if e.schedule.begin_date.not_after(now) && now.not_after(&e.schedule.end_date) {
            r.push(e.id);
        }
        i = i + 1;
    }
    assert(events@.take(events@.len() as int) =~= events@);
    r
}

/// Get the IDs for all ongoing events among `events`: those running at the
/// present moment, whatever the clock gave.
pub fn current_event_ids(events: &Vec<Event>) -> (r: Vec<u32>)
    ensures
        exists|now: Timestamp|
            timestamp_representable(now.secs_spec(), now.nanos_spec()) && r@ == current_ids_spec(
                events@,
                now,
            ),
{
    let now = Timestamp::now();
    proof {
        use_type_invariant(&now);
    }
    get_current_event_ids(events, &now)
}

/// Get the metadata for a card from what the data source found for its id:
/// the first card found.
pub fn get_card(found: Vec<CardItem>) -> (r: Result<CardItem, BotError>)
    ensures
        found@.len() == 0 ==> r == Err::<CardItem, BotError>(BotError::NoCardFound),
        found@.len() > 0 ==> r == Ok::<CardItem, BotError>(found@[0]),
{
    let mut found = found;
    if found.len() == 0 {
        Err(BotError::NoCardFound)
    } else {
        Ok(found.remove(0))
    }
}

} // verus!
