//! ## /list_characters
//!
//! Lists the idols by group, then the cards of an idol, then shows a card.
use vstd::prelude::*;

use crate::callback_types::{encode_callback, encode_spec, BgStatus, CallbackType};
use crate::constants::{idol_name, idol_name_spec, PAGE_SIZE};
use crate::matsurihi::{
    card_bg_url_spec, card_url_spec, get_card, get_card_bg_url, get_card_url, rarity_text, CardItem,
    Rarity,
};
use crate::text::{decimal, push_decimal};
use crate::telegram::{
    add_row, button_content, callback_button, keyboard_rows, new_keyboard, row_content, Reply,
};
use crate::types::MessageIdentifier;
use crate::types::BotError;

verus! {

/// These are the categories of idols.
#[derive(Clone, Copy, Debug, Hash, PartialEq, Eq, Structural)]
pub enum IdolCategory {
    NamukoPro,
    PrincessStars,
    FairyStars,
    AngelStars,
}

/// The number that stands for a category in callback data.
pub open spec fn category_code(c: IdolCategory) -> nat {
    match c {
        IdolCategory::NamukoPro => 0,
        IdolCategory::PrincessStars => 1,
        IdolCategory::FairyStars => 2,
        IdolCategory::AngelStars => 3,
    }
}

/// The category that a number stands for in callback data.
pub open spec fn category_from_code_spec(n: nat) -> Option<IdolCategory> {
    if n == 0 {
        Some(IdolCategory::NamukoPro)
    } else if n == 1 {
        Some(IdolCategory::PrincessStars)
    } else if n == 2 {
        Some(IdolCategory::FairyStars)
    } else if n == 3 {
        Some(IdolCategory::AngelStars)
    } else {
        None
    }
}

impl IdolCategory {
    /// The number that stands for this category in callback data.
    pub fn code(&self) -> (r: u32)
        ensures
            r as nat == category_code(*self),
    {
        match self {
            IdolCategory::NamukoPro => 0,
            IdolCategory::PrincessStars => 1,
            IdolCategory::FairyStars => 2,
            IdolCategory::AngelStars => 3,
        }
    }

    /// The category that `n` stands for in callback data, if any.
    pub fn from_code(n: u32) -> (r: Option<IdolCategory>)
        ensures
            r == category_from_code_spec(n as nat),
    {
        if n == 0 {
            Some(IdolCategory::NamukoPro)
        } else if n == 1 {
            Some(IdolCategory::PrincessStars)
        } else if n == 2 {
            Some(IdolCategory::FairyStars)
        } else if n == 3 {
            Some(IdolCategory::AngelStars)
        } else {
            None
        }
    }
}

/// The idols of a group, by internal ID.
pub open spec fn category_members_spec(c: IdolCategory) -> Seq<u32> {
    match c {
        IdolCategory::NamukoPro => seq![1u32, 2, 3, 4, 5, 6, 7, 8, 9, 10, 11, 12, 13],
        IdolCategory::PrincessStars => seq![14u32, 17, 19, 21, 26, 27, 28, 29, 30, 32, 36, 37, 43],
        IdolCategory::FairyStars => seq![15u32, 20, 25, 31, 33, 34, 38, 44, 46, 47, 49, 50, 51],
        IdolCategory::AngelStars => seq![16u32, 18, 22, 23, 24, 35, 39, 40, 41, 42, 45, 48, 52],
    }
}

/// The name of a group.
pub open spec fn category_name_spec(c: IdolCategory) -> Seq<char> {
    match c {
        IdolCategory::NamukoPro => "765PRO Allstars"@,
        IdolCategory::PrincessStars => "Princess Stars"@,
        IdolCategory::FairyStars => "Fairy Stars"@,
        IdolCategory::AngelStars => "Angel Stars"@,
    }
}

/// The groups in the order the bot offers them.
pub open spec fn all_categories() -> Seq<IdolCategory> {
    seq![
        IdolCategory::NamukoPro,
        IdolCategory::PrincessStars,
        IdolCategory::FairyStars,
        IdolCategory::AngelStars,
    ]
}

/// The group that lists an idol, if one does.
pub open spec fn idol_group_spec(idol_id: u32) -> Option<IdolCategory> {
    if exists|c: IdolCategory| category_members_spec(c).contains(idol_id) {
        Some(choose|c: IdolCategory| category_members_spec(c).contains(idol_id))
    } else {
        None
    }
}

/// The idols of a group, by internal ID.
pub fn category_members(c: &IdolCategory) -> (r: Vec<u32>)
    ensures
        r@ == category_members_spec(*c),
{
    match c {
        IdolCategory::NamukoPro => vec![1, 2, 3, 4, 5, 6, 7, 8, 9, 10, 11, 12, 13],
        IdolCategory::PrincessStars => vec![14, 17, 19, 21, 26, 27, 28, 29, 30, 32, 36, 37, 43],
        IdolCategory::FairyStars => vec![15, 20, 25, 31, 33, 34, 38, 44, 46, 47, 49, 50, 51],
        IdolCategory::AngelStars => vec![16, 18, 22, 23, 24, 35, 39, 40, 41, 42, 45, 48, 52],
    }
}

/// The name of a group.
pub fn category_name(c: &IdolCategory) -> (r: &'static str)
    ensures
        r@ == category_name_spec(*c),
{
    match c {
        IdolCategory::NamukoPro => "765PRO Allstars",
        IdolCategory::PrincessStars => "Princess Stars",
        IdolCategory::FairyStars => "Fairy Stars",
        IdolCategory::AngelStars => "Angel Stars",
    }
}

/// Every idol that a group lists has a name.
pub proof fn lemma_members_named(c: IdolCategory, k: int)
    requires
        0 <= k < category_members_spec(c).len(),
    ensures
        idol_name_spec(category_members_spec(c)[k]) is Some,
        1 <= category_members_spec(c)[k] <= 52,
{
}

/// No idol is in two groups.
pub proof fn lemma_groups_disjoint(a: IdolCategory, b: IdolCategory, idol_id: u32)
    requires
        category_members_spec(a).contains(idol_id),
        category_members_spec(b).contains(idol_id),
    ensures
        a == b,
{
    let i = choose|i: int|
        0 <= i < category_members_spec(a).len() && category_members_spec(a)[i] == idol_id;
    let j = choose|j: int|
        0 <= j < category_members_spec(b).len() && category_members_spec(b)[j] == idol_id;
}

/// The group of an idol that some group lists.
pub proof fn lemma_idol_group(c: IdolCategory, idol_id: u32)
    requires
        category_members_spec(c).contains(idol_id),
    ensures
        idol_group_spec(idol_id) == Some(c),
{
    let d = choose|d: IdolCategory| category_members_spec(d).contains(idol_id);
    lemma_groups_disjoint(c, d, idol_id);
}

/// Every idol, with IDs 1 to 52, is in a group.
pub proof fn lemma_named_idols_grouped(idol_id: u32)
    requires
        idol_name_spec(idol_id) is Some,
    ensures
        idol_group_spec(idol_id) is Some,
{
    let (c, k) = group_position(idol_id);
    assert(category_members_spec(c)[k] == idol_id);
    assert(category_members_spec(c).contains(idol_id));
}

/// The groups and their idols, thirteen each: 765PRO Allstars 1 to 13;
/// Princess Stars 14, 17, 19, 21, 26 to 30, 32, 36, 37, 43; Fairy Stars 15,
/// 20, 25, 31, 33, 34, 38, 44, 46, 47, 49 to 51; Angel Stars 16, 18, 22 to
/// 24, 35, 39 to 42, 45, 48, 52. Each of these idols is found in its group.
pub proof fn lemma_group_table()
    ensures
        category_members_spec(IdolCategory::NamukoPro) == seq![
            1u32, 2, 3, 4, 5, 6, 7, 8, 9, 10, 11, 12, 13
        ],
        category_members_spec(IdolCategory::PrincessStars) == seq![
            14u32, 17, 19, 21, 26, 27, 28, 29, 30, 32, 36, 37, 43
        ],
        category_members_spec(IdolCategory::FairyStars) == seq![
            15u32, 20, 25, 31, 33, 34, 38, 44, 46, 47, 49, 50, 51
        ],
        category_members_spec(IdolCategory::AngelStars) == seq![
            16u32, 18, 22, 23, 24, 35, 39, 40, 41, 42, 45, 48, 52
        ],
        forall|c: IdolCategory, k: int|
            0 <= k < category_members_spec(c).len() ==> idol_group_spec(
                #[trigger] category_members_spec(c)[k],
            ) == Some(c),
        idol_group_spec(52) == Some(IdolCategory::AngelStars),
        idol_group_spec(14) == Some(IdolCategory::PrincessStars),
        idol_group_spec(1) == Some(IdolCategory::NamukoPro),
        idol_group_spec(15) == Some(IdolCategory::FairyStars),
{
    assert forall|c: IdolCategory, k: int|
        0 <= k < category_members_spec(c).len() implies idol_group_spec(
            #[trigger] category_members_spec(c)[k],
        ) == Some(c) by {
        assert(category_members_spec(c).contains(category_members_spec(c)[k]));
        lemma_idol_group(c, category_members_spec(c)[k]);
    }
    assert(category_members_spec(IdolCategory::AngelStars)[12] == 52);
    assert(category_members_spec(IdolCategory::PrincessStars)[0] == 14);
    assert(category_members_spec(IdolCategory::NamukoPro)[0] == 1);
    assert(category_members_spec(IdolCategory::FairyStars)[0] == 15);
}

/// Where an idol stands in the lists of the groups.
spec fn group_position(idol_id: u32) -> (IdolCategory, int) {
    let p = IdolCategory::PrincessStars;
    let f = IdolCategory::FairyStars;
    let a = IdolCategory::AngelStars;
    if 1 <= idol_id <= 13 {
        (IdolCategory::NamukoPro, idol_id - 1)
    } else if idol_id == 14 { (p, 0) } else if idol_id == 17 { (p, 1) }
    else if idol_id == 19 { (p, 2) } else if idol_id == 21 { (p, 3) }
    else if idol_id == 26 { (p, 4) } else if idol_id == 27 { (p, 5) }
    else if idol_id == 28 { (p, 6) } else if idol_id == 29 { (p, 7) }
    else if idol_id == 30 { (p, 8) } else if idol_id == 32 { (p, 9) }
    else if idol_id == 36 { (p, 10) } else if idol_id == 37 { (p, 11) }
    else if idol_id == 43 { (p, 12) }
    else if idol_id == 15 { (f, 0) } else if idol_id == 20 { (f, 1) }
    else if idol_id == 25 { (f, 2) } else if idol_id == 31 { (f, 3) }
    else if idol_id == 33 { (f, 4) } else if idol_id == 34 { (f, 5) }
    else if idol_id == 38 { (f, 6) } else if idol_id == 44 { (f, 7) }
    else if idol_id == 46 { (f, 8) } else if idol_id == 47 { (f, 9) }
    else if idol_id == 49 { (f, 10) } else if idol_id == 50 { (f, 11) }
    else if idol_id == 51 { (f, 12) }
    else if idol_id == 16 { (a, 0) } else if idol_id == 18 { (a, 1) }
    else if idol_id == 22 { (a, 2) } else if idol_id == 23 { (a, 3) }
    else if idol_id == 24 { (a, 4) } else if idol_id == 35 { (a, 5) }
    else if idol_id == 39 { (a, 6) } else if idol_id == 40 { (a, 7) }
    else if idol_id == 41 { (a, 8) } else if idol_id == 42 { (a, 9) }
    else if idol_id == 45 { (a, 10) } else if idol_id == 48 { (a, 11) }
    else { (a, 12) }
}

/// Whether `v` holds `x`.
fn vec_contains(v: &Vec<u32>, x: u32) -> (r: bool)
    ensures
        r == v@.contains(x),
{
    let mut i: usize = 0;
    while i < v.len()
        invariant
            i <= v.len(),
            forall|j: int| 0 <= j < i ==> v@[j] != x,
        decreases v.len() - i,
    {
        if v[i] == x {
            assert(v@[i as int] == x);
            return true;
        }
        i = i + 1;
    }
    false
}

/// The group of an idol; an error where no group lists the idol.
pub fn find_idol_category(idol_id: &u32) -> (r: Result<IdolCategory, BotError>)
    ensures
        r == match idol_group_spec(*idol_id) {
            Some(c) => Ok::<IdolCategory, BotError>(c),
            None => Err(BotError::IdolNotFound),
        },
{
    let cats = [
        IdolCategory::NamukoPro,
        IdolCategory::PrincessStars,
        IdolCategory::FairyStars,
        IdolCategory::AngelStars,
    ];
    let mut i: usize = 0;
    while i < 4
        invariant
            i <= 4,
            cats@ == all_categories(),
            forall|j: int| 0 <= j < i ==> !category_members_spec(#[trigger] cats@[j]).contains(*idol_id),
        decreases 4 - i,
    {
        let c = cats[i];
        if vec_contains(&category_members(&c), *idol_id) {
            proof {
                lemma_idol_group(c, *idol_id);
            }
            return Ok(c);
        }
        i = i + 1;
    }
    proof {
        assert forall|c: IdolCategory| !category_members_spec(c).contains(*idol_id) by {
            match c {
                IdolCategory::NamukoPro => assert(cats@[0] == c),
                IdolCategory::PrincessStars => assert(cats@[1] == c),
                IdolCategory::FairyStars => assert(cats@[2] == c),
                IdolCategory::AngelStars => assert(cats@[3] == c),
            }
        }
    }
    Err(BotError::IdolNotFound)
}

/// A button: its label and its callback data.
pub type ButtonView = (Seq<char>, Seq<char>);

/// The button of a group in the first menu: it lists the group's idols in a
/// new message.
pub open spec fn group_button(c: IdolCategory) -> ButtonView {
    (
        category_name_spec(c),
        encode_spec(CallbackType::ListIdolCategory { category: c, force_new_msg: true }),
    )
}

/// The first menu: one group a row.
pub open spec fn group_menu_rows() -> Seq<Seq<ButtonView>> {
    all_categories().map_values(|c: IdolCategory| seq![group_button(c)])
}

/// The text of the first menu.
pub open spec fn group_menu_text() -> Seq<char> {
    "Select a group..."@
}

/// `r` answers the command's message `msg` with the menu of the groups.
pub open spec fn is_group_menu_reply(r: Reply, msg: MessageIdentifier) -> bool {
    r matches Reply::SendMessage { chat, text, parse_mode, reply_to, keyboard } && chat == msg.chat
        && text@ == group_menu_text() && parse_mode is None && reply_to == Some(msg.id)
        && keyboard is Some && keyboard_rows(keyboard.unwrap()) == group_menu_rows()
}

/// ## /list_characters
///
/// This command lists all characters for card lookup: it answers the
/// command's message with a menu of the groups.
pub fn handler(msg: MessageIdentifier) -> (r: Reply)
    ensures
        is_group_menu_reply(r, msg),
{
    let cats = [
        IdolCategory::NamukoPro,
        IdolCategory::PrincessStars,
        IdolCategory::FairyStars,
        IdolCategory::AngelStars,
    ];
    let mut kb = new_keyboard();
    let mut i: usize = 0;
    while i < 4
        invariant
            i <= 4,
            cats@ == all_categories(),
            keyboard_rows(kb) == group_menu_rows().take(i as int),
        decreases 4 - i,
    {
        let c = cats[i];
        let data = encode_callback(&CallbackType::ListIdolCategory { category: c, force_new_msg: true });
        let btn = callback_button(category_name(&c), data.as_str());
        let ghost old_rows = keyboard_rows(kb);
        let row = vec![btn];
        assert(row_content(row@) =~= seq![group_button(c)]);
        add_row(&mut kb, row);
        i = i + 1;
        assert(keyboard_rows(kb) =~= group_menu_rows().take(i as int));
    }
    assert(group_menu_rows().take(4) =~= group_menu_rows());
    Reply::SendMessage {
        chat: msg.chat,
        text: String::from_str("Select a group..."),
        parse_mode: None,
        reply_to: Some(msg.id),
        keyboard: Some(kb),
    }
}

/// The button of an idol in a group's menu: it lists the idol's cards from
/// page 1.
pub open spec fn idol_button(idol_id: u32) -> ButtonView {
    (
        idol_name_spec(idol_id).unwrap(),
        encode_spec(CallbackType::ListIdol { idol_id, page_id: 1 }),
    )
}

/// `ids` three a row, the last row holding what is left.
pub open spec fn idol_rows(ids: Seq<u32>) -> Seq<Seq<ButtonView>>
    decreases ids.len(),
{
    if ids.len() == 0 {
        Seq::empty()
    } else {
        let m = if ids.len() < 3 {
            ids.len() as int
        } else {
            3
        };
        seq![ids.take(m).map_values(|i: u32| idol_button(i))] + idol_rows(ids.skip(m))
    }
}

/// The text of a group's menu.
pub open spec fn group_text(c: IdolCategory) -> Seq<char> {
    "You've selected: "@ + category_name_spec(c) + "\nNow select an idol..."@
}

/// The rows of buttons of a group's idols.
fn idol_keyboard(members: &Vec<u32>) -> (kb: telegram_bot_raw::InlineKeyboardMarkup)
    requires
        forall|k: int| 0 <= k < members@.len() ==> idol_name_spec(#[trigger] members@[k]) is Some,
    ensures
        keyboard_rows(kb) == idol_rows(members@),
{
    let mut kb = new_keyboard();
    let mut i: usize = 0;
    assert(members@.skip(0) =~= members@);
    while i < members.len()
        invariant
            i <= members.len(),
            forall|k: int| 0 <= k < members@.len() ==> idol_name_spec(#[trigger] members@[k]) is Some,
            keyboard_rows(kb) + idol_rows(members@.skip(i as int)) == idol_rows(members@),
        decreases members.len() - i,
    {
        let m: usize = if members.len() - i < 3 { members.len() - i } else { 3 };
        let ghost rest = members@.skip(i as int);
        let mut row: Vec<telegram_bot_raw::InlineKeyboardButton> = Vec::new();
        let mut j: usize = 0;
        while j < m
            invariant
                j <= m,
                i + m <= members.len(),
                rest == members@.skip(i as int),
                forall|k: int| 0 <= k < members@.len() ==> idol_name_spec(#[trigger] members@[k]) is Some,
                row_content(row@) == rest.take(j as int).map_values(|x: u32| idol_button(x)),
            decreases m - j,
        {
            let id = members[i + j];
            assert(idol_name_spec(members@[(i + j) as int]) is Some);
            let name = idol_name(id).unwrap();
            let data = encode_callback(&CallbackType::ListIdol { idol_id: id, page_id: 1 });
            let btn = callback_button(name, data.as_str());
            let ghost old_row = row@;
            row.push(btn);
            j = j + 1;
            assert(rest[j - 1] == id);
            assert(button_content(btn) == idol_button(id));
            assert(row_content(row@) =~= row_content(old_row).push(button_content(btn)));
            assert(rest.take(j as int) =~= rest.take(j - 1).push(id));
            assert(rest.take(j as int).map_values(|x: u32| idol_button(x)) =~= rest.take(
                j - 1,
            ).map_values(|x: u32| idol_button(x)).push(idol_button(id)));
        }
        let ghost old_rows = keyboard_rows(kb);
        add_row(&mut kb, row);
        proof {
            assert(rest.skip(m as int) =~= members@.skip(i + m));
            assert(idol_rows(rest) == seq![rest.take(m as int).map_values(|x: u32| idol_button(x))]
                + idol_rows(rest.skip(m as int)));
            assert(keyboard_rows(kb) + idol_rows(members@.skip(i + m)) =~= old_rows + idol_rows(
                rest,
            ));
        }
        i = i + m;
    }
    assert(idol_rows(members@.skip(members.len() as int)) =~= Seq::<Seq<ButtonView>>::empty());
    assert(keyboard_rows(kb) + Seq::<Seq<ButtonView>>::empty() =~= keyboard_rows(kb));
    kb
}

/// The reply of step 2 for `idol_category`: the group's idols, as a new
/// message that answers `msgid` where `force_new_msg`, else in place of it.
pub open spec fn is_step_2_reply(
    r: Reply,
    idol_category: IdolCategory,
    force_new_msg: bool,
    msgid: MessageIdentifier,
) -> bool {
    &&& force_new_msg ==> (r matches Reply::SendMessage {
        chat,
        text,
        parse_mode,
        reply_to,
        keyboard,
    } && chat == msgid.chat && text@ == group_text(idol_category) && parse_mode is None
        && reply_to == Some(msgid.id) && keyboard is Some && keyboard_rows(keyboard.unwrap())
        == idol_rows(category_members_spec(idol_category)))
    &&& !force_new_msg ==> (r matches Reply::EditMessageText { chat, message_id, text, keyboard }
        && chat == msgid.chat && message_id == msgid.id && text@ == group_text(idol_category)
        && keyboard_rows(keyboard) == idol_rows(category_members_spec(idol_category)))
}

/// Callback for /list_characters.
///
/// This shall be the step 2 (character selection) of /list_characters: the
/// group's idols, three a row, in a new message answering `msgid` or in
/// place of `msgid`.
pub fn respond_step_2(idol_category: IdolCategory, force_new_msg: bool, msgid: MessageIdentifier) -> (r: Reply)
    ensures
        is_step_2_reply(r, idol_category, force_new_msg, msgid),
{
    let members = category_members(&idol_category);
    proof {
        assert forall|k: int| 0 <= k < members@.len() implies idol_name_spec(
            #[trigger] members@[k],
        ) is Some by {
            lemma_members_named(idol_category, k);
        }
    }
    let kb = idol_keyboard(&members);
    let mut text = String::from_str("You've selected: ");
    text.append(category_name(&idol_category));
    text.append("\nNow select an idol...");
    if force_new_msg {
        Reply::SendMessage {
            chat: msgid.chat,
            text,
            parse_mode: None,
            reply_to: Some(msgid.id),
            keyboard: Some(kb),
        }
    } else {
        Reply::EditMessageText { chat: msgid.chat, message_id: msgid.id, text, keyboard: kb }
    }
}

/// How a card's background is first shown: hidden where it has one (SSR).
pub open spec fn initial_bg(r: Rarity) -> BgStatus {
    if r == Rarity::SSR {
        BgStatus::No
    } else {
        BgStatus::Unset
    }
}

/// The button of a card in an idol's card list: it shows the card, with
/// annotation and as awakened (plus).
pub open spec fn card_button(c: CardItem) -> ButtonView {
    (
        c.name@ + " ["@ + rarity_text(c.rarity) + "]"@,
        encode_spec(
            CallbackType::IdolCard {
                card_id: c.id,
                with_annotation: true,
                with_plus: true,
                bg: initial_bg(c.rarity),
            },
        ),
    )
}

/// The cards on page `page_id` (from 1) of a list, `PAGE_SIZE` a page.
pub open spec fn page_cards(cards: Seq<CardItem>, page_id: u32) -> Seq<CardItem> {
    let from = (page_id - 1) * PAGE_SIZE;
    if from >= cards.len() {
        Seq::empty()
    } else if from + PAGE_SIZE >= cards.len() {
        cards.subrange(from, cards.len() as int)
    } else {
        cards.subrange(from, from + PAGE_SIZE)
    }
}

/// The number of pages of a list of `total` cards: `total / PAGE_SIZE`
/// rounded up.
pub open spec fn page_count(total: nat) -> nat {
    (total + PAGE_SIZE - 1) as nat / (PAGE_SIZE as nat)
}

/// Of a list of `total` cards, page `page_id` has a next page (its "Next"
/// button shows) exactly when it comes before the last page, and it holds
/// cards exactly when it is one of the `page_count(total)` pages.
pub proof fn lemma_page_bounds(cards: Seq<CardItem>, page_id: u32)
    requires
        page_id >= 1,
    ensures
        (page_id * PAGE_SIZE < cards.len()) <==> page_id < page_count(cards.len()),
        (page_cards(cards, page_id).len() > 0) <==> page_id <= page_count(cards.len()),
{
    assert(PAGE_SIZE == 10);
    let n = cards.len() as int;
    let q = page_count(cards.len()) as int;
    let p = page_id as int;
    assert(q == (n + 9) / 10);
    assert(10 * q <= n + 9 < 10 * q + 10) by (nonlinear_arith)
        requires
            q == (n + 9) / 10,
            n >= 0,
    ;
}

/// Every card of a list stands on one page: card `i` is card
/// `i % PAGE_SIZE` of page `i / PAGE_SIZE + 1`.
pub proof fn lemma_page_holds(cards: Seq<CardItem>, i: int)
    requires
        0 <= i < cards.len(),
        i / (PAGE_SIZE as int) + 1 <= u32::MAX,
    ensures
        ({
            let page = page_cards(cards, (i / (PAGE_SIZE as int) + 1) as u32);
            &&& i % (PAGE_SIZE as int) < page.len()
            &&& page[i % (PAGE_SIZE as int)] == cards[i]
        }),
{
    assert(PAGE_SIZE == 10);
    let k = i / 10;
    let r = i % 10;
    assert(i == 10 * k + r && 0 <= r < 10) by (nonlinear_arith)
        requires
            k == i / 10,
            r == i % 10,
            i >= 0,
    ;
    let page_id = (k + 1) as u32;
    assert((page_id - 1) * PAGE_SIZE == 10 * k);
}

/// Pages 1 to `n` of a list, one after the other.
pub open spec fn pages_up_to(cards: Seq<CardItem>, n: nat) -> Seq<CardItem>
    decreases n,
{
    if n == 0 {
        Seq::empty()
    } else {
        pages_up_to(cards, (n - 1) as nat) + page_cards(cards, n as u32)
    }
}

proof fn lemma_pages_prefix(cards: Seq<CardItem>, n: nat)
    requires
        n <= page_count(cards.len()),
        n <= u32::MAX,
    ensures
        pages_up_to(cards, n) == cards.take(if n * 10 <= cards.len() {
            (n * 10) as int
        } else {
            cards.len() as int
        }),
    decreases n,
{
    assert(PAGE_SIZE == 10);
    if n > 0 {
        lemma_pages_prefix(cards, (n - 1) as nat);
        let len = cards.len() as int;
        let q = page_count(cards.len()) as int;
        assert(10 * q <= len + 9) by (nonlinear_arith)
            requires
                q == (len + 9) / 10,
                len >= 0,
        ;
        assert((n - 1) * 10 < len);
        let page_id = n as u32;
        assert((page_id - 1) * PAGE_SIZE == (n - 1) * 10);
        let prev = cards.take((n - 1) * 10);
        let hi = (n * 10) as int;
        if hi <= len {
            assert(cards.take(hi) =~= prev + cards.subrange((n - 1) * 10, hi));
        } else {
            assert(cards.take(len) =~= prev + cards.subrange((n - 1) * 10, len));
        }
    }
}

/// The pages of a list, one after the other, are the list: every card is
/// listed once, in order.
pub proof fn lemma_pages_cover(cards: Seq<CardItem>)
    requires
        page_count(cards.len()) <= u32::MAX,
    ensures
        pages_up_to(cards, page_count(cards.len())) == cards,
{
    assert(PAGE_SIZE == 10);
    let len = cards.len() as int;
    let q = page_count(cards.len()) as int;
    assert(len <= 10 * q) by (nonlinear_arith)
        requires
            q == (len + 9) / 10,
            len >= 0,
    ;
    lemma_pages_prefix(cards, q as nat);
    assert(cards.take(len) =~= cards);
}

/// The last row of a card list: back a page where there is one before, up
/// to the idol's group, on a page where there is one after.
pub open spec fn pagination_row(idol_id: u32, page_id: u32, total: nat) -> Seq<ButtonView> {
    (if page_id > 1 {
        seq![("Prev"@, encode_spec(CallbackType::ListIdol { idol_id, page_id: (page_id - 1) as u32 }))]
    } else {
        Seq::empty()
    }) + seq![
        (
            "Up"@,
            encode_spec(
                CallbackType::ListIdolCategory {
                    category: idol_group_spec(idol_id).unwrap(),
                    force_new_msg: false,
                },
            ),
        ),
    ] + (if page_id * PAGE_SIZE < total {
        seq![("Next"@, encode_spec(CallbackType::ListIdol { idol_id, page_id: (page_id + 1) as u32 }))]
    } else {
        Seq::empty()
    })
}

/// The rows of a card list's page: one card a row, then the pagination row.
pub open spec fn card_page_rows(idol_id: u32, page_id: u32, cards: Seq<CardItem>) -> Seq<Seq<ButtonView>> {
    page_cards(cards, page_id).map_values(|c: CardItem| seq![card_button(c)]).push(
        pagination_row(idol_id, page_id, cards.len()),
    )
}

/// The title of a card list's page.
pub open spec fn card_page_title(idol_id: u32, page_id: u32, total: nat) -> Seq<char> {
    "Showing cards of "@ + idol_name_spec(idol_id).unwrap() + "...\nPage "@ + decimal(page_id as nat)
        + " / "@ + decimal(page_count(total))
}

/// The label of a card's button.
fn card_label(c: &CardItem) -> (r: String)
    ensures
        r@ == card_button(*c).0,
{
    let mut s = String::from_str(c.name.as_str());
    s.append(" [");
    s.append(c.rarity.as_str());
    s.append("]");
    s
}

/// `r` shows page `page_id` of the idol's cards `cards` in place of `msgid`.
pub open spec fn is_card_page_reply(
    r: Reply,
    idol_id: u32,
    page_id: u32,
    msgid: MessageIdentifier,
    cards: Seq<CardItem>,
) -> bool {
    r matches Reply::EditMessageText { chat, message_id, text, keyboard } && chat == msgid.chat
        && message_id == msgid.id && text@ == card_page_title(idol_id, page_id, cards.len())
        && keyboard_rows(keyboard) == card_page_rows(idol_id, page_id, cards)
}

/// Page `page_id` of the idol's cards `cards` (as the data source lists
/// them), in place of `msgid`.
pub fn card_page_reply(idol_id: u32, page_id: u32, msgid: MessageIdentifier, cards: &Vec<CardItem>) -> (r: Reply)
    requires
        page_id >= 1,
        idol_name_spec(idol_id) is Some,
        page_id == u32::MAX ==> page_id * PAGE_SIZE >= cards@.len(),
    ensures
        is_card_page_reply(r, idol_id, page_id, msgid, cards@),
{
    let name = idol_name(idol_id).unwrap();
    let len = cards.len();
    assert(PAGE_SIZE == 10);
    let from: u64 = (page_id as u64 - 1) * 10;
    assert(from == (page_id - 1) * PAGE_SIZE);
    let page = Ghost(page_cards(cards@, page_id));
    let mut kb = new_keyboard();
    let start: u64 = if from >= len as u64 { len as u64 } else { from };
    let stop: u64 = if from >= len as u64 {
        len as u64
    } else if from + 10 >= len as u64 {
        len as u64
    } else {
        from + 10
    };
    assert(page@ =~= cards@.subrange(start as int, stop as int));
    let mut i: u64 = start;
    while i < stop
        invariant
            start <= i <= stop <= len,
            len == cards@.len(),
            page@ == cards@.subrange(start as int, stop as int),
            keyboard_rows(kb) == page@.take(i - start).map_values(|c: CardItem| seq![card_button(c)]),
        decreases stop - i,
    {
        let c = &cards[i as usize];
        let label = card_label(c);
        let bg = if c.rarity == Rarity::SSR { BgStatus::No } else { BgStatus::Unset };
        let data = encode_callback(
            &CallbackType::IdolCard { card_id: c.id, with_annotation: true, with_plus: true, bg },
        );
        let btn = callback_button(label.as_str(), data.as_str());
        let row = vec![btn];
        let ghost old_rows = keyboard_rows(kb);
        assert(row_content(row@) =~= seq![card_button(*c)]);
        add_row(&mut kb, row);
        i = i + 1;
        proof {
            assert(page@[i - start - 1] == *c);
            assert(page@.take(i - start) =~= page@.take(i - start - 1).push(*c));
            assert(keyboard_rows(kb) =~= page@.take(i - start).map_values(
                |c: CardItem| seq![card_button(c)],
            ));
        }
    }
    assert(page@.take(stop - start) =~= page@);
    let mut pagination: Vec<telegram_bot_raw::InlineKeyboardButton> = Vec::new();
    if page_id > 1 {
        let data = encode_callback(&CallbackType::ListIdol { idol_id, page_id: page_id - 1 });
        pagination.push(callback_button("Prev", data.as_str()));
    }
    proof {
        lemma_named_idols_grouped(idol_id);
    }
    let category = find_idol_category(&idol_id).unwrap();
    let up = encode_callback(&CallbackType::ListIdolCategory { category, force_new_msg: false });
    pagination.push(callback_button("Up", up.as_str()));
    if (page_id as u64) * (PAGE_SIZE as u64) < len as u64 {
        let data = encode_callback(&CallbackType::ListIdol { idol_id, page_id: page_id + 1 });
        pagination.push(callback_button("Next", data.as_str()));
    }
    proof {
        reveal_strlit("Prev");
        reveal_strlit("Up");
        reveal_strlit("Next");
        assert(row_content(pagination@) =~= pagination_row(idol_id, page_id, len as nat));
    }
    let ghost page_rows = keyboard_rows(kb);
    add_row(&mut kb, pagination);
    let mut title = String::from_str("Showing cards of ");
    title.append(name);
    title.append("...\nPage ");
    push_decimal(&mut title, page_id as u64);
    title.append(" / ");
    let pages: u64 = (len as u64) / (PAGE_SIZE as u64) + if (len as u64) % (PAGE_SIZE as u64)
        != 0 {
        1
    } else {
        0
    };
    assert(pages == page_count(len as nat));
    push_decimal(&mut title, pages);
    Reply::EditMessageText { chat: msgid.chat, message_id: msgid.id, text: title, keyboard: kb }
}

/// The background status a card is shown with: where it is not known yet,
/// hidden for an SSR card (which has one) and unset for others.
pub open spec fn real_bg(bg: BgStatus, r: Rarity) -> BgStatus {
    if bg == BgStatus::Unset {
        initial_bg(r)
    } else {
        bg
    }
}

/// The buttons under a shown card: toggle awakened (plus); toggle
/// annotation, unless the background is shown; toggle background, where the
/// card has one (that button also toggles the annotation).
pub open spec fn card_view_buttons(
    card_id: u32,
    with_annotation: bool,
    with_plus: bool,
    rb: BgStatus,
    r: Rarity,
) -> Seq<ButtonView> {
    seq![
        (
            "Toggle "@ + rarity_text(r) + "/"@ + rarity_text(r) + "+"@,
            encode_spec(CallbackType::IdolCard { card_id, with_annotation, with_plus: !with_plus, bg: rb }),
        ),
    ] + (if rb != BgStatus::Yes {
        seq![
            (
                "Toggle annotation"@,
                encode_spec(
                    CallbackType::IdolCard {
                        card_id,
                        with_annotation: !with_annotation,
                        with_plus,
                        bg: rb,
                    },
                ),
            ),
        ]
    } else {
        Seq::empty()
    }) + (if rb != BgStatus::Unset {
        seq![
            (
                "Toggle background"@,
                encode_spec(
                    CallbackType::IdolCard {
                        card_id,
                        with_annotation: !with_annotation,
                        with_plus,
                        bg: if rb == BgStatus::Yes {
                            BgStatus::No
                        } else {
                            BgStatus::Yes
                        },
                    },
                ),
            ),
        ]
    } else {
        Seq::empty()
    })
}

/// The background status that the background button switches to.
pub open spec fn other_bg(rb: BgStatus) -> BgStatus {
    if rb == BgStatus::Yes {
        BgStatus::No
    } else {
        BgStatus::Yes
    }
}

/// The buttons under a shown card each carry the data of the same card
/// shown again with one thing toggled: the first the awakened form; the annotation button (shown
/// unless the background is) the annotation; the last, where the card has a
/// background, the background and the annotation with it. Under the view that
/// a button leads to, the same button leads back.
pub proof fn lemma_toggle_buttons(card_id: u32, a: bool, p: bool, bg: BgStatus, r: Rarity)
    ensures
        ({
            let rb = real_bg(bg, r);
            let here = CallbackType::IdolCard { card_id, with_annotation: a, with_plus: p, bg: rb };
            let bs = card_view_buttons(card_id, a, p, rb, r);
            &&& real_bg(rb, r) == rb
            &&& bs[0].1 == encode_spec(
                CallbackType::IdolCard { card_id, with_annotation: a, with_plus: !p, bg: rb },
            )
            &&& card_view_buttons(card_id, a, !p, rb, r)[0].1 == encode_spec(here)
            &&& rb != BgStatus::Yes ==> {
                &&& bs[1].1 == encode_spec(
                    CallbackType::IdolCard { card_id, with_annotation: !a, with_plus: p, bg: rb },
                )
                &&& card_view_buttons(card_id, !a, p, rb, r)[1].1 == encode_spec(here)
            }
            &&& rb != BgStatus::Unset ==> {
                let ob = other_bg(rb);
                let back = card_view_buttons(card_id, !a, p, ob, r);
                &&& bs.last().1 == encode_spec(
                    CallbackType::IdolCard { card_id, with_annotation: !a, with_plus: p, bg: ob },
                )
                &&& real_bg(ob, r) == ob
                &&& back.last().1 == encode_spec(here)
            }
        }),
{
}

/// The buttons in rows: three buttons go two and one, fewer in one row.
pub open spec fn card_view_rows(buttons: Seq<ButtonView>) -> Seq<Seq<ButtonView>> {
    if buttons.len() == 3 {
        seq![buttons.take(2), buttons.skip(2)]
    } else {
        seq![buttons]
    }
}

/// The picture of a shown card: its background where shown, else the card.
pub open spec fn card_view_url(resource_id: Seq<char>, with_annotation: bool, with_plus: bool, rb: BgStatus) -> Seq<char> {
    if rb == BgStatus::Yes {
        card_bg_url_spec(resource_id, with_plus)
    } else {
        card_url_spec(resource_id, with_plus, with_annotation)
    }
}

/// The command that shows the card `card_id` again.
pub open spec fn suggested_card_command(card_id: u32) -> Seq<char> {
    "/card "@ + decimal(card_id as nat)
}

/// The caption of a shown card, which quotes the command that shows it.
pub open spec fn card_caption(name: Seq<char>, r: Rarity, with_plus: bool, card_id: u32) -> Seq<char> {
    name + " ["@ + rarity_text(r) + (if with_plus {
        "+"@
    } else {
        ""@
    }) + "]\n(Use \""@ + suggested_card_command(card_id) + "\" to check the card)"@
}

/// A button that shows the card again in another way.
fn card_toggle_button(
    label: &str,
    card_id: u32,
    with_annotation: bool,
    with_plus: bool,
    bg: BgStatus,
) -> (b: telegram_bot_raw::InlineKeyboardButton)
    ensures
        button_content(b) == (label@, encode_spec(CallbackType::IdolCard { card_id, with_annotation, with_plus, bg })),
{
    let data = encode_callback(&CallbackType::IdolCard { card_id, with_annotation, with_plus, bg });
    callback_button(label, data.as_str())
}

/// `r` shows card `card_id`, described by `card`, as asked (annotation,
/// awakened form, background), with the buttons that show it in the other
/// ways; in place of the picture of `msgid` where it has one
/// (`photo_editable`), else in a new message.
pub open spec fn is_card_view_reply(
    r: Reply,
    card_id: u32,
    with_annotation: bool,
    with_plus: bool,
    bg: BgStatus,
    msgid: MessageIdentifier,
    photo_editable: bool,
    card: CardItem,
) -> bool {
    let rb = real_bg(bg, card.rarity);
    let rows = card_view_rows(card_view_buttons(card_id, with_annotation, with_plus, rb, card.rarity));
    let url = card_view_url(card.resource_id@, with_annotation, with_plus, rb);
    let caption = card_caption(card.name@, card.rarity, with_plus, card_id);
    &&& photo_editable ==> (r matches Reply::EditMessageMedia {
        chat,
        message_id,
        photo,
        caption: c,
        keyboard,
    } && chat == msgid.chat && message_id == msgid.id && photo@ == url && c@ == caption
        && keyboard_rows(keyboard) == rows)
    &&& !photo_editable ==> (r matches Reply::SendPhoto { chat, photo, caption: c, keyboard }
        && chat == msgid.chat && photo@ == url && c@ == caption && keyboard is Some
        && keyboard_rows(keyboard.unwrap()) == rows)
}

/// Card `card_id`, described by `card`, with the buttons that show it in
/// the other ways.
pub fn card_view_reply(
    card_id: u32,
    with_annotation: bool,
    with_plus: bool,
    bg: BgStatus,
    msgid: MessageIdentifier,
    photo_editable: bool,
    card: &CardItem,
) -> (r: Reply)
    ensures
        is_card_view_reply(r, card_id, with_annotation, with_plus, bg, msgid, photo_editable, *card),
{
    let rb = match bg {
        BgStatus::Unset => if card.rarity == Rarity::SSR {
            BgStatus::No
        } else {
            BgStatus::Unset
        },
        c => c,
    };
    let rarity = card.rarity.as_str();
    let ghost rt = rarity_text(card.rarity);
    let mut plus_label = String::from_str("Toggle ");
    plus_label.append(rarity);
    plus_label.append("/");
    plus_label.append(rarity);
    plus_label.append("+");
    let mut buttons: Vec<telegram_bot_raw::InlineKeyboardButton> = Vec::new();
    buttons.push(card_toggle_button(plus_label.as_str(), card_id, with_annotation, !with_plus, rb));
    if rb != BgStatus::Yes {
        buttons.push(card_toggle_button("Toggle annotation", card_id, !with_annotation, with_plus, rb));
    }
    if rb != BgStatus::Unset {
        let next_bg = if rb == BgStatus::Yes { BgStatus::No } else { BgStatus::Yes };
        buttons.push(card_toggle_button("Toggle background", card_id, !with_annotation, with_plus, next_bg));
    }
    let ghost all = card_view_buttons(card_id, with_annotation, with_plus, rb, card.rarity);
    assert(row_content(buttons@) =~= all);
    let mut kb = new_keyboard();
    if buttons.len() == 3 {
        let last = buttons.pop().unwrap();
        let ghost first_two = buttons@;
        assert(all.len() == 3);
        assert(row_content(first_two) =~= all.take(2));
        add_row(&mut kb, buttons);
        let last_row = vec![last];
        assert(row_content(last_row@) =~= all.skip(2));
        add_row(&mut kb, last_row);
        assert(keyboard_rows(kb) =~= card_view_rows(all));
    } else {
        assert(all.len() == buttons@.len());
        let ghost row = buttons@;
        add_row(&mut kb, buttons);
        assert(keyboard_rows(kb) =~= seq![row_content(row)]);
        assert(keyboard_rows(kb) =~= card_view_rows(all));
    }
    let url = if rb == BgStatus::Yes {
        get_card_bg_url(card.resource_id.as_str(), with_plus)
    } else {
        get_card_url(card.resource_id.as_str(), with_plus, with_annotation)
    };
    let mut caption = String::from_str(card.name.as_str());
    caption.append(" [");
    caption.append(rarity);
    caption.append(if with_plus { "+" } else { "" });
    caption.append("]\n(Use \"");
    caption.append("/card ");
    push_decimal(&mut caption, card_id as u64);
    caption.append("\" to check the card)");
    assert(caption@ =~= card_caption(card.name@, card.rarity, with_plus, card_id));
    assert(url@ == card_view_url(card.resource_id@, with_annotation, with_plus, rb));
    assert(rb == real_bg(bg, card.rarity));
    if photo_editable {
        Reply::EditMessageMedia {
            chat: msgid.chat,
            message_id: msgid.id,
            photo: url,
            caption,
            keyboard: kb,
        }
    } else {
        Reply::SendPhoto { chat: msgid.chat, photo: url, caption, keyboard: Some(kb) }
    }
}

/// What step 3 of /list_characters does next.
pub enum CardListStep {
    /// The idol has no name: nothing to show.
    Done,
    /// The idol's cards are to be fetched and handed back.
    NeedCards,
    /// Show this page.
    Send(Reply),
}

/// Callback for /list_characters.
///
/// This shall be the step 3 (card selection) of /list_characters: page
/// `page_id` of the idol's cards, in place of `msgid`. Page 0 is an error;
/// an idol without a name has nothing to show; otherwise the idol's cards
/// are fetched (`cards`, `None` until then) and the page is shown.
pub fn respond_step_3(
    idol_id: u32,
    page_id: u32,
    msgid: MessageIdentifier,
    cards: Option<&Vec<CardItem>>,
) -> (r: Result<CardListStep, BotError>)
    requires
        cards matches Some(v) ==> (page_id == u32::MAX ==> page_id * PAGE_SIZE >= v@.len()),
    ensures
        page_id == 0 ==> r == Err::<CardListStep, BotError>(BotError::BadPageId),
        page_id != 0 && idol_name_spec(idol_id) is None ==> r matches Ok(CardListStep::Done),
        page_id != 0 && idol_name_spec(idol_id) is Some ==> match cards {
            None => r matches Ok(CardListStep::NeedCards),
            Some(v) => r matches Ok(CardListStep::Send(reply)) && is_card_page_reply(
                reply,
                idol_id,
                page_id,
                msgid,
                v@,
            ),
        },
{
    if page_id == 0 {
        return Err(BotError::BadPageId);
    }
    if idol_name(idol_id).is_none() {
        return Ok(CardListStep::Done);
    }
    match cards {
        None => Ok(CardListStep::NeedCards),
        Some(v) => Ok(CardListStep::Send(card_page_reply(idol_id, page_id, msgid, v))),
    }
}

/// Callback for /list_characters.
///
/// This shall be the step 4 (card display) of /list_characters: card
/// `card_id` as the data source describes it (`found`, what it answered for
/// that id; an error where it found none), shown as asked.
pub fn respond_step_4(
    card_id: u32,
    with_annotation: bool,
    with_plus: bool,
    bg: BgStatus,
    msgid: MessageIdentifier,
    photo_editable: bool,
    found: Vec<CardItem>,
) -> (r: Result<Reply, BotError>)
    ensures
        found@.len() == 0 ==> r == Err::<Reply, BotError>(BotError::NoCardFound),
        found@.len() > 0 ==> (r matches Ok(reply) && is_card_view_reply(
            reply,
            card_id,
            with_annotation,
            with_plus,
            bg,
            msgid,
            photo_editable,
            found@[0],
        )),
{
    match get_card(found) {
        Err(e) => Err(e),
        Ok(card) => Ok(
            card_view_reply(card_id, with_annotation, with_plus, bg, msgid, photo_editable, &card),
        ),
    }
}

/// On a page of an idol's cards that has cards after it, the last button
/// is "Next", which shows the page right after this one, whose first card is
/// the one after this page's last; on a page after the first, the first
/// button of the last row is "Prev", which shows the page right before;
/// on the last page (or past it), the last button is "Up".
pub proof fn lemma_page_buttons(
    r: Reply,
    idol_id: u32,
    page_id: u32,
    msgid: MessageIdentifier,
    cards: Seq<CardItem>,
)
    requires
        is_card_page_reply(r, idol_id, page_id, msgid, cards),
        1 <= page_id < u32::MAX,
    ensures
        match r {
            Reply::EditMessageText { keyboard, .. } => {
                let rows = keyboard_rows(keyboard);
                let last = rows[rows.len() - 1];
                &&& rows.len() >= 1 && last.len() >= 1
                &&& page_id * 10 < cards.len() ==> last[last.len() - 1] == (
                    "Next"@,
                    encode_spec(CallbackType::ListIdol { idol_id, page_id: (page_id + 1) as u32 }),
                )
                &&& page_id * 10 < cards.len() ==> page_cards(cards, (page_id + 1) as u32).len() > 0
                    && page_cards(cards, (page_id + 1) as u32)[0] == cards[page_id * 10]
                &&& page_id * 10 >= cards.len() ==> last[last.len() - 1].0 == "Up"@
                &&& page_id > 1 ==> last[0] == (
                    "Prev"@,
                    encode_spec(CallbackType::ListIdol { idol_id, page_id: (page_id - 1) as u32 }),
                )
            },
            _ => false,
        },
{
    assert(PAGE_SIZE == 10);
    let q = page_id + 1;
    assert((q - 1) * PAGE_SIZE == page_id * 10);
}

/// The picture of a shown card: with its background shown, the background
/// picture, of the awakened form exactly when `with_plus`, whatever the
/// annotation; otherwise the card picture, awakened when `with_plus` and
/// annotated when `with_annotation`.
pub proof fn lemma_card_picture(
    r: Reply,
    card_id: u32,
    with_annotation: bool,
    with_plus: bool,
    bg: BgStatus,
    msgid: MessageIdentifier,
    photo_editable: bool,
    card: CardItem,
)
    requires
        is_card_view_reply(r, card_id, with_annotation, with_plus, bg, msgid, photo_editable, card),
    ensures
        ({
            let photo = match r {
                Reply::EditMessageMedia { photo, .. } => photo@,
                Reply::SendPhoto { photo, .. } => photo@,
                _ => Seq::<char>::empty(),
            };
            let p = if with_plus {
                "1"@
            } else {
                "0"@
            };
            &&& bg == BgStatus::Yes ==> photo == "https://storage.matsurihi.me/mltd/card_bg/"@
                + card.resource_id@ + "_"@ + p + ".png"@
            &&& bg != BgStatus::Yes ==> photo == "https://storage.matsurihi.me/mltd/card/"@
                + card.resource_id@ + "_"@ + p + "_"@ + (if with_annotation {
                "a"@
            } else {
                "b"@
            }) + ".png"@
        }),
{
}

} // verus!
