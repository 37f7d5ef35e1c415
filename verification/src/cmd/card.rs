//! ## /card
//!
//! This command is used to display a card.
//!
//! This command has the following signatures in matching preference:
//! * `/card` - A random card
//! * `/card [id:int]` - A card of id [id]
//! * `/card [idol:str]` - A random card from [idol]
//! * `/card [cardAssetId:str]` - A card of assetId [cardAssetId]
use vstd::prelude::*;

use crate::callback_types::{same_chars, BgStatus};
use crate::cmd::list_characters::{card_view_reply, is_card_view_reply};
use crate::constants::{idol_name, idol_name_spec, lemma_idol_ids};
use crate::handler::bad_usage_text;
use crate::matsurihi::{card_url_spec, get_card_url, CardItem};
use crate::telegram::{is_img_reply, is_text_reply, respond_img, respond_text, Reply};
use crate::text::{
    chars_of, parse_u32, parse_u32_spec, split_spaces, split_spaces_of, trim, trim_spec,
};
use crate::types::{BotError, MessageIdentifier};

verus! {

/// What a `/card` command asks for.
pub enum CardCommand {
    /// Send this: "Bad command usage", or a picture by its resource id.
    Send(Reply),
    /// Show the card with this id, as step 4 of /list_characters shows it
    /// (`respond_step_4` once the card is fetched).
    ShowCard {
        card_id: u32,
        with_annotation: bool,
        with_plus: bool,
        bg: BgStatus,
        photo_editable: bool,
    },
    /// Show a random card: one of the idol's where `idol_id` is given, else
    /// one of all cards (`random_card_reply` once the cards are fetched).
    RandomCard { idol_id: Option<u32> },
}

/// What `/card` command `command`, the message `msg`, asks for: with no
/// argument a random card; with one argument (split at single spaces) the
/// card with that id, else a random card of the idol of that name, else the
/// picture of the card with that resource id, its address as caption; with
/// more, "Bad command usage".
pub open spec fn card_command_spec(r: CardCommand, command: Seq<char>, msg: MessageIdentifier) -> bool {
    let fields = split_spaces(trim_spec(command));
    if fields.len() == 1 {
        r == CardCommand::RandomCard { idol_id: None }
    } else if fields.len() != 2 {
        r matches CardCommand::Send(reply) && is_text_reply(reply, msg.chat, bad_usage_text())
    } else {
        match parse_u32_spec(fields[1]) {
            Some(id) => r == CardCommand::ShowCard {
                card_id: id,
                with_annotation: true,
                with_plus: true,
                bg: BgStatus::Unset,
                photo_editable: false,
            },
            None => if is_idol_name(fields[1]) {
                r matches CardCommand::RandomCard { idol_id: Some(i) } && idol_name_spec(i) == Some(
                    fields[1],
                )
            } else {
                r matches CardCommand::Send(reply) && is_img_reply(
                    reply,
                    msg.chat,
                    card_url_spec(fields[1], true, true),
                    card_url_spec(fields[1], true, true),
                )
            },
        }
    }
}

/// Some idol has this name.
pub open spec fn is_idol_name(name: Seq<char>) -> bool {
    exists|id: u32| idol_name_spec(id) == Some(name)
}

/// The idol with the name `name`, if some idol has it.
fn find_idol_name(name: &Vec<char>) -> (r: Option<u32>)
    ensures
        r is None <==> !is_idol_name(name@),
        r matches Some(id) ==> idol_name_spec(id) == Some(name@),
{
    let mut id: u32 = 1;
    while id <= 52
        invariant
            1 <= id <= 53,
            forall|j: u32| 1 <= j < id ==> idol_name_spec(j) != Some(name@),
        decreases 53 - id,
    {
        match idol_name(id) {
            Some(n) => {
                if same_chars(name, &chars_of(n)) {
                    return Some(id);
                }
            },
            None => {},
        }
        id = id + 1;
    }
    proof {
        assert forall|j: u32| idol_name_spec(j) != Some(name@) by {
            lemma_idol_ids(j);
        }
    }
    None
}

/// ## /card: what `command`, the message `msg`, asks for.
pub fn handler(command: &str, msg: MessageIdentifier) -> (r: CardCommand)
    ensures
        card_command_spec(r, command@, msg),
{
    let t = trim(command);
    let splits = split_spaces_of(&t);
    if splits.len() == 1 {
        return CardCommand::RandomCard { idol_id: None };
    }
    if splits.len() != 2 {
        return CardCommand::Send(respond_text("Bad command usage", msg.chat));
    }
    let target = &splits[1];
    if let Some(id) = parse_u32(target) {
        return CardCommand::ShowCard {
            card_id: id,
            with_annotation: true,
            with_plus: true,
            bg: BgStatus::Unset,
            photo_editable: false,
        };
    }
    if let Some(idol_id) = find_idol_name(target) {
        return CardCommand::RandomCard { idol_id: Some(idol_id) };
    }
    let mut s = String::new();
    let mut i: usize = 0;
    while i < target.len()
        invariant
            i <= target.len(),
            s@ == target@.take(i as int),
        decreases target.len() - i,
    {
        crate::text::push_char(&mut s, target[i]);
        i = i + 1;
        assert(s@ =~= target@.take(i as int));
    }
    assert(target@.take(target.len() as int) =~= target@);
    let url = get_card_url(s.as_str(), true, true);
    CardCommand::Send(respond_img(url.as_str(), url.as_str(), msg.chat))
}

/// A random card: of `cards` (the cards that the data source lists), the
/// one at `draw` modulo their number, shown as `/card [id]` shows a card;
/// an error where there is none.
pub fn random_card_reply(cards: &Vec<CardItem>, draw: u64, msg: MessageIdentifier) -> (r: Result<
    Reply,
    BotError,
>)
    ensures
        cards@.len() == 0 ==> r == Err::<Reply, BotError>(BotError::NoCardFound),
        cards@.len() > 0 ==> ({
            let card = cards@[(draw % (cards@.len() as u64)) as int];
            r matches Ok(reply) && is_card_view_reply(
                reply,
                card.id,
                true,
                true,
                BgStatus::Unset,
                msg,
                false,
                card,
            )
        }),
{
    if cards.len() == 0 {
        return Err(BotError::NoCardFound);
    }
    let i = (draw % (cards.len() as u64)) as usize;
    let card = &cards[i];
    Ok(card_view_reply(card.id, true, true, BgStatus::Unset, msg, false, card))
}

} // verus!
