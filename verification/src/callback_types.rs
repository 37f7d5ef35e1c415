//! Definitions for callbacks, and the text form that a button carries.
//!
//! A button's callback data is limited to 64 bytes, so the form is compact:
//! `{"LIC":{"c":1,"f":true}}`, `{"LI":{"i":14,"p":1}}` and
//! `{"IC":{"c":123,"a":true,"p":false,"b":1}}`. It is the compact JSON of
//! the callback; what a pressed button sends back is read as JSON (by
//! serde_json, where the bot runs), not here.
use vstd::prelude::*;

use crate::cmd::list_characters::{category_code, category_from_code_spec, IdolCategory};
use crate::text::{
    decimal, is_digit, lemma_decimal, lemma_numeral_at_decimal, lemma_u32_decimal_len, numeral_at,
    push_decimal,
};

verus! {

/// Whether a card is shown with its background.
#[derive(Clone, Copy, Debug, Hash, PartialEq, Eq, Structural)]
pub enum BgStatus {
    /// The card has no background, or it is not known yet whether it has one.
    Unset,
    /// The card has a background, and it is not shown.
    No,
    /// The card has a background, and it is shown.
    Yes,
}

impl BgStatus {
    /// The status of a card of which nothing is known yet.
    pub fn default() -> (r: Self)
        ensures
            r == BgStatus::Unset,
    {
        BgStatus::Unset
    }

    /// The number that stands for this status in callback data.
    pub fn code(&self) -> (r: u32)
        ensures
            r as nat == bg_code(*self),
    {
        match self {
            BgStatus::Unset => 0,
            BgStatus::No => 1,
            BgStatus::Yes => 2,
        }
    }

    /// The status that `n` stands for in callback data, if any.
    pub fn from_code(n: u32) -> (r: Option<BgStatus>)
        ensures
            r == bg_from_code_spec(n as nat),
    {
        if n == 0 {
            Some(BgStatus::Unset)
        } else if n == 1 {
            Some(BgStatus::No)
        } else if n == 2 {
            Some(BgStatus::Yes)
        } else {
            None
        }
    }
}

/// The number that stands for a background status in callback data.
pub open spec fn bg_code(b: BgStatus) -> nat {
    match b {
        BgStatus::Unset => 0,
        BgStatus::No => 1,
        BgStatus::Yes => 2,
    }
}

/// The background status that a number stands for in callback data.
pub open spec fn bg_from_code_spec(n: nat) -> Option<BgStatus> {
    if n == 0 {
        Some(BgStatus::Unset)
    } else if n == 1 {
        Some(BgStatus::No)
    } else if n == 2 {
        Some(BgStatus::Yes)
    } else {
        None
    }
}

/// This is the one used to determine callback.
#[derive(Clone, Copy, Debug, PartialEq, Eq, Structural)]
pub enum CallbackType {
    /// Listing idols in a category.
    ListIdolCategory { category: IdolCategory, force_new_msg: bool },
    /// Listing cards for an idol.
    ListIdol { idol_id: u32, page_id: u32 },
    /// Indicating a card.
    IdolCard { card_id: u32, with_annotation: bool, with_plus: bool, bg: BgStatus },
}

/// `{"LIC":{"c":`
pub open spec fn lic_head() -> Seq<char> {
    "{\"LIC\":{\"c\":"@
}

/// `{"LI":{"i":`
pub open spec fn li_head() -> Seq<char> {
    "{\"LI\":{\"i\":"@
}

/// `{"IC":{"c":`
pub open spec fn ic_head() -> Seq<char> {
    "{\"IC\":{\"c\":"@
}

/// `,"f":`
pub open spec fn f_key() -> Seq<char> {
    ",\"f\":"@
}

/// `,"p":`
pub open spec fn p_key() -> Seq<char> {
    ",\"p\":"@
}

/// `,"a":`
pub open spec fn a_key() -> Seq<char> {
    ",\"a\":"@
}

/// `,"b":`
pub open spec fn b_key() -> Seq<char> {
    ",\"b\":"@
}

/// `}}`
pub open spec fn tail() -> Seq<char> {
    "}}"@
}

/// `true` or `false`.
pub open spec fn bool_text(b: bool) -> Seq<char> {
    if b {
        "true"@
    } else {
        "false"@
    }
}

/// The callback data that a button carries for `cb`. It is the compact JSON
/// that serde writes for the callback: `f` is left out when false.
pub open spec fn encode_spec(cb: CallbackType) -> Seq<char> {
    match cb {
        CallbackType::ListIdolCategory { category, force_new_msg } => lic_head() + decimal(
            category_code(category),
        ) + (if force_new_msg {
            f_key() + bool_text(true)
        } else {
            Seq::empty()
        }) + tail(),
        CallbackType::ListIdol { idol_id, page_id } => li_head() + decimal(idol_id as nat)
            + p_key() + decimal(page_id as nat) + tail(),
        CallbackType::IdolCard { card_id, with_annotation, with_plus, bg } => ic_head()
            + decimal(card_id as nat) + a_key() + bool_text(with_annotation) + p_key()
            + bool_text(with_plus) + b_key() + decimal(bg_code(bg)) + tail(),
    }
}

/// `s` is the callback data of `cb`.
spec fn accepts(s: Seq<char>, cb: CallbackType) -> bool {
    s == encode_spec(cb)
}

/// Appends the encoding of a bool.
fn push_bool(s: &mut String, b: bool)
    ensures
        final(s)@ == old(s)@ + bool_text(b),
{
    if b {
        s.append("true");
    } else {
        s.append("false");
    }
}

/// The callback data that a button carries for `cb`.
pub fn encode_callback(cb: &CallbackType) -> (r: String)
    ensures
        r@ == encode_spec(*cb),
{
    let mut s = String::new();
    match cb {
        CallbackType::ListIdolCategory { category, force_new_msg } => {
            s.append("{\"LIC\":{\"c\":");
            push_decimal(&mut s, category.code() as u64);
            if *force_new_msg {
                s.append(",\"f\":");
                push_bool(&mut s, true);
            }
            s.append("}}");
            assert(s@ =~= encode_spec(*cb));
        },
        CallbackType::ListIdol { idol_id, page_id } => {
            s.append("{\"LI\":{\"i\":");
            push_decimal(&mut s, *idol_id as u64);
            s.append(",\"p\":");
            push_decimal(&mut s, *page_id as u64);
            s.append("}}");
        },
        CallbackType::IdolCard { card_id, with_annotation, with_plus, bg } => {
            s.append("{\"IC\":{\"c\":");
            push_decimal(&mut s, *card_id as u64);
            s.append(",\"a\":");
            push_bool(&mut s, *with_annotation);
            s.append(",\"p\":");
            push_bool(&mut s, *with_plus);
            s.append(",\"b\":");
            push_decimal(&mut s, bg.code() as u64);
            s.append("}}");
        },
    }
    s
}

/// `p` stands in `s` at `pos`.
pub open spec fn has_at(s: Seq<char>, pos: int, p: Seq<char>) -> bool {
    0 <= pos && pos + p.len() <= s.len() && s.subrange(pos, pos + p.len()) == p
}

/// What the text of a callback fixes, read field by field: the variant by
/// its head, each number by the numeral after its key, each flag by its
/// first letter. Text that reads as some callback gives that callback here.
spec fn candidate_spec(s: Seq<char>) -> Option<CallbackType> {
    if has_at(s, 0, lic_head()) {
        match numeral_at(s, 12) {
            Some((code, end)) => match category_from_code_spec(code) {
                Some(cat) => Some(
                    CallbackType::ListIdolCategory {
                        category: cat,
                        force_new_msg: end + 5 < s.len() && s[end] == ',' && s[end + 5] == 't',
                    },
                ),
                None => None,
            },
            None => None,
        }
    } else if has_at(s, 0, li_head()) {
        match numeral_at(s, 11) {
            Some((i, e1)) => if i <= u32::MAX && e1 + 5 <= s.len() {
                match numeral_at(s, e1 + 5) {
                    Some((p, _)) => if p <= u32::MAX {
                        Some(CallbackType::ListIdol { idol_id: i as u32, page_id: p as u32 })
                    } else {
                        None
                    },
                    None => None,
                }
            } else {
                None
            },
            None => None,
        }
    } else if has_at(s, 0, ic_head()) {
        match numeral_at(s, 11) {
            Some((c, e1)) => if c <= u32::MAX && e1 + 5 < s.len() {
                let a = s[e1 + 5] == 't';
                let pp = e1 + 5 + (if a {
                    4int
                } else {
                    5int
                }) + 5;
                if pp < s.len() {
                    let p = s[pp] == 't';
                    let pos = pp + (if p {
                        4int
                    } else {
                        5int
                    });
                    if pos < s.len() && s[pos] == ',' {
                        if pos + 5 <= s.len() {
                            match numeral_at(s, pos + 5) {
                                Some((b, _)) => match bg_from_code_spec(b) {
                                    Some(bg) => Some(
                                        CallbackType::IdolCard {
                                            card_id: c as u32,
                                            with_annotation: a,
                                            with_plus: p,
                                            bg,
                                        },
                                    ),
                                    None => None,
                                },
                                None => None,
                            }
                        } else {
                            None
                        }
                    } else {
                        Some(
                            CallbackType::IdolCard {
                                card_id: c as u32,
                                with_annotation: a,
                                with_plus: p,
                                bg: BgStatus::Unset,
                            },
                        )
                    }
                } else {
                    None
                }
            } else {
                None
            },
            None => None,
        }
    } else {
        None
    }
}

/// The lengths and the letters of the literal pieces that the proofs use.
proof fn lemma_literals()
    ensures
        lic_head().len() == 12,
        li_head().len() == 11,
        ic_head().len() == 11,
        lic_head()[2] == 'L' && lic_head()[4] == 'C',
        li_head()[2] == 'L' && li_head()[4] == '"',
        ic_head()[2] == 'I',
        f_key().len() == 5 && f_key()[0] == ',',
        p_key().len() == 5 && p_key()[0] == ',',
        a_key().len() == 5 && a_key()[0] == ',',
        b_key().len() == 5 && b_key()[0] == ',',
        tail().len() == 2 && tail()[0] == '}',
        bool_text(true).len() == 4 && bool_text(true)[0] == 't',
        bool_text(false).len() == 5 && bool_text(false)[0] == 'f',
{
    reveal_strlit("{\"LIC\":{\"c\":");
    reveal_strlit("{\"LI\":{\"i\":");
    reveal_strlit("{\"IC\":{\"c\":");
    reveal_strlit(",\"f\":");
    reveal_strlit(",\"p\":");
    reveal_strlit(",\"a\":");
    reveal_strlit(",\"b\":");
    reveal_strlit("}}");
    reveal_strlit("true");
    reveal_strlit("false");
}

/// In `a + b + c`, `b` stands after `a`, and the first letter of `c` after it.
proof fn lemma_piece(s: Seq<char>, a: Seq<char>, b: Seq<char>, c: Seq<char>)
    requires
        s == a + b + c,
    ensures
        s.len() == a.len() + b.len() + c.len(),
        has_at(s, a.len() as int, b),
        c.len() > 0 ==> s[(a.len() + b.len()) as int] == c[0],
{
    assert(s.subrange(a.len() as int, (a.len() + b.len()) as int) =~= b);
    if c.len() > 0 {
        assert(s[(a.len() + b.len()) as int] == c[0]);
    }
}

/// A numeral followed by a piece that starts with a non-digit reads back.
proof fn lemma_numeral_piece(s: Seq<char>, a: Seq<char>, n: nat, c: Seq<char>)
    requires
        s == a + decimal(n) + c,
        c.len() > 0,
        !is_digit(c[0]),
    ensures
        numeral_at(s, a.len() as int) == Some((n, (a.len() + decimal(n).len()) as int)),
{
    lemma_piece(s, a, decimal(n), c);
    lemma_numeral_at_decimal(s, a.len() as int, n);
}

proof fn lemma_candidate_lic(s: Seq<char>, category: IdolCategory, force_new_msg: bool)
    requires
        accepts(s, CallbackType::ListIdolCategory { category, force_new_msg }),
    ensures
        candidate_spec(s) == Some(CallbackType::ListIdolCategory { category, force_new_msg }),
{
    let cb = CallbackType::ListIdolCategory { category, force_new_msg };
    lemma_literals();
    let code = category_code(category);
    let d = decimal(code);
    let rest = (if force_new_msg {
        f_key() + bool_text(true)
    } else {
        Seq::empty()
    }) + tail();
    assert(s =~= lic_head() + d + rest);
    assert(s =~= Seq::<char>::empty() + lic_head() + (d + rest));
    lemma_piece(s, Seq::empty(), lic_head(), d + rest);
    assert(s.subrange(0, 12) =~= lic_head());
    assert(rest[0] == ',' || rest[0] == '}');
    lemma_numeral_piece(s, lic_head(), code, rest);
    let end = (12 + d.len()) as int;
    if force_new_msg {
        assert(s[end] == ',');
        assert(s[end + 5] == 't');
    } else {
        assert(s[end] == '}');
    }
}

proof fn lemma_candidate_li(s: Seq<char>, idol_id: u32, page_id: u32)
    requires
        accepts(s, CallbackType::ListIdol { idol_id, page_id }),
    ensures
        candidate_spec(s) == Some(CallbackType::ListIdol { idol_id, page_id }),
{
    lemma_literals();
    let d1 = decimal(idol_id as nat);
    let d2 = decimal(page_id as nat);
    assert(s =~= li_head() + d1 + (p_key() + d2 + tail()));
    assert(s =~= Seq::<char>::empty() + li_head() + (d1 + (p_key() + d2 + tail())));
    lemma_piece(s, Seq::empty(), li_head(), d1 + (p_key() + d2 + tail()));
    assert(s.subrange(0, 11) =~= li_head());
    assert(!has_at(s, 0, lic_head())) by {
        if has_at(s, 0, lic_head()) {
            assert(s.subrange(0, 12)[4] == s[4]);
            assert(s.subrange(0, 11)[4] == s[4]);
        }
    }
    lemma_numeral_piece(s, li_head(), idol_id as nat, p_key() + d2 + tail());
    assert(s =~= (li_head() + d1 + p_key()) + d2 + tail());
    lemma_numeral_piece(s, li_head() + d1 + p_key(), page_id as nat, tail());
}

#[verifier::spinoff_prover]
#[verifier::rlimit(80)]
proof fn lemma_candidate_ic(
    s: Seq<char>,
    card_id: u32,
    with_annotation: bool,
    with_plus: bool,
    bg: BgStatus,
)
    requires
        accepts(s, CallbackType::IdolCard { card_id, with_annotation, with_plus, bg }),
    ensures
        candidate_spec(s) == Some(CallbackType::IdolCard { card_id, with_annotation, with_plus, bg }),
{
    let cb = CallbackType::IdolCard { card_id, with_annotation, with_plus, bg };
    lemma_literals();
    let d1 = decimal(card_id as nat);
    let ba = bool_text(with_annotation);
    let bp = bool_text(with_plus);
    let rest = b_key() + decimal(bg_code(bg)) + tail();
    assert(s =~= ic_head() + d1 + (a_key() + ba + p_key() + bp + rest));
    assert(s =~= Seq::<char>::empty() + ic_head() + (d1 + (a_key() + ba + p_key() + bp + rest)));
    lemma_piece(s, Seq::empty(), ic_head(), d1 + (a_key() + ba + p_key() + bp + rest));
    assert(s.subrange(0, 11) =~= ic_head());
    assert(!has_at(s, 0, lic_head())) by {
        if has_at(s, 0, lic_head()) {
            assert(s.subrange(0, 12)[2] == s[2]);
            assert(s.subrange(0, 11)[2] == s[2]);
        }
    }
    assert(!has_at(s, 0, li_head())) by {
        if has_at(s, 0, li_head()) {
            assert(s.subrange(0, 11)[2] == s[2]);
        }
    }
    lemma_numeral_piece(s, ic_head(), card_id as nat, a_key() + ba + p_key() + bp + rest);
    let e1 = (11 + d1.len()) as int;
    let pre_a = ic_head() + d1 + a_key();
    assert(s =~= pre_a + ba + (p_key() + bp + rest));
    lemma_piece(s, pre_a, ba, p_key() + bp + rest);
    assert(s[e1 + 5] == ba[0]);
    let pre_p = pre_a + ba + p_key();
    assert(s =~= pre_p + bp + rest);
    lemma_piece(s, pre_p, bp, rest);
    let pp = pre_p.len() as int;
    assert(s[pp] == bp[0]);
    let pos = pp + bp.len();
    assert(s[pos] == ',');
    let pre_b = pre_p + bp + b_key();
    assert(s =~= pre_b + decimal(bg_code(bg)) + tail());
    lemma_numeral_piece(s, pre_b, bg_code(bg), tail());
}

/// The callback data of `cb` is read field by field as `cb`.
proof fn lemma_candidate(s: Seq<char>, cb: CallbackType)
    requires
        accepts(s, cb),
    ensures
        candidate_spec(s) == Some(cb),
{
    match cb {
        CallbackType::ListIdolCategory { category, force_new_msg } => {
            lemma_candidate_lic(s, category, force_new_msg);
        },
        CallbackType::ListIdol { idol_id, page_id } => {
            lemma_candidate_li(s, idol_id, page_id);
        },
        CallbackType::IdolCard { card_id, with_annotation, with_plus, bg } => {
            lemma_candidate_ic(s, card_id, with_annotation, with_plus, bg);
        },
    }
}

/// Different callbacks carry different data: the data of a button fixes
/// the callback that it was written for.
pub proof fn lemma_encode_injective(a: CallbackType, b: CallbackType)
    requires
        encode_spec(a) == encode_spec(b),
    ensures
        a == b,
{
    lemma_candidate(encode_spec(a), a);
    lemma_candidate(encode_spec(a), b);
}

/// Whether two sequences of characters are equal.
pub fn same_chars(a: &Vec<char>, b: &Vec<char>) -> (r: bool)
    ensures
        r == (a@ == b@),
{
    if a.len() != b.len() {
        return false;
    }
    let mut i: usize = 0;
    while i < a.len()
        invariant
            a.len() == b.len(),
            i <= a.len(),
            forall|j: int| 0 <= j < i ==> a@[j] == b@[j],
        decreases a.len() - i,
    {
        if a[i] != b[i] {
            return false;
        }
        i = i + 1;
    }
    assert(a@ =~= b@);
    true
}

/// An ASCII character: one byte in UTF-8.
pub open spec fn is_ascii_char(c: char) -> bool {
    (c as u32) < 128
}

/// Every character is ASCII.
pub open spec fn all_ascii(s: Seq<char>) -> bool {
    forall|i: int| 0 <= i < s.len() ==> is_ascii_char(#[trigger] s[i])
}

proof fn lemma_literals_ascii()
    ensures
        all_ascii(lic_head()),
        all_ascii(li_head()),
        all_ascii(ic_head()),
        all_ascii(f_key()),
        all_ascii(p_key()),
        all_ascii(a_key()),
        all_ascii(b_key()),
        all_ascii(tail()),
        all_ascii(bool_text(true)),
        all_ascii(bool_text(false)),
{
    reveal_strlit("{\"LIC\":{\"c\":");
    reveal_strlit("{\"LI\":{\"i\":");
    reveal_strlit("{\"IC\":{\"c\":");
    reveal_strlit(",\"f\":");
    reveal_strlit(",\"p\":");
    reveal_strlit(",\"a\":");
    reveal_strlit(",\"b\":");
    reveal_strlit("}}");
    reveal_strlit("true");
    reveal_strlit("false");
    assert(lic_head() =~= seq!['{', '"', 'L', 'I', 'C', '"', ':', '{', '"', 'c', '"', ':']);
    assert(li_head() =~= seq!['{', '"', 'L', 'I', '"', ':', '{', '"', 'i', '"', ':']);
    assert(ic_head() =~= seq!['{', '"', 'I', 'C', '"', ':', '{', '"', 'c', '"', ':']);
    assert(f_key() =~= seq![',', '"', 'f', '"', ':']);
    assert(p_key() =~= seq![',', '"', 'p', '"', ':']);
    assert(a_key() =~= seq![',', '"', 'a', '"', ':']);
    assert(b_key() =~= seq![',', '"', 'b', '"', ':']);
    assert(tail() =~= seq!['}', '}']);
    assert(bool_text(true) =~= seq!['t', 'r', 'u', 'e']);
    assert(bool_text(false) =~= seq!['f', 'a', 'l', 's', 'e']);
}

proof fn lemma_ascii_concat(a: Seq<char>, b: Seq<char>)
    requires
        all_ascii(a),
        all_ascii(b),
    ensures
        all_ascii(a + b),
{
    assert forall|i: int| 0 <= i < (a + b).len() implies is_ascii_char(#[trigger] (a + b)[i]) by {
        if i < a.len() {
            assert((a + b)[i] == a[i]);
        } else {
            assert((a + b)[i] == b[i - a.len()]);
        }
    }
}

proof fn lemma_decimal_ascii(n: nat)
    ensures
        all_ascii(decimal(n)),
{
    lemma_decimal(n);
    assert forall|i: int| 0 <= i < decimal(n).len() implies is_ascii_char(#[trigger] decimal(n)[i]) by {
        assert(is_digit(decimal(n)[i]));
    }
}

/// Callback data fits in what Telegram lets a button carry (1 to 64 bytes):
/// it is ASCII, one byte a character, and at most 64 characters long.
pub proof fn lemma_callback_fits(cb: CallbackType)
    ensures
        all_ascii(encode_spec(cb)),
        1 <= encode_spec(cb).len() <= 64,
{
    lemma_literals();
    lemma_literals_ascii();
    match cb {
        CallbackType::ListIdolCategory { category, force_new_msg } => {
            let d = decimal(category_code(category));
            lemma_decimal_ascii(category_code(category));
            reveal_with_fuel(decimal, 1);
            assert(d.len() == 1);
            lemma_ascii_concat(lic_head(), d);
            lemma_ascii_concat(f_key(), bool_text(true));
            let opt = if force_new_msg {
                f_key() + bool_text(true)
            } else {
                Seq::<char>::empty()
            };
            lemma_ascii_concat(lic_head() + d, opt);
            lemma_ascii_concat(lic_head() + d + opt, tail());
        },
        CallbackType::ListIdol { idol_id, page_id } => {
            let d1 = decimal(idol_id as nat);
            let d2 = decimal(page_id as nat);
            lemma_u32_decimal_len(idol_id);
            lemma_u32_decimal_len(page_id);
            lemma_decimal(idol_id as nat);
            lemma_decimal_ascii(idol_id as nat);
            lemma_decimal_ascii(page_id as nat);
            lemma_ascii_concat(li_head(), d1);
            lemma_ascii_concat(li_head() + d1, p_key());
            lemma_ascii_concat(li_head() + d1 + p_key(), d2);
            lemma_ascii_concat(li_head() + d1 + p_key() + d2, tail());
        },
        CallbackType::IdolCard { card_id, with_annotation, with_plus, bg } => {
            let d1 = decimal(card_id as nat);
            let db = decimal(bg_code(bg));
            let ba = bool_text(with_annotation);
            let bp = bool_text(with_plus);
            lemma_u32_decimal_len(card_id);
            lemma_decimal(card_id as nat);
            reveal_with_fuel(decimal, 1);
            assert(db.len() == 1);
            lemma_decimal_ascii(card_id as nat);
            lemma_decimal_ascii(bg_code(bg));
            lemma_ascii_concat(ic_head(), d1);
            lemma_ascii_concat(ic_head() + d1, a_key());
            lemma_ascii_concat(ic_head() + d1 + a_key(), ba);
            lemma_ascii_concat(ic_head() + d1 + a_key() + ba, p_key());
            lemma_ascii_concat(ic_head() + d1 + a_key() + ba + p_key(), bp);
            let body = ic_head() + d1 + a_key() + ba + p_key() + bp;
            lemma_ascii_concat(body, b_key());
            lemma_ascii_concat(body + b_key(), db);
            lemma_ascii_concat(body + b_key() + db, tail());
        },
    }
}

} // verus!
