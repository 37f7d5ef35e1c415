//! Utility functions.
use vstd::prelude::*;

use crate::text::{chars_of, escape_spec, is_markdown_special, push_char};

verus! {

/// Whether Telegram's MarkdownV2 asks to escape `c`.
pub fn markdown_special(c: char) -> (r: bool)
    ensures
        r == is_markdown_special(c),
{
    c == '_' || c == '*' || c == '[' || c == ']' || c == '(' || c == ')' || c == '~' || c == '`' || c == '>' || c == '#' || c == '+' || c == '-' || c == '='
        || c == '|' || c == '{' || c == '}' || c == '.' || c == '!'
}

/// Escapes MarkdownV2 text, as teloxide's `markdown::escape` does: puts a
/// backslash before each of `_ * [ ] ( ) ~ ` ` ` > # + - = | { } . !`. A
/// backslash is itself not escaped, so escaping the characters one kind
/// after another gives the same text as this single pass.
pub fn escape(s: &str) -> (r: String)
    ensures
        r@ == escape_spec(s@),
{
    let v = chars_of(s);
    let mut r = String::new();
    let mut i: usize = 0;
    assert(v@.take(0) =~= Seq::<char>::empty());
    while i < v.len()
        invariant
            i <= v.len(),
            r@ == escape_spec(v@.take(i as int)),
        decreases v.len() - i,
    {
        let c = v[i];
        let ghost prev = v@.take(i as int);
        assert(v@.take(i + 1).drop_last() =~= prev);
        assert(v@.take(i + 1).last() == c);
        if markdown_special(c) {
            push_char(&mut r, '\\');
            push_char(&mut r, c);
            assert(r@ =~= escape_spec(prev) + seq!['\\', c]);
        } else {
            push_char(&mut r, c);
        }
        i = i + 1;
    }
    assert(v@.take(v@.len() as int) =~= v@);
    r
}

/// The number of characters of `s` that escaping marks.
pub open spec fn special_count(s: Seq<char>) -> nat
    decreases s.len(),
{
    if s.len() == 0 {
        0
    } else {
        special_count(s.drop_last()) + if is_markdown_special(s.last()) {
            1nat
        } else {
            0nat
        }
    }
}

/// Escaping works character by character: escaping the empty text gives
/// the empty text, escaping two texts one after the other gives their
/// escapes one after the other, and the escape is longer than the text by
/// one backslash for each character that it marks.
pub proof fn lemma_escape_concat(a: Seq<char>, b: Seq<char>)
    ensures
        escape_spec(Seq::<char>::empty()) == Seq::<char>::empty(),
        escape_spec(a + b) == escape_spec(a) + escape_spec(b),
        escape_spec(a).len() == a.len() + special_count(a),
    decreases b.len(),
{
    lemma_escape_len(a);
    if b.len() == 0 {
        assert(a + b =~= a);
        assert(escape_spec(a) + escape_spec(b) =~= escape_spec(a));
    } else {
        let b0 = b.drop_last();
        lemma_escape_concat(a, b0);
        assert((a + b).drop_last() =~= a + b0);
        assert((a + b).last() == b.last());
        if is_markdown_special(b.last()) {
            assert(escape_spec(a) + escape_spec(b) =~= escape_spec(a) + escape_spec(b0) + seq![
                '\\',
                b.last(),
            ]);
        } else {
            assert(escape_spec(a) + escape_spec(b) =~= (escape_spec(a) + escape_spec(b0)).push(
                b.last(),
            ));
        }
    }
}

proof fn lemma_escape_len(s: Seq<char>)
    ensures
        escape_spec(s).len() == s.len() + special_count(s),
    decreases s.len(),
{
    if s.len() > 0 {
        lemma_escape_len(s.drop_last());
    }
}

} // verus!
