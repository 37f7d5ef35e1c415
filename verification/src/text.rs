//! Character-level helpers shared by the command parsers and the renderers:
//! decimal numerals, parsing of integer arguments, trimming and splitting.
use vstd::prelude::*;

verus! {

/// Appends one character to a `String` (std's `String::push`).
#[verifier::external_body]
pub(crate) fn push_char(s: &mut String, c: char)
    ensures
        final(s)@ == old(s)@.push(c),
{
    s.push(c);
}

/// The characters of a string slice, in order.
pub fn chars_of(s: &str) -> (v: Vec<char>)
    ensures
        v@ == s@,
{
    let mut v: Vec<char> = Vec::new();
    for c in it: s.chars()
        invariant
            v@ == it.seq().take(it.index() as int),
    {
        v.push(c);
    }
    v
}

/// An ASCII decimal digit.
pub open spec fn is_digit(c: char) -> bool {
    '0' <= c && c <= '9'
}

/// The value of a decimal digit character.
pub open spec fn digit_value(c: char) -> nat {
    (c as int - '0' as int) as nat
}

/// The character of a decimal digit `d < 10`.
pub open spec fn digit_char(d: nat) -> char {
    (d + '0' as int) as char
}

/// Every character is a decimal digit.
pub open spec fn all_digits(s: Seq<char>) -> bool {
    forall|i: int| 0 <= i < s.len() ==> is_digit(#[trigger] s[i])
}

/// The number that a string of decimal digits denotes.
pub open spec fn digits_value(s: Seq<char>) -> nat
    decreases s.len(),
{
    if s.len() == 0 {
        0
    } else {
        10 * digits_value(s.drop_last()) + digit_value(s.last())
    }
}

/// The decimal numeral of `n`, without sign or leading zeros.
pub open spec fn decimal(n: nat) -> Seq<char>
    decreases n,
{
    if n < 10 {
        seq![digit_char(n)]
    } else {
        decimal(n / 10).push(digit_char(n % 10))
    }
}

/// Ten to the power of `k`.
pub open spec fn pow10(k: nat) -> nat
    decreases k,
{
    if k == 0 {
        1
    } else {
        10 * pow10((k - 1) as nat)
    }
}

/// The numeral of `n` is a non-empty run of digits denoting `n`, with no
/// leading zero unless it is the numeral of zero.
pub proof fn lemma_decimal(n: nat)
    ensures
        decimal(n).len() >= 1,
        all_digits(decimal(n)),
        digits_value(decimal(n)) == n,
        n > 0 ==> decimal(n)[0] != '0',
        n == 0 ==> decimal(n) == seq!['0'],
    decreases n,
{
    if n >= 10 {
        lemma_decimal(n / 10);
        let d = decimal(n / 10);
        assert(decimal(n).drop_last() =~= d);
        assert(decimal(n)[0] == d[0]);
        assert(digit_value(digit_char(n % 10)) == n % 10);
        assert(n == 10 * (n / 10) + n % 10);
        assert(decimal(n).last() == digit_char(n % 10));
        assert(digits_value(decimal(n)) == 10 * digits_value(d) + digit_value(digit_char(n % 10)));
    } else {
        let s = seq![digit_char(n)];
        assert(s.drop_last() =~= Seq::<char>::empty());
        assert(digits_value(Seq::<char>::empty()) == 0);
        assert(digit_value(digit_char(n)) == n);
        assert(digits_value(s) == 10 * digits_value(s.drop_last()) + digit_value(s.last()));
    }
}

/// A numeral below `10^k` has at most `k` digits.
pub proof fn lemma_decimal_len(n: nat, k: nat)
    requires
        k >= 1,
        n < pow10(k),
    ensures
        decimal(n).len() <= k,
    decreases k,
{
    if n >= 10 {
        assert(k >= 2) by {
            if k == 1 {
                reveal_with_fuel(pow10, 2);
            }
        }
        assert(n / 10 < pow10((k - 1) as nat)) by {
            assert(pow10(k) == 10 * pow10((k - 1) as nat));
        }
        lemma_decimal_len(n / 10, (k - 1) as nat);
    }
}

/// Every `u32` numeral has at most ten digits.
pub proof fn lemma_u32_decimal_len(n: u32)
    ensures
        decimal(n as nat).len() <= 10,
{
    reveal_with_fuel(pow10, 11);
    assert(pow10(10) == 10_000_000_000nat);
    lemma_decimal_len(n as nat, 10);
}

/// The character of digit `d`.
fn digit_to_char(d: u64) -> (c: char)
    requires
        d < 10,
    ensures
        c == digit_char(d as nat),
        is_digit(c),
{
    let b: u8 = 48u8 + (d as u8);
    b as char
}

/// Appends the decimal numeral of `n`.
pub fn push_decimal(s: &mut String, n: u64)
    ensures
        final(s)@ == old(s)@ + decimal(n as nat),
    decreases n,
{
    if n >= 10 {
        push_decimal(s, n / 10);
    }
    let c = digit_to_char(n % 10);
    push_char(s, c);
    proof {
        if n >= 10 {
            assert(decimal(n as nat) == decimal((n / 10) as nat).push(c));
        } else {
            assert(decimal(n as nat) == seq![c]);
        }
        assert(final(s)@ =~= old(s)@ + decimal(n as nat));
    }
}

/// The end of the run of digits that starts at `pos`: the first position
/// at or after `pos` that holds no digit, or the length of `s`.
pub open spec fn digit_run_end(s: Seq<char>, pos: int) -> int
    decreases s.len() - pos,
{
    if 0 <= pos < s.len() && is_digit(s[pos]) {
        digit_run_end(s, pos + 1)
    } else {
        pos
    }
}

/// The canonical numeral at `pos`: the whole run of digits there, non-empty
/// and without leading zero unless it is the single digit `0`, with its value
/// and the position after it.
pub open spec fn numeral_at(s: Seq<char>, pos: int) -> Option<(nat, int)> {
    let end = digit_run_end(s, pos);
    let run = s.subrange(pos, end);
    if end > pos && (run.len() == 1 || run[0] != '0') {
        Some((digits_value(run), end))
    } else {
        None
    }
}

/// A run of digits that ends at a non-digit (or at the end) is the whole
/// run that starts where it starts.
pub proof fn lemma_digit_run_end(s: Seq<char>, pos: int, end: int)
    requires
        0 <= pos <= end <= s.len(),
        forall|i: int| pos <= i < end ==> is_digit(#[trigger] s[i]),
        end == s.len() || !is_digit(s[end]),
    ensures
        digit_run_end(s, pos) == end,
    decreases end - pos,
{
    if pos < end {
        lemma_digit_run_end(s, pos + 1, end);
    }
}

/// Where the numeral of `n` stands at `pos`, followed by a non-digit or by
/// the end, `numeral_at` reads back `n` and the position after it.
pub proof fn lemma_numeral_at_decimal(s: Seq<char>, pos: int, n: nat)
    requires
        0 <= pos,
        pos + decimal(n).len() <= s.len(),
        s.subrange(pos, pos + decimal(n).len()) == decimal(n),
        pos + decimal(n).len() == s.len() || !is_digit(s[pos + decimal(n).len()]),
    ensures
        numeral_at(s, pos) == Some((n, pos + decimal(n).len())),
{
    let d = decimal(n);
    lemma_decimal(n);
    let end = pos + d.len();
    assert forall|i: int| pos <= i < end implies is_digit(#[trigger] s[i]) by {
        assert(s[i] == s.subrange(pos, end)[i - pos]);
    }
    lemma_digit_run_end(s, pos, end);
    assert(s.subrange(pos, end) == d);
}

/// Reads the digits from `pos` on while they last. Reports the end of the
/// run and its value, or that the value exceeds `limit`.
fn scan_digits(v: &Vec<char>, pos: usize, limit: u64) -> (r: (usize, u64, bool))
    requires
        pos <= v.len(),
        limit < 0x100_0000_0000,
    ensures
        pos <= r.0 <= v.len(),
        forall|i: int| pos <= i < r.0 ==> is_digit(#[trigger] v@[i]),
        r.0 == v.len() || !is_digit(v@[r.0 as int]),
        r.0 == digit_run_end(v@, pos as int),
        r.2 == (digits_value(v@.subrange(pos as int, r.0 as int)) > limit),
        !r.2 ==> r.1 == digits_value(v@.subrange(pos as int, r.0 as int)),
{
    let mut j = pos;
    let mut acc: u64 = 0;
    let mut over = false;
    while j < v.len() && '0' <= v[j] && v[j] <= '9'
        invariant
            pos <= j <= v.len(),
            limit < 0x100_0000_0000,
            forall|i: int| pos <= i < j ==> is_digit(#[trigger] v@[i]),
            over == (digits_value(v@.subrange(pos as int, j as int)) > limit),
            !over ==> acc == digits_value(v@.subrange(pos as int, j as int)),
        decreases v.len() - j,
    {
        let ghost old_run = v@.subrange(pos as int, j as int);
        let c = v[j];
        let d = (c as u32 - '0' as u32) as u64;
        j = j + 1;
        let ghost run = v@.subrange(pos as int, j as int);
        assert(run.drop_last() =~= old_run);
        assert(run.last() == c);
        assert(digit_value(c) == d);
        if !over {
            acc = acc * 10 + d;
            if acc > limit {
                over = true;
            }
        }
    }
    proof {
        lemma_digit_run_end(v@, pos as int, j as int);
    }
    (j, acc, over)
}

/// The digits of an unsigned numeral, after an optional `+`.
pub open spec fn unsigned_digits(s: Seq<char>) -> Seq<char> {
    if s.len() > 0 && s[0] == '+' {
        s.skip(1)
    } else {
        s
    }
}

/// What `u32::from_str` accepts and gives: an optional `+`, then one or more
/// digits (leading zeros allowed) whose value fits in a `u32`.
pub open spec fn parse_u32_spec(s: Seq<char>) -> Option<u32> {
    let b = unsigned_digits(s);
    if b.len() > 0 && all_digits(b) && digits_value(b) <= u32::MAX {
        Some(digits_value(b) as u32)
    } else {
        None
    }
}

/// The digits of a signed numeral, after an optional `+` or `-`.
pub open spec fn signed_digits(s: Seq<char>) -> Seq<char> {
    if s.len() > 0 && (s[0] == '+' || s[0] == '-') {
        s.skip(1)
    } else {
        s
    }
}

/// What `i32::from_str` accepts and gives: an optional sign, then one or
/// more digits whose signed value fits in an `i32`.
pub open spec fn parse_i32_spec(s: Seq<char>) -> Option<i32> {
    let b = signed_digits(s);
    let v: int = if s.len() > 0 && s[0] == '-' {
        -digits_value(b)
    } else {
        digits_value(b) as int
    };
    if b.len() > 0 && all_digits(b) && i32::MIN <= v <= i32::MAX {
        Some(v as i32)
    } else {
        None
    }
}

/// Parses a `u32` as `u32::from_str` does.
pub fn parse_u32(s: &Vec<char>) -> (r: Option<u32>)
    ensures
        r == parse_u32_spec(s@),
{
    let start: usize = if s.len() > 0 && s[0] == '+' { 1 } else { 0 };
    let (end, value, over) = scan_digits(s, start, 0xffff_ffff);
    let ghost b = unsigned_digits(s@);
    assert(b =~= s@.subrange(start as int, s@.len() as int));
    if end == s.len() && end > start && !over {
        assert(s@.subrange(start as int, end as int) =~= b);
        assert(all_digits(b)) by {
            assert forall|i: int| 0 <= i < b.len() implies is_digit(#[trigger] b[i]) by {
                assert(b[i] == s@[i + start]);
            }
        }
        Some(value as u32)
    } else {
        proof {
            if end < s.len() {
                assert(!is_digit(b[end - start]));
            } else if end == start {
                assert(b.len() == 0);
            } else {
                assert(s@.subrange(start as int, end as int) =~= b);
            }
        }
        None
    }
}

/// Parses an `i32` as `i32::from_str` does.
pub fn parse_i32(s: &Vec<char>) -> (r: Option<i32>)
    ensures
        r == parse_i32_spec(s@),
{
    let neg = s.len() > 0 && s[0] == '-';
    let start: usize = if s.len() > 0 && (s[0] == '+' || s[0] == '-') { 1 } else { 0 };
    let limit: u64 = if neg { 0x8000_0000 } else { 0x7fff_ffff };
    let (end, value, over) = scan_digits(s, start, limit);
    let ghost b = signed_digits(s@);
    assert(b =~= s@.subrange(start as int, s@.len() as int));
    if end == s.len() && end > start && !over {
        assert(s@.subrange(start as int, end as int) =~= b);
        assert(all_digits(b)) by {
            assert forall|i: int| 0 <= i < b.len() implies is_digit(#[trigger] b[i]) by {
                assert(b[i] == s@[i + start]);
            }
        }
        if neg {
            let w: i64 = -(value as i64);
            Some(w as i32)
        } else {
            Some(value as i32)
        }
    } else {
        proof {
            if end < s.len() {
                assert(!is_digit(b[end - start]));
            } else if end == start {
                assert(b.len() == 0);
            } else {
                assert(s@.subrange(start as int, end as int) =~= b);
            }
        }
        None
    }
}

/// The White_Space property of Unicode, which `char::is_whitespace` and
/// `str::trim` go by: U+0009 to U+000D, U+0020, U+0085, U+00A0, U+1680,
/// U+2000 to U+200A, U+2028, U+2029, U+202F, U+205F and U+3000.
pub open spec fn is_white_space(c: char) -> bool {
    let u = c as u32;
    ||| 0x09 <= u <= 0x0d
    ||| u == 0x20
    ||| u == 0x85
    ||| u == 0xa0
    ||| u == 0x1680
    ||| 0x2000 <= u <= 0x200a
    ||| u == 0x2028
    ||| u == 0x2029
    ||| u == 0x202f
    ||| u == 0x205f
    ||| u == 0x3000
}

/// Whether `c` has the Unicode White_Space property.
pub fn white_space(c: char) -> (r: bool)
    ensures
        r == is_white_space(c),
{
    let u = c as u32;
    (0x09 <= u && u <= 0x0d) || u == 0x20 || u == 0x85 || u == 0xa0 || u == 0x1680 || (0x2000
        <= u && u <= 0x200a) || u == 0x2028 || u == 0x2029 || u == 0x202f || u == 0x205f || u
        == 0x3000
}

/// `s` without its leading white space.
pub open spec fn trim_start_spec(s: Seq<char>) -> Seq<char>
    decreases s.len(),
{
    if s.len() > 0 && is_white_space(s[0]) {
        trim_start_spec(s.drop_first())
    } else {
        s
    }
}

/// `s` without its trailing white space.
pub open spec fn trim_end_spec(s: Seq<char>) -> Seq<char>
    decreases s.len(),
{
    if s.len() > 0 && is_white_space(s.last()) {
        trim_end_spec(s.drop_last())
    } else {
        s
    }
}

/// `s` without leading and trailing white space, as `str::trim` gives it.
pub open spec fn trim_spec(s: Seq<char>) -> Seq<char> {
    trim_end_spec(trim_start_spec(s))
}

proof fn lemma_trim_start(s: Seq<char>, a: int)
    requires
        0 <= a <= s.len(),
        forall|i: int| 0 <= i < a ==> is_white_space(#[trigger] s[i]),
        a == s.len() || !is_white_space(s[a]),
    ensures
        trim_start_spec(s) == s.skip(a),
    decreases a,
{
    if a > 0 {
        let t = s.drop_first();
        assert forall|i: int| 0 <= i < a - 1 implies is_white_space(#[trigger] t[i]) by {
            assert(t[i] == s[i + 1]);
        }
        lemma_trim_start(t, a - 1);
        assert(t.skip(a - 1) =~= s.skip(a));
    } else {
        assert(s.skip(0) =~= s);
    }
}

proof fn lemma_trim_end(t: Seq<char>, k: int)
    requires
        0 <= k <= t.len(),
        forall|i: int| k <= i < t.len() ==> is_white_space(#[trigger] t[i]),
        k == 0 || !is_white_space(t[k - 1]),
    ensures
        trim_end_spec(t) == t.take(k),
    decreases t.len() - k,
{
    if k < t.len() {
        let u = t.drop_last();
        assert forall|i: int| k <= i < u.len() implies is_white_space(#[trigger] u[i]) by {
            assert(u[i] == t[i]);
        }
        assert(is_white_space(t[t.len() - 1]));
        lemma_trim_end(u, k);
        assert(u.take(k) =~= t.take(k));
    } else {
        assert(t.take(k) =~= t);
    }
}

/// The characters of `v` from `a` to `b`.
pub fn copy_range(v: &Vec<char>, a: usize, b: usize) -> (r: Vec<char>)
    requires
        a <= b <= v.len(),
    ensures
        r@ == v@.subrange(a as int, b as int),
{
    let mut r: Vec<char> = Vec::new();
    let mut i = a;
    while i < b
        invariant
            a <= i <= b <= v.len(),
            r@ == v@.subrange(a as int, i as int),
        decreases b - i,
    {
        r.push(v[i]);
        i = i + 1;
        assert(r@ =~= v@.subrange(a as int, i as int));
    }
    r
}

/// The characters of `s` without leading and trailing white space.
pub fn trim(s: &str) -> (r: Vec<char>)
    ensures
        r@ == trim_spec(s@),
{
    let v = chars_of(s);
    let mut a: usize = 0;
    while a < v.len() && white_space(v[a])
        invariant
            a <= v.len(),
            v@ == s@,
            forall|i: int| 0 <= i < a ==> is_white_space(#[trigger] v@[i]),
        decreases v.len() - a,
    {
        a = a + 1;
    }
    let mut b: usize = v.len();
    while b > a && white_space(v[b - 1])
        invariant
            a <= b <= v.len(),
            v@ == s@,
            forall|i: int| b <= i < v.len() ==> is_white_space(#[trigger] v@[i]),
        decreases b,
    {
        b = b - 1;
    }
    proof {
        lemma_trim_start(v@, a as int);
        let t = v@.skip(a as int);
        assert forall|i: int| b - a <= i < t.len() implies is_white_space(#[trigger] t[i]) by {
            assert(t[i] == v@[i + a]);
        }
        if b > a {
            assert(t[b - a - 1] == v@[b - 1]);
        }
        lemma_trim_end(t, b - a);
        assert(t.take(b - a) =~= v@.subrange(a as int, b as int));
    }
    copy_range(&v, a, b)
}

/// `s` split at every space (`' '`), as `str::split(' ')` splits it: one
/// field more than there are spaces, fields possibly empty.
pub open spec fn split_spaces(s: Seq<char>) -> Seq<Seq<char>>
    decreases s.len(),
{
    if s.len() == 0 {
        seq![Seq::<char>::empty()]
    } else {
        let p = split_spaces(s.drop_last());
        if s.last() == ' ' {
            p.push(Seq::<char>::empty())
        } else {
            p.update(p.len() - 1, p.last().push(s.last()))
        }
    }
}

/// There is always at least one field.
pub proof fn lemma_split_spaces_len(s: Seq<char>)
    ensures
        split_spaces(s).len() >= 1,
    decreases s.len(),
{
    if s.len() > 0 {
        lemma_split_spaces_len(s.drop_last());
    }
}

/// The fields of `v` between spaces.
pub fn split_spaces_of(v: &Vec<char>) -> (r: Vec<Vec<char>>)
    ensures
        r@.len() == split_spaces(v@).len(),
        forall|i: int| 0 <= i < r@.len() ==> #[trigger] r@[i]@ == split_spaces(v@)[i],
{
    let mut fields: Vec<Vec<char>> = Vec::new();
    let mut cur: Vec<char> = Vec::new();
    let ghost mut fv: Seq<Seq<char>> = Seq::empty();
    let mut i: usize = 0;
    assert(v@.take(0) =~= Seq::<char>::empty());
    while i < v.len()
        invariant
            i <= v.len(),
            fields@.len() == fv.len(),
            forall|j: int| 0 <= j < fv.len() ==> #[trigger] fields@[j]@ == fv[j],
            fv.push(cur@) == split_spaces(v@.take(i as int)),
        decreases v.len() - i,
    {
        let c = v[i];
        let ghost prev = v@.take(i as int);
        assert(v@.take(i + 1).drop_last() =~= prev);
        assert(v@.take(i + 1).last() == c);
        proof {
            lemma_split_spaces_len(prev);
        }
        if c == ' ' {
            let done = cur;
            proof {
                fv = fv.push(done@);
            }
            fields.push(done);
            cur = Vec::new();
            assert(fv.push(cur@) =~= split_spaces(v@.take(i + 1)));
        } else {
            let ghost old_cur = cur@;
            cur.push(c);
            assert(fv.push(cur@) =~= fv.push(old_cur).update(fv.len() as int, old_cur.push(c)));
        }
        i = i + 1;
    }
    assert(v@.take(v@.len() as int) =~= v@);
    let ghost last = cur@;
    fields.push(cur);
    proof {
        fv = fv.push(last);
    }
    fields
}

/// A character that Telegram's MarkdownV2 asks to escape (teloxide's
/// `markdown::escape` list).
pub open spec fn is_markdown_special(c: char) -> bool {
    ||| c == '_'
    ||| c == '*'
    ||| c == '['
    ||| c == ']'
    ||| c == '('
    ||| c == ')'
    ||| c == '~'
    ||| c == '`'
    ||| c == '>'
    ||| c == '#'
    ||| c == '+'
    ||| c == '-'
    ||| c == '='
    ||| c == '|'
    ||| c == '{'
    ||| c == '}'
    ||| c == '.'
    ||| c == '!'
}

/// `s` with a backslash put before each special character.
pub open spec fn escape_spec(s: Seq<char>) -> Seq<char>
    decreases s.len(),
{
    if s.len() == 0 {
        Seq::empty()
    } else if is_markdown_special(s.last()) {
        escape_spec(s.drop_last()) + seq!['\\', s.last()]
    } else {
        escape_spec(s.drop_last()).push(s.last())
    }
}

/// Text that begins and ends with a character that is not white space is
/// its own trimmed form.
pub proof fn lemma_trim_unchanged(s: Seq<char>)
    requires
        s.len() > 0,
        !is_white_space(s[0]),
        !is_white_space(s.last()),
    ensures
        trim_spec(s) == s,
{
}

/// The fields of `x + y`, where `y` holds no space: those of `x`, the last
/// one extended by `y`.
pub proof fn lemma_split_extend(x: Seq<char>, y: Seq<char>)
    requires
        forall|i: int| 0 <= i < y.len() ==> #[trigger] y[i] != ' ',
    ensures
        split_spaces(x + y) == split_spaces(x).update(
            split_spaces(x).len() - 1,
            split_spaces(x).last() + y,
        ),
    decreases y.len(),
{
    lemma_split_spaces_len(x);
    if y.len() == 0 {
        assert(x + y =~= x);
        assert(split_spaces(x).last() + y =~= split_spaces(x).last());
        assert(split_spaces(x).update(split_spaces(x).len() - 1, split_spaces(x).last())
            =~= split_spaces(x));
    } else {
        let y0 = y.drop_last();
        lemma_split_extend(x, y0);
        assert((x + y).drop_last() =~= x + y0);
        assert((x + y).last() == y.last());
        lemma_split_spaces_len(x + y0);
        let p = split_spaces(x + y0);
        assert(p.last() =~= split_spaces(x).last() + y0);
        assert(p.last().push(y.last()) =~= split_spaces(x).last() + y);
        assert(p.update(p.len() - 1, p.last().push(y.last())) =~= split_spaces(x).update(
            split_spaces(x).len() - 1,
            split_spaces(x).last() + y,
        ));
    }
}

/// Two words joined by one space split into the two words.
pub proof fn lemma_split_two(a: Seq<char>, b: Seq<char>)
    requires
        forall|i: int| 0 <= i < a.len() ==> #[trigger] a[i] != ' ',
        forall|i: int| 0 <= i < b.len() ==> #[trigger] b[i] != ' ',
    ensures
        split_spaces(a + seq![' '] + b) == seq![a, b],
{
    let e = Seq::<char>::empty();
    lemma_split_extend(e, a);
    assert(e + a =~= a);
    assert(split_spaces(e) == seq![e]);
    assert(split_spaces(a) =~= seq![a]);
    let a1 = a + seq![' '];
    assert(a1.drop_last() =~= a);
    assert(split_spaces(a1) =~= seq![a, e]);
    lemma_split_extend(a1, b);
    assert(e + b =~= b);
    assert(split_spaces(a1 + b) =~= seq![a, b]);
}

/// A numeral reads back as its number (`u32::from_str`).
pub proof fn lemma_parse_u32_decimal(n: u32)
    ensures
        parse_u32_spec(decimal(n as nat)) == Some(n),
{
    lemma_decimal(n as nat);
    let d = decimal(n as nat);
    assert(is_digit(d[0]));
    assert(unsigned_digits(d) == d);
}

/// A numeral reads back as its number (`i32::from_str`).
pub proof fn lemma_parse_i32_decimal(n: u32)
    requires
        n <= i32::MAX,
    ensures
        parse_i32_spec(decimal(n as nat)) == Some(n as i32),
{
    lemma_decimal(n as nat);
    let d = decimal(n as nat);
    assert(is_digit(d[0]));
    assert(signed_digits(d) == d);
}

} // verus!
