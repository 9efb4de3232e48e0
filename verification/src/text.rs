//! Text helpers: comparing, searching and parsing.

use vstd::prelude::*;

verus! {

/// The characters of a text.
pub fn chars_of(s: &str) -> (r: Vec<char>)
    ensures
        r@ == s@,
{
    let mut out: Vec<char> = Vec::new();
    for c in iter: s.chars()
        invariant
            out@.len() == iter.index(),
            forall|i: int| 0 <= i < out@.len() ==> out@[i] == iter.seq()[i],
            iter.seq() == s@,
    {
        out.push(c);
    }
    out
}

/// Whether two texts have the same characters.
pub fn same_text(a: &str, b: &str) -> (r: bool)
    ensures
        r == (a@ == b@),
{
    a.to_owned() == b.to_owned()
}

/// A character with an ASCII capital made small.
pub open spec fn lower(c: char) -> char {
    if 'A' <= c && c <= 'Z' {
        ((c as u8) + 32) as char
    } else {
        c
    }
}

/// A text with its ASCII capitals made small.
pub open spec fn lower_text(s: Seq<char>) -> Seq<char> {
    s.map_values(|c: char| lower(c))
}

/// Whether `part` occurs in `s` at index `i`.
pub open spec fn occurs_at(s: Seq<char>, part: Seq<char>, i: int) -> bool {
    0 <= i && i + part.len() <= s.len() && s.subrange(i, i + part.len()) == part
}

/// Whether `part` occurs somewhere in `s`.
pub open spec fn occurs(s: Seq<char>, part: Seq<char>) -> bool {
    exists|i: int| #[trigger] occurs_at(s, part, i)
}

fn lower_char(c: char) -> (r: char)
    ensures
        r == lower(c),
{
    if 'A' <= c && c <= 'Z' {
        ((c as u8) + 32) as char
    } else {
        c
    }
}

/// The characters of a text with ASCII capitals made small.
pub fn lower_chars(s: &str) -> (r: Vec<char>)
    ensures
        r@ == lower_text(s@),
{
    let src = chars_of(s);
    let mut out: Vec<char> = Vec::new();
    let mut i: usize = 0;
    while i < src.len()
        invariant
            0 <= i <= src@.len(),
            src@ == s@,
            out@.len() == i,
            forall|k: int| 0 <= k < i ==> out@[k] == lower(s@[k]),
        decreases src@.len() - i,
    {
        out.push(lower_char(src[i]));
        i += 1;
    }
    assert(out@ =~= lower_text(s@));
    out
}

fn match_at(s: &Vec<char>, part: &Vec<char>, at: usize) -> (r: bool)
    requires
        at + part@.len() <= s@.len(),
    ensures
        r == occurs_at(s@, part@, at as int),
{
    let n: usize = s.len();
    let mut k: usize = 0;
    while k < part.len()
        invariant
            0 <= k <= part@.len(),
            at + part@.len() <= s@.len(),
            n == s@.len(),
            forall|j: int| 0 <= j < k ==> s@[at + j] == part@[j],
        decreases part@.len() - k,
    {
        if s[at + k] != part[k] {
            assert(s@.subrange(at as int, at + part@.len())[k as int] != part@[k as int]);
            return false;
        }
        k += 1;
    }
    assert(s@.subrange(at as int, at + part@.len()) =~= part@);
    true
}

/// Whether `part` occurs somewhere in `s`.
pub fn has_part(s: &Vec<char>, part: &Vec<char>) -> (r: bool)
    ensures
        r == occurs(s@, part@),
{
    if part.len() > s.len() {
        return false;
    }
    let last: usize = s.len() - part.len();
    let mut i: usize = 0;
    while i <= last
        invariant
            0 <= i <= last + 1,
            last == s@.len() - part@.len(),
            s@.len() <= usize::MAX,
            forall|k: int| 0 <= k < i ==> !#[trigger] occurs_at(s@, part@, k),
        decreases last + 1 - i,
    {
        if match_at(s, part, i) {
            return true;
        }
        if i == last {
            assert forall|k: int| !#[trigger] occurs_at(s@, part@, k) by {}
            return false;
        }
        i += 1;
    }
    false
}

/// Whether `needle` occurs in `s`.
pub fn contains_text(s: &str, needle: &str) -> (r: bool)
    ensures
        r == occurs(s@, needle@),
{
    has_part(&chars_of(s), &chars_of(needle))
}

pub open spec fn is_digit(c: char) -> bool {
    '0' <= c && c <= '9'
}

/// The number that a run of digits stands for; an empty run, or one with
/// another character in it, stands for none.
pub open spec fn decimal(s: Seq<char>) -> Option<int>
    decreases s.len(),
{
    if s.len() == 0 || !is_digit(s.last()) {
        None
    } else {
        let d = (s.last() as u32) - ('0' as u32);
        if s.len() == 1 {
            Some(d)
        } else {
            match decimal(s.drop_last()) {
                Some(n) => Some(10 * n + d),
                None => None,
            }
        }
    }
}

/// A signed decimal number: digits after an optional sign.
pub open spec fn signed_decimal(s: Seq<char>) -> Option<int> {
    if s.len() > 0 && s[0] == '-' {
        match decimal(s.skip(1)) {
            Some(n) => Some(-n),
            None => None,
        }
    } else if s.len() > 0 && s[0] == '+' {
        decimal(s.skip(1))
    } else {
        decimal(s)
    }
}

/// An unsigned decimal number: digits after an optional plus.
pub open spec fn unsigned_decimal(s: Seq<char>) -> Option<int> {
    if s.len() > 0 && s[0] == '+' {
        decimal(s.skip(1))
    } else {
        decimal(s)
    }
}

proof fn lemma_decimal_grows(s: Seq<char>, k: int)
    requires
        1 <= k <= s.len(),
    ensures
        decimal(s) is Some ==> decimal(s.take(k)) is Some && 0 <= decimal(s.take(k))->0 <= decimal(s)->0,
    decreases s.len(),
{
    if k == s.len() {
        assert(s.take(k) =~= s);
        if s.len() > 1 {
            lemma_decimal_grows(s.drop_last(), s.len() - 1);
            assert(s.drop_last().take(s.len() - 1) =~= s.drop_last());
        }
    } else {
        lemma_decimal_grows(s.drop_last(), k);
        assert(s.drop_last().take(k) =~= s.take(k));
    }
}

/// Reads the digits from index `from` on; no result where they are not a number
/// or one above `max`.
fn parse_digits(s: &Vec<char>, from: usize, max: u64) -> (r: Option<u64>)
    requires
        from <= s@.len(),
        max <= u32::MAX,
    ensures
        match r {
            Some(v) => v <= max && decimal(s@.skip(from as int)) == Some(v as int),
            None => decimal(s@.skip(from as int)) matches Some(n) ==> n > max,
        },
{
    let ghost digits = s@.skip(from as int);
    if from == s.len() {
        return None;
    }
    let mut value: u64 = 0;
    let mut i: usize = from;
    while i < s.len()
        invariant
            from <= i <= s@.len(),
            digits == s@.skip(from as int),
            max <= u32::MAX,
            value <= max,
            i > from ==> decimal(digits.take(i - from)) == Some(value as int),
            i == from ==> value == 0,
        decreases s@.len() - i,
    {
        let c = s[i];
        let ghost upto = digits.take(i - from + 1);
        assert(upto.last() == c);
        assert(upto.drop_last() =~= digits.take(i - from));
        if c < '0' || c > '9' {
            proof {
                lemma_decimal_grows(digits, i - from + 1);
            }
            return None;
        }
        let d: u64 = (c as u32 - '0' as u32) as u64;
        value = 10 * value + d;
        assert(decimal(upto) == Some(value as int));
        if value > max {
            proof {
                lemma_decimal_grows(digits, i - from + 1);
            }
            return None;
        }
        i += 1;
    }
    assert(digits.take(s@.len() - from) =~= digits);
    Some(value)
}

/// Parses a byte written in decimal.
pub fn parse_u8(s: &Vec<char>) -> (r: Option<u8>)
    ensures
        match unsigned_decimal(s@) {
            Some(n) => if n <= 255 {
                r == Some(n as u8)
            } else {
                r is None
            },
            None => r is None,
        },
{
    let from: usize = if s.len() > 0 && s[0] == '+' {
        1
    } else {
        0
    };
    assert(s@.skip(0) =~= s@);
    match parse_digits(s, from, 255) {
        Some(n) => Some(n as u8),
        None => None,
    }
}

/// Parses a 32-bit number written in decimal.
pub fn parse_i32(s: &Vec<char>) -> (r: Option<i32>)
    ensures
        match signed_decimal(s@) {
            Some(n) => if i32::MIN <= n <= i32::MAX {
                r == Some(n as i32)
            } else {
                r is None
            },
            None => r is None,
        },
{
    assert(s@.skip(0) =~= s@);
    if s.len() > 0 && s[0] == '-' {
        return match parse_digits(s, 1, 0x8000_0000) {
            Some(n) => Some((-(n as i64)) as i32),
            None => None,
        };
    }
    let from: usize = if s.len() > 0 && s[0] == '+' {
        1
    } else {
        0
    };
    match parse_digits(s, from, 0x7fff_ffff) {
        Some(n) => Some(n as i32),
        None => None,
    }
}

/// The part of `s` before the first `sep`, or all of it.
pub open spec fn before(s: Seq<char>, sep: char) -> Seq<char>
    decreases s.len(),
{
    if s.len() == 0 || s[0] == sep {
        Seq::empty()
    } else {
        seq![s[0]] + before(s.skip(1), sep)
    }
}

/// The part of `s` after the last `sep`, or all of it.
pub open spec fn after_last(s: Seq<char>, sep: char) -> Seq<char>
    decreases s.len(),
{
    if s.len() == 0 || s.last() == sep {
        Seq::empty()
    } else {
        after_last(s.drop_last(), sep).push(s.last())
    }
}

pub fn chars_before(s: &Vec<char>, sep: char) -> (r: Vec<char>)
    ensures
        r@ == before(s@, sep),
{
    let mut out: Vec<char> = Vec::new();
    let mut i: usize = 0;
    assert(s@.skip(0) =~= s@);
    assert(out@ + before(s@.skip(0), sep) =~= before(s@, sep));
    while i < s.len()
        invariant
            0 <= i <= s@.len(),
            out@ + before(s@.skip(i as int), sep) == before(s@, sep),
        decreases s@.len() - i,
    {
        assert(s@.skip(i as int)[0] == s@[i as int]);
        if s[i] == sep {
            assert(out@ + before(s@.skip(i as int), sep) =~= out@);
            return out;
        }
        let ghost prev = out@;
        out.push(s[i]);
        assert(s@.skip(i as int).skip(1) =~= s@.skip(i + 1));
        assert(out@ + before(s@.skip(i + 1), sep) =~= prev + before(s@.skip(i as int), sep));
        i += 1;
    }
    assert(s@.skip(i as int).len() == 0);
    assert(out@ + before(s@.skip(i as int), sep) =~= out@);
    out
}

pub fn chars_after_last(s: &Vec<char>, sep: char) -> (r: Vec<char>)
    ensures
        r@ == after_last(s@, sep),
{
    let mut out: Vec<char> = Vec::new();
    let mut i: usize = 0;
    while i < s.len()
        invariant
            0 <= i <= s@.len(),
            out@ == after_last(s@.take(i as int), sep),
        decreases s@.len() - i,
    {
        assert(s@.take(i + 1).drop_last() =~= s@.take(i as int));
        assert(s@.take(i + 1).last() == s@[i as int]);
        if s[i] == sep {
            out = Vec::new();
            assert(out@ =~= after_last(s@.take(i + 1), sep));
        } else {
            out.push(s[i]);
        }
        i += 1;
    }
    assert(s@.take(s@.len() as int) =~= s@);
    out
}

/// Whether two lists hold the same characters.
pub fn same_chars(a: &Vec<char>, b: &Vec<char>) -> (r: bool)
    ensures
        r == (a@ == b@),
{
    if a.len() != b.len() {
        return false;
    }
    let mut i: usize = 0;
    while i < a.len()
        invariant
            0 <= i <= a@.len(),
            a@.len() == b@.len(),
            forall|k: int| 0 <= k < i ==> a@[k] == b@[k],
        decreases a@.len() - i,
    {
        if a[i] != b[i] {
            return false;
        }
        i += 1;
    }
    assert(a@ =~= b@);
    true
}

/// Whether a text comes before another in the order of characters.
pub open spec fn text_before(a: Seq<char>, b: Seq<char>) -> bool
    decreases a.len(),
{
    if b.len() == 0 {
        false
    } else if a.len() == 0 {
        true
    } else if a[0] == b[0] {
        text_before(a.skip(1), b.skip(1))
    } else {
        a[0] < b[0]
    }
}

pub proof fn lemma_before_total(a: Seq<char>, b: Seq<char>)
    ensures
        a == b || text_before(a, b) || text_before(b, a),
        !(text_before(a, b) && text_before(b, a)),
        !text_before(a, a),
    decreases a.len(),
{
    if a.len() == 0 && b.len() == 0 {
        assert(a =~= b);
    } else if a.len() > 0 && b.len() > 0 && a[0] == b[0] {
        lemma_before_total(a.skip(1), b.skip(1));
        if a.skip(1) == b.skip(1) {
            assert(a =~= seq![a[0]] + a.skip(1));
            assert(b =~= seq![b[0]] + b.skip(1));
        }
    }
    if a.len() > 0 {
        lemma_before_total(a.skip(1), a.skip(1));
    }
}

pub proof fn lemma_before_transitive(a: Seq<char>, b: Seq<char>, c: Seq<char>)
    requires
        text_before(a, b),
        text_before(b, c),
    ensures
        text_before(a, c),
    decreases a.len(),
{
    if a.len() > 0 && b.len() > 0 && c.len() > 0 && a[0] == b[0] && b[0] == c[0] {
        lemma_before_transitive(a.skip(1), b.skip(1), c.skip(1));
    }
}

/// Whether `a` comes before `b` in the order of characters.
pub fn comes_before(a: &Vec<char>, b: &Vec<char>) -> (r: bool)
    ensures
        r == text_before(a@, b@),
{
    let mut i: usize = 0;
    assert(a@.skip(0) =~= a@);
    assert(b@.skip(0) =~= b@);
    while i < a.len() && i < b.len()
        invariant
            0 <= i <= a@.len(),
            i <= b@.len(),
            text_before(a@, b@) == text_before(a@.skip(i as int), b@.skip(i as int)),
        decreases a@.len() - i,
    {
        assert(a@.skip(i as int)[0] == a@[i as int]);
        assert(b@.skip(i as int)[0] == b@[i as int]);
        if a[i] != b[i] {
            return a[i] < b[i];
        }
        assert(a@.skip(i as int).skip(1) =~= a@.skip(i + 1));
        assert(b@.skip(i as int).skip(1) =~= b@.skip(i + 1));
        i += 1;
    }
    i < b.len()
}

/// The characters of the texts of a list.
pub open spec fn texts(v: Seq<String>) -> Seq<Seq<char>> {
    v.map_values(|s: String| s@)
}

/// Whether the texts are in order, each but once.
pub open spec fn texts_sorted(v: Seq<String>) -> bool {
    forall|i: int, j: int| 0 <= i < j < v.len() ==> text_before((#[trigger] v[i])@, (#[trigger] v[j])@)
}

/// Whether a text is in a list.
pub open spec fn lists_text(v: Seq<String>, t: Seq<char>) -> bool {
    exists|i: int| 0 <= i < v.len() && (#[trigger] v[i])@ == t
}

/// Adds a text to a sorted list, unless it is there.
pub fn insert_sorted(v: &mut Vec<String>, s: String)
    requires
        texts_sorted(old(v)@),
    ensures
        texts_sorted(final(v)@),
        forall|t: Seq<char>| #[trigger] lists_text(final(v)@, t) <==> lists_text(old(v)@, t) || t == s@,
{
    let ghost all = v@;
    let ghost text = s@;
    let key = chars_of(s.as_str());
    let mut at: usize = 0;
    while at < v.len() && comes_before(&chars_of(v[at].as_str()), &key)
        invariant
            0 <= at <= v@.len(),
            v@ == all,
            key@ == text,
            forall|k: int| 0 <= k < at ==> text_before((#[trigger] all[k])@, text),
        decreases v@.len() - at,
    {
        at += 1;
    }
    if at < v.len() && same_text(v[at].as_str(), s.as_str()) {
        assert(lists_text(v@, text)) by {
            assert(v@[at as int]@ == text);
        }
        return;
    }
    proof {
        if at < all.len() {
            lemma_before_total(all[at as int]@, text);
        }
        assert forall|k: int| at <= k < all.len() implies text_before(text, (#[trigger] all[k])@) by {
            if k > at {
                lemma_before_transitive(text, all[at as int]@, all[k]@);
            }
        }
    }
    v.insert(at, s);
    proof {
        let grown = v@;
        assert forall|i: int, j: int| 0 <= i < j < grown.len() implies text_before(
            (#[trigger] grown[i])@,
            (#[trigger] grown[j])@,
        ) by {
            let ii = if i < at {
                i
            } else {
                i - 1
            };
            let jj = if j < at {
                j
            } else {
                j - 1
            };
            if i != at {
                assert(grown[i] == all[ii]);
            }
            if j != at {
                assert(grown[j] == all[jj]);
            }
        }
        assert forall|t: Seq<char>| #[trigger] lists_text(grown, t) <==> lists_text(all, t) || t == text by {
            if lists_text(grown, t) {
                let i = choose|i: int| 0 <= i < grown.len() && (#[trigger] grown[i])@ == t;
                if i < at {
                    assert(all[i]@ == t);
                } else if i > at {
                    assert(all[i - 1]@ == t);
                }
            }
            if lists_text(all, t) {
                let i = choose|i: int| 0 <= i < all.len() && (#[trigger] all[i])@ == t;
                if i < at {
                    assert(grown[i]@ == t);
                } else {
                    assert(grown[i + 1]@ == t);
                }
            }
            if t == text {
                assert(grown[at as int]@ == t);
            }
        }
    }
}

/// Whether a text is in a list.
pub fn has_text(v: &Vec<String>, t: &str) -> (r: bool)
    ensures
        r == lists_text(v@, t@),
{
    let mut i: usize = 0;
    while i < v.len()
        invariant
            0 <= i <= v@.len(),
            forall|k: int| 0 <= k < i ==> (#[trigger] v@[k])@ != t@,
        decreases v@.len() - i,
    {
        if same_text(v[i].as_str(), t) {
            assert(v@[i as int]@ == t@);
            return true;
        }
        i += 1;
    }
    false
}

/// The character for a digit.
pub open spec fn digit_char(d: int) -> char {
    ('0' as int + d) as char
}

/// The decimal digits of a number.
pub open spec fn digits_of(n: int) -> Seq<char>
    decreases n,
{
    if n < 10 {
        seq![digit_char(n)]
    } else {
        digits_of(n / 10).push(digit_char(n % 10))
    }
}

/// A number as it is written, with a minus where it is negative.
pub open spec fn number_text(n: int) -> Seq<char> {
    if n < 0 {
        seq!['-'] + digits_of(-n)
    } else {
        digits_of(n)
    }
}

fn push_digit(out: &mut String, d: u64)
    requires
        d < 10,
    ensures
        final(out)@ == old(out)@.push(digit_char(d as int)),
{
    let text = match d {
        0 => "0",
        1 => "1",
        2 => "2",
        3 => "3",
        4 => "4",
        5 => "5",
        6 => "6",
        7 => "7",
        8 => "8",
        _ => "9",
    };
    proof {
        reveal_strlit("0");
        reveal_strlit("1");
        reveal_strlit("2");
        reveal_strlit("3");
        reveal_strlit("4");
        reveal_strlit("5");
        reveal_strlit("6");
        reveal_strlit("7");
        reveal_strlit("8");
        reveal_strlit("9");
        assert(text@ =~= seq![digit_char(d as int)]);
    }
    out.append(text);
    assert(out@ =~= old(out)@.push(digit_char(d as int)));
}

/// Writes the digits of a number at the end of a text.
pub fn push_digits(out: &mut String, n: u64)
    ensures
        final(out)@ == old(out)@ + digits_of(n as int),
    decreases n,
{
    if n >= 10 {
        push_digits(out, n / 10);
    }
    push_digit(out, n % 10);
    assert(out@ =~= old(out)@ + digits_of(n as int));
}

/// Writes a number at the end of a text.
pub fn push_number(out: &mut String, n: i64)
    requires
        n > i64::MIN,
    ensures
        final(out)@ == old(out)@ + number_text(n as int),
{
    if n < 0 {
        out.append("-");
        proof {
            reveal_strlit("-");
        }
        push_digits(out, (-n) as u64);
        assert(out@ =~= old(out)@ + number_text(n as int));
    } else {
        push_digits(out, n as u64);
    }
}

/// Written digits are read back as the number that they stand for.
pub proof fn law_digits_read_back(n: int)
    requires
        0 <= n,
    ensures
        decimal(digits_of(n)) == Some(n),
    decreases n,
{
    let s = digits_of(n);
    if n >= 10 {
        law_digits_read_back(n / 10);
        assert(s.drop_last() =~= digits_of(n / 10));
    } else {
        assert(s.drop_last() =~= Seq::<char>::empty());
    }
}

proof fn lemma_digits_start(n: int)
    requires
        0 <= n,
    ensures
        digits_of(n).len() > 0,
        is_digit(digits_of(n)[0]),
    decreases n,
{
    if n >= 10 {
        lemma_digits_start(n / 10);
    }
}

/// A number that was written is read back, with its sign.
pub proof fn law_number_reads_back(n: int)
    ensures
        signed_decimal(number_text(n)) == Some(n),
{
    let m = if n < 0 { -n } else { n };
    law_digits_read_back(m);
    lemma_digits_start(m);
    if n < 0 {
        assert(number_text(n)[0] == '-');
        assert(number_text(n).skip(1) =~= digits_of(m));
    }
}

/// Only digits make a number: text with anything else in it has no value, and neither
/// has empty text.
pub proof fn law_only_digits_count(s: Seq<char>, i: int)
    ensures
        decimal(Seq::<char>::empty()) is None,
        0 <= i < s.len() && !('0' <= s[i] && s[i] <= '9') ==> decimal(s) is None,
    decreases s.len(),
{
    if 0 <= i < s.len() - 1 {
        law_only_digits_count(s.drop_last(), i);
    }
}

/// The 26 capital letters become small ones, 32 further on; nothing else changes.
pub proof fn law_capitals_become_small(c: char)
    ensures
        0x41 <= c as u32 <= 0x5a ==> lower(c) as u32 == c as u32 + 32,
        !(0x41 <= c as u32 <= 0x5a) ==> lower(c) == c,
        lower(lower(c)) == lower(c),
{
}

/// Text contains whatever was put into it, wherever that stands, and nothing that is
/// longer than itself.
pub proof fn law_part_is_found(a: Seq<char>, part: Seq<char>, b: Seq<char>)
    ensures
        occurs(a + part + b, part),
        part.len() > a.len() ==> !occurs(a, part),
{
    assert((a + part + b).subrange(a.len() as int, a.len() as int + part.len()) =~= part);
    assert(occurs_at(a + part + b, part, a.len() as int));
}

/// A text that contains another one is made of what stands before it, of it, and of
/// what stands behind it.
pub proof fn law_found_part_is_there(s: Seq<char>, part: Seq<char>)
    requires
        occurs(s, part),
    ensures
        exists|i: int| 0 <= i <= s.len() && s == #[trigger] s.take(i) + part + s.skip(i + part.len()),
{
    let i = choose|i: int| #[trigger] occurs_at(s, part, i);
    assert(s =~= s.take(i) + part + s.skip(i + part.len()));
}

/// Text is cut at the first separator, and taken whole where there is none.
pub proof fn law_text_before_separator(a: Seq<char>, sep: char, b: Seq<char>)
    requires
        forall|i: int| 0 <= i < a.len() ==> #[trigger] a[i] != sep,
    ensures
        before(a + seq![sep] + b, sep) == a,
        before(a, sep) == a,
    decreases a.len(),
{
    if a.len() > 0 {
        law_text_before_separator(a.skip(1), sep, b);
        assert((a + seq![sep] + b).skip(1) =~= a.skip(1) + seq![sep] + b);
        assert(seq![a[0]] + a.skip(1) =~= a);
    } else {
        assert(before(a + seq![sep] + b, sep) =~= a);
        assert(before(a, sep) =~= a);
    }
}

/// What stands behind the last separator is what is taken, or the whole text where
/// there is none.
pub proof fn law_text_after_separator(a: Seq<char>, sep: char, b: Seq<char>)
    requires
        forall|i: int| 0 <= i < b.len() ==> #[trigger] b[i] != sep,
    ensures
        after_last(a + seq![sep] + b, sep) == b,
        after_last(b, sep) == b,
    decreases b.len(),
{
    if b.len() > 0 {
        law_text_after_separator(a, sep, b.drop_last());
        assert((a + seq![sep] + b).drop_last() =~= a + seq![sep] + b.drop_last());
        assert(b.drop_last().push(b.last()) =~= b);
    } else {
        assert(after_last(a + seq![sep] + b, sep) =~= b);
        assert(after_last(b, sep) =~= b);
    }
}

/// Texts are in the order of their first characters that differ; one that goes on
/// comes behind one that has ended.
pub proof fn law_order_of_texts(p: Seq<char>, a: Seq<char>, b: Seq<char>)
    ensures
        a.len() > 0 && b.len() > 0 && a[0] != b[0] ==> (text_before(p + a, p + b) <==> a[0] < b[0]),
        a.len() == 0 ==> (text_before(p + a, p + b) <==> b.len() > 0),
        !text_before(p, p),
    decreases p.len(),
{
    if p.len() > 0 {
        law_order_of_texts(p.skip(1), a, b);
        assert((p + a).skip(1) =~= p.skip(1) + a);
        assert((p + b).skip(1) =~= p.skip(1) + b);
    } else {
        assert(p + a =~= a);
        assert(p + b =~= b);
    }
}

} // verus!
