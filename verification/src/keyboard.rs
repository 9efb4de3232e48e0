//! Keyboard input: evdev key codes, typing text, and the shell's shortcuts.

use vstd::prelude::*;

use crate::text::{chars_of, parse_i32, signed_decimal};

verus! {

/// The evdev code of the left shift key.
pub const KEY_LEFTSHIFT: u32 = 42;

/// A key press or release on its way to the focused client.
#[derive(Clone, Copy, Debug, PartialEq, Eq, Structural)]
pub struct PendingKeyEvent {
    pub scancode: u32,
    pub pressed: bool,
}

/// What a key of the US layout types, with and without shift.
pub open spec fn us_layout(scancode: u32, shift: bool) -> Option<char> {
    match scancode {
        2 => Some(
            if shift {
                '!'
            } else {
                '1'
            },
        ),
        3 => Some(
            if shift {
                '@'
            } else {
                '2'
            },
        ),
        4 => Some(
            if shift {
                '#'
            } else {
                '3'
            },
        ),
        5 => Some(
            if shift {
                '$'
            } else {
                '4'
            },
        ),
        6 => Some(
            if shift {
                '%'
            } else {
                '5'
            },
        ),
        7 => Some(
            if shift {
                '^'
            } else {
                '6'
            },
        ),
        8 => Some(
            if shift {
                '&'
            } else {
                '7'
            },
        ),
        9 => Some(
            if shift {
                '*'
            } else {
                '8'
            },
        ),
        10 => Some(
            if shift {
                '('
            } else {
                '9'
            },
        ),
        11 => Some(
            if shift {
                ')'
            } else {
                '0'
            },
        ),
        12 => Some(
            if shift {
                '_'
            } else {
                '-'
            },
        ),
        13 => Some(
            if shift {
                '+'
            } else {
                '='
            },
        ),
        15 => if shift {
            None
        } else {
            Some('\t')
        },
        16 => Some(
            if shift {
                'Q'
            } else {
                'q'
            },
        ),
        17 => Some(
            if shift {
                'W'
            } else {
                'w'
            },
        ),
        18 => Some(
            if shift {
                'E'
            } else {
                'e'
            },
        ),
        19 => Some(
            if shift {
                'R'
            } else {
                'r'
            },
        ),
        20 => Some(
            if shift {
                'T'
            } else {
                't'
            },
        ),
        21 => Some(
            if shift {
                'Y'
            } else {
                'y'
            },
        ),
        22 => Some(
            if shift {
                'U'
            } else {
                'u'
            },
        ),
        23 => Some(
            if shift {
                'I'
            } else {
                'i'
            },
        ),
        24 => Some(
            if shift {
                'O'
            } else {
                'o'
            },
        ),
        25 => Some(
            if shift {
                'P'
            } else {
                'p'
            },
        ),
        26 => Some(
            if shift {
                '{'
            } else {
                '['
            },
        ),
        27 => Some(
            if shift {
                '}'
            } else {
                ']'
            },
        ),
        28 => if shift {
            None
        } else {
            Some('\n')
        },
        30 => Some(
            if shift {
                'A'
            } else {
                'a'
            },
        ),
        31 => Some(
            if shift {
                'S'
            } else {
                's'
            },
        ),
        32 => Some(
            if shift {
                'D'
            } else {
                'd'
            },
        ),
        33 => Some(
            if shift {
                'F'
            } else {
                'f'
            },
        ),
        34 => Some(
            if shift {
                'G'
            } else {
                'g'
            },
        ),
        35 => Some(
            if shift {
                'H'
            } else {
                'h'
            },
        ),
        36 => Some(
            if shift {
                'J'
            } else {
                'j'
            },
        ),
        37 => Some(
            if shift {
                'K'
            } else {
                'k'
            },
        ),
        38 => Some(
            if shift {
                'L'
            } else {
                'l'
            },
        ),
        39 => Some(
            if shift {
                ':'
            } else {
                ';'
            },
        ),
        40 => Some(
            if shift {
                '"'
            } else {
                '\''
            },
        ),
        41 => Some(
            if shift {
                '~'
            } else {
                '`'
            },
        ),
        43 => Some(
            if shift {
                '|'
            } else {
                '\\'
            },
        ),
        44 => Some(
            if shift {
                'Z'
            } else {
                'z'
            },
        ),
        45 => Some(
            if shift {
                'X'
            } else {
                'x'
            },
        ),
        46 => Some(
            if shift {
                'C'
            } else {
                'c'
            },
        ),
        47 => Some(
            if shift {
                'V'
            } else {
                'v'
            },
        ),
        48 => Some(
            if shift {
                'B'
            } else {
                'b'
            },
        ),
        49 => Some(
            if shift {
                'N'
            } else {
                'n'
            },
        ),
        50 => Some(
            if shift {
                'M'
            } else {
                'm'
            },
        ),
        51 => Some(
            if shift {
                '<'
            } else {
                ','
            },
        ),
        52 => Some(
            if shift {
                '>'
            } else {
                '.'
            },
        ),
        53 => Some(
            if shift {
                '?'
            } else {
                '/'
            },
        ),
        57 => if shift {
            None
        } else {
            Some(' ')
        },
        _ => None,
    }
}

/// The key, and whether shift is held, that types a character.
pub open spec fn key_for(ch: char) -> Option<(u32, bool)> {
    match ch {
        'a' => Some((30, false)),
        'A' => Some((30, true)),
        'b' => Some((48, false)),
        'B' => Some((48, true)),
        'c' => Some((46, false)),
        'C' => Some((46, true)),
        'd' => Some((32, false)),
        'D' => Some((32, true)),
        'e' => Some((18, false)),
        'E' => Some((18, true)),
        'f' => Some((33, false)),
        'F' => Some((33, true)),
        'g' => Some((34, false)),
        'G' => Some((34, true)),
        'h' => Some((35, false)),
        'H' => Some((35, true)),
        'i' => Some((23, false)),
        'I' => Some((23, true)),
        'j' => Some((36, false)),
        'J' => Some((36, true)),
        'k' => Some((37, false)),
        'K' => Some((37, true)),
        'l' => Some((38, false)),
        'L' => Some((38, true)),
        'm' => Some((50, false)),
        'M' => Some((50, true)),
        'n' => Some((49, false)),
        'N' => Some((49, true)),
        'o' => Some((24, false)),
        'O' => Some((24, true)),
        'p' => Some((25, false)),
        'P' => Some((25, true)),
        'q' => Some((16, false)),
        'Q' => Some((16, true)),
        'r' => Some((19, false)),
        'R' => Some((19, true)),
        's' => Some((31, false)),
        'S' => Some((31, true)),
        't' => Some((20, false)),
        'T' => Some((20, true)),
        'u' => Some((22, false)),
        'U' => Some((22, true)),
        'v' => Some((47, false)),
        'V' => Some((47, true)),
        'w' => Some((17, false)),
        'W' => Some((17, true)),
        'x' => Some((45, false)),
        'X' => Some((45, true)),
        'y' => Some((21, false)),
        'Y' => Some((21, true)),
        'z' => Some((44, false)),
        'Z' => Some((44, true)),
        '1' => Some((2, false)),
        '!' => Some((2, true)),
        '2' => Some((3, false)),
        '@' => Some((3, true)),
        '3' => Some((4, false)),
        '#' => Some((4, true)),
        '4' => Some((5, false)),
        '$' => Some((5, true)),
        '5' => Some((6, false)),
        '%' => Some((6, true)),
        '6' => Some((7, false)),
        '^' => Some((7, true)),
        '7' => Some((8, false)),
        '&' => Some((8, true)),
        '8' => Some((9, false)),
        '*' => Some((9, true)),
        '9' => Some((10, false)),
        '(' => Some((10, true)),
        '0' => Some((11, false)),
        ')' => Some((11, true)),
        '-' => Some((12, false)),
        '_' => Some((12, true)),
        '=' => Some((13, false)),
        '+' => Some((13, true)),
        '[' => Some((26, false)),
        '{' => Some((26, true)),
        ']' => Some((27, false)),
        '}' => Some((27, true)),
        '\\' => Some((43, false)),
        '|' => Some((43, true)),
        ';' => Some((39, false)),
        ':' => Some((39, true)),
        '\'' => Some((40, false)),
        '"' => Some((40, true)),
        '`' => Some((41, false)),
        '~' => Some((41, true)),
        ',' => Some((51, false)),
        '<' => Some((51, true)),
        '.' => Some((52, false)),
        '>' => Some((52, true)),
        '/' => Some((53, false)),
        '?' => Some((53, true)),
        ' ' => Some((57, false)),
        '\n' => Some((28, false)),
        '\t' => Some((15, false)),
        _ => None,
    }
}

/// The key that types an ASCII character on a US layout, and whether it needs
/// shift. Other characters have none.
pub fn ascii_to_scancode(ch: char) -> (r: Option<(u32, bool)>)
    ensures
        r == key_for(ch),
{
    match ch {
        'a' => Some((30, false)),
        'A' => Some((30, true)),
        'b' => Some((48, false)),
        'B' => Some((48, true)),
        'c' => Some((46, false)),
        'C' => Some((46, true)),
        'd' => Some((32, false)),
        'D' => Some((32, true)),
        'e' => Some((18, false)),
        'E' => Some((18, true)),
        'f' => Some((33, false)),
        'F' => Some((33, true)),
        'g' => Some((34, false)),
        'G' => Some((34, true)),
        'h' => Some((35, false)),
        'H' => Some((35, true)),
        'i' => Some((23, false)),
        'I' => Some((23, true)),
        'j' => Some((36, false)),
        'J' => Some((36, true)),
        'k' => Some((37, false)),
        'K' => Some((37, true)),
        'l' => Some((38, false)),
        'L' => Some((38, true)),
        'm' => Some((50, false)),
        'M' => Some((50, true)),
        'n' => Some((49, false)),
        'N' => Some((49, true)),
        'o' => Some((24, false)),
        'O' => Some((24, true)),
        'p' => Some((25, false)),
        'P' => Some((25, true)),
        'q' => Some((16, false)),
        'Q' => Some((16, true)),
        'r' => Some((19, false)),
        'R' => Some((19, true)),
        's' => Some((31, false)),
        'S' => Some((31, true)),
        't' => Some((20, false)),
        'T' => Some((20, true)),
        'u' => Some((22, false)),
        'U' => Some((22, true)),
        'v' => Some((47, false)),
        'V' => Some((47, true)),
        'w' => Some((17, false)),
        'W' => Some((17, true)),
        'x' => Some((45, false)),
        'X' => Some((45, true)),
        'y' => Some((21, false)),
        'Y' => Some((21, true)),
        'z' => Some((44, false)),
        'Z' => Some((44, true)),
        '1' => Some((2, false)),
        '!' => Some((2, true)),
        '2' => Some((3, false)),
        '@' => Some((3, true)),
        '3' => Some((4, false)),
        '#' => Some((4, true)),
        '4' => Some((5, false)),
        '$' => Some((5, true)),
        '5' => Some((6, false)),
        '%' => Some((6, true)),
        '6' => Some((7, false)),
        '^' => Some((7, true)),
        '7' => Some((8, false)),
        '&' => Some((8, true)),
        '8' => Some((9, false)),
        '*' => Some((9, true)),
        '9' => Some((10, false)),
        '(' => Some((10, true)),
        '0' => Some((11, false)),
        ')' => Some((11, true)),
        '-' => Some((12, false)),
        '_' => Some((12, true)),
        '=' => Some((13, false)),
        '+' => Some((13, true)),
        '[' => Some((26, false)),
        '{' => Some((26, true)),
        ']' => Some((27, false)),
        '}' => Some((27, true)),
        '\\' => Some((43, false)),
        '|' => Some((43, true)),
        ';' => Some((39, false)),
        ':' => Some((39, true)),
        '\'' => Some((40, false)),
        '"' => Some((40, true)),
        '`' => Some((41, false)),
        '~' => Some((41, true)),
        ',' => Some((51, false)),
        '<' => Some((51, true)),
        '.' => Some((52, false)),
        '>' => Some((52, true)),
        '/' => Some((53, false)),
        '?' => Some((53, true)),
        ' ' => Some((57, false)),
        '\n' => Some((28, false)),
        '\t' => Some((15, false)),
        _ => None,
    }
}

/// A key is found for exactly the characters of the layout, and pressing it
/// types that character.
pub proof fn law_key_types_character(ch: char, scancode: u32, shift: bool)
    ensures
        key_for(ch) == Some((scancode, shift)) <==> us_layout(scancode, shift) == Some(ch),
{
}

/// The key events that type one character: its key goes down and up, inside a
/// held shift where it needs one. A character without a key types nothing.
pub open spec fn strokes_for(ch: char) -> Seq<PendingKeyEvent> {
    match key_for(ch) {
        Some((code, shift)) => {
            let key = seq![
                PendingKeyEvent { scancode: code, pressed: true },
                PendingKeyEvent { scancode: code, pressed: false },
            ];
            if shift {
                seq![PendingKeyEvent { scancode: KEY_LEFTSHIFT, pressed: true }] + key
                    + seq![PendingKeyEvent { scancode: KEY_LEFTSHIFT, pressed: false }]
            } else {
                key
            }
        },
        None => Seq::empty(),
    }
}

/// The key events that type a text.
pub open spec fn strokes(text: Seq<char>) -> Seq<PendingKeyEvent>
    decreases text.len(),
{
    if text.len() == 0 {
        Seq::empty()
    } else {
        strokes(text.drop_last()) + strokes_for(text.last())
    }
}

/// Queues the key events that type `text`.
pub fn type_text(text: &str, keys: &mut Vec<PendingKeyEvent>)
    ensures
        final(keys)@ == old(keys)@ + strokes(text@),
{
    let n: usize = text.unicode_len();
    let mut i: usize = 0;
    assert(text@.take(0) =~= Seq::empty());
    assert(keys@ =~= old(keys)@ + strokes(text@.take(0)));
    while i < n
        invariant
            0 <= i <= n,
            n == text@.len(),
            keys@ == old(keys)@ + strokes(text@.take(i as int)),
        decreases n - i,
    {
        let ch = text.get_char(i);
        let ghost before = keys@;
        if let Some((code, shift)) = ascii_to_scancode(ch) {
            if shift {
                keys.push(PendingKeyEvent { scancode: KEY_LEFTSHIFT, pressed: true });
            }
            keys.push(PendingKeyEvent { scancode: code, pressed: true });
            keys.push(PendingKeyEvent { scancode: code, pressed: false });
            if shift {
                keys.push(PendingKeyEvent { scancode: KEY_LEFTSHIFT, pressed: false });
            }
        }
        assert(keys@ =~= before + strokes_for(ch));
        assert(text@.take(i + 1).drop_last() =~= text@.take(i as int));
        assert(keys@ =~= old(keys)@ + strokes(text@.take(i + 1)));
        i += 1;
    }
    assert(text@.take(n as int) =~= text@);
}

/// No key is left held down by typing a text.
pub open spec fn all_released(events: Seq<PendingKeyEvent>) -> bool {
    forall|i: int|
        0 <= i < events.len() && (#[trigger] events[i]).pressed ==> exists|j: int|
            i < j < events.len() && (#[trigger] events[j]).scancode == events[i].scancode && !events[j].pressed
}

/// Typing a text releases every key that it presses.
pub proof fn law_typing_releases_keys(text: Seq<char>)
    ensures
        all_released(strokes(text)),
    decreases text.len(),
{
    if text.len() > 0 {
        law_typing_releases_keys(text.drop_last());
        let head = strokes(text.drop_last());
        let tail = strokes_for(text.last());
        let all = strokes(text);
        assert forall|i: int| 0 <= i < all.len() && (#[trigger] all[i]).pressed implies exists|j: int|
            i < j < all.len() && (#[trigger] all[j]).scancode == all[i].scancode && !all[j].pressed by {
            if i < head.len() {
                assert(head[i].pressed);
                let j = choose|j: int|
                    i < j < head.len() && (#[trigger] head[j]).scancode == head[i].scancode && !head[j].pressed;
                assert(all[j] == head[j]);
            } else if tail.len() == 2 {
                assert(all[head.len() as int + 1] == tail[1]);
            } else {
                assert(all[head.len() as int + 2] == tail[2]);
                assert(all[head.len() as int + 3] == tail[3]);
            }
        }
    }
}

/// A key repeats after this many milliseconds, unless set otherwise.
pub const REPEAT_DELAY_MS: i32 = 500;

/// A held key repeats this often per second, unless set otherwise.
pub const REPEAT_RATE_HZ: i32 = 33;

/// How held keys repeat.
#[derive(Clone, Copy, Debug, PartialEq, Eq, Structural)]
pub struct RepeatInfo {
    pub delay: i32,
    pub rate: i32,
}

/// A setting as a number; the default where it is not set or is no number.
pub open spec fn setting_or(value: Option<Seq<char>>, default: i32) -> i32 {
    match value {
        Some(v) => match signed_decimal(v) {
            Some(n) => if i32::MIN <= n <= i32::MAX {
                n as i32
            } else {
                default
            },
            None => default,
        },
        None => default,
    }
}

fn setting(value: Option<&str>, default: i32) -> (r: i32)
    ensures
        r == setting_or(
            match value {
                Some(v) => Some(v@),
                None => None,
            },
            default,
        ),
{
    match value {
        Some(v) => match parse_i32(&chars_of(v)) {
            Some(n) => n,
            None => default,
        },
        None => default,
    }
}

/// How keys repeat under the settings given.
pub open spec fn repeat_of(delay: Option<Seq<char>>, rate: Option<Seq<char>>) -> RepeatInfo {
    RepeatInfo { delay: setting_or(delay, REPEAT_DELAY_MS), rate: setting_or(rate, REPEAT_RATE_HZ) }
}

/// How held keys repeat, by two settings of the environment.
pub fn repeat_info(delay: Option<&str>, rate: Option<&str>) -> (r: RepeatInfo)
    ensures
        r == repeat_of(
            match delay {
                Some(v) => Some(v@),
                None => None,
            },
            match rate {
                Some(v) => Some(v@),
                None => None,
            },
        ),
{
    RepeatInfo { delay: setting(delay, REPEAT_DELAY_MS), rate: setting(rate, REPEAT_RATE_HZ) }
}

/// The keys lie in rows: digits from scancode 2, and the letters from 16, 30 and 44, in
/// the order of the US layout.
pub proof fn law_keys_lie_in_rows(i: int)
    ensures
        0 <= i < 12 ==> key_for("1234567890-="@[i]) == Some(((2 + i) as u32, false)),
        0 <= i < 12 ==> key_for("!@#$%^&*()_+"@[i]) == Some(((2 + i) as u32, true)),
        0 <= i < 12 ==> key_for("qwertyuiop[]"@[i]) == Some(((16 + i) as u32, false)),
        0 <= i < 12 ==> key_for("asdfghjkl;'`"@[i]) == Some(((30 + i) as u32, false)),
        0 <= i < 10 ==> key_for("zxcvbnm,./"@[i]) == Some(((44 + i) as u32, false)),
        key_for(' ') == Some((57u32, false)),
        key_for('\n') == Some((28u32, false)),
        key_for('\t') == Some((15u32, false)),
{
    reveal_strlit("1234567890-=");
    reveal_strlit("!@#$%^&*()_+");
    reveal_strlit("qwertyuiop[]");
    reveal_strlit("asdfghjkl;'`");
    reveal_strlit("zxcvbnm,./");
}

/// A capital letter is on the key of its small letter, with Shift.
pub proof fn law_shift_types_capitals(small: char, capital: char)
    requires
        'a' <= small && small <= 'z',
        capital as u32 + 32 == small as u32,
    ensures
        key_for(small) matches Some((k, shift)) && !shift && key_for(capital) == Some((k, true)),
{
}

/// Text is typed from its beginning to its end.
pub proof fn law_text_is_typed_in_order(a: Seq<char>, b: Seq<char>)
    ensures
        strokes(a + b) == strokes(a) + strokes(b),
    decreases b.len(),
{
    if b.len() == 0 {
        assert(a + b =~= a);
        assert(strokes(a) + strokes(b) =~= strokes(a));
    } else {
        law_text_is_typed_in_order(a, b.drop_last());
        assert((a + b).drop_last() =~= a + b.drop_last());
        assert(strokes(a + b) =~= strokes(a) + strokes(b));
    }
}

/// A character is typed by pressing and releasing its key, with Shift (scancode 42)
/// held meanwhile where it needs it. A character without a key types nothing.
pub proof fn law_shift_is_held_meanwhile(ch: char)
    ensures
        ({
            let typed = strokes(seq![ch]);
            match key_for(ch) {
                Some((k, true)) => typed == seq![
                    PendingKeyEvent { scancode: 42, pressed: true },
                    PendingKeyEvent { scancode: k, pressed: true },
                    PendingKeyEvent { scancode: k, pressed: false },
                    PendingKeyEvent { scancode: 42, pressed: false },
                ],
                Some((k, false)) => typed == seq![
                    PendingKeyEvent { scancode: k, pressed: true },
                    PendingKeyEvent { scancode: k, pressed: false },
                ],
                None => typed.len() == 0,
            }
        }),
{
    assert(seq![ch].drop_last() =~= Seq::empty());
    assert(strokes(seq![ch].drop_last()) =~= Seq::empty());
    assert(seq![ch].last() == ch);
    let typed = strokes(seq![ch]);
    assert(typed =~= strokes_for(ch));
    match key_for(ch) {
        Some((k, shift)) => {
            if shift {
                assert(typed =~= seq![
                    PendingKeyEvent { scancode: 42, pressed: true },
                    PendingKeyEvent { scancode: k, pressed: true },
                    PendingKeyEvent { scancode: k, pressed: false },
                    PendingKeyEvent { scancode: 42, pressed: false },
                ]);
            }
        },
        None => {},
    }
}

/// Keys repeat after 500 ms and 33 times a second, unless a setting that is a number
/// says otherwise; each setting has its own say.
pub proof fn law_repeat_settings(delay: Option<Seq<char>>, rate: Option<Seq<char>>, n: i32)
    ensures
        delay is None ==> repeat_of(delay, rate).delay == 500,
        rate is None ==> repeat_of(delay, rate).rate == 33,
        delay == Some(crate::text::number_text(n as int)) ==> repeat_of(delay, rate).delay == n,
        rate == Some(crate::text::number_text(n as int)) ==> repeat_of(delay, rate).rate == n,
        delay == Some(Seq::<char>::empty()) ==> repeat_of(delay, rate).delay == 500,
        rate == Some(Seq::<char>::empty()) ==> repeat_of(delay, rate).rate == 33,
{
    crate::text::law_number_reads_back(n as int);
}

} // verus!
