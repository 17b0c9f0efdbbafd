//! The grammar of a whitelist file, stated over its UTF-8 bytes.
//!
//! A file is a run of comment lines, then rules, each followed by one or more comment lines.
//! A comment line holds blanks, an optional `#` comment and a newline. A rule is a
//! blank-separated list of components: `day <days>`, `time HH:MM-HH:MM`, `num <number>` and
//! `label <tag>`.
use vstd::prelude::*;
use vstd::string::StringSliceAdditionalSpecFns;
use vstd::utf8::{encode_utf8, valid_utf8, is_ascii_chars};
use crate::whitelist::{is_weekday_bit, ComponentView, Filter, FilterComponent};

verus! {

/// A class of bytes that the grammar skips over.
pub enum CharClass {
    /// Space and tab.
    Blank,
    Digit,
    /// Digits, `#` and `*`.
    NumberChar,
    /// ASCII letters and digits.
    LabelChar,
    NotNewline,
    /// The space character alone.
    Space,
    /// Anything but carriage return and newline.
    NotLineEnd,
    /// Anything but a double quote.
    NotQuote,
}

pub open spec fn in_class(c: CharClass, b: u8) -> bool {
    match c {
        CharClass::Blank => b == 0x20 || b == 0x09,
        CharClass::Digit => 0x30 <= b <= 0x39,
        CharClass::NumberChar => (0x30 <= b <= 0x39) || b == 0x23 || b == 0x2a,
        CharClass::LabelChar => (0x30 <= b <= 0x39) || (0x41 <= b <= 0x5a) || (0x61 <= b <= 0x7a),
        CharClass::NotNewline => b != 0x0a,
        CharClass::Space => b == 0x20,
        CharClass::NotLineEnd => b != 0x0a && b != 0x0d,
        CharClass::NotQuote => b != 0x22,
    }
}

/// The end of the run of bytes of class `c` that starts at `i`.
pub open spec fn run_end(s: Seq<u8>, i: int, c: CharClass) -> int
    decreases s.len() - i,
{
    if 0 <= i < s.len() && in_class(c, s[i]) {
        run_end(s, i + 1, c)
    } else {
        i
    }
}

/// ASCII lower case.
pub open spec fn lower(b: u8) -> u8 {
    if 0x41 <= b <= 0x5a {
        (b + 32) as u8
    } else {
        b
    }
}

/// Whether `w` stands at `i`, compared byte by byte, or ignoring ASCII case if `fold`.
pub open spec fn word_at(s: Seq<u8>, i: int, w: Seq<u8>, fold: bool) -> bool {
    0 <= i && i + w.len() <= s.len() && forall|k: int|
        0 <= k < w.len() ==> (if fold {
            lower(#[trigger] s[i + k])
        } else {
            s[i + k]
        }) == w[k]
}

/// Whether byte `b` stands at `i`.
pub open spec fn byte_at(s: Seq<u8>, i: int, b: u8) -> bool {
    0 <= i < s.len() && s[i] == b
}

pub open spec fn digit_at(s: Seq<u8>, i: int) -> bool {
    0 <= i < s.len() && in_class(CharClass::Digit, s[i])
}

pub open spec fn digit_value(b: u8) -> int {
    b - 0x30
}

/// The characters of a run of ASCII bytes.
pub open spec fn ascii_chars(b: Seq<u8>) -> Seq<char> {
    b.map_values(|x: u8| x as char)
}

/// The mask of the weekday range from `start` to `end` (single weekday bits); a range whose end
/// comes before its start in the week runs on through Sunday and wraps to Monday.
pub open spec fn day_range_mask(start: u8, end: u8) -> u8 {
    if end >= start {
        (((end << 1u8) - start) as u8) & 0x7fu8
    } else {
        ((0x80u8 - start) as u8) | (((end << 1u8) - 1u8) as u8)
    }
}

/// Whether bit `k` of `m` is set.
pub open spec fn has_bit(m: u8, k: u8) -> bool {
    (m >> k) & 1u8 == 1u8
}

/// A weekday at `i`: a digit 1 to 7 (Monday is 1), or an English or Dutch abbreviation in
/// any case; the weekday's bit and the position after it.
pub open spec fn day_token(s: Seq<u8>, i: int) -> Option<(u8, int)> {
    if 0 <= i < s.len() && 0x31 <= s[i] <= 0x37 {
        Some(((1u8 << ((s[i] - 0x31) as u8)) as u8, i + 1))
    } else if word_at(s, i, seq!['m' as u8, 'o' as u8, 'n' as u8], true) {
        Some((0x01u8, i + 3))
    } else if word_at(s, i, seq!['m' as u8, 'a' as u8], true) {
        Some((0x01u8, i + 2))
    } else if word_at(s, i, seq!['t' as u8, 'u' as u8, 'e' as u8], true) {
        Some((0x02u8, i + 3))
    } else if word_at(s, i, seq!['d' as u8, 'i' as u8], true) {
        Some((0x02u8, i + 2))
    } else if word_at(s, i, seq!['w' as u8, 'e' as u8, 'd' as u8], true) {
        Some((0x04u8, i + 3))
    } else if word_at(s, i, seq!['w' as u8, 'o' as u8, 'e' as u8], true) {
        Some((0x04u8, i + 3))
    } else if word_at(s, i, seq!['w' as u8, 'o' as u8], true) {
        Some((0x04u8, i + 2))
    } else if word_at(s, i, seq!['t' as u8, 'h' as u8, 'u' as u8], true) {
        Some((0x08u8, i + 3))
    } else if word_at(s, i, seq!['d' as u8, 'o' as u8], true) {
        Some((0x08u8, i + 2))
    } else if word_at(s, i, seq!['f' as u8, 'r' as u8, 'i' as u8], true) {
        Some((0x10u8, i + 3))
    } else if word_at(s, i, seq!['v' as u8, 'r' as u8, 'i' as u8, 'j' as u8], true) {
        Some((0x10u8, i + 4))
    } else if word_at(s, i, seq!['v' as u8, 'r' as u8], true) && byte_at(s, i + 2, 0xc4)
        && (byte_at(s, i + 3, 0xb3) || byte_at(s, i + 3, 0xb2)) {
        // "vr" followed by the ligature ij, in either case
        Some((0x10u8, i + 4))
    } else if word_at(s, i, seq!['v' as u8, 'r' as u8], true) {
        Some((0x10u8, i + 2))
    } else if word_at(s, i, seq!['s' as u8, 'a' as u8, 't' as u8], true) {
        Some((0x20u8, i + 3))
    } else if word_at(s, i, seq!['z' as u8, 'a' as u8], true) {
        Some((0x20u8, i + 2))
    } else if word_at(s, i, seq!['s' as u8, 'u' as u8, 'n' as u8], true) {
        Some((0x40u8, i + 3))
    } else if word_at(s, i, seq!['z' as u8, 'o' as u8], true) {
        Some((0x40u8, i + 2))
    } else {
        None
    }
}

/// A weekday, or a range `start-end` of weekdays, at `i`.
pub open spec fn day_range_token(s: Seq<u8>, i: int) -> Option<(u8, int)> {
    match day_token(s, i) {
        None => None,
        Some((a, j)) => if byte_at(s, j, '-' as u8) {
            match day_token(s, j + 1) {
                Some((b, k)) => Some((day_range_mask(a, b), k)),
                None => Some((a, j)),
            }
        } else {
            Some((a, j))
        },
    }
}

/// The further `,`-separated day ranges from `i` on, or-ed into `acc`.
pub open spec fn day_list_token(s: Seq<u8>, i: int, acc: u8) -> (u8, int)
    decreases s.len() - i,
{
    if byte_at(s, i, ',' as u8) {
        match day_range_token(s, i + 1) {
            Some((m, j)) => if i < j <= s.len() {
                day_list_token(s, j, acc | m)
            } else {
                (acc, i)
            },
            None => (acc, i),
        }
    } else {
        (acc, i)
    }
}

/// `day` with one or more blanks and a `,`-separated list of day ranges.
pub open spec fn day_filter_token(s: Seq<u8>, i: int) -> Option<(ComponentView, int)> {
    if word_at(s, i, seq!['d' as u8, 'a' as u8, 'y' as u8], false) {
        let j = run_end(s, i + 3, CharClass::Blank);
        if j > i + 3 {
            match day_range_token(s, j) {
                Some((m, k)) => {
                    let (mask, e) = day_list_token(s, k, m);
                    Some((ComponentView::Day(mask), e))
                },
                None => None,
            }
        } else {
            None
        }
    } else {
        None
    }
}

/// `H:MM` or `HH:MM` at `i`, as minutes since midnight.
pub open spec fn time_token(s: Seq<u8>, i: int) -> Option<(u16, int)> {
    if digit_at(s, i) {
        let two = digit_at(s, i + 1);
        let h = if two {
            digit_value(s[i]) * 10 + digit_value(s[i + 1])
        } else {
            digit_value(s[i])
        };
        let j = if two {
            i + 2
        } else {
            i + 1
        };
        if byte_at(s, j, ':' as u8) && digit_at(s, j + 1) && digit_at(s, j + 2) {
            Some(((h * 60 + digit_value(s[j + 1]) * 10 + digit_value(s[j + 2])) as u16, j + 3))
        } else {
            None
        }
    } else {
        None
    }
}

/// `time` with one or more blanks and `start-end`.
pub open spec fn time_filter_token(s: Seq<u8>, i: int) -> Option<(ComponentView, int)> {
    if word_at(s, i, seq!['t' as u8, 'i' as u8, 'm' as u8, 'e' as u8], false) {
        let j = run_end(s, i + 4, CharClass::Blank);
        if j > i + 4 {
            match time_token(s, j) {
                Some((a, k)) => if byte_at(s, k, '-' as u8) {
                    match time_token(s, k + 1) {
                        Some((b, e)) => Some((ComponentView::Time(a, b), e)),
                        None => None,
                    }
                } else {
                    None
                },
                None => None,
            }
        } else {
            None
        }
    } else {
        None
    }
}

/// The position after the keyword of a number component, if one stands at `i`.
pub open spec fn number_keyword(s: Seq<u8>, i: int) -> Option<int> {
    if word_at(s, i, seq!['n' as u8, 'u' as u8, 'm' as u8], false) {
        Some(i + 3)
    } else {
        None
    }
}

/// `num` with one or more blanks and a run of digits, `#` and `*`.
pub open spec fn number_filter_token(s: Seq<u8>, i: int) -> Option<(ComponentView, int)> {
    match number_keyword(s, i) {
        Some(k) => {
            let j = run_end(s, k, CharClass::Blank);
            let e = run_end(s, j, CharClass::NumberChar);
            if j > k && e > j {
                Some((ComponentView::Number(ascii_chars(s.subrange(j, e))), e))
            } else {
                None
            }
        },
        None => None,
    }
}

/// `label` with one or more blanks and a run of ASCII letters and digits.
pub open spec fn label_filter_token(s: Seq<u8>, i: int) -> Option<(ComponentView, int)> {
    if word_at(s, i, seq!['l' as u8, 'a' as u8, 'b' as u8, 'e' as u8, 'l' as u8], false) {
        let j = run_end(s, i + 5, CharClass::Blank);
        let e = run_end(s, j, CharClass::LabelChar);
        if j > i + 5 && e > j {
            Some((ComponentView::Label(ascii_chars(s.subrange(j, e))), e))
        } else {
            None
        }
    } else {
        None
    }
}

/// The first of the four kinds of component that stands at `i`.
pub open spec fn component_token(s: Seq<u8>, i: int) -> Option<(ComponentView, int)> {
    match day_filter_token(s, i) {
        Some(r) => Some(r),
        None => match time_filter_token(s, i) {
            Some(r) => Some(r),
            None => match number_filter_token(s, i) {
                Some(r) => Some(r),
                None => label_filter_token(s, i),
            },
        },
    }
}

/// The further blank-separated components from `i` on; a separator that no component follows
/// is left unread.
pub open spec fn components_tail(s: Seq<u8>, i: int) -> (Seq<ComponentView>, int)
    decreases s.len() - i,
{
    let j = run_end(s, i, CharClass::Blank);
    if j > i {
        match component_token(s, j) {
            Some((c, k)) => if i < k <= s.len() {
                let (cs, e) = components_tail(s, k);
                (seq![c] + cs, e)
            } else {
                (seq![], i)
            },
            None => (seq![], i),
        }
    } else {
        (seq![], i)
    }
}

/// A rule at `i`: optional blanks, then one or more blank-separated components.
pub open spec fn rule_token(s: Seq<u8>, i: int) -> Option<(Seq<ComponentView>, int)> {
    let j = run_end(s, i, CharClass::Blank);
    match component_token(s, j) {
        Some((c, k)) => {
            let (cs, e) = components_tail(s, k);
            Some((seq![c] + cs, e))
        },
        None => None,
    }
}

/// A comment line at `i`: blanks, an optional `#` comment, and a newline.
pub open spec fn comment_token(s: Seq<u8>, i: int) -> Option<int> {
    let j = run_end(s, i, CharClass::Blank);
    if byte_at(s, j, '\n' as u8) {
        Some(j + 1)
    } else if byte_at(s, j, '#' as u8) {
        let k = run_end(s, j + 1, CharClass::NotNewline);
        if k < s.len() {
            Some(k + 1)
        } else {
            None
        }
    } else {
        None
    }
}

/// The position after the comment lines that start at `i`.
pub open spec fn comments_end(s: Seq<u8>, i: int) -> int
    decreases s.len() - i,
{
    match comment_token(s, i) {
        Some(j) => if i < j <= s.len() {
            comments_end(s, j)
        } else {
            i
        },
        None => i,
    }
}

/// The rules from `i` to the end of the input, each followed by one or more comment lines;
/// `None` if anything else stands there.
pub open spec fn rules_from(s: Seq<u8>, i: int) -> Option<Seq<Seq<ComponentView>>>
    decreases s.len() - i,
{
    if i >= s.len() {
        Some(seq![])
    } else {
        match rule_token(s, i) {
            Some((r, j)) => match comment_token(s, j) {
                Some(k) => {
                    let e = comments_end(s, k);
                    if i < e <= s.len() {
                        match rules_from(s, e) {
                            Some(rest) => Some(seq![r] + rest),
                            None => None,
                        }
                    } else {
                        None
                    }
                },
                None => None,
            },
            None => None,
        }
    }
}

/// The rules of a whole file, or `None` if the file does not follow the grammar.
pub open spec fn parse_rules(s: Seq<u8>) -> Option<Seq<Seq<ComponentView>>> {
    rules_from(s, comments_end(s, 0))
}

/// Whether an executable parse result stands for a mathematical one.
pub open spec fn agrees<T>(r: Option<(T, usize)>, g: Option<(T, int)>) -> bool {
    match r {
        Some((v, j)) => g == Some((v, j as int)),
        None => g is None,
    }
}

/// Whether an executable component parse result stands for a mathematical one.
pub open spec fn agrees_component(r: Option<(FilterComponent, usize)>, g: Option<(ComponentView, int)>) -> bool {
    match r {
        Some((c, j)) => g == Some((c@, j as int)),
        None => g is None,
    }
}

fn in_class_exec(c: &CharClass, b: u8) -> (r: bool)
    ensures
        r == in_class(*c, b),
{
    match c {
        CharClass::Blank => b == 0x20 || b == 0x09,
        CharClass::Digit => 0x30 <= b && b <= 0x39,
        CharClass::NumberChar => (0x30 <= b && b <= 0x39) || b == 0x23 || b == 0x2a,
        CharClass::LabelChar => (0x30 <= b && b <= 0x39) || (0x41 <= b && b <= 0x5a) || (0x61 <= b
            && b <= 0x7a),
        CharClass::NotNewline => b != 0x0a,
        CharClass::Space => b == 0x20,
        CharClass::NotLineEnd => b != 0x0a && b != 0x0d,
        CharClass::NotQuote => b != 0x22,
    }
}

/// The end of the run of bytes of class `c` that starts at `i`.
pub(crate) fn skip(s: &[u8], i: usize, c: CharClass) -> (r: usize)
    requires
        i <= s.len(),
    ensures
        r as int == run_end(s@, i as int, c),
        i <= r <= s@.len(),
{
    let mut j = i;
    while j < s.len() && in_class_exec(&c, s[j])
        invariant
            i <= j <= s@.len(),
            run_end(s@, i as int, c) == run_end(s@, j as int, c),
        decreases s@.len() - j,
    {
        j += 1;
    }
    j
}

pub(crate) fn word(s: &[u8], i: usize, w: &[u8], fold: bool) -> (r: bool)
    requires
        i <= s.len(),
    ensures
        r == word_at(s@, i as int, w@, fold),
{
    let n = s.len();
    if w.len() > n - i {
        return false;
    }
    let mut k: usize = 0;
    while k < w.len()
        invariant
            k <= w@.len(),
            n == s@.len(),
            i + w@.len() <= s@.len(),
            forall|m: int|
                0 <= m < k ==> (if fold {
                    lower(#[trigger] s@[i + m])
                } else {
                    s@[i + m]
                }) == w@[m],
        decreases w@.len() - k,
    {
        let b = s[i + k];
        let b = if fold && 0x41 <= b && b <= 0x5a {
            b + 32
        } else {
            b
        };
        if b != w[k] {
            return false;
        }
        k += 1;
    }
    true
}

pub(crate) fn byte_is(s: &[u8], i: usize, b: u8) -> (r: bool)
    ensures
        r == byte_at(s@, i as int, b),
{
    i < s.len() && s[i] == b
}

/// A weekday at `i`, as its bit.
pub fn day(s: &[u8], i: usize) -> (r: Option<(u8, usize)>)
    requires
        i <= s.len(),
    ensures
        agrees(r, day_token(s@, i as int)),
        r matches Some((d, j)) ==> i < j <= s@.len() && is_weekday_bit(d),
{
    if i < s.len() && 0x31 <= s[i] && s[i] <= 0x37 {
        let d = s[i] - 0x31;
        assert(is_weekday_bit(1u8 << d)) by (bit_vector)
            requires
                d < 7,
        ;
        Some((1u8 << d, i + 1))
    } else if word(s, i, &['m' as u8, 'o' as u8, 'n' as u8], true) {
        Some((0x01, i + 3))
    } else if word(s, i, &['m' as u8, 'a' as u8], true) {
        Some((0x01, i + 2))
    } else if word(s, i, &['t' as u8, 'u' as u8, 'e' as u8], true) {
        Some((0x02, i + 3))
    } else if word(s, i, &['d' as u8, 'i' as u8], true) {
        Some((0x02, i + 2))
    } else if word(s, i, &['w' as u8, 'e' as u8, 'd' as u8], true) {
        Some((0x04, i + 3))
    } else if word(s, i, &['w' as u8, 'o' as u8, 'e' as u8], true) {
        Some((0x04, i + 3))
    } else if word(s, i, &['w' as u8, 'o' as u8], true) {
        Some((0x04, i + 2))
    } else if word(s, i, &['t' as u8, 'h' as u8, 'u' as u8], true) {
        Some((0x08, i + 3))
    } else if word(s, i, &['d' as u8, 'o' as u8], true) {
        Some((0x08, i + 2))
    } else if word(s, i, &['f' as u8, 'r' as u8, 'i' as u8], true) {
        Some((0x10, i + 3))
    } else if word(s, i, &['v' as u8, 'r' as u8, 'i' as u8, 'j' as u8], true) {
        Some((0x10, i + 4))
    } else if word(s, i, &['v' as u8, 'r' as u8], true) && byte_is(s, i + 2, 0xc4) && (byte_is(
        s,
        i + 3,
        0xb3,
    ) || byte_is(s, i + 3, 0xb2)) {
        Some((0x10, i + 4))
    } else if word(s, i, &['v' as u8, 'r' as u8], true) {
        Some((0x10, i + 2))
    } else if word(s, i, &['s' as u8, 'a' as u8, 't' as u8], true) {
        Some((0x20, i + 3))
    } else if word(s, i, &['z' as u8, 'a' as u8], true) {
        Some((0x20, i + 2))
    } else if word(s, i, &['s' as u8, 'u' as u8, 'n' as u8], true) {
        Some((0x40, i + 3))
    } else if word(s, i, &['z' as u8, 'o' as u8], true) {
        Some((0x40, i + 2))
    } else {
        None
    }
}

/// The mask of the weekday range from `start` to `end`, both single weekday bits.
pub fn range_mask(start: u8, end: u8) -> (r: u8)
    requires
        is_weekday_bit(start),
        is_weekday_bit(end),
    ensures
        r == day_range_mask(start, end),
{
    proof {
        assert((end << 1u8) as int == end * 2) by (bit_vector)
            requires
                end <= 0x40u8,
        ;
    }
    if end >= start {
        ((end << 1) - start) & 0x7f
    } else {
        (0x80 - start) | ((end << 1) - 1)
    }
}

/// A weekday, or a range `start-end` of weekdays, at `i`, as a mask.
pub fn day_range(s: &[u8], i: usize) -> (r: Option<(u8, usize)>)
    requires
        i <= s.len(),
    ensures
        agrees(r, day_range_token(s@, i as int)),
        r matches Some((_, j)) ==> i < j <= s@.len(),
{
    match day(s, i) {
        None => None,
        Some((a, j)) => {
            if byte_is(s, j, '-' as u8) {
                match day(s, j + 1) {
                    Some((b, k)) => Some((range_mask(a, b), k)),
                    None => Some((a, j)),
                }
            } else {
                Some((a, j))
            }
        },
    }
}

/// `day` with one or more blanks and a `,`-separated list of day ranges.
pub fn day_filter(s: &[u8], i: usize) -> (r: Option<(FilterComponent, usize)>)
    requires
        i <= s.len(),
    ensures
        agrees_component(r, day_filter_token(s@, i as int)),
        r matches Some((_, j)) ==> i < j <= s@.len(),
{
    if !word(s, i, &['d' as u8, 'a' as u8, 'y' as u8], false) {
        return None;
    }
    let j = skip(s, i + 3, CharClass::Blank);
    if j == i + 3 {
        return None;
    }
    match day_range(s, j) {
        None => None,
        Some((m, k)) => {
            let mut acc = m;
            let mut pos = k;
            loop
                invariant
                    k <= pos <= s.len(),
                    day_list_token(s@, k as int, m) == day_list_token(s@, pos as int, acc),
                ensures
                    k <= pos <= s@.len(),
                    day_list_token(s@, k as int, m) == (acc, pos as int),
                decreases s@.len() - pos,
            {
                if !byte_is(s, pos, ',' as u8) {
                    break ;
                }
                match day_range(s, pos + 1) {
                    Some((m2, e)) => {
                        acc = acc | m2;
                        pos = e;
                    },
                    None => {
                        break ;
                    },
                }
            }
            Some((FilterComponent::Day(acc), pos))
        },
    }
}

/// `H:MM` or `HH:MM` at `i`, as minutes since midnight.
pub fn parse_time(s: &[u8], i: usize) -> (r: Option<(u16, usize)>)
    requires
        i <= s.len(),
    ensures
        agrees(r, time_token(s@, i as int)),
        r matches Some((_, j)) ==> i < j <= s@.len(),
{
    let digit = CharClass::Digit;
    if !(i < s.len() && in_class_exec(&digit, s[i])) {
        return None;
    }
    let two = i + 1 < s.len() && in_class_exec(&digit, s[i + 1]);
    let h: u16 = if two {
        (s[i] - 0x30) as u16 * 10 + (s[i + 1] - 0x30) as u16
    } else {
        (s[i] - 0x30) as u16
    };
    let j = if two {
        i + 2
    } else {
        i + 1
    };
    if byte_is(s, j, ':' as u8) && j + 1 < s.len() && in_class_exec(&digit, s[j + 1]) && j + 2
        < s.len() && in_class_exec(&digit, s[j + 2]) {
        let m = (s[j + 1] - 0x30) as u16 * 10 + (s[j + 2] - 0x30) as u16;
        Some((h * 60 + m, j + 3))
    } else {
        None
    }
}

/// `time` with one or more blanks and `start-end`.
pub fn time_filter(s: &[u8], i: usize) -> (r: Option<(FilterComponent, usize)>)
    requires
        i <= s.len(),
    ensures
        agrees_component(r, time_filter_token(s@, i as int)),
        r matches Some((_, j)) ==> i < j <= s@.len(),
{
    if !word(s, i, &['t' as u8, 'i' as u8, 'm' as u8, 'e' as u8], false) {
        return None;
    }
    let j = skip(s, i + 4, CharClass::Blank);
    if j == i + 4 {
        return None;
    }
    match parse_time(s, j) {
        Some((a, k)) => {
            if byte_is(s, k, '-' as u8) {
                match parse_time(s, k + 1) {
                    Some((b, e)) => Some((FilterComponent::Time { start: a, end: b }, e)),
                    None => None,
                }
            } else {
                None
            }
        },
        None => None,
    }
}

/// Relies on `String::from_utf8`: it accepts exactly the byte vectors that are valid UTF-8,
/// and the string then holds those bytes.
#[verifier::external_body]
fn utf8_string(bytes: Vec<u8>) -> (r: Option<String>)
    ensures
        r is Some <==> valid_utf8(bytes@),
        r matches Some(t) ==> encode_utf8(t@) == bytes@,
{
    String::from_utf8(bytes).ok()
}

/// The string of the ASCII bytes from `from` to `to`.
fn ascii_string(s: &[u8], from: usize, to: usize) -> (r: String)
    requires
        from <= to <= s@.len(),
        forall|k: int| from <= k < to ==> s@[k] < 0x80,
    ensures
        r@ == ascii_chars(s@.subrange(from as int, to as int)),
{
    let mut v: Vec<u8> = Vec::new();
    let mut k = from;
    while k < to
        invariant
            from <= k <= to,
            to <= s@.len(),
            v@ == s@.subrange(from as int, k as int),
        decreases to - k,
    {
        v.push(s[k]);
        k += 1;
        assert(v@ =~= s@.subrange(from as int, k as int));
    }
    let ghost c = ascii_chars(v@);
    proof {
        lemma_ascii_bytes(v@);
    }
    match utf8_string(v) {
        Some(t) => {
            proof {
                vstd::utf8::encode_utf8_decode_utf8(t@);
                vstd::utf8::encode_utf8_decode_utf8(c);
            }
            t
        },
        None => String::new(),
    }
}

/// `num` with one or more blanks and a run of digits, `#` and `*`.
pub fn number_filter(s: &[u8], i: usize) -> (r: Option<(FilterComponent, usize)>)
    requires
        i <= s.len(),
    ensures
        agrees_component(r, number_filter_token(s@, i as int)),
        r matches Some((_, j)) ==> i < j <= s@.len(),
{
    let k = if word(s, i, &['n' as u8, 'u' as u8, 'm' as u8], false) {
        i + 3
    } else {
        return None;
    };
    let j = skip(s, k, CharClass::Blank);
    let e = skip(s, j, CharClass::NumberChar);
    if j > k && e > j {
        proof {
            lemma_run_in_class(s@, j as int, CharClass::NumberChar);
        }
        Some((FilterComponent::Number(ascii_string(s, j, e)), e))
    } else {
        None
    }
}

/// `label` with one or more blanks and a run of ASCII letters and digits.
pub fn label_filter(s: &[u8], i: usize) -> (r: Option<(FilterComponent, usize)>)
    requires
        i <= s.len(),
    ensures
        agrees_component(r, label_filter_token(s@, i as int)),
        r matches Some((_, j)) ==> i < j <= s@.len(),
{
    if !word(s, i, &['l' as u8, 'a' as u8, 'b' as u8, 'e' as u8, 'l' as u8], false) {
        return None;
    }
    let j = skip(s, i + 5, CharClass::Blank);
    let e = skip(s, j, CharClass::LabelChar);
    if j > i + 5 && e > j {
        proof {
            lemma_run_in_class(s@, j as int, CharClass::LabelChar);
        }
        Some((FilterComponent::Label(ascii_string(s, j, e)), e))
    } else {
        None
    }
}

/// ASCII bytes are the UTF-8 encoding of their characters.
pub proof fn lemma_ascii_bytes(q: Seq<u8>)
    requires
        forall|k: int| 0 <= k < q.len() ==> q[k] < 0x80,
    ensures
        encode_utf8(ascii_chars(q)) == q,
        valid_utf8(q),
{
    let c = ascii_chars(q);
    assert(is_ascii_chars(c)) by {
        assert forall|m: int| 0 <= m < c.len() implies '\0' <= #[trigger] c[m] <= '\u{7f}' by {
            assert(q[m] < 0x80);
        }
    }
    vstd::utf8::is_ascii_chars_encode_utf8(c);
    assert(encode_utf8(c) =~= q);
    vstd::utf8::encode_utf8_valid_utf8(c);
}

/// An exact word is the subrange where it stands.
pub proof fn lemma_word_subrange(s: Seq<u8>, i: int, w: Seq<u8>)
    requires
        word_at(s, i, w, false),
    ensures
        s.subrange(i, i + w.len()) == w,
{
    assert forall|k: int| 0 <= k < w.len() implies s.subrange(i, i + w.len())[k] == w[k] by {
        assert(s[i + k] == w[k]);
    }
    assert(s.subrange(i, i + w.len()) =~= w);
}

/// Every byte of a run lies in its class.
pub(crate) proof fn lemma_run_in_class(s: Seq<u8>, i: int, c: CharClass)
    requires
        0 <= i <= s.len(),
    ensures
        i <= run_end(s, i, c) <= s.len(),
        forall|k: int| i <= k < run_end(s, i, c) ==> in_class(c, #[trigger] s[k]),
    decreases s.len() - i,
{
    if i < s.len() && in_class(c, s[i]) {
        lemma_run_in_class(s, i + 1, c);
    }
}

/// The first of the four kinds of component that stands at `i`.
pub fn filter_component(s: &[u8], i: usize) -> (r: Option<(FilterComponent, usize)>)
    requires
        i <= s.len(),
    ensures
        agrees_component(r, component_token(s@, i as int)),
        r matches Some((_, j)) ==> i < j <= s@.len(),
{
    match day_filter(s, i) {
        Some(r) => Some(r),
        None => match time_filter(s, i) {
            Some(r) => Some(r),
            None => match number_filter(s, i) {
                Some(r) => Some(r),
                None => label_filter(s, i),
            },
        },
    }
}

/// A rule at `i`: optional blanks, then one or more blank-separated components.
pub fn rule(s: &[u8], i: usize) -> (r: Option<(Filter, usize)>)
    requires
        i <= s.len(),
    ensures
        match r {
            Some((f, j)) => rule_token(s@, i as int) == Some((f@, j as int)) && i < j <= s@.len(),
            None => rule_token(s@, i as int) is None,
        },
{
    let j = skip(s, i, CharClass::Blank);
    let (c, k) = match filter_component(s, j) {
        Some(x) => x,
        None => return None,
    };
    let ghost cv = c@;
    let mut comps: Vec<FilterComponent> = Vec::new();
    comps.push(c);
    let mut pos = k;
    loop
        invariant
            k <= pos <= s@.len(),
            comps@.len() >= 1,
            ({
                let (cs, e) = components_tail(s@, k as int);
                let (rest, e2) = components_tail(s@, pos as int);
                e == e2 && seq![cv] + cs == comps@.map_values(|x: FilterComponent| x@) + rest
            }),
        ensures
            k <= pos <= s@.len(),
            ({
                let (cs, e) = components_tail(s@, k as int);
                e == pos && seq![cv] + cs == comps@.map_values(|x: FilterComponent| x@)
            }),
        decreases s@.len() - pos,
    {
        let b = skip(s, pos, CharClass::Blank);
        if b == pos {
            proof {
                let (rest, _e) = components_tail(s@, pos as int);
                assert(rest =~= Seq::<ComponentView>::empty());
                assert(comps@.map_values(|x: FilterComponent| x@) + rest =~= comps@.map_values(
                    |x: FilterComponent| x@,
                ));
            }
            break ;
        }
        match filter_component(s, b) {
            Some((c2, e)) => {
                let ghost before = comps@.map_values(|x: FilterComponent| x@);
                comps.push(c2);
                assert(comps@.map_values(|x: FilterComponent| x@) =~= before.push(c2@));
                let ghost (rest, _e) = components_tail(s@, e as int);
                assert(seq![c2@] + rest =~= seq![c2@].add(rest));
                assert(before + (seq![c2@] + rest) =~= before.push(c2@) + rest);
                pos = e;
            },
            None => {
                proof {
                    let (rest, _e) = components_tail(s@, pos as int);
                    assert(rest =~= Seq::<ComponentView>::empty());
                    assert(comps@.map_values(|x: FilterComponent| x@) + rest =~= comps@.map_values(
                        |x: FilterComponent| x@,
                    ));
                }
                break ;
            },
        }
    }
    let f = Filter(comps);
    assert(f@ == f.0@.map_values(|x: FilterComponent| x@));
    Some((f, pos))
}

/// A comment line at `i`: blanks, an optional `#` comment, and a newline; the position after it.
pub fn comment(s: &[u8], i: usize) -> (r: Option<usize>)
    requires
        i <= s.len(),
    ensures
        match r {
            Some(j) => comment_token(s@, i as int) == Some(j as int) && i < j <= s@.len(),
            None => comment_token(s@, i as int) is None,
        },
{
    let j = skip(s, i, CharClass::Blank);
    if byte_is(s, j, '\n' as u8) {
        Some(j + 1)
    } else if byte_is(s, j, '#' as u8) {
        let k = skip(s, j + 1, CharClass::NotNewline);
        if k < s.len() {
            Some(k + 1)
        } else {
            None
        }
    } else {
        None
    }
}

/// The position after the comment lines that start at `i`.
fn comments(s: &[u8], i: usize) -> (r: usize)
    requires
        i <= s.len(),
    ensures
        r as int == comments_end(s@, i as int),
        i <= r <= s@.len(),
{
    let mut pos = i;
    loop
        invariant
            i <= pos <= s@.len(),
            comments_end(s@, i as int) == comments_end(s@, pos as int),
        ensures
            i <= pos <= s@.len(),
            comments_end(s@, i as int) == pos,
        decreases s@.len() - pos,
    {
        match comment(s, pos) {
            Some(j) => {
                pos = j;
            },
            None => {
                break ;
            },
        }
    }
    pos
}

/// Whether `i` is the end of the input.
pub fn eof(s: &[u8], i: usize) -> (r: bool)
    ensures
        r == (i == s@.len()),
{
    i == s.len()
}

/// The rules of a whole file, or `None` if the file does not follow the grammar or holds
/// anything after its last rule and comment lines.
pub fn config(text: &str) -> (r: Option<Vec<Filter>>)
    ensures
        match r {
            Some(fs) => parse_rules(text.spec_bytes()) == Some(fs@.map_values(|f: Filter| f@)),
            None => parse_rules(text.spec_bytes()) is None,
        },
{
    let s = text.as_bytes();
    let start = comments(s, 0);
    let mut pos = start;
    let mut rules: Vec<Filter> = Vec::new();
    while !eof(s, pos)
        invariant
            start <= pos <= s@.len(),
            s@ == text.spec_bytes(),
            parse_rules(s@) == match rules_from(s@, pos as int) {
                Some(rest) => Some(rules@.map_values(|f: Filter| f@) + rest),
                None => None::<Seq<Seq<ComponentView>>>,
            },
        decreases s@.len() - pos,
    {
        let (f, j) = match rule(s, pos) {
            Some(x) => x,
            None => return None,
        };
        let k = match comment(s, j) {
            Some(k) => k,
            None => return None,
        };
        let e = comments(s, k);
        let ghost before = rules@.map_values(|f: Filter| f@);
        let ghost fv = f@;
        rules.push(f);
        proof {
            assert(rules@.map_values(|f: Filter| f@) =~= before.push(fv));
            match rules_from(s@, e as int) {
                Some(rest) => {
                    assert(before + (seq![fv] + rest) =~= before.push(fv) + rest);
                },
                None => {},
            }
        }
        pos = e;
    }
    assert(rules@.map_values(|f: Filter| f@) + seq![] =~= rules@.map_values(|f: Filter| f@));
    Some(rules)
}

/// Text after the last rule and comment lines that does not start a rule followed by a comment
/// line makes the whole file fail to load.
pub proof fn lemma_trailing_text_refused(s: Seq<u8>, i: int)
    requires
        0 <= i < s.len(),
        match rule_token(s, i) {
            None => true,
            Some((_, j)) => comment_token(s, j) is None,
        },
    ensures
        rules_from(s, i) is None,
{
}

/// A range whose start comes no later in the week than its end covers the days from its start
/// through its end.
pub proof fn lemma_forward_day_range(a: u8, b: u8)
    requires
        a <= b < 7,
    ensures
        forall|k: u8|
            k < 8 ==> (#[trigger] has_bit(day_range_mask(1u8 << a, 1u8 << b), k) <==> a <= k
                && k <= b),
{
    assert forall|k: u8| k < 8 implies (#[trigger] has_bit(
        day_range_mask(1u8 << a, 1u8 << b),
        k,
    ) <==> a <= k && k <= b) by {
        let s = 1u8 << a;
        let e = 1u8 << b;
        assert(e >= s) by (bit_vector)
            requires
                a <= b < 7,
                s == 1u8 << a,
                e == 1u8 << b,
        ;
        assert((((((e << 1u8) - s) as u8) & 0x7fu8) >> k) & 1u8 == 1u8 <==> (a <= k && k <= b))
            by (bit_vector)
            requires
                a <= b < 7,
                s == 1u8 << a,
                e == 1u8 << b,
                k < 8,
        ;
    }
}

/// A range whose start comes later in the week than its end covers the days from its start
/// through Sunday and from Monday through its end.
pub proof fn lemma_wrapping_day_range(a: u8, b: u8)
    requires
        b < a < 7,
    ensures
        forall|k: u8|
            k < 8 ==> (#[trigger] has_bit(day_range_mask(1u8 << a, 1u8 << b), k) <==> (a <= k
                && k < 7) || k <= b),
{
    assert forall|k: u8| k < 8 implies (#[trigger] has_bit(
        day_range_mask(1u8 << a, 1u8 << b),
        k,
    ) <==> (a <= k && k < 7) || k <= b) by {
        let s = 1u8 << a;
        let e = 1u8 << b;
        assert(e < s) by (bit_vector)
            requires
                b < a < 7,
                s == 1u8 << a,
                e == 1u8 << b,
        ;
        assert(((((0x80u8 - s) as u8) | (((e << 1u8) - 1u8) as u8)) >> k) & 1u8 == 1u8 <==> ((a
            <= k && k < 7) || k <= b)) by (bit_vector)
            requires
                b < a < 7,
                s == 1u8 << a,
                e == 1u8 << b,
                k < 8,
        ;
    }
}

} // verus!
