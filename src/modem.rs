//! Decoding of the modem's line protocol into typed notifications, and the reaction to each.
use vstd::prelude::*;
use vstd::utf8::{encode_utf8, valid_utf8};
use crate::event::{regstate_of, Event, Regstate};
use crate::parser::{
    ascii_chars, lemma_ascii_bytes, byte_at, byte_is, digit_value, in_class, lemma_word_subrange, run_end, skip, word, word_at,
    CharClass,
};

verus! {

/// The modem models; a tag kept for dialects that other models may need.
#[derive(Debug, Clone, Copy, PartialEq, Eq, Structural)]
pub enum ModemType {
    Uninitialized,
    Unknown,
    Sim800,
    HuaweiK3765,
}

/// Powers the modem down, so that it starts again from a known state.
pub const POWER_DOWN_COMMAND: &'static str = "AT+CPOWD=1\n";

/// Unlocks the SIM with its PIN and turns on registration and caller-ID notifications.
pub const UNLOCK_COMMAND: &'static str = "ATQ0V1E1+CREG=1;+CLIP=1;+CPIN=1111\n";

/// A line from the modem, decoded.
#[derive(Debug, PartialEq, Eq)]
pub enum Urc {
    /// The boot notification `RDY`.
    Ready,
    /// The SIM asks for its PIN.
    PinRequired,
    /// The SIM is unlocked.
    PinReady,
    /// Another PIN status, with its text.
    PinUnknown(Vec<u8>),
    /// A registration status.
    Registration(Regstate),
    /// A caller-ID notification, with the caller's number.
    Ring(String),
    /// Anything else.
    Other,
}

/// The mathematical value of a `Urc`.
pub enum UrcView {
    Ready,
    PinRequired,
    PinReady,
    PinUnknown(Seq<u8>),
    Registration(Regstate),
    Ring(Seq<char>),
    Other,
}

impl View for Urc {
    type V = UrcView;

    open spec fn view(&self) -> UrcView {
        match self {
            Urc::Ready => UrcView::Ready,
            Urc::PinRequired => UrcView::PinRequired,
            Urc::PinReady => UrcView::PinReady,
            Urc::PinUnknown(p) => UrcView::PinUnknown(p@),
            Urc::Registration(s) => UrcView::Registration(*s),
            Urc::Ring(n) => UrcView::Ring(n@),
            Urc::Other => UrcView::Other,
        }
    }
}

/// The notifications that carry a payload.
pub enum UrcKind {
    /// `+CPIN: <status>` up to the line end.
    Pin,
    /// `+CREG: [<mode>,]<status>` up to the line end.
    Registration,
    /// `+CLIP: "<number>"`, further fields ignored.
    CallerId,
}

/// The `+XXXX:` prefix of a notification.
pub open spec fn urc_prefix(kind: UrcKind) -> Seq<u8> {
    match kind {
        UrcKind::Pin => seq!['+' as u8, 'C' as u8, 'P' as u8, 'I' as u8, 'N' as u8, ':' as u8],
        UrcKind::Registration => seq!['+' as u8, 'C' as u8, 'R' as u8, 'E' as u8, 'G' as u8, ':' as u8],
        UrcKind::CallerId => seq!['+' as u8, 'C' as u8, 'L' as u8, 'I' as u8, 'P' as u8, ':' as u8],
    }
}

pub open spec fn crlf_at(s: Seq<u8>, i: int) -> bool {
    byte_at(s, i, 0x0d) && byte_at(s, i + 1, 0x0a)
}

/// The payload of a notification of `kind` that starts at `i`, as the start and end of its
/// bytes: after the prefix and any spaces, a PIN status runs to a `\r\n`; a registration
/// status, after an optional mode of digits and a comma, runs to a `\r\n`; a number stands
/// between double quotes. Spaces before a PIN status that is made of spaces
/// alone leave the last of them to the status.
pub open spec fn payload_at(s: Seq<u8>, i: int, kind: UrcKind) -> Option<(int, int)> {
    if !word_at(s, i, urc_prefix(kind), false) {
        None
    } else {
        let j = run_end(s, i + 6, CharClass::Space);
        match kind {
            UrcKind::Pin => {
                let k = run_end(s, j, CharClass::NotLineEnd);
                if !crlf_at(s, k) {
                    None
                } else if k > j {
                    Some((j, k))
                } else if j > i + 6 {
                    Some((j - 1, k))
                } else {
                    None
                }
            },
            UrcKind::Registration => {
                let d1 = run_end(s, j, CharClass::Digit);
                let start = if byte_at(s, d1, ',' as u8) {
                    d1 + 1
                } else {
                    j
                };
                let k = run_end(s, start, CharClass::NotLineEnd);
                if k > start && crlf_at(s, k) {
                    Some((start, k))
                } else {
                    None
                }
            },
            UrcKind::CallerId => {
                if byte_at(s, j, '"' as u8) {
                    let k = run_end(s, j + 1, CharClass::NotQuote);
                    if k > j + 1 && byte_at(s, k, '"' as u8) {
                        Some((j + 1, k))
                    } else {
                        None
                    }
                } else {
                    None
                }
            },
        }
    }
}

/// The payload of the leftmost notification of `kind` at or after `i`.
pub open spec fn first_payload(s: Seq<u8>, i: int, kind: UrcKind) -> Option<(int, int)>
    decreases s.len() - i,
{
    if i < 0 || i >= s.len() {
        None
    } else {
        match payload_at(s, i, kind) {
            Some(r) => Some(r),
            None => first_payload(s, i + 1, kind),
        }
    }
}

/// The value of a run of decimal digits.
pub open spec fn decimal_value(s: Seq<u8>) -> int
    decreases s.len(),
{
    if s.len() == 0 {
        0
    } else {
        decimal_value(s.drop_last()) * 10 + digit_value(s.last())
    }
}

/// Whether every byte is an ASCII digit.
pub open spec fn all_digits(s: Seq<u8>) -> bool {
    forall|k: int| 0 <= k < s.len() ==> in_class(CharClass::Digit, #[trigger] s[k])
}

/// The decimal integer that a status spells: one or more digits, optionally after a `-`.
pub open spec fn integer_value(s: Seq<u8>) -> Option<int> {
    if s.len() > 0 && s[0] == '-' as u8 {
        let d = s.subrange(1, s.len() as int);
        if d.len() > 0 && all_digits(d) {
            Some(-decimal_value(d))
        } else {
            None
        }
    } else if s.len() > 0 && all_digits(s) {
        Some(decimal_value(s))
    } else {
        None
    }
}

/// The registration state of a status payload: the state of its code where it is a decimal
/// integer that fits an `i32`, else `Unknown(4)`.
pub open spec fn regstate_of_payload(s: Seq<u8>) -> Regstate {
    match integer_value(s) {
        Some(v) => if i32::MIN <= v <= i32::MAX {
            regstate_of(v as i32)
        } else {
            Regstate::Unknown(4)
        },
        None => Regstate::Unknown(4),
    }
}

/// What `String::from_utf8_lossy` makes of a byte sequence.
pub uninterp spec fn utf8_lossy(b: Seq<u8>) -> Seq<char>;

/// What a line from the modem is; the first that fits of: the exact line `RDY\r\n`, a PIN
/// status, a registration status, a caller ID.
pub open spec fn urc_of(line: Seq<u8>) -> UrcView {
    if line == seq!['R' as u8, 'D' as u8, 'Y' as u8, 0x0du8, 0x0au8] {
        UrcView::Ready
    } else {
        match first_payload(line, 0, UrcKind::Pin) {
            Some((a, b)) => {
                let p = line.subrange(a, b);
                if p == seq!['S' as u8, 'I' as u8, 'M' as u8, ' ' as u8, 'P' as u8, 'I' as u8, 'N' as u8] {
                    UrcView::PinRequired
                } else if p == seq!['R' as u8, 'E' as u8, 'A' as u8, 'D' as u8, 'Y' as u8] {
                    UrcView::PinReady
                } else {
                    UrcView::PinUnknown(p)
                }
            },
            None => match first_payload(line, 0, UrcKind::Registration) {
                Some((a, b)) => UrcView::Registration(regstate_of_payload(line.subrange(a, b))),
                None => match first_payload(line, 0, UrcKind::CallerId) {
                    Some((a, b)) => UrcView::Ring(utf8_lossy(line.subrange(a, b))),
                    None => UrcView::Other,
                },
            },
        }
    }
}

/// Whether a decoded number keeps its quoted bytes: their encoding where they are valid UTF-8,
/// their characters where they are ASCII.
pub open spec fn keeps_bytes(n: Seq<char>, q: Seq<u8>) -> bool {
    &&& valid_utf8(q) ==> encode_utf8(n) == q
    &&& (forall|k: int| 0 <= k < q.len() ==> q[k] < 0x80) ==> n == ascii_chars(q)
}

/// Relies on `String::from_utf8_lossy`: the result depends on the bytes alone, and valid
/// UTF-8 is kept as it is.
#[verifier::external_body]
fn lossy_string(b: &[u8]) -> (r: String)
    ensures
        r@ == utf8_lossy(b@),
        valid_utf8(b@) ==> encode_utf8(r@) == b@,
{
    String::from_utf8_lossy(b).into_owned()
}

/// The bytes of `s` from `a` to `b`.
fn copy_range(s: &[u8], a: usize, b: usize) -> (r: Vec<u8>)
    requires
        a <= b <= s@.len(),
    ensures
        r@ == s@.subrange(a as int, b as int),
{
    let mut v: Vec<u8> = Vec::new();
    let mut k = a;
    while k < b
        invariant
            a <= k <= b,
            b <= s@.len(),
            v@ == s@.subrange(a as int, k as int),
        decreases b - k,
    {
        v.push(s[k]);
        k += 1;
        assert(v@ =~= s@.subrange(a as int, k as int));
    }
    v
}

fn crlf(s: &[u8], i: usize) -> (r: bool)
    requires
        i <= s.len(),
    ensures
        r == crlf_at(s@, i as int),
{
    byte_is(s, i, 0x0d) && byte_is(s, i + 1, 0x0a)
}

/// The payload of a notification of `kind` that starts at `i`.
fn payload(s: &[u8], i: usize, kind: &UrcKind) -> (r: Option<(usize, usize)>)
    requires
        i <= s.len(),
    ensures
        match r {
            Some((a, b)) => payload_at(s@, i as int, *kind) == Some((a as int, b as int)) && a
                <= b <= s@.len(),
            None => payload_at(s@, i as int, *kind) is None,
        },
{
    let prefix = match kind {
        UrcKind::Pin => word(s, i, &['+' as u8, 'C' as u8, 'P' as u8, 'I' as u8, 'N' as u8, ':' as u8], false),
        UrcKind::Registration => word(s, i, &['+' as u8, 'C' as u8, 'R' as u8, 'E' as u8, 'G' as u8, ':' as u8], false),
        UrcKind::CallerId => word(s, i, &['+' as u8, 'C' as u8, 'L' as u8, 'I' as u8, 'P' as u8, ':' as u8], false),
    };
    if !prefix {
        return None;
    }
    let j = skip(s, i + 6, CharClass::Space);
    match kind {
        UrcKind::Pin => {
            let k = skip(s, j, CharClass::NotLineEnd);
            if !crlf(s, k) {
                None
            } else if k > j {
                Some((j, k))
            } else if j > i + 6 {
                Some((j - 1, k))
            } else {
                None
            }
        },
        UrcKind::Registration => {
            let d1 = skip(s, j, CharClass::Digit);
            let start = if byte_is(s, d1, ',' as u8) {
                d1 + 1
            } else {
                j
            };
            let k = skip(s, start, CharClass::NotLineEnd);
            if k > start && crlf(s, k) {
                Some((start, k))
            } else {
                None
            }
        },
        UrcKind::CallerId => {
            if byte_is(s, j, '"' as u8) {
                let k = skip(s, j + 1, CharClass::NotQuote);
                if k > j + 1 && byte_is(s, k, '"' as u8) {
                    Some((j + 1, k))
                } else {
                    None
                }
            } else {
                None
            }
        },
    }
}

/// The payload of the leftmost notification of `kind` in the line.
fn find_payload(s: &[u8], kind: UrcKind) -> (r: Option<(usize, usize)>)
    ensures
        match r {
            Some((a, b)) => first_payload(s@, 0, kind) == Some((a as int, b as int)) && a <= b
                <= s@.len(),
            None => first_payload(s@, 0, kind) is None,
        },
{
    let mut i: usize = 0;
    while i < s.len()
        invariant
            i <= s.len(),
            first_payload(s@, 0, kind) == first_payload(s@, i as int, kind),
        decreases s@.len() - i,
    {
        match payload(s, i, &kind) {
            Some(r) => {
                return Some(r);
            },
            None => {},
        }
        i += 1;
    }
    None
}

/// The registration state of a status payload (see `regstate_of_payload`).
pub fn registration_state(p: &[u8]) -> (r: Regstate)
    ensures
        r == regstate_of_payload(p@),
{
    let neg = p.len() > 0 && p[0] == '-' as u8;
    let start: usize = if neg {
        1
    } else {
        0
    };
    if p.len() == start {
        return Regstate::Unknown(4);
    }
    let limit: i64 = if neg {
        0x8000_0000
    } else {
        0x7fff_ffff
    };
    let ghost d = p@.subrange(start as int, p@.len() as int);
    let mut value: i64 = 0;
    let mut big = false;
    let mut k: usize = start;
    while k < p.len()
        invariant
            start <= k <= p@.len(),
            d == p@.subrange(start as int, p@.len() as int),
            neg == (p@.len() > 0 && p@[0] == '-' as u8),
            start == (if neg { 1usize } else { 0usize }),
            forall|m: int| start <= m < k ==> in_class(CharClass::Digit, #[trigger] p@[m]),
            big <==> decimal_value(p@.subrange(start as int, k as int)) > limit,
            !big ==> value == decimal_value(p@.subrange(start as int, k as int)),
            0 <= value <= limit,
            limit == (if neg { 0x8000_0000i64 } else { 0x7fff_ffffi64 }),
        decreases p@.len() - k,
    {
        let b = p[k];
        if !(0x30 <= b && b <= 0x39) {
            assert(d[k - start] == p@[k as int]);
            assert(!in_class(CharClass::Digit, d[k - start]));
            assert(!in_class(CharClass::Digit, p@[k as int]));
            assert(!all_digits(d));
            assert(!neg ==> !all_digits(p@));
            return Regstate::Unknown(4);
        }
        assert(p@.subrange(start as int, k + 1).drop_last() =~= p@.subrange(start as int, k as int));
        if !big {
            let next = value * 10 + (b - 0x30) as i64;
            if next > limit {
                big = true;
            } else {
                value = next;
            }
        }
        k += 1;
    }
    assert(p@.subrange(start as int, p@.len() as int) =~= d);
    assert(all_digits(d)) by {
        assert forall|m: int| 0 <= m < d.len() implies in_class(CharClass::Digit, #[trigger] d[m]) by {
            assert(d[m] == p@[start + m]);
        }
    }
    if !neg {
        assert(d =~= p@);
    }
    if big {
        Regstate::Unknown(4)
    } else if neg {
        Regstate::from_code((-value) as i32)
    } else {
        Regstate::from_code(value as i32)
    }
}

/// Decodes one line (with its line end) from the modem.
pub fn decode_line(line: &[u8]) -> (r: Urc)
    ensures
        r@ == urc_of(line@),
        match r {
            Urc::Ring(n) => match first_payload(line@, 0, UrcKind::CallerId) {
                Some((a, b)) => keeps_bytes(n@, line@.subrange(a, b)),
                None => false,
            },
            _ => true,
        },
{
    let ready = line.len() == 5 && word(line, 0, &['R' as u8, 'D' as u8, 'Y' as u8, 0x0d, 0x0a], false);
    if ready {
        proof {
            lemma_word_subrange(line@, 0, seq!['R' as u8, 'D' as u8, 'Y' as u8, 0x0du8, 0x0au8]);
            assert(line@ =~= line@.subrange(0, 5));
        }
        return Urc::Ready;
    }
    assert(line@ != seq!['R' as u8, 'D' as u8, 'Y' as u8, 0x0du8, 0x0au8]) by {
        if line@ == seq!['R' as u8, 'D' as u8, 'Y' as u8, 0x0du8, 0x0au8] {
            assert(line@.subrange(0, 5) =~= line@);
        }
    }
    match find_payload(line, UrcKind::Pin) {
        Some((a, b)) => {
            let sim_pin = b - a == 7 && word(line, a, &['S' as u8, 'I' as u8, 'M' as u8, ' ' as u8, 'P' as u8, 'I' as u8, 'N' as u8], false);
            let ready = b - a == 5 && word(line, a, &['R' as u8, 'E' as u8, 'A' as u8, 'D' as u8, 'Y' as u8], false);
            let ghost p = line@.subrange(a as int, b as int);
            if sim_pin {
                proof {
                    lemma_word_subrange(line@, a as int, seq!['S' as u8, 'I' as u8, 'M' as u8, ' ' as u8, 'P' as u8, 'I' as u8, 'N' as u8]);
                }
                assert(p =~= seq!['S' as u8, 'I' as u8, 'M' as u8, ' ' as u8, 'P' as u8, 'I' as u8, 'N' as u8]);
                Urc::PinRequired
            } else if ready {
                proof {
                    lemma_word_subrange(line@, a as int, seq!['R' as u8, 'E' as u8, 'A' as u8, 'D' as u8, 'Y' as u8]);
                }
                assert(p =~= seq!['R' as u8, 'E' as u8, 'A' as u8, 'D' as u8, 'Y' as u8]);
                Urc::PinReady
            } else {
                assert(p != seq!['S' as u8, 'I' as u8, 'M' as u8, ' ' as u8, 'P' as u8, 'I' as u8, 'N' as u8]) by {
                    if p == seq!['S' as u8, 'I' as u8, 'M' as u8, ' ' as u8, 'P' as u8, 'I' as u8, 'N' as u8] {
                        assert(p.len() == 7);
                        assert(forall|k: int| 0 <= k < 7 ==> line@[a + k] == #[trigger] p[k]);
                    }
                }
                assert(p != seq!['R' as u8, 'E' as u8, 'A' as u8, 'D' as u8, 'Y' as u8]) by {
                    if p == seq!['R' as u8, 'E' as u8, 'A' as u8, 'D' as u8, 'Y' as u8] {
                        assert(p.len() == 5);
                        assert(forall|k: int| 0 <= k < 5 ==> line@[a + k] == #[trigger] p[k]);
                    }
                }
                Urc::PinUnknown(copy_range(line, a, b))
            }
        },
        None => match find_payload(line, UrcKind::Registration) {
            Some((a, b)) => {
                let p = copy_range(line, a, b);
                Urc::Registration(registration_state(p.as_slice()))
            },
            None => match find_payload(line, UrcKind::CallerId) {
                Some((a, b)) => {
                    let p = copy_range(line, a, b);
                    let n = lossy_string(p.as_slice());
                    proof {
                        if forall|k: int| 0 <= k < p@.len() ==> p@[k] < 0x80 {
                            lemma_ascii_bytes(p@);
                            vstd::utf8::encode_utf8_decode_utf8(n@);
                            vstd::utf8::encode_utf8_decode_utf8(ascii_chars(p@));
                        }
                    }
                    Urc::Ring(n)
                },
                None => Urc::Other,
            },
        },
    }
}

/// What the decoder does about one notification.
pub struct Reaction {
    /// Drive the power-control output low: the modem has booted.
    pub release_power: bool,
    /// A command to send to the modem.
    pub command: Option<&'static str>,
    /// An event to hand to the dispatcher.
    pub event: Option<Event>,
}

impl Urc {
    /// The boot notification releases the power control; a PIN request is answered with the
    /// unlock command; registration states and caller IDs become events; the rest is only
    /// noted.
    pub fn reaction(self) -> (r: Reaction)
        ensures
            r.release_power == (self@ is Ready),
            match self@ {
                UrcView::PinRequired => r.command matches Some(c) && c@ == UNLOCK_COMMAND@,
                _ => r.command is None,
            },
            match self@ {
                UrcView::Registration(s) => r.event == Some(Event::Creg(s)),
                UrcView::Ring(n) => r.event matches Some(Event::Ring(m)) && m@ == n,
                _ => r.event is None,
            },
    {
        match self {
            Urc::Ready => Reaction { release_power: true, command: None, event: None },
            Urc::PinRequired => Reaction {
                release_power: false,
                command: Some(UNLOCK_COMMAND),
                event: None,
            },
            Urc::Registration(s) => Reaction {
                release_power: false,
                command: None,
                event: Some(Event::Creg(s)),
            },
            Urc::Ring(n) => Reaction { release_power: false, command: None, event: Some(Event::Ring(n)) },
            _ => Reaction { release_power: false, command: None, event: None },
        }
    }
}

} // verus!
