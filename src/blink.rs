//! LED blink patterns, advanced one tick at a time.
use vstd::prelude::*;
use vstd::arithmetic::div_mod::{
    lemma_add_mod_noop, lemma_mod_add_multiples_vanish, lemma_mod_sub_multiples_vanish,
};

verus! {

/// The canonical blink patterns. Each byte holds the on time in its high nibble and the off
/// time in its low nibble, counted in ticks.
#[derive(Debug, Clone, Copy, PartialEq, Eq, Structural)]
pub enum Pattern {
    On,
    Off,
    Slow,
    VerySlow,
    Fast,
    Heartbeat,
    Sos,
}

/// The bytes of a canonical pattern.
pub open spec fn pattern_bytes(p: Pattern) -> Seq<u8> {
    match p {
        Pattern::On => seq![0xf0u8],
        Pattern::Off => seq![0x0fu8],
        Pattern::Slow => seq![0x55u8],
        Pattern::VerySlow => seq![0xaau8],
        Pattern::Fast => seq![0x22u8],
        Pattern::Heartbeat => seq![0x22u8, 0x26u8],
        Pattern::Sos => seq![0x22u8, 0x22u8, 0x22u8, 0x62u8, 0x62u8, 0x62u8, 0x22u8, 0x22u8, 0x2cu8],
    }
}

impl Pattern {
    /// The bytes of this pattern.
    pub fn bytes(&self) -> (r: Vec<u8>)
        ensures
            r@ == pattern_bytes(*self),
    {
        match self {
            Pattern::On => vec![0xf0],
            Pattern::Off => vec![0x0f],
            Pattern::Slow => vec![0x55],
            Pattern::VerySlow => vec![0xaa],
            Pattern::Fast => vec![0x22],
            Pattern::Heartbeat => vec![0x22, 0x26],
            Pattern::Sos => vec![0x22, 0x22, 0x22, 0x62, 0x62, 0x62, 0x22, 0x22, 0x2c],
        }
    }
}

/// The mathematical state of a blinker.
pub struct BlinkView {
    pub pattern: Seq<u8>,
    pub pos: int,
    pub delay: u8,
    pub on: bool,
}

/// Whether a state is well formed: a non-empty pattern, a position inside it, and no more
/// ticks left than a nibble holds.
pub open spec fn blink_wf(b: BlinkView) -> bool {
    b.pattern.len() > 0 && 0 <= b.pos < b.pattern.len() && b.delay <= 15
}

/// Both nibbles of a byte are at most 15.
pub proof fn lemma_nibbles(x: u8)
    ensures
        x & 0x0fu8 <= 15,
        x >> 4u8 <= 15,
{
    assert(x & 0x0fu8 <= 15 && x >> 4u8 <= 15) by (bit_vector);
}

/// The phase changes while the delay is zero: an on phase ends by loading the off time of the
/// current byte; an off phase ends by moving to the next byte (cyclically) and loading its on
/// time. `fuel` bounds the moves to a next byte, so that a pattern whose nibbles are all zero
/// stops after one cycle instead of never settling.
pub open spec fn settle(p: Seq<u8>, pos: int, delay: u8, on: bool, fuel: nat) -> (int, u8, bool)
    decreases fuel, if on { 1int } else { 0int },
{
    if delay != 0 || p.len() == 0 || pos < 0 || pos >= p.len() {
        (pos, delay, on)
    } else if on {
        settle(p, pos, p[pos] & 0x0fu8, false, fuel)
    } else if fuel == 0 {
        (pos, delay, on)
    } else {
        let np = (pos + 1) % (p.len() as int);
        settle(p, np, p[np] >> 4u8, true, (fuel - 1) as nat)
    }
}

/// The state after one tick.
pub open spec fn blink_step(b: BlinkView) -> BlinkView {
    let (pos, delay, on) = settle(b.pattern, b.pos, b.delay, b.on, b.pattern.len());
    BlinkView {
        pattern: b.pattern,
        pos,
        delay: if delay > 0 { (delay - 1) as u8 } else { 0 },
        on,
    }
}

/// The level written to the output by one tick: the new level where it changed.
pub open spec fn blink_edge(b: BlinkView) -> Option<bool> {
    let n = blink_step(b);
    if n.on != b.on {
        Some(n.on)
    } else {
        None
    }
}

/// The state that a new pattern starts from: off, no delay left, at the last byte, so that
/// the next tick starts the first byte's on phase.
pub open spec fn blink_reset(p: Seq<u8>) -> BlinkView {
    BlinkView { pattern: p, pos: p.len() - 1, delay: 0, on: false }
}

/// The state after setting pattern `p`: unchanged if it holds the same bytes.
pub open spec fn blink_set(b: BlinkView, p: Seq<u8>) -> BlinkView {
    if p == b.pattern {
        b
    } else {
        blink_reset(p)
    }
}

/// An LED driven by a cyclic on/off pattern; only changes of level are reported.
pub struct Blinky {
    pattern: Vec<u8>,
    pos: usize,
    delay: u8,
    state: bool,
}

impl View for Blinky {
    type V = BlinkView;

    closed spec fn view(&self) -> BlinkView {
        BlinkView { pattern: self.pattern@, pos: self.pos as int, delay: self.delay, on: self.state }
    }
}

/// Whether two byte vectors hold the same bytes.
fn same_bytes(a: &Vec<u8>, b: &Vec<u8>) -> (r: bool)
    ensures
        r == (a@ == b@),
{
    if a.len() != b.len() {
        return false;
    }
    let mut i: usize = 0;
    while i < a.len()
        invariant
            i <= a@.len(),
            a@.len() == b@.len(),
            forall|j: int| 0 <= j < i ==> a@[j] == b@[j],
        decreases a@.len() - i,
    {
        if a[i] != b[i] {
            return false;
        }
        i += 1;
    }
    assert(a@ =~= b@);
    true
}

impl Blinky {
    /// A blinker that starts `pattern` on its next tick, with the LED off.
    pub fn new(pattern: Vec<u8>) -> (r: Blinky)
        requires
            pattern@.len() > 0,
        ensures
            r@ == blink_reset(pattern@),
            blink_wf(r@),
    {
        let pos = pattern.len() - 1;
        Blinky { pattern, pos, delay: 0, state: false }
    }

    /// Whether the LED is on.
    pub fn level(&self) -> (r: bool)
        ensures
            r == self@.on,
    {
        self.state
    }

    /// Advances one tick; returns the new level where it changed, `None` where it did not.
    pub fn step(&mut self) -> (r: Option<bool>)
        requires
            blink_wf(old(self)@),
        ensures
            final(self)@ == blink_step(old(self)@),
            r == blink_edge(old(self)@),
            blink_wf(final(self)@),
            final(self)@.delay < 15,
    {
        let ghost start = self@;
        let last_state = self.state;
        let mut fuel: usize = self.pattern.len();
        loop
            invariant
                blink_wf(self@),
                self@.pattern == start.pattern,
                fuel <= self@.pattern.len(),
                settle(start.pattern, start.pos, start.delay, start.on, start.pattern.len())
                    == settle(self@.pattern, self@.pos, self@.delay, self@.on, fuel as nat),
            ensures
                blink_wf(self@),
                self@.pattern == start.pattern,
                settle(start.pattern, start.pos, start.delay, start.on, start.pattern.len())
                    == (self@.pos, self@.delay, self@.on),
            decreases fuel, if self.state { 1int } else { 0int },
        {
            if self.delay != 0 {
                break ;
            }
            if self.state {
                proof {
                    lemma_nibbles(self.pattern@[self.pos as int]);
                }
                self.delay = self.pattern[self.pos] & 0x0f;
                self.state = false;
            } else {
                if fuel == 0 {
                    break ;
                }
                fuel = fuel - 1;
                let n = self.pattern.len();
                self.pos = (self.pos + 1) % n;
                proof {
                    lemma_nibbles(self.pattern@[self.pos as int]);
                }
                self.delay = self.pattern[self.pos] >> 4;
                self.state = true;
            }
        }
        if self.delay > 0 {
            self.delay = self.delay - 1;
        }
        if self.state != last_state {
            Some(self.state)
        } else {
            None
        }
    }

    /// Switches to `pattern`; nothing changes if it holds the same bytes as the current one.
    pub fn change_pattern(&mut self, pattern: Vec<u8>)
        requires
            blink_wf(old(self)@),
            pattern@.len() > 0,
        ensures
            final(self)@ == blink_set(old(self)@, pattern@),
            blink_wf(final(self)@),
    {
        if same_bytes(&pattern, &self.pattern) {
            return ;
        }
        let pos = pattern.len() - 1;
        self.pattern = pattern;
        self.delay = 0;
        self.state = false;
        self.pos = pos;
    }
}

/// Setting a pattern with the same bytes as the current one changes nothing, so no level is
/// written.
pub proof fn lemma_same_pattern_is_noop(b: BlinkView, p: Seq<u8>)
    requires
        p == b.pattern,
    ensures
        blink_set(b, p) == b,
{
}

/// Under the `Off` pattern a tick never raises the LED, and an LED that is off stays off.
pub proof fn lemma_off_never_raises(b: BlinkView)
    requires
        blink_wf(b),
        b.pattern == pattern_bytes(Pattern::Off),
    ensures
        blink_edge(b) != Some(true),
        !b.on ==> !blink_step(b).on,
{
    reveal_with_fuel(settle, 4);
    assert(0x0fu8 >> 4u8 == 0u8) by (bit_vector);
    assert(0x0fu8 & 0x0fu8 == 0x0fu8) by (bit_vector);
}

/// Under the `On` pattern the first tick after the pattern is set raises the LED.
pub proof fn lemma_on_raises_first(p: Seq<u8>)
    requires
        p == pattern_bytes(Pattern::On),
    ensures
        blink_edge(blink_reset(p)) == Some(true),
        blink_step(blink_reset(p)).on,
{
    reveal_with_fuel(settle, 3);
    assert(0xf0u8 >> 4u8 == 15u8) by (bit_vector);
}

/// Under the `On` pattern a lit LED stays lit: no level is written again.
pub proof fn lemma_on_stays_on(b: BlinkView)
    requires
        blink_wf(b),
        b.pattern == pattern_bytes(Pattern::On),
        b.on,
    ensures
        blink_edge(b) is None,
        blink_step(b).on,
{
    reveal_with_fuel(settle, 4);
    assert(0xf0u8 >> 4u8 == 15u8) by (bit_vector);
    assert(0xf0u8 & 0x0fu8 == 0u8) by (bit_vector);
}

/// The on and off ticks of one pattern byte.
pub open spec fn byte_ticks(b: u8) -> int {
    (b >> 4u8) as int + (b & 0x0fu8) as int
}

/// The ticks of the bytes before index `k`.
pub open spec fn ticks_before(p: Seq<u8>, k: int) -> int
    decreases k,
{
    if k <= 0 || k > p.len() {
        0
    } else {
        ticks_before(p, k - 1) + byte_ticks(p[k - 1])
    }
}

/// The length of one cycle of a pattern, in ticks.
pub open spec fn period(p: Seq<u8>) -> int {
    ticks_before(p, p.len() as int)
}

/// Ticks from the start of the cycle to the end of the current phase, less what is left of it.
pub open spec fn raw_offset(p: Seq<u8>, pos: int, delay: u8, on: bool) -> int {
    (if on {
        ticks_before(p, pos) + (p[pos] >> 4u8) as int
    } else {
        ticks_before(p, pos + 1)
    }) - delay
}

/// Where in its cycle a blinker stands, in ticks from the start of the cycle.
pub open spec fn phase(b: BlinkView) -> int {
    raw_offset(b.pattern, b.pos, b.delay, b.on) % period(b.pattern)
}

/// The state after `n` ticks.
pub open spec fn blink_steps(b: BlinkView, n: nat) -> BlinkView
    decreases n,
{
    if n == 0 {
        b
    } else {
        blink_steps(blink_step(b), (n - 1) as nat)
    }
}

proof fn lemma_ticks_before_step(p: Seq<u8>, k: int)
    requires
        0 <= k < p.len(),
    ensures
        ticks_before(p, k + 1) == ticks_before(p, k) + (p[k] >> 4u8) as int + (p[k] & 0x0fu8) as int,
{
}

/// A pattern with a positive period has a byte that is not zero.
proof fn lemma_nonzero_byte(p: Seq<u8>, n: int) -> (j: int)
    requires
        0 <= n <= p.len(),
        ticks_before(p, n) > 0,
    ensures
        0 <= j < n,
        p[j] != 0,
    decreases n,
{
    if ticks_before(p, n - 1) > 0 {
        lemma_nonzero_byte(p, n - 1)
    } else {
        let b = p[n - 1];
        assert(b == 0u8 ==> (b >> 4u8) == 0u8 && (b & 0x0fu8) == 0u8) by (bit_vector);
        n - 1
    }
}

/// Settling from an off phase reaches a non-zero delay when one of the next `fuel` bytes is not
/// zero, and keeps the offset in the cycle.
proof fn lemma_settle(p: Seq<u8>, pos: int, delay: u8, on: bool, fuel: nat)
    requires
        0 <= pos < p.len(),
        period(p) > 0,
        delay <= 15,
        delay != 0 || (on && (p[pos] & 0x0fu8) != 0) || exists|k: int|
            1 <= k <= fuel && #[trigger] p[(pos + k) % (p.len() as int)] != 0,
    ensures
        ({
            let (np, nd, non) = settle(p, pos, delay, on, fuel);
            &&& 0 <= np < p.len()
            &&& nd != 0
            &&& nd <= 15
            &&& raw_offset(p, np, nd, non) % period(p) == raw_offset(p, pos, delay, on) % period(p)
        }),
    decreases fuel, if on { 1int } else { 0int },
{
    let len = p.len() as int;
    lemma_nibbles(p[pos]);
    if 0 <= (pos + 1) % len < len {
        lemma_nibbles(p[(pos + 1) % len]);
    }
    if delay != 0 {
    } else if on {
        lemma_ticks_before_step(p, pos);
        lemma_settle(p, pos, p[pos] & 0x0fu8, false, fuel);
    } else {
        let k = choose|k: int| 1 <= k <= fuel && #[trigger] p[(pos + k) % len] != 0;
        assert(fuel > 0);
        let np = (pos + 1) % len;
        if pos + 1 < len {
            vstd::arithmetic::div_mod::lemma_small_mod((pos + 1) as nat, len as nat);
            lemma_ticks_before_step(p, np);
        } else {
            assert(np == 0) by {
                vstd::arithmetic::div_mod::lemma_mod_self_0(len);
            }
            lemma_ticks_before_step(p, 0);
            lemma_mod_sub_multiples_vanish(raw_offset(p, pos, delay, on), period(p));
        }
        let hi = p[np] >> 4u8;
        let lo = p[np] & 0x0fu8;
        if hi != 0 {
            lemma_settle(p, np, hi, true, (fuel - 1) as nat);
        } else if lo != 0 {
            lemma_settle(p, np, hi, true, (fuel - 1) as nat);
        } else {
            let b = p[np];
            assert(b >> 4u8 == 0u8 && b & 0x0fu8 == 0u8 ==> b == 0u8) by (bit_vector);
            assert(k != 1);
            let k2 = k - 1;
            assert(p[(np + k2) % len] != 0) by {
                lemma_add_mod_noop(pos + 1, k2, len);
                lemma_add_mod_noop(np, k2, len);
                vstd::arithmetic::div_mod::lemma_small_mod(np as nat, len as nat);
            }
            lemma_settle(p, np, 0u8, false, (fuel - 1) as nat);
            lemma_ticks_before_step(p, np);
            assert(settle(p, np, 0u8, true, (fuel - 1) as nat) == settle(p, np, 0u8, false, (fuel - 1) as nat));
        }
    }
}

/// Each tick moves a blinker one tick further in its cycle.
pub proof fn lemma_step_advances_phase(b: BlinkView)
    requires
        blink_wf(b),
        period(b.pattern) > 0,
    ensures
        blink_wf(blink_step(b)),
        blink_step(b).pattern == b.pattern,
        phase(blink_step(b)) == (phase(b) + 1) % period(b.pattern),
{
    let p = b.pattern;
    let len = p.len() as int;
    let n = period(p);
    if b.delay == 0 && !(b.on && (p[b.pos] & 0x0fu8) != 0) {
        let j = lemma_nonzero_byte(p, len);
        let k = if j > b.pos { j - b.pos } else { j - b.pos + len };
        assert(p[(b.pos + k) % len] != 0) by {
            if j > b.pos {
                vstd::arithmetic::div_mod::lemma_small_mod(j as nat, len as nat);
            } else {
                lemma_mod_add_multiples_vanish(j, len);
                vstd::arithmetic::div_mod::lemma_small_mod(j as nat, len as nat);
            }
        }
    }
    lemma_settle(p, b.pos, b.delay, b.on, p.len());
    let (np, nd, non) = settle(p, b.pos, b.delay, b.on, p.len());
    assert(raw_offset(p, np, (nd - 1) as u8, non) == raw_offset(p, np, nd, non) + 1);
    lemma_add_mod_noop(raw_offset(p, np, nd, non), 1, n);
    let r = raw_offset(p, b.pos, b.delay, b.on);
    lemma_add_mod_noop(r, 1, n);
    lemma_add_mod_noop(r % n, 1, n);
    vstd::arithmetic::div_mod::lemma_mod_twice(r, n);
}

/// A blinker stands at phase `phase(b) + n` after `n` ticks.
proof fn lemma_steps_advance_phase(b: BlinkView, n: nat)
    requires
        blink_wf(b),
        period(b.pattern) > 0,
    ensures
        blink_wf(blink_steps(b, n)),
        blink_steps(b, n).pattern == b.pattern,
        phase(blink_steps(b, n)) == (phase(b) + n) % period(b.pattern),
    decreases n,
{
    let m = period(b.pattern);
    if n == 0 {
        vstd::arithmetic::div_mod::lemma_mod_twice(raw_offset(b.pattern, b.pos, b.delay, b.on), m);
    } else {
        lemma_step_advances_phase(b);
        lemma_steps_advance_phase(blink_step(b), (n - 1) as nat);
        let x = phase(b) + 1;
        let y = (n - 1) as int;
        lemma_add_mod_noop(x, y, m);
        lemma_add_mod_noop(x % m, y, m);
        vstd::arithmetic::div_mod::lemma_mod_twice(x, m);
        assert(x + y == phase(b) + n);
    }
}

/// Stepping a pattern whose on and off times add up to `period` ticks for `period` ticks
/// brings the blinker back to the phase it started from.
pub proof fn lemma_periodic(b: BlinkView)
    requires
        blink_wf(b),
        period(b.pattern) > 0,
    ensures
        blink_steps(b, period(b.pattern) as nat).pattern == b.pattern,
        phase(blink_steps(b, period(b.pattern) as nat)) == phase(b),
{
    let m = period(b.pattern);
    lemma_steps_advance_phase(b, m as nat);
    lemma_mod_add_multiples_vanish(phase(b), m);
    vstd::arithmetic::div_mod::lemma_mod_twice(raw_offset(b.pattern, b.pos, b.delay, b.on), m);
}

} // verus!
