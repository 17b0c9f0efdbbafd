use clairvoyant::blink::{Blinky, Pattern};

fn total_ticks(p: &[u8]) -> usize {
    p.iter().map(|b| (b >> 4) as usize + (b & 0x0f) as usize).sum()
}

fn levels(b: &mut Blinky, n: usize) -> Vec<bool> {
    let mut out = Vec::new();
    for _ in 0..n {
        b.step();
        out.push(b.level());
    }
    out
}

#[test]
fn each_canonical_pattern_repeats_after_its_total_duration() {
    for p in [
        Pattern::On,
        Pattern::Off,
        Pattern::Slow,
        Pattern::VerySlow,
        Pattern::Fast,
        Pattern::Heartbeat,
        Pattern::Sos,
    ] {
        let bytes = p.bytes();
        let n = total_ticks(&bytes);
        let mut b = Blinky::new(bytes);
        let first = levels(&mut b, n);
        let second = levels(&mut b, n);
        assert_eq!(first, second, "{:?}", p);
    }
}

#[test]
fn slow_pattern_is_five_on_five_off() {
    let mut b = Blinky::new(Pattern::Slow.bytes());
    let mut edges = Vec::new();
    for _ in 0..20 {
        edges.push(b.step());
    }
    let mut expected = vec![None; 20];
    expected[0] = Some(true);
    expected[5] = Some(false);
    expected[10] = Some(true);
    expected[15] = Some(false);
    assert_eq!(edges, expected);
}

#[test]
fn setting_the_same_pattern_changes_nothing() {
    let mut b = Blinky::new(Pattern::Slow.bytes());
    b.step();
    b.step();
    b.change_pattern(vec![0x55]);
    assert!(b.level());
    let edges: Vec<Option<bool>> = (0..4).map(|_| b.step()).collect();
    assert_eq!(edges, vec![None, None, None, Some(false)]);
}

#[test]
fn a_new_pattern_starts_with_its_first_on_phase() {
    let mut b = Blinky::new(Pattern::Slow.bytes());
    b.step();
    b.change_pattern(Pattern::Heartbeat.bytes());
    assert!(!b.level());
    assert_eq!(b.step(), Some(true));
    assert_eq!(b.step(), None);
    assert_eq!(b.step(), Some(false));
}

#[test]
fn off_never_raises_the_output() {
    let mut b = Blinky::new(Pattern::Off.bytes());
    for _ in 0..100 {
        assert_eq!(b.step(), None);
        assert!(!b.level());
    }
}

#[test]
fn on_raises_once_and_stays_on() {
    let mut b = Blinky::new(Pattern::Off.bytes());
    b.step();
    b.change_pattern(Pattern::On.bytes());
    assert_eq!(b.step(), Some(true));
    for _ in 0..100 {
        assert_eq!(b.step(), None);
        assert!(b.level());
    }
}

#[test]
fn a_pattern_without_ticks_does_not_hang() {
    let mut b = Blinky::new(vec![0x00, 0x00]);
    b.step();
    b.step();
}
