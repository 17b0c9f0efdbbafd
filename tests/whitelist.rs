use clairvoyant::parser::{comment, config, day, day_range, range_mask, rule};
use clairvoyant::whitelist::{Day, Filter, FilterComponent, MatchContext, ParseError, Whitelist};

#[test]
fn test_day_parser() {
    assert_eq!(day(b"mon", 0), Some((0x01, 3)));
    assert_eq!(day(b"woe", 0), Some((0x04, 3)));
}

#[test]
fn test_normal_day_range() {
    assert_eq!(day_range(b"ma-wo", 0), Some((0x07, 5)));
    assert_eq!(day_range(b"za-ma", 0), Some((0x61, 5)));
}

#[test]
fn test_config() {
    assert_eq!(comment(b"\n", 0), Some(1));

    assert_eq!(
        config(
            "
            # preceding comment
            day thu time 18:00-24:00
            num 12128675309 label Jenny # End-of-line comment
            
            # line comment\n"
        ),
        Some(vec![
            Filter(vec![
                FilterComponent::Day(0x08),
                FilterComponent::Time {
                    start: 18 * 60,
                    end: 24 * 60
                },
            ]),
            Filter(vec![
                FilterComponent::Number("12128675309".to_string()),
                FilterComponent::Label("Jenny".to_string()),
            ])
        ])
    )
}

#[test]
fn day_names_in_all_spellings() {
    let cases: [(&[u8], u8, usize); 14] = [
        (b"1", Day::MON, 1),
        (b"MON", Day::MON, 3),
        (b"di", Day::TUE, 2),
        (b"Wed", Day::WED, 3),
        (b"wo", Day::WED, 2),
        (b"4", Day::THU, 1),
        (b"do", Day::THU, 2),
        (b"vrij", Day::FRI, 4),
        ("vr\u{133}".as_bytes(), Day::FRI, 4),
        ("VR\u{132}".as_bytes(), Day::FRI, 4),
        (b"vr", Day::FRI, 2),
        (b"sat", Day::SAT, 3),
        (b"zo", Day::SUN, 2),
        (b"7", Day::SUN, 1),
    ];
    for (text, bit, len) in cases.iter() {
        assert_eq!(day(text, 0), Some((*bit, *len)));
    }
    assert_eq!(day(b"8", 0), None);
    assert_eq!(day(b"xyz", 0), None);
    assert_eq!(day(b"", 0), None);
}

#[test]
fn forward_day_ranges_are_contiguous_runs() {
    assert_eq!(range_mask(Day::MON, Day::WED), 0x07);
    assert_eq!(range_mask(Day::TUE, Day::TUE), 0x02);
    assert_eq!(range_mask(Day::MON, Day::SUN), 0x7f);
    assert_eq!(range_mask(Day::THU, Day::SAT), 0x38);
}

#[test]
fn wrapping_day_ranges_join_two_runs() {
    assert_eq!(range_mask(Day::SAT, Day::MON), 0x61);
    assert_eq!(range_mask(Day::SUN, Day::MON), 0x41);
    assert_eq!(range_mask(Day::TUE, Day::MON), 0x7f);
    assert_eq!(range_mask(Day::FRI, Day::WED), 0x77);
}

#[test]
fn a_rule_line_parses_to_its_filter() {
    let text = b"  day mon-wed,sat time 8:05-17:30 num 31#* label Gate1 # note\n";
    let (f, end) = rule(text, 0).unwrap();
    assert_eq!(
        f,
        Filter(vec![
            FilterComponent::Day(0x27),
            FilterComponent::Time { start: 8 * 60 + 5, end: 17 * 60 + 30 },
            FilterComponent::Number("31#*".to_string()),
            FilterComponent::Label("Gate1".to_string()),
        ])
    );
    assert_eq!(end, text.len() - " # note\n".len());
}

#[test]
fn load_is_all_or_nothing() {
    assert_eq!(Whitelist::new("day mon\nnum 123\n").map(|w| w.filters().len()), Ok(2));
    assert_eq!(Whitelist::new("day mon\nnum 123\ngarbage\n"), Err(ParseError));
    assert_eq!(Whitelist::new("day mon\nnum 123"), Err(ParseError));
    assert_eq!(Whitelist::new("day mon\n#\n"), Ok(Whitelist::from_filters(vec![Filter(vec![FilterComponent::Day(0x01)])])));
    assert_eq!(Whitelist::new(""), Ok(Whitelist::from_filters(vec![])));
    assert_eq!(Whitelist::new("time 25:00\n"), Err(ParseError));
    assert_eq!(Whitelist::new("day mon-\n"), Err(ParseError));
    assert_eq!(Whitelist::new("number 12128675309 label Jenny\n"), Err(ParseError));
}

fn jenny_list() -> Whitelist {
    Whitelist::from_filters(vec![
        Filter(vec![
            FilterComponent::Day(Day::THU),
            FilterComponent::Time { start: 18 * 60, end: 24 * 60 },
        ]),
        Filter(vec![
            FilterComponent::Number("555".to_string()),
            FilterComponent::Label("Jenny".to_string()),
        ]),
    ])
}

#[test]
fn the_first_labelled_match_wins() {
    let w = jenny_list();
    let ctx = MatchContext::at("555", 3, 19, 0);
    assert_eq!(w.matches(&ctx), Some(Some("Jenny")));
}

#[test]
fn an_unlabelled_match_is_anonymous() {
    let w = jenny_list();
    let ctx = MatchContext::at("999", 3, 19, 0);
    assert_eq!(w.matches(&ctx), Some(None));
}

#[test]
fn no_match_is_denied() {
    let w = jenny_list();
    let ctx = MatchContext::at("999", 4, 10, 0);
    assert_eq!(w.matches(&ctx), None);
}

#[test]
fn time_bounds_are_inclusive() {
    let f = FilterComponent::Time { start: 600, end: 660 };
    assert!(f.matches(&MatchContext::at("1", 0, 10, 0)));
    assert!(f.matches(&MatchContext::at("1", 0, 11, 0)));
    assert!(!f.matches(&MatchContext::at("1", 0, 11, 1)));
    assert!(!f.matches(&MatchContext::at("1", 0, 9, 59)));
    assert!(FilterComponent::Label("x".to_string()).matches(&MatchContext::at("1", 0, 9, 59)));
    assert_eq!(FilterComponent::Label("x".to_string()).label(), Some("x"));
    assert_eq!(FilterComponent::Day(0x01).label(), None);
}

#[test]
fn a_context_now_carries_its_number() {
    let w = Whitelist::from_filters(vec![Filter(vec![FilterComponent::Number("42".to_string())])]);
    assert_eq!(w.matches(&MatchContext::new("42")), Some(None));
    assert_eq!(w.matches(&MatchContext::new("43")), None);
}
