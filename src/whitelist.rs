//! Whitelist rules and the matching of an incoming call against them.
use vstd::prelude::*;
use chrono::{Datelike, Timelike};
use vstd::string::StringSliceAdditionalSpecFns;
use crate::parser::{config, parse_rules};

verus! {

/// One predicate or annotation of a rule.
#[derive(Debug, PartialEq, Eq, PartialOrd, Ord)]
pub enum FilterComponent {
    /// Set of weekdays: bit 0 is Monday, ..., bit 6 is Sunday.
    Day(u8),
    /// Minutes since midnight; both bounds are inclusive.
    Time { start: u16, end: u16 },
    /// The caller number that is recognised, compared exactly.
    Number(String),
    /// A tag for the rule; it never restricts a match.
    Label(String),
}

/// The mathematical value of a `FilterComponent`.
pub enum ComponentView {
    Day(u8),
    Time(u16, u16),
    Number(Seq<char>),
    Label(Seq<char>),
}

impl View for FilterComponent {
    type V = ComponentView;

    open spec fn view(&self) -> ComponentView {
        match self {
            FilterComponent::Day(d) => ComponentView::Day(*d),
            FilterComponent::Time { start, end } => ComponentView::Time(*start, *end),
            FilterComponent::Number(n) => ComponentView::Number(n@),
            FilterComponent::Label(l) => ComponentView::Label(l@),
        }
    }
}

/// One rule: its components must all hold for the rule to match.
#[derive(Debug, PartialEq, Eq, PartialOrd, Ord)]
pub struct Filter(pub Vec<FilterComponent>);

impl View for Filter {
    type V = Seq<ComponentView>;

    open spec fn view(&self) -> Seq<ComponentView> {
        self.0@.map_values(|c: FilterComponent| c@)
    }
}

/// The rules of a whitelist file, in file order; immutable once built.
#[derive(Debug, PartialEq, Eq, PartialOrd, Ord)]
pub struct Whitelist {
    cache: Vec<Filter>,
}

impl View for Whitelist {
    type V = Seq<Seq<ComponentView>>;

    closed spec fn view(&self) -> Seq<Seq<ComponentView>> {
        self.cache@.map_values(|f: Filter| f@)
    }
}

/// Weekday bits of a `FilterComponent::Day` mask.
pub struct Day;

impl Day {
    pub const MON: u8 = 0x01;
    pub const TUE: u8 = 0x02;
    pub const WED: u8 = 0x04;
    pub const THU: u8 = 0x08;
    pub const FRI: u8 = 0x10;
    pub const SAT: u8 = 0x20;
    pub const SUN: u8 = 0x40;
}

/// The facts of one incoming call that the rules are evaluated against.
pub struct MatchContext<'a> {
    number: &'a str,
    day: u8,
    time: u16,
}

/// The mathematical value of a `MatchContext`.
pub struct ContextView {
    pub number: Seq<char>,
    /// The weekday as a single bit (bit 0 is Monday).
    pub day: u8,
    /// Minutes since midnight.
    pub time: u16,
}

impl<'a> View for MatchContext<'a> {
    type V = ContextView;

    closed spec fn view(&self) -> ContextView {
        ContextView { number: self.number@, day: self.day, time: self.time }
    }
}

/// Relies on chrono's `Local::now`, read through `Datelike::weekday().num_days_from_monday()`
/// (0 to 6, Monday is 0), `Timelike::hour()` (0 to 23) and `Timelike::minute()` (0 to 59).
#[verifier::external_body]
fn local_clock() -> (r: (u32, u32, u32))
    ensures
        r.0 < 7,
        r.1 < 24,
        r.2 < 60,
{
    let now = chrono::Local::now();
    (now.weekday().num_days_from_monday(), now.hour(), now.minute())
}

impl<'a> MatchContext<'a> {
    /// The context of a call from `number` at the current local time.
    pub fn new(number: &'a str) -> (r: MatchContext<'a>)
        ensures
            r@.number == number@,
            is_weekday_bit(r@.day),
            r@.time < 24 * 60,
    {
        let (wd, hour, minute) = local_clock();
        let wd = wd as u8;
        assert(is_weekday_bit(1u8 << wd)) by (bit_vector)
            requires
                wd < 7,
        ;
        MatchContext::at(number, wd, hour as u16, minute as u16)
    }

    /// The context of a call from `number` on weekday `weekday` (Monday is 0) at `hour:minute`.
    pub fn at(number: &'a str, weekday: u8, hour: u16, minute: u16) -> (r: MatchContext<'a>)
        requires
            weekday < 7,
            hour < 24,
            minute < 60,
        ensures
            r@.number == number@,
            r@.day == 1u8 << weekday,
            r@.time == hour * 60 + minute,
    {
        MatchContext { number, day: 1u8 << weekday, time: hour * 60 + minute }
    }
}

/// Whether `d` is the bit of a single weekday.
pub open spec fn is_weekday_bit(d: u8) -> bool {
    d == 0x01 || d == 0x02 || d == 0x04 || d == 0x08 || d == 0x10 || d == 0x20 || d == 0x40
}

/// Whether one component is satisfied by the context.
pub open spec fn component_holds(c: ComponentView, ctx: ContextView) -> bool {
    match c {
        ComponentView::Day(d) => ctx.day & d != 0,
        ComponentView::Time(start, end) => start <= ctx.time && ctx.time <= end,
        ComponentView::Number(n) => n == ctx.number,
        ComponentView::Label(_) => true,
    }
}

/// Whether every component of a rule is satisfied by the context.
pub open spec fn filter_holds(f: Seq<ComponentView>, ctx: ContextView) -> bool {
    forall|k: int| 0 <= k < f.len() ==> component_holds(#[trigger] f[k], ctx)
}

/// The first label among the components from index `i` on.
pub open spec fn first_label_from(f: Seq<ComponentView>, i: int) -> Option<Seq<char>>
    decreases f.len() - i,
{
    if i < 0 || i >= f.len() {
        None
    } else {
        match f[i] {
            ComponentView::Label(l) => Some(l),
            _ => first_label_from(f, i + 1),
        }
    }
}

/// The label of a rule: its first label component, if any.
pub open spec fn first_label(f: Seq<ComponentView>) -> Option<Seq<char>> {
    first_label_from(f, 0)
}

/// What a rule says of a context: `None` if it does not match, `Some(label)` if it does.
pub open spec fn filter_verdict(f: Seq<ComponentView>, ctx: ContextView) -> Option<Option<Seq<char>>> {
    if filter_holds(f, ctx) {
        Some(first_label(f))
    } else {
        None
    }
}

/// The verdict of the rules from index `i` on: the label of the first matching labelled rule;
/// else `Some(None)` if some rule matches; else `None`.
pub open spec fn verdict_from(w: Seq<Seq<ComponentView>>, ctx: ContextView, i: int) -> Option<Option<Seq<char>>>
    decreases w.len() - i,
{
    if i < 0 || i >= w.len() {
        None
    } else {
        let rest = verdict_from(w, ctx, i + 1);
        match filter_verdict(w[i], ctx) {
            Some(Some(l)) => Some(Some(l)),
            Some(None) => match rest {
                Some(Some(l)) => Some(Some(l)),
                _ => Some(None),
            },
            None => rest,
        }
    }
}

/// The verdict of a whole rule list for a context.
pub open spec fn verdict(w: Seq<Seq<ComponentView>>, ctx: ContextView) -> Option<Option<Seq<char>>> {
    verdict_from(w, ctx, 0)
}

/// Whether an executable verdict stands for a mathematical one.
pub open spec fn verdict_is(r: Option<Option<&str>>, v: Option<Option<Seq<char>>>) -> bool {
    match (r, v) {
        (None, None) => true,
        (Some(None), Some(None)) => true,
        (Some(Some(a)), Some(Some(b))) => a@ == b,
        _ => false,
    }
}

impl FilterComponent {
    /// Whether this component is satisfied by `ctx`.
    pub fn matches(&self, ctx: &MatchContext) -> (r: bool)
        ensures
            r == component_holds(self@, ctx@),
    {
        match self {
            FilterComponent::Day(d) => (ctx.day & *d) != 0,
            FilterComponent::Time { start, end } => ctx.time >= *start && ctx.time <= *end,
            FilterComponent::Number(num) => str_eq(ctx.number, num.as_str()),
            FilterComponent::Label(_) => true,
        }
    }

    /// The tag of a label component.
    pub fn label(&self) -> (r: Option<&str>)
        ensures
            match self@ {
                ComponentView::Label(l) => r matches Some(s) && s@ == l,
                _ => r is None,
            },
    {
        if let FilterComponent::Label(lbl) = self {
            Some(lbl.as_str())
        } else {
            None
        }
    }
}

/// Whether two strings hold the same characters.
fn str_eq(a: &str, b: &str) -> (r: bool)
    ensures
        r == (a@ == b@),
{
    let x = a.as_bytes();
    let y = b.as_bytes();
    proof {
        vstd::utf8::encode_utf8_decode_utf8(a@);
        vstd::utf8::encode_utf8_decode_utf8(b@);
    }
    if x.len() != y.len() {
        return false;
    }
    let mut i: usize = 0;
    while i < x.len()
        invariant
            i <= x@.len(),
            x@.len() == y@.len(),
            x@ == a.spec_bytes(),
            y@ == b.spec_bytes(),
            forall|j: int| 0 <= j < i ==> x@[j] == y@[j],
        decreases x@.len() - i,
    {
        if x[i] != y[i] {
            return false;
        }
        i += 1;
    }
    assert(x@ =~= y@);
    true
}

impl Filter {
    /// `None` if the rule does not match `ctx`, `Some(None)` if it matches and has no label,
    /// `Some(Some(label))` if it matches and its first label is `label`.
    pub fn matches(&self, ctx: &MatchContext) -> (r: Option<Option<&str>>)
        ensures
            verdict_is(r, filter_verdict(self@, ctx@)),
    {
        let comps = &self.0;
        assert(self@.len() == comps@.len());
        let mut i: usize = 0;
        while i < comps.len()
            invariant
                i <= comps@.len(),
                self@.len() == comps@.len(),
                forall|k: int| 0 <= k < comps@.len() ==> self@[k] == (#[trigger] comps@[k])@,
                forall|k: int| 0 <= k < i ==> component_holds(#[trigger] self@[k], ctx@),
            decreases comps@.len() - i,
        {
            if !comps[i].matches(ctx) {
                assert(comps@[i as int]@ == self@[i as int]);
                return None;
            }
            i += 1;
        }
        assert(filter_holds(self@, ctx@));
        let mut j: usize = 0;
        while j < comps.len()
            invariant
                j <= comps@.len(),
                self@.len() == comps@.len(),
                forall|k: int| 0 <= k < comps@.len() ==> self@[k] == (#[trigger] comps@[k])@,
                filter_holds(self@, ctx@),
                first_label(self@) == first_label_from(self@, j as int),
            decreases comps@.len() - j,
        {
            let l = comps[j].label();
            assert(comps@[j as int]@ == self@[j as int]);
            if l.is_some() {
                return Some(l);
            }
            j += 1;
        }
        Some(None)
    }
}

/// A whitelist file that does not follow the rule grammar, or holds text after its last rule.
#[derive(Debug, PartialEq, Eq, Structural)]
pub struct ParseError;

impl Whitelist {
    /// The whitelist of the file text `text`; all or nothing.
    pub fn new(text: &str) -> (r: Result<Whitelist, ParseError>)
        ensures
            match r {
                Ok(w) => parse_rules(text.spec_bytes()) == Some(w@),
                Err(_) => parse_rules(text.spec_bytes()) is None,
            },
    {
        match config(text) {
            Some(cache) => Ok(Whitelist { cache }),
            None => Err(ParseError),
        }
    }

    /// A whitelist holding `filters` in this order.
    pub fn from_filters(filters: Vec<Filter>) -> (r: Whitelist)
        ensures
            r@ == filters@.map_values(|f: Filter| f@),
    {
        Whitelist { cache: filters }
    }

    /// The rules, in file order.
    pub fn filters(&self) -> (r: &Vec<Filter>)
        ensures
            r@.map_values(|f: Filter| f@) == self@,
    {
        &self.cache
    }

    /// The first labelled matching rule gives `Some(Some(label))`; failing that, any matching
    /// rule gives `Some(None)`; if no rule matches, `None`.
    pub fn matches(&self, ctx: &MatchContext) -> (r: Option<Option<&str>>)
        ensures
            verdict_is(r, verdict(self@, ctx@)),
    {
        let mut matched = false;
        let mut i: usize = 0;
        while i < self.cache.len()
            invariant
                i <= self.cache@.len(),
                self@ == self.cache@.map_values(|f: Filter| f@),
                verdict(self@, ctx@) == match verdict_from(self@, ctx@, i as int) {
                    Some(Some(l)) => Some(Some(l)),
                    Some(None) => Some(None),
                    None => if matched { Some(None) } else { None },
                },
            decreases self.cache@.len() - i,
        {
            let v = self.cache[i].matches(ctx);
            if let Some(label) = v {
                matched = true;
                if label.is_some() {
                    return Some(label);
                }
            }
            i += 1;
        }
        if matched {
            Some(None)
        } else {
            None
        }
    }
}

} // verus!
