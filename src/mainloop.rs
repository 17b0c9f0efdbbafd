//! The dispatcher: reacts to events, drives the two status LEDs and decides on calls.
use vstd::prelude::*;
use crate::blink::{
    blink_edge, blink_set, blink_step, blink_wf, pattern_bytes, BlinkView, Blinky, Pattern,
};
use crate::event::{Event, Regstate};
use crate::whitelist::{is_weekday_bit, verdict, verdict_is, ComponentView, ContextView, MatchContext, Whitelist};

verus! {

/// Topic of the raw ring events; the payload is the caller's number.
pub const RING_TOPIC: &'static str = "zuul/ring";

/// Topic of the actuation trigger; the payload is the label of the rule, or `ANONYMOUS`.
pub const OPEN_TOPIC: &'static str = "zuul/open";

/// Payload of an actuation by a rule without label.
pub const ANONYMOUS: &'static str = "anon";

/// Milliseconds without sign of the link after which its LED is forced off.
pub const STALE_AFTER_MS: u64 = 30_000;

/// The two status LEDs.
#[derive(Debug, Clone, Copy, PartialEq, Eq, Structural)]
pub enum Led {
    DeviceAlive,
    LinkAlive,
}

/// An action for the caller to carry out.
#[derive(Debug, PartialEq, Eq)]
pub enum Command {
    /// Publish `payload` on `topic` (best effort).
    Publish { topic: String, payload: String },
    /// Drive an LED to a level.
    SetLed { led: Led, level: bool },
}

/// The mathematical value of a `Command`.
pub enum CommandView {
    Publish(Seq<char>, Seq<char>),
    SetLed(Led, bool),
}

impl View for Command {
    type V = CommandView;

    open spec fn view(&self) -> CommandView {
        match self {
            Command::Publish { topic, payload } => CommandView::Publish(topic@, payload@),
            Command::SetLed { led, level } => CommandView::SetLed(*led, *level),
        }
    }
}

pub open spec fn commands_view(v: Seq<Command>) -> Seq<CommandView> {
    v.map_values(|c: Command| c@)
}

/// The commands for a call from `number` with whitelist verdict `v`: the number is published
/// on the ring topic; a labelled match publishes its label on the open topic, an unlabelled
/// match publishes `ANONYMOUS` there, and no match publishes nothing more.
pub open spec fn call_commands_of(number: Seq<char>, v: Option<Option<Seq<char>>>) -> Seq<CommandView> {
    let ring = seq![CommandView::Publish(RING_TOPIC@, number)];
    match v {
        Some(Some(l)) => ring.push(CommandView::Publish(OPEN_TOPIC@, l)),
        Some(None) => ring.push(CommandView::Publish(OPEN_TOPIC@, ANONYMOUS@)),
        None => ring,
    }
}

/// The command that reports a level change of an LED, if any.
pub open spec fn edge_commands(led: Led, edge: Option<bool>) -> Seq<CommandView> {
    match edge {
        Some(level) => seq![CommandView::SetLed(led, level)],
        None => seq![],
    }
}

/// The link pattern for a registration state.
pub open spec fn pattern_for(s: Regstate) -> Pattern {
    match s {
        Regstate::Unregistered => Pattern::Off,
        Regstate::Registered => Pattern::Slow,
        Regstate::Searching => Pattern::Fast,
        Regstate::Denied => Pattern::Sos,
        Regstate::Roaming => Pattern::VerySlow,
        Regstate::Unknown(_) => Pattern::Off,
    }
}

/// Whether the link has been silent for more than `STALE_AFTER_MS` at time `now`; a link that
/// never gave a sign is silent.
pub open spec fn is_stale(last: Option<u64>, now: u64) -> bool {
    match last {
        None => true,
        Some(t) => now > t && now - t > STALE_AFTER_MS,
    }
}

/// The mathematical state of the dispatcher.
pub struct LoopView {
    pub whitelist: Seq<Seq<ComponentView>>,
    pub device: BlinkView,
    pub link: BlinkView,
    /// When the link last gave a sign, in milliseconds.
    pub last_link: Option<u64>,
    /// Whether the link LED was forced off for silence.
    pub stale: bool,
    /// The pattern chosen by the last registration state.
    pub chosen: Pattern,
}

pub open spec fn loop_wf(v: LoopView) -> bool {
    blink_wf(v.device) && blink_wf(v.link)
}

/// The state after an event at time `now`.
pub open spec fn after_event(v: LoopView, e: Event, now: u64) -> LoopView {
    match e {
        Event::Heartbeat => {
            let stale_now = is_stale(v.last_link, now);
            let link = if stale_now {
                blink_set(v.link, pattern_bytes(Pattern::Off))
            } else {
                v.link
            };
            LoopView {
                device: blink_step(v.device),
                link: blink_step(link),
                stale: v.stale || stale_now,
                ..v
            }
        },
        Event::Ring(_) => v,
        Event::Creg(s) => LoopView {
            link: blink_set(v.link, pattern_bytes(pattern_for(s))),
            last_link: Some(now),
            stale: false,
            chosen: pattern_for(s),
            ..v
        },
        Event::GsmOk => LoopView {
            link: if v.stale {
                blink_set(v.link, pattern_bytes(v.chosen))
            } else {
                v.link
            },
            last_link: Some(now),
            stale: false,
            ..v
        },
    }
}

/// The LED commands of a heartbeat: the link LED's change first, then the device LED's.
pub open spec fn heartbeat_commands(v: LoopView, now: u64) -> Seq<CommandView> {
    let link = if is_stale(v.last_link, now) {
        blink_set(v.link, pattern_bytes(Pattern::Off))
    } else {
        v.link
    };
    edge_commands(Led::LinkAlive, blink_edge(link)) + edge_commands(
        Led::DeviceAlive,
        blink_edge(v.device),
    )
}

/// The dispatcher's state: the whitelist, the two blinkers and the link watch.
pub struct MainLoop {
    whitelist: Whitelist,
    rpi_ok: Blinky,
    gsm_ok: Blinky,
    last_gsm_ok: Option<u64>,
    gsm_notok: bool,
    blink_pat: Pattern,
}

impl View for MainLoop {
    type V = LoopView;

    closed spec fn view(&self) -> LoopView {
        LoopView {
            whitelist: self.whitelist@,
            device: self.rpi_ok@,
            link: self.gsm_ok@,
            last_link: self.last_gsm_ok,
            stale: self.gsm_notok,
            chosen: self.blink_pat,
        }
    }
}

/// The commands for a call from `number` with whitelist verdict `verdict`.
pub fn call_commands(number: &str, verdict: Option<Option<&str>>) -> (r: Vec<Command>)
    ensures
        forall|v: Option<Option<Seq<char>>>|
            verdict_is(verdict, v) ==> commands_view(r@) == call_commands_of(number@, v),
{
    let mut r: Vec<Command> = Vec::new();
    r.push(Command::Publish { topic: RING_TOPIC.to_owned(), payload: number.to_owned() });
    match verdict {
        Some(label) => {
            let payload = match label {
                Some(l) => l.to_owned(),
                None => ANONYMOUS.to_owned(),
            };
            r.push(Command::Publish { topic: OPEN_TOPIC.to_owned(), payload });
        },
        None => {},
    }
    assert forall|v: Option<Option<Seq<char>>>| verdict_is(verdict, v) implies commands_view(r@)
        == call_commands_of(number@, v) by {
        assert(commands_view(r@) =~= call_commands_of(number@, v));
    }
    r
}

impl MainLoop {
    /// A dispatcher with both LEDs on the `Off` pattern and a link that has given no sign yet.
    pub fn new(whitelist: Whitelist) -> (r: MainLoop)
        ensures
            loop_wf(r@),
            r@.whitelist == whitelist@,
            r@.device == crate::blink::blink_reset(pattern_bytes(Pattern::Off)),
            r@.link == crate::blink::blink_reset(pattern_bytes(Pattern::Off)),
            r@.last_link is None,
            r@.stale,
            r@.chosen == Pattern::Off,
    {
        MainLoop {
            whitelist,
            rpi_ok: Blinky::new(Pattern::Off.bytes()),
            gsm_ok: Blinky::new(Pattern::Off.bytes()),
            last_gsm_ok: None,
            gsm_notok: true,
            blink_pat: Pattern::Off,
        }
    }

    /// The commands for a call from `number`, evaluated at the current local time.
    pub fn handle_call(&self, number: &str) -> (r: Vec<Command>)
        ensures
            exists|c: ContextView|
                c.number == number@ && is_weekday_bit(c.day) && c.time < 24 * 60 && commands_view(
                    r@,
                ) == call_commands_of(number@, #[trigger] verdict(self@.whitelist, c)),
    {
        let ctx = MatchContext::new(number);
        let v = self.whitelist.matches(&ctx);
        let r = call_commands(number, v);
        assert(commands_view(r@) == call_commands_of(number@, verdict(self@.whitelist, ctx@)));
        r
    }

    fn link_silent(&self, now: u64) -> (r: bool)
        ensures
            r == is_stale(self@.last_link, now),
    {
        match self.last_gsm_ok {
            None => true,
            Some(t) => now > t && now - t > STALE_AFTER_MS,
        }
    }

    /// Reacts to `event` at time `now` (milliseconds on a monotonic clock) and returns what
    /// the caller must carry out.
    pub fn handle(&mut self, event: Event, now: u64) -> (r: Vec<Command>)
        requires
            loop_wf(old(self)@),
        ensures
            loop_wf(final(self)@),
            final(self)@ == after_event(old(self)@, event, now),
            match event {
                Event::Heartbeat => commands_view(r@) == heartbeat_commands(old(self)@, now),
                Event::Ring(n) => exists|c: ContextView|
                    c.number == n@ && is_weekday_bit(c.day) && c.time < 24 * 60 && commands_view(
                        r@,
                    ) == call_commands_of(n@, #[trigger] verdict(old(self)@.whitelist, c)),
                _ => r@.len() == 0,
            },
    {
        match event {
            Event::Ring(number) => self.handle_call(number.as_str()),
            Event::Creg(regstate) => {
                let pat = match regstate {
                    Regstate::Unregistered => Pattern::Off,
                    Regstate::Registered => Pattern::Slow,
                    Regstate::Searching => Pattern::Fast,
                    Regstate::Denied => Pattern::Sos,
                    Regstate::Roaming => Pattern::VerySlow,
                    Regstate::Unknown(_) => Pattern::Off,
                };
                self.blink_pat = pat;
                self.last_gsm_ok = Some(now);
                self.gsm_ok.change_pattern(pat.bytes());
                self.gsm_notok = false;
                Vec::new()
            },
            Event::GsmOk => {
                self.last_gsm_ok = Some(now);
                if self.gsm_notok {
                    self.gsm_ok.change_pattern(self.blink_pat.bytes());
                    self.gsm_notok = false;
                }
                Vec::new()
            },
            Event::Heartbeat => {
                if self.link_silent(now) {
                    self.gsm_ok.change_pattern(Pattern::Off.bytes());
                    self.gsm_notok = true;
                }
                let mut r: Vec<Command> = Vec::new();
                let link = self.gsm_ok.step();
                if let Some(level) = link {
                    r.push(Command::SetLed { led: Led::LinkAlive, level });
                }
                let device = self.rpi_ok.step();
                if let Some(level) = device {
                    r.push(Command::SetLed { led: Led::DeviceAlive, level });
                }
                assert(commands_view(r@) =~= heartbeat_commands(old(self)@, now));
                r
            },
        }
    }
}

/// Link staleness: a heartbeat after more than `STALE_AFTER_MS` of silence forces the link
/// pattern to `Off` and marks the link stale; while stale, further heartbeats and calls keep it
/// `Off` without setting it again; a registration change or a sign of the link ends it.
pub proof fn lemma_staleness(v: LoopView, e: Event, now: u64)
    requires
        loop_wf(v),
    ensures
        is_stale(v.last_link, now) && e is Heartbeat ==> after_event(v, e, now).stale
            && after_event(v, e, now).link.pattern == pattern_bytes(Pattern::Off),
        v.stale && v.link.pattern == pattern_bytes(Pattern::Off) && (e is Heartbeat || e is Ring)
            ==> after_event(v, e, now).stale && after_event(v, e, now).link.pattern
            == pattern_bytes(Pattern::Off) && blink_set(v.link, pattern_bytes(Pattern::Off))
            == v.link,
        (e is Creg || e is GsmOk) ==> !after_event(v, e, now).stale,
        !is_stale(v.last_link, now) && e is Heartbeat ==> after_event(v, e, now).link.pattern
            == v.link.pattern && after_event(v, e, now).stale == v.stale,
{
}

} // verus!
