use clairvoyant::blink::Pattern;
use clairvoyant::config::SocketPaths;
use clairvoyant::event::{Event, Regstate};
use clairvoyant::mainloop::{call_commands, Command, Led, MainLoop};
use clairvoyant::whitelist::{Filter, FilterComponent, Whitelist};

fn publish(topic: &str, payload: &str) -> Command {
    Command::Publish { topic: topic.to_string(), payload: payload.to_string() }
}

#[test]
fn call_commands_follow_the_verdict() {
    assert_eq!(call_commands("555", None), vec![publish("zuul/ring", "555")]);
    assert_eq!(
        call_commands("555", Some(None)),
        vec![publish("zuul/ring", "555"), publish("zuul/open", "anon")]
    );
    assert_eq!(
        call_commands("555", Some(Some("Jenny"))),
        vec![publish("zuul/ring", "555"), publish("zuul/open", "Jenny")]
    );
}

#[test]
fn a_ring_publishes_the_number_and_the_label() {
    let w = Whitelist::from_filters(vec![Filter(vec![
        FilterComponent::Number("555".to_string()),
        FilterComponent::Label("Jenny".to_string()),
    ])]);
    let mut m = MainLoop::new(w);
    assert_eq!(
        m.handle(Event::Ring("555".to_string()), 0),
        vec![publish("zuul/ring", "555"), publish("zuul/open", "Jenny")]
    );
    assert_eq!(m.handle(Event::Ring("556".to_string()), 0), vec![publish("zuul/ring", "556")]);
}

fn link_commands(cmds: &[Command]) -> Vec<bool> {
    cmds.iter()
        .filter_map(|c| match c {
            Command::SetLed { led: Led::LinkAlive, level } => Some(*level),
            _ => None,
        })
        .collect()
}

#[test]
fn a_silent_link_is_forced_off_until_it_speaks() {
    let mut m = MainLoop::new(Whitelist::from_filters(vec![]));
    assert!(m.handle(Event::Creg(Regstate::Registered), 0).is_empty());
    let mut t: u64 = 0;
    let mut lit_before = false;
    while t < 30_000 {
        t += 10;
        lit_before |= link_commands(&m.handle(Event::Heartbeat, t)).contains(&true);
    }
    assert!(lit_before);
    let mut after = Vec::new();
    for _ in 0..100 {
        t += 10;
        after.extend(link_commands(&m.handle(Event::Heartbeat, t)));
    }
    assert!(!after.contains(&true));
    assert!(m.handle(Event::Ring("1".to_string()), t).len() == 1);
    assert!(m.handle(Event::GsmOk, t).is_empty());
    let mut back = Vec::new();
    for _ in 0..20 {
        t += 10;
        back.extend(link_commands(&m.handle(Event::Heartbeat, t)));
    }
    assert!(back.contains(&true));
}

#[test]
fn the_device_led_blinks_from_the_first_heartbeat() {
    let mut m = MainLoop::new(Whitelist::from_filters(vec![]));
    let cmds = m.handle(Event::Heartbeat, 10);
    assert!(!cmds.iter().any(|c| matches!(c, Command::SetLed { level: true, .. })));
    assert_eq!(Pattern::Off.bytes(), vec![0x0f]);
    assert_eq!(Pattern::Sos.bytes().len(), 9);
}

#[test]
fn socket_paths_default_to_process_local_addresses() {
    let d = SocketPaths { modem_urc: None, modem_rpc: None, event: None };
    assert_eq!(d.modem_urc(), "inproc://modem_urc");
    assert_eq!(d.modem_rpc(), "inproc://modem_rpc");
    assert_eq!(d.event(), "inproc://event");
    let s = SocketPaths {
        modem_urc: Some("a".to_string()),
        modem_rpc: Some("b".to_string()),
        event: Some("c".to_string()),
    };
    assert_eq!(s.modem_urc(), "a");
    assert_eq!(s.modem_rpc(), "b");
    assert_eq!(s.event(), "c");
}
