use clairvoyant::event::{Event, Regstate};
use clairvoyant::modem::{decode_line, registration_state, Urc, UNLOCK_COMMAND};

#[test]
fn boot_notification() {
    assert_eq!(decode_line(b"RDY\r\n"), Urc::Ready);
    assert_eq!(decode_line(b"RDY\n"), Urc::Other);
    let r = decode_line(b"RDY\r\n").reaction();
    assert!(r.release_power);
    assert_eq!(r.command, None);
}

#[test]
fn pin_status_notifications() {
    assert_eq!(decode_line(b"+CPIN: SIM PIN\r\n"), Urc::PinRequired);
    assert_eq!(decode_line(b"+CPIN: READY\r\n"), Urc::PinReady);
    assert_eq!(decode_line(b"+CPIN: SIM PUK\r\n"), Urc::PinUnknown(b"SIM PUK".to_vec()));
    assert_eq!(decode_line(b"+CPIN:READY\r\n"), Urc::PinReady);
    assert_eq!(decode_line(b"+CPIN: READY\n"), Urc::Other);
    let r = decode_line(b"+CPIN: SIM PIN\r\n").reaction();
    assert_eq!(r.command, Some(UNLOCK_COMMAND));
    assert!(!r.release_power);
    assert_eq!(r.event, None);
}

#[test]
fn registration_codes_map_to_states() {
    assert_eq!(registration_state(b"0"), Regstate::Unregistered);
    assert_eq!(registration_state(b"1"), Regstate::Registered);
    assert_eq!(registration_state(b"2"), Regstate::Searching);
    assert_eq!(registration_state(b"3"), Regstate::Denied);
    assert_eq!(registration_state(b"5"), Regstate::Roaming);
    assert_eq!(registration_state(b"4"), Regstate::Unknown(4));
    assert_eq!(registration_state(b"17"), Regstate::Unknown(17));
    assert_eq!(registration_state(b"2147483647"), Regstate::Unknown(2147483647));
    assert_eq!(registration_state(b"2147483648"), Regstate::Unknown(4));
    assert_eq!(registration_state(b"x"), Regstate::Unknown(4));
    assert_eq!(registration_state(b""), Regstate::Unknown(4));
    assert_eq!(registration_state(b"-7"), Regstate::Unknown(-7));
    assert_eq!(registration_state(b"-0"), Regstate::Unregistered);
    assert_eq!(registration_state(b"-2147483648"), Regstate::Unknown(-2147483648));
    assert_eq!(registration_state(b"-2147483649"), Regstate::Unknown(4));
    assert_eq!(registration_state(b"-"), Regstate::Unknown(4));
    assert_eq!(registration_state(b"1-"), Regstate::Unknown(4));
    assert_eq!(Regstate::from_code(-3), Regstate::Unknown(-3));
}

#[test]
fn registration_notifications() {
    assert_eq!(decode_line(b"+CREG: 1\r\n"), Urc::Registration(Regstate::Registered));
    assert_eq!(decode_line(b"+CREG: 1,5\r\n"), Urc::Registration(Regstate::Roaming));
    assert_eq!(decode_line(b"+CREG: ,3\r\n"), Urc::Registration(Regstate::Denied));
    assert_eq!(decode_line(b"+CREG: 99999999999\r\n"), Urc::Registration(Regstate::Unknown(4)));
    assert_eq!(decode_line(b"+CREG: 1,\r\n"), Urc::Other);
    assert_eq!(decode_line(b"+CREG: 0,x\r\n"), Urc::Registration(Regstate::Unknown(4)));
    assert_eq!(decode_line(b"+CREG: 0,-7\r\n"), Urc::Registration(Regstate::Unknown(-7)));
    assert_eq!(decode_line(b"+CREG: 0,4\r\n"), Urc::Registration(Regstate::Unknown(4)));
    assert_eq!(decode_line(b"+CREG: 1,7\r\n"), Urc::Registration(Regstate::Unknown(7)));
    assert_eq!(decode_line(b"+CREG: x\r\n"), Urc::Registration(Regstate::Unknown(4)));
    assert_eq!(decode_line(b"+CREG: 0,99999999999\r\n"), Urc::Registration(Regstate::Unknown(4)));
    let r = decode_line(b"+CREG: 0,x\r\n").reaction();
    assert_eq!(r.event, Some(Event::Creg(Regstate::Unknown(4))));
    let r = decode_line(b"+CREG: 0,2\r\n").reaction();
    assert_eq!(r.event, Some(Event::Creg(Regstate::Searching)));
}

#[test]
fn caller_id_notifications() {
    assert_eq!(
        decode_line(b"+CLIP: \"+31612345678\",145,\"\",0,\"\",0\r\n"),
        Urc::Ring("+31612345678".to_string())
    );
    assert_eq!(decode_line(b"+CLIP: \"\"\r\n"), Urc::Other);
    assert_eq!(
        decode_line(b"+CLIP: \"12128675309\",145,\"\",0\r\n").reaction().event,
        Some(Event::Ring("12128675309".to_string()))
    );
    let r = decode_line(b"junk +CLIP:\"555\"\r\n").reaction();
    assert_eq!(r.event, Some(Event::Ring("555".to_string())));
}

#[test]
fn anything_else_is_ignored() {
    assert_eq!(decode_line(b"OK\r\n"), Urc::Other);
    assert_eq!(decode_line(b""), Urc::Other);
    let r = decode_line(b"RING\r\n").reaction();
    assert_eq!(r.event, None);
    assert_eq!(r.command, None);
    assert!(!r.release_power);
}
