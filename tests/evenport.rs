use turn::codec::{Message, StunError, ATTR_EVEN_PORT};
use turn::evenport::EvenPort;

#[test]
fn test_even_port_string() -> Result<(), StunError> {
    let mut p = EvenPort::default();
    assert_eq!(p.to_string(), "reserve: false", "bad value {:?} for reselve: false", p);

    p.reserve_port = true;
    assert_eq!(p.to_string(), "reserve: true", "bad value {:?} for reselve: true", p);

    Ok(())
}

#[test]
fn test_even_port_false() -> Result<(), StunError> {
    let mut m = Message::new();
    let p = EvenPort { reserve_port: false };
    p.add_to(&mut m)?;
    m.write_header();

    let mut decoded = Message::new();
    let mut port = EvenPort::default();
    decoded.write(&m.raw)?;
    port.get_from(&m)?;
    assert_eq!(port, p);

    Ok(())
}

#[test]
fn test_even_port_add_to() -> Result<(), StunError> {
    let mut m = Message::new();
    let p = EvenPort { reserve_port: true };
    p.add_to(&mut m)?;
    m.write_header();
    {
        let mut decoded = Message::new();
        decoded.write(&m.raw)?;
        let mut port = EvenPort::default();
        port.get_from(&decoded)?;
        assert_eq!(port, p, "Decoded {:?}, expected {:?}", port, p);

        {
            let mut m = Message::new();
            let mut handle = EvenPort::default();
            if let Err(err) = handle.get_from(&m) {
                assert!(err == StunError::AttributeNotFound, "{:?} should be not found", err);
            }
            m.add(ATTR_EVEN_PORT, &[1, 2, 3])?;
            if let Err(err) = handle.get_from(&m) {
                assert!(err == StunError::AttributeSizeInvalid, "IsAttrSizeInvalid should be true");
            } else {
                assert!(false, "expected error, but got ok");
            }
        }
    }

    Ok(())
}

#[test]
fn even_port_round_trip_through_bytes() {
    for flag in [false, true] {
        let mut m = Message::new();
        let p = EvenPort { reserve_port: flag };
        p.add_to(&mut m).unwrap();
        m.write_header();
        let mut decoded = Message::new();
        decoded.write(&m.raw).unwrap();
        let mut port = EvenPort { reserve_port: !flag };
        port.get_from(&decoded).unwrap();
        assert_eq!(port, p);
    }
}

#[test]
fn even_port_wire_bytes() {
    let mut m = Message::new();
    EvenPort { reserve_port: true }.add_to(&mut m).unwrap();
    assert_eq!(m.raw[20..].to_vec(), vec![0x00, 0x18, 0x00, 0x01, 0x80, 0x00, 0x00, 0x00]);
    let mut m2 = Message::new();
    EvenPort { reserve_port: false }.add_to(&mut m2).unwrap();
    assert_eq!(m2.raw[20..].to_vec(), vec![0x00, 0x18, 0x00, 0x01, 0x00, 0x00, 0x00, 0x00]);
}

#[test]
fn even_port_missing_is_not_found_and_keeps_value() {
    let m = Message::new();
    let mut port = EvenPort { reserve_port: true };
    assert_eq!(port.get_from(&m), Err(StunError::AttributeNotFound));
    assert!(port.reserve_port);
}

#[test]
fn even_port_empty_payload_is_size_invalid() {
    let mut m = Message::new();
    m.add(ATTR_EVEN_PORT, &[]).unwrap();
    let mut port = EvenPort::default();
    assert_eq!(port.get_from(&m), Err(StunError::AttributeSizeInvalid));
}

#[test]
fn even_port_low_bits_are_ignored() {
    let mut m = Message::new();
    m.add(ATTR_EVEN_PORT, &[0x7f]).unwrap();
    let mut port = EvenPort { reserve_port: true };
    port.get_from(&m).unwrap();
    assert!(!port.reserve_port);
    let mut m2 = Message::new();
    m2.add(ATTR_EVEN_PORT, &[0xC1]).unwrap();
    port.get_from(&m2).unwrap();
    assert!(port.reserve_port);
}
