use turn::codec::{Message, StunError, ATTR_LIFETIME};
use turn::lifetime::{allocation_lifetime, requested_lifetime, Lifetime, DEFAULT_LIFETIME, MAXIMUM_ALLOCATION_LIFETIME};

#[test]
fn test_allocation_lifetime_parsing() -> Result<(), StunError> {
    let lifetime = Lifetime(5);

    let mut m = Message::new();
    let lifetime_duration = allocation_lifetime(&m);

    assert_eq!(
        lifetime_duration, DEFAULT_LIFETIME,
        "Allocation lifetime should be default time duration"
    );

    lifetime.add_to(&mut m)?;

    let lifetime_duration = allocation_lifetime(&m);
    assert_eq!(
        lifetime_duration, lifetime.0,
        "Expect lifetime_duration is {:?}, but {:?}",
        lifetime, lifetime_duration
    );

    Ok(())
}

#[test]
fn test_allocation_lifetime_overflow() -> Result<(), StunError> {
    let lifetime = Lifetime(MAXIMUM_ALLOCATION_LIFETIME * 2);

    let mut m2 = Message::new();
    lifetime.add_to(&mut m2)?;

    let lifetime_duration = allocation_lifetime(&m2);
    assert_eq!(
        lifetime_duration, DEFAULT_LIFETIME,
        "Expect lifetime_duration is {:?}, but {:?}",
        DEFAULT_LIFETIME, lifetime_duration
    );

    Ok(())
}

#[test]
fn lifetime_wire_bytes() {
    let mut m = Message::new();
    Lifetime(5).add_to(&mut m).unwrap();
    assert_eq!(m.raw[20..].to_vec(), vec![0x00, 0x0D, 0x00, 0x04, 0, 0, 0, 5]);
}

#[test]
fn lifetime_add_to_writes_over_maximum_as_asked() {
    let mut m = Message::new();
    Lifetime(MAXIMUM_ALLOCATION_LIFETIME * 2).add_to(&mut m).unwrap();
    assert_eq!(m.get(ATTR_LIFETIME).unwrap(), vec![0x00, 0x00, 0x1C, 0x20]);
    assert_eq!(allocation_lifetime(&m), DEFAULT_LIFETIME);
    assert_eq!(requested_lifetime(&m), Ok(DEFAULT_LIFETIME));
}

#[test]
fn lifetime_add_to_saturates_at_32_bits() {
    let mut m = Message::new();
    Lifetime(u64::MAX).add_to(&mut m).unwrap();
    assert_eq!(m.get(ATTR_LIFETIME).unwrap(), vec![0xFF, 0xFF, 0xFF, 0xFF]);
    assert_eq!(allocation_lifetime(&m), DEFAULT_LIFETIME);
    assert_eq!(requested_lifetime(&m), Ok(DEFAULT_LIFETIME));
}

#[test]
fn lifetime_zero_is_kept() {
    let mut m = Message::new();
    Lifetime::default().add_to(&mut m).unwrap();
    assert_eq!(allocation_lifetime(&m), 0);
}

#[test]
fn lifetime_at_maximum_is_kept() {
    let mut m = Message::new();
    m.add(ATTR_LIFETIME, &(MAXIMUM_ALLOCATION_LIFETIME as u32).to_be_bytes()).unwrap();
    assert_eq!(allocation_lifetime(&m), MAXIMUM_ALLOCATION_LIFETIME);
    let mut m2 = Message::new();
    m2.add(ATTR_LIFETIME, &(MAXIMUM_ALLOCATION_LIFETIME as u32 + 1).to_be_bytes()).unwrap();
    assert_eq!(allocation_lifetime(&m2), DEFAULT_LIFETIME);
}

#[test]
fn lifetime_get_from_reads_seconds() {
    let mut m = Message::new();
    m.add(ATTR_LIFETIME, &[0x01, 0x02, 0x03, 0x04]).unwrap();
    let mut l = Lifetime(0);
    l.get_from(&m).unwrap();
    assert_eq!(l.0, 0x01020304);
}

#[test]
fn lifetime_wrong_size_is_refused() {
    let mut m = Message::new();
    m.add(ATTR_LIFETIME, &[0, 0, 5]).unwrap();
    let mut l = Lifetime(9);
    assert_eq!(l.get_from(&m), Err(StunError::AttributeSizeInvalid));
    assert_eq!(l.0, 9);
    assert_eq!(allocation_lifetime(&m), DEFAULT_LIFETIME);
    assert_eq!(requested_lifetime(&m), Err(StunError::AttributeSizeInvalid));
}

#[test]
fn requested_lifetime_defaults_only_when_missing() {
    let m = Message::new();
    assert_eq!(requested_lifetime(&m), Ok(DEFAULT_LIFETIME));
    let mut m2 = Message::new();
    Lifetime(42).add_to(&mut m2).unwrap();
    assert_eq!(requested_lifetime(&m2), Ok(42));
}
