use turn::codec::{Message, ATTR_ERROR_CODE, ATTR_LIFETIME, ATTR_MESSAGE_INTEGRITY, ATTR_NONCE, ATTR_REALM, ATTR_USERNAME};
use turn::five_tuple::{FiveTuple, Protocol, SocketAddress};
use turn::lifetime::{Lifetime, DEFAULT_LIFETIME};
use turn::manager::Manager;
use turn::nonces::{bytes_eq, NonceStore, NONCE_LIFETIME_MS};
use turn::request::{
    challenge_response, check_credentials, error_response, handle_allocate_request, handle_refresh_request,
    refresh_response, RequestError, ALLOCATE_ERROR, REFRESH_ERROR, REFRESH_SUCCESS,
};
use turn::text::TextAttribute;

const STATIC_KEY: &str = "ABC";

fn five_tuple() -> FiveTuple {
    FiveTuple {
        src_addr: SocketAddress::v4(127, 0, 0, 1, 5000),
        dst_addr: SocketAddress::v4(0, 0, 0, 0, 0),
        protocol: Protocol::Udp,
    }
}

fn signed_request(lifetime: Option<Lifetime>) -> Message {
    let mut m = Message::new();
    if let Some(l) = lifetime {
        l.add_to(&mut m).unwrap();
    }
    m.add(ATTR_MESSAGE_INTEGRITY, &[0u8; 20]).unwrap();
    TextAttribute::new(ATTR_NONCE, STATIC_KEY.as_bytes().to_vec()).add_to(&mut m).unwrap();
    TextAttribute::new(ATTR_REALM, STATIC_KEY.as_bytes().to_vec()).add_to(&mut m).unwrap();
    TextAttribute::new(ATTR_USERNAME, STATIC_KEY.as_bytes().to_vec()).add_to(&mut m).unwrap();
    m
}

#[test]
fn test_allocation_lifetime_deletion_zero_lifetime() {
    let now: u64 = 1_000;
    let mut allocation_manager = Manager::new();
    let mut nonces = NonceStore::new();
    nonces.insert(STATIC_KEY.as_bytes(), now);

    let five_tuple = five_tuple();
    allocation_manager
        .create_allocation(five_tuple, SocketAddress::v4(0, 0, 0, 0, 0), 3600, now)
        .unwrap();
    assert!(allocation_manager.get_allocation(&five_tuple).is_some());

    let m = signed_request(Some(Lifetime::default()));
    handle_refresh_request(&mut allocation_manager, &nonces, &m, &five_tuple, true, now).unwrap();
    assert!(allocation_manager.get_allocation(&five_tuple).is_none());
}

#[test]
fn refresh_with_lifetime_extends() {
    let mut mgr = Manager::new();
    let mut nonces = NonceStore::new();
    nonces.insert(STATIC_KEY.as_bytes(), 0);
    mgr.create_allocation(five_tuple(), SocketAddress::v4(10, 0, 0, 1, 1), 600, 0).unwrap();
    let m = signed_request(Some(Lifetime(1200)));
    let reply = handle_refresh_request(&mut mgr, &nonces, &m, &five_tuple(), true, 10_000).unwrap();
    assert_eq!(reply.lifetime, 1200);
    assert_eq!(reply.closed, None);
    assert_eq!(mgr.get_allocation(&five_tuple()).unwrap().expires_at, 10_000 + 1_200_000);
}

#[test]
fn refresh_of_missing_allocation() {
    let mut mgr = Manager::new();
    let mut nonces = NonceStore::new();
    nonces.insert(STATIC_KEY.as_bytes(), 0);
    let m = signed_request(None);
    assert_eq!(
        handle_refresh_request(&mut mgr, &nonces, &m, &five_tuple(), true, 0),
        Err(RequestError::NoAllocationFound)
    );
    let zero = signed_request(Some(Lifetime(0)));
    let reply = handle_refresh_request(&mut mgr, &nonces, &zero, &five_tuple(), true, 0).unwrap();
    assert_eq!(reply.lifetime, 0);
    assert_eq!(reply.closed, None);
}

#[test]
fn request_without_integrity_is_challenged() {
    let mut mgr = Manager::new();
    let nonces = NonceStore::new();
    let mut m = Message::new();
    Lifetime(0).add_to(&mut m).unwrap();
    assert_eq!(
        handle_refresh_request(&mut mgr, &nonces, &m, &five_tuple(), true, 0),
        Err(RequestError::Unauthorized)
    );
}

#[test]
fn request_without_nonce_is_bad() {
    let nonces = NonceStore::new();
    let mut m = Message::new();
    m.add(ATTR_MESSAGE_INTEGRITY, &[0u8; 20]).unwrap();
    assert_eq!(
        check_credentials(&nonces, &m, 0).unwrap_err(),
        RequestError::BadRequest(turn::codec::StunError::AttributeNotFound)
    );
}

#[test]
fn unknown_and_stale_nonces_are_challenged() {
    let mut mgr = Manager::new();
    mgr.create_allocation(five_tuple(), SocketAddress::v4(10, 0, 0, 1, 1), 600, 0).unwrap();
    let m = signed_request(Some(Lifetime(0)));
    let empty = NonceStore::new();
    assert_eq!(
        handle_refresh_request(&mut mgr, &empty, &m, &five_tuple(), true, 0),
        Err(RequestError::StaleNonce)
    );
    let mut nonces = NonceStore::new();
    nonces.insert(STATIC_KEY.as_bytes(), 0);
    assert_eq!(
        handle_refresh_request(&mut mgr, &nonces, &m, &five_tuple(), true, NONCE_LIFETIME_MS),
        Err(RequestError::StaleNonce)
    );
    assert!(mgr.get_allocation(&five_tuple()).is_some());
}

#[test]
fn integrity_mismatch_changes_nothing() {
    let mut mgr = Manager::new();
    let mut nonces = NonceStore::new();
    nonces.insert(STATIC_KEY.as_bytes(), 0);
    mgr.create_allocation(five_tuple(), SocketAddress::v4(10, 0, 0, 1, 1), 600, 0).unwrap();
    let m = signed_request(Some(Lifetime(0)));
    assert_eq!(
        handle_refresh_request(&mut mgr, &nonces, &m, &five_tuple(), false, 0),
        Err(RequestError::AuthenticationFailure)
    );
    assert!(mgr.get_allocation(&five_tuple()).is_some());
}

#[test]
fn credentials_are_read() {
    let mut nonces = NonceStore::new();
    nonces.insert(STATIC_KEY.as_bytes(), 0);
    let c = check_credentials(&nonces, &signed_request(None), 5).unwrap();
    assert_eq!(c.username, b"ABC".to_vec());
    assert_eq!(c.realm, b"ABC".to_vec());
    assert_eq!(c.nonce, b"ABC".to_vec());
}

#[test]
fn allocate_uses_default_lifetime_and_detects_mismatch() {
    let mut mgr = Manager::new();
    let mut nonces = NonceStore::new();
    nonces.insert(STATIC_KEY.as_bytes(), 0);
    let relay = SocketAddress::v4(10, 0, 0, 1, 40000);
    let a = handle_allocate_request(&mut mgr, &nonces, &signed_request(None), &five_tuple(), true, relay, 7).unwrap();
    assert_eq!(a.lifetime, DEFAULT_LIFETIME);
    assert_eq!(a.relay_addr, relay);
    assert_eq!(mgr.get_allocation(&five_tuple()), Some(a));
    assert_eq!(
        handle_allocate_request(&mut mgr, &nonces, &signed_request(Some(Lifetime(60))), &five_tuple(), true, relay, 8),
        Err(RequestError::AllocationMismatch)
    );
}

#[test]
fn allocate_with_zero_lifetime_gets_default() {
    let mut mgr = Manager::new();
    let mut nonces = NonceStore::new();
    nonces.insert(STATIC_KEY.as_bytes(), 0);
    let relay = SocketAddress::v4(10, 0, 0, 1, 40000);
    let a = handle_allocate_request(&mut mgr, &nonces, &signed_request(Some(Lifetime(0))), &five_tuple(), true, relay, 0)
        .unwrap();
    assert_eq!(a.lifetime, DEFAULT_LIFETIME);
    let other = FiveTuple { protocol: Protocol::Tcp, ..five_tuple() };
    let b = handle_allocate_request(&mut mgr, &nonces, &signed_request(Some(Lifetime(60))), &other, true, relay, 0)
        .unwrap();
    assert_eq!(b.lifetime, 60);
}

#[test]
fn refresh_response_bytes() {
    let m = refresh_response(&[1; 12], 600);
    assert_eq!(m.typ, REFRESH_SUCCESS);
    assert_eq!(
        m.raw,
        vec![
            0x01, 0x04, 0x00, 0x08, 0x21, 0x12, 0xA4, 0x42, 1, 1, 1, 1, 1, 1, 1, 1, 1, 1, 1, 1, 0x00, 0x0D, 0x00, 0x04,
            0x00, 0x00, 0x02, 0x58
        ]
    );
    assert_eq!(m.get(ATTR_LIFETIME).unwrap(), vec![0x00, 0x00, 0x02, 0x58]);
}

#[test]
fn nonce_store_keeps_latest_issue() {
    let mut s = NonceStore::new();
    assert_eq!(s.issued_at(b"x"), None);
    s.insert(b"x", 1);
    s.insert(b"y", 2);
    s.insert(b"x", 3);
    assert_eq!(s.issued_at(b"x"), Some(3));
    assert_eq!(s.issued_at(b"y"), Some(2));
    assert_eq!(s.issued_at(b"z"), None);
}

#[test]
fn bytes_eq_compares_contents() {
    assert!(bytes_eq(b"abc", b"abc"));
    assert!(!bytes_eq(b"abc", b"abd"));
    assert!(!bytes_eq(b"abc", b"ab"));
}

#[test]
fn text_attribute_length_limits() {
    let mut m = Message::new();
    let long = TextAttribute::new(ATTR_USERNAME, vec![b'u'; 514]);
    assert_eq!(long.add_to(&mut m), Err(turn::codec::StunError::AttributeSizeOverflow));
    assert!(m.attributes.is_empty());
    m.add(ATTR_USERNAME, &vec![b'u'; 514]).unwrap();
    assert_eq!(
        TextAttribute::get_from_as(&m, ATTR_USERNAME).unwrap_err(),
        turn::codec::StunError::AttributeSizeOverflow
    );
    let ok = TextAttribute::new(ATTR_REALM, vec![b'r'; 763]);
    ok.add_to(&mut m).unwrap();
    assert_eq!(TextAttribute::get_from_as(&m, ATTR_REALM).unwrap().text, vec![b'r'; 763]);
}

#[test]
fn error_codes_per_refusal() {
    assert_eq!(RequestError::Unauthorized.error_code(), 401);
    assert_eq!(RequestError::StaleNonce.error_code(), 438);
    assert_eq!(RequestError::AllocationMismatch.error_code(), 437);
    assert_eq!(RequestError::NoAllocationFound.error_code(), 437);
    assert_eq!(RequestError::AuthenticationFailure.error_code(), 400);
    assert_eq!(RequestError::BadRequest(turn::codec::StunError::AttributeNotFound).error_code(), 400);
    assert!(RequestError::Unauthorized.is_challenge());
    assert!(RequestError::StaleNonce.is_challenge());
    assert!(!RequestError::AllocationMismatch.is_challenge());
}

#[test]
fn error_response_bytes() {
    let m = error_response(ALLOCATE_ERROR, &[2; 12], RequestError::AllocationMismatch);
    assert_eq!(
        m.raw,
        vec![
            0x01, 0x13, 0x00, 0x08, 0x21, 0x12, 0xA4, 0x42, 2, 2, 2, 2, 2, 2, 2, 2, 2, 2, 2, 2, 0x00, 0x09, 0x00, 0x04,
            0x00, 0x00, 4, 37
        ]
    );
}

#[test]
fn challenge_response_carries_realm_and_nonce() {
    let m = challenge_response(REFRESH_ERROR, &[3; 12], RequestError::StaleNonce, b"realm", b"n1").unwrap();
    let mut d = Message::new();
    d.write(&m.raw).unwrap();
    assert_eq!(d.typ, REFRESH_ERROR);
    assert_eq!(d.get(ATTR_ERROR_CODE).unwrap(), vec![0, 0, 4, 38]);
    assert_eq!(d.get(ATTR_REALM).unwrap(), b"realm".to_vec());
    assert_eq!(d.get(ATTR_NONCE).unwrap(), b"n1".to_vec());
    assert_eq!(
        challenge_response(REFRESH_ERROR, &[3; 12], RequestError::StaleNonce, b"realm", &[b'n'; 764]).unwrap_err(),
        turn::codec::StunError::AttributeSizeOverflow
    );
}

#[test]
fn wrong_size_lifetime_is_a_bad_request() {
    let mut mgr = Manager::new();
    let mut nonces = NonceStore::new();
    nonces.insert(STATIC_KEY.as_bytes(), 0);
    let relay = SocketAddress::v4(10, 0, 0, 1, 40000);
    let a = mgr.create_allocation(five_tuple(), relay, 600, 0).unwrap();
    let mut m = Message::new();
    m.add(ATTR_LIFETIME, &[0, 0, 0]).unwrap();
    let signed = signed_request(None);
    for attr in signed.attributes.iter() {
        m.add(attr.typ, &attr.value).unwrap();
    }
    let bad = RequestError::BadRequest(turn::codec::StunError::AttributeSizeInvalid);
    assert_eq!(handle_refresh_request(&mut mgr, &nonces, &m, &five_tuple(), true, 5), Err(bad));
    assert_eq!(mgr.get_allocation(&five_tuple()), Some(a));
    let other = FiveTuple { protocol: Protocol::Tcp, ..five_tuple() };
    assert_eq!(handle_allocate_request(&mut mgr, &nonces, &m, &other, true, relay, 5), Err(bad));
    assert_eq!(mgr.get_allocation(&other), None);
}
