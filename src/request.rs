//! What the server decides for an authenticated Refresh or Allocate request.
//!
//! The caller reads the datagram, asks its authentication backend for the key,
//! checks MESSAGE-INTEGRITY with it, and hands the verdict in here together with
//! the clock; the decisions and the registry changes are made here.
use vstd::prelude::*;
use crate::codec::{find_attr, header, encode_attrs, Message, StunError, ATTR_ERROR_CODE, ATTR_LIFETIME, ATTR_MESSAGE_INTEGRITY, ATTR_NONCE, ATTR_REALM, ATTR_USERNAME, TRANSACTION_ID_SIZE};
use crate::five_tuple::{FiveTuple, SocketAddress};
use crate::lifetime::{lifetime_payload, requested_lifetime, requested_lifetime_of, Lifetime, DEFAULT_LIFETIME};
use crate::manager::{create_step, delete_step, refresh_step, Allocation, AllocationError, Manager};
use crate::nonces::{issued_at, nonce_fresh, NonceStore, NONCE_LIFETIME_MS};
use crate::text::{decode_text, max_text_len, TextAttribute};

verus! {

/// Message type of a Refresh success response.
pub const REFRESH_SUCCESS: u16 = 0x0104;

/// Message type of an Allocate error response.
pub const ALLOCATE_ERROR: u16 = 0x0113;

/// Message type of a Refresh error response.
pub const REFRESH_ERROR: u16 = 0x0114;

/// Why a request was not carried out.
#[derive(Debug, Clone, Copy, PartialEq, Eq, Structural)]
pub enum RequestError {
    /// No MESSAGE-INTEGRITY: the client is to be challenged with a nonce.
    Unauthorized,
    /// A required attribute is missing or malformed.
    BadRequest(StunError),
    /// The nonce is unknown or too old: the client is to be challenged with a fresh one.
    StaleNonce,
    /// The integrity check failed or the identity is unknown.
    AuthenticationFailure,
    /// A refresh names a five-tuple without an allocation.
    NoAllocationFound,
    /// An allocate names a five-tuple that already has an allocation.
    AllocationMismatch,
}

/// The credentials that a request carries.
#[derive(Debug)]
pub struct Credentials {
    pub username: Vec<u8>,
    pub realm: Vec<u8>,
    pub nonce: Vec<u8>,
}

/// The outcome of a refresh: the lifetime applied, and the allocation removed
/// (its relay to be closed) where that lifetime is zero and there was one.
#[derive(Debug, Clone, Copy, PartialEq, Eq, Structural)]
pub struct RefreshReply {
    pub lifetime: u64,
    pub closed: Option<Allocation>,
}

/// Whether a request may go on to its method: it carries MESSAGE-INTEGRITY,
/// readable NONCE, REALM and USERNAME, and a nonce issued recently.
pub open spec fn credentials_check(nonces: Seq<(Seq<u8>, u64)>, attrs: Seq<(u16, Seq<u8>)>, now: u64) -> Result<(), RequestError> {
    if find_attr(attrs, ATTR_MESSAGE_INTEGRITY) is None {
        Err(RequestError::Unauthorized)
    } else {
        match decode_text(attrs, ATTR_NONCE) {
            Err(e) => Err(RequestError::BadRequest(e)),
            Ok(n) => match decode_text(attrs, ATTR_REALM) {
                Err(e) => Err(RequestError::BadRequest(e)),
                Ok(_) => match decode_text(attrs, ATTR_USERNAME) {
                    Err(e) => Err(RequestError::BadRequest(e)),
                    Ok(_) => match issued_at(nonces, n) {
                        None => Err(RequestError::StaleNonce),
                        Some(t) => if nonce_fresh(t, now) {
                            Ok(())
                        } else {
                            Err(RequestError::StaleNonce)
                        },
                    },
                },
            },
        }
    }
}

/// A refresh: authentication first; a LIFETIME of the wrong size is a bad
/// request; then a zero lifetime deletes the allocation (no error if there is
/// none) and another one extends the existing allocation.
pub open spec fn refresh_request_step(
    m: Map<FiveTuple, Allocation>,
    nonces: Seq<(Seq<u8>, u64)>,
    attrs: Seq<(u16, Seq<u8>)>,
    five_tuple: FiveTuple,
    integrity_ok: bool,
    now: u64,
) -> (Result<RefreshReply, RequestError>, Map<FiveTuple, Allocation>) {
    match credentials_check(nonces, attrs, now) {
        Err(e) => (Err(e), m),
        Ok(()) => if !integrity_ok {
            (Err(RequestError::AuthenticationFailure), m)
        } else {
            match requested_lifetime_of(attrs) {
                Err(e) => (Err(RequestError::BadRequest(e)), m),
                Ok(l) => if l == 0 {
                    let (d, m2) = delete_step(m, five_tuple);
                    (Ok(RefreshReply { lifetime: 0, closed: d }), m2)
                } else if !m.contains_key(five_tuple) {
                    (Err(RequestError::NoAllocationFound), m)
                } else {
                    (Ok(RefreshReply { lifetime: l, closed: None }), refresh_step(m, five_tuple, l, now).1)
                },
            }
        },
    }
}

/// The lifetime granted to an allocate request that asks for `requested`: never zero.
pub open spec fn allocate_lifetime(requested: u64) -> u64 {
    if requested == 0 {
        DEFAULT_LIFETIME
    } else {
        requested
    }
}

/// An allocate: authentication first; a LIFETIME of the wrong size is a bad
/// request; then an allocation on `relay_addr`, unless the five-tuple already
/// has one.
pub open spec fn allocate_request_step(
    m: Map<FiveTuple, Allocation>,
    nonces: Seq<(Seq<u8>, u64)>,
    attrs: Seq<(u16, Seq<u8>)>,
    five_tuple: FiveTuple,
    integrity_ok: bool,
    relay_addr: SocketAddress,
    now: u64,
) -> (Result<Allocation, RequestError>, Map<FiveTuple, Allocation>) {
    match credentials_check(nonces, attrs, now) {
        Err(e) => (Err(e), m),
        Ok(()) => if !integrity_ok {
            (Err(RequestError::AuthenticationFailure), m)
        } else {
            match requested_lifetime_of(attrs) {
                Err(e) => (Err(RequestError::BadRequest(e)), m),
                Ok(l) => if m.contains_key(five_tuple) {
                    (Err(RequestError::AllocationMismatch), m)
                } else {
                    let (r, m2) = create_step(m, five_tuple, relay_addr, allocate_lifetime(l), now);
                    (Ok(r.unwrap()), m2)
                },
            }
        },
    }
}

/// Reads the credentials of `m` and checks its nonce against `nonces` at `now`.
pub fn check_credentials(nonces: &NonceStore, m: &Message, now: u64) -> (r: Result<Credentials, RequestError>)
    ensures
        match credentials_check(nonces@, m.attrs(), now) {
            Ok(()) => {
                &&& r.is_ok()
                &&& decode_text(m.attrs(), ATTR_USERNAME) == Ok::<Seq<u8>, StunError>(r.unwrap().username@)
                &&& decode_text(m.attrs(), ATTR_REALM) == Ok::<Seq<u8>, StunError>(r.unwrap().realm@)
                &&& decode_text(m.attrs(), ATTR_NONCE) == Ok::<Seq<u8>, StunError>(r.unwrap().nonce@)
            },
            Err(e) => r.is_err() && r.unwrap_err() == e,
        },
{
    if m.get(ATTR_MESSAGE_INTEGRITY).is_err() {
        return Err(RequestError::Unauthorized);
    }
    let nonce = match TextAttribute::get_from_as(m, ATTR_NONCE) {
        Ok(t) => t,
        Err(e) => return Err(RequestError::BadRequest(e)),
    };
    let realm = match TextAttribute::get_from_as(m, ATTR_REALM) {
        Ok(t) => t,
        Err(e) => return Err(RequestError::BadRequest(e)),
    };
    let username = match TextAttribute::get_from_as(m, ATTR_USERNAME) {
        Ok(t) => t,
        Err(e) => return Err(RequestError::BadRequest(e)),
    };
    match nonces.issued_at(nonce.text.as_slice()) {
        None => Err(RequestError::StaleNonce),
        Some(t) => {
            if now < t || now - t < NONCE_LIFETIME_MS {
                Ok(Credentials { username: username.text, realm: realm.text, nonce: nonce.text })
            } else {
                Err(RequestError::StaleNonce)
            }
        },
    }
}

/// Handles a Refresh request `m` from `five_tuple`; `integrity_ok` is whether
/// its MESSAGE-INTEGRITY matched the key of its credentials.
pub fn handle_refresh_request(
    manager: &mut Manager,
    nonces: &NonceStore,
    m: &Message,
    five_tuple: &FiveTuple,
    integrity_ok: bool,
    now: u64,
) -> (r: Result<RefreshReply, RequestError>)
    requires
        old(manager).wf(),
    ensures
        final(manager).wf(),
        (r, final(manager)@) == refresh_request_step(old(manager)@, nonces@, m.attrs(), *five_tuple, integrity_ok, now),
{
    check_credentials(nonces, m, now)?;
    if !integrity_ok {
        return Err(RequestError::AuthenticationFailure);
    }
    let lifetime = match requested_lifetime(m) {
        Ok(l) => l,
        Err(e) => return Err(RequestError::BadRequest(e)),
    };
    if lifetime == 0 {
        let closed = manager.delete_allocation(five_tuple);
        return Ok(RefreshReply { lifetime: 0, closed });
    }
    match manager.refresh_allocation(five_tuple, lifetime, now) {
        Err(_) => Err(RequestError::NoAllocationFound),
        Ok(_) => Ok(RefreshReply { lifetime, closed: None }),
    }
}

/// Handles an Allocate request `m` from `five_tuple`, on the relay address
/// `relay_addr` that the relay address generator gave.
pub fn handle_allocate_request(
    manager: &mut Manager,
    nonces: &NonceStore,
    m: &Message,
    five_tuple: &FiveTuple,
    integrity_ok: bool,
    relay_addr: SocketAddress,
    now: u64,
) -> (r: Result<Allocation, RequestError>)
    requires
        old(manager).wf(),
    ensures
        final(manager).wf(),
        (r, final(manager)@) == allocate_request_step(
            old(manager)@,
            nonces@,
            m.attrs(),
            *five_tuple,
            integrity_ok,
            relay_addr,
            now,
        ),
{
    check_credentials(nonces, m, now)?;
    if !integrity_ok {
        return Err(RequestError::AuthenticationFailure);
    }
    let mut lifetime = match requested_lifetime(m) {
        Ok(l) => l,
        Err(e) => return Err(RequestError::BadRequest(e)),
    };
    if lifetime == 0 {
        lifetime = DEFAULT_LIFETIME;
    }
    match manager.create_allocation(*five_tuple, relay_addr, lifetime, now) {
        Ok(a) => Ok(a),
        Err(_) => Err(RequestError::AllocationMismatch),
    }
}

/// The success response to a Refresh: the transaction id of the request and
/// the lifetime applied, header written.
pub fn refresh_response(transaction_id: &[u8], lifetime: u64) -> (r: Message)
    requires
        transaction_id@.len() == TRANSACTION_ID_SIZE,
    ensures
        r.wf(),
        r.typ == REFRESH_SUCCESS,
        r.transaction_id@ == transaction_id@,
        r.attrs() == seq![(ATTR_LIFETIME, lifetime_payload(lifetime))],
        r.raw@ == header(REFRESH_SUCCESS, encode_attrs(r.attrs()).len() as u16, transaction_id@) + encode_attrs(
            r.attrs(),
        ),
{
    let mut m = Message::new();
    m.typ = REFRESH_SUCCESS;
    m.transaction_id = crate::codec::copy_range(transaction_id, 0, transaction_id.len());
    assert(m.transaction_id@ =~= transaction_id@);
    let added = Lifetime(lifetime).add_to(&mut m);
    assert(added.is_ok());
    assert(m.attrs() =~= seq![(ATTR_LIFETIME, lifetime_payload(lifetime))]);
    m.write_header();
    m
}

/// The error code that answers each refusal: 401 and 438 come with a
/// challenge, 437 is an allocation mismatch, 400 a bad request.
pub open spec fn error_code_of(e: RequestError) -> u16 {
    match e {
        RequestError::Unauthorized => 401,
        RequestError::BadRequest(_) => 400,
        RequestError::StaleNonce => 438,
        RequestError::AuthenticationFailure => 400,
        RequestError::NoAllocationFound => 437,
        RequestError::AllocationMismatch => 437,
    }
}

/// ERROR-CODE payload: two zero bytes, the hundreds, and the rest.
pub open spec fn error_code_payload(code: u16) -> Seq<u8> {
    seq![0u8, 0u8, (code / 100) as u8, (code % 100) as u8]
}

impl RequestError {
    /// The error code sent back for this refusal.
    pub fn error_code(&self) -> (r: u16)
        ensures
            r == error_code_of(*self),
    {
        match self {
            RequestError::Unauthorized => 401,
            RequestError::BadRequest(_) => 400,
            RequestError::StaleNonce => 438,
            RequestError::AuthenticationFailure => 400,
            RequestError::NoAllocationFound => 437,
            RequestError::AllocationMismatch => 437,
        }
    }

    /// Whether the client is to be answered with a fresh nonce to retry with.
    pub fn is_challenge(&self) -> (r: bool)
        ensures
            r == (*self == RequestError::Unauthorized || *self == RequestError::StaleNonce),
    {
        match self {
            RequestError::Unauthorized => true,
            RequestError::StaleNonce => true,
            _ => false,
        }
    }
}

/// A message of type `typ` with the transaction id `tid` and no attributes.
fn empty_message(typ: u16, tid: &[u8]) -> (m: Message)
    requires
        tid@.len() == TRANSACTION_ID_SIZE,
    ensures
        m.wf(),
        m.body_encoded(),
        m.typ == typ,
        m.transaction_id@ == tid@,
        m.attrs() == Seq::<(u16, Seq<u8>)>::empty(),
        m.raw@.len() == crate::codec::MESSAGE_HEADER_SIZE,
{
    let mut m = Message::new();
    m.typ = typ;
    m.transaction_id = crate::codec::copy_range(tid, 0, tid.len());
    assert(m.transaction_id@ =~= tid@);
    m
}

/// Appends ERROR-CODE with `code`, which is below 65536 and so splits into
/// a hundreds byte and a rest byte.
fn add_error_code(m: &mut Message, code: u16) -> (r: Result<(), StunError>)
    requires
        old(m).wf(),
    ensures
        final(m).wf(),
        r.is_err() <==> old(m).raw@.len() + 8 > crate::codec::MESSAGE_HEADER_SIZE + crate::codec::MAX_BODY_SIZE,
        r.is_err() ==> *final(m) == *old(m),
        r.is_ok() ==> {
            &&& final(m).attrs() == old(m).attrs().push((ATTR_ERROR_CODE, error_code_payload(code)))
            &&& final(m).raw@ == old(m).raw@ + crate::codec::encode_attr((ATTR_ERROR_CODE, error_code_payload(code)))
            &&& final(m).typ == old(m).typ
            &&& final(m).transaction_id@ == old(m).transaction_id@
            &&& (old(m).body_encoded() ==> final(m).body_encoded())
        },
{
    let mut v: Vec<u8> = Vec::new();
    v.push(0u8);
    v.push(0u8);
    v.push((code / 100) as u8);
    v.push((code % 100) as u8);
    assert(v@ =~= error_code_payload(code));
    m.add(ATTR_ERROR_CODE, v.as_slice())
}

/// An error response of type `response_type` that carries the code of `e`.
pub fn error_response(response_type: u16, transaction_id: &[u8], e: RequestError) -> (r: Message)
    requires
        transaction_id@.len() == TRANSACTION_ID_SIZE,
    ensures
        r.wf(),
        r.typ == response_type,
        r.transaction_id@ == transaction_id@,
        r.attrs() == seq![(ATTR_ERROR_CODE, error_code_payload(error_code_of(e)))],
        r.raw@ == header(response_type, encode_attrs(r.attrs()).len() as u16, transaction_id@) + encode_attrs(
            r.attrs(),
        ),
{
    let mut m = empty_message(response_type, transaction_id);
    let added = add_error_code(&mut m, e.error_code());
    assert(added.is_ok());
    assert(m.attrs() =~= seq![(ATTR_ERROR_CODE, error_code_payload(error_code_of(e)))]);
    m.write_header();
    m
}

/// A challenge: the error code of `e`, then REALM and the fresh NONCE that the
/// client is to retry with. Fails where the realm or nonce is too long.
pub fn challenge_response(
    response_type: u16,
    transaction_id: &[u8],
    e: RequestError,
    realm: &[u8],
    nonce: &[u8],
) -> (r: Result<Message, StunError>)
    requires
        transaction_id@.len() == TRANSACTION_ID_SIZE,
    ensures
        r.is_ok() <==> realm@.len() <= max_text_len(ATTR_REALM) && nonce@.len() <= max_text_len(ATTR_NONCE),
        r.is_err() ==> r == Err::<Message, StunError>(StunError::AttributeSizeOverflow),
        r matches Ok(m) ==> {
            &&& m.wf()
            &&& m.typ == response_type
            &&& m.transaction_id@ == transaction_id@
            &&& m.attrs() == seq![
                (ATTR_ERROR_CODE, error_code_payload(error_code_of(e))),
                (ATTR_REALM, realm@),
                (ATTR_NONCE, nonce@),
            ]
            &&& m.raw@ == header(response_type, encode_attrs(m.attrs()).len() as u16, transaction_id@)
                + encode_attrs(m.attrs())
        },
{
    let mut m = empty_message(response_type, transaction_id);
    let added = add_error_code(&mut m, e.error_code());
    assert(added.is_ok());
    let realm_attr = TextAttribute::new(ATTR_REALM, crate::codec::copy_range(realm, 0, realm.len()));
    let nonce_attr = TextAttribute::new(ATTR_NONCE, crate::codec::copy_range(nonce, 0, nonce.len()));
    assert(realm_attr.text@ =~= realm@);
    assert(nonce_attr.text@ =~= nonce@);
    assert(m.raw@.len() == 28);
    assert(crate::codec::padding(realm@.len()) <= 3);
    assert(crate::codec::padding(nonce@.len()) <= 3);
    if realm_attr.add_to(&mut m).is_err() {
        return Err(StunError::AttributeSizeOverflow);
    }
    assert(m.raw@.len() <= 28 + 4 + 763 + 3);
    if nonce_attr.add_to(&mut m).is_err() {
        return Err(StunError::AttributeSizeOverflow);
    }
    assert(m.attrs() =~= seq![
        (ATTR_ERROR_CODE, error_code_payload(error_code_of(e))),
        (ATTR_REALM, realm@),
        (ATTR_NONCE, nonce@),
    ]);
    m.write_header();
    Ok(m)
}

/// An authenticated refresh whose lifetime is zero leaves no allocation for
/// its five-tuple, and succeeds whether or not there was one.
pub proof fn lemma_zero_lifetime_refresh_deletes(
    m: Map<FiveTuple, Allocation>,
    nonces: Seq<(Seq<u8>, u64)>,
    attrs: Seq<(u16, Seq<u8>)>,
    five_tuple: FiveTuple,
    now: u64,
)
    requires
        credentials_check(nonces, attrs, now) is Ok,
        requested_lifetime_of(attrs) == Ok::<u64, StunError>(0),
    ensures
        ({
            let (r, m2) = refresh_request_step(m, nonces, attrs, five_tuple, true, now);
            &&& r is Ok
            &&& !m2.contains_key(five_tuple)
            &&& r.unwrap().closed == (if m.contains_key(five_tuple) { Some(m[five_tuple]) } else { None::<Allocation> })
        }),
{
}

/// A request that fails authentication, or whose integrity check failed,
/// changes no allocation.
pub proof fn lemma_unauthenticated_changes_nothing(
    m: Map<FiveTuple, Allocation>,
    nonces: Seq<(Seq<u8>, u64)>,
    attrs: Seq<(u16, Seq<u8>)>,
    five_tuple: FiveTuple,
    integrity_ok: bool,
    relay_addr: SocketAddress,
    now: u64,
)
    requires
        credentials_check(nonces, attrs, now) is Err || !integrity_ok,
    ensures
        refresh_request_step(m, nonces, attrs, five_tuple, integrity_ok, now).1 == m,
        allocate_request_step(m, nonces, attrs, five_tuple, integrity_ok, relay_addr, now).1 == m,
{
}

} // verus!
