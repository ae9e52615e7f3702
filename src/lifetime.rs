//! The LIFETIME attribute and the lifetime that an allocation request asks for.
use vstd::prelude::*;
use crate::codec::{be32, be32_value, decode_be32, encode_be32, find_attr, lemma_be32_round_trip, Message, StunError, ATTR_LIFETIME};

verus! {

/// Payload length of LIFETIME.
pub const LIFETIME_SIZE: usize = 4;

/// Lifetime in seconds given to an allocation whose request names none, or too long a one.
pub const DEFAULT_LIFETIME: u64 = 600;

/// Longest lifetime in seconds that the server grants.
pub const MAXIMUM_ALLOCATION_LIFETIME: u64 = 3600;

/// A requested or granted lifetime, in seconds.
#[derive(Debug, Clone, Copy, PartialEq, Eq, Structural)]
pub struct Lifetime(pub u64);

/// The seconds written on the wire: the seconds asked for, up to what 32 bits
/// hold. Nothing caps them at the maximum; the reader falls back to the default.
pub open spec fn wire_seconds(secs: u64) -> u32 {
    if secs > u32::MAX {
        u32::MAX
    } else {
        secs as u32
    }
}

/// The payload written for a lifetime of `secs` seconds.
pub open spec fn lifetime_payload(secs: u64) -> Seq<u8> {
    be32(wire_seconds(secs))
}

/// What reading LIFETIME from an attribute table gives, in seconds.
pub open spec fn decode_lifetime(attrs: Seq<(u16, Seq<u8>)>) -> Result<nat, StunError> {
    match find_attr(attrs, ATTR_LIFETIME) {
        None => Err(StunError::AttributeNotFound),
        Some(p) => if p.len() != LIFETIME_SIZE {
            Err(StunError::AttributeSizeInvalid)
        } else {
            Ok(be32_value(p))
        },
    }
}

/// The lifetime a request asks the server to apply: the one it carries, zero
/// included; the default where it carries none or more than the maximum. A
/// LIFETIME of the wrong size is an error.
pub open spec fn requested_lifetime_of(attrs: Seq<(u16, Seq<u8>)>) -> Result<u64, StunError> {
    match decode_lifetime(attrs) {
        Ok(s) => if s > MAXIMUM_ALLOCATION_LIFETIME {
            Ok(DEFAULT_LIFETIME)
        } else {
            Ok(s as u64)
        },
        Err(StunError::AttributeNotFound) => Ok(DEFAULT_LIFETIME),
        Err(e) => Err(e),
    }
}

/// The requested lifetime, with the default also where LIFETIME cannot be read.
pub open spec fn allocation_lifetime_of(attrs: Seq<(u16, Seq<u8>)>) -> u64 {
    match requested_lifetime_of(attrs) {
        Ok(l) => l,
        Err(_) => DEFAULT_LIFETIME,
    }
}

impl Default for Lifetime {
    fn default() -> (r: Lifetime)
        ensures
            r.0 == 0,
    {
        Lifetime(0)
    }
}

impl Lifetime {
    /// Appends the attribute to `m`, the seconds as asked for (up to what 32 bits hold).
    pub fn add_to(&self, m: &mut Message) -> (r: Result<(), StunError>)
        requires
            old(m).wf(),
        ensures
            final(m).wf(),
            r.is_err() <==> old(m).raw@.len() + 8 > crate::codec::MESSAGE_HEADER_SIZE + crate::codec::MAX_BODY_SIZE,
            r.is_err() ==> r == Err::<(), StunError>(StunError::MessageTooLarge) && *final(m) == *old(m),
            r.is_ok() ==> {
                &&& final(m).attrs() == old(m).attrs().push((ATTR_LIFETIME, lifetime_payload(self.0)))
                &&& final(m).raw@ == old(m).raw@ + crate::codec::encode_attr((ATTR_LIFETIME, lifetime_payload(self.0)))
                &&& final(m).typ == old(m).typ
                &&& final(m).transaction_id@ == old(m).transaction_id@
                &&& (old(m).body_encoded() ==> final(m).body_encoded())
            },
    {
        let secs: u32 = if self.0 > u32::MAX as u64 {
            u32::MAX
        } else {
            self.0 as u32
        };
        let v = encode_be32(secs);
        m.add(ATTR_LIFETIME, v.as_slice())
    }

    /// Reads the attribute from `m`; on failure `self` is left as it was.
    pub fn get_from(&mut self, m: &Message) -> (r: Result<(), StunError>)
        ensures
            match decode_lifetime(m.attrs()) {
                Ok(s) => r.is_ok() && final(self).0 == s,
                Err(e) => r == Err::<(), StunError>(e) && *final(self) == *old(self),
            },
    {
        let v = m.get(ATTR_LIFETIME)?;
        if v.len() != LIFETIME_SIZE {
            return Err(StunError::AttributeSizeInvalid);
        }
        self.0 = decode_be32(v.as_slice()) as u64;
        Ok(())
    }
}

/// The lifetime in seconds that the request `m` asks for; fails only where its
/// LIFETIME has the wrong size.
pub fn requested_lifetime(m: &Message) -> (r: Result<u64, StunError>)
    ensures
        r == requested_lifetime_of(m.attrs()),
        r matches Ok(l) ==> l <= MAXIMUM_ALLOCATION_LIFETIME,
{
    let mut l = Lifetime(0);
    match l.get_from(m) {
        Ok(()) => if l.0 > MAXIMUM_ALLOCATION_LIFETIME {
            Ok(DEFAULT_LIFETIME)
        } else {
            Ok(l.0)
        },
        Err(StunError::AttributeNotFound) => Ok(DEFAULT_LIFETIME),
        Err(e) => Err(e),
    }
}

/// The lifetime in seconds that the request `m` asks for, the default where its
/// LIFETIME cannot be read.
pub fn allocation_lifetime(m: &Message) -> (r: u64)
    ensures
        r == allocation_lifetime_of(m.attrs()),
        r <= MAXIMUM_ALLOCATION_LIFETIME,
{
    match requested_lifetime(m) {
        Ok(l) => l,
        Err(_) => DEFAULT_LIFETIME,
    }
}

/// A request without LIFETIME gets the default lifetime.
pub proof fn lemma_missing_lifetime_is_default(attrs: Seq<(u16, Seq<u8>)>)
    requires
        find_attr(attrs, ATTR_LIFETIME) is None,
    ensures
        allocation_lifetime_of(attrs) == DEFAULT_LIFETIME,
{
}

/// A request whose LIFETIME carries more than the maximum gets the default
/// lifetime, not the maximum.
pub proof fn lemma_overlong_lifetime_is_default(attrs: Seq<(u16, Seq<u8>)>, secs: u32)
    requires
        find_attr(attrs, ATTR_LIFETIME) is None,
        secs > MAXIMUM_ALLOCATION_LIFETIME,
    ensures
        allocation_lifetime_of(attrs.push((ATTR_LIFETIME, be32(secs)))) == DEFAULT_LIFETIME,
{
    crate::codec::lemma_find_attr_push_absent(attrs, (ATTR_LIFETIME, be32(secs)));
    lemma_be32_round_trip(secs);
}

/// A lifetime added to a request without one is what the server applies up to
/// the maximum, zero included; above the maximum the default applies.
pub proof fn lemma_lifetime_round_trip(attrs: Seq<(u16, Seq<u8>)>, secs: u64)
    requires
        find_attr(attrs, ATTR_LIFETIME) is None,
    ensures
        allocation_lifetime_of(attrs.push((ATTR_LIFETIME, lifetime_payload(secs)))) == if secs
            > MAXIMUM_ALLOCATION_LIFETIME {
            DEFAULT_LIFETIME
        } else {
            secs
        },
{
    crate::codec::lemma_find_attr_push_absent(attrs, (ATTR_LIFETIME, lifetime_payload(secs)));
    lemma_be32_round_trip(wire_seconds(secs));
}

} // verus!
