//! The EVEN-PORT attribute: one flag byte asking for an even relay port.
use vstd::prelude::*;
use crate::codec::{attrs_fit, decode_message, encode_attrs, find_attr, header, Message, StunError, ATTR_EVEN_PORT, MAX_BODY_SIZE, TRANSACTION_ID_SIZE};

verus! {

/// Payload length of EVEN-PORT.
pub const EVEN_PORT_SIZE: usize = 1;

/// Whether the client asks the server to reserve the next port as well.
#[derive(Debug, Clone, Copy, PartialEq, Eq, Structural)]
pub struct EvenPort {
    pub reserve_port: bool,
}

/// The one payload byte: the top bit carries the flag.
pub open spec fn even_port_payload(reserve_port: bool) -> Seq<u8> {
    seq![if reserve_port { 0x80u8 } else { 0u8 }]
}

/// What reading EVEN-PORT from an attribute table gives.
pub open spec fn decode_even_port(attrs: Seq<(u16, Seq<u8>)>) -> Result<bool, StunError> {
    match find_attr(attrs, ATTR_EVEN_PORT) {
        None => Err(StunError::AttributeNotFound),
        Some(p) => if p.len() != EVEN_PORT_SIZE {
            Err(StunError::AttributeSizeInvalid)
        } else {
            Ok(p[0] & 0x80 != 0)
        },
    }
}

/// A table without EVEN-PORT, with the attribute added, reads back the flag written.
pub proof fn lemma_even_port_round_trip(attrs: Seq<(u16, Seq<u8>)>, reserve_port: bool)
    requires
        find_attr(attrs, ATTR_EVEN_PORT) is None,
    ensures
        decode_even_port(attrs.push((ATTR_EVEN_PORT, even_port_payload(reserve_port)))) == Ok::<bool, StunError>(
            reserve_port,
        ),
{
    crate::codec::lemma_find_attr_push_absent(attrs, (ATTR_EVEN_PORT, even_port_payload(reserve_port)));
    assert(0x80u8 & 0x80u8 != 0) by (bit_vector);
    assert(0u8 & 0x80u8 == 0) by (bit_vector);
}

/// Reading EVEN-PORT fails with `AttributeNotFound` where the table has none,
/// and with `AttributeSizeInvalid` where its payload is not one byte long.
pub proof fn lemma_even_port_decode_errors(attrs: Seq<(u16, Seq<u8>)>)
    ensures
        find_attr(attrs, ATTR_EVEN_PORT) is None ==> decode_even_port(attrs) == Err::<bool, StunError>(
            StunError::AttributeNotFound,
        ),
        find_attr(attrs, ATTR_EVEN_PORT) matches Some(p) && p.len() != EVEN_PORT_SIZE ==> decode_even_port(attrs)
            == Err::<bool, StunError>(StunError::AttributeSizeInvalid),
{
}

/// The same through the wire: a message holding a table without EVEN-PORT, the
/// attribute added and the header written, reads back from its bytes with the
/// flag written.
pub proof fn lemma_even_port_wire_round_trip(typ: u16, tid: Seq<u8>, attrs: Seq<(u16, Seq<u8>)>, reserve_port: bool)
    requires
        tid.len() == TRANSACTION_ID_SIZE,
        attrs_fit(attrs),
        find_attr(attrs, ATTR_EVEN_PORT) is None,
        encode_attrs(attrs.push((ATTR_EVEN_PORT, even_port_payload(reserve_port)))).len() <= MAX_BODY_SIZE,
    ensures
        ({
            let s = attrs.push((ATTR_EVEN_PORT, even_port_payload(reserve_port)));
            match decode_message(header(typ, encode_attrs(s).len() as u16, tid) + encode_attrs(s)) {
                Ok((_, _, decoded)) => decode_even_port(decoded) == Ok::<bool, StunError>(reserve_port),
                Err(_) => false,
            }
        }),
{
    let s = attrs.push((ATTR_EVEN_PORT, even_port_payload(reserve_port)));
    assert(attrs_fit(s)) by {
        assert forall|i: int| 0 <= i < s.len() implies #[trigger] s[i].1.len() <= MAX_BODY_SIZE by {
            if i < attrs.len() {
                assert(s[i] == attrs[i]);
            }
        }
    }
    crate::codec::lemma_decode_message_encoded(typ, tid, s);
    lemma_even_port_round_trip(attrs, reserve_port);
}

impl Default for EvenPort {
    fn default() -> (r: EvenPort)
        ensures
            r.reserve_port == false,
    {
        EvenPort { reserve_port: false }
    }
}

impl EvenPort {
    /// `reserve: true` or `reserve: false`.
    pub fn to_string(&self) -> (r: String)
        ensures
            r@ == (if self.reserve_port { "reserve: true"@ } else { "reserve: false"@ }),
    {
        if self.reserve_port {
            String::from_str("reserve: true")
        } else {
            String::from_str("reserve: false")
        }
    }

    /// Appends the attribute to `m`.
    pub fn add_to(&self, m: &mut Message) -> (r: Result<(), StunError>)
        requires
            old(m).wf(),
        ensures
            final(m).wf(),
            r.is_err() <==> old(m).raw@.len() + 8 > crate::codec::MESSAGE_HEADER_SIZE + crate::codec::MAX_BODY_SIZE,
            r.is_err() ==> r == Err::<(), StunError>(StunError::MessageTooLarge) && *final(m) == *old(m),
            r.is_ok() ==> {
                &&& final(m).attrs() == old(m).attrs().push((ATTR_EVEN_PORT, even_port_payload(self.reserve_port)))
                &&& final(m).raw@ == old(m).raw@ + crate::codec::encode_attr((ATTR_EVEN_PORT, even_port_payload(self.reserve_port)))
                &&& final(m).typ == old(m).typ
                &&& final(m).transaction_id@ == old(m).transaction_id@
                &&& (old(m).body_encoded() ==> final(m).body_encoded())
            },
    {
        let mut v: Vec<u8> = Vec::new();
        if self.reserve_port {
            v.push(0x80u8);
        } else {
            v.push(0u8);
        }
        assert(v@ =~= even_port_payload(self.reserve_port));
        m.add(ATTR_EVEN_PORT, v.as_slice())
    }

    /// Reads the attribute from `m`; on failure `self` is left as it was.
    pub fn get_from(&mut self, m: &Message) -> (r: Result<(), StunError>)
        ensures
            match decode_even_port(m.attrs()) {
                Ok(v) => r.is_ok() && final(self).reserve_port == v,
                Err(e) => r == Err::<(), StunError>(e) && *final(self) == *old(self),
            },
    {
        let v = m.get(ATTR_EVEN_PORT)?;
        if v.len() != EVEN_PORT_SIZE {
            return Err(StunError::AttributeSizeInvalid);
        }
        self.reserve_port = v[0] & 0x80 != 0;
        Ok(())
    }
}

} // verus!
