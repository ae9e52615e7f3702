//! Text attributes of the authentication exchange: USERNAME, REALM, NONCE.
use vstd::prelude::*;
use crate::codec::{copy_range, find_attr, Message, StunError, ATTR_NONCE, ATTR_REALM, ATTR_USERNAME, MAX_BODY_SIZE};

verus! {

/// Longest USERNAME payload in bytes.
pub const MAX_USERNAME_BYTES: usize = 513;

/// Longest REALM payload in bytes.
pub const MAX_REALM_BYTES: usize = 763;

/// Longest NONCE payload in bytes.
pub const MAX_NONCE_BYTES: usize = 763;

/// Longest payload allowed for a text attribute of type `attr`.
pub open spec fn max_text_len(attr: u16) -> nat {
    if attr == ATTR_USERNAME {
        MAX_USERNAME_BYTES as nat
    } else if attr == ATTR_REALM {
        MAX_REALM_BYTES as nat
    } else if attr == ATTR_NONCE {
        MAX_NONCE_BYTES as nat
    } else {
        MAX_BODY_SIZE as nat
    }
}

/// What reading the text attribute `attr` from an attribute table gives.
pub open spec fn decode_text(attrs: Seq<(u16, Seq<u8>)>, attr: u16) -> Result<Seq<u8>, StunError> {
    match find_attr(attrs, attr) {
        None => Err(StunError::AttributeNotFound),
        Some(p) => if p.len() > max_text_len(attr) {
            Err(StunError::AttributeSizeOverflow)
        } else {
            Ok(p)
        },
    }
}

/// Longest payload allowed for a text attribute of type `attr`.
pub fn max_text_len_of(attr: u16) -> (r: usize)
    ensures
        r == max_text_len(attr),
{
    if attr == ATTR_USERNAME {
        MAX_USERNAME_BYTES
    } else if attr == ATTR_REALM {
        MAX_REALM_BYTES
    } else if attr == ATTR_NONCE {
        MAX_NONCE_BYTES
    } else {
        MAX_BODY_SIZE
    }
}

/// An opaque text value under an attribute type.
#[derive(Debug)]
pub struct TextAttribute {
    pub attr: u16,
    pub text: Vec<u8>,
}

impl TextAttribute {
    pub fn new(attr: u16, text: Vec<u8>) -> (r: TextAttribute)
        ensures
            r.attr == attr,
            r.text@ == text@,
    {
        TextAttribute { attr, text }
    }

    /// Appends the attribute to `m`; too long a text is refused.
    pub fn add_to(&self, m: &mut Message) -> (r: Result<(), StunError>)
        requires
            old(m).wf(),
        ensures
            final(m).wf(),
            self.text@.len() > max_text_len(self.attr) ==> r == Err::<(), StunError>(StunError::AttributeSizeOverflow),
            r.is_err() ==> *final(m) == *old(m),
            self.text@.len() <= max_text_len(self.attr) && r.is_err() ==> r == Err::<(), StunError>(
                StunError::MessageTooLarge,
            ),
            r.is_ok() ==> {
                &&& self.text@.len() <= max_text_len(self.attr)
                &&& final(m).attrs() == old(m).attrs().push((self.attr, self.text@))
                &&& final(m).raw@ == old(m).raw@ + crate::codec::encode_attr((self.attr, self.text@))
                &&& final(m).typ == old(m).typ
                &&& final(m).transaction_id@ == old(m).transaction_id@
                &&& (old(m).body_encoded() ==> final(m).body_encoded())
            },
            self.text@.len() <= max_text_len(self.attr) ==> (r.is_err() <==> old(m).raw@.len() + 4
                + self.text@.len() + crate::codec::padding(self.text@.len()) > crate::codec::MESSAGE_HEADER_SIZE
                + MAX_BODY_SIZE),
    {
        if self.text.len() > max_text_len_of(self.attr) {
            return Err(StunError::AttributeSizeOverflow);
        }
        m.add(self.attr, self.text.as_slice())
    }

    /// Reads the text attribute `attr` from `m`.
    pub fn get_from_as(m: &Message, attr: u16) -> (r: Result<TextAttribute, StunError>)
        ensures
            match decode_text(m.attrs(), attr) {
                Ok(t) => r.is_ok() && r.unwrap().attr == attr && r.unwrap().text@ == t,
                Err(e) => r.is_err() && r.unwrap_err() == e,
            },
    {
        let v = m.get(attr)?;
        if v.len() > max_text_len_of(attr) {
            return Err(StunError::AttributeSizeOverflow);
        }
        let text = copy_range(v.as_slice(), 0, v.len());
        assert(text@ =~= v@);
        Ok(TextAttribute { attr, text })
    }
}

} // verus!
