//! STUN message framing and the generic type-length-value attribute codec.
use vstd::prelude::*;

verus! {

/// Size of the fixed STUN header: type, length, magic cookie, transaction id.
pub const MESSAGE_HEADER_SIZE: usize = 20;

/// Size of the transaction id carried in the header.
pub const TRANSACTION_ID_SIZE: usize = 12;

/// Largest body that the 16-bit length field of the header can describe.
pub const MAX_BODY_SIZE: usize = 65535;

pub const ATTR_USERNAME: u16 = 0x0006;
pub const ATTR_MESSAGE_INTEGRITY: u16 = 0x0008;
pub const ATTR_ERROR_CODE: u16 = 0x0009;
pub const ATTR_LIFETIME: u16 = 0x000D;
pub const ATTR_REALM: u16 = 0x0014;
pub const ATTR_NONCE: u16 = 0x0015;
pub const ATTR_EVEN_PORT: u16 = 0x0018;

/// Errors of the codec and of the attributes built on it.
#[derive(Debug, Clone, Copy, PartialEq, Eq, Structural)]
pub enum StunError {
    /// The requested attribute is not in the message.
    AttributeNotFound,
    /// The attribute is present but its payload has the wrong length.
    AttributeSizeInvalid,
    /// A text attribute is longer than its type allows.
    AttributeSizeOverflow,
    /// Appending the attribute would overflow the 16-bit length fields.
    MessageTooLarge,
    /// Fewer bytes than a header.
    UnexpectedHeaderEof,
    /// The magic cookie of the header is wrong.
    InvalidMagicCookie,
    /// The header's length field disagrees with the number of bytes.
    BufferSizeMismatch,
    /// An attribute runs past the end of the message.
    UnexpectedAttributeEof,
}

/// Big-endian form of a 16-bit value.
pub open spec fn be16(x: u16) -> Seq<u8> {
    seq![(x / 256) as u8, (x % 256) as u8]
}

/// Big-endian form of a 32-bit value.
pub open spec fn be32(x: u32) -> Seq<u8> {
    seq![(x / 0x1000000) as u8, ((x / 0x10000) % 256) as u8, ((x / 256) % 256) as u8, (x % 256) as u8]
}

/// The value of four big-endian bytes.
pub open spec fn be32_value(b: Seq<u8>) -> nat {
    b[0] as nat * 0x1000000 + b[1] as nat * 0x10000 + b[2] as nat * 256 + b[3] as nat
}

/// Reading back four big-endian bytes gives the value written.
pub proof fn lemma_be32_round_trip(x: u32)
    ensures
        be32(x).len() == 4,
        be32_value(be32(x)) == x,
{
    let b = be32(x);
    assert(b[0] as nat == x / 0x1000000);
    assert(b[1] as nat == (x / 0x10000) % 256);
    assert(b[2] as nat == (x / 256) % 256);
    assert(b[3] as nat == x % 256);
    assert((x / 0x1000000) * 0x1000000 + ((x / 0x10000) % 256) * 0x10000 + ((x / 256) % 256) * 256 + x % 256 == x)
        by (nonlinear_arith);
}

/// The big-endian bytes of `x`.
pub fn encode_be32(x: u32) -> (r: Vec<u8>)
    ensures
        r@ == be32(x),
{
    let mut r: Vec<u8> = Vec::new();
    r.push((x / 0x1000000) as u8);
    r.push(((x / 0x10000) % 256) as u8);
    r.push(((x / 256) % 256) as u8);
    r.push((x % 256) as u8);
    assert(r@ =~= be32(x));
    r
}

/// The value of the big-endian bytes `b`.
pub fn decode_be32(b: &[u8]) -> (r: u32)
    requires
        b@.len() == 4,
    ensures
        r == be32_value(b@),
{
    (b[0] as u32) * 0x1000000 + (b[1] as u32) * 0x10000 + (b[2] as u32) * 256 + (b[3] as u32)
}

/// The 16-bit value of two big-endian bytes.
pub open spec fn be16_value(b0: u8, b1: u8) -> nat {
    b0 as nat * 256 + b1 as nat
}

/// Number of zero bytes that bring `len` up to a multiple of four.
pub open spec fn padding(len: nat) -> nat {
    ((4 - (len % 4) as int) % 4) as nat
}

pub open spec fn zeros(n: nat) -> Seq<u8> {
    Seq::new(n, |i: int| 0u8)
}

/// One attribute on the wire: type, payload length, payload, zero padding.
pub open spec fn encode_attr(a: (u16, Seq<u8>)) -> Seq<u8> {
    be16(a.0) + be16(a.1.len() as u16) + a.1 + zeros(padding(a.1.len()))
}

/// A sequence of attributes on the wire, in order.
pub open spec fn encode_attrs(s: Seq<(u16, Seq<u8>)>) -> Seq<u8>
    decreases s.len(),
{
    if s.len() == 0 {
        Seq::empty()
    } else {
        encode_attrs(s.drop_last()) + encode_attr(s.last())
    }
}

/// The attributes that a message body holds, or `None` where one runs past the end.
pub open spec fn parse_attrs(b: Seq<u8>) -> Option<Seq<(u16, Seq<u8>)>>
    decreases b.len(),
{
    if b.len() == 0 {
        Some(Seq::empty())
    } else if b.len() < 4 {
        None
    } else {
        let t = be16_value(b[0], b[1]);
        let l = be16_value(b[2], b[3]);
        let end = 4 + l + padding(l);
        if b.len() < end {
            None
        } else {
            match parse_attrs(b.subrange(end as int, b.len() as int)) {
                Some(rest) => Some(seq![(t as u16, b.subrange(4, 4 + l as int))] + rest),
                None => None,
            }
        }
    }
}

/// The payload of the first attribute of type `t`.
pub open spec fn find_attr(s: Seq<(u16, Seq<u8>)>, t: u16) -> Option<Seq<u8>>
    decreases s.len(),
{
    if s.len() == 0 {
        None
    } else if s[0].0 == t {
        Some(s[0].1)
    } else {
        find_attr(s.drop_first(), t)
    }
}

/// The header bytes: type, body length, magic cookie, transaction id.
pub open spec fn header(typ: u16, len: u16, tid: Seq<u8>) -> Seq<u8> {
    be16(typ) + be16(len) + seq![0x21u8, 0x12u8, 0xA4u8, 0x42u8] + tid
}

/// A message read from bytes: its type, transaction id and attributes.
pub open spec fn decode_message(b: Seq<u8>) -> Result<(u16, Seq<u8>, Seq<(u16, Seq<u8>)>), StunError> {
    if b.len() < MESSAGE_HEADER_SIZE {
        Err(StunError::UnexpectedHeaderEof)
    } else if !(b[4] == 0x21 && b[5] == 0x12 && b[6] == 0xA4 && b[7] == 0x42) {
        Err(StunError::InvalidMagicCookie)
    } else if b.len() != MESSAGE_HEADER_SIZE + be16_value(b[2], b[3]) {
        Err(StunError::BufferSizeMismatch)
    } else {
        match parse_attrs(b.subrange(MESSAGE_HEADER_SIZE as int, b.len() as int)) {
            Some(a) => Ok((be16_value(b[0], b[1]) as u16, b.subrange(8, 20), a)),
            None => Err(StunError::UnexpectedAttributeEof),
        }
    }
}

/// One attribute as held by a message.
#[derive(Debug)]
pub struct RawAttribute {
    pub typ: u16,
    pub value: Vec<u8>,
}

impl View for RawAttribute {
    type V = (u16, Seq<u8>);

    open spec fn view(&self) -> (u16, Seq<u8>) {
        (self.typ, self.value@)
    }
}

/// A STUN message: its header fields, its attribute table and its wire bytes.
///
/// Attributes are appended to `raw` as they are added; `write_header` then
/// writes the header over the first twenty bytes.
#[derive(Debug)]
pub struct Message {
    pub typ: u16,
    pub transaction_id: Vec<u8>,
    pub attributes: Vec<RawAttribute>,
    pub raw: Vec<u8>,
}

/// A copy of the bytes of `b` from `lo` up to `hi`.
pub fn copy_range(b: &[u8], lo: usize, hi: usize) -> (r: Vec<u8>)
    requires
        lo <= hi <= b@.len(),
    ensures
        r@ == b@.subrange(lo as int, hi as int),
{
    let mut r: Vec<u8> = Vec::new();
    let mut i: usize = lo;
    while i < hi
        invariant
            lo <= i <= hi <= b@.len(),
            r@ == b@.subrange(lo as int, i as int),
        decreases hi - i,
    {
        r.push(b[i]);
        i = i + 1;
        assert(r@ =~= b@.subrange(lo as int, i as int));
    }
    r
}

/// Zero bytes that bring `len` up to a multiple of four.
pub fn padding_of(len: usize) -> (r: usize)
    ensures
        r == padding(len as nat),
        r <= 3,
{
    (4 - len % 4) % 4
}

fn push_be16(v: &mut Vec<u8>, x: u16)
    ensures
        final(v)@ == old(v)@ + be16(x),
{
    v.push((x / 256) as u8);
    v.push((x % 256) as u8);
    assert(final(v)@ =~= old(v)@ + be16(x));
}

/// `prefix` followed by what `rest` holds, if it holds anything.
pub open spec fn prepend(prefix: Seq<(u16, Seq<u8>)>, rest: Option<Seq<(u16, Seq<u8>)>>) -> Option<Seq<(u16, Seq<u8>)>> {
    match rest {
        Some(r) => Some(prefix + r),
        None => None,
    }
}

proof fn lemma_find_attr_skip(s: Seq<(u16, Seq<u8>)>, i: int, t: u16)
    requires
        0 <= i < s.len(),
        s[i].0 != t,
    ensures
        find_attr(s.subrange(i, s.len() as int), t) == find_attr(s.subrange(i + 1, s.len() as int), t),
{
    assert(s.subrange(i, s.len() as int).drop_first() =~= s.subrange(i + 1, s.len() as int));
}

/// Adding an attribute of a type that the table lacks makes it the one found.
pub proof fn lemma_find_attr_push_absent(s: Seq<(u16, Seq<u8>)>, a: (u16, Seq<u8>))
    requires
        find_attr(s, a.0) is None,
    ensures
        find_attr(s.push(a), a.0) == Some(a.1),
    decreases s.len(),
{
    if s.len() > 0 {
        assert(s.push(a).drop_first() =~= s.drop_first().push(a));
        lemma_find_attr_push_absent(s.drop_first(), a);
    }
}

/// Every payload fits the 16-bit length field.
pub open spec fn attrs_fit(s: Seq<(u16, Seq<u8>)>) -> bool {
    forall|i: int| 0 <= i < s.len() ==> #[trigger] s[i].1.len() <= MAX_BODY_SIZE
}

proof fn lemma_be16_round_trip(x: u16)
    ensures
        be16_value(be16(x)[0], be16(x)[1]) == x,
{
    assert((x / 256) * 256 + x % 256 == x) by (nonlinear_arith);
}

proof fn lemma_encode_attrs_prepend(a: (u16, Seq<u8>), s: Seq<(u16, Seq<u8>)>)
    ensures
        encode_attrs(seq![a] + s) == encode_attr(a) + encode_attrs(s),
    decreases s.len(),
{
    let whole = seq![a] + s;
    if s.len() == 0 {
        assert(whole.drop_last() =~= Seq::<(u16, Seq<u8>)>::empty());
        assert(whole.last() == a);
        assert(encode_attrs(whole) == encode_attrs(whole.drop_last()) + encode_attr(a));
        assert(encode_attrs(Seq::<(u16, Seq<u8>)>::empty()) == Seq::<u8>::empty());
        assert(encode_attr(a) + encode_attrs(s) =~= encode_attr(a));
        assert(Seq::<u8>::empty() + encode_attr(a) =~= encode_attr(a));
    } else {
        assert(whole.drop_last() =~= seq![a] + s.drop_last());
        assert(whole.last() == s.last());
        assert(encode_attrs(whole) == encode_attrs(whole.drop_last()) + encode_attr(whole.last()));
        assert(encode_attrs(s) == encode_attrs(s.drop_last()) + encode_attr(s.last()));
        lemma_encode_attrs_prepend(a, s.drop_last());
        assert(encode_attr(a) + encode_attrs(s.drop_last()) + encode_attr(s.last()) =~= encode_attr(a) + (
        encode_attrs(s.drop_last()) + encode_attr(s.last())));
    }
}

proof fn lemma_parse_one(a: (u16, Seq<u8>), rest: Seq<u8>)
    requires
        a.1.len() <= MAX_BODY_SIZE,
    ensures
        parse_attrs(encode_attr(a) + rest) == prepend(seq![a], parse_attrs(rest)),
{
    let e = encode_attr(a);
    let b = e + rest;
    let l = a.1.len();
    lemma_be16_round_trip(a.0);
    lemma_be16_round_trip(l as u16);
    assert(b[0] == be16(a.0)[0] && b[1] == be16(a.0)[1]);
    assert(b[2] == be16(l as u16)[0] && b[3] == be16(l as u16)[1]);
    assert(e.len() == 4 + l + padding(l));
    assert(b.subrange(4, 4 + l as int) =~= a.1);
    assert(b.subrange(e.len() as int, b.len() as int) =~= rest);
    match parse_attrs(rest) {
        Some(r) => {
            assert(seq![(be16_value(b[0], b[1]) as u16, b.subrange(4, 4 + l as int))] =~= seq![a]);
        },
        None => {},
    }
}

/// Parsing the wire form of an attribute table gives the table back.
pub proof fn lemma_parse_encode(s: Seq<(u16, Seq<u8>)>)
    requires
        attrs_fit(s),
    ensures
        parse_attrs(encode_attrs(s)) == Some(s),
    decreases s.len(),
{
    if s.len() == 0 {
        assert(parse_attrs(Seq::<u8>::empty()) == Some(Seq::<(u16, Seq<u8>)>::empty()));
    } else {
        let a = s[0];
        let t = s.drop_first();
        assert(s =~= seq![a] + t);
        assert(attrs_fit(t)) by {
            assert forall|i: int| 0 <= i < t.len() implies #[trigger] t[i].1.len() <= MAX_BODY_SIZE by {
                assert(t[i] == s[i + 1]);
            }
        }
        assert(a.1.len() <= MAX_BODY_SIZE);
        lemma_encode_attrs_prepend(a, t);
        lemma_parse_encode(t);
        lemma_parse_one(a, encode_attrs(t));
    }
}

/// Reading a message whose header has been written over an encoded table gives
/// back its type, transaction id and attributes.
pub proof fn lemma_decode_message_encoded(typ: u16, tid: Seq<u8>, s: Seq<(u16, Seq<u8>)>)
    requires
        tid.len() == TRANSACTION_ID_SIZE,
        attrs_fit(s),
        encode_attrs(s).len() <= MAX_BODY_SIZE,
    ensures
        decode_message(header(typ, encode_attrs(s).len() as u16, tid) + encode_attrs(s)) == Ok::<
            (u16, Seq<u8>, Seq<(u16, Seq<u8>)>),
            StunError,
        >((typ, tid, s)),
{
    let body = encode_attrs(s);
    let len = body.len() as u16;
    let b = header(typ, len, tid) + body;
    lemma_be16_round_trip(typ);
    lemma_be16_round_trip(len);
    lemma_parse_encode(s);
    assert(b[0] == be16(typ)[0] && b[1] == be16(typ)[1]);
    assert(b[2] == be16(len)[0] && b[3] == be16(len)[1]);
    assert(b[4] == 0x21 && b[5] == 0x12 && b[6] == 0xA4 && b[7] == 0x42);
    assert(b.subrange(MESSAGE_HEADER_SIZE as int, b.len() as int) =~= body);
    assert(b.subrange(8, 20) =~= tid);
}

proof fn lemma_encode_attrs_push(s: Seq<(u16, Seq<u8>)>, a: (u16, Seq<u8>))
    ensures
        encode_attrs(s.push(a)) == encode_attrs(s) + encode_attr(a),
{
    assert(s.push(a).drop_last() =~= s);
}

impl Message {
    /// The attribute table as type and payload pairs.
    pub open spec fn attrs(&self) -> Seq<(u16, Seq<u8>)> {
        self.attributes@.map_values(|a: RawAttribute| a@)
    }

    /// Lengths fit the wire format: a header, a 16-bit body, a 12-byte transaction id.
    pub open spec fn wf(&self) -> bool {
        &&& MESSAGE_HEADER_SIZE <= self.raw@.len() <= MESSAGE_HEADER_SIZE + MAX_BODY_SIZE
        &&& self.transaction_id@.len() == TRANSACTION_ID_SIZE
    }

    /// The bytes after the header.
    pub open spec fn body(&self) -> Seq<u8> {
        self.raw@.subrange(MESSAGE_HEADER_SIZE as int, self.raw@.len() as int)
    }

    /// `raw` holds the encoded attribute table after the header.
    pub open spec fn body_encoded(&self) -> bool {
        self.body() == encode_attrs(self.attrs())
    }

    /// An empty message: type 0, zero transaction id, no attributes.
    pub fn new() -> (m: Message)
        ensures
            m.wf(),
            m.body_encoded(),
            m.typ == 0,
            m.transaction_id@ == zeros(TRANSACTION_ID_SIZE as nat),
            m.attrs() == Seq::<(u16, Seq<u8>)>::empty(),
            m.raw@ == zeros(MESSAGE_HEADER_SIZE as nat),
    {
        let mut raw: Vec<u8> = Vec::new();
        let mut i: usize = 0;
        while i < MESSAGE_HEADER_SIZE
            invariant
                i <= MESSAGE_HEADER_SIZE,
                raw@ == zeros(i as nat),
            decreases MESSAGE_HEADER_SIZE - i,
        {
            raw.push(0u8);
            i = i + 1;
            assert(raw@ =~= zeros(i as nat));
        }
        let mut tid: Vec<u8> = Vec::new();
        let mut j: usize = 0;
        while j < TRANSACTION_ID_SIZE
            invariant
                j <= TRANSACTION_ID_SIZE,
                tid@ == zeros(j as nat),
            decreases TRANSACTION_ID_SIZE - j,
        {
            tid.push(0u8);
            j = j + 1;
            assert(tid@ =~= zeros(j as nat));
        }
        let m = Message { typ: 0, transaction_id: tid, attributes: Vec::new(), raw };
        assert(m.attrs() =~= Seq::<(u16, Seq<u8>)>::empty());
        assert(m.body() =~= Seq::<u8>::empty());
        m
    }

    /// Appends attribute `t` with payload `v`: to the table, and to the wire bytes
    /// as type, length, payload and zero padding. Fails, changing nothing, where
    /// the body would no longer fit the 16-bit length field.
    pub fn add(&mut self, t: u16, v: &[u8]) -> (r: Result<(), StunError>)
        requires
            old(self).wf(),
        ensures
            final(self).wf(),
            r.is_err() <==> old(self).raw@.len() + 4 + v@.len() + padding(v@.len())
                > MESSAGE_HEADER_SIZE + MAX_BODY_SIZE,
            r.is_err() ==> r == Err::<(), StunError>(StunError::MessageTooLarge) && *final(self) == *old(self),
            r.is_ok() ==> {
                &&& final(self).attrs() == old(self).attrs().push((t, v@))
                &&& final(self).raw@ == old(self).raw@ + encode_attr((t, v@))
                &&& final(self).typ == old(self).typ
                &&& final(self).transaction_id@ == old(self).transaction_id@
                &&& (old(self).body_encoded() ==> final(self).body_encoded())
            },
    {
        if v.len() > MAX_BODY_SIZE {
            return Err(StunError::MessageTooLarge);
        }
        let pad = padding_of(v.len());
        if self.raw.len() + 4 + v.len() + pad > MESSAGE_HEADER_SIZE + MAX_BODY_SIZE {
            return Err(StunError::MessageTooLarge);
        }
        let ghost old_raw = self.raw@;
        let ghost old_attrs = self.attrs();
        let ghost old_body = self.body();
        push_be16(&mut self.raw, t);
        push_be16(&mut self.raw, v.len() as u16);
        let mut i: usize = 0;
        while i < v.len()
            invariant
                i <= v@.len(),
                self.raw@ == old_raw + be16(t) + be16(v@.len() as u16) + v@.subrange(0, i as int),
                self.attributes@ == old(self).attributes@,
                self.typ == old(self).typ,
                self.transaction_id@ == old(self).transaction_id@,
            decreases v@.len() - i,
        {
            self.raw.push(v[i]);
            i = i + 1;
            assert(self.raw@ =~= old_raw + be16(t) + be16(v@.len() as u16) + v@.subrange(0, i as int));
        }
        let mut j: usize = 0;
        while j < pad
            invariant
                j <= pad,
                pad == padding(v@.len()),
                self.raw@ == old_raw + be16(t) + be16(v@.len() as u16) + v@ + zeros(j as nat),
                self.attributes@ == old(self).attributes@,
                self.typ == old(self).typ,
                self.transaction_id@ == old(self).transaction_id@,
            decreases pad - j,
        {
            self.raw.push(0u8);
            j = j + 1;
            assert(self.raw@ =~= old_raw + be16(t) + be16(v@.len() as u16) + v@ + zeros(j as nat));
        }
        assert(self.raw@ =~= old_raw + encode_attr((t, v@)));
        let value = copy_range(v, 0, v.len());
        assert(value@ =~= v@);
        let ghost old_list = self.attributes@;
        self.attributes.push(RawAttribute { typ: t, value });
        assert(self.attributes@ == old_list.push(RawAttribute { typ: t, value }));
        assert(self.attrs().len() == old_attrs.len() + 1);
        assert forall|k: int| 0 <= k < self.attrs().len() implies #[trigger] self.attrs()[k] == old_attrs.push(
            (t, v@),
        )[k] by {
            if k < old_attrs.len() {
                assert(self.attributes@[k] == old_list[k]);
            }
        }
        assert(self.attrs() =~= old_attrs.push((t, v@)));
        proof {
            lemma_encode_attrs_push(old_attrs, (t, v@));
            assert(self.body() =~= old_body + encode_attr((t, v@)));
        }
        Ok(())
    }

    /// The payload of the first attribute of type `t`.
    pub fn get(&self, t: u16) -> (r: Result<Vec<u8>, StunError>)
        ensures
            match find_attr(self.attrs(), t) {
                Some(p) => r.is_ok() && r.unwrap()@ == p,
                None => r == Err::<Vec<u8>, StunError>(StunError::AttributeNotFound),
            },
    {
        let mut i: usize = 0;
        assert(self.attrs().subrange(0, self.attrs().len() as int) =~= self.attrs());
        while i < self.attributes.len()
            invariant
                i <= self.attributes@.len(),
                find_attr(self.attrs(), t) == find_attr(self.attrs().subrange(i as int, self.attrs().len() as int), t),
            decreases self.attributes@.len() - i,
        {
            if self.attributes[i].typ == t {
                proof {
                    let s = self.attrs().subrange(i as int, self.attrs().len() as int);
                    assert(s[0] == self.attrs()[i as int]);
                }
                let v = &self.attributes[i].value;
                let p = copy_range(v.as_slice(), 0, v.len());
                assert(p@ =~= v@);
                return Ok(p);
            }
            proof {
                lemma_find_attr_skip(self.attrs(), i as int, t);
            }
            i = i + 1;
        }
        Err(StunError::AttributeNotFound)
    }

    /// Writes the header (type, body length, magic cookie, transaction id) over
    /// the first twenty bytes; the attributes already appended stay as they are.
    pub fn write_header(&mut self)
        requires
            old(self).wf(),
        ensures
            final(self).wf(),
            final(self).raw@ == header(old(self).typ, old(self).body().len() as u16, old(self).transaction_id@)
                + old(self).body(),
            final(self).typ == old(self).typ,
            final(self).transaction_id@ == old(self).transaction_id@,
            final(self).attributes@ == old(self).attributes@,
    {
        let mut raw: Vec<u8> = Vec::new();
        let body_len = (self.raw.len() - MESSAGE_HEADER_SIZE) as u16;
        push_be16(&mut raw, self.typ);
        push_be16(&mut raw, body_len);
        raw.push(0x21u8);
        raw.push(0x12u8);
        raw.push(0xA4u8);
        raw.push(0x42u8);
        let ghost head = header(self.typ, body_len, self.transaction_id@);
        let mut i: usize = 0;
        while i < TRANSACTION_ID_SIZE
            invariant
                i <= TRANSACTION_ID_SIZE,
                self.transaction_id@.len() == TRANSACTION_ID_SIZE,
                raw@ == be16(self.typ) + be16(body_len) + seq![0x21u8, 0x12u8, 0xA4u8, 0x42u8]
                    + self.transaction_id@.subrange(0, i as int),
            decreases TRANSACTION_ID_SIZE - i,
        {
            raw.push(self.transaction_id[i]);
            i = i + 1;
            assert(raw@ =~= be16(self.typ) + be16(body_len) + seq![0x21u8, 0x12u8, 0xA4u8, 0x42u8]
                + self.transaction_id@.subrange(0, i as int));
        }
        assert(raw@ =~= head);
        let mut k: usize = MESSAGE_HEADER_SIZE;
        while k < self.raw.len()
            invariant
                MESSAGE_HEADER_SIZE <= k <= self.raw@.len(),
                raw@ == head + self.raw@.subrange(MESSAGE_HEADER_SIZE as int, k as int),
            decreases self.raw@.len() - k,
        {
            raw.push(self.raw[k]);
            k = k + 1;
            assert(raw@ =~= head + self.raw@.subrange(MESSAGE_HEADER_SIZE as int, k as int));
        }
        self.raw = raw;
    }

    /// Reads a message from wire bytes: header, then attributes until the end.
    /// On failure the message is left as it was.
    pub fn write(&mut self, b: &[u8]) -> (r: Result<(), StunError>)
        requires
            old(self).wf(),
        ensures
            match decode_message(b@) {
                Ok((typ, tid, attrs)) => {
                    &&& r.is_ok()
                    &&& final(self).wf()
                    &&& final(self).typ == typ
                    &&& final(self).transaction_id@ == tid
                    &&& final(self).attrs() == attrs
                    &&& final(self).raw@ == b@
                },
                Err(e) => r == Err::<(), StunError>(e) && *final(self) == *old(self),
            },
    {
        let n = b.len();
        if n < MESSAGE_HEADER_SIZE {
            return Err(StunError::UnexpectedHeaderEof);
        }
        if !(b[4] == 0x21 && b[5] == 0x12 && b[6] == 0xA4 && b[7] == 0x42) {
            return Err(StunError::InvalidMagicCookie);
        }
        let body_len = (b[2] as usize) * 256 + (b[3] as usize);
        if n != MESSAGE_HEADER_SIZE + body_len {
            return Err(StunError::BufferSizeMismatch);
        }
        let ghost body = b@.subrange(MESSAGE_HEADER_SIZE as int, n as int);
        let mut attributes: Vec<RawAttribute> = Vec::new();
        let mut off: usize = MESSAGE_HEADER_SIZE;
        assert(b@.subrange(off as int, n as int) =~= body);
        while off < n
            invariant
                n == b@.len(),
                MESSAGE_HEADER_SIZE <= off <= n,
                body == b@.subrange(MESSAGE_HEADER_SIZE as int, n as int),
                decode_message(b@) == match parse_attrs(body) {
                    Some(a) => Ok((be16_value(b@[0], b@[1]) as u16, b@.subrange(8, 20), a)),
                    None => Err(StunError::UnexpectedAttributeEof),
                },
                parse_attrs(body) == prepend(
                    attributes@.map_values(|a: RawAttribute| a@),
                    parse_attrs(b@.subrange(off as int, n as int)),
                ),
            decreases n - off,
        {
            let ghost rest = b@.subrange(off as int, n as int);
            let ghost acc = attributes@.map_values(|a: RawAttribute| a@);
            if n - off < 4 {
                assert(parse_attrs(rest) is None);
                assert(parse_attrs(body) is None);
                return Err(StunError::UnexpectedAttributeEof);
            }
            let t = (b[off] as u16) * 256 + (b[off + 1] as u16);
            let l = (b[off + 2] as usize) * 256 + (b[off + 3] as usize);
            let pad = padding_of(l);
            assert(rest[0] == b@[off as int] && rest[1] == b@[off + 1] && rest[2] == b@[off + 2] && rest[3]
                == b@[off + 3]);
            if n - off < 4 + l + pad {
                assert(be16_value(rest[2], rest[3]) == l);
                assert(parse_attrs(rest) is None);
                assert(parse_attrs(body) is None);
                return Err(StunError::UnexpectedAttributeEof);
            }
            let value = copy_range(b, off + 4, off + 4 + l);
            let ghost item = (t, value@);
            let ghost old_list = attributes@;
            attributes.push(RawAttribute { typ: t, value });
            let next = off + 4 + l + pad;
            proof {
                assert(rest.subrange(4, 4 + l as int) =~= value@);
                assert(rest.subrange((4 + l + pad) as int, rest.len() as int) =~= b@.subrange(next as int, n as int));
                let acc2 = attributes@.map_values(|a: RawAttribute| a@);
                assert(acc2 =~= acc.push(item)) by {
                    assert(attributes@ == old_list.push(RawAttribute { typ: t, value }));
                    assert forall|k: int| 0 <= k < acc2.len() implies #[trigger] acc2[k] == acc.push(item)[k] by {
                        if k < acc.len() {
                            assert(attributes@[k] == old_list[k]);
                        }
                    }
                }
                match parse_attrs(b@.subrange(next as int, n as int)) {
                    Some(r2) => {
                        assert(acc + (seq![item] + r2) =~= acc2 + r2);
                    },
                    None => {},
                }
            }
            off = next;
        }
        proof {
            assert(b@.subrange(n as int, n as int) =~= Seq::<u8>::empty());
            assert(attributes@.map_values(|a: RawAttribute| a@) + Seq::<(u16, Seq<u8>)>::empty()
                =~= attributes@.map_values(|a: RawAttribute| a@));
        }
        let tid = copy_range(b, 8, MESSAGE_HEADER_SIZE);
        let raw = copy_range(b, 0, n);
        assert(raw@ =~= b@);
        self.typ = (b[0] as u16) * 256 + (b[1] as u16);
        self.transaction_id = tid;
        self.attributes = attributes;
        self.raw = raw;
        Ok(())
    }
}

} // verus!
