//! Enclave attributes: the attribute flags and the extended-state request
//! mask (XFRM), packed into one sixteen-byte structure.
use vstd::prelude::*;

verus! {

/// Enclave has been initialized by EINIT.
pub const INIT: u64 = 0x1;
/// A debugger may read and write enclave data.
pub const DEBUG: u64 = 0x2;
/// Enclave runs in 64-bit mode.
pub const BIT64: u64 = 0x4;
/// Provisioning key is available from EGETKEY.
pub const PROV_KEY: u64 = 0x10;
/// EINIT token key is available from EGETKEY.
pub const EINIT_KEY: u64 = 0x20;
/// Control-flow enforcement attributes are enabled.
pub const CET: u64 = 0x40;
/// Key separation and sharing are enabled.
pub const KSS: u64 = 0x80;
/// Every defined attribute flag.
pub const FLAGS_ALL: u64 = 0xf7;

/// x87 FPU/MMX state; must be set.
pub const X87: u64 = 0x1;
/// MXCSR and XMM registers.
pub const SSE: u64 = 0x2;
/// YMM registers.
pub const AVX: u64 = 0x4;
/// MPX bound registers.
pub const BNDREG: u64 = 0x8;
/// MPX BNDCFGU and BNDSTATUS registers.
pub const BNDCSR: u64 = 0x10;
/// AVX-512 opmask registers.
pub const OPMASK: u64 = 0x20;
/// Upper halves of the lower ZMM registers.
pub const ZMM_HI256: u64 = 0x40;
/// The upper ZMM registers.
pub const HI16_ZMM: u64 = 0x80;
/// The PKRU register of the protection-keys mechanism.
pub const PKRU: u64 = 0x200;
/// Control-flow enforcement user state.
pub const CETU: u64 = 0x800;
/// Control-flow enforcement supervisor state.
pub const CETS: u64 = 0x1000;
/// Every defined extended-state bit.
pub const XFRM_ALL: u64 = 0x1aff;

/// Size in bytes of the packed attributes structure.
pub const ATTRIBUTES_SIZE: usize = 16;
/// Alignment in bytes of the packed attributes structure.
pub const ATTRIBUTES_ALIGN: usize = 4;
/// Byte offset of the flags field.
pub const FLAGS_OFFSET: usize = 0;
/// Byte offset of the extended-state field.
pub const XFRM_OFFSET: usize = 8;

/// The complement of `x` within the bits of `all`.
pub open spec fn mask_not(x: u64, all: u64) -> u64 {
    !x & all
}

/// A set of attribute flags: only bits of `FLAGS_ALL` may be set.
#[derive(Clone, Copy, Debug, PartialEq, Eq, Structural)]
pub struct Flags {
    bits: u64,
}

impl View for Flags {
    type V = u64;

    closed spec fn view(&self) -> u64 {
        self.bits
    }
}

impl Flags {
    #[verifier::type_invariant]
    spec fn inv(&self) -> bool {
        self.bits & !FLAGS_ALL == 0
    }

    /// Holds of every value of this type.
    pub open spec fn wf(&self) -> bool {
        self@ & !FLAGS_ALL == 0
    }

    /// The set holding exactly `bits`, or `None` when an undefined bit is set.
    pub fn new(bits: u64) -> (r: Option<Flags>)
        ensures
            r is Some <==> bits & !FLAGS_ALL == 0,
            r matches Some(f) ==> f@ == bits,
    {
        if bits & !FLAGS_ALL == 0 {
            Some(Flags { bits })
        } else {
            None
        }
    }

    /// The set of the defined bits of `bits`; the others are dropped.
    pub fn new_truncated(bits: u64) -> (r: Flags)
        ensures
            r@ == bits & FLAGS_ALL,
    {
        assert(bits & FLAGS_ALL & !FLAGS_ALL == 0) by (bit_vector);
        Flags { bits: bits & FLAGS_ALL }
    }

    /// The bits of this set.
    pub fn bits(&self) -> (r: u64)
        ensures
            r == self@,
            r & !FLAGS_ALL == 0,
    {
        proof { use_type_invariant(self); }
        self.bits
    }
}

impl Default for Flags {
    /// Only the 64-bit mode flag.
    fn default() -> (r: Flags)
        ensures
            r@ == BIT64,
    {
        assert(BIT64 & !FLAGS_ALL == 0) by (bit_vector);
        Flags { bits: BIT64 }
    }
}

/// A set of extended-state bits: only bits of `XFRM_ALL` may be set.
#[derive(Clone, Copy, Debug, PartialEq, Eq, Structural)]
pub struct Xfrm {
    bits: u64,
}

impl View for Xfrm {
    type V = u64;

    closed spec fn view(&self) -> u64 {
        self.bits
    }
}

impl Xfrm {
    #[verifier::type_invariant]
    spec fn inv(&self) -> bool {
        self.bits & !XFRM_ALL == 0
    }

    /// Holds of every value of this type.
    pub open spec fn wf(&self) -> bool {
        self@ & !XFRM_ALL == 0
    }

    /// The set holding exactly `bits`, or `None` when an undefined bit is set.
    pub fn new(bits: u64) -> (r: Option<Xfrm>)
        ensures
            r is Some <==> bits & !XFRM_ALL == 0,
            r matches Some(x) ==> x@ == bits,
    {
        if bits & !XFRM_ALL == 0 {
            Some(Xfrm { bits })
        } else {
            None
        }
    }

    /// The set of the defined bits of `bits`; the others are dropped.
    pub fn new_truncated(bits: u64) -> (r: Xfrm)
        ensures
            r@ == bits & XFRM_ALL,
    {
        assert(bits & XFRM_ALL & !XFRM_ALL == 0) by (bit_vector);
        Xfrm { bits: bits & XFRM_ALL }
    }

    /// The bits of this set.
    pub fn bits(&self) -> (r: u64)
        ensures
            r == self@,
            r & !XFRM_ALL == 0,
    {
        proof { use_type_invariant(self); }
        self.bits
    }
}

/// The extended-state mask as carried in the attributes structure.
#[derive(Clone, Copy, Debug, PartialEq, Eq, Structural)]
pub struct XfrmWrapper(pub Xfrm);

impl Default for XfrmWrapper {
    /// The x87 and SSE state, the least that the hardware requires.
    fn default() -> (r: XfrmWrapper)
        ensures
            r.0@ == X87 | SSE,
    {
        assert((X87 | SSE) & !XFRM_ALL == 0) by (bit_vector);
        XfrmWrapper(Xfrm { bits: X87 | SSE })
    }
}

/// The little-endian bytes of `x`.
pub open spec fn le_bytes(x: u64) -> Seq<u8> {
    seq![
        x as u8,
        (x >> 8u64) as u8,
        (x >> 16u64) as u8,
        (x >> 24u64) as u8,
        (x >> 32u64) as u8,
        (x >> 40u64) as u8,
        (x >> 48u64) as u8,
        (x >> 56u64) as u8,
    ]
}

/// The integer whose little-endian bytes are the eight bytes of `b` from `at`.
pub open spec fn from_le(b: Seq<u8>, at: int) -> u64 {
    b[at] as u64 | (b[at + 1] as u64) << 8u64 | (b[at + 2] as u64) << 16u64 | (b[at + 3] as u64)
        << 24u64 | (b[at + 4] as u64) << 32u64 | (b[at + 5] as u64) << 40u64 | (b[at + 6] as u64)
        << 48u64 | (b[at + 7] as u64) << 56u64
}

/// The attribute pair as it is laid out in memory: the flags at
/// `FLAGS_OFFSET`, the extended-state mask at `XFRM_OFFSET`.
pub open spec fn encode_attributes(v: (u64, u64)) -> Seq<u8> {
    le_bytes(v.0) + le_bytes(v.1)
}

/// The attribute pair laid out in `b`, if `b` has the structure's size and
/// sets only defined bits.
pub open spec fn decode_attributes(b: Seq<u8>) -> Option<(u64, u64)> {
    if b.len() == ATTRIBUTES_SIZE && from_le(b, FLAGS_OFFSET as int) & !FLAGS_ALL == 0
        && from_le(b, XFRM_OFFSET as int) & !XFRM_ALL == 0 {
        Some((from_le(b, FLAGS_OFFSET as int), from_le(b, XFRM_OFFSET as int)))
    } else {
        None
    }
}

/// Componentwise complement within the defined bits.
pub open spec fn attr_not(a: (u64, u64)) -> (u64, u64) {
    (mask_not(a.0, FLAGS_ALL), mask_not(a.1, XFRM_ALL))
}

/// Componentwise intersection.
pub open spec fn attr_and(a: (u64, u64), b: (u64, u64)) -> (u64, u64) {
    (a.0 & b.0, a.1 & b.1)
}

/// Componentwise union.
pub open spec fn attr_or(a: (u64, u64), b: (u64, u64)) -> (u64, u64) {
    (a.0 | b.0, a.1 | b.1)
}

/// Componentwise symmetric difference.
pub open spec fn attr_xor(a: (u64, u64), b: (u64, u64)) -> (u64, u64) {
    (a.0 ^ b.0, a.1 ^ b.1)
}

/// The default attributes: 64-bit mode, with x87 and SSE state.
pub open spec fn default_attributes() -> (u64, u64) {
    (BIT64, X87 | SSE)
}

/// The attributes of an enclave: its flags and its extended-state mask.
#[derive(Clone, Copy, Debug, PartialEq, Eq, Structural)]
pub struct Attributes {
    flags: Flags,
    xfrm: XfrmWrapper,
}

impl View for Attributes {
    type V = (u64, u64);

    closed spec fn view(&self) -> (u64, u64) {
        (self.flags@, self.xfrm.0@)
    }
}

impl Default for Attributes {
    /// 64-bit mode, with x87 and SSE state.
    fn default() -> (r: Attributes)
        ensures
            r@ == default_attributes(),
    {
        Attributes { flags: Flags::default(), xfrm: XfrmWrapper::default() }
    }
}

impl Attributes {
    /// Holds of every value of this type.
    pub open spec fn wf(&self) -> bool {
        self@.0 & !FLAGS_ALL == 0 && self@.1 & !XFRM_ALL == 0
    }

    /// The attributes made of `flags` and `xfrm`.
    pub fn new(flags: Flags, xfrm: XfrmWrapper) -> (r: Attributes)
        ensures
            r@ == (flags@, xfrm.0@),
    {
        Attributes { flags, xfrm }
    }

    /// The flags of these attributes.
    pub fn flags(&self) -> (r: Flags)
        ensures
            r@ == self@.0,
    {
        self.flags
    }

    /// The extended-state mask of these attributes.
    pub fn xfrm(&self) -> (r: XfrmWrapper)
        ensures
            r.0@ == self@.1,
    {
        self.xfrm
    }

    /// The bytes of the structure: the flags at `FLAGS_OFFSET` and the
    /// extended-state mask at `XFRM_OFFSET`, each in little-endian order.
    pub fn to_vec(&self) -> (r: Vec<u8>)
        ensures
            r@ == encode_attributes(self@),
            r@.len() == ATTRIBUTES_SIZE,
            r@.subrange(FLAGS_OFFSET as int, FLAGS_OFFSET + 8) == le_bytes(self@.0),
            r@.subrange(XFRM_OFFSET as int, XFRM_OFFSET + 8) == le_bytes(self@.1),
    {
        let mut v: Vec<u8> = Vec::new();
        push_le(&mut v, self.flags.bits);
        push_le(&mut v, self.xfrm.0.bits);
        assert(v@ =~= encode_attributes(self@));
        assert(v@.subrange(0, 8) =~= le_bytes(self@.0));
        assert(v@.subrange(8, 16) =~= le_bytes(self@.1));
        v
    }

    /// The attributes laid out in `b`, or `None` when `b` is not
    /// `ATTRIBUTES_SIZE` bytes long or sets an undefined bit.
    pub fn from_bytes(b: &[u8]) -> (r: Option<Attributes>)
        ensures
            r is Some <==> decode_attributes(b@) is Some,
            r matches Some(a) ==> decode_attributes(b@) == Some(a@),
    {
        if b.len() != ATTRIBUTES_SIZE {
            return None;
        }
        let f = read_le(b, FLAGS_OFFSET);
        let x = read_le(b, XFRM_OFFSET);
        match (Flags::new(f), Xfrm::new(x)) {
            (Some(flags), Some(xfrm)) => Some(Attributes { flags, xfrm: XfrmWrapper(xfrm) }),
            _ => None,
        }
    }

    /// The complement of each component within its defined bits.
    pub fn not(self) -> (r: Attributes)
        ensures
            r@ == attr_not(self@),
    {
        let (a, c) = (self.flags.bits, self.xfrm.0.bits);
        let f = !a & FLAGS_ALL;
        let x = !c & XFRM_ALL;
        assert(f & !FLAGS_ALL == 0) by (bit_vector)
            requires f == !a & FLAGS_ALL;
        assert(x & !XFRM_ALL == 0) by (bit_vector)
            requires x == !c & XFRM_ALL;
        Attributes { flags: Flags { bits: f }, xfrm: XfrmWrapper(Xfrm { bits: x }) }
    }

    /// The intersection of each component.
    pub fn bitand(self, other: Attributes) -> (r: Attributes)
        ensures
            r@ == attr_and(self@, other@),
    {
        proof {
            use_type_invariant(&self.flags);
            use_type_invariant(&self.xfrm.0);
            use_type_invariant(&other.flags);
            use_type_invariant(&other.xfrm.0);
        }
        let (a, b, c, d) = (self.flags.bits, other.flags.bits, self.xfrm.0.bits, other.xfrm.0.bits);
        assert((a & b) & !FLAGS_ALL == 0) by (bit_vector)
            requires a & !FLAGS_ALL == 0;
        assert((c & d) & !XFRM_ALL == 0) by (bit_vector)
            requires c & !XFRM_ALL == 0;
        Attributes { flags: Flags { bits: a & b }, xfrm: XfrmWrapper(Xfrm { bits: c & d }) }
    }

    /// The union of each component.
    pub fn bitor(self, other: Attributes) -> (r: Attributes)
        ensures
            r@ == attr_or(self@, other@),
    {
        proof {
            use_type_invariant(&self.flags);
            use_type_invariant(&self.xfrm.0);
            use_type_invariant(&other.flags);
            use_type_invariant(&other.xfrm.0);
        }
        let (a, b, c, d) = (self.flags.bits, other.flags.bits, self.xfrm.0.bits, other.xfrm.0.bits);
        assert((a | b) & !FLAGS_ALL == 0) by (bit_vector)
            requires a & !FLAGS_ALL == 0, b & !FLAGS_ALL == 0;
        assert((c | d) & !XFRM_ALL == 0) by (bit_vector)
            requires c & !XFRM_ALL == 0, d & !XFRM_ALL == 0;
        Attributes { flags: Flags { bits: a | b }, xfrm: XfrmWrapper(Xfrm { bits: c | d }) }
    }

    /// The symmetric difference of each component.
    pub fn bitxor(self, other: Attributes) -> (r: Attributes)
        ensures
            r@ == attr_xor(self@, other@),
    {
        proof {
            use_type_invariant(&self.flags);
            use_type_invariant(&self.xfrm.0);
            use_type_invariant(&other.flags);
            use_type_invariant(&other.xfrm.0);
        }
        let (a, b, c, d) = (self.flags.bits, other.flags.bits, self.xfrm.0.bits, other.xfrm.0.bits);
        assert((a ^ b) & !FLAGS_ALL == 0) by (bit_vector)
            requires a & !FLAGS_ALL == 0, b & !FLAGS_ALL == 0;
        assert((c ^ d) & !XFRM_ALL == 0) by (bit_vector)
            requires c & !XFRM_ALL == 0, d & !XFRM_ALL == 0;
        Attributes { flags: Flags { bits: a ^ b }, xfrm: XfrmWrapper(Xfrm { bits: c ^ d }) }
    }
}

/// Appends the little-endian bytes of `x` to `v`.
fn push_le(v: &mut Vec<u8>, x: u64)
    ensures
        final(v)@ == old(v)@ + le_bytes(x),
{
    v.push(x as u8);
    v.push((x >> 8) as u8);
    v.push((x >> 16) as u8);
    v.push((x >> 24) as u8);
    v.push((x >> 32) as u8);
    v.push((x >> 40) as u8);
    v.push((x >> 48) as u8);
    v.push((x >> 56) as u8);
    assert(final(v)@ =~= old(v)@ + le_bytes(x));
}

/// The integer whose little-endian bytes are the eight bytes of `b` from `at`.
fn read_le(b: &[u8], at: usize) -> (r: u64)
    requires
        at + 8 <= b@.len(),
    ensures
        r == from_le(b@, at as int),
{
    b[at] as u64 | (b[at + 1] as u64) << 8 | (b[at + 2] as u64) << 16 | (b[at + 3] as u64) << 24
        | (b[at + 4] as u64) << 32 | (b[at + 5] as u64) << 40 | (b[at + 6] as u64) << 48
        | (b[at + 7] as u64) << 56
}

impl From<Flags> for Attributes {
    /// The given flags with the default extended-state mask.
    fn from(value: Flags) -> (r: Attributes)
        ensures
            r@ == (value@, X87 | SSE),
    {
        Attributes { flags: value, xfrm: XfrmWrapper::default() }
    }
}

impl vstd::std_specs::convert::FromSpecImpl<Flags> for Attributes {
    open spec fn obeys_from_spec() -> bool {
        true
    }

    closed spec fn from_spec(v: Flags) -> Attributes {
        Attributes { flags: v, xfrm: XfrmWrapper(Xfrm { bits: X87 | SSE }) }
    }
}

impl From<XfrmWrapper> for Attributes {
    /// The given extended-state mask with the default flags.
    fn from(value: XfrmWrapper) -> (r: Attributes)
        ensures
            r@ == (BIT64, value.0@),
    {
        Attributes { flags: Flags::default(), xfrm: value }
    }
}

impl vstd::std_specs::convert::FromSpecImpl<XfrmWrapper> for Attributes {
    open spec fn obeys_from_spec() -> bool {
        true
    }

    closed spec fn from_spec(v: XfrmWrapper) -> Attributes {
        Attributes { flags: Flags { bits: BIT64 }, xfrm: v }
    }
}

/// Reading back the little-endian bytes of an integer gives the integer.
proof fn lemma_from_le_bytes(x: u64)
    ensures
        from_le(le_bytes(x), 0) == x,
{
    let b = le_bytes(x);
    let (b0, b1, b2, b3) = (x as u8, (x >> 8u64) as u8, (x >> 16u64) as u8, (x >> 24u64) as u8);
    let (b4, b5, b6, b7) = ((x >> 32u64) as u8, (x >> 40u64) as u8, (x >> 48u64) as u8, (x
        >> 56u64) as u8);
    assert(b[0] == b0 && b[1] == b1 && b[2] == b2 && b[3] == b3);
    assert(b[4] == b4 && b[5] == b5 && b[6] == b6 && b[7] == b7);
    assert(b0 as u64 | (b1 as u64) << 8u64 | (b2 as u64) << 16u64 | (b3 as u64) << 24u64 | (
    b4 as u64) << 32u64 | (b5 as u64) << 40u64 | (b6 as u64) << 48u64 | (b7 as u64) << 56u64
        == x) by (bit_vector)
        requires
            b0 == x as u8,
            b1 == (x >> 8u64) as u8,
            b2 == (x >> 16u64) as u8,
            b3 == (x >> 24u64) as u8,
            b4 == (x >> 32u64) as u8,
            b5 == (x >> 40u64) as u8,
            b6 == (x >> 48u64) as u8,
            b7 == (x >> 56u64) as u8,
    ;
}

/// The little-endian bytes of an integer read from eight bytes are those bytes.
proof fn lemma_le_bytes_from(b: Seq<u8>, at: int)
    requires
        0 <= at,
        at + 8 <= b.len(),
    ensures
        le_bytes(from_le(b, at)) == b.subrange(at, at + 8),
{
    let (b0, b1, b2, b3) = (b[at], b[at + 1], b[at + 2], b[at + 3]);
    let (b4, b5, b6, b7) = (b[at + 4], b[at + 5], b[at + 6], b[at + 7]);
    let x = from_le(b, at);
    assert(x as u8 == b0 && (x >> 8u64) as u8 == b1 && (x >> 16u64) as u8 == b2 && (x >> 24u64) as u8
        == b3 && (x >> 32u64) as u8 == b4 && (x >> 40u64) as u8 == b5 && (x >> 48u64) as u8 == b6
        && (x >> 56u64) as u8 == b7) by (bit_vector)
        requires
            x == b0 as u64 | (b1 as u64) << 8u64 | (b2 as u64) << 16u64 | (b3 as u64) << 24u64 | (
            b4 as u64) << 32u64 | (b5 as u64) << 40u64 | (b6 as u64) << 48u64 | (b7 as u64) << 56u64,
    ;
    assert(le_bytes(x) =~= b.subrange(at, at + 8));
}

/// Decoding the bytes of any attributes value gives that value back.
pub proof fn lemma_encode_decode(a: Attributes)
    requires
        a.wf(),
    ensures
        decode_attributes(encode_attributes(a@)) == Some(a@),
{
    let e = encode_attributes(a@);
    lemma_from_le_bytes(a@.0);
    lemma_from_le_bytes(a@.1);
    assert(e.subrange(0, 8) =~= le_bytes(a@.0));
    assert(e.subrange(8, 16) =~= le_bytes(a@.1));
    assert(from_le(e, 0) == from_le(le_bytes(a@.0), 0));
    assert(from_le(e, 8) == from_le(le_bytes(a@.1), 0));
}

/// Bytes that decode to attributes are exactly the bytes of those attributes:
/// decoding and then encoding reproduces the input.
pub proof fn lemma_decode_encode(b: Seq<u8>)
    requires
        decode_attributes(b) is Some,
    ensures
        encode_attributes(decode_attributes(b)->0) == b,
{
    lemma_le_bytes_from(b, 0);
    lemma_le_bytes_from(b, 8);
    assert(encode_attributes(decode_attributes(b)->0) =~= b.subrange(0, 8) + b.subrange(8, 16));
    assert(b =~= b.subrange(0, 8) + b.subrange(8, 16));
}

/// Complementing twice gives back the attributes one started from.
pub proof fn lemma_not_not(a: Attributes)
    requires
        a.wf(),
    ensures
        attr_not(attr_not(a@)) == a@,
{
    let (f, x) = a@;
    assert(!(!f & FLAGS_ALL) & FLAGS_ALL == f) by (bit_vector)
        requires f & !FLAGS_ALL == 0;
    assert(!(!x & XFRM_ALL) & XFRM_ALL == x) by (bit_vector)
        requires x & !XFRM_ALL == 0;
}

/// The componentwise operations obey the laws of a Boolean algebra whose
/// top element is every defined bit: commutativity, absorption, an
/// exclusive or that undoes itself, complements and De Morgan's law.
pub proof fn lemma_boolean_algebra(a: Attributes, b: Attributes)
    requires
        a.wf(),
        b.wf(),
    ensures
        attr_and(a@, b@) == attr_and(b@, a@),
        attr_or(a@, b@) == attr_or(b@, a@),
        attr_xor(a@, b@) == attr_xor(b@, a@),
        attr_and(a@, attr_or(a@, b@)) == a@,
        attr_or(a@, attr_and(a@, b@)) == a@,
        attr_xor(attr_xor(a@, b@), b@) == a@,
        attr_xor(a@, a@) == (0u64, 0u64),
        attr_and(a@, attr_not(a@)) == (0u64, 0u64),
        attr_or(a@, attr_not(a@)) == (FLAGS_ALL, XFRM_ALL),
        attr_not(attr_and(a@, b@)) == attr_or(attr_not(a@), attr_not(b@)),
        attr_not(attr_or(a@, b@)) == attr_and(attr_not(a@), attr_not(b@)),
{
    let (f, x) = a@;
    let (g, y) = b@;
    lemma_component_laws(f, g, FLAGS_ALL);
    lemma_component_laws(x, y, XFRM_ALL);
}

/// With the default attributes as the second operand, the componentwise
/// operations act bit by bit on the 64-bit-mode flag and the x87 and SSE bits.
pub proof fn lemma_with_default(a: Attributes)
    requires
        a.wf(),
    ensures
        attr_and(a@, default_attributes()) == (a@.0 & BIT64, a@.1 & (X87 | SSE)),
        attr_or(a@, default_attributes()) == (a@.0 | BIT64, a@.1 | (X87 | SSE)),
        attr_xor(a@, default_attributes()) == (a@.0 ^ BIT64, a@.1 ^ (X87 | SSE)),
        attr_xor(attr_xor(a@, default_attributes()), default_attributes()) == a@,
        attr_and(attr_or(a@, default_attributes()), default_attributes()) == default_attributes(),
        attr_not(attr_and(a@, default_attributes())) == attr_or(
            attr_not(a@),
            attr_not(default_attributes()),
        ),
{
    let (f, x) = a@;
    assert(BIT64 & !FLAGS_ALL == 0) by (bit_vector);
    assert((X87 | SSE) & !XFRM_ALL == 0) by (bit_vector);
    lemma_component_laws(f, BIT64, FLAGS_ALL);
    lemma_component_laws(x, X87 | SSE, XFRM_ALL);
    let d = X87 | SSE;
    assert((x | d) & d == d) by (bit_vector);
    assert((f | BIT64) & BIT64 == BIT64) by (bit_vector);
}

/// The Boolean-algebra laws on one component.
proof fn lemma_component_laws(p: u64, q: u64, all: u64)
    requires
        p & !all == 0,
        q & !all == 0,
    ensures
        p & (p | q) == p,
        p | (p & q) == p,
        (p ^ q) ^ q == p,
        p ^ p == 0,
        p & mask_not(p, all) == 0,
        p | mask_not(p, all) == all,
        mask_not(p & q, all) == mask_not(p, all) | mask_not(q, all),
        mask_not(p | q, all) == mask_not(p, all) & mask_not(q, all),
        p & q == q & p,
        p | q == q | p,
        p ^ q == q ^ p,
{
    assert(p & (p | q) == p && p | (p & q) == p && (p ^ q) ^ q == p && p ^ p == 0) by (bit_vector);
    assert(p & (!p & all) == 0 && p | (!p & all) == all) by (bit_vector)
        requires p & !all == 0;
    assert(!(p & q) & all == (!p & all) | (!q & all)) by (bit_vector);
    assert(!(p | q) & all == (!p & all) & (!q & all)) by (bit_vector);
    assert(p & q == q & p && p | q == q | p && p ^ q == q ^ p) by (bit_vector);
}

} // verus!
