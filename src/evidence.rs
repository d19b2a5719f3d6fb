//! The evidence envelope: a DER SEQUENCE holding the signer certificate and
//! the quote as an OCTET STRING.
use vstd::prelude::*;

verus! {

/// DER tag of a SEQUENCE.
pub const TAG_SEQUENCE: u8 = 0x30;
/// DER tag of an OCTET STRING.
pub const TAG_OCTET_STRING: u8 = 0x04;
/// Contents of an element may hold at most this many bytes.
pub const MAX_CONTENT_LEN: usize = 0xffff;

/// The DER length octets of a content of `n` bytes (definite, minimal form).
pub open spec fn der_len(n: nat) -> Seq<u8> {
    if n < 0x80 {
        seq![n as u8]
    } else if n < 0x100 {
        seq![0x81u8, n as u8]
    } else {
        seq![0x82u8, (n / 0x100) as u8, (n % 0x100) as u8]
    }
}

/// The DER element with tag `tag` and contents `c`.
pub open spec fn tlv(tag: u8, c: Seq<u8>) -> Seq<u8> {
    seq![tag] + der_len(c.len()) + c
}

/// The length announced by the length octets at the start of `s`, and how
/// many octets announce it.
pub open spec fn parse_len(s: Seq<u8>) -> Option<(nat, nat)> {
    if s.len() < 1 {
        None
    } else if s[0] < 0x80 {
        Some((s[0] as nat, 1))
    } else if s[0] == 0x81 && s.len() >= 2 && s[1] >= 0x80 {
        Some((s[1] as nat, 2))
    } else if s[0] == 0x82 && s.len() >= 3 && s[1] != 0 {
        Some((s[1] as nat * 0x100 + s[2] as nat, 3))
    } else {
        None
    }
}

/// The element at the start of `s`: its tag, its contents and what follows it.
pub open spec fn parse_tlv(s: Seq<u8>) -> Option<(u8, Seq<u8>, Seq<u8>)> {
    if s.len() < 1 {
        None
    } else {
        match parse_len(s.drop_first()) {
            Some((n, h)) => if 1 + h + n <= s.len() {
                Some((s[0], s.subrange(1 + h as int, (1 + h + n) as int), s.subrange((1 + h + n) as int, s.len() as int)))
            } else {
                None
            },
            None => None,
        }
    }
}

/// `s` is exactly one element with tag `tag`.
pub open spec fn is_element(tag: u8, s: Seq<u8>) -> bool {
    parse_tlv(s) matches Some((t, _c, rest)) && t == tag && rest.len() == 0
}

/// The encoding of the envelope of `pck` (a whole certificate element) and `quote`.
pub open spec fn evidence_der(pck: Seq<u8>, quote: Seq<u8>) -> Seq<u8> {
    tlv(TAG_SEQUENCE, pck + tlv(TAG_OCTET_STRING, quote))
}

/// `pck` and `quote` can be carried in an envelope.
pub open spec fn valid_evidence(pck: Seq<u8>, quote: Seq<u8>) -> bool {
    is_element(TAG_SEQUENCE, pck) && quote.len() <= MAX_CONTENT_LEN && (pck + tlv(
        TAG_OCTET_STRING,
        quote,
    )).len() <= MAX_CONTENT_LEN
}

/// The length octets of `n` are read back as `n`, whatever follows them.
proof fn lemma_parse_der_len(n: nat, rest: Seq<u8>)
    requires
        n <= MAX_CONTENT_LEN,
    ensures
        parse_len(der_len(n) + rest) == Some((n, der_len(n).len())),
{
    let s = der_len(n) + rest;
    if n >= 0x100 {
        let hi = n / 0x100;
        let lo = n % 0x100;
        assert(hi * 0x100 + lo == n && 0 < hi < 0x100 && lo < 0x100) by (nonlinear_arith)
            requires hi == n / 0x100, lo == n % 0x100, 0x100 <= n <= 0xffff;
        assert(s[1] == hi as u8 && s[2] == lo as u8);
    } else {
        assert(s[0] == der_len(n)[0]);
    }
}

/// Length octets that are read as `n` are the length octets of `n`.
proof fn lemma_der_len_of_parse(s: Seq<u8>)
    requires
        parse_len(s) is Some,
    ensures
        ({
            let (n, h) = parse_len(s)->0;
            n <= MAX_CONTENT_LEN && h <= s.len() && s.subrange(0, h as int) == der_len(n)
        }),
{
    let (n, h) = parse_len(s)->0;
    if s[0] == 0x82 && s[0] >= 0x80 {
        let (a, b) = (s[1] as nat, s[2] as nat);
        assert(n / 0x100 == a && n % 0x100 == b && 0x100 <= n <= 0xffff) by (nonlinear_arith)
            requires n == a * 0x100 + b, 0 < a < 0x100, b < 0x100;
        assert(s.subrange(0, 3) =~= der_len(n));
    } else if s[0] == 0x81 {
        assert(s.subrange(0, 2) =~= der_len(n));
    } else {
        assert(s.subrange(0, 1) =~= der_len(n));
    }
}

/// An element is read back as its tag and contents, whatever follows it.
pub proof fn lemma_parse_tlv(tag: u8, c: Seq<u8>, rest: Seq<u8>)
    requires
        c.len() <= MAX_CONTENT_LEN,
    ensures
        parse_tlv(tlv(tag, c) + rest) == Some((tag, c, rest)),
{
    let s = tlv(tag, c) + rest;
    let l = der_len(c.len());
    lemma_parse_der_len(c.len(), c + rest);
    assert(s.drop_first() =~= l + (c + rest));
    let h = l.len() as int;
    assert(s.subrange(1 + h, 1 + h + c.len()) =~= c);
    assert(s.subrange(1 + h + c.len(), s.len() as int) =~= rest);
}

/// What is read as an element with tag `t` and contents `c` is that element
/// followed by what was left.
pub proof fn lemma_tlv_of_parse(s: Seq<u8>)
    requires
        parse_tlv(s) is Some,
    ensures
        ({
            let (t, c, rest) = parse_tlv(s)->0;
            c.len() <= MAX_CONTENT_LEN && s == tlv(t, c) + rest
        }),
{
    let (t, c, rest) = parse_tlv(s)->0;
    let (n, h) = parse_len(s.drop_first())->0;
    lemma_der_len_of_parse(s.drop_first());
    assert(s.drop_first().subrange(0, h as int) =~= s.subrange(1, 1 + h as int));
    assert(s =~= tlv(t, c) + rest);
}

/// The envelope as it is read from `b`: the certificate element and the quote.
pub open spec fn parse_evidence(b: Seq<u8>) -> Option<(Seq<u8>, Seq<u8>)> {
    match parse_tlv(b) {
        Some((t, c, rest)) => if t == TAG_SEQUENCE && rest.len() == 0 {
            match parse_tlv(c) {
                Some((t1, _c1, rest1)) => if t1 == TAG_SEQUENCE {
                    match parse_tlv(rest1) {
                        Some((t2, q, rest2)) => if t2 == TAG_OCTET_STRING && rest2.len() == 0 {
                            Some((c.subrange(0, c.len() - rest1.len()), q))
                        } else {
                            None
                        },
                        None => None,
                    }
                } else {
                    None
                },
                None => None,
            }
        } else {
            None
        },
        None => None,
    }
}

/// The envelope of a certificate and a quote is read back as them.
pub proof fn lemma_parse_evidence(pck: Seq<u8>, quote: Seq<u8>)
    requires
        valid_evidence(pck, quote),
    ensures
        parse_evidence(evidence_der(pck, quote)) == Some((pck, quote)),
{
    let q = tlv(TAG_OCTET_STRING, quote);
    let c = pck + q;
    lemma_parse_tlv(TAG_SEQUENCE, c, Seq::empty());
    assert(evidence_der(pck, quote) + Seq::empty() =~= evidence_der(pck, quote));
    lemma_tlv_of_parse(pck);
    let (t1, c1, r1) = parse_tlv(pck)->0;
    assert(pck + Seq::empty() =~= pck);
    assert(r1 =~= Seq::<u8>::empty());
    lemma_parse_tlv(t1, c1, q);
    assert(tlv(t1, c1) + q =~= c);
    lemma_parse_tlv(TAG_OCTET_STRING, quote, Seq::empty());
    assert(q + Seq::empty() =~= q);
    assert(c.subrange(0, c.len() - q.len()) =~= pck);
}

/// Bytes that are read as an envelope are the encoding of what was read.
pub proof fn lemma_evidence_of_parse(b: Seq<u8>)
    requires
        parse_evidence(b) is Some,
    ensures
        ({
            let (pck, quote) = parse_evidence(b)->0;
            valid_evidence(pck, quote) && b == evidence_der(pck, quote)
        }),
{
    let (pck, quote) = parse_evidence(b)->0;
    lemma_tlv_of_parse(b);
    let (t, c, rest) = parse_tlv(b)->0;
    lemma_tlv_of_parse(c);
    let (t1, c1, rest1) = parse_tlv(c)->0;
    lemma_tlv_of_parse(rest1);
    let (t2, q, rest2) = parse_tlv(rest1)->0;
    assert(pck =~= tlv(t1, c1));
    lemma_parse_tlv(t1, c1, Seq::empty());
    assert(pck + Seq::empty() =~= pck);
    assert(rest1 =~= tlv(TAG_OCTET_STRING, quote));
    assert(c =~= pck + rest1);
    assert(b =~= tlv(t, c));
}

/// The element that starts at `at` in `b`: its tag, and where its contents
/// start and end.
fn read_tlv(b: &[u8], at: usize) -> (r: Option<(u8, usize, usize)>)
    requires
        at <= b@.len(),
    ensures
        match parse_tlv(b@.subrange(at as int, b@.len() as int)) {
            None => r is None,
            Some((t, c, rest)) => r matches Some((t2, s, e)) && t2 == t && at < s <= e <= b@.len()
                && c == b@.subrange(s as int, e as int) && rest == b@.subrange(
                e as int,
                b@.len() as int,
            ),
        },
{
    let n = b.len();
    let ghost sq = b@.subrange(at as int, n as int);
    if at >= n || at + 1 >= n {
        return None;
    }
    let l0 = b[at + 1];
    assert(sq.drop_first()[0] == l0);
    let len: usize;
    let h: usize;
    if l0 < 0x80 {
        len = l0 as usize;
        h = 1;
    } else if l0 == 0x81 && n - at > 2 && b[at + 2] >= 0x80 {
        assert(sq.drop_first()[1] == b[at + 2]);
        len = b[at + 2] as usize;
        h = 2;
    } else if l0 == 0x82 && n - at > 3 && b[at + 2] != 0 {
        assert(sq.drop_first()[1] == b[at + 2]);
        assert(sq.drop_first()[2] == b[at + 3]);
        len = b[at + 2] as usize * 0x100 + b[at + 3] as usize;
        h = 3;
    } else {
        assert(parse_len(sq.drop_first()) is None);
        return None;
    }
    assert(parse_len(sq.drop_first()) == Some((len as nat, h as nat)));
    if len > n - at - 1 - h {
        return None;
    }
    let s = at + 1 + h;
    let e = s + len;
    assert(sq.subrange(1 + h as int, (1 + h + len) as int) =~= b@.subrange(s as int, e as int));
    assert(sq.subrange((1 + h + len) as int, sq.len() as int) =~= b@.subrange(e as int, n as int));
    Some((b[at], s, e))
}

/// A copy of the bytes of `b` from `s` up to `e`.
fn copy_range(b: &[u8], s: usize, e: usize) -> (r: Vec<u8>)
    requires
        s <= e <= b@.len(),
    ensures
        r@ == b@.subrange(s as int, e as int),
{
    let mut v: Vec<u8> = Vec::new();
    let mut i: usize = s;
    while i < e
        invariant
            s <= i <= e <= b@.len(),
            v@ == b@.subrange(s as int, i as int),
        decreases e - i,
    {
        v.push(b[i]);
        i = i + 1;
        assert(v@ =~= b@.subrange(s as int, i as int));
    }
    v
}

/// Appends the DER element with tag `tag` and contents `c` to `v`.
fn push_tlv(v: &mut Vec<u8>, tag: u8, c: &[u8])
    requires
        c@.len() <= MAX_CONTENT_LEN,
    ensures
        final(v)@ == old(v)@ + tlv(tag, c@),
{
    let n = c.len();
    v.push(tag);
    if n < 0x80 {
        v.push(n as u8);
    } else if n < 0x100 {
        v.push(0x81);
        v.push(n as u8);
    } else {
        v.push(0x82);
        v.push((n / 0x100) as u8);
        v.push((n % 0x100) as u8);
    }
    assert(v@ =~= old(v)@ + seq![tag] + der_len(n as nat));
    let ghost start = v@;
    let mut i: usize = 0;
    while i < n
        invariant
            i <= n == c@.len(),
            v@ == start + c@.subrange(0, i as int),
        decreases n - i,
    {
        v.push(c[i]);
        i = i + 1;
        assert(v@ =~= start + c@.subrange(0, i as int));
    }
    assert(v@ =~= old(v)@ + tlv(tag, c@));
}

/// Attestation evidence: the certificate that signed the quote, as one DER
/// element, and the quote's bytes.
#[derive(Clone, Debug, PartialEq, Eq)]
pub struct Evidence {
    pub pck: Vec<u8>,
    pub quote: Vec<u8>,
}

impl Evidence {
    /// The envelope read from `b`, or `None` when `b` is not exactly a
    /// SEQUENCE of one certificate element and one OCTET STRING.
    pub fn from_der(b: &[u8]) -> (r: Option<Evidence>)
        ensures
            r is Some <==> parse_evidence(b@) is Some,
            r matches Some(e) ==> parse_evidence(b@) == Some((e.pck@, e.quote@)),
            r matches Some(e) ==> valid_evidence(e.pck@, e.quote@) && b@ == evidence_der(
                e.pck@,
                e.quote@,
            ),
            r is None ==> forall|p: Seq<u8>, q: Seq<u8>|
                valid_evidence(p, q) ==> b@ != #[trigger] evidence_der(p, q),
    {
        let r = Self::read(b);
        proof {
            if r is Some {
                lemma_evidence_of_parse(b@);
            } else {
                assert forall|p: Seq<u8>, q: Seq<u8>|
                    valid_evidence(p, q) implies b@ != #[trigger] evidence_der(p, q) by {
                    if b@ == evidence_der(p, q) {
                        lemma_parse_evidence(p, q);
                    }
                }
            }
        }
        r
    }

    fn read(b: &[u8]) -> (r: Option<Evidence>)
        ensures
            r is Some <==> parse_evidence(b@) is Some,
            r matches Some(e) ==> parse_evidence(b@) == Some((e.pck@, e.quote@)),
    {
        let n = b.len();
        assert(b@.subrange(0, n as int) =~= b@);
        let (t, s, e) = match read_tlv(b, 0) {
            Some(x) => x,
            None => return None,
        };
        if t != TAG_SEQUENCE || e != n {
            return None;
        }
        let ghost c = b@.subrange(s as int, n as int);
        let (t1, s1, e1) = match read_tlv(b, s) {
            Some(x) => x,
            None => return None,
        };
        if t1 != TAG_SEQUENCE {
            return None;
        }
        let ghost rest1 = b@.subrange(e1 as int, n as int);
        let (t2, s2, e2) = match read_tlv(b, e1) {
            Some(x) => x,
            None => return None,
        };
        if t2 != TAG_OCTET_STRING || e2 != n {
            return None;
        }
        let pck = copy_range(b, s, e1);
        let quote = copy_range(b, s2, e2);
        assert(c.subrange(0, c.len() - rest1.len()) =~= pck@);
        Some(Evidence { pck, quote })
    }

    /// The DER encoding of the envelope.
    pub fn to_der(&self) -> (r: Vec<u8>)
        requires
            valid_evidence(self.pck@, self.quote@),
        ensures
            r@ == evidence_der(self.pck@, self.quote@),
    {
        let mut inner: Vec<u8> = Vec::new();
        let mut i: usize = 0;
        while i < self.pck.len()
            invariant
                i <= self.pck@.len(),
                inner@ == self.pck@.subrange(0, i as int),
            decreases self.pck@.len() - i,
        {
            inner.push(self.pck[i]);
            i = i + 1;
            assert(inner@ =~= self.pck@.subrange(0, i as int));
        }
        assert(inner@ =~= self.pck@);
        push_tlv(&mut inner, TAG_OCTET_STRING, self.quote.as_slice());
        let mut out: Vec<u8> = Vec::new();
        push_tlv(&mut out, TAG_SEQUENCE, inner.as_slice());
        assert(out@ =~= evidence_der(self.pck@, self.quote@));
        out
    }
}

} // verus!
