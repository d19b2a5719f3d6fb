//! The enclave evidence verifier: criticality, envelope decoding, the walk
//! along the embedded root-of-trust path, algorithm binding and the quote's
//! signature.
//!
//! Certificate decoding, signature checks and quote decoding are done by
//! collaborators outside this library; their answers reach the verifier as
//! plain values, and the verifier decides on every possible answer.
use vstd::prelude::*;
use crate::evidence::{parse_evidence, Evidence};

verus! {

/// Size in bytes of the quote's measurement body.
pub const QUOTE_BODY_SIZE: usize = 384;

/// Why a piece of evidence was rejected.
#[derive(Clone, Copy, Debug, PartialEq, Eq, Structural)]
pub enum SgxError {
    /// The evidence extension is marked critical.
    ProtocolViolation,
    /// The envelope or the signer certificate is malformed.
    DecodeError,
    /// The signer is not reachable from the embedded root of trust.
    UntrustedSigner,
    /// The request's key algorithm differs from the signer's.
    AlgorithmMismatch,
    /// The quote is malformed.
    QuoteDecodeError,
    /// The quote's signature cannot be re-encoded for verification.
    SignatureEncodeError,
    /// The quote's signature does not verify.
    InvalidSignature,
}

/// The bytes of an optional byte string.
pub open spec fn opt_bytes(o: Option<Vec<u8>>) -> Option<Seq<u8>> {
    match o {
        Some(v) => Some(v@),
        None => None,
    }
}

/// An algorithm identifier: the DER contents of its object identifier and
/// its DER-encoded parameters, if it has any.
#[derive(Clone, Debug)]
pub struct AlgorithmIdentifier {
    pub oid: Vec<u8>,
    pub parameters: Option<Vec<u8>>,
}

impl View for AlgorithmIdentifier {
    type V = (Seq<u8>, Option<Seq<u8>>);

    open spec fn view(&self) -> (Seq<u8>, Option<Seq<u8>>) {
        (self.oid@, opt_bytes(self.parameters))
    }
}

/// The signed body of a certificate: its DER bytes and the algorithm of the
/// subject's public key.
#[derive(Clone, Debug)]
pub struct TbsCertificate {
    pub der: Vec<u8>,
    pub subject_public_key_algorithm: AlgorithmIdentifier,
}

impl View for TbsCertificate {
    type V = (Seq<u8>, (Seq<u8>, Option<Seq<u8>>));

    open spec fn view(&self) -> (Seq<u8>, (Seq<u8>, Option<Seq<u8>>)) {
        (self.der@, self.subject_public_key_algorithm@)
    }
}

/// A certificate: its signed body, the algorithm of its signature and the
/// signature's bits.
#[derive(Clone, Debug)]
pub struct Certificate {
    pub tbs_certificate: TbsCertificate,
    pub signature_algorithm: AlgorithmIdentifier,
    pub signature: Vec<u8>,
}

/// A certificate extension: its identifier, its criticality and its payload.
#[derive(Clone, Debug)]
pub struct Extension {
    pub extn_id: Vec<u8>,
    pub critical: bool,
    pub extn_value: Vec<u8>,
}

/// The part of a certification request that the verifier reads: the
/// algorithm of the requester's public key.
#[derive(Clone, Debug)]
pub struct CertReqInfo {
    pub public_key_algorithm: AlgorithmIdentifier,
}

/// The parts of a quote that the verifier reads.
#[derive(Clone, Debug)]
pub struct QuoteParts {
    /// The measurement body.
    pub body: Vec<u8>,
    /// The signature over the body, as carried in the quote.
    pub signature: Vec<u8>,
}

/// What the collaborators found on one piece of evidence.
#[derive(Clone, Debug)]
pub struct Findings {
    /// The signer certificate decoded from the envelope's certificate
    /// element; `None` when it is malformed.
    pub pck: Option<Certificate>,
    /// For each link of the walk along the root path followed by the
    /// signer (see `Sgx::link`), whether the issuer's signature verifies on
    /// the certificate.
    pub links: Vec<bool>,
    /// The quote's body and signature; `None` when the quote is malformed.
    pub quote: Option<QuoteParts>,
    /// The quote's signature in the representation of the verification
    /// primitive; `None` when it cannot be encoded.
    pub signature_der: Option<Vec<u8>>,
    /// Whether that signature verifies over the quote's body under the
    /// signer's public key with `Sgx::signature_algorithm`.
    pub signature_valid: bool,
}

/// The walk along the root path `root` followed by the signer reaches the
/// signer: the path is not empty and every link of it verifies.
pub open spec fn chain_trusted(root: Seq<Certificate>, links: Seq<bool>) -> bool {
    root.len() > 0 && links.len() > root.len() && forall|i: int|
        0 <= i <= root.len() ==> #[trigger] links[i]
}

/// In the walk, the index of the certificate whose signed body checks the
/// `i`-th certificate: the first is checked by its own, every other by the
/// one before it.
pub open spec fn issuer_index(i: int) -> int {
    if i == 0 {
        0
    } else {
        i - 1
    }
}

/// The outcome of verifying the evidence in `ext` against the root path
/// `root`, for a request with `cri` and with the collaborators' findings.
pub open spec fn verdict(
    root: Seq<Certificate>,
    cri: CertReqInfo,
    ext: Extension,
    found: Findings,
) -> Result<bool, SgxError> {
    if ext.critical {
        Err(SgxError::ProtocolViolation)
    } else if parse_evidence(ext.extn_value@) is None || found.pck is None {
        Err(SgxError::DecodeError)
    } else if !chain_trusted(root, found.links@) {
        Err(SgxError::UntrustedSigner)
    } else if cri.public_key_algorithm@ != found.pck->0.tbs_certificate.subject_public_key_algorithm@ {
        Err(SgxError::AlgorithmMismatch)
    } else if found.quote is None || found.quote->0.body@.len() != QUOTE_BODY_SIZE {
        Err(SgxError::QuoteDecodeError)
    } else if found.signature_der is None {
        Err(SgxError::SignatureEncodeError)
    } else if !found.signature_valid {
        Err(SgxError::InvalidSignature)
    } else {
        Ok(true)
    }
}

/// Whether two byte strings are equal.
fn same_bytes(a: &[u8], b: &[u8]) -> (r: bool)
    ensures
        r == (a@ == b@),
{
    if a.len() != b.len() {
        return false;
    }
    let mut i: usize = 0;
    while i < a.len()
        invariant
            a@.len() == b@.len(),
            i <= a@.len(),
            a@.subrange(0, i as int) == b@.subrange(0, i as int),
        decreases a@.len() - i,
    {
        if a[i] != b[i] {
            assert(a@[i as int] != b@[i as int]);
            return false;
        }
        assert(a@.subrange(0, i + 1) =~= a@.subrange(0, i as int).push(a@[i as int]));
        assert(b@.subrange(0, i + 1) =~= b@.subrange(0, i as int).push(b@[i as int]));
        i = i + 1;
    }
    assert(a@ =~= a@.subrange(0, i as int));
    assert(b@ =~= b@.subrange(0, i as int));
    true
}

/// Whether two algorithm identifiers are equal, object identifier and
/// parameters both.
fn same_algorithm(a: &AlgorithmIdentifier, b: &AlgorithmIdentifier) -> (r: bool)
    ensures
        r == (a@ == b@),
{
    if !same_bytes(a.oid.as_slice(), b.oid.as_slice()) {
        return false;
    }
    match (&a.parameters, &b.parameters) {
        (Some(p), Some(q)) => same_bytes(p.as_slice(), q.as_slice()),
        (None, None) => true,
        _ => false,
    }
}

/// The DER contents of the object identifier 1.3.6.1.4.1.58270.1.2, which
/// names the evidence extension.
pub open spec fn evidence_oid_contents() -> Seq<u8> {
    seq![0x2bu8, 0x06u8, 0x01u8, 0x04u8, 0x01u8, 0x83u8, 0xc7u8, 0x1eu8, 0x01u8, 0x02u8]
}

/// The DER contents of the object identifier 1.2.840.10045.4.3.2, ECDSA with
/// SHA-256.
pub open spec fn ecdsa_with_sha256_contents() -> Seq<u8> {
    seq![0x2au8, 0x86u8, 0x48u8, 0xceu8, 0x3du8, 0x04u8, 0x03u8, 0x02u8]
}

/// Relies on const_oid's `ObjectIdentifier::new_unwrap` and `as_bytes`: the
/// dotted form `Sgx::OID` is encoded as its DER contents.
#[verifier::external_body]
fn evidence_oid_der() -> (r: Vec<u8>)
    ensures
        r@ == evidence_oid_contents(),
{
    const_oid::ObjectIdentifier::new_unwrap(Sgx::OID).as_bytes().to_vec()
}

/// Relies on const_oid's `db::rfc5912::ECDSA_WITH_SHA_256` and `as_bytes`:
/// the DER contents of ECDSA with SHA-256.
#[verifier::external_body]
fn ecdsa_with_sha256_der() -> (r: Vec<u8>)
    ensures
        r@ == ecdsa_with_sha256_contents(),
{
    const_oid::db::rfc5912::ECDSA_WITH_SHA_256.as_bytes().to_vec()
}

/// The verifier of enclave evidence, holding the embedded root-of-trust path
/// from the vendor's self-signed root down to the intermediate signer.
pub struct Sgx {
    root: Vec<Certificate>,
}

impl Sgx {
    /// Object identifier of the evidence extension.
    pub const OID: &'static str = "1.3.6.1.4.1.58270.1.2";

    /// This verifier checks attestation evidence.
    pub const ATT: bool = true;

    /// The root-of-trust path, root first.
    pub closed spec fn path(&self) -> Seq<Certificate> {
        self.root@
    }

    /// Whether `ext` is the extension that this verifier checks, by its
    /// object identifier.
    pub fn handles(&self, ext: &Extension) -> (r: bool)
        ensures
            r == (ext.extn_id@ == evidence_oid_contents()),
    {
        let oid = evidence_oid_der();
        same_bytes(ext.extn_id.as_slice(), oid.as_slice())
    }

    /// The algorithm under which the quote's signature is checked: ECDSA
    /// with SHA-256, without parameters. It is fixed, never negotiated.
    pub fn signature_algorithm() -> (r: AlgorithmIdentifier)
        ensures
            r@ == (ecdsa_with_sha256_contents(), None::<Seq<u8>>),
    {
        AlgorithmIdentifier { oid: ecdsa_with_sha256_der(), parameters: None }
    }

    /// The verifier whose root-of-trust path is `root`, root first.
    pub fn new(root: Vec<Certificate>) -> (r: Sgx)
        ensures
            r.path() == root@,
    {
        Sgx { root }
    }

    /// The `i`-th link of the walk along the path followed by `pck`: the
    /// signed body whose signature must verify, and the certificate it must
    /// verify. The first root certificate is checked against its own signed
    /// body, every later certificate against the signed body of the one
    /// before it. `None` past the last link, which is the one to `pck`.
    pub fn link<'c>(&'c self, pck: &'c Certificate, i: usize) -> (r: Option<
        (&'c TbsCertificate, &'c Certificate),
    >)
        ensures
            i > self.path().len() ==> r is None,
            0 < self.path().len() && i <= self.path().len() ==> (r matches Some((t, c)) && *t
                == self.path().push(*pck)[issuer_index(i as int)].tbs_certificate && *c
                == self.path().push(*pck)[i as int]),
            self.path().len() == 0 ==> r is None,
    {
        let n = self.root.len();
        if n == 0 || i > n {
            return None;
        }
        let issuer = if i == 0 {
            &self.root[0].tbs_certificate
        } else {
            &self.root[i - 1].tbs_certificate
        };
        let subject = if i == n {
            pck
        } else {
            &self.root[i]
        };
        Some((issuer, subject))
    }

    /// The signed body of `pck` when it is reachable from the root of trust:
    /// the walk starts at the root's own signed body, each certificate of the
    /// path followed by `pck` must be verified by the one before it (`links`),
    /// a failed link ends the walk, and the last signer reached must be the
    /// signed body of `pck`.
    pub fn is_trusted<'c>(&self, pck: &'c Certificate, links: &Vec<bool>) -> (r: Result<
        &'c TbsCertificate,
        SgxError,
    >)
        ensures
            chain_trusted(self.path(), links@) ==> r == Ok::<&TbsCertificate, SgxError>(
                &pck.tbs_certificate,
            ),
            !chain_trusted(self.path(), links@) ==> r == Err::<&TbsCertificate, SgxError>(
                SgxError::UntrustedSigner,
            ),
    {
        let n = self.root.len();
        if n == 0 {
            return Err(SgxError::UntrustedSigner);
        }
        // The index, in the path followed by `pck`, of the current signer;
        // `None` once a link has failed.
        let mut signer: Option<usize> = Some(0);
        let mut i: usize = 0;
        while i < n
            invariant
                n == self.root@.len() > 0,
                i <= n,
                signer is Some <==> (i <= links@.len() && forall|j: int|
                    0 <= j < i ==> #[trigger] links@[j]),
                signer is Some ==> signer->0 == if i == 0 {
                    0
                } else {
                    i - 1
                },
            decreases n - i,
        {
            signer = if signer.is_some() && i < links.len() && links[i] {
                Some(i)
            } else {
                None
            };
            i = i + 1;
        }
        // The last link: the path's last signer must verify `pck`, which then
        // becomes the signer, so the signer reached is the signed body of `pck`.
        if signer.is_some() && n < links.len() && links[n] {
            Ok(&pck.tbs_certificate)
        } else {
            Err(SgxError::UntrustedSigner)
        }
    }

    /// Verifies the evidence in `ext` for a request with `cri`, given what
    /// the collaborators found on it. In order: the extension must not be
    /// critical, its payload must be an envelope whose signer certificate
    /// decodes, the signer must be reachable from the root of trust, the
    /// request's key algorithm must equal the signer's, the quote must decode
    /// with a body of `QUOTE_BODY_SIZE` bytes, its signature must encode and
    /// verify. The first check that fails gives the error; when none fails
    /// the result is `Ok(true)`. `dbg` is reserved for a policy on the
    /// quote's report fields that debug evidence may relax.
    pub fn verify(&self, cri: &CertReqInfo, ext: &Extension, dbg: bool, found: &Findings) -> (r:
        Result<bool, SgxError>)
        ensures
            r == verdict(self.path(), *cri, *ext, *found),
    {
        if ext.critical {
            return Err(SgxError::ProtocolViolation);
        }
        let evidence = Evidence::from_der(ext.extn_value.as_slice());
        if evidence.is_none() {
            return Err(SgxError::DecodeError);
        }
        let pck = match &found.pck {
            Some(c) => c,
            None => return Err(SgxError::DecodeError),
        };
        let tbs = match self.is_trusted(pck, &found.links) {
            Ok(t) => t,
            Err(e) => return Err(e),
        };
        // The request's key must use the signer's algorithm: there is no
        // negotiation, so a weaker algorithm cannot be chosen for the request.
        if !same_algorithm(&cri.public_key_algorithm, &tbs.subject_public_key_algorithm) {
            return Err(SgxError::AlgorithmMismatch);
        }
        match &found.quote {
            Some(q) => {
                if q.body.len() != QUOTE_BODY_SIZE {
                    return Err(SgxError::QuoteDecodeError);
                }
            },
            None => return Err(SgxError::QuoteDecodeError),
        }
        if found.signature_der.is_none() {
            return Err(SgxError::SignatureEncodeError);
        }
        if !found.signature_valid {
            return Err(SgxError::InvalidSignature);
        }
        Ok(true)
    }
}

/// A critical evidence extension is rejected as a protocol violation,
/// whatever its payload and whatever the collaborators found.
pub proof fn lemma_critical_rejected(sgx: Sgx, cri: CertReqInfo, ext: Extension, found: Findings)
    requires
        ext.critical,
    ensures
        verdict(sgx.path(), cri, ext, found) == Err::<bool, SgxError>(SgxError::ProtocolViolation),
{
}

/// A signer that the walk from the root does not reach is never accepted:
/// the evidence is rejected as untrusted unless an earlier check already
/// rejected it.
pub proof fn lemma_untrusted_rejected(sgx: Sgx, cri: CertReqInfo, ext: Extension, found: Findings)
    requires
        !chain_trusted(sgx.path(), found.links@),
    ensures
        verdict(sgx.path(), cri, ext, found) is Err,
        !ext.critical && parse_evidence(ext.extn_value@) is Some && found.pck is Some ==> verdict(
            sgx.path(),
            cri,
            ext,
            found,
        ) == Err::<bool, SgxError>(SgxError::UntrustedSigner),
{
}

/// When every other check passes but the request's key algorithm differs
/// from the signer's, the evidence is rejected for the mismatch.
pub proof fn lemma_algorithm_binding(sgx: Sgx, cri: CertReqInfo, ext: Extension, found: Findings)
    requires
        !ext.critical,
        parse_evidence(ext.extn_value@) is Some,
        found.pck is Some,
        chain_trusted(sgx.path(), found.links@),
        found.quote is Some,
        found.quote->0.body@.len() == QUOTE_BODY_SIZE,
        found.signature_der is Some,
        found.signature_valid,
        cri.public_key_algorithm@ != found.pck->0.tbs_certificate.subject_public_key_algorithm@,
    ensures
        verdict(sgx.path(), cri, ext, found) == Err::<bool, SgxError>(SgxError::AlgorithmMismatch),
{
}

/// Evidence that passes every check up to the signature is accepted exactly
/// when its signature verifies, and rejected as an invalid signature
/// otherwise.
pub proof fn lemma_signature_decides(sgx: Sgx, cri: CertReqInfo, ext: Extension, found: Findings)
    requires
        !ext.critical,
        parse_evidence(ext.extn_value@) is Some,
        found.pck is Some,
        chain_trusted(sgx.path(), found.links@),
        cri.public_key_algorithm@ == found.pck->0.tbs_certificate.subject_public_key_algorithm@,
        found.quote is Some,
        found.quote->0.body@.len() == QUOTE_BODY_SIZE,
        found.signature_der is Some,
    ensures
        found.signature_valid ==> verdict(sgx.path(), cri, ext, found) == Ok::<bool, SgxError>(true),
        !found.signature_valid ==> verdict(sgx.path(), cri, ext, found) == Err::<bool, SgxError>(
            SgxError::InvalidSignature,
        ),
{
}

/// Verification never answers `false`: it accepts with `true` or fails.
pub proof fn lemma_never_false(sgx: Sgx, cri: CertReqInfo, ext: Extension, found: Findings)
    ensures
        verdict(sgx.path(), cri, ext, found) != Ok::<bool, SgxError>(false),
{
}

} // verus!