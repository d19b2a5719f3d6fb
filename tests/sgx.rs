use sgx_evidence::evidence::Evidence;
use sgx_evidence::sgx::{
    AlgorithmIdentifier, CertReqInfo, Certificate, Extension, Findings, QuoteParts, Sgx, SgxError,
    TbsCertificate, QUOTE_BODY_SIZE,
};

// Contents of the object identifier 1.2.840.10045.2.1 (an elliptic-curve key).
const EC_KEY: [u8; 7] = [0x2a, 0x86, 0x48, 0xce, 0x3d, 0x02, 0x01];
// Contents of the object identifier 1.2.840.10045.3.1.7 (the P-256 curve), as a DER element.
const P256: [u8; 10] = [0x06, 0x08, 0x2a, 0x86, 0x48, 0xce, 0x3d, 0x03, 0x01, 0x07];
// The same for 1.3.132.0.34 (the P-384 curve).
const P384: [u8; 7] = [0x06, 0x05, 0x2b, 0x81, 0x04, 0x00, 0x22];

fn ec_key(curve: &[u8]) -> AlgorithmIdentifier {
    AlgorithmIdentifier {
        oid: EC_KEY.to_vec(),
        parameters: Some(curve.to_vec()),
    }
}

fn cert(tag: u8) -> Certificate {
    Certificate {
        tbs_certificate: TbsCertificate {
            der: vec![0x30, 0x01, tag],
            subject_public_key_algorithm: ec_key(&P256),
        },
        signature_algorithm: AlgorithmIdentifier {
            oid: vec![0x2a, 0x86, 0x48, 0xce, 0x3d, 0x04, 0x03, 0x02],
            parameters: None,
        },
        signature: vec![tag; 8],
    }
}

fn sgx() -> Sgx {
    Sgx::new(vec![cert(1), cert(2)])
}

fn extension(critical: bool) -> Extension {
    let e = Evidence {
        pck: vec![0x30, 0x03, 1, 2, 3],
        quote: vec![7; 40],
    };
    Extension {
        extn_id: vec![0x2b, 0x06, 0x01, 0x04, 0x01, 0x83, 0xc7, 0x1e, 0x01, 0x02],
        critical,
        extn_value: e.to_der(),
    }
}

fn request() -> CertReqInfo {
    CertReqInfo {
        public_key_algorithm: ec_key(&P256),
    }
}

fn findings() -> Findings {
    Findings {
        pck: Some(cert(3)),
        links: vec![true, true, true],
        quote: Some(QuoteParts {
            body: vec![0x11; QUOTE_BODY_SIZE],
            signature: vec![0x22; 64],
        }),
        signature_der: Some(vec![0x30, 0x44]),
        signature_valid: true,
    }
}

#[test]
fn constants() {
    assert_eq!(Sgx::OID, "1.3.6.1.4.1.58270.1.2");
    assert!(Sgx::ATT);
    assert_eq!(QUOTE_BODY_SIZE, 384);
}

#[test]
fn valid_evidence_is_accepted() {
    assert_eq!(
        sgx().verify(&request(), &extension(false), false, &findings()),
        Ok(true)
    );
    assert_eq!(
        sgx().verify(&request(), &extension(false), true, &findings()),
        Ok(true)
    );
}

#[test]
fn trusted_signer_returns_its_signed_body() {
    let pck = cert(3);
    let tbs = sgx().is_trusted(&pck, &vec![true, true, true]).unwrap();
    assert_eq!(tbs.der, vec![0x30, 0x01, 3]);
    assert!(std::ptr::eq(tbs, &pck.tbs_certificate));
    let longer = sgx().is_trusted(&pck, &vec![true, true, true, false]);
    assert!(longer.is_ok());
}

#[test]
fn unreachable_signer_is_untrusted() {
    let pck = cert(9);
    let s = sgx();
    for links in [
        vec![false, true, true],
        vec![true, false, true],
        vec![true, true, false],
        vec![true, true],
        vec![],
    ] {
        assert_eq!(s.is_trusted(&pck, &links).err(), Some(SgxError::UntrustedSigner));
    }
    let empty = Sgx::new(vec![]);
    assert_eq!(
        empty.is_trusted(&pck, &vec![true]).err(),
        Some(SgxError::UntrustedSigner)
    );
}

#[test]
fn critical_extension_is_a_protocol_violation() {
    assert_eq!(
        sgx().verify(&request(), &extension(true), false, &findings()),
        Err(SgxError::ProtocolViolation)
    );
    let mut garbage = extension(true);
    garbage.extn_value = vec![0xff];
    let mut nothing = findings();
    nothing.pck = None;
    nothing.links = vec![];
    nothing.quote = None;
    nothing.signature_valid = false;
    assert_eq!(
        sgx().verify(&request(), &garbage, false, &nothing),
        Err(SgxError::ProtocolViolation)
    );
}

#[test]
fn malformed_evidence_is_a_decode_error() {
    let mut ext = extension(false);
    ext.extn_value.push(0);
    assert_eq!(
        sgx().verify(&request(), &ext, false, &findings()),
        Err(SgxError::DecodeError)
    );
    let mut f = findings();
    f.pck = None;
    assert_eq!(
        sgx().verify(&request(), &extension(false), false, &f),
        Err(SgxError::DecodeError)
    );
}

#[test]
fn untrusted_signer_is_rejected() {
    let mut f = findings();
    f.links = vec![true, true, false];
    assert_eq!(
        sgx().verify(&request(), &extension(false), false, &f),
        Err(SgxError::UntrustedSigner)
    );
}

#[test]
fn algorithm_mismatch_is_rejected() {
    let req = CertReqInfo {
        public_key_algorithm: ec_key(&P384),
    };
    assert_eq!(
        sgx().verify(&req, &extension(false), false, &findings()),
        Err(SgxError::AlgorithmMismatch)
    );
    let bare = CertReqInfo {
        public_key_algorithm: AlgorithmIdentifier {
            oid: EC_KEY.to_vec(),
            parameters: None,
        },
    };
    assert_eq!(
        sgx().verify(&bare, &extension(false), false, &findings()),
        Err(SgxError::AlgorithmMismatch)
    );
}

#[test]
fn malformed_quote_is_rejected() {
    let mut f = findings();
    f.quote = None;
    assert_eq!(
        sgx().verify(&request(), &extension(false), false, &f),
        Err(SgxError::QuoteDecodeError)
    );
    let mut short = findings();
    short.quote = Some(QuoteParts {
        body: vec![0x11; QUOTE_BODY_SIZE - 1],
        signature: vec![0x22; 64],
    });
    assert_eq!(
        sgx().verify(&request(), &extension(false), false, &short),
        Err(SgxError::QuoteDecodeError)
    );
}

#[test]
fn unencodable_signature_is_rejected() {
    let mut f = findings();
    f.signature_der = None;
    assert_eq!(
        sgx().verify(&request(), &extension(false), false, &f),
        Err(SgxError::SignatureEncodeError)
    );
}

#[test]
fn invalid_signature_is_rejected() {
    let mut f = findings();
    f.signature_valid = false;
    assert_eq!(
        sgx().verify(&request(), &extension(false), false, &f),
        Err(SgxError::InvalidSignature)
    );
}

#[test]
fn dispatch_by_object_identifier() {
    assert!(sgx().handles(&extension(false)));
    let mut other = extension(false);
    other.extn_id = vec![0x2b, 0x06, 0x01, 0x04, 0x01, 0x83, 0xc7, 0x1e, 0x01, 0x01];
    assert!(!sgx().handles(&other));
    other.extn_id = vec![];
    assert!(!sgx().handles(&other));
}

#[test]
fn signature_algorithm_is_ecdsa_with_sha256() {
    let a = Sgx::signature_algorithm();
    assert_eq!(a.oid, vec![0x2a, 0x86, 0x48, 0xce, 0x3d, 0x04, 0x03, 0x02]);
    assert!(a.parameters.is_none());
}

#[test]
fn links_of_the_walk() {
    let s = sgx();
    let pck = cert(3);
    let (t0, c0) = s.link(&pck, 0).unwrap();
    assert_eq!((t0.der[2], c0.tbs_certificate.der[2]), (1, 1));
    let (t1, c1) = s.link(&pck, 1).unwrap();
    assert_eq!((t1.der[2], c1.tbs_certificate.der[2]), (1, 2));
    let (t2, c2) = s.link(&pck, 2).unwrap();
    assert_eq!((t2.der[2], c2.tbs_certificate.der[2]), (2, 3));
    assert!(std::ptr::eq(c2, &pck));
    assert!(s.link(&pck, 3).is_none());
    assert!(Sgx::new(vec![]).link(&pck, 0).is_none());
}
