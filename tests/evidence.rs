use sgx_evidence::evidence::Evidence;

fn evidence(pck: Vec<u8>, quote: Vec<u8>) -> Evidence {
    Evidence { pck, quote }
}

#[test]
fn short_envelope_encodes_and_decodes() {
    let e = evidence(vec![0x30, 0x03, 1, 2, 3], vec![9, 8, 7]);
    let der = e.to_der();
    assert_eq!(
        der,
        vec![0x30, 0x0a, 0x30, 0x03, 1, 2, 3, 0x04, 0x03, 9, 8, 7]
    );
    assert_eq!(Evidence::from_der(&der), Some(e));
}

#[test]
fn one_byte_long_form_length() {
    let e = evidence(vec![0x30, 0x03, 1, 2, 3], vec![0x55; 200]);
    let der = e.to_der();
    assert_eq!(&der[..3], &[0x30, 0x81, 0xd0]);
    assert_eq!(&der[8..11], &[0x04, 0x81, 0xc8]);
    assert_eq!(der.len(), 3 + 208);
    assert_eq!(Evidence::from_der(&der), Some(e));
}

#[test]
fn two_byte_long_form_length() {
    let e = evidence(vec![0x30, 0x03, 1, 2, 3], vec![0xaa; 300]);
    let der = e.to_der();
    assert_eq!(&der[..4], &[0x30, 0x82, 0x01, 0x35]);
    assert_eq!(&der[9..13], &[0x04, 0x82, 0x01, 0x2c]);
    assert_eq!(der.len(), 4 + 309);
    assert_eq!(Evidence::from_der(&der), Some(e));
}

#[test]
fn empty_quote() {
    let e = evidence(vec![0x30, 0x00], vec![]);
    let der = e.to_der();
    assert_eq!(der, vec![0x30, 0x04, 0x30, 0x00, 0x04, 0x00]);
    assert_eq!(Evidence::from_der(&der), Some(e));
}

#[test]
fn malformed_envelopes_are_rejected() {
    let good = vec![0x30, 0x0a, 0x30, 0x03, 1, 2, 3, 0x04, 0x03, 9, 8, 7];
    assert!(Evidence::from_der(&good).is_some());
    // Nothing at all.
    assert!(Evidence::from_der(&[]).is_none());
    // A byte after the envelope.
    let mut trailing = good.clone();
    trailing.push(0);
    assert!(Evidence::from_der(&trailing).is_none());
    // Truncated.
    assert!(Evidence::from_der(&good[..11]).is_none());
    // The outer element is not a SEQUENCE.
    let mut outer = good.clone();
    outer[0] = 0x31;
    assert!(Evidence::from_der(&outer).is_none());
    // The certificate is not a SEQUENCE.
    let mut cert = good.clone();
    cert[2] = 0x04;
    assert!(Evidence::from_der(&cert).is_none());
    // The quote is not an OCTET STRING.
    let mut quote = good.clone();
    quote[7] = 0x03;
    assert!(Evidence::from_der(&quote).is_none());
    // A length in long form where the short form is due.
    let long = vec![0x30, 0x81, 0x0a, 0x30, 0x03, 1, 2, 3, 0x04, 0x03, 9, 8, 7];
    assert!(Evidence::from_der(&long).is_none());
    // An indefinite length.
    let indefinite = vec![0x30, 0x80, 0x30, 0x03, 1, 2, 3, 0x04, 0x03, 9, 8, 7, 0, 0];
    assert!(Evidence::from_der(&indefinite).is_none());
}
