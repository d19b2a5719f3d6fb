use sgx_evidence::attr::{
    Attributes, Flags, Xfrm, XfrmWrapper, ATTRIBUTES_ALIGN, ATTRIBUTES_SIZE, BIT64, DEBUG,
    FLAGS_ALL, FLAGS_OFFSET, INIT, SSE, X87, XFRM_ALL, XFRM_OFFSET, AVX,
};
use sgx_evidence::misc::{MiscSelect, EXINFO, MISC_SELECT_SIZE};

fn attrs(f: u64, x: u64) -> Attributes {
    Attributes::new(Flags::new(f).unwrap(), XfrmWrapper(Xfrm::new(x).unwrap()))
}

#[test]
fn align() {
    assert_eq!(ATTRIBUTES_ALIGN, 4);
    assert_eq!(FLAGS_OFFSET % ATTRIBUTES_ALIGN, 0);
    assert_eq!(XFRM_OFFSET % ATTRIBUTES_ALIGN, 0);
    assert_eq!(ATTRIBUTES_SIZE % ATTRIBUTES_ALIGN, 0);
}

#[test]
fn size() {
    assert_eq!(ATTRIBUTES_SIZE, 16);
    assert_eq!(Attributes::default().to_vec().len(), 16);
    assert_eq!(std::mem::size_of::<Attributes>(), 16);
    assert_eq!(MISC_SELECT_SIZE, 4);
}

#[test]
fn offsets() {
    assert_eq!(FLAGS_OFFSET, 0);
    assert_eq!(XFRM_OFFSET, 8);
    let v = attrs(FLAGS_ALL, XFRM_ALL).to_vec();
    assert_eq!(
        v,
        vec![0xf7, 0, 0, 0, 0, 0, 0, 0, 0xff, 0x1a, 0, 0, 0, 0, 0, 0]
    );
}

#[test]
fn default_attributes() {
    let a = Attributes::default();
    assert_eq!(a.flags().bits(), BIT64);
    assert_eq!(a.xfrm().0.bits(), X87 | SSE);
    assert_eq!(a.to_vec(), vec![4, 0, 0, 0, 0, 0, 0, 0, 3, 0, 0, 0, 0, 0, 0, 0]);
}

#[test]
fn flag_sets_reject_undefined_bits() {
    assert!(Flags::new(0x8).is_none());
    assert!(Flags::new(1 << 63).is_none());
    assert_eq!(Flags::new(0xf7).unwrap().bits(), 0xf7);
    assert_eq!(Flags::new_truncated(0xff).bits(), 0xf7);
    assert!(Xfrm::new(0x100).is_none());
    assert!(Xfrm::new(0x400).is_none());
    assert_eq!(Xfrm::new(0x1aff).unwrap().bits(), 0x1aff);
    assert_eq!(Xfrm::new_truncated(u64::MAX).bits(), 0x1aff);
    assert_eq!(Flags::default().bits(), BIT64);
    assert_eq!(XfrmWrapper::default().0.bits(), 3);
}

#[test]
fn from_components() {
    let a = Attributes::from(Flags::new(INIT | DEBUG).unwrap());
    assert_eq!(a.flags().bits(), 3);
    assert_eq!(a.xfrm().0.bits(), 3);
    let b = Attributes::from(XfrmWrapper(Xfrm::new(AVX).unwrap()));
    assert_eq!(b.flags().bits(), BIT64);
    assert_eq!(b.xfrm().0.bits(), 4);
}

#[test]
fn not_complements_within_defined_bits() {
    let d = Attributes::default();
    let n = d.not();
    assert_eq!(n.flags().bits(), 0xf3);
    assert_eq!(n.xfrm().0.bits(), 0x1afc);
    assert_eq!(n.not(), d);
    let a = attrs(INIT | 0x80, 0x1001);
    assert_eq!(a.not().not(), a);
}

#[test]
fn operations_with_default() {
    let d = Attributes::default();
    let a = attrs(INIT | BIT64, X87 | AVX);
    let and = a.bitand(d);
    assert_eq!((and.flags().bits(), and.xfrm().0.bits()), (4, 1));
    let or = a.bitor(d);
    assert_eq!((or.flags().bits(), or.xfrm().0.bits()), (5, 7));
    let xor = a.bitxor(d);
    assert_eq!((xor.flags().bits(), xor.xfrm().0.bits()), (1, 6));
    assert_eq!(xor.bitxor(d), a);
    assert_eq!(a.bitor(d).bitand(d), d);
    assert_eq!(a.bitand(a.not()), attrs(0, 0));
    assert_eq!(a.bitor(a.not()), attrs(FLAGS_ALL, XFRM_ALL));
    assert_eq!(a.bitand(d).not(), a.not().bitor(d.not()));
}

#[test]
fn bytes_round_trip() {
    let a = attrs(INIT | DEBUG | BIT64, X87 | SSE | AVX | 0x1000);
    let v = a.to_vec();
    assert_eq!(v, vec![7, 0, 0, 0, 0, 0, 0, 0, 7, 0x10, 0, 0, 0, 0, 0, 0]);
    let b = Attributes::from_bytes(&v).unwrap();
    assert_eq!(b, a);
    assert_eq!(b.to_vec(), v);
}

#[test]
fn from_bytes_rejects_bad_input() {
    assert!(Attributes::from_bytes(&[0u8; 15]).is_none());
    assert!(Attributes::from_bytes(&[0u8; 17]).is_none());
    assert!(Attributes::from_bytes(&[]).is_none());
    let mut v = Attributes::default().to_vec();
    v[0] = 0x08;
    assert!(Attributes::from_bytes(&v).is_none());
    let mut w = Attributes::default().to_vec();
    w[9] = 0x01;
    assert!(Attributes::from_bytes(&w).is_none());
    let zero = Attributes::from_bytes(&[0u8; 16]).unwrap();
    assert_eq!(zero, attrs(0, 0));
}

#[test]
fn misc_select() {
    assert_eq!(MiscSelect::new(EXINFO).unwrap().bits(), 1);
    assert!(MiscSelect::new(2).is_none());
    assert_eq!(MiscSelect::new(1).unwrap().to_vec(), vec![1, 0, 0, 0]);
    assert_eq!(MiscSelect::new(0).unwrap().to_vec(), vec![0, 0, 0, 0]);
}
