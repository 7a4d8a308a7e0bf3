use extattr::{AttrNamespace, Flags, Options};

#[test]
fn flags_bits_are_the_kernels() {
    assert_eq!(0, Flags::empty().bits());
    assert_eq!(libc::XATTR_CREATE, Flags::XATTR_CREATE().bits());
    assert_eq!(libc::XATTR_REPLACE, Flags::XATTR_REPLACE().bits());
}

#[test]
fn flags_combine() {
    let both = Flags::XATTR_CREATE().union(Flags::XATTR_REPLACE());
    assert_eq!(Flags::all(), both);
    assert!(both.contains(Flags::XATTR_CREATE()));
    assert!(!Flags::XATTR_REPLACE().contains(Flags::XATTR_CREATE()));
    assert!(Flags::empty().is_empty());
    assert!(!both.is_empty());
}

#[test]
fn flags_from_bits() {
    assert_eq!(Some(Flags::XATTR_REPLACE()), Flags::from_bits(2));
    assert_eq!(None, Flags::from_bits(4));
    assert_eq!(None, Flags::from_bits(-1));
}

#[test]
fn options_bits_are_darwins() {
    assert_eq!(1, Options::XATTR_NOFOLLOW().bits());
    assert_eq!(2, Options::XATTR_CREATE().bits());
    assert_eq!(4, Options::XATTR_REPLACE().bits());
    let o = Options::XATTR_NOFOLLOW().union(Options::XATTR_CREATE());
    assert_eq!(3, o.bits());
    assert!(o.contains(Options::XATTR_NOFOLLOW()));
    assert!(!o.contains(Options::XATTR_REPLACE()));
    assert_eq!(None, Options::from_bits(8));
    assert_eq!(Some(Options::all()), Options::from_bits(7));
}

#[test]
fn namespace_numbers() {
    assert_eq!(1, AttrNamespace::EXTATTR_NAMESPACE_USER.to_raw());
    assert_eq!(2, AttrNamespace::EXTATTR_NAMESPACE_SYSTEM.to_raw());
}
