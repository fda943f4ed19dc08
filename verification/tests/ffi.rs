use dnet_p2p::ffi::copy_to_buffer;

#[test]
fn copies_when_it_fits() {
    let mut buf = [9u8; 6];
    assert_eq!(copy_to_buffer(b"abc", &mut buf), 3);
    assert_eq!(&buf, b"abc\x09\x09\x09");
    let mut exact = [0u8; 3];
    assert_eq!(copy_to_buffer(b"xyz", &mut exact), 3);
    assert_eq!(&exact, b"xyz");
}

#[test]
fn refuses_when_too_small() {
    let mut buf = [7u8; 2];
    assert_eq!(copy_to_buffer(b"abc", &mut buf), -1);
    assert_eq!(buf, [7u8; 2]);
    let mut empty: [u8; 0] = [];
    assert_eq!(copy_to_buffer(b"", &mut empty), 0);
}
