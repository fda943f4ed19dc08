use dnet_p2p::echo::echo_upper;

#[test]
fn uppercases_text() {
    assert_eq!(echo_upper("hello, World 1!"), "HELLO, WORLD 1!");
    assert_eq!(echo_upper("straße"), "STRASSE");
    assert_eq!(echo_upper(""), "");
}
