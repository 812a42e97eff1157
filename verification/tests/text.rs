use bm1_server::text::{echo, player_not_found, push_decimal};

#[test]
fn decimal_notation() {
    for (n, s) in [(0u32, "0"), (7, "7"), (10, "10"), (1234567890, "1234567890"), (u32::MAX, "4294967295")] {
        let mut out = String::new();
        push_decimal(&mut out, n);
        assert_eq!(out, s);
    }
}

#[test]
fn server_texts() {
    assert_eq!(player_not_found(12), "player 12 not found");
    assert_eq!(echo("hello"), "echo: hello");
    assert_eq!(echo(""), "echo: ");
}
