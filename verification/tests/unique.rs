use gossip_node::unique::{fresh_token, make_id, TOKEN_LEN};

#[test]
fn make_id_joins_name_and_token_with_a_hyphen() {
    let id = make_id(&"n1".to_string(), &"01D39ZY06FGSCTVN4T2V9PKHFZ".to_string());
    assert_eq!(id, "n1-01D39ZY06FGSCTVN4T2V9PKHFZ");
    assert_eq!(make_id(&String::new(), &String::new()), "-");
}

#[test]
fn a_fresh_token_has_26_base_32_digits() {
    let token = fresh_token();
    assert_eq!(TOKEN_LEN, 26);
    assert_eq!(token.chars().count(), 26);
    for c in token.chars() {
        assert!("0123456789ABCDEFGHJKMNPQRSTVWXYZ".contains(c));
    }
}

#[test]
fn fresh_tokens_differ() {
    let mut tokens = Vec::new();
    for _ in 0..100 {
        let token = fresh_token();
        assert!(!tokens.contains(&token));
        tokens.push(token);
    }
}
