use scoob::encoding::{decode_base64, decode_hex};
use scoob::key_reference::{resolve_key, KeyReference, Resolved};
use scoob::keys::{decode_key, exact_key};
use scoob::text::{find_char, same_text};

fn found_with(variables: &[(&str, &str)], secrets: &[(&str, &str)]) -> Resolved {
    let mut found = Resolved::new();
    for (name, value) in variables {
        found.variables.insert(name.to_string(), value.to_string());
    }
    for (id, value) in secrets {
        found.secrets.insert(id.to_string(), value.to_string());
    }
    found
}

#[test]
fn parse_reads_a_reference_without_dollar_as_literal() {
    assert!(matches!(
        KeyReference::parse("3q2+7w=="),
        KeyReference::Literal(text) if text == "3q2+7w=="
    ));
    assert!(matches!(KeyReference::parse(""), KeyReference::Literal(text) if text.is_empty()));
}

#[test]
fn parse_reads_the_two_forms_of_a_variable() {
    assert!(matches!(KeyReference::parse("$HOME"), KeyReference::Variable(name) if name == "HOME"));
    assert!(
        matches!(KeyReference::parse("env$HOME"), KeyReference::Variable(name) if name == "HOME")
    );
    assert!(matches!(KeyReference::parse("$"), KeyReference::Variable(name) if name.is_empty()));
    assert!(matches!(KeyReference::parse("env$"), KeyReference::Variable(name) if name.is_empty()));
}

#[test]
fn parse_reads_a_secret_store_reference() {
    assert!(matches!(
        KeyReference::parse("awsSecretsManager$prod/keys/public"),
        KeyReference::Secret(id) if id == "prod/keys/public"
    ));
}

#[test]
fn parse_splits_at_the_first_dollar_only() {
    assert!(matches!(KeyReference::parse("$A$B"), KeyReference::Variable(name) if name == "A$B"));
    assert!(matches!(
        KeyReference::parse("awsSecretsManager$a$b"),
        KeyReference::Secret(id) if id == "a$b"
    ));
    assert!(matches!(
        KeyReference::parse("env$$"),
        KeyReference::Variable(name) if name == "$"
    ));
}

#[test]
fn parse_reads_an_unknown_scheme_as_literal() {
    assert!(matches!(
        KeyReference::parse("vault$secret"),
        KeyReference::Literal(text) if text == "vault$secret"
    ));
    assert!(matches!(
        KeyReference::parse("ENV$HOME"),
        KeyReference::Literal(text) if text == "ENV$HOME"
    ));
    assert!(matches!(
        KeyReference::parse("\u{e9}nv$HOME"),
        KeyReference::Literal(text) if text == "\u{e9}nv$HOME"
    ));
}

#[test]
fn parse_counts_the_split_in_characters() {
    assert!(matches!(
        KeyReference::parse("env$cl\u{e9}$\u{1f511}"),
        KeyReference::Variable(name) if name == "cl\u{e9}$\u{1f511}"
    ));
}

#[test]
fn test_env_key() {
    let found = found_with(&[("SCOOB_PUBLIC", "from the environment")], &[]);
    assert_eq!(resolve_key("$SCOOB_PUBLIC", &found), "from the environment");
    assert_eq!(resolve_key("env$SCOOB_PUBLIC", &found), "from the environment");
}

#[test]
fn resolve_gives_the_empty_text_for_what_was_not_found() {
    let found = found_with(&[("SET", "value")], &[("known", "secret")]);
    assert_eq!(resolve_key("$UNSET", &found), "");
    assert_eq!(resolve_key("env$UNSET", &found), "");
    assert_eq!(resolve_key("awsSecretsManager$unknown", &found), "");
    assert_eq!(resolve_key("$", &found), "");
}

#[test]
fn resolve_keeps_variables_and_secrets_apart() {
    let found = found_with(&[("name", "variable")], &[("name", "secret")]);
    assert_eq!(resolve_key("$name", &found), "variable");
    assert_eq!(resolve_key("awsSecretsManager$name", &found), "secret");
}

#[test]
fn resolve_hands_a_literal_back() {
    let found = found_with(&[("literal", "variable")], &[]);
    assert_eq!(resolve_key("literal", &found), "literal");
    assert_eq!(resolve_key("other$literal", &found), "other$literal");
}

#[test]
fn base64_decoding_follows_the_standard_alphabet() {
    assert_eq!(
        decode_base64("SGVsbG8gd29ybGQ="),
        Some(b"Hello world".to_vec())
    );
    assert_eq!(decode_base64(""), Some(Vec::new()));
    assert_eq!(decode_base64("+/8="), Some(vec![0xfb, 0xff]));
    assert_eq!(decode_base64("SGVsbG8gd29ybGQ"), None);
    assert_eq!(decode_base64("SGVs bG8="), None);
    assert_eq!(decode_base64("-_8="), None);
}

#[test]
fn hex_decoding_takes_both_cases() {
    assert_eq!(decode_hex("DeadBeef"), Some(vec![0xde, 0xad, 0xbe, 0xef]));
    assert_eq!(decode_hex("00ff"), Some(vec![0x00, 0xff]));
    assert_eq!(decode_hex("abc"), None);
    assert_eq!(decode_hex("zz"), None);
}

#[test]
fn a_key_of_64_bytes_is_read_as_hexadecimal() {
    let text = "000102030405060708090A0B0C0D0E0F101112131415161718191a1b1c1d1e1f";
    assert_eq!(text.len(), 64);
    let bytes = decode_key(text);
    assert_eq!(bytes, (0u8..32).collect::<Vec<u8>>());
    assert_eq!(exact_key(&bytes).unwrap().to_vec(), bytes);
}

#[test]
fn a_key_of_any_other_length_is_read_as_base64() {
    let text = "AAECAwQFBgcICQoLDA0ODxAREhMUFRYXGBkaGxwdHh8=";
    assert_eq!(text.len(), 44);
    assert_eq!(decode_key(text), (0u8..32).collect::<Vec<u8>>());
    assert_eq!(decode_key("3q2+7w=="), vec![0xde, 0xad, 0xbe, 0xef]);
}

#[test]
fn a_key_that_does_not_decode_has_no_bytes() {
    assert_eq!(decode_key(""), Vec::<u8>::new());
    assert_eq!(decode_key("not base64!"), Vec::<u8>::new());
    let not_hex = "g".repeat(64);
    assert_eq!(decode_key(&not_hex), Vec::<u8>::new());
    let base64_of_48_bytes = "Q".repeat(64);
    assert_eq!(decode_base64(&base64_of_48_bytes).map(|bytes| bytes.len()), Some(48));
    assert_eq!(decode_key(&base64_of_48_bytes), Vec::<u8>::new());
}

#[test]
fn exact_key_takes_32_bytes_and_nothing_else() {
    assert!(exact_key(&vec![7u8; 32]).is_some());
    assert_eq!(exact_key(&vec![7u8; 32]).unwrap(), [7u8; 32]);
    assert!(exact_key(&vec![7u8; 31]).is_none());
    assert!(exact_key(&vec![7u8; 33]).is_none());
    assert!(exact_key(&Vec::new()).is_none());
}

#[test]
fn same_text_compares_whole_strings() {
    assert!(same_text("", ""));
    assert!(same_text("<encrypted>", "<encrypted>"));
    assert!(!same_text("<encrypted>", "<encrypted> "));
    assert!(!same_text("abc", "abd"));
    assert!(!same_text("abc", "ab"));
    assert!(same_text("cl\u{e9}", "cl\u{e9}"));
    assert!(!same_text("cl\u{e9}", "cle"));
}

#[test]
fn find_char_counts_characters_not_bytes() {
    assert_eq!(find_char("abc", '$'), None);
    assert_eq!(find_char("", '$'), None);
    assert_eq!(find_char("$abc", '$'), Some(0));
    assert_eq!(find_char("ab$c$", '$'), Some(2));
    assert_eq!(find_char("\u{e9}\u{1f511}$", '$'), Some(2));
}

#[test]
fn record_keeps_what_was_found_and_nothing_else() {
    let mut found = Resolved::new();
    found.record(KeyReference::parse("$SET"), Some("variable".to_string()));
    found.record(KeyReference::parse("env$UNSET"), None);
    found.record(
        KeyReference::parse("awsSecretsManager$known"),
        Some("secret".to_string()),
    );
    found.record(KeyReference::parse("awsSecretsManager$unknown"), None);
    found.record(KeyReference::parse("literal"), Some("ignored".to_string()));
    assert_eq!(found.variables.len(), 1);
    assert_eq!(found.secrets.len(), 1);
    assert_eq!(resolve_key("env$SET", &found), "variable");
    assert_eq!(resolve_key("$UNSET", &found), "");
    assert_eq!(resolve_key("awsSecretsManager$known", &found), "secret");
    assert_eq!(resolve_key("awsSecretsManager$unknown", &found), "");
    assert_eq!(resolve_key("literal", &found), "literal");

    found.record(KeyReference::parse("$SET"), Some("changed".to_string()));
    assert_eq!(found.variables.len(), 1);
    assert_eq!(resolve_key("$SET", &found), "changed");
}

#[test]
fn hex_digits_end_where_the_letters_a_to_f_end() {
    assert_eq!(decode_hex("09afAF"), Some(vec![0x09, 0xaf, 0xaf]));
    assert_eq!(decode_hex(""), Some(Vec::new()));
    for bad in ["0g", "0G", "0:", "0/", "0@", "0`", "g0", " 0", "0", "\u{e9}"] {
        assert_eq!(decode_hex(bad), None);
    }
    assert_eq!(decode_hex("10"), Some(vec![16]));
    assert_eq!(decode_hex("01"), Some(vec![1]));
}
