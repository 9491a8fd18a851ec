use pmgfal::{cache_key, key_input, ParseError};

fn files(v: &[(&str, &str)]) -> Vec<(Vec<u8>, Vec<u8>)> {
    v.iter().map(|(n, c)| (n.as_bytes().to_vec(), c.as_bytes().to_vec())).collect()
}

#[test]
fn key_input_concatenates_in_order() {
    let f = files(&[("a.json", "{}"), ("b.json", "[]")]);
    assert_eq!(key_input("0.1.0", Some("myapp"), &f), b"0.1.0myappa.json{}b.json[]".to_vec());
    assert_eq!(key_input("0.1.0", None, &f), b"0.1.0a.json{}b.json[]".to_vec());
}

#[test]
fn cache_key_known_values() {
    assert_eq!(cache_key("0.1.0", None, &files(&[("a.json", "{}")])), "432be73eeb5998f6");
    assert_eq!(
        cache_key("0.1.0", Some("myapp"), &files(&[("a.json", "{}"), ("b.json", "[]")])),
        "bf9ae9ccdea733aa"
    );
    assert_eq!(cache_key("0.1.0", None, &Vec::new()), "6ad9613a455798d6");
}

#[test]
fn error_messages() {
    assert_eq!(ParseError::NotADirectory("/x".to_string()).message(), "not a directory: /x");
    assert_eq!(ParseError::Io("denied".to_string()).message(), "io error: denied");
}

#[test]
fn cache_key_is_sixteen_hex_digits() {
    let k = cache_key("2.0.0", Some("pkg"), &files(&[("x.json", "{\"id\":1}")]));
    assert_eq!(k.len(), 16);
    assert!(k.chars().all(|c| matches!(c, '0'..='9' | 'a'..='f')));
}
