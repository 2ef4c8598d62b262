use intel_candidate_app::hash::{sha256_hex, stable_id};

#[test]
fn stable_id_is_deterministic() {
    assert_eq!(
        stable_id("cand", &["a", "b"]),
        stable_id("cand", &["a", "b"])
    );
    assert_ne!(
        stable_id("cand", &["a", "b"]),
        stable_id("cand", &["a", "c"])
    );
}

#[test]
fn sha256_hex_of_known_inputs() {
    assert_eq!(
        sha256_hex(b""),
        "e3b0c44298fc1c149afbf4c8996fb92427ae41e4649b934ca495991b7852b855"
    );
    assert_eq!(
        sha256_hex(b"abc"),
        "ba7816bf8f01cfea414140de5dae2223b00361a396177a9cb410ff61f20015ad"
    );
}

#[test]
fn stable_id_is_prefix_and_hash_of_joined_parts() {
    // "a|b" hashed; the id keeps the first 24 hex digits.
    let id = stable_id("cand", &["a", "b"]);
    assert_eq!(id, format!("cand_{}", &sha256_hex(b"a|b")[..24]));
    assert_eq!(id.len(), "cand".len() + 25);
    assert_eq!(stable_id("x", &[]), format!("x_{}", &sha256_hex(b"")[..24]));
    assert_eq!(stable_id("x", &["abc"]), format!("x_{}", &sha256_hex(b"abc")[..24]));
}

#[test]
fn stable_id_tail_is_lowercase_hex() {
    let id = stable_id("cand", &["a", "b"]);
    assert_eq!(id.len(), "cand".len() + 25);
    assert!(id.starts_with("cand_"));
    assert!(id[5..].chars().all(|c| c.is_ascii_digit() || ('a'..='f').contains(&c)));
}
