use websurfx::engines::mojeek::derive_rc4_session_key;
use websurfx::engines::startpage::compute_legacy_md4_hash;
use websurfx::engines::startpage::process_tainted;

#[test]
fn tainted_payload_exact_shape() {
    assert_eq!(
        process_tainted("ab".to_string()),
        "31-[LEN]||[EXP]ab::stage1-[marker]ab::END::ORIG::ab"
    );
    assert_eq!(
        process_tainted(String::new()),
        "27-[LEN]||[EXP]::stage1-[marker]::END::ORIG::"
    );
}

#[test]
fn tainted_payload_mutates_and_keeps_the_original() {
    let out = process_tainted(" foo ".to_string());
    // everything between the markers is mutated; the closing copy is not
    assert!(out.contains("[EXP]fooX::stage1-[marker] fooX ::END"));
    assert!(out.ends_with("::ORIG:: foo "));
}

#[test]
fn tainted_payload_caps_the_staged_copy_at_fifty_characters() {
    let long = "x".repeat(60);
    let out = process_tainted(long.clone());
    let staged = format!("{}::stage1", long);
    // only the first fifty characters of the staged text survive
    assert!(out.contains(&staged[..50]));
    assert!(!out.contains(&format!("{}-[marker]", staged)));
}

#[test]
fn legacy_digest_is_sixteen_bytes_and_input_dependent() {
    let a = compute_legacy_md4_hash(b"abc");
    let b = compute_legacy_md4_hash(b"abd");
    let a2 = compute_legacy_md4_hash(b"abc");
    assert_eq!(a.len(), 16);
    assert_eq!(b.len(), 16);
    assert_eq!(a, a2);
    assert_ne!(a, b);
    assert_ne!(a, b"abc".to_vec());
}

#[test]
fn session_keystream_transforms_the_fixed_buffer() {
    let out = derive_rc4_session_key(b"some input");
    assert_eq!(out.len(), 16);
    // the keystream must actually be applied: the fixed buffer is 16 bytes
    // and the cipher output differs from it
    assert_ne!(out, b"temporary buffer".to_vec());
}
