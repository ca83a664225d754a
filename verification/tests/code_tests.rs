use oort_vm::code::{code_to_string, is_encrypted, str_to_code, Code};
use oort_vm::limiter::rewrite;
use oort_vm::ErrorKind;

#[test]
fn code_text_round_trip() {
    assert_eq!(code_to_string(&Code::Absent), "");
    assert_eq!(code_to_string(&Code::Source("fn main() {}".to_string())), "fn main() {}");
    assert_eq!(code_to_string(&Code::Wasm(vec![1, 2, 3])), "// wasm");
    assert_eq!(code_to_string(&Code::Precompiled(vec![1])), "// wasm");
    assert_eq!(code_to_string(&Code::Builtin("tutorial".to_string())), "#builtin:tutorial");
}

#[test]
fn text_parses_to_code() {
    match str_to_code("#builtin:reference") {
        Code::Builtin(name) => assert_eq!(name, "reference"),
        _ => panic!("expected a builtin"),
    }
    match str_to_code("// intro\n#builtin:frigate.duel\nrest") {
        Code::Builtin(name) => assert_eq!(name, "frigate.duel"),
        _ => panic!("expected a builtin"),
    }
    assert!(matches!(str_to_code("   \n\t  "), Code::Absent));
    assert!(matches!(str_to_code(""), Code::Absent));
    match str_to_code("fn tick() {}") {
        Code::Source(s) => assert_eq!(s, "fn tick() {}"),
        _ => panic!("expected source"),
    }
}

#[test]
fn encrypted_sources_are_recognized() {
    assert!(is_encrypted(&Code::Source("ENCRYPTED:abcdef".to_string())));
    assert!(!is_encrypted(&Code::Source("plain text".to_string())));
    assert!(!is_encrypted(&Code::Builtin("ENCRYPTED:x".to_string())));
}

#[test]
fn limiter_screens_module_headers() {
    // a bare header: the pass accepts it and weaves the gas machinery in
    let bare = vec![0x00, 0x61, 0x73, 0x6d, 0x01, 0x00, 0x00, 0x00];
    let out = rewrite(&bare).expect("well-formed header accepted");
    assert_eq!(&out[..8], &bare[..]);
    assert!(out.len() > bare.len(), "gas machinery appended");

    let empty: Vec<u8> = Vec::new();
    let e = rewrite(&empty).unwrap_err();
    assert!(matches!(e.kind, ErrorKind::ModuleValidation));

    let bad_magic = vec![0x00, 0x61, 0x73, 0x6e, 0x01, 0x00, 0x00, 0x00];
    assert!(rewrite(&bad_magic).is_err());

    let bad_version = vec![0x00, 0x61, 0x73, 0x6d, 0x02, 0x00, 0x00, 0x00];
    assert!(rewrite(&bad_version).is_err());

    // an undecodable section is refused, not passed through
    let mut garbage = bare.clone();
    garbage.extend_from_slice(&[0xaa, 0xbb]);
    assert!(rewrite(&garbage).is_err());
}
