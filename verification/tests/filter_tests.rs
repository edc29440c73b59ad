use tracing_line_filter::descriptor::Descriptor;
use tracing_line_filter::filter::{Admission, LineFilter};
use tracing_line_filter::paths::{BadPath, PathFault};
use tracing_subscriber::EnvFilter;

fn descriptor(
    module: Option<&str>,
    target: &str,
    file: Option<&str>,
    line: Option<u32>,
) -> Descriptor {
    Descriptor {
        module: module.map(|m| m.to_owned()),
        target: target.to_owned(),
        file: file.map(|f| f.to_owned()),
        line,
    }
}

#[test]
fn registered_module_line_is_admitted() {
    let mut f = LineFilter::new();
    f.enable_by_mod("app::worker", 10);
    let d = descriptor(Some("app::worker"), "app", None, Some(10));
    assert!(f.contains(&d));
    assert_eq!(f.decide(&d), Admission::Always);
}

#[test]
fn registered_pair_is_admitted_with_fallback_configured_too() {
    let mut f = LineFilter::new();
    f.enable_by_mod("app::worker", 10);
    f.with_env_filter(EnvFilter::new("off"));
    let d = descriptor(Some("app::worker"), "app", None, Some(10));
    assert!(f.contains(&d));
    assert_eq!(f.decide(&d), Admission::Always);
}

#[test]
fn unregistered_line_without_fallback_is_rejected() {
    let mut f = LineFilter::new();
    f.enable_by_mod("app::worker", 10);
    let d = descriptor(Some("app::worker"), "app", None, Some(11));
    assert!(!f.contains(&d));
    assert_eq!(f.decide(&d), Admission::Never);
}

#[test]
fn unregistered_line_with_fallback_delegates() {
    let mut f = LineFilter::new();
    f.enable_by_mod("app::worker", 10);
    f.with_env_filter(EnvFilter::new("warn"));
    let d = descriptor(Some("app::worker"), "app", None, Some(11));
    assert!(!f.contains(&d));
    assert_eq!(f.decide(&d), Admission::Delegate);
}

#[test]
fn enabling_twice_leaves_membership_unchanged() {
    let mut f = LineFilter::new();
    f.enable_by_mod("app::worker", 10);
    f.enable_by_mod("app::worker", 10);
    let hit = descriptor(Some("app::worker"), "app", None, Some(10));
    let miss = descriptor(Some("app::worker"), "app", None, Some(11));
    assert!(f.contains(&hit));
    assert!(!f.contains(&miss));
    assert_eq!(f.decide(&hit), Admission::Always);
    assert_eq!(f.decide(&miss), Admission::Never);
}

#[test]
fn descriptor_without_line_never_matches() {
    let mut f = LineFilter::new();
    f.enable_by_mod("app::worker", 10);
    let d = descriptor(Some("app::worker"), "app", None, None);
    assert!(!f.contains(&d));
    assert_eq!(f.decide(&d), Admission::Never);
}

#[test]
fn target_stands_in_for_missing_module_path() {
    let mut f = LineFilter::new();
    f.enable_by_mod("app::worker", 10);
    let d = descriptor(None, "app::worker", None, Some(10));
    assert!(f.contains(&d));
}

#[test]
fn target_is_not_consulted_when_module_path_is_present() {
    let mut f = LineFilter::new();
    f.enable_by_mod("app::worker", 10);
    let d = descriptor(Some("app::other"), "app::worker", None, Some(10));
    assert!(!f.contains(&d));
}

#[test]
fn relative_path_is_rejected() {
    let mut f = LineFilter::new();
    let r = f.enable_by_file(b"src/app.src".to_vec(), 5);
    let e = r.expect_err("a relative path must be rejected");
    assert_eq!(e.fault, PathFault::NotAbsolute);
    assert_eq!(e.message(), "must be absolute");
    assert_eq!(e.path, b"src/app.src".to_vec());
    let d = descriptor(None, "app", Some("src/app.src"), Some(5));
    assert!(!f.contains(&d));
}

#[test]
fn wrong_extension_is_rejected() {
    let mut f = LineFilter::new();
    let r = f.enable_by_file(b"/src/app.txt".to_vec(), 5);
    let e = r.expect_err("a non-source-file path must be rejected");
    assert_eq!(e.fault, PathFault::NotSourceFile);
    assert_eq!(e.message(), "must be a source file");
    let d = descriptor(None, "app", Some("/src/app.txt"), Some(5));
    assert!(!f.contains(&d));
}

#[test]
fn empty_stem_is_rejected() {
    let mut f = LineFilter::new();
    let r = f.enable_by_file(b"/src/.src".to_vec(), 5);
    let e = r.expect_err("a path whose final component is only the extension must be rejected");
    assert_eq!(e.fault, PathFault::NotSourceFile);
}

#[test]
fn non_text_bytes_are_rejected() {
    let mut f = LineFilter::new();
    let mut path = b"/src/a".to_vec();
    path.push(0xff);
    path.extend_from_slice(b".src");
    let r = f.enable_by_file(path.clone(), 5);
    let e = r.expect_err("a path with non-text bytes must be rejected");
    assert_eq!(e.fault, PathFault::NotText);
    assert_eq!(e.message(), "must be valid text");
    assert_eq!(e.path, path);
}

#[test]
fn rejected_path_leaves_file_list_unchanged() {
    let mut f = LineFilter::new();
    f.enable_by_file(b"/src/app.src".to_vec(), 30).expect("a valid path must be accepted");
    f.enable_by_file(b"other.src".to_vec(), 31).expect_err("a relative path must be rejected");
    assert!(f.contains(&descriptor(None, "app", Some("/src/app.src"), Some(30))));
    assert!(!f.contains(&descriptor(None, "app", Some("other.src"), Some(31))));
}

#[test]
fn file_match_admits_when_module_is_unlisted() {
    let mut f = LineFilter::new();
    f.enable_by_file(b"/src/app.src".to_vec(), 30).expect("a valid path must be accepted");
    let d = descriptor(Some("app"), "app", Some("/src/app.src"), Some(30));
    assert!(f.contains(&d));
    assert_eq!(f.decide(&d), Admission::Always);
}

#[test]
fn interest_is_always_before_any_record_and_stays_always() {
    let mut f = LineFilter::new();
    f.enable_by_mod("app::worker", 10);
    let d = descriptor(Some("app::worker"), "app", None, Some(10));
    assert_eq!(f.decide(&d), Admission::Always);
    f.enable_by_mod("app::other", 99);
    f.enable_by_file(b"/src/app.src".to_vec(), 30).expect("a valid path must be accepted");
    f.with_env_filter(EnvFilter::new("off"));
    assert_eq!(f.decide(&d), Admission::Always);
}

#[test]
fn bulk_module_enable_registers_each_pair() {
    let mut f = LineFilter::new();
    f.with_modules(vec![("app::foo".to_owned(), 5), ("app::bar".to_owned(), 12)]);
    assert!(f.contains(&descriptor(Some("app::foo"), "app", None, Some(5))));
    assert!(f.contains(&descriptor(Some("app::bar"), "app", None, Some(12))));
    assert!(!f.contains(&descriptor(Some("app::foo"), "app", None, Some(12))));
}

#[test]
fn bulk_file_enable_accepts_all_valid_paths() {
    let mut f = LineFilter::new();
    let r = f.with_files(vec![(b"/src/a.src".to_vec(), 1), (b"/src/b.src".to_vec(), 2)]);
    assert!(r.is_ok());
    assert!(f.contains(&descriptor(None, "app", Some("/src/a.src"), Some(1))));
    assert!(f.contains(&descriptor(None, "app", Some("/src/b.src"), Some(2))));
}

#[test]
fn bulk_file_enable_stops_at_first_invalid_path() {
    let mut f = LineFilter::new();
    let r = f.with_files(vec![
        (b"/src/a.src".to_vec(), 1),
        (b"b.src".to_vec(), 2),
        (b"/src/c.src".to_vec(), 3),
    ]);
    let e = r.expect_err("the invalid second entry must be reported");
    assert_eq!(e.fault, PathFault::NotAbsolute);
    assert_eq!(e.path, b"b.src".to_vec());
    assert!(f.contains(&descriptor(None, "app", Some("/src/a.src"), Some(1))));
    assert!(!f.contains(&descriptor(None, "app", Some("/src/c.src"), Some(3))));
}

#[test]
fn new_filter_enables_nothing() {
    let f = LineFilter::new();
    let d = descriptor(Some("app"), "app", Some("/src/app.src"), Some(1));
    assert!(!f.contains(&d));
    assert_eq!(f.decide(&d), Admission::Never);
}

#[test]
fn default_filter_enables_nothing() {
    let f = LineFilter::default();
    let d = descriptor(Some("app"), "app", None, Some(1));
    assert!(!f.contains(&d));
    assert_eq!(f.decide(&d), Admission::Never);
}

#[test]
fn empty_filter_with_fallback_delegates_everything() {
    let mut f = LineFilter::new();
    f.with_env_filter(EnvFilter::new("info"));
    let d = descriptor(Some("app"), "app", None, Some(1));
    assert_eq!(f.decide(&d), Admission::Delegate);
}

#[test]
fn env_filter_accessor_reflects_composition() {
    let mut f = LineFilter::new();
    assert!(f.env_filter().is_none());
    f.with_env_filter(EnvFilter::new("info"));
    assert!(f.env_filter().is_some());
    f.with_env_filter(EnvFilter::new("warn"));
    assert!(f.env_filter().is_some());
}

#[test]
fn bad_path_carries_path_and_fault() {
    let e = BadPath::new(b"nope".to_vec(), PathFault::NotAbsolute);
    assert_eq!(e.path, b"nope".to_vec());
    assert_eq!(e.fault, PathFault::NotAbsolute);
    assert_eq!(e.message(), "must be absolute");
}
