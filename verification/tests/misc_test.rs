use arkd_core::events::{civil_from_days, epoch_secs, iso, iso_at};
use arkd_core::json::{to_text, Json};
use arkd_core::messages::{is_error, is_significant, message_name};
use arkd_core::number::number_lt;
use arkd_core::config::Platform;
use arkd_core::error::Error;
use arkd_core::paths::{expand_tilde, is_within, join_path, normalize_path, path_components, resolve_job_path};

#[test]
fn message_names_follow_the_protocol() {
    assert_eq!(message_name(0), "INTERNAL_ERROR");
    assert_eq!(message_name(10002), "TASK_CHAIN_COMPLETED");
    assert_eq!(message_name(20003), "SUB_TASK_EXTRA_INFO");
    assert_eq!(message_name(42), "Unknown(42)");
    assert!(is_error(10000));
    assert!(is_error(20000));
    assert!(!is_error(10002));
}

#[test]
fn battle_callbacks_are_significant() {
    let battle = Json::Object(vec![("what".to_string(), Json::Str("BattleFormation".to_string()))]);
    let drops = Json::Object(vec![("what".to_string(), Json::Str("StageDrops".to_string()))]);
    assert!(is_significant(20003, &battle));
    assert!(!is_significant(20003, &drops));
    assert!(is_significant(10002, &drops));
}

#[test]
fn timestamps_are_iso_without_a_zone() {
    assert_eq!(iso(0), "1970-01-01T00:00:00");
    assert_eq!(iso(951_782_400), "2000-02-29T00:00:00");
    assert_eq!(iso(1_700_000_000), "2023-11-14T22:13:20");
    assert_eq!(civil_from_days(0), (1970, 1, 1));
    assert_eq!(civil_from_days(-1), (1969, 12, 31));
    assert_eq!(civil_from_days(11_016), (2000, 2, 29));
}

#[test]
fn paths_normalise_lexically() {
    assert_eq!(normalize_path(Platform::MacOs, "/a/./b/../c"), "/a/c");
    assert_eq!(normalize_path(Platform::MacOs, "/../x"), "/x");
    assert_eq!(normalize_path(Platform::MacOs, "a//b/"), "a/b");
    assert_eq!(join_path(Platform::MacOs, "/root", "x.json"), "/root/x.json");
    assert_eq!(join_path(Platform::MacOs, "/root/", "x.json"), "/root/x.json");
    assert_eq!(join_path(Platform::MacOs, "/root", "/abs"), "/abs");
    assert_eq!(path_components(Platform::MacOs, "/a/b/"), vec!["a".to_string(), "b".to_string()]);
    assert!(is_within(Platform::MacOs, "/srv/jobs", "/srv/jobs/a.json"));
    assert!(is_within(Platform::MacOs, "/srv/jobs", "/srv/jobs"));
    assert!(!is_within(Platform::MacOs, "/srv/jobs", "/srv/jobs2/a.json"));
}

#[test]
fn tilde_and_local_app_data_expand() {
    assert_eq!(expand_tilde(Platform::MacOs, "~/x", Some("/home/doc"), None), "/home/doc/x");
    assert_eq!(expand_tilde(Platform::MacOs, "~", Some("/home/doc"), None), "/home/doc");
    assert_eq!(expand_tilde(Platform::MacOs, "~/x", None, None), "~/x");
    assert_eq!(expand_tilde(Platform::Windows, "%LOCALAPPDATA%\\arkd", None, Some("C:\\L")), "C:\\L\\arkd");
    assert_eq!(expand_tilde(Platform::MacOs, "/plain", Some("/home/doc"), None), "/plain");
}

#[test]
fn job_paths_stay_in_the_job_directory() {
    let lexical = |_: &str| -> Option<String> { None };
    assert_eq!(resolve_job_path(Platform::MacOs, "a.json", Some("/srv/jobs"), &lexical).unwrap(), "/srv/jobs/a.json");
    assert_eq!(resolve_job_path(Platform::MacOs, "x/../a.json", Some("/srv/jobs"), &lexical).unwrap(), "/srv/jobs/a.json");
    assert!(resolve_job_path(Platform::MacOs, "../a.json", Some("/srv/jobs"), &lexical).is_err());
    assert_eq!(resolve_job_path(Platform::MacOs, "../a.json", None, &lexical).unwrap(), "../a.json");
}

#[test]
fn windows_paths_follow_windows_rules() {
    let w = Platform::Windows;
    assert_eq!(normalize_path(w, "C:\\jobs\\..\\..\\x"), "C:\\x");
    assert_eq!(normalize_path(w, "C:/a/./b\\..\\c"), "C:\\a\\c");
    assert_eq!(normalize_path(w, "C:foo\\..\\bar"), "C:bar");
    assert_eq!(normalize_path(w, "\\\\srv\\share\\a\\..\\..\\b"), "\\\\srv\\share\\b");
    assert_eq!(join_path(w, "C:\\a", "b"), "C:\\a\\b");
    assert_eq!(join_path(w, "C:\\a", "\\b"), "C:\\b");
    assert_eq!(join_path(w, "C:\\a", "D:\\b"), "D:\\b");
    assert_eq!(join_path(w, "C:\\a", "D:b"), "D:b");
    assert_eq!(join_path(w, "C:", "b"), "C:b");
    assert_eq!(path_components(w, "C:\\a/b\\"), vec!["a".to_string(), "b".to_string()]);
    assert!(is_within(w, "C:\\jobs", "c:\\jobs\\a.json"));
    assert!(!is_within(w, "C:\\jobs", "D:\\jobs\\a.json"));
    assert!(!is_within(w, "C:\\jobs", "C:\\x"));
    assert!(is_within(w, "\\\\srv\\share\\jobs", "\\\\srv\\share\\jobs\\a"));
    assert!(!is_within(w, "\\\\srv\\share\\jobs", "\\\\srv\\other\\jobs\\a"));
    // On Unix a backslash is an ordinary character.
    assert_eq!(normalize_path(Platform::MacOs, "a\\..\\b"), "a\\..\\b");
}

#[test]
fn windows_job_paths_stay_in_the_job_directory() {
    let lexical = |_: &str| -> Option<String> { None };
    let w = Platform::Windows;
    let err = resolve_job_path(w, "..\\..\\x", Some("C:\\jobs"), &lexical).unwrap_err();
    assert!(matches!(err, Error::Validation(_)));
    assert!(err.message().contains("ARKD_JOB_DIR (C:\\jobs)"), "{}", err.message());
    assert_eq!(resolve_job_path(w, "sub\\a.json", Some("C:\\jobs"), &lexical).unwrap(), "C:\\jobs\\sub\\a.json");
    assert!(resolve_job_path(w, "\\x.json", Some("C:\\jobs"), &lexical).is_err());
}

#[test]
fn times_before_the_epoch_print_as_the_epoch() {
    assert_eq!(epoch_secs(Err(5)), 0);
    assert_eq!(epoch_secs(Ok(42)), 42);
    assert_eq!(epoch_secs(Ok(u64::MAX)), i64::MAX as u64);
    assert_eq!(iso_at(Err(1)), "1970-01-01T00:00:00");
    assert_eq!(iso_at(Ok(951_782_400)), "2000-02-29T00:00:00");
    assert_eq!(iso_at(Ok(86_399)), "1970-01-01T23:59:59");
}

#[test]
fn numbers_compare_as_doubles() {
    let f = |x: f64| Json::Float(format!("{x}"), x.to_bits());
    assert_eq!(number_lt(&Json::Int(1), &Json::Int(2)), Some(true));
    assert_eq!(number_lt(&f(1.5), &Json::Int(1)), Some(false));
    assert_eq!(number_lt(&Json::Int(1), &f(1.5)), Some(true));
    assert_eq!(number_lt(&Json::UInt(u64::MAX), &Json::Int(i64::MAX)), Some(false));
    assert_eq!(number_lt(&Json::Str("1".to_string()), &Json::Int(2)), None);
    assert_eq!(to_text(&f(0.3)), "0.3");
    // Integers compare as the doubles nearest to them, as `as_f64` gives them.
    let big = 1i64 << 53;
    for (a, b) in [(big, big + 1), (big + 3, big + 4), (big + 2, big + 3), (big - 1, big), (-big - 1, -big)] {
        assert_eq!(number_lt(&Json::Int(a), &Json::Int(b)), Some((a as f64) < (b as f64)), "{a} < {b}");
    }
    assert_eq!(number_lt(&Json::Int(big), &Json::Int(big + 1)), Some(false));
    assert_eq!(number_lt(&Json::Int(big + 2), &Json::Int(big + 3)), Some(true));
    assert_eq!(number_lt(&Json::UInt(u64::MAX - 1), &f(18446744073709551616.0)), Some(false));
    assert_eq!(number_lt(&f(9007199254740992.0), &Json::UInt((1u64 << 53) + 1)), Some(false));
}

#[test]
fn a_written_key_reads_back() {
    let mut v = Json::Object(vec![
        ("device".to_string(), Json::Str("mac".to_string())),
        ("busy".to_string(), Json::Bool(false)),
    ]);
    v.insert("busy", Json::Bool(true));
    v.insert("uptime", Json::Int(5));
    assert_eq!(to_text(&v), r#"{"device":"mac","busy":true,"uptime":5}"#);
    assert_eq!(v.get_str("device").unwrap(), "mac");
    assert_eq!(v.get_i64("uptime"), Some(5));
    let mut s = Json::Str("x".to_string());
    s.insert("k", Json::Null);
    assert_eq!(to_text(&s), r#""x""#);
}
