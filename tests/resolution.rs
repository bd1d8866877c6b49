use smartrelease::error::ResolveError;
use smartrelease::matcher::{compile, match_asset, Asset, Config};
use smartrelease::pattern::{pre_check, replace, strip_tokens, Overrides};
use smartrelease::resolve::{custom_platform, fallback_location, process, Platform, Query};
use smartrelease::text::{replace_all, same_text};
use smartrelease::version::decompose;

fn no_overrides() -> Overrides {
    Overrides { major: None, minor: None, patch: None, pre: None, tag: None }
}

fn literal_config() -> Config {
    Config { regex_enabled: false, max_pattern_len: 70, custom_hosts: false }
}

fn regex_config() -> Config {
    Config { regex_enabled: true, max_pattern_len: 70, custom_hosts: false }
}

fn asset(name: &str) -> Asset {
    Asset { name: name.to_string(), download_url: format!("https://dl.example/{}", name) }
}

fn opt(s: &Option<String>) -> Option<&str> {
    s.as_deref()
}

#[test]
fn decompose_semver_with_pre() {
    let v = decompose("v1.2.3-beta");
    assert_eq!(opt(&v.major), Some("1"));
    assert_eq!(opt(&v.minor), Some("2"));
    assert_eq!(opt(&v.patch), Some("3"));
    assert_eq!(opt(&v.pre), Some("beta"));
}

#[test]
fn decompose_date_tag() {
    let v = decompose("2021-05-01");
    assert_eq!(opt(&v.major), Some("2021"));
    assert_eq!(opt(&v.minor), Some("05"));
    assert_eq!(opt(&v.patch), Some("01"));
    assert_eq!(opt(&v.pre), None);
}

#[test]
fn decompose_without_digits() {
    let v = decompose("latest");
    assert_eq!(opt(&v.major), None);
    assert_eq!(opt(&v.minor), None);
    assert_eq!(opt(&v.patch), None);
    assert_eq!(opt(&v.pre), None);
}

#[test]
fn decompose_major_only() {
    let v = decompose("release-7");
    assert_eq!(opt(&v.major), Some("7"));
    assert_eq!(opt(&v.minor), None);
    assert_eq!(opt(&v.pre), None);
}

#[test]
fn decompose_pre_without_separator() {
    let v = decompose("1.2rc1");
    assert_eq!(opt(&v.major), Some("1"));
    assert_eq!(opt(&v.minor), Some("2"));
    assert_eq!(opt(&v.patch), None);
    assert_eq!(opt(&v.pre), Some("rc1"));
}

#[test]
fn decompose_fourth_number_is_pre() {
    let v = decompose("1.2.3.4");
    assert_eq!(opt(&v.patch), Some("3"));
    assert_eq!(opt(&v.pre), Some("4"));
}

#[test]
fn compile_literal_pattern() {
    let m = compile("app-{major}.{minor}.zip", "v2.5.0", &no_overrides(), true, &literal_config())
        .unwrap();
    assert_eq!(m.as_str(), r"app\-2\.5\.zip");
    assert!(m.is_match("app-2.5.zip"));
    assert!(!m.is_match("app-2x5.zip"));
    assert!(!m.is_match("app-2.6.zip"));
}

#[test]
fn override_precedence() {
    let mut ov = no_overrides();
    ov.major = Some("X".to_string());
    assert_eq!(replace("{major}", "v1.0.0", &ov, true), "X");
    let m = compile("{major}", "v1.0.0", &ov, true, &literal_config()).unwrap();
    assert_eq!(m.as_str(), "X");
    assert!(!m.is_match("1"));
}

#[test]
fn tag_override_precedence() {
    let mut ov = no_overrides();
    ov.tag = Some("nightly".to_string());
    assert_eq!(replace("app-{tag}-{major}", "v3.1", &ov, true), "app-nightly-3");
    assert_eq!(replace("app-{tag}", "v3.1", &no_overrides(), true), "app-v3.1");
}

#[test]
fn clear_unknown_policy() {
    assert_eq!(replace("a{unknown}b", "v1.0.0", &no_overrides(), false), "a{unknown}b");
    assert_eq!(replace("a{unknown}b", "v1.0.0", &no_overrides(), true), "ab");
    assert_eq!(replace("a{pre}b", "v1.0.0", &no_overrides(), false), "a{pre}b");
    assert_eq!(replace("a{pre}b", "v1.0.0", &no_overrides(), true), "ab");
}

#[test]
fn length_guard() {
    let long = "a".repeat(71);
    let exact = "a".repeat(70);
    assert_eq!(pre_check(&long, 70), Err(ResolveError::PatternTooLong));
    assert_eq!(pre_check(&exact, 70), Ok(()));
    assert_eq!(pre_check(&long, -1), Ok(()));
    let with_tokens = format!("{}{{major}}{{minor}}", exact);
    assert_eq!(pre_check(&with_tokens, 70), Ok(()));
    let r = compile(&long, "v1", &no_overrides(), true, &literal_config());
    assert!(matches!(r, Err(ResolveError::PatternTooLong)));
}

#[test]
fn strip_tokens_deletes_word_tokens_only() {
    assert_eq!(strip_tokens("{a}{}x{b-c}"), "x{b-c}");
    assert_eq!(strip_tokens("{{a}}"), "{}");
}

#[test]
fn reverse_tests_last_first() {
    let assets = vec![asset("tool-a.zip"), asset("tool-b.zip"), asset("tool-c.zip")];
    let m = compile("tool", "v1", &no_overrides(), true, &literal_config()).unwrap();
    assert_eq!(match_asset(&m, &assets, true).unwrap(), "https://dl.example/tool-c.zip");
    assert_eq!(match_asset(&m, &assets, false).unwrap(), "https://dl.example/tool-a.zip");
    let m = compile("-b", "v1", &no_overrides(), true, &literal_config()).unwrap();
    assert_eq!(match_asset(&m, &assets, true).unwrap(), "https://dl.example/tool-b.zip");
}

#[test]
fn no_matching_asset() {
    let assets = vec![asset("tool-a.zip"), asset("tool-b.zip")];
    let m = compile("other", "v1", &no_overrides(), true, &literal_config()).unwrap();
    assert_eq!(match_asset(&m, &assets, false), Err(ResolveError::NoMatchingAsset));
    assert_eq!(match_asset(&m, &Vec::new(), true), Err(ResolveError::NoMatchingAsset));
}

#[test]
fn literal_mode_escapes_wildcards() {
    let m = compile("a.*b", "v1", &no_overrides(), true, &literal_config()).unwrap();
    assert_eq!(m.as_str(), r"a\.\*b");
    assert!(m.is_match("xa.*by"));
    assert!(!m.is_match("axxb"));
    let r = compile("a.*b", "v1", &no_overrides(), true, &regex_config()).unwrap();
    assert!(r.is_match("axxb"));
}

#[test]
fn invalid_regex_in_regex_mode() {
    let r = compile("(", "v1", &no_overrides(), true, &regex_config());
    assert!(matches!(r, Err(ResolveError::InvalidRegex)));
    let l = compile("(", "v1", &no_overrides(), true, &literal_config()).unwrap();
    assert!(l.is_match("a(b"));
}

#[test]
fn process_with_defaults() {
    let assets = vec![
        asset("app-1.9.zip"),
        asset("app-2.5.zip"),
        asset("app-2.5.tar.gz"),
    ];
    let query = Query { clear_unknown: None, reverse: None, overrides: no_overrides() };
    let r = process("app-{major}.{minor}{unknown}.zip", &assets, &query, "v2.5.0", &literal_config());
    assert_eq!(r.unwrap(), "https://dl.example/app-2.5.zip");
    let query = Query { clear_unknown: Some(false), reverse: Some(true), overrides: no_overrides() };
    let r = process("app-{major}.{minor}{unknown}", &assets, &query, "v2.5.0", &literal_config());
    assert_eq!(r, Err(ResolveError::NoMatchingAsset));
    let query = Query { clear_unknown: None, reverse: Some(true), overrides: no_overrides() };
    let r = process("app-{major}.{minor}", &assets, &query, "v2.5.0", &literal_config());
    assert_eq!(r.unwrap(), "https://dl.example/app-2.5.tar.gz");
}

#[test]
fn custom_platform_routing() {
    assert_eq!(custom_platform(false, "gitea"), Err(ResolveError::CustomHostsDisabled));
    assert_eq!(custom_platform(true, "gitea"), Ok(Platform::Gitea));
    assert_eq!(custom_platform(true, "gitlab"), Err(ResolveError::InvalidPlatform));
}

#[test]
fn text_helpers() {
    assert_eq!(replace_all("aXbXX", "X", "yz"), "ayzbyzyz");
    assert_eq!(replace_all("aaa", "aa", "b"), "ba");
    assert_eq!(replace_all("abc", "", "z"), "abc");
    assert!(same_text("héllo", "héllo"));
    assert!(!same_text("hello", "hell"));
}

#[test]
fn fallback_pages() {
    assert_eq!(
        fallback_location("/github/user/repo/app-{major}.zip").as_deref(),
        Some("https://github.com/user/repo/releases/latest")
    );
    assert_eq!(
        fallback_location("/gitea/user/repo/app.zip").as_deref(),
        Some("https://gitea.com/user/repo/releases")
    );
    assert_eq!(fallback_location("/github/user/repo").as_deref(), Some("https://github.com/user/repo/releases/latest"));
    assert_eq!(fallback_location("/github/user").as_deref(), None);
    assert_eq!(fallback_location("/custom/host/gitea/user/repo/x").as_deref(), None);
    assert_eq!(fallback_location("/favicon").as_deref(), None);
}

#[test]
fn unicode_word_tokens() {
    assert_eq!(strip_tokens("{é}"), "");
    assert_eq!(strip_tokens("a{日本}b{x y}"), "ab{x y}");
    assert_eq!(pre_check("{é}", 2), Ok(()));
    assert_eq!(pre_check("{é}é", 0), Err(ResolveError::PatternTooLong));
    assert_eq!(replace("a{é}b", "v1.0.0", &no_overrides(), true), "ab");
    assert_eq!(replace("a{é}b", "v1.0.0", &no_overrides(), false), "a{é}b");
    assert_eq!(replace("a{€}b", "v1.0.0", &no_overrides(), true), "a{€}b");
}
