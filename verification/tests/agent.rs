use autoblur::browser::{
    agent_version, capture, engine_version, first_segment_exec,
    get_brands, get_platform, get_platform_version, normalize_user_agent, parse_usize, user_agent_override,
    AgentError,
};
use autoblur::text::{chars_of, string_of};

const HEADLESS_LINUX: &str = "Mozilla/5.0 (X11; Linux x86_64) AppleWebKit/537.36 (KHTML, like Gecko) HeadlessChrome/117.0.5938.62 Safari/537.36";
const WINDOWS: &str = "Mozilla/5.0 (Windows NT 10.0; Win64; x64) AppleWebKit/537.36 (KHTML, like Gecko) Chrome/117.0.5938.62 Safari/537.36";
const MAC: &str = "Mozilla/5.0 (Macintosh; Intel Mac OS X 10_15_7) AppleWebKit/537.36 (KHTML, like Gecko) Chrome/116.0.0.0 Safari/537.36";
const ANDROID: &str = "Mozilla/5.0 (Linux; Android 13; Pixel 7) AppleWebKit/537.36 (KHTML, like Gecko) Chrome/116.0.0.0 Mobile Safari/537.36";

fn brands(v: &str) -> Vec<(String, String)> {
    get_brands(v).unwrap().into_iter().map(|b| (b.brand, b.version)).collect()
}

#[test]
fn patterns_capture_and_replace() {
    assert_eq!(capture("a(b+)", "xabbby"), Ok("bbb".to_string()));
    assert_eq!(capture("a(b+)|(c)", "c"), Err(AgentError::NoMatch));
    assert_eq!(normalize_user_agent("Linux (a) (b)").unwrap(), "Linux (Windows NT 10.0; Win64; x64) (b)");
    assert_eq!(capture("(", "x"), Err(AgentError::BadPattern));
    assert_eq!(capture("q(\\d)", "x"), Err(AgentError::NoMatch));
}

#[test]
fn headless_linux_agent_passes_for_windows_chrome() {
    assert_eq!(normalize_user_agent(HEADLESS_LINUX).unwrap(), WINDOWS);
    assert_eq!(normalize_user_agent(WINDOWS).unwrap(), WINDOWS);
    assert_eq!(normalize_user_agent(ANDROID).unwrap(), ANDROID);
}

#[test]
fn versions_are_read() {
    assert_eq!(agent_version(WINDOWS), Some(Ok("117.0.5938.62".to_string())));
    assert_eq!(agent_version("Mozilla/5.0 Firefox/1.0"), None);
    assert_eq!(engine_version("V8/11.7.439.19"), Ok("11.7.439.19".to_string()));
    assert_eq!(engine_version("none"), Err(AgentError::NoMatch));
}

#[test]
fn platforms_are_named() {
    assert_eq!(get_platform(WINDOWS, false), "Win32");
    assert_eq!(get_platform(WINDOWS, true), "Windows");
    assert_eq!(get_platform(MAC, false), "MacIntel");
    assert_eq!(get_platform(MAC, true), "Mac OS X");
    assert_eq!(get_platform(ANDROID, false), "Android");
    assert_eq!(get_platform("X11; Linux", true), "Linux");
    assert_eq!(get_platform_version(WINDOWS), Ok("10.0".to_string()));
    assert_eq!(get_platform_version(MAC), Ok("10_15_7".to_string()));
    assert_eq!(get_platform_version(ANDROID), Ok("13".to_string()));
    assert_eq!(get_platform_version("X11; Linux"), Ok(String::new()));
}

#[test]
fn brands_follow_the_major_version() {
    assert_eq!(
        brands("117.0.5938.62"),
        vec![
            (" Not;A Brand".to_string(), "99".to_string()),
            ("Chromium".to_string(), "117".to_string()),
            ("Google Chrome".to_string(), "117".to_string()),
        ]
    );
    assert_eq!(brands("120").first().unwrap().0, " Not A;Brand");
    assert_eq!(brands("+5.1").first().unwrap().0, ";Not A Brand");
    assert_eq!(brands("5.1")[1].1, "5");
    assert!(matches!(get_brands("abc"), Err(AgentError::BadVersion)));
    assert!(matches!(get_brands(".1"), Err(AgentError::BadVersion)));
    assert!(matches!(get_brands("99999999999999999999999"), Err(AgentError::BadVersion)));
}

#[test]
fn decimal_reading() {
    assert_eq!(parse_usize(&chars_of("0042")), Some(42));
    assert_eq!(parse_usize(&chars_of("+7")), Some(7));
    assert_eq!(parse_usize(&chars_of("+")), None);
    assert_eq!(parse_usize(&chars_of("")), None);
    assert_eq!(parse_usize(&chars_of("-1")), None);
    assert_eq!(parse_usize(&chars_of("18446744073709551615")), Some(usize::MAX));
    assert_eq!(parse_usize(&chars_of("18446744073709551616")), None);
    assert_eq!(string_of(&first_segment_exec(&chars_of("12.3.4"))), "12");
    assert_eq!(string_of(&first_segment_exec(&chars_of("12"))), "12");
}

#[test]
fn the_override_describes_a_desktop_chrome() {
    let o = user_agent_override(WINDOWS.to_string(), "117.0.5938.62".to_string()).unwrap();
    assert_eq!(o.user_agent, WINDOWS);
    assert_eq!(o.accept_language, "en-US,en");
    assert_eq!(o.platform, "Win32");
    assert_eq!(o.metadata_platform, "Windows");
    assert_eq!(o.platform_version, "10.0");
    assert_eq!(o.architecture, "x86");
    assert_eq!(o.model, "");
    assert!(!o.mobile);
    assert_eq!(o.brands.len(), 3);
    assert_eq!(o.full_version_list.len(), 1);
    assert_eq!(o.full_version_list[0].brand, "Chrome");
    assert_eq!(o.full_version_list[0].version, "117.0.5938.62");
    assert!(matches!(
        user_agent_override(WINDOWS.to_string(), "x".to_string()),
        Err(AgentError::BadVersion)
    ));
    assert!(matches!(
        user_agent_override("Windows".to_string(), "1".to_string()),
        Err(AgentError::NoMatch)
    ));
}
