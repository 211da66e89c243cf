use x11anywhere::cli::{
    auto_detect_backend, choose_backend, is_available, parse_args, parse_u16, parse_usize, Command, Config,
    Platform,
};
use x11anywhere::backend::EnabledBackends;
use x11anywhere::security::SecurityPolicy;

fn args(list: &[&str]) -> Vec<String> {
    let mut v = vec!["x11anywhere".to_string()];
    v.extend(list.iter().map(|s| s.to_string()));
    v
}

fn run(list: &[&str]) -> Config {
    match parse_args(&args(list), true) {
        Ok(Command::Run(c)) => c,
        other => panic!("unexpected {:?}", other),
    }
}

#[test]
fn defaults() {
    let c = run(&[]);
    assert_eq!(c.display, 1);
    assert_eq!(c.backend_type, None);
    assert!(!c.listen_tcp);
    assert!(c.listen_unix);
    assert_eq!(c.security, SecurityPolicy::default());
    let c = Config::default_for(false);
    assert!(c.listen_tcp);
    assert!(!c.listen_unix);
}

#[test]
fn options() {
    let c = run(&["-display", "3", "-backend", "x11", "-tcp", "-security", "strict"]);
    assert_eq!(c.display, 3);
    assert_eq!(c.backend_type.as_deref(), Some("x11"));
    assert!(c.listen_tcp);
    assert_eq!(c.security, SecurityPolicy::strict());
    let c = run(&["-security", "permissive", "-unix"]);
    assert_eq!(c.security, SecurityPolicy::permissive());
    assert!(c.listen_unix);
}

#[test]
fn help_and_list_stop_reading() {
    assert!(matches!(parse_args(&args(&["-h", "-bogus"]), true), Ok(Command::Help)));
    assert!(matches!(parse_args(&args(&["-tcp", "--help"]), true), Ok(Command::Help)));
    assert!(matches!(parse_args(&args(&["-list-backends"]), true), Ok(Command::ListBackends)));
}

#[test]
fn errors() {
    assert_eq!(parse_args(&args(&["-display"]), true).unwrap_err(), "Missing value for -display");
    assert_eq!(parse_args(&args(&["-display", "x"]), true).unwrap_err(), "Invalid display number");
    assert_eq!(parse_args(&args(&["-display", "70000"]), true).unwrap_err(), "Invalid display number");
    assert_eq!(parse_args(&args(&["-backend"]), true).unwrap_err(), "Missing value for -backend");
    assert_eq!(parse_args(&args(&["-security"]), true).unwrap_err(), "Missing value for -security");
    assert_eq!(
        parse_args(&args(&["-security", "lax"]), true).unwrap_err(),
        "Invalid security level: lax"
    );
    assert_eq!(parse_args(&args(&["-fast"]), true).unwrap_err(), "Unknown option: -fast");
}

#[test]
fn display_numbers_read_like_std() {
    for s in ["0", "1", "+7", "007", "65535", "65536", "", "+", "-1", " 1", "1a", "99999999999"] {
        assert_eq!(parse_u16(s), s.parse::<u16>().ok(), "{:?}", s);
    }
}

#[test]
fn numbers_read_like_std() {
    for s in [
        "0", "1", "+7", "007", "4294967295", "4294967296", "18446744073709551615",
        "18446744073709551616", "", "+", "-1", "1.0", "12x", "99999999999999999999999",
    ] {
        assert_eq!(parse_usize(s), s.parse::<usize>().ok(), "{:?}", s);
    }
}

#[test]
fn backend_choice() {
    let all = ["x11", "wayland", "macos", "windows"];
    assert_eq!(choose_backend(&all, Platform::Linux).as_deref(), Some("wayland"));
    assert_eq!(choose_backend(&["macos", "x11"], Platform::Linux).as_deref(), Some("x11"));
    assert_eq!(choose_backend(&all, Platform::MacOS).as_deref(), Some("macos"));
    assert_eq!(choose_backend(&all, Platform::Windows).as_deref(), Some("windows"));
    assert_eq!(choose_backend(&["x11"], Platform::Windows).as_deref(), Some("x11"));
    assert_eq!(choose_backend(&all, Platform::Other).as_deref(), Some("x11"));
    assert_eq!(choose_backend(&[], Platform::Linux), None);
    let defaults = |p| EnabledBackends::defaults_for(p);
    assert_eq!(auto_detect_backend(Platform::Linux, defaults(Platform::Linux)).as_deref(), Some("wayland"));
    assert_eq!(auto_detect_backend(Platform::Unix, defaults(Platform::Unix)).as_deref(), Some("x11"));
    assert_eq!(auto_detect_backend(Platform::MacOS, defaults(Platform::MacOS)).as_deref(), Some("macos"));
    assert_eq!(auto_detect_backend(Platform::Windows, defaults(Platform::Windows)).as_deref(), Some("windows"));
    assert_eq!(auto_detect_backend(Platform::Other, defaults(Platform::Other)), None);
    let x11_only = EnabledBackends { x11: true, wayland: false, macos: false, windows: false };
    assert_eq!(auto_detect_backend(Platform::Linux, x11_only).as_deref(), Some("x11"));
    assert!(is_available(&all, "macos"));
    assert!(!is_available(&all, "mac"));
}
