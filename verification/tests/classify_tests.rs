use capture_resources::classify::{
    categorize, classify, common_get_error, exit_policy, is_too_old, map_err_scrap, try_log,
    ErrorCategory, ExitPolicy, LogThrottle, LOG_LIMIT, LOG_STRIDE, MINIMUM_RELEASE, SCRAP_OTHER_VERSION_OR_X11_REQUIRED,
    SCRAP_UBUNTU_HIGHER_REQUIRED, SCRAP_X11_REQUIRED,
};
use capture_resources::session::Distro;

fn distro(name: &str, version_id: &str) -> Distro {
    Distro { name: name.to_string(), version_id: version_id.to_string() }
}

#[test]
fn no_reply_is_fatal_on_every_host() {
    let mut throttle = LogThrottle::new();
    let r = map_err_scrap("Did not receive a reply. Possible causes", &distro("Ubuntu", "18.04"), &mut throttle);
    assert_eq!(r.category, ErrorCategory::Fatal);
    assert_eq!(r.message, "Did not receive a reply. Possible causes");
    assert!(r.log);
    assert_eq!(throttle.count(), 0);
    assert_eq!(exit_policy(r.category), ExitPolicy::Terminate);
    let r = map_err_scrap("Did not receive a reply", &distro("Fedora", "39"), &mut throttle);
    assert_eq!(r.category, ErrorCategory::Fatal);
}

#[test]
fn no_reply_must_stand_at_the_start() {
    let mut throttle = LogThrottle::new();
    let r = map_err_scrap("dbus: Did not receive a reply", &distro("Fedora", "39"), &mut throttle);
    assert_eq!(r.category, ErrorCategory::AlternatePathRequired);
    assert_eq!(exit_policy(r.category), ExitPolicy::Continue);
}

#[test]
fn old_ubuntu_must_upgrade() {
    let mut throttle = LogThrottle::new();
    let r = map_err_scrap("pipewire failed", &distro("Ubuntu", "20.04"), &mut throttle);
    assert_eq!(r.category, ErrorCategory::UpgradeRequired);
    assert_eq!(r.message, SCRAP_UBUNTU_HIGHER_REQUIRED);
    assert!(!r.log);
    assert_eq!(throttle.count(), 0);
}

#[test]
fn ubuntu_is_recognized_in_any_case() {
    let mut throttle = LogThrottle::new();
    for name in ["ubuntu", "UBUNTU", "uBuNtU"] {
        let r = map_err_scrap("pipewire failed", &distro(name, "20.04"), &mut throttle);
        assert_eq!(r.category, ErrorCategory::UpgradeRequired, "{}", name);
    }
    let r = map_err_scrap("pipewire failed", &distro("Ubuntu Core", "20"), &mut throttle);
    assert_eq!(r.category, ErrorCategory::AlternatePathRequired);
}

#[test]
fn missing_version_id_on_ubuntu_takes_the_upgrade_path() {
    let mut throttle = LogThrottle::new();
    let r = map_err_scrap("anything", &distro("Ubuntu", ""), &mut throttle);
    assert_eq!(r.category, ErrorCategory::UpgradeRequired);
    assert_eq!(r.message, "Wayland requires Ubuntu 21.04 or higher version.");
}

#[test]
fn recent_ubuntu_is_told_by_the_words_of_the_failure() {
    let mut throttle = LogThrottle::new();
    for version in ["21", "21.04", "22.04", "24.10", "100.1"] {
        let r = map_err_scrap("pipewire stream error", &distro("Ubuntu", version), &mut throttle);
        assert_eq!(r.category, ErrorCategory::AlternatePathRequired, "{}", version);
        assert_eq!(r.message, SCRAP_OTHER_VERSION_OR_X11_REQUIRED);
        let r = map_err_scrap("capture failed", &distro("Ubuntu", version), &mut throttle);
        assert_eq!(r.category, ErrorCategory::LegacyServerRequired, "{}", version);
        assert_eq!(r.message, SCRAP_X11_REQUIRED);
    }
    assert_eq!(throttle.count(), 10);
}

#[test]
fn releases_are_compared_by_number() {
    let mut throttle = LogThrottle::new();
    for version in ["9", "9.10", "8.04", "4.10", "20.10", "20", "0", "020", "18.04.6 LTS"] {
        let r = map_err_scrap("capture failed", &distro("Ubuntu", version), &mut throttle);
        assert_eq!(r.category, ErrorCategory::UpgradeRequired, "{}", version);
        assert_eq!(r.message, SCRAP_UBUNTU_HIGHER_REQUIRED);
        assert!(!r.log);
    }
    assert_eq!(throttle.count(), 0);
}

#[test]
fn a_version_id_is_too_old_below_the_minimum_release() {
    assert_eq!(MINIMUM_RELEASE, 21);
    assert!(is_too_old("20.10"));
    assert!(is_too_old("9.10"));
    assert!(is_too_old("8.04"));
    assert!(is_too_old("002"));
    assert!(!is_too_old("21"));
    assert!(!is_too_old("21.04"));
    assert!(!is_too_old("0021"));
    assert!(!is_too_old("22.04"));
    assert!(!is_too_old("210"));
    assert!(!is_too_old("99999999999999999999999999.04"));
    assert!(!is_too_old("4294967296"));
}

#[test]
fn a_version_id_without_a_number_is_too_old() {
    assert!(is_too_old(""));
    assert!(is_too_old("rolling"));
    assert!(is_too_old(".04"));
    assert!(is_too_old(" 22.04"));
    assert!(is_too_old("v22"));
    assert!(is_too_old("\u{662}\u{662}"));
}

#[test]
fn other_hosts_are_told_by_the_words_of_the_failure() {
    let mut throttle = LogThrottle::new();
    let host = distro("Fedora Linux", "39");
    for raw in ["org.freedesktop.portal.Error", "no pipewire", "dbus connection lost"] {
        let r = map_err_scrap(raw, &host, &mut throttle);
        assert_eq!(r.category, ErrorCategory::AlternatePathRequired, "{}", raw);
        assert_eq!(r.message, SCRAP_OTHER_VERSION_OR_X11_REQUIRED);
    }
    let r = map_err_scrap("something else", &host, &mut throttle);
    assert_eq!(r.category, ErrorCategory::LegacyServerRequired);
    assert_eq!(r.message, SCRAP_X11_REQUIRED);
    assert_eq!(r.message, "x11 expected");
    let r = map_err_scrap("", &distro("", ""), &mut throttle);
    assert_eq!(r.category, ErrorCategory::LegacyServerRequired);
}

#[test]
fn categorize_takes_the_name_in_upper_case() {
    assert_eq!(categorize("x", "UBUNTU", "20"), ErrorCategory::UpgradeRequired);
    assert_eq!(categorize("x", "Ubuntu", "20"), ErrorCategory::LegacyServerRequired);
    assert_eq!(categorize("x", "UBUNTU", "21"), ErrorCategory::LegacyServerRequired);
    assert_eq!(categorize("dbus", "UBUNTU", "21"), ErrorCategory::AlternatePathRequired);
    assert_eq!(categorize("dbus", "UBUNTU", "9.10"), ErrorCategory::UpgradeRequired);
    assert_eq!(categorize("Did not receive a reply", "UBUNTU", "20"), ErrorCategory::Fatal);
}

#[test]
fn classify_offers_to_the_throttle_what_is_neither_fatal_nor_an_upgrade() {
    let mut throttle = LogThrottle::new();
    let r = classify("dbus", "DEBIAN", "12", &mut throttle);
    assert!(r.log);
    assert_eq!(throttle.count(), 1);
    let r = classify("dbus", "DEBIAN", "12", &mut throttle);
    assert!(!r.log);
    assert_eq!(throttle.count(), 2);
    let r = classify("dbus", "UBUNTU", "18.04", &mut throttle);
    assert!(!r.log);
    assert_eq!(throttle.count(), 2);
    let r = classify("Did not receive a reply", "DEBIAN", "12", &mut throttle);
    assert!(r.log);
    assert_eq!(throttle.count(), 2);
}

#[test]
fn the_throttle_logs_the_first_and_then_one_per_stride() {
    let mut throttle = LogThrottle::new();
    let mut logged: u32 = 0;
    let mut n: u32 = 0;
    while n < 3 * LOG_STRIDE + 1 {
        let emit = try_log(&mut throttle);
        assert_eq!(emit, n % LOG_STRIDE == 0, "at {}", n);
        if emit {
            logged += 1;
        }
        n += 1;
    }
    assert_eq!(logged, 4);
    assert_eq!(throttle.count(), 3 * LOG_STRIDE + 1);
}

#[test]
fn the_throttle_closes_at_the_limit() {
    let mut throttle = LogThrottle::new();
    let mut logged: u32 = 0;
    let mut n: u32 = 0;
    while n < LOG_LIMIT + 5 {
        if try_log(&mut throttle) {
            logged += 1;
        }
        n += 1;
    }
    assert_eq!(throttle.count(), LOG_LIMIT);
    assert_eq!(throttle.count(), 1000000);
    assert_eq!(logged, 100);
    assert!(!try_log(&mut throttle));
    assert_eq!(throttle.count(), LOG_LIMIT);
}

#[test]
fn the_common_hint_is_empty() {
    assert_eq!(common_get_error(), "");
}
