//! Capture failures, sorted into what the operator can act on.

use crate::session::Distro;
use crate::text::{
    chars_of, contains, has_prefix, has_substring, starts_with, to_upper, uppercase_of,
};
use vstd::prelude::*;

verus! {

/// Shown where the distribution's compositor stack is too old.
pub const SCRAP_UBUNTU_HIGHER_REQUIRED: &'static str =
    "Wayland requires Ubuntu 21.04 or higher version.";

/// Shown where the failure lies with the portal, the multimedia bridge or
/// the system bus.
pub const SCRAP_OTHER_VERSION_OR_X11_REQUIRED: &'static str =
    "Wayland requires higher version of linux distro. Please try X11 desktop or change your OS.";

/// Shown for every other failure.
pub const SCRAP_X11_REQUIRED: &'static str = "x11 expected";

/// Failures beyond this many are neither counted nor logged.
pub const LOG_LIMIT: u32 = 1000000;

/// Of the failures counted, one in this many is logged.
pub const LOG_STRIDE: u32 = 10000;

/// The first release of the distribution whose compositor stack can capture.
pub const MINIMUM_RELEASE: u32 = 21;

/// What a capture failure means for the operator.
#[derive(Clone, Copy, Debug, PartialEq, Eq, Structural)]
pub enum ErrorCategory {
    /// The compositor bridge gave no reply: capturing cannot go on.
    Fatal,
    /// The distribution must be upgraded.
    UpgradeRequired,
    /// Another capture path, or the legacy display server, is needed.
    AlternatePathRequired,
    /// The legacy display server is needed.
    LegacyServerRequired,
    /// The failure is handed on in its own words.  The rules of
    /// classification give this category to no failure; it is for a caller
    /// that surfaces a failure as it came.
    PassthroughRaw,
}

/// What the process is to do after a failure.
#[derive(Clone, Copy, Debug, PartialEq, Eq, Structural)]
pub enum ExitPolicy {
    /// End the process: it cannot capture any more.
    Terminate,
    /// Hand the error up and go on.
    Continue,
}

/// A classified failure.
pub struct Classified {
    /// The category.
    pub category: ErrorCategory,
    /// The words for the operator.
    pub message: String,
    /// Whether the failure is to be written to the log this time.
    pub log: bool,
}

/// Counts the failures that were offered for logging.
pub struct LogThrottle {
    count: u32,
}

impl LogThrottle {
    /// How many failures the throttle has counted.
    pub closed spec fn counted(&self) -> nat {
        self.count as nat
    }

    /// A throttle that has counted nothing.
    pub fn new() -> (g: LogThrottle)
        ensures
            g.counted() == 0,
    {
        LogThrottle { count: 0 }
    }

    /// How many failures the throttle has counted.
    pub fn count(&self) -> (n: u32)
        ensures
            n == self.counted(),
    {
        self.count
    }
}

/// Whether a throttle that has counted `n` failures lets the next one into the
/// log: below the limit, the first and then every one that follows a full
/// stride.
pub open spec fn lets_through(n: nat) -> bool {
    n < LOG_LIMIT && n % (LOG_STRIDE as nat) == 0
}

/// Offers one failure to the log.  Returns whether it is to be written, and
/// counts it unless the limit is reached.
pub fn try_log(throttle: &mut LogThrottle) -> (emit: bool)
    ensures
        emit == lets_through(old(throttle).counted()),
        final(throttle).counted() == if old(throttle).counted() < LOG_LIMIT {
            old(throttle).counted() + 1
        } else {
            old(throttle).counted()
        },
{
    if throttle.count >= LOG_LIMIT {
        return false;
    }
    let emit = throttle.count % LOG_STRIDE == 0;
    throttle.count = throttle.count + 1;
    emit
}

/// The failure's words name the portal, the multimedia bridge or the system
/// bus.
pub open spec fn names_bridge(raw: Seq<char>) -> bool {
    ||| has_substring(raw, "org.freedesktop.portal"@)
    ||| has_substring(raw, "pipewire"@)
    ||| has_substring(raw, "dbus"@)
}

/// A decimal digit.
pub open spec fn is_digit(c: char) -> bool {
    0x30 <= c as u32 <= 0x39
}

/// The index of the first character at or after `i` that is no digit; the
/// length of `s` where there is none.
pub open spec fn digits_end(s: Seq<char>, i: int) -> int
    decreases s.len() - i,
{
    if i < 0 || i >= s.len() {
        s.len() as int
    } else if !is_digit(s[i]) {
        i
    } else {
        digits_end(s, i + 1)
    }
}

/// The number that the first `n` characters of `s` write in decimal digits.
pub open spec fn digits_value(s: Seq<char>, n: int) -> nat
    decreases n,
{
    if n <= 0 || n > s.len() {
        0
    } else {
        digits_value(s, n - 1) * 10 + (s[n - 1] as u32 - 0x30) as nat
    }
}

/// The release number of a version id: the number that its leading digits
/// write.  There is none where the version id begins with no digit.
pub open spec fn release_number(version_id: Seq<char>) -> Option<nat> {
    let n = digits_end(version_id, 0);
    if n > 0 {
        Some(digits_value(version_id, n))
    } else {
        None
    }
}

/// The release is below the first one that can capture.  A version id that
/// is missing, or that names no number, counts as too old.
pub open spec fn too_old(version_id: Seq<char>) -> bool {
    match release_number(version_id) {
        Some(n) => n < MINIMUM_RELEASE,
        None => true,
    }
}

/// The category of a failure, by four rules in order.  `name_upper` is the
/// distribution's name in upper case.  A failure whose words begin with the
/// compositor's missing reply is fatal.  Else, on the distribution whose old
/// releases cannot capture, a release that is too old calls for an upgrade.
/// Else the words decide: those that name the bridge call for another
/// capture path, all others for the legacy display server.
pub open spec fn category_of(raw: Seq<char>, name_upper: Seq<char>, version_id: Seq<char>) -> ErrorCategory {
    if has_prefix(raw, "Did not receive a reply"@) {
        ErrorCategory::Fatal
    } else if name_upper == "UBUNTU"@ && too_old(version_id) {
        ErrorCategory::UpgradeRequired
    } else if names_bridge(raw) {
        ErrorCategory::AlternatePathRequired
    } else {
        ErrorCategory::LegacyServerRequired
    }
}

/// The words for the operator: fixed ones for the three categories that call
/// for a change of setup, the failure's own for the other two.
pub open spec fn message_of(category: ErrorCategory, raw: Seq<char>) -> Seq<char> {
    match category {
        ErrorCategory::UpgradeRequired => SCRAP_UBUNTU_HIGHER_REQUIRED@,
        ErrorCategory::AlternatePathRequired => SCRAP_OTHER_VERSION_OR_X11_REQUIRED@,
        ErrorCategory::LegacyServerRequired => SCRAP_X11_REQUIRED@,
        ErrorCategory::Fatal => raw,
        ErrorCategory::PassthroughRaw => raw,
    }
}

/// The categories whose failures are offered to the log throttle.
pub open spec fn is_throttled(category: ErrorCategory) -> bool {
    category != ErrorCategory::Fatal && category != ErrorCategory::UpgradeRequired
}

/// Whether a failure of the given category is written to the log by a throttle
/// that has counted `n` failures: a fatal one always, one that calls for an
/// upgrade never, any other where the throttle lets it through.
pub open spec fn is_logged(category: ErrorCategory, n: nat) -> bool {
    match category {
        ErrorCategory::Fatal => true,
        ErrorCategory::UpgradeRequired => false,
        _ => lets_through(n),
    }
}

/// What follows a failure of the given category.
pub fn exit_policy(category: ErrorCategory) -> (p: ExitPolicy)
    ensures
        p == if category == ErrorCategory::Fatal {
            ExitPolicy::Terminate
        } else {
            ExitPolicy::Continue
        },
{
    match category {
        ErrorCategory::Fatal => ExitPolicy::Terminate,
        _ => ExitPolicy::Continue,
    }
}

/// Whether the release that a version id names is too old.
pub fn is_too_old(version_id: &str) -> (r: bool)
    ensures
        r == too_old(version_id@),
{
    let v = chars_of(version_id);
    let mut i: usize = 0;
    let mut value: u32 = 0;
    let mut reached = false;
    while i < v.len() && 0x30 <= v[i] as u32 && v[i] as u32 <= 0x39
        invariant
            i <= v@.len(),
            digits_end(v@, i as int) == digits_end(v@, 0),
            reached ==> digits_value(v@, i as int) >= MINIMUM_RELEASE,
            !reached ==> value == digits_value(v@, i as int) && value < MINIMUM_RELEASE,
        decreases v@.len() - i,
    {
        let digit: u32 = v[i] as u32 - 0x30;
        if !reached {
            value = value * 10 + digit;
            if value >= MINIMUM_RELEASE {
                reached = true;
            }
        }
        i += 1;
    }
    proof {
        assert(digits_end(v@, i as int) == i);
    }
    i == 0 || !reached
}

/// The category of a failure, computed.
pub fn categorize(raw: &str, name_upper: &str, version_id: &str) -> (c: ErrorCategory)
    ensures
        c == category_of(raw@, name_upper@, version_id@),
{
    let r = chars_of(raw);
    if starts_with(&r, &chars_of("Did not receive a reply")) {
        return ErrorCategory::Fatal;
    }
    if crate::text::str_eq(name_upper, "UBUNTU") && is_too_old(version_id) {
        ErrorCategory::UpgradeRequired
    } else if contains(&r, &chars_of("org.freedesktop.portal")) || contains(
        &r,
        &chars_of("pipewire"),
    ) || contains(&r, &chars_of("dbus")) {
        ErrorCategory::AlternatePathRequired
    } else {
        ErrorCategory::LegacyServerRequired
    }
}

/// Classifies a failure for a host whose distribution name, in upper case,
/// is `name_upper`.  A fatal failure and one that calls for an upgrade leave
/// the throttle alone; every other one is offered to it.
pub fn classify(raw: &str, name_upper: &str, version_id: &str, throttle: &mut LogThrottle) -> (r:
    Classified)
    ensures
        r.category == category_of(raw@, name_upper@, version_id@),
        r.message@ == message_of(r.category, raw@),
        r.log == is_logged(r.category, old(throttle).counted()),
        final(throttle).counted() == if is_throttled(r.category) && old(throttle).counted() < LOG_LIMIT {
            old(throttle).counted() + 1
        } else {
            old(throttle).counted()
        },
{
    let category = categorize(raw, name_upper, version_id);
    match category {
        ErrorCategory::Fatal => Classified { category, message: raw.to_owned(), log: true },
        ErrorCategory::UpgradeRequired => Classified {
            category,
            message: SCRAP_UBUNTU_HIGHER_REQUIRED.to_owned(),
            log: false,
        },
        ErrorCategory::PassthroughRaw => {
            let log = try_log(throttle);
            Classified { category, message: raw.to_owned(), log }
        },
        ErrorCategory::AlternatePathRequired => {
            let log = try_log(throttle);
            Classified { category, message: SCRAP_OTHER_VERSION_OR_X11_REQUIRED.to_owned(), log }
        },
        ErrorCategory::LegacyServerRequired => {
            let log = try_log(throttle);
            Classified { category, message: SCRAP_X11_REQUIRED.to_owned(), log }
        },
    }
}

/// Classifies a capture failure on the given host.
pub fn map_err_scrap(err: &str, distro: &Distro, throttle: &mut LogThrottle) -> (r: Classified)
    ensures
        r.category == category_of(err@, uppercase_of(distro.name@), distro.version_id@),
        r.message@ == message_of(r.category, err@),
        r.log == is_logged(r.category, old(throttle).counted()),
        final(throttle).counted() == if is_throttled(r.category) && old(throttle).counted() < LOG_LIMIT {
            old(throttle).counted() + 1
        } else {
            old(throttle).counted()
        },
{
    let upper = to_upper(distro.name.as_str());
    classify(err, upper.as_str(), distro.version_id.as_str(), throttle)
}

/// The hint that goes with every capture error on this host; none so far.
pub fn common_get_error() -> (r: String)
    ensures
        r@.len() == 0,
{
    String::new()
}

/// A version id that is missing counts as too old: on the distribution whose
/// old releases cannot capture, a failure that is not fatal then calls for
/// an upgrade, whatever its words.
pub proof fn law_missing_version_means_upgrade(raw: Seq<char>)
    requires
        !has_prefix(raw, "Did not receive a reply"@),
    ensures
        too_old(Seq::empty()),
        category_of(raw, "UBUNTU"@, Seq::empty()) == ErrorCategory::UpgradeRequired,
{
}

/// Releases are told apart by their number, not by their spelling: a
/// version id whose release number is below the minimum is too old, however
/// many digits write it and whatever follows them, and one whose release
/// number reaches the minimum is not.
pub proof fn law_release_number_decides(version_id: Seq<char>)
    requires
        release_number(version_id) is Some,
    ensures
        too_old(version_id) == (release_number(version_id)->0 < MINIMUM_RELEASE),
{
}

/// The rules cover every failure and each names a remedy or ends the
/// capture: on a host that is not too old the words alone decide, as on any
/// other host, and no failure is handed on unclassified.
pub proof fn law_rules_cover_every_failure(
    raw: Seq<char>,
    name_upper: Seq<char>,
    version_id: Seq<char>,
)
    ensures
        category_of(raw, name_upper, version_id) != ErrorCategory::PassthroughRaw,
        !has_prefix(raw, "Did not receive a reply"@) && !(name_upper == "UBUNTU"@ && too_old(
            version_id,
        )) ==> category_of(raw, name_upper, version_id) == if names_bridge(raw) {
            ErrorCategory::AlternatePathRequired
        } else {
            ErrorCategory::LegacyServerRequired
        },
{
}

/// A failure that is fatal is fatal on every host.
pub proof fn law_no_reply_is_fatal(raw: Seq<char>, name_upper: Seq<char>, version_id: Seq<char>)
    requires
        has_prefix(raw, "Did not receive a reply"@),
    ensures
        category_of(raw, name_upper, version_id) == ErrorCategory::Fatal,
{
}

} // verus!
