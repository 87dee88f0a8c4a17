//! The session environment: which distribution runs, which session is active
//! on the first seat, and which display server that session uses.
//!
//! Every function here takes what the session manager, the shell and the
//! environment answered, as text, and decides on it.  Asking is the caller's
//! part; a query that failed is handed over as `None`, or as the empty text
//! where a failure and an empty answer mean the same.

use crate::split::{
    nth_token, remove_all, token, token_or_empty, trim, trim_end, trim_end_of, trim_newline,
    trim_of, without, without_final_newline,
};
use crate::text::{
    chars_of, contains, count_char, count_of, has_substring, lowercase_of, same_text, str_contains,
    str_eq, string_of, texts, to_lower,
};
use vstd::prelude::*;

verus! {

/// The name of the compositor-mediated display server.
pub const DISPLAY_SERVER_WAYLAND: &'static str = "wayland";

/// The name of the legacy display server.
pub const DISPLAY_SERVER_X11: &'static str = "x11";

/// The session id that the kernel reports for a process outside any session.
pub const INVALID_SESSION: &'static str = "4294967295";

/// The distribution of the host, as its release file names it.
pub struct Distro {
    pub name: String,
    pub version_id: String,
}

/// The value of a release-file line: the text without the white space and
/// then without the double quotes at its ends.
pub open spec fn release_value(out: Seq<char>) -> Seq<char> {
    trim_of(trim_of(out, None), Some('"'))
}

/// The value of a release-file line.
pub fn unquote(out: &str) -> (r: String)
    ensures
        r@ == release_value(out@),
{
    let v = chars_of(out);
    let t = trim(&v, None);
    let u = trim(&t, Some('"'));
    string_of(&u)
}

/// What a command printed, without the one line feed at its end.
pub fn trim_output_newline(out: &str) -> (r: String)
    ensures
        r@ == without_final_newline(out@),
{
    string_of(&trim_newline(&chars_of(out)))
}

impl Distro {
    /// The distribution facts from the two values that the release file
    /// holds for the name and for the version id.  A value that could not be
    /// read is handed in as the empty text, and stays empty.
    pub fn new(name_output: &str, version_output: &str) -> (d: Distro)
        ensures
            d.name@ == release_value(name_output@),
            d.version_id@ == release_value(version_output@),
    {
        Distro { name: unquote(name_output), version_id: unquote(version_output) }
    }
}

/// Whether `username` is the display manager's own user, whose session shows
/// the login screen.
pub fn is_gdm_user(username: &str) -> (r: bool)
    ensures
        r == (username@ == "gdm"@),
{
    str_eq(username, "gdm")
}

/// A line of the session list that names no session: the closing count of
/// sessions, or a line with fewer than four parts between single blanks.
pub open spec fn ignored_line(line: Seq<char>) -> bool {
    has_substring(line, "sessions"@) || count_of(line, ' ') + 1 < 4
}

/// Whether a line of the session list names no session.
pub fn ignore_loginctl_line(line: &str) -> (r: bool)
    ensures
        r == ignored_line(line@),
{
    let v = chars_of(line);
    let key = chars_of("sessions");
    contains(&v, &key) || count_char(&v, ' ') < 3
}

/// For each index the word of `line` with that number, or the empty text
/// where the line has fewer words.
pub fn line_values(indices: &[usize], line: &str) -> (r: Vec<String>)
    ensures
        r@.len() == indices@.len(),
        forall|k: int|
            0 <= k < indices@.len() ==> (#[trigger] r@[k])@ == token_or_empty(
                line@,
                indices@[k] as nat,
            ),
{
    let v = chars_of(line);
    let mut r: Vec<String> = Vec::new();
    let mut k: usize = 0;
    while k < indices.len()
        invariant
            k <= indices@.len(),
            v@ == line@,
            r@.len() == k,
            forall|j: int|
                0 <= j < k ==> (#[trigger] r@[j])@ == token_or_empty(line@, indices@[j] as nat),
        decreases indices@.len() - k,
    {
        let t = nth_token(&v, indices[k]);
        r.push(string_of(&t));
        k += 1;
    }
    r
}

/// A session is active when the session manager's answer about its state
/// holds the word "active".
pub open spec fn session_active(state_output: Seq<char>) -> bool {
    has_substring(state_output, "active"@)
}

/// Whether the session manager's answer about a session's state says that it
/// is active.  An answer that never came is the empty text.
pub fn is_active(state_output: &str) -> (r: bool)
    ensures
        r == session_active(state_output@),
{
    str_contains(state_output, "active")
}

/// Whether the session manager's full answer about a session says that it is
/// active and sits on the first seat.
pub fn is_active_and_seat0(session_output: &str) -> (r: bool)
    ensures
        r == (has_substring(session_output@, "State=active"@) && has_substring(
            session_output@,
            "Seat=seat0"@,
        )),
{
    str_contains(session_output, "State=active") && str_contains(session_output, "Seat=seat0")
}

/// The session that a line of the session list names: its first word, unless
/// the line is one to ignore.
pub open spec fn session_of_line(line: Seq<char>) -> Option<Seq<char>> {
    if ignored_line(line) {
        None
    } else {
        token(line, 0)
    }
}

/// The id of the session that a line of the session list names, if it names
/// one.
pub fn session_id_of_line(line: &str) -> (r: Option<String>)
    ensures
        r is Some == session_of_line(line@) is Some,
        r is Some ==> Some(r->0@) == session_of_line(line@),
{
    if ignore_loginctl_line(line) {
        return None;
    }
    let v = chars_of(line);
    let t = nth_token(&v, 0);
    if t.len() == 0 {
        None
    } else {
        Some(string_of(&t))
    }
}

/// One line of the session list, with what the session manager answered
/// about the session that the line names.
pub struct SessionLine {
    /// The line as the session list printed it.
    pub line: String,
    /// The answer about the session's state; empty where none came.
    pub state_output: String,
    /// The display server of the session.
    pub display_server: String,
}

/// The session shows the display manager's login screen: its user, the third
/// word of the line, is the display manager's, and it runs on the
/// compositor-mediated display server.
pub open spec fn is_greeter(s: SessionLine) -> bool {
    token_or_empty(s.line@, 2) == "gdm"@ && s.display_server@ == DISPLAY_SERVER_WAYLAND@
}

/// The line names an active session, and not a login screen that is to be
/// passed over.
pub open spec fn names_active_session(s: SessionLine, skip_greeter: bool) -> bool {
    &&& session_of_line(s.line@) is Some
    &&& session_active(s.state_output@)
    &&& !(skip_greeter && is_greeter(s))
}

/// The line can be chosen.  In the first round a line must name the first
/// seat; in the second round any seat will do, but no session on a bare
/// terminal.
pub open spec fn eligible(s: SessionLine, skip_greeter: bool, first_seat: bool) -> bool {
    &&& names_active_session(s, skip_greeter)
    &&& if first_seat {
        has_substring(s.line@, "seat0"@)
    } else {
        s.display_server@ != "tty"@
    }
}

/// The index of the first eligible line at or after `i`; the number of lines
/// where there is none.
pub open spec fn first_eligible(
    sessions: Seq<SessionLine>,
    skip_greeter: bool,
    first_seat: bool,
    i: int,
) -> int
    decreases sessions.len() - i,
{
    if i < 0 || i >= sessions.len() {
        sessions.len() as int
    } else if eligible(sessions[i], skip_greeter, first_seat) {
        i
    } else {
        first_eligible(sessions, skip_greeter, first_seat, i + 1)
    }
}

/// The line of the active session: the first eligible line of the first
/// round, else the first of the second round, else the empty text.
pub open spec fn chosen_line(sessions: Seq<SessionLine>, skip_greeter: bool) -> Seq<char> {
    let a = first_eligible(sessions, skip_greeter, true, 0);
    let b = first_eligible(sessions, skip_greeter, false, 0);
    if 0 <= a < sessions.len() {
        sessions[a].line@
    } else if 0 <= b < sessions.len() {
        sessions[b].line@
    } else {
        Seq::empty()
    }
}

/// What `first_eligible` finds: an eligible line with no eligible line before
/// it, or the end of the list when no line is eligible.
pub proof fn law_first_eligible_is_first(
    sessions: Seq<SessionLine>,
    skip_greeter: bool,
    first_seat: bool,
    i: int,
)
    requires
        0 <= i <= sessions.len(),
    ensures
        i <= first_eligible(sessions, skip_greeter, first_seat, i) <= sessions.len(),
        first_eligible(sessions, skip_greeter, first_seat, i) < sessions.len() ==> eligible(
            sessions[first_eligible(sessions, skip_greeter, first_seat, i)],
            skip_greeter,
            first_seat,
        ),
        forall|j: int|
            i <= j < first_eligible(sessions, skip_greeter, first_seat, i) ==> !eligible(
                #[trigger] sessions[j],
                skip_greeter,
                first_seat,
            ),
    decreases sessions.len() - i,
{
    if i < sessions.len() && !eligible(sessions[i], skip_greeter, first_seat) {
        law_first_eligible_is_first(sessions, skip_greeter, first_seat, i + 1);
    }
}

/// A search that finds its line among the first `k` lines finds the same
/// line in the whole list.
pub proof fn lemma_first_eligible_in_prefix(
    sessions: Seq<SessionLine>,
    k: int,
    skip_greeter: bool,
    first_seat: bool,
    i: int,
)
    requires
        0 <= i <= k <= sessions.len(),
        first_eligible(sessions.take(k), skip_greeter, first_seat, i) < k,
    ensures
        first_eligible(sessions, skip_greeter, first_seat, i) == first_eligible(
            sessions.take(k),
            skip_greeter,
            first_seat,
            i,
        ),
    decreases k - i,
{
    if i < k {
        assert(sessions.take(k)[i] == sessions[i]);
        if !eligible(sessions[i], skip_greeter, first_seat) {
            lemma_first_eligible_in_prefix(sessions, k, skip_greeter, first_seat, i + 1);
        }
    }
}

/// The list need be read no further than the first line that can be chosen
/// for the first seat: the lines up to it decide as the whole list does.
pub proof fn law_first_seat_line_decides(sessions: Seq<SessionLine>, k: int, skip_greeter: bool)
    requires
        0 <= k <= sessions.len(),
        first_eligible(sessions.take(k), skip_greeter, true, 0) < k,
    ensures
        chosen_line(sessions.take(k), skip_greeter) == chosen_line(sessions, skip_greeter),
{
    lemma_first_eligible_in_prefix(sessions, k, skip_greeter, true, 0);
    let a = first_eligible(sessions, skip_greeter, true, 0);
    law_first_eligible_is_first(sessions, skip_greeter, true, 0);
    assert(sessions.take(k)[a] == sessions[a]);
}

/// Of a session that is not active, or of a line that names no session, the
/// display server is never read: such a line cannot be chosen, whatever its
/// display server is.
pub proof fn law_idle_line_is_never_chosen(s: SessionLine, skip_greeter: bool, first_seat: bool)
    requires
        session_of_line(s.line@) is None || !session_active(s.state_output@),
    ensures
        !eligible(s, skip_greeter, first_seat),
{
}

/// Whether a line can be chosen in the given round.
pub fn is_eligible(s: &SessionLine, skip_greeter: bool, first_seat: bool) -> (r: bool)
    ensures
        r == eligible(*s, skip_greeter, first_seat),
{
    if session_id_of_line(s.line.as_str()).is_none() {
        return false;
    }
    if !is_active(s.state_output.as_str()) {
        return false;
    }
    if skip_greeter {
        let user = nth_token(&chars_of(s.line.as_str()), 2);
        let gdm = chars_of("gdm");
        if same_text(&user, &gdm) && str_eq(s.display_server.as_str(), DISPLAY_SERVER_WAYLAND) {
            return false;
        }
    }
    if first_seat {
        str_contains(s.line.as_str(), "seat0")
    } else {
        !str_eq(s.display_server.as_str(), "tty")
    }
}

/// The index of the first line that can be chosen in the given round.
pub fn find_eligible(sessions: &Vec<SessionLine>, skip_greeter: bool, first_seat: bool) -> (r:
    Option<usize>)
    ensures
        match r {
            Some(i) => i == first_eligible(sessions@, skip_greeter, first_seat, 0) && i
                < sessions@.len(),
            None => first_eligible(sessions@, skip_greeter, first_seat, 0) == sessions@.len(),
        },
{
    let mut i: usize = 0;
    while i < sessions.len()
        invariant
            i <= sessions@.len(),
            first_eligible(sessions@, skip_greeter, first_seat, i as int) == first_eligible(
                sessions@,
                skip_greeter,
                first_seat,
                0,
            ),
        decreases sessions@.len() - i,
    {
        if is_eligible(&sessions[i], skip_greeter, first_seat) {
            return Some(i);
        }
        i += 1;
    }
    None
}

/// The words with the given numbers of the active session's line in the
/// session list.  `sessions` holds the lines of the list in order; it is
/// empty where the list could not be had.  With `ignore_gdm_wayland` the
/// login screen's own session is passed over.  Where no line is chosen every
/// value is empty.
pub fn _get_values_of_seat0(
    indices: &[usize],
    sessions: &Vec<SessionLine>,
    ignore_gdm_wayland: bool,
) -> (r: Vec<String>)
    ensures
        r@.len() == indices@.len(),
        forall|k: int|
            0 <= k < indices@.len() ==> (#[trigger] r@[k])@ == token_or_empty(
                chosen_line(sessions@, ignore_gdm_wayland),
                indices@[k] as nat,
            ),
{
    match find_eligible(sessions, ignore_gdm_wayland, true) {
        Some(a) => line_values(indices, sessions[a].line.as_str()),
        None => match find_eligible(sessions, ignore_gdm_wayland, false) {
            Some(b) => line_values(indices, sessions[b].line.as_str()),
            None => {
                let r = line_values(indices, "");
                proof {
                    reveal_strlit("");
                    assert(""@ =~= Seq::<char>::empty());
                }
                r
            },
        },
    }
}

/// The words with the given numbers of the active session's line, passing
/// over the login screen's own session.
pub fn get_values_of_seat0(indices: &[usize], sessions: &Vec<SessionLine>) -> (r: Vec<String>)
    ensures
        r@.len() == indices@.len(),
        forall|k: int|
            0 <= k < indices@.len() ==> (#[trigger] r@[k])@ == token_or_empty(
                chosen_line(sessions@, true),
                indices@[k] as nat,
            ),
{
    _get_values_of_seat0(indices, sessions, true)
}

/// The words with the given numbers of the active session's line, the login
/// screen's own session included.
pub fn get_values_of_seat0_with_gdm_wayland(indices: &[usize], sessions: &Vec<SessionLine>) -> (r:
    Vec<String>)
    ensures
        r@.len() == indices@.len(),
        forall|k: int|
            0 <= k < indices@.len() ==> (#[trigger] r@[k])@ == token_or_empty(
                chosen_line(sessions@, false),
                indices@[k] as nat,
            ),
{
    _get_values_of_seat0(indices, sessions, false)
}

/// What the session manager and the shell answered about one session.  Each
/// answer is `None` where the query failed or was not made.
pub struct SessionTypeProbe {
    /// The answer to the query for the session's `Type` property.
    pub type_output: Option<String>,
    /// The answer to the query for the session's `TTY` property; asked only
    /// of a session whose type is "tty".
    pub tty_output: Option<String>,
    /// The process-list lines that show a legacy server on that terminal.
    pub xorg_output: Option<String>,
}

/// The value in the answer to a query for one property: the answer without
/// the property's key and without the white space at its end.
pub open spec fn property_value(answer: Seq<char>, key: Seq<char>) -> Seq<char> {
    trim_end_of(without(answer, key), None)
}

/// The value in the answer to a query for one property.
pub fn value_of_property(answer: &str, key: &str) -> (r: Vec<char>)
    ensures
        r@ == property_value(answer@, key@),
{
    let a = chars_of(answer);
    let k = chars_of(key);
    let w = remove_all(&a, &k);
    trim_end(&w, None)
}

/// The session type in the answer to the `Type` query.
pub fn session_type_of(type_output: &str) -> (r: String)
    ensures
        r@ == property_value(type_output@, "Type="@),
{
    string_of(&value_of_property(type_output, "Type="))
}

/// The terminal in the answer to the `TTY` query.
pub fn tty_of_session(tty_output: &str) -> (r: String)
    ensures
        r@ == property_value(tty_output@, "TTY="@),
{
    string_of(&value_of_property(tty_output, "TTY="))
}

/// The shell command whose output is not blank exactly when a legacy server
/// process is attached to the terminal `tty`.
pub fn xorg_query(tty: &str) -> (r: String)
    ensures
        r@ == "ps -e | grep \""@ + tty@ + ".\\\\+Xorg\""@,
{
    let mut r = "ps -e | grep \"".to_owned();
    r.append(tty);
    r.append(".\\\\+Xorg\"");
    r
}

/// The type that the session manager reported; empty where it reported none.
pub open spec fn reported_type(p: SessionTypeProbe) -> Seq<char> {
    match p.type_output {
        Some(o) => property_value(o@, "Type="@),
        None => Seq::empty(),
    }
}

/// The session sits on a bare terminal to which a legacy server is attached.
pub open spec fn legacy_server_on_tty(p: SessionTypeProbe) -> bool {
    &&& reported_type(p) == "tty"@
    &&& p.tty_output is Some
    &&& p.xorg_output is Some
    &&& trim_end_of(p.xorg_output->0@, None).len() > 0
}

/// The characters of an optional text.
pub open spec fn opt_text(o: Option<String>) -> Option<Seq<char>> {
    match o {
        Some(s) => Some(s@),
        None => None,
    }
}

/// The display server of a session before its name is lower-cased: the
/// reported type; the environment's session type where the reported one is
/// empty or "tty" and the environment names one; "x11" where that leaves
/// nothing.
pub open spec fn session_type_as_found(p: SessionTypeProbe, env_type: Option<Seq<char>>) -> Seq<
    char,
> {
    let t = reported_type(p);
    let d = if (t.len() == 0 || t == "tty"@) && env_type is Some {
        env_type->0
    } else {
        t
    };
    if d.len() == 0 {
        DISPLAY_SERVER_X11@
    } else {
        d
    }
}

/// The display server of a session: "x11" where a legacy server is attached
/// to the session's terminal, else the lower-case form of the type as found.
pub open spec fn display_server_of_session(
    p: SessionTypeProbe,
    env_type: Option<Seq<char>>,
) -> Seq<char> {
    if legacy_server_on_tty(p) {
        DISPLAY_SERVER_X11@
    } else {
        lowercase_of(session_type_as_found(p, env_type))
    }
}

/// The display server of one session, from the answers about it and from the
/// session type that the environment names, if it names one.
pub fn get_display_server_of_session(probe: &SessionTypeProbe, xdg_session_type: &Option<String>) -> (r:
    String)
    ensures
        r@ == display_server_of_session(*probe, opt_text(*xdg_session_type)),
{
    let tty = chars_of("tty");
    let reported: Vec<char> = match &probe.type_output {
        Some(output) => value_of_property(output.as_str(), "Type="),
        None => Vec::new(),
    };
    let on_tty = same_text(&reported, &tty);
    if on_tty && probe.tty_output.is_some() {
        if let Some(xorg) = &probe.xorg_output {
            let lines = trim_end(&chars_of(xorg.as_str()), None);
            if lines.len() > 0 {
                return DISPLAY_SERVER_X11.to_owned();
            }
        }
    }
    let named: Vec<char> = match xdg_session_type {
        Some(t) => if reported.len() == 0 || on_tty {
            chars_of(t.as_str())
        } else {
            reported
        },
        None => reported,
    };
    let found: Vec<char> = if named.len() == 0 {
        chars_of(DISPLAY_SERVER_X11)
    } else {
        named
    };
    assert(found@ == session_type_as_found(*probe, opt_text(*xdg_session_type)));
    let name = string_of(&found);
    to_lower(name.as_str())
}

/// All that the resolution of the display server reads.
pub struct DisplayServerProbe {
    /// The display server that the operator forces, if the override is set.
    pub forced: Option<String>,
    /// Whether the session manager could be queried at all.
    pub loginctl_ok: bool,
    /// The lines of the session list, each with the answers about its
    /// session; empty where the list shows nothing.
    pub sessions: Vec<SessionLine>,
    /// The session id that the environment names, if it names one.
    pub xdg_session_id: Option<String>,
    /// The session id that the kernel reports for this process; empty where
    /// it could not be read.
    pub proc_session_id: String,
    /// The session type that the environment names, if it names one.
    pub xdg_session_type: Option<String>,
    /// The answers about the resolved session.
    pub session: SessionTypeProbe,
}

/// The id of the active session in the session list, the login screen's
/// own session passed over: the first word of the chosen line.  Empty where
/// no line is chosen.
pub open spec fn listed_session(sessions: Seq<SessionLine>) -> Seq<char> {
    token_or_empty(chosen_line(sessions, true), 0)
}

/// The session to ask about: the active one of the session list; else the
/// one that the environment names; else the one that the kernel reports,
/// unless that is the id that stands for no session.  Empty where there is
/// none.
pub open spec fn resolved_session(p: DisplayServerProbe) -> Seq<char> {
    if listed_session(p.sessions@).len() > 0 {
        listed_session(p.sessions@)
    } else if p.xdg_session_id is Some && p.xdg_session_id->0@.len() > 0 {
        p.xdg_session_id->0@
    } else if p.proc_session_id@ == INVALID_SESSION@ {
        Seq::empty()
    } else {
        p.proc_session_id@
    }
}

/// The display server in effect.  The forced one wins; "x11" where the
/// session manager cannot be queried; without a session the environment's
/// session type, or "x11"; else the display server of the resolved session.
pub open spec fn display_server(p: DisplayServerProbe) -> Seq<char> {
    match p.forced {
        Some(f) => f@,
        None => if !p.loginctl_ok {
            DISPLAY_SERVER_X11@
        } else if resolved_session(p).len() == 0 {
            match p.xdg_session_type {
                Some(t) => t@,
                None => DISPLAY_SERVER_X11@,
            }
        } else {
            display_server_of_session(p.session, opt_text(p.xdg_session_type))
        },
    }
}

/// The id of the active session in the session list, the login screen's
/// own session passed over; empty where the list shows none.
pub fn seat0_session_id(sessions: &Vec<SessionLine>) -> (r: String)
    ensures
        r@ == listed_session(sessions@),
{
    let first: [usize; 1] = [0];
    let mut values = get_values_of_seat0(&first, sessions);
    assert(first@[0] == 0);
    match values.pop() {
        Some(v) => v,
        None => String::new(),
    }
}

/// The id of the session whose display server counts; empty where there is
/// none.
pub fn active_session_id(p: &DisplayServerProbe) -> (r: String)
    ensures
        r@ == resolved_session(*p),
{
    let listed = seat0_session_id(&p.sessions);
    if !listed.as_str().is_empty() {
        return listed;
    }
    if let Some(sid) = &p.xdg_session_id {
        if !sid.as_str().is_empty() {
            return sid.clone();
        }
    }
    if str_eq(p.proc_session_id.as_str(), INVALID_SESSION) {
        String::new()
    } else {
        p.proc_session_id.clone()
    }
}

/// The display server in effect: "x11", "wayland", or the session type as it
/// was found.
pub fn get_display_server(p: &DisplayServerProbe) -> (r: String)
    ensures
        r@ == display_server(*p),
{
    if let Some(forced) = &p.forced {
        return forced.clone();
    }
    if !p.loginctl_ok {
        return DISPLAY_SERVER_X11.to_owned();
    }
    let session = active_session_id(p);
    if session.as_str().is_empty() {
        match &p.xdg_session_type {
            Some(t) => t.clone(),
            None => DISPLAY_SERVER_X11.to_owned(),
        }
    } else {
        get_display_server_of_session(&p.session, &p.xdg_session_type)
    }
}

/// Whether the compositor-mediated display server is in effect.
pub fn is_desktop_wayland(p: &DisplayServerProbe) -> (r: bool)
    ensures
        r == (display_server(*p) == DISPLAY_SERVER_WAYLAND@),
{
    let d = get_display_server(p);
    str_eq(d.as_str(), DISPLAY_SERVER_WAYLAND)
}

/// Whether the legacy display server, or none, is in effect.
pub fn is_x11_or_headless(p: &DisplayServerProbe) -> (r: bool)
    ensures
        r == (display_server(*p) != DISPLAY_SERVER_WAYLAND@),
{
    !is_desktop_wayland(p)
}

/// The facts about the session that hold for the life of the process.
pub struct SessionFacts {
    /// The distribution of the host.
    pub distro: Distro,
    /// The display server in effect.
    pub display_server: String,
    /// The id of the active session; empty where there is none.
    pub session_id: String,
}

/// The session facts, from the release file's two values and from what the
/// resolution of the display server reads.
pub fn session_facts(name_output: &str, version_output: &str, p: &DisplayServerProbe) -> (f:
    SessionFacts)
    ensures
        f.distro.name@ == release_value(name_output@),
        f.distro.version_id@ == release_value(version_output@),
        f.display_server@ == display_server(*p),
        f.session_id@ == resolved_session(*p),
{
    SessionFacts {
        distro: Distro::new(name_output, version_output),
        display_server: get_display_server(p),
        session_id: active_session_id(p),
    }
}

/// A program to run, with its arguments.
pub struct Invocation {
    pub program: String,
    pub args: Vec<String>,
}

/// The first `n` words, with one blank between each two.
pub open spec fn joined(words: Seq<Seq<char>>, n: int) -> Seq<char>
    decreases n,
{
    if n <= 0 || n > words.len() {
        Seq::empty()
    } else if n == 1 {
        words[0]
    } else {
        joined(words, n - 1) + seq![' '] + words[n - 1]
    }
}

/// The session manager's command as one line, for a spawner that takes the
/// command whole: the program's name, then a blank and the arguments where
/// arguments are given.
pub open spec fn command_line(args: Option<Vec<String>>) -> Seq<char> {
    match args {
        Some(a) => "loginctl"@ + seq![' '] + joined(texts(a@), a@.len() as int),
        None => "loginctl"@,
    }
}

/// The arguments as the session manager gets them when it is called
/// directly.
pub open spec fn direct_args(args: Option<Vec<String>>) -> Seq<Seq<char>> {
    match args {
        Some(a) => texts(a@),
        None => Seq::empty(),
    }
}

/// The words with one blank between each two.
pub fn join_words(words: &Vec<String>) -> (r: String)
    ensures
        r@ == joined(texts(words@), words@.len() as int),
{
    let mut r = String::new();
    let mut i: usize = 0;
    while i < words.len()
        invariant
            i <= words@.len(),
            r@ == joined(texts(words@), i as int),
        decreases words@.len() - i,
    {
        if i > 0 {
            proof {
                reveal_strlit(" ");
                assert(" "@ =~= seq![' ']);
            }
            r.append(" ");
        }
        r.append(words[i].as_str());
        i += 1;
        assert(r@ =~= joined(texts(words@), i as int));
    }
    r
}

/// A copy of a list of strings.
pub fn copy_words(words: &Vec<String>) -> (r: Vec<String>)
    ensures
        texts(r@) == texts(words@),
{
    let mut r: Vec<String> = Vec::new();
    let mut i: usize = 0;
    while i < words.len()
        invariant
            i <= words@.len(),
            r@.len() == i,
            forall|k: int| 0 <= k < i ==> (#[trigger] r@[k])@ == words@[k]@,
        decreases words@.len() - i,
    {
        r.push(words[i].clone());
        i += 1;
    }
    assert(texts(r@) =~= texts(words@));
    r
}

/// How the session manager is to be called: the invocations to try, in
/// order, until one can be run.  In a sandbox the first goes through the
/// spawner that reaches the host, with the command as one line; the direct
/// call comes last in every case.
pub fn run_loginctl(sandboxed: bool, args: &Option<Vec<String>>) -> (plan: Vec<Invocation>)
    ensures
        plan@.len() == if sandboxed {
            2int
        } else {
            1int
        },
        sandboxed ==> {
            &&& plan@[0].program@ == "flatpak-spawn"@
            &&& texts(plan@[0].args@) == seq!["--host"@, command_line(*args)]
        },
        plan@.last().program@ == "loginctl"@,
        texts(plan@.last().args@) == direct_args(*args),
{
    let mut plan: Vec<Invocation> = Vec::new();
    if sandboxed {
        let mut line = "loginctl".to_owned();
        if let Some(a) = args {
            proof {
                reveal_strlit(" ");
                assert(" "@ =~= seq![' ']);
            }
            line.append(" ");
            let words = join_words(a);
            line.append(words.as_str());
        }
        let mut host_args: Vec<String> = Vec::new();
        host_args.push("--host".to_owned());
        host_args.push(line);
        assert(texts(host_args@) =~= seq!["--host"@, command_line(*args)]);
        plan.push(Invocation { program: "flatpak-spawn".to_owned(), args: host_args });
    }
    let direct: Vec<String> = match args {
        Some(a) => copy_words(a),
        None => Vec::new(),
    };
    assert(texts(direct@) =~= direct_args(*args));
    plan.push(Invocation { program: "loginctl".to_owned(), args: direct });
    plan
}

/// Where the display server is not forced and the session manager cannot be
/// queried, the display server is the legacy one, whatever else is known.
pub proof fn law_unreachable_session_manager_means_x11(p: DisplayServerProbe)
    requires
        p.forced is None,
        !p.loginctl_ok,
    ensures
        display_server(p) == DISPLAY_SERVER_X11@,
        display_server(p) != DISPLAY_SERVER_WAYLAND@,
{
    reveal_strlit("x11");
    reveal_strlit("wayland");
    assert("x11"@.len() != "wayland"@.len());
}

} // verus!
