use capture_resources::session::{
    _get_values_of_seat0, active_session_id, find_eligible, get_display_server,
    get_display_server_of_session, get_values_of_seat0, get_values_of_seat0_with_gdm_wayland,
    ignore_loginctl_line, is_active, is_active_and_seat0, is_desktop_wayland, is_eligible,
    is_gdm_user, is_x11_or_headless, join_words, line_values, run_loginctl, seat0_session_id,
    session_facts, session_id_of_line, session_type_of, trim_output_newline, tty_of_session,
    unquote, xorg_query, DisplayServerProbe, Distro, SessionLine, SessionTypeProbe,
    DISPLAY_SERVER_WAYLAND, DISPLAY_SERVER_X11, INVALID_SESSION,
};
use capture_resources::text::{str_contains, str_eq};

fn some(s: &str) -> Option<String> {
    Some(s.to_string())
}

fn session(line: &str, state: &str, server: &str) -> SessionLine {
    SessionLine {
        line: line.to_string(),
        state_output: state.to_string(),
        display_server: server.to_string(),
    }
}

fn no_answers() -> SessionTypeProbe {
    SessionTypeProbe { type_output: None, tty_output: None, xorg_output: None }
}

fn typed(answer: &str) -> SessionTypeProbe {
    SessionTypeProbe { type_output: some(answer), tty_output: None, xorg_output: None }
}

fn probe() -> DisplayServerProbe {
    DisplayServerProbe {
        forced: None,
        loginctl_ok: true,
        sessions: Vec::new(),
        xdg_session_id: None,
        proc_session_id: String::new(),
        xdg_session_type: None,
        session: no_answers(),
    }
}

#[test]
fn test_run_cmds_trim_newline() {
    assert_eq!(trim_output_newline("123"), "123");
    assert_eq!(trim_output_newline("123\n"), "123");
    assert_eq!(trim_output_newline("root\n") + "\n", "root\n");
}

#[test]
fn release_values_lose_blanks_and_quotes() {
    assert_eq!(unquote("\"Ubuntu\"\n"), "Ubuntu");
    assert_eq!(unquote("  \"22.04\"  \n"), "22.04");
    assert_eq!(unquote("Fedora Linux\n"), "Fedora Linux");
    assert_eq!(unquote(""), "");
    assert_eq!(unquote("\" padded \""), " padded ");
    let d = Distro::new("\"Ubuntu\"\n", "\"20.04\"\n");
    assert_eq!(d.name, "Ubuntu");
    assert_eq!(d.version_id, "20.04");
    let d = Distro::new("", "");
    assert_eq!(d.name, "");
    assert_eq!(d.version_id, "");
}

#[test]
fn text_helpers_compare_and_search() {
    assert!(str_eq("x11", "x11"));
    assert!(!str_eq("x11", "X11"));
    assert!(str_contains("State=active\n", "active"));
    assert!(!str_contains("State=closing\n", "active"));
}

#[test]
fn only_gdm_is_the_greeter_user() {
    assert!(is_gdm_user("gdm"));
    assert!(!is_gdm_user("lightgdm"));
    assert!(!is_gdm_user("gdm "));
    assert!(!is_gdm_user(""));
    assert!(!is_gdm_user("GDM"));
}

#[test]
fn lines_without_a_session_are_ignored() {
    assert!(ignore_loginctl_line("3 sessions listed."));
    assert!(ignore_loginctl_line(""));
    assert!(ignore_loginctl_line("a b c"));
    assert!(!ignore_loginctl_line("a b c d"));
    assert!(!ignore_loginctl_line("     2 1000 user seat0 tty2"));
    assert!(ignore_loginctl_line("     2 1000 sessions seat0 tty2"));
    assert!(ignore_loginctl_line("a\tb\tc\td"));
}

#[test]
fn line_values_pick_words_by_number() {
    let line = "     2 1000 user seat0 tty2";
    assert_eq!(line_values(&[0], line), vec!["2"]);
    assert_eq!(line_values(&[0, 2], line), vec!["2", "user"]);
    assert_eq!(line_values(&[4, 3, 9], line), vec!["tty2", "seat0", ""]);
    assert_eq!(line_values(&[0, 1], ""), vec!["", ""]);
    assert!(line_values(&[], line).is_empty());
}

#[test]
fn a_session_is_active_by_the_word_in_the_answer() {
    assert!(is_active("State=active\n"));
    assert!(is_active("State=inactive\n"));
    assert!(!is_active("State=online\n"));
    assert!(!is_active(""));
    assert!(is_active_and_seat0("Id=2\nState=active\nSeat=seat0\n"));
    assert!(!is_active_and_seat0("Id=2\nState=active\nSeat=seat1\n"));
    assert!(!is_active_and_seat0("Id=2\nState=online\nSeat=seat0\n"));
    assert!(!is_active_and_seat0(""));
}

#[test]
fn the_session_id_is_the_first_word_of_a_session_line() {
    assert_eq!(session_id_of_line("     2 1000 user seat0 tty2"), some("2"));
    assert_eq!(session_id_of_line("c1 42 gdm seat0 tty1"), some("c1"));
    assert_eq!(session_id_of_line("3 sessions listed."), None);
    assert_eq!(session_id_of_line(""), None);
    assert_eq!(session_id_of_line("     "), None);
}

#[test]
fn the_active_session_of_the_first_seat_is_chosen() {
    let sessions = vec![
        session("SESSION  UID USER SEAT  TTY", "", ""),
        session("      1 1000 anna seat0 tty2", "State=online\n", "x11"),
        session("      2 1001 bert seat0 tty3", "State=active\n", "wayland"),
        session("      3 1002 cleo seat0 tty4", "State=active\n", "x11"),
        session("", "", ""),
        session("3 sessions listed.", "", ""),
    ];
    assert_eq!(get_values_of_seat0(&[0], &sessions), vec!["2"]);
    assert_eq!(get_values_of_seat0(&[0, 2, 1], &sessions), vec!["2", "bert", "1001"]);
    assert_eq!(find_eligible(&sessions, true, true), Some(2));
    assert!(!is_eligible(&sessions[0], true, true));
    assert!(!is_eligible(&sessions[1], true, true));
    assert!(is_eligible(&sessions[3], true, true));
}

#[test]
fn the_greeter_is_passed_over_only_when_asked() {
    let sessions = vec![
        session("     c1 42 gdm seat0 tty1", "State=active\n", "wayland"),
        session("      2 1000 user seat0 tty2", "State=active\n", "x11"),
    ];
    assert_eq!(get_values_of_seat0(&[0, 2], &sessions), vec!["2", "user"]);
    assert_eq!(get_values_of_seat0_with_gdm_wayland(&[0, 2], &sessions), vec!["c1", "gdm"]);
    assert_eq!(_get_values_of_seat0(&[0], &sessions, true), vec!["2"]);
    assert_eq!(_get_values_of_seat0(&[0], &sessions, false), vec!["c1"]);
    let x11_greeter = vec![session("     c1 42 gdm seat0 tty1", "State=active\n", "x11")];
    assert_eq!(get_values_of_seat0(&[0], &x11_greeter), vec!["c1"]);
}

#[test]
fn without_the_first_seat_any_active_session_off_a_terminal_will_do() {
    let sessions = vec![
        session("      1 1000 anna seat1 tty2", "State=active\n", "tty"),
        session("      2 1001 bert seat1 pts/0", "State=active\n", "x11"),
        session("      3 1002 cleo seat0 tty3", "State=closing\n", "x11"),
    ];
    assert_eq!(get_values_of_seat0(&[0], &sessions), vec!["2"]);
    assert_eq!(find_eligible(&sessions, true, true), None);
    assert_eq!(find_eligible(&sessions, true, false), Some(1));
}

#[test]
fn the_first_seat_wins_over_an_earlier_session_elsewhere() {
    let sessions = vec![
        session("      1 1000 anna seat1 tty2", "State=active\n", "x11"),
        session("      2 1001 bert seat0 tty3", "State=active\n", "tty"),
    ];
    assert_eq!(get_values_of_seat0(&[0], &sessions), vec!["2"]);
}

#[test]
fn no_session_gives_empty_values() {
    let none: Vec<SessionLine> = Vec::new();
    assert_eq!(get_values_of_seat0(&[0], &none), vec![""]);
    assert_eq!(get_values_of_seat0(&[0, 1, 2], &none), vec!["", "", ""]);
    let idle = vec![session("      1 1000 anna seat0 tty2", "", "x11")];
    assert_eq!(get_values_of_seat0(&[0], &idle), vec![""]);
}

#[test]
fn property_answers_lose_key_and_line_end() {
    assert_eq!(session_type_of("Type=wayland\n"), "wayland");
    assert_eq!(session_type_of("Type=x11"), "x11");
    assert_eq!(session_type_of(""), "");
    assert_eq!(tty_of_session("TTY=tty2\n"), "tty2");
    assert_eq!(xorg_query("tty2"), "ps -e | grep \"tty2.\\\\+Xorg\"");
}

#[test]
fn the_session_type_is_reported_in_lower_case() {
    assert_eq!(get_display_server_of_session(&typed("Type=wayland\n"), &None), "wayland");
    assert_eq!(get_display_server_of_session(&typed("Type=x11\n"), &some("wayland")), "x11");
    assert_eq!(get_display_server_of_session(&typed("Type=WAYLAND\n"), &None), "wayland");
    assert_eq!(get_display_server_of_session(&typed("Type=Mir\n"), &None), "mir");
}

#[test]
fn a_terminal_session_with_a_legacy_server_is_x11() {
    let p = SessionTypeProbe {
        type_output: some("Type=tty\n"),
        tty_output: some("TTY=tty2\n"),
        xorg_output: some("  1234 tty2     00:00:01 Xorg\n"),
    };
    assert_eq!(get_display_server_of_session(&p, &some("wayland")), "x11");
}

#[test]
fn a_terminal_session_without_a_legacy_server_follows_the_environment() {
    let blank = SessionTypeProbe {
        type_output: some("Type=tty\n"),
        tty_output: some("TTY=tty2\n"),
        xorg_output: some("\n"),
    };
    assert_eq!(get_display_server_of_session(&blank, &some("Wayland")), "wayland");
    assert_eq!(get_display_server_of_session(&blank, &None), "tty");
    let failed = SessionTypeProbe {
        type_output: some("Type=tty\n"),
        tty_output: some("TTY=tty2\n"),
        xorg_output: None,
    };
    assert_eq!(get_display_server_of_session(&failed, &None), "tty");
    let no_tty = SessionTypeProbe {
        type_output: some("Type=tty\n"),
        tty_output: None,
        xorg_output: some("Xorg"),
    };
    assert_eq!(get_display_server_of_session(&no_tty, &None), "tty");
}

#[test]
fn a_session_without_a_type_falls_back_to_the_environment_and_then_to_x11() {
    assert_eq!(get_display_server_of_session(&no_answers(), &None), "x11");
    assert_eq!(get_display_server_of_session(&no_answers(), &some("wayland")), "wayland");
    assert_eq!(get_display_server_of_session(&typed("\n"), &None), "x11");
    assert_eq!(get_display_server_of_session(&typed("Type=\n"), &some("")), "x11");
}

#[test]
fn the_forced_display_server_wins() {
    let mut p = probe();
    p.forced = some("wayland");
    p.loginctl_ok = false;
    assert_eq!(get_display_server(&p), "wayland");
    assert!(is_desktop_wayland(&p));
    assert!(!is_x11_or_headless(&p));
    p.forced = some("Anything");
    assert_eq!(get_display_server(&p), "Anything");
}

#[test]
fn a_failing_session_manager_means_x11() {
    let mut p = probe();
    p.loginctl_ok = false;
    p.sessions = vec![session("      2 1000 user seat0 tty2", "State=active\n", "wayland")];
    p.xdg_session_type = some("wayland");
    p.session = typed("Type=wayland\n");
    assert_eq!(get_display_server(&p), "x11");
    assert_eq!(get_display_server(&p), DISPLAY_SERVER_X11);
    assert!(!is_desktop_wayland(&p));
    assert!(is_x11_or_headless(&p));
}

#[test]
fn the_session_is_resolved_in_order() {
    let mut p = probe();
    assert_eq!(active_session_id(&p), "");
    p.proc_session_id = "7".to_string();
    assert_eq!(active_session_id(&p), "7");
    p.proc_session_id = INVALID_SESSION.to_string();
    assert_eq!(active_session_id(&p), "");
    p.proc_session_id = "4294967295\n".to_string();
    assert_eq!(active_session_id(&p), "4294967295\n");
    p.xdg_session_id = some("");
    assert_eq!(active_session_id(&p), "4294967295\n");
    p.xdg_session_id = some("5");
    assert_eq!(active_session_id(&p), "5");
    p.sessions = vec![session("      2 1000 user seat0 tty2", "State=active\n", "wayland")];
    assert_eq!(active_session_id(&p), "2");
}

#[test]
fn without_a_session_the_environment_decides() {
    let mut p = probe();
    p.proc_session_id = INVALID_SESSION.to_string();
    p.session = typed("Type=wayland\n");
    assert_eq!(get_display_server(&p), "x11");
    p.xdg_session_type = some("wayland");
    assert_eq!(get_display_server(&p), "wayland");
    p.xdg_session_type = some("Wayland");
    assert_eq!(get_display_server(&p), "Wayland");
}

#[test]
fn with_a_session_its_type_decides() {
    let mut p = probe();
    p.sessions = vec![session("      2 1000 user seat0 tty2", "State=active\n", "wayland")];
    p.session = typed("Type=wayland\n");
    assert_eq!(get_display_server(&p), DISPLAY_SERVER_WAYLAND);
    assert!(is_desktop_wayland(&p));
    p.session = typed("Type=x11\n");
    assert_eq!(get_display_server(&p), "x11");
    assert!(is_x11_or_headless(&p));
    p.session = no_answers();
    assert_eq!(get_display_server(&p), "x11");
}

#[test]
fn the_listed_session_is_the_first_word_of_the_chosen_line() {
    let sessions = vec![
        session("     c1 42 gdm seat0 tty1", "State=active\n", "wayland"),
        session("      2 1000 user seat0 tty2", "State=active\n", "x11"),
    ];
    assert_eq!(seat0_session_id(&sessions), "2");
    assert_eq!(seat0_session_id(&Vec::new()), "");
}

fn words(w: &[&str]) -> Vec<String> {
    w.iter().map(|s| s.to_string()).collect()
}

#[test]
fn words_are_joined_with_single_blanks() {
    assert_eq!(join_words(&words(&["show-session", "-p", "Type", "2"])), "show-session -p Type 2");
    assert_eq!(join_words(&words(&["one"])), "one");
    assert_eq!(join_words(&words(&[])), "");
    assert_eq!(join_words(&words(&["", ""])), " ");
}

#[test]
fn the_session_manager_is_called_directly_outside_a_sandbox() {
    let plan = run_loginctl(false, &Some(words(&["show-session", "-p", "State", "2"])));
    assert_eq!(plan.len(), 1);
    assert_eq!(plan[0].program, "loginctl");
    assert_eq!(plan[0].args, vec!["show-session", "-p", "State", "2"]);
    let plan = run_loginctl(false, &None);
    assert_eq!(plan.len(), 1);
    assert_eq!(plan[0].program, "loginctl");
    assert!(plan[0].args.is_empty());
}

#[test]
fn in_a_sandbox_the_host_spawner_is_tried_first() {
    let plan = run_loginctl(true, &Some(words(&["show-session", "-p", "Type", "2"])));
    assert_eq!(plan.len(), 2);
    assert_eq!(plan[0].program, "flatpak-spawn");
    assert_eq!(plan[0].args, vec!["--host", "loginctl show-session -p Type 2"]);
    assert_eq!(plan[1].program, "loginctl");
    assert_eq!(plan[1].args, vec!["show-session", "-p", "Type", "2"]);
    let plan = run_loginctl(true, &None);
    assert_eq!(plan.len(), 2);
    assert_eq!(plan[0].args, vec!["--host", "loginctl"]);
    assert!(plan[1].args.is_empty());
    let plan = run_loginctl(true, &Some(Vec::new()));
    assert_eq!(plan[0].args, vec!["--host", "loginctl "]);
}

#[test]
fn session_facts_hold_distribution_server_and_session() {
    let mut p = probe();
    p.sessions = vec![session("      2 1000 user seat0 tty2", "State=active\n", "wayland")];
    p.session = typed("Type=wayland\n");
    let f = session_facts("\"Ubuntu\"\n", "\"22.04\"\n", &p);
    assert_eq!(f.distro.name, "Ubuntu");
    assert_eq!(f.distro.version_id, "22.04");
    assert_eq!(f.display_server, "wayland");
    assert_eq!(f.session_id, "2");
}
