use nirikit::ipc::{Action, Event, InitialState};
use nirikit::launch::{
    finish_launch, is_strong_match, lineage_query, parse_parent_pid, plan_launch,
    restore_focus_needed, AncestryWalk, LaunchError, Lineage, WindowWait,
};
use nirikit::model::{Window, Workspace};
use nirikit::profile::Position;
use nirikit::cli::LaunchArgs;
use std::time::Duration;

fn window(id: u64, app_id: Option<&str>, pid: Option<i32>) -> Window {
    Window {
        id,
        app_id: app_id.map(str::to_owned),
        pid,
        workspace_id: Some(1),
        is_focused: false,
    }
}

#[test]
fn explicit_app_id_takes_precedence() {
    assert!(is_strong_match(
        &window(1, Some("org.example.App"), None),
        false,
        "app",
        Some("org.example.App")
    ));
    // the window's process descends from the launched one, yet the explicit ID decides
    assert!(!is_strong_match(
        &window(1, Some("app"), Some(4242)),
        true,
        "app",
        Some("different")
    ));
}

#[test]
fn command_name_matches_reverse_domain_app_id() {
    assert!(is_strong_match(
        &window(1, Some("org.example.kitty"), None),
        false,
        "kitty",
        None
    ));
}

#[test]
fn process_descends_from_itself() {
    let pid = 4242;
    let (_, verdict) = AncestryWalk::start(pid, pid);
    assert_eq!(verdict, Lineage::Descends);
}

#[test]
fn app_id_match_ignores_ascii_case() {
    assert!(is_strong_match(&window(1, Some("Kitty"), None), false, "kitty", None));
    assert!(is_strong_match(&window(1, Some("org.Foo.KITTY"), None), false, "kitty", None));
    assert!(!is_strong_match(&window(1, Some("kitty.org"), None), false, "kitty", None));
    assert!(!is_strong_match(&window(1, None, None), false, "kitty", None));
}

#[test]
fn descent_matches_only_with_a_pid() {
    assert!(is_strong_match(&window(1, Some("x"), Some(42)), true, "kitty", None));
    assert!(!is_strong_match(&window(1, Some("x"), None), true, "kitty", None));
    assert!(!is_strong_match(&window(1, Some("x"), Some(42)), false, "kitty", None));
}

#[test]
fn lineage_is_asked_only_without_explicit_app_id() {
    let w = window(1, Some("x"), Some(42));
    assert_eq!(lineage_query(&w, None), Some(42));
    assert_eq!(lineage_query(&w, Some("x")), None);
}

#[test]
fn ancestry_walk_follows_parents() {
    // 500 -> 400 -> 300 (ancestor)
    let (mut walk, v) = AncestryWalk::start(500, 300);
    assert_eq!(v, Lineage::NeedParent(500));
    assert_eq!(walk.step(Some(400)), Lineage::NeedParent(400));
    assert_eq!(walk.step(Some(300)), Lineage::Descends);
}

#[test]
fn ancestry_walk_stops_at_init_cycles_and_missing_parents() {
    let (mut walk, _) = AncestryWalk::start(500, 300);
    assert_eq!(walk.step(Some(1)), Lineage::Unrelated);
    let (mut walk, _) = AncestryWalk::start(500, 300);
    assert_eq!(walk.step(Some(450)), Lineage::NeedParent(450));
    assert_eq!(walk.step(Some(500)), Lineage::Unrelated);
    let (mut walk, _) = AncestryWalk::start(500, 300);
    assert_eq!(walk.step(None), Lineage::Unrelated);
    assert_eq!(AncestryWalk::start(1, 1).1, Lineage::Unrelated);
}

#[test]
fn reads_parent_from_stat() {
    let stat = "1234 (my (weird) prog) S 77 1234 1234 0 -1 4194560";
    assert_eq!(parse_parent_pid(stat), Some(77));
    assert_eq!(parse_parent_pid("1 (init) S 0 1 1"), Some(0));
    assert_eq!(parse_parent_pid("1 (init)"), None);
    assert_eq!(parse_parent_pid("5 (a) S"), None);
    assert_eq!(parse_parent_pid("5 (a) S  x9"), None);
    assert_eq!(parse_parent_pid("5 (a) S\t-3 1"), Some(-3));
}

fn wait() -> WindowWait {
    WindowWait::new(vec![1, 2], "kitty".to_owned(), None, 10_000_000_000)
}

#[test]
fn baseline_windows_are_ignored() {
    let mut w = wait();
    let ev = Event::WindowOpenedOrChanged(window(1, Some("kitty"), None));
    assert_eq!(w.handle(ev, &vec![false], 0), None);
    assert_eq!(w.fallback(1_000_000_000), None);
}

#[test]
fn strong_match_is_taken_at_once() {
    let mut w = wait();
    let ev = Event::WindowsChanged(vec![
        window(1, Some("kitty"), None),
        window(3, Some("foot"), None),
        window(4, Some("org.kitty"), None),
        window(5, Some("kitty"), None),
    ]);
    let got = w.handle(ev, &vec![false, false, false, false], 5).unwrap();
    assert_eq!(got.id, 4);
}

#[test]
fn lone_new_window_is_taken_after_delay() {
    let mut w = wait();
    let ev = Event::WindowOpenedOrChanged(window(7, Some("other"), None));
    assert_eq!(w.handle(ev, &vec![false], 1_000), None);
    assert_eq!(w.poll_deadline(), 300_001_000);
    assert_eq!(w.fallback(300_000_999), None);
    assert_eq!(w.fallback(300_001_000).unwrap().id, 7);
}

#[test]
fn two_pending_windows_wait_for_the_deadline() {
    let mut w = wait();
    w.handle(Event::WindowOpenedOrChanged(window(7, Some("a"), None)), &vec![false], 0);
    w.handle(Event::WindowOpenedOrChanged(window(8, Some("b"), None)), &vec![false], 0);
    assert_eq!(w.fallback(5_000_000_000), None);
    assert_eq!(w.poll_deadline(), 10_000_000_000);
    w.handle(Event::WindowClosed(8), &vec![], 0);
    assert_eq!(w.fallback(5_000_000_000).unwrap().id, 7);
    assert!(!w.expired(9_999_999_999));
    assert!(w.expired(10_000_000_000));
}

#[test]
fn window_change_refreshes_pending_time() {
    let mut w = wait();
    w.handle(Event::WindowOpenedOrChanged(window(7, Some("a"), None)), &vec![false], 0);
    w.handle(Event::WindowOpenedOrChanged(window(7, Some("a"), None)), &vec![false], 200_000_000);
    assert_eq!(w.fallback(300_000_000), None);
    // a list of windows does not refresh an existing entry
    w.handle(Event::WindowsChanged(vec![window(7, Some("a"), None)]), &vec![false], 400_000_000);
    assert_eq!(w.fallback(500_000_000).unwrap().id, 7);
}

#[test]
fn lineage_queries_follow_event_windows() {
    let w = wait();
    let ev = Event::WindowsChanged(vec![window(1, None, Some(10)), window(3, None, Some(30)), window(4, None, None)]);
    assert_eq!(w.lineage_queries(&ev), vec![None, Some(30), None]);
    assert!(w.lineage_queries(&Event::Other).is_empty());
}

fn args(command: &[&str]) -> LaunchArgs {
    LaunchArgs {
        workspace: None,
        workspace_id: None,
        output: None,
        position: None,
        no_focus: false,
        silent: false,
        track_workspace: false,
        match_app_id: None,
        timeout: Duration::from_secs(10),
        socket: None,
        command: command.iter().map(|s| s.to_string()).collect(),
    }
}

fn initial() -> InitialState {
    InitialState {
        workspaces: vec![
            Workspace { id: 5, idx: 1, name: None, output: Some("DP-1".into()), is_focused: false },
            Workspace { id: 6, idx: 2, name: Some("web".into()), output: Some("DP-1".into()), is_focused: true },
        ],
        windows: vec![
            Window { id: 100, app_id: None, pid: None, workspace_id: Some(5), is_focused: false },
            Window { id: 101, app_id: None, pid: None, workspace_id: Some(6), is_focused: true },
        ],
    }
}

#[test]
fn plan_records_state_at_launch() {
    let mut a = args(&["/usr/bin/kitty", "--class", "x"]);
    a.track_workspace = true;
    let plan = plan_launch(&a, &initial()).unwrap();
    assert_eq!(plan.tracked_workspace, Some(6));
    assert!(plan.target.is_none());
    assert_eq!(plan.original_focus, Some(101));
    assert_eq!(plan.baseline, vec![100, 101]);
    assert_eq!(plan.executable, "/usr/bin/kitty");
    assert_eq!(plan.arguments, ["--class", "x"]);
    assert_eq!(plan.command_app_id, "kitty");
}

#[test]
fn plan_failures() {
    let mut a = args(&[]);
    a.workspace = Some("mail".into());
    match plan_launch(&a, &initial()) {
        Err(LaunchError::Resolve(e)) => assert_eq!(e.message(), "named workspace \"mail\" does not exist"),
        _ => panic!("expected a resolution failure"),
    }
    let a = args(&[]);
    let e = plan_launch(&a, &initial()).unwrap_err();
    assert_eq!(e.message(), "no launch command provided");
}

#[test]
fn finish_moves_places_and_restores() {
    let mut a = args(&["kitty"]);
    a.workspace = Some("web".into());
    a.position = Some(Position::Last);
    a.no_focus = true;
    let plan = plan_launch(&a, &initial()).unwrap();
    let new = Window { id: 200, app_id: None, pid: None, workspace_id: Some(5), is_focused: true };
    let f = finish_launch(&plan, &a, &new);
    assert_eq!(
        f.actions,
        vec![
            Action::MoveWindowToWorkspace { window_id: 200, workspace_id: 6, focus: false },
            Action::FocusWindow { id: 200 },
            Action::MoveColumnToLast,
        ]
    );
    assert_eq!(f.restore_focus_to, Some(101));
}

#[test]
fn finish_focuses_when_nothing_else_does() {
    let a = args(&["kitty"]);
    let plan = plan_launch(&a, &initial()).unwrap();
    let new = Window { id: 200, app_id: None, pid: None, workspace_id: Some(5), is_focused: false };
    let f = finish_launch(&plan, &a, &new);
    assert_eq!(f.actions, vec![Action::FocusWindow { id: 200 }]);
    assert_eq!(f.restore_focus_to, None);
}

#[test]
fn no_move_when_already_on_target() {
    let mut a = args(&["kitty"]);
    a.workspace_id = Some(5);
    let plan = plan_launch(&a, &initial()).unwrap();
    let new = Window { id: 200, app_id: None, pid: None, workspace_id: Some(5), is_focused: false };
    assert!(finish_launch(&plan, &a, &new).actions.is_empty());
}

#[test]
fn focus_restore_decision() {
    let windows = vec![
        Window { id: 101, app_id: None, pid: None, workspace_id: None, is_focused: false },
        Window { id: 200, app_id: None, pid: None, workspace_id: None, is_focused: true },
    ];
    assert!(restore_focus_needed(101, &windows, 200));
    assert!(!restore_focus_needed(101, &windows, 300));
    assert!(!restore_focus_needed(101, &[], 200));
}

#[test]
fn no_focus_without_position_never_focuses_new_window() {
    let mut a = args(&["kitty"]);
    a.workspace = Some("1".into());
    a.no_focus = true;
    let plan = plan_launch(&a, &initial()).unwrap();
    let new = Window { id: 200, app_id: None, pid: None, workspace_id: Some(6), is_focused: false };
    let f = finish_launch(&plan, &a, &new);
    assert_eq!(
        f.actions,
        vec![Action::MoveWindowToWorkspace { window_id: 200, workspace_id: 5, focus: false }]
    );
    assert_eq!(f.restore_focus_to, Some(101));
}

#[test]
fn tracked_workspace_moves_window_back() {
    let mut a = args(&["kitty"]);
    a.track_workspace = true;
    let plan = plan_launch(&a, &initial()).unwrap();
    // the user switched to workspace 5 before the window opened there
    let new = Window { id: 200, app_id: None, pid: None, workspace_id: Some(5), is_focused: true };
    let f = finish_launch(&plan, &a, &new);
    assert_eq!(
        f.actions,
        vec![Action::MoveWindowToWorkspace { window_id: 200, workspace_id: 6, focus: true }]
    );
    // an explicit target is not overridden by tracking
    a.workspace = Some("1".into());
    let plan = plan_launch(&a, &initial()).unwrap();
    assert_eq!(plan.tracked_workspace, None);
}

#[test]
fn command_app_id_is_the_file_name_of_the_executable() {
    let cases = [
        ("kitty", "kitty"),
        ("/usr/bin/kitty", "kitty"),
        ("./kitty", "kitty"),
        ("bin//kitty", "kitty"),
        ("/opt/app/", "app"),
        ("tools/app/.", "app"),
        ("tools/app/.//", "app"),
        (".hidden", ".hidden"),
        ("..", ".."),
        ("tools/..", "tools/.."),
        ("/", "/"),
        (".", "."),
    ];
    for (executable, expected) in cases {
        let plan = plan_launch(&args(&[executable]), &initial()).unwrap();
        assert_eq!(plan.command_app_id, expected, "executable {executable:?}");
    }
}
