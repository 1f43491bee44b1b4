use nirikit::model::{resolve_workspace, ResolveError, Workspace};

fn workspace(id: u64, idx: u8, name: Option<&str>, output: &str, focused: bool) -> Workspace {
    Workspace {
        id,
        idx,
        name: name.map(str::to_owned),
        output: Some(output.to_owned()),
        is_focused: focused,
    }
}

#[test]
fn resolves_name_and_id() {
    let workspaces = [workspace(12, 3, Some("chat"), "DP-1", true)];
    assert_eq!(
        resolve_workspace(&workspaces, Some("chat"), None, None)
            .unwrap()
            .unwrap()
            .id,
        12
    );
    assert_eq!(
        resolve_workspace(&workspaces, None, Some(12), None)
            .unwrap()
            .unwrap()
            .idx,
        3
    );
}

#[test]
fn numeric_index_prefers_focused_output() {
    let workspaces = [
        workspace(10, 3, None, "DP-1", false),
        workspace(20, 3, None, "DP-2", true),
    ];
    assert_eq!(
        resolve_workspace(&workspaces, Some("3"), None, None)
            .unwrap()
            .unwrap()
            .id,
        20
    );
}

#[test]
fn output_disambiguates_numeric_index() {
    let workspaces = [
        workspace(10, 3, None, "DP-1", false),
        workspace(20, 3, None, "DP-2", false),
    ];
    assert_eq!(
        resolve_workspace(&workspaces, Some("3"), None, Some("DP-1"))
            .unwrap()
            .unwrap()
            .id,
        10
    );
}

#[test]
fn ambiguous_index_is_rejected() {
    let workspaces = [
        workspace(10, 3, None, "DP-1", false),
        workspace(20, 3, None, "DP-2", false),
    ];
    assert!(resolve_workspace(&workspaces, Some("3"), None, None).is_err());
}

#[test]
fn id_wins_over_reference() {
    let workspaces = [
        workspace(10, 1, Some("web"), "DP-1", false),
        workspace(20, 2, Some("chat"), "DP-1", true),
    ];
    let w = resolve_workspace(&workspaces, Some("web"), Some(20), None)
        .unwrap()
        .unwrap();
    assert_eq!(w.id, 20);
}

#[test]
fn no_reference_resolves_to_nothing() {
    let workspaces = [workspace(10, 1, None, "DP-1", true)];
    assert!(resolve_workspace(&workspaces, None, None, None)
        .unwrap()
        .is_none());
}

#[test]
fn plus_sign_index_is_numeric() {
    let workspaces = [workspace(10, 7, Some("+7"), "DP-1", false)];
    // "+7" reads as index 7, not as the name "+7"
    assert_eq!(
        resolve_workspace(&workspaces, Some("+7"), None, None)
            .unwrap()
            .unwrap()
            .idx,
        7
    );
}

#[test]
fn index_above_u8_is_a_name() {
    let workspaces = [workspace(10, 1, Some("300"), "DP-1", false)];
    assert_eq!(
        resolve_workspace(&workspaces, Some("300"), None, None)
            .unwrap()
            .unwrap()
            .id,
        10
    );
}

#[test]
fn focused_output_ignored_when_it_does_not_single_out() {
    let workspaces = [
        workspace(10, 3, None, "DP-1", false),
        workspace(20, 3, None, "DP-2", false),
        workspace(30, 3, None, "DP-2", true),
    ];
    let e = resolve_workspace(&workspaces, Some("3"), None, None).unwrap_err();
    assert!(matches!(e, ResolveError::IndexAmbiguous(3)));
}

#[test]
fn resolve_error_messages() {
    let workspaces = [workspace(10, 3, Some("chat"), "DP-1", true)];
    let e = resolve_workspace(&workspaces, None, Some(99), None).unwrap_err();
    assert_eq!(e.message(), "workspace ID 99 does not exist");
    let e = resolve_workspace(&workspaces, Some("4"), None, Some("HDMI-A-1")).unwrap_err();
    assert_eq!(e.message(), "workspace index 4 does not exist on output HDMI-A-1");
    let e = resolve_workspace(&workspaces, Some("4"), None, None).unwrap_err();
    assert_eq!(e.message(), "workspace index 4 does not exist");
    let e = resolve_workspace(&workspaces, Some("mail"), None, None).unwrap_err();
    assert_eq!(e.message(), "named workspace \"mail\" does not exist");
    let e = ResolveError::IndexAmbiguous(3);
    assert_eq!(
        e.message(),
        "workspace index 3 exists on multiple outputs; pass --output or --workspace-id"
    );
}
