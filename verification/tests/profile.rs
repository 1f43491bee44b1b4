use std::path::PathBuf;
use std::time::Duration;

use nirikit::profile::{
    merge, missing_config_message, parse_position, searched_locations, to_launch_args, CommandOverrides, Position, PositionError, Profile,
    ProfileError, ProfileOverrides, ProfilesConfig,
};
use nirikit::table::NamedTable;

#[test]
fn merge_overrides_replace_file_values() {
    let file = Profile {
        workspace: Some("3".to_owned()),
        no_focus: true,
        silent: true,
        track_workspace: true,
        command: vec!["kitty".to_owned()],
        ..Default::default()
    };
    let overrides = ProfileOverrides {
        no_focus: Some(false),
        track_workspace: Some(false),
        command: vec!["foot".to_owned()],
        ..Default::default()
    };
    let merged = merge(file, &overrides).unwrap();
    assert_eq!(merged.workspace.as_deref(), Some("3"));
    assert!(!merged.no_focus);
    assert!(merged.silent);
    assert!(!merged.track_workspace);
    assert_eq!(merged.command, ["foot"]);
}

#[test]
fn merge_position_first_last_integer() {
    let file = Profile::default();
    let overrides = ProfileOverrides {
        position: Some("first".to_owned()),
        ..Default::default()
    };
    assert_eq!(
        merge(file.clone(), &overrides).unwrap().position,
        Some(Position::First)
    );

    let overrides = ProfileOverrides {
        position: Some("3".to_owned()),
        ..Default::default()
    };
    assert_eq!(
        merge(file.clone(), &overrides).unwrap().position,
        Some(Position::Index(3))
    );

    let overrides = ProfileOverrides {
        position: Some("last".to_owned()),
        ..Default::default()
    };
    assert_eq!(
        merge(file, &overrides).unwrap().position,
        Some(Position::Last)
    );
}

#[test]
fn to_launch_args_errors_without_command() {
    let p = Profile {
        command: vec![],
        ..Default::default()
    };
    assert!(to_launch_args(&p, None).is_err());
}

#[test]
fn to_launch_args_multi_windows() {
    let mut windows = NamedTable::new();
    windows.insert(
        "01-editor".to_owned(),
        CommandOverrides {
            command: vec!["kitty".to_owned()],
            ..Default::default()
        },
    );
    windows.insert(
        "02-terminal".to_owned(),
        CommandOverrides {
            command: vec!["foot".to_owned()],
            ..Default::default()
        },
    );
    let p = Profile {
        windows,
        ..Default::default()
    };
    let args = to_launch_args(&p, None).unwrap();
    assert_eq!(args.len(), 2);
    assert_eq!(args[0].command, ["kitty"]);
    assert_eq!(args[1].command, ["foot"]);
}

#[test]
fn to_launch_args_per_window_overrides() {
    let mut windows = NamedTable::new();
    windows.insert(
        "01-editor".to_owned(),
        CommandOverrides {
            command: vec!["kitty".to_owned()],
            ..Default::default()
        },
    );
    windows.insert(
        "02-browser".to_owned(),
        CommandOverrides {
            command: vec!["firefox".to_owned()],
            workspace: Some("web".to_owned()),
            position: Some(Position::Last),
            no_focus: Some(false),
            ..Default::default()
        },
    );
    let p = Profile {
        workspace: Some("3".to_owned()),
        no_focus: true,
        track_workspace: true,
        windows,
        ..Default::default()
    };
    let args = to_launch_args(&p, None).unwrap();
    assert_eq!(args.len(), 2);
    assert_eq!(args[0].workspace.as_deref(), Some("3"));
    assert!(args[0].no_focus);
    assert!(args[0].track_workspace);
    assert_eq!(args[0].command, ["kitty"]);
    assert_eq!(args[1].workspace.as_deref(), Some("web"));
    assert_eq!(args[1].position, Some(Position::Last));
    assert!(!args[1].no_focus);
    assert_eq!(args[1].command, ["firefox"]);
}

fn window(cmd: &str) -> CommandOverrides {
    CommandOverrides {
        command: vec![cmd.to_owned()],
        ..Default::default()
    }
}

#[test]
fn windows_launch_in_name_order_whatever_the_insertion_order() {
    let mut windows = NamedTable::new();
    windows.insert("03-chat".to_owned(), window("signal-desktop"));
    windows.insert("01-editor".to_owned(), window("kitty"));
    windows.insert("02-browser".to_owned(), window("firefox"));
    let p = Profile { windows, ..Default::default() };
    let args = to_launch_args(&p, None).unwrap();
    let cmds: Vec<&str> = args.iter().map(|a| a.command[0].as_str()).collect();
    assert_eq!(cmds, ["kitty", "firefox", "signal-desktop"]);
}

#[test]
fn table_insert_replaces_and_reports_previous() {
    let mut t: NamedTable<u32> = NamedTable::new();
    assert!(t.is_empty());
    assert_eq!(t.insert("b".to_owned(), 1), None);
    assert_eq!(t.insert("a".to_owned(), 2), None);
    assert_eq!(t.insert("b".to_owned(), 3), Some(1));
    assert_eq!(t.len(), 2);
    assert_eq!(t.get("b"), Some(&3));
    assert_eq!(t.get("a"), Some(&2));
    assert_eq!(t.get("c"), None);
    assert!(t.contains_key("a"));
    assert_eq!(t.name_at(0), "a");
    assert_eq!(t.name_at(1), "b");
    assert_eq!(*t.value_at(1), 3);
}

#[test]
fn table_orders_by_character_code() {
    let mut t: NamedTable<u32> = NamedTable::new();
    for (i, n) in ["b", "B", "ab", "a", "é", ""].iter().enumerate() {
        t.insert(n.to_string(), i as u32);
    }
    let names: Vec<&str> = (0..t.len()).map(|i| t.name_at(i).as_str()).collect();
    let mut sorted = names.clone();
    sorted.sort();
    assert_eq!(names, sorted);
    assert_eq!(names, ["", "B", "a", "ab", "b", "é"]);
}

#[test]
fn window_settings_fall_through_to_profile() {
    let mut windows = NamedTable::new();
    windows.insert(
        "w".to_owned(),
        CommandOverrides {
            command: vec!["foot".to_owned()],
            timeout: Some(Duration::from_secs(3)),
            silent: Some(true),
            ..Default::default()
        },
    );
    let p = Profile {
        output: Some("DP-1".to_owned()),
        workspace_id: Some(9),
        match_app_id: Some("foot".to_owned()),
        timeout: Some(Duration::from_secs(5)),
        windows,
        ..Default::default()
    };
    let socket = PathBuf::from("/run/niri.sock");
    let args = to_launch_args(&p, Some(socket.clone())).unwrap();
    assert_eq!(args.len(), 1);
    assert_eq!(args[0].output.as_deref(), Some("DP-1"));
    assert_eq!(args[0].workspace_id, Some(9));
    assert_eq!(args[0].match_app_id.as_deref(), Some("foot"));
    assert_eq!(args[0].timeout, Duration::from_secs(3));
    assert!(args[0].silent);
    assert_eq!(args[0].socket, Some(socket));
}

#[test]
fn default_timeout_is_ten_seconds() {
    let p = Profile {
        command: vec!["kitty".to_owned()],
        ..Default::default()
    };
    let args = to_launch_args(&p, None).unwrap();
    assert_eq!(args[0].timeout, Duration::from_secs(10));
    assert_eq!(args[0].socket, None);
}

#[test]
fn profile_command_is_ignored_when_windows_exist() {
    let mut windows = NamedTable::new();
    windows.insert("a".to_owned(), window("kitty"));
    windows.insert("b".to_owned(), window("foot"));
    let p = Profile {
        command: vec!["firefox".to_owned()],
        windows,
        ..Default::default()
    };
    let args = to_launch_args(&p, None).unwrap();
    assert_eq!(args.len(), 2);
    assert_eq!(args[0].command, ["kitty"]);
    assert_eq!(args[1].command, ["foot"]);

    let mut windows = NamedTable::new();
    windows.insert("01-editor".to_owned(), window("foot"));
    let file = Profile {
        command: vec!["kitty".to_owned()],
        windows,
        ..Default::default()
    };
    let merged = merge(file, &ProfileOverrides::default()).unwrap();
    let args = to_launch_args(&merged, None).unwrap();
    assert_eq!(args.len(), 1);
    assert_eq!(args[0].command, ["foot"]);
}

#[test]
fn window_without_command_is_rejected() {
    let mut windows = NamedTable::new();
    windows.insert("a".to_owned(), window("kitty"));
    windows.insert("b".to_owned(), CommandOverrides::default());
    let p = Profile { windows, ..Default::default() };
    let e = to_launch_args(&p, None).unwrap_err();
    assert_eq!(e.message(), "profile has a window entry with no 'command'");
    let e = to_launch_args(&Profile::default(), None).unwrap_err();
    assert_eq!(
        e.message(),
        "profile has no 'command' or named child tables and no command was passed on the CLI"
    );
}

#[test]
fn cli_command_replaces_windows() {
    let mut windows = NamedTable::new();
    windows.insert("a".to_owned(), window("kitty"));
    let file = Profile { windows, ..Default::default() };
    let overrides = ProfileOverrides {
        command: vec!["foot".to_owned(), "-e".to_owned()],
        ..Default::default()
    };
    let merged = merge(file, &overrides).unwrap();
    assert!(merged.windows.is_empty());
    let args = to_launch_args(&merged, None).unwrap();
    assert_eq!(args.len(), 1);
    assert_eq!(args[0].command, ["foot", "-e"]);
}

#[test]
fn merge_without_overrides_keeps_profile() {
    let file = Profile {
        workspace: Some("3".to_owned()),
        position: Some(Position::Index(4)),
        silent: true,
        command: vec!["kitty".to_owned()],
        ..Default::default()
    };
    let merged = merge(file, &ProfileOverrides::default()).unwrap();
    assert_eq!(merged.workspace.as_deref(), Some("3"));
    assert_eq!(merged.position, Some(Position::Index(4)));
    assert!(merged.silent);
    assert_eq!(merged.command, ["kitty"]);
}

#[test]
fn merge_position_errors() {
    let overrides = ProfileOverrides {
        position: Some("0".to_owned()),
        ..Default::default()
    };
    let e = merge(Profile::default(), &overrides).unwrap_err();
    assert_eq!(e.message(), "--position must be >= 1 (use \"first\" for column 1)");
    let overrides = ProfileOverrides {
        position: Some("middle".to_owned()),
        ..Default::default()
    };
    let e = merge(Profile::default(), &overrides).unwrap_err();
    assert_eq!(
        e.message(),
        "--position must be an integer, \"first\", or \"last\" (got \"middle\")"
    );
}

#[test]
fn position_text() {
    assert_eq!(parse_position("first").unwrap(), Position::First);
    assert_eq!(parse_position("1").unwrap(), Position::First);
    assert_eq!(parse_position("01").unwrap(), Position::Index(1));
    assert_eq!(parse_position("+2").unwrap(), Position::Index(2));
    assert_eq!(parse_position("last").unwrap(), Position::Last);
    assert_eq!(parse_position("4294967295").unwrap(), Position::Index(4294967295));
    assert!(matches!(parse_position("4294967296"), Err(PositionError::NotANumber(_))));
    assert!(matches!(parse_position("0"), Err(PositionError::Zero)));
    assert!(matches!(parse_position("-1"), Err(PositionError::NotANumber(_))));
    assert!(matches!(parse_position(""), Err(PositionError::NotANumber(_))));
    assert_eq!("7".parse::<Position>().unwrap(), Position::Index(7));
    assert_eq!(
        "Last".parse::<Position>().unwrap_err(),
        "position must be an integer, \"first\", or \"last\" (got \"Last\")"
    );
}

#[test]
fn position_config_values() {
    assert_eq!(Position::from_config_int(2).unwrap(), Position::Index(2));
    assert!(matches!(Position::from_config_int(0), Err(PositionError::Zero)));
    assert_eq!(Position::from_config_name("first").unwrap(), Position::First);
    assert_eq!(Position::from_config_name("last").unwrap(), Position::Last);
    let e = Position::from_config_name("middle").unwrap_err();
    assert_eq!(e.message(), "position string must be 'first' or 'last', got \"middle\"");
}

#[test]
fn select_lists_available_profiles() {
    let mut profiles = NamedTable::new();
    profiles.insert("term3".to_owned(), Profile::default());
    profiles.insert("dev".to_owned(), Profile::default());
    let config = ProfilesConfig { profiles };
    assert_eq!(config.names(), ["dev", "term3"]);
    assert!(config.select("dev").is_ok());
    let e = config.select("web").unwrap_err();
    assert_eq!(e.message(), "profile \"web\" not found; available: dev, term3");
    let empty = ProfilesConfig { profiles: NamedTable::new() };
    let e = empty.select("web").unwrap_err();
    assert!(matches!(e, ProfileError::NotFound { .. }));
    assert_eq!(e.message(), "profile \"web\" not found; available: (none)");
}

#[test]
fn merging_twice_changes_nothing_more() {
    let mut windows = NamedTable::new();
    windows.insert("a".to_owned(), window("kitty"));
    let file = Profile {
        workspace: Some("2".to_owned()),
        windows,
        ..Default::default()
    };
    let overrides = ProfileOverrides {
        output: Some("DP-2".to_owned()),
        position: Some("5".to_owned()),
        silent: Some(true),
        ..Default::default()
    };
    let once = merge(file, &overrides).unwrap();
    let twice = merge(once.clone(), &overrides).unwrap();
    assert_eq!(once.output, twice.output);
    assert_eq!(once.workspace, twice.workspace);
    assert_eq!(once.position, Some(Position::Index(5)));
    assert_eq!(once.position, twice.position);
    assert_eq!(once.silent, twice.silent);
    assert_eq!(once.windows.len(), twice.windows.len());
    assert_eq!(twice.windows.name_at(0), "a");
}

#[test]
fn empty_config_has_no_names() {
    assert!(ProfilesConfig::default().names().is_empty());
}

#[test]
fn searched_locations_lists_each_place_that_is_set() {
    let all = searched_locations(
        Some("/tmp/n.toml".to_owned()),
        Some("/x/nirikit/config.toml".to_owned()),
        Some(("/home/u/.config".to_owned(), "/home/u/.config/nirikit/config.toml".to_owned())),
    );
    assert_eq!(
        all,
        vec![
            "$NIRIKIT_CONFIG (/tmp/n.toml)".to_owned(),
            "$XDG_CONFIG_HOME/nirikit/config.toml (/x/nirikit/config.toml)".to_owned(),
            "/home/u/.config/nirikit/config.toml (/home/u/.config/nirikit/config.toml)".to_owned(),
        ]
    );
    assert_eq!(
        missing_config_message(&all),
        "could not find nirikit config; searched: $NIRIKIT_CONFIG (/tmp/n.toml), \
         $XDG_CONFIG_HOME/nirikit/config.toml (/x/nirikit/config.toml), \
         /home/u/.config/nirikit/config.toml (/home/u/.config/nirikit/config.toml)"
    );
    let home_only = searched_locations(None, None, Some(("/h".to_owned(), "/h/nirikit/config.toml".to_owned())));
    assert_eq!(home_only, vec!["/h/nirikit/config.toml (/h/nirikit/config.toml)".to_owned()]);
    let none = searched_locations(None, None, None);
    assert!(none.is_empty());
    assert_eq!(missing_config_message(&none), "could not find nirikit config; searched: ");
}
