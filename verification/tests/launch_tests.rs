use drova_launcher::LauncherError;
use drova_launcher::catalog::DesktopIdSet;
use drova_launcher::launch::LaunchAction;
use drova_launcher::launch::LaunchTable;
use drova_launcher::launch::build_launch_map;
use drova_launcher::launch::build_launch_params;
use drova_launcher::launch::normalize_launch_args;
use drova_launcher::launch::resolve_launch;
use drova_launcher::records::LaunchParams;
use drova_launcher::records::StationProduct;

fn sample_item(product_id: &str) -> StationProduct {
    StationProduct {
        product_id: product_id.to_string(),
        enabled: true,
        use_default_desktop: None,
        game_path: None,
        work_path: None,
        args: None,
        verified: Some("READY".to_string()),
        title: None,
    }
}

#[test]
fn test_build_launch_params_from_station() {
    let item = StationProduct {
        product_id: "p1".to_string(),
        enabled: true,
        use_default_desktop: None,
        game_path: Some("C:\\Game.exe".to_string()),
        work_path: Some("C:\\Work".to_string()),
        args: Some("-custom".to_string()),
        verified: Some("READY".to_string()),
        title: None,
    };
    let launch = build_launch_params(&item);
    assert_eq!(launch.exe_path, "C:\\Game.exe");
    assert_eq!(launch.work_dir, "C:\\Work");
    assert_eq!(launch.args, "-custom");
}

#[test]
fn test_build_launch_params_defaults_empty() {
    let item = sample_item("p1");
    let launch = build_launch_params(&item);
    assert_eq!(launch.exe_path, "");
    assert_eq!(launch.work_dir, "");
    assert_eq!(launch.args, "");
}

#[test]
fn test_normalize_launch_args() {
    assert_eq!(normalize_launch_args("   "), None);
    assert_eq!(normalize_launch_args(""), None);
    assert_eq!(normalize_launch_args(" -custom "), Some("-custom".to_string()));
    assert_eq!(
        normalize_launch_args("\"-a -b\""),
        Some("-a -b".to_string())
    );
    assert_eq!(normalize_launch_args("'-x'"), Some("-x".to_string()));
}

#[test]
fn test_build_launch_map_last_occurrence_wins() {
    let mut first = sample_item("p1");
    first.game_path = Some("C:\\Old.exe".to_string());
    let mut second = sample_item("p1");
    second.game_path = Some("C:\\New.exe".to_string());
    let table = build_launch_map(&vec![first, second]);
    let lp = table.get("p1").unwrap();
    assert_eq!(lp.exe_path, "C:\\New.exe");
    assert!(table.get("p2").is_none());
}

#[test]
fn test_launch_desktop_branch_skips_lookup() {
    let table = LaunchTable::new();
    let mut desktop_ids = DesktopIdSet::new();
    desktop_ids.insert("p1".to_string());
    let action = resolve_launch(&table, &desktop_ids, "p1").unwrap();
    assert!(matches!(action, LaunchAction::HideAndExit));
}

#[test]
fn test_launch_desktop_sentinel_id() {
    let table = LaunchTable::new();
    let desktop_ids = DesktopIdSet::new();
    let action = resolve_launch(&table, &desktop_ids, "desktop").unwrap();
    assert!(matches!(action, LaunchAction::HideAndExit));
}

#[test]
fn test_launch_missing_descriptor() {
    let table = LaunchTable::new();
    let desktop_ids = DesktopIdSet::new();
    let r = resolve_launch(&table, &desktop_ids, "p1");
    assert!(matches!(r, Err(LauncherError::LaunchNotFound)));
}

#[test]
fn test_launch_empty_path() {
    let mut table = LaunchTable::new();
    table.insert(
        "p1".to_string(),
        LaunchParams {
            exe_path: String::new(),
            work_dir: "C:\\Work".to_string(),
            args: "-x".to_string(),
        },
    );
    let desktop_ids = DesktopIdSet::new();
    let r = resolve_launch(&table, &desktop_ids, "p1");
    assert!(matches!(r, Err(LauncherError::EmptyLaunchPath)));
}

#[test]
fn test_launch_spawn_branch() {
    let mut table = LaunchTable::new();
    table.insert(
        "p1".to_string(),
        LaunchParams {
            exe_path: "C:\\Game.exe".to_string(),
            work_dir: String::new(),
            args: " \"-a -b\" ".to_string(),
        },
    );
    let desktop_ids = DesktopIdSet::new();
    let action = resolve_launch(&table, &desktop_ids, "p1").unwrap();
    match action {
        LaunchAction::Spawn { exe_path, work_dir, arg } => {
            assert_eq!(exe_path, "C:\\Game.exe");
            assert_eq!(work_dir, None);
            assert_eq!(arg, Some("-a -b".to_string()));
        }
        _ => panic!("expected a spawn action"),
    }
}

#[test]
fn test_launch_spawn_sets_nonempty_work_dir() {
    let mut table = LaunchTable::new();
    table.insert(
        "p1".to_string(),
        LaunchParams {
            exe_path: "C:\\Game.exe".to_string(),
            work_dir: "C:\\Work".to_string(),
            args: String::new(),
        },
    );
    let desktop_ids = DesktopIdSet::new();
    let action = resolve_launch(&table, &desktop_ids, "p1").unwrap();
    match action {
        LaunchAction::Spawn { exe_path, work_dir, arg } => {
            assert_eq!(exe_path, "C:\\Game.exe");
            assert_eq!(work_dir, Some("C:\\Work".to_string()));
            assert_eq!(arg, None);
        }
        _ => panic!("expected a spawn action"),
    }
}
