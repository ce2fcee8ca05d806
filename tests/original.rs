use faugus_launcher::game::format_title;
use faugus_launcher::icons::{IconManager, IconSize};
use faugus_launcher::paths::Paths;
use faugus_launcher::steam::SteamShortcut;

#[test]
fn test_icon_size_values() {
    assert_eq!(IconSize::Small.pixels(), 32);
    assert_eq!(IconSize::Medium.pixels(), 64);
    assert_eq!(IconSize::Large.pixels(), 128);
    assert_eq!(IconSize::XLarge.pixels(), 256);
}

#[test]
fn test_format_title() {
    assert_eq!(format_title("My Game"), "my-game");
    assert_eq!(format_title("Test's Game"), "tests-game");
    assert_eq!(format_title("  Spaces  "), "spaces");
}

#[test]
fn test_steam_shortcut_default() {
    let shortcut = SteamShortcut::default();
    assert_eq!(shortcut.appid, 0);
    assert_eq!(shortcut.appname, "");
    assert_eq!(shortcut.is_hidden, 0);
    assert_eq!(shortcut.allow_desktop_config, 1);
}

#[test]
fn test_icon_path_generation() {
    let paths = Paths::new(Some("/home/user".to_string()), None, None, None, None);
    let path = IconManager::get_icon_path(&paths, "test-game-id");
    assert!(path.ends_with("test-game-id.png"));
    assert!(path.contains("icons"));
}
