use faugus_launcher::app_config::{AppConfig, ConfigUpdates, InterfaceMode};
use faugus_launcher::desktop::{DesktopEntry, DesktopShortcutManager, ShortcutLocation};
use faugus_launcher::game::{format_title, game_matches_search, slug_of_lowercase, Game};
use faugus_launcher::icons::IconManager;
use faugus_launcher::paths::{choose_present, split_text, Paths};
use faugus_launcher::text::{decimal, join_path, split_whitespace, trim_text};
use faugus_launcher::tray::TrayConfig;

fn game(id: &str, title: &str) -> Game {
    Game {
        gameid: id.to_string(),
        title: title.to_string(),
        path: "/games/it's here/app.exe".to_string(),
        prefix: "/pfx".to_string(),
        launch_arguments: String::new(),
        game_arguments: String::new(),
        mangohud: false,
        gamemode: false,
        disable_hidraw: false,
        protonfix: String::new(),
        runner: "GE-Proton".to_string(),
        addapp_checkbox: false,
        addapp: String::new(),
        addapp_bat: String::new(),
        banner: None,
        lossless_enabled: false,
        lossless_multiplier: 2,
        lossless_flow: false,
        lossless_performance: false,
        lossless_hdr: false,
        playtime: 0,
        hidden: false,
    }
}

fn env_paths(config_home: Option<&str>) -> Paths {
    Paths::new(
        Some("/home/u".to_string()),
        None,
        config_home.map(|s| s.to_string()),
        None,
        None,
    )
}

#[test]
fn format_title_lowercases_and_drops_punctuation() {
    assert_eq!(format_title("ABC Def"), "abc-def");
    assert_eq!(format_title("a -- b!"), "a-b");
    assert_eq!(format_title("Élan Vital"), "élan-vital");
    assert_eq!(slug_of_lowercase("half life 2"), "half-life-2");
    assert_eq!(format_title(""), "");
}

#[test]
fn playtime_reads_in_hours_and_minutes() {
    let mut g = game("a", "A");
    assert_eq!(g.format_playtime(), "0m");
    g.add_playtime(59);
    assert_eq!(g.format_playtime(), "0m");
    g.add_playtime(3666);
    assert_eq!(g.playtime, 3725);
    assert_eq!(g.format_playtime(), "1h 2m");
}

#[test]
fn games_list_save_delete_hide() {
    let mut games = vec![game("a", "A"), game("b", "B")];
    let mut b2 = game("b", "B2");
    b2.playtime = 5;
    b2.save(&mut games);
    assert_eq!(games.len(), 2);
    assert_eq!(games[1].title, "B2");
    game("c", "C").save(&mut games);
    assert_eq!(games.len(), 3);
    game("a", "A").update_hidden(&mut games, true);
    assert!(games[0].hidden);
    game("a", "A").delete(&mut games);
    assert_eq!(games.len(), 2);
    assert_eq!(games[0].gameid, "b");
}

#[test]
fn paths_follow_the_environment() {
    let p = env_paths(None);
    assert_eq!(p.config_dir(), "/home/u/.config/faugus-launcher");
    assert_eq!(p.config_file(), "/home/u/.config/faugus-launcher/config.ini");
    assert_eq!(p.running_games_json(), "/home/u/.local/share/faugus-launcher/running_games.json");
    assert_eq!(p.steam_compat_tools_dir(), "/home/u/.local/share/Steam/compatibilitytools.d");
    assert_eq!(p.default_prefix(), "/home/u/Faugus");
    let q = env_paths(Some("/cfg/"));
    assert_eq!(q.games_json(), "/cfg/faugus-launcher/games.json");
    assert_eq!(q.logs_dir(), "/cfg/faugus-launcher/logs");
    let none = Paths::new(None, None, None, None, None);
    assert_eq!(none.user_data("x"), "/.local/share/x");
    assert_eq!(none.find_binary("sh"), None);
    assert_eq!(
        IconManager::get_icon_path(&p, "test-game-id"),
        "/home/u/.config/faugus-launcher/icons/test-game-id.png"
    );
}

#[test]
fn system_data_falls_back_to_first_dir() {
    let p = Paths::new(None, None, None, Some("/no/such/a:/no/such/b".to_string()), None);
    assert_eq!(p.system_data("zz-none"), Some("/no/such/a/zz-none".to_string()));
}

#[test]
fn text_helpers() {
    assert_eq!(decimal(0), "0");
    assert_eq!(decimal(18446744073709551615), "18446744073709551615");
    assert_eq!(join_path("a", "b"), "a/b");
    assert_eq!(join_path("a/", "b"), "a/b");
    assert_eq!(join_path("a", "/b"), "/b");
    assert_eq!(join_path("", "b"), "b");
    assert_eq!(split_whitespace(" x  y\u{3000}z "), vec!["x", "y", "z"]);
    assert_eq!(trim_text("\t a b \n"), "a b");
    assert_eq!(split_text("a::b", ':'), vec!["a", "", "b"]);
}

#[test]
fn launch_command_for_desktop_entry() {
    let mut g = game("id1", "My Game");
    g.mangohud = true;
    g.gamemode = true;
    g.launch_arguments = "-dx11".to_string();
    g.game_arguments = "-windowed".to_string();
    g.lossless_enabled = true;
    g.lossless_multiplier = 3;
    g.lossless_flow = true;
    let cmd = DesktopEntry::build_launch_command(&g, "/usr/bin/faugus-run");
    assert_eq!(
        cmd,
        "MANGOHUD=1 GAMEID=my-game gamemoderun -dx11 LSFG_LEGACY=1 LSFG_MULTIPLIER=3 \
         LSFG_FLOW_SCALE=true '/usr/bin/faugus-run' '/games/it'\\''s here/app.exe' -windowed"
    );
}

#[test]
fn desktop_file_text() {
    let e = DesktopEntry {
        name: "My Game".to_string(),
        command: "run".to_string(),
        icon: "/i.png".to_string(),
        path: "/games".to_string(),
        categories: vec!["Game".to_string(), "Action".to_string()],
        comment: Some("Launch My Game with Faugus Launcher".to_string()),
        terminal: false,
    };
    assert_eq!(
        e.to_desktop_file(),
        "[Desktop Entry]\nName=My Game\nExec=run\nIcon=/i.png\nType=Application\nPath=/games\n\
         Categories=Game;Action;\nComment=Launch My Game with Faugus Launcher\nTerminal=false\n"
    );
    assert_eq!(e.filename(), "my-game.desktop");
}

#[test]
fn desktop_entry_needs_faugus_run() {
    let g = game("id1", "My Game");
    match DesktopEntry::for_game(&g, &env_paths(None)) {
        Err(m) => assert_eq!(m, "faugus-run binary not found in PATH"),
        Ok(_) => panic!("expected an error"),
    }
}

#[test]
fn config_update_replaces_given_fields() {
    let mut c = AppConfig::with_default_prefix("/home/u/Faugus".to_string());
    assert_eq!(c.default_runner, "GE-Proton");
    let u = ConfigUpdates {
        close_on_launch: Some(true),
        default_prefix: None,
        mangohud: None,
        gamemode: None,
        disable_hidraw: None,
        default_runner: Some("UMU-Proton Latest".to_string()),
        lossless_location: None,
        discrete_gpu: None,
        splash_disable: None,
        system_tray: None,
        start_boot: None,
        mono_icon: None,
        interface_mode: Some(InterfaceMode::Banners),
        start_maximized: None,
        start_fullscreen: None,
        show_labels: None,
        smaller_banners: None,
        enable_logging: None,
        wayland_driver: None,
        enable_hdr: None,
        enable_wow64: None,
        language: None,
        logging_warning: None,
        show_hidden: None,
    };
    c.update(u);
    assert!(c.close_on_launch);
    assert_eq!(c.default_runner, "UMU-Proton Latest");
    assert_eq!(c.interface_mode, InterfaceMode::Banners);
    assert_eq!(c.default_prefix, "/home/u/Faugus");
    assert_eq!(c.language, "en_US");
    assert_eq!(InterfaceMode::Blocks.label(), "Grid");
    assert_eq!(InterfaceMode::all().len(), 3);
}

#[test]
fn tray_defaults() {
    let t = TrayConfig::default();
    assert!(!t.enabled);
    assert!(t.show_notifications);
    assert!(t.icon_path.is_none());
}

#[test]
fn config_text_is_read_line_by_line() {
    let text = "# comment\nmangohud=true\ngamemode=yes\n default-runner = \"UMU-Proton Latest\" \n\
                interface-mode=Banners\nlanguage=pt_BR\nunknown=1\nno equals here\nmangohud=false\nenable-hdr=true";
    let c = AppConfig::from_config_text(text, "/home/u/Faugus".to_string());
    assert!(!c.mangohud);
    assert!(!c.gamemode);
    assert!(c.enable_hdr);
    assert_eq!(c.default_runner, "UMU-Proton Latest");
    assert_eq!(c.interface_mode, InterfaceMode::Banners);
    assert_eq!(c.language, "pt_BR");
    assert_eq!(c.default_prefix, "/home/u/Faugus");
    assert_eq!(c.lossless_location, "");
}

#[test]
fn config_text_round_trips() {
    let mut c = AppConfig::with_default_prefix("/home/u/Faugus".to_string());
    c.system_tray = true;
    c.interface_mode = InterfaceMode::Blocks;
    let text = c.to_config_text();
    assert!(text.starts_with("# Faugus Launcher Configuration\nclose-onlaunch=false\ndefault-prefix=\"/home/u/Faugus\"\n"));
    assert!(text.contains("\ninterface-mode=Blocks\n"));
    assert!(text.ends_with("language=en_US\nlogging-warning=false\nshow-hidden=false\n"));
    let back = AppConfig::from_config_text(&text, "/elsewhere".to_string());
    assert!(back.system_tray);
    assert_eq!(back.interface_mode, InterfaceMode::Blocks);
    assert_eq!(back.default_prefix, "/home/u/Faugus");
    assert_eq!(back.default_runner, "GE-Proton");
}

#[test]
fn duplicate_gets_new_id_and_copy_title() {
    let mut g = game("a", "A");
    g.playtime = 99;
    g.hidden = true;
    let d = g.duplicate();
    assert_eq!(d.title, "A (Copy)");
    assert_ne!(d.gameid, "a");
    assert_eq!(d.gameid.len(), 36);
    assert_eq!(d.playtime, 0);
    assert!(!d.hidden);
    assert_eq!(d.path, g.path);
    let e = g.duplicate_with_id("fixed".to_string());
    assert_eq!(e.gameid, "fixed");
}

#[test]
fn search_matches_case_insensitively() {
    let mut g = game("a", "Half-Life");
    assert!(game_matches_search("", &g, false));
    assert!(game_matches_search("HALF", &g, false));
    assert!(game_matches_search("life", &g, false));
    assert!(!game_matches_search("portal", &g, false));
    g.hidden = true;
    assert!(!game_matches_search("half", &g, false));
    assert!(game_matches_search("half", &g, true));
}

#[test]
fn shortcut_targets_follow_location() {
    let g = game("id", "My Game");
    let p = env_paths(None);
    assert_eq!(
        DesktopShortcutManager::shortcut_targets(&g, ShortcutLocation::Both, &p, "/home/u/Desktop"),
        vec![
            "/home/u/.local/share/applications/my-game.desktop".to_string(),
            "/home/u/Desktop/my-game.desktop".to_string()
        ]
    );
    assert_eq!(
        DesktopShortcutManager::shortcut_targets(&g, ShortcutLocation::Desktop, &p, "/d"),
        vec!["/d/my-game.desktop".to_string()]
    );
    assert!(!DesktopShortcutManager::shortcut_exists(&g, &p, "/no/such/dir"));
}

#[test]
fn first_present_candidate_is_chosen() {
    let c = vec!["/a/x".to_string(), "/b/x".to_string(), "/c/x".to_string()];
    assert_eq!(choose_present(&c, &vec![false, true, true]), "/b/x");
    assert_eq!(choose_present(&c, &vec![false, false, false]), "/a/x");
}
