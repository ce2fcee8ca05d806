use faugus_launcher::controller::{GameLaunchController, LaunchStatus};
use faugus_launcher::game::Game;
use faugus_launcher::launcher::{GameLauncher, GameProcess, LaunchError, LaunchSettings};
use faugus_launcher::registry::ProcessRegistry;
use faugus_launcher::runner::{resolve_runner, resolve_runner_with, validate_runner, RunnerError};
use faugus_launcher::paths::Paths;

fn sample_game(title: &str) -> Game {
    Game {
        gameid: format!("id-{}", title),
        title: title.to_string(),
        path: "/games/app.exe".to_string(),
        prefix: "/home/u/Faugus/app".to_string(),
        launch_arguments: String::new(),
        game_arguments: String::new(),
        mangohud: false,
        gamemode: false,
        disable_hidraw: false,
        protonfix: String::new(),
        runner: "UMU-Proton Latest".to_string(),
        addapp_checkbox: false,
        addapp: String::new(),
        addapp_bat: String::new(),
        banner: None,
        lossless_enabled: false,
        lossless_multiplier: 2,
        lossless_flow: false,
        lossless_performance: false,
        lossless_hdr: false,
        playtime: 0,
        hidden: false,
    }
}

fn process(title: &str, pid: u32) -> GameProcess {
    GameProcess { game_title: title.to_string(), main_pid: pid, umu_pid: None }
}

fn no_settings() -> LaunchSettings {
    LaunchSettings::from_config_text("")
}

fn test_paths() -> Paths {
    Paths::new(
        Some("/home/u".to_string()),
        None,
        None,
        None,
        Some("/nonexistent-bin-dir".to_string()),
    )
}

#[test]
fn arguments_are_executable_then_launch_then_game_tokens() {
    let mut g = sample_game("A");
    g.launch_arguments = "-foo -bar".to_string();
    g.game_arguments = "--baz".to_string();
    let args = GameLauncher::build_arguments(&g);
    assert_eq!(args, vec!["/games/app.exe", "-foo", "-bar", "--baz"]);
}

#[test]
fn arguments_without_extras_are_the_executable_alone() {
    let g = sample_game("A");
    assert_eq!(GameLauncher::build_arguments(&g), vec!["/games/app.exe"]);
}

#[test]
fn arguments_split_on_any_whitespace() {
    let mut g = sample_game("A");
    g.launch_arguments = "  -a\t-b\n".to_string();
    g.game_arguments = "   ".to_string();
    assert_eq!(GameLauncher::build_arguments(&g), vec!["/games/app.exe", "-a", "-b"]);
}

#[test]
fn environment_is_deterministic() {
    let mut g = sample_game("A");
    g.mangohud = true;
    g.gamemode = true;
    let helper = Some("/usr/bin/gamemoderun".to_string());
    let s = no_settings();
    let a = GameLauncher::build_environment(&g, "GE-Proton9-1", true, &helper, &s);
    let b = GameLauncher::build_environment(&g, "GE-Proton9-1", true, &helper, &s);
    assert_eq!(a, b);
    let args_a = GameLauncher::build_arguments(&g);
    let args_b = GameLauncher::build_arguments(&g);
    assert_eq!(args_a, args_b);
}

#[test]
fn environment_sets_prefix_runner_and_id() {
    let g = sample_game("A");
    let env = GameLauncher::build_environment(&g, "GE-Proton9-1", false, &None, &no_settings());
    assert_eq!(
        env,
        vec![
            ("WINEPREFIX".to_string(), "/home/u/Faugus/app".to_string()),
            ("PROTONPATH".to_string(), "GE-Proton9-1".to_string()),
            ("GAMEID".to_string(), "id-A".to_string()),
        ]
    );
}

#[test]
fn environment_omits_runner_for_automatic_selection() {
    let g = sample_game("A");
    let env = GameLauncher::build_environment(&g, "", false, &None, &no_settings());
    assert!(env.iter().all(|(k, _)| k != "PROTONPATH"));
    assert_eq!(env.len(), 2);
}

#[test]
fn missing_helpers_make_toggles_no_ops() {
    let mut g = sample_game("A");
    g.mangohud = true;
    g.gamemode = true;
    g.lossless_enabled = true;
    let env = GameLauncher::build_environment(&g, "", false, &None, &no_settings());
    assert_eq!(env.len(), 2);
}

#[test]
fn frame_generation_preload_wins_over_gamemode() {
    let mut g = sample_game("A");
    g.gamemode = true;
    g.lossless_enabled = true;
    g.disable_hidraw = true;
    let mut s = no_settings();
    s.lossless_dll = Some("/opt/lsfg/liblsfg.so".to_string());
    let helper = Some("/usr/bin/gamemoderun".to_string());
    let env = GameLauncher::build_environment(&g, "", false, &helper, &s);
    let preload: Vec<&(String, String)> = env.iter().filter(|(k, _)| k == "LD_PRELOAD").collect();
    assert_eq!(preload.len(), 1);
    assert_eq!(preload[0].1, "/opt/lsfg/liblsfg.so");
    assert!(env.contains(&("WINEDLLOVERRIDES".to_string(), "dxgi=n".to_string())));
    assert!(env.contains(&("WINE_DISABLE_DISABLE_HIDRAW".to_string(), "1".to_string())));
}

#[test]
fn settings_text_switches_features() {
    let s = LaunchSettings::from_config_text("wayland-driver=true\nenable-hdr=false\nenable-logging=true\n");
    assert!(s.wayland_driver);
    assert!(!s.enable_hdr);
    assert!(s.enable_logging);
    assert!(!s.discrete_gpu);
    let mut g = sample_game("A");
    g.protonfix = "umu-123".to_string();
    let env = GameLauncher::build_environment(&g, "", false, &None, &s);
    assert!(env.contains(&("PROTON_USE_WINE_DXGI".to_string(), "1".to_string())));
    assert!(env.contains(&("WINEDEBUG".to_string(), "+all".to_string())));
    assert!(env.contains(&("PROTON_NO_FSYNC".to_string(), "1".to_string())));
    assert!(env.contains(&("PROTON_NO_ESYNC".to_string(), "1".to_string())));
}

#[test]
fn runner_names_resolve() {
    assert_eq!(resolve_runner_with("UMU-Proton Latest", false), "");
    assert_eq!(resolve_runner_with("GE-Proton Latest (default)", false), "Proton-GE Latest");
    assert_eq!(resolve_runner_with("Proton-EM Latest", true), "Proton-EM Latest");
    assert_eq!(
        resolve_runner_with("Proton-CachyOS", true),
        "/usr/share/steam/compatibilitytools.d/Proton-CachyOS"
    );
    assert_eq!(resolve_runner_with("Proton-CachyOS", false), "Proton-CachyOS");
    assert_eq!(resolve_runner("GE-Proton9-1").unwrap(), "GE-Proton9-1");
}

#[test]
fn automatic_runner_always_validates() {
    assert!(validate_runner("UMU-Proton Latest", &test_paths()).is_ok());
}

#[test]
fn unknown_runner_is_not_installed() {
    match validate_runner("DefinitelyNotInstalled-123", &test_paths()) {
        Err(RunnerError::NotInstalled { name }) => assert_eq!(name, "DefinitelyNotInstalled-123"),
        _ => panic!("expected NotInstalled"),
    }
    match validate_runner("/definitely/not/here", &test_paths()) {
        Err(e) => assert_eq!(
            e.message(),
            "Runner '/definitely/not/here' is not installed. Please install it via Proton Manager."
        ),
        Ok(()) => panic!("expected an error"),
    }
}

#[test]
fn launch_plan_fails_without_launcher_binary() {
    let g = sample_game("A");
    match GameLauncher::plan_launch(&g, &test_paths(), &no_settings()) {
        Err(LaunchError::BinaryNotFound) => {}
        _ => panic!("expected BinaryNotFound"),
    }
    assert_eq!(
        LaunchError::BinaryNotFound.message(),
        "umu-run not found. Please install UMU-Launcher."
    );
}

#[test]
fn upsert_keeps_one_record_per_title() {
    let mut reg = ProcessRegistry::new();
    reg.upsert(process("A", 10));
    reg.upsert(process("B", 11));
    reg.upsert(process("A", 12));
    let a: Vec<&GameProcess> = reg.records().iter().filter(|p| p.game_title == "A").collect();
    assert_eq!(a.len(), 1);
    assert_eq!(a[0].main_pid, 12);
    assert_eq!(reg.records().len(), 2);
    reg.remove("A");
    assert_eq!(reg.records().len(), 1);
    assert!(reg.find("A").is_none());
    assert_eq!(reg.find("B").unwrap().main_pid, 11);
}

#[test]
fn registry_from_records_keeps_latest_duplicate() {
    let reg = ProcessRegistry::from_records(vec![process("A", 1), process("B", 2), process("A", 3)]);
    assert_eq!(reg.records().len(), 2);
    assert_eq!(reg.find("A").unwrap().main_pid, 3);
}

#[test]
fn failed_launch_records_error_and_nothing_persisted() {
    let mut c = GameLaunchController::new();
    assert!(matches!(c.get_status("A"), LaunchStatus::NotRunning));
    assert!(c.request_launch("A"));
    assert!(matches!(c.get_status("A"), LaunchStatus::Launching));
    c.launch_failed("A", LaunchError::BinaryNotFound.message());
    match c.get_status("A") {
        LaunchStatus::Error(m) => assert!(!m.is_empty()),
        _ => panic!("expected Error"),
    }
    assert!(c.registry().records().is_empty());
    assert!(c.recently_launched().is_empty());
}

#[test]
fn successful_launch_runs_and_persists() {
    let mut c = GameLaunchController::new();
    assert!(c.request_launch("A"));
    assert!(!c.request_launch("A"));
    c.launch_succeeded(process("A", 4242));
    match c.get_status("A") {
        LaunchStatus::Running(p) => assert_eq!(p.main_pid, 4242),
        _ => panic!("expected Running"),
    }
    assert!(c.is_running("A"));
    assert_eq!(c.registry().find("A").unwrap().main_pid, 4242);
    assert_eq!(c.recently_launched(), &vec!["A".to_string()]);
    let running = c.get_running_games();
    assert_eq!(running.len(), 1);
    assert_eq!(running[0].0, "A");
}

#[test]
fn sweep_reports_dead_titles() {
    let mut c = GameLaunchController::new();
    c.request_launch("A");
    c.launch_succeeded(process("A", 100));
    c.request_launch("B");
    c.launch_succeeded(process("B", 200));
    let dead = c.check_processes_with(&vec![200]);
    assert_eq!(dead, vec!["A".to_string()]);
    assert!(matches!(c.get_status("A"), LaunchStatus::NotRunning));
    assert!(matches!(c.get_status("B"), LaunchStatus::Running(_)));
    assert!(c.registry().find("A").is_none());
    assert!(c.registry().find("B").is_some());
}

#[test]
fn terminate_rejects_wrong_states() {
    let mut c = GameLaunchController::new();
    assert_eq!(c.terminate_game("A"), Err("Game is not running".to_string()));
    assert!(matches!(c.get_status("A"), LaunchStatus::NotRunning));
    c.request_launch("A");
    assert_eq!(c.terminate_game("A"), Err("Game is still launching, please wait".to_string()));
    assert!(matches!(c.get_status("A"), LaunchStatus::Launching));
    c.launch_failed("A", "boom".to_string());
    assert_eq!(c.terminate_game("A"), Err("Game launch failed".to_string()));
    assert!(matches!(c.get_status("A"), LaunchStatus::Error(_)));
}

#[test]
fn failed_signal_leaves_title_running() {
    let mut c = GameLaunchController::new();
    c.request_launch("A");
    c.launch_succeeded(process("A", 0));
    assert_eq!(
        c.terminate_game("A"),
        Err("Failed to terminate game: Failed to send SIGTERM to process 0".to_string())
    );
    assert!(matches!(c.get_status("A"), LaunchStatus::Running(_)));
    assert!(c.registry().find("A").is_some());
}

#[test]
fn finished_termination_clears_title() {
    let mut c = GameLaunchController::new();
    c.request_launch("A");
    c.launch_succeeded(process("A", 7));
    assert_eq!(c.finish_termination("A", Ok(())), Ok(()));
    assert!(matches!(c.get_status("A"), LaunchStatus::NotRunning));
    assert!(c.registry().records().is_empty());
}

#[test]
fn terminate_refuses_unsafe_pids() {
    assert_eq!(
        GameLauncher::terminate(u32::MAX),
        Err("Failed to send SIGTERM to process 4294967295".to_string())
    );
    assert!(!GameLauncher::is_process_running(u32::MAX));
}

#[test]
fn recently_launched_is_capped_at_ten() {
    let mut c = GameLaunchController::new();
    for i in 0..11 {
        let t = format!("T{}", i);
        c.request_launch(&t);
        c.launch_succeeded(process(&t, 1000 + i));
    }
    let recent = c.recently_launched();
    assert_eq!(recent.len(), 10);
    assert_eq!(recent[0], "T10");
    assert!(!recent.contains(&"T0".to_string()));
    c.on_process_exited("T5");
    c.request_launch("T5");
    c.launch_succeeded(process("T5", 5));
    let recent = c.recently_launched();
    assert_eq!(recent.len(), 10);
    assert_eq!(recent[0], "T5");
    assert_eq!(recent.iter().filter(|t| t.as_str() == "T5").count(), 1);
}

#[test]
fn latest_games_file_is_updated() {
    assert_eq!(GameLauncher::update_latest_games("", "A"), "A\n");
    assert_eq!(GameLauncher::update_latest_games("A\nB\n", "B"), "B\nA\n");
    assert_eq!(GameLauncher::update_latest_games(" A \r\nC", "B"), "B\nA\nC\n");
}

#[test]
fn terminate_all_keeps_titles_whose_signal_fails() {
    let mut c = GameLaunchController::new();
    c.request_launch("A");
    c.launch_succeeded(process("A", 0));
    c.request_launch("B");
    c.launch_failed("B", "boom".to_string());
    c.terminate_all();
    assert!(matches!(c.get_status("A"), LaunchStatus::Running(_)));
    assert!(c.registry().find("A").is_some());
    assert!(matches!(c.get_status("B"), LaunchStatus::Error(_)));
}

#[test]
fn sweep_reports_each_title_once() {
    let mut c = GameLaunchController::new();
    for (t, pid) in [("A", 1u32), ("B", 2), ("C", 3)] {
        c.request_launch(t);
        c.launch_succeeded(process(t, pid));
    }
    let mut dead = c.check_processes_with(&vec![2]);
    dead.sort();
    assert_eq!(dead, vec!["A".to_string(), "C".to_string()]);
}
