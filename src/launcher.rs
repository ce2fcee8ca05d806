//! Everything a launch needs that can be decided before the process is
//! spawned: the launcher binary, the runner, the environment and the
//! arguments; and the two calls that reach running processes.
use vstd::prelude::*;

use crate::game::Game;
use crate::paths::{path_exists, Paths};
use crate::runner::{resolve_runner, resolved, validate_runner, RunnerError};
use crate::recent::{parse_recent, parsed_recent, push_recent, pushed_recent, render_recent, rendered_recent};
use crate::text::{append, contains, dec, decimal, owned, split_whitespace, split_ws, text_contains, views};

verus! {

/// A process started for a game: its title, the pid of the launcher process
/// and, once known, the pid of the shim's own process.
#[derive(Debug)]
pub struct GameProcess {
    pub game_title: String,
    pub main_pid: u32,
    pub umu_pid: Option<u32>,
}

impl GameProcess {
    /// A field-by-field copy.
    pub fn copy(&self) -> (r: GameProcess)
        ensures
            r == *self,
    {
        GameProcess { game_title: self.game_title.clone(), main_pid: self.main_pid, umu_pid: self.umu_pid }
    }
}

/// Environment variables as ordered (name, value) pairs.
pub open spec fn env_view(v: Seq<(String, String)>) -> Seq<(Seq<char>, Seq<char>)> {
    v.map_values(|p: (String, String)| (p.0@, p.1@))
}

/// Settings of the launcher that apply to every game.
pub struct LaunchSettings {
    /// Use the Wayland driver.
    pub wayland_driver: bool,
    /// Turn on HDR.
    pub enable_hdr: bool,
    /// Run 64-bit only.
    pub enable_wow64: bool,
    /// Prefer the discrete GPU.
    pub discrete_gpu: bool,
    /// Write verbose logs.
    pub enable_logging: bool,
    /// The frame generation library, when it was found.
    pub lossless_dll: Option<String>,
}

/// Whether the settings text turns `key` on, that is holds `key=true`.
pub open spec fn setting_on(config: Seq<char>, key: Seq<char>) -> bool {
    contains(config, key + "=true"@)
}

fn setting_enabled(config: &str, key: &str) -> (r: bool)
    ensures
        r == setting_on(config@, key@),
{
    let mut pat = owned(key);
    append(&mut pat, "=true");
    text_contains(config, pat.as_str())
}

impl LaunchSettings {
    /// Reads the settings from the text of the settings file; the frame
    /// generation library is left unset.
    pub fn from_config_text(config: &str) -> (r: LaunchSettings)
        ensures
            r.wayland_driver == setting_on(config@, "wayland-driver"@),
            r.enable_hdr == setting_on(config@, "enable-hdr"@),
            r.enable_wow64 == setting_on(config@, "enable-wow64"@),
            r.discrete_gpu == setting_on(config@, "discrete-gpu"@),
            r.enable_logging == setting_on(config@, "enable-logging"@),
            r.lossless_dll is None,
    {
        LaunchSettings {
            wayland_driver: setting_enabled(config, "wayland-driver"),
            enable_hdr: setting_enabled(config, "enable-hdr"),
            enable_wow64: setting_enabled(config, "enable-wow64"),
            discrete_gpu: setting_enabled(config, "discrete-gpu"),
            enable_logging: setting_enabled(config, "enable-logging"),
            lossless_dll: None,
        }
    }
}

/// Appends `(k, v)` when `cond` holds.
pub open spec fn put_if(
    e: Seq<(Seq<char>, Seq<char>)>,
    cond: bool,
    k: Seq<char>,
    v: Seq<char>,
) -> Seq<(Seq<char>, Seq<char>)> {
    if cond {
        e.push((k, v))
    } else {
        e
    }
}

/// The library to preload: the frame generation library when that feature is
/// on and the library was found, else GameMode's helper when GameMode is on
/// and the helper was found (the later setting wins).
pub open spec fn preload(g: Game, gamemoderun: Option<String>, s: LaunchSettings) -> Option<
    Seq<char>,
> {
    if g.lossless_enabled && s.lossless_dll is Some {
        Some(s.lossless_dll->0@)
    } else if g.gamemode && gamemoderun is Some {
        Some(gamemoderun->0@)
    } else {
        None
    }
}

/// The environment of a launch of `g` through runner `runner` (already
/// resolved), with the helpers found and the settings given.
pub open spec fn environment(
    g: Game,
    runner: Seq<char>,
    mangohud_found: bool,
    gamemoderun: Option<String>,
    s: LaunchSettings,
) -> Seq<(Seq<char>, Seq<char>)> {
    let e = seq![("WINEPREFIX"@, g.prefix@)];
    let e = put_if(e, runner.len() > 0, "PROTONPATH"@, runner);
    let e = e.push(("GAMEID"@, g.gameid@));
    let e = put_if(e, g.mangohud && mangohud_found, "MANGOHUD"@, "1"@);
    let p = preload(g, gamemoderun, s);
    let e = put_if(e, p is Some, "LD_PRELOAD"@, p->0);
    let e = put_if(e, g.disable_hidraw, "WINE_DISABLE_DISABLE_HIDRAW"@, "1"@);
    let e = put_if(e, s.wayland_driver, "PROTON_USE_WINE_DXGI"@, "1"@);
    let e = put_if(e, s.enable_hdr, "ENABLE_HDR"@, "1"@);
    let e = put_if(e, s.enable_wow64, "WINEARCH"@, "win64"@);
    let e = put_if(e, g.lossless_enabled && s.lossless_dll is Some, "WINEDLLOVERRIDES"@, "dxgi=n"@);
    let e = put_if(e, s.discrete_gpu, "__GLX_VENDOR_LIBRARY_NAME"@, "nvidia"@);
    let e = put_if(e, g.protonfix@.len() > 0, "PROTON_NO_FSYNC"@, "1"@);
    let e = put_if(e, g.protonfix@.len() > 0, "PROTON_NO_ESYNC"@, "1"@);
    let e = put_if(e, s.enable_logging, "WINEDEBUG"@, "+all"@);
    put_if(e, s.enable_logging, "WINE_MONO_TRACE"@, "E:System.Windows.Forms"@)
}

/// The arguments of a launch of `g`: the executable, then the tokens of the
/// launch arguments, then those of the game arguments.
pub open spec fn arguments(g: Game) -> Seq<Seq<char>> {
    seq![g.path@] + split_ws(g.launch_arguments@) + split_ws(g.game_arguments@)
}

/// What a spawn needs: the program, its environment and its arguments.
pub struct LaunchPlan {
    pub program: String,
    pub env: Vec<(String, String)>,
    pub args: Vec<String>,
}

/// Why a launch did not happen.
#[derive(Debug)]
pub enum LaunchError {
    /// A directory could not be created.
    DirectoryCreate { path: String, reason: String },
    /// The launcher binary is neither installed nor on `PATH`.
    BinaryNotFound,
    /// The chosen runner is not installed.
    RunnerNotInstalled { name: String },
    /// The process could not be spawned.
    Spawn { title: String, reason: String },
}

impl LaunchError {
    /// The message shown to the user; never empty.
    pub fn message(&self) -> (r: String)
        ensures
            r@.len() > 0,
            self is BinaryNotFound ==> r@ == "umu-run not found. Please install UMU-Launcher."@,
            self is RunnerNotInstalled ==> r@ == "Runner '"@ + self->RunnerNotInstalled_name@
                + "' is not installed. Please install it via Proton Manager."@,
            self is DirectoryCreate ==> r@ == "Failed to create directory "@
                + self->DirectoryCreate_path@ + ": "@ + self->DirectoryCreate_reason@,
            self is Spawn ==> r@ == "Failed to launch game: "@ + self->Spawn_title@ + ": "@
                + self->Spawn_reason@,
    {
        proof {
            reveal_strlit("umu-run not found. Please install UMU-Launcher.");
            reveal_strlit("Runner '");
            reveal_strlit("Failed to create directory ");
            reveal_strlit("Failed to launch game: ");
        }
        match self {
            LaunchError::DirectoryCreate { path, reason } => {
                let mut r = owned("Failed to create directory ");
                append(&mut r, path.as_str());
                append(&mut r, ": ");
                append(&mut r, reason.as_str());
                r
            },
            LaunchError::BinaryNotFound => owned("umu-run not found. Please install UMU-Launcher."),
            LaunchError::RunnerNotInstalled { name } => {
                let mut r = owned("Runner '");
                append(&mut r, name.as_str());
                append(&mut r, "' is not installed. Please install it via Proton Manager.");
                r
            },
            LaunchError::Spawn { title, reason } => {
                let mut r = owned("Failed to launch game: ");
                append(&mut r, title.as_str());
                append(&mut r, ": ");
                append(&mut r, reason.as_str());
                r
            },
        }
    }
}

fn put(env: &mut Vec<(String, String)>, k: &str, v: &str)
    ensures
        env_view(final(env)@) == env_view(old(env)@).push((k@, v@)),
{
    env.push((owned(k), owned(v)));
    assert(env_view(env@) =~= env_view(old(env)@).push((k@, v@)));
}

/// Relies on sysinfo's `System::refresh_processes` and `System::processes`:
/// whether the process table lists `pid`. The table changes at any moment,
/// so nothing is promised of the answer.
#[verifier::external_body]
fn process_listed(pid: u32) -> bool {
    let mut sys = sysinfo::System::new();
    sys.refresh_processes();
    sys.processes().contains_key(&sysinfo::Pid::from_u32(pid))
}

/// Relies on nix's `sys::signal::kill` with `SIGTERM`: asks process `pid` to
/// end. Whether the signal was delivered depends on the system, so only the
/// errno of a failure is handed back, and nothing is promised of it.
#[verifier::external_body]
fn send_sigterm(pid: i32) -> Result<(), i32>
    requires
        pid > 0,
{
    match nix::sys::signal::kill(nix::unistd::Pid::from_raw(pid), nix::sys::signal::Signal::SIGTERM) {
        Ok(()) => Ok(()),
        Err(e) => Err(e as i32),
    }
}

/// The message of a termination that could not be signalled.
pub open spec fn terminate_failure(pid: u32) -> Seq<char> {
    "Failed to send SIGTERM to process "@ + dec(pid as nat)
}

/// Launching, terminating and observing game processes.
pub struct GameLauncher;

impl GameLauncher {
    /// The launcher binary: the bundled one when present, else `umu-run` from
    /// `PATH`, else `BinaryNotFound`.
    pub fn get_umu_run(paths: &Paths) -> (r: Result<String, LaunchError>)
        ensures
            r is Err ==> r->Err_0 is BinaryNotFound,
            r is Ok ==> r->Ok_0@ == crate::text::join(paths.data_home(), "faugus-launcher/umu-run"@)
                || paths.on_search_path(r->Ok_0@, "umu-run"@),
    {
        let bundled = paths.umu_run();
        if path_exists(bundled.as_str()) {
            return Ok(bundled);
        }
        match paths.find_binary("umu-run") {
            Some(p) => Ok(p),
            None => Err(LaunchError::BinaryNotFound),
        }
    }

    /// The arguments of a launch: the executable, then the whitespace-split
    /// launch arguments, then the whitespace-split game arguments.
    pub fn build_arguments(game: &Game) -> (r: Vec<String>)
        ensures
            views(r@) == arguments(*game),
    {
        let mut args: Vec<String> = Vec::new();
        args.push(game.path.clone());
        let mut extra = split_whitespace(game.launch_arguments.as_str());
        let mut more = split_whitespace(game.game_arguments.as_str());
        let ghost a0 = args@;
        let ghost e0 = extra@;
        let ghost m0 = more@;
        args.append(&mut extra);
        assert(views(args@) =~= views(a0) + views(e0));
        let ghost a1 = args@;
        args.append(&mut more);
        assert(views(args@) =~= views(a1) + views(m0));
        assert(views(a0) =~= seq![game.path@]);
        args
    }

    /// The environment of a launch through the resolved runner `runner`,
    /// given the helpers found on the system and the launcher's settings.
    /// Features whose helper is missing are left out.
    pub fn build_environment(
        game: &Game,
        runner: &str,
        mangohud_found: bool,
        gamemoderun: &Option<String>,
        settings: &LaunchSettings,
    ) -> (r: Vec<(String, String)>)
        ensures
            env_view(r@) == environment(*game, runner@, mangohud_found, *gamemoderun, *settings),
    {
        let mut env: Vec<(String, String)> = Vec::new();
        put(&mut env, "WINEPREFIX", game.prefix.as_str());
        assert(env_view(env@) =~= seq![("WINEPREFIX"@, game.prefix@)]);
        if runner.unicode_len() > 0 {
            put(&mut env, "PROTONPATH", runner);
        }
        put(&mut env, "GAMEID", game.gameid.as_str());
        if game.mangohud && mangohud_found {
            put(&mut env, "MANGOHUD", "1");
        }
        if game.lossless_enabled && settings.lossless_dll.is_some() {
            match &settings.lossless_dll {
                Some(dll) => put(&mut env, "LD_PRELOAD", dll.as_str()),
                None => {},
            }
        } else if game.gamemode && gamemoderun.is_some() {
            match gamemoderun {
                Some(helper) => put(&mut env, "LD_PRELOAD", helper.as_str()),
                None => {},
            }
        }
        if game.disable_hidraw {
            put(&mut env, "WINE_DISABLE_DISABLE_HIDRAW", "1");
        }
        if settings.wayland_driver {
            put(&mut env, "PROTON_USE_WINE_DXGI", "1");
        }
        if settings.enable_hdr {
            put(&mut env, "ENABLE_HDR", "1");
        }
        if settings.enable_wow64 {
            put(&mut env, "WINEARCH", "win64");
        }
        if game.lossless_enabled && settings.lossless_dll.is_some() {
            put(&mut env, "WINEDLLOVERRIDES", "dxgi=n");
        }
        if settings.discrete_gpu {
            put(&mut env, "__GLX_VENDOR_LIBRARY_NAME", "nvidia");
        }
        if game.protonfix.as_str().unicode_len() > 0 {
            put(&mut env, "PROTON_NO_FSYNC", "1");
            put(&mut env, "PROTON_NO_ESYNC", "1");
        }
        if settings.enable_logging {
            put(&mut env, "WINEDEBUG", "+all");
            put(&mut env, "WINE_MONO_TRACE", "E:System.Windows.Forms");
        }
        env
    }

    /// Everything a spawn of `game` needs, once its directories exist: fails
    /// with `BinaryNotFound` when no launcher binary is found, and with
    /// `RunnerNotInstalled` when the runner does not validate.
    pub fn plan_launch(game: &Game, paths: &Paths, settings: &LaunchSettings) -> (r: Result<
        LaunchPlan,
        LaunchError,
    >)
        ensures
            r is Err ==> r->Err_0 is BinaryNotFound || (r->Err_0 is RunnerNotInstalled
                && r->Err_0->RunnerNotInstalled_name@ == game.runner@),
            r is Ok ==> views(r->Ok_0.args@) == arguments(*game),
            r is Ok ==> r->Ok_0.program@ == crate::text::join(
                paths.data_home(),
                "faugus-launcher/umu-run"@,
            ) || paths.on_search_path(r->Ok_0.program@, "umu-run"@),
            r is Ok ==> exists|cachyos: bool, mangohud_found: bool, gamemoderun: Option<String>|
                env_view(r->Ok_0.env@) == environment(
                    *game,
                    resolved(game.runner@, cachyos),
                    mangohud_found,
                    gamemoderun,
                    *settings,
                ) && (mangohud_found ==> exists|m: Seq<char>| paths.on_search_path(m, "mangohud"@))
                    && (gamemoderun is Some ==> paths.on_search_path(
                    gamemoderun->0@,
                    "gamemoderun"@,
                )),
    {
        let program = match Self::get_umu_run(paths) {
            Ok(p) => p,
            Err(e) => return Err(e),
        };
        match validate_runner(game.runner.as_str(), paths) {
            Ok(()) => {},
            Err(RunnerError::NotInstalled { name }) => {
                return Err(LaunchError::RunnerNotInstalled { name });
            },
            Err(RunnerError::InvalidPath { .. }) => {
                return Err(LaunchError::RunnerNotInstalled { name: game.runner.clone() });
            },
        }
        let runner = match resolve_runner(game.runner.as_str()) {
            Ok(s) => s,
            Err(_) => String::new(),
        };
        let mangohud = paths.mangohud();
        let mangohud_found = mangohud.is_some();
        let gamemoderun = paths.gamemoderun();
        let env = Self::build_environment(game, runner.as_str(), mangohud_found, &gamemoderun, settings);
        let args = Self::build_arguments(game);
        proof {
            if mangohud_found {
                assert(paths.on_search_path(mangohud->0@, "mangohud"@));
            }
            if runner@ == resolved(game.runner@, false) {
                assert(env_view(env@) == environment(
                    *game,
                    resolved(game.runner@, false),
                    mangohud_found,
                    gamemoderun,
                    *settings,
                ));
            } else {
                assert(env_view(env@) == environment(
                    *game,
                    resolved(game.runner@, true),
                    mangohud_found,
                    gamemoderun,
                    *settings,
                ));
            }
        }
        Ok(LaunchPlan { program, env, args })
    }

    /// The new text of the recently launched list after a launch of
    /// `title`, from the list's current text.
    pub fn update_latest_games(content: &str, title: &str) -> (r: String)
        ensures
            r@ == rendered_recent(pushed_recent(parsed_recent(content@), title@)),
    {
        let list = parse_recent(content);
        let next = push_recent(&list, title);
        render_recent(&next)
    }

    /// Whether the process table lists `pid`. A reused pid counts as alive.
    pub fn is_process_running(pid: u32) -> bool {
        process_listed(pid)
    }

    /// Asks process `pid` to end with `SIGTERM`, without waiting or
    /// escalating. Pids that do not name a single process (zero, or beyond
    /// the signed range) are refused without a signal.
    pub fn terminate(pid: u32) -> (r: Result<(), String>)
        ensures
            r is Err ==> r->Err_0@ == terminate_failure(pid),
            pid == 0 || pid > i32::MAX ==> r is Err,
    {
        if pid == 0 || pid > i32::MAX as u32 {
            return Err(Self::terminate_failure_message(pid));
        }
        match send_sigterm(pid as i32) {
            Ok(()) => Ok(()),
            Err(_) => Err(Self::terminate_failure_message(pid)),
        }
    }

    fn terminate_failure_message(pid: u32) -> (r: String)
        ensures
            r@ == terminate_failure(pid),
    {
        let mut r = owned("Failed to send SIGTERM to process ");
        let d = decimal(pid as u64);
        append(&mut r, d.as_str());
        r
    }
}

/// The environment and the arguments depend on the game, the runner, the
/// helpers found and the settings alone: equal inputs give equal outputs.
pub proof fn lemma_build_deterministic(
    g1: Game,
    g2: Game,
    runner: Seq<char>,
    mangohud_found: bool,
    gamemoderun: Option<String>,
    s: LaunchSettings,
)
    requires
        g1 == g2,
    ensures
        environment(g1, runner, mangohud_found, gamemoderun, s) == environment(
            g2,
            runner,
            mangohud_found,
            gamemoderun,
            s,
        ),
        arguments(g1) == arguments(g2),
{
}

/// Without launch or game arguments, the executable is the only argument.
pub proof fn lemma_arguments_without_extras(g: Game)
    requires
        g.launch_arguments@.len() == 0,
        g.game_arguments@.len() == 0,
    ensures
        arguments(g) == seq![g.path@],
{
    assert(split_ws(g.launch_arguments@) == Seq::<Seq<char>>::empty());
    assert(split_ws(g.game_arguments@) == Seq::<Seq<char>>::empty());
    assert(seq![g.path@] + Seq::<Seq<char>>::empty() + Seq::<Seq<char>>::empty() =~= seq![g.path@]);
}

} // verus!
