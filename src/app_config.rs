//! The launcher's settings and partial updates of them.
use vstd::prelude::*;

use crate::recent::{parse_recent, parsed_recent};
use crate::text::{append, owned, same_text, trim, trim_text, views};

verus! {

/// How the library is shown.
#[derive(Debug, Clone, Copy, PartialEq, Eq, Structural)]
pub enum InterfaceMode {
    List,
    Blocks,
    Banners,
}

impl InterfaceMode {
    /// Every mode, in menu order.
    pub fn all() -> (r: Vec<InterfaceMode>)
        ensures
            r@ == seq![InterfaceMode::List, InterfaceMode::Blocks, InterfaceMode::Banners],
    {
        let mut r: Vec<InterfaceMode> = Vec::new();
        r.push(InterfaceMode::List);
        r.push(InterfaceMode::Blocks);
        r.push(InterfaceMode::Banners);
        assert(r@ =~= seq![InterfaceMode::List, InterfaceMode::Blocks, InterfaceMode::Banners]);
        r
    }

    /// The name shown for the mode.
    pub fn label(&self) -> (r: String)
        ensures
            *self == InterfaceMode::List ==> r@ == "List"@,
            *self == InterfaceMode::Blocks ==> r@ == "Grid"@,
            *self == InterfaceMode::Banners ==> r@ == "Banner"@,
    {
        match self {
            InterfaceMode::List => owned("List"),
            InterfaceMode::Blocks => owned("Grid"),
            InterfaceMode::Banners => owned("Banner"),
        }
    }
}

/// The value after an optional update: the new value when given.
pub open spec fn updated<T>(cur: T, upd: Option<T>) -> T {
    match upd {
        Some(v) => v,
        None => cur,
    }
}

/// The update when given, else the current value.
fn pick<T: Copy>(cur: T, upd: Option<T>) -> (r: T)
    ensures
        r == updated(cur, upd),
{
    match upd {
        Some(v) => v,
        None => cur,
    }
}

/// The updated text when given, else a copy of the current one.
fn pick_text(cur: &String, upd: Option<String>) -> (r: String)
    ensures
        r == updated(*cur, upd),
{
    match upd {
        Some(v) => v,
        None => cur.clone(),
    }
}

/// The launcher's settings. Paths are held as text.
pub struct AppConfig {
    /// Close the launcher after a game starts.
    pub close_on_launch: bool,
    /// Default compatibility prefix.
    pub default_prefix: String,
    /// Turn MangoHud on for new games.
    pub mangohud: bool,
    /// Turn GameMode on for new games.
    pub gamemode: bool,
    /// Turn raw controller input off for new games.
    pub disable_hidraw: bool,
    /// Default runner for new games.
    pub default_runner: String,
    /// Where the frame generation library is.
    pub lossless_location: String,
    /// Prefer the discrete GPU.
    pub discrete_gpu: bool,
    /// Skip the splash screen.
    pub splash_disable: bool,
    /// Show the system tray icon.
    pub system_tray: bool,
    /// Start with the session.
    pub start_boot: bool,
    /// Use the monochrome icon.
    pub mono_icon: bool,
    /// How the library is shown.
    pub interface_mode: InterfaceMode,
    /// Start maximized.
    pub start_maximized: bool,
    /// Start full screen.
    pub start_fullscreen: bool,
    /// Show labels on banners.
    pub show_labels: bool,
    /// Use smaller banners.
    pub smaller_banners: bool,
    /// Write verbose logs.
    pub enable_logging: bool,
    /// Use the Wayland driver.
    pub wayland_driver: bool,
    /// Turn on HDR.
    pub enable_hdr: bool,
    /// Run 64-bit only.
    pub enable_wow64: bool,
    /// Language code.
    pub language: String,
    /// Warn before logging is turned on.
    pub logging_warning: bool,
    /// Show hidden games.
    pub show_hidden: bool,
}

/// A partial update of the settings: each field that is set replaces the
/// setting of the same name.
pub struct ConfigUpdates {
    pub close_on_launch: Option<bool>,
    pub default_prefix: Option<String>,
    pub mangohud: Option<bool>,
    pub gamemode: Option<bool>,
    pub disable_hidraw: Option<bool>,
    pub default_runner: Option<String>,
    pub lossless_location: Option<String>,
    pub discrete_gpu: Option<bool>,
    pub splash_disable: Option<bool>,
    pub system_tray: Option<bool>,
    pub start_boot: Option<bool>,
    pub mono_icon: Option<bool>,
    pub interface_mode: Option<InterfaceMode>,
    pub start_maximized: Option<bool>,
    pub start_fullscreen: Option<bool>,
    pub show_labels: Option<bool>,
    pub smaller_banners: Option<bool>,
    pub enable_logging: Option<bool>,
    pub wayland_driver: Option<bool>,
    pub enable_hdr: Option<bool>,
    pub enable_wow64: Option<bool>,
    pub language: Option<String>,
    pub logging_warning: Option<bool>,
    pub show_hidden: Option<bool>,
}

impl AppConfig {
    /// The default settings, with the given default prefix.
    pub fn with_default_prefix(default_prefix: String) -> (r: AppConfig)
        ensures
            r.default_prefix == default_prefix,
            r.default_runner@ == "GE-Proton"@,
            r.language@ == "en_US"@,
            r.lossless_location@.len() == 0,
            r.interface_mode == InterfaceMode::List,
            !r.close_on_launch && !r.mangohud && !r.gamemode && !r.disable_hidraw,
            !r.discrete_gpu && !r.splash_disable && !r.system_tray && !r.start_boot,
            !r.mono_icon && !r.start_maximized && !r.start_fullscreen && !r.show_labels,
            !r.smaller_banners && !r.enable_logging && !r.wayland_driver && !r.enable_hdr,
            !r.enable_wow64 && !r.logging_warning && !r.show_hidden,
    {
        AppConfig {
            close_on_launch: false,
            default_prefix: default_prefix,
            mangohud: false,
            gamemode: false,
            disable_hidraw: false,
            default_runner: owned("GE-Proton"),
            lossless_location: String::new(),
            discrete_gpu: false,
            splash_disable: false,
            system_tray: false,
            start_boot: false,
            mono_icon: false,
            interface_mode: InterfaceMode::List,
            start_maximized: false,
            start_fullscreen: false,
            show_labels: false,
            smaller_banners: false,
            enable_logging: false,
            wayland_driver: false,
            enable_hdr: false,
            enable_wow64: false,
            language: owned("en_US"),
            logging_warning: false,
            show_hidden: false,
        }
    }

    /// Applies `updates`: every field that is set replaces its setting;
    /// the other settings stay.
    pub fn update(&mut self, updates: ConfigUpdates)
        ensures
            final(self).close_on_launch == updated(old(self).close_on_launch, updates.close_on_launch),
            final(self).default_prefix == updated(old(self).default_prefix, updates.default_prefix),
            final(self).mangohud == updated(old(self).mangohud, updates.mangohud),
            final(self).gamemode == updated(old(self).gamemode, updates.gamemode),
            final(self).disable_hidraw == updated(old(self).disable_hidraw, updates.disable_hidraw),
            final(self).default_runner == updated(old(self).default_runner, updates.default_runner),
            final(self).lossless_location == updated(old(self).lossless_location, updates.lossless_location),
            final(self).discrete_gpu == updated(old(self).discrete_gpu, updates.discrete_gpu),
            final(self).splash_disable == updated(old(self).splash_disable, updates.splash_disable),
            final(self).system_tray == updated(old(self).system_tray, updates.system_tray),
            final(self).start_boot == updated(old(self).start_boot, updates.start_boot),
            final(self).mono_icon == updated(old(self).mono_icon, updates.mono_icon),
            final(self).interface_mode == updated(old(self).interface_mode, updates.interface_mode),
            final(self).start_maximized == updated(old(self).start_maximized, updates.start_maximized),
            final(self).start_fullscreen == updated(old(self).start_fullscreen, updates.start_fullscreen),
            final(self).show_labels == updated(old(self).show_labels, updates.show_labels),
            final(self).smaller_banners == updated(old(self).smaller_banners, updates.smaller_banners),
            final(self).enable_logging == updated(old(self).enable_logging, updates.enable_logging),
            final(self).wayland_driver == updated(old(self).wayland_driver, updates.wayland_driver),
            final(self).enable_hdr == updated(old(self).enable_hdr, updates.enable_hdr),
            final(self).enable_wow64 == updated(old(self).enable_wow64, updates.enable_wow64),
            final(self).language == updated(old(self).language, updates.language),
            final(self).logging_warning == updated(old(self).logging_warning, updates.logging_warning),
            final(self).show_hidden == updated(old(self).show_hidden, updates.show_hidden),
    {
        *self = AppConfig {
            close_on_launch: pick(self.close_on_launch, updates.close_on_launch),
            default_prefix: pick_text(&self.default_prefix, updates.default_prefix),
            mangohud: pick(self.mangohud, updates.mangohud),
            gamemode: pick(self.gamemode, updates.gamemode),
            disable_hidraw: pick(self.disable_hidraw, updates.disable_hidraw),
            default_runner: pick_text(&self.default_runner, updates.default_runner),
            lossless_location: pick_text(&self.lossless_location, updates.lossless_location),
            discrete_gpu: pick(self.discrete_gpu, updates.discrete_gpu),
            splash_disable: pick(self.splash_disable, updates.splash_disable),
            system_tray: pick(self.system_tray, updates.system_tray),
            start_boot: pick(self.start_boot, updates.start_boot),
            mono_icon: pick(self.mono_icon, updates.mono_icon),
            interface_mode: pick(self.interface_mode, updates.interface_mode),
            start_maximized: pick(self.start_maximized, updates.start_maximized),
            start_fullscreen: pick(self.start_fullscreen, updates.start_fullscreen),
            show_labels: pick(self.show_labels, updates.show_labels),
            smaller_banners: pick(self.smaller_banners, updates.smaller_banners),
            enable_logging: pick(self.enable_logging, updates.enable_logging),
            wayland_driver: pick(self.wayland_driver, updates.wayland_driver),
            enable_hdr: pick(self.enable_hdr, updates.enable_hdr),
            enable_wow64: pick(self.enable_wow64, updates.enable_wow64),
            language: pick_text(&self.language, updates.language),
            logging_warning: pick(self.logging_warning, updates.logging_warning),
            show_hidden: pick(self.show_hidden, updates.show_hidden),
        };
    }
}


/// The key and value of a settings line (already trimmed): the text around
/// the first `=`, trimmed, with quotes stripped from the value. Empty lines,
/// comments and lines without `=` hold none.
pub open spec fn entry_of(line: Seq<char>) -> Option<(Seq<char>, Seq<char>)> {
    if line.len() == 0 || line[0] == '#' || !(exists|i: int| 0 <= i < line.len() && line[i] == '=') {
        None
    } else {
        let i = first_eq(line, 0);
        Some((trim(line.subrange(0, i)), unquote(trim(line.subrange(i + 1, line.len() as int)))))
    }
}

/// The first `=` of `line` at or after `from`.
pub open spec fn first_eq(line: Seq<char>, from: int) -> int
    decreases line.len() - from,
{
    if from >= line.len() || line[from] == '=' {
        from
    } else {
        first_eq(line, from + 1)
    }
}

/// Number of leading `"` of `s`.
pub open spec fn lead_quotes(s: Seq<char>) -> nat
    decreases s.len(),
{
    if s.len() > 0 && s[0] == '"' {
        1 + lead_quotes(s.drop_first())
    } else {
        0
    }
}

/// Number of trailing `"` of `s`.
pub open spec fn trail_quotes(s: Seq<char>) -> nat
    decreases s.len(),
{
    if s.len() > 0 && s.last() == '"' {
        1 + trail_quotes(s.drop_last())
    } else {
        0
    }
}

/// `s` without leading and trailing `"`, as `trim_matches('"')` leaves it.
pub open spec fn unquote(s: Seq<char>) -> Seq<char> {
    let a = lead_quotes(s);
    if a == s.len() {
        seq![]
    } else {
        s.subrange(a as int, s.len() - trail_quotes(s))
    }
}

/// The value that the last line for `key` among `lines` gives, if any.
pub open spec fn setting(lines: Seq<Seq<char>>, key: Seq<char>) -> Option<Seq<char>>
    decreases lines.len(),
{
    if lines.len() == 0 {
        None
    } else if entry_of(lines.last()) is Some && (entry_of(lines.last())->0).0 == key {
        Some((entry_of(lines.last())->0).1)
    } else {
        setting(lines.drop_last(), key)
    }
}

/// A flag: on only for the value `true`.
pub open spec fn bool_setting(v: Option<Seq<char>>) -> bool {
    v == Some("true"@)
}

/// A text setting, or `dflt` when absent.
pub open spec fn text_setting(v: Option<Seq<char>>, dflt: Seq<char>) -> Seq<char> {
    match v {
        Some(t) => t,
        None => dflt,
    }
}

/// The interface mode named by a setting; the list for anything else.
pub open spec fn mode_setting(v: Option<Seq<char>>) -> InterfaceMode {
    if v == Some("Blocks"@) {
        InterfaceMode::Blocks
    } else if v == Some("Banners"@) {
        InterfaceMode::Banners
    } else {
        InterfaceMode::List
    }
}

/// The name under which a mode is saved.
pub open spec fn mode_name(m: InterfaceMode) -> Seq<char> {
    match m {
        InterfaceMode::List => "List"@,
        InterfaceMode::Blocks => "Blocks"@,
        InterfaceMode::Banners => "Banners"@,
    }
}

/// The saved line of a flag.
#[verifier::opaque]
pub open spec fn bool_line(key: Seq<char>, b: bool) -> Seq<char> {
    key + "="@ + (if b {
        "true"@
    } else {
        "false"@
    }) + "\n"@
}

/// The saved line of a text setting, quoted or not.
#[verifier::opaque]
pub open spec fn text_line(key: Seq<char>, v: Seq<char>, quoted: bool) -> Seq<char> {
    if quoted {
        key + "=\""@ + v + "\"\n"@
    } else {
        key + "="@ + v + "\n"@
    }
}

/// The saved line of the interface mode.
#[verifier::opaque]
pub open spec fn mode_line(key: Seq<char>, m: InterfaceMode) -> Seq<char> {
    key + "="@ + mode_name(m) + "\n"@
}

/// `p` followed by the lines of settings group 0 of `c`.
pub open spec fn config_lines_0(p: Seq<char>, c: AppConfig) -> Seq<char> {
    p + bool_line("close-onlaunch"@, c.close_on_launch) + text_line("default-prefix"@, c.default_prefix@, true) + bool_line("mangohud"@, c.mangohud) + bool_line("gamemode"@, c.gamemode) + bool_line("disable-hidraw"@, c.disable_hidraw) + text_line("default-runner"@, c.default_runner@, true)
}

/// `p` followed by the lines of settings group 1 of `c`.
pub open spec fn config_lines_1(p: Seq<char>, c: AppConfig) -> Seq<char> {
    p + text_line("lossless-location"@, c.lossless_location@, true) + bool_line("discrete-gpu"@, c.discrete_gpu) + bool_line("splash-disable"@, c.splash_disable) + bool_line("system-tray"@, c.system_tray) + bool_line("start-boot"@, c.start_boot) + bool_line("mono-icon"@, c.mono_icon)
}

/// `p` followed by the lines of settings group 2 of `c`.
pub open spec fn config_lines_2(p: Seq<char>, c: AppConfig) -> Seq<char> {
    p + mode_line("interface-mode"@, c.interface_mode) + bool_line("start-maximized"@, c.start_maximized) + bool_line("start-fullscreen"@, c.start_fullscreen) + bool_line("show-labels"@, c.show_labels) + bool_line("smaller-banners"@, c.smaller_banners) + bool_line("enable-logging"@, c.enable_logging)
}

/// `p` followed by the lines of settings group 3 of `c`.
pub open spec fn config_lines_3(p: Seq<char>, c: AppConfig) -> Seq<char> {
    p + bool_line("wayland-driver"@, c.wayland_driver) + bool_line("enable-hdr"@, c.enable_hdr) + bool_line("enable-wow64"@, c.enable_wow64) + text_line("language"@, c.language@, false) + bool_line("logging-warning"@, c.logging_warning) + bool_line("show-hidden"@, c.show_hidden)
}

/// The text of the settings file for `c`.
pub open spec fn config_text_of(c: AppConfig) -> Seq<char> {
    config_lines_3(
        config_lines_2(config_lines_1(config_lines_0("# Faugus Launcher Configuration\n"@, c), c), c),
        c,
    )
}

fn unquote_text(s: &str) -> (r: String)
    ensures
        r@ == unquote(s@),
{
    let n = s.unicode_len();
    let mut a: usize = 0;
    while a < n && s.get_char(a) == '"'
        invariant
            n == s@.len(),
            a <= n,
            forall|k: int| 0 <= k < a ==> s@[k] == '"',
        decreases n - a,
    {
        a = a + 1;
    }
    proof {
        lemma_lead_quotes(s@, a as nat);
    }
    if a == n {
        return String::new();
    }
    let mut b: usize = n;
    while b > a && s.get_char(b - 1) == '"'
        invariant
            n == s@.len(),
            a < n,
            s@[a as int] != '"',
            a < b <= n,
            forall|k: int| b <= k < n ==> s@[k] == '"',
        decreases b,
    {
        b = b - 1;
    }
    proof {
        lemma_trail_quotes(s@, (n - b) as nat);
    }
    owned(s.substring_char(a, b))
}

proof fn lemma_lead_quotes(s: Seq<char>, a: nat)
    requires
        a <= s.len(),
        forall|k: int| 0 <= k < a ==> s[k] == '"',
        a == s.len() || s[a as int] != '"',
    ensures
        lead_quotes(s) == a,
    decreases a,
{
    if a > 0 {
        assert forall|k: int| 0 <= k < a - 1 implies s.drop_first()[k] == '"' by {
            assert(s.drop_first()[k] == s[k + 1]);
        }
        if a < s.len() {
            assert(s.drop_first()[a - 1] == s[a as int]);
        }
        lemma_lead_quotes(s.drop_first(), (a - 1) as nat);
    }
}

proof fn lemma_trail_quotes(s: Seq<char>, t: nat)
    requires
        t < s.len(),
        forall|k: int| s.len() - t <= k < s.len() ==> s[k] == '"',
        s[s.len() - t - 1] != '"',
    ensures
        trail_quotes(s) == t,
    decreases t,
{
    if t > 0 {
        let d = s.drop_last();
        assert forall|k: int| d.len() - (t - 1) <= k < d.len() implies d[k] == '"' by {
            assert(d[k] == s[k]);
        }
        assert(d[d.len() - (t - 1) - 1] == s[s.len() - t - 1]);
        lemma_trail_quotes(d, (t - 1) as nat);
    }
}

/// The key and value of a settings line.
fn parse_entry(line: &str) -> (r: Option<(String, String)>)
    ensures
        r is None <==> entry_of(line@) is None,
        r is Some ==> entry_of(line@) == Some(((r->0).0@, (r->0).1@)),
{
    let n = line.unicode_len();
    if n == 0 || line.get_char(0) == '#' {
        return None;
    }
    let mut i: usize = 0;
    while i < n && line.get_char(i) != '='
        invariant
            n == line@.len(),
            i <= n,
            forall|k: int| 0 <= k < i ==> line@[k] != '=',
            first_eq(line@, 0) == first_eq(line@, i as int),
        decreases n - i,
    {
        i = i + 1;
    }
    if i == n {
        assert(!(exists|k: int| 0 <= k < line@.len() && line@[k] == '='));
        return None;
    }
    assert(line@[i as int] == '=');
    let key = trim_text(line.substring_char(0, i));
    let raw = trim_text(line.substring_char(i + 1, n));
    let value = unquote_text(raw.as_str());
    Some((key, value))
}

/// The value of the last line for `key`, if any.
fn find_setting(lines: &Vec<String>, key: &str) -> (r: Option<String>)
    ensures
        r is None <==> setting(views(lines@), key@) is None,
        r is Some ==> setting(views(lines@), key@) == Some(r->0@),
{
    let mut i: usize = lines.len();
    assert(views(lines@).subrange(0, i as int) == views(lines@));
    while i > 0
        invariant
            i <= lines@.len(),
            setting(views(lines@), key@) == setting(views(lines@).subrange(0, i as int), key@),
        decreases i,
    {
        let ghost pre = views(lines@).subrange(0, i as int);
        assert(pre.drop_last() == views(lines@).subrange(0, i - 1));
        assert(pre.last() == lines@[i - 1]@);
        match parse_entry(lines[i - 1].as_str()) {
            Some((k, v)) => {
                if same_text(k.as_str(), key) {
                    return Some(v);
                }
            },
            None => {},
        }
        i = i - 1;
    }
    None
}

fn bool_value(lines: &Vec<String>, key: &str) -> (r: bool)
    ensures
        r == bool_setting(setting(views(lines@), key@)),
{
    match find_setting(lines, key) {
        Some(v) => same_text(v.as_str(), "true"),
        None => false,
    }
}

fn text_value(lines: &Vec<String>, key: &str, dflt: String) -> (r: String)
    ensures
        r@ == text_setting(setting(views(lines@), key@), dflt@),
{
    match find_setting(lines, key) {
        Some(v) => v,
        None => dflt,
    }
}

fn mode_value(lines: &Vec<String>, key: &str) -> (r: InterfaceMode)
    ensures
        r == mode_setting(setting(views(lines@), key@)),
{
    match find_setting(lines, key) {
        Some(v) => {
            if same_text(v.as_str(), "Blocks") {
                InterfaceMode::Blocks
            } else if same_text(v.as_str(), "Banners") {
                InterfaceMode::Banners
            } else {
                InterfaceMode::List
            }
        },
        None => InterfaceMode::List,
    }
}

fn put_bool(c: &mut String, key: &str, b: bool)
    ensures
        final(c)@ == old(c)@ + bool_line(key@, b),
{
    let ghost c0 = c@;
    append(c, key);
    append(c, "=");
    if b {
        append(c, "true");
    } else {
        append(c, "false");
    }
    append(c, "\n");
    reveal(bool_line);
    assert(c@ =~= c0 + bool_line(key@, b));
}

fn put_text(c: &mut String, key: &str, v: &str, quoted: bool)
    ensures
        final(c)@ == old(c)@ + text_line(key@, v@, quoted),
{
    let ghost c0 = c@;
    append(c, key);
    if quoted {
        append(c, "=\"");
        append(c, v);
        append(c, "\"\n");
    } else {
        append(c, "=");
        append(c, v);
        append(c, "\n");
    }
    reveal(text_line);
    assert(c@ =~= c0 + text_line(key@, v@, quoted));
}

fn put_mode(c: &mut String, key: &str, m: InterfaceMode)
    ensures
        final(c)@ == old(c)@ + mode_line(key@, m),
{
    let ghost c0 = c@;
    append(c, key);
    append(c, "=");
    let name = m.debug_name();
    append(c, name.as_str());
    append(c, "\n");
    reveal(mode_line);
    assert(c@ =~= c0 + mode_line(key@, m));
}

fn put_lines_0(c: &mut String, cfg: &AppConfig)
    ensures
        final(c)@ == config_lines_0(old(c)@, *cfg),
{
        put_bool(c, "close-onlaunch", cfg.close_on_launch);
        put_text(c, "default-prefix", cfg.default_prefix.as_str(), true);
        put_bool(c, "mangohud", cfg.mangohud);
        put_bool(c, "gamemode", cfg.gamemode);
        put_bool(c, "disable-hidraw", cfg.disable_hidraw);
        put_text(c, "default-runner", cfg.default_runner.as_str(), true);
}

fn put_lines_1(c: &mut String, cfg: &AppConfig)
    ensures
        final(c)@ == config_lines_1(old(c)@, *cfg),
{
        put_text(c, "lossless-location", cfg.lossless_location.as_str(), true);
        put_bool(c, "discrete-gpu", cfg.discrete_gpu);
        put_bool(c, "splash-disable", cfg.splash_disable);
        put_bool(c, "system-tray", cfg.system_tray);
        put_bool(c, "start-boot", cfg.start_boot);
        put_bool(c, "mono-icon", cfg.mono_icon);
}

fn put_lines_2(c: &mut String, cfg: &AppConfig)
    ensures
        final(c)@ == config_lines_2(old(c)@, *cfg),
{
        put_mode(c, "interface-mode", cfg.interface_mode);
        put_bool(c, "start-maximized", cfg.start_maximized);
        put_bool(c, "start-fullscreen", cfg.start_fullscreen);
        put_bool(c, "show-labels", cfg.show_labels);
        put_bool(c, "smaller-banners", cfg.smaller_banners);
        put_bool(c, "enable-logging", cfg.enable_logging);
}

fn put_lines_3(c: &mut String, cfg: &AppConfig)
    ensures
        final(c)@ == config_lines_3(old(c)@, *cfg),
{
        put_bool(c, "wayland-driver", cfg.wayland_driver);
        put_bool(c, "enable-hdr", cfg.enable_hdr);
        put_bool(c, "enable-wow64", cfg.enable_wow64);
        put_text(c, "language", cfg.language.as_str(), false);
        put_bool(c, "logging-warning", cfg.logging_warning);
        put_bool(c, "show-hidden", cfg.show_hidden);
}

impl InterfaceMode {
    /// The name under which the mode is saved.
    pub fn debug_name(&self) -> (r: String)
        ensures
            r@ == mode_name(*self),
    {
        match self {
            InterfaceMode::List => owned("List"),
            InterfaceMode::Blocks => owned("Blocks"),
            InterfaceMode::Banners => owned("Banners"),
        }
    }
}

impl AppConfig {
    /// Reads the settings file text: each setting comes from the last line
    /// that names it; a missing setting keeps its default. Empty lines,
    /// comments, unknown keys and lines without `=` are ignored.
    pub fn from_config_text(text: &str, default_prefix: String) -> (r: AppConfig)
        ensures
            r.close_on_launch == bool_setting(setting(parsed_recent(text@), "close-onlaunch"@)),
            r.default_prefix@ == text_setting(setting(parsed_recent(text@), "default-prefix"@), default_prefix@),
            r.mangohud == bool_setting(setting(parsed_recent(text@), "mangohud"@)),
            r.gamemode == bool_setting(setting(parsed_recent(text@), "gamemode"@)),
            r.disable_hidraw == bool_setting(setting(parsed_recent(text@), "disable-hidraw"@)),
            r.default_runner@ == text_setting(setting(parsed_recent(text@), "default-runner"@), "GE-Proton"@),
            r.lossless_location@ == text_setting(setting(parsed_recent(text@), "lossless-location"@), seq![]),
            r.discrete_gpu == bool_setting(setting(parsed_recent(text@), "discrete-gpu"@)),
            r.splash_disable == bool_setting(setting(parsed_recent(text@), "splash-disable"@)),
            r.system_tray == bool_setting(setting(parsed_recent(text@), "system-tray"@)),
            r.start_boot == bool_setting(setting(parsed_recent(text@), "start-boot"@)),
            r.mono_icon == bool_setting(setting(parsed_recent(text@), "mono-icon"@)),
            r.interface_mode == mode_setting(setting(parsed_recent(text@), "interface-mode"@)),
            r.start_maximized == bool_setting(setting(parsed_recent(text@), "start-maximized"@)),
            r.start_fullscreen == bool_setting(setting(parsed_recent(text@), "start-fullscreen"@)),
            r.show_labels == bool_setting(setting(parsed_recent(text@), "show-labels"@)),
            r.smaller_banners == bool_setting(setting(parsed_recent(text@), "smaller-banners"@)),
            r.enable_logging == bool_setting(setting(parsed_recent(text@), "enable-logging"@)),
            r.wayland_driver == bool_setting(setting(parsed_recent(text@), "wayland-driver"@)),
            r.enable_hdr == bool_setting(setting(parsed_recent(text@), "enable-hdr"@)),
            r.enable_wow64 == bool_setting(setting(parsed_recent(text@), "enable-wow64"@)),
            r.language@ == text_setting(setting(parsed_recent(text@), "language"@), "en_US"@),
            r.logging_warning == bool_setting(setting(parsed_recent(text@), "logging-warning"@)),
            r.show_hidden == bool_setting(setting(parsed_recent(text@), "show-hidden"@)),
    {
        let lines = parse_recent(text);
        AppConfig {
            close_on_launch: bool_value(&lines, "close-onlaunch"),
            default_prefix: text_value(&lines, "default-prefix", default_prefix),
            mangohud: bool_value(&lines, "mangohud"),
            gamemode: bool_value(&lines, "gamemode"),
            disable_hidraw: bool_value(&lines, "disable-hidraw"),
            default_runner: text_value(&lines, "default-runner", owned("GE-Proton")),
            lossless_location: text_value(&lines, "lossless-location", String::new()),
            discrete_gpu: bool_value(&lines, "discrete-gpu"),
            splash_disable: bool_value(&lines, "splash-disable"),
            system_tray: bool_value(&lines, "system-tray"),
            start_boot: bool_value(&lines, "start-boot"),
            mono_icon: bool_value(&lines, "mono-icon"),
            interface_mode: mode_value(&lines, "interface-mode"),
            start_maximized: bool_value(&lines, "start-maximized"),
            start_fullscreen: bool_value(&lines, "start-fullscreen"),
            show_labels: bool_value(&lines, "show-labels"),
            smaller_banners: bool_value(&lines, "smaller-banners"),
            enable_logging: bool_value(&lines, "enable-logging"),
            wayland_driver: bool_value(&lines, "wayland-driver"),
            enable_hdr: bool_value(&lines, "enable-hdr"),
            enable_wow64: bool_value(&lines, "enable-wow64"),
            language: text_value(&lines, "language", owned("en_US")),
            logging_warning: bool_value(&lines, "logging-warning"),
            show_hidden: bool_value(&lines, "show-hidden"),
        }
    }

    /// The text of the settings file.
    pub fn to_config_text(&self) -> (r: String)
        ensures
            r@ == config_text_of(*self),
    {
        let mut c = owned("# Faugus Launcher Configuration\n");
        put_lines_0(&mut c, self);
        put_lines_1(&mut c, self);
        put_lines_2(&mut c, self);
        put_lines_3(&mut c, self);
        c
    }
}

} // verus!
