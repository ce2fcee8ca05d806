//! Desktop entries (`.desktop` files) that start a game from the
//! application menu or the desktop.
use vstd::prelude::*;

use crate::game::{format_title, formatted_title, Game};
use crate::paths::{path_exists, Paths};
use crate::text::{append, dec, decimal, join, join_path, owned, push_char, views};

verus! {

/// Pieces joined by `sep`.
pub open spec fn joined(pieces: Seq<Seq<char>>, sep: Seq<char>) -> Seq<char>
    decreases pieces.len(),
{
    if pieces.len() == 0 {
        seq![]
    } else if pieces.len() == 1 {
        pieces[0]
    } else {
        joined(pieces.drop_last(), sep) + sep + pieces.last()
    }
}

/// `s` with every single quote written as `'\''`, for a shell single-quoted word.
pub open spec fn quote_escaped(s: Seq<char>) -> Seq<char>
    decreases s.len(),
{
    if s.len() == 0 {
        s
    } else if s.last() == '\'' {
        quote_escaped(s.drop_last()) + "'\\''"@
    } else {
        quote_escaped(s.drop_last()).push(s.last())
    }
}

/// The directory part of a path: the text before its last slash; `/` for a
/// file at the root; empty for a bare name; `.` for an empty path.
pub open spec fn parent_dir(p: Seq<char>) -> Seq<char> {
    if p.len() == 0 {
        "."@
    } else if exists|i: int| 0 <= i < p.len() && p[i] == '/' {
        let i = last_slash(p, p.len() as int);
        if i == 0 {
            "/"@
        } else {
            p.subrange(0, i)
        }
    } else {
        seq![]
    }
}

/// The position of the last slash among the first `n` characters of `p`, or -1.
pub open spec fn last_slash(p: Seq<char>, n: int) -> int
    decreases n,
{
    if n <= 0 {
        -1
    } else if p[n - 1] == '/' {
        n - 1
    } else {
        last_slash(p, n - 1)
    }
}

/// Appends `x` when `cond` holds.
pub open spec fn add_if(s: Seq<Seq<char>>, cond: bool, x: Seq<char>) -> Seq<Seq<char>> {
    if cond {
        s.push(x)
    } else {
        s
    }
}

/// The identifier handed to the shim: the protonfix id when there is one,
/// else the formatted title.
pub open spec fn game_id_of(g: Game) -> Seq<char> {
    if g.protonfix@.len() > 0 {
        g.protonfix@
    } else {
        formatted_title(g.title@)
    }
}

/// The environment words and options that lead a game's launch command.
pub open spec fn head_parts(g: Game) -> Seq<Seq<char>> {
    let p = add_if(seq![], g.mangohud, "MANGOHUD=1"@);
    let p = add_if(p, g.disable_hidraw, "PROTON_DISABLE_HIDRAW=1"@);
    let p = p.push("GAMEID="@ + game_id_of(g));
    let p = add_if(p, g.gamemode, "gamemoderun"@);
    add_if(p, g.launch_arguments@.len() > 0, g.launch_arguments@)
}

/// `p` followed by the frame generation words of `g`.
pub open spec fn lossless_parts(g: Game, p: Seq<Seq<char>>) -> Seq<Seq<char>> {
    let on = g.lossless_enabled;
    let p = add_if(p, on, "LSFG_LEGACY=1"@);
    let p = add_if(
        p,
        on && g.lossless_multiplier > 0,
        "LSFG_MULTIPLIER="@ + dec(g.lossless_multiplier as nat),
    );
    let p = add_if(p, on && g.lossless_flow, "LSFG_FLOW_SCALE=true"@);
    let p = add_if(p, on && g.lossless_performance, "LSFG_PERFORMANCE_MODE=1"@);
    add_if(p, on && g.lossless_hdr, "LSFG_HDR_MODE=1"@)
}

/// `p` followed by the quoted launcher, the quoted executable and the game's
/// own arguments.
pub open spec fn tail_parts(g: Game, runner_bin: Seq<char>, p: Seq<Seq<char>>) -> Seq<Seq<char>> {
    let p = p.push("'"@ + runner_bin + "'"@);
    let p = p.push("'"@ + quote_escaped(g.path@) + "'"@);
    add_if(p, g.game_arguments@.len() > 0, g.game_arguments@)
}

/// The words of a game's launch command, before they are joined by spaces.
pub open spec fn command_parts(g: Game, runner_bin: Seq<char>) -> Seq<Seq<char>> {
    tail_parts(g, runner_bin, lossless_parts(g, head_parts(g)))
}

fn add_part(parts: &mut Vec<String>, x: String)
    ensures
        views(final(parts)@) == views(old(parts)@).push(x@),
{
    let ghost p0 = parts@;
    parts.push(x);
    assert(views(parts@) =~= views(p0).push(x@));
}

fn push_head_parts(game: &Game, parts: &mut Vec<String>)
    requires
        old(parts)@.len() == 0,
    ensures
        views(final(parts)@) == head_parts(*game),
{
    assert(views(parts@) =~= Seq::<Seq<char>>::empty());
    if game.mangohud {
        add_part(parts, owned("MANGOHUD=1"));
    }
    if game.disable_hidraw {
        add_part(parts, owned("PROTON_DISABLE_HIDRAW=1"));
    }
    let game_id = if game.protonfix.as_str().unicode_len() > 0 {
        game.protonfix.clone()
    } else {
        format_title(game.title.as_str())
    };
    let mut id_part = owned("GAMEID=");
    append(&mut id_part, game_id.as_str());
    add_part(parts, id_part);
    if game.gamemode {
        add_part(parts, owned("gamemoderun"));
    }
    if game.launch_arguments.as_str().unicode_len() > 0 {
        add_part(parts, game.launch_arguments.clone());
    }
}

fn push_lossless_parts(game: &Game, parts: &mut Vec<String>)
    ensures
        views(final(parts)@) == lossless_parts(*game, views(old(parts)@)),
{
    if game.lossless_enabled {
        add_part(parts, owned("LSFG_LEGACY=1"));
        if game.lossless_multiplier > 0 {
            let mut m = owned("LSFG_MULTIPLIER=");
            let d = decimal(game.lossless_multiplier as u64);
            append(&mut m, d.as_str());
            add_part(parts, m);
        }
        if game.lossless_flow {
            add_part(parts, owned("LSFG_FLOW_SCALE=true"));
        }
        if game.lossless_performance {
            add_part(parts, owned("LSFG_PERFORMANCE_MODE=1"));
        }
        if game.lossless_hdr {
            add_part(parts, owned("LSFG_HDR_MODE=1"));
        }
    }
}

fn push_tail_parts(game: &Game, runner_bin: &str, parts: &mut Vec<String>)
    ensures
        views(final(parts)@) == tail_parts(*game, runner_bin@, views(old(parts)@)),
{
    let mut bin = owned("'");
    append(&mut bin, runner_bin);
    append(&mut bin, "'");
    add_part(parts, bin);
    let escaped = escape_quotes(game.path.as_str());
    let mut quoted = owned("'");
    append(&mut quoted, escaped.as_str());
    append(&mut quoted, "'");
    add_part(parts, quoted);
    if game.game_arguments.as_str().unicode_len() > 0 {
        add_part(parts, game.game_arguments.clone());
    }
}

/// The text of a desktop entry file.
pub open spec fn desktop_file_text(e: DesktopEntry) -> Seq<char> {
    let c = "[Desktop Entry]\n"@ + "Name="@ + e.name@ + "\n"@ + "Exec="@ + e.command@ + "\n"@ + "Icon="@
        + e.icon@ + "\n"@ + "Type=Application\n"@ + "Path="@ + e.path@ + "\n"@;
    let c = if e.categories@.len() > 0 {
        c + "Categories="@ + joined(views(e.categories@), ";"@) + ";\n"@
    } else {
        c
    };
    let c = match e.comment {
        Some(m) => c + "Comment="@ + m@ + "\n"@,
        None => c,
    };
    if e.terminal {
        c + "Terminal=true\n"@
    } else {
        c + "Terminal=false\n"@
    }
}

/// A desktop entry.
pub struct DesktopEntry {
    /// Name of the application.
    pub name: String,
    /// The command to run.
    pub command: String,
    /// Icon path.
    pub icon: String,
    /// Working directory.
    pub path: String,
    /// Menu categories.
    pub categories: Vec<String>,
    /// Description.
    pub comment: Option<String>,
    /// Whether the program runs in a terminal.
    pub terminal: bool,
}

fn join_with(pieces: &Vec<String>, sep: &str) -> (r: String)
    ensures
        r@ == joined(views(pieces@), sep@),
{
    let mut r = String::new();
    let mut i: usize = 0;
    while i < pieces.len()
        invariant
            i <= pieces@.len(),
            r@ == joined(views(pieces@).subrange(0, i as int), sep@),
        decreases pieces@.len() - i,
    {
        let ghost pre = views(pieces@).subrange(0, i as int);
        let ghost next = views(pieces@).subrange(0, i + 1);
        assert(next.drop_last() == pre);
        assert(next.last() == pieces@[i as int]@);
        if i > 0 {
            append(&mut r, sep);
        } else {
            assert(r@ == Seq::<char>::empty());
            assert(next.len() == 1);
            assert(r@ + pieces@[i as int]@ == pieces@[i as int]@);
        }
        append(&mut r, pieces[i].as_str());
        i = i + 1;
    }
    assert(views(pieces@).subrange(0, pieces@.len() as int) == views(pieces@));
    r
}

fn escape_quotes(s: &str) -> (r: String)
    ensures
        r@ == quote_escaped(s@),
{
    let n = s.unicode_len();
    let mut r = String::new();
    let mut i: usize = 0;
    while i < n
        invariant
            n == s@.len(),
            i <= n,
            r@ == quote_escaped(s@.subrange(0, i as int)),
        decreases n - i,
    {
        let c = s.get_char(i);
        assert(s@.subrange(0, i + 1).drop_last() == s@.subrange(0, i as int));
        if c == '\'' {
            append(&mut r, "'\\''");
        } else {
            push_char(&mut r, c);
        }
        i = i + 1;
    }
    assert(s@.subrange(0, n as int) == s@);
    r
}

fn parent_of(p: &str) -> (r: String)
    ensures
        r@ == parent_dir(p@),
{
    let n = p.unicode_len();
    if n == 0 {
        return owned(".");
    }
    let mut i: usize = n;
    while i > 0 && p.get_char(i - 1) != '/'
        invariant
            n == p@.len(),
            i <= n,
            last_slash(p@, n as int) == last_slash(p@, i as int),
            forall|k: int| i <= k < n ==> p@[k] != '/',
        decreases i,
    {
        i = i - 1;
    }
    if i == 0 {
        assert(!exists|k: int| 0 <= k < p@.len() && p@[k] == '/');
        return String::new();
    }
    assert(p@[i - 1] == '/');
    assert(last_slash(p@, n as int) == i - 1);
    if i == 1 {
        owned("/")
    } else {
        owned(p.substring_char(0, i - 1))
    }
}

impl DesktopEntry {
    /// A desktop entry for `game`, started through `faugus-run`; fails when
    /// `faugus-run` is not on `PATH`.
    pub fn for_game(game: &Game, paths: &Paths) -> (r: Result<DesktopEntry, String>)
        ensures
            r is Ok ==> r->Ok_0.name@ == game.title@ && r->Ok_0.path@ == parent_dir(game.path@)
                && views(r->Ok_0.categories@) == seq!["Game"@] && r->Ok_0.comment is Some && r->Ok_0.comment->0@ == "Launch "@ + game.title@ + " with Faugus Launcher"@
                && !r->Ok_0.terminal && exists|bin: Seq<char>|
                r->Ok_0.command@ == joined(command_parts(*game, bin), " "@),
            r is Err ==> r->Err_0@ == "faugus-run binary not found in PATH"@,
            paths.search_path is None ==> r is Err,
    {
        let faugus_run = match paths.faugus_run() {
            Some(p) => p,
            None => return Err(owned("faugus-run binary not found in PATH")),
        };
        let exec = Self::build_launch_command(game, faugus_run.as_str());
        let icon = Self::get_icon_path(game, paths);
        let path = parent_of(game.path.as_str());
        let mut categories: Vec<String> = Vec::new();
        categories.push(owned("Game"));
        assert(views(categories@) =~= seq!["Game"@]);
        let mut comment = owned("Launch ");
        append(&mut comment, game.title.as_str());
        append(&mut comment, " with Faugus Launcher");
        Ok(DesktopEntry {
            name: game.title.clone(),
            command: exec,
            icon,
            path,
            categories,
            comment: Some(comment),
            terminal: false,
        })
    }

    /// The command line that starts `game` through `runner_bin`.
    pub fn build_launch_command(game: &Game, runner_bin: &str) -> (r: String)
        ensures
            r@ == joined(command_parts(*game, runner_bin@), " "@),
    {
        let mut parts: Vec<String> = Vec::new();
        push_head_parts(game, &mut parts);
        push_lossless_parts(game, &mut parts);
        push_tail_parts(game, runner_bin, &mut parts);
        join_with(&parts, " ")
    }

    /// The icon of `game`: its own icon by id, else by formatted title (as
    /// PNG, then ICO), else the launcher's icon, else the launcher's icon name.
    pub fn get_icon_path(game: &Game, paths: &Paths) -> (r: String)
        ensures
            r@ == join(paths.icons_dir_spec(), game.gameid@ + ".png"@) || r@ == join(
                paths.icons_dir_spec(),
                formatted_title(game.title@) + ".png"@,
            ) || r@ == join(paths.icons_dir_spec(), formatted_title(game.title@) + ".ico"@)
                || paths.is_icon_location("faugus-launcher.png"@, r@) || r@ == "faugus-launcher"@,
    {
        let icons = paths.icons_dir();
        let mut by_id = game.gameid.clone();
        append(&mut by_id, ".png");
        let p = join_path(icons.as_str(), by_id.as_str());
        if path_exists(p.as_str()) {
            return p;
        }
        let formatted = format_title(game.title.as_str());
        let mut png = formatted.clone();
        append(&mut png, ".png");
        let p = join_path(icons.as_str(), png.as_str());
        if path_exists(p.as_str()) {
            return p;
        }
        let mut ico = formatted.clone();
        append(&mut ico, ".ico");
        let p = join_path(icons.as_str(), ico.as_str());
        if path_exists(p.as_str()) {
            return p;
        }
        let own = paths.get_icon("faugus-launcher.png");
        if path_exists(own.as_str()) {
            return own;
        }
        owned("faugus-launcher")
    }

    /// The text of the `.desktop` file.
    pub fn to_desktop_file(&self) -> (r: String)
        ensures
            r@ == desktop_file_text(*self),
    {
        let mut c = owned("[Desktop Entry]\n");
        append(&mut c, "Name=");
        append(&mut c, self.name.as_str());
        append(&mut c, "\n");
        append(&mut c, "Exec=");
        append(&mut c, self.command.as_str());
        append(&mut c, "\n");
        append(&mut c, "Icon=");
        append(&mut c, self.icon.as_str());
        append(&mut c, "\n");
        append(&mut c, "Type=Application\n");
        append(&mut c, "Path=");
        append(&mut c, self.path.as_str());
        append(&mut c, "\n");
        if self.categories.len() > 0 {
            let cats = join_with(&self.categories, ";");
            append(&mut c, "Categories=");
            append(&mut c, cats.as_str());
            append(&mut c, ";\n");
        }
        match &self.comment {
            Some(m) => {
                append(&mut c, "Comment=");
                append(&mut c, m.as_str());
                append(&mut c, "\n");
            },
            None => {},
        }
        if self.terminal {
            append(&mut c, "Terminal=true\n");
        } else {
            append(&mut c, "Terminal=false\n");
        }
        c
    }

    /// The file name of this entry: the formatted name with `.desktop`.
    pub fn filename(&self) -> (r: String)
        ensures
            r@ == formatted_title(self.name@) + ".desktop"@,
    {
        let mut r = format_title(self.name.as_str());
        append(&mut r, ".desktop");
        r
    }
}

/// Where shortcuts of a game go.
#[derive(Debug, Clone, Copy, PartialEq, Eq, Structural)]
pub enum ShortcutLocation {
    Applications,
    Desktop,
    Both,
}

/// Desktop and application-menu shortcuts of games.
pub struct DesktopShortcutManager;

impl DesktopShortcutManager {
    /// The shortcut file name of `game`.
    pub fn shortcut_filename(game: &Game) -> (r: String)
        ensures
            r@ == formatted_title(game.title@) + ".desktop"@,
    {
        let mut r = format_title(game.title.as_str());
        append(&mut r, ".desktop");
        r
    }

    /// The files to write for shortcuts of `game` at `location`: in the
    /// application menu directory, on the desktop `desktop_dir`, or both.
    pub fn shortcut_targets(
        game: &Game,
        location: ShortcutLocation,
        paths: &Paths,
        desktop_dir: &str,
    ) -> (r: Vec<String>)
        ensures
            ({
                let f = formatted_title(game.title@) + ".desktop"@;
                let apps = join(join(paths.data_home(), "applications"@), f);
                let desk = join(desktop_dir@, f);
                views(r@) == (match location {
                    ShortcutLocation::Applications => seq![apps],
                    ShortcutLocation::Desktop => seq![desk],
                    ShortcutLocation::Both => seq![apps, desk],
                })
            }),
    {
        let f = Self::shortcut_filename(game);
        let mut r: Vec<String> = Vec::new();
        if location != ShortcutLocation::Desktop {
            let apps = paths.applications_dir();
            r.push(join_path(apps.as_str(), f.as_str()));
        }
        if location != ShortcutLocation::Applications {
            r.push(join_path(desktop_dir, f.as_str()));
        }
        proof {
            let ff = formatted_title(game.title@) + ".desktop"@;
            let apps = join(join(paths.data_home(), "applications"@), ff);
            let desk = join(desktop_dir@, ff);
            match location {
                ShortcutLocation::Applications => assert(views(r@) =~= seq![apps]),
                ShortcutLocation::Desktop => assert(views(r@) =~= seq![desk]),
                ShortcutLocation::Both => assert(views(r@) =~= seq![apps, desk]),
            }
        }
        r
    }

    /// Whether a shortcut of `game` exists in the application menu or on
    /// the desktop `desktop_dir`.
    pub fn shortcut_exists(game: &Game, paths: &Paths, desktop_dir: &str) -> bool {
        let targets = Self::shortcut_targets(game, ShortcutLocation::Both, paths, desktop_dir);
        assert(views(targets@).len() == 2);
        path_exists(targets[0].as_str()) || path_exists(targets[1].as_str())
    }
}

} // verus!
