//! Locations of the launcher's files, derived from the XDG environment.
use vstd::prelude::*;

use crate::text::{append, join, join_path, owned, push_char, views};

verus! {

/// Splits `s` at every `sep`, keeping empty pieces, as `str::split(sep)` does.
pub open spec fn split_at_char(s: Seq<char>, sep: char) -> Seq<Seq<char>>
    decreases s.len(),
{
    if s.len() == 0 {
        seq![seq![]]
    } else {
        let p = split_at_char(s.drop_last(), sep);
        if s.last() == sep {
            p.push(seq![])
        } else {
            p.drop_last().push(p.last().push(s.last()))
        }
    }
}

/// Relies on `std::path::Path::exists`: whether the file system holds `p`. The
/// answer depends on the disk at the time of the call, so nothing is promised.
#[verifier::external_body]
pub(crate) fn path_exists(p: &str) -> bool {
    std::path::Path::new(p).exists()
}

/// Splits `s` at every `sep`.
pub fn split_text(s: &str, sep: char) -> (r: Vec<String>)
    ensures
        views(r@) == split_at_char(s@, sep),
        r@.len() >= 1,
{
    let n = s.unicode_len();
    let mut done: Vec<String> = Vec::new();
    let mut cur = String::new();
    let mut i: usize = 0;
    while i < n
        invariant
            n == s@.len(),
            i <= n,
            split_at_char(s@.subrange(0, i as int), sep) == views(done@).push(cur@),
        decreases n - i,
    {
        let c = s.get_char(i);
        let ghost next = s@.subrange(0, i + 1);
        assert(next.drop_last() == s@.subrange(0, i as int));
        let ghost before = cur@;
        if c == sep {
            proof {
                assert(views(done@.push(cur)) == views(done@).push(cur@));
            }
            done.push(cur);
            cur = String::new();
            assert(cur@ == Seq::<char>::empty());
        } else {
            push_char(&mut cur, c);
            proof {
                let p = views(done@).push(before);
                assert(p.drop_last() == views(done@));
            }
        }
        i = i + 1;
    }
    assert(s@.subrange(0, n as int) == s@);
    proof {
        assert(views(done@.push(cur)) == views(done@).push(cur@));
    }
    done.push(cur);
    done
}

/// The first index at or after `from` where `present` holds, or its length.
pub open spec fn first_true(present: Seq<bool>, from: int) -> int
    decreases present.len() - from,
{
    if from >= present.len() || from < 0 || present[from] {
        from
    } else {
        first_true(present, from + 1)
    }
}

/// The first candidate that is present, or the first candidate when none is.
pub open spec fn first_present(candidates: Seq<Seq<char>>, present: Seq<bool>) -> Seq<char> {
    let k = first_true(present, 0);
    if k < present.len() {
        candidates[k]
    } else {
        candidates[0]
    }
}

proof fn lemma_first_true_bounds(present: Seq<bool>, from: int)
    requires
        0 <= from <= present.len(),
    ensures
        from <= first_true(present, from) <= present.len(),
        first_true(present, from) < present.len() ==> present[first_true(present, from)],
        forall|j: int| from <= j < first_true(present, from) ==> !present[j],
    decreases present.len() - from,
{
    if from < present.len() && !present[from] {
        lemma_first_true_bounds(present, from + 1);
    }
}

/// Picks, given which candidates exist, the first existing one, else the
/// first candidate.
pub fn choose_present(candidates: &Vec<String>, present: &Vec<bool>) -> (r: String)
    requires
        candidates@.len() >= 1,
        present@.len() == candidates@.len(),
    ensures
        r@ == first_present(views(candidates@), present@),
{
    proof {
        lemma_first_true_bounds(present@, 0);
    }
    let mut i: usize = 0;
    while i < present.len()
        invariant
            present@.len() == candidates@.len(),
            candidates@.len() >= 1,
            i <= present@.len(),
            forall|j: int| 0 <= j < i ==> !present@[j],
            0 <= first_true(present@, 0) <= present@.len(),
            first_true(present@, 0) < present@.len() ==> present@[first_true(present@, 0)],
            forall|j: int| 0 <= j < first_true(present@, 0) ==> !present@[j],
        decreases present@.len() - i,
    {
        if present[i] {
            assert(first_true(present@, 0) == i);
            return candidates[i].clone();
        }
        i = i + 1;
    }
    assert(first_true(present@, 0) == present@.len());
    candidates[0].clone()
}

/// The values of the environment that decide where the launcher keeps its
/// files: `HOME`, `XDG_DATA_HOME`, `XDG_CONFIG_HOME`, `XDG_DATA_DIRS` and
/// `PATH`, each absent when unset.
pub struct Paths {
    pub home: Option<String>,
    pub xdg_data_home: Option<String>,
    pub xdg_config_home: Option<String>,
    pub xdg_data_dirs: Option<String>,
    pub search_path: Option<String>,
}

/// The text of an optional value, or `dflt` when it is absent.
pub open spec fn or_default(v: Option<String>, dflt: Seq<char>) -> Seq<char> {
    match v {
        Some(s) => s@,
        None => dflt,
    }
}

impl Paths {
    /// The home directory, `/` when `HOME` is unset.
    pub open spec fn home_dir(&self) -> Seq<char> {
        or_default(self.home, "/"@)
    }

    /// `XDG_DATA_HOME`, or `~/.local/share`.
    pub open spec fn data_home(&self) -> Seq<char> {
        or_default(self.xdg_data_home, join(self.home_dir(), ".local/share"@))
    }

    /// `XDG_CONFIG_HOME`, or `~/.config`.
    pub open spec fn config_home(&self) -> Seq<char> {
        or_default(self.xdg_config_home, join(self.home_dir(), ".config"@))
    }

    /// The system data directories, from `XDG_DATA_DIRS`.
    pub open spec fn data_dirs(&self) -> Seq<Seq<char>> {
        split_at_char(or_default(self.xdg_data_dirs, "/usr/local/share:/usr/share"@), ':')
    }

    /// The directory of the launcher's configuration.
    pub open spec fn config_dir_spec(&self) -> Seq<char> {
        join(self.config_home(), "faugus-launcher"@)
    }

    /// The directory of game icons.
    pub open spec fn icons_dir_spec(&self) -> Seq<char> {
        join(self.config_dir_spec(), "icons"@)
    }

    /// Builds the locations from the values of the environment.
    pub fn new(
        home: Option<String>,
        xdg_data_home: Option<String>,
        xdg_config_home: Option<String>,
        xdg_data_dirs: Option<String>,
        search_path: Option<String>,
    ) -> (r: Self)
        ensures
            r.home == home,
            r.xdg_data_home == xdg_data_home,
            r.xdg_config_home == xdg_config_home,
            r.xdg_data_dirs == xdg_data_dirs,
            r.search_path == search_path,
    {
        Paths { home, xdg_data_home, xdg_config_home, xdg_data_dirs, search_path }
    }

    fn home_text(&self) -> (r: String)
        ensures
            r@ == self.home_dir(),
    {
        match &self.home {
            Some(h) => h.clone(),
            None => owned("/"),
        }
    }

    fn data_home_text(&self) -> (r: String)
        ensures
            r@ == self.data_home(),
    {
        match &self.xdg_data_home {
            Some(d) => d.clone(),
            None => {
                let h = self.home_text();
                join_path(h.as_str(), ".local/share")
            },
        }
    }

    fn config_home_text(&self) -> (r: String)
        ensures
            r@ == self.config_home(),
    {
        match &self.xdg_config_home {
            Some(d) => d.clone(),
            None => {
                let h = self.home_text();
                join_path(h.as_str(), ".config")
            },
        }
    }

    fn data_dirs_list(&self) -> (r: Vec<String>)
        ensures
            views(r@) == self.data_dirs(),
            r@.len() >= 1,
    {
        match &self.xdg_data_dirs {
            Some(d) => split_text(d.as_str(), ':'),
            None => split_text("/usr/local/share:/usr/share", ':'),
        }
    }

    /// Whether `p` is the file `name` in one of the directories of `PATH`.
    pub open spec fn on_search_path(&self, p: Seq<char>, name: Seq<char>) -> bool {
        self.search_path is Some && exists|k: int|
            0 <= k < split_at_char(self.search_path->0@, ':').len() && p == join(
                #[trigger] split_at_char(self.search_path->0@, ':')[k],
                name,
            )
    }

    /// The file `relative` under each system data directory, in order.
    pub open spec fn data_candidates(&self, relative: Seq<char>) -> Seq<Seq<char>> {
        self.data_dirs().map_values(|d: Seq<char>| join(d, relative))
    }

    /// A file under the first system data directory that holds it, or under
    /// the first of them when none does.
    pub fn system_data(&self, relative_path: &str) -> (r: Option<String>)
        ensures
            r is Some,
            exists|present: Seq<bool>|
                present.len() == self.data_dirs().len() && r->0@ == first_present(
                    self.data_candidates(relative_path@),
                    present,
                ),
            exists|k: int|
                0 <= k < self.data_dirs().len() && r->0@ == join(
                    #[trigger] self.data_dirs()[k],
                    relative_path@,
                ),
    {
        let dirs = self.data_dirs_list();
        let mut candidates: Vec<String> = Vec::new();
        let mut present: Vec<bool> = Vec::new();
        let mut i: usize = 0;
        while i < dirs.len()
            invariant
                views(dirs@) == self.data_dirs(),
                i <= dirs@.len(),
                candidates@.len() == i,
                present@.len() == i,
                forall|k: int|
                    0 <= k < i ==> #[trigger] candidates@[k]@ == join(
                        self.data_dirs()[k],
                        relative_path@,
                    ),
            decreases dirs@.len() - i,
        {
            let p = join_path(dirs[i].as_str(), relative_path);
            assert(dirs@[i as int]@ == self.data_dirs()[i as int]);
            present.push(path_exists(p.as_str()));
            candidates.push(p);
            i = i + 1;
        }
        assert(views(candidates@) =~= self.data_candidates(relative_path@));
        let r = choose_present(&candidates, &present);
        proof {
            lemma_first_true_bounds(present@, 0);
            let k = first_true(present@, 0);
            assert(present@.len() == self.data_dirs().len());
            if k < present@.len() {
                assert(views(candidates@)[k] == candidates@[k]@);
                assert(r@ == candidates@[k]@);
                assert(r@ == join(self.data_dirs()[k], relative_path@));
            } else {
                assert(views(candidates@)[0] == candidates@[0]@);
                assert(r@ == join(self.data_dirs()[0], relative_path@));
            }
            assert(present@.len() == self.data_dirs().len() && r@ == first_present(
                self.data_candidates(relative_path@),
                present@,
            ));
        }
        Some(r)
    }

    /// A file under the user's data directory.
    pub fn user_data(&self, relative_path: &str) -> (r: String)
        ensures
            r@ == join(self.data_home(), relative_path@),
    {
        let d = self.data_home_text();
        join_path(d.as_str(), relative_path)
    }

    /// A file under the user's configuration directory.
    pub fn user_config(&self, relative_path: &str) -> (r: String)
        ensures
            r@ == join(self.config_home(), relative_path@),
    {
        let d = self.config_home_text();
        join_path(d.as_str(), relative_path)
    }

    /// The first directory of `PATH` that holds a file `name`, with that name.
    pub fn find_binary(&self, name: &str) -> (r: Option<String>)
        ensures
            r is Some ==> self.search_path is Some && exists|k: int|
                0 <= k < split_at_char(self.search_path->0@, ':').len() && r->0@ == join(
                    #[trigger] split_at_char(self.search_path->0@, ':')[k],
                    name@,
                ),
    {
        match &self.search_path {
            None => None,
            Some(path_var) => {
                let dirs = split_text(path_var.as_str(), ':');
                let mut i: usize = 0;
                while i < dirs.len()
                    invariant
                        self.search_path is Some,
                        views(dirs@) == split_at_char(self.search_path->0@, ':'),
                        i <= dirs@.len(),
                    decreases dirs@.len() - i,
                {
                    let p = join_path(dirs[i].as_str(), name);
                    assert(dirs@[i as int]@ == split_at_char(self.search_path->0@, ':')[i as int]);
                    if path_exists(p.as_str()) {
                        return Some(p);
                    }
                    i = i + 1;
                }
                None
            },
        }
    }

    /// An icon by file name: the user's icons, the system icon themes, the
    /// pixmaps directory and the development assets are tried in turn, and
    /// the bare name is the fallback.
    pub fn get_icon(&self, icon_name: &str) -> (r: String)
        ensures
            self.is_icon_location(icon_name@, r@),
    {
        let mut rel = owned("icons/");
        append(&mut rel, icon_name);
        let user_icons = self.user_data(rel.as_str());
        if path_exists(user_icons.as_str()) {
            return user_icons;
        }
        let mut themed = owned("icons/hicolor/256x256/apps/");
        append(&mut themed, icon_name);
        if let Some(p) = self.system_data(themed.as_str()) {
            if path_exists(p.as_str()) {
                return p;
            }
        }
        if let Some(p) = self.system_data(rel.as_str()) {
            if path_exists(p.as_str()) {
                return p;
            }
        }
        let pixmap = join_path("/usr/share/pixmaps", icon_name);
        if path_exists(pixmap.as_str()) {
            return pixmap;
        }
        let local = join_path("assets", icon_name);
        if path_exists(local.as_str()) {
            return local;
        }
        let parent = join_path("../assets", icon_name);
        if path_exists(parent.as_str()) {
            return parent;
        }
        owned(icon_name)
    }

    /// The places where an icon named `name` may be found, and the bare name.
    pub open spec fn is_icon_location(&self, name: Seq<char>, r: Seq<char>) -> bool {
        r == name || r == join(self.data_home(), "icons/"@ + name) || r == join(
            "/usr/share/pixmaps"@,
            name,
        ) || r == join("assets"@, name) || r == join("../assets"@, name) || exists|k: int|
            0 <= k < self.data_dirs().len() && (r == join(
                #[trigger] self.data_dirs()[k],
                "icons/hicolor/256x256/apps/"@ + name,
            ) || r == join(self.data_dirs()[k], "icons/"@ + name))
    }

    /// The launcher's own icon, plain or monochrome, when it can be found.
    pub fn get_app_icon(&self, is_mono: bool) -> (r: Option<String>)
        ensures
            r is Some ==> self.is_icon_location(
                if is_mono {
                    "faugus-mono.png"@
                } else {
                    "faugus-launcher.png"@
                },
                r->0@,
            ),
    {
        let icon_name = if is_mono {
            "faugus-mono.png"
        } else {
            "faugus-launcher.png"
        };
        let p = self.get_icon(icon_name);
        if path_exists(p.as_str()) {
            Some(p)
        } else {
            None
        }
    }

    /// The launcher's configuration directory.
    pub fn config_dir(&self) -> (r: String)
        ensures
            r@ == self.config_dir_spec(),
    {
        self.user_config("faugus-launcher")
    }

    fn in_config_dir(&self, name: &str) -> (r: String)
        ensures
            r@ == join(self.config_dir_spec(), name@),
    {
        let d = self.config_dir();
        join_path(d.as_str(), name)
    }

    /// The launcher's settings file.
    pub fn config_file(&self) -> (r: String)
        ensures
            r@ == join(self.config_dir_spec(), "config.ini"@),
    {
        self.in_config_dir("config.ini")
    }

    /// The list of games.
    pub fn games_json(&self) -> (r: String)
        ensures
            r@ == join(self.config_dir_spec(), "games.json"@),
    {
        self.in_config_dir("games.json")
    }

    /// The list of recently launched titles.
    pub fn latest_games_txt(&self) -> (r: String)
        ensures
            r@ == join(self.config_dir_spec(), "latest-games.txt"@),
    {
        self.in_config_dir("latest-games.txt")
    }

    /// The directory of game icons.
    pub fn icons_dir(&self) -> (r: String)
        ensures
            r@ == join(self.config_dir_spec(), "icons"@),
    {
        self.in_config_dir("icons")
    }

    /// The directory of game banners.
    pub fn banners_dir(&self) -> (r: String)
        ensures
            r@ == join(self.config_dir_spec(), "banners"@),
    {
        self.in_config_dir("banners")
    }

    /// The directory of game logs.
    pub fn logs_dir(&self) -> (r: String)
        ensures
            r@ == join(self.config_dir_spec(), "logs"@),
    {
        self.in_config_dir("logs")
    }

    /// The file of extra environment variables kept for older versions.
    pub fn envar_txt(&self) -> (r: String)
        ensures
            r@ == join(self.config_dir_spec(), "envar.txt"@),
    {
        self.in_config_dir("envar.txt")
    }

    /// The default compatibility prefix, `~/Faugus`.
    pub fn default_prefix(&self) -> (r: String)
        ensures
            r@ == join(self.home_dir(), "Faugus"@),
    {
        let h = self.home_text();
        join_path(h.as_str(), "Faugus")
    }

    /// The persisted table of running games.
    pub fn running_games_json(&self) -> (r: String)
        ensures
            r@ == join(self.data_home(), "faugus-launcher/running_games.json"@),
    {
        self.user_data("faugus-launcher/running_games.json")
    }

    /// The places where Steam may keep its per-user data, in the order tried.
    pub fn steam_userdata_paths(&self) -> (r: Vec<String>)
        ensures
            r@.len() == 4,
            forall|k: int| 0 <= k < 4 ==> #[trigger] r@[k]@ == self.steam_userdata_candidate(k),
    {
        let h = self.home_text();
        let mut r: Vec<String> = Vec::new();
        r.push(join_path(h.as_str(), ".local/share/Steam/userdata"));
        r.push(join_path(h.as_str(), ".steam/steam/userdata"));
        r.push(join_path(h.as_str(), ".steam/root/userdata"));
        let mut flat = h.clone();
        append(&mut flat, "/.var/app/com.valvesoftware.Steam/.steam/steam/userdata/");
        r.push(flat);
        r
    }

    /// The first of the Steam per-user data places that exists.
    pub fn steam_userdata_path(&self) -> (r: Option<String>)
        ensures
            r is Some ==> exists|k: int|
                0 <= k < 4 && r->0@ == #[trigger] self.steam_userdata_candidate(k),
    {
        let all = self.steam_userdata_paths();
        let mut i: usize = 0;
        while i < all.len()
            invariant
                all@.len() == 4,
                forall|k: int| 0 <= k < 4 ==> #[trigger] all@[k]@ == self.steam_userdata_candidate(k),
                i <= all@.len(),
            decreases all@.len() - i,
        {
            if path_exists(all[i].as_str()) {
                assert(all@[i as int]@ == self.steam_userdata_candidate(i as int));
                return Some(all[i].clone());
            }
            i = i + 1;
        }
        None
    }

    /// The `k`-th place where Steam may keep its per-user data.
    pub open spec fn steam_userdata_candidate(&self, k: int) -> Seq<char> {
        if k == 0 {
            join(self.home_dir(), ".local/share/Steam/userdata"@)
        } else if k == 1 {
            join(self.home_dir(), ".steam/steam/userdata"@)
        } else if k == 2 {
            join(self.home_dir(), ".steam/root/userdata"@)
        } else {
            self.home_dir() + "/.var/app/com.valvesoftware.Steam/.steam/steam/userdata/"@
        }
    }

    /// Steam's shortcut file of the user `steam_id`, when that user is known
    /// and Steam's per-user data can be found.
    pub fn steam_shortcuts_vdf(&self, steam_id: Option<String>) -> (r: Option<String>)
        ensures
            steam_id is None ==> r is None,
            r is Some ==> exists|k: int|
                0 <= k < 4 && r->0@ == join(
                    join(#[trigger] self.steam_userdata_candidate(k), steam_id->0@),
                    "config/shortcuts.vdf"@,
                ),
    {
        match steam_id {
            None => None,
            Some(id) => match self.steam_userdata_path() {
                None => None,
                Some(base) => {
                    let user = join_path(base.as_str(), id.as_str());
                    Some(join_path(user.as_str(), "config/shortcuts.vdf"))
                },
            },
        }
    }

    /// Steam's directory of user-installed compatibility tools.
    pub fn steam_compat_tools_dir(&self) -> (r: String)
        ensures
            r@ == join(join(self.data_home(), "Steam"@), "compatibilitytools.d"@),
    {
        let d = self.data_home_text();
        let s = join_path(d.as_str(), "Steam");
        join_path(s.as_str(), "compatibilitytools.d")
    }

    /// The user's directory of application menu entries.
    pub fn applications_dir(&self) -> (r: String)
        ensures
            r@ == join(self.data_home(), "applications"@),
    {
        let d = self.data_home_text();
        join_path(d.as_str(), "applications")
    }

    /// The `faugus-run` helper, when `PATH` holds it.
    pub fn faugus_run(&self) -> (r: Option<String>)
        ensures
            r is Some ==> self.search_path is Some && exists|k: int|
                0 <= k < split_at_char(self.search_path->0@, ':').len() && r->0@ == join(
                    #[trigger] split_at_char(self.search_path->0@, ':')[k],
                    "faugus-run"@,
                ),
    {
        self.find_binary("faugus-run")
    }

    /// The bundled `umu-run` launcher.
    pub fn umu_run(&self) -> (r: String)
        ensures
            r@ == join(self.data_home(), "faugus-launcher/umu-run"@),
    {
        self.user_data("faugus-launcher/umu-run")
    }

    /// The `mangohud` helper, when `PATH` holds it.
    pub fn mangohud(&self) -> (r: Option<String>)
        ensures
            r is Some ==> self.search_path is Some && exists|k: int|
                0 <= k < split_at_char(self.search_path->0@, ':').len() && r->0@ == join(
                    #[trigger] split_at_char(self.search_path->0@, ':')[k],
                    "mangohud"@,
                ),
    {
        self.find_binary("mangohud")
    }

    /// The `gamemoderun` helper, when `PATH` holds it.
    pub fn gamemoderun(&self) -> (r: Option<String>)
        ensures
            r is Some ==> self.search_path is Some && exists|k: int|
                0 <= k < split_at_char(self.search_path->0@, ':').len() && r->0@ == join(
                    #[trigger] split_at_char(self.search_path->0@, ':')[k],
                    "gamemoderun"@,
                ),
    {
        self.find_binary("gamemoderun")
    }
}

} // verus!
