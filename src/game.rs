//! A game of the library, as the launcher stores and launches it.
use vstd::prelude::*;

use crate::paths::{split_at_char, split_text};
use crate::text::{append, contains, dec, decimal, push_char, same_text, text_contains, trim, trim_text, views};

verus! {

/// One game of the library. Paths are held as text.
pub struct Game {
    /// Stable unique identifier.
    pub gameid: String,
    /// Display title.
    pub title: String,
    /// The game's executable.
    pub path: String,
    /// The compatibility prefix directory.
    pub prefix: String,
    /// Arguments given to the launcher.
    pub launch_arguments: String,
    /// Arguments given to the game.
    pub game_arguments: String,
    /// Show the MangoHud performance overlay.
    pub mangohud: bool,
    /// Run under GameMode.
    pub gamemode: bool,
    /// Turn off raw controller input.
    pub disable_hidraw: bool,
    /// Identifier for protonfixes; empty when none.
    pub protonfix: String,
    /// Display name of the runner.
    pub runner: String,
    /// Whether an additional application is run beside the game.
    pub addapp_checkbox: bool,
    /// The additional application.
    pub addapp: String,
    /// The batch file of the additional application.
    pub addapp_bat: String,
    /// Banner image, if any.
    pub banner: Option<String>,
    /// Lossless Scaling frame generation.
    pub lossless_enabled: bool,
    /// Frame generation multiplier.
    pub lossless_multiplier: u32,
    /// Frame generation flow scale.
    pub lossless_flow: bool,
    /// Frame generation performance mode.
    pub lossless_performance: bool,
    /// Frame generation HDR mode.
    pub lossless_hdr: bool,
    /// Total time played, in seconds.
    pub playtime: u64,
    /// Hidden from the library view.
    pub hidden: bool,
}

/// A game as the add and edit dialogs hand it over; the id is absent for a
/// new game.
pub struct GameConfig {
    pub gameid: Option<String>,
    pub title: String,
    pub path: String,
    pub prefix: String,
    pub launch_arguments: String,
    pub game_arguments: String,
    pub mangohud: bool,
    pub gamemode: bool,
    pub disable_hidraw: bool,
    pub protonfix: String,
    pub runner: String,
    pub addapp_checkbox: bool,
    pub addapp: String,
    pub addapp_bat: String,
    pub banner: Option<String>,
    pub lossless_enabled: bool,
    pub lossless_multiplier: u32,
    pub lossless_flow: bool,
    pub lossless_performance: bool,
    pub lossless_hdr: bool,
}

/// A copy of an optional text.
pub fn copy_opt(s: &Option<String>) -> (r: Option<String>)
    ensures
        r == *s,
{
    match s {
        Some(t) => Some(t.clone()),
        None => None,
    }
}

impl Game {
    /// A field-by-field copy.
    pub fn copy(&self) -> (r: Game)
        ensures
            r == *self,
    {
        Game {
            gameid: self.gameid.clone(),
            title: self.title.clone(),
            path: self.path.clone(),
            prefix: self.prefix.clone(),
            launch_arguments: self.launch_arguments.clone(),
            game_arguments: self.game_arguments.clone(),
            mangohud: self.mangohud,
            gamemode: self.gamemode,
            disable_hidraw: self.disable_hidraw,
            protonfix: self.protonfix.clone(),
            runner: self.runner.clone(),
            addapp_checkbox: self.addapp_checkbox,
            addapp: self.addapp.clone(),
            addapp_bat: self.addapp_bat.clone(),
            banner: copy_opt(&self.banner),
            lossless_enabled: self.lossless_enabled,
            lossless_multiplier: self.lossless_multiplier,
            lossless_flow: self.lossless_flow,
            lossless_performance: self.lossless_performance,
            lossless_hdr: self.lossless_hdr,
            playtime: self.playtime,
            hidden: self.hidden,
        }
    }
}

/// What `str::to_lowercase` makes of a text (full Unicode case mapping).
pub uninterp spec fn lower_of(s: Seq<char>) -> Seq<char>;

/// What `char::is_alphanumeric` says of a character (Unicode Alphabetic or
/// Numeric).
pub uninterp spec fn alnum(c: char) -> bool;

/// Relies on `str::to_lowercase`: the lowercase form of `s`.
#[verifier::external_body]
fn lowercase(s: &str) -> (r: String)
    ensures
        r@ == lower_of(s@),
{
    s.to_lowercase()
}

/// Relies on `char::is_alphanumeric`.
#[verifier::external_body]
fn is_alnum(c: char) -> (r: bool)
    ensures
        r == alnum(c),
{
    c.is_alphanumeric()
}

/// The characters of `s` that a file name keeps: spaces become hyphens,
/// letters, digits and hyphens stay, anything else goes.
pub open spec fn slug_chars(s: Seq<char>) -> Seq<char>
    decreases s.len(),
{
    if s.len() == 0 {
        s
    } else {
        let p = slug_chars(s.drop_last());
        let c = s.last();
        if c == ' ' {
            p.push('-')
        } else if alnum(c) || c == '-' {
            p.push(c)
        } else {
            p
        }
    }
}

/// The non-empty pieces of `pieces`, joined by hyphens.
pub open spec fn join_nonempty(pieces: Seq<Seq<char>>) -> Seq<char>
    decreases pieces.len(),
{
    if pieces.len() == 0 {
        seq![]
    } else {
        let p = join_nonempty(pieces.drop_last());
        let last = pieces.last();
        if last.len() == 0 {
            p
        } else if p.len() == 0 {
            last
        } else {
            p + seq!['-'] + last
        }
    }
}

/// A title as it appears in file names and identifiers: trimmed, lowercase,
/// spaces as hyphens, other punctuation dropped, no empty hyphen runs.
pub open spec fn formatted_title(title: Seq<char>) -> Seq<char> {
    join_nonempty(split_at_char(slug_chars(lower_of(trim(title))), '-'))
}

fn keep_slug_chars(s: &str) -> (r: String)
    ensures
        r@ == slug_chars(s@),
{
    let n = s.unicode_len();
    let mut out = String::new();
    let mut i: usize = 0;
    while i < n
        invariant
            n == s@.len(),
            i <= n,
            out@ == slug_chars(s@.subrange(0, i as int)),
        decreases n - i,
    {
        let c = s.get_char(i);
        assert(s@.subrange(0, i + 1).drop_last() == s@.subrange(0, i as int));
        if c == ' ' {
            push_char(&mut out, '-');
        } else if is_alnum(c) || c == '-' {
            push_char(&mut out, c);
        }
        i = i + 1;
    }
    assert(s@.subrange(0, n as int) == s@);
    out
}

/// Formats a title for file names and identifiers ("My Game" becomes
/// "my-game", "Test's Game" becomes "tests-game").
pub fn format_title(title: &str) -> (r: String)
    ensures
        r@ == formatted_title(title@),
{
    let trimmed = trim_text(title);
    let lower = lowercase(trimmed.as_str());
    slug_of_lowercase(lower.as_str())
}

/// The file-name form of a title that is already trimmed and lowercase.
pub fn slug_of_lowercase(lower: &str) -> (r: String)
    ensures
        r@ == join_nonempty(split_at_char(slug_chars(lower@), '-')),
{
    let kept = keep_slug_chars(lower);
    let pieces = split_text(kept.as_str(), '-');
    let mut out = String::new();
    let mut i: usize = 0;
    while i < pieces.len()
        invariant
            i <= pieces@.len(),
            out@ == join_nonempty(views(pieces@).subrange(0, i as int)),
        decreases pieces@.len() - i,
    {
        let ghost pre = views(pieces@).subrange(0, i as int);
        let ghost next = views(pieces@).subrange(0, i + 1);
        assert(next.drop_last() == pre);
        assert(next.last() == pieces@[i as int]@);
        if pieces[i].as_str().unicode_len() > 0 {
            if out.as_str().unicode_len() > 0 {
                push_char(&mut out, '-');
            }
            append(&mut out, pieces[i].as_str());
        }
        i = i + 1;
    }
    assert(views(pieces@).subrange(0, pieces@.len() as int) == views(pieces@));
    out
}

/// How a play time reads: hours and minutes, or minutes alone under an hour.
pub open spec fn playtime_text(seconds: u64) -> Seq<char> {
    let hours = seconds / 3600;
    let minutes = (seconds % 3600) / 60;
    if hours > 0 {
        dec(hours as nat) + "h "@ + dec(minutes as nat) + "m"@
    } else {
        dec(minutes as nat) + "m"@
    }
}

impl Game {
    /// Stores this game in `games`: replaces the game of the same id in
    /// place, or appends it.
    pub fn save(&self, games: &mut Vec<Game>)
        ensures
            (exists|i: int| 0 <= i < old(games)@.len() && #[trigger] old(games)@[i].gameid@ == self.gameid@)
                ==> final(games)@ == old(games)@.update(first_with_id(old(games)@, self.gameid@), *self),
            (forall|i: int| 0 <= i < old(games)@.len() ==> #[trigger] old(games)@[i].gameid@ != self.gameid@)
                ==> final(games)@ == old(games)@.push(*self),
    {
        let mut i: usize = 0;
        while i < games.len()
            invariant
                games@ == old(games)@,
                i <= games@.len(),
                forall|k: int| 0 <= k < i ==> #[trigger] games@[k].gameid@ != self.gameid@,
            decreases games@.len() - i,
        {
            if same_text(games[i].gameid.as_str(), self.gameid.as_str()) {
                proof {
                    lemma_first_with_id(games@, self.gameid@, i as int);
                }
                games[i] = self.copy();
                return;
            }
            i = i + 1;
        }
        games.push(self.copy());
    }

    /// Removes this game (every game of its id) from `games`.
    pub fn delete(&self, games: &mut Vec<Game>)
        ensures
            final(games)@ == without_id(old(games)@, self.gameid@),
    {
        let mut kept: Vec<Game> = Vec::new();
        let mut i: usize = 0;
        while i < games.len()
            invariant
                i <= games@.len(),
                kept@ == without_id(games@.subrange(0, i as int), self.gameid@),
            decreases games@.len() - i,
        {
            assert(games@.subrange(0, i + 1).drop_last() == games@.subrange(0, i as int));
            if !same_text(games[i].gameid.as_str(), self.gameid.as_str()) {
                kept.push(games[i].copy());
            }
            i = i + 1;
        }
        assert(games@.subrange(0, games@.len() as int) == games@);
        *games = kept;
    }

    /// Sets the hidden flag of the game of this id in `games`, if present.
    pub fn update_hidden(&self, games: &mut Vec<Game>, hidden: bool)
        ensures
            final(games)@.len() == old(games)@.len(),
            (exists|i: int| 0 <= i < old(games)@.len() && #[trigger] old(games)@[i].gameid@ == self.gameid@)
                ==> ({
                let k = first_with_id(old(games)@, self.gameid@);
                final(games)@ == old(games)@.update(k, Game { hidden, ..old(games)@[k] })
            }),
            (forall|i: int| 0 <= i < old(games)@.len() ==> #[trigger] old(games)@[i].gameid@ != self.gameid@)
                ==> final(games)@ == old(games)@,
    {
        let mut i: usize = 0;
        while i < games.len()
            invariant
                games@ == old(games)@,
                i <= games@.len(),
                forall|k: int| 0 <= k < i ==> #[trigger] games@[k].gameid@ != self.gameid@,
            decreases games@.len() - i,
        {
            if same_text(games[i].gameid.as_str(), self.gameid.as_str()) {
                proof {
                    lemma_first_with_id(games@, self.gameid@, i as int);
                }
                let mut g = games[i].copy();
                g.hidden = hidden;
                games[i] = g;
                return;
            }
            i = i + 1;
        }
    }

    /// The play time as text, such as "2h 5m" or "45m".
    pub fn format_playtime(&self) -> (r: String)
        ensures
            r@ == playtime_text(self.playtime),
    {
        let hours = self.playtime / 3600;
        let minutes = (self.playtime % 3600) / 60;
        let mut r = String::new();
        if hours > 0 {
            let h = decimal(hours);
            append(&mut r, h.as_str());
            append(&mut r, "h ");
        }
        let m = decimal(minutes);
        append(&mut r, m.as_str());
        append(&mut r, "m");
        proof {
            assert(Seq::<char>::empty() + dec(hours as nat) + "h "@ == dec(hours as nat) + "h "@);
            assert(Seq::<char>::empty() + dec(minutes as nat) == dec(minutes as nat));
        }
        r
    }

    /// A copy of this game under the id `new_id`, titled with a " (Copy)"
    /// suffix, with no play time and not hidden.
    pub fn duplicate_with_id(&self, new_id: String) -> (r: Game)
        ensures
            r == (Game {
                gameid: new_id,
                title: r.title,
                playtime: 0,
                hidden: false,
                ..*self
            }),
            r.title@ == self.title@ + " (Copy)"@,
    {
        let mut title = self.title.clone();
        append(&mut title, " (Copy)");
        let c = self.copy();
        Game { gameid: new_id, title, playtime: 0, hidden: false, ..c }
    }

    /// A copy of this game under a fresh random id; see `duplicate_with_id`.
    pub fn duplicate(&self) -> (r: Game)
        ensures
            r == (Game { gameid: r.gameid, title: r.title, playtime: 0, hidden: false, ..*self }),
            r.title@ == self.title@ + " (Copy)"@,
    {
        self.duplicate_with_id(new_game_id())
    }

    /// Adds `seconds` to the play time.
    pub fn add_playtime(&mut self, seconds: u64)
        requires
            old(self).playtime + seconds <= u64::MAX,
        ensures
            final(self).playtime == old(self).playtime + seconds,
            *final(self) == (Game { playtime: (old(self).playtime + seconds) as u64, ..*old(self) }),
    {
        self.playtime = self.playtime + seconds;
    }
}

/// Relies on uuid's `Uuid::new_v4` and its text form: a fresh random id.
/// Nothing is promised of a random value.
#[verifier::external_body]
fn new_game_id() -> String {
    uuid::Uuid::new_v4().to_string()
}

/// Whether a game shows in the library for the search text `query`: its
/// lowercase title holds the lowercase query (any title for an empty
/// query), and it is not hidden unless hidden games are shown.
pub open spec fn matches_search(query: Seq<char>, title: Seq<char>, hidden: bool, show_hidden: bool) -> bool {
    (query.len() == 0 || contains(lower_of(title), lower_of(query))) && (!hidden || show_hidden)
}

/// Whether `game` shows in the library for the search text `query`.
pub fn game_matches_search(query: &str, game: &Game, show_hidden: bool) -> (r: bool)
    ensures
        r == matches_search(query@, game.title@, game.hidden, show_hidden),
{
    let matches_query = if query.unicode_len() == 0 {
        true
    } else {
        let q = lowercase(query);
        let t = lowercase(game.title.as_str());
        text_contains(t.as_str(), q.as_str())
    };
    let matches_hidden = if game.hidden {
        show_hidden
    } else {
        true
    };
    matches_query && matches_hidden
}

/// The index of the first game of id `id` in `s`, or `s.len()` when none.
pub open spec fn first_with_id(s: Seq<Game>, id: Seq<char>) -> int
    decreases s.len(),
{
    if s.len() == 0 {
        0
    } else if s[0].gameid@ == id {
        0
    } else {
        1 + first_with_id(s.drop_first(), id)
    }
}

proof fn lemma_first_with_id(s: Seq<Game>, id: Seq<char>, i: int)
    requires
        0 <= i < s.len(),
        s[i].gameid@ == id,
        forall|k: int| 0 <= k < i ==> #[trigger] s[k].gameid@ != id,
    ensures
        first_with_id(s, id) == i,
    decreases i,
{
    if i > 0 {
        let d = s.drop_first();
        assert forall|k: int| 0 <= k < i - 1 implies #[trigger] d[k].gameid@ != id by {
            assert(d[k] == s[k + 1]);
        }
        assert(s[0].gameid@ != id);
        lemma_first_with_id(d, id, i - 1);
    }
}

/// `s` without the games of id `id`.
pub open spec fn without_id(s: Seq<Game>, id: Seq<char>) -> Seq<Game>
    decreases s.len(),
{
    if s.len() == 0 {
        s
    } else if s.last().gameid@ == id {
        without_id(s.drop_last(), id)
    } else {
        without_id(s.drop_last(), id).push(s.last())
    }
}

} // verus!
