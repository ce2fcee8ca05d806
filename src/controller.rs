//! The launch controller: the status of every title, the table of running
//! games and the recently launched list, and the transitions between them.
use vstd::prelude::*;

use crate::launcher::{terminate_failure, GameLauncher, GameProcess};
use crate::recent::{no_dups, push_recent, pushed_recent};
use crate::registry::{has_title, upserted, without, ProcessRegistry};
use crate::text::{append, owned, same_text, views};

verus! {

/// Where a title stands.
#[derive(Debug)]
pub enum LaunchStatus {
    NotRunning,
    Launching,
    Running(GameProcess),
    Error(String),
}

impl LaunchStatus {
    /// A copy of this status.
    pub fn copy(&self) -> (r: LaunchStatus)
        ensures
            r == *self,
    {
        match self {
            LaunchStatus::NotRunning => LaunchStatus::NotRunning,
            LaunchStatus::Launching => LaunchStatus::Launching,
            LaunchStatus::Running(p) => LaunchStatus::Running(p.copy()),
            LaunchStatus::Error(m) => LaunchStatus::Error(m.clone()),
        }
    }
}

/// What the controller reports to the interface.
#[derive(Debug)]
pub enum LaunchMessage {
    Launched(String, GameProcess),
    LaunchFailed(String, String),
    ProcessExited(String, u32),
    Progress(String, String),
}

/// The status recorded for `t`: the last entry of that title, else not running.
pub open spec fn lookup(s: Seq<(String, LaunchStatus)>, t: Seq<char>) -> LaunchStatus
    decreases s.len(),
{
    if s.len() == 0 {
        LaunchStatus::NotRunning
    } else if s.last().0@ == t {
        s.last().1
    } else {
        lookup(s.drop_last(), t)
    }
}

/// `s` without the entries of title `t`.
pub open spec fn cleared(s: Seq<(String, LaunchStatus)>, t: Seq<char>) -> Seq<(String, LaunchStatus)>
    decreases s.len(),
{
    if s.len() == 0 {
        s
    } else if s.last().0@ == t {
        cleared(s.drop_last(), t)
    } else {
        cleared(s.drop_last(), t).push(s.last())
    }
}

/// No two entries of `s` share a title.
pub open spec fn keys_unique(s: Seq<(String, LaunchStatus)>) -> bool {
    forall|i: int, j: int|
        0 <= i < s.len() && 0 <= j < s.len() && i != j ==> #[trigger] s[i].0@ != #[trigger] s[j].0@
}

proof fn lemma_cleared_lookup(s: Seq<(String, LaunchStatus)>, t: Seq<char>, u: Seq<char>)
    ensures
        lookup(cleared(s, t), u) == (if u == t {
            LaunchStatus::NotRunning
        } else {
            lookup(s, u)
        }),
    decreases s.len(),
{
    if s.len() > 0 {
        lemma_cleared_lookup(s.drop_last(), t, u);
        let c = cleared(s.drop_last(), t);
        if s.last().0@ != t {
            assert(c.push(s.last()).drop_last() == c);
        }
    }
}

proof fn lemma_cleared_members(s: Seq<(String, LaunchStatus)>, t: Seq<char>)
    ensures
        forall|i: int|
            0 <= i < cleared(s, t).len() ==> #[trigger] cleared(s, t)[i].0@ != t && s.contains(
                cleared(s, t)[i],
            ),
    decreases s.len(),
{
    if s.len() > 0 {
        let d = s.drop_last();
        lemma_cleared_members(d, t);
        let w = cleared(d, t);
        assert forall|i: int| 0 <= i < cleared(s, t).len() implies #[trigger] cleared(s, t)[i].0@
            != t && s.contains(cleared(s, t)[i]) by {
            if s.last().0@ != t && i == w.len() {
                assert(s[s.len() - 1] == cleared(s, t)[i]);
            } else {
                assert(cleared(s, t)[i] == w[i]);
                assert(w[i].0@ != t);
                assert(d.contains(w[i]));
                let k = choose|k: int| 0 <= k < d.len() && d[k] == w[i];
                assert(s[k] == w[i]);
            }
        }
    }
}

proof fn lemma_cleared_unique(s: Seq<(String, LaunchStatus)>, t: Seq<char>)
    requires
        keys_unique(s),
    ensures
        keys_unique(cleared(s, t)),
    decreases s.len(),
{
    if s.len() > 0 {
        let d = s.drop_last();
        assert(keys_unique(d)) by {
            assert forall|i: int, j: int|
                0 <= i < d.len() && 0 <= j < d.len() && i != j implies #[trigger] d[i].0@
                != #[trigger] d[j].0@ by {
                assert(d[i] == s[i] && d[j] == s[j]);
            }
        }
        lemma_cleared_unique(d, t);
        lemma_cleared_members(d, t);
        if s.last().0@ != t {
            let w = cleared(d, t);
            let ws = w.push(s.last());
            assert forall|i: int, j: int|
                0 <= i < ws.len() && 0 <= j < ws.len() && i != j implies #[trigger] ws[i].0@
                != #[trigger] ws[j].0@ by {
                if i < w.len() && j < w.len() {
                    assert(ws[i] == w[i] && ws[j] == w[j]);
                } else if i < w.len() {
                    assert(w[i].0@ != t);
                    assert(d.contains(w[i]));
                    let k = choose|k: int| 0 <= k < d.len() && d[k] == w[i];
                    assert(s[k] == w[i]);
                    assert(s[s.len() - 1] == ws[j]);
                    assert(ws[i] == w[i]);
                } else if j < w.len() {
                    assert(w[j].0@ != t);
                    assert(d.contains(w[j]));
                    let k = choose|k: int| 0 <= k < d.len() && d[k] == w[j];
                    assert(s[k] == w[j]);
                    assert(s[s.len() - 1] == ws[i]);
                    assert(ws[j] == w[j]);
                }
            }
        }
    }
}

proof fn lemma_lookup_entry(s: Seq<(String, LaunchStatus)>, i: int)
    requires
        keys_unique(s),
        0 <= i < s.len(),
    ensures
        lookup(s, s[i].0@) == s[i].1,
    decreases s.len(),
{
    if i < s.len() - 1 {
        let d = s.drop_last();
        assert(s[s.len() - 1].0@ != s[i].0@);
        assert(keys_unique(d)) by {
            assert forall|a: int, b: int|
                0 <= a < d.len() && 0 <= b < d.len() && a != b implies #[trigger] d[a].0@
                != #[trigger] d[b].0@ by {
                assert(d[a] == s[a] && d[b] == s[b]);
            }
        }
        assert(d[i] == s[i]);
        lemma_lookup_entry(d, i);
    }
}

proof fn lemma_lookup_absent(s: Seq<(String, LaunchStatus)>, t: Seq<char>)
    requires
        forall|k: int| 0 <= k < s.len() ==> #[trigger] s[k].0@ != t,
    ensures
        lookup(s, t) == LaunchStatus::NotRunning,
    decreases s.len(),
{
    if s.len() > 0 {
        let d = s.drop_last();
        assert forall|k: int| 0 <= k < d.len() implies #[trigger] d[k].0@ != t by {
            assert(d[k] == s[k]);
        }
        assert(s[s.len() - 1].0@ != t);
        lemma_lookup_absent(d, t);
    }
}

/// Whether one of the first `n` entries of `s` has title `t`.
pub open spec fn key_among(s: Seq<(String, LaunchStatus)>, n: int, t: Seq<char>) -> bool {
    exists|m: int| 0 <= m < n && #[trigger] s[m].0@ == t
}

/// Whether one of the first `n` running titles is `t` with a pid not in `live`.
pub open spec fn dead_among(
    running: Seq<(String, GameProcess)>,
    n: int,
    live: Seq<u32>,
    t: Seq<char>,
) -> bool {
    exists|m: int|
        0 <= m < n && #[trigger] running[m].0@ == t && !live.contains(running[m].1.main_pid)
}

/// Whether `pid` is among `pids`.
pub fn pid_listed(pids: &Vec<u32>, pid: u32) -> (r: bool)
    ensures
        r == pids@.contains(pid),
{
    let mut i: usize = 0;
    while i < pids.len()
        invariant
            i <= pids@.len(),
            forall|k: int| 0 <= k < i ==> pids@[k] != pid,
        decreases pids@.len() - i,
    {
        if pids[i] == pid {
            assert(pids@[i as int] == pid);
            return true;
        }
        i = i + 1;
    }
    false
}

/// Removes every title of `ts`, in turn, from the table `s`.
pub open spec fn without_all(s: Seq<GameProcess>, ts: Seq<Seq<char>>) -> Seq<GameProcess>
    decreases ts.len(),
{
    if ts.len() == 0 {
        s
    } else {
        without(without_all(s, ts.drop_last()), ts.last())
    }
}

/// Launch controller: tracks each title's status, the persisted table of
/// running games and the recently launched list.
pub struct GameLaunchController {
    entries: Vec<(String, LaunchStatus)>,
    registry: ProcessRegistry,
    recent: Vec<String>,
}

/// The message of a termination that was refused or failed, by state.
pub open spec fn still_launching_msg() -> Seq<char> {
    "Game is still launching, please wait"@
}

pub open spec fn not_running_msg() -> Seq<char> {
    "Game is not running"@
}

pub open spec fn launch_failed_msg() -> Seq<char> {
    "Game launch failed"@
}

/// Whether `t` is running or being launched.
pub open spec fn is_active(s: LaunchStatus) -> bool {
    s is Running || s is Launching
}

impl GameLaunchController {
    /// The status of title `t`.
    pub closed spec fn status(&self, t: Seq<char>) -> LaunchStatus {
        lookup(self.entries@, t)
    }

    /// The table of running games.
    pub closed spec fn table(&self) -> Seq<GameProcess> {
        self.registry@
    }

    /// The recently launched titles, most recent first.
    pub closed spec fn recent_titles(&self) -> Seq<Seq<char>> {
        views(self.recent@)
    }

    /// Well-formed: one status per title, one record per title, no title
    /// twice among the recent ones and at most ten of them.
    pub closed spec fn wf(&self) -> bool {
        &&& keys_unique(self.entries@)
        &&& self.registry.wf()
        &&& no_dups(views(self.recent@))
        &&& self.recent@.len() <= 10
    }

    /// `post` differs from `pre` only in the status of `t`, which is `st`.
    pub open spec fn only_status_changed(
        pre: GameLaunchController,
        post: GameLaunchController,
        t: Seq<char>,
        st: LaunchStatus,
    ) -> bool {
        &&& post.status(t) == st
        &&& forall|u: Seq<char>| u != t ==> #[trigger] post.status(u) == pre.status(u)
    }

    /// `post` equals `pre` in every status, the table and the recent list.
    pub open spec fn unchanged(pre: GameLaunchController, post: GameLaunchController) -> bool {
        &&& forall|u: Seq<char>| #[trigger] post.status(u) == pre.status(u)
        &&& post.table() == pre.table()
        &&& post.recent_titles() == pre.recent_titles()
    }

    /// A launch of `t` was requested: accepted from any state but launching
    /// and running, and then `t` is launching.
    pub open spec fn launch_requested(
        pre: GameLaunchController,
        post: GameLaunchController,
        t: Seq<char>,
        accepted: bool,
    ) -> bool {
        &&& accepted == !is_active(pre.status(t))
        &&& accepted ==> Self::only_status_changed(pre, post, t, LaunchStatus::Launching)
            && post.table() == pre.table() && post.recent_titles() == pre.recent_titles()
        &&& !accepted ==> Self::unchanged(pre, post)
    }

    /// The launch of `p`'s title succeeded: it runs as `p`, `p` is in the
    /// table in place of any older record, and the title leads the recent list.
    pub open spec fn launch_succeeded_step(
        pre: GameLaunchController,
        post: GameLaunchController,
        p: GameProcess,
    ) -> bool {
        &&& Self::only_status_changed(pre, post, p.game_title@, LaunchStatus::Running(p))
        &&& post.table() == upserted(pre.table(), p)
        &&& post.recent_titles() == pushed_recent(pre.recent_titles(), p.game_title@)
    }

    /// The launch of `t` failed with `message`; nothing is persisted.
    pub open spec fn launch_failed_step(
        pre: GameLaunchController,
        post: GameLaunchController,
        t: Seq<char>,
        message: String,
    ) -> bool {
        &&& Self::only_status_changed(pre, post, t, LaunchStatus::Error(message))
        &&& post.table() == pre.table()
        &&& post.recent_titles() == pre.recent_titles()
    }

    /// The process of `t` is gone: `t` is not running and out of the table.
    pub open spec fn exited_step(
        pre: GameLaunchController,
        post: GameLaunchController,
        t: Seq<char>,
    ) -> bool {
        &&& Self::only_status_changed(pre, post, t, LaunchStatus::NotRunning)
        &&& post.table() == without(pre.table(), t)
        &&& post.recent_titles() == pre.recent_titles()
    }

    /// A controller where nothing runs, with an empty table.
    pub fn new() -> (r: Self)
        ensures
            r.wf(),
            forall|t: Seq<char>| #[trigger] r.status(t) == LaunchStatus::NotRunning,
            r.table() == Seq::<GameProcess>::empty(),
            r.recent_titles() == Seq::<Seq<char>>::empty(),
    {
        let r = GameLaunchController {
            entries: Vec::new(),
            registry: ProcessRegistry::new(),
            recent: Vec::new(),
        };
        assert(views(r.recent@) =~= Seq::<Seq<char>>::empty());
        r
    }

    /// A controller where nothing runs, over a table read from storage.
    pub fn with_registry(registry: ProcessRegistry) -> (r: Self)
        requires
            registry.wf(),
        ensures
            r.wf(),
            forall|t: Seq<char>| #[trigger] r.status(t) == LaunchStatus::NotRunning,
            r.table() == registry@,
            r.recent_titles() == Seq::<Seq<char>>::empty(),
    {
        let r = GameLaunchController { entries: Vec::new(), registry, recent: Vec::new() };
        assert(views(r.recent@) =~= Seq::<Seq<char>>::empty());
        r
    }

    /// The table of running games.
    pub fn registry(&self) -> (r: &ProcessRegistry)
        ensures
            r@ == self.table(),
            self.wf() ==> r.wf(),
    {
        &self.registry
    }

    /// The recently launched titles, most recent first.
    pub fn recently_launched(&self) -> (r: &Vec<String>)
        ensures
            views(r@) == self.recent_titles(),
    {
        &self.recent
    }

    /// The status of `title`; not running when nothing is recorded.
    pub fn get_status(&self, title: &str) -> (r: LaunchStatus)
        requires
            self.wf(),
        ensures
            r == self.status(title@),
    {
        let mut i: usize = self.entries.len();
        assert(self.entries@.subrange(0, i as int) == self.entries@);
        while i > 0
            invariant
                i <= self.entries@.len(),
                lookup(self.entries@, title@) == lookup(self.entries@.subrange(0, i as int), title@),
            decreases i,
        {
            let ghost pre = self.entries@.subrange(0, i as int);
            assert(pre.drop_last() == self.entries@.subrange(0, i - 1));
            if same_text(self.entries[i - 1].0.as_str(), title) {
                return self.entries[i - 1].1.copy();
            }
            i = i - 1;
        }
        LaunchStatus::NotRunning
    }

    /// Whether `title` is running or being launched.
    pub fn is_running(&self, title: &str) -> (r: bool)
        requires
            self.wf(),
        ensures
            r == is_active(self.status(title@)),
    {
        match self.get_status(title) {
            LaunchStatus::Running(_) => true,
            LaunchStatus::Launching => true,
            _ => false,
        }
    }

    fn set_status(&mut self, title: &str, st: LaunchStatus)
        requires
            old(self).wf(),
        ensures
            final(self).wf(),
            Self::only_status_changed(*old(self), *final(self), title@, st),
            final(self).table() == old(self).table(),
            final(self).recent_titles() == old(self).recent_titles(),
    {
        self.clear_status(title);
        let ghost mid = self.entries@;
        proof {
            lemma_cleared_members(old(self).entries@, title@);
        }
        self.entries.push((owned(title), st));
        proof {
            let e = self.entries@;
            assert(e.drop_last() == mid);
            assert forall|u: Seq<char>| u != title@ implies #[trigger] lookup(e, u) == lookup(
                old(self).entries@,
                u,
            ) by {
                lemma_cleared_lookup(old(self).entries@, title@, u);
            }
            assert forall|i: int, j: int|
                0 <= i < e.len() && 0 <= j < e.len() && i != j implies #[trigger] e[i].0@
                != #[trigger] e[j].0@ by {
                if i < mid.len() && j < mid.len() {
                    assert(e[i] == mid[i] && e[j] == mid[j]);
                } else if i < mid.len() {
                    assert(e[i] == mid[i]);
                    assert(mid[i].0@ != title@);
                } else if j < mid.len() {
                    assert(e[j] == mid[j]);
                    assert(mid[j].0@ != title@);
                }
            }
        }
    }

    fn clear_status(&mut self, title: &str)
        requires
            old(self).wf(),
        ensures
            final(self).wf(),
            final(self).entries@ == cleared(old(self).entries@, title@),
            Self::only_status_changed(*old(self), *final(self), title@, LaunchStatus::NotRunning),
            final(self).table() == old(self).table(),
            final(self).recent_titles() == old(self).recent_titles(),
    {
        let mut kept: Vec<(String, LaunchStatus)> = Vec::new();
        let mut i: usize = 0;
        while i < self.entries.len()
            invariant
                i <= self.entries@.len(),
                kept@ == cleared(self.entries@.subrange(0, i as int), title@),
            decreases self.entries@.len() - i,
        {
            let ghost pre = self.entries@.subrange(0, i as int);
            assert(self.entries@.subrange(0, i + 1).drop_last() == pre);
            if !same_text(self.entries[i].0.as_str(), title) {
                let e = (self.entries[i].0.clone(), self.entries[i].1.copy());
                kept.push(e);
            }
            i = i + 1;
        }
        assert(self.entries@.subrange(0, self.entries@.len() as int) == self.entries@);
        proof {
            lemma_cleared_unique(self.entries@, title@);
            assert forall|u: Seq<char>| true implies #[trigger] lookup(kept@, u) == (if u
                == title@ {
                LaunchStatus::NotRunning
            } else {
                lookup(self.entries@, u)
            }) by {
                lemma_cleared_lookup(self.entries@, title@, u);
            }
        }
        self.entries = kept;
    }

    /// Requests a launch of `title`. Refused (returns false, nothing changes)
    /// while the title is launching or running; otherwise it becomes launching.
    pub fn request_launch(&mut self, title: &str) -> (accepted: bool)
        requires
            old(self).wf(),
        ensures
            final(self).wf(),
            Self::launch_requested(*old(self), *final(self), title@, accepted),
    {
        if self.is_running(title) {
            return false;
        }
        self.set_status(title, LaunchStatus::Launching);
        true
    }

    /// Records a successful launch: the title runs as `process`, which goes
    /// into the table, and the title leads the recently launched list.
    pub fn launch_succeeded(&mut self, process: GameProcess)
        requires
            old(self).wf(),
        ensures
            final(self).wf(),
            Self::launch_succeeded_step(*old(self), *final(self), process),
    {
        let title = process.game_title.clone();
        let running = LaunchStatus::Running(process.copy());
        self.registry.upsert(process);
        let ghost before = views(self.recent@);
        proof {
            crate::recent::lemma_recent_push(before, title@);
        }
        self.recent = push_recent(&self.recent, title.as_str());
        self.set_status(title.as_str(), running);
    }

    /// Takes up a process found in the table at startup whose pid is still
    /// alive: its title is running again; the recent list stays as it was.
    pub fn resume(&mut self, process: GameProcess)
        requires
            old(self).wf(),
        ensures
            final(self).wf(),
            Self::only_status_changed(
                *old(self),
                *final(self),
                process.game_title@,
                LaunchStatus::Running(process),
            ),
            final(self).table() == upserted(old(self).table(), process),
            final(self).recent_titles() == old(self).recent_titles(),
    {
        let title = process.game_title.clone();
        let running = LaunchStatus::Running(process.copy());
        self.registry.upsert(process);
        self.set_status(title.as_str(), running);
    }

    /// Records a failed launch: the title shows the error `message`; the
    /// table and the recent list stay as they were.
    pub fn launch_failed(&mut self, title: &str, message: String)
        requires
            old(self).wf(),
        ensures
            final(self).wf(),
            Self::launch_failed_step(*old(self), *final(self), title@, message),
    {
        self.set_status(title, LaunchStatus::Error(message));
    }

    /// Records that the process of `title` is gone: the title is no longer
    /// running and its record leaves the table.
    pub fn on_process_exited(&mut self, title: &str)
        requires
            old(self).wf(),
        ensures
            final(self).wf(),
            Self::exited_step(*old(self), *final(self), title@),
    {
        self.registry.remove(title);
        self.clear_status(title);
    }

    /// Completes the termination of the running `title` once the signal was
    /// sent: on success the title exits; on failure nothing changes and the
    /// failure is reported.
    pub fn finish_termination(&mut self, title: &str, signal: Result<(), String>) -> (r: Result<
        (),
        String,
    >)
        requires
            old(self).wf(),
        ensures
            final(self).wf(),
            signal is Ok ==> r is Ok && Self::exited_step(*old(self), *final(self), title@),
            signal is Err ==> r is Err && r->Err_0@ == "Failed to terminate game: "@
                + signal->Err_0@ && Self::unchanged(*old(self), *final(self)),
    {
        match signal {
            Ok(()) => {
                self.on_process_exited(title);
                Ok(())
            },
            Err(e) => {
                let mut m = owned("Failed to terminate game: ");
                append(&mut m, e.as_str());
                Err(m)
            },
        }
    }

    /// Terminates the running `title` with `SIGTERM`. A title that is
    /// launching, not running or failed is refused with a message that says
    /// so, and nothing changes. When the signal cannot be sent nothing
    /// changes either.
    pub fn terminate_game(&mut self, title: &str) -> (r: Result<(), String>)
        requires
            old(self).wf(),
        ensures
            final(self).wf(),
            old(self).status(title@) is Launching ==> r is Err && r->Err_0@ == still_launching_msg(),
            old(self).status(title@) is NotRunning ==> r is Err && r->Err_0@ == not_running_msg(),
            old(self).status(title@) is Error ==> r is Err && r->Err_0@ == launch_failed_msg(),
            r is Ok ==> old(self).status(title@) is Running && Self::exited_step(
                *old(self),
                *final(self),
                title@,
            ),
            r is Err ==> Self::unchanged(*old(self), *final(self)),
            r is Err && old(self).status(title@) is Running ==> r->Err_0@
                == "Failed to terminate game: "@ + terminate_failure(
                old(self).status(title@)->Running_0.main_pid,
            ),
    {
        match self.get_status(title) {
            LaunchStatus::Running(process) => {
                let signal = GameLauncher::terminate(process.main_pid);
                self.finish_termination(title, signal)
            },
            LaunchStatus::Launching => Err(owned("Game is still launching, please wait")),
            LaunchStatus::NotRunning => Err(owned("Game is not running")),
            LaunchStatus::Error(_) => Err(owned("Game launch failed")),
        }
    }

    /// Terminates every running title in turn; a failure for one title does
    /// not stop the others. A title that was running ends up not running or
    /// as it was; any other title keeps its status.
    pub fn terminate_all(&mut self)
        requires
            old(self).wf(),
        ensures
            final(self).wf(),
            forall|u: Seq<char>|
                #[trigger] final(self).status(u) == old(self).status(u) || (old(self).status(
                    u,
                ) is Running && final(self).status(u) is NotRunning),
            exists|gone: Seq<Seq<char>>|
                final(self).table() == without_all(old(self).table(), gone) && forall|t: Seq<char>|
                    #[trigger] gone.contains(t) <==> (old(self).status(t) is Running
                        && final(self).status(t) is NotRunning),
            final(self).recent_titles() == old(self).recent_titles(),
    {
        let running = self.get_running_games();
        let ghost mut gone: Seq<Seq<char>> = seq![];
        let mut i: usize = 0;
        while i < running.len()
            invariant
                self.wf(),
                i <= running@.len(),
                forall|u: Seq<char>|
                    #[trigger] self.status(u) == old(self).status(u) || (old(self).status(
                        u,
                    ) is Running && self.status(u) is NotRunning),
                self.table() == without_all(old(self).table(), gone),
                forall|t: Seq<char>|
                    #[trigger] gone.contains(t) <==> (old(self).status(t) is Running
                        && self.status(t) is NotRunning),
                self.recent_titles() == old(self).recent_titles(),
            decreases running@.len() - i,
        {
            let ghost before = *self;
            let ghost g0 = gone;
            let title = running[i].0.as_str();
            let outcome = self.terminate_game(title);
            proof {
                if outcome is Ok {
                    gone = g0.push(title@);
                    assert(gone.drop_last() == g0);
                }
                assert forall|u: Seq<char>|
                    #[trigger] self.status(u) == old(self).status(u) || (old(self).status(
                        u,
                    ) is Running && self.status(u) is NotRunning) by {
                    assert(before.status(u) == old(self).status(u) || (old(self).status(
                        u,
                    ) is Running && before.status(u) is NotRunning));
                    if u == title@ && self.status(u) != before.status(u) {
                        assert(before.status(u) is Running);
                    }
                }
                assert forall|t: Seq<char>|
                    #[trigger] gone.contains(t) <==> (old(self).status(t) is Running
                        && self.status(t) is NotRunning) by {
                    assert(g0.contains(t) <==> (old(self).status(t) is Running
                        && before.status(t) is NotRunning));
                    if outcome is Ok {
                        if t == title@ {
                            assert(gone[g0.len() as int] == t);
                            assert(before.status(t) is Running);
                            assert(before.status(t) == old(self).status(t));
                        } else {
                            assert(self.status(t) == before.status(t));
                            if gone.contains(t) {
                                let k = choose|k: int| 0 <= k < gone.len() && gone[k] == t;
                                assert(g0[k] == t);
                            }
                            if g0.contains(t) {
                                let k = choose|k: int| 0 <= k < g0.len() && g0[k] == t;
                                assert(gone[k] == t);
                            }
                        }
                    } else {
                        assert(self.status(t) == before.status(t));
                    }
                }
            }
            i = i + 1;
        }
        assert(self.table() == without_all(old(self).table(), gone) && forall|t: Seq<char>|
            #[trigger] gone.contains(t) <==> (old(self).status(t) is Running
                && self.status(t) is NotRunning));
    }

    /// The periodic sweep, given the pids that are alive: every running title
    /// whose main pid is not among them is reported, is no longer running and
    /// leaves the table; everything else stays.
    pub fn check_processes_with(&mut self, live_pids: &Vec<u32>) -> (r: Vec<String>)
        requires
            old(self).wf(),
        ensures
            final(self).wf(),
            forall|t: Seq<char>|
                #[trigger] views(r@).contains(t) <==> (old(self).status(t) is Running
                    && !live_pids@.contains(old(self).status(t)->Running_0.main_pid)),
            forall|t: Seq<char>|
                #[trigger] final(self).status(t) == (if views(r@).contains(t) {
                    LaunchStatus::NotRunning
                } else {
                    old(self).status(t)
                }),
            final(self).table() == without_all(old(self).table(), views(r@)),
            forall|t: Seq<char>| #[trigger] views(r@).contains(t) ==> !has_title(final(self).table(), t),
            final(self).recent_titles() == old(self).recent_titles(),
            forall|a: int, b: int|
                0 <= a < b < r@.len() ==> #[trigger] r@[a]@ != #[trigger] r@[b]@,
    {
        let running = self.get_running_games();
        let mut dead: Vec<String> = Vec::new();
        let mut i: usize = 0;
        while i < running.len()
            invariant
                i <= running@.len(),
                forall|k: int|
                    0 <= k < running@.len() ==> self.status(#[trigger] running@[k].0@)
                        == LaunchStatus::Running(running@[k].1),
                forall|k: int|
                    0 <= k < dead@.len() ==> dead_among(
                        running@,
                        i as int,
                        live_pids@,
                        #[trigger] dead@[k]@,
                    ),
                forall|m: int|
                    0 <= m < i && !live_pids@.contains(running@[m].1.main_pid) ==> views(
                        dead@,
                    ).contains(#[trigger] running@[m].0@),
            forall|a: int, b: int|
                    0 <= a < b < dead@.len() ==> #[trigger] dead@[a]@ != #[trigger] dead@[b]@,
                forall|a: int, b: int|
                    0 <= a < running@.len() && 0 <= b < running@.len() && a != b
                        ==> #[trigger] running@[a].0@ != #[trigger] running@[b].0@,
            decreases running@.len() - i,
        {
            if !pid_listed(live_pids, running[i].1.main_pid) {
                let ghost d0 = dead@;
                dead.push(running[i].0.clone());
                proof {
                    assert(views(dead@) == views(d0).push(running@[i as int].0@));
                    assert forall|a: int, b: int|
                        0 <= a < b < dead@.len() implies #[trigger] dead@[a]@ != #[trigger] dead@[b]@ by {
                        if b == d0.len() {
                            assert(dead@[a] == d0[a]);
                            assert(dead_among(running@, i as int, live_pids@, d0[a]@));
                            let m = choose|m: int|
                                0 <= m < i && #[trigger] running@[m].0@ == d0[a]@
                                    && !live_pids@.contains(running@[m].1.main_pid);
                            assert(running@[m].0@ != running@[i as int].0@);
                        } else {
                            assert(dead@[a] == d0[a] && dead@[b] == d0[b]);
                        }
                    }
                    assert forall|m: int|
                        0 <= m < i + 1 && !live_pids@.contains(running@[m].1.main_pid) implies views(
                        dead@,
                    ).contains(#[trigger] running@[m].0@) by {
                        if m < i {
                            assert(views(d0).contains(running@[m].0@));
                            let k = choose|k: int| 0 <= k < views(d0).len() && views(d0)[k] == running@[m].0@;
                            assert(views(dead@)[k] == running@[m].0@);
                        } else {
                            assert(views(dead@)[d0.len() as int] == running@[m].0@);
                        }
                    }
                    assert forall|k: int| 0 <= k < dead@.len() implies dead_among(
                        running@,
                        i + 1,
                        live_pids@,
                        #[trigger] dead@[k]@,
                    ) by {
                        if k < d0.len() {
                            assert(dead@[k] == d0[k]);
                            assert(dead_among(running@, i as int, live_pids@, d0[k]@));
                            let m = choose|m: int|
                                0 <= m < i && #[trigger] running@[m].0@ == d0[k]@
                                    && !live_pids@.contains(running@[m].1.main_pid);
                            assert(running@[m].0@ == dead@[k]@);
                        } else {
                            assert(running@[i as int].0@ == dead@[k]@);
                        }
                    }
                }
            }
            i = i + 1;
        }
        proof {
            assert forall|t: Seq<char>|
                #[trigger] views(dead@).contains(t) <==> (self.status(t) is Running
                    && !live_pids@.contains(self.status(t)->Running_0.main_pid)) by {
                if views(dead@).contains(t) {
                    let k = choose|k: int| 0 <= k < views(dead@).len() && views(dead@)[k] == t;
                    assert(views(dead@)[k] == dead@[k]@);
                    assert(dead_among(running@, i as int, live_pids@, dead@[k]@));
                    let m = choose|m: int|
                        0 <= m < i && #[trigger] running@[m].0@ == dead@[k]@
                            && !live_pids@.contains(running@[m].1.main_pid);
                    assert(self.status(running@[m].0@) == LaunchStatus::Running(running@[m].1));
                }
                if self.status(t) is Running && !live_pids@.contains(
                    self.status(t)->Running_0.main_pid,
                ) {
                    let m = choose|m: int| 0 <= m < running@.len() && #[trigger] running@[m].0@ == t;
                    assert(self.status(running@[m].0@) == LaunchStatus::Running(running@[m].1));
                }
            }
        }
        let ghost start = *self;
        let mut j: usize = 0;
        while j < dead.len()
            invariant
                self.wf(),
                j <= dead@.len(),
                forall|t: Seq<char>|
                    #[trigger] self.status(t) == (if views(dead@.subrange(0, j as int)).contains(t) {
                        LaunchStatus::NotRunning
                    } else {
                        start.status(t)
                    }),
                self.table() == without_all(start.table(), views(dead@.subrange(0, j as int))),
                self.recent_titles() == start.recent_titles(),
            decreases dead@.len() - j,
        {
            let ghost pre = views(dead@.subrange(0, j as int));
            let ghost next = views(dead@.subrange(0, j + 1));
            assert(next == pre.push(dead@[j as int]@));
            assert(next.drop_last() == pre);
            let ghost before = *self;
            self.on_process_exited(dead[j].as_str());
            proof {
                assert forall|t: Seq<char>|
                    #[trigger] self.status(t) == (if next.contains(t) {
                        LaunchStatus::NotRunning
                    } else {
                        start.status(t)
                    }) by {
                    if t == dead@[j as int]@ {
                        assert(next[j as int] == t);
                    } else {
                        assert(before.status(t) == self.status(t));
                        if pre.contains(t) {
                            let k = choose|k: int| 0 <= k < pre.len() && pre[k] == t;
                            assert(next[k] == t);
                        }
                        if next.contains(t) {
                            let k = choose|k: int| 0 <= k < next.len() && next[k] == t;
                            assert(pre[k] == t);
                        }
                    }
                }
            }
            j = j + 1;
        }
        assert(dead@.subrange(0, dead@.len() as int) == dead@);
        proof {
            lemma_without_all_removes(start.table(), views(dead@));
        }
        dead
    }

    /// The periodic sweep: asks the system which tracked processes are alive
    /// and reports the running titles whose process is gone; those are no
    /// longer running and leave the table.
    pub fn check_processes(&mut self) -> (r: Vec<String>)
        requires
            old(self).wf(),
        ensures
            final(self).wf(),
            forall|t: Seq<char>| #[trigger] views(r@).contains(t) ==> old(self).status(t) is Running,
            forall|t: Seq<char>|
                #[trigger] final(self).status(t) == (if views(r@).contains(t) {
                    LaunchStatus::NotRunning
                } else {
                    old(self).status(t)
                }),
            final(self).table() == without_all(old(self).table(), views(r@)),
            forall|t: Seq<char>| #[trigger] views(r@).contains(t) ==> !has_title(final(self).table(), t),
            final(self).recent_titles() == old(self).recent_titles(),
            forall|a: int, b: int|
                0 <= a < b < r@.len() ==> #[trigger] r@[a]@ != #[trigger] r@[b]@,
    {
        let running = self.get_running_games();
        let mut live: Vec<u32> = Vec::new();
        let mut i: usize = 0;
        while i < running.len()
            invariant
                i <= running@.len(),
            decreases running@.len() - i,
        {
            let pid = running[i].1.main_pid;
            if GameLauncher::is_process_running(pid) {
                live.push(pid);
            }
            i = i + 1;
        }
        self.check_processes_with(&live)
    }

    /// The running titles with their processes.
    pub fn get_running_games(&self) -> (r: Vec<(String, GameProcess)>)
        requires
            self.wf(),
        ensures
            forall|i: int|
                0 <= i < r@.len() ==> self.status(#[trigger] r@[i].0@) == LaunchStatus::Running(
                    r@[i].1,
                ),
            forall|t: Seq<char>|
                #[trigger] self.status(t) is Running ==> exists|i: int|
                    0 <= i < r@.len() && #[trigger] r@[i].0@ == t,
            forall|i: int, j: int|
                0 <= i < r@.len() && 0 <= j < r@.len() && i != j ==> #[trigger] r@[i].0@
                    != #[trigger] r@[j].0@,
    {
        let mut out: Vec<(String, GameProcess)> = Vec::new();
        let mut i: usize = 0;
        while i < self.entries.len()
            invariant
                self.wf(),
                i <= self.entries@.len(),
                forall|k: int|
                    0 <= k < out@.len() ==> self.status(#[trigger] out@[k].0@)
                        == LaunchStatus::Running(out@[k].1),
                forall|k: int|
                    0 <= k < out@.len() ==> key_among(self.entries@, i as int, #[trigger] out@[k].0@),
                forall|m: int|
                    0 <= m < i && (#[trigger] self.entries@[m]).1 is Running ==> exists|k: int|
                        0 <= k < out@.len() && #[trigger] out@[k].0@ == self.entries@[m].0@,
                forall|a: int, b: int|
                    0 <= a < out@.len() && 0 <= b < out@.len() && a != b ==> #[trigger] out@[a].0@
                        != #[trigger] out@[b].0@,
            decreases self.entries@.len() - i,
        {
            proof {
                lemma_lookup_entry(self.entries@, i as int);
            }
            match &self.entries[i].1 {
                LaunchStatus::Running(p) => {
                    let ghost o0 = out@;
                    out.push((self.entries[i].0.clone(), p.copy()));
                    proof {
                        assert forall|k: int| 0 <= k < out@.len() implies key_among(
                            self.entries@,
                            i + 1,
                            #[trigger] out@[k].0@,
                        ) by {
                            if k < o0.len() {
                                assert(out@[k] == o0[k]);
                                assert(key_among(self.entries@, i as int, o0[k].0@));
                                let m0 = choose|m: int|
                                    0 <= m < i && #[trigger] self.entries@[m].0@ == o0[k].0@;
                                assert(self.entries@[m0].0@ == out@[k].0@);
                            } else {
                                assert(self.entries@[i as int].0@ == out@[k].0@);
                            }
                        }
                        assert forall|m: int|
                            0 <= m < i + 1 && (#[trigger] self.entries@[m]).1 is Running implies exists|k: int|
                            0 <= k < out@.len() && #[trigger] out@[k].0@ == self.entries@[m].0@ by {
                            if m < i {
                                let k0 = choose|k: int|
                                    0 <= k < o0.len() && #[trigger] o0[k].0@ == self.entries@[m].0@;
                                assert(out@[k0] == o0[k0]);
                            } else {
                                assert(out@[o0.len() as int].0@ == self.entries@[m].0@);
                            }
                        }
                        assert forall|a: int, b: int|
                            0 <= a < out@.len() && 0 <= b < out@.len() && a != b implies #[trigger] out@[a].0@
                            != #[trigger] out@[b].0@ by {
                            if a < o0.len() && b < o0.len() {
                                assert(out@[a] == o0[a] && out@[b] == o0[b]);
                            } else if a < o0.len() {
                                assert(out@[a] == o0[a]);
                                assert(key_among(self.entries@, i as int, o0[a].0@));
                                let m0 = choose|m: int|
                                    0 <= m < i && #[trigger] self.entries@[m].0@ == o0[a].0@;
                                assert(self.entries@[m0].0@ != self.entries@[i as int].0@);
                            } else if b < o0.len() {
                                assert(out@[b] == o0[b]);
                                assert(key_among(self.entries@, i as int, o0[b].0@));
                                let m0 = choose|m: int|
                                    0 <= m < i && #[trigger] self.entries@[m].0@ == o0[b].0@;
                                assert(self.entries@[m0].0@ != self.entries@[i as int].0@);
                            }
                        }
                        assert forall|k: int| 0 <= k < out@.len() implies self.status(
                            #[trigger] out@[k].0@,
                        ) == LaunchStatus::Running(out@[k].1) by {
                            if k < o0.len() {
                                assert(out@[k] == o0[k]);
                            }
                        }
                    }
                },
                _ => {},
            }
            i = i + 1;
        }
        proof {
            assert forall|t: Seq<char>| #[trigger] self.status(t) is Running implies exists|i: int|
                0 <= i < out@.len() && #[trigger] out@[i].0@ == t by {
                if forall|m: int| 0 <= m < self.entries@.len() ==> #[trigger] self.entries@[m].0@ != t {
                    lemma_lookup_absent(self.entries@, t);
                } else {
                    let m = choose|m: int|
                        0 <= m < self.entries@.len() && #[trigger] self.entries@[m].0@ == t;
                    lemma_lookup_entry(self.entries@, m);
                    assert(self.entries@[m].1 is Running);
                }
            }
        }
        out
    }
}

/// A launch requested for a title that is not running, and then failing
/// with a non-empty message, leaves the title in error with that message and
/// the table as it was.
pub proof fn lemma_failed_launch(
    c0: GameLaunchController,
    c1: GameLaunchController,
    c2: GameLaunchController,
    t: Seq<char>,
    accepted: bool,
    message: String,
)
    requires
        c0.status(t) is NotRunning,
        message@.len() > 0,
        GameLaunchController::launch_requested(c0, c1, t, accepted),
        GameLaunchController::launch_failed_step(c1, c2, t, message),
    ensures
        accepted,
        c1.status(t) is Launching,
        c2.status(t) == LaunchStatus::Error(message),
        c2.status(t)->Error_0@.len() > 0,
        c2.table() == c0.table(),
        has_title(c2.table(), t) == has_title(c0.table(), t),
{
}

/// A launch requested for a title that is not running, and then succeeding
/// with process `p`, leaves the title running as `p`, with `p` the one record
/// of that title in the table.
pub proof fn lemma_successful_launch(
    c0: GameLaunchController,
    c1: GameLaunchController,
    c2: GameLaunchController,
    accepted: bool,
    p: GameProcess,
)
    requires
        c0.status(p.game_title@) is NotRunning,
        GameLaunchController::launch_requested(c0, c1, p.game_title@, accepted),
        GameLaunchController::launch_succeeded_step(c1, c2, p),
    ensures
        accepted,
        c2.status(p.game_title@) == LaunchStatus::Running(p),
        c2.table().last() == p,
        has_title(c2.table(), p.game_title@),
        forall|i: int|
            0 <= i < c2.table().len() - 1 ==> #[trigger] c2.table()[i].game_title@ != p.game_title@,
{
    let u = c2.table();
    crate::registry::lemma_without_members(c1.table(), p.game_title@);
    assert(u[u.len() - 1].game_title@ == p.game_title@);
    assert forall|i: int| 0 <= i < u.len() - 1 implies #[trigger] u[i].game_title@ != p.game_title@ by {
        assert(u[i] == without(c1.table(), p.game_title@)[i]);
    }
}

/// After the titles `ts` are removed from a table, no record of the table
/// carries any of them.
pub proof fn lemma_without_all_removes(s: Seq<GameProcess>, ts: Seq<Seq<char>>)
    ensures
        forall|t: Seq<char>| #[trigger] ts.contains(t) ==> !has_title(without_all(s, ts), t),
    decreases ts.len(),
{
    if ts.len() > 0 {
        let d = ts.drop_last();
        lemma_without_all_removes(s, d);
        let w = without_all(s, d);
        crate::registry::lemma_without_members(w, ts.last());
        assert forall|t: Seq<char>| #[trigger] ts.contains(t) implies !has_title(without_all(s, ts), t) by {
            let u = without_all(s, ts);
            if t != ts.last() {
                let k = choose|k: int| 0 <= k < ts.len() && ts[k] == t;
                assert(d[k] == t);
                assert(d.contains(t));
                if has_title(u, t) {
                    let j = choose|j: int| 0 <= j < u.len() && #[trigger] u[j].game_title@ == t;
                    assert(u[j].game_title@ != ts.last());
                    assert(w.contains(u[j]));
                    let m = choose|m: int| 0 <= m < w.len() && w[m] == u[j];
                    assert(w[m].game_title@ == t);
                    assert(has_title(w, t));
                }
            } else {
                if has_title(u, t) {
                    let j = choose|j: int| 0 <= j < u.len() && #[trigger] u[j].game_title@ == t;
                    assert(u[j].game_title@ != ts.last());
                }
            }
        }
    }
}

} // verus!
