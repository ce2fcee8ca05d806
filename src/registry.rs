//! The table of running games, one record per title, that the launcher keeps
//! on disk so that it outlives the application.
use vstd::prelude::*;

use crate::launcher::GameProcess;
use crate::text::same_text;

verus! {

/// `s` without the records titled `t`, in their order.
pub open spec fn without(s: Seq<GameProcess>, t: Seq<char>) -> Seq<GameProcess>
    decreases s.len(),
{
    if s.len() == 0 {
        s
    } else if s.last().game_title@ == t {
        without(s.drop_last(), t)
    } else {
        without(s.drop_last(), t).push(s.last())
    }
}

/// No two records of `s` share a title.
pub open spec fn titles_unique(s: Seq<GameProcess>) -> bool {
    forall|i: int, j: int|
        0 <= i < s.len() && 0 <= j < s.len() && i != j ==> #[trigger] s[i].game_title@
            != #[trigger] s[j].game_title@
}

/// Whether some record of `s` is titled `t`.
pub open spec fn has_title(s: Seq<GameProcess>, t: Seq<char>) -> bool {
    exists|j: int| 0 <= j < s.len() && #[trigger] s[j].game_title@ == t
}

/// `s` with `r` in place of any record of the same title.
pub open spec fn upserted(s: Seq<GameProcess>, r: GameProcess) -> Seq<GameProcess> {
    without(s, r.game_title@).push(r)
}

/// Every record of `without(s, t)` is a record of `s` not titled `t`.
pub proof fn lemma_without_members(s: Seq<GameProcess>, t: Seq<char>)
    ensures
        without(s, t).len() <= s.len(),
        forall|i: int|
            0 <= i < without(s, t).len() ==> #[trigger] without(s, t)[i].game_title@ != t
                && s.contains(without(s, t)[i]),
    decreases s.len(),
{
    if s.len() > 0 {
        let d = s.drop_last();
        lemma_without_members(d, t);
        assert forall|i: int| 0 <= i < without(s, t).len() implies #[trigger] without(
            s,
            t,
        )[i].game_title@ != t && s.contains(without(s, t)[i]) by {
            if s.last().game_title@ != t && i == without(s, t).len() - 1 {
                assert(s[s.len() - 1] == without(s, t)[i]);
            } else {
                let x = without(d, t)[i];
                assert(without(s, t)[i] == x);
                assert(without(d, t)[i].game_title@ != t);
                assert(d.contains(x));
                let j = choose|j: int| 0 <= j < d.len() && d[j] == x;
                assert(s[j] == x);
            }
        }
    }
}

/// Removing a title keeps titles unique.
pub proof fn lemma_without_unique(s: Seq<GameProcess>, t: Seq<char>)
    requires
        titles_unique(s),
    ensures
        titles_unique(without(s, t)),
    decreases s.len(),
{
    if s.len() > 0 {
        let d = s.drop_last();
        assert(titles_unique(d)) by {
            assert forall|i: int, j: int|
                0 <= i < d.len() && 0 <= j < d.len() && i != j implies #[trigger] d[i].game_title@
                != #[trigger] d[j].game_title@ by {
                assert(d[i] == s[i] && d[j] == s[j]);
            }
        }
        lemma_without_unique(d, t);
        lemma_without_members(d, t);
        if s.last().game_title@ != t {
            let w = without(d, t);
            let ws = w.push(s.last());
            assert forall|i: int, j: int|
                0 <= i < ws.len() && 0 <= j < ws.len() && i != j implies #[trigger] ws[i].game_title@
                != #[trigger] ws[j].game_title@ by {
                if i < w.len() && j < w.len() {
                    assert(ws[i] == w[i] && ws[j] == w[j]);
                } else if i < w.len() {
                    assert(w[i].game_title@ != t);
                    assert(d.contains(w[i]));
                    let k = choose|k: int| 0 <= k < d.len() && d[k] == w[i];
                    assert(s[k] == w[i]);
                    assert(s[s.len() - 1] == ws[j]);
                    assert(ws[i] == w[i]);
                } else if j < w.len() {
                    assert(w[j].game_title@ != t);
                    assert(d.contains(w[j]));
                    let k = choose|k: int| 0 <= k < d.len() && d[k] == w[j];
                    assert(s[k] == w[j]);
                    assert(s[s.len() - 1] == ws[i]);
                    assert(ws[j] == w[j]);
                }
            }
        }
    }
}

/// Replacing by title keeps titles unique.
pub proof fn lemma_upserted_unique(s: Seq<GameProcess>, r: GameProcess)
    requires
        titles_unique(s),
    ensures
        titles_unique(upserted(s, r)),
{
    let t = r.game_title@;
    lemma_without_unique(s, t);
    lemma_without_members(s, t);
    let w = without(s, t);
    let u = w.push(r);
    assert forall|i: int, j: int|
        0 <= i < u.len() && 0 <= j < u.len() && i != j implies #[trigger] u[i].game_title@
        != #[trigger] u[j].game_title@ by {
        if i < w.len() && j < w.len() {
            assert(u[i] == w[i] && u[j] == w[j]);
        } else if i < w.len() {
            assert(u[i] == w[i]);
            assert(w[i].game_title@ != t);
        } else if j < w.len() {
            assert(u[j] == w[j]);
            assert(w[j].game_title@ != t);
        }
    }
}

/// Two replacements under one title leave exactly one record of that title,
/// the later one; the records of other titles stay as they were.
pub proof fn lemma_upsert_twice(s: Seq<GameProcess>, a: GameProcess, b: GameProcess)
    requires
        a.game_title@ == b.game_title@,
    ensures
        ({
            let u = upserted(upserted(s, a), b);
            &&& u.last() == b
            &&& forall|i: int| 0 <= i < u.len() - 1 ==> #[trigger] u[i].game_title@ != b.game_title@
            &&& u.drop_last() == without(s, b.game_title@)
        }),
{
    let t = b.game_title@;
    lemma_without_idempotent(s, t);
    let u = upserted(upserted(s, a), b);
    let wa = without(s, t).push(a);
    assert(wa.drop_last() == without(s, t));
    assert(wa.last() == a);
    assert(without(wa, t) == without(without(s, t), t));
    lemma_without_members(s, t);
    assert forall|i: int| 0 <= i < u.len() - 1 implies #[trigger] u[i].game_title@ != t by {
        assert(u[i] == without(s, t)[i]);
    }
}

/// Removing a title twice is removing it once.
pub proof fn lemma_without_idempotent(s: Seq<GameProcess>, t: Seq<char>)
    ensures
        without(without(s, t), t) == without(s, t),
    decreases s.len(),
{
    if s.len() > 0 {
        lemma_without_idempotent(s.drop_last(), t);
        let w = without(s.drop_last(), t);
        if s.last().game_title@ != t {
            assert(w.push(s.last()).drop_last() == w);
        }
    }
}

/// The persisted table of running games: one record per title.
pub struct ProcessRegistry {
    records: Vec<GameProcess>,
}

impl View for ProcessRegistry {
    type V = Seq<GameProcess>;

    closed spec fn view(&self) -> Seq<GameProcess> {
        self.records@
    }
}

/// `s` without the records titled `t`.
fn filter_out(s: &Vec<GameProcess>, t: &str) -> (r: Vec<GameProcess>)
    ensures
        r@ == without(s@, t@),
{
    let mut out: Vec<GameProcess> = Vec::new();
    let mut i: usize = 0;
    while i < s.len()
        invariant
            i <= s@.len(),
            out@ == without(s@.subrange(0, i as int), t@),
        decreases s@.len() - i,
    {
        let ghost pre = s@.subrange(0, i as int);
        assert(s@.subrange(0, i + 1).drop_last() == pre);
        if !same_text(s[i].game_title.as_str(), t) {
            out.push(s[i].copy());
        }
        i = i + 1;
    }
    assert(s@.subrange(0, s@.len() as int) == s@);
    out
}

impl ProcessRegistry {
    /// Well-formed: no two records share a title.
    pub open spec fn wf(&self) -> bool {
        titles_unique(self@)
    }

    /// An empty table.
    pub fn new() -> (r: Self)
        ensures
            r.wf(),
            r@ == Seq::<GameProcess>::empty(),
    {
        ProcessRegistry { records: Vec::new() }
    }

    /// The table as read from storage. Where a title occurs more than once
    /// the later record wins.
    pub fn from_records(records: Vec<GameProcess>) -> (r: Self)
        ensures
            r.wf(),
            forall|i: int| 0 <= i < r@.len() ==> records@.contains(#[trigger] r@[i]),
            forall|i: int|
                0 <= i < records@.len() ==> has_title(r@, #[trigger] records@[i].game_title@),
            titles_unique(records@) ==> r@ == records@,
    {
        let mut reg = ProcessRegistry::new();
        let mut i: usize = 0;
        while i < records.len()
            invariant
                i <= records@.len(),
                reg.wf(),
                forall|k: int| 0 <= k < reg@.len() ==> records@.contains(#[trigger] reg@[k]),
                forall|k: int| 0 <= k < i ==> has_title(reg@, #[trigger] records@[k].game_title@),
                titles_unique(records@) ==> reg@ == records@.subrange(0, i as int),
            decreases records@.len() - i,
        {
            let ghost before = reg@;
            let rec = records[i].copy();
            proof {
                if titles_unique(records@) {
                    assert forall|k: int| 0 <= k < before.len() implies #[trigger] before[k].game_title@
                        != records@[i as int].game_title@ by {
                        assert(before[k] == records@[k]);
                    }
                    lemma_without_absent(before, records@[i as int].game_title@);
                    assert(records@.subrange(0, i + 1) == before.push(records@[i as int]));
                }
            }
            reg.upsert(rec);
            proof {
                lemma_without_members(before, records@[i as int].game_title@);
                let w = without(before, records@[i as int].game_title@);
                assert forall|k: int| 0 <= k < reg@.len() implies records@.contains(
                    #[trigger] reg@[k],
                ) by {
                    if k < w.len() {
                        assert(reg@[k] == w[k]);
                        assert(w[k].game_title@ != records@[i as int].game_title@);
                        assert(before.contains(w[k]));
                        let m = choose|m: int| 0 <= m < before.len() && before[m] == w[k];
                        assert(records@.contains(before[m]));
                    } else {
                        assert(reg@[k] == records@[i as int]);
                    }
                }
                assert forall|k: int| 0 <= k < i + 1 implies has_title(
                    reg@,
                    #[trigger] records@[k].game_title@,
                ) by {
                    if k == i {
                        assert(reg@[reg@.len() - 1].game_title@ == records@[k].game_title@);
                    } else {
                        let j0 = choose|j: int|
                            0 <= j < before.len() && #[trigger] before[j].game_title@
                                == records@[k].game_title@;
                        if before[j0].game_title@ == records@[i as int].game_title@ {
                            assert(reg@[reg@.len() - 1].game_title@ == records@[k].game_title@);
                        } else {
                            lemma_without_keeps(before, records@[i as int].game_title@, j0);
                            let m = choose|m: int|
                                0 <= m < w.len() && w[m] == before[j0];
                            assert(reg@[m] == w[m]);
                        }
                    }
                }
            }
            i = i + 1;
        }
        assert(records@.subrange(0, records@.len() as int) == records@);
        reg
    }

    /// The records, in their order.
    pub fn records(&self) -> (r: &Vec<GameProcess>)
        ensures
            r@ == self@,
    {
        &self.records
    }

    /// The record of title `title`, if any.
    pub fn find(&self, title: &str) -> (r: Option<GameProcess>)
        requires
            self.wf(),
        ensures
            r is Some <==> has_title(self@, title@),
            r is Some ==> self@.contains(r->0) && r->0.game_title@ == title@,
    {
        let mut i: usize = 0;
        while i < self.records.len()
            invariant
                i <= self@.len(),
                forall|k: int| 0 <= k < i ==> #[trigger] self@[k].game_title@ != title@,
            decreases self@.len() - i,
        {
            if same_text(self.records[i].game_title.as_str(), title) {
                return Some(self.records[i].copy());
            }
            i = i + 1;
        }
        None
    }

    /// Stores `record`, replacing any record of the same title.
    pub fn upsert(&mut self, record: GameProcess)
        requires
            old(self).wf(),
        ensures
            final(self).wf(),
            final(self)@ == upserted(old(self)@, record),
    {
        let mut kept = filter_out(&self.records, record.game_title.as_str());
        proof {
            lemma_upserted_unique(self@, record);
        }
        kept.push(record);
        self.records = kept;
    }

    /// Drops the record of title `title`, if any.
    pub fn remove(&mut self, title: &str)
        requires
            old(self).wf(),
        ensures
            final(self).wf(),
            final(self)@ == without(old(self)@, title@),
    {
        proof {
            lemma_without_unique(self@, title@);
        }
        self.records = filter_out(&self.records, title);
    }
}

/// Removing a title that no record has changes nothing.
pub proof fn lemma_without_absent(s: Seq<GameProcess>, t: Seq<char>)
    requires
        forall|k: int| 0 <= k < s.len() ==> #[trigger] s[k].game_title@ != t,
    ensures
        without(s, t) == s,
    decreases s.len(),
{
    if s.len() > 0 {
        let d = s.drop_last();
        assert forall|k: int| 0 <= k < d.len() implies #[trigger] d[k].game_title@ != t by {
            assert(d[k] == s[k]);
        }
        assert(s[s.len() - 1].game_title@ != t);
        lemma_without_absent(d, t);
        assert(d.push(s.last()) == s);
    }
}

/// A record not titled `t` survives removal of `t`.
pub proof fn lemma_without_keeps(s: Seq<GameProcess>, t: Seq<char>, j: int)
    requires
        0 <= j < s.len(),
        s[j].game_title@ != t,
    ensures
        without(s, t).contains(s[j]),
    decreases s.len(),
{
    let d = s.drop_last();
    if j == s.len() - 1 {
        assert(without(s, t)[without(s, t).len() - 1] == s[j]);
    } else {
        assert(d[j] == s[j]);
        lemma_without_keeps(d, t, j);
        let m = choose|m: int| 0 <= m < without(d, t).len() && without(d, t)[m] == s[j];
        if s.last().game_title@ != t {
            assert(without(s, t)[m] == s[j]);
        }
    }
}

} // verus!
