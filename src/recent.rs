//! The list of recently launched titles: most recent first, no title twice,
//! at most ten entries.
use vstd::prelude::*;

use crate::paths::{split_at_char, split_text};
use crate::text::{append, owned, push_char, same_text, trim, trim_text, views};

verus! {

/// How many titles the list keeps.
pub const RECENT_CAP: usize = 10;

/// `l` without the entries equal to `t`, in their order.
pub open spec fn drop_text(l: Seq<Seq<char>>, t: Seq<char>) -> Seq<Seq<char>>
    decreases l.len(),
{
    if l.len() == 0 {
        l
    } else if l.last() == t {
        drop_text(l.drop_last(), t)
    } else {
        drop_text(l.drop_last(), t).push(l.last())
    }
}

/// At most the first ten entries of `l`.
pub open spec fn capped(l: Seq<Seq<char>>) -> Seq<Seq<char>> {
    if l.len() > 10 {
        l.take(10)
    } else {
        l
    }
}

/// The list after launching `t`: `t` in front, its older entry removed,
/// and the list cut to ten entries.
pub open spec fn pushed_recent(l: Seq<Seq<char>>, t: Seq<char>) -> Seq<Seq<char>> {
    capped(seq![t] + drop_text(l, t))
}

/// No entry of `l` occurs twice.
pub open spec fn no_dups(l: Seq<Seq<char>>) -> bool {
    forall|i: int, j: int| 0 <= i < l.len() && 0 <= j < l.len() && i != j ==> l[i] != l[j]
}

/// The entries of a saved list: its lines, each trimmed, as `str::lines`
/// yields them (no last empty piece after a final newline).
pub open spec fn parsed_recent(content: Seq<char>) -> Seq<Seq<char>> {
    let pieces = split_at_char(content, '\n');
    let lines = if pieces.last().len() == 0 {
        pieces.drop_last()
    } else {
        pieces
    };
    lines.map_values(|l: Seq<char>| trim(l))
}

/// The saved text of a list: each entry followed by a newline, with at
/// least the one newline of an empty list.
pub open spec fn rendered_recent(l: Seq<Seq<char>>) -> Seq<char>
    decreases l.len(),
{
    if l.len() == 0 {
        seq!['\n']
    } else if l.len() == 1 {
        l[0] + seq!['\n']
    } else {
        rendered_recent(l.drop_last()).drop_last() + seq!['\n'] + l.last() + seq!['\n']
    }
}

/// Members of `drop_text(l, t)` are the members of `l` other than `t`.
pub proof fn lemma_drop_text_members(l: Seq<Seq<char>>, t: Seq<char>)
    ensures
        forall|x: Seq<char>| #[trigger] drop_text(l, t).contains(x) <==> (l.contains(x) && x != t),
        drop_text(l, t).len() <= l.len(),
        l.contains(t) ==> drop_text(l, t).len() < l.len(),
        !l.contains(t) ==> drop_text(l, t) == l,
    decreases l.len(),
{
    if l.len() > 0 {
        let d = l.drop_last();
        lemma_drop_text_members(d, t);
        let w = drop_text(d, t);
        assert forall|x: Seq<char>| #[trigger] drop_text(l, t).contains(x) <==> (l.contains(x) && x
            != t) by {
            if drop_text(l, t).contains(x) {
                let k = choose|k: int| 0 <= k < drop_text(l, t).len() && drop_text(l, t)[k] == x;
                if l.last() != t && k == w.len() {
                    assert(l[l.len() - 1] == x);
                } else {
                    assert(w[k] == x);
                    assert(w.contains(x));
                    let m = choose|m: int| 0 <= m < d.len() && d[m] == x;
                    assert(l[m] == x);
                }
            }
            if l.contains(x) && x != t {
                let k = choose|k: int| 0 <= k < l.len() && l[k] == x;
                if k == l.len() - 1 {
                    assert(drop_text(l, t)[drop_text(l, t).len() - 1] == x);
                } else {
                    assert(d[k] == x);
                    assert(d.contains(x));
                    assert(w.contains(x));
                    let m = choose|m: int| 0 <= m < w.len() && w[m] == x;
                    assert(drop_text(l, t)[m] == x);
                }
            }
        }
        if l.contains(t) && l.last() != t {
            let k = choose|k: int| 0 <= k < l.len() && l[k] == t;
            assert(d[k] == t);
        }
        if !l.contains(t) {
            assert(!d.contains(t)) by {
                if d.contains(t) {
                    let k = choose|k: int| 0 <= k < d.len() && d[k] == t;
                    assert(l[k] == t);
                }
            }
            assert(l.last() != t) by {
                assert(l[l.len() - 1] == l.last());
            }
            assert(d.push(l.last()) == l);
        }
    }
}

/// Dropping an entry keeps the entries distinct.
pub proof fn lemma_drop_text_no_dups(l: Seq<Seq<char>>, t: Seq<char>)
    requires
        no_dups(l),
    ensures
        no_dups(drop_text(l, t)),
    decreases l.len(),
{
    if l.len() > 0 {
        let d = l.drop_last();
        assert(no_dups(d)) by {
            assert forall|i: int, j: int| 0 <= i < d.len() && 0 <= j < d.len() && i != j implies d[i]
                != d[j] by {
                assert(d[i] == l[i] && d[j] == l[j]);
            }
        }
        lemma_drop_text_no_dups(d, t);
        lemma_drop_text_members(d, t);
        if l.last() != t {
            let w = drop_text(d, t);
            assert(!d.contains(l.last())) by {
                if d.contains(l.last()) {
                    let k = choose|k: int| 0 <= k < d.len() && d[k] == l.last();
                    assert(l[k] == l[l.len() - 1]);
                }
            }
            assert(!w.contains(l.last()));
            let ws = w.push(l.last());
            assert forall|i: int, j: int| 0 <= i < ws.len() && 0 <= j < ws.len() && i != j implies ws[i]
                != ws[j] by {
                if i < w.len() && j < w.len() {
                    assert(ws[i] == w[i] && ws[j] == w[j]);
                } else if i < w.len() {
                    assert(ws[i] == w[i]);
                    assert(w.contains(w[i]));
                } else if j < w.len() {
                    assert(ws[j] == w[j]);
                    assert(w.contains(w[j]));
                }
            }
        }
    }
}

/// Launching `t` puts it first, never lists a title twice and keeps at most
/// ten entries. A title that was listed moves to the front and every other
/// entry stays; a new title on a full list evicts the oldest entry.
pub proof fn lemma_recent_push(l: Seq<Seq<char>>, t: Seq<char>)
    requires
        no_dups(l),
        l.len() <= 10,
    ensures
        pushed_recent(l, t).len() >= 1,
        pushed_recent(l, t)[0] == t,
        pushed_recent(l, t).len() <= 10,
        no_dups(pushed_recent(l, t)),
        l.contains(t) ==> forall|x: Seq<char>|
            #[trigger] l.contains(x) ==> pushed_recent(l, t).contains(x),
        l.contains(t) ==> pushed_recent(l, t).len() == l.len(),
        !l.contains(t) && l.len() == 10 ==> pushed_recent(l, t) == seq![t] + l.take(9),
        !l.contains(t) && l.len() < 10 ==> pushed_recent(l, t) == seq![t] + l,
{
    lemma_drop_text_members(l, t);
    lemma_drop_text_no_dups(l, t);
    let w = drop_text(l, t);
    let full = seq![t] + w;
    assert(full[0] == t);
    assert(!w.contains(t));
    assert(no_dups(full)) by {
        assert forall|i: int, j: int| 0 <= i < full.len() && 0 <= j < full.len() && i != j implies full[i]
            != full[j] by {
            if i > 0 && j > 0 {
                assert(full[i] == w[i - 1] && full[j] == w[j - 1]);
            } else if i > 0 {
                assert(full[i] == w[i - 1]);
                assert(w.contains(w[i - 1]));
            } else {
                assert(full[j] == w[j - 1]);
                assert(w.contains(w[j - 1]));
            }
        }
    }
    let r = pushed_recent(l, t);
    if full.len() > 10 {
        assert(no_dups(r)) by {
            assert forall|i: int, j: int| 0 <= i < r.len() && 0 <= j < r.len() && i != j implies r[i]
                != r[j] by {
                assert(r[i] == full[i] && r[j] == full[j]);
            }
        }
    }
    if l.contains(t) {
        assert(full.len() <= 10);
        lemma_no_dups_len(l, t);
        assert forall|x: Seq<char>| #[trigger] l.contains(x) implies r.contains(x) by {
            if x == t {
                assert(r[0] == x);
            } else {
                assert(w.contains(x));
                let k = choose|k: int| 0 <= k < w.len() && w[k] == x;
                assert(r[k + 1] == x);
            }
        }
    }
    if !l.contains(t) && l.len() == 10 {
        assert(r =~= seq![t] + l.take(9));
    }
    if !l.contains(t) && l.len() < 10 {
        assert(r =~= seq![t] + l);
    }
}

/// Dropping an entry that occurs once shortens a list by exactly one.
pub proof fn lemma_no_dups_len(l: Seq<Seq<char>>, t: Seq<char>)
    requires
        no_dups(l),
        l.contains(t),
    ensures
        drop_text(l, t).len() == l.len() - 1,
    decreases l.len(),
{
    let d = l.drop_last();
    if l.last() == t {
        assert(!d.contains(t)) by {
            if d.contains(t) {
                let k = choose|k: int| 0 <= k < d.len() && d[k] == t;
                assert(l[k] == l[l.len() - 1]);
            }
        }
        lemma_drop_text_members(d, t);
    } else {
        let k = choose|k: int| 0 <= k < l.len() && l[k] == t;
        assert(d[k] == t);
        assert(no_dups(d)) by {
            assert forall|i: int, j: int| 0 <= i < d.len() && 0 <= j < d.len() && i != j implies d[i]
                != d[j] by {
                assert(d[i] == l[i] && d[j] == l[j]);
            }
        }
        lemma_no_dups_len(d, t);
    }
}

/// The list after launching `title`.
pub fn push_recent(list: &Vec<String>, title: &str) -> (r: Vec<String>)
    ensures
        views(r@) == pushed_recent(views(list@), title@),
{
    let mut kept: Vec<String> = Vec::new();
    kept.push(owned(title));
    let mut i: usize = 0;
    while i < list.len()
        invariant
            i <= list@.len(),
            views(kept@) == seq![title@] + drop_text(views(list@.subrange(0, i as int)), title@),
        decreases list@.len() - i,
    {
        let ghost pre = views(list@.subrange(0, i as int));
        assert(views(list@.subrange(0, i + 1)) == pre.push(list@[i as int]@));
        assert(views(list@.subrange(0, i + 1)).drop_last() == pre);
        if !same_text(list[i].as_str(), title) {
            let ghost k0 = kept@;
            kept.push(list[i].clone());
            assert(views(kept@) == views(k0).push(list@[i as int]@));
        }
        i = i + 1;
    }
    assert(list@.subrange(0, list@.len() as int) == list@);
    if kept.len() > RECENT_CAP {
        let ghost k0 = kept@;
        kept.truncate(RECENT_CAP);
        assert(views(kept@) =~= views(k0).take(10));
    }
    kept
}

/// The entries of a saved list.
pub fn parse_recent(content: &str) -> (r: Vec<String>)
    ensures
        views(r@) == parsed_recent(content@),
{
    let pieces = split_text(content, '\n');
    let n = pieces.len();
    let ghost ps = split_at_char(content@, '\n');
    let count = if pieces[n - 1].as_str().unicode_len() == 0 {
        n - 1
    } else {
        n
    };
    assert(pieces@[n - 1]@ == ps.last());
    let ghost lines = if ps.last().len() == 0 {
        ps.drop_last()
    } else {
        ps
    };
    let mut out: Vec<String> = Vec::new();
    let mut i: usize = 0;
    while i < count
        invariant
            count <= n,
            n == pieces@.len(),
            views(pieces@) == ps,
            lines.len() == count,
            forall|k: int| 0 <= k < count ==> lines[k] == ps[k],
            i <= count,
            out@.len() == i,
            forall|k: int| 0 <= k < i ==> #[trigger] out@[k]@ == trim(lines[k]),
        decreases count - i,
    {
        assert(pieces@[i as int]@ == ps[i as int]);
        let t = trim_text(pieces[i].as_str());
        out.push(t);
        i = i + 1;
    }
    assert(views(out@) =~= lines.map_values(|l: Seq<char>| trim(l)));
    out
}

/// The saved text of a list.
pub fn render_recent(list: &Vec<String>) -> (r: String)
    ensures
        r@ == rendered_recent(views(list@)),
{
    if list.len() == 0 {
        let mut r = String::new();
        push_char(&mut r, '\n');
        assert(r@ == seq!['\n']);
        return r;
    }
    let mut r = list[0].clone();
    assert(views(list@.subrange(0, 1)) == seq![list@[0]@]);
    let mut i: usize = 1;
    while i < list.len()
        invariant
            1 <= i <= list@.len(),
            r@ + seq!['\n'] == rendered_recent(views(list@.subrange(0, i as int))),
        decreases list@.len() - i,
    {
        let ghost r0 = r@;
        let ghost pre = views(list@.subrange(0, i as int));
        let ghost next = views(list@.subrange(0, i + 1));
        assert(next.drop_last() == pre);
        assert(next.last() == list@[i as int]@);
        assert((r0 + seq!['\n']).drop_last() == r0);
        push_char(&mut r, '\n');
        append(&mut r, list[i].as_str());
        assert(r@ + seq!['\n'] == rendered_recent(next));
        i = i + 1;
    }
    assert(list@.subrange(0, list@.len() as int) == list@);
    push_char(&mut r, '\n');
    r
}

/// The recent list after launching each title of `ts` in turn, from an
/// empty list.
pub open spec fn recent_after(ts: Seq<Seq<char>>) -> Seq<Seq<char>>
    decreases ts.len(),
{
    if ts.len() == 0 {
        seq![]
    } else {
        pushed_recent(recent_after(ts.drop_last()), ts.last())
    }
}

/// The titles of `ts`, latest first.
pub open spec fn newest_first(ts: Seq<Seq<char>>) -> Seq<Seq<char>>
    decreases ts.len(),
{
    if ts.len() == 0 {
        seq![]
    } else {
        seq![ts.last()] + newest_first(ts.drop_last())
    }
}

proof fn lemma_newest_first_members(ts: Seq<Seq<char>>, x: Seq<char>)
    ensures
        newest_first(ts).len() == ts.len(),
        newest_first(ts).contains(x) ==> ts.contains(x),
    decreases ts.len(),
{
    if ts.len() > 0 {
        let d = ts.drop_last();
        lemma_newest_first_members(d, x);
        let n = newest_first(ts);
        if n.contains(x) {
            let k = choose|k: int| 0 <= k < n.len() && n[k] == x;
            if k == 0 {
                assert(ts[ts.len() - 1] == x);
            } else {
                assert(newest_first(d)[k - 1] == x);
                assert(newest_first(d).contains(x));
                let m = choose|m: int| 0 <= m < d.len() && d[m] == x;
                assert(ts[m] == x);
            }
        }
    }
}

/// Launching distinct titles one after another from an empty list leaves
/// the latest ten, most recent first: after eleven launches the first title
/// is gone and the eleventh leads.
pub proof fn lemma_recent_after_distinct(ts: Seq<Seq<char>>)
    requires
        no_dups(ts),
    ensures
        recent_after(ts) == capped(newest_first(ts)),
        ts.len() >= 10 ==> recent_after(ts).len() == 10,
        ts.len() > 0 ==> recent_after(ts)[0] == ts.last(),
    decreases ts.len(),
{
    if ts.len() > 0 {
        let d = ts.drop_last();
        let t = ts.last();
        assert(no_dups(d)) by {
            assert forall|i: int, j: int| 0 <= i < d.len() && 0 <= j < d.len() && i != j implies d[i]
                != d[j] by {
                assert(d[i] == ts[i] && d[j] == ts[j]);
            }
        }
        lemma_recent_after_distinct(d);
        let nd = newest_first(d);
        let p = recent_after(d);
        lemma_newest_first_members(d, t);
        lemma_newest_first_members(ts, t);
        assert(!d.contains(t)) by {
            if d.contains(t) {
                let k = choose|k: int| 0 <= k < d.len() && d[k] == t;
                assert(ts[k] == ts[ts.len() - 1]);
            }
        }
        assert(!p.contains(t)) by {
            if p.contains(t) {
                let k = choose|k: int| 0 <= k < p.len() && p[k] == t;
                assert(nd[k] == t);
                assert(nd.contains(t));
            }
        }
        lemma_drop_text_members(p, t);
        assert(recent_after(ts) == capped(seq![t] + p));
        assert(newest_first(ts) == seq![t] + nd);
        assert(capped(seq![t] + capped(nd)) =~= capped(seq![t] + nd));
    }
}

} // verus!
