//! Proton releases: numeric-aware ordering of version names and the choice
//! of releases that the launcher offers.
use vstd::prelude::*;

use crate::text::{owned, push_char, starts_with, views};

verus! {

broadcast use vstd::seq_lib::group_to_multiset_ensures;

/// A release as the release service describes it.
pub struct ProtonRelease {
    pub tag_name: String,
    pub name: String,
    pub html_url: String,
    pub assets: Vec<ProtonAsset>,
}

/// A downloadable file of a release.
pub struct ProtonAsset {
    pub name: String,
    pub browser_download_url: String,
    pub size: u64,
}

/// A family of runners that can be downloaded.
pub struct ProtonConfig {
    pub label: String,
    pub dir: String,
    pub api: String,
    pub archive_ext: String,
}

/// The runner families that can be downloaded: GE-Proton, then Proton-EM.
pub fn proton_configs() -> (r: Vec<ProtonConfig>)
    ensures
        r@.len() == 2,
        r@[0].label@ == "GE-Proton"@,
        r@[1].label@ == "Proton-EM"@,
{
    let mut r: Vec<ProtonConfig> = Vec::new();
    r.push(
        ProtonConfig {
            label: owned("GE-Proton"),
            dir: owned("GE-Proton Latest"),
            api: owned("https://api.github.com/repos/GloriousEggroll/proton-ge-custom/releases"),
            archive_ext: owned(".tar.gz"),
        },
    );
    r.push(
        ProtonConfig {
            label: owned("Proton-EM"),
            dir: owned("Proton-EM Latest"),
            api: owned("https://api.github.com/repos/Etaash-mathamsetty/Proton/releases"),
            archive_ext: owned(".tar.xz"),
        },
    );
    r
}

/// A piece of a version name: a run of digits read as a number, or a run of
/// other characters.
#[derive(Debug)]
pub enum VersionPart {
    Number(u64),
    Text(String),
}

/// What a version piece stands for.
pub enum PartView {
    Num(nat),
    Txt(Seq<char>),
}

impl VersionPart {
    pub open spec fn view(&self) -> PartView {
        match self {
            VersionPart::Number(n) => PartView::Num(*n as nat),
            VersionPart::Text(s) => PartView::Txt(s@),
        }
    }
}

/// The views of version pieces.
pub open spec fn part_views(v: Seq<VersionPart>) -> Seq<PartView> {
    v.map_values(|p: VersionPart| p.view())
}

pub open spec fn is_digit(c: char) -> bool {
    '0' <= c && c <= '9'
}

/// The maximal runs of `s` whose characters are all digits or all not digits.
pub open spec fn runs(s: Seq<char>) -> Seq<Seq<char>>
    decreases s.len(),
{
    if s.len() == 0 {
        seq![]
    } else {
        let p = runs(s.drop_last());
        let c = s.last();
        if s.len() >= 2 && is_digit(s[s.len() - 2]) == is_digit(c) {
            p.drop_last().push(p.last().push(c))
        } else {
            p.push(seq![c])
        }
    }
}

/// The number a run of digits spells.
pub open spec fn digits_value(r: Seq<char>) -> nat
    decreases r.len(),
{
    if r.len() == 0 {
        0
    } else {
        digits_value(r.drop_last()) * 10 + ((r.last() as u32 - '0' as u32) as nat)
    }
}

/// The pieces of the runs `rs`; a number too large for 64 bits is left out.
pub open spec fn parts_of(rs: Seq<Seq<char>>) -> Seq<PartView>
    decreases rs.len(),
{
    if rs.len() == 0 {
        seq![]
    } else {
        let p = parts_of(rs.drop_last());
        let r = rs.last();
        if r.len() > 0 && is_digit(r[0]) {
            if digits_value(r) <= u64::MAX {
                p.push(PartView::Num(digits_value(r)))
            } else {
                p
            }
        } else {
            p.push(PartView::Txt(r))
        }
    }
}

/// The sort key of a version name.
pub open spec fn key_of(v: Seq<char>) -> Seq<PartView> {
    parts_of(runs(v))
}

/// Lexicographic order of texts by code point.
pub open spec fn text_lt(a: Seq<char>, b: Seq<char>) -> bool
    decreases a.len(),
{
    if a.len() == 0 {
        b.len() > 0
    } else if b.len() == 0 {
        false
    } else if a[0] != b[0] {
        (a[0] as u32) < (b[0] as u32)
    } else {
        text_lt(a.drop_first(), b.drop_first())
    }
}

/// Order of pieces: numbers before texts, numbers by value, texts by code point.
pub open spec fn part_lt(a: PartView, b: PartView) -> bool {
    match (a, b) {
        (PartView::Num(x), PartView::Num(y)) => x < y,
        (PartView::Num(_), PartView::Txt(_)) => true,
        (PartView::Txt(_), PartView::Num(_)) => false,
        (PartView::Txt(s), PartView::Txt(t)) => text_lt(s, t),
    }
}

/// Lexicographic order of keys.
pub open spec fn key_lt(a: Seq<PartView>, b: Seq<PartView>) -> bool
    decreases a.len(),
{
    if a.len() == 0 {
        b.len() > 0
    } else if b.len() == 0 {
        false
    } else if a[0] != b[0] {
        part_lt(a[0], b[0])
    } else {
        key_lt(a.drop_first(), b.drop_first())
    }
}

/// Version names in descending order of their keys.
pub open spec fn sorted_desc(s: Seq<Seq<char>>) -> bool {
    forall|i: int, j: int| 0 <= i < j < s.len() ==> !key_lt(key_of(#[trigger] s[i]), key_of(#[trigger] s[j]))
}

proof fn lemma_text_lt_asym(a: Seq<char>, b: Seq<char>)
    ensures
        text_lt(a, b) ==> !text_lt(b, a),
    decreases a.len(),
{
    if a.len() > 0 && b.len() > 0 && a[0] == b[0] {
        lemma_text_lt_asym(a.drop_first(), b.drop_first());
    }
}

proof fn lemma_text_lt_trans(a: Seq<char>, b: Seq<char>, c: Seq<char>)
    ensures
        text_lt(a, b) && text_lt(b, c) ==> text_lt(a, c),
    decreases a.len(),
{
    if a.len() > 0 && b.len() > 0 && c.len() > 0 && a[0] == b[0] && b[0] == c[0] {
        lemma_text_lt_trans(a.drop_first(), b.drop_first(), c.drop_first());
    }
}

proof fn lemma_part_lt_asym(a: PartView, b: PartView)
    ensures
        part_lt(a, b) ==> !part_lt(b, a),
{
    if let (PartView::Txt(s), PartView::Txt(t)) = (a, b) {
        lemma_text_lt_asym(s, t);
    }
}

proof fn lemma_part_lt_trans(a: PartView, b: PartView, c: PartView)
    ensures
        part_lt(a, b) && part_lt(b, c) ==> part_lt(a, c),
{
    if let (PartView::Txt(s), PartView::Txt(t), PartView::Txt(u)) = (a, b, c) {
        lemma_text_lt_trans(s, t, u);
    }
}

proof fn lemma_key_lt_asym(a: Seq<PartView>, b: Seq<PartView>)
    ensures
        key_lt(a, b) ==> !key_lt(b, a),
    decreases a.len(),
{
    if a.len() > 0 && b.len() > 0 {
        if a[0] == b[0] {
            lemma_key_lt_asym(a.drop_first(), b.drop_first());
        } else {
            lemma_part_lt_asym(a[0], b[0]);
        }
    }
}

proof fn lemma_key_lt_trans(a: Seq<PartView>, b: Seq<PartView>, c: Seq<PartView>)
    ensures
        key_lt(a, b) && key_lt(b, c) ==> key_lt(a, c),
    decreases a.len(),
{
    if a.len() > 0 && b.len() > 0 && c.len() > 0 {
        if a[0] == b[0] && b[0] == c[0] {
            lemma_key_lt_trans(a.drop_first(), b.drop_first(), c.drop_first());
        } else if a[0] != b[0] && b[0] != c[0] {
            lemma_part_lt_trans(a[0], b[0], c[0]);
            if a[0] == c[0] {
                lemma_part_lt_asym(a[0], b[0]);
            }
        }
    }
}

/// Every prefix of a digit run spells at most the run's number.
proof fn lemma_digits_value_prefix(r: Seq<char>, i: int)
    requires
        0 <= i <= r.len(),
    ensures
        digits_value(r.subrange(0, i)) <= digits_value(r),
    decreases r.len() - i,
{
    if i < r.len() {
        let next = r.subrange(0, i + 1);
        assert(next.drop_last() == r.subrange(0, i));
        lemma_digits_value_prefix(r, i + 1);
    } else {
        assert(r.subrange(0, i) == r);
    }
}

/// The number that the digit run `r` spells, when it fits in 64 bits.
fn parse_run(r: &str) -> (v: Option<u64>)
    requires
        forall|k: int| 0 <= k < r@.len() ==> is_digit(#[trigger] r@[k]),
    ensures
        v is Some <==> digits_value(r@) <= u64::MAX,
        v is Some ==> v->0 as nat == digits_value(r@),
{
    let n = r.unicode_len();
    let mut acc: u64 = 0;
    let mut i: usize = 0;
    while i < n
        invariant
            n == r@.len(),
            i <= n,
            forall|k: int| 0 <= k < r@.len() ==> is_digit(#[trigger] r@[k]),
            acc as nat == digits_value(r@.subrange(0, i as int)),
        decreases n - i,
    {
        let c = r.get_char(i);
        let ghost prev = r@.subrange(0, i as int);
        let ghost next = r@.subrange(0, i + 1);
        assert(next.drop_last() == prev);
        assert(next.last() == c);
        assert(is_digit(r@[i as int]));
        let d: u64 = (c as u32 - '0' as u32) as u64;
        assert(digits_value(next) == digits_value(prev) * 10 + d);
        if acc > (u64::MAX - d) / 10 {
            proof {
                let m = u64::MAX as int;
                assert(acc * 10 + d > m) by (nonlinear_arith)
                    requires
                        acc > (m - d) / 10,
                        d <= 9,
                        0 <= acc,
                ;
                lemma_digits_value_prefix(r@, i + 1);
            }
            return None;
        }
        proof {
            let m = u64::MAX as int;
            assert(acc * 10 + d <= m) by (nonlinear_arith)
                requires
                    acc <= (m - d) / 10,
                    d <= 9,
                    0 <= acc,
            ;
        }
        acc = acc * 10 + d;
        i = i + 1;
    }
    assert(r@.subrange(0, n as int) == r@);
    Some(acc)
}

/// A non-empty run of digits only, or of non-digits only.
pub open spec fn uniform(r: Seq<char>) -> bool {
    r.len() > 0 && forall|k: int| 0 <= k < r.len() ==> is_digit(#[trigger] r[k]) == is_digit(r[0])
}

fn char_is_digit(c: char) -> (r: bool)
    ensures
        r == is_digit(c),
{
    '0' <= c && c <= '9'
}

/// The runs of digits and of other characters of `s`.
fn char_runs(s: &str) -> (r: Vec<String>)
    ensures
        views(r@) == runs(s@),
        forall|k: int| 0 <= k < r@.len() ==> uniform(#[trigger] r@[k]@),
{
    let n = s.unicode_len();
    let mut done: Vec<String> = Vec::new();
    let mut cur = String::new();
    let mut i: usize = 0;
    while i < n
        invariant
            n == s@.len(),
            i <= n,
            cur@.len() > 0 <==> i > 0,
            i > 0 ==> uniform(cur@) && is_digit(cur@[0]) == is_digit(s@[i - 1]),
            forall|k: int| 0 <= k < done@.len() ==> uniform(#[trigger] done@[k]@),
            runs(s@.subrange(0, i as int)) == (if i > 0 {
                views(done@).push(cur@)
            } else {
                views(done@)
            }),
        decreases n - i,
    {
        let c = s.get_char(i);
        let ghost pre = s@.subrange(0, i as int);
        let ghost next = s@.subrange(0, i + 1);
        assert(next.drop_last() == pre);
        assert(next.last() == c);
        let ghost before = cur@;
        if i > 0 && char_is_digit(s.get_char(i - 1)) == char_is_digit(c) {
            assert(next[next.len() - 2] == s@[i - 1]);
            push_char(&mut cur, c);
            proof {
                let p = views(done@).push(before);
                assert(p.drop_last() == views(done@));
                assert(p.last() == before);
                assert forall|k: int| 0 <= k < cur@.len() implies is_digit(#[trigger] cur@[k]) == is_digit(
                    cur@[0],
                ) by {
                    if k < before.len() {
                        assert(cur@[k] == before[k]);
                    }
                }
            }
        } else {
            if i > 0 {
                assert(next[next.len() - 2] == s@[i - 1]);
                proof {
                    assert(views(done@.push(cur)) == views(done@).push(cur@));
                }
                done.push(cur);
            }
            cur = String::new();
            push_char(&mut cur, c);
            assert(cur@ == seq![c]);
        }
        i = i + 1;
    }
    assert(s@.subrange(0, n as int) == s@);
    if n > 0 {
        proof {
            assert(views(done@.push(cur)) == views(done@).push(cur@));
        }
        done.push(cur);
    }
    done
}

/// The sort key of a version name: its runs of digits as numbers (left out
/// when too large for 64 bits) and its other runs as text.
pub fn version_sort_key(v: &str) -> (r: Vec<VersionPart>)
    ensures
        part_views(r@) == key_of(v@),
{
    let rs = char_runs(v);
    let mut parts: Vec<VersionPart> = Vec::new();
    let mut i: usize = 0;
    while i < rs.len()
        invariant
            i <= rs@.len(),
            forall|k: int| 0 <= k < rs@.len() ==> uniform(#[trigger] rs@[k]@),
            part_views(parts@) == parts_of(views(rs@).subrange(0, i as int)),
        decreases rs@.len() - i,
    {
        let ghost pre = views(rs@).subrange(0, i as int);
        let ghost next = views(rs@).subrange(0, i + 1);
        assert(next.drop_last() == pre);
        assert(next.last() == rs@[i as int]@);
        assert(uniform(rs@[i as int]@));
        let run = rs[i].as_str();
        let ghost p0 = parts@;
        if char_is_digit(run.get_char(0)) {
            match parse_run(run) {
                Some(num) => {
                    parts.push(VersionPart::Number(num));
                    assert(part_views(parts@) =~= part_views(p0).push(PartView::Num(num as nat)));
                },
                None => {},
            }
        } else {
            parts.push(VersionPart::Text(rs[i].clone()));
            assert(part_views(parts@) =~= part_views(p0).push(PartView::Txt(rs@[i as int]@)));
        }
        i = i + 1;
    }
    assert(views(rs@).subrange(0, rs@.len() as int) == views(rs@));
    parts
}

fn text_less(a: &str, b: &str) -> (r: bool)
    ensures
        r == text_lt(a@, b@),
{
    let n = a.unicode_len();
    let m = b.unicode_len();
    let mut i: usize = 0;
    assert(a@.subrange(0, n as int) == a@);
    assert(b@.subrange(0, m as int) == b@);
    while i < n && i < m
        invariant
            n == a@.len(),
            m == b@.len(),
            i <= n,
            i <= m,
            text_lt(a@, b@) == text_lt(a@.subrange(i as int, n as int), b@.subrange(i as int, m as int)),
        decreases n - i,
    {
        let x = a.get_char(i);
        let y = b.get_char(i);
        let ghost sa = a@.subrange(i as int, n as int);
        let ghost sb = b@.subrange(i as int, m as int);
        assert(sa[0] == x && sb[0] == y);
        if x != y {
            return (x as u32) < (y as u32);
        }
        assert(sa.drop_first() == a@.subrange(i + 1, n as int));
        assert(sb.drop_first() == b@.subrange(i + 1, m as int));
        i = i + 1;
    }
    i < m
}

fn part_less(a: &VersionPart, b: &VersionPart) -> (r: bool)
    ensures
        r == part_lt(a.view(), b.view()),
{
    match (a, b) {
        (VersionPart::Number(x), VersionPart::Number(y)) => *x < *y,
        (VersionPart::Number(_), VersionPart::Text(_)) => true,
        (VersionPart::Text(_), VersionPart::Number(_)) => false,
        (VersionPart::Text(s), VersionPart::Text(t)) => text_less(s.as_str(), t.as_str()),
    }
}

fn part_same(a: &VersionPart, b: &VersionPart) -> (r: bool)
    ensures
        r == (a.view() == b.view()),
{
    match (a, b) {
        (VersionPart::Number(x), VersionPart::Number(y)) => *x == *y,
        (VersionPart::Text(s), VersionPart::Text(t)) => {
            let e = crate::text::same_text(s.as_str(), t.as_str());
            e
        },
        _ => false,
    }
}

/// Whether key `a` orders before key `b`.
pub fn key_less(a: &Vec<VersionPart>, b: &Vec<VersionPart>) -> (r: bool)
    ensures
        r == key_lt(part_views(a@), part_views(b@)),
{
    let n = a.len();
    let m = b.len();
    let ghost va = part_views(a@);
    let ghost vb = part_views(b@);
    let mut i: usize = 0;
    assert(va.subrange(0, n as int) == va);
    assert(vb.subrange(0, m as int) == vb);
    while i < n && i < m
        invariant
            n == a@.len(),
            m == b@.len(),
            va == part_views(a@),
            vb == part_views(b@),
            i <= n,
            i <= m,
            key_lt(va, vb) == key_lt(va.subrange(i as int, n as int), vb.subrange(i as int, m as int)),
        decreases n - i,
    {
        let ghost sa = va.subrange(i as int, n as int);
        let ghost sb = vb.subrange(i as int, m as int);
        assert(sa[0] == a@[i as int].view() && sb[0] == b@[i as int].view());
        if !part_same(&a[i], &b[i]) {
            return part_less(&a[i], &b[i]);
        }
        assert(sa.drop_first() == va.subrange(i + 1, n as int));
        assert(sb.drop_first() == vb.subrange(i + 1, m as int));
        i = i + 1;
    }
    i < m
}

/// `origin` tells where each entry of `r` stands in `v`: distinct places,
/// and entries of equal keys in the order of their places.
pub open spec fn stable_origin(r: Seq<String>, v: Seq<String>, origin: Seq<int>) -> bool {
    &&& origin.len() == r.len()
    &&& forall|k: int|
        0 <= k < origin.len() ==> 0 <= #[trigger] origin[k] < v.len() && r[k] == v[origin[k]]
    &&& forall|a: int, b: int| 0 <= a < b < origin.len() ==> #[trigger] origin[a] != #[trigger] origin[b]
    &&& forall|a: int, b: int|
        0 <= a < b < origin.len() && key_of(#[trigger] r[a]@) == key_of(#[trigger] r[b]@) ==> origin[a]
            < origin[b]
}

/// The version names in descending order of their keys; names of equal
/// keys keep their order.
pub fn sort_versions_descending(versions: Vec<String>) -> (r: Vec<String>)
    ensures
        r@.to_multiset() == versions@.to_multiset(),
        sorted_desc(views(r@)),
        exists|origin: Seq<int>| stable_origin(r@, versions@, origin),
{
    let ghost mut origin: Seq<int> = seq![];
    let mut out: Vec<String> = Vec::new();
    let mut i: usize = 0;
    while i < versions.len()
        invariant
            i <= versions@.len(),
            out@.to_multiset() == versions@.subrange(0, i as int).to_multiset(),
            sorted_desc(views(out@)),
            stable_origin(out@, versions@, origin),
            forall|k: int| 0 <= k < origin.len() ==> #[trigger] origin[k] < i,
        decreases versions@.len() - i,
    {
        let x = versions[i].clone();
        let kx = version_sort_key(x.as_str());
        let mut p: usize = 0;
        while p < out.len() && !key_less(&version_sort_key(out[p].as_str()), &kx)
            invariant
                p <= out@.len(),
                part_views(kx@) == key_of(x@),
                forall|k: int| 0 <= k < p ==> !key_lt(key_of(#[trigger] out@[k]@), key_of(x@)),
            decreases out@.len() - p,
        {
            p = p + 1;
        }
        let ghost o0 = out@;
        proof {
            if p < o0.len() {
                assert(key_lt(key_of(o0[p as int]@), key_of(x@)));
            }
        }
        out.insert(p, x);
        proof {
            let v0 = views(o0);
            let v1 = views(out@);
            assert forall|a: int, b: int| 0 <= a < b < v1.len() implies !key_lt(
                key_of(#[trigger] v1[a]),
                key_of(#[trigger] v1[b]),
            ) by {
                let kx = key_of(x@);
                if b < p {
                    assert(v1[a] == v0[a] && v1[b] == v0[b]);
                } else if a > p {
                    assert(v1[a] == v0[a - 1] && v1[b] == v0[b - 1]);
                } else if a < p && b == p {
                    assert(v1[a] == o0[a]@ && v1[b] == x@);
                } else if a < p && b > p {
                    assert(v1[a] == v0[a] && v1[b] == v0[b - 1]);
                } else {
                    assert(a == p && b > p);
                    assert(v1[a] == x@ && v1[b] == v0[b - 1]);
                    let kp = key_of(o0[p as int]@);
                    let kb = key_of(v0[b - 1]);
                    assert(key_lt(kp, kx));
                    if b - 1 > p {
                        assert(v0[p as int] == o0[p as int]@);
                        assert(!key_lt(kp, kb));
                    }
                    lemma_key_lt_asym(kp, kx);
                    lemma_key_lt_trans(kp, kx, kb);
                }
            }
            assert(versions@.subrange(0, i + 1) == versions@.subrange(0, i as int).push(versions@[i as int]));
            let g0 = origin;
            origin = g0.insert(p as int, i as int);
            assert forall|k: int| 0 <= k < origin.len() implies 0 <= #[trigger] origin[k] < versions@.len()
                && out@[k] == versions@[origin[k]] by {
                if k < p {
                    assert(origin[k] == g0[k] && out@[k] == o0[k]);
                } else if k > p {
                    assert(origin[k] == g0[k - 1] && out@[k] == o0[k - 1]);
                }
            }
            assert forall|k: int| 0 <= k < origin.len() implies #[trigger] origin[k] < i + 1 by {
                if k < p {
                    assert(origin[k] == g0[k]);
                } else if k > p {
                    assert(origin[k] == g0[k - 1]);
                }
            }
            assert forall|a: int, b: int| 0 <= a < b < origin.len() implies #[trigger] origin[a]
                != #[trigger] origin[b] by {
                if a < p && b < p {
                    assert(origin[a] == g0[a] && origin[b] == g0[b]);
                } else if a < p && b == p {
                    assert(origin[a] == g0[a]);
                } else if a < p {
                    assert(origin[a] == g0[a] && origin[b] == g0[b - 1]);
                } else if a == p {
                    assert(origin[b] == g0[b - 1]);
                } else {
                    assert(origin[a] == g0[a - 1] && origin[b] == g0[b - 1]);
                }
            }
            assert forall|a: int, b: int|
                0 <= a < b < origin.len() && key_of(#[trigger] out@[a]@) == key_of(#[trigger] out@[b]@)
                implies origin[a] < origin[b] by {
                let kx = key_of(x@);
                if a < p && b < p {
                    assert(origin[a] == g0[a] && origin[b] == g0[b]);
                    assert(out@[a] == o0[a] && out@[b] == o0[b]);
                } else if a < p && b == p {
                    assert(origin[a] == g0[a]);
                } else if a < p {
                    assert(origin[a] == g0[a] && origin[b] == g0[b - 1]);
                    assert(out@[a] == o0[a] && out@[b] == o0[b - 1]);
                } else if a == p {
                    assert(out@[a] == x && out@[b] == o0[b - 1]);
                    let kp = key_of(o0[p as int]@);
                    let kb = key_of(o0[b - 1]@);
                    lemma_key_lt_asym(kp, kx);
                    if b - 1 > p {
                        assert(views(o0)[p as int] == o0[p as int]@);
                        assert(views(o0)[b - 1] == o0[b - 1]@);
                        assert(!key_lt(kp, kb));
                    }
                    assert(kb != kx);
                } else {
                    assert(origin[a] == g0[a - 1] && origin[b] == g0[b - 1]);
                    assert(out@[a] == o0[a - 1] && out@[b] == o0[b - 1]);
                }
            }
        }
        i = i + 1;
    }
    assert(versions@.subrange(0, versions@.len() as int) == versions@);
    assert(stable_origin(out@, versions@, origin));
    out
}

/// What `str::parse::<u32>` makes of `t`: an optional `+` and then at
/// least one digit, of a value that fits in 32 bits.
pub open spec fn u32_text(t: Seq<char>) -> Option<nat> {
    let d = unsigned_part(t);
    if d.len() > 0 && all_digits(d) && digits_value(d) <= u32::MAX {
        Some(digits_value(d))
    } else {
        None
    }
}

/// `t` without one leading `+`.
pub open spec fn unsigned_part(t: Seq<char>) -> Seq<char> {
    if t.len() > 0 && t[0] == '+' {
        t.drop_first()
    } else {
        t
    }
}

/// Every character of `d` is a digit.
pub open spec fn all_digits(d: Seq<char>) -> bool {
    forall|k: int| 0 <= k < d.len() ==> is_digit(#[trigger] d[k])
}

/// The major and minor number of a GE-Proton version such as `8-25`.
pub open spec fn ge_version(s: Seq<char>) -> Option<(nat, nat)> {
    let parts = crate::paths::split_at_char(s, '-');
    if parts.len() == 2 && u32_text(parts[0]) is Some && u32_text(parts[1]) is Some {
        Some((u32_text(parts[0])->0, u32_text(parts[1])->0))
    } else {
        None
    }
}

fn parse_u32(t: &str) -> (r: Option<u32>)
    ensures
        r is Some <==> u32_text(t@) is Some,
        r is Some ==> r->0 as nat == u32_text(t@)->0,
{
    let n = t.unicode_len();
    let d = if n > 0 && t.get_char(0) == '+' {
        t.substring_char(1, n)
    } else {
        t
    };
    let ghost dd = unsigned_part(t@);
    proof {
        if n > 0 && t@[0] == '+' {
            assert(d@ == t@.drop_first());
        }
        assert(dd == d@);
    }
    let m = d.unicode_len();
    if m == 0 {
        return None;
    }
    let mut k: usize = 0;
    while k < m
        invariant
            m == d@.len(),
            dd == d@,
            dd == unsigned_part(t@),
            k <= m,
            forall|j: int| 0 <= j < k ==> is_digit(#[trigger] d@[j]),
        decreases m - k,
    {
        if !char_is_digit(d.get_char(k)) {
            assert(!is_digit(dd[k as int]));
            assert(!all_digits(dd));
            return None;
        }
        k = k + 1;
    }
    match parse_run(d) {
        Some(v) => {
            if v <= u32::MAX as u64 {
                Some(v as u32)
            } else {
                None
            }
        },
        None => None,
    }
}

/// Reads a GE-Proton version such as `8-25` as (8, 25).
pub fn parse_ge_version(s: &str) -> (r: Option<(u32, u32)>)
    ensures
        r is Some <==> ge_version(s@) is Some,
        r is Some ==> ge_version(s@) == Some(((r->0).0 as nat, (r->0).1 as nat)),
{
    let parts = crate::paths::split_text(s, '-');
    if parts.len() != 2 {
        return None;
    }
    assert(parts@[0]@ == crate::paths::split_at_char(s@, '-')[0]);
    assert(parts@[1]@ == crate::paths::split_at_char(s@, '-')[1]);
    let major = match parse_u32(parts[0].as_str()) {
        Some(v) => v,
        None => return None,
    };
    let minor = match parse_u32(parts[1].as_str()) {
        Some(v) => v,
        None => return None,
    };
    Some((major, minor))
}

/// Whether a release tagged `tag` is offered for the runner family `label`:
/// GE-Proton from 8-1 on, Proton-EM releases tagged `EM-`, anything for
/// another family.
pub open spec fn offered(tag: Seq<char>, label: Seq<char>) -> bool {
    if label == "GE-Proton"@ {
        tag.len() >= 9 && tag.subrange(0, 9) == "GE-Proton"@ && ge_version(tag.subrange(9, tag.len() as int))
            is Some && {
            let v = ge_version(tag.subrange(9, tag.len() as int))->0;
            v.0 > 8 || (v.0 == 8 && v.1 >= 1)
        }
    } else if label == "Proton-EM"@ {
        tag.len() >= 3 && tag.subrange(0, 3) == "EM-"@
    } else {
        true
    }
}

/// The tags of the releases `rs` that are offered for `label`, in order.
pub open spec fn offered_tags(rs: Seq<Seq<char>>, label: Seq<char>) -> Seq<Seq<char>>
    decreases rs.len(),
{
    if rs.len() == 0 {
        rs
    } else if offered(rs.last(), label) {
        offered_tags(rs.drop_last(), label).push(rs.last())
    } else {
        offered_tags(rs.drop_last(), label)
    }
}

/// The tags of releases.
pub open spec fn tags(rs: Seq<ProtonRelease>) -> Seq<Seq<char>> {
    rs.map_values(|r: ProtonRelease| r.tag_name@)
}

fn release_offered(tag: &str, label: &str) -> (r: bool)
    ensures
        r == offered(tag@, label@),
{
    proof {
        reveal_strlit("GE-Proton");
        reveal_strlit("EM-");
    }
    if crate::text::same_text(label, "GE-Proton") {
        if !starts_with(tag, "GE-Proton") {
            return false;
        }
        let n = tag.unicode_len();
        let rest = tag.substring_char(9, n);
        match parse_ge_version(rest) {
            Some((major, minor)) => major > 8 || (major == 8 && minor >= 1),
            None => false,
        }
    } else if crate::text::same_text(label, "Proton-EM") {
        starts_with(tag, "EM-")
    } else {
        true
    }
}

impl ProtonAsset {
    /// A field-by-field copy.
    pub fn copy(&self) -> (r: ProtonAsset)
        ensures
            r == *self,
    {
        ProtonAsset {
            name: self.name.clone(),
            browser_download_url: self.browser_download_url.clone(),
            size: self.size,
        }
    }
}

impl ProtonRelease {
    /// A copy of the release; its assets are copied one by one.
    pub fn copy(&self) -> (r: ProtonRelease)
        ensures
            r.tag_name == self.tag_name,
            r.name == self.name,
            r.html_url == self.html_url,
            r.assets@ == self.assets@,
    {
        let mut assets: Vec<ProtonAsset> = Vec::new();
        let mut i: usize = 0;
        while i < self.assets.len()
            invariant
                i <= self.assets@.len(),
                assets@ == self.assets@.subrange(0, i as int),
            decreases self.assets@.len() - i,
        {
            assets.push(self.assets[i].copy());
            assert(self.assets@.subrange(0, i + 1) == self.assets@.subrange(0, i as int).push(
                self.assets@[i as int],
            ));
            i = i + 1;
        }
        assert(self.assets@.subrange(0, self.assets@.len() as int) == self.assets@);
        ProtonRelease {
            tag_name: self.tag_name.clone(),
            name: self.name.clone(),
            html_url: self.html_url.clone(),
            assets,
        }
    }
}

/// The releases offered for the runner family of `config`, in their order.
pub fn filter_releases(releases: &Vec<ProtonRelease>, config: &ProtonConfig) -> (r: Vec<ProtonRelease>)
    ensures
        tags(r@) == offered_tags(tags(releases@), config.label@),
{
    let mut out: Vec<ProtonRelease> = Vec::new();
    let mut i: usize = 0;
    while i < releases.len()
        invariant
            i <= releases@.len(),
            tags(out@) == offered_tags(tags(releases@).subrange(0, i as int), config.label@),
        decreases releases@.len() - i,
    {
        let ghost pre = tags(releases@).subrange(0, i as int);
        let ghost next = tags(releases@).subrange(0, i + 1);
        assert(next.drop_last() == pre);
        assert(next.last() == releases@[i as int].tag_name@);
        if release_offered(releases[i].tag_name.as_str(), config.label.as_str()) {
            let ghost o0 = out@;
            out.push(releases[i].copy());
            assert(tags(out@) =~= tags(o0).push(releases@[i as int].tag_name@));
        }
        i = i + 1;
    }
    assert(tags(releases@).subrange(0, releases@.len() as int) == tags(releases@));
    out
}

} // verus!
