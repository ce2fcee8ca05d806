//! Character-level text helpers shared by the rest of the library.
use vstd::prelude::*;

verus! {

/// The views of a sequence of strings.
pub open spec fn views(v: Seq<String>) -> Seq<Seq<char>> {
    v.map_values(|s: String| s@)
}

/// Unicode `White_Space`, the property that `char::is_whitespace` tests.
pub open spec fn is_space(c: char) -> bool {
    let u = c as u32;
    (0x09 <= u && u <= 0x0d) || u == 0x20 || u == 0x85 || u == 0xa0 || u == 0x1680 || (0x2000
        <= u && u <= 0x200a) || u == 0x2028 || u == 0x2029 || u == 0x202f || u == 0x205f || u
        == 0x3000
}

/// Decimal digit character for `d < 10`.
pub open spec fn digit(d: nat) -> char {
    if d == 0 {
        '0'
    } else if d == 1 {
        '1'
    } else if d == 2 {
        '2'
    } else if d == 3 {
        '3'
    } else if d == 4 {
        '4'
    } else if d == 5 {
        '5'
    } else if d == 6 {
        '6'
    } else if d == 7 {
        '7'
    } else if d == 8 {
        '8'
    } else {
        '9'
    }
}

/// Decimal representation of a natural number, without leading zeros.
pub open spec fn dec(n: nat) -> Seq<char>
    decreases n,
{
    if n < 10 {
        seq![digit(n)]
    } else {
        dec(n / 10).push(digit(n % 10))
    }
}

/// `PathBuf::join` on textual paths: an absolute `b` replaces `a`; otherwise a
/// single separator is put between them when `a` is non-empty and lacks one.
pub open spec fn join(a: Seq<char>, b: Seq<char>) -> Seq<char> {
    if b.len() > 0 && b[0] == '/' {
        b
    } else if a.len() == 0 || a.last() == '/' {
        a + b
    } else {
        a + seq!['/'] + b
    }
}

/// Whether `pat` occurs in `s` at position `i`.
pub open spec fn occurs_at(s: Seq<char>, pat: Seq<char>, i: int) -> bool {
    0 <= i && i + pat.len() <= s.len() && s.subrange(i, i + pat.len()) == pat
}

/// Whether `pat` occurs anywhere in `s`.
pub open spec fn contains(s: Seq<char>, pat: Seq<char>) -> bool {
    exists|i: int| occurs_at(s, pat, i)
}

/// The maximal runs of non-whitespace characters of `s`, in order.
pub open spec fn split_ws(s: Seq<char>) -> Seq<Seq<char>>
    decreases s.len(),
{
    if s.len() == 0 {
        seq![]
    } else {
        let p = split_ws(s.drop_last());
        let c = s.last();
        if is_space(c) {
            p
        } else if s.len() >= 2 && !is_space(s[s.len() - 2]) {
            p.drop_last().push(p.last().push(c))
        } else {
            p.push(seq![c])
        }
    }
}

/// Number of leading whitespace characters of `s`.
pub open spec fn lead_ws(s: Seq<char>) -> nat
    decreases s.len(),
{
    if s.len() > 0 && is_space(s[0]) {
        1 + lead_ws(s.drop_first())
    } else {
        0
    }
}

/// Number of trailing whitespace characters of `s`.
pub open spec fn trail_ws(s: Seq<char>) -> nat
    decreases s.len(),
{
    if s.len() > 0 && is_space(s.last()) {
        1 + trail_ws(s.drop_last())
    } else {
        0
    }
}

/// `str::trim`: `s` without leading and trailing whitespace.
pub open spec fn trim(s: Seq<char>) -> Seq<char> {
    let a = lead_ws(s);
    if a == s.len() {
        seq![]
    } else {
        s.subrange(a as int, s.len() - trail_ws(s))
    }
}

/// Relies on `String::push`: appends one character.
#[verifier::external_body]
pub(crate) fn push_char(s: &mut String, c: char)
    ensures
        final(s)@ == old(s)@.push(c),
{
    s.push(c)
}

/// Whether `c` is whitespace, as `char::is_whitespace` decides it.
pub fn char_is_space(c: char) -> (r: bool)
    ensures
        r == is_space(c),
{
    let u = c as u32;
    (0x09 <= u && u <= 0x0d) || u == 0x20 || u == 0x85 || u == 0xa0 || u == 0x1680 || (0x2000
        <= u && u <= 0x200a) || u == 0x2028 || u == 0x2029 || u == 0x202f || u == 0x205f || u
        == 0x3000
}

/// An owned copy of `s`.
pub fn owned(s: &str) -> (r: String)
    ensures
        r@ == s@,
{
    String::from_str(s)
}

/// Appends `t` to `s`.
pub fn append(s: &mut String, t: &str)
    ensures
        final(s)@ == old(s)@ + t@,
{
    s.append(t)
}

/// Whether two texts are equal.
pub fn same_text(a: &str, b: &str) -> (r: bool)
    ensures
        r == (a@ == b@),
{
    let n = a.unicode_len();
    if n != b.unicode_len() {
        return false;
    }
    let mut i: usize = 0;
    while i < n
        invariant
            n == a@.len(),
            n == b@.len(),
            i <= n,
            a@.subrange(0, i as int) == b@.subrange(0, i as int),
        decreases n - i,
    {
        if a.get_char(i) != b.get_char(i) {
            return false;
        }
        assert(a@.subrange(0, i + 1) == a@.subrange(0, i as int).push(a@[i as int]));
        assert(b@.subrange(0, i + 1) == b@.subrange(0, i as int).push(b@[i as int]));
        i = i + 1;
    }
    assert(a@ == a@.subrange(0, n as int));
    assert(b@ == b@.subrange(0, n as int));
    true
}

/// Whether `s` begins with `pre`.
pub fn starts_with(s: &str, pre: &str) -> (r: bool)
    ensures
        r == (pre@.len() <= s@.len() && s@.subrange(0, pre@.len() as int) == pre@),
{
    let n = pre.unicode_len();
    if n > s.unicode_len() {
        return false;
    }
    let head = s.substring_char(0, n);
    same_text(head, pre)
}

/// Whether `pat` occurs in `s`.
pub fn text_contains(s: &str, pat: &str) -> (r: bool)
    ensures
        r == contains(s@, pat@),
{
    let n = s.unicode_len();
    let m = pat.unicode_len();
    if m > n {
        assert forall|i: int| !occurs_at(s@, pat@, i) by {}
        return false;
    }
    let last = n - m;
    let mut i: usize = 0;
    loop
        invariant
            n == s@.len(),
            m == pat@.len(),
            last == n - m,
            i <= last,
            forall|j: int| 0 <= j < i ==> !occurs_at(s@, pat@, j),
        ensures
            forall|j: int| 0 <= j <= last ==> !occurs_at(s@, pat@, j),
        decreases last - i,
    {
        let part = s.substring_char(i, i + m);
        if same_text(part, pat) {
            assert(occurs_at(s@, pat@, i as int));
            return true;
        }
        if i == last {
            break;
        }
        i = i + 1;
    }
    assert forall|j: int| !occurs_at(s@, pat@, j) by {
        if 0 <= j && j + m <= n {
            assert(j <= last);
        }
    }
    false
}

/// `PathBuf::join` on textual paths.
pub fn join_path(a: &str, b: &str) -> (r: String)
    ensures
        r@ == join(a@, b@),
{
    let bn = b.unicode_len();
    if bn > 0 && b.get_char(0) == '/' {
        return owned(b);
    }
    let an = a.unicode_len();
    let mut r = owned(a);
    if an > 0 && a.get_char(an - 1) != '/' {
        push_char(&mut r, '/');
    }
    append(&mut r, b);
    r
}

/// The decimal digit character of `d`.
pub fn digit_char(d: u64) -> (c: char)
    requires
        d < 10,
    ensures
        c == digit(d as nat),
{
    if d == 0 {
        '0'
    } else if d == 1 {
        '1'
    } else if d == 2 {
        '2'
    } else if d == 3 {
        '3'
    } else if d == 4 {
        '4'
    } else if d == 5 {
        '5'
    } else if d == 6 {
        '6'
    } else if d == 7 {
        '7'
    } else if d == 8 {
        '8'
    } else {
        '9'
    }
}

/// Decimal text of `n`, as `n.to_string()` writes it.
pub fn decimal(n: u64) -> (r: String)
    ensures
        r@ == dec(n as nat),
    decreases n,
{
    if n < 10 {
        let mut r = String::new();
        push_char(&mut r, digit_char(n));
        r
    } else {
        let mut r = decimal(n / 10);
        push_char(&mut r, digit_char(n % 10));
        r
    }
}

/// The whitespace-separated tokens of `s`, as `str::split_whitespace` yields them.
pub fn split_whitespace(s: &str) -> (r: Vec<String>)
    ensures
        views(r@) == split_ws(s@),
{
    let n = s.unicode_len();
    let mut tokens: Vec<String> = Vec::new();
    let mut cur = String::new();
    let mut i: usize = 0;
    while i < n
        invariant
            n == s@.len(),
            i <= n,
            cur@.len() > 0 <==> (i > 0 && !is_space(s@[i - 1])),
            split_ws(s@.subrange(0, i as int)) == (if cur@.len() > 0 {
                views(tokens@).push(cur@)
            } else {
                views(tokens@)
            }),
        decreases n - i,
    {
        let c = s.get_char(i);
        let ghost pre = s@.subrange(0, i as int);
        let ghost next = s@.subrange(0, i + 1);
        assert(next.drop_last() == pre);
        assert(next.last() == c);
        if char_is_space(c) {
            if cur.unicode_len() > 0 {
                proof {
                    assert(views(tokens@.push(cur)) == views(tokens@).push(cur@));
                }
                tokens.push(cur);
                cur = String::new();
            }
        } else {
            if i > 0 {
                assert(next[next.len() - 2] == s@[i - 1]);
            }
            let ghost before = cur@;
            push_char(&mut cur, c);
            proof {
                if before.len() == 0 {
                    assert(cur@ == seq![c]);
                } else {
                    let p = views(tokens@).push(before);
                    assert(p.drop_last() == views(tokens@));
                    assert(p.last() == before);
                }
            }
        }
        i = i + 1;
    }
    assert(s@.subrange(0, n as int) == s@);
    if cur.unicode_len() > 0 {
        proof {
            assert(views(tokens@.push(cur)) == views(tokens@).push(cur@));
        }
        tokens.push(cur);
    }
    tokens
}

/// `str::trim` on the text `s`.
pub fn trim_text(s: &str) -> (r: String)
    ensures
        r@ == trim(s@),
{
    let n = s.unicode_len();
    let mut a: usize = 0;
    while a < n && char_is_space(s.get_char(a))
        invariant
            n == s@.len(),
            a <= n,
            forall|k: int| 0 <= k < a ==> is_space(s@[k]),
        decreases n - a,
    {
        a = a + 1;
    }
    proof {
        lemma_lead_ws_exact(s@, a as nat);
    }
    if a == n {
        return String::new();
    }
    let mut b: usize = n;
    while b > a && char_is_space(s.get_char(b - 1))
        invariant
            n == s@.len(),
            a < n,
            !is_space(s@[a as int]),
            a < b <= n,
            forall|k: int| b <= k < n ==> is_space(s@[k]),
        decreases b,
    {
        b = b - 1;
    }
    proof {
        lemma_trail_ws_exact(s@, (n - b) as nat);
    }
    owned(s.substring_char(a, b))
}

proof fn lemma_lead_ws_exact(s: Seq<char>, a: nat)
    requires
        a <= s.len(),
        forall|k: int| 0 <= k < a ==> is_space(s[k]),
        a == s.len() || !is_space(s[a as int]),
    ensures
        lead_ws(s) == a,
    decreases a,
{
    if a > 0 {
        assert forall|k: int| 0 <= k < a - 1 implies is_space(s.drop_first()[k]) by {
            assert(s.drop_first()[k] == s[k + 1]);
        }
        if a < s.len() {
            assert(s.drop_first()[a - 1] == s[a as int]);
        }
        lemma_lead_ws_exact(s.drop_first(), (a - 1) as nat);
    }
}

proof fn lemma_trail_ws_exact(s: Seq<char>, t: nat)
    requires
        t < s.len(),
        forall|k: int| s.len() - t <= k < s.len() ==> is_space(s[k]),
        !is_space(s[s.len() - t - 1]),
    ensures
        trail_ws(s) == t,
    decreases t,
{
    if t > 0 {
        let d = s.drop_last();
        assert forall|k: int| d.len() - (t - 1) <= k < d.len() implies is_space(d[k]) by {
            assert(d[k] == s[k]);
        }
        assert(d[d.len() - (t - 1) - 1] == s[s.len() - t - 1]);
        lemma_trail_ws_exact(d, (t - 1) as nat);
    }
}

} // verus!
