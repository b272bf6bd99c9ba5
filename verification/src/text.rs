//! Character-level string helpers shared by the rest of the library.

use vstd::prelude::*;
use vstd::string::*;

verus! {

/// The Unicode `White_Space` property, which is what `char::is_whitespace`
/// and `str::trim` use.
pub open spec fn is_ws(c: char) -> bool {
    let u = c as u32;
    ||| 0x09 <= u <= 0x0D
    ||| u == 0x20
    ||| u == 0x85
    ||| u == 0xA0
    ||| u == 0x1680
    ||| 0x2000 <= u <= 0x200A
    ||| u == 0x2028
    ||| u == 0x2029
    ||| u == 0x202F
    ||| u == 0x205F
    ||| u == 0x3000
}

/// `p` is a prefix of `s`.
pub open spec fn is_prefix(p: Seq<char>, s: Seq<char>) -> bool {
    p.len() <= s.len() && s.subrange(0, p.len() as int) == p
}

/// `s` without its leading whitespace.
pub open spec fn trim_start(s: Seq<char>) -> Seq<char>
    decreases s.len(),
{
    if s.len() > 0 && is_ws(s[0]) {
        trim_start(s.drop_first())
    } else {
        s
    }
}

/// `s` without its trailing whitespace.
pub open spec fn trim_end(s: Seq<char>) -> Seq<char>
    decreases s.len(),
{
    if s.len() > 0 && is_ws(s.last()) {
        trim_end(s.drop_last())
    } else {
        s
    }
}

/// `s` without leading and trailing whitespace.
pub open spec fn trim(s: Seq<char>) -> Seq<char> {
    trim_end(trim_start(s))
}

/// What `trim_start` leaves is empty or starts with a non-whitespace character.
proof fn lemma_trim_start_shape(s: Seq<char>)
    ensures
        trim_start(s).len() == 0 || !is_ws(trim_start(s)[0]),
    decreases s.len(),
{
    if s.len() > 0 && is_ws(s[0]) {
        lemma_trim_start_shape(s.drop_first());
    }
}

/// What `trim_end` leaves is a prefix of its argument that is empty or ends
/// with a non-whitespace character.
proof fn lemma_trim_end_shape(s: Seq<char>)
    ensures
        is_prefix(trim_end(s), s),
        trim_end(s).len() == 0 || !is_ws(trim_end(s).last()),
    decreases s.len(),
{
    if s.len() > 0 && is_ws(s.last()) {
        lemma_trim_end_shape(s.drop_last());
        assert(s.subrange(0, trim_end(s).len() as int) =~= s.drop_last().subrange(
            0,
            trim_end(s).len() as int,
        ));
    } else {
        assert(s.subrange(0, s.len() as int) =~= s);
    }
}

/// `trim_start` drops a run of leading whitespace.
proof fn lemma_trim_start_split(s: Seq<char>) -> (i: int)
    ensures
        0 <= i <= s.len(),
        trim_start(s) == s.subrange(i, s.len() as int),
        forall|k: int| 0 <= k < i ==> is_ws(#[trigger] s[k]),
    decreases s.len(),
{
    if s.len() > 0 && is_ws(s[0]) {
        let i0 = lemma_trim_start_split(s.drop_first());
        assert(s.drop_first().subrange(i0, s.drop_first().len() as int) =~= s.subrange(
            i0 + 1,
            s.len() as int,
        ));
        assert forall|k: int| 0 <= k < i0 + 1 implies is_ws(#[trigger] s[k]) by {
            if k > 0 {
                assert(s[k] == s.drop_first()[k - 1]);
            }
        }
        i0 + 1
    } else {
        assert(s.subrange(0, s.len() as int) =~= s);
        0
    }
}

/// `trim_end` drops a run of trailing whitespace.
proof fn lemma_trim_end_split(s: Seq<char>) -> (j: int)
    ensures
        0 <= j <= s.len(),
        trim_end(s) == s.subrange(0, j),
        forall|k: int| j <= k < s.len() ==> is_ws(#[trigger] s[k]),
    decreases s.len(),
{
    if s.len() > 0 && is_ws(s.last()) {
        let j0 = lemma_trim_end_split(s.drop_last());
        assert(s.drop_last().subrange(0, j0) =~= s.subrange(0, j0));
        assert forall|k: int| j0 <= k < s.len() implies is_ws(#[trigger] s[k]) by {
            if k < s.len() - 1 {
                assert(s[k] == s.drop_last()[k]);
            }
        }
        j0
    } else {
        assert(s.subrange(0, s.len() as int) =~= s);
        s.len() as int
    }
}

/// Trimming removes exactly the whitespace at both ends: what is left is a
/// stretch `s[i..j]` of the text, everything before `i` and from `j` on is
/// whitespace, and the stretch, when not empty, starts and ends with a
/// character that is not whitespace.
pub proof fn lemma_trim_law(s: Seq<char>)
    ensures
        exists|i: int, j: int|
            0 <= i <= j <= s.len() && #[trigger] s.subrange(i, j) == trim(s) && (forall|k: int|
                0 <= k < i ==> is_ws(#[trigger] s[k])) && (forall|k: int|
                j <= k < s.len() ==> is_ws(#[trigger] s[k])),
        trim(s).len() > 0 ==> !is_ws(trim(s)[0]) && !is_ws(trim(s).last()),
{
    let i = lemma_trim_start_split(s);
    let u = trim_start(s);
    let j0 = lemma_trim_end_split(u);
    lemma_trim_start_shape(s);
    lemma_trim_end_shape(u);
    assert(u.subrange(0, j0) =~= s.subrange(i, i + j0));
    assert forall|k: int| i + j0 <= k < s.len() implies is_ws(#[trigger] s[k]) by {
        assert(s[k] == u[k - i]);
    }
    let v = trim(s);
    if v.len() > 0 {
        assert(v[0] == u.subrange(0, v.len() as int)[0]);
    }
    assert(s.subrange(i, i + j0) == trim(s));
}

/// Trimming a trimmed text changes nothing.
pub proof fn lemma_trim_idempotent(s: Seq<char>)
    ensures
        trim(trim(s)) == trim(s),
{
    let u = trim_start(s);
    let v = trim_end(u);
    lemma_trim_start_shape(s);
    lemma_trim_end_shape(u);
    if v.len() > 0 {
        assert(v[0] == u.subrange(0, v.len() as int)[0]);
        assert(!is_ws(v[0]));
    }
    assert(trim_start(v) == v);
    assert(trim_end(v) == v);
}

/// Whether a character is whitespace.
pub fn is_whitespace(c: char) -> (b: bool)
    ensures
        b == is_ws(c),
{
    let u: u32 = c as u32;
    (0x09 <= u && u <= 0x0D) || u == 0x20 || u == 0x85 || u == 0xA0 || u == 0x1680 || (0x2000
        <= u && u <= 0x200A) || u == 0x2028 || u == 0x2029 || u == 0x202F || u == 0x205F || u
        == 0x3000
}

/// Skipping `k` leading whitespace characters does not change the trimmed start.
proof fn lemma_trim_start_skip(s: Seq<char>, k: int)
    requires
        0 <= k <= s.len(),
        forall|i: int| 0 <= i < k ==> is_ws(#[trigger] s[i]),
    ensures
        trim_start(s) == trim_start(s.subrange(k, s.len() as int)),
    decreases k,
{
    if k > 0 {
        assert(s.drop_first() =~= s.subrange(1, s.len() as int));
        lemma_trim_start_skip(s.drop_first(), k - 1);
        assert(s.drop_first().subrange(k - 1, s.drop_first().len() as int) =~= s.subrange(
            k,
            s.len() as int,
        ));
    } else {
        assert(s.subrange(0, s.len() as int) =~= s);
    }
}

/// Dropping `k` trailing whitespace characters does not change the trimmed end.
proof fn lemma_trim_end_skip(s: Seq<char>, k: int)
    requires
        0 <= k <= s.len(),
        forall|i: int| s.len() - k <= i < s.len() ==> is_ws(#[trigger] s[i]),
    ensures
        trim_end(s) == trim_end(s.subrange(0, s.len() - k)),
    decreases k,
{
    if k > 0 {
        assert(s.drop_last() =~= s.subrange(0, s.len() - 1));
        lemma_trim_end_skip(s.drop_last(), k - 1);
        assert(s.drop_last().subrange(0, s.drop_last().len() - (k - 1)) =~= s.subrange(
            0,
            s.len() - k,
        ));
    } else {
        assert(s.subrange(0, s.len() as int) =~= s);
    }
}

/// `s` with leading and trailing whitespace removed, as `str::trim` does.
pub fn trim_str(s: &str) -> (r: String)
    ensures
        r@ == trim(s@),
{
    let n: usize = s.unicode_len();
    let mut start: usize = 0;
    while start < n && is_whitespace(s.get_char(start))
        invariant
            n == s@.len(),
            start <= n,
            forall|i: int| 0 <= i < start ==> is_ws(#[trigger] s@[i]),
        decreases n - start,
    {
        start = start + 1;
    }
    proof {
        lemma_trim_start_skip(s@, start as int);
    }
    let ghost rest = s@.subrange(start as int, n as int);
    assert(start < n ==> !is_ws(rest[0]));
    assert(trim_start(s@) == rest);
    let mut end: usize = n;
    while end > start && is_whitespace(s.get_char(end - 1))
        invariant
            n == s@.len(),
            start <= end <= n,
            forall|i: int| end <= i < n ==> is_ws(#[trigger] s@[i]),
        decreases end,
    {
        end = end - 1;
    }
    proof {
        lemma_trim_end_skip(rest, (n - end) as int);
        assert(rest.subrange(0, rest.len() - (n - end)) =~= s@.subrange(start as int, end as int));
    }
    let sub: &str = s.substring_char(start, end);
    String::from_str(sub)
}

/// `p` occurs somewhere in `s`.
pub open spec fn contains_seq(s: Seq<char>, p: Seq<char>) -> bool {
    exists|k: int| 0 <= k <= s.len() - p.len() && #[trigger] s.subrange(k, k + p.len()) == p
}

/// Whether `p` occurs in `s` at character offset `k`.
fn matches_at(s: &str, p: &str, k: usize) -> (b: bool)
    requires
        k + p@.len() <= s@.len(),
    ensures
        b == (s@.subrange(k as int, k + p@.len()) == p@),
{
    let n: usize = s.unicode_len();
    let m: usize = p.unicode_len();
    let mut i: usize = 0;
    while i < m
        invariant
            n == s@.len(),
            m == p@.len(),
            k + m <= s@.len(),
            i <= m,
            forall|j: int| 0 <= j < i ==> s@[k + j] == p@[j],
        decreases m - i,
    {
        if s.get_char(k + i) != p.get_char(i) {
            assert(s@.subrange(k as int, k + p@.len())[i as int] != p@[i as int]);
            return false;
        }
        i = i + 1;
    }
    assert(s@.subrange(k as int, k + p@.len()) =~= p@);
    true
}

/// Whether `s` starts with `p`, as `str::starts_with` with a string pattern.
pub fn starts_with(s: &str, p: &str) -> (b: bool)
    ensures
        b == is_prefix(p@, s@),
        b == (p@.len() <= s@.len() && s@.subrange(0, p@.len() as int) == p@),
{
    let n: usize = s.unicode_len();
    let m: usize = p.unicode_len();
    if m > n {
        return false;
    }
    matches_at(s, p, 0)
}

/// Whether `p` occurs in `s`, as `str::contains` with a string pattern.
pub fn contains(s: &str, p: &str) -> (b: bool)
    ensures
        b == contains_seq(s@, p@),
        b <==> exists|k: int|
            0 <= k && k + p@.len() <= s@.len() && #[trigger] s@.subrange(k, k + p@.len()) == p@,
{
    let n: usize = s.unicode_len();
    let m: usize = p.unicode_len();
    if m > n {
        return false;
    }
    if m == 0 {
        assert(s@.subrange(0int, 0int + p@.len()) =~= p@);
        return true;
    }
    let mut k: usize = 0;
    while k <= n - m
        invariant
            n == s@.len(),
            m == p@.len(),
            0 < m <= n,
            k <= n - m + 1,
            forall|j: int| 0 <= j < k ==> #[trigger] s@.subrange(j, j + m) != p@,
        decreases n - m + 1 - k,
    {
        if matches_at(s, p, k) {
            return true;
        }
        k = k + 1;
    }
    false
}

/// Lexicographic order on character sequences by code point, which is the
/// order of `String`'s `Ord` (UTF-8 byte order agrees with code-point order).
pub open spec fn lex_le(a: Seq<char>, b: Seq<char>) -> bool
    decreases a.len(),
{
    if a.len() == 0 {
        true
    } else if b.len() == 0 {
        false
    } else if (a[0] as u32) != (b[0] as u32) {
        (a[0] as u32) < (b[0] as u32)
    } else {
        lex_le(a.drop_first(), b.drop_first())
    }
}

/// The views of a sequence of strings.
pub open spec fn views(v: Seq<String>) -> Seq<Seq<char>> {
    v.map_values(|s: String| s@)
}

/// The sequence is in ascending lexicographic order.
pub open spec fn sorted_lex(s: Seq<Seq<char>>) -> bool {
    forall|i: int, j: int| 0 <= i < j < s.len() ==> lex_le(#[trigger] s[i], #[trigger] s[j])
}

/// Any two sequences are ordered one way or the other.
pub proof fn lemma_lex_total(a: Seq<char>, b: Seq<char>)
    ensures
        lex_le(a, b) || lex_le(b, a),
    decreases a.len(),
{
    if a.len() > 0 && b.len() > 0 && (a[0] as u32) == (b[0] as u32) {
        lemma_lex_total(a.drop_first(), b.drop_first());
    }
}

/// The order is transitive.
pub proof fn lemma_lex_trans(a: Seq<char>, b: Seq<char>, c: Seq<char>)
    requires
        lex_le(a, b),
        lex_le(b, c),
    ensures
        lex_le(a, c),
    decreases a.len(),
{
    if a.len() > 0 && b.len() > 0 && c.len() > 0 && (a[0] as u32) == (b[0] as u32) && (b[0] as u32)
        == (c[0] as u32) {
        lemma_lex_trans(a.drop_first(), b.drop_first(), c.drop_first());
    }
}

/// A common prefix does not change the order.
proof fn lemma_lex_common_prefix(a: Seq<char>, b: Seq<char>, k: int)
    requires
        0 <= k <= a.len(),
        k <= b.len(),
        forall|j: int| 0 <= j < k ==> (a[j] as u32) == (b[j] as u32),
    ensures
        lex_le(a, b) == lex_le(a.subrange(k, a.len() as int), b.subrange(k, b.len() as int)),
    decreases k,
{
    if k > 0 {
        lemma_lex_common_prefix(a.drop_first(), b.drop_first(), k - 1);
        assert(a.drop_first().subrange(k - 1, a.drop_first().len() as int) =~= a.subrange(
            k,
            a.len() as int,
        ));
        assert(b.drop_first().subrange(k - 1, b.drop_first().len() as int) =~= b.subrange(
            k,
            b.len() as int,
        ));
    } else {
        assert(a.subrange(0, a.len() as int) =~= a);
        assert(b.subrange(0, b.len() as int) =~= b);
    }
}

/// The order is that of a dictionary: a sequence comes before every sequence
/// it is a prefix of, and otherwise the first position where the two differ
/// decides, the smaller code point first.
pub proof fn lemma_lex_first_difference(a: Seq<char>, b: Seq<char>, k: int)
    requires
        0 <= k <= a.len(),
        k <= b.len(),
        forall|j: int| 0 <= j < k ==> a[j] == b[j],
    ensures
        k == a.len() ==> lex_le(a, b),
        k == b.len() && k < a.len() ==> !lex_le(a, b),
        k < a.len() && k < b.len() && (a[k] as u32) < (b[k] as u32) ==> lex_le(a, b) && !lex_le(
            b,
            a,
        ),
{
    lemma_lex_common_prefix(a, b, k);
    lemma_lex_common_prefix(b, a, k);
    let ra = a.subrange(k, a.len() as int);
    let rb = b.subrange(k, b.len() as int);
    if k < a.len() {
        assert(ra[0] == a[k]);
    }
    if k < b.len() {
        assert(rb[0] == b[k]);
    }
}

/// Whether `a` comes no later than `b` in lexicographic order.
pub fn str_le(a: &str, b: &str) -> (r: bool)
    ensures
        r == lex_le(a@, b@),
{
    let n: usize = a.unicode_len();
    let m: usize = b.unicode_len();
    let mut i: usize = 0;
    while i < n && i < m && (a.get_char(i) as u32) == (b.get_char(i) as u32)
        invariant
            n == a@.len(),
            m == b@.len(),
            i <= n,
            i <= m,
            forall|j: int| 0 <= j < i ==> (a@[j] as u32) == (b@[j] as u32),
        decreases n - i,
    {
        i = i + 1;
    }
    proof {
        lemma_lex_common_prefix(a@, b@, i as int);
    }
    let ghost ra = a@.subrange(i as int, n as int);
    let ghost rb = b@.subrange(i as int, m as int);
    if i == n {
        assert(ra.len() == 0);
        true
    } else if i == m {
        assert(rb.len() == 0);
        false
    } else {
        let ca: char = a.get_char(i);
        let cb: char = b.get_char(i);
        assert(ra[0] == ca && rb[0] == cb);
        (ca as u32) < (cb as u32)
    }
}

/// The multiset of a sequence with an element inserted.
proof fn lemma_insert_multiset<A>(s: Seq<A>, p: int, x: A)
    requires
        0 <= p <= s.len(),
    ensures
        s.insert(p, x).to_multiset() =~= s.to_multiset().insert(x),
{
    let a = s.subrange(0, p);
    let b = s.subrange(p, s.len() as int);
    assert(s =~= a + b);
    vstd::seq_lib::lemma_multiset_commutative(a, b);
    vstd::seq_lib::lemma_multiset_commutative(a.push(x), b);
    a.to_multiset_ensures();
}

/// The strings in ascending lexicographic order, as `sort` on a
/// `Vec<String>` leaves them.
pub fn sort_strings(v: &Vec<String>) -> (r: Vec<String>)
    ensures
        sorted_lex(views(r@)),
        views(r@).to_multiset() == views(v@).to_multiset(),
{
    let mut r: Vec<String> = Vec::new();
    let n: usize = v.len();
    let mut i: usize = 0;
    assert(views(v@.take(0)) =~= views(r@));
    while i < n
        invariant
            n == v@.len(),
            i <= n,
            sorted_lex(views(r@)),
            views(r@).to_multiset() == views(v@.take(i as int)).to_multiset(),
        decreases n - i,
    {
        let x: String = v[i].clone();
        let mut p: usize = 0;
        while p < r.len() && str_le(r[p].as_str(), x.as_str())
            invariant
                p <= r@.len(),
                forall|j: int| 0 <= j < p ==> lex_le(#[trigger] r@[j]@, x@),
            decreases r@.len() - p,
        {
            p = p + 1;
        }
        let ghost old_r = r@;
        r.insert(p, x);
        proof {
            assert(views(r@) =~= views(old_r).insert(p as int, x@));
            if p < old_r.len() {
                lemma_lex_total(old_r[p as int]@, x@);
            }
            assert forall|a: int, b: int| 0 <= a < b < r@.len() implies lex_le(
                #[trigger] views(r@)[a],
                #[trigger] views(r@)[b],
            ) by {
                if b < p {
                    assert(views(old_r)[a] == views(r@)[a]);
                } else if b == p {
                } else if a < p {
                    assert(views(r@)[b] == views(old_r)[b - 1]);
                    assert(lex_le(old_r[a]@, x@));
                    lemma_lex_trans(old_r[a]@, x@, old_r[p as int]@);
                    if b - 1 > p {
                        assert(lex_le(views(old_r)[p as int], views(old_r)[b - 1]));
                        lemma_lex_trans(old_r[a]@, old_r[p as int]@, old_r[b - 1]@);
                    }
                } else if a == p {
                    assert(views(r@)[b] == views(old_r)[b - 1]);
                    if b - 1 > p {
                        assert(lex_le(views(old_r)[p as int], views(old_r)[b - 1]));
                        lemma_lex_trans(x@, old_r[p as int]@, old_r[b - 1]@);
                    }
                } else {
                    assert(views(r@)[a] == views(old_r)[a - 1]);
                    assert(views(r@)[b] == views(old_r)[b - 1]);
                }
            }
            lemma_insert_multiset(views(old_r), p as int, x@);
            assert(views(v@.take(i + 1)) =~= views(v@.take(i as int)).push(x@));
            views(v@.take(i as int)).to_multiset_ensures();
        }
        i = i + 1;
    }
    assert(v@.take(n as int) =~= v@);
    r
}

/// The first `n` characters of `t`, followed by `...` when `t` is longer.
pub open spec fn preview_of(t: Seq<char>, n: nat) -> Seq<char> {
    if t.len() > n {
        t.take(n as int) + "..."@
    } else {
        t
    }
}

/// A preview is the text itself when it has at most `n` characters, else its
/// first `n` characters followed by `...`: never more than `n + 3`
/// characters, and always starting like the text.
pub proof fn lemma_preview_shape(t: Seq<char>, n: nat)
    ensures
        t.len() <= n ==> preview_of(t, n) == t,
        t.len() > n ==> preview_of(t, n).len() == n + 3,
        t.len() > n ==> preview_of(t, n).subrange(0, n as int) == t.subrange(0, n as int),
        t.len() > n ==> preview_of(t, n).subrange(n as int, n + 3int) == seq!['.', '.', '.'],
        preview_of(t, n).len() <= n + 3,
{
    reveal_strlit("...");
    if t.len() > n {
        let r = preview_of(t, n);
        assert(r.subrange(0, n as int) =~= t.subrange(0, n as int));
        assert(r.subrange(n as int, n + 3int) =~= seq!['.', '.', '.']);
    }
}

/// A short preview of a text: its first `n` characters, with `...` appended
/// when it had more.
pub fn preview(text: &str, n: usize) -> (r: String)
    ensures
        r@ == preview_of(text@, n as nat),
{
    let count: usize = text.unicode_len();
    if count > n {
        let mut s: String = String::from_str(text.substring_char(0, n));
        s.append("...");
        s
    } else {
        String::from_str(text)
    }
}

/// Whether two strings are equal.
pub fn same_str(a: &str, b: &str) -> (r: bool)
    ensures
        r == (a@ == b@),
{
    let n: usize = a.unicode_len();
    let m: usize = b.unicode_len();
    if n != m {
        return false;
    }
    let r: bool = matches_at(a, b, 0);
    assert(a@.subrange(0, b@.len() as int) =~= a@);
    r
}

} // verus!
