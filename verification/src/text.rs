//! Character-level text primitives shared by every parser in the crate.
//!
//! Text is modelled as `Seq<char>` in specifications and handled as
//! `Vec<char>` in executable code; `&str`/`String` appear only at the
//! boundary of the public API.
use vstd::prelude::*;

verus! {

broadcast use vstd::seq_lib::group_seq_properties;

// ───────────────────────── character classes ─────────────────────────

/// The Unicode `White_Space` property, which is what `char::is_whitespace`
/// (and therefore `str::trim` / `str::split_whitespace`) tests.
#[verifier::opaque]
pub open spec fn is_ws(c: char) -> bool {
    let u = c as u32;
    ||| 0x09 <= u <= 0x0D
    ||| u == 0x20
    ||| u == 0x85
    ||| u == 0xA0
    ||| u == 0x1680
    ||| 0x2000 <= u <= 0x200A
    ||| u == 0x2028
    ||| u == 0x2029
    ||| u == 0x202F
    ||| u == 0x205F
    ||| u == 0x3000
}

pub fn char_is_ws(c: char) -> (b: bool)
    ensures
        b == is_ws(c),
{
    reveal(is_ws);
    let u = c as u32;
    (0x09 <= u && u <= 0x0D) || u == 0x20 || u == 0x85 || u == 0xA0 || u == 0x1680 || (0x2000
        <= u && u <= 0x200A) || u == 0x2028 || u == 0x2029 || u == 0x202F || u == 0x205F || u
        == 0x3000
}

pub open spec fn is_digit(c: char) -> bool {
    '0' <= c <= '9'
}

// ───────────────────────── conversions ─────────────────────────

/// The characters of `s`, in order.
pub fn chars_of(s: &str) -> (v: Vec<char>)
    ensures
        v@ == s@,
{
    broadcast use vstd::string::axiom_spec_iter;

    let mut v: Vec<char> = Vec::new();
    for c in it: s.chars()
        invariant
            it.seq() == s@,
            v@ == it.seq().take(it.index() as int),
    {
        v.push(c);
    }
    v
}

/// The string whose characters are `v` (std `String: FromIterator<char>`).
#[verifier::external_body]
pub(crate) fn string_of(v: &Vec<char>) -> (s: String)
    ensures
        s@ == v@,
{
    v.iter().collect()
}


/// `v[i..j]` as a fresh vector.
pub fn slice_of(v: &Vec<char>, i: usize, j: usize) -> (r: Vec<char>)
    requires
        i <= j <= v.len(),
    ensures
        r@ == v@.subrange(i as int, j as int),
{
    let mut r: Vec<char> = Vec::new();
    let mut k = i;
    while k < j
        invariant
            i <= k <= j <= v.len(),
            r@ == v@.subrange(i as int, k as int),
        decreases j - k,
    {
        r.push(v[k]);
        k += 1;
    }
    r
}

/// `a` followed by `b`.
pub fn concat(a: &Vec<char>, b: &Vec<char>) -> (r: Vec<char>)
    ensures
        r@ == a@ + b@,
{
    let mut r = a.clone();
    let mut k: usize = 0;
    while k < b.len()
        invariant
            k <= b.len(),
            r@ == a@ + b@.take(k as int),
        decreases b.len() - k,
    {
        r.push(b[k]);
        k += 1;
    }
    r
}

/// Appends `b` to `a` in place.
pub fn push_all(a: &mut Vec<char>, b: &Vec<char>)
    ensures
        final(a)@ == old(a)@ + b@,
{
    let mut k: usize = 0;
    while k < b.len()
        invariant
            k <= b.len(),
            a@ == old(a)@ + b@.take(k as int),
        decreases b.len() - k,
    {
        a.push(b[k]);
        k += 1;
    }
}

/// Appends the characters of `s` to `a` in place.
pub fn push_str(a: &mut Vec<char>, s: &str)
    ensures
        final(a)@ == old(a)@ + s@,
{
    let b = chars_of(s);
    push_all(a, &b);
}

/// Character-wise equality.
pub fn eq_chars(a: &Vec<char>, b: &Vec<char>) -> (r: bool)
    ensures
        r == (a@ == b@),
{
    if a.len() != b.len() {
        return false;
    }
    let mut k: usize = 0;
    while k < a.len()
        invariant
            k <= a.len() == b.len(),
            a@.take(k as int) == b@.take(k as int),
        decreases a.len() - k,
    {
        if a[k] != b[k] {
            return false;
        }
        k += 1;
    }
    assert(a@ =~= a@.take(a.len() as int));
    assert(b@ =~= b@.take(b.len() as int));
    true
}

/// Equality with the characters of a string slice.
pub fn eq_str(a: &Vec<char>, s: &str) -> (r: bool)
    ensures
        r == (a@ == s@),
{
    let b = chars_of(s);
    eq_chars(a, &b)
}

// ───────────────────────── runs and trimming ─────────────────────────

pub open spec fn ws_pred() -> spec_fn(char) -> bool {
    |c: char| is_ws(c)
}

pub open spec fn non_ws_pred() -> spec_fn(char) -> bool {
    |c: char| !is_ws(c)
}

pub open spec fn char_pred(x: char) -> spec_fn(char) -> bool {
    |c: char| c == x
}

/// Length of the longest prefix of `s` whose characters all satisfy `p`.
pub open spec fn lead_run(s: Seq<char>, p: spec_fn(char) -> bool) -> nat
    decreases s.len(),
{
    if s.len() > 0 && p(s[0]) {
        1 + lead_run(s.drop_first(), p)
    } else {
        0
    }
}

/// Length of the longest suffix of `s` whose characters all satisfy `p`.
pub open spec fn trail_run(s: Seq<char>, p: spec_fn(char) -> bool) -> nat
    decreases s.len(),
{
    if s.len() > 0 && p(s.last()) {
        1 + trail_run(s.drop_last(), p)
    } else {
        0
    }
}

pub proof fn lemma_lead_run_bound(s: Seq<char>, p: spec_fn(char) -> bool)
    ensures
        lead_run(s, p) <= s.len(),
        forall|j: int| 0 <= j < lead_run(s, p) ==> p(#[trigger] s[j]),
        lead_run(s, p) < s.len() ==> !p(s[lead_run(s, p) as int]),
    decreases s.len(),
{
    if s.len() > 0 && p(s[0]) {
        lemma_lead_run_bound(s.drop_first(), p);
        assert forall|j: int| 0 <= j < lead_run(s, p) implies p(#[trigger] s[j]) by {
            if j > 0 {
                assert(s[j] == s.drop_first()[j - 1]);
            }
        }
    }
}

pub proof fn lemma_trail_run_bound(s: Seq<char>, p: spec_fn(char) -> bool)
    ensures
        trail_run(s, p) <= s.len(),
    decreases s.len(),
{
    if s.len() > 0 && p(s.last()) {
        lemma_trail_run_bound(s.drop_last(), p);
    }
}

/// `str::trim_start_matches` for a predicate.
pub open spec fn trim_start_by(s: Seq<char>, p: spec_fn(char) -> bool) -> Seq<char> {
    s.skip(lead_run(s, p) as int)
}

/// `str::trim_end_matches` for a predicate.
pub open spec fn trim_end_by(s: Seq<char>, p: spec_fn(char) -> bool) -> Seq<char> {
    s.take(s.len() - trail_run(s, p))
}

/// `str::trim`: removes leading and trailing Unicode whitespace.
pub open spec fn trim(s: Seq<char>) -> Seq<char> {
    trim_end_by(trim_start_by(s, ws_pred()), ws_pred())
}

/// `str::trim_matches(c)` for a single character.
pub open spec fn trim_char(s: Seq<char>, c: char) -> Seq<char> {
    trim_end_by(trim_start_by(s, char_pred(c)), char_pred(c))
}

fn lead_ws(v: &Vec<char>) -> (n: usize)
    ensures
        n == lead_run(v@, ws_pred()),
{
    let mut i: usize = 0;
    while i < v.len() && char_is_ws(v[i])
        invariant
            i <= v.len(),
            lead_run(v@, ws_pred()) == i + lead_run(v@.skip(i as int), ws_pred()),
        decreases v.len() - i,
    {
        assert(v@.skip(i as int).drop_first() =~= v@.skip(i + 1));
        i += 1;
    }
    i
}

fn lead_char(v: &Vec<char>, c: char) -> (n: usize)
    ensures
        n == lead_run(v@, char_pred(c)),
{
    let mut i: usize = 0;
    while i < v.len() && v[i] == c
        invariant
            i <= v.len(),
            lead_run(v@, char_pred(c)) == i + lead_run(v@.skip(i as int), char_pred(c)),
        decreases v.len() - i,
    {
        assert(v@.skip(i as int).drop_first() =~= v@.skip(i + 1));
        i += 1;
    }
    i
}

fn trail_ws(v: &Vec<char>) -> (n: usize)
    ensures
        n == trail_run(v@, ws_pred()),
{
    let mut k: usize = 0;
    let ghost s = v@;
    while k < v.len() && char_is_ws(v[v.len() - 1 - k])
        invariant
            s == v@,
            k <= v.len(),
            trail_run(s, ws_pred()) == k + trail_run(s.take(s.len() - k), ws_pred()),
        decreases v.len() - k,
    {
        let ghost t = s.take(s.len() - k);
        assert(t.last() == s[s.len() - 1 - k]);
        assert(ws_pred()(t.last()));
        assert(t.drop_last() =~= s.take(s.len() - (k + 1)));
        k += 1;
    }
    k
}

fn trail_char(v: &Vec<char>, c: char) -> (n: usize)
    ensures
        n == trail_run(v@, char_pred(c)),
{
    let mut k: usize = 0;
    while k < v.len() && v[v.len() - 1 - k] == c
        invariant
            k <= v.len(),
            trail_run(v@, char_pred(c)) == k + trail_run(v@.take(v.len() - k), char_pred(c)),
        decreases v.len() - k,
    {
        assert(v@.take(v.len() - k).drop_last() =~= v@.take(v.len() - (k + 1)));
        k += 1;
    }
    k
}

/// `str::trim_start` (Unicode whitespace).
pub fn trim_start_ws(v: &Vec<char>) -> (r: Vec<char>)
    ensures
        r@ == trim_start_by(v@, ws_pred()),
{
    let a = lead_ws(v);
    proof {
        lemma_lead_run_bound(v@, ws_pred());
    }
    slice_of(v, a, v.len())
}

/// `str::trim` (Unicode whitespace).
pub fn trim_ws(v: &Vec<char>) -> (r: Vec<char>)
    ensures
        r@ == trim(v@),
{
    let t = trim_start_ws(v);
    let b = trail_ws(&t);
    proof {
        lemma_trail_run_bound(t@, ws_pred());
    }
    slice_of(&t, 0, t.len() - b)
}

/// `str::trim_start_matches(c)`.
pub fn trim_start_char(v: &Vec<char>, c: char) -> (r: Vec<char>)
    ensures
        r@ == trim_start_by(v@, char_pred(c)),
{
    let a = lead_char(v, c);
    proof {
        lemma_lead_run_bound(v@, char_pred(c));
    }
    slice_of(v, a, v.len())
}

/// `str::trim_end_matches(c)`.
pub fn trim_end_char(v: &Vec<char>, c: char) -> (r: Vec<char>)
    ensures
        r@ == trim_end_by(v@, char_pred(c)),
{
    let b = trail_char(v, c);
    proof {
        lemma_trail_run_bound(v@, char_pred(c));
    }
    slice_of(v, 0, v.len() - b)
}

/// `str::trim_matches(c)`.
pub fn trim_matches_char(v: &Vec<char>, c: char) -> (r: Vec<char>)
    ensures
        r@ == trim_char(v@, c),
{
    let t = trim_start_char(v, c);
    trim_end_char(&t, c)
}

// ───────────────────────── prefixes and search ─────────────────────────

pub open spec fn starts_with(s: Seq<char>, p: Seq<char>) -> bool {
    p.len() <= s.len() && s.take(p.len() as int) == p
}

pub open spec fn ends_with(s: Seq<char>, p: Seq<char>) -> bool {
    p.len() <= s.len() && s.skip(s.len() - p.len()) == p
}

/// `str::strip_prefix`.
pub open spec fn strip_prefix(s: Seq<char>, p: Seq<char>) -> Option<Seq<char>> {
    if starts_with(s, p) {
        Some(s.skip(p.len() as int))
    } else {
        None
    }
}

/// `p` occurs in `s` at position `i`.
pub open spec fn matches_at(s: Seq<char>, p: Seq<char>, i: int) -> bool {
    0 <= i && i + p.len() <= s.len() && s.subrange(i, i + p.len()) == p
}

/// The first position at or after `i` where `p` occurs in `s`.
pub open spec fn find_from(s: Seq<char>, p: Seq<char>, i: int) -> Option<int>
    decreases s.len() + 1 - i,
{
    if i < 0 || i + p.len() > s.len() {
        None
    } else if matches_at(s, p, i) {
        Some(i)
    } else {
        find_from(s, p, i + 1)
    }
}

/// `str::find`: the first position where `p` occurs in `s`.
pub open spec fn find(s: Seq<char>, p: Seq<char>) -> Option<int> {
    find_from(s, p, 0)
}

/// `str::contains`.
pub open spec fn contains(s: Seq<char>, p: Seq<char>) -> bool {
    find(s, p) is Some
}

pub proof fn lemma_find_from(s: Seq<char>, p: Seq<char>, i: int)
    requires
        0 <= i,
    ensures
        find_from(s, p, i) matches Some(k) ==> i <= k && matches_at(s, p, k) && forall|j: int|
            i <= j < k ==> !matches_at(s, p, j),
        find_from(s, p, i) is None ==> forall|j: int| i <= j ==> !matches_at(s, p, j),
    decreases s.len() + 1 - i,
{
    if i + p.len() > s.len() {
    } else if matches_at(s, p, i) {
    } else {
        lemma_find_from(s, p, i + 1);
    }
}

/// `find` gives the first position where `p` occurs.
pub proof fn lemma_find_first(s: Seq<char>, p: Seq<char>, k: int)
    requires
        matches_at(s, p, k),
        forall|j: int| 0 <= j < k ==> !matches_at(s, p, j),
    ensures
        find(s, p) == Some(k),
{
    lemma_find_from(s, p, 0);
}

/// The text before the first `c` in `x`, when that `c` stands at `n`.
pub proof fn lemma_before_char(x: Seq<char>, c: char, n: int)
    requires
        0 <= n < x.len(),
        x[n] == c,
        forall|j: int| 0 <= j < n ==> x[j] != c,
    ensures
        before(x, seq![c]) == x.take(n),
{
    assert(matches_at(x, seq![c], n)) by {
        assert(x.subrange(n, n + 1) =~= seq![c]);
    }
    assert forall|j: int| 0 <= j < n implies !matches_at(x, seq![c], j) by {
        if matches_at(x, seq![c], j) {
            assert(x.subrange(j, j + 1)[0] == x[j]);
        }
    }
    lemma_find_first(x, seq![c], n);
}

/// A text that starts with `k` does not start with a key `q` that differs
/// from `k` at a position both have.
pub proof fn lemma_prefix_excludes(s: Seq<char>, k: Seq<char>, q: Seq<char>, i: int)
    requires
        starts_with(s, k),
        0 <= i < k.len(),
        i < q.len(),
        k[i] != q[i],
    ensures
        !starts_with(s, q),
        strip_prefix(s, q) is None,
{
    assert(s.take(k.len() as int)[i] == s[i]);
    if starts_with(s, q) {
        assert(s.take(q.len() as int)[i] == s[i]);
    }
}

/// Whether `p` occurs in `v` at position `i`.
pub fn match_at(v: &Vec<char>, p: &Vec<char>, i: usize) -> (r: bool)
    ensures
        r == matches_at(v@, p@, i as int),
{
    if i > v.len() || p.len() > v.len() - i {
        return false;
    }
    let mut k: usize = 0;
    while k < p.len()
        invariant
            i + p.len() <= v.len(),
            k <= p.len(),
            forall|j: int| 0 <= j < k ==> v@[i + j] == p@[j],
        decreases p.len() - k,
    {
        if v[i + k] != p[k] {
            assert(v@.subrange(i as int, i + p.len())[k as int] != p@[k as int]);
            return false;
        }
        k += 1;
    }
    assert(v@.subrange(i as int, i + p.len()) =~= p@);
    true
}

/// `str::find`.
pub fn find_chars(v: &Vec<char>, p: &Vec<char>) -> (r: Option<usize>)
    ensures
        match r {
            Some(i) => find(v@, p@) == Some(i as int),
            None => find(v@, p@) is None,
        },
{
    if p.len() > v.len() {
        return None;
    }
    let mut i: usize = 0;
    loop
        invariant
            p.len() <= v.len(),
            i <= v.len() - p.len(),
            find(v@, p@) == find_from(v@, p@, i as int),
        decreases v.len() - p.len() - i,
    {
        if match_at(v, p, i) {
            return Some(i);
        }
        if i == v.len() - p.len() {
            assert(find_from(v@, p@, i + 1) is None);
            return None;
        }
        i += 1;
    }
}

/// `str::find` with a string-slice pattern.
pub fn find_str(v: &Vec<char>, p: &str) -> (r: Option<usize>)
    ensures
        match r {
            Some(i) => find(v@, p@) == Some(i as int),
            None => find(v@, p@) is None,
        },
{
    let pc = chars_of(p);
    find_chars(v, &pc)
}

/// `str::contains` with a string-slice pattern.
pub fn contains_str(v: &Vec<char>, p: &str) -> (r: bool)
    ensures
        r == contains(v@, p@),
{
    find_str(v, p).is_some()
}

/// `str::starts_with` with a string-slice pattern.
pub fn starts_with_str(v: &Vec<char>, p: &str) -> (r: bool)
    ensures
        r == starts_with(v@, p@),
{
    let pc = chars_of(p);
    let r = match_at(v, &pc, 0);
    proof {
        if r {
            assert(v@.take(pc@.len() as int) =~= v@.subrange(0, pc@.len() as int));
        } else if starts_with(v@, p@) {
            assert(v@.take(pc@.len() as int) =~= v@.subrange(0, pc@.len() as int));
        }
    }
    r
}

/// `str::ends_with` with a string-slice pattern.
pub fn ends_with_str(v: &Vec<char>, p: &str) -> (r: bool)
    ensures
        r == ends_with(v@, p@),
{
    let pc = chars_of(p);
    if pc.len() > v.len() {
        return false;
    }
    let r = match_at(v, &pc, v.len() - pc.len());
    proof {
        assert(v@.skip(v.len() - pc.len()) =~= v@.subrange(
            v.len() - pc.len(),
            v.len() - pc.len() + pc.len(),
        ));
    }
    r
}

/// `str::strip_prefix` with a string-slice pattern.
pub fn strip_prefix_str(v: &Vec<char>, p: &str) -> (r: Option<Vec<char>>)
    ensures
        match r {
            Some(t) => strip_prefix(v@, p@) == Some(t@),
            None => strip_prefix(v@, p@) is None,
        },
{
    if starts_with_str(v, p) {
        let n = p.unicode_len();
        Some(slice_of(v, n, v.len()))
    } else {
        None
    }
}

// ───────────────────────── splitting ─────────────────────────

/// The character views of a sequence of character vectors.
pub open spec fn views(v: Seq<Vec<char>>) -> Seq<Seq<char>> {
    v.map_values(|x: Vec<char>| x@)
}

/// `s.split(p).next()`: the text before the first occurrence of `p`.
pub open spec fn before(s: Seq<char>, p: Seq<char>) -> Seq<char> {
    match find(s, p) {
        Some(i) => s.take(i),
        None => s,
    }
}

/// The text after the first occurrence of `p`, if there is one.
pub open spec fn after(s: Seq<char>, p: Seq<char>) -> Option<Seq<char>> {
    match find(s, p) {
        Some(i) => Some(s.skip(i + p.len())),
        None => None,
    }
}

/// `str::split_once`.
pub open spec fn split_once(s: Seq<char>, p: Seq<char>) -> Option<(Seq<char>, Seq<char>)> {
    match find(s, p) {
        Some(i) => Some((s.take(i), s.skip(i + p.len()))),
        None => None,
    }
}

/// `s.split(p).nth(1)`: the text between the first and the second occurrence of
/// `p` (or up to the end when `p` occurs once).
pub open spec fn second_piece(s: Seq<char>, p: Seq<char>) -> Option<Seq<char>> {
    match after(s, p) {
        Some(r) => Some(before(r, p)),
        None => None,
    }
}

pub proof fn lemma_find_bound(s: Seq<char>, p: Seq<char>)
    ensures
        find(s, p) matches Some(i) ==> 0 <= i && i + p.len() <= s.len() && s.subrange(
            i,
            i + p.len(),
        ) == p,
{
    lemma_find_from(s, p, 0);
}

/// `s.split(p).last()` for a non-empty pattern: the text after the last of the
/// non-overlapping occurrences of `p` found from the left.
pub open spec fn last_piece(s: Seq<char>, p: Seq<char>) -> Seq<char>
    decreases s.len(),
{
    if p.len() == 0 {
        s
    } else {
        match find(s, p) {
            Some(i) => {
                proof {
                    lemma_find_bound(s, p);
                }
                last_piece(s.skip(i + p.len()), p)
            },
            None => s,
        }
    }
}

/// `s.split(p)` for a non-empty pattern: every piece, empty ones included.
pub open spec fn pieces(s: Seq<char>, p: Seq<char>) -> Seq<Seq<char>>
    decreases s.len(),
{
    if p.len() == 0 {
        seq![s]
    } else {
        match find(s, p) {
            Some(i) => {
                proof {
                    lemma_find_bound(s, p);
                }
                seq![s.take(i)] + pieces(s.skip(i + p.len()), p)
            },
            None => seq![s],
        }
    }
}

/// Splitting always gives at least one piece.
pub proof fn lemma_pieces_nonempty(s: Seq<char>, p: Seq<char>)
    ensures
        pieces(s, p).len() >= 1,
{
}

/// `str::replace` for a non-empty pattern.
pub open spec fn replace(s: Seq<char>, p: Seq<char>, r: Seq<char>) -> Seq<char>
    decreases s.len(),
{
    if p.len() == 0 {
        s
    } else {
        match find(s, p) {
            Some(i) => {
                proof {
                    lemma_find_bound(s, p);
                }
                s.take(i) + r + replace(s.skip(i + p.len()), p, r)
            },
            None => s,
        }
    }
}

/// `str::split_whitespace`: the maximal runs of non-whitespace characters.
pub open spec fn split_ws(s: Seq<char>) -> Seq<Seq<char>>
    decreases s.len(),
{
    if s.len() == 0 {
        seq![]
    } else if is_ws(s[0]) {
        split_ws(s.drop_first())
    } else {
        let k = lead_run(s, non_ws_pred());
        proof {
            lemma_lead_run_bound(s, non_ws_pred());
        }
        seq![s.take(k as int)] + split_ws(s.skip(k as int))
    }
}

/// Drops one trailing carriage return.
pub open spec fn strip_cr(l: Seq<char>) -> Seq<char> {
    if l.len() > 0 && l.last() == '\r' {
        l.drop_last()
    } else {
        l
    }
}

/// `str::lines`: pieces separated by `\n`, each line losing a `\r` that
/// precedes its `\n`; a final line ending adds no empty line.
pub open spec fn lines(s: Seq<char>) -> Seq<Seq<char>>
    decreases s.len(),
{
    if s.len() == 0 {
        seq![]
    } else {
        match find(s, seq!['\n']) {
            Some(i) => {
                proof {
                    lemma_find_bound(s, seq!['\n']);
                }
                seq![strip_cr(s.take(i))] + lines(s.skip(i + 1))
            },
            None => seq![s],
        }
    }
}

/// `parts.join(sep)`.
pub open spec fn join(parts: Seq<Seq<char>>, sep: Seq<char>) -> Seq<char>
    decreases parts.len(),
{
    if parts.len() == 0 {
        seq![]
    } else if parts.len() == 1 {
        parts[0]
    } else {
        join(parts.drop_last(), sep) + sep + parts.last()
    }
}

/// `s.split(p).next()`.
pub fn before_str(v: &Vec<char>, p: &str) -> (r: Vec<char>)
    ensures
        r@ == before(v@, p@),
{
    proof {
        lemma_find_bound(v@, p@);
    }
    match find_str(v, p) {
        Some(i) => slice_of(v, 0, i),
        None => v.clone(),
    }
}

/// The text after the first occurrence of `p`.
pub fn after_str(v: &Vec<char>, p: &str) -> (r: Option<Vec<char>>)
    ensures
        match r {
            Some(t) => after(v@, p@) == Some(t@),
            None => after(v@, p@) is None,
        },
{
    proof {
        lemma_find_bound(v@, p@);
    }
    match find_str(v, p) {
        Some(i) => {
            let n = p.unicode_len();
            let len = v.len();
            assert(i + n <= len);
            Some(slice_of(v, i + n, len))
        },
        None => None,
    }
}

/// `str::split_once`.
pub fn split_once_str(v: &Vec<char>, p: &str) -> (r: Option<(Vec<char>, Vec<char>)>)
    ensures
        match r {
            Some((a, b)) => split_once(v@, p@) == Some((a@, b@)),
            None => split_once(v@, p@) is None,
        },
{
    proof {
        lemma_find_bound(v@, p@);
    }
    match find_str(v, p) {
        Some(i) => {
            let n = p.unicode_len();
            let len = v.len();
            assert(i + n <= len);
            Some((slice_of(v, 0, i), slice_of(v, i + n, len)))
        },
        None => None,
    }
}

/// `s.split(p).nth(1)`.
pub fn second_piece_str(v: &Vec<char>, p: &str) -> (r: Option<Vec<char>>)
    ensures
        match r {
            Some(t) => second_piece(v@, p@) == Some(t@),
            None => second_piece(v@, p@) is None,
        },
{
    match after_str(v, p) {
        Some(rest) => Some(before_str(&rest, p)),
        None => None,
    }
}

/// `s.split(p).last()` for a non-empty pattern.
pub fn last_piece_str(v: &Vec<char>, p: &str) -> (r: Vec<char>)
    requires
        p@.len() > 0,
    ensures
        r@ == last_piece(v@, p@),
{
    let mut rest = v.clone();
    loop
        invariant
            p@.len() > 0,
            last_piece(v@, p@) == last_piece(rest@, p@),
        decreases rest.len(),
    {
        proof {
            lemma_find_bound(rest@, p@);
        }
        match after_str(&rest, p) {
            Some(t) => {
                rest = t;
            },
            None => {
                return rest;
            },
        }
    }
}

/// `str::replace` for a non-empty pattern.
pub fn replace_str(v: &Vec<char>, p: &str, r: &str) -> (out: Vec<char>)
    requires
        p@.len() > 0,
    ensures
        out@ == replace(v@, p@, r@),
{
    let pc = chars_of(p);
    let rc = chars_of(r);
    let mut out: Vec<char> = Vec::new();
    let mut rest = v.clone();
    loop
        invariant
            p@.len() > 0,
            pc@ == p@,
            rc@ == r@,
            replace(v@, p@, r@) == out@ + replace(rest@, p@, r@),
        decreases rest.len(),
    {
        proof {
            lemma_find_bound(rest@, p@);
        }
        match find_chars(&rest, &pc) {
            Some(i) => {
                let head = slice_of(&rest, 0, i);
                push_all(&mut out, &head);
                push_all(&mut out, &rc);
                rest = slice_of(&rest, i + pc.len(), rest.len());
                assert(replace(v@, p@, r@) == out@ + replace(rest@, p@, r@));
            },
            None => {
                push_all(&mut out, &rest);
                return out;
            },
        }
    }
}

/// `s.split(p)` for a non-empty pattern.
pub fn pieces_str(v: &Vec<char>, p: &str) -> (out: Vec<Vec<char>>)
    requires
        p@.len() > 0,
    ensures
        views(out@) == pieces(v@, p@),
{
    let pc = chars_of(p);
    let mut out: Vec<Vec<char>> = Vec::new();
    let mut rest = v.clone();
    loop
        invariant
            p@.len() > 0,
            pc@ == p@,
            pieces(v@, p@) == views(out@) + pieces(rest@, p@),
        decreases rest.len(),
    {
        proof {
            lemma_find_bound(rest@, p@);
        }
        match find_chars(&rest, &pc) {
            Some(i) => {
                let head = slice_of(&rest, 0, i);
                let ghost old_out = out@;
                out.push(head);
                assert(views(out@) =~= views(old_out).push(head@));
                rest = slice_of(&rest, i + pc.len(), rest.len());
            },
            None => {
                let ghost old_out = out@;
                out.push(rest);
                assert(views(out@) =~= views(old_out).push(rest@));
                return out;
            },
        }
    }
}

fn non_ws_end(v: &Vec<char>, pos: usize) -> (k: usize)
    requires
        pos <= v.len(),
    ensures
        pos <= k <= v.len(),
        lead_run(v@.skip(pos as int), non_ws_pred()) == (k - pos) + lead_run(
            v@.skip(k as int),
            non_ws_pred(),
        ),
        k < v.len() ==> is_ws(v@[k as int]),
{
    let mut k: usize = pos;
    while k < v.len() && !char_is_ws(v[k])
        invariant
            pos <= k <= v.len(),
            lead_run(v@.skip(pos as int), non_ws_pred()) == (k - pos) + lead_run(
                v@.skip(k as int),
                non_ws_pred(),
            ),
        decreases v.len() - k,
    {
        assert(v@.skip(k as int).drop_first() =~= v@.skip(k + 1));
        k += 1;
    }
    k
}

/// `str::split_whitespace`.
pub fn split_ws_chars(v: &Vec<char>) -> (out: Vec<Vec<char>>)
    ensures
        views(out@) == split_ws(v@),
{
    let mut out: Vec<Vec<char>> = Vec::new();
    let mut pos: usize = 0;
    assert(v@.skip(0) =~= v@);
    while pos < v.len()
        invariant
            pos <= v.len(),
            split_ws(v@) == views(out@) + split_ws(v@.skip(pos as int)),
        decreases v.len() - pos,
    {
        let ghost rest = v@.skip(pos as int);
        if char_is_ws(v[pos]) {
            assert(rest.drop_first() =~= v@.skip(pos + 1));
            pos += 1;
        } else {
            let k = non_ws_end(v, pos);
            let tok = slice_of(v, pos, k);
            assert(tok@ =~= rest.take((k - pos) as int));
            assert(rest.skip((k - pos) as int) =~= v@.skip(k as int));
            let ghost old_out = out@;
            out.push(tok);
            assert(views(out@) =~= views(old_out).push(tok@));
            pos = k;
        }
    }
    assert(v@.skip(pos as int) =~= Seq::<char>::empty());
    assert(views(out@) + Seq::<Seq<char>>::empty() =~= views(out@));
    out
}

fn strip_cr_vec(l: Vec<char>) -> (r: Vec<char>)
    ensures
        r@ == strip_cr(l@),
{
    if l.len() > 0 && l[l.len() - 1] == '\r' {
        let n = l.len() - 1;
        slice_of(&l, 0, n)
    } else {
        l
    }
}

/// `str::lines`.
pub fn lines_of(v: &Vec<char>) -> (out: Vec<Vec<char>>)
    ensures
        views(out@) == lines(v@),
{
    let nl: Vec<char> = vec!['\n'];
    let mut out: Vec<Vec<char>> = Vec::new();
    let mut rest = v.clone();
    loop
        invariant
            nl@ == seq!['\n'],
            lines(v@) == views(out@) + lines(rest@),
        decreases rest.len(),
    {
        if rest.len() == 0 {
            assert(views(out@) + Seq::<Seq<char>>::empty() =~= views(out@));
            return out;
        }
        proof {
            lemma_find_bound(rest@, seq!['\n']);
        }
        match find_chars(&rest, &nl) {
            Some(i) => {
                let head = strip_cr_vec(slice_of(&rest, 0, i));
                let ghost old_out = out@;
                out.push(head);
                assert(views(out@) =~= views(old_out).push(head@));
                rest = slice_of(&rest, i + 1, rest.len());
            },
            None => {
                let ghost old_out = out@;
                out.push(rest);
                assert(views(out@) =~= views(old_out).push(rest@));
                return out;
            },
        }
    }
}

/// `parts.join(sep)`.
pub fn join_chars(parts: &Vec<Vec<char>>, sep: &str) -> (r: Vec<char>)
    ensures
        r@ == join(views(parts@), sep@),
{
    let sc = chars_of(sep);
    let mut r: Vec<char> = Vec::new();
    let mut k: usize = 0;
    while k < parts.len()
        invariant
            k <= parts.len(),
            sc@ == sep@,
            r@ == join(views(parts@).take(k as int), sep@),
        decreases parts.len() - k,
    {
        let ghost pre = views(parts@).take(k as int);
        let ghost next = views(parts@).take(k + 1);
        assert(next.drop_last() =~= pre);
        if k > 0 {
            push_all(&mut r, &sc);
        } else {
            assert(next =~= seq![parts@[0]@]);
        }
        push_all(&mut r, &parts[k]);
        k += 1;
    }
    assert(views(parts@).take(parts.len() as int) =~= views(parts@));
    r
}

// ───────────────────────── case and byte length ─────────────────────────

/// What std's `str::to_lowercase` returns for the characters `s` (the Unicode
/// lowercase mapping, which is too large to state here).
pub uninterp spec fn lowercase(s: Seq<char>) -> Seq<char>;

/// An ASCII character: code point below 128.
pub open spec fn is_ascii_char(c: char) -> bool {
    (c as u32) < 128
}

/// `A`..=`Z` lowered to `a`..=`z`; any other character as it is.
pub open spec fn ascii_lower(c: char) -> char {
    if 'A' <= c && c <= 'Z' {
        ((c as u32) + 32) as char
    } else {
        c
    }
}

/// std `str::to_lowercase`. The contract names the result, and states the
/// case that the mapping's definition makes plain: an ASCII text is lowered
/// character by character, `A`..=`Z` to `a`..=`z`.
#[verifier::external_body]
pub(crate) fn to_lowercase(v: &Vec<char>) -> (r: Vec<char>)
    ensures
        r@ == lowercase(v@),
        (forall|i: int| 0 <= i < v@.len() ==> is_ascii_char(#[trigger] v@[i])) ==> r@
            == v@.map_values(|c: char| ascii_lower(c)),
{
    let s: String = v.iter().collect();
    s.to_lowercase().chars().collect()
}

/// Length in bytes of the UTF-8 encoding of `s` (what `str::len` returns).
pub open spec fn utf8_len(s: Seq<char>) -> nat {
    vstd::utf8::encode_utf8(s).len()
}

/// `str::len`: the UTF-8 byte length.
pub fn byte_len(s: &str) -> (n: usize)
    ensures
        n == utf8_len(s@),
{
    let b = s.as_bytes();
    b.len()
}

/// The characters of an optional string.
pub open spec fn opt_string_view(o: Option<String>) -> Option<Seq<char>> {
    match o {
        Some(s) => Some(s@),
        None => None,
    }
}

/// The character views of a sequence of strings.
pub open spec fn string_views(v: Seq<String>) -> Seq<Seq<char>> {
    v.map_values(|x: String| x@)
}

/// The strings whose characters are the given vectors.
pub fn strings_of(v: &Vec<Vec<char>>) -> (r: Vec<String>)
    ensures
        string_views(r@) == views(v@),
{
    let mut r: Vec<String> = Vec::new();
    let mut k: usize = 0;
    while k < v.len()
        invariant
            k <= v.len(),
            string_views(r@) == views(v@).take(k as int),
        decreases v.len() - k,
    {
        let ghost old_r = r@;
        let st = string_of(&v[k]);
        assert(st@ == views(v@)[k as int]);
        r.push(st);
        assert(string_views(r@) =~= string_views(old_r).push(st@));
        assert(views(v@).take(k + 1) =~= views(v@).take(k as int).push(views(v@)[k as int]));
        k += 1;
    }
    assert(views(v@).take(v.len() as int) =~= views(v@));
    r
}

/// The characters of a string.
pub fn chars_of_string(s: &String) -> (v: Vec<char>)
    ensures
        v@ == s@,
{
    chars_of(s.as_str())
}
} // verus!
