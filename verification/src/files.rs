//! Files and directories: paths shown with `~` for the home directory, the
//! order in which a directory is listed, and the commands and replies of
//! remote file access over `ssh`.
use base64::Engine;
use vstd::prelude::*;

use crate::num::{parse_u64, parse_unsigned};
use crate::shell::{escape_single_quotes, escape_single_quotes_str};
use crate::text::{
    char_pred, chars_of, chars_of_string, ends_with, ends_with_str, eq_chars, eq_str, lines,
    lines_of, lowercase, opt_string_view, push_all, push_str, slice_of, starts_with, string_of,
    strip_prefix, strip_prefix_str, to_lowercase, trim, trim_end_by, trim_end_char, trim_ws,
    views,
};

verus! {

broadcast use vstd::seq_lib::group_seq_properties;

/// One entry of a directory listing.
#[derive(Debug)]
pub struct DirEntry {
    pub name: String,
    pub is_dir: bool,
    pub is_hidden: bool,
    pub path: String,
}

// ───────────────────────── paths and the home directory ─────────────────────────

/// Every backslash of `p` made a forward slash.
pub open spec fn normalized(p: Seq<char>) -> Seq<char> {
    p.map_values(|c: char| if c == '\\' { '/' } else { c })
}

/// A path with forward slashes only, as the front end shows paths.
pub fn normalize_separators(path: &str) -> (r: String)
    ensures
        r@ == normalized(path@),
{
    let v = chars_of(path);
    let mut out: Vec<char> = Vec::new();
    let mut k: usize = 0;
    while k < v.len()
        invariant
            k <= v.len(),
            out@ == normalized(v@.take(k as int)),
        decreases v.len() - k,
    {
        let c = v[k];
        let m = if c == '\\' {
            '/'
        } else {
            c
        };
        out.push(m);
        assert(v@.take(k + 1) =~= v@.take(k as int).push(c));
        assert(normalized(v@.take(k + 1)) =~= normalized(v@.take(k as int)).push(m));
        k += 1;
    }
    assert(v@.take(v.len() as int) =~= v@);
    string_of(&out)
}

/// Normalising a normalised path changes nothing, and a normalised path holds
/// no backslash.
pub proof fn lemma_normalized_idempotent(p: Seq<char>)
    ensures
        normalized(normalized(p)) == normalized(p),
        forall|i: int| 0 <= i < normalized(p).len() ==> normalized(p)[i] != '\\',
{
    assert(normalized(normalized(p)) =~= normalized(p));
}

/// The user's home directory (`dirs::home_dir`), as text. It comes from the
/// environment, so nothing is stated of it.
#[verifier::external_body]
pub(crate) fn home_dir() -> (r: Option<String>) {
    match dirs::home_dir() {
        Some(h) => Some(h.to_string_lossy().to_string()),
        None => None,
    }
}

/// A path with a leading `~` read as the home directory, when it is known.
pub open spec fn expanded(path: Seq<char>, home: Option<Seq<char>>) -> Seq<char> {
    match home {
        Some(h) => if path.len() > 0 && path[0] == '~' {
            h + path.drop_first()
        } else {
            path
        },
        None => path,
    }
}

/// `path` with each `/` written `sep`.
pub open spec fn with_separator(path: Seq<char>, sep: char) -> Seq<char> {
    path.map_values(|c: char| if c == '/' { sep } else { c })
}

/// The first `~` of a path that starts with one replaced by `home`, then
/// each `/` written as the platform's separator `sep`.
pub fn expand_home_with(path: &str, home: Option<String>, sep: char) -> (r: String)
    ensures
        r@ == with_separator(expanded(path@, opt_string_view(home)), sep),
{
    let v = chars_of(path);
    let mut e: Vec<char> = v.clone();
    if v.len() > 0 && v[0] == '~' {
        match home {
            Some(h) => {
                let mut out = chars_of_string(&h);
                let rest = slice_of(&v, 1, v.len());
                assert(rest@ =~= v@.drop_first());
                push_all(&mut out, &rest);
                e = out;
            },
            None => {},
        }
    }
    assert(e@ == expanded(path@, opt_string_view(home)));
    let mut out: Vec<char> = Vec::new();
    let mut k: usize = 0;
    while k < e.len()
        invariant
            k <= e.len(),
            out@ == with_separator(e@.take(k as int), sep),
        decreases e.len() - k,
    {
        let c = e[k];
        out.push(if c == '/' { sep } else { c });
        assert(e@.take(k + 1) =~= e@.take(k as int).push(c));
        assert(out@ =~= with_separator(e@.take(k + 1), sep));
        k += 1;
    }
    assert(e@.take(e.len() as int) =~= e@);
    string_of(&out)
}

/// The separator of path components on this platform
/// (`std::path::MAIN_SEPARATOR`): `\` on Windows, `/` elsewhere.
#[verifier::external_body]
fn main_separator() -> (c: char)
    ensures
        c == '/' || c == '\\',
{
    std::path::MAIN_SEPARATOR
}

/// A path as the file system takes it: a leading `~` becomes the home
/// directory when the environment names one, and each `/` becomes the
/// platform's separator (`\` on Windows; elsewhere the path keeps its
/// slashes).
pub fn expand_home(path: &str) -> (r: String)
    ensures
        exists|h: Option<Seq<char>>, sep: char|
            (sep == '/' || sep == '\\') && r@ == with_separator(expanded(path@, h), sep),
{
    let home = home_dir();
    let ghost hv = opt_string_view(home);
    let sep = main_separator();
    let r = expand_home_with(path, home, sep);
    assert(r@ == with_separator(expanded(path@, hv), sep));
    r
}

/// With `/` as the separator, writing the separator changes nothing.
pub proof fn lemma_slash_separator(p: Seq<char>)
    ensures
        with_separator(p, '/') == p,
{
    assert(with_separator(p, '/') =~= p);
}

/// A path as the front end shows it: the home directory written `~`, and
/// forward slashes throughout.
pub open spec fn home_relative(path: Seq<char>, home: Option<Seq<char>>) -> Seq<char> {
    match home {
        Some(h) => if path == h {
            seq!['~']
        } else {
            match strip_prefix(path, h) {
                Some(rest) => normalized(seq!['~'] + rest),
                None => normalized(path),
            }
        },
        None => normalized(path),
    }
}

/// The home directory at the start of `path` written `~`, with forward slashes.
pub fn replace_home_prefix_with(path: &str, home: Option<String>) -> (r: String)
    ensures
        r@ == home_relative(path@, opt_string_view(home)),
{
    let v = chars_of(path);
    match home {
        Some(h) => {
            let hv = chars_of_string(&h);
            if eq_chars(&v, &hv) {
                proof {
                    reveal_strlit("~");
                }
                return String::from_str("~");
            }
            match strip_prefix_str(&v, h.as_str()) {
                Some(rest) => {
                    let mut t: Vec<char> = vec!['~'];
                    push_all(&mut t, &rest);
                    let ts = string_of(&t);
                    return normalize_separators(ts.as_str());
                },
                None => {},
            }
        },
        None => {},
    }
    normalize_separators(path)
}

/// A path as the front end shows it, with the environment's home directory.
pub fn replace_home_prefix(path: &str) -> (r: String)
    ensures
        exists|h: Option<Seq<char>>| r@ == home_relative(path@, h),
{
    let home = home_dir();
    let ghost hv = opt_string_view(home);
    let r = replace_home_prefix_with(path, home);
    assert(r@ == home_relative(path@, hv));
    r
}

/// Writing a path with `~` and expanding it again gives the path back, for a
/// path with forward slashes only that starts with the home directory or does
/// not start with `~`.
pub proof fn lemma_home_round_trip(path: Seq<char>, home: Seq<char>)
    requires
        forall|i: int| 0 <= i < path.len() ==> path[i] != '\\',
        starts_with(path, home) || !(path.len() > 0 && path[0] == '~'),
    ensures
        expanded(home_relative(path, Some(home)), Some(home)) == path,
{
    assert(normalized(path) =~= path);
    if path == home {
        assert(home + seq!['~'].drop_first() =~= path);
    } else if let Some(rest) = strip_prefix(path, home) {
        let t = seq!['~'] + rest;
        assert(normalized(t) =~= t);
        assert(t.drop_first() =~= rest);
        assert(home + rest =~= path);
    }
}

// ───────────────────────── the listing order ─────────────────────────

/// `a` sorts before `b` as `str::cmp` orders text: at the first character
/// where they differ `a` has the smaller one, or `a` is a proper prefix of `b`
/// (UTF-8 byte order and code point order agree).
pub open spec fn text_less(a: Seq<char>, b: Seq<char>) -> bool
    decreases a.len(),
{
    if a.len() == 0 {
        b.len() > 0
    } else if b.len() == 0 {
        false
    } else if a[0] != b[0] {
        a[0] < b[0]
    } else {
        text_less(a.drop_first(), b.drop_first())
    }
}

/// No text sorts before itself.
pub proof fn lemma_text_less_irreflexive(a: Seq<char>)
    ensures
        !text_less(a, a),
    decreases a.len(),
{
    if a.len() > 0 {
        lemma_text_less_irreflexive(a.drop_first());
    }
}

/// The text order is transitive.
pub proof fn lemma_text_less_transitive(a: Seq<char>, b: Seq<char>, c: Seq<char>)
    requires
        text_less(a, b),
        text_less(b, c),
    ensures
        text_less(a, c),
    decreases a.len(),
{
    if a.len() > 0 && a[0] == b[0] && b[0] == c[0] {
        lemma_text_less_transitive(a.drop_first(), b.drop_first(), c.drop_first());
    }
}

/// Of two different texts, one sorts before the other.
pub proof fn lemma_text_less_total(a: Seq<char>, b: Seq<char>)
    ensures
        a == b || text_less(a, b) || text_less(b, a),
    decreases a.len(),
{
    if a.len() == 0 && b.len() == 0 {
        assert(a =~= b);
    } else if a.len() > 0 && b.len() > 0 && a[0] != b[0] {
    } else if a.len() > 0 && b.len() > 0 && a[0] == b[0] {
        lemma_text_less_total(a.drop_first(), b.drop_first());
        if a.drop_first() == b.drop_first() {
            assert(a =~= seq![a[0]] + a.drop_first());
            assert(b =~= seq![b[0]] + b.drop_first());
        }
    }
}

/// The listing order on the keys of two entries: directories before files,
/// and within each group the lowercase names in text order.
pub open spec fn key_less(da: bool, ka: Seq<char>, db: bool, kb: Seq<char>) -> bool {
    (da && !db) || (da == db && text_less(ka, kb))
}

/// `a` is listed before `b`.
pub open spec fn listed_before(a: DirEntry, b: DirEntry) -> bool {
    key_less(a.is_dir, lowercase(a.name@), b.is_dir, lowercase(b.name@))
}

proof fn lemma_listed_before_order(a: DirEntry, b: DirEntry, c: DirEntry)
    ensures
        !listed_before(a, a),
        listed_before(a, b) && listed_before(b, c) ==> listed_before(a, c),
        !listed_before(a, b) && !listed_before(b, c) ==> !listed_before(a, c),
{
    let (ka, kb, kc) = (lowercase(a.name@), lowercase(b.name@), lowercase(c.name@));
    lemma_text_less_irreflexive(ka);
    lemma_text_less_total(ka, kb);
    lemma_text_less_total(kb, kc);
    lemma_text_less_total(ka, kc);
    if text_less(ka, kb) && text_less(kb, kc) {
        lemma_text_less_transitive(ka, kb, kc);
    }
    if text_less(kb, ka) && text_less(kc, kb) {
        lemma_text_less_transitive(kc, kb, ka);
    }
    if text_less(ka, kc) && text_less(kc, kb) {
        lemma_text_less_transitive(ka, kc, kb);
    }
    if text_less(kb, ka) && text_less(ka, kc) {
        lemma_text_less_transitive(kb, ka, kc);
    }
    if text_less(kc, ka) && text_less(kb, kc) {
        lemma_text_less_transitive(kb, kc, ka);
    }
    if text_less(kc, ka) && text_less(ka, kb) {
        lemma_text_less_transitive(kc, ka, kb);
    }
    lemma_text_less_irreflexive(kb);
    lemma_text_less_irreflexive(kc);
}

/// `e` put into the listing `s`: after every entry it is not listed before,
/// so that entries that compare equal keep their order.
pub open spec fn insert_entry(s: Seq<DirEntry>, e: DirEntry) -> Seq<DirEntry>
    decreases s.len(),
{
    if s.len() == 0 {
        seq![e]
    } else if listed_before(e, s.last()) {
        insert_entry(s.drop_last(), e).push(s.last())
    } else {
        s.push(e)
    }
}

/// The entries in listing order, ties in their original order (the stable
/// sort that `slice::sort_by` performs).
pub open spec fn sorted_listing(s: Seq<DirEntry>) -> Seq<DirEntry>
    decreases s.len(),
{
    if s.len() == 0 {
        s
    } else {
        insert_entry(sorted_listing(s.drop_last()), s.last())
    }
}

/// No entry of `s` is listed before an entry that comes earlier.
pub open spec fn listing_sorted(s: Seq<DirEntry>) -> bool {
    forall|i: int, j: int| 0 <= i < j < s.len() ==> !listed_before(#[trigger] s[j], #[trigger] s[i])
}

proof fn lemma_insert_bound(s: Seq<DirEntry>, e: DirEntry, y: DirEntry)
    requires
        !listed_before(y, e),
        forall|i: int| 0 <= i < s.len() ==> !listed_before(y, #[trigger] s[i]),
    ensures
        forall|i: int|
            0 <= i < insert_entry(s, e).len() ==> !listed_before(y, #[trigger] insert_entry(s, e)[i]),
    decreases s.len(),
{
    if s.len() == 0 {
        assert(insert_entry(s, e) =~= seq![e]);
    } else if listed_before(e, s.last()) {
        let dl = s.drop_last();
        assert forall|i: int| 0 <= i < dl.len() implies !listed_before(y, #[trigger] dl[i]) by {
            assert(dl[i] == s[i]);
        }
        lemma_insert_bound(dl, e, y);
        let r = insert_entry(dl, e);
        assert(insert_entry(s, e) == r.push(s.last()));
        assert forall|i: int| 0 <= i < r.push(s.last()).len() implies !listed_before(
            y,
            #[trigger] r.push(s.last())[i],
        ) by {
            if i < r.len() {
                assert(r.push(s.last())[i] == r[i]);
            }
        }
    } else {
        assert(insert_entry(s, e) == s.push(e));
        assert forall|i: int| 0 <= i < s.push(e).len() implies !listed_before(
            y,
            #[trigger] s.push(e)[i],
        ) by {
            if i < s.len() {
                assert(s.push(e)[i] == s[i]);
            }
        }
    }
}

proof fn lemma_insert_sorted(s: Seq<DirEntry>, e: DirEntry)
    requires
        listing_sorted(s),
    ensures
        listing_sorted(insert_entry(s, e)),
        insert_entry(s, e).to_multiset() == s.to_multiset().insert(e),
    decreases s.len(),
{
    if s.len() == 0 {
        assert(seq![e] =~= Seq::<DirEntry>::empty().push(e));
    } else {
        let last = s.last();
        let dl = s.drop_last();
        assert(s =~= dl.push(last));
        if listed_before(e, last) {
            lemma_insert_sorted(dl, e);
            lemma_listed_before_order(e, last, e);
            assert forall|i: int| 0 <= i < dl.len() implies !listed_before(last, #[trigger] dl[i]) by {
                assert(s[i] == dl[i]);
            }
            lemma_insert_bound(dl, e, last);
            let r = insert_entry(dl, e);
            assert forall|i: int, j: int| 0 <= i < j < r.push(last).len() implies !listed_before(
                #[trigger] r.push(last)[j],
                #[trigger] r.push(last)[i],
            ) by {
                if j < r.len() {
                    assert(r.push(last)[j] == r[j]);
                    assert(r.push(last)[i] == r[i]);
                } else {
                    assert(r.push(last)[i] == r[i]);
                }
            }
        } else {
            assert forall|i: int| 0 <= i < s.len() implies !listed_before(e, #[trigger] s[i]) by {
                if i < s.len() - 1 {
                    lemma_listed_before_order(e, last, s[i]);
                }
            }
        }
    }
}

/// The listing order puts no entry before an entry that precedes it, and the
/// listing holds the same entries as the input.
pub proof fn lemma_sorted_listing(s: Seq<DirEntry>)
    ensures
        listing_sorted(sorted_listing(s)),
        sorted_listing(s).to_multiset() == s.to_multiset(),
    decreases s.len(),
{
    if s.len() > 0 {
        lemma_sorted_listing(s.drop_last());
        lemma_insert_sorted(sorted_listing(s.drop_last()), s.last());
        assert(s =~= s.drop_last().push(s.last()));
    }
}

proof fn lemma_insert_at(s: Seq<DirEntry>, e: DirEntry, j: int)
    requires
        0 <= j <= s.len(),
        forall|k: int| j <= k < s.len() ==> listed_before(e, #[trigger] s[k]),
        j == 0 || !listed_before(e, s[j - 1]),
    ensures
        insert_entry(s, e) == s.insert(j, e),
    decreases s.len(),
{
    if s.len() == 0 {
        assert(s.insert(j, e) =~= seq![e]);
    } else if j == s.len() {
        assert(s.insert(j, e) =~= s.push(e));
    } else {
        let dl = s.drop_last();
        assert(listed_before(e, s[s.len() - 1]));
        assert forall|k: int| j <= k < dl.len() implies listed_before(e, #[trigger] dl[k]) by {
            assert(dl[k] == s[k]);
        }
        lemma_insert_at(dl, e, j);
        assert(dl.insert(j, e).push(s.last()) =~= s.insert(j, e));
    }
}

/// `key_less` on the computed keys.
fn key_less_exec(da: bool, ka: &Vec<char>, db: bool, kb: &Vec<char>) -> (r: bool)
    ensures
        r == key_less(da, ka@, db, kb@),
{
    if da && !db {
        return true;
    }
    if da != db {
        return false;
    }
    let mut k: usize = 0;
    while k < ka.len() && k < kb.len()
        invariant
            da == db,
            k <= ka.len(),
            k <= kb.len(),
            ka@.take(k as int) == kb@.take(k as int),
            text_less(ka@, kb@) == text_less(ka@.skip(k as int), kb@.skip(k as int)),
        decreases ka.len() - k,
    {
        let ghost sa = ka@.skip(k as int);
        let ghost sb = kb@.skip(k as int);
        assert(sa.len() > 0 && sb.len() > 0);
        assert(sa.drop_first() =~= ka@.skip(k + 1));
        assert(sb.drop_first() =~= kb@.skip(k + 1));
        assert(sa[0] == ka@[k as int]);
        assert(sb[0] == kb@[k as int]);
        if ka[k] != kb[k] {
            assert(text_less(sa, sb) == (sa[0] < sb[0]));
            return ka[k] < kb[k];
        }
        assert(ka@.take(k + 1) =~= ka@.take(k as int).push(ka@[k as int]));
        assert(kb@.take(k + 1) =~= kb@.take(k as int).push(kb@[k as int]));
        k += 1;
    }
    assert(ka@.skip(k as int).len() == 0 || kb@.skip(k as int).len() == 0);
    kb.len() > k
}

/// Entries in listing order: directories first, then files, each group by
/// name without regard to case; entries that compare equal keep their order.
pub fn sort_dir_entries(entries: Vec<DirEntry>) -> (r: Vec<DirEntry>)
    ensures
        r@ == sorted_listing(entries@),
{
    let ghost orig = entries@;
    let mut input = entries;
    let mut res: Vec<DirEntry> = Vec::new();
    let mut keys: Vec<Vec<char>> = Vec::new();
    let ghost mut taken: int = 0;
    while input.len() > 0
        invariant
            0 <= taken <= orig.len(),
            input@ == orig.skip(taken),
            res@ == sorted_listing(orig.take(taken)),
            keys.len() == res.len(),
            forall|i: int| 0 <= i < res.len() ==> (#[trigger] keys@[i])@ == lowercase(res@[i].name@),
        decreases input.len(),
    {
        let x = input.remove(0);
        let kx = to_lowercase(&chars_of_string(&x.name));
        let mut j = res.len();
        while j > 0 && key_less_exec(x.is_dir, &kx, res[j - 1].is_dir, &keys[j - 1])
            invariant
                j <= res.len(),
                keys.len() == res.len(),
                kx@ == lowercase(x.name@),
                forall|i: int| 0 <= i < res.len() ==> (#[trigger] keys@[i])@ == lowercase(res@[i].name@),
                forall|k: int| j <= k < res.len() ==> listed_before(x, #[trigger] res@[k]),
            decreases j,
        {
            j -= 1;
        }
        proof {
            lemma_insert_at(res@, x, j as int);
            assert(orig.take(taken + 1).drop_last() =~= orig.take(taken));
            assert(orig.take(taken + 1).last() == x);
        }
        let ghost keys_before = keys@;
        res.insert(j, x);
        keys.insert(j, kx);
        proof {
            taken = taken + 1;
            assert(input@ =~= orig.skip(taken));
            assert forall|i: int| 0 <= i < res.len() implies (#[trigger] keys@[i])@ == lowercase(
                res@[i].name@,
            ) by {
                if i > j {
                    assert(keys@[i] == keys_before[i - 1]);
                }
            }
        }
    }
    assert(orig.take(taken) =~= orig);
    res
}

// ───────────────────────── listings ─────────────────────────

/// A name that starts with `.`.
pub open spec fn is_hidden_name(name: Seq<char>) -> bool {
    name.len() > 0 && name[0] == '.'
}

/// An entry of a local directory as the file system reports it.
#[derive(Debug)]
pub struct RawDirEntry {
    pub name: String,
    pub is_dir: bool,
    pub full_path: String,
}

/// `e` is the listing entry of `raw`: the same name and kind, hidden when the
/// name starts with `.`, and its path shown relative to `home`.
pub open spec fn local_entry_of(e: DirEntry, raw: RawDirEntry, home: Option<Seq<char>>) -> bool {
    &&& e.name@ == raw.name@
    &&& e.is_dir == raw.is_dir
    &&& e.is_hidden == is_hidden_name(raw.name@)
    &&& e.path@ == home_relative(raw.full_path@, home)
}

fn first_is_dot(v: &Vec<char>) -> (b: bool)
    ensures
        b == is_hidden_name(v@),
{
    v.len() > 0 && v[0] == '.'
}

/// The listing of a local directory: its entries, hidden ones marked, paths
/// shown relative to `home`, in listing order.
pub fn local_listing(raw: Vec<RawDirEntry>, home: Option<String>) -> (r: Vec<DirEntry>)
    ensures
        exists|pre: Seq<DirEntry>|
            #![trigger sorted_listing(pre)]
            pre.len() == raw@.len() && (forall|i: int|
                0 <= i < pre.len() ==> local_entry_of(
                    #[trigger] pre[i],
                    raw@[i],
                    opt_string_view(home),
                )) && r@ == sorted_listing(pre),
{
    let mut pre: Vec<DirEntry> = Vec::new();
    let mut k: usize = 0;
    while k < raw.len()
        invariant
            k <= raw.len(),
            pre.len() == k,
            forall|i: int|
                0 <= i < k ==> local_entry_of(#[trigger] pre@[i], raw@[i], opt_string_view(home)),
        decreases raw.len() - k,
    {
        let e = &raw[k];
        let nv = chars_of_string(&e.name);
        let hidden = first_is_dot(&nv);
        let path = replace_home_prefix_with(e.full_path.as_str(), home.clone());
        pre.push(DirEntry { name: e.name.clone(), is_dir: e.is_dir, is_hidden: hidden, path });
        k += 1;
    }
    let ghost p = pre@;
    let r = sort_dir_entries(pre);
    assert(r@ == sorted_listing(p));
    r
}

/// The path of `name` inside the directory `dir`.
pub open spec fn child_path(dir: Seq<char>, name: Seq<char>) -> Seq<char> {
    if ends_with(dir, seq!['/']) {
        dir + name
    } else {
        dir + seq!['/'] + name
    }
}

/// The entry that a line of `ls -1ap` stands for: its name (a directory's
/// without the trailing `/`), whether it is a directory, and its path; none
/// for a blank line, `./`, `../`, or a line of slashes.
pub open spec fn remote_item(line: Seq<char>, dir: Seq<char>) -> Option<(Seq<char>, bool, Seq<char>)> {
    let l = trim(line);
    if l.len() == 0 || l == seq!['.', '/'] || l == seq!['.', '.', '/'] {
        None
    } else {
        let is_dir = ends_with(l, seq!['/']);
        let name = if is_dir {
            trim_end_by(l, char_pred('/'))
        } else {
            l
        };
        if name.len() == 0 {
            None
        } else {
            Some((name, is_dir, child_path(dir, name)))
        }
    }
}

/// The entries of the lines of an `ls -1ap` listing of `dir`, in order.
pub open spec fn remote_items(ls: Seq<Seq<char>>, dir: Seq<char>) -> Seq<(Seq<char>, bool, Seq<char>)>
    decreases ls.len(),
{
    if ls.len() == 0 {
        seq![]
    } else {
        let rest = remote_items(ls.drop_last(), dir);
        match remote_item(ls.last(), dir) {
            Some(it) => rest.push(it),
            None => rest,
        }
    }
}

/// `e` is the listing entry of the item `it`.
pub open spec fn entry_is_item(e: DirEntry, it: (Seq<char>, bool, Seq<char>)) -> bool {
    &&& e.name@ == it.0
    &&& e.is_dir == it.1
    &&& e.is_hidden == is_hidden_name(it.0)
    &&& e.path@ == it.2
}

fn remote_entry(line: &Vec<char>, dir: &Vec<char>) -> (r: Option<DirEntry>)
    ensures
        match r {
            Some(e) => remote_item(line@, dir@) matches Some(it) && entry_is_item(e, it),
            None => remote_item(line@, dir@) is None,
        },
{
    let l = trim_ws(line);
    if l.len() == 0 || eq_chars(&l, &vec!['.', '/']) || eq_chars(&l, &vec!['.', '.', '/']) {
        return None;
    }
    let is_dir = l[l.len() - 1] == '/';
    proof {
        assert(ends_with(l@, seq!['/']) == is_dir) by {
            if l@.len() >= 1 {
                assert(l@.skip(l@.len() - 1) =~= seq![l@[l@.len() - 1]]);
            }
        }
    }
    let name = if is_dir {
        trim_end_char(&l, '/')
    } else {
        l
    };
    if name.len() == 0 {
        return None;
    }
    let hidden = first_is_dot(&name);
    let ends_slash = dir.len() > 0 && dir[dir.len() - 1] == '/';
    proof {
        if dir@.len() >= 1 {
            assert(dir@.skip(dir@.len() - 1) =~= seq![dir@[dir@.len() - 1]]);
        }
        assert(ends_with(dir@, seq!['/']) == ends_slash);
    }
    let mut path = dir.clone();
    if !ends_slash {
        path.push('/');
    }
    push_all(&mut path, &name);
    assert(path@ =~= child_path(dir@, name@));
    let ghost it = (name@, is_dir, child_path(dir@, name@));
    assert(remote_item(line@, dir@) == Some(it));
    Some(DirEntry { name: string_of(&name), is_dir, is_hidden: hidden, path: string_of(&path) })
}

/// The listing of a remote directory `dir` from the output of `ls -1ap`:
/// one entry per line that names one, in listing order.
pub fn parse_remote_listing(dir: &str, stdout: &str) -> (r: Vec<DirEntry>)
    ensures
        exists|pre: Seq<DirEntry>|
            #![trigger sorted_listing(pre)]
            pre.len() == remote_items(lines(stdout@), dir@).len() && (forall|i: int|
                0 <= i < pre.len() ==> entry_is_item(
                    #[trigger] pre[i],
                    remote_items(lines(stdout@), dir@)[i],
                )) && r@ == sorted_listing(pre),
{
    let dv = chars_of(dir);
    let ls = lines_of(&chars_of(stdout));
    let ghost all = views(ls@);
    let mut pre: Vec<DirEntry> = Vec::new();
    let mut k: usize = 0;
    while k < ls.len()
        invariant
            k <= ls.len(),
            all == views(ls@),
            dv@ == dir@,
            pre.len() == remote_items(all.take(k as int), dir@).len(),
            forall|i: int|
                0 <= i < pre.len() ==> entry_is_item(
                    #[trigger] pre@[i],
                    remote_items(all.take(k as int), dir@)[i],
                ),
        decreases ls.len() - k,
    {
        assert(all.take(k + 1).drop_last() =~= all.take(k as int));
        assert(all.take(k + 1).last() == ls@[k as int]@);
        match remote_entry(&ls[k], &dv) {
            Some(e) => {
                pre.push(e);
            },
            None => {},
        }
        k += 1;
    }
    assert(all.take(ls.len() as int) =~= all);
    let ghost p = pre@;
    let r = sort_dir_entries(pre);
    assert(r@ == sorted_listing(p));
    r
}

// ───────────────────────── remote files ─────────────────────────

/// `prefix` + `'path'` + `suffix`, the path quoted for `sh`.
fn quoted_command(prefix: &str, path: &str, suffix: &str) -> (r: String)
    ensures
        r@ == prefix@ + seq!['\''] + escape_single_quotes(path@) + seq!['\''] + suffix@,
{
    let mut v = chars_of(prefix);
    v.push('\'');
    let e = escape_single_quotes_str(path);
    push_str(&mut v, e.as_str());
    v.push('\'');
    push_str(&mut v, suffix);
    string_of(&v)
}

/// The remote command that lists a directory, one entry per line, directories
/// marked with a trailing `/`.
pub fn remote_list_command(path: &str) -> (r: String)
    ensures
        r@ == "ls -1ap "@ + seq!['\''] + escape_single_quotes(path@) + seq!['\''],
{
    let r = quoted_command("ls -1ap ", path, "");
    proof {
        reveal_strlit("");
    }
    assert(r@ =~= "ls -1ap "@ + seq!['\''] + escape_single_quotes(path@) + seq!['\'']);
    r
}

/// The remote command that prints a file's size in bytes (BSD `stat`, then
/// GNU `stat`).
pub fn remote_size_command(path: &str) -> (r: String)
    ensures
        r@ == "stat -f%z "@ + seq!['\''] + escape_single_quotes(path@) + seq!['\'']
            + " 2>/dev/null || stat -c%s "@ + seq!['\''] + escape_single_quotes(path@) + seq![
            '\'',
        ] + " 2>/dev/null"@,
{
    let first = quoted_command("stat -f%z ", path, " 2>/dev/null || stat -c%s ");
    let mut v = chars_of_string(&first);
    v.push('\'');
    let e = escape_single_quotes_str(path);
    push_str(&mut v, e.as_str());
    v.push('\'');
    push_str(&mut v, " 2>/dev/null");
    string_of(&v)
}

/// The remote command that prints a file.
pub fn remote_cat_command(path: &str) -> (r: String)
    ensures
        r@ == "cat "@ + seq!['\''] + escape_single_quotes(path@) + seq!['\''],
{
    let r = quoted_command("cat ", path, "");
    proof {
        reveal_strlit("");
    }
    assert(r@ =~= "cat "@ + seq!['\''] + escape_single_quotes(path@) + seq!['\'']);
    r
}

/// The remote command that prints a file in base64.
pub fn remote_base64_command(path: &str) -> (r: String)
    ensures
        r@ == "base64 "@ + seq!['\''] + escape_single_quotes(path@) + seq!['\''],
{
    let r = quoted_command("base64 ", path, "");
    proof {
        reveal_strlit("");
    }
    assert(r@ =~= "base64 "@ + seq!['\''] + escape_single_quotes(path@) + seq!['\'']);
    r
}

/// The remote command that writes its standard input to a file.
pub fn remote_write_command(path: &str) -> (r: String)
    ensures
        r@ == "cat > "@ + seq!['\''] + escape_single_quotes(path@) + seq!['\''],
{
    let r = quoted_command("cat > ", path, "");
    proof {
        reveal_strlit("");
    }
    assert(r@ =~= "cat > "@ + seq!['\''] + escape_single_quotes(path@) + seq!['\'']);
    r
}

/// `prefix` followed by the trimmed error output.
fn failure_message(prefix: &str, stderr: &str) -> (r: String)
    ensures
        r@ == prefix@ + trim(stderr@),
{
    let mut v = chars_of(prefix);
    let t = trim_ws(&chars_of(stderr));
    push_all(&mut v, &t);
    string_of(&v)
}

/// The outcome of a remote `ls -1ap`: the listing, or the error output.
pub fn remote_listing_result(dir: &str, success: bool, stdout: &str, stderr: &str) -> (r: Result<
    Vec<DirEntry>,
    String,
>)
    ensures
        success ==> (r matches Ok(v) && exists|pre: Seq<DirEntry>|
            #![trigger sorted_listing(pre)]
            pre.len() == remote_items(lines(stdout@), dir@).len() && (forall|i: int|
                0 <= i < pre.len() ==> entry_is_item(
                    #[trigger] pre[i],
                    remote_items(lines(stdout@), dir@)[i],
                )) && v@ == sorted_listing(pre)),
        !success ==> (r matches Err(e) && e@ == "Remote ls failed: "@ + trim(stderr@)),
{
    if success {
        Ok(parse_remote_listing(dir, stdout))
    } else {
        Err(failure_message("Remote ls failed: ", stderr))
    }
}

/// The outcome of reading a remote file: its contents, or the error output.
pub fn remote_contents_result(success: bool, stdout: &str, stderr: &str) -> (r: Result<
    String,
    String,
>)
    ensures
        success ==> (r matches Ok(s) && s@ == stdout@),
        !success ==> (r matches Err(e) && e@ == "Failed to read remote file: "@ + trim(stderr@)),
{
    if success {
        Ok(String::from_str(stdout))
    } else {
        Err(failure_message("Failed to read remote file: ", stderr))
    }
}

/// `s` without its line breaks (`\n` and `\r`).
pub open spec fn without_line_breaks(s: Seq<char>) -> Seq<char> {
    s.filter(|c: char| c != '\n' && c != '\r')
}

/// The outcome of `base64` on a remote file: the encoding on one line, or the
/// error output.
pub fn remote_base64_result(success: bool, stdout: &str, stderr: &str) -> (r: Result<
    String,
    String,
>)
    ensures
        success ==> (r matches Ok(s) && s@ == without_line_breaks(stdout@)),
        !success ==> (r matches Err(e) && e@ == "Failed to read remote file: "@ + trim(stderr@)),
{
    if !success {
        return Err(failure_message("Failed to read remote file: ", stderr));
    }
    let v = chars_of(stdout);
    let mut out: Vec<char> = Vec::new();
    let mut k: usize = 0;
    while k < v.len()
        invariant
            k <= v.len(),
            out@ == without_line_breaks(v@.take(k as int)),
        decreases v.len() - k,
    {
        let c = v[k];
        assert(v@.take(k + 1) =~= v@.take(k as int).push(c));
        proof {
            v@.take(k as int).lemma_filter_push(c, |c: char| c != '\n' && c != '\r');
        }
        if c != '\n' && c != '\r' {
            out.push(c);
        }
        k += 1;
    }
    assert(v@.take(v.len() as int) =~= v@);
    Ok(string_of(&out))
}

/// The outcome of writing a remote file: nothing, or the error output.
pub fn remote_write_result(success: bool, stderr: &str) -> (r: Result<(), String>)
    ensures
        success ==> r is Ok,
        !success ==> (r matches Err(e) && e@ == "Failed to write remote file: "@ + trim(stderr@)),
{
    if success {
        Ok(())
    } else {
        Err(failure_message("Failed to write remote file: ", stderr))
    }
}

/// The largest file that is read as text: 10 MiB.
pub const TEXT_FILE_LIMIT: u64 = 10485760;

/// The largest file that is read as base64: 50 MiB.
pub const BASE64_FILE_LIMIT: u64 = 52428800;

/// A remote file is refused when `stat` printed a size above the text limit;
/// when `stat` failed or printed something else, the read goes ahead.
pub fn remote_size_check(success: bool, stdout: &str) -> (r: Result<(), String>)
    ensures
        r is Err <==> (success && match parse_unsigned(trim(stdout@), u64::MAX as nat) {
            Some(n) => n > TEXT_FILE_LIMIT,
            None => false,
        }),
        r matches Err(e) ==> e@ == "Remote file is too large (>10MB)"@,
{
    if success {
        let t = trim_ws(&chars_of(stdout));
        match parse_u64(&t) {
            Some(n) => {
                if n > TEXT_FILE_LIMIT {
                    return Err(String::from_str("Remote file is too large (>10MB)"));
                }
            },
            None => {},
        }
    }
    Ok(())
}

/// A local file of `len` bytes is read as text only up to the text limit.
pub fn text_file_size_check(len: u64) -> (r: Result<(), String>)
    ensures
        r is Err <==> len > TEXT_FILE_LIMIT,
        r matches Err(e) ==> e@ == "File is too large (>10MB)"@,
{
    if len > TEXT_FILE_LIMIT {
        Err(String::from_str("File is too large (>10MB)"))
    } else {
        Ok(())
    }
}

/// A local file of `len` bytes is read as base64 only up to the base64 limit.
pub fn base64_file_size_check(len: u64) -> (r: Result<(), String>)
    ensures
        r is Err <==> len > BASE64_FILE_LIMIT,
        r matches Err(e) ==> e@ == "File is too large (>50MB)"@,
{
    if len > BASE64_FILE_LIMIT {
        Err(String::from_str("File is too large (>50MB)"))
    } else {
        Ok(())
    }
}

/// Creating a file is refused when the path exists.
pub fn create_file_check(exists: bool) -> (r: Result<(), String>)
    ensures
        r is Err <==> exists,
        r matches Err(e) ==> e@ == "File already exists"@,
{
    if exists {
        Err(String::from_str("File already exists"))
    } else {
        Ok(())
    }
}

/// Creating a directory is refused when the path exists.
pub fn create_directory_check(exists: bool) -> (r: Result<(), String>)
    ensures
        r is Err <==> exists,
        r matches Err(e) ==> e@ == "Directory already exists"@,
{
    if exists {
        Err(String::from_str("Directory already exists"))
    } else {
        Ok(())
    }
}

/// A rename needs an existing source and a free destination.
pub fn rename_check(source_exists: bool, dest_exists: bool) -> (r: Result<(), String>)
    ensures
        r is Ok <==> source_exists && !dest_exists,
        !source_exists ==> (r matches Err(e) && e@ == "Source path does not exist"@),
        source_exists && dest_exists ==> (r matches Err(e) && e@
            == "Destination already exists"@),
{
    if !source_exists {
        return Err(String::from_str("Source path does not exist"));
    }
    if dest_exists {
        return Err(String::from_str("Destination already exists"));
    }
    Ok(())
}

// ───────────────────────── base64 ─────────────────────────

/// The character of the standard base64 alphabet for the 6-bit value `v`.
pub open spec fn b64_digit(v: int) -> char {
    if v < 26 {
        ((v + 65) as u8) as char
    } else if v < 52 {
        ((v - 26 + 97) as u8) as char
    } else if v < 62 {
        ((v - 52 + 48) as u8) as char
    } else if v == 62 {
        '+'
    } else {
        '/'
    }
}

/// Standard base64 (RFC 4648, with `=` padding) of `b`: each group of three
/// bytes becomes four characters, and a last group of one or two bytes is
/// padded with `=`.
pub open spec fn base64_of(b: Seq<u8>) -> Seq<char>
    decreases b.len(),
{
    if b.len() == 0 {
        seq![]
    } else if b.len() == 1 {
        seq![b64_digit(b[0] as int / 4), b64_digit((b[0] % 4) * 16), '=', '=']
    } else if b.len() == 2 {
        seq![
            b64_digit(b[0] as int / 4),
            b64_digit((b[0] % 4) * 16 + b[1] / 16),
            b64_digit((b[1] % 16) * 4),
            '=',
        ]
    } else {
        seq![
            b64_digit(b[0] as int / 4),
            b64_digit((b[0] % 4) * 16 + b[1] / 16),
            b64_digit((b[1] % 16) * 4 + b[2] / 64),
            b64_digit(b[2] as int % 64),
        ] + base64_of(b.skip(3))
    }
}

/// `base64::engine::general_purpose::STANDARD.encode`: the standard base64
/// alphabet with `=` padding. The contract states the whole encoding.
#[verifier::external_body]
fn standard_base64(bytes: &[u8]) -> (r: String)
    ensures
        r@ == base64_of(bytes@),
{
    base64::engine::general_purpose::STANDARD.encode(bytes)
}

/// A file's bytes in standard base64.
pub fn encode_file_base64(bytes: &Vec<u8>) -> (r: String)
    ensures
        r@ == base64_of(bytes@),
{
    standard_base64(bytes.as_slice())
}

} // verus!
