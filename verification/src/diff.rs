//! Code edits: the file an edit instruction names, the numbered line diff
//! shown to the user, and the one-line summary of an edit.
use vstd::prelude::*;

use crate::num::{dec, int_dec, i64_dec, u64_dec};
use crate::text::{
    chars_of, chars_of_string, contains_str, ends_with, opt_string_view, slice_of, starts_with_str, find, find_from, lines, lines_of, matches_at, push_all, push_str, string_of, views,
};

verus! {

broadcast use vstd::seq_lib::group_seq_properties;

/// How a line fares in a diff.
#[derive(PartialEq, Eq, Structural, Clone, Copy)]
pub enum ChangeKind {
    Equal,
    Delete,
    Insert,
}

/// Where the line that starts at `i` ends: after its `\n`, its `\r\n` or a
/// lone `\r`, or at the end of the text.
pub open spec fn token_end(s: Seq<char>, i: int) -> int
    decreases s.len() - i,
{
    if i >= s.len() {
        s.len() as int
    } else if s[i] == '\n' {
        i + 1
    } else if s[i] == '\r' {
        if i + 1 < s.len() && s[i + 1] == '\n' {
            i + 2
        } else {
            i + 1
        }
    } else {
        token_end(s, i + 1)
    }
}

pub proof fn lemma_token_end_bound(s: Seq<char>, i: int)
    requires
        0 <= i < s.len(),
    ensures
        i < token_end(s, i) <= s.len(),
    decreases s.len() - i,
{
    if !(s[i] == '\n' || s[i] == '\r') {
        if i + 1 < s.len() {
            lemma_token_end_bound(s, i + 1);
        } else {
            assert(token_end(s, i + 1) == s.len());
        }
    }
}

/// The lines of a text as the line diff splits it: each keeps its line
/// ending, and `\n`, `\r\n` and a lone `\r` each end a line.
pub open spec fn line_tokens(s: Seq<char>) -> Seq<Seq<char>>
    decreases s.len(),
{
    if s.len() == 0 {
        seq![]
    } else {
        proof {
            lemma_token_end_bound(s, 0);
        }
        seq![s.take(token_end(s, 0))] + line_tokens(s.skip(token_end(s, 0)))
    }
}

/// The changes of the line diff (`similar::TextDiff::from_lines` with its
/// default settings) from `old` to `new`, each with its line.
pub uninterp spec fn line_diff(old: Seq<char>, new: Seq<char>) -> Seq<(ChangeKind, Seq<char>)>;

/// The lines of the changes that belong to the old text: the equal and the
/// deleted ones, in order.
pub open spec fn old_side(cs: Seq<(ChangeKind, Seq<char>)>) -> Seq<Seq<char>>
    decreases cs.len(),
{
    if cs.len() == 0 {
        seq![]
    } else if cs.last().0 == ChangeKind::Insert {
        old_side(cs.drop_last())
    } else {
        old_side(cs.drop_last()).push(cs.last().1)
    }
}

/// The lines of the changes that belong to the new text: the equal and the
/// inserted ones, in order.
pub open spec fn new_side(cs: Seq<(ChangeKind, Seq<char>)>) -> Seq<Seq<char>>
    decreases cs.len(),
{
    if cs.len() == 0 {
        seq![]
    } else if cs.last().0 == ChangeKind::Delete {
        new_side(cs.drop_last())
    } else {
        new_side(cs.drop_last()).push(cs.last().1)
    }
}

pub open spec fn change_views(v: Seq<(ChangeKind, String)>) -> Seq<(ChangeKind, Seq<char>)> {
    v.map_values(|c: (ChangeKind, String)| (c.0, c.1@))
}

/// `similar::TextDiff::from_lines(old, new).iter_all_changes()`, each change as
/// its kind and its line. The contract names the changes and states what the
/// crate's source shows of every diff: the equal and deleted lines are the
/// old text's lines in order, and the equal and inserted lines the new
/// text's. Which lines are matched is left unsaid.
#[verifier::external_body]
fn diff_lines(old: &str, new: &str) -> (r: Vec<(ChangeKind, String)>)
    ensures
        change_views(r@) == line_diff(old@, new@),
        old_side(change_views(r@)) == line_tokens(old@),
        new_side(change_views(r@)) == line_tokens(new@),
{
    let diff = similar::TextDiff::from_lines(old, new);
    let mut out = Vec::new();
    for change in diff.iter_all_changes() {
        let kind = match change.tag() {
            similar::ChangeTag::Equal => ChangeKind::Equal,
            similar::ChangeTag::Delete => ChangeKind::Delete,
            similar::ChangeTag::Insert => ChangeKind::Insert,
        };
        out.push((kind, change.value().to_string()));
    }
    out
}

/// Joined again, the lines that the line diff splits a text into give back
/// the text.
pub proof fn lemma_tokens_rejoin(s: Seq<char>)
    ensures
        line_tokens(s).flatten() == s,
    decreases s.len(),
{
    if s.len() > 0 {
        lemma_token_end_bound(s, 0);
        let e = token_end(s, 0);
        lemma_tokens_rejoin(s.skip(e));
        let t = line_tokens(s);
        assert(t.first() == s.take(e));
        assert(t.drop_first() =~= line_tokens(s.skip(e)));
        assert(s.take(e) + s.skip(e) =~= s);
    }
}

/// A line of a diff as the front end shows it.
#[derive(Debug)]
pub struct DiffLine {
    pub tag: String,
    pub content: String,
    pub old_line: Option<usize>,
    pub new_line: Option<usize>,
}

/// The tag the front end shows for a kind of change.
pub open spec fn kind_name(k: ChangeKind) -> Seq<char> {
    match k {
        ChangeKind::Equal => "equal"@,
        ChangeKind::Delete => "delete"@,
        ChangeKind::Insert => "insert"@,
    }
}

/// How many of the changes belong to the old text.
pub open spec fn count_old(cs: Seq<(ChangeKind, Seq<char>)>) -> nat {
    old_side(cs).len()
}

/// How many of the changes belong to the new text.
pub open spec fn count_new(cs: Seq<(ChangeKind, Seq<char>)>) -> nat {
    new_side(cs).len()
}

/// The diff line of the `i`-th change: its tag and line, its line number in
/// the old text unless it was inserted, and in the new text unless it was
/// deleted (numbers count from 1).
pub open spec fn numbered(d: DiffLine, cs: Seq<(ChangeKind, Seq<char>)>, i: int) -> bool {
    let c = cs[i];
    let before = cs.take(i);
    &&& d.tag@ == kind_name(c.0)
    &&& d.content@ == c.1
    &&& (if c.0 == ChangeKind::Insert {
        d.old_line is None
    } else {
        d.old_line matches Some(n) && n == count_old(before) + 1
    })
    &&& (if c.0 == ChangeKind::Delete {
        d.new_line is None
    } else {
        d.new_line matches Some(n) && n == count_new(before) + 1
    })
}

proof fn lemma_side_counts(cs: Seq<(ChangeKind, Seq<char>)>)
    ensures
        count_old(cs) <= cs.len(),
        count_new(cs) <= cs.len(),
    decreases cs.len(),
{
    if cs.len() > 0 {
        lemma_side_counts(cs.drop_last());
    }
}

fn kind_text(k: ChangeKind) -> (r: String)
    ensures
        r@ == kind_name(k),
{
    match k {
        ChangeKind::Equal => String::from_str("equal"),
        ChangeKind::Delete => String::from_str("delete"),
        ChangeKind::Insert => String::from_str("insert"),
    }
}

/// The line diff from `original` to `modified`, each line numbered in the
/// texts it belongs to.
pub fn generate_diff(original: &str, modified: &str) -> (r: Vec<DiffLine>)
    ensures
        r@.len() == line_diff(original@, modified@).len(),
        forall|i: int| 0 <= i < r@.len() ==> numbered(#[trigger] r@[i], line_diff(original@, modified@), i),
        old_side(line_diff(original@, modified@)) == line_tokens(original@),
        new_side(line_diff(original@, modified@)) == line_tokens(modified@),
        old_side(line_diff(original@, modified@)).flatten() == original@,
        new_side(line_diff(original@, modified@)).flatten() == modified@,
{
    proof {
        lemma_tokens_rejoin(original@);
        lemma_tokens_rejoin(modified@);
    }
    let changes = diff_lines(original, modified);
    let ghost cs = change_views(changes@);
    let mut out: Vec<DiffLine> = Vec::new();
    let mut olds: usize = 0;
    let mut news: usize = 0;
    let mut k: usize = 0;
    while k < changes.len()
        invariant
            k <= changes.len(),
            cs == change_views(changes@),
            cs == line_diff(original@, modified@),
            out.len() == k,
            olds == count_old(cs.take(k as int)),
            news == count_new(cs.take(k as int)),
            forall|i: int| 0 <= i < k ==> numbered(#[trigger] out@[i], cs, i),
        decreases changes.len() - k,
    {
        proof {
            lemma_side_counts(cs.take(k as int));
            assert(cs.take(k + 1).drop_last() =~= cs.take(k as int));
        }
        let (kind, value) = (changes[k].0, &changes[k].1);
        let old_line = if kind == ChangeKind::Insert {
            None
        } else {
            Some(olds + 1)
        };
        let new_line = if kind == ChangeKind::Delete {
            None
        } else {
            Some(news + 1)
        };
        let d = DiffLine { tag: kind_text(kind), content: value.clone(), old_line, new_line };
        out.push(d);
        if kind != ChangeKind::Insert {
            olds += 1;
        }
        if kind != ChangeKind::Delete {
            news += 1;
        }
        k += 1;
    }
    out
}

// ───────────────────────── the edit summary ─────────────────────────

/// How many of the changes are of kind `k`.
pub open spec fn change_count(cs: Seq<(ChangeKind, Seq<char>)>, k: ChangeKind) -> nat
    decreases cs.len(),
{
    if cs.len() == 0 {
        0
    } else {
        change_count(cs.drop_last(), k) + if cs.last().0 == k {
            1nat
        } else {
            0nat
        }
    }
}

/// The net change in lines as the summary words it.
pub open spec fn line_change_text(d: int) -> Seq<char> {
    if d > 0 {
        "+"@ + dec(d as nat) + " lines"@
    } else if d < 0 {
        int_dec(d) + " lines"@
    } else {
        "no net change in lines"@
    }
}

/// The summary of an edit made on `instruction`: its inserted and deleted
/// lines and the net change in lines.
pub open spec fn edit_summary(instruction: Seq<char>, ins: nat, del: nat, d: int) -> Seq<char> {
    "Modified file based on: \""@ + instruction + "\"\n"@ + dec(ins) + " insertions, "@ + dec(del)
        + " deletions ("@ + line_change_text(d) + ")"@
}

/// A text without carriage returns.
pub open spec fn no_cr(s: Seq<char>) -> bool {
    forall|i: int| 0 <= i < s.len() ==> s[i] != '\r'
}

proof fn lemma_counts(cs: Seq<(ChangeKind, Seq<char>)>)
    ensures
        count_old(cs) == change_count(cs, ChangeKind::Equal) + change_count(cs, ChangeKind::Delete),
        count_new(cs) == change_count(cs, ChangeKind::Equal) + change_count(cs, ChangeKind::Insert),
        change_count(cs, ChangeKind::Insert) <= count_new(cs),
        change_count(cs, ChangeKind::Delete) <= count_old(cs),
    decreases cs.len(),
{
    if cs.len() > 0 {
        lemma_counts(cs.drop_last());
    }
}

proof fn lemma_token_end_newline(s: Seq<char>, i: int)
    requires
        0 <= i,
        no_cr(s),
    ensures
        token_end(s, i) == match find_from(s, seq!['\n'], i) {
            Some(k) => k + 1,
            None => if i >= s.len() { s.len() as int } else { s.len() as int },
        },
    decreases s.len() - i,
{
    if i < s.len() {
        if s[i] == '\n' {
            assert(matches_at(s, seq!['\n'], i)) by {
                assert(s.subrange(i, i + 1) =~= seq!['\n']);
            }
        } else {
            assert(!matches_at(s, seq!['\n'], i)) by {
                if matches_at(s, seq!['\n'], i) {
                    assert(s.subrange(i, i + 1)[0] == s[i]);
                }
            }
            lemma_token_end_newline(s, i + 1);
        }
    }
}

/// Without carriage returns, the diff splits a text into as many lines as
/// `str::lines` does.
pub proof fn lemma_tokens_are_lines(s: Seq<char>)
    requires
        no_cr(s),
    ensures
        line_tokens(s).len() == lines(s).len(),
    decreases s.len(),
{
    if s.len() > 0 {
        lemma_token_end_newline(s, 0);
        crate::text::lemma_find_from(s, seq!['\n'], 0);
        let e = token_end(s, 0);
        lemma_token_end_bound(s, 0);
        let rest = s.skip(e);
        assert forall|i: int| 0 <= i < rest.len() implies rest[i] != '\r' by {
            assert(rest[i] == s[i + e]);
        }
        lemma_tokens_are_lines(rest);
        match find(s, seq!['\n']) {
            Some(k) => {
                assert(e == k + 1);
            },
            None => {
                assert(e == s.len());
                assert(rest.len() == 0);
            },
        }
    }
}

fn count_kind(cs: &Vec<(ChangeKind, String)>, k: ChangeKind) -> (n: usize)
    ensures
        n == change_count(change_views(cs@), k),
{
    let ghost v = change_views(cs@);
    let mut n: usize = 0;
    let mut i: usize = 0;
    while i < cs.len()
        invariant
            i <= cs.len(),
            v == change_views(cs@),
            n == change_count(v.take(i as int), k),
            n <= i,
        decreases cs.len() - i,
    {
        assert(v.take(i + 1).drop_last() =~= v.take(i as int));
        if cs[i].0 == k {
            n += 1;
        }
        i += 1;
    }
    assert(v.take(cs.len() as int) =~= v);
    n
}

proof fn lemma_token_end_skip(s: Seq<char>, i: int, j: int)
    requires
        0 <= i <= j,
        i <= s.len(),
    ensures
        token_end(s.skip(i), j - i) + i == token_end(s, j),
    decreases s.len() - j,
{
    if j < s.len() {
        assert(s.skip(i)[j - i] == s[j]);
        if j + 1 < s.len() {
            assert(s.skip(i)[j - i + 1] == s[j + 1]);
        }
        if !(s[j] == '\n' || s[j] == '\r') {
            lemma_token_end_skip(s, i, j + 1);
        }
    }
}

fn token_end_exec(cs: &Vec<char>, i: usize) -> (e: usize)
    requires
        i < cs.len(),
    ensures
        e == token_end(cs@, i as int),
{
    let mut j = i;
    while j < cs.len() && cs[j] != '\n' && cs[j] != '\r'
        invariant
            i <= j <= cs.len(),
            token_end(cs@, i as int) == token_end(cs@, j as int),
        decreases cs.len() - j,
    {
        j += 1;
    }
    if j >= cs.len() {
        cs.len()
    } else if cs[j] == '\n' {
        j + 1
    } else if j + 1 < cs.len() && cs[j + 1] == '\n' {
        j + 2
    } else {
        j + 1
    }
}

/// How many lines the line diff splits `s` into.
pub fn line_token_count(s: &str) -> (n: usize)
    ensures
        n == line_tokens(s@).len(),
{
    let cs = chars_of(s);
    let mut i: usize = 0;
    let mut n: usize = 0;
    assert(cs@.skip(0) =~= cs@);
    while i < cs.len()
        invariant
            i <= cs.len(),
            n <= i,
            n + line_tokens(cs@.skip(i as int)).len() == line_tokens(cs@).len(),
        decreases cs.len() - i,
    {
        proof {
            let t = cs@.skip(i as int);
            lemma_token_end_skip(cs@, i as int, i as int);
            lemma_token_end_bound(cs@, i as int);
            assert(t.skip(token_end(t, 0)) =~= cs@.skip(token_end(cs@, i as int)));
        }
        i = token_end_exec(&cs, i);
        n += 1;
    }
    assert(cs@.skip(cs.len() as int) =~= Seq::<char>::empty());
    n
}

/// Whether the line counts of an edit fit the 32-bit counters of its summary:
/// exactly the inputs that `generate_edit_summary` and the edit result take.
pub fn edit_counts_fit(original: &str, modified: &str) -> (b: bool)
    ensures
        b == (lines(original@).len() <= i32::MAX && lines(modified@).len() <= i32::MAX
            && line_tokens(original@).len() <= i32::MAX && line_tokens(modified@).len()
            <= i32::MAX),
{
    let a = lines_of(&chars_of(original)).len();
    let b = lines_of(&chars_of(modified)).len();
    let c = line_token_count(original);
    let d = line_token_count(modified);
    a <= 0x7fff_ffff && b <= 0x7fff_ffff && c <= 0x7fff_ffff && d <= 0x7fff_ffff
}

/// The summary of an edit from `original` to `modified` made on
/// `instruction`: `Modified file based on: "<instruction>"`, then the counts
/// of inserted and deleted lines and the net change in lines (counted as
/// `str::lines` counts them). Without carriage returns in either text, the net
/// change is the insertions less the deletions.
pub fn generate_edit_summary(original: &str, modified: &str, instruction: &str) -> (r: String)
    requires
        lines(original@).len() <= i32::MAX,
        lines(modified@).len() <= i32::MAX,
        line_tokens(original@).len() <= i32::MAX,
        line_tokens(modified@).len() <= i32::MAX,
    ensures
        r@ == edit_summary(
            instruction@,
            change_count(line_diff(original@, modified@), ChangeKind::Insert),
            change_count(line_diff(original@, modified@), ChangeKind::Delete),
            lines(modified@).len() - lines(original@).len(),
        ),
        no_cr(original@) && no_cr(modified@) ==> change_count(
            line_diff(original@, modified@),
            ChangeKind::Insert,
        ) - change_count(line_diff(original@, modified@), ChangeKind::Delete) == lines(
            modified@,
        ).len() - lines(original@).len(),
{
    let orig_lines = lines_of(&chars_of(original)).len();
    let mod_lines = lines_of(&chars_of(modified)).len();
    let changes = diff_lines(original, modified);
    proof {
        lemma_counts(change_views(changes@));
        if no_cr(original@) && no_cr(modified@) {
            lemma_tokens_are_lines(original@);
            lemma_tokens_are_lines(modified@);
        }
        assert(changes@.len() == change_views(changes@).len());
        lemma_side_counts(change_views(changes@));
    }
    let insertions = count_kind(&changes, ChangeKind::Insert);
    let deletions = count_kind(&changes, ChangeKind::Delete);
    let line_diff_n: i64 = mod_lines as i64 - orig_lines as i64;
    let mut out = chars_of("Modified file based on: \"");
    push_str(&mut out, instruction);
    push_str(&mut out, "\"\n");
    push_all(&mut out, &u64_dec(insertions as u64));
    push_str(&mut out, " insertions, ");
    push_all(&mut out, &u64_dec(deletions as u64));
    push_str(&mut out, " deletions (");
    if line_diff_n > 0 {
        push_str(&mut out, "+");
        push_all(&mut out, &u64_dec(line_diff_n as u64));
        push_str(&mut out, " lines");
    } else if line_diff_n < 0 {
        push_all(&mut out, &i64_dec(line_diff_n));
        push_str(&mut out, " lines");
    } else {
        push_str(&mut out, "no net change in lines");
    }
    push_str(&mut out, ")");
    string_of(&out)
}

// ───────────────────────── the edited file ─────────────────────────

/// `base` joined with the relative path `p`, as `PathBuf::push` joins them on
/// Unix: with a `/` between them unless `base` is empty or ends with one.
pub open spec fn path_join(base: Seq<char>, p: Seq<char>) -> Seq<char> {
    if base.len() > 0 && base.last() != '/' {
        base + seq!['/'] + p
    } else {
        base + p
    }
}

/// A leading `~` of `p` read as `home`.
pub open spec fn tilde_expanded(p: Seq<char>, home: Seq<char>) -> Seq<char> {
    if p.len() > 0 && p[0] == '~' {
        home + p.drop_first()
    } else {
        p
    }
}

/// The file an edit names: an absolute path (or, when `drive_paths`, one
/// that holds a `:`) as it is; a path that starts with `~` under `home`; any
/// other path relative to the working directory when one is known.
pub open spec fn resolved_path(file_path: Seq<char>, cwd: Option<Seq<char>>, home: Seq<char>, drive_paths: bool) -> Seq<char> {
    if (file_path.len() > 0 && file_path[0] == '/') || (drive_paths && crate::text::contains(file_path, seq![':'])) {
        file_path
    } else if file_path.len() > 0 && file_path[0] == '~' {
        tilde_expanded(file_path, home)
    } else {
        match cwd {
            Some(c) => path_join(tilde_expanded(c, home), file_path),
            None => file_path,
        }
    }
}

fn tilde_expand_exec(p: &Vec<char>, home: &str) -> (r: Vec<char>)
    ensures
        r@ == tilde_expanded(p@, home@),
{
    if p.len() > 0 && p[0] == '~' {
        let mut r = chars_of(home);
        let rest = slice_of(p, 1, p.len());
        assert(rest@ =~= p@.drop_first());
        push_all(&mut r, &rest);
        r
    } else {
        p.clone()
    }
}

/// The path of the file that an edit names, `file_path` read against the
/// working directory `cwd` and the home directory `home`. `drive_paths` also
/// takes a path holding a `:` as absolute.
pub fn resolve_edit_path(file_path: &str, cwd: &Option<String>, home: &str, drive_paths: bool) -> (r: String)
    ensures
        r@ == resolved_path(file_path@, opt_string_view(*cwd), home@, drive_paths),
{
    let fp = chars_of(file_path);
    proof {
        reveal_strlit(":");
        assert(":"@ =~= seq![':']);
    }
    let absolute = fp.len() > 0 && fp[0] == '/';
    if absolute || (drive_paths && contains_str(&fp, ":")) {
        return String::from_str(file_path);
    }
    if fp.len() > 0 && fp[0] == '~' {
        return string_of(&tilde_expand_exec(&fp, home));
    }
    match cwd {
        Some(c) => {
            let mut base = tilde_expand_exec(&chars_of_string(c), home);
            if base.len() > 0 && base[base.len() - 1] != '/' {
                base.push('/');
            }
            push_all(&mut base, &fp);
            string_of(&base)
        },
        None => String::from_str(file_path),
    }
}

/// What `Path::file_name` gives for `p`: its last component, none when the
/// path ends in `..` or has no components.
pub uninterp spec fn path_file_name(p: Seq<char>) -> Option<Seq<char>>;

/// std `Path::new(p).file_name()`, as text. The contract names the result.
#[verifier::external_body]
fn file_name_of(p: &str) -> (r: Option<String>)
    ensures
        opt_string_view(r) == path_file_name(p@),
{
    match std::path::Path::new(p).file_name() {
        Some(n) => Some(n.to_string_lossy().to_string()),
        None => None,
    }
}

/// The name shown for an edited file: the last component of its resolved
/// path, or the path as the user wrote it.
pub fn edit_file_name(resolved: &str, file_path: &str) -> (r: String)
    ensures
        r@ == match path_file_name(resolved@) {
            Some(n) => n,
            None => file_path@,
        },
{
    match file_name_of(resolved) {
        Some(n) => n,
        None => String::from_str(file_path),
    }
}


/// The file an edit works on: the name shown for it, its resolved path and
/// its contents.
#[derive(Debug)]
pub struct EditSource {
    pub file_name: String,
    pub file_path: String,
    pub content: String,
}

/// The file of an edit once its resolved path was read: the name, path and
/// contents to edit, or `Failed to read file '<path>': <error>` when it could
/// not be read.
pub fn edit_source(file_path: &str, resolved: String, read: Result<String, String>) -> (r: Result<
    EditSource,
    String,
>)
    ensures
        match read {
            Ok(c) => r matches Ok(e) && e.content == c && e.file_path == resolved && e.file_name@
                == match path_file_name(resolved@) {
                Some(n) => n,
                None => file_path@,
            },
            Err(m) => r matches Err(e) && e@ == "Failed to read file '"@ + resolved@ + "': "@ + m@,
        },
{
    match read {
        Ok(content) => {
            let file_name = edit_file_name(resolved.as_str(), file_path);
            Ok(EditSource { file_name, file_path: resolved, content })
        },
        Err(m) => {
            let mut t = chars_of("Failed to read file '");
            push_str(&mut t, resolved.as_str());
            push_str(&mut t, "': ");
            push_str(&mut t, m.as_str());
            Err(string_of(&t))
        },
    }
}

} // verus!
