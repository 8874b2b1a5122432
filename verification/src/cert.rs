//! OpenSSL certificate inspection: the shell commands that query a server or
//! decode a PEM block, and the parsers that read what `openssl` prints.
use vstd::prelude::*;

use crate::text::{
    after, before, chars_of, contains, contains_str, lines, lines_of, pieces, pieces_str,
    push_all, push_str, replace, replace_str, slice_of, split_once, starts_with,
    starts_with_str, string_of, string_views, strings_of, strip_prefix, strip_prefix_str, trim,
    trim_ws, views, after_str, before_str, is_digit, utf8_len, byte_len,
};
use crate::num::{parse_unsigned, parse_u32, parse_i64, parse_i64_chars, dec, u64_dec};
use crate::text::{split_ws, split_ws_chars, eq_str, chars_of_string, ends_with, lemma_prefix_excludes};
use crate::shell::{escape_single_quotes, escape_single_quotes_chars};

verus! {

broadcast use vstd::seq_lib::group_seq_properties;

// ───────────────────────── subject/issuer/dates/SAN fields ─────────────────────────

/// The fields that `openssl x509 -noout -subject -issuer -dates -serial
/// -fingerprint -ext subjectAltName` prints, as read so far.
pub struct CertFieldsView {
    pub subject: Seq<char>,
    pub issuer: Seq<char>,
    pub not_before: Seq<char>,
    pub not_after: Seq<char>,
    pub serial: Seq<char>,
    pub fingerprint: Seq<char>,
    pub san: Seq<Seq<char>>,
    pub in_san: bool,
}

pub open spec fn empty_fields() -> CertFieldsView {
    CertFieldsView {
        subject: seq![],
        issuer: seq![],
        not_before: seq![],
        not_after: seq![],
        serial: seq![],
        fingerprint: seq![],
        san: seq![],
        in_san: false,
    }
}

/// One comma-separated item of the Subject Alternative Name line: the name of
/// a `DNS:` or `IP Address:` entry.
pub open spec fn san_entry(part: Seq<char>) -> Option<Seq<char>> {
    let p = trim(part);
    if strip_prefix(p, "DNS:"@) is Some {
        strip_prefix(p, "DNS:"@)
    } else {
        strip_prefix(p, "IP Address:"@)
    }
}

/// The DNS and IP names among the items, in order.
pub open spec fn san_entries(parts: Seq<Seq<char>>) -> Seq<Seq<char>>
    decreases parts.len(),
{
    if parts.len() == 0 {
        seq![]
    } else {
        let prev = san_entries(parts.drop_last());
        match san_entry(parts.last()) {
            Some(e) => prev.push(e),
            None => prev,
        }
    }
}

/// How one output line changes the fields read so far.
pub open spec fn fields_step(st: CertFieldsView, line: Seq<char>) -> CertFieldsView {
    let t = trim(line);
    if strip_prefix(t, "subject="@) is Some {
        CertFieldsView { subject: trim(strip_prefix(t, "subject="@).unwrap()), ..st }
    } else if strip_prefix(t, "issuer="@) is Some {
        CertFieldsView { issuer: trim(strip_prefix(t, "issuer="@).unwrap()), ..st }
    } else if strip_prefix(t, "notBefore="@) is Some {
        CertFieldsView { not_before: trim(strip_prefix(t, "notBefore="@).unwrap()), ..st }
    } else if strip_prefix(t, "notAfter="@) is Some {
        CertFieldsView { not_after: trim(strip_prefix(t, "notAfter="@).unwrap()), ..st }
    } else if strip_prefix(t, "serial="@) is Some {
        CertFieldsView { serial: trim(strip_prefix(t, "serial="@).unwrap()), ..st }
    } else if contains(t, "Fingerprint="@) {
        CertFieldsView { fingerprint: t, ..st }
    } else if starts_with(t, "X509v3 Subject Alternative Name:"@) {
        CertFieldsView { in_san: true, ..st }
    } else if st.in_san {
        CertFieldsView { san: st.san + san_entries(pieces(t, ","@)), in_san: false, ..st }
    } else {
        st
    }
}

/// The fields read from a sequence of lines.
pub open spec fn fields_of(ls: Seq<Seq<char>>) -> CertFieldsView
    decreases ls.len(),
{
    if ls.len() == 0 {
        empty_fields()
    } else {
        fields_step(fields_of(ls.drop_last()), ls.last())
    }
}

/// Each `key=value` line of an `openssl x509` listing sets its field to the
/// text after the key, trimmed, and leaves every other field as it was: the
/// keys `subject=`, `issuer=`, `notBefore=`, `notAfter=` and `serial=`, read
/// after the line's own surrounding whitespace is trimmed.
pub proof fn lemma_cert_key_lines(ls: Seq<Seq<char>>, l: Seq<char>)
    ensures
        ({
            let t = trim(l);
            let was = fields_of(ls);
            let now = fields_of(ls.push(l));
            &&& starts_with(t, "subject="@) ==> now == CertFieldsView {
                subject: trim(t.skip(8)),
                ..was
            }
            &&& starts_with(t, "issuer="@) ==> now == CertFieldsView {
                issuer: trim(t.skip(7)),
                ..was
            }
            &&& starts_with(t, "notBefore="@) ==> now == CertFieldsView {
                not_before: trim(t.skip(10)),
                ..was
            }
            &&& starts_with(t, "notAfter="@) ==> now == CertFieldsView {
                not_after: trim(t.skip(9)),
                ..was
            }
            &&& starts_with(t, "serial="@) ==> now == CertFieldsView {
                serial: trim(t.skip(7)),
                ..was
            }
        }),
{
    reveal_strlit("subject=");
    reveal_strlit("issuer=");
    reveal_strlit("notBefore=");
    reveal_strlit("notAfter=");
    reveal_strlit("serial=");
    let t = trim(l);
    let su = "subject="@;
    let is = "issuer="@;
    let nb = "notBefore="@;
    let na = "notAfter="@;
    let se = "serial="@;
    assert(ls.push(l).drop_last() =~= ls);
    if starts_with(t, is) {
        lemma_prefix_excludes(t, is, su, 0);
    }
    if starts_with(t, nb) {
        lemma_prefix_excludes(t, nb, su, 0);
        lemma_prefix_excludes(t, nb, is, 0);
    }
    if starts_with(t, na) {
        lemma_prefix_excludes(t, na, su, 0);
        lemma_prefix_excludes(t, na, is, 0);
        lemma_prefix_excludes(t, na, nb, 3);
    }
    if starts_with(t, se) {
        lemma_prefix_excludes(t, se, su, 1);
        lemma_prefix_excludes(t, se, is, 0);
        lemma_prefix_excludes(t, se, nb, 0);
        lemma_prefix_excludes(t, se, na, 0);
    }
}

/// A line that holds `Fingerprint=` (such as `sha1 Fingerprint=AB:CD`) and
/// starts with none of the field keys sets the fingerprint to the whole
/// trimmed line and leaves every other field as it was.
pub proof fn lemma_cert_fingerprint_line(ls: Seq<Seq<char>>, l: Seq<char>)
    requires
        contains(trim(l), "Fingerprint="@),
        !starts_with(trim(l), "subject="@),
        !starts_with(trim(l), "issuer="@),
        !starts_with(trim(l), "notBefore="@),
        !starts_with(trim(l), "notAfter="@),
        !starts_with(trim(l), "serial="@),
    ensures
        fields_of(ls.push(l)) == (CertFieldsView { fingerprint: trim(l), ..fields_of(ls) }),
{
    assert(ls.push(l).drop_last() =~= ls);
}

/// The fields read from the whole output.
pub open spec fn cert_fields(out: Seq<char>) -> CertFieldsView {
    fields_of(lines(out))
}

/// The certificate fields of an `openssl x509` listing.
#[derive(Debug)]
pub struct CertFields {
    pub subject: String,
    pub issuer: String,
    pub not_before: String,
    pub not_after: String,
    pub serial: String,
    pub fingerprint: String,
    pub san: Vec<String>,
}

impl CertFields {
    /// Whether these are exactly the fields `v` read (the SAN-line flag aside).
    pub open spec fn matches(&self, v: CertFieldsView) -> bool {
        &&& self.subject@ == v.subject
        &&& self.issuer@ == v.issuer
        &&& self.not_before@ == v.not_before
        &&& self.not_after@ == v.not_after
        &&& self.serial@ == v.serial
        &&& self.fingerprint@ == v.fingerprint
        &&& string_views(self.san@) == v.san
    }
}

struct FieldsAcc {
    subject: Vec<char>,
    issuer: Vec<char>,
    not_before: Vec<char>,
    not_after: Vec<char>,
    serial: Vec<char>,
    fingerprint: Vec<char>,
    san: Vec<Vec<char>>,
    in_san: bool,
}

impl FieldsAcc {
    spec fn view(&self) -> CertFieldsView {
        CertFieldsView {
            subject: self.subject@,
            issuer: self.issuer@,
            not_before: self.not_before@,
            not_after: self.not_after@,
            serial: self.serial@,
            fingerprint: self.fingerprint@,
            san: views(self.san@),
            in_san: self.in_san,
        }
    }
}

fn san_entry_exec(part: &Vec<char>) -> (r: Option<Vec<char>>)
    ensures
        match r {
            Some(e) => san_entry(part@) == Some(e@),
            None => san_entry(part@) is None,
        },
{
    let p = trim_ws(part);
    match strip_prefix_str(&p, "DNS:") {
        Some(d) => Some(d),
        None => strip_prefix_str(&p, "IP Address:"),
    }
}

fn push_san_entries(san: &mut Vec<Vec<char>>, t: &Vec<char>)
    ensures
        views(final(san)@) == views(old(san)@) + san_entries(pieces(t@, ","@)),
{
    proof {
        reveal_strlit(",");
    }
    let parts = pieces_str(t, ",");
    let mut k: usize = 0;
    while k < parts.len()
        invariant
            k <= parts.len(),
            views(parts@) == pieces(t@, ","@),
            views(san@) == views(old(san)@) + san_entries(views(parts@).take(k as int)),
        decreases parts.len() - k,
    {
        let ghost before_push = san@;
        let ghost ps = views(parts@).take(k + 1);
        assert(ps.drop_last() =~= views(parts@).take(k as int));
        assert(ps.last() == parts@[k as int]@);
        match san_entry_exec(&parts[k]) {
            Some(e) => {
                san.push(e);
                assert(views(san@) =~= views(before_push).push(e@));
            },
            None => {},
        }
        k += 1;
    }
    assert(views(parts@).take(parts.len() as int) =~= views(parts@));
}

fn fields_step_exec(acc: &mut FieldsAcc, line: &Vec<char>)
    ensures
        final(acc).view() == fields_step(old(acc).view(), line@),
{
    let t = trim_ws(line);
    if let Some(v) = strip_prefix_str(&t, "subject=") {
        acc.subject = trim_ws(&v);
    } else if let Some(v) = strip_prefix_str(&t, "issuer=") {
        acc.issuer = trim_ws(&v);
    } else if let Some(v) = strip_prefix_str(&t, "notBefore=") {
        acc.not_before = trim_ws(&v);
    } else if let Some(v) = strip_prefix_str(&t, "notAfter=") {
        acc.not_after = trim_ws(&v);
    } else if let Some(v) = strip_prefix_str(&t, "serial=") {
        acc.serial = trim_ws(&v);
    } else if contains_str(&t, "Fingerprint=") {
        acc.fingerprint = t;
    } else if starts_with_str(&t, "X509v3 Subject Alternative Name:") {
        acc.in_san = true;
    } else if acc.in_san {
        push_san_entries(&mut acc.san, &t);
        acc.in_san = false;
    }
}

fn fields_to_public(acc: &FieldsAcc) -> (r: CertFields)
    ensures
        r.matches(acc.view()),
{
    CertFields {
        subject: string_of(&acc.subject),
        issuer: string_of(&acc.issuer),
        not_before: string_of(&acc.not_before),
        not_after: string_of(&acc.not_after),
        serial: string_of(&acc.serial),
        fingerprint: string_of(&acc.fingerprint),
        san: strings_of(&acc.san),
    }
}

fn fold_fields(ls: &Vec<Vec<char>>) -> (acc: FieldsAcc)
    ensures
        acc.view() == fields_of(views(ls@)),
{
    let mut acc = FieldsAcc {
        subject: Vec::new(),
        issuer: Vec::new(),
        not_before: Vec::new(),
        not_after: Vec::new(),
        serial: Vec::new(),
        fingerprint: Vec::new(),
        san: Vec::new(),
        in_san: false,
    };
    let mut k: usize = 0;
    assert(acc.view() == empty_fields()) by {
        assert(views(acc.san@) =~= Seq::<Seq<char>>::empty());
    }
    while k < ls.len()
        invariant
            k <= ls.len(),
            acc.view() == fields_of(views(ls@).take(k as int)),
        decreases ls.len() - k,
    {
        let ghost pre = views(ls@).take(k + 1);
        assert(pre.drop_last() =~= views(ls@).take(k as int));
        fields_step_exec(&mut acc, &ls[k]);
        k += 1;
    }
    assert(views(ls@).take(ls.len() as int) =~= views(ls@));
    acc
}

/// Reads the subject, issuer, validity dates, serial, fingerprint line and
/// Subject Alternative Names out of an `openssl x509` field listing.
pub fn parse_cert_fields(details: &str) -> (r: CertFields)
    ensures
        r.matches(cert_fields(details@)),
{
    let ls = lines_of(&chars_of(details));
    let acc = fold_fields(&ls);
    fields_to_public(&acc)
}

// ───────────────────────── s_client chain and connection ─────────────────────────

/// One certificate of the chain that `openssl s_client` prints.
#[derive(Debug)]
pub struct CertChainEntry {
    pub depth: u32,
    pub subject: String,
    pub issuer: String,
    pub key_type: String,
    pub sig_alg: String,
    pub not_before: String,
    pub not_after: String,
}

pub struct ChainEntryView {
    pub depth: u32,
    pub subject: Seq<char>,
    pub issuer: Seq<char>,
    pub key_type: Seq<char>,
    pub sig_alg: Seq<char>,
    pub not_before: Seq<char>,
    pub not_after: Seq<char>,
}

impl View for CertChainEntry {
    type V = ChainEntryView;

    open spec fn view(&self) -> ChainEntryView {
        ChainEntryView {
            depth: self.depth,
            subject: self.subject@,
            issuer: self.issuer@,
            key_type: self.key_type@,
            sig_alg: self.sig_alg@,
            not_before: self.not_before@,
            not_after: self.not_after@,
        }
    }
}

/// Where the reader stands in the `s_client` output: outside the chain block,
/// inside it, or inside the lines that describe one chain entry.
pub enum ChainMode {
    Outer,
    Chain,
    Entry(ChainEntryView),
}

/// What has been read of the `s_client` output so far.
pub struct SClientView {
    pub chain: Seq<ChainEntryView>,
    pub protocol: Seq<char>,
    pub cipher: Seq<char>,
    pub key_type: Seq<char>,
    pub mode: ChainMode,
}

pub open spec fn sclient_start() -> SClientView {
    SClientView {
        chain: seq![],
        protocol: seq![],
        cipher: seq![],
        key_type: seq![],
        mode: ChainMode::Outer,
    }
}

/// A line outside the chain block: it opens the block, or carries the
/// protocol, the cipher or the server key description.
pub open spec fn outer_step(st: SClientView, line: Seq<char>) -> SClientView {
    let t = trim(line);
    if starts_with(t, "Certificate chain"@) {
        SClientView { mode: ChainMode::Chain, ..st }
    } else {
        let protocol = if strip_prefix(t, "Protocol  :"@) is Some {
            trim(strip_prefix(t, "Protocol  :"@).unwrap())
        } else if strip_prefix(t, "Protocol:"@) is Some {
            trim(strip_prefix(t, "Protocol:"@).unwrap())
        } else {
            st.protocol
        };
        let cipher = if strip_prefix(t, "Cipher    :"@) is Some {
            trim(strip_prefix(t, "Cipher    :"@).unwrap())
        } else if strip_prefix(t, "Cipher:"@) is Some {
            trim(strip_prefix(t, "Cipher:"@).unwrap())
        } else {
            st.cipher
        };
        let key_type = if starts_with(t, "Server public key is"@) {
            replace(t, "Server public key is "@, ""@)
        } else {
            st.key_type
        };
        SClientView { protocol, cipher, key_type, ..st }
    }
}

/// The entry that a depth line such as ` 0 s:CN=example.com` starts.
pub open spec fn entry_header(ct: Seq<char>) -> ChainEntryView {
    let depth = match parse_unsigned(before(ct, " "@), u32::MAX as nat) {
        Some(d) => d as u32,
        None => 0u32,
    };
    let subject = match after(ct, " "@) {
        Some(x) => match strip_prefix(x, "s:"@) {
            Some(y) => y,
            None => seq![],
        },
        None => seq![],
    };
    ChainEntryView {
        depth,
        subject,
        issuer: seq![],
        key_type: seq![],
        sig_alg: seq![],
        not_before: seq![],
        not_after: seq![],
    }
}

/// A line inside the chain block.
pub open spec fn chain_step(st: SClientView, line: Seq<char>) -> SClientView {
    if starts_with(line, "---"@) {
        outer_step(SClientView { mode: ChainMode::Outer, ..st }, line)
    } else {
        let ct = trim(line);
        if ct.len() == 0 {
            st
        } else if is_digit(ct[0]) {
            SClientView { mode: ChainMode::Entry(entry_header(ct)), ..st }
        } else {
            st
        }
    }
}

/// The `a:PKEY: <type>; sigalg: <alg>` line of an entry.
pub open spec fn entry_key(e: ChainEntryView, aval: Seq<char>) -> ChainEntryView {
    match strip_prefix(aval, "PKEY: "@) {
        Some(pkey) => {
            let kt = trim(before(pkey, ";"@));
            match after(pkey, ";"@) {
                Some(sig) => {
                    let ts = trim(sig);
                    let sa = match strip_prefix(ts, "sigalg: "@) {
                        Some(x) => x,
                        None => ts,
                    };
                    ChainEntryView { key_type: kt, sig_alg: sa, ..e }
                },
                None => ChainEntryView { key_type: kt, ..e },
            }
        },
        None => e,
    }
}

/// The `v:NotBefore: <date>; NotAfter: <date>` line of an entry.
pub open spec fn entry_validity(e: ChainEntryView, vval: Seq<char>) -> ChainEntryView {
    match strip_prefix(vval, "NotBefore: "@) {
        Some(rest) => {
            let nb = trim(before(rest, "; NotAfter: "@));
            let na = match after(rest, "; NotAfter: "@) {
                Some(x) => trim(x),
                None => seq![],
            };
            ChainEntryView { not_before: nb, not_after: na, ..e }
        },
        None => e,
    }
}

/// A trimmed line that continues an entry (`i:`, `a:` or `v:`), and the entry
/// it gives; `None` for any other line, which ends the entry.
pub open spec fn entry_line(e: ChainEntryView, sub: Seq<char>) -> Option<ChainEntryView> {
    if starts_with(sub, "i:"@) {
        Some(ChainEntryView { issuer: sub.skip(2), ..e })
    } else if starts_with(sub, "a:"@) {
        Some(entry_key(e, sub.skip(2)))
    } else if starts_with(sub, "v:"@) {
        Some(entry_validity(e, sub.skip(2)))
    } else {
        None
    }
}

/// How one line changes what has been read.  A line that ends a block is read
/// again in the enclosing block, as the original loops do.
pub open spec fn sclient_step(st: SClientView, line: Seq<char>) -> SClientView {
    match st.mode {
        ChainMode::Outer => outer_step(st, line),
        ChainMode::Chain => chain_step(st, line),
        ChainMode::Entry(e) => match entry_line(e, trim(line)) {
            Some(e2) => SClientView { mode: ChainMode::Entry(e2), ..st },
            None => chain_step(
                SClientView { chain: st.chain.push(e), mode: ChainMode::Chain, ..st },
                line,
            ),
        },
    }
}

pub open spec fn sclient_fold(ls: Seq<Seq<char>>) -> SClientView
    decreases ls.len(),
{
    if ls.len() == 0 {
        sclient_start()
    } else {
        sclient_step(sclient_fold(ls.drop_last()), ls.last())
    }
}

/// The end of the output closes an open entry.
pub open spec fn sclient_finish(st: SClientView) -> SClientView {
    match st.mode {
        ChainMode::Entry(e) => SClientView { chain: st.chain.push(e), mode: ChainMode::Outer, ..st },
        _ => st,
    }
}

/// Everything read from an `openssl s_client` transcript.
pub open spec fn sclient_info(out: Seq<char>) -> SClientView {
    sclient_finish(sclient_fold(lines(out)))
}

/// The chain and connection details of an `openssl s_client` transcript.
#[derive(Debug)]
pub struct SClientInfo {
    pub chain: Vec<CertChainEntry>,
    pub protocol: String,
    pub cipher: String,
    pub key_type: String,
}

impl SClientInfo {
    pub open spec fn matches(&self, v: SClientView) -> bool {
        &&& self.chain@.map_values(|e: CertChainEntry| e@) == v.chain
        &&& self.protocol@ == v.protocol
        &&& self.cipher@ == v.cipher
        &&& self.key_type@ == v.key_type
    }
}

struct EntryAcc {
    depth: u32,
    subject: Vec<char>,
    issuer: Vec<char>,
    key_type: Vec<char>,
    sig_alg: Vec<char>,
    not_before: Vec<char>,
    not_after: Vec<char>,
}

impl View for EntryAcc {
    type V = ChainEntryView;

    closed spec fn view(&self) -> ChainEntryView {
        ChainEntryView {
            depth: self.depth,
            subject: self.subject@,
            issuer: self.issuer@,
            key_type: self.key_type@,
            sig_alg: self.sig_alg@,
            not_before: self.not_before@,
            not_after: self.not_after@,
        }
    }
}

struct SClientAcc {
    chain: Vec<EntryAcc>,
    protocol: Vec<char>,
    cipher: Vec<char>,
    key_type: Vec<char>,
    mode: u8,
    cur: EntryAcc,
}

impl SClientAcc {
    spec fn view(&self) -> SClientView {
        SClientView {
            chain: self.chain@.map_values(|e: EntryAcc| e@),
            protocol: self.protocol@,
            cipher: self.cipher@,
            key_type: self.key_type@,
            mode: if self.mode == 0 {
                ChainMode::Outer
            } else if self.mode == 1 {
                ChainMode::Chain
            } else {
                ChainMode::Entry(self.cur@)
            },
        }
    }
}

/// An entry with depth 0 and every text empty.
pub open spec fn blank_entry() -> ChainEntryView {
    ChainEntryView {
        depth: 0,
        subject: seq![],
        issuer: seq![],
        key_type: seq![],
        sig_alg: seq![],
        not_before: seq![],
        not_after: seq![],
    }
}

fn empty_entry() -> (e: EntryAcc)
    ensures
        e@ == blank_entry(),
{
    EntryAcc {
        depth: 0,
        subject: Vec::new(),
        issuer: Vec::new(),
        key_type: Vec::new(),
        sig_alg: Vec::new(),
        not_before: Vec::new(),
        not_after: Vec::new(),
    }
}

fn outer_step_exec(acc: &mut SClientAcc, line: &Vec<char>)
    requires
        old(acc).mode == 0,
    ensures
        final(acc).view() == outer_step(old(acc).view(), line@),
{
    let t = trim_ws(line);
    if starts_with_str(&t, "Certificate chain") {
        acc.mode = 1;
        return ;
    }
    if let Some(v) = strip_prefix_str(&t, "Protocol  :") {
        acc.protocol = trim_ws(&v);
    } else if let Some(v) = strip_prefix_str(&t, "Protocol:") {
        acc.protocol = trim_ws(&v);
    }
    if let Some(v) = strip_prefix_str(&t, "Cipher    :") {
        acc.cipher = trim_ws(&v);
    } else if let Some(v) = strip_prefix_str(&t, "Cipher:") {
        acc.cipher = trim_ws(&v);
    }
    if starts_with_str(&t, "Server public key is") {
        proof {
            reveal_strlit("Server public key is ");
        }
        acc.key_type = replace_str(&t, "Server public key is ", "");
    }
}

fn entry_header_exec(ct: &Vec<char>) -> (e: EntryAcc)
    ensures
        e@ == entry_header(ct@),
{
    let p0 = before_str(ct, " ");
    let depth: u32 = match parse_u32(&p0) {
        Some(d) => d,
        None => 0,
    };
    let subject: Vec<char> = match after_str(ct, " ") {
        Some(x) => match strip_prefix_str(&x, "s:") {
            Some(y) => y,
            None => Vec::new(),
        },
        None => Vec::new(),
    };
    EntryAcc {
        depth,
        subject,
        issuer: Vec::new(),
        key_type: Vec::new(),
        sig_alg: Vec::new(),
        not_before: Vec::new(),
        not_after: Vec::new(),
    }
}

fn chain_step_exec(acc: &mut SClientAcc, line: &Vec<char>)
    requires
        old(acc).mode == 1,
    ensures
        final(acc).view() == chain_step(old(acc).view(), line@),
{
    if starts_with_str(line, "---") {
        acc.mode = 0;
        outer_step_exec(acc, line);
        return ;
    }
    let ct = trim_ws(line);
    if ct.len() == 0 {
        return ;
    }
    let c = ct[0];
    if '0' <= c && c <= '9' {
        acc.cur = entry_header_exec(&ct);
        acc.mode = 2;
    }
}

fn entry_key_exec(e: &mut EntryAcc, aval: &Vec<char>)
    ensures
        final(e)@ == entry_key(old(e)@, aval@),
{
    if let Some(pkey) = strip_prefix_str(aval, "PKEY: ") {
        let b = before_str(&pkey, ";");
        e.key_type = trim_ws(&b);
        if let Some(sig) = after_str(&pkey, ";") {
            let ts = trim_ws(&sig);
            e.sig_alg = match strip_prefix_str(&ts, "sigalg: ") {
                Some(x) => x,
                None => ts,
            };
        }
    }
}

fn entry_validity_exec(e: &mut EntryAcc, vval: &Vec<char>)
    ensures
        final(e)@ == entry_validity(old(e)@, vval@),
{
    if let Some(rest) = strip_prefix_str(vval, "NotBefore: ") {
        let b = before_str(&rest, "; NotAfter: ");
        e.not_before = trim_ws(&b);
        e.not_after = match after_str(&rest, "; NotAfter: ") {
            Some(x) => trim_ws(&x),
            None => Vec::new(),
        };
    }
}

/// Applies an entry line; returns whether the line continued the entry.
fn entry_line_exec(e: &mut EntryAcc, sub: &Vec<char>) -> (cont: bool)
    ensures
        cont == (entry_line(old(e)@, sub@) is Some),
        cont ==> entry_line(old(e)@, sub@) == Some(final(e)@),
        !cont ==> final(e)@ == old(e)@,
{
    proof {
        reveal_strlit("i:");
        reveal_strlit("a:");
        reveal_strlit("v:");
    }
    if starts_with_str(sub, "i:") {
        e.issuer = slice_of(sub, 2, sub.len());
        true
    } else if starts_with_str(sub, "a:") {
        let aval = slice_of(sub, 2, sub.len());
        entry_key_exec(e, &aval);
        true
    } else if starts_with_str(sub, "v:") {
        let vval = slice_of(sub, 2, sub.len());
        entry_validity_exec(e, &vval);
        true
    } else {
        false
    }
}

fn sclient_step_exec(acc: &mut SClientAcc, line: &Vec<char>)
    ensures
        final(acc).view() == sclient_step(old(acc).view(), line@),
{
    if acc.mode == 0 {
        outer_step_exec(acc, line);
    } else if acc.mode == 1 {
        chain_step_exec(acc, line);
    } else {
        let sub = trim_ws(line);
        let ghost e0 = acc.cur@;
        if !entry_line_exec(&mut acc.cur, &sub) {
            let mut done = empty_entry();
            core::mem::swap(&mut done, &mut acc.cur);
            let ghost old_chain = acc.chain@;
            acc.chain.push(done);
            assert(acc.chain@.map_values(|e: EntryAcc| e@) =~= old_chain.map_values(
                |e: EntryAcc| e@,
            ).push(e0));
            acc.mode = 1;
            chain_step_exec(acc, line);
        }
    }
}

fn entry_to_public(e: &EntryAcc) -> (r: CertChainEntry)
    ensures
        r@ == e@,
{
    CertChainEntry {
        depth: e.depth,
        subject: string_of(&e.subject),
        issuer: string_of(&e.issuer),
        key_type: string_of(&e.key_type),
        sig_alg: string_of(&e.sig_alg),
        not_before: string_of(&e.not_before),
        not_after: string_of(&e.not_after),
    }
}

/// Reads the certificate chain, protocol, cipher and server key description
/// out of an `openssl s_client` transcript.
pub fn parse_s_client_output(output: &str) -> (r: SClientInfo)
    ensures
        r.matches(sclient_info(output@)),
{
    let ls = lines_of(&chars_of(output));
    let mut acc = SClientAcc {
        chain: Vec::new(),
        protocol: Vec::new(),
        cipher: Vec::new(),
        key_type: Vec::new(),
        mode: 0,
        cur: empty_entry(),
    };
    assert(acc.view() == sclient_start()) by {
        assert(acc.chain@.map_values(|e: EntryAcc| e@) =~= Seq::<ChainEntryView>::empty());
    }
    let mut k: usize = 0;
    while k < ls.len()
        invariant
            k <= ls.len(),
            views(ls@) == lines(output@),
            acc.view() == sclient_fold(views(ls@).take(k as int)),
        decreases ls.len() - k,
    {
        let ghost pre = views(ls@).take(k + 1);
        assert(pre.drop_last() =~= views(ls@).take(k as int));
        sclient_step_exec(&mut acc, &ls[k]);
        k += 1;
    }
    assert(views(ls@).take(ls.len() as int) =~= views(ls@));
    if acc.mode >= 2 {
        let ghost e0 = acc.cur@;
        let mut done = empty_entry();
            core::mem::swap(&mut done, &mut acc.cur);
        let ghost old_chain = acc.chain@;
        acc.chain.push(done);
        assert(acc.chain@.map_values(|e: EntryAcc| e@) =~= old_chain.map_values(
            |e: EntryAcc| e@,
        ).push(e0));
        acc.mode = 0;
    }
    let mut chain: Vec<CertChainEntry> = Vec::new();
    let mut j: usize = 0;
    while j < acc.chain.len()
        invariant
            j <= acc.chain.len(),
            chain@.map_values(|e: CertChainEntry| e@) == acc.chain@.map_values(
                |e: EntryAcc| e@,
            ).take(j as int),
        decreases acc.chain.len() - j,
    {
        let ghost old_chain = chain@;
        let pe = entry_to_public(&acc.chain[j]);
        let ghost pv = pe@;
        assert(pv == acc.chain@[j as int]@);
        chain.push(pe);
        assert(chain@ == old_chain.push(pe));
        assert(chain@.map_values(|e: CertChainEntry| e@) =~= old_chain.map_values(
            |e: CertChainEntry| e@,
        ).push(pv));
        assert(acc.chain@.map_values(|e: EntryAcc| e@).take(j + 1) =~= acc.chain@.map_values(
            |e: EntryAcc| e@,
        ).take(j as int).push(pv));
        j += 1;
    }
    assert(acc.chain@.map_values(|e: EntryAcc| e@).take(acc.chain.len() as int)
        =~= acc.chain@.map_values(|e: EntryAcc| e@));
    SClientInfo {
        chain,
        protocol: string_of(&acc.protocol),
        cipher: string_of(&acc.cipher),
        key_type: string_of(&acc.key_type),
    }
}

// ───────────────────────── expiry date ─────────────────────────

/// Month number of a three-letter English month name, 0 for anything else.
pub open spec fn month_number(m: Seq<char>) -> int {
    if m == "Jan"@ {
        1
    } else if m == "Feb"@ {
        2
    } else if m == "Mar"@ {
        3
    } else if m == "Apr"@ {
        4
    } else if m == "May"@ {
        5
    } else if m == "Jun"@ {
        6
    } else if m == "Jul"@ {
        7
    } else if m == "Aug"@ {
        8
    } else if m == "Sep"@ {
        9
    } else if m == "Oct"@ {
        10
    } else if m == "Nov"@ {
        11
    } else if m == "Dec"@ {
        12
    } else {
        0
    }
}

/// Days in the months before `month` in a non-leap year.
pub open spec fn days_before_month(month: int) -> int {
    if month == 1 {
        0
    } else if month == 2 {
        31
    } else if month == 3 {
        59
    } else if month == 4 {
        90
    } else if month == 5 {
        120
    } else if month == 6 {
        151
    } else if month == 7 {
        181
    } else if month == 8 {
        212
    } else if month == 9 {
        243
    } else if month == 10 {
        273
    } else if month == 11 {
        304
    } else {
        334
    }
}

/// Integer division rounding toward zero, as Rust's `/` does.
pub open spec fn tdiv(a: int, b: int) -> int {
    if a >= 0 {
        a / b
    } else {
        -((-a) / b)
    }
}

/// Year, month and day of a date such as `Jul 15 21:42:44 2026 GMT`; `None`
/// when the date does not have that shape (a month name first, a non-zero day
/// second and a non-zero year fourth, separated by whitespace).
pub open spec fn openssl_date_parts(date: Seq<char>) -> Option<(int, int, int)> {
    let parts = split_ws(date);
    if parts.len() < 4 {
        None
    } else if month_number(parts[0]) == 0 {
        None
    } else {
        let day = match parse_unsigned(parts[1], u32::MAX as nat) {
            Some(d) => d as int,
            None => 0,
        };
        let year = match parse_i64(parts[3]) {
            Some(y) => y,
            None => 0,
        };
        if day == 0 || year == 0 {
            None
        } else {
            Some((year, month_number(parts[0]), day))
        }
    }
}

/// Day number of a calendar date, counted so that 1 January 1970 is day
/// 719163: the days of the years before `year` (with their leap days), then
/// those of the months before `month` (without the leap day of `year`
/// itself), then `day`.
pub open spec fn day_number(year: int, month: int, day: int) -> int {
    let y = year - 1;
    y * 365 + tdiv(y, 4) - tdiv(y, 100) + tdiv(y, 400) + days_before_month(month) + day
}

/// A leap year of the Gregorian calendar.
pub open spec fn is_leap_year(y: int) -> bool {
    y % 4 == 0 && (y % 100 != 0 || y % 400 == 0)
}

/// The day numbers follow the calendar: 1 January 1970 is the day of the
/// Unix epoch, and from 1 January of a year `y >= 1` to 1 January of the next
/// year there are 366 days when `y` is a leap year and 365 otherwise.
pub proof fn lemma_day_number_calendar(y: int)
    requires
        y >= 1,
    ensures
        day_number(1970, 1, 1) == now_day_number(0),
        day_number(y + 1, 1, 1) - day_number(y, 1, 1) == if is_leap_year(y) {
            366int
        } else {
            365int
        },
{
    assert(tdiv(y, 4) == y / 4 && tdiv(y - 1, 4) == (y - 1) / 4);
    assert(tdiv(y, 100) == y / 100 && tdiv(y - 1, 100) == (y - 1) / 100);
    assert(tdiv(y, 400) == y / 400 && tdiv(y - 1, 400) == (y - 1) / 400);
    assert(y / 4 - (y - 1) / 4 == if y % 4 == 0 { 1int } else { 0int });
    assert(y / 100 - (y - 1) / 100 == if y % 100 == 0 { 1int } else { 0int });
    assert(y / 400 - (y - 1) / 400 == if y % 400 == 0 { 1int } else { 0int });
}

/// Day number of the instant `now` seconds after the Unix epoch.
pub open spec fn now_day_number(now: int) -> int {
    tdiv(now, 86400) + 719163
}

pub open spec fn in_i64(x: int) -> bool {
    i64::MIN <= x <= i64::MAX
}

/// Every intermediate value of the day arithmetic fits in an `i64`.
pub open spec fn date_arith_fits(year: int, month: int, day: int, now: int) -> bool {
    let y = year - 1;
    let a = y * 365;
    let b = a + tdiv(y, 4);
    let c = b - tdiv(y, 100);
    let e = c + tdiv(y, 400);
    let f = e + days_before_month(month);
    let g = f + day;
    &&& in_i64(a)
    &&& in_i64(b)
    &&& in_i64(c)
    &&& in_i64(e)
    &&& in_i64(f)
    &&& in_i64(g)
    &&& in_i64(g - now_day_number(now))
}

/// Days from the day of `now` (Unix seconds) to the date, counting the
/// calendar's leap days except that of the date's own year (so a date after
/// February of a leap year comes one day short of the exact count); 0 for a
/// date that cannot be read; `None` where
/// the `i64` arithmetic would overflow.
pub open spec fn openssl_date_days(date: Seq<char>, now: int) -> Option<int> {
    match openssl_date_parts(date) {
        None => Some(0),
        Some((y, m, d)) => if date_arith_fits(y, m, d, now) {
            Some(day_number(y, m, d) - now_day_number(now))
        } else {
            None
        },
    }
}

fn month_number_exec(m: &Vec<char>) -> (n: i128)
    ensures
        n == month_number(m@),
{
    if eq_str(m, "Jan") {
        1
    } else if eq_str(m, "Feb") {
        2
    } else if eq_str(m, "Mar") {
        3
    } else if eq_str(m, "Apr") {
        4
    } else if eq_str(m, "May") {
        5
    } else if eq_str(m, "Jun") {
        6
    } else if eq_str(m, "Jul") {
        7
    } else if eq_str(m, "Aug") {
        8
    } else if eq_str(m, "Sep") {
        9
    } else if eq_str(m, "Oct") {
        10
    } else if eq_str(m, "Nov") {
        11
    } else if eq_str(m, "Dec") {
        12
    } else {
        0
    }
}

fn days_before_month_exec(month: i128) -> (n: i128)
    ensures
        n == days_before_month(month as int),
{
    if month == 1 {
        0
    } else if month == 2 {
        31
    } else if month == 3 {
        59
    } else if month == 4 {
        90
    } else if month == 5 {
        120
    } else if month == 6 {
        151
    } else if month == 7 {
        181
    } else if month == 8 {
        212
    } else if month == 9 {
        243
    } else if month == 10 {
        273
    } else if month == 11 {
        304
    } else {
        334
    }
}

fn tdiv_exec(a: i128, b: i128) -> (q: i128)
    requires
        b > 0,
        a > i128::MIN,
    ensures
        q == tdiv(a as int, b as int),
{
    if a >= 0 {
        let ua = a as u128;
        let ub = b as u128;
        (ua / ub) as i128
    } else {
        let ua = (-a) as u128;
        let ub = b as u128;
        -((ua / ub) as i128)
    }
}

fn fits_i64(x: i128) -> (r: bool)
    ensures
        r == in_i64(x as int),
{
    -0x8000_0000_0000_0000i128 <= x && x <= 0x7fff_ffff_ffff_ffffi128
}

/// Days from the day of `now_secs` (seconds since the Unix epoch) to the
/// date in an OpenSSL `notAfter` value such as `Jul 15 21:42:44 2026 GMT`,
/// as `openssl_date_days` counts them; 0 when the value cannot be read.
/// `None` marks the dates whose day arithmetic overflows `i64`.
pub fn parse_openssl_date_days(date_str: &str, now_secs: i64) -> (r: Option<i64>)
    ensures
        match r {
            Some(d) => openssl_date_days(date_str@, now_secs as int) == Some(d as int),
            None => openssl_date_days(date_str@, now_secs as int) is None,
        },
{
    let parts = split_ws_chars(&chars_of(date_str));
    if parts.len() < 4 {
        return Some(0);
    }
    let month = month_number_exec(&parts[0]);
    if month == 0 {
        return Some(0);
    }
    let day: i128 = match parse_u32(&parts[1]) {
        Some(d) => d as i128,
        None => 0,
    };
    let year: i128 = match parse_i64_chars(&parts[3]) {
        Some(y) => y as i128,
        None => 0,
    };
    if day == 0 || year == 0 {
        return Some(0);
    }
    assert(-0x8000_0000_0000_0000 <= year <= 0x7fff_ffff_ffff_ffff);
    let y = year - 1;
    let a = y * 365;
    let b = a + tdiv_exec(y, 4);
    let c = b - tdiv_exec(y, 100);
    let e = c + tdiv_exec(y, 400);
    let f = e + days_before_month_exec(month);
    let g = f + day;
    let nd = tdiv_exec(now_secs as i128, 86400) + 719163;
    if fits_i64(a) && fits_i64(b) && fits_i64(c) && fits_i64(e) && fits_i64(f) && fits_i64(g)
        && fits_i64(g - nd) {
        Some((g - nd) as i64)
    } else {
        None
    }
}

// ───────────────────────── checking a server certificate ─────────────────────────

/// `host:port`.
pub open spec fn connect_target(host: Seq<char>, port: u16) -> Seq<char> {
    host + ":"@ + dec(port as nat)
}

/// The command that fetches the server certificate and prints its fields.
pub open spec fn cert_details_command(host: Seq<char>, port: u16) -> Seq<char> {
    "echo | openssl s_client -connect "@ + connect_target(host, port) + " -servername "@ + host
        + " 2>/dev/null | openssl x509 -noout -subject -issuer -dates -serial -fingerprint -ext subjectAltName 2>&1"@
}

/// The command that prints the whole `s_client` transcript.
pub open spec fn cert_chain_command(host: Seq<char>, port: u16) -> Seq<char> {
    "echo | openssl s_client -connect "@ + connect_target(host, port) + " -servername "@ + host
        + " 2>&1"@
}

/// The port to check: the given one, or 443.
pub open spec fn cert_port(port: Option<u16>) -> u16 {
    match port {
        Some(p) => p,
        None => 443,
    }
}

/// The port to check and the two shell commands that inspect `host` there.
pub fn cert_check_commands(host: &str, port: Option<u16>) -> (r: (u16, String, String))
    ensures
        r.0 == cert_port(port),
        r.1@ == cert_details_command(host@, r.0),
        r.2@ == cert_chain_command(host@, r.0),
{
    let p: u16 = match port {
        Some(p) => p,
        None => 443,
    };
    let h = chars_of(host);
    let mut target = h.clone();
    push_str(&mut target, ":");
    let pd = u64_dec(p as u64);
    push_all(&mut target, &pd);
    let mut details = chars_of("echo | openssl s_client -connect ");
    push_all(&mut details, &target);
    push_str(&mut details, " -servername ");
    push_all(&mut details, &h);
    let mut chain = details.clone();
    push_str(
        &mut details,
        " 2>/dev/null | openssl x509 -noout -subject -issuer -dates -serial -fingerprint -ext subjectAltName 2>&1",
    );
    push_str(&mut chain, " 2>&1");
    (p, string_of(&details), string_of(&chain))
}

/// The report on a server certificate.
#[derive(Debug)]
pub struct CertCheckResult {
    pub host: String,
    pub port: u16,
    pub subject: String,
    pub issuer: String,
    pub not_before: String,
    pub not_after: String,
    pub serial: String,
    pub fingerprint: String,
    pub san: Vec<String>,
    pub chain: Vec<CertChainEntry>,
    pub protocol: String,
    pub cipher: String,
    pub key_type: String,
    pub days_remaining: i64,
    pub is_expired: bool,
    pub raw_output: String,
}

/// Builds the certificate report from the output of the two commands and the
/// current time: the fields come from `details`, the chain and connection from
/// the `s_client` transcript (its standard error, then its standard output),
/// and the days remaining from `notAfter`.  `None` where the day arithmetic
/// overflows.
pub fn cert_check_result(
    host: String,
    port: u16,
    details: &str,
    chain_stdout: &str,
    chain_stderr: &str,
    now_secs: i64,
) -> (r: Option<CertCheckResult>)
    ensures
        ({
            let f = cert_fields(details@);
            let full = chain_stderr@ + chain_stdout@;
            let info = sclient_info(full);
            match r {
                Some(c) => {
                    &&& c.host == host
                    &&& c.port == port
                    &&& c.subject@ == f.subject
                    &&& c.issuer@ == f.issuer
                    &&& c.not_before@ == f.not_before
                    &&& c.not_after@ == f.not_after
                    &&& c.serial@ == f.serial
                    &&& c.fingerprint@ == f.fingerprint
                    &&& string_views(c.san@) == f.san
                    &&& c.chain@.map_values(|e: CertChainEntry| e@) == info.chain
                    &&& c.protocol@ == info.protocol
                    &&& c.cipher@ == info.cipher
                    &&& c.key_type@ == info.key_type
                    &&& openssl_date_days(f.not_after, now_secs as int) == Some(
                        c.days_remaining as int,
                    )
                    &&& c.is_expired == (c.days_remaining < 0)
                    &&& c.raw_output@ == full
                },
                None => openssl_date_days(f.not_after, now_secs as int) is None,
            }
        }),
{
    let fields = parse_cert_fields(details);
    let mut full = chars_of(chain_stderr);
    push_str(&mut full, chain_stdout);
    let full_s = string_of(&full);
    let info = parse_s_client_output(full_s.as_str());
    let days = match parse_openssl_date_days(fields.not_after.as_str(), now_secs) {
        Some(d) => d,
        None => {
            return None;
        },
    };
    Some(
        CertCheckResult {
            host,
            port,
            subject: fields.subject,
            issuer: fields.issuer,
            not_before: fields.not_before,
            not_after: fields.not_after,
            serial: fields.serial,
            fingerprint: fields.fingerprint,
            san: fields.san,
            chain: info.chain,
            protocol: info.protocol,
            cipher: info.cipher,
            key_type: info.key_type,
            days_remaining: days,
            is_expired: days < 0,
            raw_output: full_s,
        },
    )
}

// ───────────────────────── decoding a PEM certificate ─────────────────────────

/// `echo '<pem>' | openssl x509 -noout -text 2>&1`, the PEM quoted for `sh`.
pub open spec fn cert_text_command(pem: Seq<char>) -> Seq<char> {
    "echo '"@ + escape_single_quotes(pem) + "' | openssl x509 -noout -text 2>&1"@
}

/// The command that prints the fields of the PEM certificate.
pub open spec fn cert_fields_command(pem: Seq<char>) -> Seq<char> {
    "echo '"@ + escape_single_quotes(pem)
        + "' | openssl x509 -noout -subject -issuer -dates -serial -fingerprint -ext subjectAltName 2>&1"@
}

/// The two commands that decode a PEM certificate: its text form, then its fields.
pub fn cert_decode_commands(pem: &str) -> (r: (String, String))
    ensures
        r.0@ == cert_text_command(pem@),
        r.1@ == cert_fields_command(pem@),
{
    let q = escape_single_quotes_chars(&chars_of(pem));
    let mut text = chars_of("echo '");
    push_all(&mut text, &q);
    let mut fields = text.clone();
    push_str(&mut text, "' | openssl x509 -noout -text 2>&1");
    push_str(
        &mut fields,
        "' | openssl x509 -noout -subject -issuer -dates -serial -fingerprint -ext subjectAltName 2>&1",
    );
    (string_of(&text), string_of(&fields))
}

/// What a failed text decoding is reported as.
pub open spec fn decode_error(stderr: Seq<char>, raw_text: Seq<char>) -> Seq<char> {
    "Failed to decode certificate: "@ + stderr + raw_text
}

/// The outcome of the text-decoding command: an error when it failed.
pub fn check_decode_output(success: bool, stderr: &str, raw_text: &str) -> (r: Result<(), String>)
    ensures
        success ==> r is Ok,
        !success ==> (r matches Err(e) && e@ == decode_error(stderr@, raw_text@)),
{
    if success {
        Ok(())
    } else {
        let mut e = chars_of("Failed to decode certificate: ");
        push_str(&mut e, stderr);
        push_str(&mut e, raw_text);
        Err(string_of(&e))
    }
}

/// Key algorithm, first signature algorithm and version read so far from
/// `openssl x509 -text`.
pub open spec fn text_step(st: (Seq<char>, Seq<char>, Seq<char>), line: Seq<char>) -> (
    Seq<char>,
    Seq<char>,
    Seq<char>,
) {
    let t = trim(line);
    let key = if starts_with(t, "Public Key Algorithm:"@) {
        trim(replace(t, "Public Key Algorithm:"@, ""@))
    } else {
        st.0
    };
    let sig = if starts_with(t, "Signature Algorithm:"@) && st.1.len() == 0 {
        trim(replace(t, "Signature Algorithm:"@, ""@))
    } else {
        st.1
    };
    let ver = if starts_with(t, "Version:"@) {
        trim(replace(t, "Version:"@, ""@))
    } else {
        st.2
    };
    (key, sig, ver)
}

pub open spec fn text_fold(ls: Seq<Seq<char>>) -> (Seq<char>, Seq<char>, Seq<char>)
    decreases ls.len(),
{
    if ls.len() == 0 {
        (seq![], seq![], seq![])
    } else {
        text_step(text_fold(ls.drop_last()), ls.last())
    }
}

/// Key algorithm, signature algorithm and version of `openssl x509 -text` output.
pub open spec fn cert_text_info(raw: Seq<char>) -> (Seq<char>, Seq<char>, Seq<char>) {
    text_fold(lines(raw))
}

/// A decoded PEM certificate.
#[derive(Debug)]
pub struct CertDecodeResult {
    pub subject: String,
    pub issuer: String,
    pub not_before: String,
    pub not_after: String,
    pub serial: String,
    pub fingerprint: String,
    pub san: Vec<String>,
    pub key_type: String,
    pub sig_alg: String,
    pub version: String,
    pub raw_text: String,
}

fn text_step_exec(key: &mut Vec<char>, sig: &mut Vec<char>, ver: &mut Vec<char>, line: &Vec<char>)
    ensures
        (final(key)@, final(sig)@, final(ver)@) == text_step((old(key)@, old(sig)@, old(ver)@), line@),
{
    proof {
        reveal_strlit("Public Key Algorithm:");
        reveal_strlit("Signature Algorithm:");
        reveal_strlit("Version:");
    }
    let t = trim_ws(line);
    if starts_with_str(&t, "Public Key Algorithm:") {
        *key = trim_ws(&replace_str(&t, "Public Key Algorithm:", ""));
    }
    if starts_with_str(&t, "Signature Algorithm:") && sig.len() == 0 {
        *sig = trim_ws(&replace_str(&t, "Signature Algorithm:", ""));
    }
    if starts_with_str(&t, "Version:") {
        *ver = trim_ws(&replace_str(&t, "Version:", ""));
    }
}

/// Builds the decoded certificate from the `-text` output and the field listing.
pub fn cert_decode_result(raw_text: String, fields_output: &str) -> (r: CertDecodeResult)
    ensures
        ({
            let f = cert_fields(fields_output@);
            let t = cert_text_info(raw_text@);
            &&& r.subject@ == f.subject
            &&& r.issuer@ == f.issuer
            &&& r.not_before@ == f.not_before
            &&& r.not_after@ == f.not_after
            &&& r.serial@ == f.serial
            &&& r.fingerprint@ == f.fingerprint
            &&& string_views(r.san@) == f.san
            &&& r.key_type@ == t.0
            &&& r.sig_alg@ == t.1
            &&& r.version@ == t.2
            &&& r.raw_text == raw_text
        }),
{
    let fields = parse_cert_fields(fields_output);
    let ls = lines_of(&chars_of_string(&raw_text));
    let mut key: Vec<char> = Vec::new();
    let mut sig: Vec<char> = Vec::new();
    let mut ver: Vec<char> = Vec::new();
    let mut k: usize = 0;
    while k < ls.len()
        invariant
            k <= ls.len(),
            views(ls@) == lines(raw_text@),
            (key@, sig@, ver@) == text_fold(views(ls@).take(k as int)),
        decreases ls.len() - k,
    {
        let ghost pre = views(ls@).take(k + 1);
        assert(pre.drop_last() =~= views(ls@).take(k as int));
        text_step_exec(&mut key, &mut sig, &mut ver, &ls[k]);
        k += 1;
    }
    assert(views(ls@).take(ls.len() as int) =~= views(ls@));
    CertDecodeResult {
        subject: fields.subject,
        issuer: fields.issuer,
        not_before: fields.not_before,
        not_after: fields.not_after,
        serial: fields.serial,
        fingerprint: fields.fingerprint,
        san: fields.san,
        key_type: string_of(&key),
        sig_alg: string_of(&sig),
        version: string_of(&ver),
        raw_text,
    }
}

// ───────────────────────── hashing and base64 through openssl ─────────────────────────

/// The shell command that computes `algorithm` over `text`; `None` for an
/// algorithm that is not offered.
pub open spec fn hash_command(text: Seq<char>, algorithm: Seq<char>) -> Option<Seq<char>> {
    let q = "echo -n '"@ + escape_single_quotes(text) + "'"@;
    if algorithm == "base64-encode"@ {
        Some(q + " | openssl base64"@)
    } else if algorithm == "base64-decode"@ {
        Some(q + " | openssl base64 -d 2>&1"@)
    } else if algorithm == "sha256"@ {
        Some(q + " | openssl dgst -sha256 | awk '{print $2}'"@)
    } else if algorithm == "sha1"@ {
        Some(q + " | openssl dgst -sha1 | awk '{print $2}'"@)
    } else if algorithm == "md5"@ {
        Some(q + " | openssl dgst -md5 | awk '{print $2}'"@)
    } else if algorithm == "sha512"@ {
        Some(q + " | openssl dgst -sha512 | awk '{print $2}'"@)
    } else {
        None
    }
}

/// The shell command for `openssl_hash`, or the error for an unknown algorithm.
pub fn openssl_hash_command(text: &str, algorithm: &str) -> (r: Result<String, String>)
    ensures
        match r {
            Ok(c) => hash_command(text@, algorithm@) == Some(c@),
            Err(e) => hash_command(text@, algorithm@) is None && e@ == "Unknown algorithm: "@
                + algorithm@,
        },
{
    let a = chars_of(algorithm);
    let mut q = chars_of("echo -n '");
    let esc = escape_single_quotes_chars(&chars_of(text));
    push_all(&mut q, &esc);
    push_str(&mut q, "'");
    let tail: &str = if eq_str(&a, "base64-encode") {
        " | openssl base64"
    } else if eq_str(&a, "base64-decode") {
        " | openssl base64 -d 2>&1"
    } else if eq_str(&a, "sha256") {
        " | openssl dgst -sha256 | awk '{print $2}'"
    } else if eq_str(&a, "sha1") {
        " | openssl dgst -sha1 | awk '{print $2}'"
    } else if eq_str(&a, "md5") {
        " | openssl dgst -md5 | awk '{print $2}'"
    } else if eq_str(&a, "sha512") {
        " | openssl dgst -sha512 | awk '{print $2}'"
    } else {
        let mut e = chars_of("Unknown algorithm: ");
        push_all(&mut e, &a);
        return Err(string_of(&e));
    };
    push_str(&mut q, tail);
    Ok(string_of(&q))
}

/// The result of a hash or base64 run.
#[derive(Debug)]
pub struct HashResult {
    pub input_size: usize,
    pub algorithm: String,
    pub output: String,
}

/// Builds the hash result from the command's outcome: the trimmed standard
/// output, or an error with the standard error when the command failed.
pub fn hash_result(text: &str, algorithm: String, success: bool, stdout: &str, stderr: &str) -> (r:
    Result<HashResult, String>)
    ensures
        success ==> (r matches Ok(h) && h.input_size == utf8_len(text@) && h.algorithm
            == algorithm && h.output@ == trim(stdout@)),
        !success ==> (r matches Err(e) && e@ == "Hash failed: "@ + stderr@),
{
    if !success {
        let mut e = chars_of("Hash failed: ");
        push_str(&mut e, stderr);
        return Err(string_of(&e));
    }
    let out = trim_ws(&chars_of(stdout));
    Ok(HashResult { input_size: byte_len(text), algorithm, output: string_of(&out) })
}
} // verus!
