//! The `curl` front end: the argument list built from the request options,
//! and the reader of `curl -s -i -w <meta>` output (responses, redirects,
//! headers, body and the metadata block).
use vstd::prelude::*;

use crate::text::{
    after, after_str, before, before_str, chars_of, chars_of_string, find, find_str,
    lines, lines_of, lowercase, push_all, push_str, slice_of, split_once, split_once_str,
    split_ws, split_ws_chars, starts_with, starts_with_str, string_of, string_views,
    strings_of, strip_prefix, strip_prefix_str, to_lowercase, trim, trim_ws, utf8_len, views,
    eq_str, lemma_find_bound, byte_len, opt_string_view, lemma_prefix_excludes,
};
use crate::num::{parse_unsigned, parse_u16};

verus! {

broadcast use vstd::seq_lib::group_seq_properties;

/// The `-w` format that makes curl print its metadata block after the response.
pub open spec fn timing_format() -> Seq<char> {
    "\n__CURL_META__\nstatus_code:%{http_code}\nremote_ip:%{remote_ip}\ntime_namelookup:%{time_namelookup}\ntime_connect:%{time_connect}\ntime_appconnect:%{time_appconnect}\ntime_starttransfer:%{time_starttransfer}\ntime_total:%{time_total}\ncontent_type:%{content_type}\n"@
}

/// `-H <header>` for every header that is not blank.
pub open spec fn header_args(hs: Seq<Seq<char>>) -> Seq<Seq<char>>
    decreases hs.len(),
{
    if hs.len() == 0 {
        seq![]
    } else {
        let prev = header_args(hs.drop_last());
        if trim(hs.last()).len() == 0 {
            prev
        } else {
            prev + seq!["-H"@, hs.last()]
        }
    }
}

/// Every whitespace-separated word of every extra flag.
pub open spec fn flag_args(fs: Seq<Seq<char>>) -> Seq<Seq<char>>
    decreases fs.len(),
{
    if fs.len() == 0 {
        seq![]
    } else {
        let prev = flag_args(fs.drop_last());
        let t = trim(fs.last());
        if t.len() == 0 {
            prev
        } else {
            prev + split_ws(t)
        }
    }
}

/// The request method: the given one, or `GET`.
pub open spec fn curl_method(method: Option<Seq<char>>) -> Seq<char> {
    match method {
        Some(m) => m,
        None => "GET"@,
    }
}

/// The full curl argument list for a request.
pub open spec fn curl_arg_list(
    method: Seq<char>,
    headers: Option<Seq<Seq<char>>>,
    body: Option<Seq<char>>,
    follow: bool,
    extra_flags: Option<Seq<Seq<char>>>,
    url: Seq<char>,
) -> Seq<Seq<char>> {
    let base = seq!["-s"@, "-i"@, "-X"@, method, "-w"@, timing_format()];
    let follow_args = if follow {
        seq!["-L"@]
    } else {
        seq![]
    };
    let hs = match headers {
        Some(h) => header_args(h),
        None => seq![],
    };
    let bs = match body {
        Some(b) => if trim(b).len() == 0 {
            seq![]
        } else {
            seq!["-d"@, b]
        },
        None => seq![],
    };
    let fs = match extra_flags {
        Some(f) => flag_args(f),
        None => seq![],
    };
    base + follow_args + hs + bs + fs + seq![url]
}

pub open spec fn opt_strings_view(o: Option<Vec<String>>) -> Option<Seq<Seq<char>>> {
    match o {
        Some(v) => Some(string_views(v@)),
        None => None,
    }
}

fn push_arg(args: &mut Vec<Vec<char>>, a: Vec<char>)
    ensures
        views(final(args)@) == views(old(args)@).push(a@),
{
    let ghost o = args@;
    args.push(a);
    assert(views(args@) =~= views(o).push(a@));
}

fn push_header_args(args: &mut Vec<Vec<char>>, hs: &Vec<String>)
    ensures
        views(final(args)@) == views(old(args)@) + header_args(string_views(hs@)),
{
    let mut k: usize = 0;
    while k < hs.len()
        invariant
            k <= hs.len(),
            views(args@) == views(old(args)@) + header_args(string_views(hs@).take(k as int)),
        decreases hs.len() - k,
    {
        let ghost pre = string_views(hs@).take(k + 1);
        assert(pre.drop_last() =~= string_views(hs@).take(k as int));
        let h = chars_of_string(&hs[k]);
        let t = trim_ws(&h);
        if t.len() != 0 {
            let ghost o = views(args@);
            push_arg(args, chars_of("-H"));
            push_arg(args, h);
            assert(views(args@) =~= o + seq!["-H"@, pre.last()]);
        }
        k += 1;
    }
    assert(string_views(hs@).take(hs.len() as int) =~= string_views(hs@));
}

fn push_words(args: &mut Vec<Vec<char>>, words: &Vec<Vec<char>>)
    ensures
        views(final(args)@) == views(old(args)@) + views(words@),
{
    let mut j: usize = 0;
    while j < words.len()
        invariant
            j <= words.len(),
            views(args@) == views(old(args)@) + views(words@).take(j as int),
        decreases words.len() - j,
    {
        assert(views(words@).take(j + 1) =~= views(words@).take(j as int).push(
            words@[j as int]@,
        ));
        let w = words[j].clone();
        push_arg(args, w);
        j += 1;
    }
    assert(views(words@).take(words.len() as int) =~= views(words@));
}

fn push_flag_args(args: &mut Vec<Vec<char>>, fs: &Vec<String>)
    ensures
        views(final(args)@) == views(old(args)@) + flag_args(string_views(fs@)),
{
    let mut k: usize = 0;
    while k < fs.len()
        invariant
            k <= fs.len(),
            views(args@) == views(old(args)@) + flag_args(string_views(fs@).take(k as int)),
        decreases fs.len() - k,
    {
        let ghost pre = string_views(fs@).take(k + 1);
        assert(pre.drop_last() =~= string_views(fs@).take(k as int));
        let t = trim_ws(&chars_of_string(&fs[k]));
        if t.len() != 0 {
            let words = split_ws_chars(&t);
            push_words(args, &words);
        }
        k += 1;
    }
    assert(string_views(fs@).take(fs.len() as int) =~= string_views(fs@));
}

fn body_args(body: &Option<String>) -> (r: Vec<Vec<char>>)
    ensures
        views(r@) == match opt_string_view(*body) {
            Some(b) => if trim(b).len() == 0 {
                seq![]
            } else {
                seq!["-d"@, b]
            },
            None => seq![],
        },
{
    let mut r: Vec<Vec<char>> = Vec::new();
    assert(views(r@) =~= Seq::<Seq<char>>::empty());
    match body {
        Some(b) => {
            let bc = chars_of_string(b);
            let t = trim_ws(&bc);
            if t.len() != 0 {
                push_arg(&mut r, chars_of("-d"));
                push_arg(&mut r, bc);
                assert(views(r@) =~= seq!["-d"@, b@]);
            }
        },
        None => {},
    }
    r
}

/// The request method (default `GET`) and the curl arguments for the request:
/// silent, headers included, the method, the metadata format, `-L` when
/// redirects are followed (the default), each non-blank header, the body when
/// not blank, every word of every extra flag, and the URL.
pub fn curl_args(
    method: Option<String>,
    headers: Option<Vec<String>>,
    body: Option<String>,
    follow_redirects: Option<bool>,
    extra_flags: Option<Vec<String>>,
    url: &str,
) -> (r: (String, Vec<String>))
    ensures
        r.0@ == curl_method(opt_string_view(method)),
        string_views(r.1@) == curl_arg_list(
            r.0@,
            opt_strings_view(headers),
            opt_string_view(body),
            match follow_redirects {
                Some(f) => f,
                None => true,
            },
            opt_strings_view(extra_flags),
            url@,
        ),
{
    let method_str: String = match method {
        Some(m) => m,
        None => String::from_str("GET"),
    };
    let follow = match follow_redirects {
        Some(f) => f,
        None => true,
    };
    let mut args: Vec<Vec<char>> = Vec::new();
    push_arg(&mut args, chars_of("-s"));
    push_arg(&mut args, chars_of("-i"));
    push_arg(&mut args, chars_of("-X"));
    push_arg(&mut args, chars_of_string(&method_str));
    push_arg(&mut args, chars_of("-w"));
    push_arg(
        &mut args,
        chars_of(
            "\n__CURL_META__\nstatus_code:%{http_code}\nremote_ip:%{remote_ip}\ntime_namelookup:%{time_namelookup}\ntime_connect:%{time_connect}\ntime_appconnect:%{time_appconnect}\ntime_starttransfer:%{time_starttransfer}\ntime_total:%{time_total}\ncontent_type:%{content_type}\n",
        ),
    );
    let ghost base = views(args@);
    if follow {
        push_arg(&mut args, chars_of("-L"));
    }
    let ghost after_follow = views(args@);
    match &headers {
        Some(hs) => {
            push_header_args(&mut args, hs);
        },
        None => {},
    }
    let ghost after_headers = views(args@);
    let bs = body_args(&body);
    push_words(&mut args, &bs);
    let ghost after_body = views(args@);
    match &extra_flags {
        Some(fs) => {
            push_flag_args(&mut args, fs);
        },
        None => {},
    }
    push_arg(&mut args, chars_of(url));
    proof {
        let follow_args: Seq<Seq<char>> = if follow {
            seq!["-L"@]
        } else {
            seq![]
        };
        assert(after_follow =~= base + follow_args);
        let hs: Seq<Seq<char>> = match headers {
            Some(h) => header_args(string_views(h@)),
            None => seq![],
        };
        assert(after_headers =~= after_follow + hs);
        let fs: Seq<Seq<char>> = match extra_flags {
            Some(f) => flag_args(string_views(f@)),
            None => seq![],
        };
        assert(views(args@) =~= after_body + fs + seq![url@]);
        assert(views(args@) =~= curl_arg_list(
            method_str@,
            opt_strings_view(headers),
            opt_string_view(body),
            follow,
            opt_strings_view(extra_flags),
            url@,
        ));
    }
    let out = strings_of(&args);
    (method_str, out)
}


// ───────────────────────── reading curl's output ─────────────────────────

/// The marker line that starts curl's metadata block.
pub open spec fn meta_marker() -> Seq<char> {
    "\n__CURL_META__\n"@
}

/// The HTTP part and the metadata part of curl's standard output.
pub open spec fn split_meta(raw: Seq<char>) -> (Seq<char>, Seq<char>) {
    match find(raw, meta_marker()) {
        Some(i) => (raw.take(i), raw.skip(i)),
        None => (raw, seq![]),
    }
}

/// The values of the metadata block.  Timing values are kept as curl printed
/// them (seconds).
pub struct CurlMetaView {
    pub status_code: u16,
    pub remote_ip: Seq<char>,
    pub namelookup: Seq<char>,
    pub connect: Seq<char>,
    pub appconnect: Seq<char>,
    pub starttransfer: Seq<char>,
    pub total: Seq<char>,
    pub content_type: Seq<char>,
}

pub open spec fn meta_start() -> CurlMetaView {
    CurlMetaView {
        status_code: 0,
        remote_ip: seq![],
        namelookup: seq![],
        connect: seq![],
        appconnect: seq![],
        starttransfer: seq![],
        total: seq![],
        content_type: seq![],
    }
}

pub open spec fn meta_step(st: CurlMetaView, line: Seq<char>) -> CurlMetaView {
    if strip_prefix(line, "status_code:"@) is Some {
        let code = match parse_unsigned(strip_prefix(line, "status_code:"@).unwrap(), u16::MAX as nat) {
            Some(c) => c as u16,
            None => 0u16,
        };
        CurlMetaView { status_code: code, ..st }
    } else if strip_prefix(line, "remote_ip:"@) is Some {
        CurlMetaView { remote_ip: strip_prefix(line, "remote_ip:"@).unwrap(), ..st }
    } else if strip_prefix(line, "time_namelookup:"@) is Some {
        CurlMetaView { namelookup: strip_prefix(line, "time_namelookup:"@).unwrap(), ..st }
    } else if strip_prefix(line, "time_connect:"@) is Some {
        CurlMetaView { connect: strip_prefix(line, "time_connect:"@).unwrap(), ..st }
    } else if strip_prefix(line, "time_appconnect:"@) is Some {
        CurlMetaView { appconnect: strip_prefix(line, "time_appconnect:"@).unwrap(), ..st }
    } else if strip_prefix(line, "time_starttransfer:"@) is Some {
        CurlMetaView { starttransfer: strip_prefix(line, "time_starttransfer:"@).unwrap(), ..st }
    } else if strip_prefix(line, "time_total:"@) is Some {
        CurlMetaView { total: strip_prefix(line, "time_total:"@).unwrap(), ..st }
    } else if strip_prefix(line, "content_type:"@) is Some {
        CurlMetaView { content_type: strip_prefix(line, "content_type:"@).unwrap(), ..st }
    } else {
        st
    }
}

pub open spec fn meta_fold(ls: Seq<Seq<char>>) -> CurlMetaView
    decreases ls.len(),
{
    if ls.len() == 0 {
        meta_start()
    } else {
        meta_step(meta_fold(ls.drop_last()), ls.last())
    }
}

/// Each `key:value` line of the metadata block sets its own value to the
/// text after the key and leaves every other value as it was:
/// `remote_ip:`, `time_namelookup:` (DNS lookup), `time_connect:` (TCP
/// connect), `time_appconnect:` (TLS handshake), `time_starttransfer:`
/// (first byte), `time_total:` and `content_type:`; `status_code:` sets the
/// status to the number after it (0 when that is not a `u16`).
pub proof fn lemma_meta_key_lines(ls: Seq<Seq<char>>, l: Seq<char>)
    ensures
        ({
            let was = meta_fold(ls);
            let now = meta_fold(ls.push(l));
            &&& starts_with(l, "status_code:"@) ==> now == CurlMetaView {
                status_code: match parse_unsigned(l.skip(12), u16::MAX as nat) {
                    Some(c) => c as u16,
                    None => 0u16,
                },
                ..was
            }
            &&& starts_with(l, "remote_ip:"@) ==> now == CurlMetaView {
                remote_ip: l.skip(10),
                ..was
            }
            &&& starts_with(l, "time_namelookup:"@) ==> now == CurlMetaView {
                namelookup: l.skip(16),
                ..was
            }
            &&& starts_with(l, "time_connect:"@) ==> now == CurlMetaView {
                connect: l.skip(13),
                ..was
            }
            &&& starts_with(l, "time_appconnect:"@) ==> now == CurlMetaView {
                appconnect: l.skip(16),
                ..was
            }
            &&& starts_with(l, "time_starttransfer:"@) ==> now == CurlMetaView {
                starttransfer: l.skip(19),
                ..was
            }
            &&& starts_with(l, "time_total:"@) ==> now == CurlMetaView { total: l.skip(11), ..was }
            &&& starts_with(l, "content_type:"@) ==> now == CurlMetaView {
                content_type: l.skip(13),
                ..was
            }
        }),
{
    reveal_strlit("status_code:");
    reveal_strlit("remote_ip:");
    reveal_strlit("time_namelookup:");
    reveal_strlit("time_connect:");
    reveal_strlit("time_appconnect:");
    reveal_strlit("time_starttransfer:");
    reveal_strlit("time_total:");
    reveal_strlit("content_type:");
    let sc = "status_code:"@;
    let ri = "remote_ip:"@;
    let nl = "time_namelookup:"@;
    let co = "time_connect:"@;
    let ap = "time_appconnect:"@;
    let st = "time_starttransfer:"@;
    let to = "time_total:"@;
    let ct = "content_type:"@;
    assert(ls.push(l).drop_last() =~= ls);
    assert(nl[5] == 'n' && co[5] == 'c' && ap[5] == 'a' && st[5] == 's' && to[5] == 't');
    if starts_with(l, ri) {
        lemma_prefix_excludes(l, ri, sc, 0);
    }
    if starts_with(l, nl) {
        lemma_prefix_excludes(l, nl, sc, 0);
        lemma_prefix_excludes(l, nl, ri, 0);
    }
    if starts_with(l, co) {
        lemma_prefix_excludes(l, co, sc, 0);
        lemma_prefix_excludes(l, co, ri, 0);
        lemma_prefix_excludes(l, co, nl, 5);
    }
    if starts_with(l, ap) {
        lemma_prefix_excludes(l, ap, sc, 0);
        lemma_prefix_excludes(l, ap, ri, 0);
        lemma_prefix_excludes(l, ap, nl, 5);
        lemma_prefix_excludes(l, ap, co, 5);
    }
    if starts_with(l, st) {
        lemma_prefix_excludes(l, st, sc, 0);
        lemma_prefix_excludes(l, st, ri, 0);
        lemma_prefix_excludes(l, st, nl, 5);
        lemma_prefix_excludes(l, st, co, 5);
        lemma_prefix_excludes(l, st, ap, 5);
    }
    if starts_with(l, to) {
        lemma_prefix_excludes(l, to, sc, 0);
        lemma_prefix_excludes(l, to, ri, 0);
        lemma_prefix_excludes(l, to, nl, 5);
        lemma_prefix_excludes(l, to, co, 5);
        lemma_prefix_excludes(l, to, ap, 5);
        lemma_prefix_excludes(l, to, st, 5);
    }
    if starts_with(l, ct) {
        lemma_prefix_excludes(l, ct, sc, 0);
        lemma_prefix_excludes(l, ct, ri, 0);
        lemma_prefix_excludes(l, ct, nl, 0);
        lemma_prefix_excludes(l, ct, co, 0);
        lemma_prefix_excludes(l, ct, ap, 0);
        lemma_prefix_excludes(l, ct, st, 0);
        lemma_prefix_excludes(l, ct, to, 0);
    }
}

/// Where a response's header block ends and how long the blank-line
/// separator is: the first `\r\n\r\n`, else the first `\n\n`.
pub open spec fn header_end(rem: Seq<char>) -> Option<(int, int)> {
    match find(rem, "\r\n\r\n"@) {
        Some(i) => Some((i, 4)),
        None => match find(rem, "\n\n"@) {
            Some(i) => Some((i, 2)),
            None => None,
        },
    }
}

/// The status code of a status line such as `HTTP/1.1 301 Moved` (0 when absent).
pub open spec fn status_code_of(sl: Seq<char>) -> u16 {
    match after(sl, " "@) {
        Some(r1) => match parse_unsigned(before(r1, " "@), u16::MAX as nat) {
            Some(c) => c as u16,
            None => 0u16,
        },
        None => 0u16,
    }
}

/// The reason phrase of a status line: everything after the second space.
pub open spec fn status_text_of(sl: Seq<char>) -> Seq<char> {
    match after(sl, " "@) {
        Some(r1) => match after(r1, " "@) {
            Some(t) => t,
            None => seq![],
        },
        None => seq![],
    }
}

/// The `name: value` headers of a block (names and values trimmed) and the
/// value of the last `Location` header.
pub open spec fn headers_of(ls: Seq<Seq<char>>) -> (Seq<(Seq<char>, Seq<char>)>, Seq<char>)
    decreases ls.len(),
{
    if ls.len() == 0 {
        (seq![], seq![])
    } else {
        let prev = headers_of(ls.drop_last());
        match split_once(ls.last(), ":"@) {
            Some((n, v)) => {
                let name = trim(n);
                let value = trim(v);
                let loc = if lowercase(name) == "location"@ {
                    value
                } else {
                    prev.1
                };
                (prev.0.push((name, value)), loc)
            },
            None => prev,
        }
    }
}

/// What the HTTP part says: the redirects passed through, and the headers,
/// reason phrase and body of the final response.
pub struct CurlHttpView {
    pub redirects: Seq<(u16, Seq<char>)>,
    pub headers: Seq<(Seq<char>, Seq<char>)>,
    pub status_text: Seq<char>,
    pub body: Seq<char>,
}

pub proof fn lemma_header_end(rem: Seq<char>)
    ensures
        header_end(rem) matches Some((i, sep)) ==> 0 <= i && i + sep <= rem.len() && sep > 0,
{
    lemma_find_bound(rem, "\r\n\r\n"@);
    lemma_find_bound(rem, "\n\n"@);
    reveal_strlit("\r\n\r\n");
    reveal_strlit("\n\n");
}

/// Reads response after response: a 3xx response followed by another
/// response (`HTTP...`) is a redirect; the first other one is final, and its
/// body is everything after its header block.  Without a header block the
/// whole rest is the body.
pub open spec fn http_parse(rem: Seq<char>) -> CurlHttpView
    decreases rem.len(),
{
    match header_end(rem) {
        None => CurlHttpView { redirects: seq![], headers: seq![], status_text: seq![], body: rem },
        Some((i, sep)) => {
            proof {
                lemma_header_end(rem);
            }
            let block = rem.take(i);
            let after_headers = rem.skip(i + sep);
            let ls = lines(block);
            let status_line = if ls.len() > 0 {
                ls[0]
            } else {
                seq![]
            };
            let hdr_lines = if ls.len() > 0 {
                ls.drop_first()
            } else {
                seq![]
            };
            let status = status_code_of(status_line);
            let hs = headers_of(hdr_lines);
            if 300 <= status < 400 && after_headers.len() > 0 && starts_with(
                after_headers,
                "HTTP"@,
            ) {
                let rest = http_parse(after_headers);
                CurlHttpView { redirects: seq![(status, hs.1)] + rest.redirects, ..rest }
            } else {
                CurlHttpView {
                    redirects: seq![],
                    headers: hs.0,
                    status_text: status_text_of(status_line),
                    body: after_headers,
                }
            }
        },
    }
}

/// One response header.
#[derive(Debug)]
pub struct CurlHeader {
    pub name: String,
    pub value: String,
}

/// Timings of the request.
#[derive(Debug)]
pub struct CurlTimings {
    pub dns_lookup: String,
    pub tcp_connect: String,
    pub tls_handshake: String,
    pub ttfb: String,
    pub total: String,
}

/// One redirect that curl followed.
#[derive(Debug)]
pub struct CurlRedirect {
    pub status: u16,
    pub location: String,
}

/// Everything `run_curl` reports about a request.
#[derive(Debug)]
pub struct CurlResult {
    pub url: String,
    pub method: String,
    pub status_code: u16,
    pub status_text: String,
    pub response_headers: Vec<CurlHeader>,
    pub body: String,
    pub body_size: usize,
    pub timings: CurlTimings,
    pub redirects: Vec<CurlRedirect>,
    pub remote_ip: String,
    pub content_type: String,
    pub verbose_output: String,
}

impl View for CurlHeader {
    type V = (Seq<char>, Seq<char>);

    open spec fn view(&self) -> (Seq<char>, Seq<char>) {
        (self.name@, self.value@)
    }
}

impl View for CurlRedirect {
    type V = (u16, Seq<char>);

    open spec fn view(&self) -> (u16, Seq<char>) {
        (self.status, self.location@)
    }
}

struct MetaAcc {
    status_code: u16,
    remote_ip: Vec<char>,
    namelookup: Vec<char>,
    connect: Vec<char>,
    appconnect: Vec<char>,
    starttransfer: Vec<char>,
    total: Vec<char>,
    content_type: Vec<char>,
}

impl MetaAcc {
    spec fn view(&self) -> CurlMetaView {
        CurlMetaView {
            status_code: self.status_code,
            remote_ip: self.remote_ip@,
            namelookup: self.namelookup@,
            connect: self.connect@,
            appconnect: self.appconnect@,
            starttransfer: self.starttransfer@,
            total: self.total@,
            content_type: self.content_type@,
        }
    }
}

fn meta_step_exec(acc: &mut MetaAcc, line: &Vec<char>)
    ensures
        final(acc).view() == meta_step(old(acc).view(), line@),
{
    if let Some(v) = strip_prefix_str(line, "status_code:") {
        acc.status_code = match parse_u16(&v) {
            Some(c) => c,
            None => 0,
        };
    } else if let Some(v) = strip_prefix_str(line, "remote_ip:") {
        acc.remote_ip = v;
    } else if let Some(v) = strip_prefix_str(line, "time_namelookup:") {
        acc.namelookup = v;
    } else if let Some(v) = strip_prefix_str(line, "time_connect:") {
        acc.connect = v;
    } else if let Some(v) = strip_prefix_str(line, "time_appconnect:") {
        acc.appconnect = v;
    } else if let Some(v) = strip_prefix_str(line, "time_starttransfer:") {
        acc.starttransfer = v;
    } else if let Some(v) = strip_prefix_str(line, "time_total:") {
        acc.total = v;
    } else if let Some(v) = strip_prefix_str(line, "content_type:") {
        acc.content_type = v;
    }
}

fn parse_meta(meta: &Vec<char>) -> (acc: MetaAcc)
    ensures
        acc.view() == meta_fold(lines(meta@)),
{
    let ls = lines_of(meta);
    let mut acc = MetaAcc {
        status_code: 0,
        remote_ip: Vec::new(),
        namelookup: Vec::new(),
        connect: Vec::new(),
        appconnect: Vec::new(),
        starttransfer: Vec::new(),
        total: Vec::new(),
        content_type: Vec::new(),
    };
    let mut k: usize = 0;
    while k < ls.len()
        invariant
            k <= ls.len(),
            views(ls@) == lines(meta@),
            acc.view() == meta_fold(views(ls@).take(k as int)),
        decreases ls.len() - k,
    {
        let ghost pre = views(ls@).take(k + 1);
        assert(pre.drop_last() =~= views(ls@).take(k as int));
        meta_step_exec(&mut acc, &ls[k]);
        k += 1;
    }
    assert(views(ls@).take(ls.len() as int) =~= views(ls@));
    acc
}

fn status_code_exec(sl: &Vec<char>) -> (c: u16)
    ensures
        c == status_code_of(sl@),
{
    match after_str(sl, " ") {
        Some(r1) => match parse_u16(&before_str(&r1, " ")) {
            Some(c) => c,
            None => 0,
        },
        None => 0,
    }
}

fn status_text_exec(sl: &Vec<char>) -> (t: Vec<char>)
    ensures
        t@ == status_text_of(sl@),
{
    match after_str(sl, " ") {
        Some(r1) => match after_str(&r1, " ") {
            Some(t) => t,
            None => Vec::new(),
        },
        None => Vec::new(),
    }
}

/// Headers of the lines `ls[1..]` and the last `Location` value.
fn headers_exec(ls: &Vec<Vec<char>>) -> (r: (Vec<CurlHeader>, Vec<char>))
    requires
        ls.len() > 0,
    ensures
        r.0@.map_values(|h: CurlHeader| h@) == headers_of(views(ls@).drop_first()).0,
        r.1@ == headers_of(views(ls@).drop_first()).1,
{
    let ghost hl = views(ls@).drop_first();
    let mut hdrs: Vec<CurlHeader> = Vec::new();
    let mut loc: Vec<char> = Vec::new();
    let mut k: usize = 1;
    assert(hl.take(0) =~= Seq::<Seq<char>>::empty());
    while k < ls.len()
        invariant
            1 <= k <= ls.len(),
            hl == views(ls@).drop_first(),
            hdrs@.map_values(|h: CurlHeader| h@) == headers_of(hl.take(k - 1)).0,
            loc@ == headers_of(hl.take(k - 1)).1,
        decreases ls.len() - k,
    {
        let ghost pre = hl.take(k as int);
        assert(pre.drop_last() =~= hl.take(k - 1));
        assert(pre.last() == ls@[k as int]@);
        match split_once_str(&ls[k], ":") {
            Some((n, v)) => {
                let name = trim_ws(&n);
                let value = trim_ws(&v);
                let low = to_lowercase(&name);
                if eq_str(&low, "location") {
                    loc = value.clone();
                }
                let h = CurlHeader { name: string_of(&name), value: string_of(&value) };
                let ghost o = hdrs@;
                hdrs.push(h);
                assert(hdrs@.map_values(|h: CurlHeader| h@) =~= o.map_values(
                    |h: CurlHeader| h@,
                ).push((name@, value@)));
            },
            None => {},
        }
        k += 1;
    }
    assert(hl.take(ls.len() - 1) =~= hl);
    (hdrs, loc)
}

/// Reads the HTTP part of curl's output (see `http_parse`).
fn parse_http(http: &Vec<char>) -> (r: (Vec<CurlRedirect>, Vec<CurlHeader>, Vec<char>, Vec<char>))
    ensures
        r.0@.map_values(|x: CurlRedirect| x@) == http_parse(http@).redirects,
        r.1@.map_values(|h: CurlHeader| h@) == http_parse(http@).headers,
        r.2@ == http_parse(http@).status_text,
        r.3@ == http_parse(http@).body,
{
    let mut redirects: Vec<CurlRedirect> = Vec::new();
    let mut rem = http.clone();
    loop
        invariant
            http_parse(http@).redirects == redirects@.map_values(|x: CurlRedirect| x@)
                + http_parse(rem@).redirects,
            http_parse(http@).headers == http_parse(rem@).headers,
            http_parse(http@).status_text == http_parse(rem@).status_text,
            http_parse(http@).body == http_parse(rem@).body,
        decreases rem.len(),
    {
        proof {
            lemma_header_end(rem@);
            lemma_find_bound(rem@, "\r\n\r\n"@);
            lemma_find_bound(rem@, "\n\n"@);
        }
        let (idx, sep): (usize, usize) = match find_str(&rem, "\r\n\r\n") {
            Some(i) => (i, 4),
            None => match find_str(&rem, "\n\n") {
                Some(i) => (i, 2),
                None => {
                    assert(redirects@.map_values(|x: CurlRedirect| x@) + Seq::<
                        (u16, Seq<char>),
                    >::empty() =~= redirects@.map_values(|x: CurlRedirect| x@));
                    return (redirects, Vec::new(), Vec::new(), rem);
                },
            },
        };
        assert(header_end(rem@) == Some((idx as int, sep as int)));
        let block = slice_of(&rem, 0, idx);
        let after_headers = slice_of(&rem, idx + sep, rem.len());
        let ls = lines_of(&block);
        let status_line: Vec<char> = if ls.len() > 0 {
            ls[0].clone()
        } else {
            Vec::new()
        };
        let (hdrs, loc): (Vec<CurlHeader>, Vec<char>) = if ls.len() > 0 {
            headers_exec(&ls)
        } else {
            assert(headers_of(Seq::<Seq<char>>::empty()) == (
                Seq::<(Seq<char>, Seq<char>)>::empty(),
                Seq::<char>::empty(),
            ));
            (Vec::new(), Vec::new())
        };
        let status = status_code_exec(&status_line);
        if 300 <= status && status < 400 && after_headers.len() > 0 && starts_with_str(
            &after_headers,
            "HTTP",
        ) {
            let ghost o = redirects@;
            redirects.push(CurlRedirect { status, location: string_of(&loc) });
            assert(redirects@.map_values(|x: CurlRedirect| x@) =~= o.map_values(
                |x: CurlRedirect| x@,
            ).push((status, loc@)));
            assert(http_parse(rem@).redirects =~= seq![(status, loc@)] + http_parse(
                after_headers@,
            ).redirects);
            rem = after_headers;
        } else {
            let text = status_text_exec(&status_line);
            assert(redirects@.map_values(|x: CurlRedirect| x@) + Seq::<(u16, Seq<char>)>::empty()
                =~= redirects@.map_values(|x: CurlRedirect| x@));
            return (redirects, hdrs, text, after_headers);
        }
    }
}

/// The outcome of a curl run: an error when it failed without output,
/// otherwise everything read from standard output, with standard error as the
/// verbose transcript.  The timing fields hold curl's values in seconds as
/// printed; turning them into display strings is left to the caller.
pub fn curl_result(url: String, method: String, success: bool, stdout: &str, stderr: String) -> (r:
    Result<CurlResult, String>)
    ensures
        (!success && stdout@.len() == 0) ==> (r matches Err(e) && e@ == "curl failed: "@
            + stderr@),
        (success || stdout@.len() > 0) ==> (r matches Ok(c) && {
            let parts = split_meta(stdout@);
            let meta = meta_fold(lines(parts.1));
            let http = http_parse(parts.0);
            &&& c.url == url
            &&& c.method == method
            &&& c.status_code == meta.status_code
            &&& c.status_text@ == http.status_text
            &&& c.response_headers@.map_values(|h: CurlHeader| h@) == http.headers
            &&& c.body@ == http.body
            &&& c.body_size == utf8_len(http.body)
            &&& c.timings.dns_lookup@ == meta.namelookup
            &&& c.timings.tcp_connect@ == meta.connect
            &&& c.timings.tls_handshake@ == meta.appconnect
            &&& c.timings.ttfb@ == meta.starttransfer
            &&& c.timings.total@ == meta.total
            &&& c.redirects@.map_values(|x: CurlRedirect| x@) == http.redirects
            &&& c.remote_ip@ == meta.remote_ip
            &&& c.content_type@ == meta.content_type
            &&& c.verbose_output == stderr
        }),
{
    let raw = chars_of(stdout);
    if !success && raw.len() == 0 {
        let mut e = chars_of("curl failed: ");
        let se = chars_of_string(&stderr);
        push_all(&mut e, &se);
        return Err(string_of(&e));
    }
    let (http, meta): (Vec<char>, Vec<char>) = match find_str(
        &raw,
        "\n__CURL_META__\n",
    ) {
        Some(i) => {
            proof {
                lemma_find_bound(raw@, meta_marker());
            }
            (slice_of(&raw, 0, i), slice_of(&raw, i, raw.len()))
        },
        None => (raw.clone(), Vec::new()),
    };
    let m = parse_meta(&meta);
    let (redirects, headers, text, body) = parse_http(&http);
    let body_s = string_of(&body);
    let body_size = byte_len(body_s.as_str());
    Ok(
        CurlResult {
            url,
            method,
            status_code: m.status_code,
            status_text: string_of(&text),
            response_headers: headers,
            body: body_s,
            body_size,
            timings: CurlTimings {
                dns_lookup: string_of(&m.namelookup),
                tcp_connect: string_of(&m.connect),
                tls_handshake: string_of(&m.appconnect),
                ttfb: string_of(&m.starttransfer),
                total: string_of(&m.total),
            },
            redirects,
            remote_ip: string_of(&m.remote_ip),
            content_type: string_of(&m.content_type),
            verbose_output: stderr,
        },
    )
}
} // verus!
