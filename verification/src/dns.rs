//! Readers for `dig` output: a plain query (`+noall +answer +stats
//! +comments`) and a delegation trace (`+trace`).
use vstd::prelude::*;

use crate::text::{
    after, find, lemma_before_char, lemma_find_first, lemma_find_from, matches_at,
    before, before_str, chars_of, join, join_chars, last_piece, last_piece_str, lines,
    lines_of, push_str, replace, replace_str, second_piece, second_piece_str, split_ws,
    split_ws_chars, starts_with, starts_with_str, string_of, trim, trim_ws, views, eq_str,
    slice_of,
};

verus! {

broadcast use vstd::seq_lib::group_seq_properties;

/// A resource record as five text fields.
pub struct RecordView {
    pub name: Seq<char>,
    pub ttl: Seq<char>,
    pub class: Seq<char>,
    pub rtype: Seq<char>,
    pub value: Seq<char>,
}

/// The record on an answer line: its first four whitespace-separated words,
/// and the remaining words joined by single spaces; `None` for a line with
/// fewer than five words.
pub open spec fn record_of(t: Seq<char>) -> Option<RecordView> {
    let ws = split_ws(t);
    if ws.len() >= 5 {
        Some(
            RecordView {
                name: ws[0],
                ttl: ws[1],
                class: ws[2],
                rtype: ws[3],
                value: join(ws.skip(4), " "@),
            },
        )
    } else {
        None
    }
}

/// One answer record.
#[derive(Debug)]
pub struct DnsRecord {
    pub name: String,
    pub ttl: String,
    pub record_class: String,
    pub record_type: String,
    pub value: String,
}

impl View for DnsRecord {
    type V = RecordView;

    open spec fn view(&self) -> RecordView {
        RecordView {
            name: self.name@,
            ttl: self.ttl@,
            class: self.record_class@,
            rtype: self.record_type@,
            value: self.value@,
        }
    }
}

/// The answer of a `dig` query.
#[derive(Debug)]
pub struct DigResult {
    pub domain: String,
    pub records: Vec<DnsRecord>,
    pub query_time: String,
    pub server: String,
    pub status: String,
}

/// What has been read of a `dig` answer so far.
pub struct DigView {
    pub records: Seq<RecordView>,
    pub query_time: Seq<char>,
    pub server: Seq<char>,
    pub status: Seq<char>,
}

pub open spec fn dig_start() -> DigView {
    DigView { records: seq![], query_time: seq![], server: seq![], status: "NOERROR"@ }
}

/// How one line of `dig` output changes what has been read: the header
/// comment gives the status, two statistics comments give the query time and
/// the server, other comments and blank lines are skipped, and any other line
/// of at least five words is a record.
pub open spec fn dig_step(st: DigView, line: Seq<char>) -> DigView {
    let t = trim(line);
    if starts_with(t, ";; ->>HEADER<<-"@) {
        match second_piece(t, "status: "@) {
            Some(s) => DigView { status: trim(before(s, ","@)), ..st },
            None => st,
        }
    } else if starts_with(t, ";; Query time:"@) {
        DigView { query_time: trim(replace(t, ";; Query time: "@, ""@)), ..st }
    } else if starts_with(t, ";; SERVER:"@) {
        DigView { server: trim(replace(t, ";; SERVER: "@, ""@)), ..st }
    } else if t.len() == 0 || starts_with(t, ";;"@) || starts_with(t, ";"@) {
        st
    } else {
        match record_of(t) {
            Some(r) => DigView { records: st.records.push(r), ..st },
            None => st,
        }
    }
}

pub open spec fn dig_fold(ls: Seq<Seq<char>>) -> DigView
    decreases ls.len(),
{
    if ls.len() == 0 {
        dig_start()
    } else {
        dig_step(dig_fold(ls.drop_last()), ls.last())
    }
}

/// Everything read from a `dig` answer.
pub open spec fn dig_output(out: Seq<char>) -> DigView {
    dig_fold(lines(out))
}

/// The record type to query: the given one, or `ANY`.
pub open spec fn dig_record_type(rt: Option<Seq<char>>) -> Seq<char> {
    match rt {
        Some(t) => t,
        None => "ANY"@,
    }
}

/// The record type to query: the given one, or `ANY`.
pub fn dig_query_type(record_type: Option<String>) -> (r: String)
    ensures
        r@ == dig_record_type(
            match record_type {
                Some(t) => Some(t@),
                None => None,
            },
        ),
{
    match record_type {
        Some(t) => t,
        None => String::from_str("ANY"),
    }
}

struct RecordAcc {
    name: Vec<char>,
    ttl: Vec<char>,
    class: Vec<char>,
    rtype: Vec<char>,
    value: Vec<char>,
}

impl View for RecordAcc {
    type V = RecordView;

    closed spec fn view(&self) -> RecordView {
        RecordView {
            name: self.name@,
            ttl: self.ttl@,
            class: self.class@,
            rtype: self.rtype@,
            value: self.value@,
        }
    }
}

fn record_exec(t: &Vec<char>) -> (r: Option<RecordAcc>)
    ensures
        match r {
            Some(x) => record_of(t@) == Some(x@),
            None => record_of(t@) is None,
        },
{
    let ws = split_ws_chars(t);
    if ws.len() >= 5 {
        let mut rest: Vec<Vec<char>> = Vec::new();
        let mut k: usize = 4;
        while k < ws.len()
            invariant
                4 <= k <= ws.len(),
                views(rest@) == views(ws@).skip(4).take(k - 4),
            decreases ws.len() - k,
        {
            let ghost o = rest@;
            let w = ws[k].clone();
            assert(w@ == views(ws@)[k as int]);
            rest.push(w);
            assert(views(rest@) =~= views(o).push(w@));
            assert(views(rest@) =~= views(ws@).skip(4).take(k + 1 - 4));
            k += 1;
        }
        assert(views(ws@).skip(4).take(ws.len() - 4) =~= views(ws@).skip(4));
        Some(
            RecordAcc {
                name: ws[0].clone(),
                ttl: ws[1].clone(),
                class: ws[2].clone(),
                rtype: ws[3].clone(),
                value: join_chars(&rest, " "),
            },
        )
    } else {
        None
    }
}

fn record_to_dns(r: &RecordAcc) -> (d: DnsRecord)
    ensures
        d@ == r@,
{
    DnsRecord {
        name: string_of(&r.name),
        ttl: string_of(&r.ttl),
        record_class: string_of(&r.class),
        record_type: string_of(&r.rtype),
        value: string_of(&r.value),
    }
}

struct DigAcc {
    records: Vec<DnsRecord>,
    query_time: Vec<char>,
    server: Vec<char>,
    status: Vec<char>,
}

impl DigAcc {
    spec fn view(&self) -> DigView {
        DigView {
            records: self.records@.map_values(|r: DnsRecord| r@),
            query_time: self.query_time@,
            server: self.server@,
            status: self.status@,
        }
    }
}

fn dig_step_exec(acc: &mut DigAcc, line: &Vec<char>)
    ensures
        final(acc).view() == dig_step(old(acc).view(), line@),
{
    proof {
        reveal_strlit(";; Query time: ");
        reveal_strlit(";; SERVER: ");
    }
    let t = trim_ws(line);
    if starts_with_str(&t, ";; ->>HEADER<<-") {
        if let Some(s) = second_piece_str(&t, "status: ") {
            acc.status = trim_ws(&before_str(&s, ","));
        }
    } else if starts_with_str(&t, ";; Query time:") {
        acc.query_time = trim_ws(&replace_str(&t, ";; Query time: ", ""));
    } else if starts_with_str(&t, ";; SERVER:") {
        acc.server = trim_ws(&replace_str(&t, ";; SERVER: ", ""));
    } else if t.len() == 0 || starts_with_str(&t, ";;") || starts_with_str(&t, ";") {
    } else {
        match record_exec(&t) {
            Some(r) => {
                let d = record_to_dns(&r);
                let ghost o = acc.records@;
                acc.records.push(d);
                assert(acc.records@.map_values(|r: DnsRecord| r@) =~= o.map_values(
                    |r: DnsRecord| r@,
                ).push(r@));
            },
            None => {},
        }
    }
}

/// Reads the answer records, status, query time and server of a `dig` query.
pub fn parse_dig_output(domain: String, stdout: &str) -> (r: DigResult)
    ensures
        r.domain == domain,
        r.records@.map_values(|x: DnsRecord| x@) == dig_output(stdout@).records,
        r.query_time@ == dig_output(stdout@).query_time,
        r.server@ == dig_output(stdout@).server,
        r.status@ == dig_output(stdout@).status,
{
    let ls = lines_of(&chars_of(stdout));
    let mut acc = DigAcc {
        records: Vec::new(),
        query_time: Vec::new(),
        server: Vec::new(),
        status: chars_of("NOERROR"),
    };
    assert(acc.view() == dig_start()) by {
        assert(acc.records@.map_values(|r: DnsRecord| r@) =~= Seq::<RecordView>::empty());
    }
    let mut k: usize = 0;
    while k < ls.len()
        invariant
            k <= ls.len(),
            views(ls@) == lines(stdout@),
            acc.view() == dig_fold(views(ls@).take(k as int)),
        decreases ls.len() - k,
    {
        let ghost pre = views(ls@).take(k + 1);
        assert(pre.drop_last() =~= views(ls@).take(k as int));
        dig_step_exec(&mut acc, &ls[k]);
        k += 1;
    }
    assert(views(ls@).take(ls.len() as int) =~= views(ls@));
    DigResult {
        domain,
        records: acc.records,
        query_time: string_of(&acc.query_time),
        server: string_of(&acc.server),
        status: string_of(&acc.status),
    }
}


// ───────────────────────── delegation trace ─────────────────────────

/// One record of a trace step.
#[derive(Debug)]
pub struct TraceRecord {
    pub name: String,
    pub ttl: String,
    pub record_class: String,
    pub record_type: String,
    pub value: String,
}

impl View for TraceRecord {
    type V = RecordView;

    open spec fn view(&self) -> RecordView {
        RecordView {
            name: self.name@,
            ttl: self.ttl@,
            class: self.record_class@,
            rtype: self.record_type@,
            value: self.value@,
        }
    }
}

/// One step of the delegation: the records a server returned and where the
/// answer came from.
#[derive(Debug)]
pub struct TraceHop {
    pub zone: String,
    pub server: String,
    pub server_ip: String,
    pub response_time: String,
    pub response_bytes: String,
    pub records: Vec<TraceRecord>,
}

pub struct TraceHopView {
    pub zone: Seq<char>,
    pub server: Seq<char>,
    pub server_ip: Seq<char>,
    pub response_time: Seq<char>,
    pub response_bytes: Seq<char>,
    pub records: Seq<RecordView>,
}

impl View for TraceHop {
    type V = TraceHopView;

    open spec fn view(&self) -> TraceHopView {
        TraceHopView {
            zone: self.zone@,
            server: self.server@,
            server_ip: self.server_ip@,
            response_time: self.response_time@,
            response_bytes: self.response_bytes@,
            records: self.records@.map_values(|r: TraceRecord| r@),
        }
    }
}

/// The result of a `dig +trace` run.
#[derive(Debug)]
pub struct DigTraceResult {
    pub domain: String,
    pub hops: Vec<TraceHop>,
    pub final_answers: Vec<TraceRecord>,
}

/// The DNSSEC record types that the trace leaves out unless asked for.
pub open spec fn is_dnssec_type(t: Seq<char>) -> bool {
    ||| t == "RRSIG"@
    ||| t == "NSEC"@
    ||| t == "NSEC3"@
    ||| t == "NSEC3PARAM"@
    ||| t == "DS"@
    ||| t == "DNSKEY"@
}

/// What has been read of a trace so far: the finished steps, the records of
/// the step being read and its zone.
pub struct TraceView {
    pub hops: Seq<TraceHopView>,
    pub current: Seq<RecordView>,
    pub zone: Seq<char>,
}

pub open spec fn trace_start() -> TraceView {
    TraceView { hops: seq![], current: seq![], zone: seq![] }
}

/// The step that a `;; Received <n> bytes from <ip>#<port>(<name>) in <t> ms`
/// line closes.
pub open spec fn received_hop(t: Seq<char>, st: TraceView) -> TraceHopView {
    let bytes = match second_piece(t, "Received "@) {
        Some(x) => before(x, " bytes"@),
        None => seq![],
    };
    let server_ip = match second_piece(t, "from "@) {
        Some(x) => before(x, "#"@),
        None => seq![],
    };
    let server = match second_piece(t, "("@) {
        Some(x) => before(x, ")"@),
        None => server_ip,
    };
    TraceHopView {
        zone: st.zone,
        server,
        server_ip,
        response_time: last_piece(t, "in "@),
        response_bytes: bytes,
        records: st.current,
    }
}

/// On a `Received` line such as `;; Received 1170 bytes from
/// 198.41.0.4#53(a.root-servers.net) in 30 ms`, the hop's server address is
/// the text between the first `from ` and the `#` after it (an address holds
/// no `#` and no space).
pub proof fn lemma_received_server_ip(t: Seq<char>, st: TraceView, i: int, ip: Seq<char>)
    requires
        matches_at(t, "from "@, i),
        forall|j: int| 0 <= j < i ==> !matches_at(t, "from "@, j),
        i + 5 + ip.len() < t.len(),
        t.subrange(i + 5, i + 5 + ip.len()) == ip,
        t[i + 5 + ip.len()] == '#',
        forall|j: int| 0 <= j < ip.len() ==> ip[j] != '#' && ip[j] != ' ',
    ensures
        received_hop(t, st).server_ip == ip,
{
    reveal_strlit("from ");
    reveal_strlit("#");
    let p = "from "@;
    assert(p =~= seq!['f', 'r', 'o', 'm', ' ']);
    assert("#"@ =~= seq!['#']);
    lemma_find_first(t, p, i);
    let r = t.skip(i + 5);
    let n = ip.len() as int;
    assert(after(t, p) == Some(r));
    assert forall|j: int| 0 <= j <= n implies r[j] == t[i + 5 + j] by {}
    assert forall|j: int| 0 <= j < n implies r[j] == ip[j] by {
        assert(t.subrange(i + 5, i + 5 + n)[j] == t[i + 5 + j]);
    }
    assert forall|m: int| 0 <= m <= n implies !matches_at(r, p, m) by {
        if matches_at(r, p, m) {
            if m + 4 < n {
                assert(r.subrange(m, m + 5)[4] == r[m + 4]);
                assert(ip[m + 4] != ' ');
            } else {
                let d = n - m;
                assert(r.subrange(m, m + 5)[d] == r[n]);
            }
        }
    }
    lemma_find_from(r, p, 0);
    let x = before(r, p);
    assert(x.len() > n && forall|j: int| 0 <= j <= n ==> x[j] == r[j]) by {
        match find(r, p) {
            Some(m) => {
                assert(m > n) by {
                    if m <= n {
                        assert(!matches_at(r, p, m));
                    }
                }
            },
            None => {},
        }
    }
    assert(second_piece(t, p) == Some(x));
    lemma_before_char(x, '#', n);
    assert(x.take(n) =~= ip);
}

/// On a `Received` line, the hop's response size is the number between the
/// first `Received ` and the ` bytes` after it.
pub proof fn lemma_received_bytes(t: Seq<char>, st: TraceView, i: int, n: Seq<char>)
    requires
        matches_at(t, "Received "@, i),
        forall|j: int| 0 <= j < i ==> !matches_at(t, "Received "@, j),
        t.subrange(i + 9, i + 9 + n.len()) == n,
        matches_at(t, " bytes"@, i + 9 + n.len()),
        forall|j: int| 0 <= j < n.len() ==> '0' <= #[trigger] n[j] <= '9',
    ensures
        received_hop(t, st).response_bytes == n,
{
    reveal_strlit("Received ");
    reveal_strlit(" bytes");
    let p = "Received "@;
    let b = " bytes"@;
    assert(p =~= seq!['R', 'e', 'c', 'e', 'i', 'v', 'e', 'd', ' ']);
    assert(b =~= seq![' ', 'b', 'y', 't', 'e', 's']);
    lemma_find_first(t, p, i);
    let r = t.skip(i + 9);
    let k = n.len() as int;
    assert(after(t, p) == Some(r));
    assert forall|j: int| 0 <= j < k implies r[j] == n[j] by {
        assert(t.subrange(i + 9, i + 9 + k)[j] == t[i + 9 + j]);
    }
    assert forall|j: int| 0 <= j < 6 implies r[k + j] == b[j] by {
        assert(t.subrange(i + 9 + k, i + 9 + k + 6)[j] == t[i + 9 + k + j]);
    }
    assert forall|m: int| 0 <= m < k + 6 implies !matches_at(r, p, m) by {
        if matches_at(r, p, m) {
            assert(r.subrange(m, m + 9)[0] == r[m]);
            if m < k {
                assert('0' <= n[m] <= '9');
            } else {
                assert(r[k + (m - k)] == b[m - k]);
            }
        }
    }
    lemma_find_from(r, p, 0);
    let x = before(r, p);
    assert(x.len() >= k + 6 && forall|j: int| 0 <= j < k + 6 ==> x[j] == r[j]) by {
        match find(r, p) {
            Some(m) => {
                assert(m >= k + 6) by {
                    if m < k + 6 {
                        assert(!matches_at(r, p, m));
                    }
                }
            },
            None => {},
        }
    }
    assert(second_piece(t, p) == Some(x));
    assert(matches_at(x, b, k)) by {
        assert(x.subrange(k, k + 6) =~= b);
    }
    assert forall|j: int| 0 <= j < k implies !matches_at(x, b, j) by {
        if matches_at(x, b, j) {
            assert(x.subrange(j, j + 6)[0] == x[j]);
            assert('0' <= n[j] <= '9');
        }
    }
    lemma_find_first(x, b, k);
    assert(x.take(k) =~= n);
}

/// On a `Received` line, the hop's server name is the text inside the first
/// pair of parentheses (a name holds no parenthesis).
pub proof fn lemma_received_server_name(t: Seq<char>, st: TraceView, i: int, name: Seq<char>)
    requires
        0 <= i,
        i + 1 + name.len() < t.len(),
        t[i] == '(',
        forall|j: int| 0 <= j < i ==> t[j] != '(',
        t.subrange(i + 1, i + 1 + name.len()) == name,
        t[i + 1 + name.len()] == ')',
        forall|j: int| 0 <= j < name.len() ==> name[j] != '(' && name[j] != ')',
    ensures
        received_hop(t, st).server == name,
{
    reveal_strlit("(");
    reveal_strlit(")");
    assert("("@ =~= seq!['(']);
    assert(")"@ =~= seq![')']);
    let n = name.len() as int;
    assert(t.subrange(i, i + 1) =~= seq!['(']);
    assert forall|j: int| 0 <= j < i implies !matches_at(t, seq!['('], j) by {
        if matches_at(t, seq!['('], j) {
            assert(t.subrange(j, j + 1)[0] == t[j]);
        }
    }
    lemma_find_first(t, seq!['('], i);
    let r = t.skip(i + 1);
    assert(after(t, "("@) == Some(r));
    assert forall|j: int| 0 <= j < n implies r[j] == name[j] by {
        assert(t.subrange(i + 1, i + 1 + n)[j] == t[i + 1 + j]);
    }
    assert(r[n] == ')');
    assert forall|m: int| 0 <= m <= n implies !matches_at(r, seq!['('], m) by {
        if matches_at(r, seq!['('], m) {
            assert(r.subrange(m, m + 1)[0] == r[m]);
        }
    }
    lemma_find_from(r, seq!['('], 0);
    let x = before(r, seq!['(']);
    assert(x.len() > n && forall|j: int| 0 <= j <= n ==> x[j] == r[j]) by {
        match find(r, seq!['(']) {
            Some(m) => {
                assert(m > n) by {
                    if m <= n {
                        assert(!matches_at(r, seq!['('], m));
                    }
                }
            },
            None => {},
        }
    }
    assert(second_piece(t, "("@) == Some(x));
    lemma_before_char(x, ')', n);
    assert(x.take(n) =~= name);
}

/// How one line of the trace changes what has been read.
pub open spec fn trace_step(st: TraceView, line: Seq<char>, show_dnssec: bool) -> TraceView {
    let t = trim(line);
    if t.len() == 0 || starts_with(t, ";; global options:"@) || starts_with(t, "; <<>>"@) {
        st
    } else if starts_with(t, ";; Received"@) {
        if st.current.len() > 0 {
            TraceView { hops: st.hops.push(received_hop(t, st)), current: seq![], ..st }
        } else {
            st
        }
    } else if starts_with(t, ";"@) {
        st
    } else {
        match record_of(t) {
            Some(r) => if !show_dnssec && is_dnssec_type(r.rtype) {
                st
            } else {
                TraceView {
                    hops: st.hops,
                    current: st.current.push(r),
                    zone: if st.current.len() == 0 {
                        r.name
                    } else {
                        st.zone
                    },
                }
            },
            None => st,
        }
    }
}

pub open spec fn trace_fold(ls: Seq<Seq<char>>, show_dnssec: bool) -> TraceView
    decreases ls.len(),
{
    if ls.len() == 0 {
        trace_start()
    } else {
        trace_step(trace_fold(ls.drop_last(), show_dnssec), ls.last(), show_dnssec)
    }
}

/// The steps of a `dig +trace` transcript.
pub open spec fn trace_hops(out: Seq<char>, show_dnssec: bool) -> Seq<TraceHopView> {
    trace_fold(lines(out), show_dnssec).hops
}

/// The records of the last step, the final answer.
pub open spec fn final_answers(hops: Seq<TraceHopView>) -> Seq<RecordView> {
    if hops.len() > 0 {
        hops.last().records
    } else {
        seq![]
    }
}

fn record_to_trace(r: &RecordAcc) -> (d: TraceRecord)
    ensures
        d@ == r@,
{
    TraceRecord {
        name: string_of(&r.name),
        ttl: string_of(&r.ttl),
        record_class: string_of(&r.class),
        record_type: string_of(&r.rtype),
        value: string_of(&r.value),
    }
}

fn clone_records(v: &Vec<TraceRecord>) -> (r: Vec<TraceRecord>)
    ensures
        r@.map_values(|x: TraceRecord| x@) == v@.map_values(|x: TraceRecord| x@),
{
    let mut r: Vec<TraceRecord> = Vec::new();
    let mut k: usize = 0;
    while k < v.len()
        invariant
            k <= v.len(),
            r@.map_values(|x: TraceRecord| x@) == v@.map_values(|x: TraceRecord| x@).take(
                k as int,
            ),
        decreases v.len() - k,
    {
        let x = &v[k];
        let c = TraceRecord {
            name: x.name.clone(),
            ttl: x.ttl.clone(),
            record_class: x.record_class.clone(),
            record_type: x.record_type.clone(),
            value: x.value.clone(),
        };
        let ghost o = r@;
        r.push(c);
        assert(r@.map_values(|x: TraceRecord| x@) =~= o.map_values(|x: TraceRecord| x@).push(
            v@[k as int]@,
        ));
        assert(v@.map_values(|x: TraceRecord| x@).take(k + 1) =~= v@.map_values(
            |x: TraceRecord| x@,
        ).take(k as int).push(v@[k as int]@));
        k += 1;
    }
    assert(v@.map_values(|x: TraceRecord| x@).take(v.len() as int) =~= v@.map_values(
        |x: TraceRecord| x@,
    ));
    r
}

struct TraceAcc {
    hops: Vec<TraceHop>,
    current: Vec<TraceRecord>,
    zone: Vec<char>,
}

impl TraceAcc {
    spec fn view(&self) -> TraceView {
        TraceView {
            hops: self.hops@.map_values(|h: TraceHop| h@),
            current: self.current@.map_values(|r: TraceRecord| r@),
            zone: self.zone@,
        }
    }
}

fn piece_before(t: &Vec<char>, p: &str, q: &str) -> (r: Option<Vec<char>>)
    ensures
        match r {
            Some(x) => second_piece(t@, p@) matches Some(y) && x@ == before(y, q@),
            None => second_piece(t@, p@) is None,
        },
{
    match second_piece_str(t, p) {
        Some(x) => Some(before_str(&x, q)),
        None => None,
    }
}

fn received_hop_exec(t: &Vec<char>, acc: &TraceAcc) -> (h: TraceHop)
    ensures
        h@ == received_hop(t@, acc.view()),
{
    proof {
        reveal_strlit("in ");
    }
    let bytes = match piece_before(t, "Received ", " bytes") {
        Some(x) => x,
        None => Vec::new(),
    };
    let server_ip = match piece_before(t, "from ", "#") {
        Some(x) => x,
        None => Vec::new(),
    };
    let server = match piece_before(t, "(", ")") {
        Some(x) => x,
        None => server_ip.clone(),
    };
    let time = last_piece_str(t, "in ");
    TraceHop {
        zone: string_of(&acc.zone),
        server: string_of(&server),
        server_ip: string_of(&server_ip),
        response_time: string_of(&time),
        response_bytes: string_of(&bytes),
        records: clone_records(&acc.current),
    }
}

fn is_dnssec_exec(t: &Vec<char>) -> (b: bool)
    ensures
        b == is_dnssec_type(t@),
{
    eq_str(t, "RRSIG") || eq_str(t, "NSEC") || eq_str(t, "NSEC3") || eq_str(t, "NSEC3PARAM")
        || eq_str(t, "DS") || eq_str(t, "DNSKEY")
}

fn trace_step_exec(acc: &mut TraceAcc, line: &Vec<char>, show_dnssec: bool)
    ensures
        final(acc).view() == trace_step(old(acc).view(), line@, show_dnssec),
{
    let t = trim_ws(line);
    if t.len() == 0 || starts_with_str(&t, ";; global options:") || starts_with_str(&t, "; <<>>") {
        return ;
    }
    if starts_with_str(&t, ";; Received") {
        if acc.current.len() > 0 {
            let h = received_hop_exec(&t, acc);
            let ghost o = acc.hops@;
            acc.hops.push(h);
            assert(acc.hops@.map_values(|h: TraceHop| h@) =~= o.map_values(|h: TraceHop| h@).push(
                h@,
            ));
            acc.current = Vec::new();
            assert(acc.current@.map_values(|r: TraceRecord| r@) =~= Seq::<RecordView>::empty());
        }
        return ;
    }
    if starts_with_str(&t, ";") {
        return ;
    }
    match record_exec(&t) {
        Some(r) => {
            if !show_dnssec && is_dnssec_exec(&r.rtype) {
                return ;
            }
            if acc.current.len() == 0 {
                acc.zone = r.name.clone();
            }
            let d = record_to_trace(&r);
            let ghost o = acc.current@;
            acc.current.push(d);
            assert(acc.current@.map_values(|r: TraceRecord| r@) =~= o.map_values(
                |r: TraceRecord| r@,
            ).push(r@));
        },
        None => {},
    }
}

/// Reads the delegation steps of a `dig +trace` transcript (DNSSEC records
/// left out unless `include_dnssec` is `Some(true)`); the final answers are
/// the records of the last step.
pub fn parse_dig_trace(domain: String, stdout: &str, include_dnssec: Option<bool>) -> (r:
    DigTraceResult)
    ensures
        ({
            let show = match include_dnssec {
                Some(b) => b,
                None => false,
            };
            let hops = trace_hops(stdout@, show);
            &&& r.domain == domain
            &&& r.hops@.map_values(|h: TraceHop| h@) == hops
            &&& r.final_answers@.map_values(|x: TraceRecord| x@) == final_answers(hops)
        }),
{
    let show = match include_dnssec {
        Some(b) => b,
        None => false,
    };
    let ls = lines_of(&chars_of(stdout));
    let mut acc = TraceAcc { hops: Vec::new(), current: Vec::new(), zone: Vec::new() };
    assert(acc.view() == trace_start()) by {
        assert(acc.hops@.map_values(|h: TraceHop| h@) =~= Seq::<TraceHopView>::empty());
        assert(acc.current@.map_values(|r: TraceRecord| r@) =~= Seq::<RecordView>::empty());
    }
    let mut k: usize = 0;
    while k < ls.len()
        invariant
            k <= ls.len(),
            views(ls@) == lines(stdout@),
            acc.view() == trace_fold(views(ls@).take(k as int), show),
        decreases ls.len() - k,
    {
        let ghost pre = views(ls@).take(k + 1);
        assert(pre.drop_last() =~= views(ls@).take(k as int));
        trace_step_exec(&mut acc, &ls[k], show);
        k += 1;
    }
    assert(views(ls@).take(ls.len() as int) =~= views(ls@));
    let final_answers: Vec<TraceRecord> = if acc.hops.len() > 0 {
        let n = acc.hops.len() - 1;
        clone_records(&acc.hops[n].records)
    } else {
        Vec::new()
    };
    proof {
        if acc.hops.len() == 0 {
            assert(final_answers@.map_values(|x: TraceRecord| x@) =~= Seq::<RecordView>::empty());
        }
    }
    DigTraceResult { domain, hops: acc.hops, final_answers }
}
/// The arguments of the `dig` query: the domain, the record type (`ANY`
/// unless given), and the answer, statistics and comment sections only.
pub fn dig_args(domain: &str, record_type: Option<String>) -> (r: Vec<String>)
    ensures
        r@.map_values(|x: String| x@) == seq![
            domain@,
            dig_record_type(
                match record_type {
                    Some(t) => Some(t@),
                    None => None,
                },
            ),
            "+noall"@,
            "+answer"@,
            "+stats"@,
            "+comments"@,
        ],
{
    let r = vec![
        String::from_str(domain),
        dig_query_type(record_type),
        String::from_str("+noall"),
        String::from_str("+answer"),
        String::from_str("+stats"),
        String::from_str("+comments"),
    ];
    assert(r@.map_values(|x: String| x@) =~= seq![
        r@[0]@,
        r@[1]@,
        "+noall"@,
        "+answer"@,
        "+stats"@,
        "+comments"@,
    ]);
    r
}

/// The outcome of a `dig` query: the records read from its output, or its
/// error output when it failed.
pub fn dig_result(domain: String, success: bool, stdout: &str, stderr: &str) -> (r: Result<
    DigResult,
    String,
>)
    ensures
        !success ==> (r matches Err(e) && e@ == "dig failed: "@ + stderr@),
        success ==> (r matches Ok(d) && d.domain == domain && d.records@.map_values(
            |x: DnsRecord| x@,
        ) == dig_output(stdout@).records && d.query_time@ == dig_output(stdout@).query_time
            && d.server@ == dig_output(stdout@).server && d.status@ == dig_output(
            stdout@,
        ).status),
{
    if !success {
        let mut e = chars_of("dig failed: ");
        push_str(&mut e, stderr);
        return Err(string_of(&e));
    }
    Ok(parse_dig_output(domain, stdout))
}

/// The outcome of a `dig +trace`: the hops read from its output, or its
/// error output when it failed.
pub fn dig_trace_result(
    domain: String,
    success: bool,
    stdout: &str,
    stderr: &str,
    include_dnssec: Option<bool>,
) -> (r: Result<DigTraceResult, String>)
    ensures
        !success ==> (r matches Err(e) && e@ == "dig +trace failed: "@ + stderr@),
        success ==> (r matches Ok(d) && {
            let show = match include_dnssec {
                Some(b) => b,
                None => false,
            };
            let hops = trace_hops(stdout@, show);
            &&& d.domain == domain
            &&& d.hops@.map_values(|h: TraceHop| h@) == hops
            &&& d.final_answers@.map_values(|x: TraceRecord| x@) == final_answers(hops)
        }),
{
    if !success {
        let mut e = chars_of("dig +trace failed: ");
        push_str(&mut e, stderr);
        return Err(string_of(&e));
    }
    Ok(parse_dig_trace(domain, stdout, include_dnssec))
}

} // verus!
