//! Reading `ping` and `traceroute` output. Times are kept as the words the
//! tools printed; reading them as numbers is left to the caller.
use vstd::prelude::*;

use crate::num::{parse_u32, parse_unsigned};
use crate::text::{
    before, before_str, chars_of, contains, contains_str, find, find_chars, lines, lines_of,
    pieces, pieces_str, push_str, second_piece, second_piece_str, slice_of, split_ws,
    split_ws_chars, starts_with, starts_with_str, string_of, string_views, strings_of, trim,
    trim_end_char, trim_start_char, trim_ws, views, lemma_find_bound, trim_end_by,
    trim_start_by, char_pred, ends_with,
};

verus! {

broadcast use vstd::seq_lib::group_seq_properties;

// ───────────────────────── words ─────────────────────────

/// The first whitespace-separated word of `s`.
pub open spec fn first_word(s: Seq<char>) -> Option<Seq<char>> {
    let ws = split_ws(s);
    if ws.len() > 0 {
        Some(ws[0])
    } else {
        None
    }
}

/// The first word after the first `key` of `t` (`t.split(key).nth(1)`).
pub open spec fn word_after(t: Seq<char>, key: Seq<char>) -> Option<Seq<char>> {
    match second_piece(t, key) {
        Some(p) => first_word(p),
        None => None,
    }
}

/// A word read as a `u32`; 0 when there is no word or it is not one.
pub open spec fn u32_or_zero(w: Option<Seq<char>>) -> u32 {
    match w {
        Some(x) => match parse_unsigned(x, u32::MAX as nat) {
            Some(v) => v as u32,
            None => 0,
        },
        None => 0,
    }
}

/// The text between the first `(` and the first `)` of `t`.
pub open spec fn paren_text(t: Seq<char>) -> Option<Seq<char>> {
    match (find(t, seq!['(']), find(t, seq![')'])) {
        (Some(s), Some(e)) => Some(t.subrange(s + 1, e)),
        _ => None,
    }
}

/// The first `)` of `t` does not come before its first `(` (the original
/// slices between them and stops otherwise).
pub open spec fn parens_ordered(t: Seq<char>) -> bool {
    match (find(t, seq!['(']), find(t, seq![')'])) {
        (Some(s), Some(e)) => s < e,
        _ => true,
    }
}

fn first_word_exec(v: &Vec<char>) -> (r: Option<Vec<char>>)
    ensures
        match r {
            Some(w) => first_word(v@) == Some(w@),
            None => first_word(v@) is None,
        },
{
    let ws = split_ws_chars(v);
    if ws.len() > 0 {
        assert(views(ws@)[0] == ws@[0]@);
        Some(ws[0].clone())
    } else {
        None
    }
}

fn word_after_exec(t: &Vec<char>, key: &str) -> (r: Option<Vec<char>>)
    ensures
        match r {
            Some(w) => word_after(t@, key@) == Some(w@),
            None => word_after(t@, key@) is None,
        },
{
    match second_piece_str(t, key) {
        Some(p) => first_word_exec(&p),
        None => None,
    }
}

fn u32_or_zero_exec(w: &Option<Vec<char>>) -> (n: u32)
    ensures
        n == u32_or_zero(
            match w {
                Some(x) => Some(x@),
                None => None,
            },
        ),
{
    match w {
        Some(x) => match parse_u32(x) {
            Some(v) => v,
            None => 0,
        },
        None => 0,
    }
}

fn paren_text_exec(t: &Vec<char>) -> (r: Option<Vec<char>>)
    requires
        parens_ordered(t@),
    ensures
        match r {
            Some(x) => paren_text(t@) == Some(x@),
            None => paren_text(t@) is None,
        },
{
    let open = vec!['('];
    let close = vec![')'];
    assert(open@ =~= seq!['(']);
    assert(close@ =~= seq![')']);
    proof {
        lemma_find_bound(t@, seq!['(']);
        lemma_find_bound(t@, seq![')']);
    }
    let fo = find_chars(t, &open);
    let fc = find_chars(t, &close);
    match fo {
        Some(s) => match fc {
            Some(e) => {
                assert(s < e);
                Some(slice_of(t, s + 1, e))
            },
            None => None,
        },
        None => None,
    }
}

/// `s` without every trailing ` ms`.
pub open spec fn strip_ms(s: Seq<char>) -> Seq<char>
    decreases s.len(),
{
    if ends_with(s, seq![' ', 'm', 's']) {
        strip_ms(s.take(s.len() - 3))
    } else {
        s
    }
}

fn strip_ms_exec(v: &Vec<char>) -> (r: Vec<char>)
    ensures
        r@ == strip_ms(v@),
{
    let mut n = v.len();
    while n >= 3 && v[n - 3] == ' ' && v[n - 2] == 'm' && v[n - 1] == 's'
        invariant
            n <= v.len(),
            strip_ms(v@) == strip_ms(v@.take(n as int)),
        decreases n,
    {
        proof {
            let s = v@.take(n as int);
            assert(s.skip(s.len() - 3) =~= seq![' ', 'm', 's']);
            assert(s.take(s.len() - 3) =~= v@.take(n - 3));
        }
        n -= 3;
    }
    proof {
        let s = v@.take(n as int);
        if ends_with(s, seq![' ', 'm', 's']) {
            assert(s.skip(s.len() - 3)[0] == s[s.len() - 3]);
            assert(s.skip(s.len() - 3)[1] == s[s.len() - 2]);
            assert(s.skip(s.len() - 3)[2] == s[s.len() - 1]);
        }
    }
    slice_of(v, 0, n)
}

// ───────────────────────── ping ─────────────────────────

/// One echo reply: its sequence number and TTL (0 when unreadable) and the
/// word printed as its time.
#[derive(Debug)]
pub struct PingReplyText {
    pub seq: u32,
    pub ttl: u32,
    pub time: Option<String>,
}

impl View for PingReplyText {
    type V = (u32, u32, Option<Seq<char>>);

    open spec fn view(&self) -> (u32, u32, Option<Seq<char>>) {
        (
            self.seq,
            self.ttl,
            match self.time {
                Some(t) => Some(t@),
                None => None,
            },
        )
    }
}

/// What `ping` printed: the address it resolved, the replies, the packet
/// counts, the loss figure as printed, and, for each round-trip summary line,
/// its values as printed.
#[derive(Debug)]
pub struct PingOutput {
    pub ip: String,
    pub replies: Vec<PingReplyText>,
    pub transmitted: u32,
    pub received: u32,
    pub loss: Option<String>,
    pub rtt: Vec<Vec<String>>,
}

pub struct PingView {
    pub ip: Seq<char>,
    pub replies: Seq<(u32, u32, Option<Seq<char>>)>,
    pub transmitted: u32,
    pub received: u32,
    pub loss: Option<Seq<char>>,
    pub rtt: Seq<Seq<Seq<char>>>,
}

impl View for PingOutput {
    type V = PingView;

    open spec fn view(&self) -> PingView {
        PingView {
            ip: self.ip@,
            replies: self.replies@.map_values(|r: PingReplyText| r@),
            transmitted: self.transmitted,
            received: self.received,
            loss: match self.loss {
                Some(l) => Some(l@),
                None => None,
            },
            rtt: self.rtt@.map_values(|v: Vec<String>| string_views(v@)),
        }
    }
}

pub open spec fn ping_start() -> PingView {
    PingView {
        ip: seq![],
        replies: seq![],
        transmitted: 0,
        received: 0,
        loss: None,
        rtt: seq![],
    }
}

/// The values of a round-trip summary, each trimmed and without ` ms`.
pub open spec fn rtt_values(vals: Seq<char>) -> Seq<Seq<char>> {
    pieces(trim(vals), seq!['/']).map_values(|s: Seq<char>| strip_ms(trim(s)))
}

/// How one line of `ping` output changes what has been read: the `PING`
/// line gives the address in parentheses, a reply line its sequence number,
/// TTL and time, the packet line its counts and loss, and the round-trip line
/// its values.
pub open spec fn ping_step(acc: PingView, line: Seq<char>) -> PingView {
    let t = trim(line);
    let a1 = if starts_with(t, "PING "@) {
        match paren_text(t) {
            Some(ip) => PingView { ip, ..acc },
            None => acc,
        }
    } else {
        acc
    };
    let a2 = if contains(t, "icmp_seq="@) && contains(t, "time="@) {
        PingView {
            replies: a1.replies.push(
                (
                    u32_or_zero(word_after(t, "icmp_seq="@)),
                    u32_or_zero(word_after(t, "ttl="@)),
                    word_after(t, "time="@),
                ),
            ),
            ..a1
        }
    } else {
        a1
    };
    let a3 = if contains(t, "packets transmitted"@) {
        let ps = pieces(t, seq![',']);
        PingView {
            transmitted: u32_or_zero(first_word(ps[0])),
            received: if ps.len() > 1 {
                u32_or_zero(first_word(ps[1]))
            } else {
                a2.received
            },
            loss: if ps.len() > 2 {
                Some(trim(before(trim(ps[2]), seq!['%'])))
            } else {
                a2.loss
            },
            ..a2
        }
    } else {
        a2
    };
    if contains(t, "min/avg/max"@) {
        match second_piece(t, seq!['=']) {
            Some(vals) => PingView { rtt: a3.rtt.push(rtt_values(vals)), ..a3 },
            None => a3,
        }
    } else {
        a3
    }
}

pub open spec fn ping_fold(ls: Seq<Seq<char>>) -> PingView
    decreases ls.len(),
{
    if ls.len() == 0 {
        ping_start()
    } else {
        ping_step(ping_fold(ls.drop_last()), ls.last())
    }
}

/// The `PING` lines of the output have their parentheses in order.
pub open spec fn ping_lines_ok(ls: Seq<Seq<char>>) -> bool {
    forall|i: int|
        0 <= i < ls.len() ==> (starts_with(trim(#[trigger] ls[i]), "PING "@) ==> parens_ordered(
            trim(ls[i]),
        ))
}

fn rtt_values_exec(vals: &Vec<char>) -> (r: Vec<String>)
    ensures
        string_views(r@) == rtt_values(vals@),
{
    let t = trim_ws(vals);
    proof {
        reveal_strlit("/");
        assert("/"@ =~= seq!['/']);
    }
    let ps = pieces_str(&t, "/");
    let ghost pv = views(ps@);
    let mut out: Vec<String> = Vec::new();
    let mut k: usize = 0;
    while k < ps.len()
        invariant
            k <= ps.len(),
            pv == views(ps@),
            pv == pieces(t@, seq!['/']),
            string_views(out@) == pv.take(k as int).map_values(|s: Seq<char>| strip_ms(trim(s))),
        decreases ps.len() - k,
    {
        let w = strip_ms_exec(&trim_ws(&ps[k]));
        let ghost before_out = out@;
        out.push(string_of(&w));
        assert(string_views(out@) =~= string_views(before_out).push(w@));
        assert(pv.take(k + 1) =~= pv.take(k as int).push(pv[k as int]));
        k += 1;
    }
    assert(pv.take(ps.len() as int) =~= pv);
    out
}

fn ping_step_exec(acc: &mut PingOutput, line: &Vec<char>)
    requires
        starts_with(trim(line@), "PING "@) ==> parens_ordered(trim(line@)),
    ensures
        final(acc)@ == ping_step(old(acc)@, line@),
{
    let t = trim_ws(line);
    proof {
        reveal_strlit(",");
        reveal_strlit("%");
        reveal_strlit("=");
        assert(","@ =~= seq![',']);
        assert("%"@ =~= seq!['%']);
        assert("="@ =~= seq!['=']);
    }
    let ghost a0 = acc@;
    let ghost tv = t@;
    if starts_with_str(&t, "PING ") {
        match paren_text_exec(&t) {
            Some(ip) => {
                acc.ip = string_of(&ip);
            },
            None => {},
        }
    }
    let ghost a1 = acc@;
    assert(a1 == (if starts_with(tv, "PING "@) {
        match paren_text(tv) {
            Some(ip) => PingView { ip, ..a0 },
            None => a0,
        }
    } else {
        a0
    }));
    if contains_str(&t, "icmp_seq=") && contains_str(&t, "time=") {
        let seq = u32_or_zero_exec(&word_after_exec(&t, "icmp_seq="));
        let ttl = u32_or_zero_exec(&word_after_exec(&t, "ttl="));
        let time = match word_after_exec(&t, "time=") {
            Some(w) => Some(string_of(&w)),
            None => None,
        };
        let r = PingReplyText { seq, ttl, time };
        acc.replies.push(r);
        assert(acc@.replies =~= a1.replies.push(r@));
    }
    let ghost a2 = acc@;
    assert(a2 == (if contains(tv, "icmp_seq="@) && contains(tv, "time="@) {
        PingView {
            replies: a1.replies.push(
                (
                    u32_or_zero(word_after(tv, "icmp_seq="@)),
                    u32_or_zero(word_after(tv, "ttl="@)),
                    word_after(tv, "time="@),
                ),
            ),
            ..a1
        }
    } else {
        a1
    }));
    if contains_str(&t, "packets transmitted") {
        let ps = pieces_str(&t, ",");
        proof {
            crate::text::lemma_pieces_nonempty(tv, seq![',']);
        }
        assert(views(ps@).len() == ps.len());
        acc.transmitted = u32_or_zero_exec(&first_word_exec(&ps[0]));
        if ps.len() > 1 {
            acc.received = u32_or_zero_exec(&first_word_exec(&ps[1]));
        }
        if ps.len() > 2 {
            let l = trim_ws(&before_str(&trim_ws(&ps[2]), "%"));
            acc.loss = Some(string_of(&l));
        }
    }
    let ghost a3 = acc@;
    if contains_str(&t, "min/avg/max") {
        match second_piece_str(&t, "=") {
            Some(vals) => {
                let vs = rtt_values_exec(&vals);
                acc.rtt.push(vs);
                assert(acc@.rtt =~= a3.rtt.push(rtt_values(vals@)));
            },
            None => {},
        }
    }
}

/// What `ping` printed, line by line.
pub fn parse_ping_output(stdout: &str) -> (r: PingOutput)
    requires
        ping_lines_ok(lines(stdout@)),
    ensures
        r@ == ping_fold(lines(stdout@)),
{
    let ls = lines_of(&chars_of(stdout));
    let ghost all = views(ls@);
    let mut acc = PingOutput {
        ip: String::new(),
        replies: Vec::new(),
        transmitted: 0,
        received: 0,
        loss: None,
        rtt: Vec::new(),
    };
    assert(acc@.replies =~= Seq::<(u32, u32, Option<Seq<char>>)>::empty());
    assert(acc@.rtt =~= Seq::<Seq<Seq<char>>>::empty());
    let mut k: usize = 0;
    while k < ls.len()
        invariant
            k <= ls.len(),
            all == views(ls@),
            ping_lines_ok(all),
            acc@ == ping_fold(all.take(k as int)),
        decreases ls.len() - k,
    {
        assert(all.take(k + 1).drop_last() =~= all.take(k as int));
        assert(all[k as int] == ls@[k as int]@);
        ping_step_exec(&mut acc, &ls[k]);
        k += 1;
    }
    assert(all.take(ls.len() as int) =~= all);
    acc
}

// ───────────────────────── traceroute ─────────────────────────

/// A hop line of `traceroute` as printed: the hop number, the host, the
/// address without its parentheses, the words after them (the times), and
/// whether the hop timed out (`*` in place of the host).
#[derive(Debug)]
pub struct TraceLine {
    pub hop: u32,
    pub host: String,
    pub ip: String,
    pub times: Vec<String>,
    pub is_timeout: bool,
}

pub type TraceLineView = (u32, Seq<char>, Seq<char>, Seq<Seq<char>>, bool);

impl View for TraceLine {
    type V = TraceLineView;

    open spec fn view(&self) -> TraceLineView {
        (self.hop, self.host@, self.ip@, string_views(self.times@), self.is_timeout)
    }
}

/// The hop of a trimmed `traceroute` line: none unless its first word is a
/// hop number.
pub open spec fn trace_line(t: Seq<char>) -> Option<TraceLineView> {
    let ps = split_ws(t);
    if ps.len() == 0 {
        None
    } else {
        match parse_unsigned(ps[0], u32::MAX as nat) {
            None => None,
            Some(h) => if ps.len() >= 2 && ps[1] == seq!['*'] {
                Some((h as u32, seq!['*'], seq![], seq![], true))
            } else {
                Some(
                    (
                        h as u32,
                        if ps.len() > 1 {
                            ps[1]
                        } else {
                            seq![]
                        },
                        if ps.len() > 2 {
                            trim_end_by(trim_start_by(ps[2], char_pred('(')), char_pred(')'))
                        } else {
                            seq![]
                        },
                        if ps.len() > 3 {
                            ps.skip(3)
                        } else {
                            seq![]
                        },
                        false,
                    ),
                )
            },
        }
    }
}

/// The hop of one trimmed line of `traceroute` output.
pub fn parse_traceroute_line(trimmed: &str) -> (r: Option<TraceLine>)
    ensures
        match r {
            Some(h) => trace_line(trimmed@) == Some(h@),
            None => trace_line(trimmed@) is None,
        },
{
    let ps = split_ws_chars(&chars_of(trimmed));
    let ghost pv = views(ps@);
    if ps.len() == 0 {
        return None;
    }
    assert(pv[0] == ps@[0]@);
    let hop = match parse_u32(&ps[0]) {
        Some(h) => h,
        None => {
            return None;
        },
    };
    if ps.len() >= 2 && ps[1].len() == 1 && ps[1][0] == '*' {
        assert(pv[1] =~= seq!['*']);
        let r = TraceLine {
            hop,
            host: String::from_str("*"),
            ip: String::new(),
            times: Vec::new(),
            is_timeout: true,
        };
        proof {
            reveal_strlit("*");
            assert(string_views(r.times@) =~= Seq::<Seq<char>>::empty());
        }
        return Some(r);
    }
    proof {
        if ps.len() >= 2 && pv[1] == seq!['*'] {
            assert(ps@[1]@.len() == 1 && ps@[1]@[0] == '*');
        }
    }
    let host = if ps.len() > 1 {
        assert(pv[1] == ps@[1]@);
        string_of(&ps[1])
    } else {
        String::new()
    };
    let ip = if ps.len() > 2 {
        assert(pv[2] == ps@[2]@);
        string_of(&trim_end_char(&trim_start_char(&ps[2], '('), ')'))
    } else {
        String::new()
    };
    let mut times: Vec<String> = Vec::new();
    if ps.len() > 3 {
        let mut k: usize = 3;
        while k < ps.len()
            invariant
                3 <= k <= ps.len(),
                pv == views(ps@),
                string_views(times@) == pv.skip(3).take(k - 3),
            decreases ps.len() - k,
        {
            let ghost before = times@;
            times.push(string_of(&ps[k]));
            assert(string_views(times@) =~= string_views(before).push(pv[k as int]));
            assert(pv.skip(3).take(k + 1 - 3) =~= pv.skip(3).take(k - 3).push(pv[k as int]));
            k += 1;
        }
        assert(pv.skip(3).take(ps.len() - 3) =~= pv.skip(3));
    } else {
        assert(string_views(times@) =~= Seq::<Seq<char>>::empty());
    }
    Some(TraceLine { hop, host, ip, times, is_timeout: false })
}

/// What `traceroute` printed: the target's address and the hop lines.
#[derive(Debug)]
pub struct TracerouteOutput {
    pub target_ip: String,
    pub hops: Vec<TraceLine>,
}

/// How one line of `traceroute` output changes what has been read: the
/// header gives the target's address in parentheses, a hop line adds a hop,
/// blank lines and `traceroute:` messages change nothing.
pub open spec fn trace_output_step(acc: (Seq<char>, Seq<TraceLineView>), line: Seq<char>) -> (Seq<char>, Seq<TraceLineView>) {
    let t = trim(line);
    if t.len() == 0 {
        acc
    } else if starts_with(t, "traceroute to"@) {
        match paren_text(t) {
            Some(ip) => (ip, acc.1),
            None => acc,
        }
    } else if starts_with(t, "traceroute:"@) {
        acc
    } else {
        match trace_line(t) {
            Some(h) => (acc.0, acc.1.push(h)),
            None => acc,
        }
    }
}

pub open spec fn trace_output_fold(ls: Seq<Seq<char>>) -> (Seq<char>, Seq<TraceLineView>)
    decreases ls.len(),
{
    if ls.len() == 0 {
        (seq![], seq![])
    } else {
        trace_output_step(trace_output_fold(ls.drop_last()), ls.last())
    }
}

/// The header lines of the output have their parentheses in order.
pub open spec fn trace_lines_ok(ls: Seq<Seq<char>>) -> bool {
    forall|i: int|
        0 <= i < ls.len() ==> (starts_with(trim(#[trigger] ls[i]), "traceroute to"@)
            ==> parens_ordered(trim(ls[i])))
}

/// The text that is read: the error output, a line break, the output.
pub open spec fn trace_text(stderr: Seq<char>, stdout: Seq<char>) -> Seq<char> {
    stderr + seq!['\n'] + stdout
}

/// What `traceroute` printed on its error output and its output, read line
/// by line.
pub fn parse_traceroute_output(stderr: &str, stdout: &str) -> (r: TracerouteOutput)
    requires
        trace_lines_ok(lines(trace_text(stderr@, stdout@))),
    ensures
        (r.target_ip@, r.hops@.map_values(|h: TraceLine| h@)) == trace_output_fold(
            lines(trace_text(stderr@, stdout@)),
        ),
{
    let mut full = chars_of(stderr);
    full.push('\n');
    push_str(&mut full, stdout);
    assert(full@ =~= trace_text(stderr@, stdout@));
    let ls = lines_of(&full);
    let ghost all = views(ls@);
    let mut target: Vec<char> = Vec::new();
    let mut hops: Vec<TraceLine> = Vec::new();
    let mut k: usize = 0;
    while k < ls.len()
        invariant
            k <= ls.len(),
            all == views(ls@),
            trace_lines_ok(all),
            (target@, hops@.map_values(|h: TraceLine| h@)) == trace_output_fold(all.take(k as int)),
        decreases ls.len() - k,
    {
        assert(all.take(k + 1).drop_last() =~= all.take(k as int));
        assert(all[k as int] == ls@[k as int]@);
        let t = trim_ws(&ls[k]);
        if t.len() == 0 {
        } else if starts_with_str(&t, "traceroute to") {
            match paren_text_exec(&t) {
                Some(ip) => {
                    target = ip;
                },
                None => {},
            }
        } else if starts_with_str(&t, "traceroute:") {
        } else {
            let ts = string_of(&t);
            match parse_traceroute_line(ts.as_str()) {
                Some(h) => {
                    let ghost before = hops@;
                    hops.push(h);
                    assert(hops@.map_values(|h: TraceLine| h@) =~= before.map_values(
                        |h: TraceLine| h@,
                    ).push(h@));
                },
                None => {},
            }
        }
        k += 1;
    }
    assert(all.take(ls.len() as int) =~= all);
    TracerouteOutput { target_ip: string_of(&target), hops }
}

} // verus!
