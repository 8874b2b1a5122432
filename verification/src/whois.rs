//! Reader for `whois` output: registrar, dates, name servers, status codes
//! and every `key: value` field.
use vstd::prelude::*;

use crate::text::{
    chars_of, eq_chars, eq_str, lines, lines_of, lowercase, split_once, split_once_str,
    split_ws, split_ws_chars, starts_with, starts_with_str, string_of, string_views,
    strings_of, to_lowercase, trim, trim_ws, views,
};

verus! {

broadcast use vstd::seq_lib::group_seq_properties;

/// One `key: value` line of the record.
#[derive(Debug)]
pub struct WhoisField {
    pub key: String,
    pub value: String,
}

impl View for WhoisField {
    type V = (Seq<char>, Seq<char>);

    open spec fn view(&self) -> (Seq<char>, Seq<char>) {
        (self.key@, self.value@)
    }
}

/// The registration record of a domain.
#[derive(Debug)]
pub struct WhoisResult {
    pub domain: String,
    pub registrar: String,
    pub creation_date: String,
    pub expiry_date: String,
    pub updated_date: String,
    pub nameservers: Vec<String>,
    pub status: Vec<String>,
    pub fields: Vec<WhoisField>,
    pub raw_output: String,
}

/// What has been read of a whois record so far.
pub struct WhoisView {
    pub registrar: Seq<char>,
    pub creation_date: Seq<char>,
    pub expiry_date: Seq<char>,
    pub updated_date: Seq<char>,
    pub nameservers: Seq<Seq<char>>,
    pub status: Seq<Seq<char>>,
    pub fields: Seq<(Seq<char>, Seq<char>)>,
}

pub open spec fn whois_start() -> WhoisView {
    WhoisView {
        registrar: seq![],
        creation_date: seq![],
        expiry_date: seq![],
        updated_date: seq![],
        nameservers: seq![],
        status: seq![],
        fields: seq![],
    }
}

/// The first whitespace-separated word, or the empty text.
pub open spec fn first_word(v: Seq<char>) -> Seq<char> {
    let ws = split_ws(v);
    if ws.len() > 0 {
        ws[0]
    } else {
        seq![]
    }
}

/// `list` with `x` appended, unless `x` is empty or already listed.
pub open spec fn push_new(list: Seq<Seq<char>>, x: Seq<char>) -> Seq<Seq<char>> {
    if x.len() > 0 && !list.contains(x) {
        list.push(x)
    } else {
        list
    }
}

/// How one line of the record changes what has been read.  Comment and
/// banner lines and lines without a value are skipped; known keys (compared
/// in lowercase) fill the summary fields, the first occurrence winning; name
/// servers (lowercased) and status codes are collected once each; every other
/// `key: value` line is kept as a field too.
pub open spec fn whois_step(st: WhoisView, line: Seq<char>) -> WhoisView {
    let t = trim(line);
    if t.len() == 0 || starts_with(t, "%"@) || starts_with(t, "#"@) || starts_with(t, ">>>"@) {
        st
    } else {
        match split_once(t, ":"@) {
            None => st,
            Some((key, value)) => {
                let k = lowercase(trim(key));
                let v = trim(value);
                if v.len() == 0 {
                    st
                } else {
                    let st1 = if k == "registrar"@ || k == "registrar name"@ {
                        if st.registrar.len() == 0 {
                            WhoisView { registrar: v, ..st }
                        } else {
                            st
                        }
                    } else if k == "creation date"@ || k == "created"@ || k
                        == "registration date"@ {
                        if st.creation_date.len() == 0 {
                            WhoisView { creation_date: v, ..st }
                        } else {
                            st
                        }
                    } else if k == "registry expiry date"@ || k
                        == "registrar registration expiration date"@ || k == "expiry date"@ || k
                        == "expires"@ {
                        if st.expiry_date.len() == 0 {
                            WhoisView { expiry_date: v, ..st }
                        } else {
                            st
                        }
                    } else if k == "updated date"@ || k == "last updated"@ {
                        if st.updated_date.len() == 0 {
                            WhoisView { updated_date: v, ..st }
                        } else {
                            st
                        }
                    } else if k == "name server"@ || k == "nserver"@ {
                        WhoisView {
                            nameservers: push_new(st.nameservers, lowercase(first_word(v))),
                            ..st
                        }
                    } else if k == "domain status"@ || k == "status"@ {
                        WhoisView { status: push_new(st.status, first_word(v)), ..st }
                    } else {
                        st
                    };
                    WhoisView { fields: st1.fields.push((trim(key), v)), ..st1 }
                }
            },
        }
    }
}

pub open spec fn whois_fold(ls: Seq<Seq<char>>) -> WhoisView
    decreases ls.len(),
{
    if ls.len() == 0 {
        whois_start()
    } else {
        whois_step(whois_fold(ls.drop_last()), ls.last())
    }
}

/// Everything read from a whois record.
pub open spec fn whois_info(raw: Seq<char>) -> WhoisView {
    whois_fold(lines(raw))
}

struct WhoisAcc {
    registrar: Vec<char>,
    creation_date: Vec<char>,
    expiry_date: Vec<char>,
    updated_date: Vec<char>,
    nameservers: Vec<Vec<char>>,
    status: Vec<Vec<char>>,
    fields: Vec<WhoisField>,
}

impl WhoisAcc {
    spec fn view(&self) -> WhoisView {
        WhoisView {
            registrar: self.registrar@,
            creation_date: self.creation_date@,
            expiry_date: self.expiry_date@,
            updated_date: self.updated_date@,
            nameservers: views(self.nameservers@),
            status: views(self.status@),
            fields: self.fields@.map_values(|f: WhoisField| f@),
        }
    }
}

fn first_word_exec(v: &Vec<char>) -> (r: Vec<char>)
    ensures
        r@ == first_word(v@),
{
    let ws = split_ws_chars(v);
    if ws.len() > 0 {
        ws[0].clone()
    } else {
        Vec::new()
    }
}

fn push_new_exec(list: &mut Vec<Vec<char>>, x: Vec<char>)
    ensures
        views(final(list)@) == push_new(views(old(list)@), x@),
{
    if x.len() == 0 {
        return ;
    }
    let mut k: usize = 0;
    while k < list.len()
        invariant
            k <= list.len(),
            list@ == old(list)@,
            forall|j: int| 0 <= j < k ==> views(list@)[j] != x@,
        decreases list.len() - k,
    {
        if eq_chars(&list[k], &x) {
            assert(views(list@)[k as int] == x@);
            return ;
        }
        k += 1;
    }
    assert(!views(list@).contains(x@));
    let ghost o = list@;
    list.push(x);
    assert(views(list@) =~= views(o).push(x@));
}

fn key_is(k: &Vec<char>, a: &str) -> (b: bool)
    ensures
        b == (k@ == a@),
{
    eq_str(k, a)
}

fn whois_step_exec(acc: &mut WhoisAcc, line: &Vec<char>)
    ensures
        final(acc).view() == whois_step(old(acc).view(), line@),
{
    let t = trim_ws(line);
    if t.len() == 0 || starts_with_str(&t, "%") || starts_with_str(&t, "#") || starts_with_str(
        &t,
        ">>>",
    ) {
        return ;
    }
    let (key, value) = match split_once_str(&t, ":") {
        Some(p) => p,
        None => {
            return ;
        },
    };
    let tk = trim_ws(&key);
    let k = to_lowercase(&tk);
    let v = trim_ws(&value);
    if v.len() == 0 {
        return ;
    }
    if key_is(&k, "registrar") || key_is(&k, "registrar name") {
        if acc.registrar.len() == 0 {
            acc.registrar = v.clone();
        }
    } else if key_is(&k, "creation date") || key_is(&k, "created") || key_is(
        &k,
        "registration date",
    ) {
        if acc.creation_date.len() == 0 {
            acc.creation_date = v.clone();
        }
    } else if key_is(&k, "registry expiry date") || key_is(
        &k,
        "registrar registration expiration date",
    ) || key_is(&k, "expiry date") || key_is(&k, "expires") {
        if acc.expiry_date.len() == 0 {
            acc.expiry_date = v.clone();
        }
    } else if key_is(&k, "updated date") || key_is(&k, "last updated") {
        if acc.updated_date.len() == 0 {
            acc.updated_date = v.clone();
        }
    } else if key_is(&k, "name server") || key_is(&k, "nserver") {
        let w = first_word_exec(&v);
        let ns = to_lowercase(&w);
        push_new_exec(&mut acc.nameservers, ns);
    } else if key_is(&k, "domain status") || key_is(&k, "status") {
        let w = first_word_exec(&v);
        push_new_exec(&mut acc.status, w);
    }
    let f = WhoisField { key: string_of(&tk), value: string_of(&v) };
    let ghost o = acc.fields@;
    acc.fields.push(f);
    assert(acc.fields@.map_values(|f: WhoisField| f@) =~= o.map_values(|f: WhoisField| f@).push(
        (tk@, v@),
    ));
}

/// Reads the registrar, the creation, expiry and update dates, the name
/// servers, the status codes and every field out of a whois record.
pub fn parse_whois_output(domain: String, raw: String) -> (r: WhoisResult)
    ensures
        ({
            let w = whois_info(raw@);
            &&& r.domain == domain
            &&& r.registrar@ == w.registrar
            &&& r.creation_date@ == w.creation_date
            &&& r.expiry_date@ == w.expiry_date
            &&& r.updated_date@ == w.updated_date
            &&& string_views(r.nameservers@) == w.nameservers
            &&& string_views(r.status@) == w.status
            &&& r.fields@.map_values(|f: WhoisField| f@) == w.fields
            &&& r.raw_output == raw
        }),
{
    let ls = lines_of(&chars_of(raw.as_str()));
    let mut acc = WhoisAcc {
        registrar: Vec::new(),
        creation_date: Vec::new(),
        expiry_date: Vec::new(),
        updated_date: Vec::new(),
        nameservers: Vec::new(),
        status: Vec::new(),
        fields: Vec::new(),
    };
    assert(acc.view() == whois_start()) by {
        assert(views(acc.nameservers@) =~= Seq::<Seq<char>>::empty());
        assert(views(acc.status@) =~= Seq::<Seq<char>>::empty());
        assert(acc.fields@.map_values(|f: WhoisField| f@) =~= Seq::<
            (Seq<char>, Seq<char>),
        >::empty());
    }
    let mut k: usize = 0;
    while k < ls.len()
        invariant
            k <= ls.len(),
            views(ls@) == lines(raw@),
            acc.view() == whois_fold(views(ls@).take(k as int)),
        decreases ls.len() - k,
    {
        let ghost pre = views(ls@).take(k + 1);
        assert(pre.drop_last() =~= views(ls@).take(k as int));
        whois_step_exec(&mut acc, &ls[k]);
        k += 1;
    }
    assert(views(ls@).take(ls.len() as int) =~= views(ls@));
    WhoisResult {
        domain,
        registrar: string_of(&acc.registrar),
        creation_date: string_of(&acc.creation_date),
        expiry_date: string_of(&acc.expiry_date),
        updated_date: string_of(&acc.updated_date),
        nameservers: strings_of(&acc.nameservers),
        status: strings_of(&acc.status),
        fields: acc.fields,
        raw_output: raw,
    }
}

/// A list that holds no empty entry and none twice.
pub open spec fn distinct_words(list: Seq<Seq<char>>) -> bool {
    &&& list.no_duplicates()
    &&& forall|i: int| 0 <= i < list.len() ==> #[trigger] list[i].len() > 0
}

proof fn lemma_push_new_distinct(list: Seq<Seq<char>>, x: Seq<char>)
    requires
        distinct_words(list),
    ensures
        distinct_words(push_new(list, x)),
{
    if x.len() > 0 && !list.contains(x) {
        let l2 = list.push(x);
        assert forall|i: int, j: int| 0 <= i < l2.len() && 0 <= j < l2.len() && i != j implies l2[i]
            != l2[j] by {
            if i == list.len() as int {
                assert(list[j] == l2[j]);
            } else if j == list.len() as int {
                assert(list[i] == l2[i]);
            }
        }
    }
}

/// Whatever the record holds, the name servers and the status codes read
/// from it are each listed once, and none of them is empty.
pub proof fn lemma_whois_lists_distinct(raw: Seq<char>)
    ensures
        distinct_words(whois_info(raw).nameservers),
        distinct_words(whois_info(raw).status),
{
    lemma_fold_distinct(lines(raw));
}

proof fn lemma_fold_distinct(ls: Seq<Seq<char>>)
    ensures
        distinct_words(whois_fold(ls).nameservers),
        distinct_words(whois_fold(ls).status),
    decreases ls.len(),
{
    if ls.len() > 0 {
        lemma_fold_distinct(ls.drop_last());
        let st = whois_fold(ls.drop_last());
        let t = trim(ls.last());
        match split_once(t, ":"@) {
            None => {},
            Some((key, value)) => {
                let v = trim(value);
                lemma_push_new_distinct(st.nameservers, lowercase(first_word(v)));
                lemma_push_new_distinct(st.status, first_word(v));
            },
        }
    }
}

} // verus!
