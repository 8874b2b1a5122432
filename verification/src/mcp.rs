//! The Model Context Protocol client: the configured servers and their
//! tokens, the framing of JSON-RPC requests, and the reading of replies.
use vstd::prelude::*;
use vstd::string::StringSliceAdditionalSpecFns;

use crate::json::{
    first_member, get_member, get_str_member, json_parse_error, json_value, lemma_first_member_at,
    lemma_member_index, member, member_index, member_position, members, parse_json_value, str_member,
    str_of, Json,
};
use crate::text::{
    byte_len, chars_of, chars_of_string, contains, eq_chars, contains_str, lines, lines_of, opt_string_view,
    push_all, push_str, slice_of, starts_with, starts_with_str, string_of, strip_prefix,
    strip_prefix_str, trim, trim_start_by, trim_start_ws, trim_ws, views, ws_pred,
};

verus! {

broadcast use vstd::seq_lib::group_seq_properties;

/// A JSON value, carried through as the server sent it.
#[verifier::external_type_specification]
#[verifier::external_body]
pub struct ExJsonValue(serde_json::Value);

// ───────────────────────── servers ─────────────────────────

/// A configured MCP server.
#[derive(Debug)]
pub struct McpServerConfig {
    pub name: String,
    pub server_url: String,
    pub auth_token: Option<String>,
    pub auth_command: Option<String>,
}

/// A server as text: name, URL, token and token command.
pub type ServerView = (Seq<char>, Seq<char>, Option<Seq<char>>, Option<Seq<char>>);

pub open spec fn server_view(c: McpServerConfig) -> ServerView {
    (c.name@, c.server_url@, opt_string_view(c.auth_token), opt_string_view(c.auth_command))
}

pub open spec fn server_views(s: Seq<McpServerConfig>) -> Seq<ServerView> {
    s.map_values(|c: McpServerConfig| server_view(c))
}

fn clone_opt(o: &Option<String>) -> (r: Option<String>)
    ensures
        opt_string_view(r) == opt_string_view(*o),
{
    match o {
        Some(s) => Some(s.clone()),
        None => None,
    }
}

fn clone_server(c: &McpServerConfig) -> (r: McpServerConfig)
    ensures
        server_view(r) == server_view(*c),
{
    McpServerConfig {
        name: c.name.clone(),
        server_url: c.server_url.clone(),
        auth_token: clone_opt(&c.auth_token),
        auth_command: clone_opt(&c.auth_command),
    }
}

/// The first server whose name is `name` or whose URL is `url`.
pub open spec fn find_server(s: Seq<ServerView>, name: Seq<char>, url: Seq<char>) -> Option<
    ServerView,
>
    decreases s.len(),
{
    if s.len() == 0 {
        None
    } else if s[0].0 == name || s[0].1 == url {
        Some(s[0])
    } else {
        find_server(s.drop_first(), name, url)
    }
}

/// The configuration of the server named `server_name` or reached at
/// `server_url`: the first of `servers` that matches either.
pub fn find_server_config(servers: &Vec<McpServerConfig>, server_name: &str, server_url: &str) -> (r:
    Option<McpServerConfig>)
    ensures
        match r {
            Some(c) => find_server(server_views(servers@), server_name@, server_url@) == Some(
                server_view(c),
            ),
            None => find_server(server_views(servers@), server_name@, server_url@) is None,
        },
{
    let ghost sv = server_views(servers@);
    let mut k: usize = 0;
    while k < servers.len()
        invariant
            k <= servers.len(),
            sv == server_views(servers@),
            find_server(sv, server_name@, server_url@) == find_server(
                sv.skip(k as int),
                server_name@,
                server_url@,
            ),
        decreases servers.len() - k,
    {
        let c = &servers[k];
        assert(sv.skip(k as int)[0] == server_view(*c));
        assert(sv.skip(k as int).drop_first() =~= sv.skip(k + 1));
        if eq_chars(&chars_of_string(&c.name), &chars_of(server_name)) || eq_chars(
            &chars_of_string(&c.server_url),
            &chars_of(server_url),
        ) {
            return Some(clone_server(c));
        }
        k += 1;
    }
    assert(sv.skip(k as int) =~= Seq::<ServerView>::empty());
    None
}

/// Where a server's bearer token comes from.
#[derive(Debug)]
pub enum AuthToken {
    /// The token written in the configuration.
    Token(String),
    /// The token that this `sh -c` command prints.
    FromCommand(String),
    /// The server has no token.
    Missing,
}

/// Where the token of `server` comes from: its non-empty `auth_token`, else
/// its non-empty `auth_command`, else nowhere.
pub fn read_auth_token(server: &McpServerConfig) -> (r: AuthToken)
    ensures
        match opt_string_view(server.auth_token) {
            Some(t) if t.len() > 0 => r matches AuthToken::Token(x) && x@ == t,
            _ => match opt_string_view(server.auth_command) {
                Some(c) if c.len() > 0 => r matches AuthToken::FromCommand(x) && x@ == c,
                _ => r is Missing,
            },
        },
{
    match &server.auth_token {
        Some(t) => {
            if t.unicode_len() > 0 {
                return AuthToken::Token(t.clone());
            }
        },
        None => {},
    }
    match &server.auth_command {
        Some(c) => {
            if c.unicode_len() > 0 {
                return AuthToken::FromCommand(c.clone());
            }
        },
        None => {},
    }
    AuthToken::Missing
}

/// The token printed by a token command: its trimmed output when it succeeded
/// and printed something.
pub fn auth_command_token(success: bool, stdout: &str) -> (r: Option<String>)
    ensures
        r matches Some(t) ==> success && t@ == trim(stdout@) && t@.len() > 0,
        r is None ==> !success || trim(stdout@).len() == 0,
{
    if !success {
        return None;
    }
    let t = trim_ws(&chars_of(stdout));
    if t.len() == 0 {
        None
    } else {
        Some(string_of(&t))
    }
}

// ───────────────────────── the configuration file ─────────────────────────

/// A server as the configuration file holds it under `mcpServers`: the key,
/// and the members `serverUrl`, `authToken` and `authCommand` where present.
#[derive(Debug)]
pub struct ConfigEntry {
    pub name: String,
    pub server_url: Option<String>,
    pub auth_token: Option<String>,
    pub auth_command: Option<String>,
}

pub type EntryView = (Seq<char>, Option<Seq<char>>, Option<Seq<char>>, Option<Seq<char>>);

pub open spec fn entry_view(e: ConfigEntry) -> EntryView {
    (e.name@, opt_string_view(e.server_url), opt_string_view(e.auth_token), opt_string_view(e.auth_command))
}

pub open spec fn entry_views(s: Seq<ConfigEntry>) -> Seq<EntryView> {
    s.map_values(|e: ConfigEntry| entry_view(e))
}

/// An optional text that is kept only when it is not empty.
pub open spec fn non_empty(o: Option<Seq<char>>) -> Option<Seq<char>> {
    match o {
        Some(t) => if t.len() > 0 {
            Some(t)
        } else {
            None
        },
        None => None,
    }
}

/// How a server is saved: its name and URL, and its token and token command
/// only when they are not empty.
pub open spec fn saved_entry(c: ServerView) -> EntryView {
    (c.0, Some(c.1), non_empty(c.2), non_empty(c.3))
}

/// The servers read from the entries: those with a `serverUrl`, in order.
pub open spec fn loaded_servers(es: Seq<EntryView>) -> Seq<ServerView>
    decreases es.len(),
{
    if es.len() == 0 {
        seq![]
    } else {
        let rest = loaded_servers(es.drop_last());
        let e = es.last();
        match e.1 {
            Some(url) => rest.push((e.0, url, e.2, e.3)),
            None => rest,
        }
    }
}

fn non_empty_exec(o: &Option<String>) -> (r: Option<String>)
    ensures
        opt_string_view(r) == non_empty(opt_string_view(*o)),
{
    match o {
        Some(t) => if t.unicode_len() > 0 {
            Some(t.clone())
        } else {
            None
        },
        None => None,
    }
}

/// The entries that save `servers`, one per server, in order.
pub fn config_entries(servers: &Vec<McpServerConfig>) -> (r: Vec<ConfigEntry>)
    ensures
        entry_views(r@) == server_views(servers@).map_values(|c: ServerView| saved_entry(c)),
{
    let mut r: Vec<ConfigEntry> = Vec::new();
    let mut k: usize = 0;
    while k < servers.len()
        invariant
            k <= servers.len(),
            entry_views(r@) == server_views(servers@).take(k as int).map_values(
                |c: ServerView| saved_entry(c),
            ),
        decreases servers.len() - k,
    {
        let c = &servers[k];
        let e = ConfigEntry {
            name: c.name.clone(),
            server_url: Some(c.server_url.clone()),
            auth_token: non_empty_exec(&c.auth_token),
            auth_command: non_empty_exec(&c.auth_command),
        };
        let ghost before = r@;
        r.push(e);
        assert(entry_views(r@) =~= entry_views(before).push(entry_view(e)));
        assert(server_views(servers@).take(k + 1) =~= server_views(servers@).take(k as int).push(
            server_view(*c),
        ));
        k += 1;
    }
    assert(server_views(servers@).take(servers.len() as int) =~= server_views(servers@));
    r
}

/// The servers of the configuration file's entries: each entry with a
/// `serverUrl`, in order.
pub fn servers_from_config(entries: Vec<ConfigEntry>) -> (r: Vec<McpServerConfig>)
    ensures
        server_views(r@) == loaded_servers(entry_views(entries@)),
{
    let ghost ev = entry_views(entries@);
    let mut input = entries;
    let mut r: Vec<McpServerConfig> = Vec::new();
    let ghost mut taken: int = 0;
    while input.len() > 0
        invariant
            0 <= taken <= ev.len(),
            entry_views(input@) == ev.skip(taken),
            server_views(r@) == loaded_servers(ev.take(taken)),
        decreases input.len(),
    {
        let ghost before_input = input@;
        assert(entry_views(before_input).len() == before_input.len());
        assert(taken < ev.len());
        let e = input.remove(0);
        proof {
            assert(entry_views(before_input)[0] == entry_view(e));
            assert(ev.take(taken + 1).drop_last() =~= ev.take(taken));
            assert(ev.take(taken + 1).last() == entry_view(e));
            assert(entry_views(input@) =~= ev.skip(taken + 1));
            taken = taken + 1;
        }
        match e.server_url {
            Some(url) => {
                let c = McpServerConfig {
                    name: e.name,
                    server_url: url,
                    auth_token: e.auth_token,
                    auth_command: e.auth_command,
                };
                let ghost before = r@;
                r.push(c);
                assert(server_views(r@) =~= server_views(before).push(server_view(c)));
            },
            None => {},
        }
    }
    assert(ev.take(taken) =~= ev);
    r
}

/// Saving servers and loading them again gives the same servers, with empty
/// tokens and token commands read as absent.
pub proof fn lemma_config_round_trip(s: Seq<ServerView>)
    ensures
        loaded_servers(s.map_values(|c: ServerView| saved_entry(c))) == s.map_values(
            |c: ServerView| (c.0, c.1, non_empty(c.2), non_empty(c.3)),
        ),
    decreases s.len(),
{
    if s.len() > 0 {
        lemma_config_round_trip(s.drop_last());
        assert(s.map_values(|c: ServerView| saved_entry(c)).drop_last() =~= s.drop_last().map_values(
            |c: ServerView| saved_entry(c),
        ));
        assert(s.map_values(|c: ServerView| (c.0, c.1, non_empty(c.2), non_empty(c.3))) =~= s.drop_last().map_values(
            |c: ServerView| (c.0, c.1, non_empty(c.2), non_empty(c.3)),
        ).push((s.last().0, s.last().1, non_empty(s.last().2), non_empty(s.last().3))));
    }
}

// ───────────────────────── the configuration file as JSON ─────────────────────────

/// A member of `mcpServers` as an entry: its key, and its string members
/// `serverUrl`, `authToken` and `authCommand`.
pub open spec fn entry_of_member(p: (String, Json)) -> EntryView {
    (p.0@, str_member(p.1, "serverUrl"@), str_member(p.1, "authToken"@), str_member(p.1, "authCommand"@))
}

/// The entries of the object `mcpServers` of a configuration, in order; none
/// when it has no such object.
pub open spec fn mcp_entries(root: Json) -> Seq<EntryView> {
    match member(root, "mcpServers"@) {
        Some(Json::Obj(m)) => m@.map_values(|p: (String, Json)| entry_of_member(p)),
        _ => seq![],
    }
}

/// The servers of the configuration file whose text is `text`; none when it
/// is not JSON.
pub open spec fn config_text_servers(text: Seq<char>) -> Seq<ServerView> {
    match json_parse_error(text) {
        None => loaded_servers(mcp_entries(json_value(text))),
        Some(_) => seq![],
    }
}

/// The entries under `mcpServers` of a configuration.
fn config_entries_of(root: &Json) -> (r: Vec<ConfigEntry>)
    ensures
        entry_views(r@) == mcp_entries(*root),
{
    let mut r: Vec<ConfigEntry> = Vec::new();
    match root {
        Json::Obj(m) => match get_member(m, "mcpServers") {
            Some(Json::Obj(ms)) => {
                let mut k: usize = 0;
                while k < ms.len()
                    invariant
                        k <= ms.len(),
                        entry_views(r@) == ms@.take(k as int).map_values(
                            |p: (String, Json)| entry_of_member(p),
                        ),
                    decreases ms.len() - k,
                {
                    let e = ConfigEntry {
                        name: ms[k].0.clone(),
                        server_url: get_str_member(&ms[k].1, "serverUrl"),
                        auth_token: get_str_member(&ms[k].1, "authToken"),
                        auth_command: get_str_member(&ms[k].1, "authCommand"),
                    };
                    let ghost before = r@;
                    r.push(e);
                    assert(entry_views(r@) =~= entry_views(before).push(entry_view(e)));
                    assert(ms@.take(k + 1) =~= ms@.take(k as int).push(ms@[k as int]));
                    k += 1;
                }
                assert(ms@.take(ms.len() as int) =~= ms@);
                return r;
            },
            _ => {},
        },
        _ => {},
    }
    assert(entry_views(r@) =~= Seq::<EntryView>::empty());
    r
}

/// The servers of the configuration file whose text is `text`: each member
/// of its object `mcpServers` that has a string `serverUrl`, in the order
/// serde_json keeps them; none when the text is not JSON.
pub fn servers_of_config_text(text: &str) -> (r: Vec<McpServerConfig>)
    ensures
        server_views(r@) == config_text_servers(text@),
{
    match parse_json_value(text) {
        Ok(root) => servers_from_config(config_entries_of(&root)),
        Err(_) => {
            let r: Vec<McpServerConfig> = Vec::new();
            assert(server_views(r@) =~= Seq::<ServerView>::empty());
            r
        },
    }
}

/// The members of a saved entry's object, as (name, string value): the
/// `serverUrl`, then the `authToken` and the `authCommand` where present.
pub open spec fn entry_members(e: EntryView) -> Seq<(Seq<char>, Option<Seq<char>>)> {
    (match e.1 {
        Some(u) => seq![("serverUrl"@, Some(u))],
        None => seq![],
    }) + (match e.2 {
        Some(t) => seq![("authToken"@, Some(t))],
        None => seq![],
    }) + (match e.3 {
        Some(c) => seq![("authCommand"@, Some(c))],
        None => seq![],
    })
}

/// An object's members as (name, string value).
pub open spec fn member_texts(m: Seq<(String, Json)>) -> Seq<(Seq<char>, Option<Seq<char>>)> {
    m.map_values(|p: (String, Json)| (p.0@, str_of(p.1)))
}

/// `j` is the object `mcpServers` that saves `servers`: one member per server
/// in order, keyed by its name, whose object holds the members of its saved
/// entry.
pub open spec fn saves_servers(j: Json, servers: Seq<ServerView>) -> bool {
    &&& j is Obj
    &&& members(j).len() == servers.len()
    &&& forall|i: int|
        0 <= i < servers.len() ==> {
            let p = #[trigger] members(j)[i];
            &&& p.0@ == servers[i].0
            &&& p.1 is Obj
            &&& member_texts(members(p.1)) == entry_members(saved_entry(servers[i]))
        }
}

/// The members of the configuration that is saved over: those of the file's
/// JSON object, none when there is no file or it is not JSON, and `None` when
/// its JSON is not an object.
pub open spec fn config_root_members(old: Option<Seq<char>>) -> Option<Seq<(String, Json)>> {
    match old {
        None => Some(seq![]),
        Some(t) => match json_parse_error(t) {
            Some(_) => Some(seq![]),
            None => match json_value(t) {
                Json::Obj(m) => Some(m@),
                _ => None,
            },
        },
    }
}

pub open spec fn opt_str_view(o: Option<&str>) -> Option<Seq<char>> {
    match o {
        Some(s) => Some(s@),
        None => None,
    }
}

fn key_string(k: &str) -> (r: String)
    ensures
        r@ == k@,
{
    string_of(&chars_of(k))
}

/// The object that saves one entry.
fn entry_json(e: ConfigEntry) -> (r: Json)
    ensures
        r is Obj,
        member_texts(members(r)) == entry_members(entry_view(e)),
{
    let ghost ev = entry_view(e);
    let mut m: Vec<(String, Json)> = Vec::new();
    match e.server_url {
        Some(u) => {
            m.push((key_string("serverUrl"), Json::Str(u)));
        },
        None => {},
    }
    assert(member_texts(m@) =~= (match ev.1 {
        Some(u) => seq![("serverUrl"@, Some(u))],
        None => seq![],
    }));
    let ghost m1 = m@;
    match e.auth_token {
        Some(t) => {
            m.push((key_string("authToken"), Json::Str(t)));
        },
        None => {},
    }
    assert(member_texts(m@) =~= member_texts(m1) + (match ev.2 {
        Some(t) => seq![("authToken"@, Some(t))],
        None => seq![],
    }));
    let ghost m2 = m@;
    match e.auth_command {
        Some(c) => {
            m.push((key_string("authCommand"), Json::Str(c)));
        },
        None => {},
    }
    assert(member_texts(m@) =~= member_texts(m2) + (match ev.3 {
        Some(c) => seq![("authCommand"@, Some(c))],
        None => seq![],
    }));
    Json::Obj(m)
}

/// The object `mcpServers` that saves `servers`.
fn servers_json(servers: &Vec<McpServerConfig>) -> (r: Json)
    ensures
        saves_servers(r, server_views(servers@)),
{
    let entries = config_entries(servers);
    let ghost ev = entry_views(entries@);
    let ghost sv = server_views(servers@);
    assert(ev =~= sv.map_values(|c: ServerView| saved_entry(c)));
    let mut input = entries;
    let mut m: Vec<(String, Json)> = Vec::new();
    while input.len() > 0
        invariant
            m.len() + input.len() == sv.len(),
            entry_views(input@) == ev.skip(m.len() as int),
            ev == sv.map_values(|c: ServerView| saved_entry(c)),
            forall|i: int|
                0 <= i < m.len() ==> {
                    let p = #[trigger] m@[i];
                    &&& p.0@ == sv[i].0
                    &&& p.1 is Obj
                    &&& member_texts(members(p.1)) == entry_members(saved_entry(sv[i]))
                },
        decreases input.len(),
    {
        let ghost before = input@;
        assert(entry_views(before)[0] == ev[m.len() as int]);
        let e = input.remove(0);
        assert(entry_views(input@) =~= ev.skip(m.len() + 1));
        let ghost k = m.len() as int;
        assert(entry_view(e) == saved_entry(sv[k]));
        let name = e.name.clone();
        let j = entry_json(e);
        m.push((name, j));
    }
    Json::Obj(m)
}

proof fn lemma_absent_member(m: Seq<(String, Json)>, key: Seq<char>)
    requires
        forall|k: int| 0 <= k < m.len() ==> #[trigger] m[k].0@ != key,
    ensures
        first_member(m, key) is None,
{
    lemma_member_index(m, key);
    if member_index(m, key) < m.len() {
        assert(m[member_index(m, key)].0@ != key);
    }
}

proof fn lemma_saved_entry_read(v: Json, e: EntryView)
    requires
        v is Obj,
        member_texts(members(v)) == entry_members(e),
        e.1 is Some,
    ensures
        str_member(v, "serverUrl"@) == e.1,
        str_member(v, "authToken"@) == e.2,
        str_member(v, "authCommand"@) == e.3,
{
    reveal_strlit("serverUrl");
    reveal_strlit("authToken");
    reveal_strlit("authCommand");
    let su = "serverUrl"@;
    let at = "authToken"@;
    let ac = "authCommand"@;
    assert(su != at) by {
        assert(su[1] != at[1]);
    }
    assert(su != ac) by {
        assert(su[1] != ac[1]);
    }
    assert(at != ac) by {
        assert(at.len() != ac.len());
    }
    let m = members(v);
    let t = member_texts(m);
    assert(t.len() == m.len());
    assert(forall|i: int| 0 <= i < m.len() ==> #[trigger] t[i] == (m[i].0@, str_of(m[i].1)));
    let u = e.1;
    match (e.2, e.3) {
        (Some(tk), Some(c)) => {
            assert(t =~= seq![(su, u), (at, Some(tk)), (ac, Some(c))]);
            assert(t[0] == (m[0].0@, str_of(m[0].1)) && t[1] == (m[1].0@, str_of(m[1].1)) && t[2]
                == (m[2].0@, str_of(m[2].1)));
            lemma_first_member_at(m, su, 0);
            lemma_first_member_at(m, at, 1);
            lemma_first_member_at(m, ac, 2);
        },
        (Some(tk), None) => {
            assert(t =~= seq![(su, u), (at, Some(tk))]);
            assert(t[0] == (m[0].0@, str_of(m[0].1)) && t[1] == (m[1].0@, str_of(m[1].1)));
            lemma_first_member_at(m, su, 0);
            lemma_first_member_at(m, at, 1);
            lemma_absent_member(m, ac);
        },
        (None, Some(c)) => {
            assert(t =~= seq![(su, u), (ac, Some(c))]);
            assert(t[0] == (m[0].0@, str_of(m[0].1)) && t[1] == (m[1].0@, str_of(m[1].1)));
            lemma_first_member_at(m, su, 0);
            lemma_first_member_at(m, ac, 1);
            lemma_absent_member(m, at);
        },
        (None, None) => {
            assert(t =~= seq![(su, u)]);
            assert(t[0] == (m[0].0@, str_of(m[0].1)));
            lemma_first_member_at(m, su, 0);
            lemma_absent_member(m, at);
            lemma_absent_member(m, ac);
        },
    }
}

/// Reading back the object that saves `servers` gives the saved entries.
proof fn lemma_saves_servers_read(j: Json, s: Seq<ServerView>)
    requires
        saves_servers(j, s),
    ensures
        members(j).map_values(|p: (String, Json)| entry_of_member(p)) == s.map_values(
            |c: ServerView| saved_entry(c),
        ),
{
    let a = members(j).map_values(|p: (String, Json)| entry_of_member(p));
    let b = s.map_values(|c: ServerView| saved_entry(c));
    assert forall|i: int| 0 <= i < s.len() implies a[i] == b[i] by {
        let p = members(j)[i];
        lemma_saved_entry_read(p.1, saved_entry(s[i]));
    }
    assert(a =~= b);
}

/// The configuration to write: the one read before (an empty object when
/// there was no file or it was not JSON), with its member `mcpServers` set
/// to the object that saves `servers`, in place when it had one and last
/// otherwise.  An error when the configuration read is JSON but not an
/// object.  Loading the result gives back the servers, with empty tokens and
/// token commands read as absent.
pub fn config_with_servers(old: Option<&str>, servers: &Vec<McpServerConfig>) -> (r: Result<Json, String>)
    ensures
        match config_root_members(opt_str_view(old)) {
            None => r matches Err(e) && e@ == "Config root is not an object"@,
            Some(m) => r matches Ok(j) && {
                let i = member_index(m, "mcpServers"@);
                let m2 = members(j);
                &&& j is Obj
                &&& m2.len() == (if i < m.len() { m.len() as int } else { m.len() + 1int })
                &&& forall|k: int| 0 <= k < m.len() && k != i ==> #[trigger] m2[k] == m[k]
                &&& m2[i].0@ == "mcpServers"@
                &&& saves_servers(m2[i].1, server_views(servers@))
            },
        },
        r matches Ok(j) ==> loaded_servers(mcp_entries(j)) == server_views(servers@).map_values(
            |c: ServerView| (c.0, c.1, non_empty(c.2), non_empty(c.3)),
        ),
{
    let root = match old {
        Some(t) => match parse_json_value(t) {
            Ok(v) => v,
            Err(_) => Json::Obj(Vec::new()),
        },
        None => Json::Obj(Vec::new()),
    };
    let mut m = match root {
        Json::Obj(m) => m,
        _ => {
            return Err(key_string("Config root is not an object"));
        },
    };
    let ghost m0 = m@;
    assert(config_root_members(opt_str_view(old)) == Some(m0)) by {
        match old {
            Some(t) => {},
            None => {
                assert(m0 =~= Seq::<(String, Json)>::empty());
            },
        }
    }
    let obj = servers_json(servers);
    let i = member_position(&m, "mcpServers");
    proof {
        lemma_member_index(m0, "mcpServers"@);
    }
    let key = key_string("mcpServers");
    if i < m.len() {
        m[i] = (key, obj);
    } else {
        m.push((key, obj));
    }
    let ghost m2 = m@;
    proof {
        assert(forall|k: int| 0 <= k < i ==> #[trigger] m2[k] == m0[k]);
        assert forall|k: int| 0 <= k < i implies #[trigger] m2[k].0@ != "mcpServers"@ by {
            assert(m0[k].0@ != "mcpServers"@);
        }
        lemma_first_member_at(m2, "mcpServers"@, i as int);
        lemma_saves_servers_read(m2[i as int].1, server_views(servers@));
        lemma_config_round_trip(server_views(servers@));
    }
    Ok(Json::Obj(m))
}

// ───────────────────────── JSON-RPC requests ─────────────────────────

/// The source of JSON-RPC request ids: 1, 2, 3 and so on, wrapping to 0
/// after `u64::MAX` as an atomic counter does.
#[derive(Debug)]
pub struct RequestCounter {
    next: u64,
}

impl View for RequestCounter {
    type V = u64;

    /// The id that the next request gets.
    closed spec fn view(&self) -> u64 {
        self.next
    }
}

/// The id after `id`.
pub open spec fn following_id(id: u64) -> u64 {
    if id == u64::MAX {
        0
    } else {
        (id + 1) as u64
    }
}

impl RequestCounter {
    /// A counter whose first id is 1.
    pub fn new() -> (r: Self)
        ensures
            r@ == 1,
    {
        RequestCounter { next: 1 }
    }

    /// Takes the next id.
    pub fn next_id(&mut self) -> (id: u64)
        ensures
            id == old(self)@,
            final(self)@ == following_id(id),
    {
        let id = self.next;
        self.next = self.next.wrapping_add(1);
        id
    }
}

/// The one notification the client sends; it carries no id.
pub open spec fn is_notification(method: Seq<char>) -> bool {
    method == "notifications/initialized"@
}

/// A JSON-RPC 2.0 request: its method, its id (none for a notification) and
/// its parameters.
#[derive(Debug)]
pub struct JsonRpcRequest {
    pub method: String,
    pub id: Option<u64>,
    pub params: Option<serde_json::Value>,
}

/// The request for `method` with `params`: a notification has no id, any
/// other request takes the counter's next id.
pub fn build_jsonrpc(counter: &mut RequestCounter, method: &str, params: Option<
    serde_json::Value,
>) -> (r: JsonRpcRequest)
    ensures
        r.method@ == method@,
        r.params == params,
        is_notification(method@) ==> r.id is None && final(counter)@ == old(counter)@,
        !is_notification(method@) ==> r.id == Some(old(counter)@) && final(counter)@
            == following_id(old(counter)@),
{
    let m = chars_of(method);
    let id = if crate::text::eq_str(&m, "notifications/initialized") {
        None
    } else {
        Some(counter.next_id())
    };
    JsonRpcRequest { method: String::from_str(method), id, params }
}

// ───────────────────────── replies ─────────────────────────

/// The longest start of `s` whose UTF-8 encoding has at most 200 bytes, when
/// the 200th byte ends a character (the text of `&s[..s.len().min(200)]`).
pub open spec fn byte_preview(s: Seq<char>) -> Seq<char> {
    let b = vstd::utf8::encode_utf8(s);
    vstd::utf8::decode_utf8(b.take(if b.len() < 200 { b.len() as int } else { 200 }))
}

/// `&s[..s.len().min(200)]` does not cut a character in two.
pub open spec fn preview_ok(s: Seq<char>) -> bool {
    let b = vstd::utf8::encode_utf8(s);
    b.len() <= 200 || vstd::utf8::is_char_boundary(b, 200)
}

/// `&s[..s.len().min(200)]`.
fn preview(s: &str) -> (r: String)
    requires
        preview_ok(s@),
    ensures
        r@ == byte_preview(s@),
{
    let len = byte_len(s);
    let ghost b = vstd::utf8::encode_utf8(s@);
    proof {
        assert(s.spec_bytes() == b);
        vstd::utf8::encode_utf8_valid_utf8(s@);
        vstd::utf8::is_char_boundary_start_end_of_seq(b);
    }
    let n: usize = if len < 200 {
        len
    } else {
        200
    };
    let (p, _) = s.split_at(n);
    proof {
        assert(vstd::utf8::encode_utf8(p@) =~= b.take(n as int));
        vstd::utf8::encode_utf8_decode_utf8(p@);
    }
    p.to_owned()
}

/// The data of one line of an event stream: what follows `data: `, or what
/// follows `data:` without its leading whitespace.
pub open spec fn line_data(l: Seq<char>) -> Option<Seq<char>> {
    match strip_prefix(l, "data: "@) {
        Some(d) => Some(d),
        None => if starts_with(l, "data:"@) {
            Some(trim_start_by(l.skip(5), ws_pred()))
        } else {
            None
        },
    }
}

/// The data of the last `data` line of an event stream (empty when none).
pub open spec fn last_sse_data(ls: Seq<Seq<char>>) -> Seq<char>
    decreases ls.len(),
{
    if ls.len() == 0 {
        seq![]
    } else {
        match line_data(ls.last()) {
            Some(d) => d,
            None => last_sse_data(ls.drop_last()),
        }
    }
}

/// The data of the last `data` line of the event stream `text`.
pub fn sse_last_data(text: &str) -> (r: String)
    ensures
        r@ == last_sse_data(lines(text@)),
{
    proof {
        reveal_strlit("data:");
    }
    let ls = lines_of(&chars_of(text));
    let ghost all = views(ls@);
    let mut last: Vec<char> = Vec::new();
    let mut k: usize = 0;
    while k < ls.len()
        invariant
            k <= ls.len(),
            all == views(ls@),
            last@ == last_sse_data(all.take(k as int)),
        decreases ls.len() - k,
    {
        let l = &ls[k];
        assert(all.take(k + 1).drop_last() =~= all.take(k as int));
        assert(all.take(k + 1).last() == l@);
        match strip_prefix_str(l, "data: ") {
            Some(d) => {
                last = d;
            },
            None => {
                proof {
                    reveal_strlit("data:");
                }
                if starts_with_str(l, "data:") {
                    let rest = slice_of(l, 5, l.len());
                    assert(rest@ =~= l@.skip(5));
                    last = trim_start_ws(&rest);
                }
            },
        }
        k += 1;
    }
    assert(all.take(ls.len() as int) =~= all);
    string_of(&last)
}

/// What the body of a successful reply holds: nothing (JSON `null`), or the
/// JSON value of an event stream's last data line or of a plain body.
pub open spec fn sse_outcome_ok(text: Seq<char>) -> bool {
    let d = last_sse_data(lines(text));
    d.len() == 0 || json_parse_error(d) is None || preview_ok(d)
}

/// The value of an event stream: `None` (JSON `null`) when it has no data,
/// else the JSON value of its last data line.
fn parse_sse_response(text: &str) -> (r: Result<Option<Json>, String>)
    requires
        sse_outcome_ok(text@),
    ensures
        ({
            let d = last_sse_data(lines(text@));
            if d.len() == 0 {
                r matches Ok(None)
            } else {
                match json_parse_error(d) {
                    None => r matches Ok(Some(v)) && v == json_value(d),
                    Some(e) => r matches Err(m) && m@ == "Failed to parse SSE data: "@ + e
                        + " — data: "@ + byte_preview(d),
                }
            }
        }),
{
    let d = sse_last_data(text);
    if d.unicode_len() == 0 {
        return Ok(None);
    }
    match parse_json_value(d.as_str()) {
        Ok(v) => Ok(Some(v)),
        Err(e) => {
            let mut m = chars_of("Failed to parse SSE data: ");
            push_str(&mut m, e.as_str());
            push_str(&mut m, " — data: ");
            let p = preview(d.as_str());
            push_str(&mut m, p.as_str());
            Err(string_of(&m))
        },
    }
}

/// How the reply to a request is read: `None` where the body could not be
/// shown in an error message (the original stops there).
pub open spec fn reply_readable(status_success: bool, status_code: u16, content_type: Seq<char>, body: Seq<char>) -> bool {
    !status_success || body.len() == 0 || status_code == 202 || status_code == 204 || (if contains(
        content_type,
        "text/event-stream"@,
    ) {
        sse_outcome_ok(body)
    } else {
        json_parse_error(body) is None || preview_ok(body)
    })
}

/// The reply to an MCP request over HTTP, from its status, `Content-Type`
/// and body: an error for a failed status; nothing (JSON `null`) for an empty
/// body or a 202 or 204 status; else the JSON value of the last data line of
/// an event stream, or of the body. `None` where the original would stop,
/// cutting a character in the body it quotes.
pub fn read_mcp_reply(
    status_success: bool,
    status_code: u16,
    status: &str,
    content_type: &str,
    body: &str,
) -> (r: Option<Result<Option<Json>, String>>)
    ensures
        r is None <==> !reply_readable(status_success, status_code, content_type@, body@),
        !status_success ==> (r matches Some(Err(m)) && m@ == "MCP HTTP "@ + status@ + ": "@
            + body@),
        status_success && (body@.len() == 0 || status_code == 202 || status_code == 204) ==> (r
            matches Some(Ok(None))),
        status_success && !(body@.len() == 0 || status_code == 202 || status_code == 204)
            && contains(content_type@, "text/event-stream"@) && r is Some ==> ({
            let d = last_sse_data(lines(body@));
            if d.len() == 0 {
                r matches Some(Ok(None))
            } else {
                match json_parse_error(d) {
                    None => r matches Some(Ok(Some(v))) && v == json_value(d),
                    Some(e) => r matches Some(Err(m)) && m@ == "Failed to parse SSE data: "@ + e
                        + " — data: "@ + byte_preview(d),
                }
            }
        }),
        status_success && !(body@.len() == 0 || status_code == 202 || status_code == 204)
            && !contains(content_type@, "text/event-stream"@) && r is Some ==> match json_parse_error(
            body@,
        ) {
            None => r matches Some(Ok(Some(v))) && v == json_value(body@),
            Some(e) => r matches Some(Err(m)) && m@ == "Failed to parse JSON response: "@ + e
                + " — body: "@ + byte_preview(body@),
        },
{
    if !status_success {
        let mut m = chars_of("MCP HTTP ");
        push_str(&mut m, status);
        push_str(&mut m, ": ");
        push_str(&mut m, body);
        return Some(Err(string_of(&m)));
    }
    if body.unicode_len() == 0 || status_code == 202 || status_code == 204 {
        return Some(Ok(None));
    }
    if contains_str(&chars_of(content_type), "text/event-stream") {
        let d = sse_last_data(body);
        if d.unicode_len() > 0 {
            let probe = parse_json_value(d.as_str());
            if probe.is_err() && !preview_fits(d.as_str()) {
                return None;
            }
        }
        return Some(parse_sse_response(body));
    }
    match parse_json_value(body) {
        Ok(v) => Some(Ok(Some(v))),
        Err(e) => {
            if !preview_fits(body) {
                return None;
            }
            let mut m = chars_of("Failed to parse JSON response: ");
            push_str(&mut m, e.as_str());
            push_str(&mut m, " — body: ");
            let p = preview(body);
            push_str(&mut m, p.as_str());
            Some(Err(string_of(&m)))
        },
    }
}

/// Whether `&s[..s.len().min(200)]` keeps whole characters.
fn preview_fits(s: &str) -> (b: bool)
    ensures
        b == preview_ok(s@),
{
    let len = byte_len(s);
    proof {
        assert(s.spec_bytes() == vstd::utf8::encode_utf8(s@));
    }
    len <= 200 || s.is_char_boundary(200)
}

/// What the client reads of a JSON-RPC reply: whether it has a `result`, the
/// text of its `error` member if it has one, and the text of the whole reply.
#[derive(Debug)]
pub struct RpcReply {
    pub has_result: bool,
    pub error: Option<String>,
    pub text: String,
}

/// The reply to `initialize` must have a result: else its error, or the
/// reply itself, is reported.
pub fn check_initialize_reply(reply: &RpcReply) -> (r: Result<(), String>)
    ensures
        r is Ok <==> reply.has_result,
        !reply.has_result ==> (r matches Err(m) && m@ == match opt_string_view(reply.error) {
            Some(e) => "MCP init error: "@ + e,
            None => "No result in init response: "@ + reply.text@,
        }),
{
    if reply.has_result {
        return Ok(());
    }
    match &reply.error {
        Some(e) => {
            let mut m = chars_of("MCP init error: ");
            push_str(&mut m, e.as_str());
            Err(string_of(&m))
        },
        None => {
            let mut m = chars_of("No result in init response: ");
            push_str(&mut m, reply.text.as_str());
            Err(string_of(&m))
        },
    }
}

/// `prefix` and the error of a reply that has one.
fn reply_error(prefix: &str, error: &Option<String>) -> (r: Result<(), String>)
    ensures
        match opt_string_view(*error) {
            Some(e) => r matches Err(m) && m@ == prefix@ + e,
            None => r is Ok,
        },
{
    match error {
        Some(e) => {
            let mut m = chars_of(prefix);
            push_str(&mut m, e.as_str());
            Err(string_of(&m))
        },
        None => Ok(()),
    }
}

/// The reply to the `initialize` that opens a session: its error, if any.
pub fn check_session_reply(reply: &RpcReply) -> (r: Result<(), String>)
    ensures
        match opt_string_view(reply.error) {
            Some(e) => r matches Err(m) && m@ == "MCP init error: "@ + e,
            None => r is Ok,
        },
{
    reply_error("MCP init error: ", &reply.error)
}

/// The reply to `tools/list`: its error, else it must hold `result.tools`.
pub fn check_tools_list_reply(reply: &RpcReply, has_tools: bool) -> (r: Result<(), String>)
    ensures
        match opt_string_view(reply.error) {
            Some(e) => r matches Err(m) && m@ == "MCP tools/list error: "@ + e,
            None => if has_tools {
                r is Ok
            } else {
                r matches Err(m) && m@ == "No tools in response"@
            },
        },
{
    reply_error("MCP tools/list error: ", &reply.error)?;
    if has_tools {
        Ok(())
    } else {
        Err(String::from_str("No tools in response"))
    }
}

/// The reply to `tools/call`: its error, else it must hold a `result`.
pub fn check_tools_call_reply(reply: &RpcReply) -> (r: Result<(), String>)
    ensures
        match opt_string_view(reply.error) {
            Some(e) => r matches Err(m) && m@ == "MCP tools/call error: "@ + e,
            None => if reply.has_result {
                r is Ok
            } else {
                r matches Err(m) && m@ == "No result in tools/call response"@
            },
        },
{
    reply_error("MCP tools/call error: ", &reply.error)?;
    if reply.has_result {
        Ok(())
    } else {
        Err(String::from_str("No result in tools/call response"))
    }
}

// ───────────────────────── tools and their results ─────────────────────────

/// One parameter of a tool's input schema: an entry of its `properties`, with
/// the entry's `type` and `description` where they are strings.
#[derive(Debug)]
pub struct SchemaProperty {
    pub name: String,
    pub kind: Option<String>,
    pub description: Option<String>,
}

/// What is read of a tool's input schema: its `properties` in order (none
/// when it has no `properties` object) and the names it lists as `required`.
#[derive(Debug)]
pub struct ToolSchema {
    pub properties: Option<Vec<SchemaProperty>>,
    pub required: Vec<String>,
}

/// A tool that an MCP server offers.
#[derive(Debug)]
pub struct McpToolDef {
    pub name: String,
    pub description: Option<String>,
    pub input_schema: Option<ToolSchema>,
}

/// One item of a tool's result.
#[derive(Debug)]
pub struct McpContentItem {
    pub content_type: String,
    pub text: Option<String>,
}

/// The result of a tool call.
#[derive(Debug)]
pub struct McpToolResult {
    pub content: Vec<McpContentItem>,
    pub is_error: Option<bool>,
}

/// What a server says of itself when a session opens.
#[derive(Debug)]
pub struct McpServerInfo {
    pub name: String,
    pub version: Option<String>,
    pub protocol_version: Option<String>,
    pub capabilities: Option<serde_json::Value>,
}

/// The server's description: its name, `unknown` when it gave none.
pub fn server_info(
    name: Option<String>,
    version: Option<String>,
    protocol_version: Option<String>,
    capabilities: Option<serde_json::Value>,
) -> (r: McpServerInfo)
    ensures
        r.name@ == match opt_string_view(name) {
            Some(n) => n,
            None => "unknown"@,
        },
        r.version == version,
        r.protocol_version == protocol_version,
        r.capabilities == capabilities,
{
    let n = match name {
        Some(n) => n,
        None => String::from_str("unknown"),
    };
    McpServerInfo { name: n, version, protocol_version, capabilities }
}

} // verus!
