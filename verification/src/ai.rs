//! The AI assistant: the prompts it sends (environment, attachments, MCP
//! tools), the endpoints it talks to, and how it reads their replies.
use vstd::prelude::*;

use crate::diff::{
    change_count, edit_summary, generate_diff, generate_edit_summary, line_diff, line_tokens,
    numbered, ChangeKind, DiffLine,
};
use crate::mcp::{McpToolDef, SchemaProperty, ToolSchema};
use crate::num::{dec, u64_dec};
use crate::text::{
    chars_of, chars_of_string, char_pred, contains, contains_str, join, join_chars, lines, lowercase,
    opt_string_view, push_all, push_str, starts_with, starts_with_str, string_of,
    string_views, to_lowercase, trim, trim_char, trim_end_by, trim_end_char, trim_matches_char,
    trim_ws, views,
};

verus! {

broadcast use vstd::seq_lib::group_seq_properties;

// ───────────────────────── endpoints ─────────────────────────

/// The Kuratchi service used when no base URL is configured.
pub open spec fn default_kuratchi_base() -> Seq<char> {
    "https://kuratchi.cloud"@
}

/// The Kuratchi base URL: the configured one, trimmed and without trailing
/// slashes, or the default when none is configured.
pub open spec fn kuratchi_base(base_url: Seq<char>) -> Seq<char> {
    let t = trim(base_url);
    if t.len() == 0 {
        default_kuratchi_base()
    } else {
        trim_end_by(t, char_pred('/'))
    }
}

/// The Kuratchi base URL to use for the configured `base_url`.
pub fn kuratchi_base_url(base_url: &str) -> (r: String)
    ensures
        r@ == kuratchi_base(base_url@),
{
    let t = trim_ws(&chars_of(base_url));
    if t.len() == 0 {
        String::from_str("https://kuratchi.cloud")
    } else {
        string_of(&trim_end_char(&t, '/'))
    }
}

/// The URL of the Kuratchi API endpoint `path`.
pub fn build_kuratchi_url(base_url: &str, path: &str) -> (r: String)
    ensures
        r@ == kuratchi_base(base_url@) + "/api/v1"@ + path@,
{
    let b = kuratchi_base_url(base_url);
    let mut v = chars_of_string(&b);
    push_str(&mut v, "/api/v1");
    push_str(&mut v, path);
    string_of(&v)
}

/// The Kuratchi path of a chat session.
pub fn session_path(session_id: &str) -> (r: String)
    ensures
        r@ == "/ai/sessions/"@ + session_id@,
{
    let mut v = chars_of("/ai/sessions/");
    push_str(&mut v, session_id);
    string_of(&v)
}

/// The chat-completions URL of an OpenAI-compatible API.
pub fn openai_chat_url(base_url: &str) -> (r: String)
    ensures
        r@ == trim_end_by(base_url@, char_pred('/')) + "/chat/completions"@,
{
    let mut v = trim_end_char(&chars_of(base_url), '/');
    push_str(&mut v, "/chat/completions");
    string_of(&v)
}

/// The `generateContent` URL of a Gemini model, with the API key.
pub fn gemini_url(model: &str, api_key: &str) -> (r: String)
    ensures
        r@ == "https://generativelanguage.googleapis.com/v1beta/models/"@ + model@
            + ":generateContent?key="@ + api_key@,
{
    let mut v = chars_of("https://generativelanguage.googleapis.com/v1beta/models/");
    push_str(&mut v, model);
    push_str(&mut v, ":generateContent?key=");
    push_str(&mut v, api_key);
    string_of(&v)
}

/// The model that Kuratchi sessions use unless one is chosen.
pub fn default_kuratchi_model() -> (r: String)
    ensures
        r@ == "@cf/meta/llama-4-scout-17b-16e-instruct"@,
{
    String::from_str("@cf/meta/llama-4-scout-17b-16e-instruct")
}

// ───────────────────────── messages ─────────────────────────

/// A part of a multimodal message.
#[derive(Debug)]
pub enum ContentPart {
    Text(String),
    ImageUrl(String),
}

/// The content of a chat message.
#[derive(Debug)]
pub enum MessageContent {
    Text(String),
    Multimodal(Vec<ContentPart>),
}

/// A chat message.
#[derive(Debug)]
pub struct AiMessage {
    pub role: String,
    pub content: MessageContent,
}

/// A message as Kuratchi takes it: text only.
#[derive(Debug)]
pub struct KuratchiMessage {
    pub role: String,
    pub content: String,
}

/// The one thing Kuratchi cannot take.
pub open spec fn multimodal_refusal() -> Seq<char> {
    "Image attachments are not supported with Kuratchi AI sessions yet"@
}

/// A message for Kuratchi: a text message as it is; a multimodal one is
/// refused.
pub fn message_to_kuratchi(message: AiMessage) -> (r: Result<KuratchiMessage, String>)
    ensures
        match message.content {
            MessageContent::Text(t) => r matches Ok(k) && k.role == message.role && k.content == t,
            MessageContent::Multimodal(_) => r matches Err(e) && e@ == multimodal_refusal(),
        },
{
    match message.content {
        MessageContent::Text(content) => Ok(KuratchiMessage { role: message.role, content }),
        MessageContent::Multimodal(_) => Err(
            String::from_str("Image attachments are not supported with Kuratchi AI sessions yet"),
        ),
    }
}

/// Every message is text.
pub open spec fn all_text(ms: Seq<AiMessage>) -> bool {
    forall|i: int| 0 <= i < ms.len() ==> (#[trigger] ms[i]).content is Text
}

/// The messages for Kuratchi, in order; refused when one of them is
/// multimodal.
pub fn messages_to_kuratchi(messages: Vec<AiMessage>) -> (r: Result<Vec<KuratchiMessage>, String>)
    ensures
        all_text(messages@) ==> (r matches Ok(v) && v@.len() == messages@.len() && forall|i: int|
            0 <= i < v@.len() ==> (#[trigger] v@[i]).role == messages@[i].role && (
            messages@[i].content matches MessageContent::Text(t) && v@[i].content == t)),
        !all_text(messages@) ==> (r matches Err(e) && e@ == multimodal_refusal()),
{
    let ghost orig = messages@;
    let mut input = messages;
    let mut out: Vec<KuratchiMessage> = Vec::new();
    let ghost mut taken: int = 0;
    while input.len() > 0
        invariant
            orig == messages@,
            0 <= taken <= orig.len(),
            input@ == orig.skip(taken),
            out@.len() == taken,
            all_text(orig.take(taken)),
            forall|i: int|
                0 <= i < taken ==> (#[trigger] out@[i]).role == orig[i].role && (
                orig[i].content matches MessageContent::Text(t) && out@[i].content == t),
        decreases input.len(),
    {
        let m = input.remove(0);
        proof {
            assert(m == orig[taken]);
        }
        match message_to_kuratchi(m) {
            Ok(k) => {
                out.push(k);
                proof {
                    assert(orig.take(taken + 1) =~= orig.take(taken).push(orig[taken]));
                    taken = taken + 1;
                    assert(input@ =~= orig.skip(taken));
                }
            },
            Err(e) => {
                proof {
                    assert(!all_text(orig)) by {
                        assert(!(orig[taken].content is Text));
                    }
                }
                return Err(e);
            },
        }
    }
    assert(orig.take(taken) =~= orig);
    Ok(out)
}

// ───────────────────────── the environment ─────────────────────────

/// `label` followed by the value, when there is one.
pub open spec fn labelled(label: Seq<char>, v: Option<Seq<char>>) -> Seq<Seq<char>> {
    match v {
        Some(x) => seq![label + x],
        None => seq![],
    }
}

/// The lines that describe the terminal's environment.
pub open spec fn context_lines(
    cwd: Option<Seq<char>>,
    os_info: Option<Seq<char>>,
    shell: Option<Seq<char>>,
    ssh_target: Option<Seq<char>>,
) -> Seq<Seq<char>> {
    labelled("Current directory: "@, cwd) + labelled("OS: "@, os_info) + labelled("Shell: "@, shell)
        + labelled("Connected via SSH to: "@, ssh_target)
}

/// The environment block of a system prompt: empty when nothing is known.
pub open spec fn context_block(
    cwd: Option<Seq<char>>,
    os_info: Option<Seq<char>>,
    shell: Option<Seq<char>>,
    ssh_target: Option<Seq<char>>,
) -> Seq<char> {
    let ls = context_lines(cwd, os_info, shell, ssh_target);
    if ls.len() == 0 {
        seq![]
    } else {
        "\n\nCurrent environment:\n"@ + join(ls, "\n"@)
    }
}

fn push_labelled(ls: &mut Vec<Vec<char>>, label: &str, v: &Option<String>)
    ensures
        views(final(ls)@) == views(old(ls)@) + labelled(label@, opt_string_view(*v)),
{
    match v {
        Some(x) => {
            let mut line = chars_of(label);
            push_str(&mut line, x.as_str());
            let ghost before = ls@;
            ls.push(line);
            assert(views(ls@) =~= views(before) + seq![line@]);
        },
        None => {
            assert(views(ls@) + Seq::<Seq<char>>::empty() =~= views(ls@));
        },
    }
}

/// The environment block of a system prompt for the given working directory,
/// system, shell and `ssh` target.
pub fn environment_context(
    cwd: &Option<String>,
    os_info: &Option<String>,
    shell: &Option<String>,
    ssh_target: &Option<String>,
) -> (r: String)
    ensures
        r@ == context_block(
            opt_string_view(*cwd),
            opt_string_view(*os_info),
            opt_string_view(*shell),
            opt_string_view(*ssh_target),
        ),
{
    let mut ls: Vec<Vec<char>> = Vec::new();
    assert(views(ls@) =~= Seq::<Seq<char>>::empty());
    push_labelled(&mut ls, "Current directory: ", cwd);
    push_labelled(&mut ls, "OS: ", os_info);
    push_labelled(&mut ls, "Shell: ", shell);
    push_labelled(&mut ls, "Connected via SSH to: ", ssh_target);
    assert(views(ls@) =~= context_lines(
        opt_string_view(*cwd),
        opt_string_view(*os_info),
        opt_string_view(*shell),
        opt_string_view(*ssh_target),
    ));
    if ls.len() == 0 {
        return String::new();
    }
    let mut v = chars_of("\n\nCurrent environment:\n");
    let body = join_chars(&ls, "\n");
    push_all(&mut v, &body);
    string_of(&v)
}

// ───────────────────────── attachments ─────────────────────────

/// A file attached to a prompt: its name, its content (text, or base64 for
/// images) and its MIME type.
#[derive(Debug)]
pub struct AiAttachment {
    pub name: String,
    pub content: String,
    pub mime_type: String,
}

/// An image.
pub open spec fn is_image(a: AiAttachment) -> bool {
    starts_with(a.mime_type@, "image/"@)
}

/// A PDF.
pub open spec fn is_pdf(a: AiAttachment) -> bool {
    a.mime_type@ == "application/pdf"@
}

/// A text file: neither an image nor a PDF.
pub open spec fn is_text(a: AiAttachment) -> bool {
    !is_image(a) && !is_pdf(a)
}

fn is_image_exec(a: &AiAttachment) -> (b: bool)
    ensures
        b == is_image(*a),
{
    starts_with_str(&chars_of_string(&a.mime_type), "image/")
}

fn is_pdf_exec(a: &AiAttachment) -> (b: bool)
    ensures
        b == is_pdf(*a),
{
    crate::text::eq_str(&chars_of_string(&a.mime_type), "application/pdf")
}

/// Some attachment is a text file.
pub fn has_text_attachments(attachments: &Vec<AiAttachment>) -> (b: bool)
    ensures
        b == exists|i: int| 0 <= i < attachments@.len() && is_text(#[trigger] attachments@[i]),
{
    let mut k: usize = 0;
    while k < attachments.len()
        invariant
            k <= attachments.len(),
            forall|i: int| 0 <= i < k ==> !is_text(#[trigger] attachments@[i]),
        decreases attachments.len() - k,
    {
        if !is_image_exec(&attachments[k]) && !is_pdf_exec(&attachments[k]) {
            return true;
        }
        k += 1;
    }
    false
}

/// Some attachment is an image.
pub fn has_image_attachments(attachments: &Vec<AiAttachment>) -> (b: bool)
    ensures
        b == exists|i: int| 0 <= i < attachments@.len() && is_image(#[trigger] attachments@[i]),
{
    let mut k: usize = 0;
    while k < attachments.len()
        invariant
            k <= attachments.len(),
            forall|i: int| 0 <= i < k ==> !is_image(#[trigger] attachments@[i]),
        decreases attachments.len() - k,
    {
        if is_image_exec(&attachments[k]) {
            return true;
        }
        k += 1;
    }
    false
}

// ───────────────────────── explanations ─────────────────────────

/// The words that make a prompt a request to explain rather than to act;
/// the Kuratchi path also counts `understand`.
pub open spec fn explanation_words(with_understand: bool) -> Seq<Seq<char>> {
    let base = seq![
        "explain"@,
        "what does"@,
        "how does"@,
        "describe"@,
        "analyze"@,
        "review"@,
    ];
    if with_understand {
        base.push("understand"@)
    } else {
        base
    }
}

/// The lowercase prompt holds one of the explanation words.
pub open spec fn asks_for_explanation(prompt: Seq<char>, with_understand: bool) -> bool {
    exists|i: int|
        0 <= i < explanation_words(with_understand).len() && contains(
            lowercase(prompt),
            #[trigger] explanation_words(with_understand)[i],
        )
}

/// A prompt asks for an explanation exactly when its lowercase text
/// contains `explain`, `what does`, `how does`, `describe`, `analyze` or
/// `review`, or, where `understand` counts, `understand`.
pub proof fn lemma_explanation_phrases(prompt: Seq<char>, with_understand: bool)
    ensures
        ({
            let lp = lowercase(prompt);
            asks_for_explanation(prompt, with_understand) <==> (contains(lp, "explain"@)
                || contains(lp, "what does"@) || contains(lp, "how does"@) || contains(
                lp,
                "describe"@,
            ) || contains(lp, "analyze"@) || contains(lp, "review"@) || (with_understand
                && contains(lp, "understand"@)))
        }),
{
    let lp = lowercase(prompt);
    let w = explanation_words(with_understand);
    assert(w[0] == "explain"@ && w[1] == "what does"@ && w[2] == "how does"@ && w[3]
        == "describe"@ && w[4] == "analyze"@ && w[5] == "review"@);
    assert(with_understand ==> w.len() == 7 && w[6] == "understand"@);
    assert(!with_understand ==> w.len() == 6);
    if contains(lp, "explain"@) {
        assert(contains(lp, w[0]));
    }
    if contains(lp, "what does"@) {
        assert(contains(lp, w[1]));
    }
    if contains(lp, "how does"@) {
        assert(contains(lp, w[2]));
    }
    if contains(lp, "describe"@) {
        assert(contains(lp, w[3]));
    }
    if contains(lp, "analyze"@) {
        assert(contains(lp, w[4]));
    }
    if contains(lp, "review"@) {
        assert(contains(lp, w[5]));
    }
    if with_understand && contains(lp, "understand"@) {
        assert(contains(lp, w[6]));
    }
}

/// Whether a prompt asks for an explanation (its lowercase text holds
/// `explain`, `what does`, `how does`, `describe`, `analyze` or `review`, and
/// with `with_understand` also `understand`).
pub fn is_explanation_request(prompt: &str, with_understand: bool) -> (b: bool)
    ensures
        b == asks_for_explanation(prompt@, with_understand),
{
    let lower = to_lowercase(&chars_of(prompt));
    let ghost words = explanation_words(with_understand);
    let found = contains_str(&lower, "explain") || contains_str(&lower, "what does")
        || contains_str(&lower, "how does") || contains_str(&lower, "describe") || contains_str(
        &lower,
        "analyze",
    ) || contains_str(&lower, "review") || (with_understand && contains_str(&lower, "understand"));
    proof {
        if found {
            if contains(lower@, "explain"@) {
                assert(contains(lowercase(prompt@), words[0]));
            } else if contains(lower@, "what does"@) {
                assert(contains(lowercase(prompt@), words[1]));
            } else if contains(lower@, "how does"@) {
                assert(contains(lowercase(prompt@), words[2]));
            } else if contains(lower@, "describe"@) {
                assert(contains(lowercase(prompt@), words[3]));
            } else if contains(lower@, "analyze"@) {
                assert(contains(lowercase(prompt@), words[4]));
            } else if contains(lower@, "review"@) {
                assert(contains(lowercase(prompt@), words[5]));
            } else {
                assert(contains(lowercase(prompt@), words[6]));
            }
        } else {
            assert forall|i: int| 0 <= i < words.len() implies !contains(
                lowercase(prompt@),
                #[trigger] words[i],
            ) by {
                if i == 6 {
                    assert(with_understand);
                }
            }
        }
    }
    found
}

/// A reply to an explanation request is shown as an answer: it gets the
/// `ANSWER: ` prefix unless it already starts with `ANSWER:`.
pub open spec fn answer_reply(explaining: bool, reply: Seq<char>) -> Seq<char> {
    if explaining && !starts_with(reply, "ANSWER:"@) {
        "ANSWER: "@ + reply
    } else {
        reply
    }
}

/// The reply as it is returned: marked as an answer when it explains.
pub fn finish_reply(explaining: bool, reply: String) -> (r: String)
    ensures
        r@ == answer_reply(explaining, reply@),
{
    if explaining && !starts_with_str(&chars_of_string(&reply), "ANSWER:") {
        let mut v = chars_of("ANSWER: ");
        push_str(&mut v, reply.as_str());
        string_of(&v)
    } else {
        reply
    }
}

/// A session title as the model wrote it, without surrounding whitespace and
/// double quotes.
pub fn clean_session_title(reply: &str) -> (r: String)
    ensures
        r@ == trim_char(trim(reply@), '"'),
{
    string_of(&trim_matches_char(&trim_ws(&chars_of(reply)), '"'))
}

// ───────────────────────── MCP tools in the prompt ─────────────────────────

/// A server's name, its URL and the tools it offers.
pub type ServerTools = (String, String, Vec<McpToolDef>);

/// The text of an optional string, or `d` when there is none.
pub open spec fn text_or(o: Option<String>, d: Seq<char>) -> Seq<char> {
    match o {
        Some(s) => s@,
        None => d,
    }
}

/// The lines that describe one parameter: its name, type (`any` when not
/// given) and whether it is required, then its description when it has one.
pub open spec fn property_text(p: SchemaProperty, required: Seq<String>) -> Seq<char> {
    let desc = text_or(p.description, seq![]);
    "      "@ + p.name@ + ": "@ + text_or(p.kind, "any"@) + (if string_views(required).contains(
        p.name@,
    ) {
        " (required)"@
    } else {
        seq![]
    }) + "\n"@ + (if desc.len() > 0 {
        "        "@ + desc + "\n"@
    } else {
        seq![]
    })
}

pub open spec fn properties_text(ps: Seq<SchemaProperty>, required: Seq<String>) -> Seq<char>
    decreases ps.len(),
{
    if ps.len() == 0 {
        seq![]
    } else {
        properties_text(ps.drop_last(), required) + property_text(ps.last(), required)
    }
}

/// The parameter lines of a tool: none without a schema or its properties.
pub open spec fn schema_text(s: Option<ToolSchema>) -> Seq<char> {
    match s {
        Some(sc) => match sc.properties {
            Some(ps) => properties_text(ps@, sc.required@),
            None => seq![],
        },
        None => seq![],
    }
}

/// The lines that describe one tool: its name and description, then its
/// parameters.
pub open spec fn tool_text(t: McpToolDef) -> Seq<char> {
    "  - "@ + t.name@ + (match t.description {
        Some(d) => ": "@ + d@,
        None => seq![],
    }) + "\n"@ + schema_text(t.input_schema)
}

pub open spec fn tools_text(ts: Seq<McpToolDef>) -> Seq<char>
    decreases ts.len(),
{
    if ts.len() == 0 {
        seq![]
    } else {
        tools_text(ts.drop_last()) + tool_text(ts.last())
    }
}

/// A server's block: its name in brackets, its tools, and a blank line.
pub open spec fn server_text(s: ServerTools) -> Seq<char> {
    "["@ + s.0@ + "]\n"@ + tools_text(s.2@) + "\n"@
}

pub open spec fn servers_text(ss: Seq<ServerTools>) -> Seq<char>
    decreases ss.len(),
{
    if ss.len() == 0 {
        seq![]
    } else {
        servers_text(ss.drop_last()) + server_text(ss.last())
    }
}

/// The list of the MCP tools that the model may call.
pub open spec fn tools_prompt(ss: Seq<ServerTools>) -> Seq<char> {
    "Available MCP tools:\n\n"@ + servers_text(ss)
}

fn is_required(required: &Vec<String>, name: &String) -> (b: bool)
    ensures
        b == string_views(required@).contains(name@),
{
    let nv = chars_of_string(name);
    let mut k: usize = 0;
    while k < required.len()
        invariant
            k <= required.len(),
            nv@ == name@,
            forall|i: int| 0 <= i < k ==> string_views(required@)[i] != name@,
        decreases required.len() - k,
    {
        if crate::text::eq_chars(&chars_of_string(&required[k]), &nv) {
            assert(string_views(required@)[k as int] == name@);
            return true;
        }
        k += 1;
    }
    false
}

fn push_property(out: &mut Vec<char>, p: &SchemaProperty, required: &Vec<String>)
    ensures
        final(out)@ == old(out)@ + property_text(*p, required@),
{
    push_str(out, "      ");
    push_str(out, p.name.as_str());
    push_str(out, ": ");
    match &p.kind {
        Some(k) => push_str(out, k.as_str()),
        None => push_str(out, "any"),
    }
    if is_required(required, &p.name) {
        push_str(out, " (required)");
    }
    push_str(out, "\n");
    let desc_len = match &p.description {
        Some(d) => d.unicode_len(),
        None => 0,
    };
    if desc_len > 0 {
        push_str(out, "        ");
        match &p.description {
            Some(d) => push_str(out, d.as_str()),
            None => {},
        }
        push_str(out, "\n");
    }
    proof {
        let desc = text_or(p.description, seq![]);
        assert(final(out)@ =~= old(out)@ + property_text(*p, required@));
    }
}

fn push_schema(out: &mut Vec<char>, s: &Option<ToolSchema>)
    ensures
        final(out)@ == old(out)@ + schema_text(*s),
{
    match s {
        Some(sc) => match &sc.properties {
            Some(ps) => {
                let ghost start = out@;
                let mut k: usize = 0;
                while k < ps.len()
                    invariant
                        k <= ps.len(),
                        out@ == start + properties_text(ps@.take(k as int), sc.required@),
                    decreases ps.len() - k,
                {
                    assert(ps@.take(k + 1).drop_last() =~= ps@.take(k as int));
                    push_property(out, &ps[k], &sc.required);
                    k += 1;
                }
                assert(ps@.take(ps.len() as int) =~= ps@);
            },
            None => {
                assert(out@ =~= out@ + Seq::<char>::empty());
            },
        },
        None => {
            assert(out@ =~= out@ + Seq::<char>::empty());
        },
    }
}

fn push_tool(out: &mut Vec<char>, t: &McpToolDef)
    ensures
        final(out)@ == old(out)@ + tool_text(*t),
{
    push_str(out, "  - ");
    push_str(out, t.name.as_str());
    match &t.description {
        Some(d) => {
            push_str(out, ": ");
            push_str(out, d.as_str());
        },
        None => {},
    }
    push_str(out, "\n");
    push_schema(out, &t.input_schema);
    assert(final(out)@ =~= old(out)@ + tool_text(*t));
}

fn push_server(out: &mut Vec<char>, s: &ServerTools)
    ensures
        final(out)@ == old(out)@ + server_text(*s),
{
    push_str(out, "[");
    push_str(out, s.0.as_str());
    push_str(out, "]\n");
    let ghost start = out@;
    let ts = &s.2;
    let mut k: usize = 0;
    while k < ts.len()
        invariant
            k <= ts.len(),
            out@ == start + tools_text(ts@.take(k as int)),
        decreases ts.len() - k,
    {
        assert(ts@.take(k + 1).drop_last() =~= ts@.take(k as int));
        push_tool(out, &ts[k]);
        k += 1;
    }
    assert(ts@.take(ts.len() as int) =~= ts@);
    push_str(out, "\n");
    assert(final(out)@ =~= old(out)@ + server_text(*s));
}

/// The list of the MCP tools offered by the servers: each server's name in
/// brackets, then each tool with its description and parameters.
pub fn build_tools_prompt(tools: &Vec<ServerTools>) -> (r: String)
    ensures
        r@ == tools_prompt(tools@),
{
    let mut out = chars_of("Available MCP tools:\n\n");
    let ghost start = out@;
    let mut k: usize = 0;
    while k < tools.len()
        invariant
            k <= tools.len(),
            out@ == start + servers_text(tools@.take(k as int)),
        decreases tools.len() - k,
    {
        assert(tools@.take(k + 1).drop_last() =~= tools@.take(k as int));
        push_server(&mut out, &tools[k]);
        k += 1;
    }
    assert(tools@.take(tools.len() as int) =~= tools@);
    string_of(&out)
}

/// `"name": "..."`, a placeholder argument.
pub open spec fn arg_pair(name: Seq<char>) -> Seq<char> {
    seq!['"'] + name + "\": \"...\""@
}

/// The example arguments of a tool: its first two parameters with
/// placeholder values, or `{}`.
pub open spec fn example_args(s: Option<ToolSchema>) -> Seq<char> {
    match s {
        Some(sc) => match sc.properties {
            Some(v) => {
                let ps = v@;
                if ps.len() == 0 {
                    "{}"@
                } else if ps.len() == 1 {
                    seq!['{'] + arg_pair(ps[0].name@) + seq!['}']
                } else {
                    seq!['{'] + arg_pair(ps[0].name@) + ", "@ + arg_pair(ps[1].name@) + seq!['}']
                }
            },
            None => "{}"@,
        },
        None => "{}"@,
    }
}

/// An example tool call: the first tool of the first server that offers one;
/// nothing when no server offers a tool.
pub open spec fn tool_example(ss: Seq<ServerTools>) -> Seq<char>
    decreases ss.len(),
{
    if ss.len() == 0 {
        seq![]
    } else if ss[0].2@.len() > 0 {
        "\nExample:\nTOOL_CALL: "@ + ss[0].0@ + " | "@ + ss[0].2@[0].name@ + " | "@ + example_args(
            ss[0].2@[0].input_schema,
        ) + "\n"@
    } else {
        tool_example(ss.drop_first())
    }
}

fn push_arg_pair(out: &mut Vec<char>, name: &String)
    ensures
        final(out)@ == old(out)@ + arg_pair(name@),
{
    out.push('"');
    push_str(out, name.as_str());
    push_str(out, "\": \"...\"");
    assert(final(out)@ =~= old(out)@ + arg_pair(name@));
}

fn example_args_exec(s: &Option<ToolSchema>) -> (r: Vec<char>)
    ensures
        r@ == example_args(*s),
{
    match s {
        Some(sc) => match &sc.properties {
            Some(ps) => {
                if ps.len() == 0 {
                    return chars_of("{}");
                }
                let mut out: Vec<char> = vec!['{'];
                push_arg_pair(&mut out, &ps[0].name);
                if ps.len() > 1 {
                    push_str(&mut out, ", ");
                    push_arg_pair(&mut out, &ps[1].name);
                }
                out.push('}');
                assert(out@ =~= example_args(*s));
                out
            },
            None => chars_of("{}"),
        },
        None => chars_of("{}"),
    }
}

/// An example `TOOL_CALL:` line for the first offered tool, or nothing.
pub fn build_tool_example(tools: &Vec<ServerTools>) -> (r: String)
    ensures
        r@ == tool_example(tools@),
{
    let mut k: usize = 0;
    while k < tools.len()
        invariant
            k <= tools.len(),
            tool_example(tools@) == tool_example(tools@.skip(k as int)),
        decreases tools.len() - k,
    {
        assert(tools@.skip(k as int)[0] == tools@[k as int]);
        assert(tools@.skip(k as int).drop_first() =~= tools@.skip(k + 1));
        let s = &tools[k];
        if s.2.len() > 0 {
            let mut out = chars_of("\nExample:\nTOOL_CALL: ");
            push_str(&mut out, s.0.as_str());
            push_str(&mut out, " | ");
            push_str(&mut out, s.2[0].name.as_str());
            push_str(&mut out, " | ");
            let args = example_args_exec(&s.2[0].input_schema);
            push_all(&mut out, &args);
            push_str(&mut out, "\n");
            return string_of(&out);
        }
        k += 1;
    }
    assert(tools@.skip(k as int) =~= Seq::<ServerTools>::empty());
    String::new()
}

/// Some server offers a tool.
pub open spec fn offers_tools(ss: Seq<ServerTools>) -> bool {
    exists|i: int| 0 <= i < ss.len() && (#[trigger] ss[i]).2@.len() > 0
}

/// Whether some server offers a tool.
pub fn has_tools(tools: &Vec<ServerTools>) -> (b: bool)
    ensures
        b == offers_tools(tools@),
{
    let mut k: usize = 0;
    while k < tools.len()
        invariant
            k <= tools.len(),
            forall|i: int| 0 <= i < k ==> (#[trigger] tools@[i]).2@.len() == 0,
        decreases tools.len() - k,
    {
        if tools[k].2.len() > 0 {
            return true;
        }
        k += 1;
    }
    false
}

/// The tools block of a system prompt: the tool list after a blank line, or
/// nothing when no tool is offered.
pub open spec fn tools_block(ss: Seq<ServerTools>) -> Seq<char> {
    if offers_tools(ss) {
        "\n\n"@ + tools_prompt(ss)
    } else {
        seq![]
    }
}

/// The tools block of a system prompt for the offered tools.
pub fn build_tools_block(tools: &Vec<ServerTools>) -> (r: String)
    ensures
        r@ == tools_block(tools@),
{
    if has_tools(tools) {
        let mut out = chars_of("\n\n");
        let p = build_tools_prompt(tools);
        push_str(&mut out, p.as_str());
        string_of(&out)
    } else {
        String::new()
    }
}

/// The wording of the instructions for calling tools: for OpenAI-compatible
/// APIs, for Gemini, or for Kuratchi sessions.
#[derive(PartialEq, Eq, Structural, Clone, Copy)]
pub enum PromptStyle {
    OpenAi,
    Gemini,
    Kuratchi,
}

/// The instructions before the example.
pub open spec fn instructions_head(style: PromptStyle) -> Seq<char> {
    match style {
        PromptStyle::OpenAi => "\n\nTo use an MCP tool, output a line starting with \"TOOL_CALL:\" in this exact format:\nTOOL_CALL: server_name | tool_name | {\"param\": \"value\"}\n"@,
        PromptStyle::Gemini => "\n\nTo use an MCP tool, you MUST output a line starting with \"TOOL_CALL:\" in this exact format:\nTOOL_CALL: server_name | tool_name | {\"param\": \"value\"}\n"@,
        PromptStyle::Kuratchi => "\n\nTo use an MCP tool, you MUST output a line starting with \"TOOL_CALL:\" in this exact format:\nTOOL_CALL: server_name | tool_name | {\"param\": \"value\"}\n"@,
    }
}

/// The rules after the example.
pub open spec fn instructions_rules(style: PromptStyle) -> Seq<char> {
    match style {
        PromptStyle::OpenAi => "\nCRITICAL RULES:\n- server_name MUST be the exact name in [brackets] above.\n- tool_name is the full tool name exactly as listed.\n- Arguments must be valid JSON.\n- Every MCP tool invocation MUST use TOOL_CALL: format.\n- Do NOT explain tool calls — just output them."@,
        PromptStyle::Gemini => "\nCRITICAL RULES:\n- server_name MUST be the exact name in [brackets] above.\n- tool_name is the full tool name exactly as listed.\n- Arguments must be valid JSON.\n- Every MCP tool invocation MUST use TOOL_CALL: format.\n- Do NOT explain tool calls — just output them."@,
        PromptStyle::Kuratchi => "\nCRITICAL RULES:\n- server_name MUST be the exact name in [brackets] above. It is NOT derived from the tool name prefix.\n- tool_name is the full tool name exactly as listed.\n- Arguments must be valid JSON.\n- Every MCP tool invocation MUST use TOOL_CALL: format. Never output a tool name as a bare shell command.\n- Do NOT explain tool calls — just output them."@,
    }
}

/// The instructions for calling tools: how a `TOOL_CALL:` line looks, an
/// example, and the rules; nothing when no tool is offered.
pub open spec fn tool_instructions(ss: Seq<ServerTools>, style: PromptStyle) -> Seq<char> {
    if offers_tools(ss) {
        instructions_head(style) + tool_example(ss) + instructions_rules(style)
    } else {
        seq![]
    }
}

/// The instructions for calling the offered tools, in the given wording.
pub fn build_tool_instructions(tools: &Vec<ServerTools>, style: PromptStyle) -> (r: String)
    ensures
        r@ == tool_instructions(tools@, style),
{
    if !has_tools(tools) {
        return String::new();
    }
    let mut out = match style {
        PromptStyle::OpenAi => chars_of("\n\nTo use an MCP tool, output a line starting with \"TOOL_CALL:\" in this exact format:\nTOOL_CALL: server_name | tool_name | {\"param\": \"value\"}\n"),
        PromptStyle::Gemini => chars_of("\n\nTo use an MCP tool, you MUST output a line starting with \"TOOL_CALL:\" in this exact format:\nTOOL_CALL: server_name | tool_name | {\"param\": \"value\"}\n"),
        PromptStyle::Kuratchi => chars_of("\n\nTo use an MCP tool, you MUST output a line starting with \"TOOL_CALL:\" in this exact format:\nTOOL_CALL: server_name | tool_name | {\"param\": \"value\"}\n"),
    };
    let ex = build_tool_example(tools);
    push_str(&mut out, ex.as_str());
    match style {
        PromptStyle::OpenAi => push_str(&mut out, "\nCRITICAL RULES:\n- server_name MUST be the exact name in [brackets] above.\n- tool_name is the full tool name exactly as listed.\n- Arguments must be valid JSON.\n- Every MCP tool invocation MUST use TOOL_CALL: format.\n- Do NOT explain tool calls — just output them."),
        PromptStyle::Gemini => push_str(&mut out, "\nCRITICAL RULES:\n- server_name MUST be the exact name in [brackets] above.\n- tool_name is the full tool name exactly as listed.\n- Arguments must be valid JSON.\n- Every MCP tool invocation MUST use TOOL_CALL: format.\n- Do NOT explain tool calls — just output them."),
        PromptStyle::Kuratchi => push_str(&mut out, "\nCRITICAL RULES:\n- server_name MUST be the exact name in [brackets] above. It is NOT derived from the tool name prefix.\n- tool_name is the full tool name exactly as listed.\n- Arguments must be valid JSON.\n- Every MCP tool invocation MUST use TOOL_CALL: format. Never output a tool name as a bare shell command.\n- Do NOT explain tool calls — just output them."),
    }
    string_of(&out)
}

// ───────────────────────── system prompts ─────────────────────────

/// The system prompt for explaining attached code.
pub open spec fn explanation_prompt() -> Seq<char> {
    "You are a helpful coding assistant. Explain code clearly and thoroughly. Describe what the code does, how it works, and any important patterns or concepts used. Be direct and informative."@
}

/// The system prompt of a terminal request to an OpenAI-compatible API or to
/// Gemini: commands, tool calls, `ERROR:` or `ANSWER:`, then the environment,
/// the tools and the tool instructions.
pub open spec fn terminal_prompt(context: Seq<char>, tools: Seq<char>, instructions: Seq<char>) -> Seq<char> {
    "You are an expert terminal assistant in Drover. The user describes tasks in natural language and you respond with executable shell commands OR MCP tool calls.\n\nRules:\n- Respond with ONLY executable shell commands (one per line) or TOOL_CALL directives.\n- No explanations, no markdown, no code fences, no commentary.\n- ALWAYS single-quote URLs that contain special shell characters (?, &, =, #, etc.).\n- If a task is dangerous, respond with: ERROR: <reason>\n- If the question is conversational or doesn't need commands, respond with: ANSWER: <your response>"@ + context + tools + instructions
}

/// The system prompt of a terminal request in a Kuratchi session.
pub open spec fn session_prompt(context: Seq<char>, tools: Seq<char>, instructions: Seq<char>) -> Seq<char> {
    "You are an expert terminal assistant in Drover. The user describes tasks in natural language and you respond with executable shell commands OR MCP tool calls.\n\nRules:\n- Respond with ONLY executable shell commands (one per line) or TOOL_CALL directives.\n- No explanations, no markdown, no code fences, no commentary.\n- ALWAYS single-quote URLs that contain special shell characters (?, &, =, #, etc.). For example: curl 'https://wttr.in/Houston?format=j1'\n- If a task is dangerous, respond with: ERROR: <reason>"@ + context + tools + instructions
}

/// The guidance added when commands run on a remote server.
pub open spec fn remote_guidance() -> Seq<char> {
    "\n\nRemote server guidance:\n- Commands will execute on the REMOTE server, not the local machine.\n- Use Linux-compatible commands (systemctl, journalctl, apt/yum, etc.) as appropriate for the OS.\n- For service inspection: prefer systemctl status, journalctl -u, ss -tlnp over legacy alternatives.\n- For disk/memory: use df -h, free -h, top -bn1 | head, etc.\n- For logs: use journalctl, tail -f /var/log/*, or dmesg as appropriate.\n- Do NOT use macOS-specific commands (brew, launchctl, pbcopy, open, etc.) on Linux servers.\n- If the user asks about the server itself (uptime, load, disk, services), answer about the remote server."@
}

/// The system prompt of a plain command request, with the remote guidance
/// when the terminal is connected over `ssh`.
pub open spec fn command_prompt(context: Seq<char>, remote: bool) -> Seq<char> {
    "You are an expert systems administrator and terminal assistant built into a terminal app called Drover. The user describes tasks in natural language and you respond with the exact shell commands to execute.\n\nRules:\n- Respond with ONLY executable shell commands, one per line.\n- No explanations, no markdown, no code fences, no commentary, no numbering.\n- Each line must be a complete, standalone command that can be piped to a shell.\n- For multi-step tasks, output each command on its own line in execution order.\n- Use absolute paths when the task references specific directories/files.\n- For file creation with content, use heredoc syntax (cat << 'EOF' > file ... EOF) or echo/printf.\n- If a task is ambiguous, make reasonable assumptions and proceed.\n- If a task is genuinely dangerous (rm -rf /, drop database in production), respond with a single line: ERROR: <reason>\n- Prefer simple, portable commands (POSIX where possible).\n- Do NOT wrap commands in bash -c unless necessary.\n- ALWAYS single-quote URLs that contain special shell characters (?, &, =, #, etc.). For example: curl 'https://wttr.in/Houston?format=j1'"@ + context + if remote {
        remote_guidance()
    } else {
        seq![]
    }
}

/// The system prompt that asks for another approach after failed commands.
pub open spec fn retry_prompt(context: Seq<char>) -> Seq<char> {
    "You are an expert terminal assistant in Drover. A previous command failed. Analyze the error and respond with an alternative command that accomplishes the same goal.\n\nRules:\n- Respond with ONLY executable shell commands (one per line), OR a single line starting with ANSWER: if the task needs no commands (e.g. math, general knowledge).\n- If the error indicates the command/tool is not available, use an alternative tool or approach that achieves the same result.\n- If the error is a permissions issue, suggest the appropriate fix (e.g. Run As Administrator, sudo).\n- If the task is simply impossible in this environment, respond with: ERROR: <clear explanation of why and what the user can do instead>\n- ALWAYS single-quote URLs that contain special shell characters (?, &, =, #, etc.).\n- No explanations, no markdown, no code fences.\n- Do NOT retry the exact same command that already failed."@ + context
}

/// The system prompt of an OpenAI-compatible or Gemini request: the
/// explanation prompt when the prompt asks to explain attached text files,
/// else the terminal prompt.
pub fn build_system_prompt(explain: bool, context: &str, tools: &str, instructions: &str) -> (r: String)
    ensures
        r@ == if explain {
            explanation_prompt()
        } else {
            terminal_prompt(context@, tools@, instructions@)
        },
{
    if explain {
        return String::from_str("You are a helpful coding assistant. Explain code clearly and thoroughly. Describe what the code does, how it works, and any important patterns or concepts used. Be direct and informative.");
    }
    let mut v = chars_of("You are an expert terminal assistant in Drover. The user describes tasks in natural language and you respond with executable shell commands OR MCP tool calls.\n\nRules:\n- Respond with ONLY executable shell commands (one per line) or TOOL_CALL directives.\n- No explanations, no markdown, no code fences, no commentary.\n- ALWAYS single-quote URLs that contain special shell characters (?, &, =, #, etc.).\n- If a task is dangerous, respond with: ERROR: <reason>\n- If the question is conversational or doesn't need commands, respond with: ANSWER: <your response>");
    push_str(&mut v, context);
    push_str(&mut v, tools);
    push_str(&mut v, instructions);
    string_of(&v)
}

/// The system prompt of a terminal request in a Kuratchi session.
pub fn build_session_prompt(context: &str, tools: &str, instructions: &str) -> (r: String)
    ensures
        r@ == session_prompt(context@, tools@, instructions@),
{
    let mut v = chars_of("You are an expert terminal assistant in Drover. The user describes tasks in natural language and you respond with executable shell commands OR MCP tool calls.\n\nRules:\n- Respond with ONLY executable shell commands (one per line) or TOOL_CALL directives.\n- No explanations, no markdown, no code fences, no commentary.\n- ALWAYS single-quote URLs that contain special shell characters (?, &, =, #, etc.). For example: curl 'https://wttr.in/Houston?format=j1'\n- If a task is dangerous, respond with: ERROR: <reason>");
    push_str(&mut v, context);
    push_str(&mut v, tools);
    push_str(&mut v, instructions);
    string_of(&v)
}

/// The system prompt for explaining attached code.
pub fn build_explanation_prompt() -> (r: String)
    ensures
        r@ == explanation_prompt(),
{
    String::from_str("You are a helpful coding assistant. Explain code clearly and thoroughly. Describe what the code does, how it works, and any important patterns or concepts used. Be direct and informative.")
}

/// The system prompt of a plain command request.
pub fn build_command_prompt(context: &str, remote: bool) -> (r: String)
    ensures
        r@ == command_prompt(context@, remote),
{
    let mut v = chars_of("You are an expert systems administrator and terminal assistant built into a terminal app called Drover. The user describes tasks in natural language and you respond with the exact shell commands to execute.\n\nRules:\n- Respond with ONLY executable shell commands, one per line.\n- No explanations, no markdown, no code fences, no commentary, no numbering.\n- Each line must be a complete, standalone command that can be piped to a shell.\n- For multi-step tasks, output each command on its own line in execution order.\n- Use absolute paths when the task references specific directories/files.\n- For file creation with content, use heredoc syntax (cat << 'EOF' > file ... EOF) or echo/printf.\n- If a task is ambiguous, make reasonable assumptions and proceed.\n- If a task is genuinely dangerous (rm -rf /, drop database in production), respond with a single line: ERROR: <reason>\n- Prefer simple, portable commands (POSIX where possible).\n- Do NOT wrap commands in bash -c unless necessary.\n- ALWAYS single-quote URLs that contain special shell characters (?, &, =, #, etc.). For example: curl 'https://wttr.in/Houston?format=j1'");
    push_str(&mut v, context);
    if remote {
        push_str(&mut v, "\n\nRemote server guidance:\n- Commands will execute on the REMOTE server, not the local machine.\n- Use Linux-compatible commands (systemctl, journalctl, apt/yum, etc.) as appropriate for the OS.\n- For service inspection: prefer systemctl status, journalctl -u, ss -tlnp over legacy alternatives.\n- For disk/memory: use df -h, free -h, top -bn1 | head, etc.\n- For logs: use journalctl, tail -f /var/log/*, or dmesg as appropriate.\n- Do NOT use macOS-specific commands (brew, launchctl, pbcopy, open, etc.) on Linux servers.\n- If the user asks about the server itself (uptime, load, disk, services), answer about the remote server.");
    }
    proof {
        if !remote {
            assert(v@ =~= command_prompt(context@, remote));
        }
    }
    string_of(&v)
}

/// The system prompt of a retry after failed commands.
pub fn build_retry_prompt(context: &str) -> (r: String)
    ensures
        r@ == retry_prompt(context@),
{
    let mut v = chars_of("You are an expert terminal assistant in Drover. A previous command failed. Analyze the error and respond with an alternative command that accomplishes the same goal.\n\nRules:\n- Respond with ONLY executable shell commands (one per line), OR a single line starting with ANSWER: if the task needs no commands (e.g. math, general knowledge).\n- If the error indicates the command/tool is not available, use an alternative tool or approach that achieves the same result.\n- If the error is a permissions issue, suggest the appropriate fix (e.g. Run As Administrator, sudo).\n- If the task is simply impossible in this environment, respond with: ERROR: <clear explanation of why and what the user can do instead>\n- ALWAYS single-quote URLs that contain special shell characters (?, &, =, #, etc.).\n- No explanations, no markdown, no code fences.\n- Do NOT retry the exact same command that already failed.");
    push_str(&mut v, context);
    string_of(&v)
}

/// The system prompt of a code edit.
pub fn edit_prompt() -> (r: String)
    ensures
        r@ == "You are an expert code editor. The user will provide a code file and an instruction for how to modify it.\n\nYour task:\n1. Analyze the existing code\n2. Make the requested modifications\n3. Return ONLY the complete modified file content\n\nRules:\n- Return the ENTIRE modified file, not just the changed parts\n- Preserve the original code style, indentation, and formatting\n- Do not add explanatory comments unless specifically requested\n- Do not wrap the code in markdown code fences\n- Output ONLY the modified code, nothing else"@,
{
    String::from_str("You are an expert code editor. The user will provide a code file and an instruction for how to modify it.\n\nYour task:\n1. Analyze the existing code\n2. Make the requested modifications\n3. Return ONLY the complete modified file content\n\nRules:\n- Return the ENTIRE modified file, not just the changed parts\n- Preserve the original code style, indentation, and formatting\n- Do not add explanatory comments unless specifically requested\n- Do not wrap the code in markdown code fences\n- Output ONLY the modified code, nothing else")
}

/// The system prompt that turns command outputs into an answer.
pub fn summarize_prompt() -> (r: String)
    ensures
        r@ == "You are a friendly, knowledgeable assistant in a terminal app called Drover. The user asked a question, commands were executed, and you now have the output. Give a clear, conversational answer.\n\nRules:\n- Answer the user's question directly and naturally, as if talking to them.\n- Lead with the key answer or finding — don't bury it.\n- Use short paragraphs. Use bullet points only when listing multiple items.\n- For structured data (DNS, system info, etc.), present it cleanly with labels.\n- If something failed or errored, explain what went wrong and suggest alternatives.\n- Keep it concise but complete — don't be terse, be helpful.\n- Do NOT use markdown code fences or backticks.\n- Do NOT repeat raw command output verbatim.\n- Do NOT mention which commands were run unless the user asked about commands."@,
{
    String::from_str("You are a friendly, knowledgeable assistant in a terminal app called Drover. The user asked a question, commands were executed, and you now have the output. Give a clear, conversational answer.\n\nRules:\n- Answer the user's question directly and naturally, as if talking to them.\n- Lead with the key answer or finding — don't bury it.\n- Use short paragraphs. Use bullet points only when listing multiple items.\n- For structured data (DNS, system info, etc.), present it cleanly with labels.\n- If something failed or errored, explain what went wrong and suggest alternatives.\n- Keep it concise but complete — don't be terse, be helpful.\n- Do NOT use markdown code fences or backticks.\n- Do NOT repeat raw command output verbatim.\n- Do NOT mention which commands were run unless the user asked about commands.")
}

/// The system prompt that turns tool results and command outputs into an
/// answer.
pub fn summarize_tools_prompt() -> (r: String)
    ensures
        r@ == "You are a friendly, knowledgeable assistant in a terminal app called Drover. The user asked a question, and tools/commands were executed to get the answer. Give a clear, conversational answer.\n\nRules:\n- Answer the user's question directly and naturally, as if talking to them.\n- Lead with the key answer or finding — don't bury it.\n- Use short paragraphs. Use bullet points only when listing multiple items.\n- For structured data, present it cleanly with labels.\n- If something failed or errored, explain what went wrong and suggest alternatives.\n- Keep it concise but complete — don't be terse, be helpful.\n- Do NOT use markdown code fences or backticks.\n- Do NOT repeat raw JSON or command output verbatim — extract key information.\n- Do NOT mention which commands were run unless the user asked about commands."@,
{
    String::from_str("You are a friendly, knowledgeable assistant in a terminal app called Drover. The user asked a question, and tools/commands were executed to get the answer. Give a clear, conversational answer.\n\nRules:\n- Answer the user's question directly and naturally, as if talking to them.\n- Lead with the key answer or finding — don't bury it.\n- Use short paragraphs. Use bullet points only when listing multiple items.\n- For structured data, present it cleanly with labels.\n- If something failed or errored, explain what went wrong and suggest alternatives.\n- Keep it concise but complete — don't be terse, be helpful.\n- Do NOT use markdown code fences or backticks.\n- Do NOT repeat raw JSON or command output verbatim — extract key information.\n- Do NOT mention which commands were run unless the user asked about commands.")
}

/// The system prompt that asks for a session title.
pub fn title_prompt() -> (r: String)
    ensures
        r@ == "Generate a short descriptive chat title for a developer's request. Return only the title, with no quotes, no markdown, and no punctuation unless required. Keep it under 6 words."@,
{
    String::from_str("Generate a short descriptive chat title for a developer's request. Return only the title, with no quotes, no markdown, and no punctuation unless required. Keep it under 6 words.")
}

// ───────────────────────── user messages ─────────────────────────

/// The text files among the attachments, each after a `--- name ---` line.
pub open spec fn inline_text_files(atts: Seq<AiAttachment>) -> Seq<char>
    decreases atts.len(),
{
    if atts.len() == 0 {
        seq![]
    } else {
        let a = atts.last();
        inline_text_files(atts.drop_last()) + if is_text(a) {
            "\n\n--- "@ + a.name@ + " ---\n"@ + a.content@
        } else {
            seq![]
        }
    }
}

/// The user text of an OpenAI-compatible or Gemini request: the prompt, then
/// each attached text file.
pub fn prompt_with_text_files(prompt: &str, attachments: &Vec<AiAttachment>) -> (r: String)
    ensures
        r@ == prompt@ + inline_text_files(attachments@),
{
    let mut v = chars_of(prompt);
    let mut k: usize = 0;
    while k < attachments.len()
        invariant
            k <= attachments.len(),
            v@ == prompt@ + inline_text_files(attachments@.take(k as int)),
        decreases attachments.len() - k,
    {
        assert(attachments@.take(k + 1).drop_last() =~= attachments@.take(k as int));
        let a = &attachments[k];
        if !is_image_exec(a) && !is_pdf_exec(a) {
            push_str(&mut v, "\n\n--- ");
            push_str(&mut v, a.name.as_str());
            push_str(&mut v, " ---\n");
            push_str(&mut v, a.content.as_str());
        }
        k += 1;
    }
    assert(attachments@.take(attachments.len() as int) =~= attachments@);
    string_of(&v)
}

/// Each attachment of a Kuratchi session message after a `--- name ---`
/// line: a text file's content, a note for a PDF, nothing for an image.
pub open spec fn listed_files(atts: Seq<AiAttachment>) -> Seq<char>
    decreases atts.len(),
{
    if atts.len() == 0 {
        seq![]
    } else {
        let a = atts.last();
        listed_files(atts.drop_last()) + "\n--- "@ + a.name@ + " ---\n"@ + if is_pdf(a) {
            "[PDF file - not supported]\n"@
        } else if !is_image(a) {
            a.content@ + "\n"@
        } else {
            seq![]
        }
    }
}

/// The user message of a terminal request in a Kuratchi session: the prompt,
/// then the attached files when there are any.
pub open spec fn session_user_content(prompt: Seq<char>, atts: Seq<AiAttachment>) -> Seq<char> {
    if atts.len() == 0 {
        prompt
    } else {
        prompt + "\n\nAttached files:\n"@ + listed_files(atts)
    }
}

/// The user message of a terminal request in a Kuratchi session.
pub fn build_session_user_content(prompt: &str, attachments: &Vec<AiAttachment>) -> (r: String)
    ensures
        r@ == session_user_content(prompt@, attachments@),
{
    let mut v = chars_of(prompt);
    if attachments.len() == 0 {
        return string_of(&v);
    }
    push_str(&mut v, "\n\nAttached files:\n");
    let ghost start = v@;
    let mut k: usize = 0;
    while k < attachments.len()
        invariant
            k <= attachments.len(),
            v@ == start + listed_files(attachments@.take(k as int)),
        decreases attachments.len() - k,
    {
        assert(attachments@.take(k + 1).drop_last() =~= attachments@.take(k as int));
        let a = &attachments[k];
        push_str(&mut v, "\n--- ");
        push_str(&mut v, a.name.as_str());
        push_str(&mut v, " ---\n");
        if is_pdf_exec(a) {
            push_str(&mut v, "[PDF file - not supported]\n");
        } else if !is_image_exec(a) {
            push_str(&mut v, a.content.as_str());
            push_str(&mut v, "\n");
        }
        k += 1;
    }
    assert(attachments@.take(attachments.len() as int) =~= attachments@);
    string_of(&v)
}

/// The attached text files of an explanation request, each after a
/// `--- name ---` line and ending with a line break.
pub open spec fn explained_files(atts: Seq<AiAttachment>) -> Seq<char>
    decreases atts.len(),
{
    if atts.len() == 0 {
        seq![]
    } else {
        let a = atts.last();
        explained_files(atts.drop_last()) + if is_text(a) {
            "\n--- "@ + a.name@ + " ---\n"@ + a.content@ + "\n"@
        } else {
            seq![]
        }
    }
}

/// The user message of an explanation request: the prompt and the attached
/// text files.
pub fn build_explanation_content(prompt: &str, attachments: &Vec<AiAttachment>) -> (r: String)
    ensures
        r@ == prompt@ + "\n\nAttached files:\n"@ + explained_files(attachments@),
{
    let mut v = chars_of(prompt);
    push_str(&mut v, "\n\nAttached files:\n");
    let ghost start = v@;
    let mut k: usize = 0;
    while k < attachments.len()
        invariant
            k <= attachments.len(),
            v@ == start + explained_files(attachments@.take(k as int)),
        decreases attachments.len() - k,
    {
        assert(attachments@.take(k + 1).drop_last() =~= attachments@.take(k as int));
        let a = &attachments[k];
        if !is_image_exec(a) && !is_pdf_exec(a) {
            push_str(&mut v, "\n--- ");
            push_str(&mut v, a.name.as_str());
            push_str(&mut v, " ---\n");
            push_str(&mut v, a.content.as_str());
            push_str(&mut v, "\n");
        }
        k += 1;
    }
    assert(attachments@.take(attachments.len() as int) =~= attachments@);
    string_of(&v)
}

/// The data URL of an image attachment.
pub open spec fn image_data_url(a: AiAttachment) -> Seq<char> {
    "data:"@ + a.mime_type@ + ";base64,"@ + a.content@
}

/// The image attachments, in order.
pub open spec fn images(atts: Seq<AiAttachment>) -> Seq<AiAttachment> {
    atts.filter(|a: AiAttachment| is_image(a))
}

/// The user message of an OpenAI-compatible request: with images, the text
/// part and then each image as a data URL; else the text alone.
pub fn openai_user_content(prompt: &str, attachments: &Vec<AiAttachment>) -> (r: MessageContent)
    ensures
        ({
            let text = prompt@ + inline_text_files(attachments@);
            let imgs = images(attachments@);
            if imgs.len() == 0 {
                r matches MessageContent::Text(t) && t@ == text
            } else {
                r matches MessageContent::Multimodal(ps) && ps@.len() == imgs.len() + 1 && (
                ps@[0] matches ContentPart::Text(t) && t@ == text) && forall|i: int|
                    0 <= i < imgs.len() ==> (#[trigger] ps@[i + 1] matches ContentPart::ImageUrl(u)
                        && u@ == image_data_url(imgs[i]))
            }
        }),
{
    let text = prompt_with_text_files(prompt, attachments);
    let mut parts: Vec<ContentPart> = vec![ContentPart::Text(text)];
    let mut k: usize = 0;
    while k < attachments.len()
        invariant
            k <= attachments.len(),
            parts@.len() == images(attachments@.take(k as int)).len() + 1,
            parts@[0] matches ContentPart::Text(t) && t@ == prompt@ + inline_text_files(attachments@),
            forall|i: int|
                0 <= i < images(attachments@.take(k as int)).len() ==> (#[trigger] parts@[i
                    + 1] matches ContentPart::ImageUrl(u) && u@ == image_data_url(
                    images(attachments@.take(k as int))[i],
                )),
        decreases attachments.len() - k,
    {
        let ghost pre = attachments@.take(k as int);
        assert(attachments@.take(k + 1) =~= pre.push(attachments@[k as int]));
        proof {
            pre.lemma_filter_push(attachments@[k as int], |a: AiAttachment| is_image(a));
        }
        let a = &attachments[k];
        if is_image_exec(a) {
            let mut u = chars_of("data:");
            push_str(&mut u, a.mime_type.as_str());
            push_str(&mut u, ";base64,");
            push_str(&mut u, a.content.as_str());
            parts.push(ContentPart::ImageUrl(string_of(&u)));
        }
        k += 1;
    }
    assert(attachments@.take(attachments.len() as int) =~= attachments@);
    if parts.len() == 1 {
        let p = parts.remove(0);
        match p {
            ContentPart::Text(t) => MessageContent::Text(t),
            ContentPart::ImageUrl(u) => MessageContent::Text(u),
        }
    } else {
        MessageContent::Multimodal(parts)
    }
}

/// A part of a Gemini message.
#[derive(Debug)]
pub enum GeminiPart {
    Text(String),
    InlineData { mime_type: String, data: String },
}

/// The parts of a Gemini user message: the text, then each image inline.
pub fn gemini_user_parts(prompt: &str, attachments: &Vec<AiAttachment>) -> (r: Vec<GeminiPart>)
    ensures
        ({
            let imgs = images(attachments@);
            r@.len() == imgs.len() + 1 && (r@[0] matches GeminiPart::Text(t) && t@ == prompt@
                + inline_text_files(attachments@)) && forall|i: int|
                0 <= i < imgs.len() ==> (#[trigger] r@[i + 1] matches GeminiPart::InlineData {
                    mime_type,
                    data,
                } && mime_type@ == imgs[i].mime_type@ && data@ == imgs[i].content@)
        }),
{
    let text = prompt_with_text_files(prompt, attachments);
    let mut parts: Vec<GeminiPart> = vec![GeminiPart::Text(text)];
    let mut k: usize = 0;
    while k < attachments.len()
        invariant
            k <= attachments.len(),
            parts@.len() == images(attachments@.take(k as int)).len() + 1,
            parts@[0] matches GeminiPart::Text(t) && t@ == prompt@ + inline_text_files(attachments@),
            forall|i: int|
                0 <= i < images(attachments@.take(k as int)).len() ==> (#[trigger] parts@[i
                    + 1] matches GeminiPart::InlineData { mime_type, data } && mime_type@ == images(
                    attachments@.take(k as int),
                )[i].mime_type@ && data@ == images(attachments@.take(k as int))[i].content@),
        decreases attachments.len() - k,
    {
        let ghost pre = attachments@.take(k as int);
        assert(attachments@.take(k + 1) =~= pre.push(attachments@[k as int]));
        proof {
            pre.lemma_filter_push(attachments@[k as int], |a: AiAttachment| is_image(a));
        }
        let a = &attachments[k];
        if is_image_exec(a) {
            parts.push(
                GeminiPart::InlineData { mime_type: a.mime_type.clone(), data: a.content.clone() },
            );
        }
        k += 1;
    }
    assert(attachments@.take(attachments.len() as int) =~= attachments@);
    parts
}

/// The user message of a code edit.
pub fn edit_user_content(file_name: &str, file_content: &str, instruction: &str) -> (r: String)
    ensures
        r@ == "File: "@ + file_name@ + "\n\nOriginal code:\n"@ + file_content@ + "\n\nInstruction: "@
            + instruction@,
{
    let mut v = chars_of("File: ");
    push_str(&mut v, file_name);
    push_str(&mut v, "\n\nOriginal code:\n");
    push_str(&mut v, file_content);
    push_str(&mut v, "\n\nInstruction: ");
    push_str(&mut v, instruction);
    string_of(&v)
}

// ───────────────────────── results fed back to the model ─────────────────────────

/// A command the user ran and its output.
#[derive(Debug)]
pub struct CommandResult {
    pub command: String,
    pub output: String,
}

/// An MCP tool call the user ran and its outcome.
#[derive(Debug)]
pub struct ToolCallResult {
    pub server_name: String,
    pub tool_name: String,
    pub arguments: String,
    pub output: String,
    pub is_error: bool,
}

/// A command that failed and its error.
#[derive(Debug)]
pub struct FailedAttempt {
    pub command: String,
    pub error: String,
}

/// Each command as a `$ command` line, its output, and a blank line.
pub open spec fn command_results_text(rs: Seq<CommandResult>) -> Seq<char>
    decreases rs.len(),
{
    if rs.len() == 0 {
        seq![]
    } else {
        command_results_text(rs.drop_last()) + "$ "@ + rs.last().command@ + "\n"@
            + rs.last().output@ + "\n\n"@
    }
}

/// Each tool call with its tool, server and arguments, then its output
/// (marked `ERROR: ` when it failed), and a blank line.
pub open spec fn tool_results_text(rs: Seq<ToolCallResult>) -> Seq<char>
    decreases rs.len(),
{
    if rs.len() == 0 {
        seq![]
    } else {
        let t = rs.last();
        tool_results_text(rs.drop_last()) + "[MCP Tool: "@ + t.tool_name@ + " on "@
            + t.server_name@ + "]\nArguments: "@ + t.arguments@ + "\n"@ + (if t.is_error {
            "ERROR: "@
        } else {
            seq![]
        }) + t.output@ + "\n\n"@
    }
}

fn push_command_results(v: &mut Vec<char>, rs: &Vec<CommandResult>)
    ensures
        final(v)@ == old(v)@ + command_results_text(rs@),
{
    let ghost start = v@;
    let mut k: usize = 0;
    while k < rs.len()
        invariant
            k <= rs.len(),
            v@ == start + command_results_text(rs@.take(k as int)),
        decreases rs.len() - k,
    {
        assert(rs@.take(k + 1).drop_last() =~= rs@.take(k as int));
        push_str(v, "$ ");
        push_str(v, rs[k].command.as_str());
        push_str(v, "\n");
        push_str(v, rs[k].output.as_str());
        push_str(v, "\n\n");
        k += 1;
    }
    assert(rs@.take(rs.len() as int) =~= rs@);
}

/// The user message that asks to answer from command outputs.
pub fn summary_request(original_prompt: &str, results: &Vec<CommandResult>) -> (r: String)
    ensures
        r@ == "Original question: "@ + original_prompt@ + "\n\nCommand outputs:\n"@
            + command_results_text(results@),
{
    let mut v = chars_of("Original question: ");
    push_str(&mut v, original_prompt);
    push_str(&mut v, "\n\nCommand outputs:\n");
    push_command_results(&mut v, results);
    string_of(&v)
}

/// The user message that asks to answer from tool results and command
/// outputs: the tool results first.
pub fn tool_summary_request(
    original_prompt: &str,
    tool_results: &Vec<ToolCallResult>,
    command_results: &Vec<CommandResult>,
) -> (r: String)
    ensures
        r@ == "Original question: "@ + original_prompt@ + "\n\nResults:\n"@ + tool_results_text(
            tool_results@,
        ) + command_results_text(command_results@),
{
    let mut v = chars_of("Original question: ");
    push_str(&mut v, original_prompt);
    push_str(&mut v, "\n\nResults:\n");
    let ghost start = v@;
    let mut k: usize = 0;
    while k < tool_results.len()
        invariant
            k <= tool_results.len(),
            v@ == start + tool_results_text(tool_results@.take(k as int)),
        decreases tool_results.len() - k,
    {
        assert(tool_results@.take(k + 1).drop_last() =~= tool_results@.take(k as int));
        let t = &tool_results[k];
        push_str(&mut v, "[MCP Tool: ");
        push_str(&mut v, t.tool_name.as_str());
        push_str(&mut v, " on ");
        push_str(&mut v, t.server_name.as_str());
        push_str(&mut v, "]\nArguments: ");
        push_str(&mut v, t.arguments.as_str());
        push_str(&mut v, "\n");
        if t.is_error {
            push_str(&mut v, "ERROR: ");
        }
        push_str(&mut v, t.output.as_str());
        push_str(&mut v, "\n\n");
        proof {
            if !t.is_error {
                assert(v@ =~= start + tool_results_text(tool_results@.take(k + 1)));
            }
        }
        k += 1;
    }
    assert(tool_results@.take(tool_results.len() as int) =~= tool_results@);
    push_command_results(&mut v, command_results);
    string_of(&v)
}

/// Each failed attempt, numbered from 1, with its command and error.
pub open spec fn attempts_text(fs: Seq<FailedAttempt>) -> Seq<char>
    decreases fs.len(),
{
    if fs.len() == 0 {
        seq![]
    } else {
        attempts_text(fs.drop_last()) + "Attempt "@ + dec(fs.len()) + ":\n  Command: "@
            + fs.last().command@ + "\n  Error: "@ + fs.last().error@ + "\n\n"@
    }
}

/// The user message of a retry: the request, the failed attempts, and the
/// ask for another approach.
pub fn retry_request(original_prompt: &str, failed_attempts: &Vec<FailedAttempt>) -> (r: String)
    ensures
        r@ == "Original request: "@ + original_prompt@ + "\n\nFailed attempts:\n"@ + attempts_text(
            failed_attempts@,
        ) + "Provide an alternative approach."@,
{
    let mut v = chars_of("Original request: ");
    push_str(&mut v, original_prompt);
    push_str(&mut v, "\n\nFailed attempts:\n");
    let ghost start = v@;
    let mut k: usize = 0;
    while k < failed_attempts.len()
        invariant
            k <= failed_attempts.len(),
            v@ == start + attempts_text(failed_attempts@.take(k as int)),
        decreases failed_attempts.len() - k,
    {
        assert(failed_attempts@.take(k + 1).drop_last() =~= failed_attempts@.take(k as int));
        let f = &failed_attempts[k];
        push_str(&mut v, "Attempt ");
        push_all(&mut v, &u64_dec((k as u64) + 1));
        push_str(&mut v, ":\n  Command: ");
        push_str(&mut v, f.command.as_str());
        push_str(&mut v, "\n  Error: ");
        push_str(&mut v, f.error.as_str());
        push_str(&mut v, "\n\n");
        k += 1;
    }
    assert(failed_attempts@.take(failed_attempts.len() as int) =~= failed_attempts@);
    push_str(&mut v, "Provide an alternative approach.");
    string_of(&v)
}

// ───────────────────────── replies ─────────────────────────

/// The reply of a Kuratchi chat: the session and the model's text.
#[derive(Debug)]
pub struct KuratchiChatData {
    pub session_id: String,
    pub reply: String,
}

/// A Kuratchi chat session.
#[derive(Debug)]
pub struct KuratchiSessionSummary {
    pub id: String,
    pub title: Option<String>,
    pub model: String,
    pub last_user_message: Option<String>,
    pub last_assistant_message: Option<String>,
    pub message_count: i32,
    pub created_at: String,
    pub updated_at: String,
}

/// A turn of a chat: the session it belongs to and the response shown.
#[derive(Debug)]
pub struct AiChatTurn {
    pub session_id: String,
    pub response: String,
}

/// The data of a Kuratchi envelope: the data of a successful one (else
/// `missing`), or the envelope's error (else `failure`).
fn envelope_data<T>(success: bool, data: Option<T>, error: Option<String>, failure: &str, missing: &str) -> (r: Result<T, String>)
    ensures
        !success ==> (r matches Err(e) && e@ == text_or(error, failure@)),
        success ==> match data {
            Some(d) => r == Ok::<T, String>(d),
            None => r matches Err(e) && e@ == missing@,
        },
{
    if !success {
        return match error {
            Some(e) => Err(e),
            None => Err(String::from_str(failure)),
        };
    }
    match data {
        Some(d) => Ok(d),
        None => Err(String::from_str(missing)),
    }
}

/// The outcome of a Kuratchi chat request from its envelope.
pub fn chat_envelope(success: bool, data: Option<KuratchiChatData>, error: Option<String>) -> (r: Result<KuratchiChatData, String>)
    ensures
        !success ==> (r matches Err(e) && e@ == text_or(error, "Kuratchi AI request failed"@)),
        success ==> match data {
            Some(d) => r == Ok::<KuratchiChatData, String>(d),
            None => r matches Err(e) && e@ == "Kuratchi AI response was missing data"@,
        },
{
    envelope_data(success, data, error, "Kuratchi AI request failed", "Kuratchi AI response was missing data")
}

/// The outcome of creating a Kuratchi session from its envelope.
pub fn created_session_envelope(success: bool, data: Option<KuratchiSessionSummary>, error: Option<String>) -> (r: Result<KuratchiSessionSummary, String>)
    ensures
        !success ==> (r matches Err(e) && e@ == text_or(error, "Create session failed"@)),
        success ==> match data {
            Some(d) => r == Ok::<KuratchiSessionSummary, String>(d),
            None => r matches Err(e) && e@ == "Create session response was missing data"@,
        },
{
    envelope_data(success, data, error, "Create session failed", "Create session response was missing data")
}

/// The sessions from a Kuratchi listing envelope: none when it carries no
/// data.
pub fn session_list_envelope(success: bool, data: Option<Vec<KuratchiSessionSummary>>, error: Option<String>) -> (r: Result<Vec<KuratchiSessionSummary>, String>)
    ensures
        !success ==> (r matches Err(e) && e@ == text_or(error, "List sessions failed"@)),
        success ==> match data {
            Some(d) => r == Ok::<Vec<KuratchiSessionSummary>, String>(d),
            None => r matches Ok(v) && v@.len() == 0,
        },
{
    if !success {
        return match error {
            Some(e) => Err(e),
            None => Err(String::from_str("List sessions failed")),
        };
    }
    match data {
        Some(d) => Ok(d),
        None => Ok(Vec::new()),
    }
}

/// The turn of a chat in a Kuratchi session; an explanation's reply is
/// always marked as an answer.
pub fn chat_turn(data: KuratchiChatData, explanation: bool) -> (r: AiChatTurn)
    ensures
        r.session_id == data.session_id,
        r.response@ == if explanation {
            "ANSWER: "@ + data.reply@
        } else {
            data.reply@
        },
{
    if explanation {
        let mut v = chars_of("ANSWER: ");
        push_str(&mut v, data.reply.as_str());
        AiChatTurn { session_id: data.session_id, response: string_of(&v) }
    } else {
        AiChatTurn { session_id: data.session_id, response: data.reply }
    }
}

/// The text of an OpenAI-compatible reply: its error, else the content of
/// the first choice.
pub fn openai_reply(error: Option<String>, choices: Option<Vec<Option<String>>>) -> (r: Result<String, String>)
    ensures
        match error {
            Some(e) => r matches Err(m) && m@ == "API error: "@ + e@,
            None => match choices {
                Some(cs) if cs@.len() > 0 && cs@[0] is Some => r matches Ok(t) && t == cs@[0]->0,
                _ => r matches Err(m) && m@ == "API returned no content"@,
            },
        },
{
    match error {
        Some(e) => {
            let mut v = chars_of("API error: ");
            push_str(&mut v, e.as_str());
            Err(string_of(&v))
        },
        None => match choices {
            Some(mut cs) => {
                if cs.len() > 0 {
                    match cs.remove(0) {
                        Some(t) => Ok(t),
                        None => Err(String::from_str("API returned no content")),
                    }
                } else {
                    Err(String::from_str("API returned no content"))
                }
            },
            None => Err(String::from_str("API returned no content")),
        },
    }
}

/// The first text among the parts.
pub open spec fn first_text(ps: Seq<Option<String>>) -> Option<String>
    decreases ps.len(),
{
    if ps.len() == 0 {
        None
    } else if ps[0] is Some {
        ps[0]
    } else {
        first_text(ps.drop_first())
    }
}

/// The text of a Gemini reply: its error, else the first text part of its
/// first candidate.
pub fn gemini_reply(error: Option<String>, candidates: Option<Vec<Vec<Option<String>>>>) -> (r: Result<String, String>)
    ensures
        match error {
            Some(e) => r matches Err(m) && m@ == "Gemini error: "@ + e@,
            None => match candidates {
                Some(cs) if cs@.len() > 0 && first_text(cs@[0]@) is Some => r matches Ok(t) && t
                    == first_text(cs@[0]@)->0,
                _ => r matches Err(m) && m@ == "Gemini returned no content"@,
            },
        },
{
    match error {
        Some(e) => {
            let mut v = chars_of("Gemini error: ");
            push_str(&mut v, e.as_str());
            return Err(string_of(&v));
        },
        None => {},
    }
    match candidates {
        Some(mut cs) => {
            if cs.len() == 0 {
                return Err(String::from_str("Gemini returned no content"));
            }
            let ghost c0 = cs@[0]@;
            let mut parts = cs.remove(0);
            while parts.len() > 0
                invariant
                    error is None,
                    candidates matches Some(cs0) && cs0@.len() > 0 && cs0@[0]@ == c0,
                    first_text(c0) == first_text(parts@),
                decreases parts.len(),
            {
                let ghost before = parts@;
                let p = parts.remove(0);
                proof {
                    assert(before.drop_first() =~= parts@);
                }
                match p {
                    Some(t) => {
                        return Ok(t);
                    },
                    None => {},
                }
            }
            Err(String::from_str("Gemini returned no content"))
        },
        None => Err(String::from_str("Gemini returned no content")),
    }
}

/// A generated image.
#[derive(Debug)]
pub struct ImageGenerationResult {
    pub image_data: String,
    pub mime_type: String,
    pub text: String,
}

/// A part of a Gemini reply: its text and its inline data (MIME type and
/// base64 data), where present.
#[derive(Debug)]
pub struct GeminiReplyPart {
    pub text: Option<String>,
    pub inline_data: Option<(String, String)>,
}

/// The last inline data among the parts.
pub open spec fn last_inline(ps: Seq<GeminiReplyPart>) -> Option<(String, String)>
    decreases ps.len(),
{
    if ps.len() == 0 {
        None
    } else if ps.last().inline_data is Some {
        ps.last().inline_data
    } else {
        last_inline(ps.drop_last())
    }
}

/// The texts among the parts, in order.
pub open spec fn part_texts(ps: Seq<GeminiReplyPart>) -> Seq<Seq<char>>
    decreases ps.len(),
{
    if ps.len() == 0 {
        seq![]
    } else {
        match ps.last().text {
            Some(t) => part_texts(ps.drop_last()).push(t@),
            None => part_texts(ps.drop_last()),
        }
    }
}

/// The generated image of a Gemini reply: its error; else, from the first
/// candidate, the last inline image (its MIME type) and the texts joined by
/// line breaks; an error when the reply holds no image data.
pub fn gemini_image(error: Option<String>, candidates: Option<Vec<Vec<GeminiReplyPart>>>) -> (r: Result<ImageGenerationResult, String>)
    ensures
        match error {
            Some(e) => r matches Err(m) && m@ == "Gemini error: "@ + e@,
            None => match candidates {
                Some(cs) if cs@.len() > 0 => {
                    let ps = cs@[0]@;
                    match last_inline(ps) {
                        Some(d) if d.1@.len() > 0 => r matches Ok(img) && img.image_data@ == d.1@
                            && img.mime_type@ == d.0@ && img.text@ == join(part_texts(ps), "\n"@),
                        _ => r matches Err(m) && m@
                            == "Gemini did not return an image. Try rephrasing your prompt."@,
                    }
                },
                _ => r matches Err(m) && m@ == "Gemini returned no content"@,
            },
        },
{
    match error {
        Some(e) => {
            let mut v = chars_of("Gemini error: ");
            push_str(&mut v, e.as_str());
            return Err(string_of(&v));
        },
        None => {},
    }
    let mut cs = match candidates {
        Some(cs) => cs,
        None => {
            return Err(String::from_str("Gemini returned no content"));
        },
    };
    if cs.len() == 0 {
        return Err(String::from_str("Gemini returned no content"));
    }
    let parts = cs.remove(0);
    let mut image_data = String::new();
    let mut mime_type = String::from_str("image/png");
    let mut texts: Vec<Vec<char>> = Vec::new();
    let mut k: usize = 0;
    while k < parts.len()
        invariant
            k <= parts.len(),
            views(texts@) == part_texts(parts@.take(k as int)),
            match last_inline(parts@.take(k as int)) {
                Some(d) => image_data@ == d.1@ && mime_type@ == d.0@,
                None => image_data@.len() == 0,
            },
        decreases parts.len() - k,
    {
        assert(parts@.take(k + 1).drop_last() =~= parts@.take(k as int));
        let p = &parts[k];
        match &p.inline_data {
            Some(d) => {
                image_data = d.1.clone();
                mime_type = d.0.clone();
            },
            None => {},
        }
        match &p.text {
            Some(t) => {
                let ghost before = texts@;
                texts.push(chars_of_string(t));
                assert(views(texts@) =~= views(before).push(t@));
            },
            None => {},
        }
        k += 1;
    }
    assert(parts@.take(parts.len() as int) =~= parts@);
    if image_data.unicode_len() == 0 {
        return Err(String::from_str("Gemini did not return an image. Try rephrasing your prompt."));
    }
    let text = string_of(&join_chars(&texts, "\n"));
    Ok(ImageGenerationResult { image_data, mime_type, text })
}

/// The endpoints the assistant calls.
#[derive(PartialEq, Eq, Structural, Clone, Copy)]
pub enum Endpoint {
    KuratchiChat,
    CreateSession,
    ListSessions,
    DeleteSession,
    OpenAiChat,
    GeminiChat,
    GeminiImage,
}

/// What the error of a request that got no reply begins with.
pub open spec fn request_failure_label(e: Endpoint) -> Seq<char> {
    match e {
        Endpoint::KuratchiChat => "Kuratchi request failed: "@,
        Endpoint::CreateSession => "Create session request failed: "@,
        Endpoint::ListSessions => "List sessions request failed: "@,
        Endpoint::DeleteSession => "Delete session request failed: "@,
        Endpoint::OpenAiChat => "OpenAI-compatible request failed: "@,
        Endpoint::GeminiChat => "Gemini request failed: "@,
        Endpoint::GeminiImage => "Gemini image request failed: "@,
    }
}

/// What the error of a reply with a failed status begins with.
pub open spec fn status_failure_label(e: Endpoint) -> Seq<char> {
    match e {
        Endpoint::KuratchiChat => "Kuratchi API error "@,
        Endpoint::CreateSession => "Create session error "@,
        Endpoint::ListSessions => "List sessions error "@,
        Endpoint::DeleteSession => "Delete session error "@,
        Endpoint::OpenAiChat => "API error "@,
        Endpoint::GeminiChat => "Gemini API error "@,
        Endpoint::GeminiImage => "Gemini API error "@,
    }
}

/// What the error of a reply that could not be read begins with.
pub open spec fn parse_failure_label(e: Endpoint) -> Seq<char> {
    match e {
        Endpoint::KuratchiChat => "Failed to parse Kuratchi response: "@,
        Endpoint::CreateSession => "Failed to parse create session response: "@,
        Endpoint::ListSessions => "Failed to parse sessions response: "@,
        Endpoint::DeleteSession => "Failed to parse response: "@,
        Endpoint::OpenAiChat => "Failed to parse response: "@,
        Endpoint::GeminiChat => "Failed to parse Gemini response: "@,
        Endpoint::GeminiImage => "Failed to parse Gemini response: "@,
    }
}

/// The error of a request to `endpoint` that got no reply.
pub fn request_failure(endpoint: Endpoint, error: &str) -> (r: String)
    ensures
        r@ == request_failure_label(endpoint) + error@,
{
    let mut v = match endpoint {
        Endpoint::KuratchiChat => chars_of("Kuratchi request failed: "),
        Endpoint::CreateSession => chars_of("Create session request failed: "),
        Endpoint::ListSessions => chars_of("List sessions request failed: "),
        Endpoint::DeleteSession => chars_of("Delete session request failed: "),
        Endpoint::OpenAiChat => chars_of("OpenAI-compatible request failed: "),
        Endpoint::GeminiChat => chars_of("Gemini request failed: "),
        Endpoint::GeminiImage => chars_of("Gemini image request failed: "),
    };
    push_str(&mut v, error);
    string_of(&v)
}

/// The error of a reply from `endpoint` with a failed status.
pub fn status_failure(endpoint: Endpoint, status: &str, body: &str) -> (r: String)
    ensures
        r@ == status_failure_label(endpoint) + status@ + ": "@ + body@,
{
    let mut v = match endpoint {
        Endpoint::KuratchiChat => chars_of("Kuratchi API error "),
        Endpoint::CreateSession => chars_of("Create session error "),
        Endpoint::ListSessions => chars_of("List sessions error "),
        Endpoint::DeleteSession => chars_of("Delete session error "),
        Endpoint::OpenAiChat => chars_of("API error "),
        Endpoint::GeminiChat => chars_of("Gemini API error "),
        Endpoint::GeminiImage => chars_of("Gemini API error "),
    };
    push_str(&mut v, status);
    push_str(&mut v, ": ");
    push_str(&mut v, body);
    string_of(&v)
}

/// The error of a reply from `endpoint` that could not be read.
pub fn parse_failure(endpoint: Endpoint, error: &str) -> (r: String)
    ensures
        r@ == parse_failure_label(endpoint) + error@,
{
    let mut v = match endpoint {
        Endpoint::KuratchiChat => chars_of("Failed to parse Kuratchi response: "),
        Endpoint::CreateSession => chars_of("Failed to parse create session response: "),
        Endpoint::ListSessions => chars_of("Failed to parse sessions response: "),
        Endpoint::DeleteSession => chars_of("Failed to parse response: "),
        Endpoint::OpenAiChat => chars_of("Failed to parse response: "),
        Endpoint::GeminiChat => chars_of("Failed to parse Gemini response: "),
        Endpoint::GeminiImage => chars_of("Failed to parse Gemini response: "),
    };
    push_str(&mut v, error);
    string_of(&v)
}

/// Image attachments cannot go to a Kuratchi session.
pub fn session_attachment_check(attachments: &Vec<AiAttachment>) -> (r: Result<(), String>)
    ensures
        r is Err <==> images(attachments@).len() > 0,
        r matches Err(e) ==> e@ == "Kuratchi AI sessions do not support image attachments yet"@,
{
    let has = has_image_attachments(attachments);
    proof {
        lemma_images_empty(attachments@);
    }
    if has {
        Err(String::from_str("Kuratchi AI sessions do not support image attachments yet"))
    } else {
        Ok(())
    }
}

proof fn lemma_images_empty(atts: Seq<AiAttachment>)
    ensures
        images(atts).len() > 0 <==> exists|i: int| 0 <= i < atts.len() && is_image(#[trigger] atts[i]),
    decreases atts.len(),
{
    if atts.len() > 0 {
        lemma_images_empty(atts.drop_last());
        assert(atts =~= atts.drop_last().push(atts.last()));
        atts.drop_last().lemma_filter_push(atts.last(), |a: AiAttachment| is_image(a));
        if exists|i: int| 0 <= i < atts.len() && is_image(#[trigger] atts[i]) {
            let i = choose|i: int| 0 <= i < atts.len() && is_image(#[trigger] atts[i]);
            if i < atts.len() - 1 {
                assert(atts.drop_last()[i] == atts[i]);
            }
        }
        if exists|i: int| 0 <= i < atts.drop_last().len() && is_image(#[trigger] atts.drop_last()[i]) {
            let i = choose|i: int| 0 <= i < atts.drop_last().len() && is_image(#[trigger] atts.drop_last()[i]);
            assert(atts[i] == atts.drop_last()[i]);
        }
    }
}

// ───────────────────────── code edits ─────────────────────────

/// The outcome of a code edit.
#[derive(Debug)]
pub struct CodeEditResult {
    pub file_name: String,
    pub file_path: Option<String>,
    pub original: String,
    pub modified: String,
    pub diff_lines: Vec<DiffLine>,
    pub summary: String,
}

/// The outcome of an edit of `original` into `modified` made on
/// `instruction`: both texts, their line diff and the summary.
pub fn code_edit_result(
    file_name: String,
    file_path: Option<String>,
    original: String,
    modified: String,
    instruction: &str,
) -> (r: CodeEditResult)
    requires
        lines(original@).len() <= i32::MAX,
        lines(modified@).len() <= i32::MAX,
        line_tokens(original@).len() <= i32::MAX,
        line_tokens(modified@).len() <= i32::MAX,
    ensures
        r.file_name == file_name,
        r.file_path == file_path,
        r.original == original,
        r.modified == modified,
        r.diff_lines@.len() == line_diff(original@, modified@).len(),
        forall|i: int|
            0 <= i < r.diff_lines@.len() ==> numbered(
                #[trigger] r.diff_lines@[i],
                line_diff(original@, modified@),
                i,
            ),
        r.summary@ == edit_summary(
            instruction@,
            change_count(line_diff(original@, modified@), ChangeKind::Insert),
            change_count(line_diff(original@, modified@), ChangeKind::Delete),
            lines(modified@).len() - lines(original@).len(),
        ),
{
    let diff_lines = generate_diff(original.as_str(), modified.as_str());
    let summary = generate_edit_summary(original.as_str(), modified.as_str(), instruction);
    CodeEditResult { file_name, file_path, original, modified, diff_lines, summary }
}

} // verus!
