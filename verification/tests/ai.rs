use drover::ai::{
    build_command_prompt, build_explanation_content, build_explanation_prompt, build_kuratchi_url,
    build_retry_prompt, build_session_prompt, build_session_user_content, build_system_prompt,
    build_tool_example, build_tool_instructions, build_tools_block, build_tools_prompt,
    chat_envelope, chat_turn, clean_session_title, code_edit_result, created_session_envelope,
    default_kuratchi_model, edit_prompt, edit_user_content, environment_context, finish_reply,
    gemini_image, gemini_reply, gemini_url, gemini_user_parts, has_image_attachments,
    has_text_attachments, has_tools, is_explanation_request, kuratchi_base_url,
    message_to_kuratchi, messages_to_kuratchi, openai_chat_url, openai_reply,
    openai_user_content, parse_failure, prompt_with_text_files, request_failure, retry_request,
    session_attachment_check, session_list_envelope, session_path, status_failure,
    summarize_prompt, summarize_tools_prompt, summary_request, title_prompt,
    tool_summary_request, AiAttachment, AiMessage, CommandResult, ContentPart, Endpoint,
    FailedAttempt, GeminiPart, GeminiReplyPart, KuratchiChatData, KuratchiSessionSummary,
    MessageContent, PromptStyle, ServerTools, ToolCallResult,
};
use drover::mcp::{McpToolDef, SchemaProperty, ToolSchema};

fn att(name: &str, content: &str, mime: &str) -> AiAttachment {
    AiAttachment { name: name.into(), content: content.into(), mime_type: mime.into() }
}

fn tools() -> Vec<ServerTools> {
    let schema = ToolSchema {
        properties: Some(vec![
            SchemaProperty { name: "q".into(), kind: Some("string".into()), description: Some("Query".into()) },
            SchemaProperty { name: "limit".into(), kind: None, description: Some("".into()) },
            SchemaProperty { name: "page".into(), kind: Some("integer".into()), description: None },
        ]),
        required: vec!["q".into()],
    };
    vec![
        ("empty".into(), "http://e".into(), vec![]),
        (
            "srv".into(),
            "http://s".into(),
            vec![
                McpToolDef { name: "search".into(), description: Some("Find things".into()), input_schema: Some(schema) },
                McpToolDef { name: "ping".into(), description: None, input_schema: None },
            ],
        ),
    ]
}

#[test]
fn kuratchi_urls() {
    assert_eq!(kuratchi_base_url(""), "https://kuratchi.cloud");
    assert_eq!(kuratchi_base_url("   "), "https://kuratchi.cloud");
    assert_eq!(kuratchi_base_url("  https://x.io//  "), "https://x.io");
    assert_eq!(build_kuratchi_url("https://x.io/", "/ai/chat"), "https://x.io/api/v1/ai/chat");
    assert_eq!(build_kuratchi_url("", "/ai/sessions"), "https://kuratchi.cloud/api/v1/ai/sessions");
    assert_eq!(session_path("abc"), "/ai/sessions/abc");
    assert_eq!(default_kuratchi_model(), "@cf/meta/llama-4-scout-17b-16e-instruct");
}

#[test]
fn other_urls() {
    assert_eq!(openai_chat_url("http://localhost:11434/v1/"), "http://localhost:11434/v1/chat/completions");
    assert_eq!(
        gemini_url("gemini-2.0-flash", "KEY"),
        "https://generativelanguage.googleapis.com/v1beta/models/gemini-2.0-flash:generateContent?key=KEY"
    );
}

#[test]
fn messages_for_kuratchi() {
    let m = AiMessage { role: "user".into(), content: MessageContent::Text("hi".into()) };
    let k = message_to_kuratchi(m).unwrap();
    assert_eq!((k.role.as_str(), k.content.as_str()), ("user", "hi"));
    let img = AiMessage { role: "user".into(), content: MessageContent::Multimodal(vec![ContentPart::Text("x".into())]) };
    assert_eq!(
        message_to_kuratchi(img).unwrap_err(),
        "Image attachments are not supported with Kuratchi AI sessions yet"
    );
    let all = vec![
        AiMessage { role: "system".into(), content: MessageContent::Text("s".into()) },
        AiMessage { role: "user".into(), content: MessageContent::Text("u".into()) },
    ];
    let v = messages_to_kuratchi(all).unwrap();
    assert_eq!(v.len(), 2);
    assert_eq!(v[0].role, "system");
    assert_eq!(v[1].content, "u");
    let bad = vec![
        AiMessage { role: "system".into(), content: MessageContent::Text("s".into()) },
        AiMessage { role: "user".into(), content: MessageContent::Multimodal(vec![]) },
    ];
    assert!(messages_to_kuratchi(bad).is_err());
}

#[test]
fn environment_block() {
    assert_eq!(environment_context(&None, &None, &None, &None), "");
    assert_eq!(
        environment_context(&Some("/w".into()), &None, &Some("zsh".into()), &Some("me@h".into())),
        "\n\nCurrent environment:\nCurrent directory: /w\nShell: zsh\nConnected via SSH to: me@h"
    );
    assert_eq!(
        environment_context(&None, &Some("Linux".into()), &None, &None),
        "\n\nCurrent environment:\nOS: Linux"
    );
}

#[test]
fn attachment_kinds() {
    let a = vec![att("a.png", "AAA", "image/png"), att("d.pdf", "", "application/pdf")];
    assert!(has_image_attachments(&a));
    assert!(!has_text_attachments(&a));
    let b = vec![att("a.rs", "fn main(){}", "text/x-rust")];
    assert!(has_text_attachments(&b));
    assert!(!has_image_attachments(&b));
    assert!(session_attachment_check(&b).is_ok());
    assert_eq!(
        session_attachment_check(&a).unwrap_err(),
        "Kuratchi AI sessions do not support image attachments yet"
    );
}

#[test]
fn explanation_requests() {
    assert!(is_explanation_request("Please EXPLAIN this", false));
    assert!(is_explanation_request("What Does this do?", false));
    assert!(!is_explanation_request("I want to understand x", false));
    assert!(is_explanation_request("I want to UNDERSTAND x", true));
    assert!(!is_explanation_request("list files", true));
}

#[test]
fn answer_prefix() {
    assert_eq!(finish_reply(true, "hi".into()), "ANSWER: hi");
    assert_eq!(finish_reply(true, "ANSWER: hi".into()), "ANSWER: hi");
    assert_eq!(finish_reply(false, "ls -la".into()), "ls -la");
}

#[test]
fn session_titles() {
    assert_eq!(clean_session_title("  \"My Title\" \n"), "My Title");
    assert_eq!(clean_session_title("Plain"), "Plain");
}

#[test]
fn tools_prompt_lists_servers_tools_and_parameters() {
    let p = build_tools_prompt(&tools());
    assert_eq!(
        p,
        "Available MCP tools:\n\n[empty]\n\n[srv]\n  - search: Find things\n      q: string (required)\n        Query\n      limit: any\n      page: integer\n  - ping\n\n"
    );
}

#[test]
fn tool_example_uses_first_offered_tool() {
    assert_eq!(
        build_tool_example(&tools()),
        "\nExample:\nTOOL_CALL: srv | search | {\"q\": \"...\", \"limit\": \"...\"}\n"
    );
    let none: Vec<ServerTools> = vec![("e".into(), "u".into(), vec![])];
    assert_eq!(build_tool_example(&none), "");
    assert!(!has_tools(&none));
    assert!(has_tools(&tools()));
    assert_eq!(build_tools_block(&none), "");
    assert!(build_tools_block(&tools()).starts_with("\n\nAvailable MCP tools:"));
    let bare: Vec<ServerTools> =
        vec![("s".into(), "u".into(), vec![McpToolDef { name: "t".into(), description: None, input_schema: None }])];
    assert_eq!(build_tool_example(&bare), "\nExample:\nTOOL_CALL: s | t | {}\n");
}

#[test]
fn tool_instructions_follow_the_style() {
    let t = tools();
    let o = build_tool_instructions(&t, PromptStyle::OpenAi);
    assert!(o.starts_with("\n\nTo use an MCP tool, output a line starting with \"TOOL_CALL:\""));
    assert!(o.contains("TOOL_CALL: server_name | tool_name | {\"param\": \"value\"}\n\nExample:"));
    assert!(o.ends_with("- Do NOT explain tool calls — just output them."));
    let g = build_tool_instructions(&t, PromptStyle::Gemini);
    assert!(g.starts_with("\n\nTo use an MCP tool, you MUST output a line"));
    let k = build_tool_instructions(&t, PromptStyle::Kuratchi);
    assert!(k.contains("Never output a tool name as a bare shell command."));
    let none: Vec<ServerTools> = vec![];
    assert_eq!(build_tool_instructions(&none, PromptStyle::OpenAi), "");
}

#[test]
fn system_prompts() {
    assert_eq!(build_system_prompt(true, "c", "t", "i"), build_explanation_prompt());
    let p = build_system_prompt(false, "\n\nCurrent environment:\nOS: Linux", "", "");
    assert!(p.starts_with("You are an expert terminal assistant in Drover."));
    assert!(p.ends_with("ANSWER: <your response>\n\nCurrent environment:\nOS: Linux"));
    let s = build_session_prompt("", "[T]", "[I]");
    assert!(s.ends_with("respond with: ERROR: <reason>[T][I]"));
    let c = build_command_prompt("", true);
    assert!(c.ends_with("answer about the remote server."));
    let local = build_command_prompt("", false);
    assert!(local.ends_with("curl 'https://wttr.in/Houston?format=j1'"));
    assert!(build_retry_prompt("X").ends_with("already failed.X"));
    assert!(edit_prompt().starts_with("You are an expert code editor."));
    assert!(summarize_prompt().starts_with("You are a friendly, knowledgeable assistant"));
    assert!(summarize_tools_prompt().contains("Do NOT repeat raw JSON"));
    assert!(title_prompt().starts_with("Generate a short descriptive chat title"));
}

#[test]
fn user_messages() {
    let a = vec![
        att("a.rs", "fn main(){}", "text/x-rust"),
        att("pic.png", "AAA", "image/png"),
        att("doc.pdf", "%PDF", "application/pdf"),
    ];
    assert_eq!(prompt_with_text_files("Q", &a), "Q\n\n--- a.rs ---\nfn main(){}");
    assert_eq!(
        build_session_user_content("Q", &a),
        "Q\n\nAttached files:\n\n--- a.rs ---\nfn main(){}\n\n--- pic.png ---\n\n--- doc.pdf ---\n[PDF file - not supported]\n"
    );
    assert_eq!(build_session_user_content("Q", &vec![]), "Q");
    assert_eq!(
        build_explanation_content("Q", &a),
        "Q\n\nAttached files:\n\n--- a.rs ---\nfn main(){}\n"
    );
    assert_eq!(
        edit_user_content("x.rs", "code", "do it"),
        "File: x.rs\n\nOriginal code:\ncode\n\nInstruction: do it"
    );
}

#[test]
fn openai_and_gemini_user_content() {
    let a = vec![att("a.txt", "T", "text/plain"), att("pic.png", "AAA", "image/png")];
    match openai_user_content("Q", &a) {
        MessageContent::Multimodal(parts) => {
            assert_eq!(parts.len(), 2);
            assert!(matches!(&parts[0], ContentPart::Text(t) if t == "Q\n\n--- a.txt ---\nT"));
            assert!(matches!(&parts[1], ContentPart::ImageUrl(u) if u == "data:image/png;base64,AAA"));
        },
        _ => panic!("expected parts"),
    }
    match openai_user_content("Q", &vec![att("a.txt", "T", "text/plain")]) {
        MessageContent::Text(t) => assert_eq!(t, "Q\n\n--- a.txt ---\nT"),
        _ => panic!("expected text"),
    }
    let g = gemini_user_parts("Q", &a);
    assert_eq!(g.len(), 2);
    assert!(matches!(&g[1], GeminiPart::InlineData { mime_type, data } if mime_type == "image/png" && data == "AAA"));
}

#[test]
fn result_blocks() {
    let crs = vec![CommandResult { command: "ls".into(), output: "a b".into() }];
    assert_eq!(summary_request("what?", &crs), "Original question: what?\n\nCommand outputs:\n$ ls\na b\n\n");
    let trs = vec![ToolCallResult {
        server_name: "gh".into(),
        tool_name: "issues".into(),
        arguments: "{}".into(),
        output: "none".into(),
        is_error: true,
    }];
    assert_eq!(
        tool_summary_request("q", &trs, &crs),
        "Original question: q\n\nResults:\n[MCP Tool: issues on gh]\nArguments: {}\nERROR: none\n\n$ ls\na b\n\n"
    );
    let fs = vec![
        FailedAttempt { command: "ls".into(), error: "nope".into() },
        FailedAttempt { command: "dir".into(), error: "no".into() },
    ];
    assert_eq!(
        retry_request("list", &fs),
        "Original request: list\n\nFailed attempts:\nAttempt 1:\n  Command: ls\n  Error: nope\n\nAttempt 2:\n  Command: dir\n  Error: no\n\nProvide an alternative approach."
    );
}

fn session(id: &str) -> KuratchiSessionSummary {
    KuratchiSessionSummary {
        id: id.into(),
        title: None,
        model: "m".into(),
        last_user_message: None,
        last_assistant_message: None,
        message_count: 0,
        created_at: "c".into(),
        updated_at: "u".into(),
    }
}

#[test]
fn kuratchi_envelopes() {
    let d = KuratchiChatData { session_id: "s".into(), reply: "r".into() };
    assert_eq!(chat_envelope(true, Some(d), None).unwrap().reply, "r");
    assert_eq!(chat_envelope(true, None, None).unwrap_err(), "Kuratchi AI response was missing data");
    assert_eq!(chat_envelope(false, None, None).unwrap_err(), "Kuratchi AI request failed");
    assert_eq!(chat_envelope(false, None, Some("quota".into())).unwrap_err(), "quota");
    assert_eq!(created_session_envelope(true, Some(session("x")), None).unwrap().id, "x");
    assert_eq!(created_session_envelope(false, None, None).unwrap_err(), "Create session failed");
    assert_eq!(
        created_session_envelope(true, None, None).unwrap_err(),
        "Create session response was missing data"
    );
    assert!(session_list_envelope(true, None, None).unwrap().is_empty());
    assert_eq!(session_list_envelope(true, Some(vec![session("a")]), None).unwrap().len(), 1);
    assert_eq!(session_list_envelope(false, None, None).unwrap_err(), "List sessions failed");
}

#[test]
fn chat_turns() {
    let t = chat_turn(KuratchiChatData { session_id: "s".into(), reply: "because".into() }, true);
    assert_eq!(t.response, "ANSWER: because");
    let u = chat_turn(KuratchiChatData { session_id: "s".into(), reply: "ls".into() }, false);
    assert_eq!((u.session_id.as_str(), u.response.as_str()), ("s", "ls"));
}

#[test]
fn openai_and_gemini_replies() {
    assert_eq!(openai_reply(Some("bad key".into()), None).unwrap_err(), "API error: bad key");
    assert_eq!(openai_reply(None, Some(vec![Some("x".into()), Some("y".into())])).unwrap(), "x");
    assert_eq!(openai_reply(None, Some(vec![None])).unwrap_err(), "API returned no content");
    assert_eq!(openai_reply(None, None).unwrap_err(), "API returned no content");
    assert_eq!(gemini_reply(None, Some(vec![vec![None, Some("t".into())]])).unwrap(), "t");
    assert_eq!(gemini_reply(Some("e".into()), None).unwrap_err(), "Gemini error: e");
    assert_eq!(gemini_reply(None, Some(vec![])).unwrap_err(), "Gemini returned no content");
    assert_eq!(gemini_reply(None, Some(vec![vec![None]])).unwrap_err(), "Gemini returned no content");
}

#[test]
fn gemini_images() {
    let parts = vec![
        GeminiReplyPart { text: Some("hello".into()), inline_data: None },
        GeminiReplyPart { text: None, inline_data: Some(("image/png".into(), "AAA".into())) },
        GeminiReplyPart { text: Some("world".into()), inline_data: Some(("image/jpeg".into(), "BBB".into())) },
    ];
    let img = gemini_image(None, Some(vec![parts])).unwrap();
    assert_eq!(img.image_data, "BBB");
    assert_eq!(img.mime_type, "image/jpeg");
    assert_eq!(img.text, "hello\nworld");
    let no_image = vec![GeminiReplyPart { text: Some("sorry".into()), inline_data: None }];
    assert_eq!(
        gemini_image(None, Some(vec![no_image])).unwrap_err(),
        "Gemini did not return an image. Try rephrasing your prompt."
    );
    assert_eq!(gemini_image(None, None).unwrap_err(), "Gemini returned no content");
    assert_eq!(gemini_image(Some("x".into()), None).unwrap_err(), "Gemini error: x");
}

#[test]
fn endpoint_errors() {
    assert_eq!(request_failure(Endpoint::KuratchiChat, "timeout"), "Kuratchi request failed: timeout");
    assert_eq!(
        status_failure(Endpoint::OpenAiChat, "401 Unauthorized", "no"),
        "API error 401 Unauthorized: no"
    );
    assert_eq!(parse_failure(Endpoint::ListSessions, "eof"), "Failed to parse sessions response: eof");
    assert_eq!(request_failure(Endpoint::GeminiImage, "x"), "Gemini image request failed: x");
    assert_eq!(status_failure(Endpoint::DeleteSession, "404 Not Found", ""), "Delete session error 404 Not Found: ");
}

#[test]
fn code_edit_results() {
    let r = code_edit_result("a.txt".into(), Some("/w/a.txt".into()), "x\n".into(), "x\ny\n".into(), "add y");
    assert_eq!(r.diff_lines.len(), 2);
    assert_eq!(r.diff_lines[1].tag, "insert");
    assert_eq!(r.summary, "Modified file based on: \"add y\"\n1 insertions, 0 deletions (+1 lines)");
    assert_eq!(r.file_path.as_deref(), Some("/w/a.txt"));
}
