use chatcore::error::Error;
use chatcore::file_handler::{cache_entry, determine_file_type, FileType, ImageMime};
use chatcore::interaction::{Content, History, IdGen, Interaction};
use chatcore::settings::{provider_order_list, Settings};
use chatcore::textfmt::usize_to_string;
use chatcore::tools::extract::{extract_route, ExtractKind};
use chatcore::tools::extract::extract_msg::{email_markdown, format_addresses, EmailBody};
use chatcore::tools::make_file::{make_file, MakeFileArgs};
use chatcore::tools::notes::note_entry;
use chatcore::tools::roll_dice::{execute, RollDiceArgs};
use chatcore::chat::ChatProcessor;
use chatcore::search::find_by_globs;
use chatcore::tools::ask_files::{ask_file_messages, list_user_selected};
use chatcore::tools::check_online::{check_online_messages, require_api_key};
use chatcore::tools::load_file::load_file_payload;
use chatcore::tools::{check_limit, route_tool, ToolPayload, ToolRoute};

#[test]
fn usize_to_string_exact() {
    assert_eq!(usize_to_string(0), "0");
    assert_eq!(usize_to_string(7), "7");
    assert_eq!(usize_to_string(90210), "90210");
}

#[test]
fn error_messages_exact() {
    assert_eq!(Error::Tool("boom".to_string()).message(), "Tool Error: boom");
    assert_eq!(Error::Conflict("x".to_string()).message(), "State Conflict: x");
    assert_eq!(
        Error::Limit { item: "files".to_string(), requested: 1200, limit: 1000 }.message(),
        "Limit exceeded. Requested 1200 of files. Limited to 1000"
    );
    assert_eq!(Error::Other.message(), "Unknown Error");
}

#[test]
fn finalize_serializes_ok_and_err() {
    let mut gen = IdGen::new();
    let ok = ToolPayload::from(Ok("[1,2]".to_string()));
    match ok.finalize(&mut gen, "c1".to_string()) {
        Interaction::ToolResult { tool_call_id, response, .. } => {
            assert_eq!(tool_call_id, "c1");
            assert_eq!(response, "[1,2]");
        }
        _ => panic!("expected a tool result"),
    }
    let err = ToolPayload::from(Err(Error::Tool("went wrong".to_string())));
    match err.finalize(&mut gen, "c2".to_string()) {
        Interaction::ToolResult { response, .. } => {
            assert_eq!(response, "Tool Error: went wrong");
        }
        _ => panic!("expected a tool result"),
    }
}

#[test]
fn routing_knows_every_tool() {
    assert_eq!(route_tool("ls"), ToolRoute::Ls);
    assert_eq!(route_tool("roll_dice"), ToolRoute::RollDice);
    assert_eq!(route_tool("find"), ToolRoute::Find);
    assert_eq!(route_tool("read_notes"), ToolRoute::ReadNotes);
    assert_eq!(route_tool("append_notes"), ToolRoute::AppendNotes);
    assert_eq!(route_tool("ask_files"), ToolRoute::AskFiles);
    assert_eq!(route_tool("extract"), ToolRoute::Extract);
    assert_eq!(route_tool("load_file"), ToolRoute::LoadFile);
    assert_eq!(route_tool("make_file"), ToolRoute::MakeFile);
    assert_eq!(route_tool("check_online"), ToolRoute::CheckOnline);
    assert_eq!(route_tool("no_such"), ToolRoute::Unknown);
}

#[test]
fn check_limit_boundaries() {
    assert!(check_limit(10, 10).is_ok());
    match check_limit(11, 10) {
        Err(Error::Tool(_)) => {}
        _ => panic!("expected a tool error"),
    }
}

#[test]
fn roll_dice_in_range() {
    for _ in 0..32 {
        let v = execute(RollDiceArgs {}).unwrap();
        assert!((1..=6).contains(&v));
    }
}

#[test]
fn make_file_encodes_content() {
    let payload = make_file(MakeFileArgs { content: "hello".to_string() });
    assert_eq!(payload.response.unwrap(), "\"Created file\"");
    assert_eq!(payload.for_user.len(), 1);
    match &payload.for_user[0] {
        Content::File { file } => {
            assert_eq!(file.filename, "file.txt");
            assert_eq!(file.file_data, "data:text/plain;base64,aGVsbG8=");
        }
        _ => panic!("expected a file"),
    }
}

#[test]
fn note_entry_exact() {
    assert_eq!(
        note_entry("2024-01-02 03:04:05", "learned a thing"),
        "<note date=\"2024-01-02 03:04:05\">\nlearned a thing\n</note>\n\n"
    );
}

#[test]
fn determine_file_type_by_extension() {
    assert_eq!(determine_file_type("a/b/report.PDF"), FileType::Pdf);
    assert_eq!(determine_file_type("photo.jpeg"), FileType::Image(ImageMime::Jpeg));
    assert_eq!(determine_file_type("photo.png"), FileType::Image(ImageMime::Png));
    assert_eq!(determine_file_type("deck.pptx"), FileType::Pptx);
    assert_eq!(determine_file_type("sheet.xlsx"), FileType::Xlsx);
    assert_eq!(determine_file_type("letter.docx"), FileType::Docx);
    assert_eq!(determine_file_type("readme.md"), FileType::Text);
    assert_eq!(determine_file_type("archive.zip"), FileType::Unsupported);
    assert_eq!(determine_file_type("no_extension"), FileType::Unsupported);
    assert_eq!(determine_file_type("dir.d/file"), FileType::Unsupported);
    // A hidden file's leading dot opens no extension.
    assert_eq!(determine_file_type(".pdf"), FileType::Unsupported);
    assert_eq!(determine_file_type("dir/.pdf"), FileType::Unsupported);
    assert_eq!(determine_file_type(".hidden.pdf"), FileType::Pdf);
}

#[test]
fn cache_entry_names_by_digest() {
    // SHA-256 of the empty input, in hexadecimal.
    let (sub, name) = cache_entry(&[], "pdf");
    assert_eq!(sub, "e3");
    assert_eq!(name, "b0c44298fc1c149afbf4c8996fb92427ae41e4649b934ca495991b7852b855.pdf");
}

#[test]
fn extract_route_by_extension() {
    let (kind, folder) = extract_route("mail/in.ZIP").unwrap();
    assert_eq!(kind, ExtractKind::Zip);
    assert_eq!(folder, "mail/in.ZIP.extracted");
    assert_eq!(extract_route("m.eml").unwrap().0, ExtractKind::Eml);
    assert_eq!(extract_route("m.msg").unwrap().0, ExtractKind::Msg);
    match extract_route("m.txt") {
        Err(Error::Tool(m)) => assert_eq!(m, "Unsupported file type"),
        _ => panic!("expected a tool error"),
    }
    match extract_route("plain") {
        Err(Error::Tool(m)) => assert_eq!(m, "Extraction error, corrupted filename"),
        _ => panic!("expected a tool error"),
    }
    match extract_route(".zip") {
        Err(Error::Tool(m)) => assert_eq!(m, "Extraction error, corrupted filename"),
        _ => panic!("expected a tool error"),
    }
}

#[test]
fn format_addresses_exact() {
    let addrs = vec![
        ("Ada".to_string(), "ada@example.com".to_string()),
        ("".to_string(), "bare@example.com".to_string()),
        ("same@example.com".to_string(), "same@example.com".to_string()),
    ];
    assert_eq!(
        format_addresses(&addrs),
        "Ada <ada@example.com>, bare@example.com, same@example.com"
    );
}

#[test]
fn email_markdown_headers_and_body() {
    let md = email_markdown(
        &Some("Ada <ada@example.com>".to_string()),
        &None,
        &Some("bob@example.com".to_string()),
        &None,
        &None,
        &Some("Hello".to_string()),
        Some(EmailBody::Html("line one<!-- hidden -->".to_string())),
    );
    assert!(md.starts_with("From: Ada <ada@example.com>\nTo: bob@example.com\nSubject: Hello\n\n---\n"));
    assert!(md.contains("line one"));
    assert!(!md.contains("hidden"));
}

#[test]
fn email_markdown_writes_text_body_raw() {
    let md = email_markdown(
        &None,
        &None,
        &None,
        &None,
        &None,
        &None,
        Some(EmailBody::Text("plain <tag> & text".to_string())),
    );
    assert_eq!(md, "\n---\nplain <tag> & text\n");
}

#[test]
fn settings_defaults() {
    let s = Settings::default();
    assert_eq!(s.model_name, "google/gemini-2.5-pro");
    assert_eq!(s.provider_order, "google-vertex");
    assert!(s.api_key.is_empty());
    assert!(s.get_root().is_err());
}

#[test]
fn provider_order_splits_on_commas() {
    let parts = provider_order_list("google-vertex,anthropic");
    assert_eq!(parts, vec!["google-vertex".to_string(), "anthropic".to_string()]);
    assert_eq!(provider_order_list(""), vec!["".to_string()]);
}

#[test]
fn list_user_selected_prefers_selection() {
    let sel = vec!["a.txt".to_string()];
    let found = vec!["b.txt".to_string(), "c.txt".to_string()];
    assert_eq!(list_user_selected(sel.clone(), found.clone(), 10).unwrap(), sel);
    assert_eq!(list_user_selected(Vec::new(), found.clone(), 10).unwrap(), found);
    assert!(list_user_selected(Vec::new(), found, 1).is_err());
}

#[test]
fn ask_file_messages_shape() {
    let msgs = ask_file_messages(
        "a.txt",
        "what is this",
        vec![Content::Text { text: "body".to_string() }],
    );
    assert_eq!(msgs.len(), 2);
    assert_eq!(msgs[0].role, "user");
    assert_eq!(msgs[0].text.as_deref(), Some("File: a.txt\n\nQuery: what is this"));
    assert_eq!(msgs[1].role, "user");
    assert_eq!(msgs[1].parts.as_ref().unwrap().len(), 1);
}

#[test]
fn check_online_requires_key() {
    match require_api_key("") {
        Err(Error::Tool(m)) => assert_eq!(m, "Error: OpenRouter API key is not set."),
        _ => panic!("expected a tool error"),
    }
    assert!(require_api_key("k").is_ok());
    let msgs = check_online_messages("q", "ctx");
    assert_eq!(msgs.len(), 1);
    assert_eq!(msgs[0].parts.as_ref().unwrap().len(), 3);
}

#[test]
fn bad_glob_pattern_is_reported() {
    let paths = vec!["a".to_string()];
    match find_by_globs(&paths, "[") {
        Err(Error::Glob(_)) => {}
        other => panic!("expected a glob error, got {:?}", other.map(|v| v.len())),
    }
}

#[test]
fn load_file_payload_shape() {
    let p = load_file_payload("a.txt", vec![Content::Text { text: "data".to_string() }]);
    assert_eq!(p.response.unwrap(), "\"file_loaded\"");
    assert_eq!(p.for_llm.len(), 2);
    match &p.for_llm[0] {
        Content::Text { text } => assert!(text.starts_with("The content of the file 'a.txt'")),
        _ => panic!("expected the instructional note"),
    }
}

#[test]
fn render_request_prepends_system_prompt() {
    let mut gen = IdGen::new();
    let mut h = History::new();
    h.push(Interaction::user_message(
        &mut gen,
        vec![Content::Text { text: "q".to_string() }],
    ));
    let proc = ChatProcessor::new(h, gen);
    let msgs = proc.render_request("be helpful");
    assert_eq!(msgs.len(), 2);
    assert_eq!(msgs[0].role, "system");
    assert_eq!(msgs[0].text.as_deref(), Some("be helpful"));
    assert_eq!(msgs[1].role, "user");
    let msgs = proc.render_request("");
    assert_eq!(msgs.len(), 1);
}

#[test]
fn tool_catalog_names() {
    assert_eq!(chatcore::tools::ls::get_tool().function.name, "ls");
    assert_eq!(chatcore::tools::find::get_tool().function.name, "find");
    assert_eq!(chatcore::tools::extract::get_tool().function.name, "extract");
    assert_eq!(chatcore::tools::notes::read_notes_tool().function.name, "read_notes");
    assert_eq!(chatcore::tools::notes::append_notes_tool().function.name, "append_notes");
    assert_eq!(chatcore::tools::load_file::get_tool().function.name, "load_file");
    assert_eq!(chatcore::tools::make_file::get_tool().function.name, "make_file");
    assert_eq!(chatcore::tools::roll_dice::get_tool().function.name, "roll_dice");
    assert_eq!(chatcore::tools::check_online::get_tool().function.name, "check_online");
    assert_eq!(chatcore::tools::ask_files::ask_files_tool().function.name, "ask_files");
    assert_eq!(
        chatcore::tools::ask_files::ask_files_glob_tool().function.name,
        "ask_files_glob"
    );
    assert_eq!(
        chatcore::tools::ask_files::ask_files_selected_tool(2, 3).function.name,
        "ask_files_selected"
    );
    assert_eq!(
        chatcore::tools::ask_files::list_user_selected_tool(2, 3).function.name,
        "list_user_selected"
    );
}
