use shirl::media_input::{
    extract_quoted_token, has_files, has_images, is_file_ext, is_image_ext, media_requests,
    mime_for_ext, push_token_text, resolve_media, MediaKind, Probe, Resolved, MAX_FILE_BYTES,
    MAX_IMAGE_BYTES,
};
use shirl::media_strip::{count_attachments, strip_media_from_message, strip_media_from_session};
use shirl::message::{ContentBlock, MemoryItem, Message};

/// Resolves `input` below `/work`, where `files` are the files that are there.
fn resolve_with(input: &str, files: &[(&str, &[u8])]) -> Resolved {
    let mut probes: Vec<Probe<String>> = Vec::new();
    for request in media_requests(input, "/work") {
        let found = files
            .iter()
            .find(|(name, _)| request.path == format!("/work/{name}"));
        probes.push(match found {
            Some((_, data)) => {
                Probe::File { size: data.len() as u64, data: Ok(data.to_vec()) }
            }
            None => Probe::Missing,
        });
    }
    resolve_media(input, "/work", probes).unwrap()
}

fn resolve(input: &str, files: &[(&str, &[u8])]) -> Vec<ContentBlock> {
    resolve_with(input, files).blocks
}

/// Resolves `input`, where every file that is asked for is one byte over the cap.
fn resolve_oversize(input: &str) -> Resolved {
    let probes: Vec<Probe<String>> = media_requests(input, "/work")
        .iter()
        .map(|r| Probe::File { size: r.kind.cap() + 1, data: Err("not read".to_string()) })
        .collect();
    resolve_media(input, "/work", probes).unwrap()
}

#[test]
fn no_media_returns_single_text_block() {
    let blocks = resolve("hello world", &[]);
    assert_eq!(blocks.len(), 1);
    assert_eq!(blocks[0].as_text().unwrap(), "hello world");
}

#[test]
fn lone_at_sign_preserved() {
    let blocks = resolve("email@domain.com", &[]);
    assert_eq!(blocks.len(), 1);
    assert_eq!(blocks[0].as_text().unwrap(), "email@domain.com");
}

#[test]
fn unrecognised_extension_kept_as_text() {
    let blocks = resolve("@data.bin", &[]);
    assert_eq!(blocks.len(), 1);
    assert_eq!(blocks[0].as_text().unwrap(), "@data.bin");
}

#[test]
fn text_extensions_left_as_text() {
    for name in &["main.rs", "notes.txt", "README.md"] {
        let input = format!("@{name}");
        assert!(media_requests(&input, "/work").is_empty());
        let blocks = resolve(&input, &[(name, b"hello")]);
        assert_eq!(blocks.len(), 1, "{name} should produce a single text block");
        assert_eq!(blocks[0].as_text().unwrap(), &input);
    }
}

#[test]
fn image_file_keeps_path_and_embeds_block() {
    let blocks = resolve("@photo.png", &[("photo.png", b"\x89PNG\r\n\x1a\n")]);
    assert_eq!(blocks.len(), 2);
    assert_eq!(blocks[0].as_text().unwrap(), "@photo.png");
    assert!(matches!(&blocks[1], ContentBlock::Image { data, media_type }
        if data == b"\x89PNG\r\n\x1a\n" && media_type == "image/png"));
}

#[test]
fn pdf_file_keeps_path_and_embeds_block() {
    let blocks = resolve("@report.pdf", &[("report.pdf", b"%PDF-1.4 fake")]);
    assert_eq!(blocks.len(), 2);
    assert_eq!(blocks[0].as_text().unwrap(), "@report.pdf");
    assert!(matches!(&blocks[1], ContentBlock::File { data, media_type, filename }
        if data == b"%PDF-1.4 fake"
            && media_type == "application/pdf"
            && filename == "report.pdf"));
}

#[test]
fn image_with_surrounding_text() {
    let blocks = resolve(
        "here is the screenshot @shot.jpg please review",
        &[("shot.jpg", &[0xFFu8; 100])],
    );
    assert_eq!(blocks.len(), 3);
    assert_eq!(blocks[0].as_text().unwrap(), "here is the screenshot @shot.jpg");
    assert!(matches!(&blocks[1], ContentBlock::Image { media_type, .. }
        if media_type == "image/jpeg"));
    assert_eq!(blocks[2].as_text().unwrap(), " please review");
}

#[test]
fn pdf_with_surrounding_text() {
    let blocks = resolve("please review @doc.pdf and advise", &[("doc.pdf", b"%PDF-1.4")]);
    assert_eq!(blocks.len(), 3);
    assert_eq!(blocks[0].as_text().unwrap(), "please review @doc.pdf");
    assert!(matches!(&blocks[1], ContentBlock::File { media_type, .. }
        if media_type == "application/pdf"));
    assert_eq!(blocks[2].as_text().unwrap(), " and advise");
}

#[test]
fn missing_file_kept_as_text() {
    let blocks = resolve("@nonexistent.png", &[]);
    assert_eq!(blocks.len(), 1);
    assert_eq!(blocks[0].as_text().unwrap(), "@nonexistent.png");
}

#[test]
fn missing_pdf_kept_as_text() {
    let blocks = resolve("@nonexistent.pdf", &[]);
    assert_eq!(blocks.len(), 1);
    assert_eq!(blocks[0].as_text().unwrap(), "@nonexistent.pdf");
}

#[test]
fn multiple_images() {
    let blocks = resolve(
        "@a.png and @b.gif",
        &[("a.png", &[1u8; 10]), ("b.gif", &[2u8; 20])],
    );
    assert_eq!(blocks.len(), 4);
    assert_eq!(blocks[0].as_text().unwrap(), "@a.png");
    assert!(matches!(&blocks[1], ContentBlock::Image { .. }));
    assert_eq!(blocks[2].as_text().unwrap(), " and @b.gif");
    assert!(matches!(&blocks[3], ContentBlock::Image { .. }));
}

#[test]
fn mixed_image_and_pdf() {
    let blocks = resolve(
        "@photo.png and @doc.pdf ok",
        &[("photo.png", &[1u8; 10]), ("doc.pdf", b"%PDF-1.4")],
    );
    assert_eq!(blocks.len(), 5);
    assert_eq!(blocks[0].as_text().unwrap(), "@photo.png");
    assert!(matches!(&blocks[1], ContentBlock::Image { .. }));
    assert_eq!(blocks[2].as_text().unwrap(), " and @doc.pdf");
    assert!(matches!(&blocks[3], ContentBlock::File { .. }));
    assert_eq!(blocks[4].as_text().unwrap(), " ok");
}

#[test]
fn has_images_helper() {
    assert!(!has_images(&vec![ContentBlock::text("hi")]));
    assert!(has_images(&vec![
        ContentBlock::text("hi"),
        ContentBlock::Image { data: vec![], media_type: "image/png".to_string() },
    ]));
}

#[test]
fn has_files_helper() {
    assert!(!has_files(&vec![ContentBlock::text("hi")]));
    assert!(has_files(&vec![ContentBlock::File {
        data: vec![],
        media_type: "application/pdf".to_string(),
        filename: "doc.pdf".to_string(),
    }]));
    assert!(!has_files(&vec![ContentBlock::Image {
        data: vec![],
        media_type: "image/png".to_string(),
    }]));
}

#[test]
fn subdirectory_image_path() {
    let blocks = resolve("@assets/logo.webp", &[("assets/logo.webp", &[0u8; 50])]);
    assert_eq!(blocks.len(), 2);
    assert_eq!(blocks[0].as_text().unwrap(), "@assets/logo.webp");
    assert!(matches!(&blocks[1], ContentBlock::Image { media_type, .. }
        if media_type == "image/webp"));
}

#[test]
fn subdirectory_pdf_path() {
    let blocks = resolve("@docs/report.pdf", &[("docs/report.pdf", b"%PDF-1.4")]);
    assert_eq!(blocks.len(), 2);
    assert_eq!(blocks[0].as_text().unwrap(), "@docs/report.pdf");
    assert!(matches!(&blocks[1], ContentBlock::File { media_type, filename, .. }
        if media_type == "application/pdf" && filename == "report.pdf"));
}

#[test]
fn trailing_punctuation_does_not_block_image() {
    let blocks = resolve(
        "screenshot in @tmp2/a.png, can you tell me what it contains?",
        &[("tmp2/a.png", b"\x89PNG\r\n\x1a\n")],
    );
    assert_eq!(blocks.len(), 3);
    assert_eq!(blocks[0].as_text().unwrap(), "screenshot in @tmp2/a.png");
    assert!(matches!(&blocks[1], ContentBlock::Image { media_type, .. }
        if media_type == "image/png"));
    assert_eq!(blocks[2].as_text().unwrap(), ", can you tell me what it contains?");
}

#[test]
fn trailing_punctuation_does_not_block_pdf() {
    let blocks = resolve("see @doc.pdf, please review", &[("doc.pdf", b"%PDF")]);
    assert_eq!(blocks.len(), 3);
    assert_eq!(blocks[0].as_text().unwrap(), "see @doc.pdf");
    assert!(matches!(&blocks[1], ContentBlock::File { .. }));
    assert_eq!(blocks[2].as_text().unwrap(), ", please review");
}

#[test]
fn trailing_punctuation_variants_all_resolve() {
    for suffix in [",", ".", "?", "!", ";", ":", ")", "]", "}", ",,,"] {
        let input = format!("see @a.png{suffix} done");
        let blocks = resolve(&input, &[("a.png", &[1u8; 4])]);
        assert!(
            matches!(&blocks[1], ContentBlock::Image { .. }),
            "input {input:?} did not resolve an image block"
        );
        assert_eq!(blocks[2].as_text().unwrap(), format!("{suffix} done"));
    }
}

#[test]
fn unsupported_extension_kept_as_text() {
    let blocks = resolve("@vector.svg", &[("vector.svg", b"<svg/>")]);
    assert_eq!(blocks.len(), 1);
    assert_eq!(blocks[0].as_text().unwrap(), "@vector.svg");
}

#[test]
fn oversize_image_kept_as_text_with_warning() {
    let result = resolve_oversize("@huge.png");
    assert_eq!(result.blocks.len(), 1);
    assert_eq!(result.blocks[0].as_text().unwrap(), "@huge.png");
    assert_eq!(result.warnings.len(), 1);
    assert!(result.warnings[0].token.contains("huge.png"));
    assert_eq!(result.warnings[0].kind, MediaKind::Image);
    assert_eq!(result.warnings[0].size, MAX_IMAGE_BYTES + 1);
}

#[test]
fn oversize_pdf_kept_as_text_with_warning() {
    let result = resolve_oversize("@huge.pdf");
    assert_eq!(result.blocks.len(), 1);
    assert_eq!(result.blocks[0].as_text().unwrap(), "@huge.pdf");
    assert_eq!(result.warnings.len(), 1);
    assert!(result.warnings[0].token.contains("huge.pdf"));
    assert_eq!(result.warnings[0].size, MAX_FILE_BYTES + 1);
}

#[test]
fn a_file_at_the_cap_is_embedded() {
    let probes: Vec<Probe<String>> =
        vec![Probe::File { size: MAX_IMAGE_BYTES, data: Ok(vec![7]) }];
    let result = resolve_media("@a.png", "/work", probes).unwrap();
    assert_eq!(result.blocks.len(), 2);
    assert!(result.warnings.is_empty());
}

#[test]
fn a_file_that_cannot_be_read_is_an_error() {
    let probes: Vec<Probe<String>> = vec![
        Probe::File { size: 1, data: Ok(vec![7]) },
        Probe::File { size: 1, data: Err("denied".to_string()) },
        Probe::File { size: 1, data: Err("later".to_string()) },
    ];
    assert_eq!(
        resolve_media("@a.png @b.png @c.pdf", "/work", probes).err(),
        Some("denied".to_string())
    );
}

#[test]
fn quoted_path_with_spaces_resolves() {
    let blocks = resolve(
        r#"@"my screenshot.png" the rest"#,
        &[("my screenshot.png", b"\x89PNG\r\n\x1a\n")],
    );
    assert_eq!(blocks.len(), 3);
    assert_eq!(blocks[0].as_text().unwrap(), r#"@"my screenshot.png""#);
    assert!(matches!(&blocks[1], ContentBlock::Image { data, media_type }
        if data == b"\x89PNG\r\n\x1a\n" && media_type == "image/png"));
    assert_eq!(blocks[2].as_text().unwrap(), " the rest");
}

#[test]
fn quoted_pdf_with_spaces_resolves() {
    let blocks = resolve(r#"@"my report.pdf" the rest"#, &[("my report.pdf", b"%PDF-1.4")]);
    assert_eq!(blocks.len(), 3);
    assert_eq!(blocks[0].as_text().unwrap(), r#"@"my report.pdf""#);
    assert!(matches!(&blocks[1], ContentBlock::File { data, media_type, filename }
        if data == b"%PDF-1.4"
            && media_type == "application/pdf"
            && filename == "my report.pdf"));
    assert_eq!(blocks[2].as_text().unwrap(), " the rest");
}

#[test]
fn quoted_path_with_surrounding_text() {
    let blocks = resolve(
        r#"please look at @"screen shot.png" and advise"#,
        &[("screen shot.png", &[0xFFu8; 50])],
    );
    assert_eq!(blocks.len(), 3);
    assert_eq!(blocks[0].as_text().unwrap(), r#"please look at @"screen shot.png""#);
    assert!(matches!(&blocks[1], ContentBlock::Image { .. }));
    assert_eq!(blocks[2].as_text().unwrap(), " and advise");
}

#[test]
fn quoted_path_at_end_of_input() {
    let blocks = resolve(r#"@"spaces in name.png""#, &[("spaces in name.png", &[1u8; 10])]);
    assert_eq!(blocks.len(), 2);
    assert_eq!(blocks[0].as_text().unwrap(), r#"@"spaces in name.png""#);
    assert!(matches!(&blocks[1], ContentBlock::Image { .. }));
}

#[test]
fn quoted_path_with_escaped_quotes() {
    let blocks = resolve(
        r#"@"she said \"hello\".png""#,
        &[(r#"she said "hello".png"#, &[2u8; 20])],
    );
    assert_eq!(blocks.len(), 2);
    assert_eq!(blocks[0].as_text().unwrap(), r#"@"she said \"hello\".png""#);
    assert!(matches!(&blocks[1], ContentBlock::Image { .. }));
}

#[test]
fn quoted_path_with_escaped_backslash() {
    let blocks = resolve(r#"@"path\\file.png""#, &[]);
    assert_eq!(blocks.len(), 1);
    assert_eq!(blocks[0].as_text().unwrap(), r#"@"path\\file.png""#);
}

#[test]
fn unterminated_quote_falls_back_to_whitespace() {
    let blocks = resolve(r#"@"photo.png"#, &[("photo.png", &[4u8; 10])]);
    assert_eq!(blocks.len(), 1);
    assert_eq!(blocks[0].as_text().unwrap(), r#"@"photo.png"#);
}

#[test]
fn mixed_quoted_and_unquoted() {
    let blocks = resolve(
        r#"@a.png and @"spaces b.png" ok"#,
        &[("a.png", &[1u8; 10]), ("spaces b.png", &[2u8; 20])],
    );
    assert_eq!(blocks.len(), 5);
    assert_eq!(blocks[0].as_text().unwrap(), "@a.png");
    assert!(matches!(&blocks[1], ContentBlock::Image { .. }));
    assert_eq!(blocks[2].as_text().unwrap(), r#" and @"spaces b.png""#);
    assert!(matches!(&blocks[3], ContentBlock::Image { .. }));
    assert_eq!(blocks[4].as_text().unwrap(), " ok");
}

#[test]
fn quoted_path_with_directory_spaces() {
    let blocks = resolve(r#"@"my dir/photo.png""#, &[("my dir/photo.png", &[5u8; 30])]);
    assert_eq!(blocks.len(), 2);
    assert_eq!(blocks[0].as_text().unwrap(), r#"@"my dir/photo.png""#);
    assert!(matches!(&blocks[1], ContentBlock::Image { media_type, .. }
        if media_type == "image/png"));
}

#[test]
fn quoted_path_with_non_ascii_resolves() {
    let blocks = resolve(r#"@"café.png" done"#, &[("café.png", b"\x89PNG\r\n\x1a\n")]);
    assert_eq!(blocks.len(), 3);
    assert_eq!(blocks[0].as_text().unwrap(), r#"@"café.png""#);
    assert!(matches!(&blocks[1], ContentBlock::Image { media_type, .. }
        if media_type == "image/png"));
    assert_eq!(blocks[2].as_text().unwrap(), " done");
}

#[test]
fn quoted_path_with_non_ascii_in_subdir() {
    let blocks = resolve(
        r#"@"스크린샷/photo.png""#,
        &[("스크린샷/photo.png", &[9u8; 30])],
    );
    assert_eq!(blocks.len(), 2);
    assert_eq!(blocks[0].as_text().unwrap(), r#"@"스크린샷/photo.png""#);
    assert!(matches!(&blocks[1], ContentBlock::Image { media_type, .. }
        if media_type == "image/png"));
}

#[test]
fn quoted_missing_file_roundtrips_quotes() {
    let blocks = resolve(r#"see @"missing file.png" please"#, &[]);
    assert_eq!(blocks.len(), 1);
    assert_eq!(blocks[0].as_text().unwrap(), r#"see @"missing file.png" please"#);
}

#[test]
fn quoted_oversize_image_roundtrips_quotes() {
    let result = resolve_oversize(r#"@"big space.png" ok"#);
    assert_eq!(result.blocks.len(), 1);
    assert_eq!(result.blocks[0].as_text().unwrap(), r#"@"big space.png" ok"#);
    assert_eq!(result.warnings.len(), 1);
    assert!(result.warnings[0].token.contains("big space.png"));
}

#[test]
fn quoted_missing_with_embedded_quote_roundtrips() {
    let blocks = resolve(r#"@"miss \"q\".png" end"#, &[]);
    assert_eq!(blocks.len(), 1);
    assert_eq!(blocks[0].as_text().unwrap(), r#"@"miss \"q\".png" end"#);
}

#[test]
fn unknown_escapes_keep_both_characters() {
    let (path, after) = extract_quoted_token(r#""foo\bar.png" x"#).unwrap();
    assert_eq!(path, r"foo\bar.png");
    assert_eq!(after, " x");
    for input in [r#"@"foo\bar.png""#, r#"@"foo\bar.rs""#, r#"see @"a\b \"c\\d".txt, ok"#] {
        let blocks = resolve(input, &[]);
        assert_eq!(blocks, vec![ContentBlock::Text(input.to_string())]);
    }
    let found = r#"@"foo\bar.png" and on"#;
    let blocks = resolve(found, &[(r"foo\bar.png", b"data")]);
    assert_eq!(blocks[0].as_text().unwrap(), r#"@"foo\bar.png""#);
    assert!(matches!(blocks[1], ContentBlock::Image { .. }));
    assert_eq!(blocks[2].as_text().unwrap(), " and on");
}

#[test]
fn quoted_tokens_end_at_an_unescaped_quote() {
    assert_eq!(extract_quoted_token("plain"), None);
    assert_eq!(extract_quoted_token(""), None);
    assert_eq!(extract_quoted_token(r#""open"#), None);
    assert_eq!(extract_quoted_token(r#""open\"#), None);
    assert_eq!(
        extract_quoted_token(r#""" rest"#),
        Some((String::new(), " rest".to_string()))
    );
}

#[test]
fn written_mentions_read_back() {
    for token in ["a b.png", r#"q"uote"#, r"back\slash", "", "é\\\"x"] {
        let mut text = String::from("see ");
        push_token_text(&mut text, token, true);
        let quoted = &text["see @".len()..];
        assert_eq!(
            extract_quoted_token(&format!("{quoted} tail")),
            Some((token.to_string(), " tail".to_string()))
        );
    }
    let mut text = String::new();
    push_token_text(&mut text, "a b", false);
    assert_eq!(text, "@a b");
}

#[test]
fn extensions_have_media_types() {
    for (ext, mime) in [
        ("png", "image/png"),
        ("jpg", "image/jpeg"),
        ("jpeg", "image/jpeg"),
        ("gif", "image/gif"),
        ("webp", "image/webp"),
    ] {
        assert!(is_image_ext(ext));
        assert_eq!(mime_for_ext(ext), mime);
        assert_eq!(is_file_ext(ext), None);
    }
    assert!(!is_image_ext("PNG"));
    assert!(!is_image_ext("svg"));
    assert_eq!(is_file_ext("pdf"), Some("application/pdf"));
    assert_eq!(is_file_ext("PdF"), Some("application/pdf"));
}

#[test]
fn extensions_are_taken_in_any_letter_case() {
    let requests = media_requests("@A.PNG and @B.Pdf and @.png and @x/..", "/work");
    assert_eq!(requests.len(), 2);
    assert_eq!(requests[0].path, "/work/A.PNG");
    assert_eq!(requests[0].kind, MediaKind::Image);
    assert_eq!(requests[1].kind, MediaKind::File);
    assert_eq!(media_requests("@/abs/p.png", "/work")[0].path, "/abs/p.png");
}

#[test]
fn text_of_blocks_is_the_input() {
    for input in [
        "",
        "@",
        "@ @, @@ x",
        "mail me@x.png, or @\"a b.pdf\"! ok",
        "see @one.png @two.gif.",
        "trailing @\"unterminated.png",
    ] {
        for files in [&[][..], &[("x.png", &[1u8][..]), ("one.png", &[2u8][..]), ("a b.pdf", &[3u8][..])][..]] {
            let text: String = resolve(input, files)
                .iter()
                .filter_map(|b| b.as_text().map(|t| t.to_string()))
                .collect();
            assert_eq!(text, input);
        }
    }
}

#[test]
fn strips_image_blocks_into_text_placeholders() {
    let msg = Message::user_blocks(vec![
        ContentBlock::text("here's a picture:"),
        ContentBlock::Image { data: vec![0u8; 1024], media_type: "image/png".to_string() },
    ]);
    let (stripped, count) =
        strip_media_from_message(&msg, &vec!["[image: image/png, 1 KB]".to_string()]);
    assert_eq!(count, 1);
    assert!(!stripped.has_attachments());
    assert_eq!(stripped.text_content(), "here's a picture:[image: image/png, 1 KB]");
    assert!(has_images(&msg.content));
}

#[test]
fn strips_file_blocks_into_text_placeholders() {
    let msg = Message::user_blocks(vec![
        ContentBlock::text("review this:"),
        ContentBlock::File {
            data: vec![0u8; 2048],
            media_type: "application/pdf".to_string(),
            filename: "report.pdf".to_string(),
        },
    ]);
    let (stripped, count) = strip_media_from_message(
        &msg,
        &vec!["[file: report.pdf, application/pdf, 2 KB]".to_string()],
    );
    assert_eq!(count, 1);
    assert!(!stripped.has_attachments());
    assert_eq!(
        stripped.text_content(),
        "review this:[file: report.pdf, application/pdf, 2 KB]"
    );
    assert!(has_files(&msg.content));
}

#[test]
fn strips_mixed_image_and_file_blocks() {
    let msg = Message::user_blocks(vec![
        ContentBlock::Image { data: vec![1], media_type: "image/png".to_string() },
        ContentBlock::text(" and "),
        ContentBlock::File {
            data: vec![2],
            media_type: "application/pdf".to_string(),
            filename: "doc.pdf".to_string(),
        },
    ]);
    assert_eq!(count_attachments(&msg), 2);
    let (stripped, count) =
        strip_media_from_message(&msg, &vec!["[one]".to_string(), "[two]".to_string()]);
    assert_eq!(count, 2);
    assert!(!stripped.has_attachments());
    assert_eq!(stripped.text_content(), "[one] and [two]");
}

#[test]
fn leaves_text_only_messages_untouched() {
    let msg = Message::user("just text");
    let (stripped, count) = strip_media_from_message(&msg, &vec![]);
    assert_eq!(count, 0);
    assert_eq!(stripped.text_content(), "just text");
    assert_eq!(stripped, msg);
}

fn messages(items: &[MemoryItem]) -> Vec<&Message> {
    items.iter().map(|i| i.message()).collect()
}

#[test]
fn session_strip_replaces_in_place() {
    let mut session = vec![
        MemoryItem::Message(Message::user_blocks(vec![
            ContentBlock::text("look"),
            ContentBlock::Image { data: vec![1, 2, 3], media_type: "image/jpeg".to_string() },
        ])),
        MemoryItem::Message(Message::assistant("I see it")),
    ];
    let n = strip_media_from_session(
        &mut session,
        &vec![vec!["[image: image/jpeg, 1 KB]".to_string()], vec![]],
    );
    assert_eq!(n, 1);
    let msgs = messages(&session);
    assert!(!msgs[0].has_attachments());
    assert!(msgs[0].text_content().contains("[image: image/jpeg,"));
    assert_eq!(msgs[1].text_content(), "I see it");
}

#[test]
fn skips_session_without_attachments() {
    let mut session = vec![MemoryItem::Message(Message::user("text only"))];
    assert_eq!(strip_media_from_session(&mut session, &vec![vec![]]), 0);
    assert_eq!(session[0].message().text_content(), "text only");
}

#[test]
fn only_touches_messages_with_attachments() {
    let mut session = vec![
        MemoryItem::Message(Message::user("clean")),
        MemoryItem::Message(Message::user_blocks(vec![
            ContentBlock::text("img"),
            ContentBlock::Image { data: vec![42], media_type: "image/png".to_string() },
        ])),
    ];
    strip_media_from_session(&mut session, &vec![vec![], vec!["[x]".to_string()]]);
    assert_eq!(session[0].message().text_content(), "clean");
    assert!(!session[1].message().has_attachments());
}
