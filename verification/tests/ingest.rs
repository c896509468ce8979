use cerebro::pdf::pdf_pages_text;
use cerebro::ingest::{
    chunk_text, classify, csv_plan, extract_sections, markdown_plan, memory_type_named,
    parse_frontmatter, section_slug, sniff_delimiter, split_paragraphs, split_sentences,
    stored_chunk, strip_html, CsvPlan, FileKind, MAX_CHUNK_WORDS,
};
use cerebro::json::{json_plan, plan_record, JsonRootError, JsonStep, JsonValue};
use cerebro::types::MemoryType;

#[test]
fn classify_routes_by_extension() {
    assert_eq!(classify("notes.md"), Some(FileKind::Markdown));
    assert_eq!(classify("data.JSON"), Some(FileKind::Json));
    assert_eq!(classify("t.csv"), Some(FileKind::Csv));
    assert_eq!(classify("page.html"), Some(FileKind::Html));
    assert_eq!(classify("doc.pdf"), Some(FileKind::Pdf));
    assert_eq!(classify("shot.PNG"), Some(FileKind::Image));
    assert_eq!(classify("main.rs"), Some(FileKind::Text));
    assert_eq!(classify("binary.bin"), None);
    assert_eq!(classify("no_extension"), None);
}

#[test]
fn classify_follows_path_rules() {
    // The extension is taken from the last component only.
    assert_eq!(classify("dir.md/readme"), None);
    assert_eq!(classify("dir/readme.md"), Some(FileKind::Markdown));
    // A leading dot alone is not an extension.
    assert_eq!(classify(".md"), None);
    assert_eq!(classify("..md"), Some(FileKind::Markdown));
    // Trailing separators and `.` components are not components.
    assert_eq!(classify("notes.md/"), Some(FileKind::Markdown));
    assert_eq!(classify("notes.md/."), Some(FileKind::Markdown));
    // A path ending in `..` has no file name.
    assert_eq!(classify("notes.md/.."), None);
    assert_eq!(classify("archive.tar.LOG"), Some(FileKind::Text));
    assert_eq!(classify("photo.jpeg"), Some(FileKind::Image));
    assert_eq!(classify(""), None);
}

#[test]
fn chunk_text_splits_paragraphs_and_long_ones_at_sentences() {
    // Two paragraphs → two chunks.
    let chunks = chunk_text("first paragraph here\n\nsecond paragraph here");
    assert_eq!(chunks.len(), 2);
    assert_eq!(chunks[0], "first paragraph here");

    // One >500-word paragraph of sentences → multiple ≤500-word chunks.
    let sentence = "This sentence has exactly seven words in. ";
    let big = sentence.repeat(100); // 700 words, one paragraph
    let chunks = chunk_text(&big);
    assert!(chunks.len() >= 2, "must split, got {}", chunks.len());
    for c in &chunks {
        assert!(c.split_whitespace().count() <= MAX_CHUNK_WORDS,
            "chunk exceeds cap: {} words", c.split_whitespace().count());
    }
}

#[test]
fn chunk_word_cap_holds_except_for_a_single_long_sentence() {
    // 71 sentences of 7 words pack into chunks of at most 500 words: 71
    // sentences, 497 words in the first chunk, the rest in the second.
    let sentence = "This sentence has exactly seven words in. ";
    let chunks = chunk_text(&sentence.repeat(72));
    assert_eq!(chunks.len(), 2);
    assert_eq!(chunks[0].split_whitespace().count(), 497);
    assert_eq!(chunks[1].split_whitespace().count(), 7);
    // One sentence of 600 words is never cut: it stays whole.
    let long = "word ".repeat(600);
    let chunks = chunk_text(&long);
    assert_eq!(chunks.len(), 1);
    assert_eq!(chunks[0].split_whitespace().count(), 600);
}

#[test]
fn paragraphs_split_on_blank_lines_and_are_trimmed() {
    let p = split_paragraphs("  one\ntwo  \n   \n\nthree\r\n\n");
    assert_eq!(p, vec!["one\ntwo", "three"]);
    assert!(split_paragraphs("\n \n\t\n").is_empty());
}

#[test]
fn sentences_split_on_terminators() {
    let s = split_sentences("One. Two! Three? Four");
    assert_eq!(s, vec!["One.", "Two!", "Three?", "Four"]);
}

#[test]
fn sentences_need_whitespace_after_the_terminator() {
    assert_eq!(split_sentences("v1.2 is out. Yes"), vec!["v1.2 is out.", "Yes"]);
    assert_eq!(split_sentences("Wait...  what?\n\tNo"), vec!["Wait...", "what?", "No"]);
    assert!(split_sentences("   ").is_empty());
}

#[test]
fn frontmatter_parses_and_strips() {
    let (front, body) = parse_frontmatter("---\ntype: procedural\ntags: [a, b]\n---\nBody text");
    assert!(front.iter().any(|(k, v)| k == "type" && v == "procedural"));
    assert!(front.iter().any(|(k, v)| k == "tags" && v == "a, b"));
    assert_eq!(body.trim(), "Body text");
    // No frontmatter → untouched.
    let (front, body) = parse_frontmatter("Just text");
    assert!(front.is_empty());
    assert_eq!(body, "Just text");
}

#[test]
fn frontmatter_edge_cases() {
    // No closing fence: untouched.
    let (front, body) = parse_frontmatter("---\ntype: x\nno end");
    assert!(front.is_empty());
    assert_eq!(body, "---\ntype: x\nno end");
    // Quotes are stripped after brackets; lines without a key are skipped.
    let (front, body) = parse_frontmatter("  ---\ntitle: \"Hi: there\"\n: nokey\nplain\n---\na\nb");
    assert_eq!(front, vec![("title".to_string(), "Hi: there".to_string())]);
    assert_eq!(body, "a\nb");
}

#[test]
fn sections_extract_by_h2() {
    let md = "intro\n\n## First\nalpha beta\n\n## Second\ngamma delta\n";
    let sections = extract_sections(md);
    assert_eq!(sections.len(), 2);
    assert_eq!(sections[0].0, "First");
    assert!(sections[0].1.contains("alpha beta"));
    assert_eq!(sections[1].0, "Second");
    assert!(sections[1].1.contains("gamma delta"));
    // No ## headings → empty (caller falls back to paragraph chunking).
    assert!(extract_sections("plain\n\ntext").is_empty());
}

#[test]
fn sections_bodies_are_exact() {
    let sections = extract_sections("## A  \n x \n### not a heading\n##B\n## C");
    assert_eq!(
        sections,
        vec![
            ("A".to_string(), "x \n### not a heading\n##B".to_string()),
            ("C".to_string(), String::new()),
        ]
    );
}

#[test]
fn html_strips_tags_scripts_and_entities() {
    let html = "<html><head><style>body{color:red}</style>\
                <script>var x=1;</script></head>\
                <body><h1>Title</h1><p>Hello &amp; welcome</p></body></html>";
    let text = strip_html(html);
    assert!(text.contains("Title"));
    assert!(text.contains("Hello & welcome"));
    assert!(!text.contains("var x"), "script content must be dropped");
    assert!(!text.contains("color:red"), "style content must be dropped");
    assert!(!text.contains('<'), "no tags may survive");
}

#[test]
fn html_exact_output() {
    assert_eq!(strip_html("a<br>b</P>c"), "a\n\nb\n\nc");
    assert_eq!(strip_html("x<SCRIPT>y</Script>z"), "xz");
    assert_eq!(strip_html("keep <b"), "keep ");
    assert_eq!(strip_html("<style>never closed"), "");
    assert_eq!(strip_html("&amp;lt; &#39;q&#39; &quot;&nbsp;"), "< 'q' \" ");
}

#[test]
fn csv_delimiter_sniffing() {
    assert_eq!(sniff_delimiter("a,b,c\n1,2,3"), ',');
    assert_eq!(sniff_delimiter("a;b;c\n1;2;3"), ';');
    assert_eq!(sniff_delimiter("a\tb\tc"), '\t');
}

#[test]
fn csv_delimiter_ties_go_to_the_later_candidate() {
    assert_eq!(sniff_delimiter("a,b;c"), ';');
    assert_eq!(sniff_delimiter("abc"), '|');
    assert_eq!(sniff_delimiter(""), '|');
    assert_eq!(sniff_delimiter("a|b,c|d\nx,y,z,w"), '|');
}

#[test]
fn chunks_are_stored_trimmed_when_long_enough() {
    assert_eq!(stored_chunk("   exactly10b   ").as_deref(), Some("exactly10b"));
    assert_eq!(stored_chunk("  short  "), None);
    assert_eq!(stored_chunk("ééééé").as_deref(), Some("ééééé"));
}

#[test]
fn memory_type_names_are_snake_case() {
    assert_eq!(memory_type_named("procedural"), Some(MemoryType::Procedural));
    assert_eq!(memory_type_named("schematic"), Some(MemoryType::Schematic));
    assert_eq!(memory_type_named("Procedural"), None);
}

#[test]
fn section_slugs() {
    assert_eq!(section_slug("Getting Started!"), "getting_started");
    assert_eq!(section_slug("  __A--b__ "), "a_b");
    assert_eq!(section_slug("!!!"), "");
}

#[test]
fn markdown_plan_uses_frontmatter_and_sections() {
    let md = "---\ntype: procedural\ntags: x, y\n---\n## Setup Steps\ninstall it\n## Empty\n  \n## Other\nmore text\n";
    let (batches, skipped) = markdown_plan(md, &vec!["base".to_string(), "setup_steps".to_string()]);
    assert_eq!(skipped, 1);
    assert_eq!(batches.len(), 2);
    assert_eq!(batches[0].chunks, vec!["Setup Steps: install it".to_string()]);
    assert_eq!(batches[0].memory_type, MemoryType::Procedural);
    // The slug is already present, so it is not added twice.
    assert_eq!(batches[0].tags, vec!["base", "setup_steps", "x", "y"]);
    assert_eq!(batches[1].chunks, vec!["Other: more text".to_string()]);
    assert_eq!(batches[1].tags, vec!["base", "setup_steps", "x", "y", "other"]);
}

#[test]
fn markdown_plan_without_sections_chunks_the_body() {
    let (batches, skipped) = markdown_plan("first para\n\nsecond para", &vec![]);
    assert_eq!(skipped, 0);
    assert_eq!(batches.len(), 1);
    assert_eq!(batches[0].chunks, vec!["first para".to_string(), "second para".to_string()]);
    assert_eq!(batches[0].memory_type, MemoryType::Semantic);
    assert!(batches[0].tags.is_empty());
}

#[test]
fn csv_plan_rows_and_summary() {
    match csv_plan("name;age\n\nann; 31\nbob;\n", "people.csv") {
        CsvPlan::Rows(rows) => assert_eq!(rows, vec!["name: ann | age: 31", "name: bob"]),
        _ => panic!("rows expected"),
    }
    assert!(matches!(csv_plan("only,header\n", "h.csv"), CsvPlan::Empty));
    assert!(matches!(csv_plan("", "e.csv"), CsvPlan::Empty));
    let mut big = String::from("a,b\n");
    for i in 0..201 {
        big.push_str(&format!("{i},x\n"));
    }
    match csv_plan(&big, "big.csv") {
        CsvPlan::Summary(s) => assert_eq!(s, "CSV dataset big.csv: 201 rows, columns [a, b]. Sample row: a=0, b=x"),
        _ => panic!("summary expected"),
    }
}

fn jstr(s: &str) -> JsonValue {
    JsonValue::Str(s.to_string())
}

fn jobj(fields: Vec<(&str, JsonValue)>) -> JsonValue {
    JsonValue::Object(fields.into_iter().map(|(k, v)| (k.to_string(), v)).collect())
}

fn base_tags() -> Vec<String> {
    vec!["source:data.json".to_string()]
}

#[test]
fn json_plan_list_of_records() {
    let doc = JsonValue::Array(vec![
        jstr("a plain string memory"),
        jobj(vec![
            ("content", jstr("Rust ownership rules")),
            ("type", jstr("semantic")),
            ("tags", JsonValue::Array(vec![jstr("rust"), JsonValue::Number("7".to_string()), jstr("lang")])),
            ("salience", JsonValue::Number("0.8".to_string())),
        ]),
        jobj(vec![("content", jstr("hi"))]),
        JsonValue::Number("42".to_string()),
    ]);
    let steps = json_plan(&doc, &base_tags()).ok().unwrap();
    assert_eq!(steps.len(), 4);
    match &steps[0] {
        JsonStep::Store { content, memory_type, tags, salience } => {
            assert_eq!(content, "a plain string memory");
            assert!(memory_type.is_none());
            assert_eq!(tags, &base_tags());
            assert!(salience.is_none());
        }
        _ => panic!("expected a stored record"),
    }
    match &steps[1] {
        JsonStep::Store { content, memory_type, tags, salience } => {
            assert_eq!(content, "Rust ownership rules");
            assert_eq!(*memory_type, Some(MemoryType::Semantic));
            assert_eq!(tags, &vec!["source:data.json".to_string(), "rust".to_string(), "lang".to_string()]);
            assert_eq!(salience.as_deref(), Some("0.8"));
        }
        _ => panic!("expected a stored record"),
    }
    assert!(matches!(steps[2], JsonStep::TooShort));
    assert!(matches!(steps[3], JsonStep::NotARecord));
}

#[test]
fn json_plan_wrapped_records() {
    let rec = || jobj(vec![("content", jstr("wrapped content here"))]);
    let doc = jobj(vec![("memories", JsonValue::Array(vec![rec(), rec()]))]);
    assert_eq!(json_plan(&doc, &base_tags()).ok().unwrap().len(), 2);
    let doc = jobj(vec![("records", JsonValue::Array(vec![rec()]))]);
    assert_eq!(json_plan(&doc, &base_tags()).ok().unwrap().len(), 1);
    // `memories` present but not a list: nothing, and no fall back to `records`.
    let doc = jobj(vec![("memories", jstr("x")), ("records", JsonValue::Array(vec![rec()]))]);
    assert_eq!(json_plan(&doc, &base_tags()).ok().unwrap().len(), 0);
    let doc = jobj(vec![("other", JsonValue::Array(vec![rec()]))]);
    assert_eq!(json_plan(&doc, &base_tags()).ok().unwrap().len(), 0);
}

#[test]
fn json_plan_rejects_scalar_root() {
    assert!(matches!(json_plan(&JsonValue::Number("1".to_string()), &base_tags()), Err(JsonRootError::NotListOrDict)));
    assert!(matches!(json_plan(&JsonValue::Null, &base_tags()), Err(JsonRootError::NotListOrDict)));
    assert!(matches!(json_plan(&jstr("x"), &base_tags()), Err(JsonRootError::NotListOrDict)));
}

#[test]
fn json_record_type_and_content_edges() {
    // A type given as a one-key object with null reads like its name.
    let r = jobj(vec![("content", jstr("abc")), ("type", jobj(vec![("procedural", JsonValue::Null)]))]);
    match plan_record(&r, &vec![]) {
        JsonStep::Store { memory_type, .. } => assert_eq!(memory_type, Some(MemoryType::Procedural)),
        _ => panic!("three bytes of content are enough"),
    }
    // Names are exact snake_case.
    let r = jobj(vec![("content", jstr("abcd")), ("type", jstr("Semantic"))]);
    match plan_record(&r, &vec![]) {
        JsonStep::Store { memory_type, .. } => assert!(memory_type.is_none()),
        _ => panic!("expected a stored record"),
    }
    // Content is measured in bytes: two two-byte characters pass.
    let r = jobj(vec![("content", jstr("éé"))]);
    assert!(matches!(plan_record(&r, &vec![]), JsonStep::Store { .. }));
    // Content that is not a string counts as empty.
    let r = jobj(vec![("content", JsonValue::Number("12345".to_string()))]);
    assert!(matches!(plan_record(&r, &vec![]), JsonStep::TooShort));
    // A string record is stored whatever its length.
    assert!(matches!(plan_record(&jstr("x"), &vec![]), JsonStep::Store { .. }));
}

#[test]
fn chunks_keep_every_word() {
    let long: String = (0..120).map(|i| format!("Sentence number {i} says something.")).collect::<Vec<_>>().join(" ");
    let text = format!("Title line\n\n  First paragraph,\r\nstill first.  \n \t \n{long}\n\n\nLast words here!");
    let chunks = chunk_text(&text);
    assert!(chunks.len() > 3);
    let chunk_words: Vec<&str> = chunks.iter().flat_map(|c| c.split_whitespace()).collect();
    let text_words: Vec<&str> = text.split_whitespace().collect();
    assert_eq!(chunk_words, text_words);
}

#[test]
fn ingest_tags_follow_the_file_kind() {
    let base = vec!["project".to_string()];
    assert_eq!(
        cerebro::ingest::ingest_tags(FileKind::Text, "notes.txt", &base, false),
        vec!["project", "source:notes.txt"]
    );
    assert_eq!(
        cerebro::ingest::ingest_tags(FileKind::Csv, "t.csv", &base, false),
        vec!["project", "source:t.csv", "csv", "file:t.csv"]
    );
    assert_eq!(
        cerebro::ingest::ingest_tags(FileKind::Csv, "t.csv", &base, true),
        vec!["project", "source:t.csv", "csv", "file:t.csv", "schema"]
    );
    assert_eq!(
        cerebro::ingest::ingest_tags(FileKind::Image, "a.png", &base, false),
        vec!["project", "source:a.png", "vision"]
    );
    let with_vision = vec!["vision".to_string()];
    assert_eq!(
        cerebro::ingest::ingest_tags(FileKind::Image, "a.png", &with_vision, false),
        vec!["vision", "source:a.png"]
    );
}

#[test]
fn chunks_are_trimmed_and_non_empty() {
    let text = "  first para  \n\n\n   \n second para\nwith two lines \n\n";
    let chunks = chunk_text(text);
    assert_eq!(chunks, vec!["first para".to_string(), "second para\nwith two lines".to_string()]);
    for c in &chunks {
        assert!(!c.is_empty());
        assert_eq!(c.trim(), c);
    }
}

#[test]
fn pdf_text_refuses_what_is_not_a_pdf() {
    assert!(cerebro::pdf::pdf_text_from_bytes(b"plain text, not a PDF").is_err());
    assert!(cerebro::pdf::pdf_text_from_bytes(b"").is_err());
}

#[test]
fn checked_pdf_text_refuses_blank_text() {
    assert_eq!(
        cerebro::pdf::checked_pdf_text(" \n\t ".to_string()),
        Err("no extractable text (scanned/image-only PDF?)".to_string())
    );
    assert_eq!(cerebro::pdf::checked_pdf_text(" page one ".to_string()), Ok(" page one ".to_string()));
}

#[test]
fn pdf_pages_text_follows_pages_then_extraction() {
    assert_eq!(pdf_pages_text(0, Ok("text".to_string())), Err("PDF has no pages".to_string()));
    assert_eq!(pdf_pages_text(2, Err("bad stream".to_string())), Err("bad stream".to_string()));
    assert_eq!(
        pdf_pages_text(1, Ok("  ".to_string())),
        Err("no extractable text (scanned/image-only PDF?)".to_string())
    );
    assert_eq!(pdf_pages_text(1, Ok("page".to_string())), Ok("page".to_string()));
}
