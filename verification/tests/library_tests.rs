use ttml_processor::error::{JsError, ParseErrorKind, TTMLProcessorError};
use ttml_processor::model::{LyricLine, SubLyricContent, Syllable, TTMLMetadata, TTMLResult};
use ttml_processor::timestamp::{format_timestamp, parse_timestamp};
use ttml_processor::utils::{build_full_text, normalize_line_text};
use ttml_processor::{generate_ttml, parse_ttml, GeneratorConfig};

const EXAMPLE_DOC: &str = r#"
    <tt xmlns="http://www.w3.org/ns/ttml" itunes:timing="word">
      <body>
        <div>
          <p begin="5.000" end="10.000">
            <span begin="5.100" end="5.500">Hello </span>
            <span begin="5.600" end="6.000">world</span>
          </p>
        </div>
      </body>
    </tt>
    "#;

fn example_result() -> TTMLResult {
    let mut line = LyricLine {
        start_time: 5000,
        end_time: 10000,
        ..Default::default()
    };
    line.push_word(Syllable {
        text: "Hello".to_string(),
        start_time: 5100,
        end_time: 5500,
        ends_with_space: Some(true),
        ..Default::default()
    });
    line.push_word(Syllable {
        text: "world".to_string(),
        start_time: 5600,
        end_time: 6000,
        ..Default::default()
    });
    TTMLResult {
        metadata: TTMLMetadata {
            timing_mode: Some("word".to_string()),
            language: Some("en".to_string()),
            ..Default::default()
        },
        lines: vec![line],
    }
}

fn parse_error(doc: &str) -> (ParseErrorKind, Vec<String>, Option<String>, Option<String>) {
    match parse_ttml(doc) {
        Err(TTMLProcessorError::ParseError { kind, context }) => {
            (kind, context.tag_stack.clone(), context.current_attribute.clone(), context.offending_string.clone())
        },
        other => panic!("Expected ParseError, got {other:?}"),
    }
}

#[test]
fn parsing_example() {
    let parsed_data = parse_ttml(EXAMPLE_DOC).expect("Failed to parse TTML");

    assert_eq!(parsed_data.lines.len(), 1);
    let first_line = &parsed_data.lines[0];
    assert_eq!(first_line.start_time, 5000);
    assert_eq!(first_line.text, "Hello world");

    let syllables = first_line.words.as_ref().expect("Should have syllables in first line");
    assert_eq!(syllables.len(), 2);
    assert_eq!(syllables[0].text, "Hello");
    assert_eq!(syllables[0].start_time, 5100);
    assert_eq!(syllables[0].ends_with_space, Some(true));
    assert_eq!(parsed_data.metadata.timing_mode.as_deref(), Some("word"));
}

#[test]
fn generation_example() {
    let config = GeneratorConfig { use_apple_format_rules: false, format: true, line_timing: false };
    let ttml = generate_ttml(&example_result(), &config).expect("Failed to generate TTML");

    assert!(ttml.starts_with("<tt xmlns=\"http://www.w3.org/ns/ttml\""));
    assert!(ttml.contains("itunes:timing=\"word\""));
    assert!(ttml.contains("xml:lang=\"en\""));
    assert!(ttml.contains("<p begin=\"5.000\" end=\"10.000\" itunes:key=\"L1\">"));
    assert!(ttml.contains("<span begin=\"5.100\" end=\"5.500\">Hello </span>"));
    assert!(ttml.contains("<span begin=\"5.600\" end=\"6.000\">world</span>"));
    assert!(ttml.contains('\n'));
}

#[test]
fn compact_generation_has_no_line_breaks() {
    let config = GeneratorConfig { use_apple_format_rules: false, format: false, line_timing: false };
    let ttml = generate_ttml(&example_result(), &config).expect("Failed to generate TTML");
    assert!(!ttml.contains('\n'));
    assert!(ttml.contains("<body dur=\"10.000\">"));
    assert!(ttml.ends_with("</tt>"));
}

#[test]
fn generated_document_parses_back_to_the_same_lines() {
    for format in [false, true] {
        for apple in [false, true] {
            let first = parse_ttml(EXAMPLE_DOC).expect("Failed to parse TTML");
            let config = GeneratorConfig { use_apple_format_rules: apple, format, line_timing: false };
            let ttml = generate_ttml(&first, &config).expect("Failed to generate TTML");
            let again = parse_ttml(&ttml).expect("Failed to parse generated TTML");

            assert_eq!(again.lines.len(), first.lines.len());
            let (a, b) = (&again.lines[0], &first.lines[0]);
            assert_eq!(a.text, b.text);
            assert_eq!(a.start_time, b.start_time);
            assert_eq!(a.end_time, b.end_time);
            let (wa, wb) = (a.words.as_ref().unwrap(), b.words.as_ref().unwrap());
            assert_eq!(wa.len(), wb.len());
            for (x, y) in wa.iter().zip(wb.iter()) {
                assert_eq!(x.text, y.text);
                assert_eq!(x.start_time, y.start_time);
                assert_eq!(x.end_time, y.end_time);
                assert_eq!(x.ends_with_space, y.ends_with_space);
            }
            assert_eq!(again.metadata.timing_mode, first.metadata.timing_mode);
        }
    }
}

#[test]
fn line_timing_writes_plain_line_text() {
    let mut result = example_result();
    result.lines[0].text = "Hello world".to_string();
    let config = GeneratorConfig { use_apple_format_rules: false, format: false, line_timing: true };
    let ttml = generate_ttml(&result, &config).expect("Failed to generate TTML");

    assert!(ttml.contains("itunes:timing=\"Line\""));
    assert!(!ttml.contains("itunes:timing=\"word\""));
    assert!(!ttml.contains("<span"));
    assert!(ttml.contains("<p begin=\"5.000\" end=\"10.000\" itunes:key=\"L1\">Hello world</p>"));
}

#[test]
fn word_timed_translation_goes_to_the_head() {
    let mut result = example_result();
    result.lines[0].id = Some("L1".into());
    result.lines[0].translations = Some(vec![SubLyricContent {
        language: Some("zh-Hans".into()),
        text: "你好世界".into(),
        words: Some(vec![
            Syllable { text: "你好".into(), start_time: 5100, end_time: 5500, ..Default::default() },
            Syllable { text: "世界".into(), start_time: 5600, end_time: 6000, ..Default::default() },
        ]),
    }]);
    let config = GeneratorConfig { use_apple_format_rules: false, format: false, line_timing: false };
    let ttml = generate_ttml(&result, &config).expect("Failed to generate TTML");
    assert!(ttml.contains("<translation"));
    assert!(ttml.contains("<text for=\"L1\">"));

    let again = parse_ttml(&ttml).expect("Failed to parse generated TTML");
    let tr = again.lines[0].translations.as_ref().expect("translation kept");
    assert_eq!(tr.len(), 1);
    assert_eq!(tr[0].text, "你好世界");
    assert_eq!(tr[0].language.as_deref(), Some("zh-Hans"));
    assert_eq!(tr[0].words.as_ref().unwrap().len(), 2);
}

#[test]
fn line_translation_is_inline_without_apple_rules() {
    let mut result = example_result();
    result.lines[0].id = Some("L1".into());
    result.lines[0].translations = Some(vec![SubLyricContent {
        language: Some("zh-Hans".into()),
        text: "你好世界".into(),
        words: None,
    }]);
    let config = GeneratorConfig { use_apple_format_rules: false, format: false, line_timing: false };
    let ttml = generate_ttml(&result, &config).expect("Failed to generate TTML");
    assert!(ttml.contains("<span ttm:role=\"x-translation\" xml:lang=\"zh-Hans\">你好世界</span>"));

    let apple = GeneratorConfig { use_apple_format_rules: true, format: false, line_timing: false };
    let ttml = generate_ttml(&result, &apple).expect("Failed to generate TTML");
    assert!(!ttml.contains("x-translation"));
    assert!(ttml.contains("<translation"));
}

#[test]
fn timestamp_roundtrip_on_values() {
    for t in [0u32, 1, 46, 999, 1000, 59_999, 60_000, 216_120, 3_599_999, 3_600_000, 3_816_120, u32::MAX] {
        let s = format_timestamp(t);
        assert_eq!(parse_timestamp(s.as_bytes()), Some(t), "{s}");
    }
}

#[test]
fn timestamp_edge_cases() {
    assert_eq!(parse_timestamp(b"1.5"), Some(1500));
    assert_eq!(parse_timestamp(b"1.05"), Some(1050));
    assert_eq!(parse_timestamp(b"12"), Some(12000));
    assert_eq!(parse_timestamp(b" 2.000"), None);
    assert_eq!(parse_timestamp(b"1:1:1:1"), None);
    assert_eq!(parse_timestamp(b""), Some(0));
    assert_eq!(parse_timestamp(b"1.2345"), Some(1234));
    assert_eq!(parse_timestamp(b"99999999"), None);
}

#[test]
fn normalizing_text_twice_changes_nothing() {
    let mut s = String::from("  a \t b\n\n c  ");
    normalize_line_text(&mut s);
    assert_eq!(s, "a b c");
    let once = s.clone();
    normalize_line_text(&mut s);
    assert_eq!(s, once);
}

#[test]
fn full_text_has_no_trailing_space() {
    let words = vec![
        Syllable { text: "Hello".into(), ends_with_space: Some(true), ..Default::default() },
        Syllable { text: "world".into(), ends_with_space: Some(true), ..Default::default() },
    ];
    assert_eq!(build_full_text(&words, false), "Hello world");
    assert_eq!(build_full_text(&words, true), "Hello world");
}

#[test]
fn error_kinds_have_names_and_messages() {
    let (kind, stack, attr, offending) = parse_error(
        r#"<tt><body><div><p begin="0" end="1"><span begin="1:xx" end="2">a</span></p></div></body></tt>"#,
    );
    assert_eq!(kind.name(), "InvalidTimestamp");
    assert_eq!(kind.message(), "Invalid timestamp format: 1:xx");
    assert_eq!(stack, vec!["tt", "body", "div", "p", "span"]);
    assert_eq!(attr.as_deref(), Some("begin"));
    assert_eq!(offending.as_deref(), Some("1:xx"));

    let (kind, _, _, _) = parse_error("<tt><body><div><p begin=\"0\" end=\"1\">&bogus;</p></div></body></tt>");
    assert_eq!(kind.name(), "EntityError");
    assert_eq!(kind.message(), "Unknown XML entity: bogus");

    let (kind, _, _, _) = parse_error("<tt><body></div></body></tt>");
    assert_eq!(kind.name(), "XmlError");
    assert!(kind.message().starts_with("XML parsing error: "));

    let (kind, _, _, _) = parse_error("<tt><body><div><p begin=\"0\" end=\"1\" bad>x</p></div></body></tt>");
    assert_eq!(kind.name(), "AttrError");
    assert!(kind.message().starts_with("XML attribute error: "));

    let (kind, _, attr, _) = parse_error("<tt><head><metadata><ttm:agent type=\"person\"/></metadata></head></tt>");
    assert_eq!(kind.name(), "MissingAttribute");
    assert_eq!(kind.message(), "Missing required attribute: xml:id");
    assert_eq!(attr.as_deref(), Some("xml:id"));

    let (kind, _, _, _) = parse_error("<tt><body><div>");
    assert_eq!(kind.name(), "UnexpectedEof");
    assert_eq!(kind.message(), "Unexpected end of file");
}

#[test]
fn parse_error_message_tells_the_offset() {
    let doc = "<tt><body><div>";
    let err = parse_ttml(doc).unwrap_err();
    let offset = match &err {
        TTMLProcessorError::ParseError { context, .. } => context.byte_offset,
        _ => panic!("Expected ParseError"),
    };
    assert_eq!(err.message(), format!("Unexpected end of file (at byte offset {offset})"));
    assert_eq!(TTMLProcessorError::IoError("disk".into()).message(), "IO error: disk");
}

#[test]
fn js_error_carries_the_context() {
    let err = parse_ttml("<tt><body><div><p begin=\"0\" end=\"1\" itunes:key=\"L7\"><span begin=\"0\" end=\"1\">x").unwrap_err();
    let js = JsError::from_error(&err);
    assert_eq!(js.kind, "UnexpectedEof");
    assert_eq!(js.message, err.message());
    assert_eq!(js.line_id.as_deref(), Some("L7"));
    assert_eq!(js.tag_stack, Some(vec!["tt".to_string(), "body".into(), "div".into(), "p".into(), "span".into()]));
    assert!(js.byte_offset.is_some());

    let io = JsError::from_error(&TTMLProcessorError::IoError("x".into()));
    assert_eq!(io.kind, "IoError");
    assert_eq!(io.message, "IO error: x");
    assert_eq!(io.byte_offset, None);
    assert_eq!(io.tag_stack, None);
}

#[test]
fn entities_and_escaped_attributes_are_decoded() {
    let doc = r#"<tt><head><metadata><amll:meta key="album" value="A &amp; B"/></metadata></head>
        <body><div><p begin="0" end="1">&lt;x&gt; &#65;</p></div></body></tt>"#;
    let r = parse_ttml(doc).expect("parses");
    assert_eq!(r.metadata.album.as_ref().unwrap()[0], "A & B");
    assert_eq!(r.lines[0].text, "<x> A");
}

#[test]
fn agents_keep_their_order_and_names() {
    let doc = r#"<tt><head><metadata>
        <ttm:agent type="person" xml:id="v2"><ttm:name type="full">B</ttm:name></ttm:agent>
        <ttm:agent type="group" xml:id="v1"/>
        </metadata></head><body/></tt>"#;
    let r = parse_ttml(doc).expect("parses");
    let agents = r.metadata.agents.as_ref().unwrap();
    let ids: Vec<&str> = agents.keys().map(|k| k.as_str()).collect();
    assert_eq!(ids, vec!["v2", "v1"]);
    assert_eq!(agents.get("v2").unwrap().name.as_deref(), Some("B"));
    assert_eq!(agents.get("v1").unwrap().type_.as_deref(), Some("group"));
}

#[test]
fn head_translations_need_a_line_id() {
    let mut result = example_result();
    result.lines[0].translations = Some(vec![SubLyricContent {
        language: Some("zh-Hans".into()),
        text: "你好世界".into(),
        words: None,
    }]);
    let apple = GeneratorConfig { use_apple_format_rules: true, format: false, line_timing: false };
    let ttml = generate_ttml(&result, &apple).expect("Failed to generate TTML");
    assert!(ttml.contains("<iTunesMetadata"));
    assert!(!ttml.contains("<text for="));
}

#[test]
fn rich_lyric_generates_well_formed_xml() {
    let doc = r#"<tt xmlns="http://www.w3.org/ns/ttml" itunes:timing="Word" xml:lang="ja">
      <head><metadata>
        <ttm:agent type="person" xml:id="v1"><ttm:name type="full">A</ttm:name></ttm:agent>
        <ttm:agent type="group" xml:id="v2"/>
        <amll:meta key="musicName" value="T"/><amll:meta key="ncmMusicId" value="1"/><amll:meta key="x" value="y"/>
        <iTunesMetadata xmlns="http://music.apple.com/lyric-ttml-internal">
          <translations><translation xml:lang="en"><text for="L1">I</text></translation></translations>
          <songwriters><songwriter>S</songwriter></songwriters>
        </iTunesMetadata>
      </metadata></head>
      <body><div itunes:songPart="Verse">
        <p begin="1.000" end="3.000" itunes:key="L1" ttm:agent="v1">
          <span tts:ruby="container"><span tts:ruby="base">私</span><span tts:ruby="textContainer">
            <span tts:ruby="text" begin="1.000" end="1.500">わ</span><span tts:ruby="text" begin="1.500" end="2.000">た</span>
          </span></span>
          <span begin="2.000" end="3.000" amll:obscene="true">x</span>
          <span ttm:role="x-bg" begin="2.000" end="3.000"><span begin="2.000" end="3.000">(bg)</span></span>
        </p>
      </div></body></tt>"#;
    let parsed = parse_ttml(doc).expect("parses");
    for apple in [false, true] {
        for format in [false, true] {
            for line_timing in [false, true] {
                let config = GeneratorConfig { use_apple_format_rules: apple, format, line_timing };
                let ttml = generate_ttml(&parsed, &config).expect("generates");
                let again = parse_ttml(&ttml).expect("the generated document is well formed");
                assert_eq!(again.lines.len(), 1);
                assert_eq!(again.metadata.songwriters, parsed.metadata.songwriters);
                if line_timing {
                    assert!(again.lines[0].background_vocal.is_none());
                } else {
                    assert_eq!(again.lines[0].words.as_ref().unwrap().len(), 2);
                    assert!(again.lines[0].background_vocal.is_some());
                }
            }
        }
    }
}

#[test]
fn each_paragraph_gives_one_line_in_its_block() {
    let doc = r#"<tt><body>
        <div itunes:songPart="Verse">
          <p begin="1.000" end="2.000">one</p>
          <p begin="2.000" end="3.000">two</p>
        </div>
        <div itunes:song-part="Chorus">
          <p begin="3.000" end="4.000">three</p>
        </div>
        <div>
          <p begin="4.000" end="5.000">four</p>
        </div>
      </body></tt>"#;
    let result = parse_ttml(doc).unwrap();
    let texts: Vec<&str> = result.lines.iter().map(|l| l.text.as_str()).collect();
    assert_eq!(texts, vec!["one", "two", "three", "four"]);
    let parts: Vec<Option<&str>> = result.lines.iter().map(|l| l.song_part.as_deref()).collect();
    assert_eq!(parts, vec![Some("Verse"), Some("Verse"), Some("Chorus"), None]);
    let blocks: Vec<Option<u32>> = result.lines.iter().map(|l| l.block_index).collect();
    assert_eq!(blocks, vec![Some(1), Some(1), Some(2), Some(3)]);
}
