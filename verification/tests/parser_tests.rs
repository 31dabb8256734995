use ttml_processor::model::{BackgroundVocal, LyricLine, PlatformId, SubLyricContent, Syllable};
use ttml_processor::parser::body::{parse_body, parse_line, parse_section, post_process_line};
use ttml_processor::parser::head::{parse_agent, parse_amll_meta, parse_head, parse_songwriters};
use ttml_processor::parser::span::process_span;
use ttml_processor::parser::state::ParserContext;
use ttml_processor::parser::sub_lyric::{
    parse_sub_lyric_block, parse_sub_lyric_text, parse_sub_lyrics, SubLyricType,
};
use ttml_processor::parse_ttml;
use ttml_processor::parser::parse_events;
use ttml_processor::xml::{read_xml_events, XmlAttr, XmlToken};

/// The position after the first start tag named `tag` (any tag when `None`), its attributes
/// and the byte position at which it was read.
fn find_start(t: &[XmlToken], tag: Option<&str>) -> (usize, Vec<XmlAttr>, u64) {
    for (i, tok) in t.iter().enumerate() {
        if let XmlToken::Start { name, pos, .. } = tok {
            if tag.map_or(true, |g| name.as_slice() == g.as_bytes()) {
                return (i + 1, tok.attributes(), *pos);
            }
        }
    }
    panic!("Reached EOF before finding start tag");
}

#[test]
fn test_post_process_line() {
    let mut line = LyricLine {
        start_time: 1000,
        end_time: 2000,
        background_vocal: Some(BackgroundVocal {
            words: Some(vec![
                Syllable {
                    text: "(Ah".into(),
                    ends_with_space: Some(true),
                    ..Default::default()
                },
                Syllable {
                    text: "ha)".into(),
                    ..Default::default()
                },
            ]),
            ..Default::default()
        }),
        ..Default::default()
    };

    post_process_line(&mut line, "  raw   line   text  ".into());

    assert_eq!(line.text, "raw line text");
    assert_eq!(line.start_time, 1000);
    assert_eq!(line.end_time, 2000);

    let bg = line.background_vocal.as_ref().unwrap();
    assert_eq!(bg.text, "Ah ha");
    let bg_words = bg.words.as_ref().unwrap();
    assert_eq!(bg_words[0].text, "Ah");
    assert_eq!(bg_words[1].text, "ha");
}

#[test]
fn test_parse_line() {
    let xml = r#"<p begin="10.522" end="13.518" itunes:key="L3" ttm:agent="v1">
            <span begin="10.522" end="11.000">Hello</span>
        </p>"#;
    let t = read_xml_events(xml);
    let (i, attrs, pos) = find_start(&t, Some("p"));

    let mut context = ParserContext::default();
    context.translations_map.push(
        "L3".into(),
        SubLyricContent {
            language: Some("zh".into()),
            text: "你好".into(),
            words: None,
        },
    );
    context.last_song_part = Some("Verse".into());
    context.current_block_index = 1;

    let (line, _) = parse_line(&t, i, &mut context, &attrs, pos).expect("Failed to parse line");

    assert_eq!(line.id.as_deref(), Some("L3"));
    assert_eq!(line.agent_id.as_deref(), Some("v1"));
    assert_eq!(line.song_part.as_deref(), Some("Verse"));
    assert_eq!(line.block_index, Some(1));

    assert_eq!(line.start_time, 10522);
    assert_eq!(line.end_time, 13518);

    assert_eq!(line.text, "Hello");
    assert_eq!(line.words.unwrap().len(), 1);

    let translations = line.translations.unwrap();
    assert_eq!(translations.len(), 1);
    assert_eq!(translations[0].text, "你好");
    assert!(context.translations_map.is_empty());
}

#[test]
fn test_parse_section() {
    let xml = r#"<div itunes:songPart="Chorus">
            <p begin="0.0" end="1.0" itunes:key="L1">Line 1</p>
            <p begin="1.0" end="2.0" itunes:key="L2">Line 2</p>
        </div>"#;
    let t = read_xml_events(xml);
    let (i, attrs, pos) = find_start(&t, Some("div"));

    let mut context = ParserContext::default();
    let mut lines = Vec::new();

    parse_section(&t, i, &mut context, &mut lines, &attrs, pos).expect("Failed to parse section");

    assert_eq!(context.last_song_part.as_deref(), Some("Chorus"));
    assert_eq!(context.current_block_index, 1);

    assert_eq!(lines.len(), 2);
    assert_eq!(lines[0].id.as_deref(), Some("L1"));
    assert_eq!(lines[0].song_part.as_deref(), Some("Chorus"));
    assert_eq!(lines[0].block_index, Some(1));
    assert_eq!(lines[1].id.as_deref(), Some("L2"));
    assert_eq!(lines[1].song_part.as_deref(), Some("Chorus"));
    assert_eq!(lines[1].block_index, Some(1));
}

#[test]
fn test_parse_body() {
    let xml = r#"<body>
            <div itunes:songPart="Verse">
                <p begin="0.0" end="1.0">V1</p>
            </div>
            <div itunes:songPart="Chorus">
                <p begin="1.0" end="2.0">C1</p>
            </div>
        </body>"#;
    let t = read_xml_events(xml);
    let (i, _, _) = find_start(&t, Some("body"));

    let mut context = ParserContext::default();
    let mut lines = Vec::new();

    parse_body(&t, i, &mut context, &mut lines).expect("Failed to parse body");

    assert_eq!(lines.len(), 2);
    assert_eq!(lines[0].song_part.as_deref(), Some("Verse"));
    assert_eq!(lines[0].block_index, Some(1));
    assert_eq!(lines[1].song_part.as_deref(), Some("Chorus"));
    assert_eq!(lines[1].block_index, Some(2));
    assert_eq!(context.current_block_index, 2);
}

#[test]
fn test_parse_amll_meta() {
    let mut context = ParserContext::default();

    parse_amll_meta(&mut context, "musicName", "测试歌曲");
    parse_amll_meta(&mut context, "artists", "测试歌手");

    parse_amll_meta(&mut context, "ncmMusicId", "12345");
    parse_amll_meta(&mut context, "appleMusicId", "67890");

    parse_amll_meta(&mut context, "customKey", "customValue");

    assert_eq!(context.metadata.title.as_ref().unwrap()[0], "测试歌曲");
    assert_eq!(context.metadata.artist.as_ref().unwrap()[0], "测试歌手");

    let platforms = context.metadata.platform_ids.as_ref().unwrap();
    assert_eq!(platforms.get(&PlatformId::NcmMusicId).unwrap()[0], "12345");
    assert_eq!(platforms.get(&PlatformId::AppleMusicId).unwrap()[0], "67890");

    let raw_props = context.metadata.raw_properties.as_ref().unwrap();
    assert_eq!(raw_props.get("customKey").unwrap()[0], "customValue");
}

#[test]
fn test_parse_songwriters() {
    let xml = r"
        <songwriters>
            <songwriter>Lin-Manuel Miranda</songwriter>
            <songwriter>Germaine Franco</songwriter>
            <songwriter>   </songwriter> 
        </songwriters>";

    let t = read_xml_events(xml);
    let mut context = ParserContext::default();
    let (i, _, _) = find_start(&t, Some("songwriters"));

    parse_songwriters(&t, i, &mut context).expect("Failed to parse songwriters");

    let writers = context.metadata.songwriters.as_ref().unwrap();
    assert_eq!(writers.len(), 2);
    assert_eq!(writers[0], "Lin-Manuel Miranda");
    assert_eq!(writers[1], "Germaine Franco");
}

#[test]
fn test_parse_agent() {
    let xml = r#"
        <ttm:agent type="person" xml:id="v1">
            <ttm:name type="full">Ryan Gosling</ttm:name>
        </ttm:agent>"#;

    let t = read_xml_events(xml);
    let mut context = ParserContext::default();
    let (i, attrs, pos) = find_start(&t, Some("ttm:agent"));

    parse_agent(&t, i, &mut context, &attrs, pos).expect("Failed to parse agent");

    let agents = context.metadata.agents.as_ref().unwrap();
    assert!(agents.contains_key("v1"));

    let agent = agents.get("v1").unwrap();
    assert_eq!(agent.id, "v1");
    assert_eq!(agent.type_.as_deref(), Some("person"));
    assert_eq!(agent.name.as_deref(), Some("Ryan Gosling"));
}

#[test]
fn test_parse_head() {
    let xml = r#"
        <head>
            <metadata>
                <ttm:title>We Don't Talk About Bruno</ttm:title>
                <amll:meta key="album" value="Encanto" />
            </metadata>
        </head>"#;

    let t = read_xml_events(xml);
    let mut context = ParserContext::default();
    let (i, _, _) = find_start(&t, Some("head"));

    parse_head(&t, i, &mut context).expect("Failed to parse head");

    assert_eq!(context.metadata.title.as_ref().unwrap()[0], "We Don't Talk About Bruno");
    assert_eq!(context.metadata.album.as_ref().unwrap()[0], "Encanto");
}

/// Reads the first span of `xml` into a fresh line, as a main-vocal span.
fn span_into_line(xml: &str, what: &str) -> LyricLine {
    let t = read_xml_events(xml);
    let mut context = ParserContext::default();
    let (i, attrs, pos) = find_start(&t, None);
    let mut line = LyricLine::default();
    process_span(&t, i, &mut context, &attrs, pos, &mut line, false).expect(what);
    line
}

#[test]
fn test_process_span_basic_syllable() {
    let line = span_into_line(
        r#"<span begin="1:06.534" end="1:06.929">prophecies</span>"#,
        "Failed to process basic span",
    );

    let words = line.words.as_ref().unwrap();
    assert_eq!(words.len(), 1);
    assert_eq!(words[0].text, "prophecies");

    assert_eq!(words[0].start_time, 66534);
    assert_eq!(words[0].end_time, 66929);
}

#[test]
fn test_process_span_inline_translation() {
    let line = span_into_line(
        r#"<span ttm:role="x-translation" xml:lang="zh-CN">即便不计其数的女孩们对你趋之若鹜</span>"#,
        "Failed to process translation span",
    );

    assert!(line.words.is_none());

    let translations = line.translations.as_ref().unwrap();
    assert_eq!(translations.len(), 1);
    assert_eq!(translations[0].language.as_deref(), Some("zh-CN"));
    assert_eq!(translations[0].text, "即便不计其数的女孩们对你趋之若鹜");
}

#[test]
fn test_process_span_background_vocal() {
    let line = span_into_line(
        r#"
        <span ttm:role="x-bg" begin="21.890" end="24.080">
            <span begin="21.890" end="22.080">(And</span> <span begin="22.080" end="24.080">there's)</span>
        </span>"#,
        "Failed to process background vocal span",
    );

    assert!(line.words.is_none());

    let bg = line.background_vocal.as_ref().unwrap();
    assert_eq!(bg.start_time, 21890);
    assert_eq!(bg.end_time, 24080);

    let bg_words = bg.words.as_ref().unwrap();
    assert_eq!(bg_words.len(), 2);
    assert_eq!(bg_words[0].text, "(And");
    assert_eq!(bg_words[0].ends_with_space, Some(true));
    assert_eq!(bg_words[1].text, "there's)");
}

#[test]
fn test_process_ruby_container() {
    let line = span_into_line(
        r#"
        <span tts:ruby="container" amll:obscene="false">
            <span tts:ruby="base">私</span>
            <span tts:ruby="textContainer">
                <span tts:ruby="text" begin="5:08.760" end="5:09.040">わ</span>
                <span tts:ruby="text" begin="5:09.120" end="5:09.480">た</span>
                <span tts:ruby="text" begin="5:09.480" end="5:09.950">し</span>
            </span>
        </span>"#,
        "Failed to process ruby container span",
    );

    let words = line.words.as_ref().unwrap();
    assert_eq!(words.len(), 1);

    let word = &words[0];
    assert_eq!(word.text, "私");
    assert_eq!(word.obscene, Some(false));

    assert_eq!(word.start_time, 308_760);
    assert_eq!(word.end_time, 309_950);

    let rubies = word.ruby.as_ref().unwrap();
    assert_eq!(rubies.len(), 3);
    assert_eq!(rubies[0].text, "わ");
    assert_eq!(rubies[0].start_time, 308_760);
    assert_eq!(rubies[2].text, "し");
    assert_eq!(rubies[2].end_time, 309_950);
}

#[test]
fn test_process_span_amll_attributes() {
    let line = span_into_line(
        r#"<span begin="1:00" end="1:02" amll:obscene="true" amll:empty-beat="2">badword</span>"#,
        "Failed to process amll attributes span",
    );

    let words = line.words.as_ref().unwrap();
    assert_eq!(words.len(), 1);

    let word = &words[0];
    assert_eq!(word.text, "badword");

    assert_eq!(word.obscene, Some(true));
    assert_eq!(word.empty_beat, Some(2));
}

#[test]
fn test_process_ruby_container_amll_attributes() {
    let line = span_into_line(
        r#"
        <span tts:ruby="container" amll:obscene="true" amll:empty-beat="2">
            <span tts:ruby="base">XX</span>
            <span tts:ruby="textContainer">
                <span tts:ruby="text" begin="0.000" end="1.000">x</span>
                <span tts:ruby="text" begin="1.000" end="2.000">x</span>
            </span>
        </span>"#,
        "Failed to process ruby container with amll attributes",
    );

    let words = line.words.as_ref().unwrap();
    assert_eq!(words.len(), 1);

    let word = &words[0];
    assert_eq!(word.text, "XX");

    assert_eq!(word.obscene, Some(true));
    assert_eq!(word.empty_beat, Some(2));
}

#[test]
fn test_parse_sub_lyric_text() {
    let xml = r#"
        <text for="L1">
            <span begin="0.000" end="1.000">测</span>
            <span begin="1.000" end="2.000">试</span>
            <span ttm:role="x-bg">
                <span begin="1.000" end="2.000">(背景)</span>
            </span>
        </text>"#;

    let t = read_xml_events(xml);
    let mut context = ParserContext::default();
    let lang: Option<String> = Some("zh-Hans".into());
    let (i, _, _) = find_start(&t, Some("text"));

    parse_sub_lyric_text(&t, i, &mut context, "L1".into(), &lang, SubLyricType::Translation)
        .expect("Failed to parse sub lyric text");

    assert!(context.translations_map.contains_key("L1"));
    let main_content = &context.translations_map.get("L1").unwrap()[0];
    assert_eq!(main_content.language.as_deref(), Some("zh-Hans"));
    assert_eq!(main_content.text, "测试");
    assert_eq!(main_content.words.as_ref().unwrap().len(), 2);
    assert_eq!(main_content.words.as_ref().unwrap()[0].text, "测");

    assert!(context.bg_translations_map.contains_key("L1"));
    let bg_content = &context.bg_translations_map.get("L1").unwrap()[0];
    assert_eq!(bg_content.text, "(背景)");
    assert_eq!(bg_content.words.as_ref().unwrap().len(), 1);
    assert_eq!(bg_content.words.as_ref().unwrap()[0].text, "(背景)");
}

#[test]
fn test_parse_sub_lyric_block() {
    let xml = r#"
        <translation xml:lang="zh-Hans">
            <text for="L10">
                <span begin="0.0" end="1.0">第</span>
                <span begin="1.0" end="2.0">十</span>
                <span begin="2.0" end="3.0">行</span>
            </text>
            <text for="L11">只有纯文本翻译</text>
        </translation>"#;

    let t = read_xml_events(xml);
    let mut context = ParserContext::default();
    let lang: Option<String> = Some("zh-Hans".into());
    let (i, _, _) = find_start(&t, Some("translation"));

    parse_sub_lyric_block(&t, i, &mut context, "translation", &lang, SubLyricType::Translation)
        .expect("Failed to parse sub lyric block");

    assert!(context.translations_map.contains_key("L10"));
    let l10_content = &context.translations_map.get("L10").unwrap()[0];
    assert_eq!(l10_content.text, "第十行");
    assert!(l10_content.words.is_some());
    assert_eq!(l10_content.words.as_ref().unwrap().len(), 3);

    assert!(context.translations_map.contains_key("L11"));
    let l11_content = &context.translations_map.get("L11").unwrap()[0];
    assert_eq!(l11_content.text, "只有纯文本翻译");
    assert!(l11_content.words.is_none());
}

#[test]
fn test_parse_sub_lyrics() {
    let xml = r#"
        <transliterations>
            <transliteration xml:lang="zh-Latn-pinyin">
                <text for="L1">
                    <span begin="0.0" end="1.0">pīn</span> <span begin="1.0" end="2.0">yīn</span>
                </text>
                <text for="L2">
                    <span begin="1.0" end="2.0">abc</span>
                    <span begin="1.0" end="2.0">def</span>
                </text>
            </transliteration>
        </transliterations>"#;

    let t = read_xml_events(xml);
    let mut context = ParserContext::default();
    let (i, _, _) = find_start(&t, Some("transliterations"));

    parse_sub_lyrics(
        &t,
        i,
        &mut context,
        "transliterations",
        "transliteration",
        SubLyricType::Transliteration,
    )
    .expect("Failed to parse sub lyrics");

    assert!(context.romanizations_map.contains_key("L1"));
    assert!(context.translations_map.is_empty());

    let rom_content1 = &context.romanizations_map.get("L1").unwrap()[0];
    assert_eq!(rom_content1.language.as_deref(), Some("zh-Latn-pinyin"));
    assert_eq!(rom_content1.text, "pīn yīn");
    assert_eq!(rom_content1.words.as_ref().unwrap().len(), 2);

    let rom_content2 = &context.romanizations_map.get("L2").unwrap()[0];
    assert_eq!(rom_content2.language.as_deref(), Some("zh-Latn-pinyin"));
    assert_eq!(rom_content2.text, "abcdef");
    assert_eq!(rom_content2.words.as_ref().unwrap().len(), 2);
}

#[test]
fn parsing_events_gives_what_parsing_the_text_gives() {
    let xml = r#"<tt xml:lang="en" itunes:timing="Word"><head><metadata>
        <ttm:agent type="person" xml:id="v1"/></metadata></head>
        <body><div><p begin="1.000" end="2.000" ttm:agent="v1"><span begin="1.000" end="2.000">Hi</span></p></div></body></tt>"#;
    let t = read_xml_events(xml);
    assert!(matches!(t.last(), Some(XmlToken::Eof { .. })));
    let a = parse_events(&t).expect("parses");
    let b = parse_ttml(xml).expect("parses");
    assert_eq!(a.lines.len(), 1);
    assert_eq!(a.lines[0].text, b.lines[0].text);
    assert_eq!(a.lines[0].agent_id.as_deref(), Some("v1"));
    assert_eq!(a.metadata.language.as_deref(), Some("en"));
    assert_eq!(a.metadata.timing_mode.as_deref(), Some("Word"));
    assert_eq!(b.metadata.agents.as_ref().unwrap().len(), 1);
}

#[test]
fn a_syntax_error_ends_the_events() {
    let t = read_xml_events("<tt><body></div>");
    assert!(matches!(t.last(), Some(XmlToken::Error { .. })));
    assert!(t[..t.len() - 1].iter().all(|k| !matches!(k, XmlToken::Error { .. } | XmlToken::Eof { .. })));
}

#[test]
fn reading_a_line_clears_the_line_id() {
    let xml = r#"<p begin="1.000" end="2.000" itunes:key="L9">text</p>"#;
    let t = read_xml_events(xml);
    let (i, attrs, pos) = find_start(&t, Some("p"));
    let mut context = ParserContext::default();
    let (line, _) = parse_line(&t, i, &mut context, &attrs, pos).expect("parses");
    assert_eq!(line.id.as_deref(), Some("L9"));
    assert_eq!(line.text, "text");
    assert!(context.current_line_id.is_none());
}

#[test]
fn start_token_attributes_follow_the_name() {
    let tok = XmlToken::Start {
        name: b"p".to_vec(),
        content: "p begin=\"1.5\"".to_string(),
        pos: 0,
    };
    let attrs = tok.attributes();
    assert_eq!(attrs.len(), 1);
    match &attrs[0] {
        XmlAttr::Attr { key, value } => {
            assert_eq!(key, "begin");
            assert_eq!(value.as_slice(), b"1.5");
        }
        XmlAttr::Error { message } => panic!("unexpected attribute error: {message}"),
    }
}

#[test]
fn start_token_with_name_longer_than_its_text_has_no_attributes() {
    let tok = XmlToken::Start {
        name: b"a-name-longer-than-the-text".to_vec(),
        content: "p".to_string(),
        pos: 0,
    };
    assert!(tok.attributes().is_empty());
    let end = XmlToken::End { name: b"p".to_vec(), pos: 3 };
    assert!(end.attributes().is_empty());
}
