use ttml_processor::amll::model::{
    AmllLyricLine, AmllLyricResult, AmllLyricWord, AmllMetadata, AmllToTtmlOptions, TtmlToAmllOptions,
};
use ttml_processor::amll::to_amll::to_amll_lyrics;
use ttml_processor::amll::to_ttml::to_ttml_result;
use ttml_processor::model::{
    Agent, BackgroundVocal, LyricLine, PlatformId, SubLyricContent, Syllable, TTMLMetadata, TTMLResult,
};

fn create_amll_word(word: &str, start_time: u32, end_time: u32) -> AmllLyricWord {
    AmllLyricWord {
        word: word.to_string(),
        start_time,
        end_time,
        ..Default::default()
    }
}

fn create_syllable(text: &str, start: u32, end: u32, ends_with_space: bool) -> Syllable {
    Syllable {
        text: text.to_string(),
        start_time: start,
        end_time: end,
        ends_with_space: Some(ends_with_space),
        ..Default::default()
    }
}

#[test]
fn test_metadata_conversion() {
    let amll_result = AmllLyricResult {
        lines: vec![],
        metadata: vec![
            AmllMetadata { key: "title".to_string(), value: vec!["Test Song".to_string()] },
            AmllMetadata {
                key: "artists".to_string(),
                value: vec!["Artist A".to_string(), "Artist B".to_string()],
            },
            AmllMetadata { key: "ncmMusicId".to_string(), value: vec!["123456".to_string()] },
            AmllMetadata { key: "CUSTOM_KEY".to_string(), value: vec!["custom_val".to_string()] },
        ],
    };

    let result = to_ttml_result(amll_result, None);
    let meta = result.metadata;

    assert_eq!(meta.title.as_ref().unwrap()[0], "Test Song");
    assert_eq!(meta.artist.as_ref().unwrap().len(), 2);
    assert_eq!(meta.artist.as_ref().unwrap()[1], "Artist B");

    let platform_ids = meta.platform_ids.unwrap();
    assert_eq!(platform_ids.get(&PlatformId::NcmMusicId).unwrap()[0], "123456");

    let raw_props = meta.raw_properties.unwrap();
    assert_eq!(raw_props.get("CUSTOM_KEY").unwrap()[0], "custom_val");

    let agents = meta.agents.unwrap();
    assert!(agents.contains_key("v1"));
}

#[test]
fn test_bg_and_duet_logic() {
    let amll_result = AmllLyricResult {
        metadata: vec![],
        lines: vec![
            AmllLyricLine {
                words: vec![create_amll_word("Hello ", 0, 500), create_amll_word("World", 500, 1000)],
                translated_lyric: String::new(),
                roman_lyric: String::new(),
                is_bg: false,
                is_duet: false,
                start_time: 0,
                end_time: 1000,
            },
            AmllLyricLine {
                words: vec![create_amll_word("你好 ", 1000, 1500), create_amll_word("世界", 1500, 2000)],
                translated_lyric: String::new(),
                roman_lyric: String::new(),
                is_bg: false,
                is_duet: true,
                start_time: 1000,
                end_time: 2000,
            },
            AmllLyricLine {
                words: vec![create_amll_word("(echo)", 1500, 2000)],
                translated_lyric: String::new(),
                roman_lyric: String::new(),
                is_bg: true,
                is_duet: false,
                start_time: 1500,
                end_time: 2000,
            },
            AmllLyricLine {
                words: vec![create_amll_word("(solo)", 2000, 3000)],
                translated_lyric: String::new(),
                roman_lyric: String::new(),
                is_bg: true,
                is_duet: false,
                start_time: 2000,
                end_time: 3000,
            },
        ],
    };

    let result = to_ttml_result(amll_result, None);

    assert_eq!(result.lines.len(), 3);

    assert_eq!(result.lines[0].text, "Hello World");
    assert_eq!(result.lines[0].words.as_ref().unwrap()[0].ends_with_space, Some(true));
    assert_eq!(result.lines[0].agent_id.as_deref(), Some("v1"));
    assert!(result.lines[0].background_vocal.is_none());

    assert_eq!(result.lines[1].text, "你好 世界");
    assert_eq!(result.lines[1].words.as_ref().unwrap()[0].ends_with_space, Some(true));
    assert_eq!(result.lines[1].agent_id.as_deref(), Some("v2"));

    let bg = result.lines[1].background_vocal.as_ref().expect("Should have background vocal");
    assert_eq!(bg.text, "echo");

    assert_eq!(result.lines[2].text, "solo");
    assert_eq!(result.lines[2].agent_id.as_deref(), Some("v2"));

    let agents = result.metadata.agents.unwrap();
    assert!(agents.contains_key("v2"));
}

#[test]
fn test_sub_lyric() {
    let mut word_with_rom = create_amll_word("君", 0, 500);
    word_with_rom.roman_word = Some("kimi".to_string());

    let amll_result = AmllLyricResult {
        metadata: vec![],
        lines: vec![AmllLyricLine {
            words: vec![word_with_rom],
            translated_lyric: "You".to_string(),
            roman_lyric: "ki mi".to_string(),
            is_bg: false,
            is_duet: false,
            start_time: 0,
            end_time: 500,
        }],
    };

    let options = AmllToTtmlOptions {
        translation_language: Some("en-US".to_string()),
        romanization_language: Some("ja-Latn".to_string()),
    };

    let result = to_ttml_result(amll_result, Some(&options));
    let line = &result.lines[0];

    let trans = line.translations.as_ref().unwrap();
    assert_eq!(trans.len(), 1);
    assert_eq!(trans[0].language.as_deref(), Some("en-US"));
    assert_eq!(trans[0].text, "You");

    let roms = line.romanizations.as_ref().unwrap();
    assert_eq!(roms.len(), 1);
    assert_eq!(roms[0].language.as_deref(), Some("ja-Latn"));

    let rom_words = roms[0].words.as_ref().unwrap();
    assert_eq!(rom_words[0].text, "kimi");
}

#[test]
fn test_basic_conversion_and_metadata() {
    let mut metadata = TTMLMetadata::default();
    metadata.push_title("Test Song".to_string());
    metadata.push_artist("Test Artist".to_string());
    metadata.push_platform_id(PlatformId::NcmMusicId, "12345".to_string());
    metadata.language = Some("en-US".to_string());

    let line = LyricLine {
        text: "Hello World".to_string(),
        start_time: 0,
        end_time: 1000,
        words: Some(vec![
            create_syllable("Hello", 0, 500, true),
            create_syllable("World", 500, 1000, false),
        ]),
        ..Default::default()
    };

    let ttml_result = TTMLResult { metadata, lines: vec![line] };

    let amll_result = to_amll_lyrics(ttml_result, None);

    let meta_map: std::collections::HashMap<String, Vec<String>> =
        amll_result.metadata.iter().map(|m| (m.key.clone(), m.value.clone())).collect();

    assert_eq!(meta_map.get("title").unwrap()[0], "Test Song");
    assert_eq!(meta_map.get("artists").unwrap()[0], "Test Artist");
    assert_eq!(meta_map.get("ncmMusicId").unwrap()[0], "12345");
    assert_eq!(meta_map.get("language").unwrap()[0], "en-US");

    assert_eq!(amll_result.lines.len(), 1);
    let amll_line = &amll_result.lines[0];
    assert_eq!(amll_line.start_time, 0);
    assert_eq!(amll_line.end_time, 1000);
    assert!(!amll_line.is_bg);
    assert_eq!(amll_line.words.len(), 2);
    assert_eq!(amll_line.words[0].word, "Hello ");
    assert_eq!(amll_line.words[1].word, "World");
}

#[test]
fn test_background_vocal_flattening() {
    let mut line = LyricLine {
        text: "Main Line".to_string(),
        start_time: 0,
        end_time: 2000,
        words: Some(vec![
            create_syllable("Main", 0, 1000, true),
            create_syllable("Line", 1000, 2000, false),
        ]),
        ..Default::default()
    };

    line.background_vocal = Some(BackgroundVocal {
        text: "(Bg Line)".to_string(),
        start_time: 500,
        end_time: 1500,
        words: Some(vec![create_syllable("Bg", 500, 1000, true), create_syllable("Line", 1000, 1500, false)]),
        ..Default::default()
    });

    let ttml_result = TTMLResult { metadata: TTMLMetadata::default(), lines: vec![line] };

    let amll_result = to_amll_lyrics(ttml_result, None);

    assert_eq!(amll_result.lines.len(), 2);

    assert!(!amll_result.lines[0].is_bg);
    assert_eq!(amll_result.lines[0].words[0].word, "Main ");

    assert!(amll_result.lines[1].is_bg);
    assert_eq!(amll_result.lines[1].words[0].word, "Bg ");
    assert_eq!(amll_result.lines[1].start_time, 500);
}

#[test]
fn test_sub_lyric_extraction() {
    let mut line = LyricLine {
        text: "你好".to_string(),
        start_time: 0,
        end_time: 1000,
        words: Some(vec![create_syllable("你", 0, 500, false), create_syllable("好", 500, 1000, false)]),
        ..Default::default()
    };

    line.translations = Some(vec![
        SubLyricContent { language: Some("en".to_string()), text: "Hello".to_string(), words: None },
        SubLyricContent { language: Some("zh-Hant".to_string()), text: "你好".to_string(), words: None },
    ]);

    line.romanizations = Some(vec![SubLyricContent {
        language: Some("zh-Latn".to_string()),
        text: "ni hao".to_string(),
        words: Some(vec![create_syllable("ni", 5, 505, true), create_syllable("hao", 498, 1005, false)]),
    }]);

    let ttml_result = TTMLResult { metadata: TTMLMetadata::default(), lines: vec![line] };

    let options = TtmlToAmllOptions {
        translation_language: Some("zh-Hant".to_string()),
        romanization_language: Some("zh-Latn".to_string()),
    };

    let amll_result = to_amll_lyrics(ttml_result, Some(&options));
    let amll_line = &amll_result.lines[0];

    assert_eq!(amll_line.translated_lyric, "你好");

    assert_eq!(amll_line.words.len(), 2);
    assert_eq!(amll_line.words[0].roman_word.as_deref(), Some("ni"));
    assert_eq!(amll_line.words[1].roman_word.as_deref(), Some("hao"));
}

#[test]
fn test_duet_state_machine() {
    let mut metadata = TTMLMetadata::default();
    for (id, ty) in [("v1", "person"), ("v2", "person"), ("v3", "person"), ("v4", "other"), ("v1000", "group")] {
        metadata.insert_agent(Agent { id: id.to_string(), type_: Some(ty.to_string()), ..Default::default() });
    }

    let create_line = |agent_id: &str| LyricLine {
        agent_id: Some(agent_id.to_string()),
        words: Some(vec![create_syllable("Test", 0, 100, false)]),
        ..Default::default()
    };

    let ttml_result = TTMLResult {
        metadata,
        lines: vec![
            create_line("v4"),
            create_line("v4"),
            create_line("v1"),
            create_line("v1"),
            create_line("v2"),
            create_line("v3"),
            create_line("v1000"),
            create_line("v1000"),
            create_line("v1"),
            create_line("v2"),
        ],
    };

    let amll_result = to_amll_lyrics(ttml_result, None);

    let duet_states: Vec<bool> = amll_result.lines.iter().map(|l| l.is_duet).collect();
    assert_eq!(
        duet_states,
        vec![true, true, false, false, true, false, false, false, true, false],
        "对唱状态机计算错误"
    );
}

#[test]
fn amll_group_line_leaves_alternation() {
    let mut metadata = TTMLMetadata::default();
    metadata.insert_agent(Agent { id: "g".to_string(), type_: Some("GROUP".to_string()), ..Default::default() });
    let mk = |a: &str| LyricLine { agent_id: Some(a.to_string()), text: "x".to_string(), ..Default::default() };
    let r = TTMLResult { metadata, lines: vec![mk("v1"), mk("g"), mk("v2")] };
    let out = to_amll_lyrics(r, None);
    let states: Vec<bool> = out.lines.iter().map(|l| l.is_duet).collect();
    assert_eq!(states, vec![false, false, true]);
}

#[test]
fn amll_line_count_counts_background_vocals() {
    let with_bg = LyricLine {
        text: "a".to_string(),
        background_vocal: Some(BackgroundVocal { text: "b".to_string(), ..Default::default() }),
        ..Default::default()
    };
    let plain = LyricLine { text: "c".to_string(), ..Default::default() };
    let r = TTMLResult { metadata: TTMLMetadata::default(), lines: vec![with_bg, plain] };
    let out = to_amll_lyrics(r, None);
    assert_eq!(out.lines.len(), 3);
    assert!(out.lines[1].is_bg);
    assert_eq!(out.lines[1].words[0].word, "b");
    assert_eq!(out.lines[2].words.len(), 1);
    assert_eq!(out.lines[2].words[0].word, "c");
}

#[test]
fn amll_metadata_drops_blank_values_and_keeps_order() {
    let mut metadata = TTMLMetadata::default();
    metadata.push_title("  ".to_string());
    metadata.push_artist("A".to_string());
    metadata.push_artist(" ".to_string());
    metadata.timing_mode = Some("Word".to_string());
    metadata.push_raw_property("k".to_string(), " ".to_string());
    let out = to_amll_lyrics(TTMLResult { metadata, lines: vec![] }, None);
    let keys: Vec<&str> = out.metadata.iter().map(|m| m.key.as_str()).collect();
    assert_eq!(keys, vec!["artists", "timingMode", "k"]);
    assert_eq!(out.metadata[0].value, vec!["A".to_string()]);
    assert_eq!(out.metadata[2].value, vec![" ".to_string()]);
}

#[test]
fn amll_takes_first_content_without_preferred_language() {
    let line = LyricLine {
        text: "t".to_string(),
        translations: Some(vec![
            SubLyricContent { language: Some("en".to_string()), text: "one".to_string(), words: None },
            SubLyricContent { language: Some("fr".to_string()), text: "two".to_string(), words: None },
        ]),
        romanizations: Some(vec![SubLyricContent { language: None, text: " ro ".to_string(), words: None }]),
        ..Default::default()
    };
    let options = TtmlToAmllOptions { translation_language: Some("de".to_string()), romanization_language: None };
    let out = to_amll_lyrics(TTMLResult { metadata: TTMLMetadata::default(), lines: vec![line] }, Some(&options));
    assert_eq!(out.lines[0].translated_lyric, "one");
    assert_eq!(out.lines[0].roman_lyric, " ro ");
    assert_eq!(out.lines[0].words[0].roman_word.as_deref(), Some("ro"));
}

#[test]
fn ttml_lines_are_numbered_in_order() {
    let mk = |w: &str, bg: bool| AmllLyricLine {
        words: vec![create_amll_word(w, 0, 10)],
        is_bg: bg,
        start_time: 0,
        end_time: 10,
        ..Default::default()
    };
    let r = AmllLyricResult { lines: vec![mk("a", true), mk("b", false), mk("c", false)], metadata: vec![] };
    let out = to_ttml_result(r, None);
    let ids: Vec<&str> = out.lines.iter().map(|l| l.id.as_deref().unwrap()).collect();
    assert_eq!(ids, vec!["L1", "L2", "L3"]);
    assert!(out.lines.iter().all(|l| l.agent_id.as_deref() == Some("v1")));
    assert!(!out.metadata.agents.as_ref().unwrap().contains_key("v2"));
}

#[test]
fn ttml_default_translation_language() {
    let r = AmllLyricResult {
        lines: vec![AmllLyricLine {
            words: vec![create_amll_word("a", 0, 10)],
            translated_lyric: "  x   y ".to_string(),
            ..Default::default()
        }],
        metadata: vec![AmllMetadata { key: "language".to_string(), value: vec![] }],
    };
    let out = to_ttml_result(r, None);
    let t = &out.lines[0].translations.as_ref().unwrap()[0];
    assert_eq!(t.language.as_deref(), Some("zh-Hans"));
    assert_eq!(t.text, "x y");
    assert_eq!(out.metadata.language, None);
}
