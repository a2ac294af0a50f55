use qingjian_shell::rows::{
    concat_before_cursor, preedit_string, CandidateText, Furigana, PreeditKind, PreeditSegment,
    Row, Sense, Tone,
};

fn segment(text: &str, kind: PreeditKind) -> PreeditSegment {
    PreeditSegment {
        text: text.to_string(),
        kind,
    }
}

fn pieces(row: &Row) -> Vec<(&str, Tone)> {
    row.annotation.iter().map(|(s, t)| (s.as_str(), *t)).collect()
}

#[test]
fn the_inline_line_skips_corrected_letters() {
    let segments = vec![
        segment("ni", PreeditKind::Typed),
        segment("g", PreeditKind::Corrected),
        segment("hao", PreeditKind::Rest),
    ];
    assert_eq!(preedit_string(&segments), "nihao");
    assert_eq!(preedit_string(&Vec::new()), "");
    assert_eq!(
        preedit_string(&vec![segment("x", PreeditKind::Corrected)]),
        ""
    );
}

#[test]
fn the_caret_follows_all_letters_before_it() {
    let segments = vec![
        segment("ni", PreeditKind::Typed),
        segment("g", PreeditKind::Corrected),
        segment("hao", PreeditKind::Rest),
    ];
    assert_eq!(concat_before_cursor(&segments, 0), "");
    assert_eq!(concat_before_cursor(&segments, 3), "nig");
    assert_eq!(concat_before_cursor(&segments, 4), "nigh");
    assert_eq!(concat_before_cursor(&segments, 99), "nighao");
}

#[test]
fn a_plain_candidate_has_no_annotation() {
    let candidate = CandidateText {
        text: "你好".to_string(),
        reading: None,
        senses: Vec::new(),
    };
    let row = Row::from_candidate(0, &candidate);
    assert_eq!(row.index, "1");
    assert_eq!(row.text, "你好");
    assert!(row.annotation.is_empty());
    assert!(!row.cloud);
    assert_eq!(Row::from_candidate(9, &candidate).index, "10");
}

#[test]
fn readings_come_first_and_senses_are_separated() {
    let candidate = CandidateText {
        text: "开发".to_string(),
        reading: Some("kāi fā".to_string()),
        senses: vec![
            Sense {
                part_of_speech: Some("v.".to_string()),
                fresh: false,
                furigana: vec![Furigana {
                    text: "develop".to_string(),
                    reading: None,
                }],
            },
            Sense {
                part_of_speech: None,
                fresh: true,
                furigana: vec![
                    Furigana {
                        text: "開発".to_string(),
                        reading: Some("かいはつ".to_string()),
                    },
                    Furigana {
                        text: "する".to_string(),
                        reading: None,
                    },
                ],
            },
        ],
    };
    let row = Row::from_candidate(2, &candidate);
    assert_eq!(row.index, "3");
    assert_eq!(
        pieces(&row),
        vec![
            ("kāi fā", Tone::Gloss),
            (" · ", Tone::Faint),
            ("v. ", Tone::Faint),
            ("develop", Tone::Gloss),
            (" · ", Tone::Faint),
            ("開発", Tone::Fresh),
            ("(かいはつ)", Tone::Faint),
            ("する", Tone::Fresh),
        ]
    );
}

#[test]
fn the_first_sense_without_reading_has_no_separator() {
    let candidate = CandidateText {
        text: "书".to_string(),
        reading: None,
        senses: vec![
            Sense {
                part_of_speech: None,
                fresh: false,
                furigana: vec![Furigana {
                    text: "book".to_string(),
                    reading: None,
                }],
            },
            Sense {
                part_of_speech: None,
                fresh: false,
                furigana: Vec::new(),
            },
        ],
    };
    let row = Row::from_candidate(0, &candidate);
    assert_eq!(
        pieces(&row),
        vec![("book", Tone::Gloss), (" · ", Tone::Faint)]
    );
}
