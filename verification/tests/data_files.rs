use qingjian_shell::data_files::{
    data_file_candidates_of, default_data_file, english_list_path, glossary_file_name,
    emoji_tables_of, join_path_of, pick_data_file, present_emoji_tables, with_extension_of, Args,
};
use std::path::{Path, PathBuf};

#[test]
fn candidates_go_from_packed_to_shipped() {
    assert_eq!(
        data_file_candidates_of("dict.tsv"),
        vec![
            "data/generated/dict.qj".to_string(),
            "data/generated/dict.tsv".to_string(),
            "assets/lexicon/dict.tsv".to_string(),
        ]
    );
    assert_eq!(
        data_file_candidates_of("glossary-en.tsv"),
        vec![
            "data/generated/glossary-en.qj".to_string(),
            "data/generated/glossary-en.tsv".to_string(),
            "assets/glossary/glossary-en.tsv".to_string(),
        ]
    );
}

#[test]
fn the_extension_is_replaced_like_path_with_extension() {
    assert_eq!(data_file_candidates_of("a.b.tsv")[0], "data/generated/a.b.qj");
    assert_eq!(data_file_candidates_of("plain")[0], "data/generated/plain.qj");
    assert_eq!(data_file_candidates_of(".env")[0], "data/generated/.env.qj");
}

#[test]
fn the_first_existing_candidate_wins() {
    assert_eq!(pick_data_file("dict.tsv", &[true, true, true]), "data/generated/dict.qj");
    assert_eq!(pick_data_file("dict.tsv", &[false, true, true]), "data/generated/dict.tsv");
    assert_eq!(pick_data_file("dict.tsv", &[false, false, true]), "assets/lexicon/dict.tsv");
    assert_eq!(pick_data_file("dict.tsv", &[false, false, false]), "assets/sample/dict.tsv");
    assert_eq!(pick_data_file("dict.tsv", &[]), "assets/sample/dict.tsv");
}

#[test]
fn without_data_files_the_sample_is_used() {
    // the test runs outside the repository, where none of the candidates exist
    assert_eq!(
        default_data_file("no-such-dictionary.tsv"),
        "assets/sample/no-such-dictionary.tsv"
    );
}

#[test]
fn glossary_files_are_named_by_language() {
    assert_eq!(glossary_file_name("en"), "glossary-en.tsv");
    assert_eq!(glossary_file_name("ja"), "glossary-ja.tsv");
}

fn args() -> Args {
    Args { dict: None, glossary: None, language: "en".to_string(), english: None }
}

#[test]
fn given_paths_win() {
    let given = Args {
        dict: Some("my/dict.qj".to_string()),
        glossary: Some("my/glossary.tsv".to_string()),
        language: "ja".to_string(),
        english: Some("my/english.tsv".to_string()),
    };
    assert_eq!(given.dict_path(), "my/dict.qj");
    assert_eq!(given.glossary_path("ja"), "my/glossary.tsv");
    assert_eq!(given.english_path().as_deref(), Some("my/english.tsv"));
    assert_eq!(english_list_path(Some("x.tsv".to_string())).as_deref(), Some("x.tsv"));
}

#[test]
fn missing_paths_fall_back_to_the_data_files() {
    let defaults = args();
    let dict = defaults.dict_path();
    let dict_choices = [
        "data/generated/dict.qj",
        "data/generated/dict.tsv",
        "assets/lexicon/dict.tsv",
        "assets/sample/dict.tsv",
    ];
    assert!(dict_choices.contains(&dict.as_str()));
    let glossary = defaults.glossary_path("en");
    let glossary_choices = [
        "data/generated/glossary-en.qj",
        "data/generated/glossary-en.tsv",
        "assets/glossary/glossary-en.tsv",
        "assets/sample/glossary-en.tsv",
    ];
    assert!(glossary_choices.contains(&glossary.as_str()));
    if let Some(english) = defaults.english_path() {
        assert!(english.ends_with("english.tsv"));
    }
}

#[test]
fn emoji_tables_keep_their_order() {
    let tables = present_emoji_tables();
    assert!(tables.len() <= 2);
    for table in &tables {
        assert!(
            table == "assets/emoji/emoji-zh.tsv" || table == "assets/emoji/emoji-en.tsv"
        );
    }
    if tables.len() == 2 {
        assert_eq!(tables[0], "assets/emoji/emoji-zh.tsv");
    }
}

#[test]
fn emoji_tables_that_exist_are_kept_chinese_first() {
    assert_eq!(
        emoji_tables_of(true, true),
        vec!["assets/emoji/emoji-zh.tsv".to_string(), "assets/emoji/emoji-en.tsv".to_string()]
    );
    assert_eq!(emoji_tables_of(false, true), vec!["assets/emoji/emoji-en.tsv".to_string()]);
    assert_eq!(emoji_tables_of(true, false), vec!["assets/emoji/emoji-zh.tsv".to_string()]);
    assert!(emoji_tables_of(false, false).is_empty());
}

const ODD_NAMES: [&str; 22] = [
    "", ".", "..", "/", "//", "/.", "/..", "a/", "a//", "a/.", "a/./", "a/..", "sub/dict.tsv",
    "sub.d/dict", "/abs/x.tsv", ".env", "a.", "...", "dir/.hidden", "x.y/", "a//b.c", "./a.b",
];

#[test]
fn paths_are_joined_like_path_join() {
    for base in ["data/generated", "assets/sample"] {
        for name in ODD_NAMES {
            let expected = PathBuf::from(base).join(name);
            assert_eq!(join_path_of(base, name), expected.to_str().unwrap(), "{base} {name}");
        }
    }
}

#[test]
fn extensions_are_set_like_path_with_extension() {
    for name in ODD_NAMES {
        let expected = Path::new(name).with_extension("qj");
        assert_eq!(with_extension_of(name, "qj"), expected.to_str().unwrap(), "{name}");
        let joined = PathBuf::from("data/generated").join(name);
        let expected = joined.with_extension("qj");
        assert_eq!(
            with_extension_of(joined.to_str().unwrap(), "qj"),
            expected.to_str().unwrap(),
            "{name}"
        );
    }
}

#[test]
fn any_name_gets_candidates() {
    assert_eq!(
        data_file_candidates_of("sub.d/dict"),
        vec![
            "data/generated/sub.d/dict.qj".to_string(),
            "data/generated/sub.d/dict".to_string(),
            "assets/lexicon/sub.d/dict".to_string(),
        ]
    );
    assert_eq!(data_file_candidates_of("")[0], "data/generated.qj");
    assert_eq!(data_file_candidates_of("..")[0], "data/generated/..");
    assert_eq!(data_file_candidates_of("/abs/x.tsv")[1], "/abs/x.tsv");
    assert_eq!(pick_data_file("/abs/x.tsv", &[]), "/abs/x.tsv");
}
