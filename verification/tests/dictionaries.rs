use qingjian_shell::dictionaries::list;

fn names(items: &[&str]) -> Vec<String> {
    items.iter().map(|s| s.to_string()).collect()
}

#[test]
fn only_qj_and_tsv_files_are_listed() {
    let files = list(&names(&["b.qj", "notes.txt", "a.tsv", ".qj", "c", "d.QJ"]));
    let listed: Vec<(&str, &str)> = files
        .iter()
        .map(|f| (f.stem.as_str(), f.name.as_str()))
        .collect();
    assert_eq!(listed, vec![("a", "a.tsv"), ("b", "b.qj")]);
}

#[test]
fn listing_is_sorted_by_stem_then_name() {
    let files = list(&names(&["zh.tsv", "medical.qj", "law.tsv", "law.qj", "a.b.tsv"]));
    let listed: Vec<(&str, &str)> = files
        .iter()
        .map(|f| (f.stem.as_str(), f.name.as_str()))
        .collect();
    assert_eq!(
        listed,
        vec![
            ("a.b", "a.b.tsv"),
            ("law", "law.qj"),
            ("law", "law.tsv"),
            ("medical", "medical.qj"),
            ("zh", "zh.tsv"),
        ]
    );
}

#[test]
fn an_empty_directory_lists_nothing() {
    assert!(list(&Vec::new()).is_empty());
}
