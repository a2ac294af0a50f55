use qingjian_shell::text::split_on_char;

#[test]
fn split_keeps_empty_pieces() {
    assert_eq!(split_on_char("a,,b", ','), vec!["a", "", "b"]);
    assert_eq!(split_on_char("", ','), vec![""]);
    assert_eq!(split_on_char(",", ','), vec!["", ""]);
    assert_eq!(split_on_char("z-zh", ','), vec!["z-zh"]);
}

#[test]
fn joining_the_pieces_gives_the_text_back() {
    for text in ["", "a", "a,b", ",x,,y,", "青,简"] {
        assert_eq!(split_on_char(text, ',').join(","), text);
        let expected: Vec<&str> = text.split(',').collect();
        assert_eq!(split_on_char(text, ','), expected);
    }
}
