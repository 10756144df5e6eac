use noderunner::levelfile::{is_name_line, parse_decimal, parse_level_file, parse_pack_info, parse_pack_levels, split_lines};

fn chars(s: &str) -> Vec<char> {
    s.chars().collect()
}

#[test]
fn lines_match_str_lines() {
    for text in ["a\nb", "a\r\nb\r\n", "\n\nx", "", "one\r", "x\n\n"] {
        let got: Vec<String> = split_lines(&chars(text)).iter().map(|l| l.iter().collect()).collect();
        let want: Vec<String> = text.lines().map(|l| l.to_string()).collect();
        assert_eq!(got, want, "{:?}", text);
    }
}

#[test]
fn decimal_numbers() {
    assert_eq!(parse_decimal(&chars("42")), Some(42));
    assert_eq!(parse_decimal(&chars("+7")), Some(7));
    assert_eq!(parse_decimal(&chars("")), None);
    assert_eq!(parse_decimal(&chars("+")), None);
    assert_eq!(parse_decimal(&chars("-1")), None);
    assert_eq!(parse_decimal(&chars("1a")), None);
    assert_eq!(parse_decimal(&chars("99999999999999999999999")), None);
    assert_eq!(parse_decimal(&chars(&usize::MAX.to_string())), Some(usize::MAX));
}

#[test]
fn name_lines_need_a_letter() {
    assert!(is_name_line(&chars("# Level 1")));
    assert!(!is_name_line(&chars("#####")));
    assert!(!is_name_line(&chars("# 12")));
}

#[test]
fn level_file_with_name_ladders_and_padding() {
    let text = "# First Steps\n@ 1,2 3,4 bad 5,x\n###\n# #\nP\n   \n\n";
    let d = parse_level_file(text).unwrap();
    assert_eq!(d.name, "First Steps");
    assert_eq!(d.extra_hidden_ladders, vec![(1, 2), (3, 4)]);
    assert_eq!(d.rows, vec!["###".to_string(), "# #".to_string(), "P  ".to_string()]);
}

#[test]
fn level_file_without_rows_or_name() {
    assert!(parse_level_file("# Only a name\n\n   \n").is_none());
    let d = parse_level_file("H\nH#").unwrap();
    assert_eq!(d.name, "Unnamed Node");
    assert_eq!(d.rows, vec!["H ".to_string(), "H#".to_string()]);
}

#[test]
fn pack_levels_and_header() {
    let text = "## Tiny Pack\n## Author: Someone\n## Description:  two levels \n---\n# One\nP$\n##\n---\n# Two\nP \n==\n";
    let levels = parse_pack_levels(text);
    assert_eq!(levels.len(), 2);
    assert_eq!(levels[0].name, "One");
    assert_eq!(levels[0].rows, vec!["P$".to_string(), "##".to_string()]);
    assert_eq!(levels[1].name, "Two");
    let info = parse_pack_info(text, "tiny", "packs/tiny.nlp");
    assert_eq!(info.name, "Tiny Pack");
    assert_eq!(info.author, "Someone");
    assert_eq!(info.description, "two levels");
    assert_eq!(info.level_count, 2);
    assert_eq!(info.path, "packs/tiny.nlp");
    let bare = parse_pack_info("P\n", "stem", "x.nlp");
    assert_eq!(bare.name, "stem");
    assert_eq!(bare.level_count, 1);
}
