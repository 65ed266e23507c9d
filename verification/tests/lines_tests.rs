use city3d_stac::lines::{split_lines, split_whitespace};
use city3d_stac::lines::parse_path_list;

fn std_lines(s: &str) -> Vec<String> {
    s.lines().map(|l| l.to_string()).collect()
}

fn std_words(s: &str) -> Vec<String> {
    s.split_whitespace().map(|l| l.to_string()).collect()
}

#[test]
fn lines_split_as_std_does() {
    for s in ["", "a", "a\n", "\n", "\n\n", "a\nb", "a\r\nb\r\n", "a\r", "x\r\r\ny", " a \n\tb"] {
        assert_eq!(split_lines(s), std_lines(s), "{s:?}");
    }
}

#[test]
fn words_split_as_std_does() {
    for s in ["", "   ", "a", " a  b\tc\n", "x\u{3000}y", "VmRSS:\t  10 kB"] {
        assert_eq!(split_whitespace(s), std_words(s), "{s:?}");
    }
}

#[test]
fn path_lists_keep_every_non_blank_line() {
    assert_eq!(parse_path_list("a.json\n\n  b.json  \r\n#c.json\n"), vec!["a.json", "b.json", "#c.json"]);
}
