use mini_grep::{chars_of, search};

#[test]
fn one_result() {
    let query = "duct";
    let contents = "\
Rust: 
safe, fast, productive
Pick three.";
    assert_eq!(vec!["safe, fast, productive"], search(query, contents));
}

#[test]
fn case_sensitive_query_finds_nothing() {
    let contents = "Rust: safe, fast, productive";
    assert!(search("RUST", contents).is_empty());
    assert_eq!(vec!["Rust: safe, fast, productive"], search("Rust", contents));
}

#[test]
fn two_matching_lines_in_order() {
    let contents = "trust me\nno match here\nrusty nail\n";
    assert_eq!(vec!["trust me", "rusty nail"], search("rust", contents));
}

#[test]
fn every_line_matching_is_returned_once() {
    let contents = "abc\nxabc\nabcx";
    assert_eq!(vec!["abc", "xabc", "abcx"], search("abc", contents));
}

#[test]
fn empty_query_returns_all_lines() {
    let contents = "first\n\nthird\n";
    assert_eq!(vec!["first", "", "third"], search("", contents));
}

#[test]
fn empty_query_in_empty_text() {
    assert!(search("", "").is_empty());
}

#[test]
fn query_in_empty_text() {
    assert!(search("anything", "").is_empty());
}

#[test]
fn result_is_subsequence_of_lines() {
    let contents = "one\ntwo\nthree\nfour\nfive";
    let found = search("o", contents);
    assert_eq!(vec!["one", "two", "four"], found);
    let all: Vec<&str> = contents.lines().collect();
    let mut at = 0;
    for line in &found {
        while all[at] != *line {
            at += 1;
        }
        at += 1;
    }
    assert!(at <= all.len());
}

#[test]
fn searching_twice_gives_the_same_lines() {
    let contents = "alpha\nbeta\ngamma\nalphabet";
    let first = search("alpha", contents);
    let second = search("alpha", contents);
    assert_eq!(first, second);
    assert_eq!(vec!["alpha", "alphabet"], first);
}

#[test]
fn no_line_matches() {
    assert!(search("zzz", "a\nb\nc").is_empty());
}

#[test]
fn crlf_endings_are_not_part_of_lines() {
    let contents = "ends here\r\nand here\r\nlast\r";
    assert_eq!(vec!["ends here", "and here"], search("e", contents));
    assert_eq!(vec!["last\r"], search("la", contents));
    assert_eq!(vec!["last\r"], search("t\r", contents));
    assert!(search("e\r", "ends here\r\n").is_empty());
}

#[test]
fn trailing_newline_gives_no_empty_line() {
    assert_eq!(vec!["a", ""], search("", "a\n\n"));
    assert_eq!(vec!["a"], search("", "a\n"));
    assert_eq!(vec![""], search("", "\n"));
}

#[test]
fn lines_match_std_lines() {
    let texts = ["", "\n", "a", "a\n", "a\r\nb", "\r\n\r\n", "x\ry\n\rz", "a\n\nb\n"];
    for t in texts {
        let expected: Vec<&str> = t.lines().collect();
        assert_eq!(expected, search("", t));
    }
}

#[test]
fn query_longer_than_line() {
    assert!(search("longer query", "short").is_empty());
}

#[test]
fn query_at_line_edges() {
    let contents = "abcd\nzzab\ncdzz";
    assert_eq!(vec!["abcd", "zzab"], search("ab", contents));
    assert_eq!(vec!["abcd", "cdzz"], search("cd", contents));
}

#[test]
fn multibyte_text() {
    let contents = "héllo wörld\nnaïve\nplain";
    assert_eq!(vec!["héllo wörld"], search("wö", contents));
    assert_eq!(vec!["naïve"], search("ï", contents));
}

#[test]
fn chars_of_copies_characters() {
    assert_eq!(vec!['a', 'é', '\n'], chars_of("aé\n"));
    assert!(chars_of("").is_empty());
}
