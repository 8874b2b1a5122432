use drover::diff::{
    edit_counts_fit, edit_file_name, edit_source, generate_diff, generate_edit_summary, line_token_count,
    resolve_edit_path,
};

fn rows(original: &str, modified: &str) -> Vec<(String, String, Option<usize>, Option<usize>)> {
    generate_diff(original, modified)
        .into_iter()
        .map(|d| (d.tag, d.content, d.old_line, d.new_line))
        .collect()
}

#[test]
fn diff_of_a_changed_last_line() {
    let r = rows("a\nb\nc", "a\nb\nC");
    assert_eq!(
        r,
        vec![
            ("equal".to_string(), "a\n".to_string(), Some(1), Some(1)),
            ("equal".to_string(), "b\n".to_string(), Some(2), Some(2)),
            ("delete".to_string(), "c".to_string(), Some(3), None),
            ("insert".to_string(), "C".to_string(), None, Some(3)),
        ]
    );
}

#[test]
fn diff_reproduces_both_texts() {
    let old = "fn main() {\n    println!(\"hi\");\n}\n";
    let new = "fn main() {\n    let x = 1;\n    println!(\"{}\", x);\n}\n";
    let d = generate_diff(old, new);
    let old_text: String = d.iter().filter(|l| l.tag != "insert").map(|l| l.content.as_str()).collect();
    let new_text: String = d.iter().filter(|l| l.tag != "delete").map(|l| l.content.as_str()).collect();
    assert_eq!(old_text, old);
    assert_eq!(new_text, new);
    let olds: Vec<usize> = d.iter().filter_map(|l| l.old_line).collect();
    let news: Vec<usize> = d.iter().filter_map(|l| l.new_line).collect();
    assert_eq!(olds, (1..=3).collect::<Vec<_>>());
    assert_eq!(news, (1..=4).collect::<Vec<_>>());
}

#[test]
fn diff_of_empty_texts() {
    assert!(generate_diff("", "").is_empty());
    let r = rows("", "x\n");
    assert_eq!(r, vec![("insert".to_string(), "x\n".to_string(), None, Some(1))]);
}

#[test]
fn summary_counts_lines() {
    assert_eq!(
        generate_edit_summary("a\nb\n", "a\nb\nc\n", "add c"),
        "Modified file based on: \"add c\"\n1 insertions, 0 deletions (+1 lines)"
    );
    assert_eq!(
        generate_edit_summary("a\nb\nc\n", "a\n", "trim"),
        "Modified file based on: \"trim\"\n0 insertions, 2 deletions (-2 lines)"
    );
    assert_eq!(
        generate_edit_summary("a\nb\n", "a\nB\n", "caps"),
        "Modified file based on: \"caps\"\n1 insertions, 1 deletions (no net change in lines)"
    );
}

#[test]
fn summary_counts_with_carriage_returns() {
    let s = generate_edit_summary("a\rb", "a\rb\rc", "x");
    assert!(s.ends_with("(no net change in lines)"));
    assert!(s.contains("2 insertions, 1 deletions"));
}

#[test]
fn edit_paths() {
    let home = "/home/u";
    assert_eq!(resolve_edit_path("/abs/x.rs", &None, home, true), "/abs/x.rs");
    assert_eq!(resolve_edit_path("C:\\x.rs", &Some("/w".into()), home, true), "C:\\x.rs");
    assert_eq!(resolve_edit_path("C:x", &Some("/w".into()), home, false), "/w/C:x");
    assert_eq!(resolve_edit_path("~/a.rs", &None, home, false), "/home/u/a.rs");
    assert_eq!(resolve_edit_path("src/a.rs", &Some("~/proj".into()), home, false), "/home/u/proj/src/a.rs");
    assert_eq!(resolve_edit_path("src/a.rs", &Some("/w/".into()), home, true), "/w/src/a.rs");
    assert_eq!(resolve_edit_path("src/a.rs", &Some("".into()), home, true), "src/a.rs");
    assert_eq!(resolve_edit_path("src/a.rs", &None, home, true), "src/a.rs");
}

#[test]
fn edit_file_names() {
    assert_eq!(edit_file_name("/home/u/a.rs", "a.rs"), "a.rs");
    assert_eq!(edit_file_name("/home/u/proj/", "proj"), "proj");
    assert_eq!(edit_file_name("/home/u/..", "up"), "up");
    assert_eq!(edit_file_name("/", "root"), "root");
}

#[test]
fn line_tokens_are_counted_as_the_diff_splits() {
    assert_eq!(line_token_count(""), 0);
    assert_eq!(line_token_count("a"), 1);
    assert_eq!(line_token_count("a\nb\n"), 2);
    assert_eq!(line_token_count("a\r\nb\rc"), 3);
    assert!(edit_counts_fit("a\nb", "c"));
}

#[test]
fn diff_lines_rejoin_to_both_texts() {
    let old = "one\r\ntwo\rthree";
    let new = "one\nthree\nfour";
    let d = generate_diff(old, new);
    let old_back: String = d.iter().filter(|l| l.tag != "insert").map(|l| l.content.as_str()).collect();
    let new_back: String = d.iter().filter(|l| l.tag != "delete").map(|l| l.content.as_str()).collect();
    assert_eq!(old_back, old);
    assert_eq!(new_back, new);
}

#[test]
fn edit_source_after_reading() {
    let ok = edit_source("a.rs", "/w/src/a.rs".to_string(), Ok("fn main() {}".to_string())).unwrap();
    assert_eq!(ok.file_name, "a.rs");
    assert_eq!(ok.file_path, "/w/src/a.rs");
    assert_eq!(ok.content, "fn main() {}");
    let odd = edit_source("..", "..".to_string(), Ok(String::new())).unwrap();
    assert_eq!(odd.file_name, "..");
    match edit_source("b.rs", "/w/b.rs".to_string(), Err("No such file or directory (os error 2)".to_string())) {
        Err(e) => assert_eq!(e, "Failed to read file '/w/b.rs': No such file or directory (os error 2)"),
        Ok(_) => panic!("expected an error"),
    }
}
