use drover::files::{
    base64_file_size_check, create_directory_check, create_file_check, encode_file_base64,
    expand_home, expand_home_with, local_listing, normalize_separators, parse_remote_listing,
    remote_base64_command, remote_base64_result, remote_cat_command, remote_contents_result,
    remote_list_command, remote_listing_result, remote_size_check, remote_size_command,
    remote_write_command, remote_write_result, rename_check, replace_home_prefix,
    replace_home_prefix_with, sort_dir_entries, text_file_size_check, DirEntry, RawDirEntry,
};

fn entry(name: &str, is_dir: bool) -> DirEntry {
    DirEntry {
        name: name.to_string(),
        is_dir,
        is_hidden: name.starts_with('.'),
        path: format!("/x/{}", name),
    }
}

fn names(v: &[DirEntry]) -> Vec<String> {
    v.iter().map(|e| e.name.clone()).collect()
}

#[test]
fn normalize_turns_backslashes_into_slashes() {
    assert_eq!(normalize_separators("C:\\Users\\me\\src"), "C:/Users/me/src");
    assert_eq!(normalize_separators("/already/fine"), "/already/fine");
}

#[test]
fn normalize_is_idempotent() {
    let once = normalize_separators("a\\b/c\\\\d");
    assert_eq!(normalize_separators(&once), once);
    assert!(!once.contains('\\'));
}

#[test]
fn expand_home_replaces_leading_tilde() {
    let home = Some("/home/u".to_string());
    assert_eq!(expand_home_with("~/src", home.clone(), '/'), "/home/u/src");
    assert_eq!(expand_home_with("~", home.clone(), '/'), "/home/u");
    assert_eq!(expand_home_with("~~", home.clone(), '/'), "/home/u~");
    assert_eq!(expand_home_with("/etc/~", home.clone(), '/'), "/etc/~");
    assert_eq!(expand_home_with("~/x", None, '/'), "~/x");
    assert_eq!(expand_home_with("~/a/b", Some("C:/Users/u".to_string()), '\\'), "C:\\Users\\u\\a\\b");
    assert_eq!(expand_home_with("src/x", None, '\\'), "src\\x");
}

#[test]
fn expand_home_leaves_plain_paths() {
    assert_eq!(expand_home("/tmp/file"), "/tmp/file");
}

#[test]
fn replace_home_prefix_writes_tilde() {
    let home = Some("/home/u".to_string());
    assert_eq!(replace_home_prefix_with("/home/u", home.clone()), "~");
    assert_eq!(replace_home_prefix_with("/home/u/src/a", home.clone()), "~/src/a");
    assert_eq!(replace_home_prefix_with("/home/user2", home.clone()), "~ser2");
    assert_eq!(replace_home_prefix_with("/etc\\x", home.clone()), "/etc/x");
    assert_eq!(replace_home_prefix_with("C:\\x", None), "C:/x");
}

#[test]
fn replace_home_prefix_without_home_match() {
    let r = replace_home_prefix("/definitely/not/a/home/dir");
    assert_eq!(r, "/definitely/not/a/home/dir");
}

#[test]
fn home_round_trip() {
    let home = "/home/u".to_string();
    for p in ["/home/u", "/home/u/a/b", "/var/log", "relative/x"] {
        let shown = replace_home_prefix_with(p, Some(home.clone()));
        assert_eq!(expand_home_with(&shown, Some(home.clone()), '/'), p);
    }
}

#[test]
fn sort_puts_directories_first_then_names_without_case() {
    let v = vec![
        entry("b.txt", false),
        entry("Zeta", true),
        entry("A.txt", false),
        entry("alpha", true),
        entry("a.txt", false),
    ];
    let s = sort_dir_entries(v);
    assert_eq!(names(&s), vec!["alpha", "Zeta", "A.txt", "a.txt", "b.txt"]);
}

#[test]
fn sort_keeps_ties_in_order() {
    let v = vec![entry("README", false), entry("readme", false), entry("Readme", false)];
    let s = sort_dir_entries(v);
    assert_eq!(names(&s), vec!["README", "readme", "Readme"]);
}

#[test]
fn sort_orders_by_code_point_after_lowercasing() {
    let v = vec![entry("b", false), entry(".env", false), entry("_x", false), entry("a", false)];
    let s = sort_dir_entries(v);
    assert_eq!(names(&s), vec![".env", "_x", "a", "b"]);
}

#[test]
fn local_listing_marks_hidden_and_shortens_paths() {
    let raw = vec![
        RawDirEntry { name: "notes.md".into(), is_dir: false, full_path: "/home/u/notes.md".into() },
        RawDirEntry { name: ".ssh".into(), is_dir: true, full_path: "/home/u/.ssh".into() },
        RawDirEntry { name: "Code".into(), is_dir: true, full_path: "/home/u/Code".into() },
    ];
    let l = local_listing(raw, Some("/home/u".into()));
    assert_eq!(names(&l), vec![".ssh", "Code", "notes.md"]);
    assert!(l[0].is_hidden && l[0].is_dir);
    assert!(!l[1].is_hidden);
    assert_eq!(l[0].path, "~/.ssh");
    assert_eq!(l[2].path, "~/notes.md");
}

#[test]
fn remote_listing_parses_ls_output() {
    let out = "./\n../\n.env\nlogs/\napp.py\n\n  \n";
    let l = parse_remote_listing("/srv", out);
    assert_eq!(names(&l), vec!["logs", ".env", "app.py"]);
    assert!(l[0].is_dir);
    assert_eq!(l[0].path, "/srv/logs");
    assert!(l[1].is_hidden);
    assert_eq!(l[2].path, "/srv/app.py");
}

#[test]
fn remote_listing_under_root_and_slash_lines() {
    let l = parse_remote_listing("/", "etc/\n///\nvmlinuz\r\n");
    assert_eq!(names(&l), vec!["etc", "vmlinuz"]);
    assert_eq!(l[0].path, "/etc");
    assert_eq!(l[1].path, "/vmlinuz");
}

#[test]
fn remote_commands_quote_the_path() {
    assert_eq!(remote_list_command("/tmp/it's"), "ls -1ap '/tmp/it'\\''s'");
    assert_eq!(
        remote_size_command("/a b"),
        "stat -f%z '/a b' 2>/dev/null || stat -c%s '/a b' 2>/dev/null"
    );
    assert_eq!(remote_cat_command("/etc/hosts"), "cat '/etc/hosts'");
    assert_eq!(remote_base64_command("/img.png"), "base64 '/img.png'");
    assert_eq!(remote_write_command("/tmp/o"), "cat > '/tmp/o'");
}

#[test]
fn remote_replies() {
    match remote_listing_result("/srv", false, "", "  boom \n") {
        Err(e) => assert_eq!(e, "Remote ls failed: boom"),
        Ok(_) => panic!("expected an error"),
    }
    assert_eq!(remote_listing_result("/srv", true, "a\n", "").unwrap().len(), 1);
    assert_eq!(remote_contents_result(true, "x\ny\n", "").unwrap(), "x\ny\n");
    assert_eq!(
        remote_contents_result(false, "", "no such file\n").unwrap_err(),
        "Failed to read remote file: no such file"
    );
    assert_eq!(remote_base64_result(true, "QUJD\nREVG\r\n", "").unwrap(), "QUJDREVG");
    assert_eq!(
        remote_base64_result(false, "", "denied").unwrap_err(),
        "Failed to read remote file: denied"
    );
    assert!(remote_write_result(true, "").is_ok());
    assert_eq!(remote_write_result(false, " full \n").unwrap_err(), "Failed to write remote file: full");
}

#[test]
fn remote_size_limit() {
    assert_eq!(remote_size_check(true, "20000000\n").unwrap_err(), "Remote file is too large (>10MB)");
    assert!(remote_size_check(true, "10485760").is_ok());
    assert!(remote_size_check(true, "+10485761").is_err());
    assert!(remote_size_check(true, "100").is_ok());
    assert!(remote_size_check(true, "abc").is_ok());
    assert!(remote_size_check(false, "99999999999").is_ok());
}

#[test]
fn local_size_limits() {
    assert!(text_file_size_check(10 * 1024 * 1024).is_ok());
    assert_eq!(text_file_size_check(10 * 1024 * 1024 + 1).unwrap_err(), "File is too large (>10MB)");
    assert!(base64_file_size_check(50 * 1024 * 1024).is_ok());
    assert_eq!(base64_file_size_check(50 * 1024 * 1024 + 1).unwrap_err(), "File is too large (>50MB)");
}

#[test]
fn existence_checks() {
    assert_eq!(create_file_check(true).unwrap_err(), "File already exists");
    assert!(create_file_check(false).is_ok());
    assert_eq!(create_directory_check(true).unwrap_err(), "Directory already exists");
    assert!(create_directory_check(false).is_ok());
    assert_eq!(rename_check(false, true).unwrap_err(), "Source path does not exist");
    assert_eq!(rename_check(true, true).unwrap_err(), "Destination already exists");
    assert!(rename_check(true, false).is_ok());
}

#[test]
fn base64_standard_encoding() {
    assert_eq!(encode_file_base64(&b"Man".to_vec()), "TWFu");
    assert_eq!(encode_file_base64(&b"Ma".to_vec()), "TWE=");
    assert_eq!(encode_file_base64(&b"M".to_vec()), "TQ==");
    assert_eq!(encode_file_base64(&Vec::new()), "");
    let all: Vec<u8> = (0u8..=255).collect();
    assert!(encode_file_base64(&all).starts_with("AAECAwQFBgcICQoLDA0O"));
}
