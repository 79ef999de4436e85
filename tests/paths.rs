use repo_to_text::{file_label, is_excluded_path, join_path, render_block, repository_name, strip_root_path, LabelMode};

fn path(segs: &[&str]) -> Vec<String> {
    segs.iter().map(|s| s.to_string()).collect()
}

#[test]
fn joining_after_the_root_adds_no_second_slash() {
    assert_eq!(join_path(&path(&["/", "home", "x"])), "/home/x");
    assert_eq!(join_path(&path(&["repo", "src", "a.rs"])), "repo/src/a.rs");
    assert_eq!(join_path(&path(&[])), "");
}

#[test]
fn exclusion_is_by_whole_segments() {
    let excl = vec![path(&["repo", "target"])];
    assert!(is_excluded_path(&path(&["repo", "target"]), &excl));
    assert!(is_excluded_path(&path(&["repo", "target", "x.o"]), &excl));
    assert!(!is_excluded_path(&path(&["repo", "targets"]), &excl));
    assert!(!is_excluded_path(&path(&["repo"]), &excl));
    assert!(!is_excluded_path(&path(&["repo", "src"]), &[].to_vec()));
}

#[test]
fn repository_name_is_last_segment_or_fallback() {
    assert_eq!(repository_name(&path(&["/", "work", "myrepo"])), "myrepo");
    assert_eq!(repository_name(&path(&["/"])), "repository");
    assert_eq!(repository_name(&path(&["work", ".."])), "repository");
    assert_eq!(repository_name(&path(&[])), "repository");
}

#[test]
fn stripping_falls_back_to_the_whole_path() {
    assert_eq!(strip_root_path(&path(&["r", "a", "b"]), &path(&["r"])), path(&["a", "b"]));
    assert_eq!(strip_root_path(&path(&["s", "a"]), &path(&["r"])), path(&["s", "a"]));
}

#[test]
fn labels_under_each_mode() {
    let root = path(&["/", "work", "myrepo"]);
    let p = path(&["/", "work", "myrepo", "sub", "c.txt"]);
    assert_eq!(file_label(LabelMode::AsWalked, &root, &p, None), "/work/myrepo/sub/c.txt");
    assert_eq!(file_label(LabelMode::RepoRelative, &root, &p, None), "myrepo/sub/c.txt");
    assert_eq!(
        file_label(LabelMode::Absolute, &root, &p, Some("/real/sub/c.txt".to_string())),
        "/real/sub/c.txt"
    );
    assert_eq!(file_label(LabelMode::Absolute, &root, &p, None), "/work/myrepo/sub/c.txt");
}

#[test]
fn block_has_exact_layout() {
    assert_eq!(render_block("r/a.txt", "hello"), "\n---\nFILE_PATH: r/a.txt\n```\nhello\n```\n\n");
    assert_eq!(render_block("e", ""), "\n---\nFILE_PATH: e\n```\n\n```\n\n");
}
