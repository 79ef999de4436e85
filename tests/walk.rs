use repo_to_text::{LabelMode, Output, Reply, Request, Walker};

enum Node {
    File(&'static str, Vec<u8>),
    Unreadable(&'static str),
    Dir(&'static str, Vec<Node>),
}

fn path(segs: &[&str]) -> Vec<String> {
    segs.iter().map(|s| s.to_string()).collect()
}

fn find<'a>(root: &'a Node, rel: &[String]) -> Option<&'a Node> {
    let mut node = root;
    for seg in rel {
        match node {
            Node::Dir(_, kids) => {
                node = kids.iter().find(|k| match k {
                    Node::File(n, _) | Node::Unreadable(n) | Node::Dir(n, _) => n == seg,
                })?;
            }
            _ => return None,
        }
    }
    Some(node)
}

/// Runs a walk over an in-memory tree; returns the outputs and every path
/// whose content was asked for.
fn drive(
    tree: &Node,
    root: &[&str],
    excluding: Vec<Vec<String>>,
    mode: LabelMode,
) -> (Vec<Output>, Vec<Vec<String>>) {
    let root_path = path(root);
    let mut w = Walker::new(root_path.clone(), excluding, mode);
    let mut outs = Vec::new();
    let mut touched = Vec::new();
    let mut guard = 0;
    while !w.is_finished() {
        guard += 1;
        assert!(guard < 1000);
        let reply = match w.request() {
            Request::List(p) => match find(tree, &p[root.len()..]) {
                Some(Node::Dir(_, kids)) => Reply::Listing(
                    kids.iter()
                        .map(|k| match k {
                            Node::File(n, _) | Node::Unreadable(n) | Node::Dir(n, _) => n.to_string(),
                        })
                        .collect(),
                ),
                _ => Reply::ListFailed,
            },
            Request::Inspect(p) => {
                touched.push(p.clone());
                match find(tree, &p[root.len()..]) {
                    Some(Node::Dir(..)) => Reply::IsDir,
                    Some(Node::File(_, b)) => Reply::IsFile(b.iter().take(512).cloned().collect()),
                    Some(Node::Unreadable(_)) => Reply::IsFile(Vec::new()),
                    None => Reply::IsOther,
                }
            }
            Request::Read(p) => {
                touched.push(p.clone());
                match find(tree, &p[root.len()..]) {
                    Some(Node::File(_, b)) => match String::from_utf8(b.clone()) {
                        Ok(s) => Reply::Content(s, None),
                        Err(_) => Reply::ReadFailed,
                    },
                    _ => Reply::ReadFailed,
                }
            }
            Request::Finished => unreachable!(),
        };
        outs.extend(w.step(reply));
    }
    (outs, touched)
}

fn blocks(outs: &[Output]) -> Vec<String> {
    outs.iter()
        .filter_map(|o| match o {
            Output::Block(b) => Some(b.clone()),
            _ => None,
        })
        .collect()
}

fn png_bytes() -> Vec<u8> {
    vec![0x89, b'P', b'N', b'G', 0x0d, 0x0a, 0x1a, 0x0a, 0, 0, 0, 0x0d, b'I', b'H', b'D', b'R']
}

fn sample_tree() -> Node {
    Node::Dir(
        "myrepo",
        vec![
            Node::File("a.txt", b"hello".to_vec()),
            Node::File("b.png", png_bytes()),
            Node::Dir("sub", vec![Node::File("c.txt", b"world".to_vec())]),
        ],
    )
}

#[test]
fn round_trip_keeps_text_files_in_order() {
    let (outs, _) = drive(&sample_tree(), &["work", "myrepo"], vec![], LabelMode::RepoRelative);
    assert_eq!(
        blocks(&outs),
        vec![
            "\n---\nFILE_PATH: myrepo/a.txt\n```\nhello\n```\n\n".to_string(),
            "\n---\nFILE_PATH: myrepo/sub/c.txt\n```\nworld\n```\n\n".to_string(),
        ]
    );
    assert!(outs.iter().any(|o| matches!(o, Output::Skipped(p) if *p == path(&["work", "myrepo", "b.png"]))));
}

#[test]
fn walked_labels_join_the_whole_path() {
    let (outs, _) = drive(&sample_tree(), &["/", "myrepo"], vec![], LabelMode::AsWalked);
    let b = blocks(&outs);
    assert_eq!(b.len(), 2);
    assert!(b[0].contains("FILE_PATH: /myrepo/a.txt\n"));
    assert!(b[1].contains("FILE_PATH: /myrepo/sub/c.txt\n"));
}

#[test]
fn repository_relative_label() {
    let tree = Node::Dir("myrepo", vec![Node::File("x.txt", b"x".to_vec())]);
    let (outs, _) = drive(&tree, &["/", "home", "myrepo"], vec![], LabelMode::RepoRelative);
    let b = blocks(&outs);
    assert_eq!(b.len(), 1);
    assert!(b[0].starts_with("\n---\nFILE_PATH: myrepo/x.txt\n"));
}

#[test]
fn excluded_paths_are_never_read() {
    let excl = vec![path(&["r", "sub"]), path(&["r", "a.txt"])];
    let (outs, touched) = drive(&sample_tree(), &["r"], excl, LabelMode::AsWalked);
    assert!(blocks(&outs).is_empty());
    assert!(touched.iter().all(|p| !p.starts_with(&path(&["r", "sub"])) && *p != path(&["r", "a.txt"])));
    assert!(outs.iter().any(|o| matches!(o, Output::Excluded(p) if *p == path(&["r", "sub"]))));
    assert!(outs.iter().any(|o| matches!(o, Output::Excluded(p) if *p == path(&["r", "a.txt"]))));
}

#[test]
fn preorder_puts_directory_contents_before_later_siblings() {
    let tree = Node::Dir(
        "r",
        vec![
            Node::Dir("d", vec![Node::File("x", b"1".to_vec()), Node::Dir("e", vec![Node::File("y", b"2".to_vec())])]),
            Node::File("z", b"3".to_vec()),
        ],
    );
    let (outs, _) = drive(&tree, &["r"], vec![], LabelMode::AsWalked);
    let labels: Vec<String> = blocks(&outs)
        .iter()
        .map(|b| b.lines().nth(2).unwrap().to_string())
        .collect();
    assert_eq!(labels, vec!["FILE_PATH: r/d/x", "FILE_PATH: r/d/e/y", "FILE_PATH: r/z"]);
}

#[test]
fn failed_read_is_reported_and_walk_goes_on() {
    let tree = Node::Dir(
        "r",
        vec![Node::Unreadable("gone.txt"), Node::File("next.txt", b"still here".to_vec())],
    );
    let (outs, _) = drive(&tree, &["r"], vec![], LabelMode::AsWalked);
    assert!(outs.iter().any(|o| matches!(o, Output::ReadFailed(p) if *p == path(&["r", "gone.txt"]))));
    assert_eq!(blocks(&outs), vec!["\n---\nFILE_PATH: r/next.txt\n```\nstill here\n```\n\n".to_string()]);
}

#[test]
fn invalid_text_is_skipped() {
    let tree = Node::Dir("r", vec![Node::File("bad.txt", vec![0xff, 0xfe, b'a'])]);
    let (outs, _) = drive(&tree, &["r"], vec![], LabelMode::AsWalked);
    assert!(blocks(&outs).is_empty());
    assert!(matches!(outs.last(), Some(Output::ReadFailed(_))));
}

#[test]
fn late_zero_byte_still_counts_as_text() {
    let mut bytes = vec![b'a'; 600];
    bytes[550] = 0;
    let tree = Node::Dir("r", vec![Node::File("t.txt", bytes)]);
    let (outs, _) = drive(&tree, &["r"], vec![], LabelMode::AsWalked);
    assert_eq!(blocks(&outs).len(), 1);
}

#[test]
fn two_runs_give_identical_output() {
    let a = blocks(&drive(&sample_tree(), &["r"], vec![], LabelMode::AsWalked).0).concat();
    let b = blocks(&drive(&sample_tree(), &["r"], vec![], LabelMode::AsWalked).0).concat();
    assert_eq!(a, b);
    assert!(!a.is_empty());
}

#[test]
fn failed_root_listing_ends_the_walk() {
    let mut w = Walker::new(path(&["r"]), vec![], LabelMode::AsWalked);
    let outs = w.step(Reply::ListFailed);
    assert!(matches!(&outs[..], [Output::ListFailed(p)] if *p == path(&["r"])));
    assert!(w.is_finished());
}

#[test]
fn mismatched_reply_changes_nothing() {
    let mut w = Walker::new(path(&["r"]), vec![], LabelMode::AsWalked);
    let outs = w.step(Reply::IsDir);
    assert!(outs.is_empty());
    assert!(matches!(w.request(), Request::List(p) if *p == path(&["r"])));
}
