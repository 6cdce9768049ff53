use rdf_diff_store::error::Error;
use rdf_diff_store::git::{commit_file, list_commit_times, Change, Commit, Oid};
use rdf_diff_store::graphs::{
    delete_graph, graph_filename, read_all_files, read_all_graph_files, same_bytes, store_action,
    store_graph, DirEntry, StoreAction, SUFFIX,
};
use rdf_diff_store::models::Graph;
use rdf_diff_store::rdf::{NoOpPrettifier, RdfPrettifier};

#[test]
fn id_encoding() {
    assert_eq!(graph_filename("<#/(%=:"), "PCMvKCU9Og==.ttl");
    match store_action("<#/(%=:", "t".to_string(), None, 300) {
        StoreAction::Write { filename, content, message, .. } => {
            assert_eq!(filename, "PCMvKCU9Og==.ttl");
            assert_eq!(content, "t");
            assert_eq!(message, "300 - update: <#/(%=:");
        }
        other => panic!("unexpected {:?}", other),
    }
}

#[test]
fn filenames_are_base64_made_safe() {
    assert_eq!(SUFFIX, ".ttl");
    assert_eq!(graph_filename(""), ".ttl");
    assert_eq!(graph_filename("a"), "YQ==.ttl");
    assert_eq!(graph_filename("ab"), "YWI=.ttl");
    assert_eq!(graph_filename("abc"), "YWJj.ttl");
    assert_eq!(graph_filename("abcd"), "YWJjZA==.ttl");
    assert_eq!(graph_filename("???"), "Pz8_.ttl");
    assert_eq!(graph_filename(">>>"), "Pj4-.ttl");
    assert_eq!(graph_filename("duplicate"), "ZHVwbGljYXRl.ttl");
    assert_eq!(graph_filename("<#/(%¤=:"), "PCMvKCXCpD06.ttl");
    assert_eq!(
        graph_filename("https://example.com/graphs/1?x=y"),
        "aHR0cHM6Ly9leGFtcGxlLmNvbS9ncmFwaHMvMT94PXk=.ttl"
    );
}

#[test]
fn filenames_differ_and_keep_to_their_alphabet() {
    let ids = [
        "", "a", "b", "ab", "ba", "abc", "abd", "a ", " a", "A", "???", "??>", ">>>", "é", "e",
        "\u{0}", "\u{0}\u{0}", "~~~", "~~", "~",
    ];
    for (i, a) in ids.iter().enumerate() {
        let name = graph_filename(a);
        assert!(name.ends_with(".ttl"));
        let stem = &name[..name.len() - 4];
        assert!(stem
            .chars()
            .all(|c| c.is_ascii_alphanumeric() || c == '_' || c == '-' || c == '='));
        if a.len() % 3 == 0 && !a.is_empty() {
            assert!(stem
                .chars()
                .all(|c| c.is_ascii_alphanumeric() || c == '_' || c == '-'));
            assert!(!stem.is_empty());
        }
        for b in ids.iter().skip(i + 1) {
            assert_ne!(name, graph_filename(b), "{:?} and {:?}", a, b);
        }
    }
}

#[test]
fn bytes_are_compared_one_by_one() {
    assert!(same_bytes(b"", b""));
    assert!(same_bytes(b"abc", b"abc"));
    assert!(!same_bytes(b"abc", b"abd"));
    assert!(!same_bytes(b"abc", b"ab"));
    assert!(!same_bytes(b"", b"a"));
}

#[test]
fn store_writes_what_is_new() {
    match store_action("a", "content".to_string(), None, 100) {
        StoreAction::Write { filename, content, message, .. } => {
            assert_eq!(filename, "YQ==.ttl");
            assert_eq!(content, "content");
            assert_eq!(message, "100 - update: a");
        }
        other => panic!("unexpected {:?}", other),
    }
    match store_action("a", "content".to_string(), Some(b"other"), 101) {
        StoreAction::Write { content, message, .. } => {
            assert_eq!(content, "content");
            assert_eq!(message, "101 - update: a");
        }
        other => panic!("unexpected {:?}", other),
    }
    match store_action("a", "é".to_string(), Some(&[0xe9]), 102) {
        StoreAction::Write { .. } => {}
        other => panic!("unexpected {:?}", other),
    }
    match store_action("a", "".to_string(), None, 103) {
        StoreAction::Write { content, .. } => assert_eq!(content, ""),
        other => panic!("unexpected {:?}", other),
    }
}

#[test]
fn store_of_the_same_bytes_changes_nothing() {
    assert!(matches!(
        store_action("a", "content".to_string(), Some(b"content"), 100),
        StoreAction::Unchanged
    ));
    assert!(matches!(
        store_action("a", "é\n".to_string(), Some("é\n".as_bytes()), 100),
        StoreAction::Unchanged
    ));
    assert!(matches!(
        store_action("a", "".to_string(), Some(b""), 100),
        StoreAction::Unchanged
    ));
}

#[test]
fn test_no_diff() {
    let graph = Graph {
        id: "duplicate".to_string(),
        graph: r#"
        @prefix si: <https://www.w3schools.com/rdf/> .

        <https://www.w3schools00.com> si:author "Jan Egil B" ;
            si:title "W3Schools" .
        "#
        .to_string(),
        format: Some("text/turtle".to_string()),
    };

    let mut file: Option<Vec<u8>> = None;
    let mut commits: Vec<Commit> = Vec::new();
    let mut head: Option<Oid> = None;
    for (n, timestamp) in [(1u8, 400u64), (2, 401)] {
        let action = store_graph(&NoOpPrettifier::new(), &graph, file.as_deref(), timestamp)
            .expect("unable to store graph");
        if let StoreAction::Write { filename, content, message, .. } = action {
            let times = list_commit_times(&commits);
            let plan = commit_file(&times, head, &filename, message, timestamp, Change::Add)
                .expect("unable to commit");
            file = Some(content.into_bytes());
            let id = Oid::from_bytes([n; 20]);
            commits.push(Commit { oid: id, message: Some(plan.message) });
            head = Some(id);
        }
    }

    let commit_times = list_commit_times(&commits);
    assert_eq!(commit_times.len(), 1);
    assert_eq!(commit_times.first().map(|entry| entry.0), Some(400));
}

struct Failing {}

impl RdfPrettifier for Failing {
    fn new() -> Self {
        Failing {}
    }

    fn prettify(&self, _graph: &str) -> Result<String, Error> {
        Err(Error::String("no prettifier".to_string()))
    }
}

struct Upper {}

impl RdfPrettifier for Upper {
    fn new() -> Self {
        Upper {}
    }

    fn prettify(&self, graph: &str) -> Result<String, Error> {
        Ok(graph.to_uppercase())
    }
}

#[test]
fn store_compares_the_canonical_form() {
    let graph = Graph { id: "g".to_string(), graph: "abc".to_string(), format: None };
    assert!(matches!(
        store_graph(&Upper::new(), &graph, Some(b"ABC"), 1),
        Ok(StoreAction::Unchanged)
    ));
    match store_graph(&Upper::new(), &graph, Some(b"abc"), 1) {
        Ok(StoreAction::Write { filename, content, message, .. }) => {
            assert_eq!(filename, "Zw==.ttl");
            assert_eq!(content, "ABC");
            assert_eq!(message, "1 - update: g");
        }
        other => panic!("unexpected {:?}", other),
    }
}

#[test]
fn store_fails_with_the_prettifier() {
    let graph = Graph { id: "g".to_string(), graph: "abc".to_string(), format: None };
    match store_graph(&Failing::new(), &graph, None, 1) {
        Err(Error::String(text)) => assert_eq!(text, "no prettifier"),
        other => panic!("unexpected {:?}", other),
    }
}

#[test]
fn delete_names_file_and_message() {
    let plan = delete_graph("<#/(%=:", 500);
    assert_eq!(plan.filename, "PCMvKCU9Og==.ttl");
    assert_eq!(plan.message, "500 - delete: <#/(%=:");
    assert_eq!(plan.change, Change::Remove);
    match store_action("a", "x".to_string(), None, 1) {
        StoreAction::Write { change, .. } => assert_eq!(change, Change::Add),
        other => panic!("unexpected {:?}", other),
    }
}

fn entry(name: &str, is_file: bool) -> DirEntry {
    DirEntry { name: Some(name.to_string()), is_file }
}

#[test]
fn only_graph_files_are_read() {
    let entries = vec![
        entry(".git", false),
        entry("YQ==.ttl", true),
        entry("notes.txt", true),
        entry("dir.ttl", false),
        entry("Yg==.ttl", true),
        entry(".ttl", true),
        entry("ttl", true),
        entry("x.ttl.bak", true),
        entry("X.TTL", true),
        DirEntry { name: None, is_file: false },
    ];
    assert_eq!(read_all_files(&entries).expect("a selection"), vec![1, 4, 5]);
    assert_eq!(read_all_files(&Vec::new()).expect("a selection"), Vec::<usize>::new());
}

#[test]
fn a_file_without_a_name_is_an_error() {
    let entries = vec![entry("YQ==.ttl", true), DirEntry { name: None, is_file: true }];
    match read_all_files(&entries) {
        Err(Error::String(text)) => assert_eq!(text, "filename err"),
        other => panic!("unexpected {:?}", other),
    }
    match read_all_graph_files(true, &entries) {
        Err(Error::String(text)) => assert_eq!(text, "filename err"),
        other => panic!("unexpected {:?}", other),
    }
}

#[test]
fn nothing_is_read_without_a_state() {
    let entries = vec![entry("YQ==.ttl", true), DirEntry { name: None, is_file: true }];
    assert_eq!(
        read_all_graph_files(false, &entries).expect("a selection"),
        Vec::<usize>::new()
    );
    assert_eq!(
        read_all_graph_files(true, &vec![entry("YQ==.ttl", true)]).expect("a selection"),
        vec![0]
    );
}

#[test]
fn store_with_the_noop_prettifier_writes_the_payload() {
    let graph = Graph {
        id: "<#/(%=:".to_string(),
        graph: "<x:a> <x:p> 1 .\n".to_string(),
        format: Some("text/turtle".to_string()),
    };
    match store_graph(&NoOpPrettifier::new(), &graph, None, 300) {
        Ok(StoreAction::Write { filename, content, message, .. }) => {
            assert_eq!(filename, "PCMvKCU9Og==.ttl");
            assert_eq!(content.as_bytes(), b"<x:a> <x:p> 1 .\n");
            assert_eq!(message, "300 - update: <#/(%=:");
            let times = list_commit_times(&Vec::new());
            let plan = commit_file(&times, None, &filename, message, 300, Change::Add).expect("a plan");
            assert_eq!(plan.parent, None);
            let commits = vec![Commit {
                oid: Oid::from_bytes([1; 20]),
                message: Some(plan.message),
            }];
            let times = list_commit_times(&commits);
            assert_eq!(times.len(), 1);
            assert_eq!(times.first().map(|entry| entry.0), Some(300));
        }
        other => panic!("unexpected {:?}", other),
    }

    let other = Graph { id: ">>>???".to_string(), ..graph };
    match store_graph(&NoOpPrettifier::new(), &other, None, 7) {
        Ok(StoreAction::Write { filename, content, message, .. }) => {
            assert_eq!(filename, "Pj4-Pz8_.ttl");
            assert_eq!(content, other.graph);
            assert_eq!(message, "7 - update: >>>???");
        }
        other => panic!("unexpected {:?}", other),
    }
    assert!(matches!(
        store_graph(&NoOpPrettifier::new(), &other, Some(b"<x:a> <x:p> 1 .\n"), 8),
        Ok(StoreAction::Unchanged)
    ));
}

#[test]
fn the_prettifier_gets_the_payload_and_its_error_is_handed_on() {
    struct Echo {}
    impl RdfPrettifier for Echo {
        fn new() -> Self {
            Echo {}
        }
        fn prettify(&self, graph: &str) -> Result<String, Error> {
            Err(Error::String(format!("got {}", graph)))
        }
    }
    let graph = Graph { id: "g".to_string(), graph: "payload".to_string(), format: None };
    for existing in [None, Some(&b"payload"[..])] {
        match store_graph(&Echo::new(), &graph, existing, 1) {
            Err(Error::String(text)) => assert_eq!(text, "got payload"),
            other => panic!("unexpected {:?}", other),
        }
    }
}
