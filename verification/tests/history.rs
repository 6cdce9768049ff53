use rdf_diff_store::error::{Error, GitError, GitErrorClass, GitErrorCode};
use rdf_diff_store::graphs::{read_all_graph_files, store_graph, DirEntry, StoreAction};
use rdf_diff_store::models::Graph;
use rdf_diff_store::rdf::{NoOpPrettifier, RdfPrettifier};
use rdf_diff_store::git::{
    branch_created, checkout_main_and_fetch_updates, checkout_timestamp, commit_file, Change,
    delete_message, head_needs_main, list_commit_times, oid_of_timestamp, replica_path,
    replica_setup, repo_metadata, timestamp_from_message, update_message, Commit, MergeAnalysis,
    Oid, ReplicaSetup, ReusableRepoPool, AUTHOR_EMAIL, AUTHOR_NAME, MAIN_REF, MISSING_MASTER,
    PUSH_REFSPEC, REMOTE,
};

fn oid(n: u8) -> Oid {
    Oid::from_bytes([n; 20])
}

fn commit(n: u8, message: &str) -> Commit {
    Commit { oid: oid(n), message: Some(message.to_string()) }
}

#[test]
fn timestamp_is_the_first_token() {
    assert_eq!(timestamp_from_message("100 - update: a"), 100);
    assert_eq!(timestamp_from_message("  42\tfoo"), 42);
    assert_eq!(timestamp_from_message("\n7\nrest"), 7);
    assert_eq!(timestamp_from_message("007 - delete: x"), 7);
    assert_eq!(timestamp_from_message("0"), 0);
}

#[test]
fn timestamp_defaults_to_zero() {
    assert_eq!(timestamp_from_message(""), 0);
    assert_eq!(timestamp_from_message("   "), 0);
    assert_eq!(timestamp_from_message("abc 12"), 0);
    assert_eq!(timestamp_from_message("12abc"), 0);
    assert_eq!(timestamp_from_message("-3 - update: a"), 0);
    assert_eq!(timestamp_from_message("+"), 0);
    assert_eq!(timestamp_from_message("1.5"), 0);
}

#[test]
fn timestamp_reads_like_the_standard_parser() {
    let samples = [
        "+5 x",
        "++5",
        "18446744073709551615 x",
        "18446744073709551616",
        "99999999999999999999999",
        "00000000000000000000000001",
        "\u{3000}7",
        "\u{a0}8 x",
        "9\u{2003}x",
        "٣",
        "1_000",
    ];
    for sample in samples {
        let expected = sample
            .split_whitespace()
            .next()
            .unwrap_or("0")
            .parse::<u64>()
            .unwrap_or(0);
        assert_eq!(timestamp_from_message(sample), expected, "{:?}", sample);
    }
    assert_eq!(timestamp_from_message("+5 x"), 5);
    assert_eq!(timestamp_from_message("18446744073709551615 x"), u64::MAX);
    assert_eq!(timestamp_from_message("18446744073709551616"), 0);
    assert_eq!(timestamp_from_message("\u{3000}7"), 7);
}

#[test]
fn messages_have_the_documented_form() {
    assert_eq!(update_message(300, "<#/(%=:"), "300 - update: <#/(%=:");
    assert_eq!(delete_message(301, "a b"), "301 - delete: a b");
    assert_eq!(update_message(0, ""), "0 - update: ");
    assert_eq!(
        update_message(u64::MAX, "x"),
        "18446744073709551615 - update: x"
    );
}

#[test]
fn message_carries_its_timestamp() {
    for ts in [0u64, 1, 9, 10, 99, 100, 1234567890, u64::MAX - 1, u64::MAX] {
        for id in ["", "a", "42 is not a timestamp", " leading space", "\n"] {
            assert_eq!(timestamp_from_message(&update_message(ts, id)), ts);
            assert_eq!(timestamp_from_message(&delete_message(ts, id)), ts);
        }
    }
}

#[test]
fn commit_times_keep_commit_order_when_sorted() {
    let commits = vec![
        commit(1, "100 - update: a"),
        commit(2, "200 - update: b"),
        commit(3, "200 - delete: a"),
        commit(4, "300 - update: c"),
    ];
    let times = list_commit_times(&commits);
    assert_eq!(times.len(), 4);
    assert_eq!(
        times.entries(),
        &vec![(100, oid(1)), (200, oid(2)), (200, oid(3)), (300, oid(4))]
    );
    assert_eq!(times.first(), Some((100, oid(1))));
    assert_eq!(times.last(), Some((300, oid(4))));
}

#[test]
fn commit_times_are_sorted_and_stable() {
    let commits = vec![
        commit(1, "300 - update: a"),
        commit(2, "100 - update: b"),
        commit(3, "garbage"),
        commit(4, "100 - update: c"),
        Commit { oid: oid(5), message: None },
        commit(6, "200 - update: d"),
    ];
    let times = list_commit_times(&commits);
    assert_eq!(
        times.entries(),
        &vec![
            (0, oid(3)),
            (0, oid(5)),
            (100, oid(2)),
            (100, oid(4)),
            (200, oid(6)),
            (300, oid(1)),
        ]
    );
}

#[test]
fn empty_history() {
    let times = list_commit_times(&Vec::new());
    assert_eq!(times.len(), 0);
    assert_eq!(times.first(), None);
    assert_eq!(times.last(), None);
    assert_eq!(oid_of_timestamp(&times, 0), None);
    assert_eq!(oid_of_timestamp(&times, u64::MAX), None);
    assert!(checkout_timestamp(&times, 12345).is_none());
    let metadata = repo_metadata(&times);
    assert_eq!(metadata.start_time, None);
    assert_eq!(metadata.end_time, None);
}

/// Store one graph, then store another, then check that graphs retured for the
/// three timestamps are correct. The three timestamps beeing: before first
/// graph is created, before second is created and after both are created.
#[test]
fn timestamps() {
    let mut graph = Graph {
        id: "<#/(%¤=:".to_string(),
        graph: r#"
        @prefix si: <https://www.w3schools.com/rdf/> .

        <https://www.w3schools00.com> si:author "Jan Egil Refsnes" ;
            si:title "W3Schools" .
        "#
        .to_string(),
        format: Some("text/turtle".to_string()),
    };

    // The working tree after each commit, and the history.
    let mut tree: Vec<DirEntry> = vec![DirEntry { name: Some(".git".to_string()), is_file: false }];
    let mut trees: Vec<(Oid, Vec<DirEntry>)> = Vec::new();
    let mut commits: Vec<Commit> = Vec::new();
    let mut head: Option<Oid> = None;

    let pre_time = 99;

    for (n, timestamp) in [(1u8, 100u64), (2, 200)] {
        let action = store_graph(&NoOpPrettifier::new(), &graph, None, timestamp)
            .expect("unable to store graph");
        match action {
            StoreAction::Write { filename, message, .. } => {
                let times = list_commit_times(&commits);
                let plan = commit_file(&times, head, &filename, message, timestamp, Change::Add)
                    .expect("unable to commit");
                tree.push(DirEntry { name: Some(plan.path), is_file: true });
                commits.push(Commit { oid: oid(n), message: Some(plan.message) });
                trees.push((oid(n), tree.clone()));
                head = Some(oid(n));
            }
            StoreAction::Unchanged => panic!("the graph is new"),
        }
        graph.id = "anotherone".to_string();
    }

    let mid_time = 150;
    let post_time = 250;

    let read = |timestamp: u64| -> Vec<usize> {
        let times = list_commit_times(&commits);
        match checkout_timestamp(&times, timestamp) {
            Some(target) => {
                let entries = &trees.iter().find(|t| t.0 == target.oid).expect("a tree").1;
                read_all_graph_files(true, entries).expect("unable to read graphs")
            }
            None => read_all_graph_files(false, &Vec::new()).expect("unable to read graphs"),
        }
    };

    // The following order (post -> pre -> mid) is chosen to test that the repo
    // is able to move both backwards and forwards in time.

    // There should be 2 graphs when both are created.
    let graphs_post = read(post_time);
    assert_eq!(graphs_post.len(), 2);

    // There should be 0 graphs before the first is created.
    let graphs_pre = read(pre_time);
    assert_eq!(graphs_pre.len(), 0);

    // There should be 1 graph between first and seconds is created.
    let graphs_mid = read(mid_time);
    assert_eq!(graphs_mid.len(), 1);

    assert_eq!(commits[0].message.as_deref(), Some("100 - update: <#/(%¤=:"));
    assert_eq!(trees[0].1[1].name.as_deref(), Some("PCMvKCXCpD06.ttl"));
    assert_eq!(trees[1].1[2].name.as_deref(), Some("YW5vdGhlcm9uZQ==.ttl"));
}

#[test]
fn states_before_between_and_after_two_writes() {
    let commits = vec![commit(1, "100 - update: a"), commit(2, "200 - update: b")];
    let times = list_commit_times(&commits);

    let post = checkout_timestamp(&times, 250).expect("a state after both writes");
    assert_eq!(post.oid, oid(2));

    assert!(checkout_timestamp(&times, 50).is_none());

    let mid = checkout_timestamp(&times, 150).expect("a state between the writes");
    assert_eq!(mid.oid, oid(1));
}

#[test]
fn state_is_that_of_the_latest_commit_not_later() {
    let commits = vec![
        commit(1, "100 - update: a"),
        commit(2, "200 - update: b"),
        commit(3, "200 - update: c"),
        commit(4, "400 - update: d"),
    ];
    let times = list_commit_times(&commits);
    assert_eq!(oid_of_timestamp(&times, 99), None);
    assert_eq!(oid_of_timestamp(&times, 100), Some(oid(1)));
    assert_eq!(oid_of_timestamp(&times, 199), Some(oid(1)));
    assert_eq!(oid_of_timestamp(&times, 200), Some(oid(3)));
    assert_eq!(oid_of_timestamp(&times, 399), Some(oid(3)));
    assert_eq!(oid_of_timestamp(&times, 400), Some(oid(4)));
    assert_eq!(oid_of_timestamp(&times, u64::MAX), Some(oid(4)));
}

#[test]
fn bisection_agrees_with_a_scan() {
    let mut commits = Vec::new();
    for n in 0u8..60 {
        let ts = (n as u64 * 7) % 50;
        commits.push(commit(n, &format!("{} - update: g", ts)));
    }
    let times = list_commit_times(&commits);
    for ts in 0u64..55 {
        let expected = times
            .entries()
            .iter()
            .filter(|entry| entry.0 <= ts)
            .last()
            .map(|entry| entry.1);
        assert_eq!(oid_of_timestamp(&times, ts), expected);
    }
}

#[test]
fn checkout_names_the_branch_after_the_commit() {
    let id = Oid::from_bytes([
        0x00, 0x01, 0x0a, 0x0f, 0x10, 0x7f, 0x80, 0xab, 0xcd, 0xef, 0xff, 0x12, 0x34, 0x56, 0x78,
        0x9a, 0xbc, 0xde, 0xf0, 0x99,
    ]);
    assert_eq!(id.hex(), "00010a0f107f80abcdefff123456789abcdef099");
    let commits = vec![Commit { oid: id, message: Some("5 - update: a".to_string()) }];
    let times = list_commit_times(&commits);
    let checkout = checkout_timestamp(&times, 5).expect("a state");
    assert_eq!(checkout.oid, id);
    assert_eq!(checkout.branch, "00010a0f107f80abcdefff123456789abcdef099");
    assert_eq!(
        checkout.refname,
        "refs/heads/00010a0f107f80abcdefff123456789abcdef099"
    );
}

fn git_error(class: GitErrorClass, code: GitErrorCode) -> GitError {
    GitError { class, code, message: "boom".to_string() }
}

#[test]
fn an_existing_branch_is_no_failure() {
    assert!(branch_created(Ok(())).is_ok());
    assert!(branch_created(Err(git_error(GitErrorClass::Reference, GitErrorCode::Exists))).is_ok());
    for (class, code) in [
        (GitErrorClass::Reference, GitErrorCode::Other),
        (GitErrorClass::Other, GitErrorCode::Exists),
        (GitErrorClass::Other, GitErrorCode::Other),
    ] {
        match branch_created(Err(git_error(class, code))) {
            Err(Error::GitError(e)) => {
                assert_eq!(e.class, class);
                assert_eq!(e.code, code);
                assert_eq!(e.message, "boom");
            }
            other => panic!("unexpected {:?}", other),
        }
    }
}

#[test]
fn first_commit_has_no_parent() {
    let times = list_commit_times(&Vec::new());
    let plan = commit_file(&times, None, "YQ==.ttl", update_message(7, "a"), 7, Change::Add).expect("a plan");
    assert_eq!(plan.parent, None);
    assert_eq!(plan.path, "YQ==.ttl");
    assert_eq!(plan.message, "7 - update: a");
    assert_eq!(plan.author_name, "rdf-diff-store");
    assert_eq!(plan.author_email, "fellesdatakatalog@digdir.no");
    assert_eq!(plan.change, Change::Add);
    assert_eq!(plan.reference, "refs/heads/main");
    let removal = commit_file(&times, None, "YQ==.ttl", delete_message(8, "a"), 8, Change::Remove)
        .expect("a plan");
    assert_eq!(removal.change, Change::Remove);
    assert_eq!(removal.message, "8 - delete: a");
}

#[test]
fn later_commits_have_head_as_parent() {
    let times = list_commit_times(&vec![commit(1, "600 - update: a")]);
    let plan = commit_file(&times, Some(oid(1)), "Yg==.ttl", update_message(601, "b"), 601, Change::Add)
        .expect("a plan");
    assert_eq!(plan.parent, Some(oid(1)));
    assert_eq!(plan.message, "601 - update: b");
    assert_eq!(plan.author_name, AUTHOR_NAME);
    assert_eq!(plan.author_email, AUTHOR_EMAIL);
    let same = commit_file(&times, Some(oid(1)), "Yg==.ttl", update_message(600, "b"), 600, Change::Add)
        .expect("a plan for an equal timestamp");
    assert_eq!(same.parent, Some(oid(1)));
}

#[test]
fn out_of_order_commit_is_refused() {
    let times = list_commit_times(&vec![commit(1, "600 - update: a"), commit(2, "700 - update: b")]);
    match commit_file(&times, Some(oid(2)), "Yg==.ttl", update_message(650, "b"), 650, Change::Add) {
        Err(Error::OutOfOrder { timestamp, latest }) => {
            assert_eq!(timestamp, 650);
            assert_eq!(latest, 700);
        }
        other => panic!("unexpected {:?}", other),
    }
}

#[test]
fn message_without_its_timestamp_is_refused() {
    let times = list_commit_times(&Vec::new());
    match commit_file(&times, None, "x.ttl", "update without time".to_string(), 9, Change::Add) {
        Err(Error::TimestampMismatch { timestamp, found }) => {
            assert_eq!(timestamp, 9);
            assert_eq!(found, 0);
        }
        other => panic!("unexpected {:?}", other),
    }
    match commit_file(&times, None, "x.ttl", update_message(8, "a"), 9, Change::Add) {
        Err(Error::TimestampMismatch { timestamp, found }) => {
            assert_eq!(timestamp, 9);
            assert_eq!(found, 8);
        }
        other => panic!("unexpected {:?}", other),
    }
}

#[test]
fn serialized_writes_stay_in_order() {
    let mut commits: Vec<Commit> = Vec::new();
    let mut head = None;
    for (n, ts) in [(1u8, 600u64), (2, 601)] {
        let times = list_commit_times(&commits);
        let plan = commit_file(&times, head, "f.ttl", update_message(ts, "g"), ts, Change::Add).expect("a plan");
        assert_eq!(plan.parent, head);
        commits.push(Commit { oid: oid(n), message: Some(plan.message) });
        head = Some(oid(n));
    }
    let times = list_commit_times(&commits);
    assert_eq!(times.entries(), &vec![(600, oid(1)), (601, oid(2))]);
    assert!(commits[0].message.as_ref().unwrap().starts_with("600 "));
    assert!(commits[1].message.as_ref().unwrap().starts_with("601 "));
}

#[test]
fn fetch_decision() {
    assert!(matches!(checkout_main_and_fetch_updates(None), Ok(false)));
    let up_to_date = MergeAnalysis { up_to_date: true, fast_forward: false };
    assert!(matches!(checkout_main_and_fetch_updates(Some(up_to_date)), Ok(false)));
    let both = MergeAnalysis { up_to_date: true, fast_forward: true };
    assert!(matches!(checkout_main_and_fetch_updates(Some(both)), Ok(false)));
    let ahead = MergeAnalysis { up_to_date: false, fast_forward: true };
    assert!(matches!(checkout_main_and_fetch_updates(Some(ahead)), Ok(true)));
    let diverged = MergeAnalysis { up_to_date: false, fast_forward: false };
    assert!(matches!(
        checkout_main_and_fetch_updates(Some(diverged)),
        Err(Error::NonFastForward)
    ));
}

#[test]
fn head_is_moved_to_main_only_for_a_missing_master() {
    assert!(!head_needs_main(&Ok(Some(oid(1)))));
    assert!(!head_needs_main(&Ok(None)));
    let missing = GitError {
        class: GitErrorClass::Reference,
        code: GitErrorCode::Other,
        message: MISSING_MASTER.to_string(),
    };
    assert!(head_needs_main(&Err(missing)));
    let other = GitError {
        class: GitErrorClass::Reference,
        code: GitErrorCode::Other,
        message: "reference 'refs/heads/main' not found".to_string(),
    };
    assert!(!head_needs_main(&Err(other)));
}

#[test]
fn fixed_names() {
    assert_eq!(AUTHOR_NAME, "rdf-diff-store");
    assert_eq!(AUTHOR_EMAIL, "fellesdatakatalog@digdir.no");
    assert_eq!(REMOTE, "origin");
    assert_eq!(MAIN_REF, "refs/heads/main");
    assert_eq!(PUSH_REFSPEC, "refs/heads/main:refs/heads/main");
    assert_eq!(MISSING_MASTER, "reference 'refs/heads/master' not found");
}

#[test]
fn metadata_spans_the_history() {
    let times = list_commit_times(&vec![
        commit(1, "200 - update: b"),
        commit(2, "100 - update: a"),
        commit(3, "300 - update: c"),
    ]);
    let metadata = repo_metadata(&times);
    assert_eq!(metadata.start_time, Some(100));
    assert_eq!(metadata.end_time, Some(300));
}

#[test]
fn metadata_saturates() {
    let times = list_commit_times(&vec![
        commit(1, "9223372036854775807 - update: a"),
        commit(2, "9223372036854775808 - update: b"),
    ]);
    let metadata = repo_metadata(&times);
    assert_eq!(metadata.start_time, Some(i64::MAX));
    assert_eq!(metadata.end_time, Some(i64::MAX));
    let one = list_commit_times(&vec![commit(1, "18446744073709551615 - update: a")]);
    assert_eq!(repo_metadata(&one).end_time, Some(i64::MAX));
}

#[test]
fn pool_lends_each_replica_once() {
    let mut pool = ReusableRepoPool::new(3);
    assert_eq!(pool.available(), 3);
    let a = pool.pop().expect("a replica");
    let b = pool.pop().expect("a replica");
    let c = pool.pop().expect("a replica");
    assert_eq!((a, b, c), (2, 1, 0));
    assert_eq!(pool.pop(), None);
    assert_eq!(pool.available(), 0);
    assert!(pool.push(b));
    assert_eq!(pool.pop(), Some(b));
    assert_eq!(pool.pop(), None);
}

#[test]
fn pool_refuses_what_it_did_not_lend() {
    let mut pool = ReusableRepoPool::new(2);
    assert!(!pool.push(0));
    assert!(!pool.push(1));
    assert!(!pool.push(2));
    assert_eq!(pool.available(), 2);
    let r = pool.pop().expect("a replica");
    assert!(pool.push(r));
    assert!(!pool.push(r));
    assert_eq!(pool.available(), 2);
}

#[test]
fn write_pool_of_one_serializes() {
    let mut pool = ReusableRepoPool::new(1);
    assert_eq!(pool.pop(), Some(0));
    assert_eq!(pool.pop(), None);
    assert!(pool.push(0));
    assert_eq!(pool.pop(), Some(0));
    let mut none = ReusableRepoPool::new(0);
    assert_eq!(none.pop(), None);
}

#[test]
fn replica_directories() {
    assert_eq!(replica_path("/var/repos", 0), "/var/repos/0");
    assert_eq!(replica_path("./tmp-repos/x", 31), "./tmp-repos/x/31");
    assert_eq!(replica_path("", 7), "/7");
    assert_eq!(replica_setup(0, false), ReplicaSetup::OpenOrClone);
    assert_eq!(replica_setup(0, true), ReplicaSetup::OpenOrClone);
    assert_eq!(replica_setup(1, false), ReplicaSetup::CopyFirst);
    assert_eq!(replica_setup(1, true), ReplicaSetup::Open);
}
