use drive_mirror::call::{Call, CallAction, CallEvent, CallKind};
use drive_mirror::config::{DRIVE_ROOT_NAME, MAX_FILE_SIZE, MAX_THREADS};
use drive_mirror::credential::CredentialStore;
use drive_mirror::queue::{Pool, WorkerStep};
use drive_mirror::remote::{folder_request, upload_request};
use drive_mirror::error::UploadError;
use drive_mirror::walker::{Action, Entry, EntryKind, Event, Job, SkipReason, Walker};

enum Node {
    File(u64),
    Unreadable,
    Dir(Vec<(&'static str, Node)>),
}

fn find<'a>(root: &'a Node, root_path: &str, path: &str) -> Option<&'a Node> {
    if path == root_path {
        return Some(root);
    }
    let rest = path.strip_prefix(root_path)?.strip_prefix('/')?;
    let mut node = root;
    for part in rest.split('/') {
        match node {
            Node::Dir(children) => {
                node = &children.iter().find(|(n, _)| *n == part)?.1;
            }
            _ => return None,
        }
    }
    Some(node)
}

fn list(root: &Node, root_path: &str, path: &str) -> Option<Vec<Entry>> {
    match find(root, root_path, path)? {
        Node::Dir(children) => Some(
            children
                .iter()
                .map(|(n, c)| Entry {
                    path: format!("{}/{}", path, n),
                    name: Some(n.to_string()),
                    kind: match c {
                        Node::File(size) => EntryKind::File { size: *size },
                        Node::Unreadable => EntryKind::Unreadable,
                        Node::Dir(_) => EntryKind::Directory,
                    },
                })
                .collect(),
        ),
        _ => None,
    }
}

struct Outcome {
    jobs: Vec<Job>,
    created: Vec<(String, String, String)>,
    create_calls: usize,
    skipped: Vec<(String, SkipReason)>,
    listed: Vec<String>,
    folders_created: usize,
    directories_visited: usize,
}

/// Runs a whole walk against a tree in memory and a service that numbers its folders.
fn mirror(root: &Node, max: u64, failing: &[&str], root_id: &str, next_id: &mut u32) -> Outcome {
    let mut out = Outcome {
        jobs: Vec::new(),
        created: Vec::new(),
        create_calls: 0,
        skipped: Vec::new(),
        listed: Vec::new(),
        folders_created: 0,
        directories_visited: 0,
    };
    let (mut walker, mut action) = Walker::new(max, "/root".to_string(), root_id.to_string());
    let mut steps = 0;
    loop {
        steps += 1;
        assert!(steps < 10_000);
        let event = match action {
            Action::List { path, remote_id: _ } => {
                out.listed.push(path.clone());
                match list(root, "/root", &path) {
                    Some(entries) => Event::Listed(entries),
                    None => Event::Continue,
                }
            }
            Action::CreateFolder { name, parent_id, path: _ } => {
                out.create_calls += 1;
                if failing.contains(&name.as_str()) {
                    Event::Continue
                } else {
                    *next_id += 1;
                    let id = format!("id{}", next_id);
                    out.created.push((name, parent_id, id.clone()));
                    Event::FolderCreated(id)
                }
            }
            Action::Enqueue(job) => {
                out.jobs.push(job);
                Event::Continue
            }
            Action::Skip { path, reason } => {
                out.skipped.push((path, reason));
                Event::Continue
            }
            Action::Finished => break,
        };
        action = walker.step(event);
    }
    out.folders_created = walker.folders_created();
    out.directories_visited = walker.directories_visited();
    assert_eq!(walker.pending_entries(), 0);
    out
}

fn job(path: &str, parent_id: &str) -> Job {
    Job { path: path.to_string(), parent_id: parent_id.to_string() }
}

#[test]
fn first_action_lists_the_root() {
    let (walker, action) = Walker::new(5, "/docs".to_string(), "R".to_string());
    assert_eq!(action, Action::List { path: "/docs".to_string(), remote_id: "R".to_string() });
    assert_eq!(walker.folders_created(), 0);
    assert_eq!(walker.directories_visited(), 0);
    assert_eq!(walker.pending_entries(), 0);
}

#[test]
fn two_files_and_one_subfolder() {
    let tree = Node::Dir(vec![
        ("a.txt", Node::File(10)),
        ("b", Node::Dir(vec![("c.txt", Node::File(10))])),
    ]);
    let mut next = 0;
    let out = mirror(&tree, MAX_FILE_SIZE, &[], "root-id", &mut next);
    assert_eq!(out.created, vec![("b".to_string(), "root-id".to_string(), "id1".to_string())]);
    assert_eq!(out.jobs, vec![job("/root/a.txt", "root-id"), job("/root/b/c.txt", "id1")]);
    assert!(out.skipped.is_empty());
    // one folder creation and two uploads during the walk
    assert_eq!(out.create_calls + out.jobs.len(), 3);
    assert_eq!(out.listed, vec!["/root".to_string(), "/root/b".to_string()]);
}

#[test]
fn file_one_byte_over_a_gigabyte_is_skipped() {
    let tree = Node::Dir(vec![("huge.bin", Node::File(1_000_000_001)), ("ok.bin", Node::File(1))]);
    let mut next = 0;
    let out = mirror(&tree, MAX_FILE_SIZE, &[], "R", &mut next);
    assert_eq!(out.skipped, vec![("/root/huge.bin".to_string(), SkipReason::Oversize)]);
    assert_eq!(out.jobs, vec![job("/root/ok.bin", "R")]);
    assert!(out.jobs.iter().all(|j| j.path != "/root/huge.bin"));
}

#[test]
fn file_exactly_at_the_limit_is_enqueued() {
    let tree = Node::Dir(vec![
        ("at.bin", Node::File(1_000_000_000)),
        ("over.bin", Node::File(1_000_000_001)),
        ("zero.bin", Node::File(0)),
        ("max.bin", Node::File(u64::MAX)),
    ]);
    let mut next = 0;
    let out = mirror(&tree, MAX_FILE_SIZE, &[], "R", &mut next);
    assert_eq!(out.jobs, vec![job("/root/at.bin", "R"), job("/root/zero.bin", "R")]);
    assert_eq!(
        out.skipped,
        vec![
            ("/root/over.bin".to_string(), SkipReason::Oversize),
            ("/root/max.bin".to_string(), SkipReason::Oversize),
        ]
    );
}

#[test]
fn limit_is_the_configured_one() {
    let tree = Node::Dir(vec![("a", Node::File(5)), ("b", Node::File(6))]);
    let mut next = 0;
    let out = mirror(&tree, 5, &[], "R", &mut next);
    assert_eq!(out.jobs, vec![job("/root/a", "R")]);
    assert_eq!(out.skipped, vec![("/root/b".to_string(), SkipReason::Oversize)]);
}

#[test]
fn unreadable_entry_is_skipped() {
    let tree = Node::Dir(vec![("x", Node::Unreadable), ("y", Node::File(3))]);
    let mut next = 0;
    let out = mirror(&tree, 10, &[], "R", &mut next);
    assert_eq!(out.skipped, vec![("/root/x".to_string(), SkipReason::Unreadable)]);
    assert_eq!(out.jobs, vec![job("/root/y", "R")]);
}

#[test]
fn empty_directory_gets_a_folder_and_no_job() {
    let tree = Node::Dir(vec![("empty", Node::Dir(vec![]))]);
    let mut next = 0;
    let out = mirror(&tree, 10, &[], "R", &mut next);
    assert_eq!(out.created, vec![("empty".to_string(), "R".to_string(), "id1".to_string())]);
    assert!(out.jobs.is_empty());
    assert_eq!(out.folders_created, 1);
    assert_eq!(out.directories_visited, 1);
}

#[test]
fn empty_root_finishes_at_once() {
    let (mut walker, _) = Walker::new(10, "/root".to_string(), "R".to_string());
    assert_eq!(walker.step(Event::Listed(Vec::new())), Action::Finished);
    assert_eq!(walker.step(Event::Continue), Action::Finished);
}

#[test]
fn failed_folder_skips_its_subtree_but_not_its_siblings() {
    let tree = Node::Dir(vec![
        ("bad", Node::Dir(vec![("lost.txt", Node::File(1)), ("deep", Node::Dir(vec![]))])),
        ("good", Node::Dir(vec![("kept.txt", Node::File(1))])),
        ("top.txt", Node::File(1)),
    ]);
    let mut next = 0;
    let out = mirror(&tree, 10, &["bad"], "R", &mut next);
    assert_eq!(out.create_calls, 2);
    assert_eq!(out.created, vec![("good".to_string(), "R".to_string(), "id1".to_string())]);
    assert_eq!(out.jobs, vec![job("/root/good/kept.txt", "id1"), job("/root/top.txt", "R")]);
    assert_eq!(out.folders_created, 1);
    assert_eq!(out.directories_visited, 1);
    assert_eq!(out.listed, vec!["/root".to_string(), "/root/good".to_string()]);
}

#[test]
fn folders_created_equal_directories_visited() {
    let tree = Node::Dir(vec![
        ("a", Node::Dir(vec![("b", Node::Dir(vec![("c", Node::Dir(vec![]))]))])),
        ("d", Node::Dir(vec![("e", Node::Dir(vec![]))])),
        ("f", Node::Dir(vec![])),
    ]);
    let mut next = 0;
    let out = mirror(&tree, 10, &["e", "b"], "R", &mut next);
    assert_eq!(out.folders_created, 3);
    assert_eq!(out.directories_visited, 3);
    assert_eq!(out.created.len(), 3);
    // the root and each entered subdirectory are listed
    assert_eq!(out.listed.len(), 4);
}

#[test]
fn children_are_walked_before_later_siblings() {
    let tree = Node::Dir(vec![
        ("d1", Node::Dir(vec![("f1", Node::File(1)), ("f2", Node::File(1))])),
        ("f3", Node::File(1)),
    ]);
    let mut next = 0;
    let out = mirror(&tree, 10, &[], "R", &mut next);
    assert_eq!(
        out.jobs,
        vec![job("/root/d1/f1", "id1"), job("/root/d1/f2", "id1"), job("/root/f3", "R")]
    );
}

#[test]
fn every_job_names_a_folder_that_was_created_before() {
    let tree = Node::Dir(vec![
        ("x", Node::Dir(vec![("y", Node::Dir(vec![("z.txt", Node::File(2))]))])),
        ("w.txt", Node::File(2)),
    ]);
    let mut next = 0;
    let out = mirror(&tree, 10, &[], "R", &mut next);
    assert_eq!(out.jobs, vec![job("/root/x/y/z.txt", "id2"), job("/root/w.txt", "R")]);
    for j in &out.jobs {
        assert!(j.parent_id == "R" || out.created.iter().any(|c| c.2 == j.parent_id));
    }
    assert_eq!(out.created[1], ("y".to_string(), "id1".to_string(), "id2".to_string()));
}

#[test]
fn directory_without_a_textual_name_is_called_folder() {
    let (mut walker, _) = Walker::new(10, "/root".to_string(), "R".to_string());
    let entries = vec![Entry {
        path: "/root/?".to_string(),
        name: None,
        kind: EntryKind::Directory,
    }];
    assert_eq!(
        walker.step(Event::Listed(entries)),
        Action::CreateFolder {
            name: "folder".to_string(),
            parent_id: "R".to_string(),
            path: "/root/?".to_string(),
        }
    );
}

#[test]
fn failed_listing_leaves_the_directory_out() {
    let (mut walker, _) = Walker::new(10, "/root".to_string(), "R".to_string());
    let entries = vec![
        Entry { path: "/root/d".to_string(), name: Some("d".to_string()), kind: EntryKind::Directory },
        Entry { path: "/root/f".to_string(), name: Some("f".to_string()), kind: EntryKind::File { size: 1 } },
    ];
    assert!(matches!(walker.step(Event::Listed(entries)), Action::CreateFolder { .. }));
    assert_eq!(
        walker.step(Event::FolderCreated("D".to_string())),
        Action::List { path: "/root/d".to_string(), remote_id: "D".to_string() }
    );
    // the listing failed
    assert_eq!(walker.step(Event::Continue), Action::Enqueue(job("/root/f", "R")));
    assert_eq!(walker.step(Event::Continue), Action::Finished);
    assert_eq!(walker.folders_created(), 1);
    assert_eq!(walker.directories_visited(), 1);
}

#[test]
fn unexpected_answer_carries_nothing() {
    let (mut walker, _) = Walker::new(10, "/root".to_string(), "R".to_string());
    // a folder identifier where a listing was awaited
    assert_eq!(walker.step(Event::FolderCreated("X".to_string())), Action::Finished);
    assert_eq!(walker.folders_created(), 0);
    // a listing where nothing was awaited
    let entries = vec![Entry {
        path: "/root/f".to_string(),
        name: Some("f".to_string()),
        kind: EntryKind::File { size: 1 },
    }];
    assert_eq!(walker.step(Event::Listed(entries)), Action::Finished);
}

#[test]
fn second_run_duplicates_the_remote_tree() {
    // Known gap: nothing is remembered between runs, so nothing is merged.
    let tree = Node::Dir(vec![("b", Node::Dir(vec![("c.txt", Node::File(1))]))]);
    let mut next = 0;
    next += 1;
    let first_root = format!("id{}", next);
    let first = mirror(&tree, 10, &[], &first_root, &mut next);
    next += 1;
    let second_root = format!("id{}", next);
    let second = mirror(&tree, 10, &[], &second_root, &mut next);
    assert_ne!(first_root, second_root);
    assert_eq!(first.created, vec![("b".to_string(), "id1".to_string(), "id2".to_string())]);
    assert_eq!(second.created, vec![("b".to_string(), "id3".to_string(), "id4".to_string())]);
    assert_eq!(first.jobs, vec![job("/root/b/c.txt", "id2")]);
    assert_eq!(second.jobs, vec![job("/root/b/c.txt", "id4")]);
}

#[test]
fn skip_reasons_as_errors() {
    assert_eq!(SkipReason::Oversize.as_error(), UploadError::OversizeSkipped);
    assert_eq!(SkipReason::Unreadable.as_error(), UploadError::LocalIo);
}

/// One call against a service that accepts everything and numbers its nodes.
fn accepted_call(kind: CallKind, store: &mut CredentialStore, next_id: &mut u32) -> Option<String> {
    let (mut call, action) = Call::begin(kind, store);
    assert_eq!(action, CallAction::Send { token: "tok".to_string() });
    *next_id += 1;
    let body = format!("{{\"id\": \"n{}\"}}", next_id);
    match call.on_event(store, CallEvent::Reply { status: 200, body }) {
        Some(CallAction::Done(Ok(payload))) => payload,
        other => panic!("unexpected {:?}", other),
    }
}

#[test]
fn end_to_end_makes_four_remote_calls() {
    let tree = Node::Dir(vec![
        ("a.txt", Node::File(10)),
        ("b", Node::Dir(vec![("c.txt", Node::File(10))])),
    ]);
    let mut store = CredentialStore::new("tok".to_string());
    let mut next_id = 0;
    let mut calls = 0;
    let mut folders: Vec<(String, Vec<String>, String)> = Vec::new();
    let mut uploads: Vec<(String, Vec<String>)> = Vec::new();

    // the root folder, before the walk
    let request = folder_request(DRIVE_ROOT_NAME, None);
    let root_id = accepted_call(CallKind::CreateFolder, &mut store, &mut next_id).unwrap();
    calls += 1;
    folders.push((request.name, request.parents, root_id.clone()));

    let mut pool = Pool::new(MAX_THREADS);
    let (mut walker, mut action) =
        Walker::new(MAX_FILE_SIZE, "/root".to_string(), root_id.clone());
    loop {
        let event = match action {
            Action::List { path, .. } => Event::Listed(list(&tree, "/root", &path).unwrap()),
            Action::CreateFolder { name, parent_id, .. } => {
                let request = folder_request(&name, Some(&parent_id));
                let id = accepted_call(CallKind::CreateFolder, &mut store, &mut next_id).unwrap();
                calls += 1;
                folders.push((request.name, request.parents, id.clone()));
                Event::FolderCreated(id)
            }
            Action::Enqueue(job) => {
                assert_eq!(pool.submit(job), Ok(()));
                Event::Continue
            }
            Action::Skip { path, .. } => panic!("nothing to skip, got {}", path),
            Action::Finished => break,
        };
        action = walker.step(event);
    }
    pool.close();

    let mut live = MAX_THREADS;
    let mut worker = 0;
    while live > 0 {
        match pool.poll(worker) {
            WorkerStep::Transfer(job) => {
                let name = job.path.rsplit('/').next();
                let request = upload_request(name, &job.parent_id).unwrap();
                assert_eq!(accepted_call(CallKind::Upload, &mut store, &mut next_id), None);
                calls += 1;
                uploads.push((request.name, request.parents));
            }
            WorkerStep::Wait => panic!("the queue is closed"),
            WorkerStep::Exit => {
                live -= 1;
                worker += 1;
            }
        }
    }
    assert!(pool.is_drained());

    assert_eq!(calls, 4);
    assert_eq!(
        folders,
        vec![
            ("ImportantFiles".to_string(), vec![], "n1".to_string()),
            ("b".to_string(), vec!["n1".to_string()], "n2".to_string()),
        ]
    );
    assert_eq!(
        uploads,
        vec![
            ("a.txt".to_string(), vec!["n1".to_string()]),
            ("c.txt".to_string(), vec!["n2".to_string()]),
        ]
    );
}
