use rustgit::init::{begin, create_repository, InitError, Precondition, Progress, Reply, Request};
use rustgit::layout::Content;
use rustgit::repository::{GitError, InvalidReason, Repository};
use std::collections::BTreeMap;

/// A file tree in memory: what stands at each path, `None` for a
/// directory and the bytes for a file.
type Tree = BTreeMap<Vec<String>, Option<Vec<u8>>>;

fn path(components: &[&str]) -> Vec<String> {
    components.iter().map(|c| c.to_string()).collect()
}

fn below(root: &[String], components: &[&str]) -> Vec<String> {
    let mut all = root.to_vec();
    all.extend(components.iter().map(|c| c.to_string()));
    all
}

fn is_directory(tree: &Tree, at: &[String]) -> bool {
    tree.get(at) == Some(&None)
}

fn has_child(tree: &Tree, at: &[String]) -> bool {
    tree.keys().any(|p| !p.is_empty() && &p[..p.len() - 1] == at)
}

fn make_directory(tree: &mut Tree, at: Vec<String>) -> Reply<String> {
    if at.is_empty() || tree.contains_key(&at) || !is_directory(tree, &at[..at.len() - 1]) {
        return Reply::Failed(format!("cannot create directory {}", at.join("/")));
    }
    tree.insert(at, None);
    Reply::Done
}

fn write_file(tree: &mut Tree, at: Vec<String>, bytes: Vec<u8>) -> Reply<String> {
    if at.is_empty() || is_directory(tree, &at) || !is_directory(tree, &at[..at.len() - 1]) {
        return Reply::Failed(format!("cannot write file {}", at.join("/")));
    }
    tree.insert(at, Some(bytes));
    Reply::Done
}

fn perform(tree: &mut Tree, root: &[String], request: Request) -> Reply<String> {
    match request {
        Request::IsPresent => Reply::Flag(tree.contains_key(root)),
        Request::IsDirectory => match tree.get(root) {
            Some(node) => Reply::Flag(node.is_none()),
            None => Reply::Failed("no such file or directory".to_string()),
        },
        Request::IsEmpty => {
            if is_directory(tree, root) {
                Reply::Flag(!has_child(tree, root))
            } else {
                Reply::Failed("not a directory".to_string())
            }
        }
        Request::MakeRoot => make_directory(tree, root.to_vec()),
        Request::Make(entry) => {
            let at = below(root, &entry.path);
            match entry.content {
                Content::Directory => make_directory(tree, at),
                Content::File(bytes) => write_file(tree, at, bytes),
            }
        }
    }
}

fn initialise(tree: &mut Tree, root: &[String]) -> Result<(), InitError<String>> {
    let (mut session, mut request) = begin();
    for _ in 0..100 {
        let reply = perform(tree, root, request);
        match create_repository(session, reply) {
            Progress::Ask(next, wanted) => {
                session = next;
                request = wanted;
            }
            Progress::Finished(result) => return result,
        }
    }
    panic!("the initialisation did not end");
}

fn open(tree: &Tree, root: &[String], name: &str) -> Result<Repository, GitError> {
    let present = tree.contains_key(&below(root, &[".git"]));
    let config = tree.get(&below(root, &[".git", "config"])).cloned().flatten();
    Repository::new(name.to_string(), present, config)
}

fn home() -> Tree {
    let mut tree = Tree::new();
    tree.insert(path(&[]), None);
    tree.insert(path(&["home"]), None);
    tree.insert(path(&["home", "notes.txt"]), Some(b"remember".to_vec()));
    tree
}

fn with_repository_at(mut tree: Tree, root: &[String]) -> Tree {
    tree.insert(root.to_vec(), None);
    tree.insert(below(root, &[".git"]), None);
    tree.insert(below(root, &[".git", "objects"]), None);
    tree.insert(below(root, &[".git", "branches"]), None);
    tree.insert(below(root, &[".git", "refs"]), None);
    tree.insert(below(root, &[".git", "refs", "heads"]), Some(Vec::new()));
    tree.insert(below(root, &[".git", "refs", "tags"]), Some(Vec::new()));
    tree.insert(
        below(root, &[".git", "description"]),
        Some(b"Unnamed repository; edit this file 'description' to name the repository.\n".to_vec()),
    );
    tree.insert(below(root, &[".git", "HEAD"]), Some(b"ref: refs/heads/master\n".to_vec()));
    tree.insert(
        below(root, &[".git", "config"]),
        Some(b"[core]\nrepositoryformatversion=0\nfilemode=false\nbare=false\n".to_vec()),
    );
    tree
}

#[test]
fn fresh_directory_creation() {
    let root = path(&["home", "project"]);
    let mut tree = home();
    assert_eq!(initialise(&mut tree, &root), Ok(()));
    assert_eq!(tree, with_repository_at(home(), &root));
}

#[test]
fn empty_directory_acceptance() {
    let root = path(&["home", "project"]);
    let mut tree = home();
    tree.insert(root.clone(), None);
    assert_eq!(initialise(&mut tree, &root), Ok(()));
    assert_eq!(tree, with_repository_at(home(), &root));
}

#[test]
fn non_empty_directory_rejection() {
    let root = path(&["home"]);
    let mut tree = home();
    assert_eq!(
        initialise(&mut tree, &root),
        Err(InitError::Precondition(Precondition::DirectoryNotEmpty))
    );
    assert_eq!(tree, home());
}

#[test]
fn non_directory_rejection() {
    let root = path(&["home", "notes.txt"]);
    let mut tree = home();
    assert_eq!(
        initialise(&mut tree, &root),
        Err(InitError::Precondition(Precondition::NotADirectory))
    );
    assert_eq!(tree, home());
}

#[test]
fn missing_parent_is_an_io_error_and_is_not_created() {
    let root = path(&["home", "a", "b"]);
    let mut tree = home();
    assert_eq!(
        initialise(&mut tree, &root),
        Err(InitError::Io("cannot create directory home/a/b".to_string()))
    );
    assert_eq!(tree, home());
}

#[test]
fn second_initialisation_is_refused() {
    let root = path(&["home", "project"]);
    let mut tree = home();
    assert_eq!(initialise(&mut tree, &root), Ok(()));
    let once = tree.clone();
    assert_eq!(
        initialise(&mut tree, &root),
        Err(InitError::Precondition(Precondition::DirectoryNotEmpty))
    );
    assert_eq!(tree, once);
}

#[test]
fn round_trip_create_then_open() {
    for root in [path(&["home", "project"]), path(&["srv"]), path(&["home", "x"])] {
        let mut tree = home();
        assert_eq!(initialise(&mut tree, &root), Ok(()));
        let name = format!("/{}", root.join("/"));
        let repository = open(&tree, &root, &name).expect("a new repository opens");
        assert_eq!(repository.work_tree(), name);
        assert_eq!(repository.git_dir(), format!("{}/.git", name));
        let conf = repository.conf();
        let sections: Vec<_> = conf
            .iter()
            .map(|(section, pairs)| (section, pairs.iter().collect::<Vec<_>>()))
            .collect();
        assert_eq!(
            sections,
            vec![
                (None, vec![]),
                (
                    Some("core"),
                    vec![("repositoryformatversion", "0"), ("filemode", "false"), ("bare", "false")]
                ),
            ]
        );
    }
}

#[test]
fn open_on_uninitialized_path_fails() {
    let tree = home();
    assert_eq!(
        open(&tree, &path(&["home"]), "/home").err(),
        Some(GitError::InvalidGitRepository(InvalidReason::NoMetadataDirectory))
    );
}

#[test]
fn open_without_config_or_with_corrupt_config_fails() {
    let root = path(&["home", "project"]);
    let mut tree = home();
    assert_eq!(initialise(&mut tree, &root), Ok(()));

    let mut missing = tree.clone();
    missing.remove(&below(&root, &[".git", "config"]));
    assert_eq!(
        open(&missing, &root, "/home/project").err(),
        Some(GitError::InvalidGitRepository(InvalidReason::BadConfiguration))
    );

    let mut corrupt = tree.clone();
    corrupt.insert(below(&root, &[".git", "config"]), Some(b"[core".to_vec()));
    assert_eq!(
        open(&corrupt, &root, "/home/project").err(),
        Some(GitError::InvalidGitRepository(InvalidReason::BadConfiguration))
    );

    let mut directory = tree.clone();
    directory.insert(below(&root, &[".git", "config"]), None);
    assert_eq!(
        open(&directory, &root, "/home/project").err(),
        Some(GitError::InvalidGitRepository(InvalidReason::BadConfiguration))
    );
}

#[test]
fn failure_midway_leaves_what_was_created() {
    let root = path(&["home", "project"]);
    let mut tree = home();
    tree.insert(root.clone(), None);
    let (mut session, mut request) = begin();
    let mut made = 0;
    let result = loop {
        let reply = match &request {
            Request::Make(entry) if entry.path == [".git", "refs", "tags"] => {
                Reply::Failed("disk full".to_string())
            }
            _ => {
                if matches!(request, Request::Make(_)) {
                    made += 1;
                }
                perform(&mut tree, &root, request)
            }
        };
        match create_repository(session, reply) {
            Progress::Ask(next, wanted) => {
                session = next;
                request = wanted;
            }
            Progress::Finished(result) => break result,
        }
    };
    assert_eq!(result, Err(InitError::Io("disk full".to_string())));
    assert_eq!(made, 5);
    assert!(tree.contains_key(&below(&root, &[".git", "refs", "heads"])));
    assert!(!tree.contains_key(&below(&root, &[".git", "refs", "tags"])));
    assert!(!tree.contains_key(&below(&root, &[".git", "config"])));
}
