//! What an initialisation does to a file tree.
//!
//! A model driver answers every request from a [`Tree`] and carries out
//! every creation on it.  The lemmas below say where the rule of
//! [`crate::init`] leaves the tree, for every tree and every target.

use crate::config::{default_config_document, default_configuration, parsed_configuration};
use crate::init::{step, wanted, InitError, Outcome, Precondition, Reply, Stage, Wanted};
use crate::layout::{default_layout, lemma_layout_orderly, Node, CONFIG_INDEX, GIT_DIR, LAYOUT_LEN};
use crate::path::joined;
use crate::repository::{opened, GitError, RepositoryModel};
use crate::tree::{lemma_installed, lemma_nothing_below, lemma_parent_below, lemma_same_root, Tree};
use vstd::prelude::*;

verus! {

/// The model driver: what becomes of `tree` and what is reported when
/// `request` is carried out on the target `root`.  An operation that the
/// tree does not allow fails with `failure` and changes nothing.
pub open spec fn respond<E>(tree: Tree, root: Seq<Seq<char>>, request: Wanted, failure: E) -> (
    Tree,
    Reply<E>,
) {
    match request {
        Wanted::IsPresent => (tree, Reply::Flag(tree.has(root))),
        Wanted::IsDirectory => if tree.has(root) {
            (tree, Reply::Flag(tree.is_directory(root)))
        } else {
            (tree, Reply::Failed(failure))
        },
        Wanted::IsEmpty => if tree.is_directory(root) {
            (tree, Reply::Flag(tree.has_no_child(root)))
        } else {
            (tree, Reply::Failed(failure))
        },
        Wanted::MakeRoot => match tree.make_directory(root) {
            Some(made) => (made, Reply::Done),
            None => (tree, Reply::Failed(failure)),
        },
        Wanted::Make(entry) => match tree.create(root, entry) {
            Some(made) => (made, Reply::Done),
            None => (tree, Reply::Failed(failure)),
        },
    }
}

/// How many requests a session at `stage` can still make.
pub open spec fn remaining(stage: Stage) -> nat {
    match stage {
        Stage::Presence => (LAYOUT_LEN + 3) as nat,
        Stage::Kind => (LAYOUT_LEN + 2) as nat,
        Stage::Emptiness => (LAYOUT_LEN + 1) as nat,
        Stage::Root => (LAYOUT_LEN + 1) as nat,
        Stage::Entry(index) => if index < LAYOUT_LEN {
            (LAYOUT_LEN - index) as nat
        } else {
            0
        },
    }
}

/// The model driver at work from `stage` on: the tree it leaves and the
/// result of the initialisation (`None` where the session made no
/// progress, which [`lemma_initialise_ends`] rules out).
pub open spec fn run<E>(tree: Tree, root: Seq<Seq<char>>, stage: Stage, failure: E) -> (
    Tree,
    Option<Result<(), InitError<E>>>,
)
    decreases remaining(stage),
{
    let (next_tree, reply) = respond(tree, root, wanted(stage), failure);
    match step(stage, reply) {
        Outcome::Finished(result) => (next_tree, Some(result)),
        Outcome::Ask(next, _) => if remaining(next) < remaining(stage) {
            run(next_tree, root, next, failure)
        } else {
            (next_tree, None)
        },
    }
}

/// A whole initialisation of the target `root` in `tree`.
pub open spec fn initialise<E>(tree: Tree, root: Seq<Seq<char>>, failure: E) -> (
    Tree,
    Option<Result<(), InitError<E>>>,
) {
    run(tree, root, Stage::Presence, failure)
}

/// The tree with the whole layout of a new repository below `root`.
pub open spec fn with_repository(tree: Tree, root: Seq<Seq<char>>) -> Tree {
    tree.installed(root, default_layout(), LAYOUT_LEN as nat)
}

/// Once the target is an empty directory, the entries are created one
/// after the other and none fails.
proof fn lemma_building<E>(empty: Tree, root: Seq<Seq<char>>, index: nat, failure: E)
    requires
        empty.well_formed(),
        empty.is_directory(root),
        empty.has_no_child(root),
        index < LAYOUT_LEN,
    ensures
        run(empty.installed(root, default_layout(), index), root, Stage::Entry(index as usize), failure)
            == (with_repository(empty, root), Some(Ok::<(), InitError<E>>(()))),
    decreases LAYOUT_LEN - index,
{
    let entries = default_layout();
    let tree = empty.installed(root, entries, index);
    let entry = entries[index as int];
    let target = root + entry.path;
    lemma_layout_orderly(default_config_document());
    lemma_installed(empty, root, entries, index);
    lemma_nothing_below(empty, root, entry.path);
    lemma_parent_below(root, entry.path);
    assert(!tree.has(target)) by {
        if tree.has(target) {
            let i = choose|i: int| 0 <= i < index && target == root + (#[trigger] entries[i]).path;
            lemma_same_root(root, entries[i].path, entry.path);
        }
    }
    assert(tree.is_directory(target.drop_last())) by {
        if entry.path.len() == 1 {
            assert forall|i: int| 0 <= i < index implies root != root + (#[trigger] entries[i]).path by {
                assert((root + entries[i].path).len() > root.len());
            }
            assert(tree.nodes[root] == empty.nodes[root]);
        } else {
            let i = choose|i: int|
                0 <= i < index && (#[trigger] entries[i]).path == entry.path.drop_last()
                    && entries[i].node is Directory;
            assert(tree.nodes[root + entries[i].path] == entries[i].node);
        }
    }
    let made = tree.put(target, entry.node);
    assert(tree.create(root, entry) == Some(made));
    assert(made == empty.installed(root, entries, index + 1));
    if index + 1 < LAYOUT_LEN {
        lemma_building(empty, root, index + 1, failure);
    }
}

/// A target that does not exist, in a directory that does, becomes a
/// directory that holds the layout of a new repository.
pub proof fn lemma_fresh_target<E>(tree: Tree, root: Seq<Seq<char>>, failure: E)
    requires
        tree.well_formed(),
        !tree.has(root),
        root.len() > 0,
        tree.is_directory(root.drop_last()),
    ensures
        initialise(tree, root, failure) == (
            with_repository(tree.put(root, Node::Directory), root),
            Some(Ok::<(), InitError<E>>(())),
        ),
        tree.put(root, Node::Directory).well_formed(),
        tree.put(root, Node::Directory).has_no_child(root),
{
    let empty = tree.put(root, Node::Directory);
    assert forall|p: Seq<Seq<char>>| #[trigger] empty.has(p) && p.len() > 0 implies empty.is_directory(
        p.drop_last(),
    ) && p.drop_last() != root by {
        if p != root {
            assert(tree.has(p));
            assert(tree.is_directory(p.drop_last()));
        }
    }
    lemma_building(empty, root, 0, failure);
    reveal_with_fuel(run, 3);
}

/// A target that is an empty directory comes to hold the layout of a
/// new repository.
pub proof fn lemma_empty_target<E>(tree: Tree, root: Seq<Seq<char>>, failure: E)
    requires
        tree.well_formed(),
        tree.is_directory(root),
        tree.has_no_child(root),
    ensures
        initialise(tree, root, failure) == (
            with_repository(tree, root),
            Some(Ok::<(), InitError<E>>(())),
        ),
{
    lemma_building(tree, root, 0, failure);
    reveal_with_fuel(run, 4);
}

/// A target that is a directory with something in it is refused, and the
/// tree stays as it is.
pub proof fn lemma_occupied_target<E>(tree: Tree, root: Seq<Seq<char>>, failure: E)
    requires
        tree.is_directory(root),
        !tree.has_no_child(root),
    ensures
        initialise(tree, root, failure) == (
            tree,
            Some(Err::<(), InitError<E>>(InitError::Precondition(Precondition::DirectoryNotEmpty))),
        ),
{
    reveal_with_fuel(run, 3);
}

/// A target that is no directory is refused, and the tree stays as it
/// is.
pub proof fn lemma_file_target<E>(tree: Tree, root: Seq<Seq<char>>, failure: E)
    requires
        tree.has(root),
        !tree.is_directory(root),
    ensures
        initialise(tree, root, failure) == (
            tree,
            Some(Err::<(), InitError<E>>(InitError::Precondition(Precondition::NotADirectory))),
        ),
{
    reveal_with_fuel(run, 2);
}

/// A target that does not exist and whose parent is no directory cannot
/// be created: the driver's failure is the result, and the tree stays as
/// it is.
pub proof fn lemma_orphan_target<E>(tree: Tree, root: Seq<Seq<char>>, failure: E)
    requires
        !tree.has(root),
        root.len() == 0 || !tree.is_directory(root.drop_last()),
    ensures
        initialise(tree, root, failure) == (tree, Some(Err::<(), InitError<E>>(InitError::Io(failure)))),
{
    reveal_with_fuel(run, 2);
}

/// Whatever stands at the target, the initialisation comes to an end.
pub proof fn lemma_initialise_ends<E>(tree: Tree, root: Seq<Seq<char>>, failure: E)
    requires
        tree.well_formed(),
    ensures
        initialise(tree, root, failure).1 is Some,
{
    if !tree.has(root) {
        if root.len() > 0 && tree.is_directory(root.drop_last()) {
            lemma_fresh_target(tree, root, failure);
        } else {
            lemma_orphan_target(tree, root, failure);
        }
    } else if !tree.is_directory(root) {
        lemma_file_target(tree, root, failure);
    } else if !tree.has_no_child(root) {
        lemma_occupied_target(tree, root, failure);
    } else {
        lemma_empty_target(tree, root, failure);
    }
}

/// Below a target that held nothing, a new repository is the layout and
/// nothing else; what stood elsewhere in the tree stands there as
/// before.
pub proof fn lemma_repository_is_layout(tree: Tree, root: Seq<Seq<char>>)
    requires
        tree.well_formed(),
        tree.is_directory(root),
        tree.has_no_child(root),
    ensures
        forall|i: int|
            0 <= i < LAYOUT_LEN ==> {
                let entry = #[trigger] default_layout()[i];
                &&& with_repository(tree, root).has(root + entry.path)
                &&& with_repository(tree, root).nodes[root + entry.path] == entry.node
            },
        forall|below: Seq<Seq<char>>|
            below.len() > 0 && #[trigger] with_repository(tree, root).has(root + below)
                ==> exists|i: int| 0 <= i < LAYOUT_LEN && below == (#[trigger] default_layout()[i]).path,
        forall|p: Seq<Seq<char>>| #[trigger]
            tree.has(p) ==> with_repository(tree, root).has(p) && with_repository(tree, root).nodes[p]
                == tree.nodes[p],
{
    let entries = default_layout();
    let built = with_repository(tree, root);
    lemma_layout_orderly(default_config_document());
    lemma_installed(tree, root, entries, LAYOUT_LEN as nat);
    assert forall|below: Seq<Seq<char>>|
        below.len() > 0 && #[trigger] built.has(root + below) implies exists|i: int|
        0 <= i < LAYOUT_LEN && below == (#[trigger] entries[i]).path by {
        lemma_nothing_below(tree, root, below);
        let i = choose|i: int| 0 <= i < LAYOUT_LEN && root + below == root + (#[trigger] entries[i]).path;
        lemma_same_root(root, below, entries[i].path);
    }
    assert forall|p: Seq<Seq<char>>| #[trigger] tree.has(p) implies built.has(p) && built.nodes[p]
        == tree.nodes[p] by {
        assert forall|i: int| 0 <= i < LAYOUT_LEN implies p != root + (#[trigger] entries[i]).path by {
            lemma_nothing_below(tree, root, entries[i].path);
        }
    }
}

/// Whether a driver that opens the work tree `root` finds the metadata
/// directory in `tree`.
pub open spec fn metadata_found(tree: Tree, root: Seq<Seq<char>>) -> bool {
    tree.has(root + seq![GIT_DIR@])
}

/// The bytes of the configuration file that a driver finds in `tree`
/// when it opens the work tree `root`, if there is such a file.
pub open spec fn config_found(tree: Tree, root: Seq<Seq<char>>) -> Option<Seq<u8>> {
    let file = root + seq![GIT_DIR@, "config"@];
    if tree.has(file) {
        match tree.nodes[file] {
            Node::File(bytes) => Some(bytes),
            Node::Directory => None,
        }
    } else {
        None
    }
}

/// Opening the work tree `root` of `tree`, which the driver knows as
/// `path`.
pub open spec fn open_in(tree: Tree, root: Seq<Seq<char>>, path: Seq<char>) -> Result<
    RepositoryModel,
    GitError,
> {
    opened(path, metadata_found(tree, root), config_found(tree, root))
}

/// Wherever an initialisation succeeds, opening the target afterwards
/// finds the metadata directory and reads the default configuration
/// document: it gives what [`opened`] makes of that document.  Where
/// the document reads back as what was written, that is a repository
/// with the default configuration.
pub proof fn lemma_open_after_create<E>(
    tree: Tree,
    root: Seq<Seq<char>>,
    path: Seq<char>,
    failure: E,
)
    requires
        tree.well_formed(),
        initialise(tree, root, failure).1 == Some(Ok::<(), InitError<E>>(())),
    ensures
        open_in(initialise(tree, root, failure).0, root, path) == opened(
            path,
            true,
            Some(default_config_document()),
        ),
        parsed_configuration(default_config_document()) == Some(default_configuration())
            ==> open_in(initialise(tree, root, failure).0, root, path) == Ok::<
            RepositoryModel,
            GitError,
        >(
            RepositoryModel {
                work_tree: path,
                metadata_dir: joined(path, GIT_DIR@),
                configuration: default_configuration(),
            },
        ),
{
    let entries = default_layout();
    let empty = if tree.has(root) {
        tree
    } else {
        tree.put(root, Node::Directory)
    };
    if !tree.has(root) {
        if root.len() > 0 && tree.is_directory(root.drop_last()) {
            lemma_fresh_target(tree, root, failure);
        } else {
            lemma_orphan_target(tree, root, failure);
        }
    } else if !tree.is_directory(root) {
        lemma_file_target(tree, root, failure);
    } else if !tree.has_no_child(root) {
        lemma_occupied_target(tree, root, failure);
    } else {
        lemma_empty_target(tree, root, failure);
    }
    assert(initialise(tree, root, failure).0 == with_repository(empty, root));
    lemma_layout_orderly(default_config_document());
    lemma_installed(empty, root, entries, LAYOUT_LEN as nat);
    assert(entries[0].path =~= seq![GIT_DIR@]);
    assert(entries[CONFIG_INDEX as int].path =~= seq![GIT_DIR@, "config"@]);
}

} // verus!
