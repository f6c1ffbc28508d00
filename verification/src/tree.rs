//! A model of a file tree and of the operations that build a repository
//! in it.  Nothing here runs: the model states what the requests of
//! [`crate::init`] do where every operation behaves as a file system
//! does, and what that module does to a tree is proved against it.

use crate::layout::{Entry, Node};
use vstd::prelude::*;

verus! {

/// A file tree: what stands at each path, a path being its components
/// from the top of the tree.
pub struct Tree {
    pub nodes: Map<Seq<Seq<char>>, Node>,
}

impl Tree {
    /// Something stands at `path`.
    pub open spec fn has(self, path: Seq<Seq<char>>) -> bool {
        self.nodes.contains_key(path)
    }

    /// A directory stands at `path`.
    pub open spec fn is_directory(self, path: Seq<Seq<char>>) -> bool {
        self.has(path) && self.nodes[path] is Directory
    }

    /// Nothing stands directly below `path`.
    pub open spec fn has_no_child(self, path: Seq<Seq<char>>) -> bool {
        forall|p: Seq<Seq<char>>| #[trigger]
            self.has(p) && p.len() > 0 ==> p.drop_last() != path
    }

    /// Whatever stands in the tree stands in a directory of the tree.
    pub open spec fn well_formed(self) -> bool {
        forall|p: Seq<Seq<char>>| #[trigger]
            self.has(p) && p.len() > 0 ==> self.is_directory(p.drop_last())
    }

    /// The tree with `node` at `path`.
    pub open spec fn put(self, path: Seq<Seq<char>>, node: Node) -> Tree {
        Tree { nodes: self.nodes.insert(path, node) }
    }

    /// Creating a directory at `path`: it fails where something stands
    /// there already or where the parent is no directory.
    pub open spec fn make_directory(self, path: Seq<Seq<char>>) -> Option<Tree> {
        if path.len() > 0 && !self.has(path) && self.is_directory(path.drop_last()) {
            Some(self.put(path, Node::Directory))
        } else {
            None
        }
    }

    /// Creating a file at `path` with `bytes`, or replacing the bytes of
    /// the file that stands there: it fails where a directory stands
    /// there or where the parent is no directory.
    pub open spec fn write_file(self, path: Seq<Seq<char>>, bytes: Seq<u8>) -> Option<Tree> {
        if path.len() > 0 && !self.is_directory(path) && self.is_directory(path.drop_last()) {
            Some(self.put(path, Node::File(bytes)))
        } else {
            None
        }
    }

    /// Creating `entry` below `root`.
    pub open spec fn create(self, root: Seq<Seq<char>>, entry: Entry) -> Option<Tree> {
        match entry.node {
            Node::Directory => self.make_directory(root + entry.path),
            Node::File(bytes) => self.write_file(root + entry.path, bytes),
        }
    }

    /// The tree with the first `count` of `entries` standing below
    /// `root`.
    pub open spec fn installed(self, root: Seq<Seq<char>>, entries: Seq<Entry>, count: nat) -> Tree
        decreases count,
    {
        if count == 0 {
            self
        } else {
            let entry = entries[count - 1];
            self.installed(root, entries, (count - 1) as nat).put(root + entry.path, entry.node)
        }
    }
}

/// The entries can be created one after the other: each has a path of
/// its own, and stands directly below the root or in a directory that
/// an earlier entry creates.
pub open spec fn orderly(entries: Seq<Entry>) -> bool {
    &&& forall|i: int| 0 <= i < entries.len() ==> (#[trigger] entries[i]).path.len() > 0
    &&& forall|i: int, j: int|
        0 <= i < j < entries.len() ==> (#[trigger] entries[i]).path != (#[trigger] entries[j]).path
    &&& forall|j: int|
        0 <= j < entries.len() && (#[trigger] entries[j]).path.len() > 1 ==> exists|i: int|
            0 <= i < j && (#[trigger] entries[i]).path == entries[j].path.drop_last()
                && entries[i].node is Directory
}

/// Two paths below the same root are the same path only where they are
/// the same below it.
pub proof fn lemma_same_root(root: Seq<Seq<char>>, a: Seq<Seq<char>>, b: Seq<Seq<char>>)
    requires
        root + a == root + b,
    ensures
        a == b,
{
    assert((root + a).skip(root.len() as int) =~= a);
    assert((root + b).skip(root.len() as int) =~= b);
}

/// The parent of a path below the root is the parent of what is below
/// the root, or the root itself.
pub proof fn lemma_parent_below(root: Seq<Seq<char>>, below: Seq<Seq<char>>)
    requires
        below.len() > 0,
    ensures
        (root + below).drop_last() == root + below.drop_last(),
        below.len() == 1 ==> (root + below).drop_last() == root,
{
    assert((root + below).drop_last() =~= root + below.drop_last());
    if below.len() == 1 {
        assert(root + below.drop_last() =~= root);
    }
}

/// In a well-formed tree nothing stands anywhere below a place that has
/// no child.
pub proof fn lemma_nothing_below(tree: Tree, root: Seq<Seq<char>>, below: Seq<Seq<char>>)
    requires
        tree.well_formed(),
        tree.has_no_child(root),
        below.len() > 0,
    ensures
        !tree.has(root + below),
    decreases below.len(),
{
    let path = root + below;
    lemma_parent_below(root, below);
    if tree.has(path) {
        if below.len() == 1 {
            assert(path.drop_last() == root);
        } else {
            lemma_nothing_below(tree, root, below.drop_last());
            assert(tree.is_directory(path.drop_last()));
        }
    }
}

/// What an installed tree holds: the entries, each with its node, and
/// beside them what the tree held before, unchanged.
pub proof fn lemma_installed(tree: Tree, root: Seq<Seq<char>>, entries: Seq<Entry>, count: nat)
    requires
        orderly(entries),
        count <= entries.len(),
    ensures
        forall|p: Seq<Seq<char>>| #[trigger]
            tree.installed(root, entries, count).has(p) <==> tree.has(p) || exists|i: int|
                0 <= i < count && p == root + (#[trigger] entries[i]).path,
        forall|i: int|
            0 <= i < count ==> tree.installed(root, entries, count).nodes[root + (
            #[trigger] entries[i]).path] == entries[i].node,
        forall|p: Seq<Seq<char>>|
            (forall|i: int| 0 <= i < count ==> p != root + (#[trigger] entries[i]).path) ==> (
            #[trigger] tree.installed(root, entries, count).nodes[p]) == tree.nodes[p],
    decreases count,
{
    if count > 0 {
        let before = tree.installed(root, entries, (count - 1) as nat);
        let last = entries[count - 1];
        let after = tree.installed(root, entries, count);
        lemma_installed(tree, root, entries, (count - 1) as nat);
        assert(after == before.put(root + last.path, last.node));
        assert forall|p: Seq<Seq<char>>| #[trigger]
            after.has(p) <==> tree.has(p) || exists|i: int|
                0 <= i < count && p == root + (#[trigger] entries[i]).path by {
            if after.has(p) {
                if p == root + last.path {
                    assert(p == root + entries[count - 1].path);
                } else {
                    assert(before.has(p));
                }
            }
            if exists|i: int| 0 <= i < count && p == root + (#[trigger] entries[i]).path {
                let i = choose|i: int| 0 <= i < count && p == root + (#[trigger] entries[i]).path;
                if i < count - 1 {
                    assert(before.has(p));
                }
            }
        }
        assert forall|i: int| 0 <= i < count implies after.nodes[root + (
        #[trigger] entries[i]).path] == entries[i].node by {
            if i < count - 1 {
                if root + entries[i].path == root + last.path {
                    lemma_same_root(root, entries[i].path, last.path);
                }
            }
        }
        assert forall|p: Seq<Seq<char>>|
            (forall|i: int| 0 <= i < count ==> p != root + (#[trigger] entries[i]).path) implies (
        #[trigger] after.nodes[p]) == tree.nodes[p] by {
            assert(p != root + entries[count - 1].path);
            assert(after.nodes[p] == before.nodes[p]);
        }
    }
}

} // verus!
