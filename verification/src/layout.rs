//! The layout of a freshly initialised repository: which directories and
//! files it consists of, in an order in which they can be created, and
//! what each file holds.

use crate::config::{default_config_bytes, default_config_document};
use crate::tree::orderly;
use vstd::prelude::*;
use vstd::string::{StrSliceExecFns, StringSliceAdditionalSpecFns};

verus! {

/// The reserved name of the metadata directory.
pub const GIT_DIR: &'static str = ".git";

/// The file that names the repository.
pub const DESCRIPTION_TEXT: &'static str =
    "Unnamed repository; edit this file 'description' to name the repository.\n";

/// The file that points to the current branch.
pub const HEAD_TEXT: &'static str = "ref: refs/heads/master\n";

/// What stands at a path: a directory, or a file with its bytes.
#[derive(Debug, PartialEq, Eq)]
pub enum Content {
    Directory,
    File(Vec<u8>),
}

/// The model of [`Content`].
pub enum Node {
    Directory,
    File(Seq<u8>),
}

impl View for Content {
    type V = Node;

    open spec fn view(&self) -> Node {
        match self {
            Content::Directory => Node::Directory,
            Content::File(bytes) => Node::File(bytes@),
        }
    }
}

/// One entry of the layout: a path below the work tree, as its
/// components, and what is created there.
#[derive(Debug, PartialEq, Eq)]
pub struct LayoutEntry {
    pub path: Vec<&'static str>,
    pub content: Content,
}

/// The model of [`LayoutEntry`].
pub struct Entry {
    pub path: Seq<Seq<char>>,
    pub node: Node,
}

impl View for LayoutEntry {
    type V = Entry;

    open spec fn view(&self) -> Entry {
        Entry { path: self.path.deep_view(), node: self.content@ }
    }
}

/// The number of entries of the layout.
pub const LAYOUT_LEN: usize = 9;

/// The position of the configuration file in the layout.
pub const CONFIG_INDEX: usize = 8;

/// The layout of a repository whose configuration file holds `config`.
pub open spec fn layout(config: Seq<u8>) -> Seq<Entry> {
    seq![
        Entry { path: seq![GIT_DIR@], node: Node::Directory },
        Entry { path: seq![GIT_DIR@, "objects"@], node: Node::Directory },
        Entry { path: seq![GIT_DIR@, "branches"@], node: Node::Directory },
        Entry { path: seq![GIT_DIR@, "refs"@], node: Node::Directory },
        Entry { path: seq![GIT_DIR@, "refs"@, "heads"@], node: Node::File(Seq::empty()) },
        Entry { path: seq![GIT_DIR@, "refs"@, "tags"@], node: Node::File(Seq::empty()) },
        Entry { path: seq![GIT_DIR@, "description"@], node: Node::File(DESCRIPTION_TEXT.spec_bytes()) },
        Entry { path: seq![GIT_DIR@, "HEAD"@], node: Node::File(HEAD_TEXT.spec_bytes()) },
        Entry { path: seq![GIT_DIR@, "config"@], node: Node::File(config) },
    ]
}

/// The layout of a new repository, with the default configuration.
pub open spec fn default_layout() -> Seq<Entry> {
    layout(default_config_document())
}

/// The layout can be created in its order: no path occurs twice, and
/// every entry stands in the work tree itself or in a directory that
/// the layout creates before it.
pub proof fn lemma_layout_orderly(config: Seq<u8>)
    ensures
        layout(config).len() == LAYOUT_LEN,
        orderly(layout(config)),
{
    let entries = layout(config);
    reveal_strlit(".git");
    reveal_strlit("objects");
    reveal_strlit("branches");
    reveal_strlit("refs");
    reveal_strlit("heads");
    reveal_strlit("tags");
    reveal_strlit("description");
    reveal_strlit("HEAD");
    reveal_strlit("config");
    assert("objects"@.len() == 7 && "branches"@.len() == 8 && "description"@.len() == 11
        && "config"@.len() == 6 && "heads"@.len() == 5);
    assert("refs"@[0] == 'r' && "HEAD"@[0] == 'H' && "tags"@[0] == 't');
    assert forall|i: int, j: int| 0 <= i < j < entries.len() implies (#[trigger] entries[i]).path != (
    #[trigger] entries[j]).path by {
        if entries[i].path.len() == entries[j].path.len() {
            let last = entries[i].path.len() - 1;
            assert(entries[i].path[last] != entries[j].path[last]);
        }
    }
    assert forall|j: int|
        0 <= j < entries.len() && (#[trigger] entries[j]).path.len() > 1 implies exists|i: int|
        0 <= i < j && (#[trigger] entries[i]).path == entries[j].path.drop_last()
            && entries[i].node is Directory by {
        let parent = if entries[j].path.len() == 2 { 0int } else { 3int };
        assert(entries[parent].path =~= entries[j].path.drop_last());
    }
}

/// Only the configuration file depends on the configuration.
pub proof fn lemma_only_config_varies(index: int, one: Seq<u8>, other: Seq<u8>)
    requires
        0 <= index < LAYOUT_LEN,
        index != CONFIG_INDEX,
    ensures
        layout(one)[index] == layout(other)[index],
{
}

/// The whole layout of a repository whose configuration file holds
/// `config`, in the order of creation.
pub fn layout_entries(config: &Vec<u8>) -> (entries: Vec<LayoutEntry>)
    ensures
        entries@.len() == LAYOUT_LEN,
        forall|i: int| 0 <= i < LAYOUT_LEN ==> (#[trigger] entries@[i])@ == layout(config@)[i],
{
    let mut entries: Vec<LayoutEntry> = Vec::new();
    let mut index: usize = 0;
    while index < LAYOUT_LEN
        invariant
            index <= LAYOUT_LEN,
            entries@.len() == index,
            forall|i: int| 0 <= i < index ==> (#[trigger] entries@[i])@ == layout(config@)[i],
        decreases LAYOUT_LEN - index,
    {
        let bytes = if index == CONFIG_INDEX {
            config.clone()
        } else {
            proof {
                lemma_only_config_varies(index as int, Seq::empty(), config@);
            }
            Vec::new()
        };
        entries.push(entry_at(index, bytes));
        index = index + 1;
    }
    entries
}

/// The whole layout of a new repository, in the order of creation.
pub fn repository_layout() -> (entries: Vec<LayoutEntry>)
    ensures
        entries@.len() == LAYOUT_LEN,
        forall|i: int| 0 <= i < LAYOUT_LEN ==> (#[trigger] entries@[i])@ == default_layout()[i],
{
    let config = default_config_bytes();
    layout_entries(&config)
}

/// The entry at `index` of the layout of a new repository.  The
/// configuration is serialised only for the entry that holds it.
pub(crate) fn default_entry_at(index: usize) -> (entry: LayoutEntry)
    requires
        index < LAYOUT_LEN,
    ensures
        entry@ == default_layout()[index as int],
{
    if index == CONFIG_INDEX {
        entry_at(index, default_config_bytes())
    } else {
        proof {
            lemma_only_config_varies(index as int, Seq::empty(), default_config_document());
        }
        entry_at(index, Vec::new())
    }
}

fn entry_at(index: usize, config: Vec<u8>) -> (entry: LayoutEntry)
    requires
        index < LAYOUT_LEN,
    ensures
        entry@ == layout(config@)[index as int],
{
    let entry = match index {
        0 => LayoutEntry { path: vec![GIT_DIR], content: Content::Directory },
        1 => LayoutEntry { path: vec![GIT_DIR, "objects"], content: Content::Directory },
        2 => LayoutEntry { path: vec![GIT_DIR, "branches"], content: Content::Directory },
        3 => LayoutEntry { path: vec![GIT_DIR, "refs"], content: Content::Directory },
        4 => LayoutEntry { path: vec![GIT_DIR, "refs", "heads"], content: Content::File(Vec::new()) },
        5 => LayoutEntry { path: vec![GIT_DIR, "refs", "tags"], content: Content::File(Vec::new()) },
        6 => LayoutEntry {
            path: vec![GIT_DIR, "description"],
            content: Content::File(DESCRIPTION_TEXT.as_bytes_vec()),
        },
        7 => LayoutEntry {
            path: vec![GIT_DIR, "HEAD"],
            content: Content::File(HEAD_TEXT.as_bytes_vec()),
        },
        _ => LayoutEntry { path: vec![GIT_DIR, "config"], content: Content::File(config) },
    };
    assert(entry@.path =~= layout(config@)[index as int].path);
    entry
}

} // verus!
