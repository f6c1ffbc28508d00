use rustgit::layout::{
    layout_entries, repository_layout, Content, LayoutEntry, CONFIG_INDEX, DESCRIPTION_TEXT, GIT_DIR,
    HEAD_TEXT, LAYOUT_LEN,
};

fn directory(path: &[&'static str]) -> LayoutEntry {
    LayoutEntry { path: path.to_vec(), content: Content::Directory }
}

fn file(path: &[&'static str], bytes: &[u8]) -> LayoutEntry {
    LayoutEntry { path: path.to_vec(), content: Content::File(bytes.to_vec()) }
}

fn expected_layout(config: &[u8]) -> Vec<LayoutEntry> {
    vec![
        directory(&[".git"]),
        directory(&[".git", "objects"]),
        directory(&[".git", "branches"]),
        directory(&[".git", "refs"]),
        file(&[".git", "refs", "heads"], b""),
        file(&[".git", "refs", "tags"], b""),
        file(
            &[".git", "description"],
            b"Unnamed repository; edit this file 'description' to name the repository.\n",
        ),
        file(&[".git", "HEAD"], b"ref: refs/heads/master\n"),
        file(&[".git", "config"], config),
    ]
}

#[test]
fn reserved_names_and_texts() {
    assert_eq!(GIT_DIR, ".git");
    assert_eq!(
        DESCRIPTION_TEXT,
        "Unnamed repository; edit this file 'description' to name the repository.\n"
    );
    assert_eq!(HEAD_TEXT, "ref: refs/heads/master\n");
    assert_eq!(LAYOUT_LEN, 9);
    assert_eq!(CONFIG_INDEX, 8);
}

#[test]
fn repository_layout_is_the_table() {
    assert_eq!(
        repository_layout(),
        expected_layout(b"[core]\nrepositoryformatversion=0\nfilemode=false\nbare=false\n")
    );
}

#[test]
fn layout_carries_the_given_configuration() {
    let config = b"[core]\nbare=true\n".to_vec();
    assert_eq!(layout_entries(&config), expected_layout(&config));
    assert_eq!(layout_entries(&Vec::new()), expected_layout(b""));
}

#[test]
fn only_the_configuration_file_varies() {
    let one = layout_entries(&b"one".to_vec());
    let other = layout_entries(&b"other".to_vec());
    assert_eq!(one.len(), LAYOUT_LEN);
    for index in 0..LAYOUT_LEN {
        assert_eq!(one[index] == other[index], index != CONFIG_INDEX);
    }
    assert_eq!(one[CONFIG_INDEX], file(&[".git", "config"], b"one"));
    assert_eq!(other[CONFIG_INDEX], file(&[".git", "config"], b"other"));
}

#[test]
fn heads_and_tags_are_empty_files() {
    let all = repository_layout();
    assert_eq!(all[4], file(&[".git", "refs", "heads"], b""));
    assert_eq!(all[5], file(&[".git", "refs", "tags"], b""));
}

#[test]
fn every_parent_is_created_before_its_children() {
    let all = repository_layout();
    for (index, entry) in all.iter().enumerate() {
        assert!(!entry.path.is_empty());
        let parent = &entry.path[..entry.path.len() - 1];
        if !parent.is_empty() {
            let found = all[..index]
                .iter()
                .any(|earlier| earlier.path == parent && earlier.content == Content::Directory);
            assert!(found, "no parent before {:?}", entry.path);
        }
        assert!(all[..index].iter().all(|earlier| earlier.path != entry.path));
    }
}
