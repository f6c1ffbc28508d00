use rustgit::path::{join, join_all, SEPARATOR};

#[test]
fn separator_is_a_slash() {
    assert_eq!(SEPARATOR, '/');
}

#[test]
fn join_puts_a_separator_between() {
    assert_eq!(join("work", ".git"), "work/.git");
    assert_eq!(join("/home/user/project", ".git"), "/home/user/project/.git");
    assert_eq!(join(".", "config"), "./config");
}

#[test]
fn join_adds_no_second_separator() {
    assert_eq!(join("work/", ".git"), "work/.git");
    assert_eq!(join("/", ".git"), "/.git");
}

#[test]
fn join_to_nothing_is_the_name() {
    assert_eq!(join("", ".git"), ".git");
    assert_eq!(join("", ""), "");
}

#[test]
fn join_counts_characters_not_bytes() {
    assert_eq!(join("répertoire", ".git"), "répertoire/.git");
    assert_eq!(join("日本/", "x"), "日本/x");
}

#[test]
fn join_all_walks_the_components() {
    assert_eq!(join_all("work", &vec![".git", "refs", "heads"]), "work/.git/refs/heads");
    assert_eq!(join_all("work/", &vec![".git"]), "work/.git");
    assert_eq!(join_all("", &vec![".git", "HEAD"]), ".git/HEAD");
}

#[test]
fn join_all_of_nothing_is_the_base() {
    assert_eq!(join_all("work", &Vec::new()), "work");
    assert_eq!(join_all("", &Vec::new()), "");
}
