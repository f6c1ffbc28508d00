//! Recognising an initialised repository.
//!
//! A [`Repository`] exists only for a work tree that holds the metadata
//! directory and, in it, a configuration file that can be read.  The
//! driver looks at the disk and hands over what it found.

use crate::config::{ini_sections, parse_configuration, parsed_configuration};
use crate::layout::{default_layout, CONFIG_INDEX, GIT_DIR};
use crate::path::{join, join_all, joined, joined_all};
use ini::Ini;
use vstd::prelude::*;

verus! {

/// Why a directory is no repository.
#[derive(Debug, Clone, Copy, PartialEq, Eq, Structural)]
pub enum InvalidReason {
    /// The work tree holds no metadata directory.
    NoMetadataDirectory,
    /// The configuration file is missing or cannot be read as one.
    BadConfiguration,
}

impl InvalidReason {
    /// The reason in words.
    pub open spec fn text(self) -> Seq<char> {
        match self {
            InvalidReason::NoMetadataDirectory => "no metadata directory found"@,
            InvalidReason::BadConfiguration => "invalid or missing configuration file"@,
        }
    }

    /// The reason in words.
    pub fn message(&self) -> (message: String)
        ensures
            message@ == self.text(),
    {
        match self {
            InvalidReason::NoMetadataDirectory => "no metadata directory found".to_owned(),
            InvalidReason::BadConfiguration => "invalid or missing configuration file".to_owned(),
        }
    }
}

/// The failure of opening a repository.
#[derive(Debug, Clone, Copy, PartialEq, Eq, Structural)]
pub enum GitError {
    /// The directory is no initialised repository.
    InvalidGitRepository(InvalidReason),
}

/// An initialised repository.
#[derive(Debug)]
pub struct Repository {
    work_tree: String,
    git_dir: String,
    conf: Ini,
}

/// The model of [`Repository`].
pub struct RepositoryModel {
    /// The directory that the user treats as the project.
    pub work_tree: Seq<char>,
    /// The directory that holds the repository's own state.
    pub metadata_dir: Seq<char>,
    /// The sections of the configuration, in the order of the file.
    pub configuration: Seq<(Option<Seq<char>>, Seq<(Seq<char>, Seq<char>)>)>,
}

impl View for Repository {
    type V = RepositoryModel;

    closed spec fn view(&self) -> RepositoryModel {
        RepositoryModel {
            work_tree: self.work_tree@,
            metadata_dir: self.git_dir@,
            configuration: ini_sections(self.conf),
        }
    }
}

/// The bytes that the driver found, as a model.
pub open spec fn found(config: Option<Vec<u8>>) -> Option<Seq<u8>> {
    match config {
        Some(bytes) => Some(bytes@),
        None => None,
    }
}

/// What opening the work tree `path` gives, by what the driver found:
/// whether the metadata directory exists, and the bytes of the
/// configuration file where it could be read.  The metadata directory is
/// looked at first.
pub open spec fn opened(path: Seq<char>, metadata_present: bool, config: Option<Seq<u8>>) -> Result<
    RepositoryModel,
    GitError,
> {
    if !metadata_present {
        Err(GitError::InvalidGitRepository(InvalidReason::NoMetadataDirectory))
    } else if config is Some && parsed_configuration(config->0) is Some {
        Ok(
            RepositoryModel {
                work_tree: path,
                metadata_dir: joined(path, GIT_DIR@),
                configuration: parsed_configuration(config->0)->0,
            },
        )
    } else {
        Err(GitError::InvalidGitRepository(InvalidReason::BadConfiguration))
    }
}

/// The path of the metadata directory of the work tree `path`: the
/// reserved name below it, which is where the layout puts its first
/// entry.
pub fn metadata_dir(path: &str) -> (dir: String)
    ensures
        dir@ == joined(path@, GIT_DIR@),
        dir@ == joined_all(path@, default_layout()[0].path),
{
    proof {
        let below = default_layout()[0].path;
        assert(below.drop_last() =~= Seq::<Seq<char>>::empty());
        assert(joined_all(path@, below.drop_last()) == path@);
    }
    join(path, GIT_DIR)
}

/// The path of the configuration file of the work tree `path`: where
/// the layout puts it.
pub fn config_file(path: &str) -> (file: String)
    ensures
        file@ == joined_all(path@, default_layout()[CONFIG_INDEX as int].path),
{
    let below: Vec<&'static str> = vec![GIT_DIR, "config"];
    assert(below.deep_view() =~= default_layout()[CONFIG_INDEX as int].path);
    join_all(path, &below)
}

impl Repository {
    #[verifier::type_invariant]
    spec fn metadata_dir_in_work_tree(self) -> bool {
        self.git_dir@ == joined(self.work_tree@, GIT_DIR@)
    }

    /// Opens the repository in the work tree `path`.  `metadata_present`
    /// says whether [`metadata_dir`] exists; `config` holds the bytes of
    /// [`config_file`], or nothing where the file could not be read.
    pub fn new(path: String, metadata_present: bool, config: Option<Vec<u8>>) -> (opening: Result<
        Repository,
        GitError,
    >)
        ensures
            match opening {
                Ok(repository) => opened(path@, metadata_present, found(config)) == Ok::<
                    RepositoryModel,
                    GitError,
                >(repository@),
                Err(error) => opened(path@, metadata_present, found(config)) == Err::<
                    RepositoryModel,
                    GitError,
                >(error),
            },
    {
        if !metadata_present {
            return Err(GitError::InvalidGitRepository(InvalidReason::NoMetadataDirectory));
        }
        match config {
            Some(bytes) => Repository::with_configuration(path, parse_configuration(bytes.as_slice())),
            None => Err(GitError::InvalidGitRepository(InvalidReason::BadConfiguration)),
        }
    }

    /// The repository in the work tree `path` whose configuration file
    /// was loaded with the result `loaded`: there is none where loading
    /// failed.
    pub fn with_configuration(path: String, loaded: Result<Ini, ini::Error>) -> (opening: Result<
        Repository,
        GitError,
    >)
        ensures
            match loaded {
                Ok(conf) => opening matches Ok(repository) && repository@ == (RepositoryModel {
                    work_tree: path@,
                    metadata_dir: joined(path@, GIT_DIR@),
                    configuration: ini_sections(conf),
                }),
                Err(_) => opening == Err::<Repository, GitError>(
                    GitError::InvalidGitRepository(InvalidReason::BadConfiguration),
                ),
            },
    {
        match loaded {
            Ok(conf) => {
                let git_dir = metadata_dir(path.as_str());
                Ok(Repository { work_tree: path, git_dir, conf })
            },
            Err(_) => Err(GitError::InvalidGitRepository(InvalidReason::BadConfiguration)),
        }
    }

    /// The directory that the user treats as the project.
    pub fn work_tree(&self) -> (path: &str)
        ensures
            path@ == self@.work_tree,
    {
        self.work_tree.as_str()
    }

    /// The directory that holds the repository's own state: always the
    /// reserved name below the work tree.
    pub fn git_dir(&self) -> (path: &str)
        ensures
            path@ == self@.metadata_dir,
            path@ == joined(self@.work_tree, GIT_DIR@),
    {
        proof {
            use_type_invariant(self);
        }
        self.git_dir.as_str()
    }

    /// The configuration that was read from the repository.
    pub fn conf(&self) -> (conf: &Ini)
        ensures
            ini_sections(*conf) == self@.configuration,
    {
        &self.conf
    }
}

} // verus!
