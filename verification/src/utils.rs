//! Helpers around commit times and the layout of a checkout.

use crate::calendar::{fixed_offset_date_time, DateTimeParts};
use crate::commit_time::CommitTime;
use crate::model::{path_file_name, Repo, RepoCommit};
use crate::text::{push_char, replaced, split_parts, text_replaced, text_split, texts};
use vstd::prelude::*;
use vstd::string::{StrSliceExecFns, StringExecFns};

verus! {

/// The calendar date and clock time of a commit where it was made. `None`
/// where the offset is a day or more, or the calendar does not reach the
/// moment.
pub fn as_datetime(git_time: &CommitTime) -> (parts: Option<DateTimeParts>)
    ensures
        parts == git_time.local_parts(),
        parts matches Some(p) ==> 1 <= p.month <= 12 && 1 <= p.day <= 31 && p.hour <= 23
            && p.minute <= 59,
{
    if -1440 < git_time.offset_minutes && git_time.offset_minutes < 1440 {
        fixed_offset_date_time(git_time.seconds, git_time.offset_minutes * 60)
    } else {
        None
    }
}

/// The calendar date and clock time of a commit in UTC. `None` where
/// `as_datetime` gives none.
pub fn as_datetime_utc(git_time: &CommitTime) -> (parts: Option<DateTimeParts>)
    ensures
        parts == git_time.utc_parts(),
        parts matches Some(p) ==> 1 <= p.month <= 12 && 1 <= p.day <= 31 && p.hour <= 23
            && p.minute <= 59,
{
    match as_datetime(git_time) {
        Some(_) => fixed_offset_date_time(git_time.seconds, 0),
        None => None,
    }
}

/// What looking into one folder showed.
#[derive(Debug, PartialEq, Eq)]
pub enum FolderProbe {
    /// The folder holds a folder named `.repo`.
    HoldsRepoFolder,
    /// The folder holds no folder named `.repo`.
    Plain,
    /// The folder could not be read; the cause is added.
    Unreadable(String),
}

/// A folder and what looking into it showed.
#[derive(Debug, PartialEq, Eq)]
pub struct ProbedFolder {
    pub path: String,
    pub probe: FolderProbe,
}

/// Why the project list of a checkout was not found.
#[derive(Debug, PartialEq, Eq)]
pub enum LocateError {
    /// A folder on the way up could not be read; the cause is added.
    Unreadable(String),
    /// Neither the working directory nor a folder above it holds `.repo`.
    NoRepoFolder,
    /// The folder `.repo` holds no file `project.list`.
    NoProjectList,
}

impl LocateError {
    /// The error in words.
    pub fn message(&self) -> (text: String)
        ensures
            text@ == match *self {
                LocateError::Unreadable(cause) => cause@,
                LocateError::NoRepoFolder => "no .repo folder found"@,
                LocateError::NoProjectList => "no project.list in .repo found"@,
            },
    {
        match self {
            LocateError::Unreadable(cause) => cause.clone(),
            LocateError::NoRepoFolder => "no .repo folder found".to_owned(),
            LocateError::NoProjectList => "no project.list in .repo found".to_owned(),
        }
    }
}

/// The place of the first folder that is not plain, or the number of folders
/// where all are plain.
pub open spec fn first_decisive(folders: Seq<ProbedFolder>) -> int
    decreases folders.len(),
{
    if folders.len() == 0 {
        0
    } else if !(folders[0].probe is Plain) {
        0
    } else {
        1 + first_decisive(folders.drop_first())
    }
}

/// The first folder that is not plain comes after plain folders only.
pub proof fn lemma_first_decisive(folders: Seq<ProbedFolder>, n: int)
    requires
        0 <= n <= folders.len(),
        forall|j: int| 0 <= j < n ==> (#[trigger] folders[j]).probe is Plain,
        n < folders.len() ==> !(folders[n].probe is Plain),
    ensures
        first_decisive(folders) == n,
    decreases n,
{
    if n > 0 {
        let rest = folders.drop_first();
        lemma_first_decisive(rest, n - 1);
    }
}

/// The folder that holds `.repo`, given the working directory and the folders
/// above it, from the working directory upwards, each with what looking into
/// it showed. The first folder that holds `.repo` is the result. A folder
/// that could not be read, before any that holds `.repo`, is an error.
pub fn find_repo_base_folder(folders: &Vec<ProbedFolder>) -> (base: Result<String, LocateError>)
    ensures
        first_decisive(folders@) == folders@.len() ==> base == Err::<String, LocateError>(
            LocateError::NoRepoFolder,
        ),
        first_decisive(folders@) < folders@.len() ==> match folders@[first_decisive(
            folders@,
        )].probe {
            FolderProbe::HoldsRepoFolder => base == Ok::<String, LocateError>(
                folders@[first_decisive(folders@)].path,
            ),
            FolderProbe::Unreadable(cause) => base == Err::<String, LocateError>(
                LocateError::Unreadable(cause),
            ),
            FolderProbe::Plain => false,
        },
{
    let mut at: usize = 0;
    while at < folders.len()
        invariant
            0 <= at <= folders@.len(),
            forall|j: int| 0 <= j < at ==> (#[trigger] folders@[j]).probe is Plain,
        decreases folders@.len() - at,
    {
        match &folders[at].probe {
            FolderProbe::HoldsRepoFolder => {
                proof {
                    lemma_first_decisive(folders@, at as int);
                }
                return Ok(folders[at].path.clone());
            },
            FolderProbe::Unreadable(cause) => {
                proof {
                    lemma_first_decisive(folders@, at as int);
                }
                return Err(LocateError::Unreadable(cause.clone()));
            },
            FolderProbe::Plain => {},
        }
        at = at + 1;
    }
    proof {
        lemma_first_decisive(folders@, at as int);
    }
    Err(LocateError::NoRepoFolder)
}

/// A path with one more name: the two are set apart by `/`, unless the path
/// is empty or ends in `/` already.
pub open spec fn joined(base: Seq<char>, name: Seq<char>) -> Seq<char> {
    if base.len() == 0 || base.last() == '/' {
        base + name
    } else {
        base + seq!['/'] + name
    }
}

/// The path of `name` in the folder `base`.
pub fn join_path(base: &str, name: &str) -> (path: String)
    ensures
        path@ == joined(base@, name@),
{
    let mut path = base.to_owned();
    let len = base.unicode_len();
    if len > 0 && base.get_char(len - 1) != '/' {
        push_char(&mut path, '/');
    }
    path.append(name);
    path
}

/// The folder `.repo` of the folder that holds it.
pub fn find_repo_folder(base_folder: &str) -> (folder: String)
    ensures
        folder@ == joined(base_folder@, ".repo"@),
{
    join_path(base_folder, ".repo")
}

/// The path at which the folder `.repo` keeps its project list.
pub fn project_file_in(repo_folder: &str) -> (file: String)
    ensures
        file@ == joined(repo_folder@, "project.list"@),
{
    join_path(repo_folder, "project.list")
}

/// The project list of the folder `.repo`, given whether a file stands at
/// the path that `project_file_in` names.
pub fn find_project_file(repo_folder: &str, is_file: bool) -> (file: Result<String, LocateError>)
    ensures
        is_file ==> (file matches Ok(path) && path@ == joined(repo_folder@, "project.list"@)),
        !is_file ==> file == Err::<String, LocateError>(LocateError::NoProjectList),
{
    if is_file {
        Ok(project_file_in(repo_folder))
    } else {
        Err(LocateError::NoProjectList)
    }
}

/// The paths by which the repositories of a checkout are shown: the lines of
/// its project list, and behind them `.repo/manifests` where the manifest is
/// asked for.
pub open spec fn project_paths(lines: Seq<Seq<char>>, include_manifest: bool) -> Seq<Seq<char>> {
    if include_manifest {
        lines.push(".repo/manifests"@)
    } else {
        lines
    }
}

/// The repository is the one that is shown by the path `rel_path` in the
/// checkout in `base_folder`: it lies at that path in the folder, and its
/// short name is the final component of where it lies.
pub open spec fn is_repo_in(repo: Repo, base_folder: Seq<char>, rel_path: Seq<char>) -> bool {
    &&& repo.abs_path@ == joined(base_folder, rel_path)
    &&& repo.rel_path@ == rel_path
    &&& Some(repo.description@) == path_file_name(joined(base_folder, rel_path))
}

/// The repository that is shown by the path `rel_path` in the checkout in
/// `base_folder`; `None` where the place at which it lies has no final
/// component.
pub fn repo_in(base_folder: &str, rel_path: String) -> (repo: Option<Repo>)
    ensures
        repo is Some <==> path_file_name(joined(base_folder@, rel_path@)) is Some,
        repo matches Some(r) ==> is_repo_in(r, base_folder@, rel_path@),
{
    let abs_path = join_path(base_folder, rel_path.as_str());
    Repo::from(abs_path, rel_path)
}

/// The repositories of the checkout in `base_folder`, given the lines of its
/// project list: one repository for each line, in the order of the lines,
/// and the repository of the manifest behind them where it is asked for.
/// `None` where one of them lies at a place without a final component.
pub fn repos_from(base_folder: &str, project_lines: &Vec<String>, include_manifest: bool) -> (repos:
    Option<Vec<Repo>>)
    ensures
        repos is Some <==> forall|i: int|
            0 <= i < project_paths(texts(project_lines@), include_manifest).len()
                ==> path_file_name(
                joined(
                    base_folder@,
                    #[trigger] project_paths(texts(project_lines@), include_manifest)[i],
                ),
            ) is Some,
        repos matches Some(r) ==> r@.len() == project_paths(
            texts(project_lines@),
            include_manifest,
        ).len() && forall|i: int|
            0 <= i < r@.len() ==> is_repo_in(
                #[trigger] r@[i],
                base_folder@,
                project_paths(texts(project_lines@), include_manifest)[i],
            ),
{
    let ghost paths = project_paths(texts(project_lines@), include_manifest);
    let mut repos: Vec<Repo> = Vec::new();
    let mut k: usize = 0;
    while k < project_lines.len()
        invariant
            0 <= k <= project_lines@.len(),
            paths == project_paths(texts(project_lines@), include_manifest),
            repos@.len() == k,
            forall|i: int|
                0 <= i < k ==> path_file_name(joined(base_folder@, #[trigger] paths[i])) is Some,
            forall|i: int| 0 <= i < k ==> is_repo_in(#[trigger] repos@[i], base_folder@, paths[i]),
        decreases project_lines@.len() - k,
    {
        assert(paths[k as int] == project_lines@[k as int]@);
        match repo_in(base_folder, project_lines[k].clone()) {
            Some(repo) => {
                repos.push(repo);
            },
            None => {
                return None;
            },
        }
        k = k + 1;
    }
    if include_manifest {
        assert(paths[k as int] == ".repo/manifests"@);
        match repo_in(base_folder, ".repo/manifests".to_owned()) {
            Some(repo) => {
                repos.push(repo);
            },
            None => {
                return None;
            },
        }
    }
    Some(repos)
}

/// The arguments of a command that is run on a commit: in `args` every `{}`
/// is replaced by the id of the commit, and the result is split at its
/// spaces.
pub open spec fn command_arguments(args: Seq<char>, commit_id: Seq<char>) -> Seq<Seq<char>> {
    split_parts(replaced(args, seq!['{', '}'], commit_id), ' ')
}

/// The arguments with which a command is run on the commit, as
/// `command_arguments` states them.
pub fn arguments_for_commit(args: &str, commit: &RepoCommit) -> (arguments: Vec<String>)
    ensures
        texts(arguments@) == command_arguments(args@, commit.commit_id@),
{
    proof {
        reveal_strlit("{}");
        assert("{}"@ =~= seq!['{', '}']);
    }
    let with_commit = text_replaced(args, "{}", commit.commit_id.as_str());
    text_split(with_commit.as_str(), ' ')
}

} // verus!
