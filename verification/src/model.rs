//! The data of a scan: repositories, commits as a walk delivers them, commits
//! as the history keeps them, and the classifier that decides which commits
//! are kept.

use crate::calendar::{date_time_text, format_date_time};
use crate::commit_time::CommitTime;
use crate::text::{
    contains_text, fit_text, fitted, lowercase_of, optional_text, push_char, text_contains,
    text_equals, unicode_lowercase,
};
use crate::utils::as_datetime;
use vstd::prelude::*;
use vstd::string::StringExecFns;

verus! {

/// A local git repository: where it lies, the path by which it is shown, and
/// a short name for it.
#[derive(Debug, PartialEq, Eq)]
pub struct Repo {
    pub abs_path: String,
    pub rel_path: String,
    pub description: String,
}

/// The final component of a path, if the path has one.
pub uninterp spec fn path_file_name(path: Seq<char>) -> Option<Seq<char>>;

/// `Path::file_name` of the standard library, on text: the final component of
/// the path, if there is one. It is determined by the path alone.
#[verifier::external_body]
pub(crate) fn final_component(path: &str) -> (name: Option<String>)
    ensures
        optional_text(name) == path_file_name(path@),
{
    match std::path::Path::new(path).file_name() {
        Some(name) => match name.to_str() {
            Some(name) => Some(name.to_string()),
            None => None,
        },
        None => None,
    }
}

impl Repo {
    /// A repository with the given short name.
    pub fn described(abs_path: String, rel_path: String, description: String) -> (repo: Repo)
        ensures
            repo.abs_path == abs_path,
            repo.rel_path == rel_path,
            repo.description == description,
    {
        Repo { abs_path, rel_path, description }
    }

    /// A repository whose short name is the final component of its absolute
    /// path; `None` where the path has no final component.
    pub fn from(abs_path: String, rel_path: String) -> (repo: Option<Repo>)
        ensures
            match path_file_name(abs_path@) {
                Some(name) => repo matches Some(r) && r.abs_path == abs_path && r.rel_path
                    == rel_path && r.description@ == name,
                None => repo is None,
            },
    {
        let component = final_component(abs_path.as_str());
        Repo::with_final_component(abs_path, rel_path, component)
    }

    /// A repository at `abs_path`, given the final component of that path:
    /// the component is its short name, and without a component there is no
    /// repository.
    pub fn with_final_component(
        abs_path: String,
        rel_path: String,
        component: Option<String>,
    ) -> (repo: Option<Repo>)
        ensures
            repo == match component {
                Some(description) => Some(Repo { abs_path, rel_path, description }),
                None => None::<Repo>,
            },
    {
        match component {
            Some(description) => Some(Repo::described(abs_path, rel_path, description)),
            None => None,
        }
    }
}

impl Clone for Repo {
    fn clone(&self) -> (copy: Repo)
        ensures
            copy == *self,
    {
        Repo {
            abs_path: self.abs_path.clone(),
            rel_path: self.rel_path.clone(),
            description: self.description.clone(),
        }
    }
}

/// How a walk treats a commit with several parents.
#[derive(Clone, Copy, Debug, PartialEq, Eq, Structural)]
pub enum RevWalkStrategy {
    FirstParent,
    AllParents,
}

/// The strategy that a name stands for.
pub open spec fn strategy_named(name: Seq<char>) -> Option<RevWalkStrategy> {
    if name == "first"@ {
        Some(RevWalkStrategy::FirstParent)
    } else if name == "all"@ {
        Some(RevWalkStrategy::AllParents)
    } else {
        None
    }
}

impl RevWalkStrategy {
    /// The strategy with the given name: `first` follows the first parent
    /// only, `all` follows all parents; no other name is known.
    pub fn from_name(name: &str) -> (strategy: Option<RevWalkStrategy>)
        ensures
            strategy == strategy_named(name@),
    {
        if text_equals(name, "first") {
            Some(RevWalkStrategy::FirstParent)
        } else if text_equals(name, "all") {
            Some(RevWalkStrategy::AllParents)
        } else {
            None
        }
    }

    /// Whether the walk follows the first parent only.
    pub fn first_parent_only(&self) -> (only: bool)
        ensures
            only == (*self == RevWalkStrategy::FirstParent),
    {
        match self {
            RevWalkStrategy::FirstParent => true,
            RevWalkStrategy::AllParents => false,
        }
    }
}

/// What a walk reads of one commit. A text is `None` where the commit does not
/// hold it as valid text.
#[derive(Debug, PartialEq, Eq)]
pub struct CommitMeta {
    pub id: String,
    pub time: CommitTime,
    pub summary: Option<String>,
    pub author_name: Option<String>,
    pub author_email: Option<String>,
    pub committer_name: Option<String>,
    pub message: Option<String>,
}

/// The text, or `absent` where there is none.
pub open spec fn text_or(text: Option<String>, absent: Seq<char>) -> Seq<char> {
    match text {
        Some(t) => t@,
        None => absent,
    }
}

/// The text `None`, which stands for a name or summary that is absent.
pub open spec fn absent_text() -> Seq<char> {
    seq!['N', 'o', 'n', 'e']
}

/// A commit of the history, as a value: the place of its repository in the
/// history's list of repositories, and the commit's own data.
pub struct CommitRecord {
    pub repo: int,
    pub commit_time: CommitTime,
    pub summary: Seq<char>,
    pub author_name: Seq<char>,
    pub author_email: Seq<char>,
    pub committer: Seq<char>,
    pub commit_id: Seq<char>,
    pub message: Seq<char>,
}

impl CommitMeta {
    /// The record that the history keeps of this commit of repository `repo`:
    /// an absent summary or name reads `None`, an absent message is empty.
    pub open spec fn record(self, repo: int) -> CommitRecord {
        CommitRecord {
            repo,
            commit_time: self.time,
            summary: text_or(self.summary, absent_text()),
            author_name: text_or(self.author_name, absent_text()),
            author_email: text_or(self.author_email, absent_text()),
            committer: text_or(self.committer_name, absent_text()),
            commit_id: self.id@,
            message: text_or(self.message, Seq::empty()),
        }
    }
}

/// A commit together with the repository it belongs to, which is given by its
/// place in the history's list of repositories.
#[derive(Debug, PartialEq, Eq)]
pub struct RepoCommit {
    pub repo: usize,
    pub commit_time: CommitTime,
    pub summary: String,
    pub author_name: String,
    pub author_email: String,
    pub committer: String,
    pub commit_id: String,
    pub message: String,
}

impl View for RepoCommit {
    type V = CommitRecord;

    open spec fn view(&self) -> CommitRecord {
        CommitRecord {
            repo: self.repo as int,
            commit_time: self.commit_time,
            summary: self.summary@,
            author_name: self.author_name@,
            author_email: self.author_email@,
            committer: self.committer@,
            commit_id: self.commit_id@,
            message: self.message@,
        }
    }
}

/// A copy of the text, or of `absent` where there is none.
fn text_or_default(text: &Option<String>, absent: &str) -> (copy: String)
    ensures
        copy@ == text_or(*text, absent@),
{
    match text {
        Some(t) => t.clone(),
        None => absent.to_owned(),
    }
}

impl RepoCommit {
    /// The commit `commit` of the repository at place `repo`.
    pub fn from(repo: usize, commit: &CommitMeta) -> (kept: RepoCommit)
        ensures
            kept@ == commit.record(repo as int),
    {
        proof {
            reveal_strlit("None");
            reveal_strlit("");
            assert("None"@ =~= absent_text());
            assert(""@ =~= Seq::<char>::empty());
        }
        RepoCommit {
            repo,
            commit_time: commit.time,
            summary: text_or_default(&commit.summary, "None"),
            author_name: text_or_default(&commit.author_name, "None"),
            author_email: text_or_default(&commit.author_email, "None"),
            committer: text_or_default(&commit.committer_name, "None"),
            commit_id: commit.id.clone(),
            message: text_or_default(&commit.message, ""),
        }
    }

    /// The commit time as text, in the place where the commit was made:
    /// `YYYY-MM-DD HH:MM` and the offset from UTC as sign, hours and minutes.
    pub fn time_as_str(&self) -> (text: String)
        requires
            self.commit_time.local_parts() is Some,
        ensures
            text@ == date_time_text(
                self.commit_time.local_parts().unwrap(),
                self.commit_time.offset_minutes as int,
            ),
    {
        let parts = as_datetime(&self.commit_time).unwrap();
        format_date_time(&parts, self.commit_time.offset_minutes)
    }

    /// The commit time as `time_as_str` writes it, or `None` where the commit
    /// time has no calendar date.
    pub fn try_time_as_str(&self) -> (text: Option<String>)
        ensures
            text is Some <==> self.commit_time.local_parts() is Some,
            text matches Some(t) ==> t@ == date_time_text(
                self.commit_time.local_parts().unwrap(),
                self.commit_time.offset_minutes as int,
            ),
    {
        match as_datetime(&self.commit_time) {
            Some(_) => Some(self.time_as_str()),
            None => None,
        }
    }
}

/// A commit in one line: its commit time, the short name of its repository
/// and its committer in ten characters each, and its summary, set apart by
/// spaces, and a line feed.
pub open spec fn commit_line(commit: RepoCommit, description: Seq<char>) -> Seq<char> {
    date_time_text(
        commit.commit_time.local_parts().unwrap(),
        commit.commit_time.offset_minutes as int,
    ) + seq![' '] + fitted(description, 10) + seq![' '] + fitted(commit.committer@, 10) + seq![
        ' ',
    ] + commit.summary@ + seq!['\n']
}

impl RepoCommit {
    /// The commit in one line, as `commit_line` states it; `description` is
    /// the short name of its repository. `None` where the commit time has no
    /// calendar date.
    pub fn line(&self, description: &str) -> (line: Option<String>)
        ensures
            line is Some <==> self.commit_time.local_parts() is Some,
            line matches Some(l) ==> l@ == commit_line(*self, description@),
    {
        let mut line = match self.try_time_as_str() {
            Some(time) => time,
            None => {
                return None;
            },
        };
        push_char(&mut line, ' ');
        line.append(fit_text(description, 10).as_str());
        push_char(&mut line, ' ');
        line.append(fit_text(self.committer.as_str(), 10).as_str());
        push_char(&mut line, ' ');
        line.append(self.summary.as_str());
        push_char(&mut line, '\n');
        assert(line@ =~= commit_line(*self, description@));
        Some(line)
    }
}

impl Clone for RepoCommit {
    fn clone(&self) -> (copy: RepoCommit)
        ensures
            copy == *self,
    {
        RepoCommit {
            repo: self.repo,
            commit_time: self.commit_time,
            summary: self.summary.clone(),
            author_name: self.author_name.clone(),
            author_email: self.author_email.clone(),
            committer: self.committer.clone(),
            commit_id: self.commit_id.clone(),
            message: self.message.clone(),
        }
    }
}

/// What a classifier is set to: the greatest age in days, and the patterns,
/// in lower case, that the author and the message have to hold.
pub struct ClassifierConfig {
    pub max_age_days: int,
    pub author_substring: Option<Seq<char>>,
    pub message_substring: Option<Seq<char>>,
}

impl ClassifierConfig {
    /// The commit is not older than the greatest age.
    pub open spec fn age_ok(self, now: int, time: CommitTime) -> bool {
        time.age_days_at(now) <= self.max_age_days
    }

    /// No author pattern is set, or the author's name or e-mail address, put
    /// in lower case as the pattern is, holds it.
    pub open spec fn author_ok(self, name: Seq<char>, email: Seq<char>) -> bool {
        match self.author_substring {
            Some(pattern) => contains_text(unicode_lowercase(name), pattern) || contains_text(
                unicode_lowercase(email),
                pattern,
            ),
            None => true,
        }
    }

    /// No message pattern is set, or the message, put in lower case as the
    /// pattern is, holds it.
    pub open spec fn message_ok(self, message: Seq<char>) -> bool {
        match self.message_substring {
            Some(pattern) => contains_text(unicode_lowercase(message), pattern),
            None => true,
        }
    }

    /// The commit is kept: it passes the age test, the author test and the
    /// message test.
    pub open spec fn includes(self, now: int, commit: CommitMeta) -> bool {
        &&& self.age_ok(now, commit.time)
        &&& self.author_ok(
            text_or(commit.author_name, Seq::empty()),
            text_or(commit.author_email, Seq::empty()),
        )
        &&& self.message_ok(text_or(commit.message, Seq::empty()))
    }

    /// The walk stops at the commit: it fails the age test.
    pub open spec fn aborts(self, now: int, commit: CommitMeta) -> bool {
        !self.age_ok(now, commit.time)
    }
}

/// The lower-case form of a pattern, if there is a pattern.
pub open spec fn lowered(pattern: Option<&str>) -> Option<Seq<char>> {
    match pattern {
        Some(p) => Some(unicode_lowercase(p@)),
        None => None,
    }
}


/// Decides of each commit whether the history keeps it and whether the walk
/// goes on after it.
#[derive(Debug, PartialEq, Eq)]
pub struct Classifier {
    age: u32,
    author: Option<String>,
    message: Option<String>,
}

impl View for Classifier {
    type V = ClassifierConfig;

    closed spec fn view(&self) -> ClassifierConfig {
        ClassifierConfig {
            max_age_days: self.age as int,
            author_substring: optional_text(self.author),
            message_substring: optional_text(self.message),
        }
    }
}

impl Classifier {
    /// A classifier for commits of at most `age` days whose author holds
    /// `author` and whose message holds `message`, where these are given. The
    /// patterns are kept in lower case.
    pub fn new(age: u32, author: Option<&str>, message: Option<&str>) -> (classifier: Classifier)
        ensures
            classifier@ == (ClassifierConfig {
                max_age_days: age as int,
                author_substring: lowered(author),
                message_substring: lowered(message),
            }),
    {
        let author = match author {
            Some(a) => Some(lowercase_of(a)),
            None => None,
        };
        let message = match message {
            Some(m) => Some(lowercase_of(m)),
            None => None,
        };
        Classifier::with_patterns(age, author, message)
    }

    /// A classifier for commits of at most `age` days whose author holds
    /// `author` and whose message holds `message`, where these are given. The
    /// patterns are taken as they are: they are in lower case already.
    pub fn with_patterns(age: u32, author: Option<String>, message: Option<String>) -> (classifier:
        Classifier)
        ensures
            classifier@ == (ClassifierConfig {
                max_age_days: age as int,
                author_substring: optional_text(author),
                message_substring: optional_text(message),
            }),
    {
        Classifier { age, author, message }
    }

    /// Classifies one commit at the moment `now` (seconds since the epoch,
    /// UTC): whether the history keeps it, and whether the walk stops at it.
    pub fn classify(&self, now: i64, commit: &CommitMeta) -> (verdict: (bool, bool))
        ensures
            verdict.0 == self@.includes(now as int, *commit),
            verdict.1 == self@.aborts(now as int, *commit),
    {
        proof {
            reveal_strlit("");
            assert(""@ =~= Seq::<char>::empty());
        }
        let age_ok = commit.time.age_days(now) <= self.age as i64;
        let mut keep = age_ok;
        let abort = !age_ok;
        match &self.message {
            Some(pattern) => {
                let message = match &commit.message {
                    Some(m) => lowercase_of(m.as_str()),
                    None => lowercase_of(""),
                };
                let found = text_contains(message.as_str(), pattern.as_str());
                keep = keep && found;
            },
            None => {},
        }
        match &self.author {
            Some(pattern) => {
                let name = match &commit.author_name {
                    Some(n) => lowercase_of(n.as_str()),
                    None => lowercase_of(""),
                };
                let email = match &commit.author_email {
                    Some(e) => lowercase_of(e.as_str()),
                    None => lowercase_of(""),
                };
                let found = text_contains(name.as_str(), pattern.as_str()) || text_contains(
                    email.as_str(),
                    pattern.as_str(),
                );
                keep = keep && found;
            },
            None => {},
        }
        (keep, abort)
    }
}

} // verus!
