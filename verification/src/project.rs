//! Projects as they are found on disk, and the index of sessions that a
//! project keeps.

use std::path::PathBuf;
use vstd::prelude::*;
use crate::json::{
    items_of, items_view, json_of, member, member_text, parse_json, Json, JsonView,
};
use crate::ports::now_rfc3339;
use crate::transcript::line_texts;

verus! {

/// A location in the file system. It is carried, never looked into.
#[verifier::external_type_specification]
#[verifier::external_body]
pub struct ExPathBuf(PathBuf);

/// `PathBuf::clone`. Trusted: the copy equals the path it was made from.
pub assume_specification[ <PathBuf as Clone>::clone ](path: &PathBuf) -> (copy: PathBuf)
    ensures
        copy == *path,
;

/// A project directory and the sessions recorded for it.
#[derive(Debug, Clone)]
pub struct Project {
    pub id: String,
    pub name: String,
    pub path: PathBuf,
    pub sessions: Vec<String>,
    pub created_at: String,
    pub is_favorite: bool,
}

/// What a [`Project`] holds, as mathematical values.
pub struct ProjectView {
    pub id: Seq<char>,
    pub name: Seq<char>,
    pub path: PathBuf,
    pub sessions: Seq<Seq<char>>,
    pub created_at: Seq<char>,
    pub is_favorite: bool,
}

impl View for Project {
    type V = ProjectView;

    open spec fn view(&self) -> ProjectView {
        ProjectView {
            id: self.id@,
            name: self.name@,
            path: self.path,
            sessions: line_texts(self.sessions@),
            created_at: self.created_at@,
            is_favorite: self.is_favorite,
        }
    }
}

/// The index file of a project.
#[derive(Debug, Clone)]
pub struct ProjectIndex {
    pub sessions: Vec<SessionRef>,
}

/// One entry of a project's index.
#[derive(Debug, Clone)]
pub struct SessionRef {
    pub id: String,
    pub name: String,
    pub created: String,
}

/// What a walk of the projects directory reports of one entry.
pub struct FoundEntry {
    /// The entry's file name, where it is valid text.
    pub name: Option<String>,
    pub path: PathBuf,
    pub is_dir: bool,
    /// The entry is the projects directory itself.
    pub is_root: bool,
}

/// A project as it is first seen: named after its directory, with no
/// sessions listed and not a favourite.
pub open spec fn project_of(
    name: Seq<char>,
    path: PathBuf,
    sessions: Seq<Seq<char>>,
    created_at: Seq<char>,
) -> ProjectView {
    ProjectView { id: name, name, path, sessions, created_at, is_favorite: false }
}

/// An entry stands for a project: a directory below the projects directory
/// whose name is valid text.
pub open spec fn is_project_entry(entry: FoundEntry) -> bool {
    entry.is_dir && !entry.is_root && entry.name is Some
}

/// The entries that stand for projects, in the order of the walk.
pub open spec fn project_entries(entries: Seq<FoundEntry>) -> Seq<FoundEntry>
    decreases entries.len(),
{
    if entries.len() == 0 {
        Seq::<FoundEntry>::empty()
    } else if is_project_entry(entries.last()) {
        project_entries(entries.drop_last()).push(entries.last())
    } else {
        project_entries(entries.drop_last())
    }
}

/// The identifiers among the entries of an index: of each entry that has a
/// text under `id`, in order.
pub open spec fn ids_among(items: Seq<JsonView>) -> Seq<Seq<char>>
    decreases items.len(),
{
    if items.len() == 0 {
        Seq::<Seq<char>>::empty()
    } else {
        match member_text(items.last(), "id"@) {
            Some(id) => ids_among(items.drop_last()).push(id),
            None => ids_among(items.drop_last()),
        }
    }
}

/// The session identifiers that an index document lists: those among the
/// items of its `sessions` array, and none where it has no such array.
pub open spec fn index_ids(index: JsonView) -> Seq<Seq<char>> {
    match member(index, "sessions"@) {
        Some(listed) => match items_of(listed) {
            Some(items) => ids_among(items),
            None => Seq::<Seq<char>>::empty(),
        },
        None => Seq::<Seq<char>>::empty(),
    }
}

/// The session identifiers that the text of an index file lists, or the
/// parser's complaint where the text is no JSON document.
pub open spec fn listed_sessions(content: Seq<char>) -> Result<Seq<Seq<char>>, Seq<char>> {
    match json_of(content) {
        Ok(index) => Ok(index_ids(index)),
        Err(message) => Err(message),
    }
}

/// The session identifiers of a project whose index file may be missing or
/// unreadable: what the index lists, and none where there is no readable
/// index or its text is no JSON document.
pub open spec fn known_sessions(index: Option<Seq<char>>) -> Seq<Seq<char>> {
    match index {
        Some(content) => match listed_sessions(content) {
            Ok(ids) => ids,
            Err(_) => Seq::<Seq<char>>::empty(),
        },
        None => Seq::<Seq<char>>::empty(),
    }
}

/// The session identifiers that an index document lists.
pub fn session_ids(index: &Json) -> (ids: Vec<String>)
    ensures
        line_texts(ids@) == index_ids(index@),
{
    let mut ids: Vec<String> = Vec::new();
    assert(line_texts(ids@) =~= Seq::<Seq<char>>::empty());
    let listed = match index.get("sessions") {
        Some(listed) => listed,
        None => {
            return ids;
        },
    };
    let items = match listed.as_array() {
        Some(items) => items,
        None => {
            return ids;
        },
    };
    let n: usize = items.len();
    let mut i: usize = 0;
    let ghost listed_items = items_view(items@);
    assert(listed_items.take(0) =~= Seq::<JsonView>::empty());
    while i < n
        invariant
            n == items@.len(),
            listed_items == items_view(items@),
            i <= n,
            line_texts(ids@) == ids_among(listed_items.take(i as int)),
        decreases n - i,
    {
        let ghost before = listed_items.take(i as int);
        let ghost after = listed_items.take(i + 1);
        let ghost held = line_texts(ids@);
        proof {
            assert(after.drop_last() =~= before);
            assert(after.last() == items@[i as int]@);
        }
        match items[i].get_str("id") {
            Some(id) => {
                ids.push(id.to_owned());
                assert(line_texts(ids@) =~= held.push(id@));
            },
            None => {},
        }
        i += 1;
    }
    assert(listed_items.take(n as int) =~= listed_items);
    ids
}

/// The session identifiers that the text of an index file lists. Fails
/// exactly where the text is no JSON document, with the parser's complaint.
pub fn list_sessions(content: &str) -> (result: Result<Vec<String>, String>)
    ensures
        match result {
            Ok(ids) => listed_sessions(content@) == Ok::<Seq<Seq<char>>, Seq<char>>(
                line_texts(ids@),
            ),
            Err(message) => listed_sessions(content@) == Err::<Seq<Seq<char>>, Seq<char>>(
                message@,
            ),
        },
{
    match parse_json(content) {
        Ok(index) => Ok(session_ids(&index)),
        Err(message) => Err(message),
    }
}

/// A project found at `path` at the time `created_at`, with the sessions
/// that its index lists; `index` is the text of the index file where there
/// is one that could be read.
pub fn project_at(project_id: String, path: PathBuf, index: Option<&str>, created_at: String) -> (project:
    Project)
    ensures
        project@ == project_of(project_id@, path, known_sessions(index_text(index)), created_at@),
{
    let sessions = match index {
        Some(content) => match list_sessions(content) {
            Ok(ids) => ids,
            Err(_) => Vec::new(),
        },
        None => Vec::new(),
    };
    assert(line_texts(sessions@) =~= known_sessions(index_text(index)));
    Project {
        id: project_id.clone(),
        name: project_id,
        path,
        sessions,
        created_at,
        is_favorite: false,
    }
}

/// A project found at `path` now: as [`project_at`] gives it, at the time
/// that the clock gives.
pub fn get_project(project_id: String, path: PathBuf, index: Option<&str>) -> (project: Project)
    ensures
        project@ == project_of(
            project_id@,
            path,
            known_sessions(index_text(index)),
            project@.created_at,
        ),
{
    let created_at = now_rfc3339();
    project_at(project_id, path, index, created_at)
}

/// The projects among the entries of a walk, in the order of the walk: one
/// for each directory below the projects directory whose name is valid
/// text, named after it and with no sessions listed.
pub fn scan_projects(entries: &Vec<FoundEntry>) -> (projects: Vec<Project>)
    ensures
        projects@.len() == project_entries(entries@).len(),
        forall|k: int|
            0 <= k < projects@.len() ==> (#[trigger] projects@[k])@ == project_of(
                project_entries(entries@)[k].name->Some_0@,
                project_entries(entries@)[k].path,
                Seq::<Seq<char>>::empty(),
                projects@[k].created_at@,
            ),
{
    let mut projects: Vec<Project> = Vec::new();
    let n: usize = entries.len();
    let mut i: usize = 0;
    assert(entries@.take(0) =~= Seq::<FoundEntry>::empty());
    while i < n
        invariant
            n == entries@.len(),
            i <= n,
            projects@.len() == project_entries(entries@.take(i as int)).len(),
            forall|k: int|
                0 <= k < projects@.len() ==> (#[trigger] projects@[k])@ == project_of(
                    project_entries(entries@.take(i as int))[k].name->Some_0@,
                    project_entries(entries@.take(i as int))[k].path,
                    Seq::<Seq<char>>::empty(),
                    projects@[k].created_at@,
                ),
        decreases n - i,
    {
        let ghost before = entries@.take(i as int);
        let ghost after = entries@.take(i + 1);
        proof {
            assert(after.drop_last() =~= before);
            assert(after.last() == entries@[i as int]);
        }
        let entry = &entries[i];
        if entry.is_dir && !entry.is_root {
            match &entry.name {
                Some(name) => {
                    let sessions: Vec<String> = Vec::new();
                    assert(line_texts(sessions@) =~= Seq::<Seq<char>>::empty());
                    let project = Project {
                        id: name.clone(),
                        name: name.clone(),
                        path: entry.path.clone(),
                        sessions,
                        created_at: now_rfc3339(),
                        is_favorite: false,
                    };
                    projects.push(project);
                },
                None => {},
            }
        }
        i += 1;
    }
    assert(entries@.take(n as int) =~= entries@);
    projects
}

/// The text of an index file as a mathematical value.
pub open spec fn index_text(index: Option<&str>) -> Option<Seq<char>> {
    match index {
        Some(content) => Some(content@),
        None => None,
    }
}

} // verus!
