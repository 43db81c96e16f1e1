//! Where things are stored below the application's data directory:
//! `design-storage.sqlite3`, and `projects/<project id>/` holding each
//! project's screenshots and exports.

use vstd::prelude::*;
use crate::ids::{hyphenated, id_to_string};

verus! {

/// The path `std::path::Path::join` makes of a base and a relative part (a
/// part that is itself absolute replaces the base). The path syntax is that of
/// the platform the library is built for (`/` or `\\` between components);
/// within one build the result depends on the two texts alone.
pub uninterp spec fn path_joined(base: Seq<char>, part: Seq<char>) -> Seq<char>;

/// `std::path::Path::new(base).join(part)`, as text: the path named
/// `path_joined`.
#[verifier::external_body]
pub(crate) fn join_path(base: &str, part: &str) -> (p: String)
    ensures
        p@ == path_joined(base@, part@),
{
    std::path::Path::new(base).join(part).to_string_lossy().into_owned()
}

/// The file name of the database below the data directory.
pub const DATABASE_FILE: &'static str = "design-storage.sqlite3";

/// The storage below a data directory.
#[derive(Debug, Clone)]
pub struct Storage {
    pub root: String,
    pub db_path: String,
}

/// Projects stored below a data directory.
#[derive(Debug, Clone)]
pub struct SqliteProjectRepository {
    pub root: String,
    pub db_path: String,
}

/// Screenshots stored below a data directory.
#[derive(Debug, Clone)]
pub struct SqliteScreenshotRepository {
    pub root: String,
    pub db_path: String,
}

impl Storage {
    /// The storage below a data directory, with its database file there.
    pub fn new(root: &str) -> (s: Storage)
        ensures
            s.root@ == root@,
            s.db_path@ == path_joined(root@, DATABASE_FILE@),
    {
        Storage { root: root.to_owned(), db_path: join_path(root, DATABASE_FILE) }
    }

    pub fn projects(&self) -> (r: SqliteProjectRepository)
        ensures
            r.root@ == self.root@,
            r.db_path@ == self.db_path@,
    {
        SqliteProjectRepository::new(self.root.clone(), self.db_path.clone())
    }

    pub fn screenshots(&self) -> (r: SqliteScreenshotRepository)
        ensures
            r.root@ == self.root@,
            r.db_path@ == self.db_path@,
    {
        SqliteScreenshotRepository::new(self.root.clone(), self.db_path.clone())
    }
}

/// The directory holding all projects.
pub open spec fn projects_dir_of(root: Seq<char>) -> Seq<char> {
    path_joined(root, "projects"@)
}

/// The directory of one project.
pub open spec fn project_dir_of(root: Seq<char>, project_id: Seq<char>) -> Seq<char> {
    path_joined(projects_dir_of(root), project_id)
}

impl SqliteProjectRepository {
    pub fn new(root: String, db_path: String) -> (r: Self)
        ensures
            r.root == root,
            r.db_path == db_path,
    {
        SqliteProjectRepository { root, db_path }
    }

    pub fn projects_dir(&self) -> (p: String)
        ensures
            p@ == projects_dir_of(self.root@),
    {
        join_path(self.root.as_str(), "projects")
    }

    /// The directory of a project.
    pub fn project_dir(&self, project_id: u128) -> (p: String)
        ensures
            p@ == project_dir_of(self.root@, hyphenated(project_id)),
    {
        join_path(self.projects_dir().as_str(), id_to_string(project_id).as_str())
    }
}

impl SqliteScreenshotRepository {
    pub fn new(root: String, db_path: String) -> (r: Self)
        ensures
            r.root == root,
            r.db_path == db_path,
    {
        SqliteScreenshotRepository { root, db_path }
    }

    /// The directory of a project.
    pub fn project_dir(&self, project_id: u128) -> (p: String)
        ensures
            p@ == project_dir_of(self.root@, hyphenated(project_id)),
    {
        let projects = join_path(self.root.as_str(), "projects");
        join_path(projects.as_str(), id_to_string(project_id).as_str())
    }
}

/// Where a stored screenshot lies, so that the user interface can show it.
/// This path is never sent to providers.
pub fn absolute_screenshot_path(app_data_dir: &str, project_id: &str, relative_path: &str) -> (p:
    String)
    ensures
        p@ == path_joined(project_dir_of(app_data_dir@, project_id@), relative_path@),
{
    let projects = join_path(app_data_dir, "projects");
    let project = join_path(projects.as_str(), project_id);
    join_path(project.as_str(), relative_path)
}

} // verus!
