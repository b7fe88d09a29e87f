//! The project store: how projects are named in the bucket, what a project
//! record holds, and who may load it.

use vstd::prelude::*;
use vstd::string::*;
use crate::text::{debug_str, debug_text_of_str, lowercase_of};

verus! {

/// The owner of the projects that everybody may load.
pub const PROJECT_OWNER_EXAMPLE: &'static str = "example";

/// The content type under which scene descriptions are stored.
pub const CONTENT_TYPE_OPENSCAD: &'static str = "application/x-openscad";

/// Whether `c` may stand in a key as it is: a lower-case letter of the Latin
/// alphabet, a digit, `-` or `_`.
pub open spec fn is_key_char(c: char) -> bool {
    ('a' <= c && c <= 'z') || ('0' <= c && c <= '9') || c == '-' || c == '_'
}

/// What stands in a key for the character `c`.
pub open spec fn key_piece(c: char) -> Seq<char> {
    if c == '@' {
        seq!['_', 'a', 't', '_']
    } else if c == '.' {
        seq!['_']
    } else if is_key_char(c) {
        seq![c]
    } else {
        seq!['-']
    }
}

/// The key for a text in lower case: the pieces for its characters, in
/// order.
pub open spec fn key_of(s: Seq<char>) -> Seq<char>
    decreases s.len(),
{
    if s.len() == 0 {
        Seq::<char>::empty()
    } else {
        key_of(s.drop_last()) + key_piece(s.last())
    }
}

/// The key for a text that is already in lower case.
pub fn sanitize_key(lowered: &str) -> (key: String)
    ensures
        key@ == key_of(lowered@),
{
    let mut key = String::new();
    for c in it: lowered.chars()
        invariant
            it.seq() == lowered@,
            key@ == key_of(lowered@.take(it.index() as int)),
    {
        let ghost before = key@;
        let ghost i = it.index() as int;
        if c == '@' {
            key.push('_');
            key.push('a');
            key.push('t');
            key.push('_');
        } else if c == '.' {
            key.push('_');
        } else if (c >= 'a' && c <= 'z') || (c >= '0' && c <= '9') || c == '-' || c == '_' {
            key.push(c);
        } else {
            key.push('-');
        }
        proof {
            assert(lowered@.take(i + 1).drop_last() =~= lowered@.take(i));
            assert(lowered@.take(i + 1).last() == c);
            assert(key@ =~= before + key_piece(c));
        }
    }
    assert(lowered@.take(lowered@.len() as int) =~= lowered@);
    key
}

/// The key under which the data of the user with this e-mail address is
/// stored: the address in lower case, with `@` written `_at_`, `.` written
/// `_`, and every other character that is no lower-case letter, digit, `-`
/// or `_` written `-`.
pub fn email_to_s3_key(email: &str) -> (key: String)
    ensures
        key@ == key_of(lowercase_of(email@)),
{
    let lowered = email.to_lowercase();
    sanitize_key(lowered.as_str())
}

/// A key holds only lower-case letters, digits, `-` and `_`, and at least
/// one and at most four characters for each character of the text.
pub proof fn lemma_key_is_safe(s: Seq<char>)
    ensures
        forall|i: int| 0 <= i < key_of(s).len() ==> is_key_char(#[trigger] key_of(s)[i]),
        s.len() <= key_of(s).len() <= 4 * s.len(),
    decreases s.len(),
{
    if s.len() > 0 {
        lemma_key_is_safe(s.drop_last());
    }
}

/// The key of a text that holds only key characters is the text itself.
pub proof fn lemma_key_of_safe_text(s: Seq<char>)
    requires
        forall|i: int| 0 <= i < s.len() ==> is_key_char(#[trigger] s[i]),
    ensures
        key_of(s) == s,
    decreases s.len(),
{
    if s.len() > 0 {
        lemma_key_of_safe_text(s.drop_last());
        assert(is_key_char(s.last()));
        assert(key_of(s) =~= s.drop_last().push(s.last()));
        assert(s.drop_last().push(s.last()) =~= s);
    }
}

/// A file of a project.
#[derive(Debug)]
pub struct ProjectFile {
    pub filename: String,
}

/// A project: its identifier, the e-mail address of its owner, its name and
/// its files.
#[derive(Debug)]
pub struct Project {
    pub id: String,
    pub owner: String,
    pub name: String,
    pub files: Vec<ProjectFile>,
}

/// What a [`Project`] holds.
pub struct ProjectView {
    pub id: Seq<char>,
    pub owner: Seq<char>,
    pub name: Seq<char>,
    pub files: Seq<Seq<char>>,
}

impl View for ProjectFile {
    type V = Seq<char>;

    open spec fn view(&self) -> Seq<char> {
        self.filename@
    }
}

impl View for Project {
    type V = ProjectView;

    open spec fn view(&self) -> ProjectView {
        ProjectView {
            id: self.id@,
            owner: self.owner@,
            name: self.name@,
            files: self.files@.map_values(|f: ProjectFile| f@),
        }
    }
}

/// What a new project holds: no scene yet, but the file for it.
pub open spec fn created_project(id: Seq<char>, owner: Seq<char>, name: Seq<char>) -> ProjectView {
    ProjectView { id, owner, name, files: seq!["main.scad"@] }
}

/// What the copy of `existing` holds that `owner` makes under `id`: the
/// name with ` Copy` behind it, and the same files.
pub open spec fn copied_project(
    existing: ProjectView,
    id: Seq<char>,
    owner: Seq<char>,
) -> ProjectView {
    ProjectView { id, owner, name: existing.name + " Copy"@, files: existing.files }
}

impl Project {
    /// A new project of `owner`, with the one file `main.scad`.
    pub fn create(id: String, owner: String, name: String) -> (project: Project)
        ensures
            project@ == created_project(id@, owner@, name@),
    {
        let project = Project {
            id,
            owner,
            name,
            files: vec![ProjectFile { filename: String::from_str("main.scad") }],
        };
        assert(project@.files =~= seq!["main.scad"@]);
        project
    }

    /// The copy of `self` that `owner` makes under `id`.
    pub fn copy_as(&self, id: String, owner: String) -> (project: Project)
        ensures
            project@ == copied_project(self@, id@, owner@),
    {
        let mut name = self.name.clone();
        name.append(" Copy");
        let mut files: Vec<ProjectFile> = Vec::new();
        let mut i: usize = 0;
        while i < self.files.len()
            invariant
                i <= self.files.len(),
                files@.len() == i,
                forall|k: int| 0 <= k < i ==> (#[trigger] files@[k])@ == self.files@[k]@,
            decreases self.files.len() - i,
        {
            files.push(ProjectFile { filename: self.files[i].filename.clone() });
            i += 1;
        }
        let project = Project { id, owner, name, files };
        assert(project@.files =~= self@.files);
        project
    }
}

/// A fresh identifier for a project: a random identifier from
/// `uuid::Uuid::new_v4`, written as `Uuid` displays itself. Nothing is
/// proved and nothing is claimed of it.
#[verifier::external_body]
fn fresh_project_id() -> String {
    uuid::Uuid::new_v4().to_string()
}

/// A new project of `owner` called `name`, under a fresh identifier.
pub fn new_project(owner: String, name: String) -> (project: Project)
    ensures
        project@ == created_project(project@.id, owner@, name@),
{
    Project::create(fresh_project_id(), owner, name)
}

/// The copy of `existing` that `owner` makes, under a fresh identifier.
pub fn new_copy(existing: &Project, owner: String) -> (project: Project)
    ensures
        project@ == copied_project(existing@, project@.id, owner@),
{
    existing.copy_as(fresh_project_id(), owner)
}

/// Why the store could not serve a request.
#[derive(Debug)]
pub enum RepositoryError {
    /// Reading the object `key` of `bucket` failed; `cause` says why.
    FailedToRead { bucket: String, key: String, cause: String },
    /// Writing the object `key` of `bucket` failed; `cause` says why.
    FailedToWrite { bucket: String, key: String, cause: String },
    /// No file of a project may have this name.
    InvalidFilename(String),
}

/// What a [`RepositoryError`] holds.
pub enum RepositoryErrorView {
    FailedToRead { bucket: Seq<char>, key: Seq<char>, cause: Seq<char> },
    FailedToWrite { bucket: Seq<char>, key: Seq<char>, cause: Seq<char> },
    InvalidFilename(Seq<char>),
}

impl View for RepositoryError {
    type V = RepositoryErrorView;

    open spec fn view(&self) -> RepositoryErrorView {
        match self {
            RepositoryError::FailedToRead { bucket, key, cause } => {
                RepositoryErrorView::FailedToRead { bucket: bucket@, key: key@, cause: cause@ }
            },
            RepositoryError::FailedToWrite { bucket, key, cause } => {
                RepositoryErrorView::FailedToWrite { bucket: bucket@, key: key@, cause: cause@ }
            },
            RepositoryError::InvalidFilename(name) => RepositoryErrorView::InvalidFilename(name@),
        }
    }
}

/// The message of an error of the store.
pub open spec fn error_text(error: RepositoryErrorView) -> Seq<char> {
    match error {
        RepositoryErrorView::FailedToRead { bucket, key, cause } => "failed to read s3://"@
            + bucket + "/"@ + key + ": "@ + cause,
        RepositoryErrorView::FailedToWrite { bucket, key, cause } => "failed to write s3://"@
            + bucket + "/"@ + key + ": "@ + cause,
        RepositoryErrorView::InvalidFilename(name) => "invalid filename "@ + name,
    }
}

impl RepositoryError {
    /// The message of this error.
    pub fn to_string(&self) -> (text: String)
        ensures
            text@ == error_text(self@),
    {
        match self {
            RepositoryError::FailedToRead { bucket, key, cause } => {
                let mut text = String::from_str("failed to read s3://");
                text.append(bucket.as_str());
                text.append("/");
                text.append(key.as_str());
                text.append(": ");
                text.append(cause.as_str());
                text
            },
            RepositoryError::FailedToWrite { bucket, key, cause } => {
                let mut text = String::from_str("failed to write s3://");
                text.append(bucket.as_str());
                text.append("/");
                text.append(key.as_str());
                text.append(": ");
                text.append(cause.as_str());
                text
            },
            RepositoryError::InvalidFilename(name) => {
                let mut text = String::from_str("invalid filename ");
                text.append(name.as_str());
                text
            },
        }
    }
}

/// The key of the record of the project `project_id`.
pub open spec fn project_json_key(project_id: Seq<char>) -> Seq<char> {
    "store/project/"@ + project_id + "/project.json"@
}

/// The key of the file `filename` of the project `project_id`.
pub open spec fn project_file_key(project_id: Seq<char>, filename: Seq<char>) -> Seq<char> {
    "store/project/"@ + project_id + "/"@ + filename
}

/// The key under which the record of a project is stored.
pub fn get_project_json_key(project_id: &str) -> (key: String)
    ensures
        key@ == project_json_key(project_id@),
{
    let mut key = String::from_str("store/project/");
    key.append(project_id);
    key.append("/project.json");
    key
}

/// The key under which a file of a project is stored. The name
/// `project.json` is kept for the record of the project: no file may have
/// it.
pub fn get_project_file_key(project_id: &str, filename: &str) -> (key: Result<
    String,
    RepositoryError,
>)
    ensures
        match key {
            Ok(k) => filename@ != "project.json"@ && k@ == project_file_key(project_id@, filename@),
            Err(e) => filename@ == "project.json"@ && e@ == RepositoryErrorView::InvalidFilename(
                filename@,
            ),
        },
{
    if filename.eq("project.json") {
        Err(RepositoryError::InvalidFilename(filename.to_owned()))
    } else {
        let mut key = String::from_str("store/project/");
        key.append(project_id);
        key.append("/");
        key.append(filename);
        Ok(key)
    }
}

/// The key of a file never is the key of the record of its project, nor of
/// any project whose identifier holds no `/`.
pub proof fn lemma_file_key_is_no_record_key(
    project_id: Seq<char>,
    filename: Seq<char>,
    other_id: Seq<char>,
)
    requires
        filename != "project.json"@,
        !project_id.contains('/'),
        !other_id.contains('/'),
    ensures
        project_file_key(project_id, filename) != project_json_key(other_id),
{
    reveal_strlit("store/project/");
    reveal_strlit("/project.json");
    reveal_strlit("/");
    reveal_strlit("project.json");
    let prefix = "store/project/"@;
    let a = project_file_key(project_id, filename);
    let b = project_json_key(other_id);
    if a == b {
        let n = prefix.len() as int;
        // both identifiers end at the first `/` behind the prefix
        assert(a[n + project_id.len()] == '/');
        assert(b[n + other_id.len()] == '/');
        if project_id.len() < other_id.len() {
            assert(b[n + project_id.len()] == other_id[project_id.len() as int]);
            assert(other_id.contains(other_id[project_id.len() as int]));
        } else if other_id.len() < project_id.len() {
            assert(a[n + other_id.len()] == project_id[other_id.len() as int]);
            assert(project_id.contains(project_id[other_id.len() as int]));
        } else {
            let m = n + project_id.len() + 1;
            assert(a.len() == b.len());
            assert(filename.len() == "project.json"@.len());
            assert forall|i: int| 0 <= i < filename.len() implies filename[i]
                == "project.json"@[i] by {
                assert(a[m + i] == filename[i]);
                assert(b[m + i] == "/project.json"@[i + 1]);
            }
            assert(filename =~= "project.json"@);
        }
    }
}

/// What loading a project for a user gives.
#[derive(Debug)]
pub enum LoadProjectResult {
    /// The project, which the user may see.
    Project(Project),
    /// There is no such project.
    NotFound,
    /// There is such a project, and the user may not see it.
    AccessDenied,
}

/// Whether the project of `owner` is handed to `user`, the e-mail address of
/// the user who asks, if one is signed in. The examples are handed to
/// everybody. Any other project is handed to a user who is signed in and
/// whose address differs from the owner's, and to nobody else.
pub open spec fn may_load(owner: Seq<char>, user: Option<Seq<char>>) -> bool {
    owner == PROJECT_OWNER_EXAMPLE@ || (user is Some && owner != user->0)
}

/// What loading gives, from what the store returned for the identifier and
/// the e-mail address of the user who asks.
pub fn decide_load_project(project: Option<Project>, user: Option<&str>) -> (result:
    LoadProjectResult)
    ensures
        match project {
            None => result is NotFound,
            Some(p) => if may_load(
                p@.owner,
                match user {
                    Some(u) => Some(u@),
                    None => None,
                },
            ) {
                result == LoadProjectResult::Project(p)
            } else {
                result is AccessDenied
            },
        },
{
    match project {
        Some(project) => {
            if project.owner.as_str().eq(PROJECT_OWNER_EXAMPLE) {
                LoadProjectResult::Project(project)
            } else {
                match user {
                    Some(email) => {
                        if !project.owner.as_str().eq(email) {
                            LoadProjectResult::Project(project)
                        } else {
                            LoadProjectResult::AccessDenied
                        }
                    },
                    None => LoadProjectResult::AccessDenied,
                }
            }
        },
        None => LoadProjectResult::NotFound,
    }
}

/// The status `404 Not Found`.
pub const STATUS_NOT_FOUND: u16 = 404;

/// The status `401 Unauthorized`.
pub const STATUS_UNAUTHORIZED: u16 = 401;

/// The status `500 Internal Server Error`.
pub const STATUS_INTERNAL_SERVER_ERROR: u16 = 500;

/// The project that a request goes on with, or the status that answers it:
/// 404 where there is no such project, 401 where the user may not see it.
pub fn project_or_status(result: LoadProjectResult) -> (answer: Result<Project, u16>)
    ensures
        match result {
            LoadProjectResult::Project(p) => answer == Ok::<Project, u16>(p),
            LoadProjectResult::NotFound => answer == Err::<Project, u16>(STATUS_NOT_FOUND),
            LoadProjectResult::AccessDenied => answer == Err::<Project, u16>(STATUS_UNAUTHORIZED),
        },
{
    match result {
        LoadProjectResult::Project(project) => Ok(project),
        LoadProjectResult::NotFound => Err(STATUS_NOT_FOUND),
        LoadProjectResult::AccessDenied => Err(STATUS_UNAUTHORIZED),
    }
}

/// The address that the server binds to where none is configured.
pub fn default_bind() -> (bind: String)
    ensures
        bind@ == "0.0.0.0:3000"@,
{
    String::from_str("0.0.0.0:3000")
}

/// The hours after which a session ends where none are configured: thirty
/// days.
pub fn default_jwt_expire_duration_hours() -> (hours: u32)
    ensures
        hours == 720,
{
    30 * 24
}

/// What names an object as the source of a copy: the bucket, `/`, and the
/// key.
pub fn copy_source(bucket: &str, key: &str) -> (source: String)
    ensures
        source@ == bucket@ + "/"@ + key@,
{
    let mut source = String::from_str(bucket);
    source.append("/");
    source.append(key);
    source
}

/// The value of the header that offers a file for download under
/// `filename`.
pub fn content_disposition(filename: &str) -> (value: String)
    ensures
        value@ == "attachment; filename=\""@ + filename@ + "\""@,
{
    let mut value = String::from_str("attachment; filename=\"");
    value.append(filename);
    value.append("\"");
    value
}

/// The keys among `keys` that are there, in order.
pub open spec fn present_keys(keys: Seq<Option<Seq<char>>>) -> Seq<Seq<char>>
    decreases keys.len(),
{
    if keys.len() == 0 {
        seq![]
    } else {
        let before = present_keys(keys.drop_last());
        match keys.last() {
            Some(key) => before.push(key),
            None => before,
        }
    }
}

/// The view of a key that may be missing.
pub open spec fn key_view(key: Option<String>) -> Option<Seq<char>> {
    match key {
        Some(k) => Some(k@),
        None => None,
    }
}

/// The keys to delete for one page of a listing: the keys of its objects
/// that have one, in order.
pub fn keys_to_delete(listed: &Vec<Option<String>>) -> (keys: Vec<String>)
    ensures
        keys@.map_values(|k: String| k@) == present_keys(
            listed@.map_values(|k: Option<String>| key_view(k)),
        ),
{
    let ghost all = listed@.map_values(|k: Option<String>| key_view(k));
    let mut keys: Vec<String> = Vec::new();
    let mut i: usize = 0;
    while i < listed.len()
        invariant
            i <= listed.len(),
            all == listed@.map_values(|k: Option<String>| key_view(k)),
            keys@.map_values(|k: String| k@) == present_keys(all.take(i as int)),
        decreases listed.len() - i,
    {
        let ghost before = keys@.map_values(|k: String| k@);
        proof {
            assert(all.take(i + 1).drop_last() =~= all.take(i as int));
            assert(all.take(i + 1).last() == key_view(listed@[i as int]));
        }
        match &listed[i] {
            Some(key) => {
                keys.push(key.clone());
                assert(keys@.map_values(|k: String| k@) =~= before.push(key@));
            },
            None => {},
        }
        i += 1;
    }
    assert(all.take(i as int) =~= all);
    keys
}

/// What a listing goes on with after a page: the token of the next page,
/// where the page held objects and more pages follow; else the listing is
/// over.
pub fn next_listing(listed: usize, next_token: Option<String>) -> (token: Option<String>)
    ensures
        token == if listed == 0 {
            None::<String>
        } else {
            next_token
        },
{
    if listed == 0 {
        None
    } else {
        next_token
    }
}

/// An object that could not be deleted: its key and the reason, as far as
/// the store told them.
pub struct DeleteFailure {
    pub key: Option<String>,
    pub message: Option<String>,
}

/// What a [`DeleteFailure`] holds.
pub struct DeleteFailureView {
    pub key: Option<Seq<char>>,
    pub message: Option<Seq<char>>,
}

impl View for DeleteFailure {
    type V = DeleteFailureView;

    open spec fn view(&self) -> DeleteFailureView {
        DeleteFailureView { key: key_view(self.key), message: key_view(self.message) }
    }
}

/// The line of the report for an object that could not be deleted, from
/// its key and from the reason in quotes, as far as they are known.
pub open spec fn failure_line_text(key: Option<Seq<char>>, quoted_message: Option<Seq<char>>) -> Seq<
    char,
> {
    "Error deleting "@ + (match key {
        Some(key) => key,
        None => "unknown"@,
    }) + ": "@ + (match quoted_message {
        Some(quoted) => "Some("@ + quoted + ")"@,
        None => "None"@,
    })
}

/// The line of the report for one object that could not be deleted; the
/// reason is quoted as the standard library's `Debug` formatting quotes a
/// string.
pub open spec fn failure_line(failure: DeleteFailureView) -> Seq<char> {
    failure_line_text(
        failure.key,
        match failure.message {
            Some(message) => Some(debug_text_of_str(message)),
            None => None,
        },
    )
}

/// Appends to `report` the line for an object that could not be deleted,
/// from its key and from the reason in quotes, as far as they are known.
pub fn push_failure_line(report: &mut String, key: Option<&str>, quoted_message: Option<&str>)
    ensures
        final(report)@ == old(report)@ + failure_line_text(
            match key {
                Some(k) => Some(k@),
                None => None,
            },
            match quoted_message {
                Some(q) => Some(q@),
                None => None,
            },
        ),
{
    report.append("Error deleting ");
    match key {
        Some(key) => report.append(key),
        None => report.append("unknown"),
    }
    report.append(": ");
    match quoted_message {
        Some(quoted) => {
            report.append("Some(");
            report.append(quoted);
            report.append(")");
        },
        None => report.append("None"),
    }
    assert(report@ =~= old(report)@ + failure_line_text(
        match key {
            Some(k) => Some(k@),
            None => None,
        },
        match quoted_message {
            Some(q) => Some(q@),
            None => None,
        },
    ));
}

/// The report for the objects that could not be deleted: their lines, one
/// behind the other.
pub open spec fn failure_report(failures: Seq<DeleteFailureView>) -> Seq<char>
    decreases failures.len(),
{
    if failures.len() == 0 {
        Seq::<char>::empty()
    } else {
        failure_report(failures.drop_last()) + failure_line(failures.last())
    }
}

/// The report for the objects of a page that could not be deleted, or
/// `None` where all were.
pub fn deletion_failure(failures: &Vec<DeleteFailure>) -> (report: Option<String>)
    ensures
        match report {
            Some(text) => failures@.len() > 0 && text@ == failure_report(
                failures@.map_values(|f: DeleteFailure| f@),
            ),
            None => failures@.len() == 0,
        },
{
    if failures.is_empty() {
        return None;
    }
    let ghost all = failures@.map_values(|f: DeleteFailure| f@);
    let mut message = String::new();
    let mut i: usize = 0;
    while i < failures.len()
        invariant
            i <= failures.len(),
            all == failures@.map_values(|f: DeleteFailure| f@),
            message@ == failure_report(all.take(i as int)),
        decreases failures.len() - i,
    {
        let ghost before = message@;
        let failure = &failures[i];
        let key: Option<&str> = match &failure.key {
            Some(key) => Some(key.as_str()),
            None => None,
        };
        match &failure.message {
            Some(text) => {
                let quoted = debug_str(text.as_str());
                push_failure_line(&mut message, key, Some(quoted.as_str()));
            },
            None => push_failure_line(&mut message, key, None),
        }
        proof {
            assert(all.take(i + 1).drop_last() =~= all.take(i as int));
            assert(all.take(i + 1).last() == failure@);
            assert(message@ =~= before + failure_line(failure@));
        }
        i += 1;
    }
    assert(all.take(i as int) =~= all);
    Some(message)
}

} // verus!
