use vstd::prelude::*;

use crate::errors::IssueError;
use crate::listing::paths_of;
use crate::paths::{path_components, pushed, Location};

verus! {

/// Whether the text is a calendar date in `YYYY-MM-DD` form, as chrono reads it.
pub uninterp spec fn is_iso_date(s: Seq<char>) -> bool;

/// Relies on chrono::NaiveDate::parse_from_str with the format `%Y-%m-%d`:
/// whether it accepts the text, which depends on the text alone.
#[verifier::external_body]
fn parses_as_iso_date(s: &str) -> (r: bool)
    ensures
        r == is_iso_date(s@),
{
    chrono::NaiveDate::parse_from_str(s, "%Y-%m-%d").is_ok()
}

/// The text with every letter in lower case, as `str::to_lowercase` gives it.
pub uninterp spec fn lower_of(s: Seq<char>) -> Seq<char>;

/// The slug of the text with the separator `sep`, as `slugify::slugify`
/// gives it with no stop words and no length bound.
pub uninterp spec fn slug_of(s: Seq<char>, sep: Seq<char>) -> Seq<char>;

/// Relies on str::to_lowercase: the result depends on the text alone.
#[verifier::external_body]
fn lowercase(s: &str) -> (r: String)
    ensures
        r@ == lower_of(s@),
{
    s.to_lowercase()
}

/// Relies on slugify::slugify, with no stop words and no length bound: the
/// result depends on the text and the separator alone. The separator is one
/// ASCII character, which the function needs to run without panicking.
#[verifier::external_body]
fn slugify_with(s: &str, sep: &str) -> (r: String)
    requires
        sep@ == "_"@ || sep@ == "-"@,
    ensures
        r@ == slug_of(s@, sep@),
{
    slugify::slugify(s, "", sep, None)
}

/// The root of the board.
pub open spec fn board_root() -> Seq<Seq<char>> {
    seq!["ripi"@]
}

/// The root of the archive of closed items.
pub open spec fn closed_root() -> Seq<Seq<char>> {
    seq!["ripi"@, ".closed"@]
}

/// Succeeds when the directory is a repository.
pub fn check_if_dir_is_repo(is_repo: bool) -> (r: Result<(), IssueError>)
    ensures
        r is Ok <==> is_repo,
        r is Err ==> r matches Err(IssueError::NotARepository),
{
    if is_repo {
        Ok(())
    } else {
        Err(IssueError::NotARepository)
    }
}

/// The repository `repo_name` beside the others in `group_dir`; `is_repo`
/// tells whether that directory is a repository.
pub fn get_valid_repo(group_dir: &Location, repo_name: &str, is_repo: bool) -> (r: Result<Location, IssueError>)
    ensures
        r is Ok <==> is_repo,
        r is Ok ==> r->Ok_0@ == pushed(group_dir@, path_components(repo_name@)),
        r is Err ==> r matches Err(IssueError::NotARepository),
{
    let dir = group_dir.join(repo_name);
    match check_if_dir_is_repo(is_repo) {
        Ok(()) => Ok(dir),
        Err(e) => Err(e),
    }
}

/// The issue directory `issue_id` of `repo`; `is_dir` tells whether that
/// path is a directory.
pub fn get_valid_issue(repo: &Location, issue_id: &str, is_dir: bool) -> (r: Result<Location, IssueError>)
    ensures
        r is Ok <==> is_dir,
        r is Ok ==> r->Ok_0@ == pushed(repo@, path_components(issue_id@)),
        r is Err ==> (match r {
            Err(IssueError::InvalidIssue { path }) => path@ == pushed(repo@, path_components(issue_id@)),
            _ => false,
        }),
{
    let issue = repo.join(issue_id);
    if is_dir {
        Ok(issue)
    } else {
        Err(IssueError::InvalidIssue { path: issue })
    }
}

/// The root of the board.
pub fn sys_base_path() -> (r: Location)
    ensures
        r@ == board_root(),
{
    Location::single("ripi")
}

/// The directory of the items of type `stype`.
pub fn base_path(stype: &str) -> (r: Location)
    ensures
        r@ == pushed(board_root(), path_components(stype@)),
{
    let mut base = sys_base_path();
    base.push(stype);
    base
}

/// The root of the archive of closed items.
pub fn get_closed_dir() -> (r: Location)
    ensures
        r@ == closed_root(),
{
    let base = sys_base_path();
    let r = crate::listing::child_of(&base, &".closed".to_owned());
    assert(r@ =~= closed_root());
    r
}

/// The archive directory of the closed items of type `stype`.
pub fn base_path_closed(stype: &str) -> (r: Location)
    ensures
        r@ == pushed(closed_root(), path_components(stype@)),
{
    let mut closed = get_closed_dir();
    closed.push(stype);
    closed
}

/// Both directories of the items of type `stype`: open, then closed.
pub fn base_path_all(stype: &str) -> (r: Vec<Location>)
    ensures
        paths_of(r@) == seq![
            pushed(board_root(), path_components(stype@)),
            pushed(closed_root(), path_components(stype@)),
        ],
{
    let r = vec![base_path(stype), base_path_closed(stype)];
    assert(paths_of(r@) =~= seq![
        pushed(board_root(), path_components(stype@)),
        pushed(closed_root(), path_components(stype@)),
    ]);
    r
}

/// `arg` itself, unless it is empty.
pub fn is_not_empty(arg: &str) -> (r: Result<String, IssueError>)
    ensures
        r is Ok <==> arg@.len() > 0,
        r is Ok ==> r->Ok_0@ == arg@,
        r is Err ==> r matches Err(IssueError::EmptyName),
{
    if arg.is_empty() {
        Err(IssueError::EmptyName)
    } else {
        Ok(arg.to_owned())
    }
}

/// `arg` itself, if it is a `YYYY-MM-DD` date.
pub fn is_valid_iso_date(arg: &str) -> (r: Result<String, IssueError>)
    ensures
        r is Ok <==> is_iso_date(arg@),
        r is Ok ==> r->Ok_0@ == arg@,
        r is Err ==> (match r {
            Err(IssueError::InvalidDate { input }) => input@ == arg@,
            _ => false,
        }),
{
    if parses_as_iso_date(arg) {
        Ok(arg.to_owned())
    } else {
        Err(IssueError::InvalidDate { input: arg.to_owned() })
    }
}

/// The name of the directory of an issue titled `s`.
pub fn slug(s: &str) -> (r: String)
    ensures
        r@ == slug_of(lower_of(s@), "_"@),
{
    let lower = lowercase(s);
    slugify_with(lower.as_str(), "_")
}

/// The name of a tag written `s`.
pub fn slug_tag(s: &str) -> (r: String)
    ensures
        r@ == slug_of(lower_of(s@), "-"@),
{
    let lower = lowercase(s);
    slugify_with(lower.as_str(), "-")
}

/// The last part of `path`.
pub fn get_file_name(path: &Location) -> (r: String)
    requires
        path@.len() > 0,
    ensures
        r@ == path@.last(),
{
    path.file_name().unwrap()
}

} // verus!
