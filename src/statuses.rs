use vstd::prelude::*;

use crate::errors::IssueError;
use crate::listing::{file_children, file_names, paths_of, Entry};
use crate::paths::{views_of, Location};

verus! {

/// Where an issue stands, recorded as an empty file of that name in its directory.
#[derive(Debug, Clone, Copy, PartialEq, Eq, Structural)]
pub enum Status {
    /// Issue must be done and is waiting to begin
    Todo,
    /// Issue is in execution
    Doing,
}

/// The file name that records a status.
pub open spec fn status_name(s: Status) -> Seq<char> {
    match s {
        Status::Todo => "Todo"@,
        Status::Doing => "Doing"@,
    }
}

/// The vocabulary in declaration order.
pub open spec fn vocabulary() -> Seq<Status> {
    seq![Status::Todo, Status::Doing]
}

/// The status that a marker file name records, if any.
pub open spec fn parse_status(n: Seq<char>) -> Option<Status> {
    if n == status_name(Status::Todo) {
        Some(Status::Todo)
    } else if n == status_name(Status::Doing) {
        Some(Status::Doing)
    } else {
        None
    }
}

/// What a directory whose files are named `files` says of its issue's status:
/// `Ok(None)` for no marker, the marker's status for one, an error otherwise.
pub open spec fn status_of_files(files: Seq<Seq<char>>) -> Result<Option<Status>, ()> {
    if files.len() == 0 {
        Ok(None)
    } else if files.len() == 1 && parse_status(files[0]) is Some {
        Ok(Some(parse_status(files[0])->0))
    } else {
        Err(())
    }
}

impl Status {
    /// Every status, in declaration order.
    pub fn all() -> (r: Vec<Status>)
        ensures
            r@ == vocabulary(),
    {
        let r = vec![Status::Todo, Status::Doing];
        assert(r@ =~= vocabulary());
        r
    }

    /// The file name that records this status.
    pub fn name(&self) -> (r: String)
        ensures
            r@ == status_name(*self),
    {
        match self {
            Status::Todo => "Todo".to_owned(),
            Status::Doing => "Doing".to_owned(),
        }
    }

    /// The status that the marker file name `s` records, if any.
    pub fn parse(s: &String) -> (r: Option<Status>)
        ensures
            r == parse_status(s@),
    {
        if *s == Status::Todo.name() {
            Some(Status::Todo)
        } else if *s == Status::Doing.name() {
            Some(Status::Doing)
        } else {
            None
        }
    }

    /// The names of the whole vocabulary, in declaration order.
    pub fn names() -> (r: Vec<String>)
        ensures
            views_of(r@) == vocabulary().map_values(|s: Status| status_name(s)),
    {
        let r = vec![Status::Todo.name(), Status::Doing.name()];
        assert(views_of(r@) =~= vocabulary().map_values(|s: Status| status_name(s)));
        r
    }

    /// The status of the issue directory `path`, where `entries` lists it.
    /// Only files count; no marker gives `None`, more than one is an error.
    pub fn status_from_files(path: &Location, entries: &Vec<Entry>) -> (r: Result<Option<Status>, IssueError>)
        ensures
            status_of_files(file_names(entries@)) is Ok <==> r is Ok,
            r is Ok ==> r->Ok_0 == status_of_files(file_names(entries@))->Ok_0,
            file_names(entries@).len() == 1 && parse_status(file_names(entries@)[0]) is None ==> (
            match r {
                Err(IssueError::InvalidStatus { found, allowed }) => found@ == file_names(entries@)[0]
                    && views_of(allowed@) == vocabulary().map_values(|s: Status| status_name(s)),
                _ => false,
            }),
            file_names(entries@).len() > 1 ==> (match r {
                Err(IssueError::MultipleStatusMarkers { found }) => views_of(found@) == file_names(
                    entries@,
                ),
                _ => false,
            }),
    {
        let files = file_children(path, entries);
        let ghost names = file_names(entries@);
        assert(paths_of(files@).len() == files@.len());
        assert(files@.len() == names.len());
        if files.len() == 0 {
            Ok(None)
        } else if files.len() == 1 {
            assert(paths_of(files@)[0] == path@.push(names[0]));
            let found = files[0].file_name().unwrap();
            assert(found@ == names[0]);
            match Status::parse(&found) {
                Some(s) => Ok(Some(s)),
                None => Err(IssueError::InvalidStatus { found, allowed: Status::names() }),
            }
        } else {
            let mut found: Vec<String> = Vec::new();
            let mut i: usize = 0;
            while i < files.len()
                invariant
                    i <= files.len(),
                    paths_of(files@) == crate::listing::children(path@, names),
                    files@.len() == names.len(),
                    views_of(found@) == names.take(i as int),
                decreases files.len() - i,
            {
                assert(paths_of(files@)[i as int] == path@.push(names[i as int]));
                let n = files[i].file_name().unwrap();
                let ghost before = found@;
                found.push(n);
                assert(views_of(found@) =~= views_of(before).push(names[i as int]));
                assert(names.take(i + 1) =~= names.take(i as int).push(names[i as int]));
                i = i + 1;
            }
            assert(names.take(i as int) =~= names);
            Err(IssueError::MultipleStatusMarkers { found })
        }
    }
}

} // verus!
