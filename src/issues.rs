use vstd::prelude::*;

use crate::errors::IssueError;
use crate::listing::{all_child_dirs, child_of, paths_of, traverse_dirs, Entry};
use crate::paths::{path_components, Location};

verus! {

/// An issue as a name and the path of its directory.
pub type IssueRecord = (Seq<char>, Seq<Seq<char>>);

/// No two records share a name.
pub open spec fn names_distinct(s: Seq<IssueRecord>) -> bool {
    forall|i: int, j: int| 0 <= i < j < s.len() ==> s[i].0 != s[j].0
}

/// The index that inserting the records in order builds: name to path.
pub open spec fn index_of(s: Seq<IssueRecord>) -> Map<Seq<char>, Seq<Seq<char>>>
    decreases s.len(),
{
    if s.len() == 0 {
        Map::empty()
    } else {
        index_of(s.drop_last()).insert(s.last().0, s.last().1)
    }
}

/// The record of each issue directory: its last part names it.
pub open spec fn records_of(dirs: Seq<Seq<Seq<char>>>) -> Seq<IssueRecord> {
    dirs.map_values(|d: Seq<Seq<char>>| (d.last(), d))
}

/// The paths of the stage directories, in board order.
pub open spec fn stage_paths() -> Seq<Seq<Seq<char>>> {
    seq![
        seq!["_0_backlog"@],
        seq!["_1_todo"@],
        seq!["_2_doing"@],
        seq!["_3_staging"@],
        seq!["_4_closed"@],
    ]
}

/// The issue directories that a listing of each stage in board order reveals.
pub open spec fn issue_dirs(listings: Seq<Vec<Entry>>) -> Seq<Seq<Seq<char>>> {
    all_child_dirs(stage_paths(), listings)
}

/// The issue that the text `s`, read as the path `p`, designates in the
/// index `idx`: the issue named `s`, or else the issue at `p` when the parent
/// of `p` is a stage and the index records the issue at exactly `p`.
pub open spec fn resolve_at(
    idx: Map<Seq<char>, Seq<Seq<char>>>,
    s: Seq<char>,
    p: Seq<Seq<char>>,
) -> Option<IssueRecord> {
    if idx.contains_key(s) {
        Some((s, idx[s]))
    } else if p.len() > 0 && idx.contains_key(p.last()) && stage_paths().contains(p.drop_last())
        && idx[p.last()] == p {
        Some((p.last(), p))
    } else {
        None
    }
}

/// The issue that the text `s` designates in the index `idx`, with `s` read
/// as a path the way `std::path::Path` reads it.
pub open spec fn resolve(idx: Map<Seq<char>, Seq<Seq<char>>>, s: Seq<char>) -> Option<IssueRecord> {
    resolve_at(idx, s, path_components(s))
}

/// `s` names no issue, and its path `p` leads to a known name from a parent
/// that is not a stage.
pub open spec fn outside_stages_at(
    idx: Map<Seq<char>, Seq<Seq<char>>>,
    s: Seq<char>,
    p: Seq<Seq<char>>,
) -> bool {
    !idx.contains_key(s) && p.len() > 0 && idx.contains_key(p.last()) && !stage_paths().contains(
        p.drop_last(),
    )
}

/// `outside_stages_at` with `s` read as a path the way `std::path::Path` reads it.
pub open spec fn outside_stages(idx: Map<Seq<char>, Seq<Seq<char>>>, s: Seq<char>) -> bool {
    outside_stages_at(idx, s, path_components(s))
}

/// The stages that a run of `ensure` creates, where `present[k]` tells
/// whether `dirs[k]` is already there.
pub open spec fn missing_stages(dirs: Seq<Seq<Seq<char>>>, present: Seq<bool>) -> Seq<Seq<Seq<char>>>
    decreases dirs.len(),
{
    if dirs.len() == 0 || present.len() == 0 {
        Seq::empty()
    } else {
        let rest = missing_stages(dirs.drop_last(), present.drop_last());
        if present.last() {
            rest
        } else {
            rest.push(dirs.last())
        }
    }
}

/// Which stages are there after a run of `ensure`.
pub open spec fn after_ensure(dirs: Seq<Seq<Seq<char>>>, present: Seq<bool>) -> Seq<bool> {
    Seq::new(present.len(), |k: int| present[k] || missing_stages(dirs, present).contains(dirs[k]))
}

proof fn lemma_index_domain(s: Seq<IssueRecord>, n: Seq<char>)
    ensures
        index_of(s).contains_key(n) <==> exists|i: int| 0 <= i < s.len() && #[trigger] s[i].0 == n,
    decreases s.len(),
{
    if s.len() > 0 {
        lemma_index_domain(s.drop_last(), n);
        if index_of(s.drop_last()).contains_key(n) {
            let i = choose|i: int| 0 <= i < s.drop_last().len() && #[trigger] s.drop_last()[i].0 == n;
            assert(s[i].0 == n);
        }
        if exists|i: int| 0 <= i < s.len() && #[trigger] s[i].0 == n {
            let i = choose|i: int| 0 <= i < s.len() && #[trigger] s[i].0 == n;
            if i < s.len() - 1 {
                assert(s.drop_last()[i].0 == n);
            }
        }
    }
}

proof fn lemma_index_finite(s: Seq<IssueRecord>)
    ensures
        index_of(s).dom().finite(),
    decreases s.len(),
{
    if s.len() > 0 {
        lemma_index_finite(s.drop_last());
    }
}

proof fn lemma_index_at(s: Seq<IssueRecord>, i: int)
    requires
        names_distinct(s),
        0 <= i < s.len(),
    ensures
        index_of(s).contains_key(s[i].0),
        index_of(s)[s[i].0] == s[i].1,
    decreases s.len(),
{
    if i < s.len() - 1 {
        assert(names_distinct(s.drop_last()));
        assert(s.drop_last()[i] == s[i]);
        lemma_index_at(s.drop_last(), i);
    }
}

/// An issue: its name and the directory that holds it.
#[derive(Debug, Clone)]
pub struct Issue {
    pub name: String,
    pub path: Location,
}

impl View for Issue {
    type V = IssueRecord;

    open spec fn view(&self) -> IssueRecord {
        (self.name@, self.path@)
    }
}

/// The record of each issue.
pub open spec fn issue_records(v: Seq<Issue>) -> Seq<IssueRecord> {
    v.map_values(|i: Issue| i@)
}

impl Issue {
    pub fn new(name: String, path: Location) -> (r: Issue)
        ensures
            r@ == (name@, path@),
    {
        Issue { name, path }
    }

    /// A copy of this issue.
    pub fn duplicate(&self) -> (r: Issue)
        ensures
            r@ == self@,
    {
        Issue { name: self.name.clone(), path: self.path.duplicate() }
    }

    /// The name of the document that describes an issue.
    pub fn description_name() -> (r: String)
        ensures
            r@ == "description.md"@,
    {
        "description.md".to_owned()
    }

    /// The first line of the description of an issue titled `title`.
    pub fn heading(title: &str) -> (r: String)
        ensures
            r@ == "# "@ + title@,
    {
        let h = "# ".to_owned();
        h.concat(title)
    }

    /// The issue that `s` designates in `issues`, where `path` is `s` read
    /// as a path: `s` as a name, or else `path` when it lies directly under a
    /// stage and is where the issue of its last part is recorded.
    pub fn resolve_path(issues: &Issues, s: &str, path: &Location) -> (r: Result<Issue, IssueError>)
        requires
            issues.wf(),
        ensures
            r is Ok <==> resolve_at(issues@, s@, path@) is Some,
            r is Ok ==> r->Ok_0@ == resolve_at(issues@, s@, path@)->0,
            outside_stages_at(issues@, s@, path@) ==> (match r {
                Err(IssueError::InvalidStage { path: p }) => p@ == path@.drop_last(),
                _ => false,
            }),
            resolve_at(issues@, s@, path@) is None && !outside_stages_at(issues@, s@, path@) ==> (
            match r {
                Err(IssueError::NoMatch { input }) => input@ == s@,
                _ => false,
            }),
    {
        let key = s.to_owned();
        match issues.get(&key) {
            Some(i) => {
                return Ok(i);
            },
            None => {},
        }
        match path.file_name() {
            Some(name) => {
                match issues.get(&name) {
                    Some(i) => {
                        let parent = path.parent().unwrap();
                        let stages = KanbanDirs::new();
                        match stages.is_kanban(&parent) {
                            Ok(()) => {},
                            Err(e) => {
                                return Err(e);
                            },
                        }
                        if path.same_as(&i.path) {
                            return Ok(i);
                        }
                    },
                    None => {},
                }
            },
            None => {},
        }
        Err(IssueError::NoMatch { input: key })
    }

    /// The issue that `s` designates in `issues`: `s` read as a name, or else
    /// as a path directly under a stage that leads to the issue of its last part.
    pub fn get_from_str(issues: &Issues, s: &str) -> (r: Result<Issue, IssueError>)
        requires
            issues.wf(),
        ensures
            r is Ok <==> resolve(issues@, s@) is Some,
            r is Ok ==> r->Ok_0@ == resolve(issues@, s@)->0,
            outside_stages(issues@, s@) ==> (match r {
                Err(IssueError::InvalidStage { path }) => path@ == path_components(s@).drop_last(),
                _ => false,
            }),
            resolve(issues@, s@) is None && !outside_stages(issues@, s@) ==> (match r {
                Err(IssueError::NoMatch { input }) => input@ == s@,
                _ => false,
            }),
    {
        let path = Location::parse(s);
        Issue::resolve_path(issues, s, &path)
    }
}

/// The index of the board: every issue by name, names unique.
#[derive(Debug)]
pub struct Issues {
    items: Vec<Issue>,
}

impl View for Issues {
    type V = Map<Seq<char>, Seq<Seq<char>>>;

    closed spec fn view(&self) -> Map<Seq<char>, Seq<Seq<char>>> {
        index_of(issue_records(self.items@))
    }
}

impl Issues {
    /// The items hold each name once.
    pub closed spec fn wf(&self) -> bool {
        names_distinct(issue_records(self.items@))
    }

    /// The empty index.
    pub fn new() -> (r: Issues)
        ensures
            r.wf(),
            r@ == Map::<Seq<char>, Seq<Seq<char>>>::empty(),
            r@.dom().finite(),
    {
        let r = Issues { items: Vec::new() };
        assert(issue_records(r.items@) =~= Seq::<IssueRecord>::empty());
        assert(r@ =~= Map::<Seq<char>, Seq<Seq<char>>>::empty());
        r
    }

    /// Where in the items the issue named `name` stands.
    fn find(&self, name: &String) -> (r: Option<usize>)
        requires
            self.wf(),
        ensures
            r is None <==> !self@.contains_key(name@),
            r is Some ==> r->0 < self.items@.len() && self.items@[r->0 as int].name@ == name@
                && self@[name@] == self.items@[r->0 as int].path@,
    {
        let ghost recs = issue_records(self.items@);
        let mut i: usize = 0;
        while i < self.items.len()
            invariant
                i <= self.items.len(),
                recs == issue_records(self.items@),
                names_distinct(recs),
                forall|j: int| 0 <= j < i ==> #[trigger] recs[j].0 != name@,
            decreases self.items.len() - i,
        {
            if self.items[i].name == *name {
                proof {
                    lemma_index_at(recs, i as int);
                }
                return Some(i);
            }
            i = i + 1;
        }
        proof {
            lemma_index_domain(recs, name@);
        }
        None
    }

    /// The issue named `name`, if the index holds one.
    pub fn get(&self, name: &String) -> (r: Option<Issue>)
        requires
            self.wf(),
        ensures
            r is Some <==> self@.contains_key(name@),
            r is Some ==> r->0@ == (name@, self@[name@]),
    {
        match self.find(name) {
            Some(i) => Some(self.items[i].duplicate()),
            None => None,
        }
    }

    /// Fails when an issue of the same name is already indexed, naming that
    /// issue and its recorded location.
    pub fn already_exists(&self, issue: &Issue) -> (r: Result<(), IssueError>)
        requires
            self.wf(),
        ensures
            r is Ok <==> !self@.contains_key(issue.name@),
            r is Err ==> (match r {
                Err(IssueError::AlreadyExists { name, path }) => name@ == issue.name@ && path@
                    == self@[issue.name@],
                _ => false,
            }),
    {
        match self.find(&issue.name) {
            Some(i) => Err(
                IssueError::AlreadyExists {
                    name: issue.name.clone(),
                    path: self.items[i].path.duplicate(),
                },
            ),
            None => Ok(()),
        }
    }

    /// Indexes `issue`, unless its name is taken: then the index is left as it was.
    pub fn add(&mut self, issue: Issue) -> (r: Result<(), IssueError>)
        requires
            old(self).wf(),
        ensures
            final(self).wf(),
            final(self)@.dom().finite(),
            r is Ok <==> !old(self)@.contains_key(issue.name@),
            r is Ok ==> final(self)@ == old(self)@.insert(issue.name@, issue.path@),
            r is Err ==> final(self)@ == old(self)@ && (match r {
                Err(IssueError::AlreadyExists { name, path }) => name@ == issue.name@ && path@
                    == old(self)@[issue.name@],
                _ => false,
            }),
    {
        proof {
            lemma_index_finite(issue_records(self.items@));
        }
        match self.already_exists(&issue) {
            Err(e) => Err(e),
            Ok(()) => {
                let ghost recs = issue_records(self.items@);
                proof {
                    lemma_index_domain(recs, issue.name@);
                }
                self.items.push(issue);
                let ghost next = issue_records(self.items@);
                assert(next.drop_last() =~= recs);
                proof {
                    lemma_index_finite(next);
                }
                assert forall|i: int, j: int| 0 <= i < j < next.len() implies next[i].0
                    != next[j].0 by {
                    assert(next[i] == recs[i]);
                    if j == recs.len() {
                        assert(next[j].0 == issue.name@);
                        assert(recs[i].0 != issue.name@);
                    } else {
                        assert(next[j] == recs[j]);
                    }
                }
                Ok(())
            },
        }
    }

    /// Records a new issue named `name` in the todo stage, unless the name is
    /// taken: then the index is left as it was.
    pub fn create(&mut self, name: String) -> (r: Result<Issue, IssueError>)
        requires
            old(self).wf(),
        ensures
            final(self).wf(),
            final(self)@.dom().finite(),
            r is Ok <==> !old(self)@.contains_key(name@),
            r is Ok ==> r->Ok_0@ == (name@, stage_paths()[1].push(name@)) && final(self)@ == old(
                self,
            )@.insert(name@, stage_paths()[1].push(name@)),
            r is Err ==> final(self)@ == old(self)@ && (match r {
                Err(IssueError::AlreadyExists { name: n, path }) => n@ == name@ && path@ == old(
                    self,
                )@[name@],
                _ => false,
            }),
    {
        let stages = KanbanDirs::new();
        let path = child_of(&stages.todo, &name);
        let issue = Issue::new(name.clone(), path.duplicate());
        match self.add(issue) {
            Ok(()) => Ok(Issue::new(name, path)),
            Err(e) => Err(e),
        }
    }

    /// Builds the index from a listing of each stage directory, in board
    /// order: every child directory of a stage is an issue named by its last
    /// part. A name met twice fails, naming the location met first.
    pub fn get_all(listings: &Vec<Vec<Entry>>) -> (r: Result<Issues, IssueError>)
        requires
            listings@.len() == stage_paths().len(),
        ensures
            r is Ok <==> names_distinct(records_of(issue_dirs(listings@))),
            r is Ok ==> r->Ok_0.wf() && r->Ok_0@ == index_of(records_of(issue_dirs(listings@)))
                && r->Ok_0@.dom().finite(),
            r is Err ==> (match r {
                Err(IssueError::AlreadyExists { name, path }) => exists|k: int|
                    0 <= k < issue_dirs(listings@).len() && names_distinct(
                        #[trigger] records_of(issue_dirs(listings@).take(k)),
                    ) && name@ == issue_dirs(listings@)[k].last() && index_of(
                        records_of(issue_dirs(listings@).take(k)),
                    ).contains_key(name@) && path@ == index_of(
                        records_of(issue_dirs(listings@).take(k)),
                    )[name@],
                _ => false,
            }),
    {
        let stages = KanbanDirs::new().as_vec();
        let dirs = traverse_dirs(&stages, listings);
        let ghost d = issue_dirs(listings@);
        assert(paths_of(dirs@) == d);
        let mut issues = Issues::new();
        let mut k: usize = 0;
        assert(records_of(d.take(0)) =~= Seq::<IssueRecord>::empty());
        while k < dirs.len()
            invariant
                k <= dirs.len(),
                paths_of(dirs@) == d,
                d == issue_dirs(listings@),
                issues.wf(),
                names_distinct(records_of(d.take(k as int))),
                issues@ == index_of(records_of(d.take(k as int))),
            decreases dirs.len() - k,
        {
            assert(dirs@[k as int]@ == d[k as int]);
            assert(dirs@.len() == d.len());
            proof {
                lemma_child_dirs_named(stage_paths(), listings@, k as int);
            }
            let name = dirs[k].file_name().unwrap();
            let ghost before = issues@;
            let ghost recs = records_of(d.take(k as int));
            let ghost next = records_of(d.take(k + 1));
            assert(next =~= recs.push((d[k as int].last(), d[k as int])));
            assert(next.drop_last() =~= recs);
            match issues.add(Issue::new(name, dirs[k].duplicate())) {
                Ok(()) => {
                    proof {
                        lemma_index_domain(recs, d[k as int].last());
                        assert forall|i: int, j: int| 0 <= i < j < next.len() implies next[i].0
                            != next[j].0 by {
                            if j == k {
                                assert(recs[i].0 == next[i].0);
                            } else {
                                assert(recs[i] == next[i] && recs[j] == next[j]);
                            }
                        }
                    }
                },
                Err(e) => {
                    proof {
                        lemma_index_domain(recs, d[k as int].last());
                        let i = choose|i: int| 0 <= i < recs.len() && #[trigger] recs[i].0
                            == d[k as int].last();
                        assert(records_of(d)[i].0 == records_of(d)[k as int].0);
                    }
                    return Err(e);
                },
            }
            k = k + 1;
        }
        assert(d.take(k as int) =~= d);
        proof {
            lemma_index_finite(records_of(d));
        }
        Ok(issues)
    }
}

proof fn lemma_child_dirs_named(dirs: Seq<Seq<Seq<char>>>, listings: Seq<Vec<Entry>>, k: int)
    requires
        0 <= k < all_child_dirs(dirs, listings).len(),
    ensures
        all_child_dirs(dirs, listings)[k].len() > 0,
    decreases dirs.len(),
{
    if dirs.len() > 0 && listings.len() > 0 {
        let front = all_child_dirs(dirs.drop_last(), listings.drop_last());
        if k < front.len() {
            lemma_child_dirs_named(dirs.drop_last(), listings.drop_last(), k);
        } else {
            let tail = crate::listing::children(dirs.last(), crate::listing::dir_names(listings.last()@));
            assert(all_child_dirs(dirs, listings) == front + tail);
            assert(all_child_dirs(dirs, listings)[k] == tail[k - front.len()]);
        }
    }
}

/// Two issues of different names that a listing of the stages reveals are
/// both in the index that the listing builds, each at its own directory, and
/// their directories differ.
pub proof fn law_distinct_issues_both_indexed(listings: Seq<Vec<Entry>>, i: int, j: int)
    requires
        names_distinct(records_of(issue_dirs(listings))),
        0 <= i < j < issue_dirs(listings).len(),
    ensures
        ({
            let d = issue_dirs(listings);
            let idx = index_of(records_of(d));
            &&& idx.contains_key(d[i].last())
            &&& idx[d[i].last()] == d[i]
            &&& idx.contains_key(d[j].last())
            &&& idx[d[j].last()] == d[j]
            &&& d[i] != d[j]
        }),
{
    let d = issue_dirs(listings);
    let recs = records_of(d);
    lemma_index_at(recs, i);
    lemma_index_at(recs, j);
    assert(recs[i].0 != recs[j].0);
}

/// A freshly created issue, in the directory `n` of the stage `stage`, is
/// the same issue whether it is asked for by its name or by its path: by
/// any text `t` that is no name in the index and reads as that path.
pub proof fn law_name_and_path_resolve_alike(
    idx: Map<Seq<char>, Seq<Seq<char>>>,
    n: Seq<char>,
    stage: Seq<Seq<char>>,
    t: Seq<char>,
    q: Seq<Seq<char>>,
)
    requires
        stage_paths().contains(stage),
        idx.contains_key(n),
        idx[n] == stage.push(n),
        !idx.contains_key(t),
    ensures
        resolve_at(idx, n, q) == Some((n, stage.push(n))),
        resolve_at(idx, t, stage.push(n)) == resolve_at(idx, n, q),
{
    assert(stage.push(n).drop_last() =~= stage);
}

/// A text that is no name in the index and reads as a path whose parent is
/// not a stage designates no issue, whatever issue of the same last part the
/// index holds elsewhere.
pub proof fn law_path_outside_stages_unresolved(
    idx: Map<Seq<char>, Seq<Seq<char>>>,
    t: Seq<char>,
    p: Seq<Seq<char>>,
)
    requires
        p.len() > 0,
        !stage_paths().contains(p.drop_last()),
        !idx.contains_key(t),
    ensures
        resolve_at(idx, t, p) is None,
{
}

proof fn lemma_missing_includes(dirs: Seq<Seq<Seq<char>>>, present: Seq<bool>, k: int)
    requires
        dirs.len() == present.len(),
        0 <= k < dirs.len(),
        !present[k],
    ensures
        missing_stages(dirs, present).contains(dirs[k]),
    decreases dirs.len(),
{
    let rest = missing_stages(dirs.drop_last(), present.drop_last());
    if k == dirs.len() - 1 {
        assert(missing_stages(dirs, present)[rest.len() as int] == dirs[k]);
    } else {
        lemma_missing_includes(dirs.drop_last(), present.drop_last(), k);
        let w = choose|w: int| 0 <= w < rest.len() && rest[w] == dirs[k];
        assert(missing_stages(dirs, present)[w] == dirs[k]);
    }
}

proof fn lemma_none_missing(dirs: Seq<Seq<Seq<char>>>, present: Seq<bool>)
    requires
        dirs.len() == present.len(),
        forall|k: int| 0 <= k < present.len() ==> #[trigger] present[k],
    ensures
        missing_stages(dirs, present).len() == 0,
    decreases dirs.len(),
{
    if dirs.len() > 0 {
        assert(present.last());
        lemma_none_missing(dirs.drop_last(), present.drop_last());
    }
}

/// After one run of `ensure` every stage is there, so a second run creates
/// nothing.
pub proof fn law_ensure_idempotent(dirs: Seq<Seq<Seq<char>>>, present: Seq<bool>)
    requires
        dirs.len() == present.len(),
    ensures
        forall|k: int| 0 <= k < dirs.len() ==> #[trigger] after_ensure(dirs, present)[k],
        missing_stages(dirs, after_ensure(dirs, present)).len() == 0,
{
    let after = after_ensure(dirs, present);
    assert forall|k: int| 0 <= k < dirs.len() implies #[trigger] after[k] by {
        if !present[k] {
            lemma_missing_includes(dirs, present, k);
        }
    }
    lemma_none_missing(dirs, after);
}

/// The stage directories of the board.
#[derive(Debug)]
pub struct KanbanDirs {
    pub backlog: Location,
    pub todo: Location,
    pub doing: Location,
    pub staging: Location,
    pub closed: Location,
}

impl View for KanbanDirs {
    type V = Seq<Seq<Seq<char>>>;

    open spec fn view(&self) -> Seq<Seq<Seq<char>>> {
        seq![self.backlog@, self.todo@, self.doing@, self.staging@, self.closed@]
    }
}

impl KanbanDirs {
    /// The stage directories of the board, in board order.
    pub fn new() -> (r: KanbanDirs)
        ensures
            r@ == stage_paths(),
    {
        KanbanDirs {
            backlog: Location::single("_0_backlog"),
            todo: Location::single("_1_todo"),
            doing: Location::single("_2_doing"),
            staging: Location::single("_3_staging"),
            closed: Location::single("_4_closed"),
        }
    }

    /// The name of the marker file that an empty stage directory holds.
    pub fn marker_name() -> (r: String)
        ensures
            r@ == ".kanban"@,
    {
        ".kanban".to_owned()
    }

    /// The stage directories, in board order.
    pub fn as_vec(&self) -> (r: Vec<Location>)
        ensures
            paths_of(r@) == self@,
    {
        let r = vec![
            self.backlog.duplicate(),
            self.todo.duplicate(),
            self.doing.duplicate(),
            self.staging.duplicate(),
            self.closed.duplicate(),
        ];
        assert(paths_of(r@) =~= self@);
        r
    }

    /// Fails unless `path` is one of the board's stage directories. The set
    /// of stages is fixed: whatever paths this value holds, only those of
    /// `KanbanDirs::new` count.
    pub fn is_kanban(&self, path: &Location) -> (r: Result<(), IssueError>)
        ensures
            r is Ok <==> stage_paths().contains(path@),
            r is Err ==> (match r {
                Err(IssueError::InvalidStage { path: p }) => p@ == path@,
                _ => false,
            }),
    {
        let dirs = KanbanDirs::new().as_vec();
        let mut i: usize = 0;
        while i < dirs.len()
            invariant
                i <= dirs.len(),
                paths_of(dirs@) == stage_paths(),
                forall|j: int| 0 <= j < i ==> #[trigger] stage_paths()[j] != path@,
            decreases dirs.len() - i,
        {
            if dirs[i].same_as(path) {
                assert(stage_paths()[i as int] == path@);
                return Ok(());
            }
            i = i + 1;
        }
        Err(IssueError::InvalidStage { path: path.duplicate() })
    }

    /// The stage directories that `ensure` must create, in board order, where
    /// `present[k]` tells whether the k-th one is already there.
    pub fn missing(&self, present: &Vec<bool>) -> (r: Vec<Location>)
        requires
            present@.len() == self@.len(),
        ensures
            paths_of(r@) == missing_stages(self@, present@),
    {
        let dirs = self.as_vec();
        let mut r: Vec<Location> = Vec::new();
        let mut k: usize = 0;
        assert(paths_of(r@) =~= missing_stages(self@.take(0), present@.take(0)));
        while k < dirs.len()
            invariant
                k <= dirs.len(),
                paths_of(dirs@) == self@,
                present@.len() == self@.len(),
                paths_of(r@) == missing_stages(self@.take(k as int), present@.take(k as int)),
            decreases dirs.len() - k,
        {
            assert(self@.take(k + 1).drop_last() =~= self@.take(k as int));
            assert(present@.take(k + 1).drop_last() =~= present@.take(k as int));
            if !present[k] {
                let ghost before = r@;
                r.push(dirs[k].duplicate());
                assert(paths_of(r@) =~= paths_of(before).push(self@[k as int]));
            }
            k = k + 1;
        }
        assert(self@.take(k as int) =~= self@);
        assert(present@.take(k as int) =~= present@);
        r
    }
}

} // verus!
