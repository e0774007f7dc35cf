use vstd::prelude::*;

verus! {

/// The parts of a path as `std::path::Path::components` reads them from its text.
pub uninterp spec fn path_components(s: Seq<char>) -> Seq<Seq<char>>;

/// The text of each string in `v`.
pub open spec fn views_of(v: Seq<String>) -> Seq<Seq<char>> {
    v.map_values(|c: String| c@)
}

/// Relies on std::path::Path::components: the parts of a path, which depend on
/// its text alone (on Unix the root part reads `/`).
#[verifier::external_body]
fn components_of(s: &str) -> (r: Vec<String>)
    ensures
        views_of(r@) == path_components(s@),
{
    std::path::Path::new(s).components().map(|c| c.as_os_str().to_string_lossy().into_owned()).collect()
}

/// A path of the board's tree, held as the sequence of its parts. Two paths
/// are the same path exactly when their parts are equal.
#[derive(Debug, Clone)]
pub struct Location {
    pub parts: Vec<String>,
}

impl View for Location {
    type V = Seq<Seq<char>>;

    open spec fn view(&self) -> Seq<Seq<char>> {
        views_of(self.parts@)
    }
}

/// A path whose first part is the root (Unix paths).
pub open spec fn is_absolute(p: Seq<Seq<char>>) -> bool {
    p.len() > 0 && p[0] == seq!['/']
}

/// The path that pushing `more` onto `base` gives: an absolute `more`
/// replaces `base`, a relative one is appended to it.
pub open spec fn pushed(base: Seq<Seq<char>>, more: Seq<Seq<char>>) -> Seq<Seq<char>> {
    if is_absolute(more) {
        more
    } else {
        base + more
    }
}

fn is_root_part(p: &String) -> (r: bool)
    ensures
        r == (p@ == seq!['/']),
{
    let root = "/".to_owned();
    proof {
        reveal_strlit("/");
    }
    assert(root@ =~= seq!['/']);
    p.eq(&root)
}

impl Location {
    /// The empty path.
    pub fn empty() -> (r: Location)
        ensures
            r@ == Seq::<Seq<char>>::empty(),
    {
        let r = Location { parts: Vec::new() };
        assert(r@ =~= Seq::<Seq<char>>::empty());
        r
    }

    /// The path that `s` spells.
    pub fn parse(s: &str) -> (r: Location)
        ensures
            r@ == path_components(s@),
    {
        Location { parts: components_of(s) }
    }

    /// The path made of the one part `s`.
    pub fn single(s: &str) -> (r: Location)
        ensures
            r@ == seq![s@],
    {
        let mut parts: Vec<String> = Vec::new();
        parts.push(s.to_owned());
        let r = Location { parts };
        assert(r@ =~= seq![s@]);
        r
    }

    /// Appends each part of `more` in turn.
    fn append_parts(&mut self, more: &Vec<String>)
        ensures
            final(self)@ == old(self)@ + views_of(more@),
    {
        let ghost start = self@;
        let mut i: usize = 0;
        while i < more.len()
            invariant
                i <= more.len(),
                self@ == start + views_of(more@.take(i as int)),
            decreases more.len() - i,
        {
            let ghost before = self.parts@;
            self.parts.push(more[i].clone());
            assert(more@.take(i + 1) =~= more@.take(i as int).push(more@[i as int]));
            assert(views_of(self.parts@) =~= views_of(before) + seq![more@[i as int]@]);
            i = i + 1;
            assert(self@ =~= start + views_of(more@.take(i as int)));
        }
        assert(more@.take(i as int) =~= more@);
    }

    /// A copy of this path.
    pub fn duplicate(&self) -> (r: Location)
        ensures
            r@ == self@,
    {
        let mut r = Location::empty();
        r.append_parts(&self.parts);
        assert(r@ =~= self@);
        r
    }

    /// Pushes the path `s` onto this one, as `PathBuf::push` does.
    pub fn push(&mut self, s: &str)
        ensures
            final(self)@ == pushed(old(self)@, path_components(s@)),
    {
        let more = components_of(s);
        if more.len() > 0 && is_root_part(&more[0]) {
            self.parts = more;
        } else {
            self.append_parts(&more);
        }
    }

    /// This path with `s` pushed onto it.
    pub fn join(&self, s: &str) -> (r: Location)
        ensures
            r@ == pushed(self@, path_components(s@)),
    {
        let mut r = self.duplicate();
        r.push(s);
        r
    }

    /// Whether the two paths are the same path.
    pub fn same_as(&self, other: &Location) -> (r: bool)
        ensures
            r == (self@ == other@),
    {
        if self.parts.len() != other.parts.len() {
            assert(self@.len() != other@.len());
            return false;
        }
        let mut i: usize = 0;
        while i < self.parts.len()
            invariant
                i <= self.parts.len(),
                self.parts.len() == other.parts.len(),
                forall|j: int| 0 <= j < i ==> #[trigger] self@[j] == other@[j],
            decreases self.parts.len() - i,
        {
            if self.parts[i] != other.parts[i] {
                assert(self@[i as int] != other@[i as int]);
                return false;
            }
            i = i + 1;
        }
        assert(self@ =~= other@);
        true
    }

    /// The last part of the path, if it has one.
    pub fn file_name(&self) -> (r: Option<String>)
        ensures
            r is None <==> self@.len() == 0,
            r is Some ==> r->0@ == self@.last(),
    {
        if self.parts.len() == 0 {
            None
        } else {
            Some(self.parts[self.parts.len() - 1].clone())
        }
    }

    /// The path without its last part, if it has one.
    pub fn parent(&self) -> (r: Option<Location>)
        ensures
            r is None <==> self@.len() == 0,
            r is Some ==> r->0@ == self@.drop_last(),
    {
        if self.parts.len() == 0 {
            None
        } else {
            let mut parts: Vec<String> = Vec::new();
            let mut i: usize = 0;
            while i + 1 < self.parts.len()
                invariant
                    i < self.parts.len(),
                    views_of(parts@) == self@.take(i as int),
                decreases self.parts.len() - i,
            {
                let ghost before = parts@;
                parts.push(self.parts[i].clone());
                assert(views_of(parts@) =~= views_of(before).push(self@[i as int]));
                assert(self@.take(i + 1) =~= self@.take(i as int).push(self@[i as int]));
                i = i + 1;
                assert(views_of(parts@) =~= self@.take(i as int));
            }
            let r = Location { parts };
            assert(r@ =~= self@.drop_last());
            Some(r)
        }
    }
}

} // verus!
