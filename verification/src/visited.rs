//! The set of compose files already read, which keeps an `include` from
//! reading a file twice (and an include cycle from running forever). A
//! path is kept as the list of its components, each as bytes, so that two
//! spellings of one path (`a//b` and `a/b`) are the same entry.

use vstd::prelude::*;

verus! {

/// A path as plain values: its components.
pub open spec fn path_view(p: Seq<Vec<u8>>) -> Seq<Seq<u8>> {
    p.map_values(|c: Vec<u8>| c@)
}

/// The files read so far.
pub struct VisitedFiles {
    paths: Vec<Vec<Vec<u8>>>,
}

impl View for VisitedFiles {
    type V = Set<Seq<Seq<u8>>>;

    closed spec fn view(&self) -> Set<Seq<Seq<u8>>> {
        Set::new(|q: Seq<Seq<u8>>| exists|i: int| 0 <= i < self.paths@.len() && #[trigger] path_view(self.paths@[i]@) == q)
    }
}

fn bytes_eq(a: &[u8], b: &[u8]) -> (r: bool)
    ensures
        r == (a@ == b@),
{
    if a.len() != b.len() {
        return false;
    }
    let mut i: usize = 0;
    while i < a.len()
        invariant
            a@.len() == b@.len(),
            i <= a@.len(),
            forall|j: int| 0 <= j < i ==> a@[j] == b@[j],
        decreases a@.len() - i,
    {
        if a[i] != b[i] {
            return false;
        }
        i += 1;
    }
    assert(a@ =~= b@);
    true
}

fn path_eq(a: &Vec<Vec<u8>>, b: &Vec<Vec<u8>>) -> (r: bool)
    ensures
        r == (path_view(a@) == path_view(b@)),
{
    if a.len() != b.len() {
        assert(path_view(a@).len() != path_view(b@).len());
        return false;
    }
    let mut i: usize = 0;
    while i < a.len()
        invariant
            a@.len() == b@.len(),
            i <= a@.len(),
            forall|j: int| 0 <= j < i ==> a@[j]@ == b@[j]@,
        decreases a@.len() - i,
    {
        if !bytes_eq(a[i].as_slice(), b[i].as_slice()) {
            assert(path_view(a@)[i as int] != path_view(b@)[i as int]);
            return false;
        }
        i += 1;
    }
    assert(path_view(a@) =~= path_view(b@));
    true
}

impl VisitedFiles {
    /// No file read yet.
    pub fn new() -> (r: VisitedFiles)
        ensures
            r@ == Set::<Seq<Seq<u8>>>::empty(),
    {
        let r = VisitedFiles { paths: Vec::new() };
        assert(r@ =~= Set::<Seq<Seq<u8>>>::empty());
        r
    }

    /// Records the file with the path components `path`; `true` when it had
    /// not been read before (and is to be read now), `false` when it had.
    pub fn first_visit(&mut self, path: Vec<Vec<u8>>) -> (r: bool)
        ensures
            r == !old(self)@.contains(path_view(path@)),
            final(self)@ == old(self)@.insert(path_view(path@)),
    {
        let ghost pv = path_view(path@);
        let ghost start = self.paths@;
        let mut i: usize = 0;
        while i < self.paths.len()
            invariant
                self.paths@ == start,
                pv == path_view(path@),
                i <= self.paths@.len(),
                forall|j: int| 0 <= j < i ==> #[trigger] path_view(self.paths@[j]@) != pv,
            decreases self.paths@.len() - i,
        {
            if path_eq(&self.paths[i], &path) {
                assert(path_view(self.paths@[i as int]@) == pv);
                assert(self@.contains(pv));
                assert(self@.insert(pv) =~= self@);
                return false;
            }
            i += 1;
        }
        let ghost before = self.paths@;
        let ghost old_set = self@;
        assert(!old_set.contains(pv)) by {
            if old_set.contains(pv) {
                let k = choose|k: int| 0 <= k < before.len() && #[trigger] path_view(before[k]@) == pv;
                assert(path_view(before[k]@) != pv);
            }
        }
        self.paths.push(path);
        assert forall|q: Seq<Seq<u8>>| #[trigger] self@.contains(q) == old_set.insert(pv).contains(q) by {
            if self@.contains(q) {
                let k = choose|k: int| 0 <= k < self.paths@.len() && #[trigger] path_view(self.paths@[k]@) == q;
                if k < before.len() {
                    assert(self.paths@[k] == before[k]);
                    assert(old_set.contains(q));
                }
            }
            if old_set.contains(q) && q != pv {
                let k = choose|k: int| 0 <= k < before.len() && #[trigger] path_view(before[k]@) == q;
                assert(self.paths@[k] == before[k]);
                assert(path_view(self.paths@[k]@) == q);
            }
            if q == pv {
                let last = self.paths@.len() - 1;
                assert(path_view(self.paths@[last]@) == pv);
            }
        }
        assert(self@ =~= old_set.insert(pv));
        true
    }
}

/// A file is read once: after `first_visit` of a path (which leaves
/// `s.insert(p)`), a later `first_visit` of it answers `false`, since the
/// set then holds it; and visiting keeps every path visited before.
pub proof fn lemma_visit_once(s: Set<Seq<Seq<u8>>>, p: Seq<Seq<u8>>, q: Seq<Seq<u8>>)
    ensures
        s.insert(p).contains(p),
        s.contains(q) ==> s.insert(p).contains(q),
{
}

} // verus!
