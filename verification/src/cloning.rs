//! Deep copies with proved equality of views, used when a snapshot or a reply
//! duplicates stored data.

use vstd::prelude::*;

verus! {

/// The views of a sequence of values.
pub open spec fn seq_view<T: View>(s: Seq<T>) -> Seq<T::V> {
    s.map_values(|x: T| x@)
}

/// The views of a sequence of strings.
pub open spec fn strings_view(s: Seq<String>) -> Seq<Seq<char>> {
    seq_view(s)
}

/// A value that can copy itself so that the copy reads the same.
pub trait Dup: View + Sized {
    fn duplicate(&self) -> (r: Self)
        ensures
            r@ == self@,
    ;
}

impl Dup for String {
    fn duplicate(&self) -> (r: Self)
        ensures
            r@ == self@,
    {
        self.clone()
    }
}

/// Copies a vector element by element; the copy reads the same.
#[verifier::loop_isolation(false)]
pub fn copy_vec<T: Dup>(v: &Vec<T>) -> (r: Vec<T>)
    ensures
        seq_view(r@) == seq_view(v@),
{
    let mut r: Vec<T> = Vec::new();
    let n = v.len();
    let mut i: usize = 0;
    while i < n
        invariant
            i <= n,
            r@.len() == i,
            forall|j: int| 0 <= j < i ==> (#[trigger] r@[j])@ == v@[j]@,
        decreases n - i,
    {
        r.push(v[i].duplicate());
        i += 1;
    }
    proof {
        assert(seq_view(r@) =~= seq_view(v@));
    }
    r
}

/// Copies a vector of strings; the copy reads the same.
pub fn copy_strings(v: &Vec<String>) -> (r: Vec<String>)
    ensures
        strings_view(r@) == strings_view(v@),
{
    copy_vec(v)
}

/// Copies a vector of values that copy themselves.
#[verifier::loop_isolation(false)]
pub fn copy_values<T: Copy>(v: &Vec<T>) -> (r: Vec<T>)
    ensures
        r@ == v@,
{
    let mut r: Vec<T> = Vec::new();
    let n = v.len();
    let mut i: usize = 0;
    while i < n
        invariant
            i <= n,
            r@ == v@.subrange(0, i as int),
        decreases n - i,
    {
        r.push(v[i]);
        i += 1;
        proof {
            assert(r@ =~= v@.subrange(0, i as int));
        }
    }
    proof {
        assert(v@.subrange(0, n as int) =~= v@);
    }
    r
}

/// Copies one stretch of a vector; the copy reads as that stretch.
#[verifier::loop_isolation(false)]
pub fn copy_vec_range<T: Dup>(v: &Vec<T>, start: usize, stop: usize) -> (r: Vec<T>)
    requires
        start <= stop <= v@.len(),
    ensures
        seq_view(r@) == seq_view(v@).subrange(start as int, stop as int),
{
    let mut r: Vec<T> = Vec::new();
    let mut i: usize = start;
    while i < stop
        invariant
            start <= i <= stop,
            r@.len() == i - start,
            forall|j: int| 0 <= j < i - start ==> (#[trigger] r@[j])@ == v@[start + j]@,
        decreases stop - i,
    {
        r.push(v[i].duplicate());
        i += 1;
    }
    proof {
        assert(seq_view(r@) =~= seq_view(v@).subrange(start as int, stop as int));
    }
    r
}

} // verus!
