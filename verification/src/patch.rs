//! Length-preserving byte substitution inside an executable image.

use vstd::prelude::*;
use vstd::slice::slice_to_vec;
use crate::model::{
    literals_have_equal_length, path_bytes, real_init_literal, replacement_literal, BootPath,
};

verus! {

/// `needle` stands in `hay` at offset `at`.
pub open spec fn occurs_at(hay: Seq<u8>, needle: Seq<u8>, at: int) -> bool {
    0 <= at && at + needle.len() <= hay.len() && hay.subrange(at, at + needle.len()) == needle
}

/// Position `pos` lies inside one of the windows of `width` bytes that start
/// at the offsets `offs`.
pub open spec fn covered(offs: Seq<usize>, width: int, pos: int) -> bool {
    exists|i: int| 0 <= i < offs.len() && #[trigger] offs[i] <= pos < offs[i] + width
}

/// `offs` is the selection that a left-to-right scan makes among the
/// occurrences of `needle` in `hay`: every offset is an occurrence, the
/// windows follow each other without overlap, and no occurrence lies wholly
/// outside the windows (each one starts inside a window).
pub open spec fn leftmost_selection(hay: Seq<u8>, needle: Seq<u8>, offs: Seq<usize>) -> bool {
    &&& forall|i: int| 0 <= i < offs.len() ==> occurs_at(hay, needle, #[trigger] offs[i] as int)
    &&& forall|i: int, j: int|
        0 <= i < j < offs.len() ==> #[trigger] offs[i] + needle.len() <= #[trigger] offs[j]
    &&& forall|p: int| #[trigger] occurs_at(hay, needle, p) ==> covered(offs, needle.len() as int, p)
}

/// `after` is `before` with each window of `offs` overwritten by `to`, and
/// every byte outside the windows left as it was.
pub open spec fn rewritten(before: Seq<u8>, after: Seq<u8>, to: Seq<u8>, offs: Seq<usize>) -> bool {
    &&& after.len() == before.len()
    &&& forall|i: int|
        0 <= i < offs.len() ==> occurs_at(after, to, #[trigger] offs[i] as int)
    &&& forall|p: int|
        0 <= p < before.len() && !covered(offs, to.len() as int, p) ==> #[trigger] after[p]
            == before[p]
}

/// Tells whether `needle` stands in `hay` at offset `at`.
pub fn matches_at(hay: &Vec<u8>, needle: &[u8], at: usize) -> (found: bool)
    requires
        at + needle@.len() <= hay@.len(),
    ensures
        found == occurs_at(hay@, needle@, at as int),
{
    let n: usize = needle.len();
    let len: usize = hay.len();
    let mut k: usize = 0;
    while k < n
        invariant
            n == needle@.len(),
            len == hay@.len(),
            at + n <= len,
            0 <= k <= n,
            forall|j: int| 0 <= j < k ==> hay@[at + j] == needle@[j],
        decreases n - k,
    {
        if hay[at + k] != needle[k] {
            proof {
                assert(hay@.subrange(at as int, at + n)[k as int] == hay@[at + k]);
            }
            return false;
        }
        k += 1;
    }
    proof {
        assert(hay@.subrange(at as int, at + n) =~= needle@);
    }
    true
}

/// Overwrites the window of `image` that starts at `at` with `to`.
pub fn overwrite(image: &mut Vec<u8>, at: usize, to: &[u8])
    requires
        at + to@.len() <= old(image)@.len(),
    ensures
        final(image)@.len() == old(image)@.len(),
        occurs_at(final(image)@, to@, at as int),
        forall|p: int|
            0 <= p < old(image)@.len() && !(at <= p < at + to@.len()) ==> final(image)@[p] == old(
                image,
            )@[p],
{
    let n: usize = to.len();
    let len: usize = image.len();
    let mut k: usize = 0;
    while k < n
        invariant
            n == to@.len(),
            len == image@.len(),
            image@.len() == old(image)@.len(),
            at + n <= len,
            0 <= k <= n,
            forall|j: int| 0 <= j < k ==> image@[at + j] == to@[j],
            forall|p: int|
                0 <= p < image@.len() && !(at <= p < at + n) ==> image@[p] == old(image)@[p],
        decreases n - k,
    {
        image.set(at + k, to[k]);
        k += 1;
    }
    proof {
        assert(image@.subrange(at as int, at + n) =~= to@);
    }
}

/// Replaces, scanning from the left, each occurrence of `from` in `image` by
/// `to`, and returns the offsets at which it did so, in rising order. After a
/// replacement the scan goes on behind the replaced window, so the windows do
/// not overlap. The image keeps its length. An empty `from` is found
/// nowhere: the image stays as it is and no offset is returned.
pub fn patch(image: &mut Vec<u8>, from: &[u8], to: &[u8]) -> (offsets: Vec<usize>)
    requires
        from@.len() == to@.len(),
    ensures
        final(image)@.len() == old(image)@.len(),
        from@.len() > 0 ==> leftmost_selection(old(image)@, from@, offsets@),
        from@.len() == 0 ==> offsets@.len() == 0 && final(image)@ == old(image)@,
        rewritten(old(image)@, final(image)@, to@, offsets@),
{
    let n: usize = from.len();
    let len: usize = image.len();
    let mut offsets: Vec<usize> = Vec::new();
    if n == 0 || len < n {
        return offsets;
    }
    let last: usize = len - n;
    let mut at: usize = 0;
    while at <= last
        invariant
            n == from@.len(),
            n == to@.len(),
            n > 0,
            len == image@.len(),
            len == old(image)@.len(),
            last == len - n,
            0 <= at <= len,
            forall|i: int| 0 <= i < offsets@.len() ==> #[trigger] offsets@[i] + n <= at,
            forall|i: int|
                0 <= i < offsets@.len() ==> occurs_at(old(image)@, from@, #[trigger] offsets@[i] as int),
            forall|i: int, j: int|
                0 <= i < j < offsets@.len() ==> #[trigger] offsets@[i] + n <= #[trigger] offsets@[j],
            forall|p: int|
                p < at && #[trigger] occurs_at(old(image)@, from@, p) ==> covered(
                    offsets@,
                    n as int,
                    p,
                ),
            forall|i: int|
                0 <= i < offsets@.len() ==> occurs_at(image@, to@, #[trigger] offsets@[i] as int),
            forall|p: int|
                0 <= p < len && !covered(offsets@, n as int, p) ==> #[trigger] image@[p] == old(
                    image,
                )@[p],
        decreases len - at,
    {
        let ghost before = image@;
        let ghost chosen = offsets@;
        proof {
            assert forall|p: int| at <= p < len implies !covered(chosen, n as int, p) by {
                if covered(chosen, n as int, p) {
                    let i = choose|i: int|
                        0 <= i < chosen.len() && #[trigger] chosen[i] <= p < chosen[i] + n;
                    assert(chosen[i] + n <= at);
                }
            }
            assert(before.subrange(at as int, at + n) =~= old(image)@.subrange(at as int, at + n));
        }
        if matches_at(image, from, at) {
            overwrite(image, at, to);
            offsets.push(at);
            proof {
                let m = chosen.len() as int;
                assert(offsets@[m] == at);
                assert forall|p: int| covered(chosen, n as int, p) implies covered(
                    offsets@,
                    n as int,
                    p,
                ) by {
                    let i = choose|i: int|
                        0 <= i < chosen.len() && #[trigger] chosen[i] <= p < chosen[i] + n;
                    assert(offsets@[i] == chosen[i]);
                }
                assert forall|p: int|
                    p < at + n && #[trigger] occurs_at(old(image)@, from@, p) implies covered(
                    offsets@,
                    n as int,
                    p,
                ) by {
                    if p >= at {
                        assert(offsets@[m] <= p < offsets@[m] + n);
                    }
                }
                assert forall|i: int| 0 <= i < offsets@.len() implies occurs_at(
                    image@,
                    to@,
                    #[trigger] offsets@[i] as int,
                ) by {
                    if i < m {
                        let o = chosen[i] as int;
                        assert(chosen[i] + n <= at);
                        assert(occurs_at(before, to@, chosen[i] as int));
                        assert(image@.subrange(o, o + n) =~= before.subrange(o, o + n));
                    }
                }
                assert forall|p: int|
                    0 <= p < len && !covered(offsets@, n as int, p) implies #[trigger] image@[p]
                    == old(image)@[p] by {
                    if at <= p < at + n {
                        assert(offsets@[m] <= p < offsets@[m] + n);
                    }
                    if covered(chosen, n as int, p) {
                    }
                }
            }
            at = at + n;
        } else {
            at = at + 1;
        }
    }
    proof {
        assert forall|p: int| #[trigger] occurs_at(old(image)@, from@, p) implies covered(
            offsets@,
            n as int,
            p,
        ) by {
            assert(p + n <= len);
        }
    }
    offsets
}

/// An executable image, named by its path, together with the byte sequence
/// to find in it and the one to put in its place.
#[derive(Clone, Debug, PartialEq, Eq)]
pub struct PatchTarget {
    pub path: BootPath,
    pub from: Vec<u8>,
    pub to: Vec<u8>,
}

impl PatchTarget {
    /// The replacement is as long as what it replaces: rewriting the image
    /// in place moves no byte of it.
    pub open spec fn wf(&self) -> bool {
        self.from@.len() == self.to@.len()
    }

    /// A target for `path`, or nothing where the two sequences differ in
    /// length.
    pub fn new(path: BootPath, from: Vec<u8>, to: Vec<u8>) -> (target: Option<PatchTarget>)
        ensures
            target is Some <==> from@.len() == to@.len(),
            target is Some ==> target.unwrap().wf() && target.unwrap().path == path
                && target.unwrap().from@ == from@ && target.unwrap().to@ == to@,
    {
        if from.len() == to.len() {
            Some(PatchTarget { path, from, to })
        } else {
            None
        }
    }

    /// The target that redirects the init image at `path`: the path of the
    /// real init is to give way to the path of the replacement executable.
    pub fn init_redirect(path: BootPath) -> (target: PatchTarget)
        ensures
            target.wf(),
            target.path == path,
            target.from@ == real_init_literal(),
            target.to@ == replacement_literal(),
    {
        proof {
            literals_have_equal_length();
        }
        PatchTarget {
            path,
            from: slice_to_vec(path_bytes(BootPath::SystemBinInit)),
            to: slice_to_vec(path_bytes(BootPath::DataMagiskinit)),
        }
    }

    /// Rewrites `image` as `patch` does, with the sequences of this target.
    pub fn apply(&self, image: &mut Vec<u8>) -> (offsets: Vec<usize>)
        requires
            self.wf(),
        ensures
            final(image)@.len() == old(image)@.len(),
            self.from@.len() > 0 ==> leftmost_selection(old(image)@, self.from@, offsets@),
            self.from@.len() == 0 ==> offsets@.len() == 0 && final(image)@ == old(image)@,
            rewritten(old(image)@, final(image)@, self.to@, offsets@),
    {
        patch(image, self.from.as_slice(), self.to.as_slice())
    }
}

} // verus!
