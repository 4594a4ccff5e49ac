use crate::error::Error;
use crate::fixed::Fixed;
use std::ops::Range;
use vstd::prelude::*;

verus! {

/// A read-only window over a shared byte buffer.
///
/// Sub-views share the buffer instead of copying it, and every sub-ranging
/// checks its bounds against the current window.
#[derive(Debug)]
pub struct ByteSlice {
    owner: Fixed<Vec<u8>>,
    start: usize,
    end: usize,
}

impl View for ByteSlice {
    type V = Seq<u8>;

    closed spec fn view(&self) -> Seq<u8> {
        self.owner@@.subrange(self.start as int, self.end as int)
    }
}

impl ByteSlice {
    #[verifier::type_invariant]
    spec fn in_bounds(&self) -> bool {
        self.start <= self.end <= self.owner@@.len()
    }

    /// An empty view.
    pub fn new() -> (r: ByteSlice)
        ensures
            r@ == Seq::<u8>::empty(),
    {
        let r = ByteSlice { owner: Fixed::new(Vec::new()), start: 0, end: 0 };
        assert(r@ =~= Seq::<u8>::empty());
        r
    }

    /// A view of the whole of `data`, which the view then owns.
    pub fn from_vec(data: Vec<u8>) -> (r: ByteSlice)
        ensures
            r@ == data@,
    {
        let end = data.len();
        let r = ByteSlice { owner: Fixed::new(data), start: 0, end };
        assert(r@ =~= data@);
        r
    }

    /// A view of a copy of `data`.
    pub fn from_bytes(data: &[u8]) -> (r: ByteSlice)
        ensures
            r@ == data@,
    {
        let mut copy: Vec<u8> = Vec::new();
        let mut i: usize = 0;
        while i < data.len()
            invariant
                0 <= i <= data@.len(),
                copy@ == data@.subrange(0, i as int),
            decreases data@.len() - i,
        {
            copy.push(data[i]);
            i += 1;
        }
        assert(copy@ =~= data@);
        ByteSlice::from_vec(copy)
    }

    /// The number of bytes in view.
    pub fn len(&self) -> (r: usize)
        ensures
            r == self@.len(),
    {
        proof {
            use_type_invariant(self);
        }
        self.end - self.start
    }

    /// Whether the view is empty.
    pub fn is_empty(&self) -> (r: bool)
        ensures
            r == (self@.len() == 0),
    {
        self.len() == 0
    }

    /// The byte at `index`.
    pub fn get(&self, index: usize) -> (r: u8)
        requires
            index < self@.len(),
        ensures
            r == self@[index as int],
    {
        proof {
            use_type_invariant(self);
        }
        self.owner.get()[self.start + index]
    }

    /// The sub-view of `range`, or a range error where it does not lie
    /// within this view.
    pub fn try_get(&self, range: Range<usize>) -> (r: Result<ByteSlice, Error>)
        ensures
            range.start <= range.end <= self@.len() <==> r is Ok,
            r matches Ok(s) ==> s@ == self@.subrange(range.start as int, range.end as int),
            r matches Err(e) ==> e == Error::Range,
    {
        proof {
            use_type_invariant(self);
        }
        if range.start <= range.end && range.end <= self.end - self.start {
            let r = ByteSlice {
                owner: self.owner.clone(),
                start: self.start + range.start,
                end: self.start + range.end,
            };
            assert(r@ =~= self@.subrange(range.start as int, range.end as int));
            Ok(r)
        } else {
            Err(Error::Range)
        }
    }

    /// The bytes in view, copied.
    pub fn to_vec(&self) -> (r: Vec<u8>)
        ensures
            r@ == self@,
    {
        proof {
            use_type_invariant(self);
        }
        let mut out: Vec<u8> = Vec::new();
        let mut i: usize = self.start;
        let data = self.owner.get();
        while i < self.end
            invariant
                self.start <= i <= self.end <= data@.len(),
                *data == self.owner@,
                out@ == data@.subrange(self.start as int, i as int),
            decreases self.end - i,
        {
            out.push(data[i]);
            i += 1;
        }
        assert(out@ =~= self@);
        out
    }
}

impl Clone for ByteSlice {
    fn clone(&self) -> (r: ByteSlice)
        ensures
            r@ == self@,
    {
        proof {
            use_type_invariant(self);
        }
        ByteSlice { owner: self.owner.clone(), start: self.start, end: self.end }
    }
}

impl PartialEq for ByteSlice {
    fn eq(&self, other: &ByteSlice) -> (r: bool) {
        let n = self.len();
        if n != other.len() {
            return false;
        }
        let mut i: usize = 0;
        while i < n
            invariant
                n == self@.len() == other@.len(),
                0 <= i <= n,
                forall|k: int| 0 <= k < i ==> self@[k] == other@[k],
            decreases n - i,
        {
            if self.get(i) != other.get(i) {
                return false;
            }
            i += 1;
        }
        assert(self@ =~= other@);
        true
    }
}

impl vstd::std_specs::cmp::PartialEqSpecImpl for ByteSlice {
    open spec fn obeys_eq_spec() -> bool {
        true
    }

    open spec fn eq_spec(&self, other: &ByteSlice) -> bool {
        self@ == other@
    }
}

} // verus!
