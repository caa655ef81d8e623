//! One-hot class vectors.

use vstd::prelude::*;

verus! {

/// The one-hot sequence of `len` entries whose single one stands at `hot`.
pub open spec fn one_hot(len: nat, hot: nat) -> Seq<u8> {
    Seq::new(len, |i: int| if i == hot { 1u8 } else { 0u8 })
}

/// A one-hot vector over the classes, held as the position of its one.
///
/// A classifier over `n` digit classes is trained over `n + 1` slots: the
/// last slot is the sentinel class that marks a generated image.
#[derive(Clone, Copy, Debug, PartialEq, Eq, Structural)]
pub struct TargetVector {
    /// Number of slots.
    pub len: usize,
    /// Position of the one.
    pub hot: usize,
}

impl View for TargetVector {
    type V = Seq<u8>;

    open spec fn view(&self) -> Seq<u8> {
        one_hot(self.len as nat, self.hot as nat)
    }
}

impl TargetVector {
    /// The one lies inside the vector.
    pub open spec fn wf(&self) -> bool {
        self.hot < self.len
    }

    /// The vector of `len` slots with its one at `hot`, if `hot` is a slot.
    pub fn new(len: usize, hot: usize) -> (r: Option<TargetVector>)
        ensures
            r == (if hot < len {
                Some(TargetVector { len, hot })
            } else {
                None
            }),
    {
        if hot < len {
            Some(TargetVector { len, hot })
        } else {
            None
        }
    }

    /// The target that image synthesis steers towards: the one at digit
    /// class `class`, over `class_count + 1` slots. The sentinel slot is no
    /// digit class and is refused.
    pub fn reconstruction(class_count: usize, class: usize) -> (r: Option<TargetVector>)
        ensures
            r == (if class < class_count && class_count < usize::MAX {
                Some(TargetVector { len: (class_count + 1) as usize, hot: class })
            } else {
                None
            }),
    {
        if class < class_count && class_count < usize::MAX {
            Some(TargetVector { len: class_count + 1, hot: class })
        } else {
            None
        }
    }

    /// The target that marks a generated image: the one at the extra slot
    /// behind the `class_count` digit classes.
    pub fn sentinel(class_count: usize) -> (r: Option<TargetVector>)
        ensures
            r == (if class_count < usize::MAX {
                Some(TargetVector { len: (class_count + 1) as usize, hot: class_count })
            } else {
                None
            }),
    {
        if class_count < usize::MAX {
            Some(TargetVector { len: class_count + 1, hot: class_count })
        } else {
            None
        }
    }

    /// Entry `i` of the vector.
    pub fn get(&self, i: usize) -> (r: u8)
        requires
            i < self.len,
        ensures
            r == self@[i as int],
    {
        if i == self.hot {
            1
        } else {
            0
        }
    }

    /// The vector written out, one entry per slot.
    pub fn to_vec(&self) -> (r: Vec<u8>)
        ensures
            r@ == self@,
    {
        let mut out: Vec<u8> = Vec::new();
        let mut i: usize = 0;
        while i < self.len
            invariant
                i <= self.len,
                out@.len() == i,
                forall|j: int| 0 <= j < i ==> out@[j] == self@[j],
            decreases self.len - i,
        {
            out.push(if i == self.hot { 1 } else { 0 });
            i += 1;
        }
        out
    }
}

/// Two one-hot vectors of one length are the same sequence only if their
/// ones stand at the same place.
pub proof fn lemma_one_hot_injective(len: nat, a: nat, b: nat)
    requires
        a < len,
        b < len,
        one_hot(len, a) == one_hot(len, b),
    ensures
        a == b,
{
    assert(one_hot(len, b)[a as int] == 1u8);
}

} // verus!
