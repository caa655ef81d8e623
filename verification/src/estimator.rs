//! Finite-difference estimation of a loss gradient over pixel space, and
//! the step of an image against its gradient.
//!
//! The functions here are generic in the number type of a pixel. The loss
//! and the arithmetic on numbers are the caller's, handed in as functions,
//! and every contract speaks of what those functions answered. For the
//! forward difference of width `h`, `raise` adds `h` to a pixel and
//! `quotient` divides the difference of two losses by `h`.
//!
//! The loss is taken as `Fn`: the classifier behind it cannot be trained
//! while a gradient is estimated.

use vstd::prelude::*;

verus! {

/// `g` is a forward difference quotient of `loss` at `image` along pixel
/// `i`: `loss` was asked once about `image` itself and once about `image`
/// with pixel `i` alone raised by `raise`, and `quotient` made `g` from the
/// two answers. No other pixel differs between the two questions.
pub open spec fn partial_at<T, L, R, Q>(
    image: Seq<T>,
    i: int,
    loss: &L,
    raise: &R,
    quotient: &Q,
    g: T,
) -> bool where L: Fn(&Vec<T>) -> T, R: Fn(T) -> T, Q: Fn(T, T) -> T {
    exists|plain: Vec<T>, probe: Vec<T>, raised: T, base: T, lifted: T|
        {
            &&& plain@ == image
            &&& probe@ == image.update(i, raised)
            &&& #[trigger] call_ensures(*raise, (image[i],), raised)
            &&& #[trigger] call_ensures(*loss, (&plain,), base)
            &&& #[trigger] call_ensures(*loss, (&probe,), lifted)
            &&& call_ensures(*quotient, (lifted, base), g)
        }
}

/// `gradient` is a gradient estimate of `loss` at `image`: one forward
/// difference quotient per pixel.
pub open spec fn is_gradient<T, L, R, Q>(
    image: Seq<T>,
    loss: &L,
    raise: &R,
    quotient: &Q,
    gradient: Seq<T>,
) -> bool where L: Fn(&Vec<T>) -> T, R: Fn(T) -> T, Q: Fn(T, T) -> T {
    &&& gradient.len() == image.len()
    &&& forall|i: int|
        0 <= i < image.len() ==> partial_at(image, i, loss, raise, quotient, #[trigger] gradient[i])
}

/// `moved` is `image` after one step against `gradient`: `step` made each
/// pixel of `moved` from the pixel and the gradient component at its place.
pub open spec fn is_descent<T, S>(
    image: Seq<T>,
    gradient: Seq<T>,
    step: &S,
    moved: Seq<T>,
) -> bool where S: Fn(T, T) -> T {
    &&& moved.len() == image.len()
    &&& forall|i: int|
        0 <= i < image.len() ==> call_ensures(*step, (image[i], gradient[i]), #[trigger] moved[i])
}

/// `loss` gives one answer to one image.
pub open spec fn loss_is_function<T, L>(loss: &L) -> bool where L: Fn(&Vec<T>) -> T {
    forall|a: Vec<T>, b: Vec<T>, x: T, y: T|
        a@ == b@ && #[trigger] call_ensures(*loss, (&a,), x) && #[trigger] call_ensures(*loss, (&b,), y)
            ==> x == y
}

/// `raise` gives one answer to one pixel.
pub open spec fn raise_is_function<T, R>(raise: &R) -> bool where R: Fn(T) -> T {
    forall|p: T, x: T, y: T|
        #[trigger] call_ensures(*raise, (p,), x) && #[trigger] call_ensures(*raise, (p,), y) ==> x == y
}

/// `quotient` gives one answer to one pair of losses.
pub open spec fn quotient_is_function<T, Q>(quotient: &Q) -> bool where Q: Fn(T, T) -> T {
    forall|a: T, b: T, x: T, y: T|
        #[trigger] call_ensures(*quotient, (a, b), x) && #[trigger] call_ensures(*quotient, (a, b), y)
            ==> x == y
}

/// A copy of `image`.
fn copy_of<T: Copy>(image: &Vec<T>) -> (r: Vec<T>)
    ensures
        r@ == image@,
{
    let mut out: Vec<T> = Vec::new();
    let mut i: usize = 0;
    while i < image.len()
        invariant
            i <= image.len(),
            out@ == image@.take(i as int),
        decreases image.len() - i,
    {
        out.push(image[i]);
        i += 1;
    }
    out
}

/// The gradient of `loss` at `image`, one forward difference per pixel:
/// for each pixel the loss of the image as it is and the loss of a copy in
/// which that pixel alone is raised, and the quotient of the two. The
/// image itself is not changed.
pub fn finite_diff<T: Copy, L, R, Q>(image: &Vec<T>, loss: &L, raise: &R, quotient: &Q) -> (gradient: Vec<T>)
    where L: Fn(&Vec<T>) -> T, R: Fn(T) -> T, Q: Fn(T, T) -> T,
    requires
        forall|v: &Vec<T>| v@.len() == image@.len() ==> call_requires(*loss, (v,)),
        forall|x: T| call_requires(*raise, (x,)),
        forall|a: T, b: T| call_requires(*quotient, (a, b)),
    ensures
        is_gradient(image@, loss, raise, quotient, gradient@),
{
    let mut gradient: Vec<T> = Vec::new();
    let mut i: usize = 0;
    while i < image.len()
        invariant
            i <= image.len(),
            gradient@.len() == i,
            forall|v: &Vec<T>| v@.len() == image@.len() ==> call_requires(*loss, (v,)),
            forall|x: T| call_requires(*raise, (x,)),
            forall|a: T, b: T| call_requires(*quotient, (a, b)),
            forall|j: int| 0 <= j < i ==> partial_at(image@, j, loss, raise, quotient, #[trigger] gradient@[j]),
        decreases image.len() - i,
    {
        let mut probe = copy_of(image);
        let raised = raise(image[i]);
        probe.set(i, raised);
        let base = loss(image);
        let lifted = loss(&probe);
        let g = quotient(lifted, base);
        gradient.push(g);
        i += 1;
    }
    gradient
}

/// Moves the image one step against its gradient: each pixel becomes what
/// `step` makes of the pixel and the gradient component at its place.
pub fn descend<T: Copy, S>(image: &mut Vec<T>, gradient: &Vec<T>, step: &S) where S: Fn(T, T) -> T
    requires
        old(image)@.len() == gradient@.len(),
        forall|a: T, b: T| call_requires(*step, (a, b)),
    ensures
        is_descent(old(image)@, gradient@, step, final(image)@),
{
    let mut i: usize = 0;
    while i < image.len()
        invariant
            i <= image@.len(),
            image@.len() == old(image)@.len(),
            image@.len() == gradient@.len(),
            forall|a: T, b: T| call_requires(*step, (a, b)),
            forall|j: int| 0 <= j < i ==> call_ensures(*step, (old(image)@[j], gradient@[j]), #[trigger] image@[j]),
            forall|j: int| i <= j < image@.len() ==> image@[j] == old(image)@[j],
        decreases image@.len() - i,
    {
        let moved = step(image[i], gradient[i]);
        image.set(i, moved);
        i += 1;
    }
}

/// The estimate has no randomness of its own: where the loss and the two
/// arithmetic steps each give one answer to one question, an image has one
/// gradient estimate.
pub proof fn lemma_estimate_is_determined<T, L, R, Q>(
    image: Seq<T>,
    loss: &L,
    raise: &R,
    quotient: &Q,
    first: Seq<T>,
    second: Seq<T>,
) where L: Fn(&Vec<T>) -> T, R: Fn(T) -> T, Q: Fn(T, T) -> T
    requires
        loss_is_function(loss),
        raise_is_function(raise),
        quotient_is_function(quotient),
        is_gradient(image, loss, raise, quotient, first),
        is_gradient(image, loss, raise, quotient, second),
    ensures
        first == second,
{
    assert forall|i: int| 0 <= i < image.len() implies first[i] == second[i] by {
        let (plain1, probe1, raised1, base1, lifted1) = choose|
            plain: Vec<T>,
            probe: Vec<T>,
            raised: T,
            base: T,
            lifted: T,
        |
            {
                &&& plain@ == image
                &&& probe@ == image.update(i, raised)
                &&& #[trigger] call_ensures(*raise, (image[i],), raised)
                &&& #[trigger] call_ensures(*loss, (&plain,), base)
                &&& #[trigger] call_ensures(*loss, (&probe,), lifted)
                &&& call_ensures(*quotient, (lifted, base), first[i])
            };
        let (plain2, probe2, raised2, base2, lifted2) = choose|
            plain: Vec<T>,
            probe: Vec<T>,
            raised: T,
            base: T,
            lifted: T,
        |
            {
                &&& plain@ == image
                &&& probe@ == image.update(i, raised)
                &&& #[trigger] call_ensures(*raise, (image[i],), raised)
                &&& #[trigger] call_ensures(*loss, (&plain,), base)
                &&& #[trigger] call_ensures(*loss, (&probe,), lifted)
                &&& call_ensures(*quotient, (lifted, base), second[i])
            };
        assert(raised1 == raised2);
        assert(base1 == base2 && lifted1 == lifted2);
    }
}

} // verus!
