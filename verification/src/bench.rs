//! What a benchmark run decides before it measures anything: the
//! operands it multiplies, the sizes it visits and how often it repeats.
use vstd::prelude::*;
use crate::scalar::Scalar;

verus! {

/// The elements that a generated operand of `len` cells holds: the
/// digits 0 to 9, over and over.
pub open spec fn cyclic_digits<T: Scalar>(len: nat) -> Seq<T> {
    Seq::new(len, |p: int| T::digit_spec((p % 10) as u8))
}

/// How many sizes lie between `first` and `last`, both included, when
/// each is `step` more than the one before.
pub open spec fn size_count(first: int, last: int, step: int) -> int {
    if first > last {
        0
    } else {
        (last - first) / step + 1
    }
}

/// A flat operand of side `size`, filled with the digits 0 to 9 in turn.
pub fn generate_matrix<T: Scalar>(size: usize) -> (m: Vec<T>)
    requires
        size * size <= usize::MAX,
    ensures
        m@ == cyclic_digits::<T>((size * size) as nat),
{
    let len = size * size;
    let mut m: Vec<T> = Vec::with_capacity(len);
    let mut i: usize = 0;
    while i < len
        invariant
            i <= len,
            m.len() == i,
            forall|p: int| 0 <= p < i ==> #[trigger] m@[p] == T::digit_spec((p % 10) as u8),
        decreases len - i,
    {
        let d = (i % 10) as u8;
        m.push(T::digit(d));
        i += 1;
    }
    assert(m@ =~= cyclic_digits::<T>(len as nat));
    m
}

/// The sizes from `first` up to `last`, both included, in steps of
/// `step`.
pub fn stepped_sizes(first: usize, last: usize, step: usize) -> (sizes: Vec<usize>)
    requires
        step > 0,
    ensures
        sizes.len() == size_count(first as int, last as int, step as int),
        forall|i: int| 0 <= i < sizes.len() ==> #[trigger] sizes@[i] == first + i * step,
{
    let mut sizes: Vec<usize> = Vec::new();
    if first > last {
        return sizes;
    }
    let mut cur = first;
    assert(sizes.len() * step == 0) by (nonlinear_arith)
        requires
            sizes.len() == 0,
    ;
    loop
        invariant_except_break
            cur == first + sizes.len() * step,
        invariant
            step > 0,
            first <= cur <= last,
            forall|i: int| 0 <= i < sizes.len() ==> #[trigger] sizes@[i] == first + i * step,
        ensures
            sizes.len() == size_count(first as int, last as int, step as int),
            forall|i: int| 0 <= i < sizes.len() ==> #[trigger] sizes@[i] == first + i * step,
        decreases last - cur,
    {
        let ghost taken = sizes.len() as int;
        sizes.push(cur);
        if last - cur < step {
            proof {
                let rest = last - cur;
                assert(last - first == taken * step + rest);
                vstd::arithmetic::div_mod::lemma_fundamental_div_mod_converse(
                    last - first,
                    step as int,
                    taken,
                    rest,
                );
            }
            break ;
        }
        proof {
            assert((taken + 1) * step == taken * step + step) by (nonlinear_arith);
        }
        cur += step;
    }
    sizes
}

/// The number of repetitions to run: the one that was asked for, or one
/// if nothing usable was asked for.
pub fn iterations_or_default(parsed: Option<usize>) -> (iterations: usize)
    ensures
        iterations == match parsed {
            Some(n) => if n > 0 {
                n
            } else {
                1
            },
            None => 1usize,
        },
{
    match parsed {
        Some(n) => if n > 0 {
            n
        } else {
            1
        },
        None => 1,
    }
}

} // verus!
