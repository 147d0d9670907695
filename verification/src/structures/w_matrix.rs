//! The weight matrix of a convolution: a square grid of weights with an odd
//! side, so that one cell is the centre.

use vstd::prelude::*;

verus! {

/// The sum of the first `n` weights.
pub open spec fn weight_sum(weights: Seq<u8>, n: nat) -> nat
    decreases n,
{
    if n == 0 {
        0
    } else {
        weight_sum(weights, (n - 1) as nat) + weights[n - 1] as nat
    }
}

/// The mathematical model of a weight matrix: its side and its weights, row
/// by row.
pub struct KernelView {
    /// The number of rows, which is also the number of columns.
    pub size: nat,
    /// The weights in row-major order.
    pub weights: Seq<u8>,
}

impl KernelView {
    /// The sum of all weights, by which a blur divides.
    pub open spec fn total_weight(self) -> nat {
        weight_sum(self.weights, self.weights.len())
    }

    /// The distance from the centre cell to the border of the grid.
    pub open spec fn half(self) -> int {
        self.size as int / 2
    }

    /// The row offset, relative to the centre, of the cell that holds weight
    /// number `k`.
    pub open spec fn row_offset(self, k: int) -> int {
        k / (self.size as int) - self.half()
    }

    /// The column offset, relative to the centre, of the cell that holds
    /// weight number `k`.
    pub open spec fn col_offset(self, k: int) -> int {
        k % (self.size as int) - self.half()
    }

    /// A usable kernel has an odd side, one weight per cell and a positive
    /// total weight.
    pub open spec fn wf(self) -> bool {
        &&& self.size % 2 == 1
        &&& self.weights.len() == self.size * self.size
        &&& self.total_weight() > 0
    }
}

/// Why a side and a list of weights make no kernel.
#[derive(Clone, Copy, Debug, PartialEq, Eq, Structural)]
pub enum KernelError {
    /// The side is even (zero included), so the grid has no centre cell.
    EvenSize,
    /// The number of weights is not the square of the side.
    WeightCountMismatch,
    /// All weights are zero, so a blur would divide by zero.
    ZeroTotalWeight,
}

/// The reason for which `weights` and `size` are rejected, if they are.  An
/// even side is reported first, then a wrong number of weights, then a zero
/// total.
pub open spec fn kernel_error(weights: Seq<u8>, size: nat) -> Option<KernelError> {
    if size % 2 == 0 {
        Some(KernelError::EvenSize)
    } else if weights.len() != size * size {
        Some(KernelError::WeightCountMismatch)
    } else if weight_sum(weights, weights.len()) == 0 {
        Some(KernelError::ZeroTotalWeight)
    } else {
        None
    }
}

/// The weights of the default blur kernel, row by row: a pyramid of side
/// five that favours the centre.
pub const DEFAULT_BLUR_KERNEL: [u8; 25] = [
    5, 5, 10, 5, 5,
    5, 10, 15, 10, 5,
    10, 15, 30, 15, 10,
    5, 10, 15, 10, 5,
    5, 5, 10, 5, 5,
];

/// A validated weight matrix.
#[allow(non_camel_case_types)]
#[derive(Debug)]
pub struct W_matrix {
    weight: Vec<u8>,
    size: usize,
}

impl View for W_matrix {
    type V = KernelView;

    closed spec fn view(&self) -> KernelView {
        KernelView { size: self.size as nat, weights: self.weight@ }
    }
}

/// A prefix sum of weights grows with the prefix and stays below 255 per
/// weight.
pub proof fn lemma_weight_sum_monotonic(weights: Seq<u8>, m: nat, n: nat)
    requires
        m <= n,
    ensures
        weight_sum(weights, m) <= weight_sum(weights, n) <= weight_sum(weights, m) + 255 * (n - m),
    decreases n,
{
    if m < n {
        lemma_weight_sum_monotonic(weights, m, (n - 1) as nat);
    }
}

/// Adds up all the weights.
fn sum_weights(weights: &Vec<u8>) -> (total: u128)
    ensures
        total == weight_sum(weights@, weights@.len()),
{
    let mut total: u128 = 0;
    let mut i: usize = 0;
    while i < weights.len()
        invariant
            i <= weights.len(),
            total == weight_sum(weights@, i as nat),
            total <= 255 * i,
        decreases weights.len() - i,
    {
        total = total + weights[i] as u128;
        i = i + 1;
    }
    total
}

impl W_matrix {
    /// Every matrix that exists is a usable kernel.
    #[verifier::type_invariant]
    pub open spec fn well_formed(&self) -> bool {
        self@.wf()
    }

    /// Makes a kernel of side `size` from `size * size` weights in row-major
    /// order.  Fails if the side is even, if the number of weights is not
    /// the square of the side, or if all weights are zero.
    pub fn new(weight: Vec<u8>, size: usize) -> (res: Result<W_matrix, KernelError>)
        ensures
            match res {
                Ok(m) => {
                    &&& m@.wf()
                    &&& kernel_error(weight@, size as nat) is None
                    &&& m@ == (KernelView { size: size as nat, weights: weight@ })
                },
                Err(e) => kernel_error(weight@, size as nat) == Some(e),
            },
    {
        if size % 2 == 0 {
            return Err(KernelError::EvenSize);
        }
        match size.checked_mul(size) {
            Some(cells) => {
                if cells != weight.len() {
                    return Err(KernelError::WeightCountMismatch);
                }
            },
            None => {
                return Err(KernelError::WeightCountMismatch);
            },
        }
        if sum_weights(&weight) == 0 {
            return Err(KernelError::ZeroTotalWeight);
        }
        Ok(W_matrix { weight, size })
    }

    /// The default blur kernel: side five, the weights of
    /// [`DEFAULT_BLUR_KERNEL`], total weight 230.
    pub fn default_blur() -> (m: W_matrix)
        ensures
            m@ == (KernelView { size: 5, weights: DEFAULT_BLUR_KERNEL@ }),
            m@.total_weight() == 230,
    {
        let mut weight: Vec<u8> = Vec::new();
        let mut i: usize = 0;
        while i < 25
            invariant
                i <= 25,
                weight@.len() == i,
                forall|k: int| 0 <= k < i ==> weight@[k] == DEFAULT_BLUR_KERNEL@[k],
            decreases 25 - i,
        {
            weight.push(DEFAULT_BLUR_KERNEL[i]);
            i += 1;
        }
        proof {
            assert(weight@ =~= DEFAULT_BLUR_KERNEL@);
            reveal_with_fuel(weight_sum, 26);
            assert(weight_sum(weight@, 25) == 230);
        }
        W_matrix { weight, size: 5 }
    }

    /// The side of the matrix.
    pub fn size(&self) -> (s: usize)
        ensures
            s == self@.size,
    {
        self.size
    }

    /// The weights in row-major order.
    pub fn weight(&self) -> (w: &Vec<u8>)
        ensures
            w@ == self@.weights,
    {
        &self.weight
    }

    /// The sum of all weights.
    pub fn get_total_weight(&self) -> (total: u128)
        ensures
            total == self@.total_weight(),
            total > 0,
    {
        proof {
            use_type_invariant(self);
        }
        sum_weights(&self.weight)
    }
}

} // verus!
