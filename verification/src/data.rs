//! Columns of random integers to walk.
use vstd::prelude::*;
use rand::Rng;

verus! {

/// One draw of `rand::thread_rng().gen::<u32>()`, the thread-local generator
/// of `rand` seeded by the system. Any `u32` may come back, so nothing is
/// stated of it. (`thread_rng` panics if the system cannot seed it; that
/// depends on the machine and is left unsaid.)
#[verifier::external_body]
fn random_u32() -> u32 {
    rand::thread_rng().gen::<u32>()
}

/// `x` is a value that a draw from the thread-local generator gave.
pub closed spec fn drawn(x: u32) -> bool {
    call_ensures(random_u32, (), x)
}

/// `drawn` holds of exactly the values that a draw can give.
proof fn lemma_drawn_is_a_draw(x: u32)
    ensures
        drawn(x) == call_ensures(random_u32, (), x),
{
}

/// A column of `n` integers drawn from the thread-local generator.
pub fn random_u32_column(n: usize) -> (column: Vec<u32>)
    ensures
        column.len() == n,
        forall|i: int| 0 <= i < n ==> drawn(#[trigger] column@[i]),
{
    let mut column: Vec<u32> = Vec::new();
    let mut i: usize = 0;
    while i < n
        invariant
            i <= n,
            column.len() == i,
            forall|k: int| 0 <= k < i ==> drawn(#[trigger] column@[k]),
        decreases n - i,
    {
        column.push(random_u32());
        i = i + 1;
    }
    proof {
        assert forall|k: int| 0 <= k < n implies call_ensures(random_u32, (), #[trigger] column@[k]) by {
            lemma_drawn_is_a_draw(column@[k]);
        }
    }
    column
}

} // verus!
