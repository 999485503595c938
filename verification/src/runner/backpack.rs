use vstd::prelude::*;

verus! {

use core::ops::Range;
use std::collections::HashMap;
use crate::world::tile::{content_index_spec, Content, N_CONTENTS};

/// Sum of the first `n` counts.
pub open spec fn sum_prefix(s: Seq<usize>, n: int) -> int
    decreases n,
{
    if n <= 0 {
        0
    } else {
        sum_prefix(s, n - 1) + s[n - 1]
    }
}

/// Total number of stored items over all content kinds.
pub open spec fn sum_counts(s: Seq<usize>) -> int {
    sum_prefix(s, s.len() as int)
}

/// A prefix sum never exceeds a longer prefix sum of the same counts.
pub proof fn lemma_sum_prefix_mono(s: Seq<usize>, n: int, m: int)
    requires
        0 <= n <= m <= s.len(),
    ensures
        sum_prefix(s, n) <= sum_prefix(s, m),
    decreases m - n,
{
    if n < m {
        lemma_sum_prefix_mono(s, n, m - 1);
    }
}

/// Changing one count changes the sum by the same amount.
pub proof fn lemma_sum_prefix_update(s: Seq<usize>, i: int, v: usize, n: int)
    requires
        0 <= i < s.len(),
        0 <= n <= s.len(),
    ensures
        sum_prefix(s.update(i, v), n) == if i < n {
            sum_prefix(s, n) + v - s[i]
        } else {
            sum_prefix(s, n)
        },
    decreases n,
{
    if n > 0 {
        lemma_sum_prefix_update(s, i, v, n - 1);
    }
}

/// The robot's storage: a capacity and, for every content kind, how many
/// items of that kind are held.
pub struct BackPack {
    /// Greatest total number of items the backpack can hold.
    pub size: usize,
    /// Item count per content kind, indexed like the capability tables.
    pub counts: Vec<usize>,
}

/// Well-formedness of a backpack: one count per content kind, and no more
/// items in total than the capacity.
pub open spec fn backpack_ok(bp: BackPack) -> bool {
    &&& bp.counts@.len() == N_CONTENTS
    &&& sum_counts(bp.counts@) <= bp.size
}

impl BackPack {
    /// An empty backpack with the given capacity.
    pub fn new(size: usize) -> (bp: BackPack)
        ensures
            backpack_ok(bp),
            bp.size == size,
            forall|i: int| 0 <= i < N_CONTENTS ==> bp.counts@[i] == 0,
    {
        let mut counts: Vec<usize> = Vec::new();
        let mut i: usize = 0;
        while i < N_CONTENTS
            invariant
                i <= N_CONTENTS,
                counts@.len() == i,
                forall|k: int| 0 <= k < i ==> counts@[k] == 0,
            decreases N_CONTENTS - i,
        {
            counts.push(0);
            i += 1;
        }
        proof {
            lemma_sum_prefix_zero(counts@, counts@.len() as int);
        }
        BackPack { size, counts }
    }

    pub fn get_size(&self) -> (r: usize)
        ensures
            r == self.size,
    {
        self.size
    }

    /// Number of held items of the same kind as `content`.
    pub fn count_of(&self, content: &Content) -> (r: usize)
        requires
            self.counts@.len() == N_CONTENTS,
        ensures
            r == self.counts@[content_index_spec(*content)],
    {
        let i = content.index();
        self.counts[i]
    }

    /// Total number of held items.
    pub fn used_space(&self) -> (r: usize)
        requires
            backpack_ok(*self),
        ensures
            r == sum_counts(self.counts@),
    {
        let mut acc: usize = 0;
        let mut i: usize = 0;
        while i < self.counts.len()
            invariant
                backpack_ok(*self),
                i <= self.counts@.len(),
                acc == sum_prefix(self.counts@, i as int),
            decreases self.counts@.len() - i,
        {
            proof {
                lemma_sum_prefix_mono(self.counts@, i + 1, self.counts@.len() as int);
            }
            acc = acc + self.counts[i];
            i += 1;
        }
        acc
    }

    /// The held items as a map from a zero-quantity content value of each
    /// kind to the held count.
    pub fn get_contents(&self) -> (m: HashMap<Content, usize>)
        requires
            self.counts@.len() == N_CONTENTS,
    {
        let mut m: HashMap<Content, usize> = HashMap::new();
        m.insert(Content::Rock(0), self.counts[0]);
        m.insert(Content::Tree(0), self.counts[1]);
        m.insert(Content::Garbage(0), self.counts[2]);
        m.insert(Content::Fire, self.counts[3]);
        m.insert(Content::Coin(0), self.counts[4]);
        m.insert(Content::Bin(0usize..0usize), self.counts[5]);
        m.insert(Content::Crate(0usize..0usize), self.counts[6]);
        m.insert(Content::Bank(0usize..0usize), self.counts[7]);
        m.insert(Content::Water(0), self.counts[8]);
        m.insert(Content::Empty, self.counts[9]);
        m
    }
}

/// An all-zero count vector sums to zero.
pub proof fn lemma_sum_prefix_zero(s: Seq<usize>, n: int)
    requires
        0 <= n <= s.len(),
        forall|k: int| 0 <= k < s.len() ==> s[k] == 0,
    ensures
        sum_prefix(s, n) == 0,
    decreases n,
{
    if n > 0 {
        lemma_sum_prefix_zero(s, n - 1);
    }
}

} // verus!
