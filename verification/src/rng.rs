//! Random draws.
//!
//! The pseudo random generators of `rand` and `rand_chacha` are held as plain numbers: what a
//! seeded generator draws next depends on its seed and its position alone.

use rand::seq::SliceRandom;
use rand::Rng;
use rand::SeedableRng;
use vstd::prelude::*;

verus! {

/// `items` rearranged so that place `i` holds the item that stood at `order[i]`.
pub open spec fn rearranged<T>(items: Seq<T>, order: Seq<int>) -> Seq<T> {
    Seq::new(items.len(), |i: int| items[order[i]])
}

/// What `SliceRandom::choose_multiple` picks of `items` with a `ChaCha8Rng` seeded with `seed` that
/// stands at word `pos`, and the word at which the generator stands afterwards.
pub uninterp spec fn chacha8_choose(seed: u64, pos: u128, items: Seq<usize>, amount: nat) -> (
    Seq<usize>,
    u128,
);

/// The order in which `SliceRandom::shuffle` leaves `len` items with a `ChaCha8Rng` seeded with
/// `seed` that stands at word `pos`, and the word at which the generator stands afterwards.
pub uninterp spec fn chacha8_shuffle(seed: u64, pos: u128, len: nat) -> (Seq<int>, u128);

/// What `Rng::gen_range(low..=high)` draws for `usize` numbers of `word_bits` bits with a
/// `ChaCha8Rng` seeded with `seed` that stands at word `pos`, and the word at which the generator
/// stands afterwards.
pub uninterp spec fn chacha8_range(
    word_bits: u32,
    seed: u64,
    pos: u128,
    low: usize,
    high: usize,
) -> (usize, u128);

/// What `Rng::gen_ratio` draws with a `ChaCha8Rng` seeded with `seed` that stands at word `pos`, and
/// the word at which the generator stands afterwards.
pub uninterp spec fn chacha8_ratio(seed: u64, pos: u128, numerator: u32, denominator: u32) -> (
    bool,
    u128,
);

/// The order in which `SliceRandom::shuffle` leaves `len` items with a fresh `StdRng` seeded with
/// `seed`.
pub uninterp spec fn std_rng_shuffle(seed: u64, len: nat) -> Seq<int>;

/// A `ChaCha8Rng` made from a number, at some position of its stream.
pub struct SeededRng {
    pub seed: u64,
    pub pos: u128,
}

impl SeededRng {
    /// The generator for `seed`, at the start of its stream.
    pub fn seed_from_u64(seed: u64) -> (rng: Self)
        ensures
            rng.seed == seed,
            rng.pos == 0,
    {
        SeededRng { seed, pos: 0 }
    }

    /// `SliceRandom::choose_multiple` with this generator.
    ///
    /// Trusted: the picks and the new position depend on the seed, the position, the items and the
    /// amount alone; as many items are picked as asked for, or all of them where there are fewer;
    /// each pick is one of the items, and where no item occurs twice none is picked twice. More than
    /// `u32::MAX` items cannot all be picked: the sampling asserts that some are left over.
    #[verifier::external_body]
    pub(crate) fn choose_multiple(&mut self, items: &Vec<usize>, amount: usize) -> (picked: Vec<
        usize,
    >)
        requires
            items@.len() <= u32::MAX || amount < items@.len(),
        ensures
            final(self).seed == old(self).seed,
            (picked@, final(self).pos) == chacha8_choose(
                old(self).seed,
                old(self).pos,
                items@,
                amount as nat,
            ),
            picked@.len() == if amount <= items@.len() {
                amount as nat
            } else {
                items@.len()
            },
            forall|i: int| 0 <= i < picked@.len() ==> items@.contains(#[trigger] picked@[i]),
            items@.no_duplicates() ==> picked@.no_duplicates(),
    {
        let mut rng = rand_chacha::ChaCha8Rng::seed_from_u64(self.seed);
        rng.set_word_pos(self.pos);
        let picked = items.choose_multiple(&mut rng, amount).cloned().collect();
        self.pos = rng.get_word_pos();
        picked
    }

    /// `SliceRandom::shuffle` with this generator.
    ///
    /// Trusted: the new order and the new position depend on the seed, the position and the number
    /// of items alone, and the items are rearranged, none is lost or added.
    #[verifier::external_body]
    pub(crate) fn shuffle<T>(&mut self, items: &mut Vec<T>)
        ensures
            final(self).seed == old(self).seed,
            final(self).pos == chacha8_shuffle(
                old(self).seed,
                old(self).pos,
                old(items)@.len(),
            ).1,
            final(items)@ == rearranged(
                old(items)@,
                chacha8_shuffle(old(self).seed, old(self).pos, old(items)@.len()).0,
            ),
            final(items)@.to_multiset() == old(items)@.to_multiset(),
    {
        let mut rng = rand_chacha::ChaCha8Rng::seed_from_u64(self.seed);
        rng.set_word_pos(self.pos);
        items.shuffle(&mut rng);
        self.pos = rng.get_word_pos();
    }

    /// `Rng::gen_range` over `low..=high` with this generator.
    ///
    /// Trusted: the number and the new position depend on the seed, the position, the two bounds and
    /// the width of `usize` alone, and the number lies between the bounds. An empty range panics.
    #[verifier::external_body]
    pub(crate) fn gen_range(&mut self, low: usize, high: usize) -> (drawn: usize)
        requires
            low <= high,
        ensures
            final(self).seed == old(self).seed,
            (drawn, final(self).pos) == chacha8_range(
                usize::BITS,
                old(self).seed,
                old(self).pos,
                low,
                high,
            ),
            low <= drawn <= high,
    {
        let mut rng = rand_chacha::ChaCha8Rng::seed_from_u64(self.seed);
        rng.set_word_pos(self.pos);
        let drawn = rng.gen_range(low..=high);
        self.pos = rng.get_word_pos();
        drawn
    }

    /// `Rng::gen_ratio` with this generator.
    ///
    /// Trusted: the answer and the new position depend on the seed, the position and the ratio
    /// alone. A ratio above one, or of nothing, panics.
    #[verifier::external_body]
    pub(crate) fn gen_ratio(&mut self, numerator: u32, denominator: u32) -> (drawn: bool)
        requires
            0 < denominator,
            numerator <= denominator,
        ensures
            final(self).seed == old(self).seed,
            (drawn, final(self).pos) == chacha8_ratio(
                old(self).seed,
                old(self).pos,
                numerator,
                denominator,
            ),
            numerator == denominator ==> drawn,
            numerator == 0 ==> !drawn,
    {
        let mut rng = rand_chacha::ChaCha8Rng::seed_from_u64(self.seed);
        rng.set_word_pos(self.pos);
        let drawn = rng.gen_ratio(numerator, denominator);
        self.pos = rng.get_word_pos();
        drawn
    }
}

/// `SliceRandom::shuffle` with a fresh `StdRng` seeded with `seed`.
///
/// Trusted: the new order depends on the seed and the number of items alone, and the items are
/// rearranged, none is lost or added.
#[verifier::external_body]
pub(crate) fn shuffle_with_std_rng<T>(seed: u64, items: &mut Vec<T>)
    ensures
        final(items)@ == rearranged(old(items)@, std_rng_shuffle(seed, old(items)@.len())),
        final(items)@.to_multiset() == old(items)@.to_multiset(),
{
    let mut rng = rand::rngs::StdRng::seed_from_u64(seed);
    items.shuffle(&mut rng);
}

/// A number drawn by the thread's generator from `low..high`, through a `Uniform` distribution.
///
/// Trusted: the number lies in the range, and nothing else, since it depends on chance. An empty
/// range panics.
#[verifier::external_body]
pub(crate) fn sample_uniform(low: u64, high: u64) -> (drawn: u64)
    requires
        low < high,
    ensures
        low <= drawn < high,
{
    rand::thread_rng().sample(rand::distributions::Uniform::new(low, high))
}

/// A number drawn by the thread's generator from `0..limit`, through `Rng::gen_range`.
///
/// Trusted: the number lies in the range, and nothing else, since it depends on chance. An empty
/// range panics.
#[verifier::external_body]
pub(crate) fn random_below(limit: u64) -> (drawn: u64)
    requires
        0 < limit,
    ensures
        drawn < limit,
{
    rand::thread_rng().gen_range(0..limit)
}

/// A number drawn by the thread's generator, through `rand::random`.
///
/// Trusted: nothing, since the number depends on chance.
#[verifier::external_body]
pub(crate) fn random_u32() -> (drawn: u32) {
    rand::random::<u32>()
}

} // verus!
