//! The discrete side of a categorical distribution over `k` categories.
//!
//! The distribution's weights are real numbers and live with the driver. What
//! is decided here works on integers that stand for them: cumulative
//! probabilities scaled to the denominator of a uniform draw, and keys that
//! order the weights.

use vstd::prelude::*;

verus! {

/// Whether `index` is the category that a uniform draw selects by inverse
/// CDF: the first one whose cumulative threshold lies above the draw, and the
/// last category if none does.
pub open spec fn picks(thresholds: Seq<u32>, draw: u32, index: int) -> bool {
    &&& 0 <= index < thresholds.len()
    &&& forall|i: int| 0 <= i < index ==> #[trigger] thresholds[i] <= draw
    &&& draw < thresholds[index] || index == thresholds.len() - 1
}

/// Whether the thresholds never fall from one category to the next.
pub open spec fn ascending(thresholds: Seq<u32>) -> bool {
    forall|i: int, j: int|
        0 <= i <= j < thresholds.len() ==> #[trigger] thresholds[i] <= #[trigger] thresholds[j]
}

/// Whether `index` is the first position that holds the largest key.
pub open spec fn leads(keys: Seq<i64>, index: int) -> bool {
    &&& 0 <= index < keys.len()
    &&& forall|i: int| 0 <= i < keys.len() ==> #[trigger] keys[i] <= keys[index]
    &&& forall|i: int| 0 <= i < index ==> #[trigger] keys[i] < keys[index]
}

/// The integer that stands for a weight given by its single-precision bit
/// pattern: the magnitude bits for a weight whose sign bit is clear, and below
/// all of those, falling as the magnitude bits rise, the keys of the weights
/// whose sign bit is set.
pub open spec fn key_of(bits: u32) -> i64 {
    if bits < 0x8000_0000 {
        bits as i64
    } else {
        (-1 - (bits - 0x8000_0000)) as i64
    }
}

/// The one-hot encoding of category `index` among `categories`.
pub open spec fn indicator(categories: nat, index: nat) -> Seq<bool> {
    Seq::new(categories, |c: int| c == index)
}

/// Number of entries that are set.
pub open spec fn count_set(flags: Seq<bool>) -> nat
    decreases flags.len(),
{
    if flags.len() == 0 {
        0
    } else {
        count_set(flags.drop_last()) + if flags.last() {
            1nat
        } else {
            0nat
        }
    }
}

/// Selects a category by inverse CDF. `thresholds[i]` is the cumulative
/// probability of the categories up to `i`, as a numerator over the same
/// denominator as `draw`. Without categories there is nothing to select.
pub fn select_category(thresholds: &Vec<u32>, draw: u32) -> (selected: Option<usize>)
    ensures
        match selected {
            Some(index) => picks(thresholds@, draw, index as int),
            None => thresholds@.len() == 0,
        },
{
    let n = thresholds.len();
    if n == 0 {
        return None;
    }
    let mut index: usize = 0;
    while index + 1 < n && thresholds[index] <= draw
        invariant
            n == thresholds@.len(),
            index < n,
            forall|i: int| 0 <= i < index ==> thresholds@[i] <= draw,
        decreases n - index,
    {
        index += 1;
    }
    Some(index)
}

/// The key that orders a weight among others, from the weight's bit pattern.
pub fn order_key(bits: u32) -> (key: i64)
    ensures
        key == key_of(bits),
{
    if bits < 0x8000_0000 {
        bits as i64
    } else {
        -1 - ((bits - 0x8000_0000) as i64)
    }
}

/// The first position of the largest key, the most likely category when the
/// keys order the weights. Without keys there is none.
pub fn argmax(keys: &Vec<i64>) -> (best: Option<usize>)
    ensures
        match best {
            Some(index) => leads(keys@, index as int),
            None => keys@.len() == 0,
        },
{
    let n = keys.len();
    if n == 0 {
        return None;
    }
    let mut best: usize = 0;
    let mut i: usize = 1;
    while i < n
        invariant
            n == keys@.len(),
            1 <= i <= n,
            best < i,
            forall|j: int| 0 <= j < i ==> keys@[j] <= keys@[best as int],
            forall|j: int| 0 <= j < best ==> keys@[j] < keys@[best as int],
        decreases n - i,
    {
        if keys[i] > keys[best] {
            best = i;
        }
        i += 1;
    }
    Some(best)
}

/// The one-hot encoding of a sampled category.
pub fn one_hot(categories: usize, index: usize) -> (flags: Vec<bool>)
    ensures
        flags@ == indicator(categories as nat, index as nat),
{
    let mut flags: Vec<bool> = Vec::new();
    let mut c: usize = 0;
    while c < categories
        invariant
            c <= categories,
            flags@ == indicator(c as nat, index as nat),
        decreases categories - c,
    {
        flags.push(c == index);
        c += 1;
        assert(flags@ =~= indicator(c as nat, index as nat));
    }
    flags
}

/// A draw selects one category and no other.
pub proof fn lemma_pick_is_unique(thresholds: Seq<u32>, draw: u32, a: int, b: int)
    requires
        picks(thresholds, draw, a),
        picks(thresholds, draw, b),
    ensures
        a == b,
{
}

/// With at least one category every draw selects one.
pub proof fn lemma_pick_exists(thresholds: Seq<u32>, draw: u32)
    requires
        thresholds.len() > 0,
    ensures
        exists|index: int| picks(thresholds, draw, index),
    decreases thresholds.len(),
{
    if thresholds.len() == 1 || draw < thresholds[0] {
        assert(picks(thresholds, draw, 0));
    } else {
        let rest = thresholds.subrange(1, thresholds.len() as int);
        lemma_pick_exists(rest, draw);
        let at = choose|index: int| picks(rest, draw, index);
        assert forall|i: int| 0 <= i < at + 1 implies thresholds[i] <= draw by {
            if i > 0 {
                assert(rest[i - 1] == thresholds[i]);
            }
        }
        assert(rest[at] == thresholds[at + 1]);
        assert(picks(thresholds, draw, at + 1));
    }
}

/// Inverse-CDF selection gives each category its share of the draws: under
/// ascending thresholds that end above the draw, category `index` is selected
/// by exactly the draws from the threshold before it (zero for the first
/// category) up to, and without, its own.
pub proof fn lemma_pick_interval(thresholds: Seq<u32>, draw: u32, index: int)
    requires
        ascending(thresholds),
        0 <= index < thresholds.len(),
        draw < thresholds.last(),
    ensures
        picks(thresholds, draw, index) <==> (index == 0 || thresholds[index - 1] <= draw) && draw
            < thresholds[index],
{
    if picks(thresholds, draw, index) {
        if index > 0 {
            assert(thresholds[index - 1] <= draw);
        }
    }
}

/// The largest key has one first position.
pub proof fn lemma_leader_is_unique(keys: Seq<i64>, a: int, b: int)
    requires
        leads(keys, a),
        leads(keys, b),
    ensures
        a == b,
{
    if a < b {
        assert(keys[a] < keys[b]);
        assert(keys[b] <= keys[a]);
    } else if b < a {
        assert(keys[b] < keys[a]);
        assert(keys[a] <= keys[b]);
    }
}

/// Keys order bit patterns as sign and magnitude do: among patterns with the
/// sign bit clear the larger magnitude has the larger key, among patterns with
/// the sign bit set the smaller magnitude has, and every pattern with the sign
/// bit set has a smaller key than every pattern with the sign bit clear.
pub proof fn lemma_keys_order_sign_and_magnitude(a: u32, b: u32)
    ensures
        a < 0x8000_0000 && b < 0x8000_0000 ==> (key_of(a) < key_of(b) <==> a < b),
        a >= 0x8000_0000 && b >= 0x8000_0000 ==> (key_of(a) < key_of(b) <==> a > b),
        a >= 0x8000_0000 && b < 0x8000_0000 ==> key_of(a) < key_of(b),
        key_of(a) == key_of(b) <==> a == b,
{
}

/// The one-hot encoding of a category sets exactly one entry, that category's;
/// an index past the categories sets none.
pub proof fn lemma_indicator_count(categories: nat, index: nat)
    ensures
        count_set(indicator(categories, index)) == if index < categories {
            1nat
        } else {
            0nat
        },
    decreases categories,
{
    if categories > 0 {
        let before = (categories - 1) as nat;
        lemma_indicator_count(before, index);
        assert(indicator(categories, index).drop_last() =~= indicator(before, index));
    }
}

} // verus!
