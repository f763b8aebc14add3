//! Sums of value by asset.

use vstd::prelude::*;
use crate::tx::bytes32_eq;

verus! {

/// The kind of an asset in the shielded pool.
#[derive(Clone, Copy, Debug, PartialEq, Eq, Hash)]
pub struct AssetType(pub [u8; 32]);

/// One asset of a sum, with its value.
#[derive(Clone, Copy, Debug, PartialEq, Eq)]
pub struct Component {
    pub asset_type: AssetType,
    pub value: i128,
}

/// A sum of values of several assets. An asset that is not named has the
/// value 0; of an asset that is named more than once the first value counts.
#[derive(Clone, Debug, PartialEq, Eq)]
pub struct I128Sum {
    pub components: Vec<Component>,
}

/// The value of an asset in a list of components.
pub open spec fn spec_value_of(components: Seq<Component>, asset_type: AssetType) -> int
    decreases components.len(),
{
    if components.len() == 0 {
        0
    } else if components[0].asset_type == asset_type {
        components[0].value as int
    } else {
        spec_value_of(components.drop_first(), asset_type)
    }
}

/// An asset with a value other than 0 is named among the components.
pub proof fn lemma_value_is_named(components: Seq<Component>, asset_type: AssetType)
    requires
        spec_value_of(components, asset_type) != 0,
    ensures
        exists|i: int|
            0 <= i < components.len() && (#[trigger] components[i]).asset_type == asset_type,
    decreases components.len(),
{
    if components[0].asset_type != asset_type {
        lemma_value_is_named(components.drop_first(), asset_type);
        let i = choose|i: int|
            0 <= i < components.drop_first().len() && (
            #[trigger] components.drop_first()[i]).asset_type == asset_type;
        assert(components[i + 1].asset_type == asset_type);
    }
}

impl I128Sum {
    /// The value of an asset in the sum.
    pub open spec fn spec_value(&self, asset_type: AssetType) -> int {
        spec_value_of(self.components@, asset_type)
    }

    /// The sum of nothing.
    pub fn zero() -> (r: I128Sum)
        ensures
            forall|asset_type: AssetType| r.spec_value(asset_type) == 0,
    {
        I128Sum { components: Vec::new() }
    }

    /// The value of an asset in the sum.
    pub fn value(&self, asset_type: AssetType) -> (r: i128)
        ensures
            r == self.spec_value(asset_type),
    {
        let mut i: usize = 0;
        assert(self.components@.skip(0) =~= self.components@);
        while i < self.components.len()
            invariant
                i <= self.components@.len(),
                spec_value_of(self.components@, asset_type) == spec_value_of(
                    self.components@.skip(i as int),
                    asset_type,
                ),
            decreases self.components@.len() - i,
        {
            let ghost rest = self.components@.skip(i as int);
            assert(rest[0] == self.components@[i as int]);
            assert(rest.drop_first() =~= self.components@.skip(i + 1));
            if bytes32_eq(&self.components[i].asset_type.0, &asset_type.0) {
                return self.components[i].value;
            }
            i += 1;
        }
        0
    }
}

/// Whether a note of value `delta` brings `src` closer to `dest`: whether
/// some asset of the note is one of which `dest` holds more than `src`.
pub open spec fn spec_is_amount_required(src: I128Sum, dest: I128Sum, delta: I128Sum) -> bool {
    exists|asset_type: AssetType|
        dest.spec_value(asset_type) - src.spec_value(asset_type) > 0 && #[trigger] delta.spec_value(
            asset_type,
        ) > 0
}

/// Determine if using the current note would actually bring us closer to our
/// target.
pub fn is_amount_required(src: &I128Sum, dest: &I128Sum, delta: &I128Sum) -> (r: bool)
    ensures
        r == spec_is_amount_required(*src, *dest, *delta),
{
    let mut i: usize = 0;
    while i < delta.components.len()
        invariant
            i <= delta.components@.len(),
            forall|j: int|
                0 <= j < i ==> !(dest.spec_value((#[trigger] delta.components@[j]).asset_type)
                    - src.spec_value(delta.components@[j].asset_type) > 0 && delta.spec_value(
                    delta.components@[j].asset_type,
                ) > 0),
        decreases delta.components@.len() - i,
    {
        let asset_type = delta.components[i].asset_type;
        if delta.value(asset_type) > 0 && dest.value(asset_type) > src.value(asset_type) {
            return true;
        }
        i += 1;
    }
    proof {
        if spec_is_amount_required(*src, *dest, *delta) {
            let asset_type = choose|asset_type: AssetType|
                dest.spec_value(asset_type) - src.spec_value(asset_type) > 0
                    && #[trigger] delta.spec_value(asset_type) > 0;
            lemma_value_is_named(delta.components@, asset_type);
            let j = choose|j: int|
                0 <= j < delta.components@.len() && (#[trigger] delta.components@[j]).asset_type
                    == asset_type;
            assert(false);
        }
    }
    false
}

} // verus!
