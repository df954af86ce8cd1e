use vstd::prelude::*;

use crate::json::{json_lookup, JsonValue};

verus! {

/// Map-like values that can be asked whether they carry a whole set of
/// keys.
pub trait ContainsKeys {
    /// What it means to carry every one of the keys.
    spec fn spec_contains_keys(&self, keys: Seq<Seq<char>>) -> bool;

    fn contains_keys(&self, keys: &[&str]) -> (r: bool)
        ensures
            r == self.spec_contains_keys(keys@.map_values(|k: &str| k@)),
    ;
}

impl ContainsKeys for JsonValue {
    open spec fn spec_contains_keys(&self, keys: Seq<Seq<char>>) -> bool {
        &&& self@ is Obj
        &&& forall|i: int|
            0 <= i < keys.len() ==> json_lookup(self@, #[trigger] keys[i]) is Some
    }

    /// An object carries the keys when each one is present; any other
    /// document carries none.
    #[verifier::loop_isolation(false)]
    fn contains_keys(&self, keys: &[&str]) -> (r: bool) {
        if !self.is_object() {
            return false;
        }
        let ghost key_views = keys@.map_values(|k: &str| k@);
        let mut idx: usize = 0;
        while idx < keys.len()
            invariant
                idx <= keys@.len(),
                forall|j: int|
                    0 <= j < idx ==> json_lookup(self@, #[trigger] key_views[j]) is Some,
            decreases keys@.len() - idx,
        {
            proof {
                assert(key_views[idx as int] == keys@[idx as int]@);
            }
            if self.get(keys[idx]).is_none() {
                return false;
            }
            idx = idx + 1;
        }
        true
    }
}

} // verus!
