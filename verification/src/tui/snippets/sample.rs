//! Syntax preview sample: a small configuration type and an item filter.

use std::collections::HashMap;

use vstd::prelude::*;
use vstd::std_specs::hash::*;


verus! {

/// Upper bound on items in the sample.
pub const MAX_ITEMS: usize = 100;

/// Version string of the sample.
pub const VERSION: &'static str = "1.0.0";

/// A named, counted, switchable configuration.
#[derive(Debug, Clone)]
pub struct Config {
    pub name: String,
    pub count: u32,
    pub enabled: bool,
}

impl Config {
    /// A fresh configuration: the given name, count zero, enabled.
    pub fn new(name: &str) -> (r: Self)
        ensures
            r.name@ == name@,
            r.count == 0,
            r.enabled,
    {
        Config { name: name.to_owned(), count: 0, enabled: true }
    }
}

/// Maps every non-negative item to whether it is even; negative items are
/// skipped.
pub fn process(items: &[i32]) -> (r: HashMap<i32, bool>)
    ensures
        forall|k: i32| r@.contains_key(k) <==> (k >= 0 && items@.contains(k)),
        forall|k: i32| #[trigger] r@.contains_key(k) ==> r@[k] == (k % 2 == 0),
{
    broadcast use group_hash_axioms;

    let mut result: HashMap<i32, bool> = HashMap::new();
    let mut i: usize = 0;
    while i < items.len()
        invariant
            i <= items@.len(),
            forall|k: i32|
                result@.contains_key(k) <==> (k >= 0 && items@.subrange(0, i as int).contains(k)),
            forall|k: i32| #[trigger] result@.contains_key(k) ==> result@[k] == (k % 2 == 0),
        decreases items@.len() - i,
    {
        let item = items[i];
        proof {
            assert forall|k: i32|
                items@.subrange(0, i + 1).contains(k) <==> (items@.subrange(0, i as int).contains(k)
                    || k == item) by {
                if items@.subrange(0, i + 1).contains(k) {
                    let j = choose|j: int|
                        0 <= j < i + 1 && #[trigger] items@.subrange(0, i + 1)[j] == k;
                    if j < i {
                        assert(items@.subrange(0, i as int)[j] == k);
                    }
                }
                if items@.subrange(0, i as int).contains(k) {
                    let j = choose|j: int|
                        0 <= j < i && #[trigger] items@.subrange(0, i as int)[j] == k;
                    assert(items@.subrange(0, i + 1)[j] == k);
                }
                if k == item {
                    assert(items@.subrange(0, i + 1)[i as int] == k);
                }
            }
        }
        if item >= 0 {
            let is_even = item % 2 == 0;
            result.insert(item, is_even);
        }
        i = i + 1;
    }
    assert(items@.subrange(0, items@.len() as int) =~= items@);
    result
}

} // verus!
