//! Concrete declared values: each one fixes the two name segments, the
//! stored type and the query conversions, and proves the query round-trip
//! obligation.

use vstd::prelude::*;

use crate::value::StorageValue;

verus! {

/// A counter stored under `"Accounts"` / `"Total"`: an absent payload reads
/// as zero, and every query value is stored.
pub struct TotalValue;

impl StorageValue for TotalValue {
    type Value = u64;

    type Query = u64;

    open spec fn spec_module_prefix() -> Seq<u8> {
        seq![65u8, 99u8, 99u8, 111u8, 117u8, 110u8, 116u8, 115u8]
    }

    open spec fn spec_storage_prefix() -> Seq<u8> {
        seq![84u8, 111u8, 116u8, 97u8, 108u8]
    }

    fn module_prefix() -> (r: Vec<u8>) {
        let r = vec![65u8, 99u8, 99u8, 111u8, 117u8, 110u8, 116u8, 115u8];
        proof {
            assert(r@ =~= Self::spec_module_prefix());
        }
        r
    }

    fn storage_prefix() -> (r: Vec<u8>) {
        let r = vec![84u8, 111u8, 116u8, 97u8, 108u8];
        proof {
            assert(r@ =~= Self::spec_storage_prefix());
        }
        r
    }

    open spec fn spec_from_optional_value_to_query(v: Option<u64>) -> u64 {
        match v {
            None => 0u64,
            Some(x) => x,
        }
    }

    open spec fn spec_from_query_to_optional_value(q: u64) -> Option<u64> {
        Some(q)
    }

    fn from_optional_value_to_query(v: Option<u64>) -> (q: u64) {
        match v {
            None => 0,
            Some(x) => x,
        }
    }

    fn from_query_to_optional_value(q: u64) -> (v: Option<u64>) {
        Some(q)
    }

    proof fn lemma_query_roundtrip(m: u64) {
    }
}

/// An optional value stored under `"Accounts"` / `"Pending"`: the query is
/// the optional value itself, so committing `None` frees the slot.
pub struct PendingValue;

impl StorageValue for PendingValue {
    type Value = u64;

    type Query = Option<u64>;

    open spec fn spec_module_prefix() -> Seq<u8> {
        seq![65u8, 99u8, 99u8, 111u8, 117u8, 110u8, 116u8, 115u8]
    }

    open spec fn spec_storage_prefix() -> Seq<u8> {
        seq![80u8, 101u8, 110u8, 100u8, 105u8, 110u8, 103u8]
    }

    fn module_prefix() -> (r: Vec<u8>) {
        let r = vec![65u8, 99u8, 99u8, 111u8, 117u8, 110u8, 116u8, 115u8];
        proof {
            assert(r@ =~= Self::spec_module_prefix());
        }
        r
    }

    fn storage_prefix() -> (r: Vec<u8>) {
        let r = vec![80u8, 101u8, 110u8, 100u8, 105u8, 110u8, 103u8];
        proof {
            assert(r@ =~= Self::spec_storage_prefix());
        }
        r
    }

    open spec fn spec_from_optional_value_to_query(v: Option<u64>) -> Option<u64> {
        v
    }

    open spec fn spec_from_query_to_optional_value(q: Option<u64>) -> Option<u64> {
        q
    }

    fn from_optional_value_to_query(v: Option<u64>) -> (q: Option<u64>) {
        v
    }

    fn from_query_to_optional_value(q: Option<u64>) -> (v: Option<u64>) {
        q
    }

    proof fn lemma_query_roundtrip(m: u64) {
    }
}

/// A growable sequence stored under `"Accounts"` / `"Numbers"`: an absent
/// payload reads as the empty sequence, and every query value is stored.
pub struct NumberList;

impl StorageValue for NumberList {
    type Value = Vec<u64>;

    type Query = Vec<u64>;

    open spec fn spec_module_prefix() -> Seq<u8> {
        seq![65u8, 99u8, 99u8, 111u8, 117u8, 110u8, 116u8, 115u8]
    }

    open spec fn spec_storage_prefix() -> Seq<u8> {
        seq![78u8, 117u8, 109u8, 98u8, 101u8, 114u8, 115u8]
    }

    fn module_prefix() -> (r: Vec<u8>) {
        let r = vec![65u8, 99u8, 99u8, 111u8, 117u8, 110u8, 116u8, 115u8];
        proof {
            assert(r@ =~= Self::spec_module_prefix());
        }
        r
    }

    fn storage_prefix() -> (r: Vec<u8>) {
        let r = vec![78u8, 117u8, 109u8, 98u8, 101u8, 114u8, 115u8];
        proof {
            assert(r@ =~= Self::spec_storage_prefix());
        }
        r
    }

    open spec fn spec_from_optional_value_to_query(v: Option<Seq<u64>>) -> Seq<u64> {
        match v {
            None => Seq::<u64>::empty(),
            Some(s) => s,
        }
    }

    open spec fn spec_from_query_to_optional_value(q: Seq<u64>) -> Option<Seq<u64>> {
        Some(q)
    }

    fn from_optional_value_to_query(v: Option<Vec<u64>>) -> (q: Vec<u64>) {
        match v {
            None => {
                let q: Vec<u64> = Vec::new();
                proof {
                    assert(q.deep_view() =~= Seq::<u64>::empty());
                }
                q
            },
            Some(x) => x,
        }
    }

    fn from_query_to_optional_value(q: Vec<u64>) -> (v: Option<Vec<u64>>) {
        Some(q)
    }

    proof fn lemma_query_roundtrip(m: Seq<u64>) {
    }
}

} // verus!
