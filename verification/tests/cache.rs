use web3_proxy::cache::{CacheKey, ResponseCache};
use web3_proxy::primitives::H256;

fn key(method: &str, params: Option<&str>) -> CacheKey {
    CacheKey {
        block_hash: H256::zero(),
        method: method.to_string(),
        params: params.map(|p| p.to_string()),
    }
}

#[test]
fn what_is_inserted_is_found() {
    let mut cache = ResponseCache::new(10, 100);
    assert!(cache.insert(key("eth_call", Some("[1]")), vec![1, 2, 3]));
    assert_eq!(cache.get(&key("eth_call", Some("[1]"))), Some(&vec![1, 2, 3]));
    assert_eq!(cache.get(&key("eth_call", Some("[2]"))), None);
    assert_eq!(cache.get(&key("eth_call", None)), None);
    assert_eq!(cache.len(), 1);
    assert_eq!(cache.size(), 3);
}

#[test]
fn keys_differ_by_block_method_and_params() {
    let a = key("eth_call", Some("[1]"));
    assert!(a.same(&a.duplicate()));
    assert!(!a.same(&key("eth_call", Some("[2]"))));
    assert!(!a.same(&key("eth_call", None)));
    assert!(!a.same(&key("eth_getCode", Some("[1]"))));
    let mut other = a.duplicate();
    other.block_hash.bytes[31] = 1;
    assert!(!a.same(&other));
}

#[test]
fn the_later_insert_under_a_key_is_found() {
    let mut cache = ResponseCache::new(10, 100);
    assert!(cache.insert(key("a", None), vec![1]));
    assert!(cache.insert(key("a", None), vec![2, 2]));
    assert_eq!(cache.get(&key("a", None)), Some(&vec![2, 2]));
    assert_eq!(cache.len(), 1);
    assert_eq!(cache.size(), 2);
}

#[test]
fn a_value_larger_than_the_cache_is_not_stored() {
    let mut cache = ResponseCache::new(10, 4);
    assert!(cache.insert(key("a", None), vec![0; 4]));
    assert!(!cache.insert(key("b", None), vec![0; 5]));
    assert_eq!(cache.get(&key("b", None)), None);
    assert_eq!(cache.get(&key("a", None)), Some(&vec![0; 4]));
    assert_eq!(cache.len(), 1);
    assert_eq!(cache.size(), 4);
}

#[test]
fn a_cache_without_room_for_entries_stores_nothing() {
    let mut cache = ResponseCache::new(0, 100);
    assert!(!cache.insert(key("a", None), vec![1]));
    assert_eq!(cache.len(), 0);
}

#[test]
fn the_oldest_entries_leave_first_when_entries_run_out() {
    let mut cache = ResponseCache::new(2, 100);
    assert!(cache.insert(key("a", None), vec![1]));
    assert!(cache.insert(key("b", None), vec![2]));
    assert!(cache.insert(key("c", None), vec![3]));
    assert_eq!(cache.get(&key("a", None)), None);
    assert_eq!(cache.get(&key("b", None)), Some(&vec![2]));
    assert_eq!(cache.get(&key("c", None)), Some(&vec![3]));
    assert_eq!(cache.len(), 2);
}

#[test]
fn the_oldest_entries_leave_first_when_bytes_run_out() {
    let mut cache = ResponseCache::new(10, 10);
    assert!(cache.insert(key("a", None), vec![0; 4]));
    assert!(cache.insert(key("b", None), vec![0; 4]));
    assert!(cache.insert(key("c", None), vec![0; 7]));
    assert_eq!(cache.get(&key("a", None)), None);
    assert_eq!(cache.get(&key("b", None)), None);
    assert_eq!(cache.get(&key("c", None)), Some(&vec![0; 7]));
    assert_eq!(cache.size(), 7);
    assert!(cache.insert(key("d", None), vec![0; 3]));
    assert_eq!(cache.len(), 2);
    assert_eq!(cache.size(), 10);
}

#[test]
fn replacing_an_entry_makes_it_the_youngest() {
    let mut cache = ResponseCache::new(2, 100);
    assert!(cache.insert(key("a", None), vec![1]));
    assert!(cache.insert(key("b", None), vec![2]));
    assert!(cache.insert(key("a", None), vec![3]));
    assert!(cache.insert(key("c", None), vec![4]));
    assert_eq!(cache.get(&key("b", None)), None);
    assert_eq!(cache.get(&key("a", None)), Some(&vec![3]));
    assert_eq!(cache.get(&key("c", None)), Some(&vec![4]));
}

#[test]
fn the_limits_hold_after_any_inserts() {
    let mut cache = ResponseCache::new(3, 16);
    for round in 0..200usize {
        let size = (round * 7) % 20;
        let name = format!("m{}", round % 5);
        let stored = cache.insert(key(&name, None), vec![round as u8; size]);
        assert_eq!(stored, size <= 16);
        assert!(cache.len() <= 3);
        assert!(cache.size() <= 16);
        if stored {
            assert_eq!(cache.get(&key(&name, None)), Some(&vec![round as u8; size]));
        }
    }
}
