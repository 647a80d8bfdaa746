use embedded_dispatch::dedup::{addr_lt, dedup_by_key, DocAddr, SearchHit};

fn hit(key: i64, segment: u32, doc: u32) -> SearchHit {
    SearchHit { key, addr: DocAddr { segment, doc } }
}

#[test]
fn colliding_key_keeps_greatest_address_in_first_seen_order() {
    let ranked = vec![hit(5, 0, 1), hit(7, 0, 2), hit(5, 0, 3)];
    let out = dedup_by_key(ranked);
    assert_eq!(out, vec![hit(5, 0, 3), hit(7, 0, 2)]);
}

#[test]
fn empty_input_stays_empty() {
    assert_eq!(dedup_by_key(vec![]), vec![]);
}

#[test]
fn distinct_keys_pass_through_unchanged() {
    let ranked = vec![hit(3, 0, 0), hit(1, 0, 1), hit(2, 1, 0)];
    let out = dedup_by_key(ranked.clone());
    assert_eq!(out, ranked);
}

#[test]
fn smaller_address_never_replaces_a_greater_one() {
    let ranked = vec![hit(5, 1, 0), hit(5, 0, 9)];
    let out = dedup_by_key(ranked);
    assert_eq!(out, vec![hit(5, 1, 0)]);
}

#[test]
fn equal_addresses_keep_the_first_entry() {
    let ranked = vec![hit(5, 0, 1), hit(5, 0, 1)];
    let out = dedup_by_key(ranked);
    assert_eq!(out, vec![hit(5, 0, 1)]);
}

#[test]
fn segment_dominates_local_id_in_address_order() {
    let ranked = vec![hit(5, 0, 100), hit(5, 1, 0)];
    let out = dedup_by_key(ranked);
    assert_eq!(out, vec![hit(5, 1, 0)]);
}

#[test]
fn output_never_repeats_a_key_and_never_grows() {
    let ranked = vec![
        hit(1, 0, 0),
        hit(2, 0, 1),
        hit(1, 0, 2),
        hit(3, 0, 3),
        hit(2, 1, 0),
        hit(1, 0, 1),
    ];
    let out = dedup_by_key(ranked.clone());
    assert!(out.len() <= ranked.len());
    for i in 0..out.len() {
        for j in (i + 1)..out.len() {
            assert_ne!(out[i].key, out[j].key);
        }
        assert!(ranked.iter().any(|h| h.key == out[i].key));
    }
    assert_eq!(out, vec![hit(1, 0, 2), hit(2, 1, 0), hit(3, 0, 3)]);
}

#[test]
fn address_order_is_lexicographic() {
    let low = DocAddr { segment: 0, doc: 5 };
    let high = DocAddr { segment: 1, doc: 0 };
    assert!(addr_lt(low, high));
    assert!(!addr_lt(high, low));
    assert!(!addr_lt(low, low));
    assert!(addr_lt(DocAddr { segment: 0, doc: 1 }, DocAddr { segment: 0, doc: 2 }));
}
