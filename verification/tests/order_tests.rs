use learning_lm::order::{descending_order, gather, last_max_index, total_order_key};

fn key(x: f64) -> i64 {
    total_order_key(x.to_bits())
}

#[test]
fn keys_of_simple_values() {
    assert_eq!(key(0.0), 0);
    assert_eq!(key(-0.0), -1);
    assert_eq!(key(1.0), 0x3FF0_0000_0000_0000);
    assert_eq!(key(-1.0), -1 - 0x3FF0_0000_0000_0000);
    assert_eq!(total_order_key(0x8000_0000_0000_0000), -1);
    assert_eq!(total_order_key(u64::MAX), i64::MIN);
    assert_eq!(total_order_key(0x7FFF_FFFF_FFFF_FFFF), i64::MAX);
}

#[test]
fn keys_order_like_total_order() {
    let xs = [
        f64::NEG_INFINITY, -1e300, -2.5, -1.0, -1e-300, -0.0, 0.0, 1e-300, 1.0, 2.5, 1e300,
        f64::INFINITY, f64::NAN, -f64::NAN,
    ];
    for a in xs {
        for b in xs {
            assert_eq!(key(a).cmp(&key(b)), a.total_cmp(&b), "{a} vs {b}");
        }
    }
}

#[test]
fn last_max_index_picks_the_last_of_equal_maxima() {
    assert_eq!(last_max_index(&[3, 7, 1, 7, 2], 0), 3);
    assert_eq!(last_max_index(&[3, 7, 1, 7, 2], 4), 4);
    assert_eq!(last_max_index(&[9, 1, 5], 1), 2);
    assert_eq!(last_max_index(&[-4], 0), 0);
    let v = [3, 7, 1, 7, 2];
    assert_eq!(last_max_index(&v, 0), (0..5).max_by(|&i, &j| v[i].cmp(&v[j])).unwrap());
}

#[test]
fn descending_order_is_a_stable_sort() {
    assert_eq!(descending_order(&[3, 9, 3, 1, 9]), vec![1, 4, 0, 2, 3]);
    assert_eq!(descending_order(&[]), Vec::<usize>::new());
    assert_eq!(descending_order(&[5, 4, 3]), vec![0, 1, 2]);
    assert_eq!(descending_order(&[1, 2, 3]), vec![2, 1, 0]);
}

#[test]
fn descending_order_of_singular_values() {
    let sigma = [3.0, 4.0, 0.0, 4.0];
    let keys: Vec<i64> = sigma.iter().map(|s: &f64| key(*s)).collect();
    let order = descending_order(&keys);
    let mut expected: Vec<usize> = (0..4).collect();
    expected.sort_by(|&i, &j| sigma[j].total_cmp(&sigma[i]));
    assert_eq!(order, expected);
    assert_eq!(gather(&sigma, &order), vec![4.0, 4.0, 3.0, 0.0]);
}

#[test]
fn gather_follows_the_order() {
    assert_eq!(gather(&['a', 'b', 'c'], &[2, 0, 2]), vec!['c', 'a', 'c']);
    assert_eq!(gather(&[1u8, 2], &[]), Vec::<u8>::new());
}
