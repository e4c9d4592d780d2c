use humpty::diagnostics::expanding_order;

fn bits(v: &[f64]) -> Vec<u64> {
    v.iter().map(|x| x.to_bits()).collect()
}

#[test]
fn testit() {
    let data = [1.0, 2.0, 3.0, 43.0, 5.0, 6.0, 7.0, 78.0];
    let orders = expanding_order(&bits(&data));
    assert_eq!(orders.len(), 8);
    // the prefix [1, 2]: smallest 1, largest 2, so the median lies between them
    assert_eq!(orders[1], vec![0, 1]);
    assert_eq!(data[orders[1][0]], 1.0);
    assert_eq!(data[orders[1][1]], 2.0);
    assert_eq!((data[orders[1][0]] + data[orders[1][1]]) / 2.0, 1.5);
    assert_eq!(orders[0], vec![0]);
    assert_eq!(orders[4], vec![0, 1, 2, 4, 3]);
    assert_eq!(orders[7], vec![0, 1, 2, 4, 5, 6, 3, 7]);
}

#[test]
fn expanding_order_ties_and_nan() {
    let data = [2.0, f64::NAN, -1.0, 2.0, -0.0, 0.0];
    let orders = expanding_order(&bits(&data));
    assert_eq!(orders[5], vec![2, 4, 5, 0, 3, 1]);
    assert_eq!(orders[1], vec![0, 1]);
}

#[test]
fn expanding_order_single_point_and_empty() {
    assert_eq!(expanding_order(&bits(&[5.0])), vec![vec![0]]);
    assert_eq!(expanding_order(&Vec::new()), Vec::<Vec<usize>>::new());
}
