use digit_synthesis::classify::argmax;

fn key(prediction: f64) -> i64 {
    let bits = prediction.to_bits() as i64;
    bits ^ ((((bits >> 63) as u64) >> 1) as i64)
}

#[test]
fn argmax_finds_the_greatest_key() {
    assert_eq!(argmax(&vec![1, 3, 2]), Some(1));
    assert_eq!(argmax(&vec![9]), Some(0));
    assert_eq!(argmax(&vec![-5, -2, -9]), Some(1));
    assert_eq!(argmax(&vec![i64::MIN, i64::MAX, 0]), Some(1));
    assert_eq!(argmax(&vec![0, 1, 2, 3, 4, 5, 6, 7, 8, 9, 10]), Some(10));
}

#[test]
fn argmax_of_nothing_is_nothing() {
    assert_eq!(argmax(&Vec::new()), None);
}

#[test]
fn argmax_takes_the_last_of_equal_keys() {
    assert_eq!(argmax(&vec![5, 5]), Some(1));
    assert_eq!(argmax(&vec![7, 1, 7, 3, 7, 2]), Some(4));
    assert_eq!(argmax(&vec![i64::MIN, i64::MIN, i64::MIN]), Some(2));
}

#[test]
fn argmax_over_keys_agrees_with_the_total_order_of_reals() {
    let predictions: Vec<Vec<f64>> = vec![
        vec![0.1, 0.7, 0.2],
        vec![0.25, 0.25, 0.25, 0.25],
        vec![-0.0, 0.0],
        vec![0.0, -0.0],
        vec![f64::NAN, 1.0],
        vec![1.0, -f64::NAN],
        vec![f64::NEG_INFINITY, -1.0e300, -1.0e-300],
        vec![f64::INFINITY, f64::MAX, f64::INFINITY],
        vec![1.0e-11, 0.09, 0.0, 0.9, 1.0e-5, 0.0, 0.0, 0.0, 0.0, 0.0, 0.00999],
    ];
    for prediction in predictions {
        let keys: Vec<i64> = prediction.iter().map(|p| key(*p)).collect();
        let expected = prediction
            .iter()
            .enumerate()
            .max_by(|(_, a), (_, b)| a.total_cmp(b))
            .map(|(place, _)| place);
        assert_eq!(argmax(&keys), expected, "{:?}", prediction);
    }
}
