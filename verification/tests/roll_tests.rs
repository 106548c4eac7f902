use aging_sim::roll::roll_3d6;
use aging_sim::roll::roll_from_index;

const WEIGHTS: [u32; 16] = [1, 3, 6, 10, 15, 21, 25, 27, 27, 25, 21, 15, 10, 6, 3, 1];

#[test]
fn index_mapping_reproduces_weight_table() {
    let mut counts = [0u32; 16];
    for i in 0..216u16 {
        let v = roll_from_index(i as u8);
        assert!((3..=18).contains(&v));
        counts[(v - 3) as usize] += 1;
    }
    assert_eq!(counts, WEIGHTS);
}

#[test]
fn index_mapping_boundaries() {
    assert_eq!(roll_from_index(0), 3);
    assert_eq!(roll_from_index(1), 4);
    assert_eq!(roll_from_index(3), 4);
    assert_eq!(roll_from_index(4), 5);
    assert_eq!(roll_from_index(107), 10);
    assert_eq!(roll_from_index(108), 11);
    assert_eq!(roll_from_index(211), 16);
    assert_eq!(roll_from_index(212), 17);
    assert_eq!(roll_from_index(214), 17);
    assert_eq!(roll_from_index(215), 18);
}

#[test]
fn empirical_frequency_matches_table() {
    const DRAWS: u32 = 1_000_000;
    let mut counts = [0u32; 16];
    for _ in 0..DRAWS {
        let v = roll_3d6();
        assert!((3..=18).contains(&v));
        counts[(v - 3) as usize] += 1;
    }
    // Each relative frequency must be close to weight/216; 0.004 absolute
    // tolerance is over ten standard deviations at a million draws.
    for (k, &w) in WEIGHTS.iter().enumerate() {
        let expected = w as f64 / 216.0;
        let observed = counts[k] as f64 / DRAWS as f64;
        assert!(
            (observed - expected).abs() < 0.004,
            "value {} expected {} observed {}",
            k + 3,
            expected,
            observed
        );
    }
}
