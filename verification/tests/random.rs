use genpass::random::{Entropy, RandomError, SecureRandom};

/// A fixed, well-mixed byte stream that stands in for the system's source.
fn stream(seed: u64, n: usize) -> Vec<u8> {
    let mut state = seed;
    let mut out = Vec::with_capacity(n);
    while out.len() < n {
        state = state.wrapping_add(0x9E37_79B9_7F4A_7C15);
        let mut z = state;
        z = (z ^ (z >> 30)).wrapping_mul(0xBF58_476D_1CE4_E5B9);
        z = (z ^ (z >> 27)).wrapping_mul(0x94D0_49BB_1331_11EB);
        z ^= z >> 31;
        out.extend_from_slice(&z.to_le_bytes());
    }
    out.truncate(n);
    out
}

fn words(ws: &[u32]) -> Entropy {
    let mut bytes = Vec::new();
    for w in ws {
        bytes.extend_from_slice(&w.to_le_bytes());
    }
    Entropy::new(bytes)
}

#[test]
fn test_fill_bytes() {
    let mut entropy = Entropy::new(stream(1, 64));
    let mut buf = [0u8; 32];
    SecureRandom::fill_bytes(&mut buf, &mut entropy).unwrap();

    // Check that not all bytes are zero (extremely unlikely with random data)
    assert!(buf.iter().any(|&b| b != 0));
}

#[test]
fn test_random_range() {
    let mut entropy = Entropy::new(stream(2, 4096));
    // Test basic functionality
    for _ in 0..100 {
        let value = SecureRandom::random_range(10, &mut entropy).unwrap();
        assert!(value < 10);
    }
}

#[test]
fn test_random_range_edge_cases() {
    let mut entropy = Entropy::new(stream(3, 64));
    // Test edge case: max = 0
    assert_eq!(SecureRandom::random_range(0, &mut entropy).unwrap(), 0);

    // Test edge case: max = 1
    assert_eq!(SecureRandom::random_range(1, &mut entropy).unwrap(), 0);
}

#[test]
fn test_shuffle() {
    let mut entropy = Entropy::new(stream(4, 4096));
    let mut data = vec![1, 2, 3, 4, 5, 6, 7, 8, 9, 10];
    let before = data.clone();

    SecureRandom::shuffle(&mut data, &mut entropy).unwrap();

    // Check that all elements are still present
    let mut sorted_data = data.clone();
    sorted_data.sort();
    assert_eq!(sorted_data, before);
}

#[test]
fn fill_bytes_hands_out_the_bytes_in_order() {
    let mut entropy = Entropy::new(vec![1, 2, 3, 4, 5, 6, 7]);
    let mut first = [0u8; 3];
    SecureRandom::fill_bytes(&mut first, &mut entropy).unwrap();
    assert_eq!(first, [1, 2, 3]);
    assert_eq!(entropy.remaining(), 4);
    let mut second = [0u8; 4];
    SecureRandom::fill_bytes(&mut second, &mut entropy).unwrap();
    assert_eq!(second, [4, 5, 6, 7]);
    assert_eq!(entropy.remaining(), 0);
}

#[test]
fn fill_bytes_never_fills_partially() {
    let mut entropy = Entropy::new(vec![1, 2, 3]);
    let mut buf = [9u8; 4];
    assert_eq!(SecureRandom::fill_bytes(&mut buf, &mut entropy), Err(RandomError::Exhausted));
    assert_eq!(buf, [9, 9, 9, 9]);
    assert_eq!(entropy.remaining(), 3);
}

#[test]
fn fill_bytes_of_an_empty_buffer_reads_nothing() {
    let mut entropy = Entropy::new(Vec::new());
    let mut buf: [u8; 0] = [];
    assert_eq!(SecureRandom::fill_bytes(&mut buf, &mut entropy), Ok(()));
    assert_eq!(entropy.remaining(), 0);
}

#[test]
fn random_range_reduces_the_little_endian_word() {
    let mut entropy = Entropy::new(vec![5, 0, 0, 0]);
    assert_eq!(SecureRandom::random_range(10, &mut entropy), Ok(5));
    assert_eq!(entropy.remaining(), 0);

    // 0x0403_0201 = 67305985, and 67305985 mod 1000 = 985
    let mut entropy = Entropy::new(vec![1, 2, 3, 4]);
    assert_eq!(SecureRandom::random_range(1000, &mut entropy), Ok(985));
}

#[test]
fn random_range_rejects_words_at_or_above_the_limit() {
    // For a bound of 10 the limit is 4294967295 - 5 = 4294967290.
    let mut entropy = words(&[4294967290, 4294967295, 4294967289]);
    assert_eq!(SecureRandom::random_range(10, &mut entropy), Ok(9));
    assert_eq!(entropy.remaining(), 0);

    let mut entropy = words(&[4294967289, 7]);
    assert_eq!(SecureRandom::random_range(10, &mut entropy), Ok(9));
    assert_eq!(entropy.remaining(), 4);
}

#[test]
fn random_range_of_one_rejects_only_the_top_word() {
    let mut entropy = words(&[u32::MAX, 12345]);
    assert_eq!(SecureRandom::random_range(1, &mut entropy), Ok(0));
    assert_eq!(entropy.remaining(), 0);
}

#[test]
fn random_range_of_a_power_of_two_rejects_the_last_round() {
    // u32::MAX mod 256 = 255, so the limit is 4294967040.
    let mut entropy = words(&[4294967040, 4294967039]);
    assert_eq!(SecureRandom::random_range(256, &mut entropy), Ok(255));
}

#[test]
fn random_range_of_zero_reads_nothing() {
    let mut entropy = Entropy::new(Vec::new());
    assert_eq!(SecureRandom::random_range(0, &mut entropy), Ok(0));
    let mut entropy = Entropy::new(vec![1, 2, 3, 4, 5]);
    assert_eq!(SecureRandom::random_range(0, &mut entropy), Ok(0));
    assert_eq!(entropy.remaining(), 5);
}

#[test]
fn random_range_fails_when_the_bytes_run_out() {
    let mut entropy = Entropy::new(vec![1, 2, 3]);
    assert_eq!(SecureRandom::random_range(10, &mut entropy), Err(RandomError::Exhausted));
    assert_eq!(entropy.remaining(), 3);

    // every word is rejected, then two bytes are left over
    let mut bytes = Vec::new();
    bytes.extend_from_slice(&u32::MAX.to_le_bytes());
    bytes.extend_from_slice(&4294967290u32.to_le_bytes());
    bytes.extend_from_slice(&[1, 2]);
    let mut entropy = Entropy::new(bytes);
    assert_eq!(SecureRandom::random_range(10, &mut entropy), Err(RandomError::Exhausted));
    assert_eq!(entropy.remaining(), 2);
}

#[test]
fn random_range_takes_the_largest_bound() {
    let mut entropy = words(&[u32::MAX, u32::MAX - 1, 17]);
    // limit is u32::MAX - 0: only the top word is rejected
    assert_eq!(
        SecureRandom::random_range(u32::MAX as usize, &mut entropy),
        Ok((u32::MAX - 1) as usize)
    );
    assert_eq!(entropy.remaining(), 4);
}

#[test]
fn random_range_is_uniform_over_many_draws() {
    let trials = 100_000usize;
    let bound = 10usize;
    let mut entropy = Entropy::new(stream(5, 4 * trials + 4096));
    let mut seen = vec![0usize; bound];
    for _ in 0..trials {
        let v = SecureRandom::random_range(bound, &mut entropy).unwrap();
        seen[v] += 1;
    }
    // chi-square with 9 degrees of freedom: 27.88 is the 0.1% point
    let expected = (trials / bound) as f64;
    let chi: f64 = seen.iter().map(|&n| (n as f64 - expected).powi(2) / expected).sum();
    assert!(chi < 27.88, "chi-square {}", chi);
}

#[test]
fn random_range_covers_a_bound_that_does_not_divide_the_words() {
    let mut entropy = Entropy::new(stream(6, 40_000));
    let mut seen = [false; 7];
    for _ in 0..1000 {
        seen[SecureRandom::random_range(7, &mut entropy).unwrap()] = true;
    }
    assert!(seen.iter().all(|&s| s));
}

#[test]
fn shuffle_follows_the_draws() {
    // i = 2 draws below 3: word 0 gives j = 0; i = 1 draws below 2: word 1 gives j = 1
    let mut entropy = words(&[0, 1]);
    let mut data = vec!['a', 'b', 'c'];
    assert_eq!(SecureRandom::shuffle(&mut data, &mut entropy), Ok(()));
    assert_eq!(data, vec!['c', 'b', 'a']);
    assert_eq!(entropy.remaining(), 0);

    // i = 3: 6 mod 4 = 2; i = 2: 4 mod 3 = 1; i = 1: 2 mod 2 = 0
    let mut entropy = words(&[6, 4, 2]);
    let mut data = vec![10, 20, 30, 40];
    assert_eq!(SecureRandom::shuffle(&mut data, &mut entropy), Ok(()));
    // [10,20,40,30] -> [10,40,20,30] -> [40,10,20,30]
    assert_eq!(data, vec![40, 10, 20, 30]);
}

#[test]
fn shuffle_of_empty_and_single_is_a_no_op() {
    let mut entropy = Entropy::new(Vec::new());
    let mut empty: Vec<u8> = Vec::new();
    assert_eq!(SecureRandom::shuffle(&mut empty, &mut entropy), Ok(()));
    assert!(empty.is_empty());
    let mut one = vec![42];
    assert_eq!(SecureRandom::shuffle(&mut one, &mut entropy), Ok(()));
    assert_eq!(one, vec![42]);

    let mut entropy = Entropy::new(vec![1, 2, 3, 4]);
    let mut one = vec![42];
    assert_eq!(SecureRandom::shuffle(&mut one, &mut entropy), Ok(()));
    assert_eq!(entropy.remaining(), 4);
}

#[test]
fn shuffle_keeps_the_elements_when_the_bytes_run_out() {
    let mut entropy = words(&[1, 2]);
    let mut data = vec![1, 2, 2, 3, 3, 3];
    assert_eq!(SecureRandom::shuffle(&mut data, &mut entropy), Err(RandomError::Exhausted));
    // the two passes that had their draw stay: positions 5 and 1, then 4 and 2
    assert_eq!(data, vec![1, 3, 3, 3, 2, 2]);
    let mut sorted = data.clone();
    sorted.sort();
    assert_eq!(sorted, vec![1, 2, 2, 3, 3, 3]);
}

#[test]
fn shuffle_keeps_the_multiset_for_many_inputs() {
    let mut entropy = Entropy::new(stream(7, 1 << 16));
    for len in 0..40usize {
        let before: Vec<usize> = (0..len).map(|i| i % 5).collect();
        let mut data = before.clone();
        SecureRandom::shuffle(&mut data, &mut entropy).unwrap();
        let mut a = data.clone();
        let mut b = before.clone();
        a.sort();
        b.sort();
        assert_eq!(a, b);
    }
}

#[test]
fn shuffle_reaches_every_permutation_about_equally() {
    let trials = 60_000usize;
    let mut entropy = Entropy::new(stream(8, 8 * trials + 4096));
    let mut seen = std::collections::BTreeMap::new();
    for _ in 0..trials {
        let mut data = vec![1, 2, 3];
        SecureRandom::shuffle(&mut data, &mut entropy).unwrap();
        *seen.entry(data).or_insert(0usize) += 1;
    }
    assert_eq!(seen.len(), 6);
    for (_, n) in seen {
        assert!(n > 9_400 && n < 10_600, "count {}", n);
    }
}
