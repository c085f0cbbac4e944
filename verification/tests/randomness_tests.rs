use points::randomness::derive_prize_index;

// A splitmix-style generator, to spread the test seeds over the whole
// 32-byte space.
fn seed(i: u32) -> Vec<u8> {
    let mut v = vec![0u8; 32];
    let mut x: u64 = (i as u64).wrapping_mul(0x9e3779b97f4a7c15).wrapping_add(0x243f6a8885a308d3);
    for byte in v.iter_mut() {
        x = x.wrapping_add(0x9e3779b97f4a7c15);
        let mut z = x;
        z = (z ^ (z >> 30)).wrapping_mul(0xbf58476d1ce4e5b9);
        z = (z ^ (z >> 27)).wrapping_mul(0x94d049bb133111eb);
        z ^= z >> 31;
        *byte = z as u8;
    }
    v
}

#[test]
fn derived_index_matches_the_nois_transform() {
    for i in 0..20u32 {
        let s = seed(i);
        let mut arr = [0u8; 32];
        arr.copy_from_slice(&s);
        let expected = nois::ints_in_range(arr, 1, 0usize, 2usize)[0];
        assert_eq!(derive_prize_index(&s, 3), expected);
    }
}

#[test]
fn derived_index_stays_in_range() {
    for len in 1..10usize {
        for i in 0..50u32 {
            let idx = derive_prize_index(&seed(i), len);
            assert!(idx < len);
        }
    }
}

#[test]
fn derived_index_is_roughly_uniform_over_three_entries() {
    let mut counts = [0usize; 3];
    let trials = 600u32;
    for i in 0..trials {
        let idx = derive_prize_index(&seed(i), 3);
        counts[idx] += 1;
    }
    // Each of {0, 1, 2} should take roughly a third of 600 draws; allow a
    // wide margin so the test is deterministic in intent, not flaky.
    for &c in counts.iter() {
        assert!(c > 120, "count {} too small: {:?}", c, counts);
        assert!(c < 280, "count {} too large: {:?}", c, counts);
    }
}

#[test]
fn single_entry_pool_always_selects_index_zero() {
    for i in 0..20u32 {
        assert_eq!(derive_prize_index(&seed(i), 1), 0);
    }
}
