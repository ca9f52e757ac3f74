//! Tests of the random distribution module: the deterministic surname
//! table, the string generators, the NURand fold and its distribution.

use tpcc_core::rng::{nurand, TpcRandom};

#[test]
fn last_name_first_index() {
    assert_eq!(TpcRandom::last_name(0), "BARBARBAR");
}

#[test]
fn last_name_last_index() {
    assert_eq!(TpcRandom::last_name(999), "EINGEINGEING");
}

#[test]
fn last_name_mixed_digits() {
    assert_eq!(TpcRandom::last_name(371), "PRICALLYOUGHT");
    assert_eq!(TpcRandom::last_name(123), "OUGHTABLEPRI");
}

#[test]
fn last_name_produces_1000_distinct_surnames() {
    let mut names: Vec<String> = (0..1000).map(TpcRandom::last_name).collect();
    names.sort();
    names.dedup();
    assert_eq!(names.len(), 1000);
}

#[test]
fn nurand_fold_exact_value() {
    // ((5 | 10) + 3) % 100 + 1 = (15 + 3) % 100 + 1 = 19
    assert_eq!(nurand(5, 10, 3, 1, 100), 19);
    // ((8 | 1) + 0) % 10 + 0 = 9
    assert_eq!(nurand(8, 1, 0, 0, 9), 9);
    // Wrap-around: ((255 | 900) + 77) % 1000 + 0
    assert_eq!(nurand(255, 900, 77, 0, 999), ((255 | 900) + 77) % 1000);
}

#[test]
fn i32_range_stays_inclusive() {
    let mut rand = TpcRandom::new();
    let mut saw_low = false;
    let mut saw_high = false;
    for _ in 0..10_000 {
        let v = rand.i32_range(3, 7);
        assert!((3..=7).contains(&v));
        saw_low |= v == 3;
        saw_high |= v == 7;
    }
    assert!(saw_low && saw_high);
}

#[test]
fn non_uniform_i32_stays_inclusive() {
    let mut rand = TpcRandom::with_constant(42);
    for _ in 0..10_000 {
        let v = rand.non_uniform_i32(255, 0, 999);
        assert!((0..=999).contains(&v));
        let w = rand.non_uniform_i32(1023, 1, 3000);
        assert!((1..=3000).contains(&w));
    }
}

#[test]
fn alnum_string_length_and_alphabet() {
    let mut rand = TpcRandom::new();
    for _ in 0..200 {
        let s = rand.alnum_string(14, 24);
        assert!((14..=24).contains(&s.len()));
        assert!(s.chars().all(|c| c.is_ascii_alphanumeric()));
    }
    let fixed = rand.alnum_string(24, 24);
    assert_eq!(fixed.len(), 24);
}

#[test]
fn num_string_is_fixed_length_digits() {
    let mut rand = TpcRandom::new();
    let s = rand.num_string(16);
    assert_eq!(s.len(), 16);
    assert!(s.chars().all(|c| c.is_ascii_digit()));
}

#[test]
fn zip_code_is_four_digits_then_fixed_suffix() {
    let mut rand = TpcRandom::new();
    for _ in 0..50 {
        let z = rand.zip_code();
        assert_eq!(z.len(), 9);
        assert!(z[..4].chars().all(|c| c.is_ascii_digit()));
        assert_eq!(&z[4..], "11111");
    }
}

#[test]
fn item_data_length_and_marker_rate() {
    let mut rand = TpcRandom::new();
    let mut marked = 0;
    let n = 5000;
    for _ in 0..n {
        let s = rand.item_data();
        assert!((26..=50).contains(&s.len()));
        if s.contains("ORIGINAL") {
            marked += 1;
        }
    }
    // The marker is embedded with ten percent probability.
    let rate = marked as f64 / n as f64;
    assert!(rate > 0.06 && rate < 0.15, "marker rate {rate}");
}

/// Chi-square statistic of a sample against the uniform distribution over
/// `buckets` equally likely outcomes.
fn chi_square(counts: &[u64], total: u64) -> f64 {
    let expected = total as f64 / counts.len() as f64;
    counts
        .iter()
        .map(|&c| {
            let d = c as f64 - expected;
            d * d / expected
        })
        .sum()
}

#[test]
fn non_uniform_skew_and_coarse_uniformity() {
    let samples: usize = 100_000;
    let mut rand = TpcRandom::with_constant(123);

    // Coarse buckets: the NURand marginal covers the whole range, with
    // every decile populated within a coarse tolerance of uniformity (the
    // OR-fold concentrates mass, so the tolerance is wide by design).
    let mut deciles = [0u64; 10];
    let mut fine_nurand = vec![0u64; 1000];
    for _ in 0..samples {
        let v = rand.non_uniform_i32(255, 0, 999) as usize;
        deciles[v / 100] += 1;
        fine_nurand[v] += 1;
    }
    for &d in &deciles {
        let share = d as f64 / samples as f64;
        assert!(share > 0.02 && share < 0.30, "decile share {share}");
    }

    // Fine buckets: with a fixed run constant the per-value distribution
    // shows the mandated skew relative to the plain uniform sampler.
    let mut fine_uniform = vec![0u64; 1000];
    for _ in 0..samples {
        let v = rand.i32_range(0, 999) as usize;
        fine_uniform[v] += 1;
    }
    let chi_uniform = chi_square(&fine_uniform, samples as u64);
    let chi_nurand = chi_square(&fine_nurand, samples as u64);
    // The uniform sampler sits within tolerance of its expected statistic
    // (degrees of freedom 999), the non-uniform one far above it.
    assert!(chi_uniform < 1300.0, "uniform chi-square {chi_uniform}");
    assert!(
        chi_nurand > 2.0 * chi_uniform,
        "nurand chi-square {chi_nurand} vs uniform {chi_uniform}"
    );
}
