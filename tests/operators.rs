use bitwise_ga::float_bits::{clamp_gene, le, lt, rank_key};
use bitwise_ga::individual::{Bounds, Individual};
use bitwise_ga::operators::{
    crossover, flip_bit, mutate, mutation_band, pick, select, FINE_LIMIT, MEDIUM_LIMIT, UNIT,
};

fn b(x: f64) -> u64 {
    x.to_bits()
}

fn ind(genes: &[f64]) -> Individual {
    Individual::new(genes.iter().map(|g| g.to_bits()).collect())
}

fn genes(i: &Individual) -> Vec<f64> {
    i.chromosome.iter().map(|g| f64::from_bits(*g)).collect()
}

#[test]
fn float_order_matches_ieee() {
    let values = [
        f64::NEG_INFINITY,
        -31.5,
        -1.0,
        -0.0,
        0.0,
        1e-300,
        0.5,
        2.0,
        31.0,
        f64::INFINITY,
        f64::NAN,
    ];
    for x in values {
        for y in values {
            assert_eq!(lt(b(x), b(y)), x < y, "{} < {}", x, y);
            assert_eq!(le(b(x), b(y)), x <= y, "{} <= {}", x, y);
        }
    }
}

#[test]
fn rank_key_puts_nan_lowest_and_zeros_equal() {
    assert_eq!(rank_key(b(-0.0)), rank_key(b(0.0)));
    assert!(rank_key(b(f64::NAN)) < rank_key(b(f64::NEG_INFINITY)));
    assert!(rank_key(b(-2.0)) < rank_key(b(-1.0)));
    assert!(rank_key(b(1.0)) < rank_key(b(2.0)));
}

#[test]
fn clamp_snaps_to_the_ends() {
    assert_eq!(clamp_gene(b(-3.0), b(0.0), b(31.0)), b(0.0));
    assert_eq!(clamp_gene(b(40.0), b(0.0), b(31.0)), b(31.0));
    assert_eq!(clamp_gene(b(7.25), b(0.0), b(31.0)), b(7.25));
    assert_eq!(clamp_gene(b(f64::INFINITY), b(0.0), b(31.0)), b(31.0));
    assert!(f64::from_bits(clamp_gene(b(f64::NAN), b(0.0), b(31.0))).is_nan());
}

#[test]
fn bounds_need_min_below_max() {
    assert!(Bounds::new(b(0.0), b(31.0)).is_some());
    assert!(Bounds::new(b(31.0), b(0.0)).is_none());
    assert!(Bounds::new(b(1.0), b(1.0)).is_none());
    assert!(Bounds::new(b(f64::NAN), b(1.0)).is_none());
    let bounds = Bounds::new(b(-1.0), b(2.0)).unwrap();
    assert_eq!(bounds.min, b(-1.0));
    assert_eq!(bounds.max, b(2.0));
}

#[test]
fn crossover_ands_the_bit_patterns() {
    // 3.0 is 0x4008.., 5.0 is 0x4014..; their AND is 0x4000.., that is 2.0.
    let child = crossover(&ind(&[3.0, 24.0]), &ind(&[5.0, 24.0]), 2, b(0.0), b(10.0));
    assert_eq!(genes(&child), vec![2.0, 10.0]);
    assert_eq!(child.fitness, 0);
}

#[test]
fn crossover_reads_only_the_first_genes() {
    let child = crossover(&ind(&[3.0, 1.0, 9.0]), &ind(&[5.0, 1.0]), 1, b(0.0), b(31.0));
    assert_eq!(genes(&child), vec![2.0]);
}

#[test]
fn crossover_keeps_negative_zero_in_range() {
    // -1.0 & -2.0 is the pattern of -0.0, which is not below 0.0.
    let child = crossover(&ind(&[-1.0]), &ind(&[-2.0]), 1, b(0.0), b(31.0));
    assert_eq!(child.chromosome, vec![b(-0.0)]);
}

#[test]
fn crossover_is_deterministic() {
    let mother = ind(&[1.75, 13.0, 30.5]);
    let mut father = ind(&[7.0, 29.0, 0.125]);
    let first = crossover(&mother, &father, 3, b(0.0), b(31.0));
    father.fitness = b(99.0);
    let second = crossover(&mother, &father, 3, b(0.0), b(31.0));
    assert_eq!(first.chromosome, second.chromosome);
    for g in genes(&first) {
        assert!((0.0..=31.0).contains(&g));
    }
}

#[test]
fn flip_bit_flips_every_gene_and_clamps() {
    let mut i = ind(&[2.0, 3.0]);
    i.fitness = b(5.0);
    flip_bit(&mut i, 63, b(0.0), b(31.0));
    assert_eq!(genes(&i), vec![0.0, 0.0]);
    assert_eq!(i.fitness, b(5.0));

    let mut j = ind(&[1.0, 6.0]);
    // bit 0 of the mantissa
    flip_bit(&mut j, 0, b(0.0), b(31.0));
    assert_eq!(j.chromosome, vec![b(1.0) ^ 1, b(6.0) ^ 1]);

    let mut k = ind(&[1.0]);
    // bit 62 turns 1.0 into infinity, which is clamped to the top
    flip_bit(&mut k, 62, b(0.0), b(31.0));
    assert_eq!(genes(&k), vec![31.0]);
}

#[test]
fn flip_bit_can_make_a_nan_that_stays() {
    let mut i = ind(&[1.5]);
    flip_bit(&mut i, 62, b(0.0), b(31.0));
    assert!(f64::from_bits(i.chromosome[0]).is_nan());
}

#[test]
fn mutation_bands() {
    assert_eq!(mutation_band(0), (0, 32));
    assert_eq!(mutation_band(FINE_LIMIT), (0, 32));
    assert_eq!(mutation_band(FINE_LIMIT + 1), (31, 48));
    assert_eq!(mutation_band(MEDIUM_LIMIT), (31, 48));
    assert_eq!(mutation_band(MEDIUM_LIMIT + 1), (47, 64));
    assert_eq!(mutation_band(UNIT - 1), (47, 64));
}

#[test]
fn draw_limits_are_the_probabilities() {
    assert_eq!(UNIT as f64, 2f64.powi(53));
    assert_eq!(FINE_LIMIT as f64 / UNIT as f64, 0.75);
    assert_eq!(MEDIUM_LIMIT as f64 / UNIT as f64, 0.90);
    assert!(((MEDIUM_LIMIT + 1) as f64 / UNIT as f64) > 0.90);
}

#[test]
fn mutate_changes_every_gene_of_a_middle_value() {
    // Every single-bit flip of 15.0, clamped into [0, 31], differs from 15.0.
    for _ in 0..50 {
        let mut i = ind(&[15.0, 15.0, 15.0]);
        i.fitness = b(1.0);
        mutate(&mut i, b(0.0), b(31.0));
        assert_eq!(i.fitness, b(1.0));
        let g = genes(&i);
        assert_eq!(g.len(), 3);
        assert!(g.iter().all(|x| *x != 15.0 && (0.0..=31.0).contains(x)));
        // the same bit was flipped in every gene
        assert_eq!(i.chromosome[0], i.chromosome[1]);
        assert_eq!(i.chromosome[1], i.chromosome[2]);
    }
}

#[test]
fn pick_takes_first_threshold_above_the_draw() {
    let odds = vec![0, 5, 10];
    assert_eq!(pick(&odds, 3, 0), 1);
    assert_eq!(pick(&odds, 7, 0), 2);
    assert_eq!(pick(&odds, 0, 2), 1);
    assert_eq!(pick(&odds, 10, 2), 2);
    assert_eq!(pick(&odds, 10, 0), 0);
}

#[test]
fn pick_tests_each_share_alone() {
    // Shares of a half, a quarter and a quarter: a draw of 0.6 passes none of
    // them (a running total would have picked the second) and falls back.
    let half = UNIT / 2;
    let quarter = UNIT / 4;
    let odds = vec![half, quarter, quarter];
    let draw = (UNIT / 10) * 6;
    assert_eq!(pick(&odds, draw, 2), 2);
    assert_eq!(pick(&odds, draw, 1), 1);
}

#[test]
fn pick_with_zero_odds_falls_back() {
    let odds = vec![0, 0, 0, 0];
    for fallback in 0..4 {
        assert_eq!(pick(&odds, 0, fallback), fallback);
        assert_eq!(pick(&odds, UNIT - 1, fallback), fallback);
    }
}

#[test]
fn select_with_zero_odds_returns_a_member() {
    let odds = vec![0, 0, 0, 0, 0];
    let mut seen = [false; 5];
    for _ in 0..400 {
        let r = select(&odds);
        assert!(r < 5);
        seen[r] = true;
    }
    // the fallback is a uniform choice, not a constant
    assert!(seen.iter().filter(|s| **s).count() > 1);
}

#[test]
fn select_stops_at_a_certain_threshold() {
    let odds = vec![0, 0, UNIT, 0];
    for _ in 0..100 {
        assert_eq!(select(&odds), 2);
    }
}
