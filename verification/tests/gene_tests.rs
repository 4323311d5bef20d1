use evo_image::gene::apply_delta;
use evo_image::gene::GeneRgba;
use evo_image::gene::GeneType;
use evo_image::gene::PPM_SCALE;

fn channel_diff_count(a: &GeneType, b: &GeneType) -> usize {
    let mut n = 0;
    if a.r != b.r {
        n += 1;
    }
    if a.g != b.g {
        n += 1;
    }
    if a.b != b.b {
        n += 1;
    }
    n
}

#[test]
fn generated_channels_lie_in_range() {
    for _ in 0..200 {
        let g = GeneType::generate();
        assert!(g.r <= 255 && g.g <= 255 && g.b <= 255);
        let h = GeneRgba::generate();
        assert!(h.r <= 255 && h.g <= 255 && h.b <= 255 && h.a <= 255);
    }
}

#[test]
fn mutation_changes_at_most_one_channel() {
    for _ in 0..200 {
        let mut g = GeneType::generate();
        let before = g;
        g.mutate(PPM_SCALE);
        assert!(channel_diff_count(&before, &g) <= 1);
    }
}

#[test]
fn mutation_delta_is_bounded_and_clamped() {
    for _ in 0..200 {
        let mut g = GeneType { r: 0, g: 128, b: 255 };
        let before = g;
        g.mutate(PPM_SCALE);
        let pairs = [(before.r, g.r), (before.g, g.g), (before.b, g.b)];
        for (old, new) in pairs {
            let delta = (new as i32) - (old as i32);
            assert!(delta.abs() <= 20);
        }
    }
}

#[test]
fn zero_probability_mutation_is_identity() {
    for _ in 0..50 {
        let mut g = GeneType::generate();
        let before = g;
        g.mutate(0);
        assert_eq!(before, g);
        let mut h = GeneRgba::generate();
        let before4 = h;
        h.mutate(0);
        assert_eq!(before4, h);
    }
}

#[test]
fn boundary_deltas_clamp() {
    assert_eq!(apply_delta(0, -20), 0);
    assert_eq!(apply_delta(255, 20), 255);
    assert_eq!(apply_delta(0, 20), 20);
    assert_eq!(apply_delta(255, -20), 235);
    assert_eq!(apply_delta(10, -20), 0);
    assert_eq!(apply_delta(250, 20), 255);
    assert_eq!(apply_delta(100, 0), 100);
}

#[test]
fn certain_mutation_eventually_moves_a_channel() {
    // With probability 1 the mutation draws a delta each call; the chance
    // that hundreds of draws are all zero is negligible, so an unchanged
    // gene would mean the randomness was never consulted.
    let mut g = GeneType { r: 128, g: 128, b: 128 };
    let mut changed = false;
    for _ in 0..500 {
        let before = g;
        g.mutate(PPM_SCALE);
        if g != before {
            changed = true;
        }
    }
    assert!(changed);
}

#[test]
fn four_channel_mutation_stays_in_range() {
    for _ in 0..200 {
        let mut h = GeneRgba { r: 1, g: 2, b: 3, a: 4 };
        h.mutate(PPM_SCALE);
        assert!(h.r <= 255 && h.g <= 255 && h.b <= 255 && h.a <= 255);
    }
}

#[test]
fn four_channel_certain_mutation_eventually_moves_a_channel() {
    let mut h = GeneRgba { r: 128, g: 128, b: 128, a: 128 };
    let mut changed = false;
    for _ in 0..500 {
        let before = h;
        h.mutate(PPM_SCALE);
        if h != before {
            changed = true;
        }
    }
    assert!(changed);
}
