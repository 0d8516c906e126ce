use aviator5g::binary64::blend;

fn native(from: u64, to: u64, weight: f64) -> u64 {
    ((1.0 - weight) * from as f64 + weight * to as f64) as u64
}

fn same(from: u64, to: u64, weight: f64) {
    assert_eq!(
        blend(from, to, weight.to_bits()),
        native(from, to, weight),
        "from {} to {} at {:e}",
        from,
        to,
        weight
    );
}

fn next(state: &mut u64) -> u64 {
    *state ^= *state << 13;
    *state ^= *state >> 7;
    *state ^= *state << 17;
    *state
}

#[test]
fn blends_of_the_default_servo() {
    assert_eq!(blend(1500, 1000, 0.5f64.to_bits()), 1250);
    assert_eq!(blend(1500, 2000, 0.5f64.to_bits()), 1750);
    assert_eq!(blend(1500, 2000, 0.25f64.to_bits()), 1625);
    assert_eq!(blend(1500, 1000, 0.1f64.to_bits()), 1450);
    assert_eq!(blend(1500, 2000, 0.7f64.to_bits()), 1850);
}

#[test]
fn blends_agree_with_the_machine_on_a_grid() {
    for step in 1..2000u64 {
        let weight = step as f64 / 2000.0;
        same(1500, 1000, weight);
        same(1500, 2000, weight);
        same(1500, 1500, weight);
        same(0, 2000, weight);
        same(2000, 0, weight);
    }
}

#[test]
fn blends_agree_with_the_machine_at_the_edges() {
    let weights = [
        5e-324,
        1e-320,
        2.2250738585072014e-308,
        2.225073858507201e-308,
        1e-300,
        1e-100,
        1e-30,
        7.450580596923828e-9,
        1.1102230246251565e-16,
        2.220446049250313e-16,
        5.551115123125783e-17,
        0.49999999999999994,
        0.5,
        0.5000000000000001,
        0.9999999999999998,
        0.9999999999999999,
    ];
    let widths = [
        0,
        1,
        2,
        3,
        1000,
        1500,
        2000,
        20000,
        (1 << 53) - 1,
        1 << 53,
        (1 << 53) + 1,
        (1 << 60) + 12345,
        u64::MAX - 1,
        u64::MAX,
    ];
    for weight in weights {
        for from in widths {
            for to in widths {
                same(from, to, weight);
            }
        }
    }
}

#[test]
fn blends_agree_with_the_machine_on_scattered_values() {
    let mut state = 0x9e37_79b9_7f4a_7c15u64;
    for _ in 0..200_000 {
        let bits = next(&mut state) % 0x3ff0_0000_0000_0000;
        if bits == 0 {
            continue;
        }
        let weight = f64::from_bits(bits);
        let from = next(&mut state) >> (next(&mut state) % 64);
        let to = next(&mut state) >> (next(&mut state) % 64);
        same(from, to, weight);
        same(from % 4000, to % 4000, weight);
        let near_one = f64::from_bits(0x3ff0_0000_0000_0000 - 1 - next(&mut state) % (1 << 40));
        same(from % 4000, to % 4000, near_one);
    }
}

#[test]
fn blends_reach_both_ends() {
    assert_eq!(blend(1500, 2000, 0f64.to_bits()), 1500);
    assert_eq!(blend(1500, 2000, 1f64.to_bits()), 2000);
    assert_eq!(blend(1500, 1000, 0f64.to_bits()), 1500);
    assert_eq!(blend(1500, 1000, 1f64.to_bits()), 1000);
    assert_eq!(blend(0, 0, 0), 0);
    let widths = [0, 1, 1000, 1500, 2000, 20000, (1 << 53) - 1, 1 << 53, (1 << 53) + 1, u64::MAX];
    for from in widths {
        for to in widths {
            same(from, to, 0.0);
            same(from, to, 1.0);
        }
    }
}
