use rand::Rng;
use chaoskit::system::{check_limits, Move, System, INFINITY_BITS};

fn cumulative(weights: &[f64]) -> Vec<u64> {
    let mut total = 0.0f64;
    let mut limits = Vec::new();
    for w in weights {
        total += *w;
        limits.push(total.to_bits());
    }
    limits
}

fn system_of(weights: &[f64], ttl: i32) -> System<usize, ()> {
    let transforms: Vec<usize> = (0..weights.len()).collect();
    System::new(transforms, cumulative(weights), 99, (), ttl).unwrap()
}

#[test]
fn build_errors() {
    let e = System::<u8, ()>::new(vec![], vec![], 0, (), 30).err().unwrap();
    assert_eq!(e.description(), "No transforms");
    let e = System::new(vec![1u8, 2], vec![1.0f64.to_bits()], 0, (), 30).err().unwrap();
    assert_eq!(e.description(), "Weight count differs from transform count");
    let e = System::new(vec![1u8], vec![0.0f64.to_bits()], 0, (), 30).err().unwrap();
    assert_eq!(e.description(), "Invalid weights");
    let e = System::new(vec![1u8], vec![(-1.0f64).to_bits()], 0, (), 30).err().unwrap();
    assert_eq!(e.description(), "Invalid weights");
    let e = System::new(vec![1u8], vec![f64::NAN.to_bits()], 0, (), 30).err().unwrap();
    assert_eq!(e.description(), "Invalid weights");
    let e = System::new(vec![1u8, 2], vec![2.0f64.to_bits(), 1.0f64.to_bits()], 0, (), 30)
        .err()
        .unwrap();
    assert_eq!(e.description(), "Invalid weights");
    let e = System::new(vec![1u8], vec![1.0f64.to_bits()], 0, (), 0).err().unwrap();
    assert_eq!(e.description(), "TTL must be positive");
}

#[test]
fn build_keeps_parts() {
    let s = System::new(vec![10u8, 20], cumulative(&[1.0, 3.0]), 7u8, 5i64, 30).unwrap();
    assert_eq!(s.transform_count(), 2);
    assert_eq!(*s.final_transform(), 7);
    assert_eq!(*s.reset_transformation(), 5);
    assert_eq!(s.ttl(), 30);
    assert_eq!(*s.transform(1), 20);
    assert_eq!(f64::from_bits(s.max_range()), 4.0);
}

#[test]
fn check_limits_cases() {
    assert!(check_limits(&cumulative(&[1.0, 0.0, 2.0])));
    assert!(check_limits(&vec![INFINITY_BITS - 1]));
    assert!(!check_limits(&vec![INFINITY_BITS]));
    assert!(!check_limits(&vec![f64::INFINITY.to_bits()]));
    assert!(!check_limits(&vec![]));
    assert!(!check_limits(&cumulative(&[0.0, 0.0])));
}

#[test]
fn pick_first_boundary_above_draw() {
    let s = system_of(&[1.0, 2.0, 1.0], 30);
    assert_eq!(s.pick_index(0.0f64.to_bits()), 0);
    assert_eq!(s.pick_index(0.999f64.to_bits()), 0);
    assert_eq!(s.pick_index(1.0f64.to_bits()), 1);
    assert_eq!(s.pick_index(2.5f64.to_bits()), 1);
    assert_eq!(s.pick_index(3.0f64.to_bits()), 2);
    assert_eq!(s.pick_index(3.999f64.to_bits()), 2);
    assert_eq!(*s.pick_transform(2.0f64.to_bits()), 1);
}

#[test]
fn pick_clamps_to_last() {
    let s = system_of(&[1.0, 1.0], 30);
    assert_eq!(s.pick_index(2.0f64.to_bits()), 1);
    assert_eq!(s.pick_index(100.0f64.to_bits()), 1);
}

#[test]
fn zero_weight_is_never_picked() {
    let s = system_of(&[1.0, 0.0, 1.0], 30);
    for k in 0..200 {
        let v = k as f64 / 100.0;
        assert_ne!(s.pick_index(v.to_bits()), 1);
    }
}

#[test]
fn pick_frequency_follows_weights() {
    let weights = [1.0, 2.0, 5.0];
    let s = system_of(&weights, 30);
    let total = 8.0f64;
    let mut counts = [0usize; 3];
    let mut rng = rand::thread_rng();
    let n = 200_000;
    for _ in 0..n {
        let v: f64 = rng.gen_range(0.0..total);
        counts[s.pick_index(v.to_bits())] += 1;
    }
    for i in 0..3 {
        let freq = counts[i] as f64 / n as f64;
        assert!((freq - weights[i] / total).abs() < 0.01, "{} {}", i, freq);
    }
}

#[test]
fn plan_move_ages_or_reseeds() {
    let s = system_of(&[1.0], 30);
    let key = 0.5f64.to_bits();
    assert_eq!(s.plan_move(5, key, 17), Move { transform: 0, reset: false, ttl: 4 });
    assert_eq!(s.plan_move(1, key, 17), Move { transform: 0, reset: false, ttl: 0 });
    assert_eq!(s.plan_move(0, key, 17), Move { transform: 0, reset: true, ttl: 16 });
    assert_eq!(s.plan_move(-3, key, 1), Move { transform: 0, reset: true, ttl: 0 });
}

#[test]
fn resets_every_ttl_steps_with_fixed_reseed() {
    let t = 7;
    let s = system_of(&[1.0], t);
    let key = 0.5f64.to_bits();
    let mut ttl = 0;
    let mut resets = Vec::new();
    for step in 0..50 {
        let m = s.plan_move(ttl, key, t);
        if m.reset {
            resets.push(step);
        }
        ttl = m.ttl;
    }
    let expected: Vec<i32> = (0..50).filter(|k| k % t == 0).collect();
    assert_eq!(resets, expected);
}

#[test]
fn bound_of_one_reseeds_every_step() {
    let s = system_of(&[1.0], 1);
    let key = 0.5f64.to_bits();
    let mut ttl = s.fresh_ttl();
    assert_eq!(ttl, 1);
    let first = s.next_move(ttl, key);
    assert!(!first.reset);
    ttl = first.ttl;
    for _ in 0..20 {
        let m = s.next_move(ttl, key);
        assert!(m.reset);
        assert_eq!(m.ttl, 0);
        ttl = m.ttl;
    }
}

#[test]
fn fresh_ttl_in_range() {
    let s = system_of(&[1.0], 5);
    let mut seen = [false; 5];
    for _ in 0..2000 {
        let t = s.fresh_ttl();
        assert!(1 <= t && t < 5);
        seen[t as usize] = true;
    }
    assert!(seen[1] && seen[2] && seen[3] && seen[4]);
}

#[test]
fn next_move_of_live_walker() {
    let s = system_of(&[1.0, 1.0], 30);
    assert_eq!(s.next_move(3, 1.5f64.to_bits()), Move { transform: 1, reset: false, ttl: 2 });
    let m = s.next_move(0, 0.5f64.to_bits());
    assert!(m.reset && m.transform == 0 && m.ttl >= 0 && m.ttl < 29);
}
