use color_walk::color::ColorBase;
use color_walk::random::RandomStream;

fn numbered(count: u8) -> Vec<ColorBase> {
    (0..count).map(|n| ColorBase { r: n, g: 0, b: 0 }).collect()
}

#[test]
fn draws_stay_below_the_bound() {
    let mut rng = RandomStream::from_seed(7);
    for bound in [1u64, 2, 3, 8, 1000, u64::MAX] {
        for _ in 0..200 {
            assert!(rng.below(bound) < bound);
        }
    }
}

#[test]
fn draws_below_one_are_zero() {
    let mut rng = RandomStream::from_seed(3);
    for _ in 0..50 {
        assert_eq!(rng.below(1), 0);
    }
}

#[test]
fn draws_reach_every_value() {
    let mut rng = RandomStream::from_seed(11);
    let mut seen = [false; 3];
    for _ in 0..200 {
        seen[rng.below(3) as usize] = true;
    }
    assert_eq!(seen, [true, true, true]);
}

#[test]
fn equal_seeds_give_equal_streams() {
    let mut a = RandomStream::from_seed(42);
    let mut b = RandomStream::from_seed(42);
    for bound in [3u64, 8, 64, 4096, 5, 3, 1 << 40] {
        assert_eq!(a.below(bound), b.below(bound));
    }
    let mut first = numbered(50);
    let mut second = numbered(50);
    a.shuffle(&mut first);
    b.shuffle(&mut second);
    assert_eq!(first, second);
    assert_eq!(a.below(1000), b.below(1000));
}

#[test]
fn different_seeds_give_different_streams() {
    let mut a = RandomStream::from_seed(42);
    let mut b = RandomStream::from_seed(43);
    let from_a: Vec<u64> = (0..32).map(|_| a.below(1 << 32)).collect();
    let from_b: Vec<u64> = (0..32).map(|_| b.below(1 << 32)).collect();
    assert_ne!(from_a, from_b);
}

#[test]
fn a_stream_moves_on_with_every_draw() {
    let mut rng = RandomStream::from_seed(5);
    let draws: Vec<u64> = (0..32).map(|_| rng.below(1 << 32)).collect();
    assert!(draws.iter().any(|d| *d != draws[0]));
}

#[test]
fn shuffle_only_reorders() {
    let mut rng = RandomStream::from_seed(1);
    let mut items = numbered(200);
    rng.shuffle(&mut items);
    assert_eq!(items.len(), 200);
    assert_ne!(items, numbered(200));
    let mut sorted = items.clone();
    sorted.sort_by_key(|c| c.r);
    assert_eq!(sorted, numbered(200));
}

#[test]
fn shuffle_takes_short_lists() {
    let mut rng = RandomStream::from_seed(1);
    let mut none = numbered(0);
    rng.shuffle(&mut none);
    assert!(none.is_empty());
    let mut one = numbered(1);
    rng.shuffle(&mut one);
    assert_eq!(one, numbered(1));
}
