use onshape_level_gen::util::get_walls_from_notes;
use onshape_level_gen::{Difficulty, DodgeType, LevelDifficulty, Note, Wall, WallType};
use rand::SeedableRng;

fn rng(seed: u64) -> rand::rngs::StdRng {
    rand::rngs::StdRng::seed_from_u64(seed)
}

fn note(time: u64) -> Note {
    Note { freq: 440_000, val: 50_000, time }
}

fn notes_spaced(count: usize, gap: u64) -> Vec<Note> {
    (0..count).map(|i| note(i as u64 * gap)).collect()
}

fn medium() -> LevelDifficulty {
    LevelDifficulty {
        speed: 40,
        difficulty: Difficulty::Medium,
        min_interval: 30,
        max_consecutive_coins: 3,
    }
}

fn is_coin(w: &Wall) -> bool {
    matches!(w.t, WallType::Coin { .. })
}

#[test]
fn four_spaced_notes_give_two_free_walls() {
    // notes at 0, 0.5, 1.0 and 1.5 seconds; every gap of 0.5 s clears the
    // 0.3 s minimum interval, so both interior notes get a free (non-coin)
    // wall
    let notes = vec![note(0), note(50), note(100), note(150)];
    let mut r = rng(1);
    let walls = get_walls_from_notes(&notes, &medium(), &mut r);
    assert_eq!(walls.len(), 2);
    assert_eq!(walls[0].time, 50);
    assert_eq!(walls[1].time, 100);
    assert!(!is_coin(&walls[0]));
    assert!(!is_coin(&walls[1]));
}

#[test]
fn short_sequences_give_no_walls() {
    let mut r = rng(2);
    let ld = medium();
    assert_eq!(get_walls_from_notes(&Vec::new(), &ld, &mut r).len(), 0);
    assert_eq!(get_walls_from_notes(&vec![note(0)], &ld, &mut r).len(), 0);
    assert_eq!(get_walls_from_notes(&vec![note(0), note(50)], &ld, &mut r).len(), 0);
}

#[test]
fn wall_count_and_times_match_interior_notes() {
    let notes = notes_spaced(40, 70);
    let mut r = rng(3);
    let walls = get_walls_from_notes(&notes, &medium(), &mut r);
    assert_eq!(walls.len(), 38);
    for (k, w) in walls.iter().enumerate() {
        assert_eq!(w.time, notes[k + 1].time);
    }
}

#[test]
fn coin_streaks_respect_the_cap() {
    // gaps of 0.1 s stay under the minimum interval, so coins are forced
    // until the chain reaches the cap and a free wall resets it
    let notes = notes_spaced(60, 10);
    let mut r = rng(4);
    let ld = medium();
    let walls = get_walls_from_notes(&notes, &ld, &mut r);
    assert_eq!(walls.len(), 58);
    let mut streak = 0u32;
    let mut saw_coin = false;
    for w in walls.iter() {
        if is_coin(w) {
            streak += 1;
            saw_coin = true;
            assert!(streak <= ld.max_consecutive_coins as u32);
        } else {
            streak = 0;
        }
    }
    assert!(saw_coin);
}

#[test]
fn single_forced_coin_appears_even_under_cap_zero() {
    let notes = notes_spaced(20, 10);
    let mut r = rng(5);
    let ld = LevelDifficulty { max_consecutive_coins: 0, ..medium() };
    let walls = get_walls_from_notes(&notes, &ld, &mut r);
    let mut streak = 0u32;
    for w in walls.iter() {
        if is_coin(w) {
            streak += 1;
            assert!(streak <= 1);
        } else {
            streak = 0;
        }
    }
}

#[test]
fn consecutive_coins_stay_adjacent() {
    let notes = notes_spaced(80, 10);
    let mut r = rng(6);
    let walls = get_walls_from_notes(&notes, &medium(), &mut r);
    let mut checked = 0u32;
    for pair in walls.windows(2) {
        if let (WallType::Coin { x: x1, y: y1 }, WallType::Coin { x: x2, y: y2 }) =
            (&pair[0].t, &pair[1].t)
        {
            assert!((*x2 as i16 - *x1 as i16).abs() <= 1);
            assert!((*y2 as i16 - *y1 as i16).abs() <= 1);
            checked += 1;
        }
    }
    assert!(checked > 0);
}

#[test]
fn first_coin_of_a_chain_sits_in_the_fresh_window() {
    let notes = notes_spaced(40, 10);
    let mut r = rng(7);
    let walls = get_walls_from_notes(&notes, &medium(), &mut r);
    let mut prev_was_coin = false;
    for w in walls.iter() {
        if let WallType::Coin { x, y } = w.t {
            if !prev_was_coin {
                assert!((-5..=5).contains(&x));
                assert!((3..=10).contains(&y));
            }
            prev_was_coin = true;
        } else {
            prev_was_coin = false;
        }
    }
}

#[test]
fn directed_dodges_mirror_their_predecessor() {
    // wide gaps make every wall a free choice, half of them dodges, so
    // consecutive dodge pairs appear; each directed pair must mirror
    let notes = notes_spaced(300, 100);
    let mut r = rng(8);
    let walls = get_walls_from_notes(&notes, &medium(), &mut r);
    let mut pairs = 0u32;
    for pair in walls.windows(2) {
        if let (WallType::Dodge { t: d1, .. }, WallType::Dodge { t: d2, .. }) =
            (&pair[0].t, &pair[1].t)
        {
            match d1 {
                DodgeType::TopLeft => assert!(matches!(d2, DodgeType::TopRight)),
                DodgeType::Left => assert!(matches!(d2, DodgeType::Right)),
                DodgeType::Top => {}
                DodgeType::Right => assert!(matches!(d2, DodgeType::Left)),
                DodgeType::TopRight => assert!(matches!(d2, DodgeType::TopLeft)),
            }
            pairs += 1;
        }
    }
    assert!(pairs > 0);
}

#[test]
fn dodge_duration_comes_from_the_forward_gap() {
    // a gap of 1.0 s leaves 100 - 50 = 50 as every dodge's duration
    let notes = notes_spaced(200, 100);
    let mut r = rng(9);
    let walls = get_walls_from_notes(&notes, &medium(), &mut r);
    let mut dodges = 0u32;
    for w in walls.iter() {
        if let WallType::Dodge { duration, .. } = w.t {
            assert_eq!(duration, 50);
            dodges += 1;
        }
    }
    assert!(dodges > 0);
}

#[test]
fn tight_forward_spacing_excludes_dodges() {
    // gaps of 0.4 s allow a free choice (over 0.3 s) but stay under twice
    // the minimum interval, so only shapes and hits appear
    let notes = notes_spaced(100, 40);
    let mut r = rng(10);
    let walls = get_walls_from_notes(&notes, &medium(), &mut r);
    assert_eq!(walls.len(), 98);
    for w in walls.iter() {
        assert!(matches!(w.t, WallType::Shape { .. } | WallType::Hit { .. }));
    }
}

#[test]
fn short_gaps_floor_the_dodge_duration() {
    // a gap of 0.45 s admits dodges (over twice the 0.2 s minimum) but
    // 45 - 50 saturates at zero, so every dodge keeps the floor duration 2
    let notes = notes_spaced(300, 45);
    let mut r = rng(11);
    let ld = LevelDifficulty { min_interval: 20, ..medium() };
    let walls = get_walls_from_notes(&notes, &ld, &mut r);
    let mut dodges = 0u32;
    for w in walls.iter() {
        if let WallType::Dodge { duration, .. } = w.t {
            assert_eq!(duration, 2);
            dodges += 1;
        }
    }
    assert!(dodges > 0);
}
