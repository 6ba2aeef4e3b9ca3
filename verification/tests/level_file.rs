use onshape_level_gen::text;
use onshape_level_gen::util::gen_yml;
use onshape_level_gen::{Difficulty, LevelDifficulty, SoundFileInfo, Wall, WallType, LCR};
use rand::SeedableRng;

fn rng() -> rand::rngs::StdRng {
    rand::rngs::StdRng::seed_from_u64(7)
}

fn info() -> SoundFileInfo {
    SoundFileInfo { title: "song".to_string(), audio_total_time: 123_456 }
}

fn medium() -> LevelDifficulty {
    LevelDifficulty {
        speed: 40,
        difficulty: Difficulty::Medium,
        min_interval: 30,
        max_consecutive_coins: 3,
    }
}

const HEADER: &str = "\n%YAML 1.1\n---\n\ntitle: song\nclip: song\nspeed: 40\naudioTime: 123.456\nscenario: 3\n\nvideo: \nvOffset: 0\n\nforceDebug: False\noffset: 0\n\nauthor: ohshape level gen\ndifficulty: medium\npreview: 0\n\ngrid: False\ngridBpm: 0\ngridOffset: 0\n\n\nlevels:\n  - level: 0\n    sequence:\n\n";

#[test]
fn empty_level_is_header_and_closer() {
    let mut r = rng();
    let yml = gen_yml(&info(), &medium(), Vec::new(), &mut r);
    let expected = format!("{HEADER}...");
    assert_eq!(yml, expected);
}

#[test]
fn walls_become_timed_entries() {
    let mut r = rng();
    let walls = vec![
        Wall { time: 150, t: WallType::Coin { x: -3, y: 7 } },
        Wall { time: 255, t: WallType::Hit { position: LCR::L, standing: true, hands: LCR::C } },
    ];
    let yml = gen_yml(&info(), &medium(), walls, &mut r);
    let expected = format!(
        "{HEADER}      - second: 1.50\n        obj: CN.-3.7\n        track: 0\n      - second: 2.55\n        obj: WH.LBU\n        track: 0\n..."
    );
    assert_eq!(yml, expected);
}

#[test]
fn unsigned_decimal_rendering() {
    assert_eq!(text::u64_to_string(0), "0");
    assert_eq!(text::u64_to_string(7), "7");
    assert_eq!(text::u64_to_string(40), "40");
    assert_eq!(text::u64_to_string(65535), "65535");
    assert_eq!(text::u64_to_string(1_000_000), "1000000");
}

#[test]
fn signed_decimal_rendering() {
    assert_eq!(text::i64_to_string(0), "0");
    assert_eq!(text::i64_to_string(-1), "-1");
    assert_eq!(text::i64_to_string(-128), "-128");
    assert_eq!(text::i64_to_string(127), "127");
}

#[test]
fn centisecond_rendering_keeps_two_decimals() {
    assert_eq!(text::centis_to_string(0), "0.00");
    assert_eq!(text::centis_to_string(5), "0.05");
    assert_eq!(text::centis_to_string(150), "1.50");
    assert_eq!(text::centis_to_string(12_345), "123.45");
}

#[test]
fn millisecond_rendering_keeps_three_decimals() {
    assert_eq!(text::millis_to_string(0), "0.000");
    assert_eq!(text::millis_to_string(42), "0.042");
    assert_eq!(text::millis_to_string(123_456), "123.456");
    assert_eq!(text::millis_to_string(60_000), "60.000");
}
