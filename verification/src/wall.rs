//! Building one wall from a note, and rendering walls as symbolic codes.
use vstd::prelude::*;

use crate::rng;
use crate::text;
use crate::{DodgeType, LevelDifficulty, Note, Wall, WallType, LCR};

verus! {

/// Whether the previously generated wall was a coin.
pub open spec fn prev_is_coin(prev: Option<Wall>) -> bool {
    prev matches Some(p) && p.t is Coin
}

/// Whether a free choice (shape, hit or dodge) is allowed, given the spacing
/// of the current note and the generator's state: the note needs room on the
/// side of the previous note (unless a coin chain is running) and room on the
/// side of the next note (unless the coin chain has reached its cap).
pub open spec fn free_choice_allowed(
    time2prev: u64,
    time2next: u64,
    prev: Option<Wall>,
    acc_coins: int,
    ld: LevelDifficulty,
) -> bool {
    &&& time2prev > ld.min_interval || prev_is_coin(prev)
    &&& time2next > ld.min_interval || acc_coins >= ld.max_consecutive_coins
}

/// A dodge's duration: the gap to the next note in centiseconds, less 50,
/// saturating at zero, floored at 2, after capping the gap at `u16::MAX`.
pub open spec fn dodge_duration(time2next: int) -> int {
    let capped = if time2next > 65535 {
        65535int
    } else {
        time2next
    };
    let d = if capped >= 50 {
        capped - 50
    } else {
        0int
    };
    if d < 2 {
        2int
    } else {
        d
    }
}

/// How a dodge's direction is constrained by the wall before it: a directed
/// dodge right after another directed dodge mirrors it; after a `Top` dodge,
/// or after anything else, the direction is free.
pub open spec fn dodge_follows(prev: Option<Wall>, d: DodgeType) -> bool {
    prev matches Some(p) ==> (p.t matches WallType::Dodge { t, .. } ==> match t {
        DodgeType::TopLeft => d == DodgeType::TopRight,
        DodgeType::Left => d == DodgeType::Right,
        DodgeType::Top => true,
        DodgeType::Right => d == DodgeType::Left,
        DodgeType::TopRight => d == DodgeType::TopLeft,
    })
}

/// Where a coin may be placed: within one cell of the previous coin when the
/// previous wall was a coin, else within the fresh window `[-5, 5] x [3, 10]`.
pub open spec fn coin_follows(prev: Option<Wall>, x: i8, y: i8) -> bool {
    match prev {
        Some(p) => match p.t {
            WallType::Coin { x: px, y: py } => px - 1 <= x <= px + 1 && py - 1 <= y <= py + 1,
            _ => -5 <= x <= 5 && 3 <= y <= 10,
        },
        None => -5 <= x <= 5 && 3 <= y <= 10,
    }
}

/// The three-letter pose code of a shape wall.
pub open spec fn pose_chars(lean: LCR, standing: bool) -> Seq<char> {
    if !standing {
        "CDC"@
    } else {
        match lean {
            LCR::L => "LUC"@,
            LCR::C => "CUC"@,
            LCR::R => "RUC"@,
        }
    }
}

/// The alphabet from which a pose's two random prefix characters are drawn.
pub open spec fn pose_alphabet(pose: Seq<char>) -> Seq<char> {
    if pose == "CUC"@ {
        "012345789AB"@
    } else if pose == "CDC"@ {
        "02345789AB"@
    } else if pose == "LUC"@ || pose == "RUC"@ {
        "38"@
    } else {
        "2"@
    }
}

/// The code of a hit wall: position letter, hands letter (center shown as
/// `B`), and `U`/`D` for standing or ducked.
pub open spec fn hit_code(position: LCR, standing: bool, hands: LCR) -> Seq<char> {
    "WH."@ + crate::lcr_chars(position, "C"@) + crate::lcr_chars(hands, "B"@) + (if standing {
        "U"@
    } else {
        "D"@
    })
}

/// The code of a dodge wall: direction code and decimal duration.
pub open spec fn dodge_code(d: DodgeType, duration: u16) -> Seq<char> {
    "WA."@ + crate::dodge_chars(d) + "."@ + text::dec_u(duration as int)
}

/// The code of a coin wall: its two decimal coordinates.
pub open spec fn coin_code(x: i8, y: i8) -> Seq<char> {
    "CN."@ + text::dec_i(x as int) + "."@ + text::dec_i(y as int)
}

/// What `Wall::to_code` may return for a wall of type `t`. Hit, dodge and
/// coin codes are functions of the wall alone; a shape code carries two
/// characters drawn at random from the pose's alphabet.
pub open spec fn wall_code_ok(code: Seq<char>, t: WallType) -> bool {
    match t {
        WallType::Shape { lean, standing } => {
            &&& code.len() == 9
            &&& code.subrange(0, 4) == "WP.C"@
            &&& pose_alphabet(pose_chars(lean, standing)).contains(code[4])
            &&& pose_alphabet(pose_chars(lean, standing)).contains(code[5])
            &&& code.subrange(6, 9) == pose_chars(lean, standing)
        },
        WallType::Hit { position, standing, hands } => code == hit_code(position, standing, hands),
        WallType::Dodge { t: d, duration } => code == dodge_code(d, duration),
        WallType::Coin { x, y } => code == coin_code(x, y),
    }
}

/// Encoding is deterministic for hit, dodge and coin walls: their code is a
/// function of the wall alone, so two codes of one such wall are equal.
/// Only shape codes vary between calls, through their two randomly drawn
/// prefix characters.
pub proof fn lemma_encode_deterministic(t: WallType, code1: Seq<char>, code2: Seq<char>)
    requires
        !(t is Shape),
        wall_code_ok(code1, t),
        wall_code_ok(code2, t),
    ensures
        code1 == code2,
{
}

/// Whether two strings hold the same characters.
fn str_is(a: &str, b: &str) -> (r: bool)
    ensures
        r == (a@ == b@),
{
    let sa = String::from_str(a);
    let sb = String::from_str(b);
    sa.eq(&sb)
}

impl Wall {
    /// Draws the two-character random prefix of a shape's pose and appends
    /// the pose code to it, picking each prefix character independently
    /// from the pose's alphabet.
    pub fn choose_shape_patterns(main_pose: &str, rng: &mut rand::rngs::StdRng) -> (s: String)
        ensures
            s@.len() == 2 + main_pose@.len(),
            pose_alphabet(main_pose@).contains(s@[0]),
            pose_alphabet(main_pose@).contains(s@[1]),
            s@.subrange(2, s@.len() as int) == main_pose@,
    {
        proof {
            reveal_strlit("012345789AB");
            reveal_strlit("02345789AB");
            reveal_strlit("38");
            reveal_strlit("2");
        }
        let available_chars: &'static str = if str_is(main_pose, "CUC") {
            "012345789AB"
        } else if str_is(main_pose, "CDC") {
            "02345789AB"
        } else if str_is(main_pose, "LUC") {
            "38"
        } else if str_is(main_pose, "RUC") {
            "38"
        } else {
            "2"
        };
        proof {
            assert(available_chars@ == pose_alphabet(main_pose@));
        }
        let alpha_len = available_chars.unicode_len();
        let i1 = rng::gen_range_u64(rng, 0, alpha_len as u64 - 1) as usize;
        let i2 = rng::gen_range_u64(rng, 0, alpha_len as u64 - 1) as usize;
        let mut s = String::from_str(available_chars.substring_char(i1, i1 + 1));
        s.append(available_chars.substring_char(i2, i2 + 1));
        s.append(main_pose);
        proof {
            assert(s@[0] == available_chars@[i1 as int]);
            assert(s@[1] == available_chars@[i2 as int]);
            assert(available_chars@.contains(s@[0]));
            assert(available_chars@.contains(s@[1]));
            assert(s@.subrange(2, s@.len() as int) =~= main_pose@);
        }
        s
    }

    /// Renders the wall as its symbolic code. Hit, dodge and coin codes are
    /// functions of the wall alone; a shape code draws its two-character
    /// prefix from the generator.
    pub fn to_code(&self, rng: &mut rand::rngs::StdRng) -> (s: String)
        ensures
            wall_code_ok(s@, self.t),
    {
        match self.t {
            WallType::Shape { lean, standing } => {
                let main_pose: &'static str = if standing {
                    match lean {
                        LCR::L => "LUC",
                        LCR::C => "CUC",
                        LCR::R => "RUC",
                    }
                } else {
                    "CDC"
                };
                let suffix = Wall::choose_shape_patterns(main_pose, rng);
                let mut s = String::from_str("WP.C");
                s.append(suffix.as_str());
                proof {
                    reveal_strlit("WP.C");
                    reveal_strlit("LUC");
                    reveal_strlit("CUC");
                    reveal_strlit("RUC");
                    reveal_strlit("CDC");
                    assert(s@.subrange(0, 4) =~= "WP.C"@);
                    assert(s@[4] == suffix@[0]);
                    assert(s@[5] == suffix@[1]);
                    assert(s@.subrange(6, 9) =~= suffix@.subrange(2, suffix@.len() as int));
                }
                s
            },
            WallType::Hit { position, standing, hands } => {
                let mut s = String::from_str("WH.");
                s.append(position.to_str(None));
                s.append(hands.to_str(Some("B")));
                s.append(if standing {
                    "U"
                } else {
                    "D"
                });
                s
            },
            WallType::Dodge { t, duration } => {
                let mut s = String::from_str("WA.");
                s.append(t.to_str());
                s.append(".");
                s.append(text::u64_to_string(duration as u64).as_str());
                s
            },
            WallType::Coin { x, y } => {
                let mut s = String::from_str("CN.");
                s.append(text::i64_to_string(x as i64).as_str());
                s.append(".");
                s.append(text::i64_to_string(y as i64).as_str());
                s
            },
        }
    }

    /// Generates the wall of one note, given the gaps to the neighbouring
    /// notes, and carries the generator's state forward: `prev_wall` becomes
    /// this wall, and `acc_coins` counts the running coin chain.
    ///
    /// When no free choice is allowed the wall is a coin and the chain grows
    /// by one; otherwise the chain resets and the wall is a shape, hit or
    /// dodge, a dodge only if the gap ahead leaves it room.
    pub fn new(
        note: &Note,
        ld: &LevelDifficulty,
        rng: &mut rand::rngs::StdRng,
        time2prev: u64,
        time2next: u64,
        prev_wall: &mut Option<Wall>,
        acc_coins: &mut u8,
    ) -> (w: Wall)
        requires
            free_choice_allowed(
                time2prev,
                time2next,
                *old(prev_wall),
                *old(acc_coins) as int,
                *ld,
            ) || *old(acc_coins) < 255,
        ensures
            w.time == note.time,
            *final(prev_wall) == Some(w),
            free_choice_allowed(time2prev, time2next, *old(prev_wall), *old(acc_coins) as int, *ld)
                ==> !(w.t is Coin) && *final(acc_coins) == 0,
            !free_choice_allowed(time2prev, time2next, *old(prev_wall), *old(acc_coins) as int, *ld)
                ==> w.t is Coin && *final(acc_coins) == *old(acc_coins) + 1,
            free_choice_allowed(time2prev, time2next, *old(prev_wall), *old(acc_coins) as int, *ld)
                && time2next < 2 * ld.min_interval ==> (w.t is Shape || w.t is Hit),
            w.t matches WallType::Coin { x, y } ==> coin_follows(*old(prev_wall), x, y),
            w.t matches WallType::Dodge { t, duration } ==> duration == dodge_duration(
                time2next as int,
            ) && dodge_follows(*old(prev_wall), t),
    {
        let prev_coin_flag = match prev_wall {
            Some(p) => matches!(p.t, WallType::Coin { .. }),
            None => false,
        };
        let eligible = (time2prev > ld.min_interval as u64 || prev_coin_flag) && (time2next
            > ld.min_interval as u64 || *acc_coins >= ld.max_consecutive_coins);

        let wall_type: WallType = if eligible {
            *acc_coins = 0;
            let select: u64 = if time2next < 2 * (ld.min_interval as u64) {
                let r = rng::gen_range_u64(rng, 0, 2);
                if r <= 1 {
                    0
                } else {
                    1
                }
            } else {
                let r = rng::gen_range_u64(rng, 0, 3);
                if r <= 1 {
                    r
                } else {
                    2
                }
            };
            if select == 0 {
                WallType::Shape {
                    lean: LCR::sample(rng),
                    standing: rng::gen_range_u64(rng, 0, 1) == 1,
                }
            } else if select == 1 {
                WallType::Hit {
                    position: LCR::sample(rng),
                    standing: rng::gen_range_u64(rng, 0, 1) == 1,
                    hands: LCR::sample(rng),
                }
            } else {
                let capped: u16 = if time2next > 65535 {
                    65535
                } else {
                    time2next as u16
                };
                let d0: u16 = if capped >= 50 {
                    capped - 50
                } else {
                    0
                };
                let duration: u16 = if d0 < 2 {
                    2
                } else {
                    d0
                };
                let prev_dodge: Option<DodgeType> = match prev_wall {
                    Some(p) => match p.t {
                        WallType::Dodge { t, .. } => Some(t),
                        _ => None,
                    },
                    None => None,
                };
                let dir = match prev_dodge {
                    Some(DodgeType::TopLeft) => DodgeType::TopRight,
                    Some(DodgeType::Left) => DodgeType::Right,
                    Some(DodgeType::Top) => DodgeType::sample(rng),
                    Some(DodgeType::Right) => DodgeType::Left,
                    Some(DodgeType::TopRight) => DodgeType::TopLeft,
                    None => DodgeType::sample(rng),
                };
                WallType::Dodge { t: dir, duration }
            }
        } else {
            *acc_coins = *acc_coins + 1;
            let prev_coin: Option<(i8, i8)> = match prev_wall {
                Some(p) => match p.t {
                    WallType::Coin { x, y } => Some((x, y)),
                    _ => None,
                },
                None => None,
            };
            match prev_coin {
                Some((px, py)) => {
                    let lx: i16 = if px as i16 - 1 < -128 {
                        -128
                    } else {
                        px as i16 - 1
                    };
                    let hx: i16 = if px as i16 + 1 > 127 {
                        127
                    } else {
                        px as i16 + 1
                    };
                    let ly: i16 = if py as i16 - 1 < -128 {
                        -128
                    } else {
                        py as i16 - 1
                    };
                    let hy: i16 = if py as i16 + 1 > 127 {
                        127
                    } else {
                        py as i16 + 1
                    };
                    let dx = rng::gen_range_u64(rng, 0, (hx - lx) as u64);
                    let dy = rng::gen_range_u64(rng, 0, (hy - ly) as u64);
                    WallType::Coin { x: (lx + dx as i16) as i8, y: (ly + dy as i16) as i8 }
                }
                None => {
                    let dx = rng::gen_range_u64(rng, 0, 10);
                    let dy = rng::gen_range_u64(rng, 0, 7);
                    WallType::Coin { x: (dx as i16 - 5) as i8, y: (3 + dy) as i8 }
                }
            }
        };

        let result = Wall { time: note.time, t: wall_type };
        *prev_wall = Some(result);
        result
    }
}

} // verus!
