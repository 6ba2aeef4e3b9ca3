//! Generates OnShape game levels from music.
//!
//! A decoded song is reduced to one dominant spectral peak per fixed-size
//! sample block; an adaptive threshold turns those peaks into a sparse,
//! time-ordered sequence of notes; a stateful generator turns the notes into
//! typed game events ("walls"); and an encoder renders each wall as the
//! compact symbolic code that the level file format uses.
//!
//! All times are carried in centiseconds and all spectral magnitudes in
//! millionths, so every stage works on plain integers. Randomness is drawn
//! from an explicit generator handle, which makes a run reproducible from a
//! seed.
use vstd::prelude::*;

pub mod rng;
pub mod text;
pub mod util;
pub mod wall;

verus! {

/// Number of raw samples in one spectral-analysis block.
pub const BLOCK_SIZE: usize = 4096;

/// The per-block spectral summary of a song, as handed over by the
/// front end that decodes the audio and runs the transform.
///
/// `rate` is the sample rate in Hz, `len` the total number of mono samples,
/// and `peaks` holds the dominant spectral peak of each full block of
/// `BLOCK_SIZE` samples, in block order (the trailing partial block is
/// dropped).
pub struct Samples {
    pub rate: u32,
    pub len: usize,
    pub peaks: Vec<Peak>,
}

/// The dominant spectral peak of one sample block: `freq` in millihertz,
/// `val` (its magnitude) in millionths.
#[derive(Debug, Clone, Copy, PartialEq, Eq, Structural)]
pub struct Peak {
    pub freq: u32,
    pub val: u32,
}

impl Samples {
    /// A well-formed summary: a positive sample rate no higher than
    /// `409_600` Hz (so that block start times, taken in centiseconds,
    /// are strictly increasing), a total length small enough that no time
    /// computation can overflow, and one peak per full block.
    pub open spec fn wf(self) -> bool {
        &&& 1 <= self.rate <= 409600
        &&& self.len <= 0x4_0000_0000_0000
        &&& self.peaks@.len() == self.len as int / (BLOCK_SIZE as int)
    }
}

/// A detected salient audio event: the dominant spectral peak of one block
/// that passed the adaptive filter. `freq` is in millihertz, `val` in
/// millionths, and `time` is the block's start offset in centiseconds.
#[derive(Debug, Clone, Copy, PartialEq, Eq, Structural)]
pub struct Note {
    pub freq: u32,
    pub val: u32,
    pub time: u64,
}

/// The common lateral position (left, center, right) of the OnShape game.
#[derive(Debug, Copy, Clone, PartialEq, Eq, Structural)]
pub enum LCR {
    L,
    C,
    R,
}

/// The five dodge directions of the OnShape game.
#[derive(Debug, Copy, Clone, PartialEq, Eq, Structural)]
pub enum DodgeType {
    TopLeft,
    Left,
    Top,
    Right,
    TopRight,
}

/// The possible wall shapes of the OnShape game.
#[derive(Debug, Clone, Copy, PartialEq, Eq, Structural)]
pub enum WallType {
    Shape { lean: LCR, standing: bool },
    Hit { position: LCR, standing: bool, hands: LCR },
    Dodge { t: DodgeType, duration: u16 },
    Coin { x: i8, y: i8 },
}

/// One timed wall event: the time (centiseconds) and the type of the wall.
#[derive(Debug, Clone, Copy, PartialEq, Eq, Structural)]
pub struct Wall {
    pub time: u64,
    pub t: WallType,
}

/// The difficulty labels used in OnShape level scripts.
#[derive(Debug, Clone, Copy, PartialEq, Eq, Structural)]
pub enum Difficulty {
    Beginner,
    Easy,
    Medium,
    Hard,
}

/// The title and total play time (milliseconds) of a decoded sound file.
pub struct SoundFileInfo {
    pub title: String,
    pub audio_total_time: u64,
}

/// One output variant's generation profile: the scroll speed written to the
/// level file, its difficulty label, the minimum free spacing between walls
/// in centiseconds, and how many coins may pile up in a row before a free
/// choice is forced.
#[derive(Debug, Clone, Copy, PartialEq, Eq, Structural)]
pub struct LevelDifficulty {
    pub speed: u8,
    pub difficulty: Difficulty,
    pub min_interval: u32,
    pub max_consecutive_coins: u8,
}

/// What `LCR::to_str` returns: the letter of the position, with the center
/// letter replaceable by the caller.
pub open spec fn lcr_chars(l: LCR, center: Seq<char>) -> Seq<char> {
    match l {
        LCR::L => "L"@,
        LCR::C => center,
        LCR::R => "R"@,
    }
}

/// What `DodgeType::to_str` returns.
pub open spec fn dodge_chars(d: DodgeType) -> Seq<char> {
    match d {
        DodgeType::TopLeft => "LI"@,
        DodgeType::Left => "L"@,
        DodgeType::Top => "U"@,
        DodgeType::Right => "R"@,
        DodgeType::TopRight => "RI"@,
    }
}

/// What `Difficulty::to_str` returns.
pub open spec fn difficulty_chars(d: Difficulty) -> Seq<char> {
    match d {
        Difficulty::Beginner => "beginner"@,
        Difficulty::Easy => "easy"@,
        Difficulty::Medium => "medium"@,
        Difficulty::Hard => "hard"@,
    }
}

impl LCR {
    /// The position's letter; `center_char` replaces the default `"C"` for
    /// the center position.
    pub fn to_str(&self, center_char: Option<&'static str>) -> (r: &'static str)
        ensures
            r@ == lcr_chars(
                *self,
                match center_char {
                    Some(c) => c@,
                    None => "C"@,
                },
            ),
    {
        match &self {
            LCR::L => "L",
            LCR::C => center_char.unwrap_or("C"),
            LCR::R => "R",
        }
    }

    /// Draws a position at random, the center twice as likely as each side.
    pub fn sample(rng: &mut rand::rngs::StdRng) -> LCR {
        let r = rng::gen_range_u64(rng, 0, 3);
        if r == 0 {
            LCR::L
        } else if r <= 2 {
            LCR::C
        } else {
            LCR::R
        }
    }
}

impl DodgeType {
    /// The direction's code in the level file format.
    pub fn to_str(&self) -> (r: &'static str)
        ensures
            r@ == dodge_chars(*self),
    {
        match &self {
            DodgeType::TopLeft => "LI",
            DodgeType::Left => "L",
            DodgeType::Top => "U",
            DodgeType::Right => "R",
            DodgeType::TopRight => "RI",
        }
    }

    /// Draws one of the five directions uniformly at random.
    pub fn sample(rng: &mut rand::rngs::StdRng) -> DodgeType {
        let r = rng::gen_range_u64(rng, 0, 4);
        if r == 0 {
            DodgeType::TopLeft
        } else if r == 1 {
            DodgeType::Left
        } else if r == 2 {
            DodgeType::Top
        } else if r == 3 {
            DodgeType::Right
        } else {
            DodgeType::TopRight
        }
    }
}

impl Difficulty {
    /// The label under which the level file names this difficulty.
    pub fn to_str(&self) -> (r: &'static str)
        ensures
            r@ == difficulty_chars(*self),
    {
        match &self {
            Difficulty::Beginner => "beginner",
            Difficulty::Easy => "easy",
            Difficulty::Medium => "medium",
            Difficulty::Hard => "hard",
        }
    }
}

} // verus!
