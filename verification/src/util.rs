//! The pipeline's stages: notes from a spectral summary, walls from notes,
//! and the level file's text from walls.
use vstd::prelude::*;

use crate::text;
use crate::wall::{
    coin_follows, dodge_duration, free_choice_allowed, prev_is_coin, wall_code_ok,
};
use crate::{
    Difficulty, DodgeType, LevelDifficulty, Note, Peak, Samples, SoundFileInfo, Wall, WallType,
};

verus! {

/// The start time, in centiseconds, of the block at index `i`.
pub open spec fn block_time(i: int, rate: u32) -> int {
    i * 4096 * 100 / (rate as int)
}

/// The smoothed magnitude baseline after folding in one more block's
/// magnitude: the mean of the running baseline and the new value.
pub open spec fn next_diff(diff: int, val: u32) -> int {
    (diff + val) / 2
}

/// Whether a block's magnitude passes the adaptive filter: it must clear a
/// small absolute floor and the smoothed baseline scaled by the difficulty
/// limit (the limit is carried in hundredths).
pub open spec fn accepts(val: u32, diff: int, limit: int) -> bool {
    val > 1000 && val * 100 > diff * limit
}

/// The note of the block at index `i`.
pub open spec fn peak_note(i: int, p: Peak, rate: u32) -> Note {
    Note { freq: p.freq, val: p.val, time: block_time(i, rate) as u64 }
}

/// The notes of the blocks from index `i` on, scanned with smoothed
/// baseline `diff` and difficulty limit `limit` (in hundredths). The
/// baseline is updated on every block, accepted or not, and a block's own
/// magnitude takes part in its own acceptance threshold.
pub open spec fn scan_from(peaks: Seq<Peak>, rate: u32, i: int, diff: int, limit: int) -> Seq<
    Note,
>
    decreases peaks.len() - i,
{
    if i < 0 || i >= peaks.len() {
        Seq::empty()
    } else {
        let d2 = next_diff(diff, peaks[i].val);
        let rest = scan_from(peaks, rate, i + 1, d2, limit);
        if accepts(peaks[i].val, d2, limit) {
            seq![peak_note(i, peaks[i], rate)] + rest
        } else {
            rest
        }
    }
}

/// The notes of one full scan of the song at the given difficulty limit.
pub open spec fn scan_notes(peaks: Seq<Peak>, rate: u32, limit: int) -> Seq<Note> {
    scan_from(peaks, rate, 0, 0, limit)
}

/// The smoothed baseline after the first `i` blocks.
pub open spec fn diff_at(peaks: Seq<Peak>, i: int) -> int
    decreases i,
{
    if i <= 0 {
        0
    } else {
        next_diff(diff_at(peaks, i - 1), peaks[i - 1].val)
    }
}

/// The note-count density band: a song of `total` samples is expected to
/// yield between 2.5 and 3.5 notes per second of audio.
pub open spec fn band_low(total: int, rate: u32) -> int {
    5 * total / (2 * rate as int)
}

/// The upper edge of the density band; see [`band_low`].
pub open spec fn band_high(total: int, rate: u32) -> int {
    7 * total / (2 * rate as int)
}

/// How far a note count lies outside the band `[lo, hi]` (0 inside it).
pub open spec fn band_dist(n: int, lo: int, hi: int) -> int {
    if n < lo {
        lo - n
    } else if n > hi {
        n - hi
    } else {
        0
    }
}

/// The bounded self-tuning search: scan at `limit`; return the scan when
/// its note count lands in the density band; otherwise nudge the limit by
/// two hundredths towards the band and try again, for at most `fuel` more
/// attempts, finally returning the attempt that came closest to the band.
pub open spec fn tune_from(
    peaks: Seq<Peak>,
    rate: u32,
    total: int,
    limit: int,
    fuel: nat,
    best: Seq<Note>,
    best_dist: int,
) -> Seq<Note>
    decreases fuel,
{
    let notes = scan_notes(peaks, rate, limit);
    let lo = band_low(total, rate);
    let hi = band_high(total, rate);
    let d = band_dist(notes.len() as int, lo, hi);
    if d == 0 {
        notes
    } else if fuel == 0 {
        if d < best_dist {
            notes
        } else {
            best
        }
    } else {
        let nl = if (notes.len() as int) < lo {
            limit - 2
        } else {
            limit + 2
        };
        tune_from(
            peaks,
            rate,
            total,
            nl,
            (fuel - 1) as nat,
            if d < best_dist {
                notes
            } else {
                best
            },
            if d < best_dist {
                d
            } else {
                best_dist
            },
        )
    }
}

/// What `get_notes_from_samples` returns: the self-tuning search started at
/// `limit` (in hundredths) with fifty attempts and no best attempt yet.
pub open spec fn tuned_notes(samples: Samples, limit: int) -> Seq<Note> {
    tune_from(
        samples.peaks@,
        samples.rate,
        samples.len as int,
        limit,
        50,
        Seq::empty(),
        0xFFFF_FFFF_FFFF_FFFF,
    )
}

/// Note times are strictly increasing.
pub open spec fn sorted_times(notes: Seq<Note>) -> bool {
    forall|i: int, j: int|
        0 <= i < j < notes.len() ==> #[trigger] notes[i].time < #[trigger] notes[j].time
}

/// Two consecutive coins sit within one cell of each other.
pub open spec fn coin_step(a: Wall, b: Wall) -> bool {
    match (a.t, b.t) {
        (WallType::Coin { x: x1, y: y1 }, WallType::Coin { x: x2, y: y2 }) => x1 - 1 <= x2 <= x1
            + 1 && y1 - 1 <= y2 <= y1 + 1,
        _ => true,
    }
}

/// A directed dodge right after another dodge mirrors its direction
/// (`Top` leaves the successor free).
pub open spec fn dodge_step(a: Wall, b: Wall) -> bool {
    match (a.t, b.t) {
        (WallType::Dodge { t: d1, .. }, WallType::Dodge { t: d2, .. }) => match d1 {
            DodgeType::TopLeft => d2 == DodgeType::TopRight,
            DodgeType::Left => d2 == DodgeType::Right,
            DodgeType::Top => true,
            DodgeType::Right => d2 == DodgeType::Left,
            DodgeType::TopRight => d2 == DodgeType::TopLeft,
        },
        _ => true,
    }
}

/// The number of consecutive coin walls ending at position `k` (0 when the
/// wall at `k` is not a coin).
pub open spec fn coin_streak(walls: Seq<Wall>, k: int) -> int
    decreases k,
{
    if k < 0 || k >= walls.len() {
        0
    } else if !(walls[k].t is Coin) {
        0
    } else if k == 0 {
        1
    } else {
        1 + coin_streak(walls, k - 1)
    }
}

/// The longest coin chain the generator can build under a cap of `m`
/// consecutive coins: `m`, except that a single forced coin can always
/// appear, even under a cap of zero.
pub open spec fn max_streak(m: u8) -> int {
    if m == 0 {
        1
    } else {
        m as int
    }
}

/// The wall at position `k` is what the generator's gate dictates for its
/// note window: it is a coin exactly when no free choice was allowed there
/// (judged by the gaps to the neighbouring notes, the wall before it and
/// the running coin chain), a free wall under tight forward spacing is a
/// shape or a hit, a dodge carries the duration derived from the forward
/// gap, and a coin sits where the wall before it allows.
pub open spec fn wall_matches_window(
    walls: Seq<Wall>,
    notes: Seq<Note>,
    ld: LevelDifficulty,
    k: int,
) -> bool {
    let t2p = (notes[k + 1].time - notes[k].time) as u64;
    let t2n = (notes[k + 2].time - notes[k + 1].time) as u64;
    let prev = if k == 0 {
        None
    } else {
        Some(walls[k - 1])
    };
    let acc = coin_streak(walls, k - 1);
    let free = free_choice_allowed(t2p, t2n, prev, acc, ld);
    &&& walls[k].t is Coin <==> !free
    &&& free && t2n < 2 * ld.min_interval ==> (walls[k].t is Shape || walls[k].t is Hit)
    &&& walls[k].t matches WallType::Dodge { duration, .. } ==> duration == dodge_duration(
        t2n as int,
    )
    &&& walls[k].t matches WallType::Coin { x, y } ==> coin_follows(prev, x, y)
}

/// A streak count is never negative.
proof fn lemma_streak_nonneg(walls: Seq<Wall>, k: int)
    ensures
        coin_streak(walls, k) >= 0,
    decreases k,
{
    if 0 < k < walls.len() && walls[k].t is Coin {
        lemma_streak_nonneg(walls, k - 1);
    }
}

/// Appending a wall does not change the streaks of earlier positions.
proof fn lemma_streak_push(walls: Seq<Wall>, w: Wall, k: int)
    requires
        0 <= k < walls.len(),
    ensures
        coin_streak(walls.push(w), k) == coin_streak(walls, k),
    decreases k,
{
    if k > 0 {
        lemma_streak_push(walls, w, k - 1);
    }
    assert(walls.push(w)[k] == walls[k]);
}

/// Block start times grow strictly with the block index, because one block
/// lasts at least one centisecond at any supported sample rate.
proof fn lemma_block_time_increases(i: int, j: int, rate: u32)
    requires
        0 <= i < j,
        1 <= rate <= 409600,
    ensures
        block_time(i, rate) < block_time(j, rate),
{
    let r = rate as int;
    vstd::arithmetic::div_mod::lemma_div_plus_one(i * 409600, r);
    vstd::arithmetic::div_mod::lemma_div_is_ordered(r + i * 409600, (i + 1) * 409600, r);
    vstd::arithmetic::div_mod::lemma_div_is_ordered((i + 1) * 409600, j * 409600, r);
}

/// A block's start time is bounded by the block count times the block
/// length in centiseconds.
proof fn lemma_block_time_bounds(i: int, rate: u32)
    requires
        0 <= i,
        1 <= rate,
    ensures
        0 <= block_time(i, rate) <= i * 409600,
{
    vstd::arithmetic::div_mod::lemma_div_pos_is_pos(i * 409600, rate as int);
    vstd::arithmetic::div_mod::lemma_div_nonincreasing(i * 409600, rate as int);
}

/// Every scan yields notes in strictly increasing time order, all of them
/// at or after the block where the scan starts.
proof fn lemma_scan_sorted(peaks: Seq<Peak>, rate: u32, i: int, diff: int, limit: int)
    requires
        1 <= rate <= 409600,
        peaks.len() <= 0x40_0000_0000,
    ensures
        sorted_times(scan_from(peaks, rate, i, diff, limit)),
        forall|k: int|
            0 <= k < scan_from(peaks, rate, i, diff, limit).len() ==> #[trigger] scan_from(
                peaks,
                rate,
                i,
                diff,
                limit,
            )[k].time >= block_time(i, rate),
    decreases peaks.len() - i,
{
    if 0 <= i < peaks.len() {
        let d2 = next_diff(diff, peaks[i].val);
        let rest = scan_from(peaks, rate, i + 1, d2, limit);
        lemma_scan_sorted(peaks, rate, i + 1, d2, limit);
        lemma_block_time_increases(i, i + 1, rate);
        lemma_block_time_bounds(i, rate);
        lemma_block_time_bounds(i + 1, rate);
        let s = scan_from(peaks, rate, i, diff, limit);
        if accepts(peaks[i].val, d2, limit) {
            assert(s == seq![peak_note(i, peaks[i], rate)] + rest);
            assert(s[0].time == block_time(i, rate));
            assert(forall|k: int| 1 <= k < s.len() ==> s[k] == rest[k - 1]);
            assert forall|k1: int, k2: int| 0 <= k1 < k2 < s.len() implies s[k1].time
                < s[k2].time by {
                if k1 == 0 {
                    assert(rest[k2 - 1].time >= block_time(i + 1, rate));
                }
            }
        }
    }
}

/// The self-tuning search returns notes in strictly increasing time order,
/// provided the best attempt carried in is itself in order.
proof fn lemma_tune_sorted(
    peaks: Seq<Peak>,
    rate: u32,
    total: int,
    limit: int,
    fuel: nat,
    best: Seq<Note>,
    best_dist: int,
)
    requires
        1 <= rate <= 409600,
        peaks.len() <= 0x40_0000_0000,
        sorted_times(best),
    ensures
        sorted_times(tune_from(peaks, rate, total, limit, fuel, best, best_dist)),
    decreases fuel,
{
    lemma_scan_sorted(peaks, rate, 0, 0, limit);
    let notes = scan_notes(peaks, rate, limit);
    let lo = band_low(total, rate);
    let hi = band_high(total, rate);
    let d = band_dist(notes.len() as int, lo, hi);
    if d != 0 && fuel > 0 {
        let nl = if (notes.len() as int) < lo {
            limit - 2
        } else {
            limit + 2
        };
        lemma_tune_sorted(
            peaks,
            rate,
            total,
            nl,
            (fuel - 1) as nat,
            if d < best_dist {
                notes
            } else {
                best
            },
            if d < best_dist {
                d
            } else {
                best_dist
            },
        );
    }
}

/// One scan of the song's blocks at the given difficulty limit.
fn scan_notes_exec(samples: &Samples, limit: i64) -> (notes: Vec<Note>)
    requires
        samples.wf(),
        -10100 <= limit <= 10100,
    ensures
        notes@ == scan_notes(samples.peaks@, samples.rate, limit as int),
{
    let nblocks = samples.peaks.len();
    let mut notes: Vec<Note> = Vec::new();
    let mut diff: u64 = 0;
    let mut i: usize = 0;
    while i < nblocks
        invariant
            samples.wf(),
            -10100 <= limit <= 10100,
            nblocks == samples.peaks@.len(),
            0 <= i <= nblocks,
            diff as int == diff_at(samples.peaks@, i as int),
            diff <= u32::MAX,
            notes@ + scan_from(samples.peaks@, samples.rate, i as int, diff as int, limit as int)
                =~= scan_notes(samples.peaks@, samples.rate, limit as int),
        decreases nblocks - i,
    {
        let ghost old_notes = notes@;
        let ghost old_diff = diff as int;
        let p = samples.peaks[i];
        let d2: u64 = (diff + p.val as u64) / 2;
        let accept: bool;
        if p.val > 1000 {
            if limit <= 0 {
                proof {
                    assert(d2 as int * (limit as int) <= 0) by (nonlinear_arith)
                        requires
                            d2 >= 0,
                            limit <= 0,
                    ;
                }
                accept = true;
            } else {
                proof {
                    assert(d2 as int * (limit as int) <= 0xFFFF_FFFF * 10100) by (nonlinear_arith)
                        requires
                            0 <= d2 <= 0xFFFF_FFFF,
                            0 < limit <= 10100,
                    ;
                }
                accept = (p.val as u64) * 100 > d2 * (limit as u64);
            }
        } else {
            accept = false;
        }
        proof {
            assert(d2 as int == next_diff(old_diff, p.val));
            assert(accept == accepts(p.val, d2 as int, limit as int));
        }
        let time: u64 = (i as u64) * 4096 * 100 / (samples.rate as u64);
        proof {
            lemma_block_time_bounds(i as int, samples.rate);
            assert(time as int == block_time(i as int, samples.rate));
        }
        let ghost rest = scan_from(
            samples.peaks@,
            samples.rate,
            i + 1,
            d2 as int,
            limit as int,
        );
        if accept {
            notes.push(Note { freq: p.freq, val: p.val, time });
            proof {
                assert(notes@ =~= old_notes + seq![peak_note(i as int, p, samples.rate)]);
                assert(old_notes + (seq![peak_note(i as int, p, samples.rate)] + rest) =~= notes@
                    + rest);
            }
        }
        diff = d2;
        i = i + 1;
    }
    notes
}

/// One step of the bounded self-tuning search; see [`tune_from`].
fn tune_rec(samples: &Samples, limit: i64, fuel: u8, best: Vec<Note>, best_dist: u64) -> (notes:
    Vec<Note>)
    requires
        samples.wf(),
        fuel <= 50,
        -10000 - 2 * (50 - fuel as int) <= limit <= 10000 + 2 * (50 - fuel as int),
    ensures
        notes@ == tune_from(
            samples.peaks@,
            samples.rate,
            samples.len as int,
            limit as int,
            fuel as nat,
            best@,
            best_dist as int,
        ),
    decreases fuel,
{
    let notes = scan_notes_exec(samples, limit);
    let n: u64 = notes.len() as u64;
    let lo: u64 = 5 * (samples.len as u64) / (2 * samples.rate as u64);
    let hi: u64 = 7 * (samples.len as u64) / (2 * samples.rate as u64);
    let d: u64 = if n < lo {
        lo - n
    } else if n > hi {
        n - hi
    } else {
        0
    };
    proof {
        assert(lo as int == band_low(samples.len as int, samples.rate));
        assert(hi as int == band_high(samples.len as int, samples.rate));
        assert(d as int == band_dist(n as int, lo as int, hi as int));
    }
    if d == 0 {
        notes
    } else if fuel == 0 {
        if d < best_dist {
            notes
        } else {
            best
        }
    } else {
        let nl: i64 = if n < lo {
            limit - 2
        } else {
            limit + 2
        };
        if d < best_dist {
            tune_rec(samples, nl, fuel - 1, notes, d)
        } else {
            tune_rec(samples, nl, fuel - 1, best, best_dist)
        }
    }
}

/// Detects the notes of a song: scans its blocks with the adaptive filter
/// at `difficulty_limit` (in hundredths), then retunes the limit in steps
/// of two hundredths until the note count falls into the density band, for
/// at most fifty attempts; on exhaustion the attempt closest to the band is
/// returned. The returned notes carry strictly increasing times.
pub fn get_notes_from_samples(samples: &Samples, difficulty_limit: i64) -> (notes: Vec<Note>)
    requires
        samples.wf(),
        -10000 <= difficulty_limit <= 10000,
    ensures
        notes@ == tuned_notes(*samples, difficulty_limit as int),
        sorted_times(notes@),
{
    let notes = tune_rec(samples, difficulty_limit, 50, Vec::new(), 0xFFFF_FFFF_FFFF_FFFF);
    proof {
        lemma_tune_sorted(
            samples.peaks@,
            samples.rate,
            samples.len as int,
            difficulty_limit as int,
            50,
            Seq::empty(),
            0xFFFF_FFFF_FFFF_FFFF,
        );
    }
    notes
}

/// Generates one wall per interior note of `notes` (the first and last note
/// of the sequence are never converted), each wall carrying its note's time.
///
/// The walls obey the generator's pattern constraints: consecutive coins
/// move at most one cell at a time, a directed dodge directly after another
/// dodge mirrors it, and no coin chain is longer than the profile's cap
/// allows (a lone forced coin can appear even under a cap of zero).
pub fn get_walls_from_notes(
    notes: &Vec<Note>,
    ld: &LevelDifficulty,
    rng: &mut rand::rngs::StdRng,
) -> (walls: Vec<Wall>)
    requires
        sorted_times(notes@),
    ensures
        walls@.len() == if notes@.len() >= 3 {
            notes@.len() - 2
        } else {
            0int
        },
        forall|k: int| 0 <= k < walls@.len() ==> #[trigger] walls@[k].time == notes@[k + 1].time,
        forall|k: int| 0 <= k && k + 1 < walls@.len() ==> #[trigger] coin_step(walls@[k], walls@[k + 1]),
        forall|k: int| 0 <= k && k + 1 < walls@.len() ==> #[trigger] dodge_step(walls@[k], walls@[k + 1]),
        forall|k: int|
            0 <= k < walls@.len() ==> #[trigger] coin_streak(walls@, k) <= max_streak(
                ld.max_consecutive_coins,
            ),
        forall|k: int|
            0 <= k < walls@.len() ==> #[trigger] wall_matches_window(walls@, notes@, *ld, k),
{
    let n = notes.len();
    let mut walls: Vec<Wall> = Vec::new();
    if n < 3 {
        return walls;
    }
    let mut prev_wall: Option<Wall> = None;
    let mut acc_coins: u8 = 0;
    let mut i: usize = 1;
    while i < n - 1
        invariant
            3 <= n == notes@.len(),
            1 <= i <= n - 1,
            walls@.len() == i - 1,
            sorted_times(notes@),
            forall|k: int|
                0 <= k < walls@.len() ==> #[trigger] walls@[k].time == notes@[k + 1].time,
            forall|k: int| 0 <= k && k + 1 < walls@.len() ==> #[trigger] coin_step(walls@[k], walls@[k + 1]),
            forall|k: int| 0 <= k && k + 1 < walls@.len() ==> #[trigger] dodge_step(walls@[k], walls@[k + 1]),
            forall|k: int|
                0 <= k < walls@.len() ==> #[trigger] coin_streak(walls@, k) <= max_streak(
                    ld.max_consecutive_coins,
                ),
            walls@.len() == 0 ==> prev_wall is None && acc_coins == 0,
            walls@.len() > 0 ==> prev_wall == Some(walls@.last()),
            acc_coins > 0 ==> prev_is_coin(prev_wall),
            walls@.len() > 0 && walls@.last().t is Coin ==> acc_coins as int == coin_streak(
                walls@,
                walls@.len() - 1,
            ),
            walls@.len() > 0 && !(walls@.last().t is Coin) ==> acc_coins == 0,
            acc_coins as int == coin_streak(walls@, walls@.len() - 1),
            acc_coins as int <= max_streak(ld.max_consecutive_coins),
            forall|k: int|
                0 <= k < walls@.len() ==> #[trigger] wall_matches_window(walls@, notes@, *ld, k),
        decreases n - i,
    {
        proof {
            assert(notes@[i - 1].time < notes@[i as int].time);
            assert(notes@[i as int].time < notes@[i + 1].time);
        }
        let time2prev = notes[i].time - notes[i - 1].time;
        let time2next = notes[i + 1].time - notes[i].time;
        let ghost old_walls = walls@;
        let ghost old_prev = prev_wall;
        let ghost old_acc = acc_coins;
        proof {
            if acc_coins == 255 {
                // the cap is at most 255, so the chain has reached it and a
                // free choice is allowed; otherwise the counter has room
                assert(prev_is_coin(prev_wall));
                assert(acc_coins >= ld.max_consecutive_coins);
            }
        }
        let w = Wall::new(&notes[i], ld, rng, time2prev, time2next, &mut prev_wall, &mut acc_coins);
        walls.push(w);
        proof {
            let m = max_streak(ld.max_consecutive_coins);
            let len = walls@.len();
            assert(walls@ == old_walls.push(w));
            assert(walls@[len - 1] == w);
            assert forall|k: int| 0 <= k < old_walls.len() implies coin_streak(walls@, k)
                == coin_streak(old_walls, k) by {
                lemma_streak_push(old_walls, w, k);
            }
            if old_walls.len() > 0 {
                assert(walls@[len - 2] == old_walls[old_walls.len() - 1]);
                assert(coin_streak(walls@, len - 2) == coin_streak(old_walls, len - 2));
                lemma_streak_nonneg(old_walls, old_walls.len() - 2);
            }
            let elig = free_choice_allowed(time2prev, time2next, old_prev, old_acc as int, *ld);
            if elig {
                assert(!(w.t is Coin));
                assert(coin_streak(walls@, len - 1) == 0);
            } else {
                assert(w.t is Coin);
                assert(acc_coins == old_acc + 1);
                if old_acc == 0 {
                    if old_walls.len() > 0 {
                        assert(!(old_walls.last().t is Coin) || coin_streak(
                            old_walls,
                            old_walls.len() - 1,
                        ) == 0);
                        if old_walls.last().t is Coin {
                            // a coin at the end of the sequence has a
                            // positive streak, so the counter cannot be zero
                            assert(coin_streak(old_walls, old_walls.len() - 1) >= 1);
                            assert(false);
                        }
                        assert(coin_streak(walls@, len - 1) == 1);
                    } else {
                        assert(coin_streak(walls@, len - 1) == 1);
                    }
                    assert(acc_coins as int == coin_streak(walls@, len - 1));
                    assert(coin_streak(walls@, len - 1) <= m);
                } else {
                    assert(prev_is_coin(old_prev));
                    assert(old_walls.len() > 0 && old_walls.last().t is Coin);
                    assert(coin_streak(old_walls, old_walls.len() - 1) == old_acc as int);
                    assert(coin_streak(walls@, len - 1) == old_acc + 1);
                    // the first gate passes after a coin, so the coin was
                    // forced by the second gate, whose counter was below the cap
                    assert(time2next <= ld.min_interval && old_acc < ld.max_consecutive_coins);
                    assert(coin_streak(walls@, len - 1) <= m);
                }
            }
            assert forall|k: int| 0 <= k < walls@.len() implies coin_streak(walls@, k)
                <= max_streak(ld.max_consecutive_coins) by {
                if k < old_walls.len() {
                    assert(coin_streak(walls@, k) == coin_streak(old_walls, k));
                } else {
                    assert(k == len - 1);
                }
            }
            assert(acc_coins as int == coin_streak(walls@, len - 1));
            assert forall|k: int| 0 <= k < old_walls.len() implies wall_matches_window(
                walls@,
                notes@,
                *ld,
                k,
            ) by {
                if k > 0 {
                    lemma_streak_push(old_walls, w, k - 1);
                    assert(walls@[k - 1] == old_walls[k - 1]);
                }
                assert(walls@[k] == old_walls[k]);
                assert(wall_matches_window(old_walls, notes@, *ld, k));
            }
            assert(wall_matches_window(walls@, notes@, *ld, len - 1)) by {
                if old_walls.len() > 0 {
                    lemma_streak_push(old_walls, w, old_walls.len() - 1);
                    assert(walls@[len - 2] == old_walls[old_walls.len() - 1]);
                }
                assert(coin_streak(walls@, len - 2) == old_acc as int);
                assert((notes@[len as int].time - notes@[len - 1].time) as u64 == time2prev);
                assert((notes@[len as int + 1].time - notes@[len as int].time) as u64
                    == time2next);
            }
        }
        i = i + 1;
    }
    walls
}

/// The fixed head of the level file, with the song's title, the profile's
/// speed, the play time in seconds (three decimals) and the difficulty
/// label filled in.
pub open spec fn yml_header(title: Seq<char>, speed: u8, total_ms: u64, diff: Difficulty) -> Seq<
    char,
> {
    "\n%YAML 1.1\n---\n\ntitle: "@ + title + "\nclip: "@ + title + "\nspeed: "@ + text::dec_u(
        speed as int,
    ) + "\naudioTime: "@ + text::dec_millis(total_ms as int)
        + "\nscenario: 3\n\nvideo: \nvOffset: 0\n\nforceDebug: False\noffset: 0\n\nauthor: ohshape level gen\ndifficulty: "@
        + crate::difficulty_chars(diff)
        + "\npreview: 0\n\ngrid: False\ngridBpm: 0\ngridOffset: 0\n\n\nlevels:\n  - level: 0\n    sequence:\n\n"@
}

/// One wall's lines in the level file: its time in seconds (two decimals)
/// and its symbolic code.
pub open spec fn yml_entry(time_cs: u64, code: Seq<char>) -> Seq<char> {
    "      - second: "@ + text::dec_centis(time_cs as int) + "\n        obj: "@ + code
        + "\n        track: 0\n"@
}

/// The sequence part of the level file: one entry per wall, in order, the
/// wall at position `k` rendered with the code at position `k`.
pub open spec fn yml_entries(walls: Seq<Wall>, codes: Seq<Seq<char>>) -> Seq<char>
    decreases walls.len(),
{
    if walls.len() == 0 {
        Seq::<char>::empty()
    } else {
        yml_entries(walls.drop_last(), codes.drop_last()) + yml_entry(
            walls.last().time,
            codes.last(),
        )
    }
}

/// Each code is an admissible rendering of its wall.
pub open spec fn codes_ok(walls: Seq<Wall>, codes: Seq<Seq<char>>) -> bool {
    &&& codes.len() == walls.len()
    &&& forall|k: int| 0 <= k < walls.len() ==> wall_code_ok(#[trigger] codes[k], walls[k].t)
}

/// What `gen_yml` returns: the header, one entry per wall rendered with
/// some admissible code, and the closing document marker.
pub open spec fn yml_output_ok(
    s: Seq<char>,
    info: SoundFileInfo,
    ld: LevelDifficulty,
    walls: Seq<Wall>,
) -> bool {
    exists|codes: Seq<Seq<char>>|
        #[trigger] codes_ok(walls, codes) && s == yml_header(
            info.title@,
            ld.speed,
            info.audio_total_time,
            ld.difficulty,
        ) + yml_entries(walls, codes) + "..."@
}

/// Renders the level file for one difficulty profile: the fixed header
/// followed by one timed entry per wall and the closing document marker.
pub fn gen_yml(
    info: &SoundFileInfo,
    ld: &LevelDifficulty,
    walls: Vec<Wall>,
    rng: &mut rand::rngs::StdRng,
) -> (s: String)
    ensures
        yml_output_ok(s@, *info, *ld, walls@),
{
    let mut s = String::new();
    s.append("\n%YAML 1.1\n---\n\ntitle: ");
    s.append(info.title.as_str());
    s.append("\nclip: ");
    s.append(info.title.as_str());
    s.append("\nspeed: ");
    s.append(text::u64_to_string(ld.speed as u64).as_str());
    s.append("\naudioTime: ");
    s.append(text::millis_to_string(info.audio_total_time).as_str());
    s.append(
        "\nscenario: 3\n\nvideo: \nvOffset: 0\n\nforceDebug: False\noffset: 0\n\nauthor: ohshape level gen\ndifficulty: ",
    );
    s.append(ld.difficulty.to_str());
    s.append(
        "\npreview: 0\n\ngrid: False\ngridBpm: 0\ngridOffset: 0\n\n\nlevels:\n  - level: 0\n    sequence:\n\n",
    );
    let ghost header = yml_header(info.title@, ld.speed, info.audio_total_time, ld.difficulty);
    proof {
        assert(s@ =~= header);
    }
    let ghost mut codes = Seq::<Seq<char>>::empty();
    let mut i: usize = 0;
    while i < walls.len()
        invariant
            0 <= i <= walls@.len(),
            header == yml_header(info.title@, ld.speed, info.audio_total_time, ld.difficulty),
            codes_ok(walls@.take(i as int), codes),
            s@ == header + yml_entries(walls@.take(i as int), codes),
        decreases walls@.len() - i,
    {
        let w = walls[i];
        let code = w.to_code(rng);
        s.append("      - second: ");
        s.append(text::centis_to_string(w.time).as_str());
        s.append("\n        obj: ");
        s.append(code.as_str());
        s.append("\n        track: 0\n");
        proof {
            let prior = codes;
            codes = codes.push(code@);
            assert(walls@.take(i + 1).last() == w);
            assert(walls@.take(i + 1).drop_last() =~= walls@.take(i as int));
            assert(codes.drop_last() =~= prior);
            assert(codes.last() == code@);
            assert(yml_entries(walls@.take(i + 1), codes) == yml_entries(
                walls@.take(i as int),
                prior,
            ) + yml_entry(w.time, code@));
            assert(s@ =~= header + yml_entries(walls@.take(i + 1), codes));
            assert forall|k: int| 0 <= k < walls@.take(i + 1).len() implies wall_code_ok(
                #[trigger] codes[k],
                walls@.take(i + 1)[k].t,
            ) by {
                if k < i {
                    assert(codes[k] == prior[k]);
                }
            }
            assert(codes_ok(walls@.take(i + 1), codes));
        }
        i = i + 1;
    }
    s.append("...");
    proof {
        assert(walls@.take(walls@.len() as int) =~= walls@);
        assert(codes_ok(walls@, codes));
        assert(s@ == header + yml_entries(walls@, codes) + "..."@);
    }
    s
}

} // verus!
