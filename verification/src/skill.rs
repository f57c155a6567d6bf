//! AI strength: the difficulty levels and the weighted choice among the
//! engine's candidate lines that makes lower levels play weaker moves.
use vstd::prelude::*;

use crate::text::{chars_of, dec_string, parse_u8, parse_unsigned, push_decimal};
use crate::uci::{AnalysisInfo, InfoView};

verus! {

/// An AI difficulty level from 1 to 20; level 20 plays at full strength.
#[derive(Debug, Clone, Copy, PartialEq, Eq, Structural)]
pub struct Difficulty(u8);

impl View for Difficulty {
    type V = u8;

    closed spec fn view(&self) -> u8 {
        self.0
    }
}

/// The message for a level outside 1 to 20.
pub open spec fn difficulty_error_text() -> Seq<char> {
    "难度必须是 1 到 20 的整数"@
}

impl Difficulty {
    pub const MIN: u8 = 1;
    pub const MAX: u8 = 20;

    #[verifier::type_invariant]
    closed spec fn inv(self) -> bool {
        1 <= self.0 <= 20
    }

    /// The difficulty of `level`, if it lies in 1 to 20.
    pub fn new(level: u8) -> (r: Option<Self>)
        ensures
            r is Some <==> 1 <= level <= 20,
            r is Some ==> r->0@ == level,
    {
        if level >= Self::MIN && level <= Self::MAX {
            Some(Difficulty(level))
        } else {
            None
        }
    }

    /// Reads a level from text, as `str::parse::<u8>` reads it.
    pub fn parse(value: &str) -> (r: Result<Self, String>)
        ensures
            match parse_unsigned(value@, u8::MAX as nat) {
                Some(v) if 1 <= v <= 20 => r is Ok && r->Ok_0@ == v,
                _ => r is Err && r->Err_0@ == difficulty_error_text(),
            },
    {
        let cs = chars_of(value);
        match parse_u8(cs.as_slice()) {
            Some(level) => match Self::new(level) {
                Some(d) => Ok(d),
                None => Err("难度必须是 1 到 20 的整数".to_string()),
            },
            None => Err("难度必须是 1 到 20 的整数".to_string()),
        }
    }

    /// The level, 1 to 20.
    pub fn level(self) -> (r: u8)
        ensures
            r == self@,
            1 <= r <= 20,
    {
        proof {
            use_type_invariant(&self);
        }
        self.0
    }

    /// Whether this is level 20, which plays at full strength.
    pub fn is_full_strength(self) -> (r: bool)
        ensures
            r == (self@ == 20),
    {
        self.0 == Self::MAX
    }

    /// The search depth at which a weakened level fixes its choice: one more
    /// than the level; none at full strength.
    pub fn selection_depth(self) -> (r: Option<u32>)
        ensures
            self@ == 20 ==> r is None,
            self@ != 20 ==> r == Some((self@ + 1) as u32),
    {
        proof {
            use_type_invariant(&self);
        }
        if self.is_full_strength() {
            None
        } else {
            Some(self.0 as u32 + 1)
        }
    }

    /// How far a weakened level strays from the best line: `120 - 2 * level`;
    /// none at full strength.
    pub fn weakness(self) -> (r: Option<u8>)
        ensures
            self@ == 20 ==> r is None,
            self@ != 20 ==> r == Some((120 - 2 * self@) as u8),
    {
        proof {
            use_type_invariant(&self);
        }
        if self.is_full_strength() {
            None
        } else {
            Some(120 - 2 * self.0)
        }
    }
}

/// Two difficulties are equal exactly when their levels are.
pub proof fn lemma_difficulty_eq(a: Difficulty, b: Difficulty)
    ensures
        (a@ == b@) <==> (a == b),
{
}

/// The message that reports a level: the current one, or one just set;
/// level 20 is marked as unlimited.
pub open spec fn difficulty_message_text(level: u8, current: bool) -> Seq<char> {
    (if current {
        "当前 AI 难度"@
    } else {
        "AI 难度已设为"@
    }) + if level == 20 {
        " 20（不限棋力）"@
    } else {
        " "@ + dec_string(level as nat)
    }
}

/// The message that reports a level, such as `AI 难度已设为 7`.
pub fn difficulty_message(difficulty: Difficulty, current: bool) -> (r: String)
    ensures
        r@ == difficulty_message_text(difficulty@, current),
{
    let mut s = String::new();
    s.append(if current {
        "当前 AI 难度"
    } else {
        "AI 难度已设为"
    });
    if difficulty.is_full_strength() {
        s.append(" 20（不限棋力）");
    } else {
        s.append(" ");
        push_decimal(&mut s, difficulty.level() as u64);
    }
    s
}

impl Default for Difficulty {
    fn default() -> (r: Self)
        ensures
            r@ == 20,
    {
        Difficulty(Self::MAX)
    }
}

/// The score by which candidate lines are compared: a mate in `n` counts
/// `30000 - n` (with `n` capped at 1000), being mated `-30000 + n`, otherwise
/// the score in centipawns.
pub open spec fn spec_analysis_score(info: InfoView) -> Option<i32> {
    match info.mate {
        Some(mate) => {
            let distance = if mate >= 0 {
                if mate <= 1000 {
                    mate as int
                } else {
                    1000
                }
            } else {
                if -mate <= 1000 {
                    -mate
                } else {
                    1000
                }
            };
            Some(
                (if mate >= 0 {
                    30000 - distance
                } else {
                    -30000 + distance
                }) as i32,
            )
        },
        None => info.score_cp,
    }
}

/// The score by which a candidate line is compared with the others.
pub fn analysis_score(info: &AnalysisInfo) -> (r: Option<i32>)
    ensures
        r == spec_analysis_score(info@),
{
    match info.mate {
        Some(mate) => {
            let magnitude: u32 = if mate >= 0 {
                mate as u32
            } else {
                (0 - (mate as i64)) as u32
            };
            let distance: i32 = if magnitude <= 1000 {
                magnitude as i32
            } else {
                1000
            };
            Some(
                if mate >= 0 {
                    30000 - distance
                } else {
                    -30000 + distance
                },
            )
        },
        None => info.score_cp,
    }
}

/// Division rounding towards zero, as Rust's `/` does on integers.
pub open spec fn div_trunc(a: int, b: int) -> int {
    if a >= 0 {
        a / b
    } else {
        -((-a) / b)
    }
}

/// The best candidate among the first `n` after weighting: each score is
/// pushed down by `weakness` times its distance from the top score plus a
/// random share of the spread, over 128; the last of equal best wins.
pub open spec fn skill_best(scores: Seq<i32>, rolls: Seq<u32>, weakness: int, n: int) -> (int, int)
    decreases n,
{
    if n <= 0 {
        (0, i64::MIN as int)
    } else {
        let (best_index, best_score) = skill_best(scores, rolls, weakness, n - 1);
        let top = scores[0] as int;
        let last = scores.last() as int;
        let delta = if top - last < 0 {
            0
        } else if top - last > 100 {
            100
        } else {
            top - last
        };
        let score = scores[n - 1] as int;
        let random = (rolls[n - 1] as int) % weakness;
        let adjusted = score + div_trunc(weakness * (top - score) + delta * random, 128);
        if adjusted >= best_score {
            (n - 1, adjusted)
        } else {
            (best_index, best_score)
        }
    }
}

/// The index of the candidate line a difficulty plays, given one random roll
/// per candidate: the first line at full strength or with fewer than two
/// candidates, otherwise the weighted best.
pub open spec fn spec_pick_skill_index(scores: Seq<i32>, level: u8, rolls: Seq<u32>) -> int {
    if scores.len() < 2 || level == 20 {
        0
    } else {
        skill_best(scores, rolls, 120 - 2 * level, scores.len() as int).0
    }
}

/// At full strength the engine's first line is kept, whatever the rolls.
pub proof fn lemma_full_strength_keeps_first(scores: Seq<i32>, rolls: Seq<u32>)
    ensures
        spec_pick_skill_index(scores, 20, rolls) == 0,
{
}

/// A lower level fixes its choice at a shallower depth and strays further
/// from the best line.
pub proof fn lemma_lower_level_is_weaker(a: u8, b: u8)
    requires
        1 <= a < b < 20,
    ensures
        a + 1 < b + 1,
        120 - 2 * a > 120 - 2 * b,
{
}

proof fn lemma_skill_best_range(scores: Seq<i32>, rolls: Seq<u32>, weakness: int, n: int)
    requires
        n <= scores.len(),
    ensures
        0 <= skill_best(scores, rolls, weakness, n).0 < if n > 0 {
            n
        } else {
            1
        },
    decreases n,
{
    if n > 0 {
        lemma_skill_best_range(scores, rolls, weakness, n - 1);
    }
}

/// Chooses which of the candidate lines (best first) to play, as the
/// engine's skill levels do: `rolls[i]` is the random number drawn for line
/// `i`, used modulo the weakness.
pub fn pick_skill_index(scores: &[i32], difficulty: Difficulty, rolls: &[u32]) -> (r: usize)
    requires
        scores@.len() >= 2 && difficulty@ != 20 ==> rolls@.len() >= scores@.len(),
    ensures
        r == spec_pick_skill_index(scores@, difficulty@, rolls@),
        r < scores@.len() || (r == 0 && scores@.len() == 0),
{
    if scores.len() < 2 || difficulty.is_full_strength() {
        return 0;
    }
    let level = difficulty.level();
    let top: i64 = scores[0] as i64;
    let last: i64 = scores[scores.len() - 1] as i64;
    let spread: i64 = top - last;
    let delta: i64 = if spread < 0 {
        0
    } else if spread > 100 {
        100
    } else {
        spread
    };
    let weakness: i64 = (120 - 2 * level) as i64;
    let mut best_index: usize = 0;
    let mut best_score: i64 = i64::MIN;
    let mut index: usize = 0;
    while index < scores.len()
        invariant
            2 <= scores@.len() <= rolls@.len(),
            index <= scores@.len(),
            top == scores@[0],
            last == scores@.last(),
            weakness == 120 - 2 * level,
            1 <= level < 20,
            0 <= delta <= 100,
            delta == (if top - last < 0 {
                0
            } else if top - last > 100 {
                100
            } else {
                top - last
            }),
            (best_index as int, best_score as int) == skill_best(
                scores@,
                rolls@,
                weakness as int,
                index as int,
            ),
        decreases scores@.len() - index,
    {
        let score: i64 = scores[index] as i64;
        let random: i64 = (rolls[index] as i64) % weakness;
        let diff: i64 = top - score;
        assert(weakness * diff <= 0x1_0000_0000 * 118) by (nonlinear_arith)
            requires
                0 < weakness <= 118,
                -0x1_0000_0000 <= diff <= 0x1_0000_0000,
        ;
        assert(-0x1_0000_0000 * 118 <= weakness * diff) by (nonlinear_arith)
            requires
                0 < weakness <= 118,
                -0x1_0000_0000 <= diff <= 0x1_0000_0000,
        ;
        assert(0 <= delta * random <= 100 * 118) by (nonlinear_arith)
            requires
                0 <= delta <= 100,
                0 <= random < 118,
        ;
        let numerator: i64 = weakness * diff + delta * random;
        let push: i64 = if numerator >= 0 {
            numerator / 128
        } else {
            0 - ((0 - numerator) / 128)
        };
        let adjusted: i64 = score + push;
        if adjusted >= best_score {
            best_score = adjusted;
            best_index = index;
        }
        index = index + 1;
    }
    proof {
        lemma_skill_best_range(scores@, rolls@, weakness as int, scores@.len() as int);
    }
    best_index
}

/// The SplitMix64 output for a state.
pub open spec fn splitmix(state: u64) -> u64 {
    let v1 = vstd::wrapping::u64_specs::wrapping_mul(state ^ (state >> 30u64), 0xBF58_476D_1CE4_E5B9);
    let v2 = vstd::wrapping::u64_specs::wrapping_mul(v1 ^ (v1 >> 27u64), 0x94D0_49BB_1331_11EB);
    v2 ^ (v2 >> 31u64)
}

/// The next SplitMix64 state.
pub open spec fn next_state(state: u64) -> u64 {
    vstd::wrapping::u64_specs::wrapping_add(state, 0x9E37_79B9_7F4A_7C15)
}

/// A pseudo-random number below `upper` (0 when `upper` is at most 1, which
/// leaves the state alone), from a SplitMix64 generator.
pub fn random_below(state: &mut u64, upper: u32) -> (r: u32)
    ensures
        upper <= 1 ==> r == 0 && *final(state) == *old(state),
        upper > 1 ==> *final(state) == next_state(*old(state)) && r == (splitmix(*final(state))
            as u32) % upper,
{
    if upper <= 1 {
        return 0;
    }
    *state = state.wrapping_add(0x9E37_79B9_7F4A_7C15);
    let mut value: u64 = *state;
    value = (value ^ (value >> 30u64)).wrapping_mul(0xBF58_476D_1CE4_E5B9);
    value = (value ^ (value >> 27u64)).wrapping_mul(0x94D0_49BB_1331_11EB);
    ((value ^ (value >> 31u64)) as u32) % upper
}

/// The rolls of `n` successive draws below `upper`.
pub open spec fn rolls_from(state: u64, upper: u32, n: nat) -> Seq<u32>
    decreases n,
{
    if n == 0 {
        Seq::empty()
    } else if upper <= 1 {
        Seq::new(n, |i: int| 0u32)
    } else {
        seq![(splitmix(next_state(state)) as u32) % upper] + rolls_from(next_state(state), upper, (n - 1) as nat)
    }
}

/// The state after `n` successive draws below `upper`.
pub open spec fn state_after(state: u64, upper: u32, n: nat) -> u64
    decreases n,
{
    if n == 0 || upper <= 1 {
        state
    } else {
        state_after(next_state(state), upper, (n - 1) as nat)
    }
}

/// Draws `n` random numbers below `upper`, one after another.
pub fn draw_rolls(state: &mut u64, upper: u32, n: usize) -> (r: Vec<u32>)
    ensures
        r@ == rolls_from(*old(state), upper, n as nat),
        r@.len() == n,
        *final(state) == state_after(*old(state), upper, n as nat),
{
    let ghost start = *state;
    let mut r: Vec<u32> = Vec::new();
    let mut i: usize = 0;
    while i < n
        invariant
            i <= n,
            r@.len() == i,
            rolls_from(start, upper, n as nat) == r@ + rolls_from(*state, upper, (n - i) as nat),
            state_after(start, upper, n as nat) == state_after(*state, upper, (n - i) as nat),
        decreases n - i,
    {
        let ghost before = *state;
        let x = random_below(state, upper);
        proof {
            if upper > 1 {
                assert(rolls_from(before, upper, (n - i) as nat) == seq![x] + rolls_from(
                    *state,
                    upper,
                    (n - i - 1) as nat,
                ));
            } else {
                assert(rolls_from(before, upper, (n - i) as nat) =~= seq![x] + rolls_from(
                    *state,
                    upper,
                    (n - i - 1) as nat,
                ));
            }
            assert(r@ + (seq![x] + rolls_from(*state, upper, (n - i - 1) as nat)) == r@.push(x)
                + rolls_from(*state, upper, (n - i - 1) as nat));
        }
        r.push(x);
        i = i + 1;
    }
    proof {
        assert(rolls_from(*state, upper, 0) == Seq::<u32>::empty());
        assert(r@ + Seq::<u32>::empty() == r@);
    }
    r
}

} // verus!
