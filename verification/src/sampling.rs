use vstd::prelude::*;

verus! {

/// Scores are fixed-point: an exec score of `s` stands for the real value
/// `s / SCORE_UNIT`. Penalty and nucleus-cutoff factors use the same scale:
/// a factor of `SCORE_UNIT` thousandths is 1.0, which disables the penalty.
pub const SCORE_UNIT: u64 = 1000;

/// Largest magnitude a score may have; keeps all penalty arithmetic in range.
pub const SCORE_LIMIT: i64 = 0x1_0000_0000;

/// Largest penalty factor accepted, in thousandths.
pub const PENALTY_LIMIT: u32 = 1_000_000;

/// A score after the repeat penalty `p` (in thousandths) is applied to it:
/// non-negative scores are divided by the factor, negative ones multiplied,
/// so a factor above 1.0 always pushes the score towards less likely.
pub open spec fn penalized(s: int, p: int) -> int {
    if s >= 0 {
        s * (SCORE_UNIT as int) / p
    } else {
        -((-s) * p / (SCORE_UNIT as int))
    }
}

/// The first context position inside a trailing window of length `n`.
pub open spec fn window_start(len: int, n: int) -> int {
    if len >= n {
        len - n
    } else {
        0
    }
}

/// Whether token `t` occurs in the last `n` entries of the context.
pub open spec fn in_window(tokens: Seq<u32>, n: int, t: u32) -> bool {
    exists|j: int| window_start(tokens.len() as int, n) <= j < tokens.len() && tokens[j] == t
}

/// What one entry of the score vector becomes under the repeat penalty:
/// adjusted if its token is in the trailing window, untouched otherwise.
pub open spec fn penalized_at(
    scores: Seq<i64>,
    tokens: Seq<u32>,
    p: int,
    n: int,
    i: int,
) -> int {
    if in_window(tokens, n, i as u32) {
        penalized(scores[i] as int, p)
    } else {
        scores[i] as int
    }
}

/// Applies the penalty `p` (thousandths) to one score.
pub fn apply_penalty_one(s: i64, p: u32) -> (r: i64)
    requires
        1 <= p <= PENALTY_LIMIT,
        -SCORE_LIMIT <= s <= SCORE_LIMIT,
    ensures
        r == penalized(s as int, p as int),
{
    if s >= 0 {
        ((s as u64) * SCORE_UNIT / (p as u64)) as i64
    } else {
        let m: u64 = (-s) as u64;
        proof {
            assert((m as int) * (p as int) <= 0x1_0000_0000 * 1_000_000) by (nonlinear_arith)
                requires
                    0 <= m as int <= 0x1_0000_0000,
                    0 <= p as int <= 1_000_000,
            ;
        }
        -((m * (p as u64) / SCORE_UNIT) as i64)
    }
}

/// Whether token `t` occurs in the last `n` entries of `tokens`.
pub fn token_in_window(tokens: &Vec<u32>, n: usize, t: u32) -> (r: bool)
    ensures
        r == in_window(tokens@, n as int, t),
{
    let len: usize = tokens.len();
    let start: usize = if len >= n {
        len - n
    } else {
        0
    };
    let mut j: usize = start;
    while j < len
        invariant
            start == window_start(tokens@.len() as int, n as int),
            start <= j <= len,
            len == tokens@.len(),
            forall|k: int| start <= k < j ==> tokens@[k] != t,
        decreases len - j,
    {
        if tokens[j] == t {
            return true;
        }
        j = j + 1;
    }
    false
}

/// The sampling stage's penalty pass: every token that appears in the last
/// `window` entries of the context has its score adjusted by `penalty`
/// (thousandths); every other score passes through unchanged.
pub fn apply_repeat_penalty(
    scores: &Vec<i64>,
    penalty: u32,
    tokens: &Vec<u32>,
    window: usize,
) -> (r: Vec<i64>)
    requires
        1 <= penalty <= PENALTY_LIMIT,
        scores@.len() <= 0x1_0000_0000,
        forall|i: int| 0 <= i < scores@.len() ==> -SCORE_LIMIT <= #[trigger] scores@[i] <= SCORE_LIMIT,
    ensures
        r@.len() == scores@.len(),
        forall|i: int|
            0 <= i < scores@.len() ==> #[trigger] r@[i] == penalized_at(
                scores@,
                tokens@,
                penalty as int,
                window as int,
                i,
            ),
{
    let len: usize = scores.len();
    let mut out: Vec<i64> = Vec::new();
    let mut i: usize = 0;
    while i < len
        invariant
            1 <= penalty <= PENALTY_LIMIT,
            len == scores@.len(),
            len <= 0x1_0000_0000,
            forall|k: int| 0 <= k < len ==> -SCORE_LIMIT <= #[trigger] scores@[k] <= SCORE_LIMIT,
            i <= len,
            out@.len() == i,
            forall|k: int|
                0 <= k < i ==> #[trigger] out@[k] == penalized_at(
                    scores@,
                    tokens@,
                    penalty as int,
                    window as int,
                    k,
                ),
        decreases len - i,
    {
        let s: i64 = scores[i];
        let v: i64 = if token_in_window(tokens, window, i as u32) {
            apply_penalty_one(s, penalty)
        } else {
            s
        };
        out.push(v);
        i = i + 1;
    }
    out
}

/// Whether position `i` holds the vector's maximum and every earlier
/// position holds strictly less: the greedy choice with ties broken towards
/// the lowest index.
pub open spec fn is_first_max(s: Seq<i64>, i: int) -> bool {
    &&& 0 <= i < s.len()
    &&& forall|j: int| 0 <= j < s.len() ==> s[j] <= s[i]
    &&& forall|j: int| 0 <= j < i ==> s[j] < s[i]
}

/// Greedy selection: the index of the maximum score, lowest index first.
/// `None` exactly on an empty vector.
pub fn argmax(scores: &Vec<i64>) -> (r: Option<usize>)
    ensures
        match r {
            Option::None => scores@.len() == 0,
            Option::Some(i) => is_first_max(scores@, i as int),
        },
{
    let len: usize = scores.len();
    if len == 0 {
        return None;
    }
    let mut best: usize = 0;
    let mut j: usize = 1;
    while j < len
        invariant
            len == scores@.len(),
            best < j <= len,
            forall|k: int| 0 <= k < j ==> scores@[k] <= scores@[best as int],
            forall|k: int| 0 <= k < best ==> scores@[k] < scores@[best as int],
        decreases len - j,
    {
        if scores[j] > scores[best] {
            best = j;
        }
        j = j + 1;
    }
    Some(best)
}

/// The identity at the boundary: a penalty factor of exactly 1.0 leaves
/// every score unchanged.
pub proof fn lemma_penalty_identity(s: int)
    ensures
        penalized(s, SCORE_UNIT as int) == s,
{
}

/// Repeat-penalty monotonicity: for a penalized token, raising the factor
/// never raises the adjusted score, and any factor of at least 1.0 keeps the
/// adjusted score at or below the unpenalized one.
pub proof fn lemma_penalty_monotone(s: int, p1: int, p2: int)
    requires
        -(SCORE_LIMIT as int) <= s <= SCORE_LIMIT as int,
        1 <= p1 <= p2,
    ensures
        penalized(s, p2) <= penalized(s, p1),
        p1 >= SCORE_UNIT as int ==> penalized(s, p1) <= s,
{
    if s >= 0 {
        vstd::arithmetic::div_mod::lemma_div_is_ordered_by_denominator(
            s * (SCORE_UNIT as int),
            p1,
            p2,
        );
        if p1 >= SCORE_UNIT as int {
            vstd::arithmetic::div_mod::lemma_div_is_ordered_by_denominator(
                s * (SCORE_UNIT as int),
                SCORE_UNIT as int,
                p1,
            );
        }
    } else {
        let m = -s;
        assert(m * p1 <= m * p2) by (nonlinear_arith)
            requires
                m >= 0,
                p1 <= p2,
        ;
        vstd::arithmetic::div_mod::lemma_div_is_ordered(m * p1, m * p2, SCORE_UNIT as int);
        if p1 >= SCORE_UNIT as int {
            assert(m * (SCORE_UNIT as int) <= m * p1) by (nonlinear_arith)
                requires
                    m >= 0,
                    SCORE_UNIT as int <= p1,
            ;
            vstd::arithmetic::div_mod::lemma_div_is_ordered(
                m * (SCORE_UNIT as int),
                m * p1,
                SCORE_UNIT as int,
            );
        }
    }
}

} // verus!
