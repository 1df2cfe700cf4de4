//! The scoreboard: two running totals and their display text.
use vstd::prelude::*;

verus! {

#[derive(Clone, Copy, Debug, PartialEq, Eq, Structural)]
pub struct Scoreboard {
    /// Goals scored in the right-hand goal.
    pub left: u64,
    /// Goals scored in the left-hand goal.
    pub right: u64,
}

/// The decimal digit `d`, for `d < 10`.
pub open spec fn digit(d: nat) -> char {
    if d == 0 {
        '0'
    } else if d == 1 {
        '1'
    } else if d == 2 {
        '2'
    } else if d == 3 {
        '3'
    } else if d == 4 {
        '4'
    } else if d == 5 {
        '5'
    } else if d == 6 {
        '6'
    } else if d == 7 {
        '7'
    } else if d == 8 {
        '8'
    } else {
        '9'
    }
}

/// `n` written in decimal, without leading zeros.
pub open spec fn decimal(n: nat) -> Seq<char>
    decreases n,
{
    if n < 10 {
        seq![digit(n)]
    } else {
        decimal(n / 10).push(digit(n % 10))
    }
}

/// What the scoreboard shows: both totals, separated by one space.
pub open spec fn score_text(left: nat, right: nat) -> Seq<char> {
    decimal(left) + seq![' '] + decimal(right)
}

/// The totals after a goal scored with the ball's center at `x`: a ball on
/// the right half scores for the left player, one on the left half for the
/// right player, and one exactly on the middle line for nobody.
pub open spec fn after_goal(s: Scoreboard, x: int) -> Scoreboard {
    if x > 0 {
        Scoreboard { left: (s.left + 1) as u64, right: s.right }
    } else if x < 0 {
        Scoreboard { left: s.left, right: (s.right + 1) as u64 }
    } else {
        s
    }
}

/// Relies on std's `Display` for `u64`, which writes a number in decimal
/// without leading zeros, through `format!`.
#[verifier::external_body]
fn format_scores(left: u64, right: u64) -> (r: String)
    ensures
        r@ == score_text(left as nat, right as nat),
{
    format!("{} {}", left, right)
}

impl Scoreboard {
    pub fn new() -> (r: Scoreboard)
        ensures
            r.left == 0,
            r.right == 0,
    {
        Scoreboard { left: 0, right: 0 }
    }

    /// Counts a goal scored with the ball's center at `x`.
    pub fn award_goal(&mut self, x: i64)
        requires
            old(self).left < u64::MAX,
            old(self).right < u64::MAX,
        ensures
            *final(self) == after_goal(*old(self), x as int),
    {
        if x > 0 {
            self.left = self.left + 1;
        }
        if x < 0 {
            self.right = self.right + 1;
        }
    }

    /// The scoreboard's display text, such as `"3 1"`.
    pub fn text(&self) -> (r: String)
        ensures
            r@ == score_text(self.left as nat, self.right as nat),
    {
        format_scores(self.left, self.right)
    }
}

/// The totals after goals scored with the ball's center at each of `xs`, in
/// order.
pub open spec fn after_goals(s: Scoreboard, xs: Seq<i64>) -> Scoreboard
    decreases xs.len(),
{
    if xs.len() == 0 {
        s
    } else {
        after_goal(after_goals(s, xs.drop_last()), xs.last() as int)
    }
}

/// How many of `xs` satisfy `p`.
pub open spec fn count(xs: Seq<i64>, p: spec_fn(i64) -> bool) -> nat
    decreases xs.len(),
{
    if xs.len() == 0 {
        0
    } else {
        count(xs.drop_last(), p) + if p(xs.last()) {
            1nat
        } else {
            0nat
        }
    }
}

/// Scores only grow, and add up: each goal adds one to exactly one total,
/// except a goal with the ball on the middle line, which adds nothing; so
/// after a run of goals each total has grown by the number of goals on its
/// side.
pub proof fn lemma_goals_add_up(s: Scoreboard, xs: Seq<i64>)
    requires
        s.left + xs.len() <= u64::MAX,
        s.right + xs.len() <= u64::MAX,
    ensures
        after_goals(s, xs).left == s.left + count(xs, |x: i64| x > 0),
        after_goals(s, xs).right == s.right + count(xs, |x: i64| x < 0),
        count(xs, |x: i64| x > 0) + count(xs, |x: i64| x < 0) + count(xs, |x: i64| x == 0) == xs.len(),
    decreases xs.len(),
{
    if xs.len() > 0 {
        lemma_goals_add_up(s, xs.drop_last());
    }
}

} // verus!
