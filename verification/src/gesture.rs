//! Accumulating raw motion while the gesture button is held, and
//! classifying what a completed hold amounted to.

use vstd::prelude::*;

use crate::config::Config;

verus! {

/// What a completed hold of the gesture button amounted to.
#[derive(Debug, Clone, Copy, PartialEq, Eq, Structural)]
pub enum Gesture {
    Tap,
    Left,
    Right,
    Up,
    Down,
}

pub open spec fn abs_int(x: int) -> int {
    if x < 0 {
        -x
    } else {
        x
    }
}

/// The inputs on which `classify` works without overflowing an `i32`.
pub open spec fn classify_defined(dx: int, dy: int) -> bool {
    &&& i32::MIN < dx
    &&& i32::MIN < dy
    &&& abs_int(dx) + abs_int(dy) <= i32::MAX
}

/// The horizontal axis beats the vertical one by the configured ratio:
/// `|dx| > ratio * |dy|`, with the ratio kept as an exact fraction.
pub open spec fn horizontal_dominates(dx: int, dy: int, cfg: Config) -> bool {
    abs_int(dx) * cfg.axis_ratio_den > abs_int(dy) * cfg.axis_ratio_num
}

/// The gesture that a total displacement `(dx, dy)` amounts to
/// (`+dx` is right, `+dy` is down).
pub open spec fn gesture_of(dx: int, dy: int, cfg: Config) -> Gesture {
    if abs_int(dx) + abs_int(dy) < cfg.tap_max_distance {
        Gesture::Tap
    } else if horizontal_dominates(dx, dy, cfg) {
        if dx < 0 {
            Gesture::Left
        } else {
            Gesture::Right
        }
    } else if dy < 0 {
        Gesture::Up
    } else {
        Gesture::Down
    }
}

/// Whether `classify(dx, dy, _)` is defined (does not overflow).
pub fn can_classify(dx: i32, dy: i32) -> (b: bool)
    ensures
        b == classify_defined(dx as int, dy as int),
{
    if dx == i32::MIN || dy == i32::MIN {
        return false;
    }
    let ax: i64 = if dx < 0 { -(dx as i64) } else { dx as i64 };
    let ay: i64 = if dy < 0 { -(dy as i64) } else { dy as i64 };
    ax + ay <= i32::MAX as i64
}

/// Decide what a completed hold+move was.
///
/// dx: total horizontal raw counts (positive = right)
/// dy: total vertical raw counts (positive = down, HID convention)
pub fn classify(dx: i32, dy: i32, cfg: &Config) -> (g: Gesture)
    requires
        classify_defined(dx as int, dy as int),
    ensures
        g == gesture_of(dx as int, dy as int, *cfg),
{
    let ax: i32 = if dx < 0 { -dx } else { dx };
    let ay: i32 = if dy < 0 { -dy } else { dy };
    if ax + ay < cfg.tap_max_distance {
        return Gesture::Tap;
    }
    let den: u32 = cfg.axis_ratio_den;
    let num: u32 = cfg.axis_ratio_num;
    let ax64: u64 = ax as u64;
    let ay64: u64 = ay as u64;
    assert(ax64 * den <= 0xffff_ffff_ffff_ffff && ay64 * num <= 0xffff_ffff_ffff_ffff)
        by (nonlinear_arith)
        requires
            ax64 <= 0x7fff_ffff,
            ay64 <= 0x7fff_ffff,
            den <= 0xffff_ffff,
            num <= 0xffff_ffff,
    ;
    let lhs: u64 = ax64 * (den as u64);
    let rhs: u64 = ay64 * (num as u64);
    if lhs > rhs {
        if dx < 0 {
            Gesture::Left
        } else {
            Gesture::Right
        }
    } else if dy < 0 {
        Gesture::Up
    } else {
        Gesture::Down
    }
}


/// Accumulates raw XY deltas while the gesture button is held.
///
/// Its view is whether the button is held, and the displacement
/// accumulated since the last press.
pub struct Tracker {
    pub held: bool,
    dx: i32,
    dy: i32,
}

impl View for Tracker {
    type V = (bool, int, int);

    closed spec fn view(&self) -> (bool, int, int) {
        (self.held, self.dx as int, self.dy as int)
    }
}

/// The displacement after one motion report `(dx, dy)`: it is added only
/// while the button is held.
pub open spec fn moved(s: (int, int), held: bool, dx: int, dy: int) -> (int, int) {
    if held {
        (s.0 + dx, s.1 + dy)
    } else {
        s
    }
}

/// The inputs on which `motion` works without overflowing an `i32`.
pub open spec fn motion_fits(s: (int, int), held: bool, dx: int, dy: int) -> bool {
    let t = moved(s, held, dx, dy);
    &&& i32::MIN <= t.0 <= i32::MAX
    &&& i32::MIN <= t.1 <= i32::MAX
}

impl Default for Tracker {
    fn default() -> (t: Self)
        ensures
            t@ == (false, 0int, 0int),
    {
        Tracker { held: false, dx: 0, dy: 0 }
    }
}

impl Tracker {
    /// The accumulated displacement is always a pair of `i32`.
    pub proof fn lemma_view_bounds(&self)
        ensures
            i32::MIN <= self@.1 <= i32::MAX,
            i32::MIN <= self@.2 <= i32::MAX,
    {
    }

    /// Whether the gesture button is held.
    pub fn is_held(&self) -> (b: bool)
        ensures
            b == self@.0,
    {
        self.held
    }

    pub fn press(&mut self)
        ensures
            final(self)@ == (true, 0int, 0int),
    {
        self.held = true;
        self.dx = 0;
        self.dy = 0;
    }

    /// Whether `motion(dx, dy)` is defined (does not overflow).
    pub fn can_move(&self, dx: i16, dy: i16) -> (b: bool)
        ensures
            b == motion_fits((self@.1, self@.2), self@.0, dx as int, dy as int),
    {
        if !self.held {
            return true;
        }
        let x: i64 = self.dx as i64 + dx as i64;
        let y: i64 = self.dy as i64 + dy as i64;
        i32::MIN as i64 <= x && x <= i32::MAX as i64 && i32::MIN as i64 <= y && y
            <= i32::MAX as i64
    }

    pub fn motion(&mut self, dx: i16, dy: i16)
        requires
            motion_fits((old(self)@.1, old(self)@.2), old(self)@.0, dx as int, dy as int),
        ensures
            final(self)@.0 == old(self)@.0,
            (final(self)@.1, final(self)@.2) == moved(
                (old(self)@.1, old(self)@.2),
                old(self)@.0,
                dx as int,
                dy as int,
            ),
    {
        if self.held {
            self.dx += dx as i32;
            self.dy += dy as i32;
        }
    }

    /// Whether `release` is defined (its classification does not overflow).
    pub fn can_release(&self) -> (b: bool)
        ensures
            b == classify_defined(self@.1, self@.2),
    {
        can_classify(self.dx, self.dy)
    }

    /// Button released — classify what the hold amounted to.
    pub fn release(&mut self, cfg: &Config) -> (g: Gesture)
        requires
            classify_defined(old(self)@.1, old(self)@.2),
        ensures
            final(self)@ == (false, old(self)@.1, old(self)@.2),
            g == gesture_of(old(self)@.1, old(self)@.2, *cfg),
    {
        self.held = false;
        classify(self.dx, self.dy, cfg)
    }
}

/// The displacement after a series of motion reports, starting from `s`.
pub open spec fn moved_by_all(s: (int, int), held: bool, moves: Seq<(i16, i16)>) -> (int, int)
    decreases moves.len(),
{
    if moves.len() == 0 {
        s
    } else {
        moved_by_all(
            moved(s, held, moves[0].0 as int, moves[0].1 as int),
            held,
            moves.drop_first(),
        )
    }
}

pub open spec fn sum_dx(moves: Seq<(i16, i16)>) -> int
    decreases moves.len(),
{
    if moves.len() == 0 {
        0
    } else {
        moves[0].0 as int + sum_dx(moves.drop_first())
    }
}

pub open spec fn sum_dy(moves: Seq<(i16, i16)>) -> int
    decreases moves.len(),
{
    if moves.len() == 0 {
        0
    } else {
        moves[0].1 as int + sum_dy(moves.drop_first())
    }
}

/// While the button is held, the accumulated displacement is the start
/// plus the sum of all motion reports since.
pub proof fn lemma_held_motion_sums(s: (int, int), moves: Seq<(i16, i16)>)
    ensures
        moved_by_all(s, true, moves) == (s.0 + sum_dx(moves), s.1 + sum_dy(moves)),
    decreases moves.len(),
{
    if moves.len() > 0 {
        lemma_held_motion_sums(
            moved(s, true, moves[0].0 as int, moves[0].1 as int),
            moves.drop_first(),
        );
    }
}

/// A hold is classified by the total of its motion: after a press, any
/// series of motion reports and a release, the gesture is that of the sum
/// of the reports.
pub proof fn lemma_hold_classifies_total(moves: Seq<(i16, i16)>, cfg: Config)
    ensures
        ({
            let s = moved_by_all((0int, 0int), true, moves);
            gesture_of(s.0, s.1, cfg) == gesture_of(sum_dx(moves), sum_dy(moves), cfg)
        }),
{
    lemma_held_motion_sums((0int, 0int), moves);
}

/// Motion reports that arrive while the button is not held change nothing.
pub proof fn lemma_motion_ignored_when_released(s: (int, int), moves: Seq<(i16, i16)>)
    ensures
        moved_by_all(s, false, moves) == s,
    decreases moves.len(),
{
    if moves.len() > 0 {
        lemma_motion_ignored_when_released(s, moves.drop_first());
    }
}

/// A press is a tap exactly when its total displacement `|dx| + |dy|` is
/// below `tap_max_distance`; a drag at or beyond that distance is never
/// swallowed as a tap.
pub proof fn lemma_tap_iff_short(dx: int, dy: int, cfg: Config)
    ensures
        (gesture_of(dx, dy, cfg) == Gesture::Tap) <==> abs_int(dx) + abs_int(dy)
            < cfg.tap_max_distance,
{
}

/// Beyond the tap distance, a drag whose horizontal extent beats the
/// vertical one by the configured ratio is a horizontal swipe, and any
/// other drag is a vertical one.
pub proof fn lemma_dominant_axis(dx: int, dy: int, cfg: Config)
    requires
        abs_int(dx) + abs_int(dy) >= cfg.tap_max_distance,
    ensures
        horizontal_dominates(dx, dy, cfg) ==> (gesture_of(dx, dy, cfg) == Gesture::Left
            || gesture_of(dx, dy, cfg) == Gesture::Right),
        !horizontal_dominates(dx, dy, cfg) ==> (gesture_of(dx, dy, cfg) == Gesture::Up
            || gesture_of(dx, dy, cfg) == Gesture::Down),
{
}

/// The gesture seen in a mirror that swaps left and right.
pub open spec fn mirrored_horizontally(g: Gesture) -> Gesture {
    match g {
        Gesture::Left => Gesture::Right,
        Gesture::Right => Gesture::Left,
        _ => g,
    }
}

/// The gesture seen in a mirror that swaps up and down.
pub open spec fn mirrored_vertically(g: Gesture) -> Gesture {
    match g {
        Gesture::Up => Gesture::Down,
        Gesture::Down => Gesture::Up,
        _ => g,
    }
}

/// Negating the horizontal displacement swaps left and right swipes and
/// leaves every other gesture unchanged.
pub proof fn lemma_horizontal_symmetry(dx: int, dy: int, cfg: Config)
    ensures
        gesture_of(-dx, dy, cfg) == mirrored_horizontally(gesture_of(dx, dy, cfg)),
{
    assert(abs_int(-dx) == abs_int(dx));
    if dx == 0 {
        assert(!horizontal_dominates(dx, dy, cfg)) by (nonlinear_arith)
            requires
                dx == 0,
                abs_int(dy) >= 0,
                cfg.axis_ratio_num >= 0,
        ;
    }
}

/// Negating a non-zero vertical displacement swaps up and down swipes and
/// leaves every other gesture unchanged (`+dy` is down).
pub proof fn lemma_vertical_symmetry(dx: int, dy: int, cfg: Config)
    requires
        dy != 0,
    ensures
        gesture_of(dx, -dy, cfg) == mirrored_vertically(gesture_of(dx, dy, cfg)),
{
    assert(abs_int(-dy) == abs_int(dy));
}

/// Calls of `press`, `motion` and `release` chain: after a press, when
/// each motion call leaves the state that `motion` ensures, the release
/// returns the gesture of the sum of all the motion reports since the press.
pub proof fn lemma_tracker_calls_sum(
    states: Seq<(bool, int, int)>,
    moves: Seq<(i16, i16)>,
    cfg: Config,
)
    requires
        states.len() == moves.len() + 1,
        states[0] == (true, 0int, 0int),
        forall|i: int|
            0 <= i < moves.len() ==> #[trigger] states[i + 1] == ({
                let m = moved(
                    (states[i].1, states[i].2),
                    states[i].0,
                    moves[i].0 as int,
                    moves[i].1 as int,
                );
                (states[i].0, m.0, m.1)
            }),
    ensures
        states.last() == (true, sum_dx(moves), sum_dy(moves)),
        gesture_of(states.last().1, states.last().2, cfg) == gesture_of(
            sum_dx(moves),
            sum_dy(moves),
            cfg,
        ),
{
    lemma_states_follow_moves(states, moves, states.len() - 1);
    assert(moves.take(moves.len() as int) == moves);
    assert(states.last() == states[states.len() - 1]);
}

proof fn lemma_states_follow_moves(states: Seq<(bool, int, int)>, moves: Seq<(i16, i16)>, k: int)
    requires
        states.len() == moves.len() + 1,
        0 <= k < states.len(),
        states[0] == (true, 0int, 0int),
        forall|i: int|
            0 <= i < moves.len() ==> #[trigger] states[i + 1] == ({
                let m = moved(
                    (states[i].1, states[i].2),
                    states[i].0,
                    moves[i].0 as int,
                    moves[i].1 as int,
                );
                (states[i].0, m.0, m.1)
            }),
    ensures
        states[k] == (true, sum_dx(moves.take(k)), sum_dy(moves.take(k))),
    decreases k,
{
    if k > 0 {
        lemma_states_follow_moves(states, moves, k - 1);
        assert(states[(k - 1) + 1] == states[k]);
        lemma_sum_take_step(moves, k);
    } else {
        assert(moves.take(0) == Seq::<(i16, i16)>::empty());
    }
}

proof fn lemma_sum_take_step(moves: Seq<(i16, i16)>, k: int)
    requires
        0 < k <= moves.len(),
    ensures
        sum_dx(moves.take(k)) == sum_dx(moves.take(k - 1)) + moves[k - 1].0,
        sum_dy(moves.take(k)) == sum_dy(moves.take(k - 1)) + moves[k - 1].1,
{
    lemma_sum_concat(moves.take(k - 1), seq![moves[k - 1]]);
    assert(moves.take(k - 1) + seq![moves[k - 1]] == moves.take(k));
    let one = seq![moves[k - 1]];
    assert(one[0] == moves[k - 1]);
    assert(one.drop_first() == Seq::<(i16, i16)>::empty());
    assert(sum_dx(Seq::<(i16, i16)>::empty()) == 0);
    assert(sum_dy(Seq::<(i16, i16)>::empty()) == 0);
    assert(sum_dx(one) == moves[k - 1].0);
    assert(sum_dy(one) == moves[k - 1].1);
}

/// The sums over joined series of motion reports are the sums of the parts.
pub proof fn lemma_sum_concat(a: Seq<(i16, i16)>, b: Seq<(i16, i16)>)
    ensures
        sum_dx(a + b) == sum_dx(a) + sum_dx(b),
        sum_dy(a + b) == sum_dy(a) + sum_dy(b),
    decreases a.len(),
{
    if a.len() > 0 {
        lemma_sum_concat(a.drop_first(), b);
        assert((a + b)[0] == a[0]);
        assert((a + b).drop_first() == a.drop_first() + b);
    } else {
        assert(a + b == b);
    }
}

/// The order of motion reports within a hold does not matter: swapping any
/// two adjacent runs of reports (which can reorder them arbitrarily) leaves
/// the gesture unchanged.
pub proof fn lemma_motion_order_irrelevant(
    a: Seq<(i16, i16)>,
    b: Seq<(i16, i16)>,
    c: Seq<(i16, i16)>,
    d: Seq<(i16, i16)>,
    cfg: Config,
)
    ensures
        gesture_of(sum_dx(a + b + c + d), sum_dy(a + b + c + d), cfg) == gesture_of(
            sum_dx(a + c + b + d),
            sum_dy(a + c + b + d),
            cfg,
        ),
{
    lemma_sum_concat(a, b);
    lemma_sum_concat(a + b, c);
    lemma_sum_concat(a + b + c, d);
    lemma_sum_concat(a, c);
    lemma_sum_concat(a + c, b);
    lemma_sum_concat(a + c + b, d);
}


/// Beyond the tap distance, a drag whose horizontal extent beats the
/// vertical one by the ratio (`|dx| * den > |dy| * num`) is a swipe in the
/// direction of the drag: right for `dx > 0`, left for `dx < 0`.
pub proof fn lemma_horizontal_follows_drag(dx: int, dy: int, cfg: Config)
    requires
        (if dx < 0 { -dx } else { dx }) + (if dy < 0 { -dy } else { dy }) >= cfg.tap_max_distance,
        (if dx < 0 { -dx } else { dx }) * cfg.axis_ratio_den > (if dy < 0 { -dy } else { dy })
            * cfg.axis_ratio_num,
    ensures
        dx > 0 ==> gesture_of(dx, dy, cfg) == Gesture::Right,
        dx < 0 ==> gesture_of(dx, dy, cfg) == Gesture::Left,
{
}

/// Otherwise, beyond the tap distance, the swipe is vertical in the
/// direction of the drag: up for `dy < 0`, down for `dy > 0` (`+dy` is down).
pub proof fn lemma_vertical_follows_drag(dx: int, dy: int, cfg: Config)
    requires
        (if dx < 0 { -dx } else { dx }) + (if dy < 0 { -dy } else { dy }) >= cfg.tap_max_distance,
        (if dx < 0 { -dx } else { dx }) * cfg.axis_ratio_den <= (if dy < 0 { -dy } else { dy })
            * cfg.axis_ratio_num,
    ensures
        dy < 0 ==> gesture_of(dx, dy, cfg) == Gesture::Up,
        dy > 0 ==> gesture_of(dx, dy, cfg) == Gesture::Down,
{
}

/// Classification reads only the tap distance and the axis ratio: two
/// configurations that agree on those classify every drag alike, whatever
/// their `invert_horizontal` and action settings.
pub proof fn lemma_classify_reads_only_thresholds(dx: int, dy: int, a: Config, b: Config)
    requires
        a.tap_max_distance == b.tap_max_distance,
        a.axis_ratio_num == b.axis_ratio_num,
        a.axis_ratio_den == b.axis_ratio_den,
    ensures
        gesture_of(dx, dy, a) == gesture_of(dx, dy, b),
{
}

} // verus!
