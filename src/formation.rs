use vstd::prelude::*;

use crate::components::{WinSize, BASE_SPEED, EXTENT_LIMIT, FORMATION_MEMBERS_MAX, UNIT};
use crate::geometry::coord_ok;
use crate::random::{random_range, random_ratio};
use crate::trig::{angle_ok, atan2_micro, atan2_spec, normalize_spec};

verus! {

/// Horizontal and vertical distance beyond the viewport's half size where formations enter.
pub const ENTRY_MARGIN: i64 = 100_000;

/// Extra height of the band where pivots are drawn.
pub const PIVOT_MARGIN: i64 = 50_000;

pub const RADIUS_X_MIN: i64 = 80_000;
pub const RADIUS_X_MAX: i64 = 150_000;
pub const RADIUS_Y: i64 = 100_000;

/// One elliptical orbit: entry point, centre, radii (sub-units), speed (sub-units per second)
/// and current parameter angle (microradians).
#[derive(Clone, Copy, Debug)]
pub struct Formation {
    pub start: (i64, i64),
    pub radius: (i64, i64),
    pub pivot: (i64, i64),
    pub speed: i64,
    pub angle: i64,
}

impl Formation {
    /// Bounds under which orbit arithmetic stays within machine integers.
    pub open spec fn valid(self) -> bool {
        &&& coord_ok(self.start.0 as int) && coord_ok(self.start.1 as int)
        &&& -EXTENT_LIMIT <= self.pivot.0 <= EXTENT_LIMIT
        &&& -EXTENT_LIMIT <= self.pivot.1 <= EXTENT_LIMIT
        &&& UNIT <= self.radius.0 <= EXTENT_LIMIT && UNIT <= self.radius.1 <= EXTENT_LIMIT
        &&& 0 <= self.speed <= BASE_SPEED
        &&& angle_ok(self.angle as int)
    }
}

/// What a freshly drawn template satisfies for a viewport: it enters at the left or right
/// edge plus margin at a height within the viewport plus margin, pivots within the central
/// band, has a wider horizontal than vertical radius range, moves at the base speed, and
/// starts at the angle of its entry point seen from its pivot.
pub open spec fn drawn_for(f: Formation, win: WinSize) -> bool {
    let w_span = win.w / 2 + ENTRY_MARGIN;
    let h_span = win.h / 2 + ENTRY_MARGIN;
    &&& f.start.0 == w_span || f.start.0 == -w_span
    &&& -h_span <= f.start.1 < h_span
    &&& -(win.w / 4) <= f.pivot.0 < win.w / 4
    &&& 0 <= f.pivot.1 < win.h / 3 + PIVOT_MARGIN
    &&& RADIUS_X_MIN <= f.radius.0 < RADIUS_X_MAX
    &&& f.radius.1 == RADIUS_Y
    &&& f.speed == BASE_SPEED
    &&& f.angle == normalize_spec(
        atan2_spec(f.start.1 - f.pivot.1, f.start.0 - f.pivot.0),
    )
}

/// Hands out formation templates, each to at most `FORMATION_MEMBERS_MAX` enemies.
pub struct FormationMaker {
    current_template: Option<Formation>,
    current_members: u32,
}

/// The relation between a maker before and after one call of `make` that returned `r`.
pub open spec fn make_step(old: FormationMaker, new: FormationMaker, win: WinSize, r: Formation) -> bool {
    match old.template() {
        Some(t) if old.members() < FORMATION_MEMBERS_MAX => {
            &&& r == t
            &&& new.template() == Some(t)
            &&& new.members() == old.members() + 1
        },
        _ => {
            &&& drawn_for(r, win)
            &&& new.template() == Some(r)
            &&& new.members() == 1
        },
    }
}

impl FormationMaker {
    /// The template being handed out, if any.
    pub closed spec fn template(self) -> Option<Formation> {
        self.current_template
    }

    /// How many enemies the current template has been handed to.
    pub closed spec fn members(self) -> u32 {
        self.current_members
    }

    pub open spec fn wf(self) -> bool {
        &&& self.members() <= FORMATION_MEMBERS_MAX
        &&& self.template() matches Some(t) ==> t.valid()
    }

    pub fn new() -> (r: FormationMaker)
        ensures
            r.template() is None,
            r.members() == 0,
            r.wf(),
    {
        FormationMaker { current_template: None, current_members: 0 }
    }

    /// The current template while fewer than `FORMATION_MEMBERS_MAX` enemies share it,
    /// else a freshly drawn one.
    pub fn make(&mut self, win_size: &WinSize) -> (r: Formation)
        requires
            old(self).wf(),
            win_size.valid(),
        ensures
            make_step(*old(self), *final(self), *win_size, r),
            final(self).wf(),
            r.valid(),
    {
        match self.current_template {
            Some(tmpl) if self.current_members < FORMATION_MEMBERS_MAX => {
                self.current_members = self.current_members + 1;
                tmpl
            },
            _ => {
                let w_span = win_size.w / 2 + ENTRY_MARGIN;
                let h_span = win_size.h / 2 + ENTRY_MARGIN;
                let x = if random_ratio(1, 2) {
                    w_span
                } else {
                    -w_span
                };
                let y = random_range(-h_span, h_span);
                let start = (x, y);
                let w_quarter = win_size.w / 4;
                let h_band = win_size.h / 3 + PIVOT_MARGIN;
                let pivot = (random_range(-w_quarter, w_quarter), random_range(0, h_band));
                let radius = (random_range(RADIUS_X_MIN, RADIUS_X_MAX), RADIUS_Y);
                let angle = atan2_micro(y - pivot.1, x - pivot.0);
                let formation = Formation { start, radius, pivot, speed: BASE_SPEED, angle };
                self.current_template = Some(formation);
                self.current_members = 1;
                formation
            },
        }
    }
}

impl Default for FormationMaker {
    fn default() -> (r: FormationMaker)
        ensures
            r.template() is None,
            r.members() == 0,
            r.wf(),
    {
        FormationMaker::new()
    }
}

/// Every enemy of one batch gets the same orbit: when a call of `make` starts a batch
/// (hands out a template for the first time), the calls that follow it, up to the batch
/// limit, return that very formation, so pivot, radii and initial angle agree.
pub proof fn lemma_batch_shares_formation(
    makers: Seq<FormationMaker>,
    results: Seq<Formation>,
    win: WinSize,
)
    requires
        results.len() == FORMATION_MEMBERS_MAX,
        makers.len() == results.len() + 1,
        forall|i: int|
            0 <= i < results.len() ==> make_step(
                #[trigger] makers[i],
                makers[i + 1],
                win,
                results[i],
            ),
        makers[1].members() == 1,
    ensures
        forall|i: int|
            0 <= i < results.len() ==> {
                &&& #[trigger] results[i] == results[0]
                &&& results[i].pivot == results[0].pivot
                &&& results[i].radius == results[0].radius
                &&& results[i].angle == results[0].angle
            },
{
    assert(make_step(makers[0], makers[1], win, results[0]));
    assert(makers[1].template() == Some(results[0])) by {
        match makers[0].template() {
            Some(t) => {},
            None => {},
        }
    }
    assert forall|i: int| 0 <= i < results.len() implies #[trigger] results[i] == results[0] by {
        lemma_batch_prefix(makers, results, win, i);
    }
}

proof fn lemma_batch_prefix(
    makers: Seq<FormationMaker>,
    results: Seq<Formation>,
    win: WinSize,
    i: int,
)
    requires
        results.len() == FORMATION_MEMBERS_MAX,
        makers.len() == results.len() + 1,
        forall|k: int|
            0 <= k < results.len() ==> make_step(
                #[trigger] makers[k],
                makers[k + 1],
                win,
                results[k],
            ),
        makers[1].members() == 1,
        makers[1].template() == Some(results[0]),
        0 <= i < results.len(),
    ensures
        results[i] == results[0],
        makers[i + 1].template() == Some(results[0]),
        makers[i + 1].members() == i + 1,
    decreases i,
{
    if i > 0 {
        lemma_batch_prefix(makers, results, win, i - 1);
        assert(make_step(makers[i], makers[i + 1], win, results[i]));
    }
}

} // verus!
