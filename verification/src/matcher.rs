//! Selection of the mode that a request asks for.

use crate::error::{DisplayError, DisplayErrorView};
use crate::hertz::{close, Hertz};
use crate::model::{DisplayConfig, DisplayConfigView, DisplayMode};
use vstd::prelude::*;

verus! {

/// What a mode must meet to be selected. A criterion that is `None` admits every mode.
#[derive(Clone, Copy, Debug, PartialEq, Eq)]
pub struct ModeCriteria {
    pub resolution: Option<(u32, u32)>,
    pub hz: Option<Hertz>,
    pub color_depth: Option<u32>,
    pub scaling: Option<bool>,
}

/// What to do about a display's mode.
#[derive(Clone, Copy, Debug, PartialEq, Eq)]
pub enum ModeChoice {
    /// Leave the mode as it is: nothing was asked, or the mode asked for is the current one.
    Unchanged,
    /// Switch to this mode.
    Switch(DisplayMode),
}

impl ModeCriteria {
    /// Whether `mode` meets every criterion that is present: resolution,
    /// colour depth and scaling by equality, the refresh rate within the tolerance.
    pub open spec fn admits(self, mode: DisplayMode) -> bool {
        &&& (self.resolution matches Some(size) ==> mode.width == size.0 && mode.height == size.1)
        &&& (self.hz matches Some(rate) ==> close(mode.refresh_rate, rate))
        &&& (self.color_depth matches Some(depth) ==> mode.depth == depth)
        &&& (self.scaling matches Some(scaled) ==> mode.is_scaled == scaled)
    }

    /// Whether a search is asked for at all: scaling alone asks for none.
    pub open spec fn selects(self) -> bool {
        self.resolution is Some || self.hz is Some || self.color_depth is Some
    }

    /// Whether `mode` meets every criterion that is present.
    pub fn is_met_by(&self, mode: &DisplayMode) -> (yes: bool)
        ensures
            yes == self.admits(*mode),
    {
        let size_ok = match self.resolution {
            Some(size) => mode.width == size.0 && mode.height == size.1,
            None => true,
        };
        let rate_ok = match self.hz {
            Some(rate) => mode.refresh_rate.is_close_to(&rate),
            None => true,
        };
        let depth_ok = match self.color_depth {
            Some(depth) => mode.depth == depth,
            None => true,
        };
        let scaling_ok = match self.scaling {
            Some(scaled) => mode.is_scaled == scaled,
            None => true,
        };
        size_ok && rate_ok && depth_ok && scaling_ok
    }

    /// Whether a search is asked for at all.
    pub fn is_selective(&self) -> (yes: bool)
        ensures
            yes == self.selects(),
    {
        self.resolution.is_some() || self.hz.is_some() || self.color_depth.is_some()
    }
}

impl DisplayConfigView {
    /// The mode criteria of the request.
    pub open spec fn criteria(self) -> ModeCriteria {
        ModeCriteria {
            resolution: self.resolution,
            hz: self.hz,
            color_depth: self.color_depth,
            scaling: self.scaling,
        }
    }
}

impl DisplayConfig {
    /// The mode criteria of the request.
    pub fn criteria(&self) -> (criteria: ModeCriteria)
        ensures
            criteria == self@.criteria(),
    {
        ModeCriteria {
            resolution: self.resolution,
            hz: self.hz,
            color_depth: self.color_depth,
            scaling: self.scaling,
        }
    }
}

/// The first entry of `catalog` that `criteria` admits.
pub open spec fn first_admitted(catalog: Seq<DisplayMode>, criteria: ModeCriteria) -> Option<
    DisplayMode,
>
    decreases catalog.len(),
{
    if catalog.len() == 0 {
        None
    } else if criteria.admits(catalog[0]) {
        Some(catalog[0])
    } else {
        first_admitted(catalog.drop_first(), criteria)
    }
}

/// What a request with `criteria` does to a display whose current mode has
/// the number `current_number`: nothing where no search is asked for, a
/// failure where no entry is admitted, and otherwise a switch to the first
/// admitted entry unless that is the current mode.
pub open spec fn choice(
    catalog: Seq<DisplayMode>,
    criteria: ModeCriteria,
    current_number: u32,
    display_id: u32,
) -> Result<ModeChoice, DisplayErrorView> {
    if !criteria.selects() {
        Ok(ModeChoice::Unchanged)
    } else {
        match first_admitted(catalog, criteria) {
            None => Err(DisplayErrorView::NoMatchingMode { display_id }),
            Some(mode) => if mode.mode_number == current_number {
                Ok(ModeChoice::Unchanged)
            } else {
                Ok(ModeChoice::Switch(mode))
            },
        }
    }
}

/// `first_admitted` is the entry at the least index that `criteria` admits,
/// and `None` exactly where no entry is admitted.
pub proof fn lemma_first_admitted(catalog: Seq<DisplayMode>, criteria: ModeCriteria)
    ensures
        match first_admitted(catalog, criteria) {
            Some(mode) => exists|i: int|
                {
                    &&& 0 <= i < catalog.len()
                    &&& #[trigger] catalog[i] == mode
                    &&& criteria.admits(mode)
                    &&& forall|j: int| 0 <= j < i ==> !criteria.admits(#[trigger] catalog[j])
                },
            None => forall|j: int| 0 <= j < catalog.len() ==> !criteria.admits(#[trigger] catalog[j]),
        },
    decreases catalog.len(),
{
    if catalog.len() > 0 && !criteria.admits(catalog[0]) {
        let rest = catalog.drop_first();
        lemma_first_admitted(rest, criteria);
        match first_admitted(rest, criteria) {
            Some(mode) => {
                let i = choose|i: int|
                    {
                        &&& 0 <= i < rest.len()
                        &&& #[trigger] rest[i] == mode
                        &&& criteria.admits(mode)
                        &&& forall|j: int| 0 <= j < i ==> !criteria.admits(#[trigger] rest[j])
                    };
                assert(catalog[i + 1] == mode);
                assert forall|j: int| 0 <= j < i + 1 implies !criteria.admits(
                    #[trigger] catalog[j],
                ) by {
                    if j > 0 {
                        assert(catalog[j] == rest[j - 1]);
                    }
                }
            },
            None => {
                assert forall|j: int| 0 <= j < catalog.len() implies !criteria.admits(
                    #[trigger] catalog[j],
                ) by {
                    if j > 0 {
                        assert(catalog[j] == rest[j - 1]);
                    }
                }
            },
        }
    } else if catalog.len() > 0 {
        assert(catalog[0] == catalog[0]);
    }
}

/// An entry that `criteria` admits, with no admitted entry before it, is the one selected.
pub proof fn lemma_first_admitted_at(catalog: Seq<DisplayMode>, criteria: ModeCriteria, i: int)
    requires
        0 <= i < catalog.len(),
        criteria.admits(catalog[i]),
        forall|j: int| 0 <= j < i ==> !criteria.admits(#[trigger] catalog[j]),
    ensures
        first_admitted(catalog, criteria) == Some(catalog[i]),
    decreases i,
{
    if i > 0 {
        let rest = catalog.drop_first();
        assert(!criteria.admits(catalog[0]));
        assert forall|j: int| 0 <= j < i - 1 implies !criteria.admits(#[trigger] rest[j]) by {
            assert(rest[j] == catalog[j + 1]);
        }
        lemma_first_admitted_at(rest, criteria, i - 1);
    }
}

/// An absent scaling criterion is a wildcard: two modes that differ in
/// nothing but scaling are admitted alike.
pub proof fn lemma_scaling_absent_is_wildcard(
    criteria: ModeCriteria,
    a: DisplayMode,
    b: DisplayMode,
)
    requires
        criteria.scaling is None,
        a.width == b.width,
        a.height == b.height,
        a.refresh_rate == b.refresh_rate,
        a.depth == b.depth,
    ensures
        criteria.admits(a) == criteria.admits(b),
{
}

/// The first entry of `catalog` that meets `criteria`.
pub fn find_mode(catalog: &Vec<DisplayMode>, criteria: &ModeCriteria) -> (found: Option<
    DisplayMode,
>)
    ensures
        found == first_admitted(catalog@, *criteria),
{
    let mut i: usize = 0;
    assert(catalog@.skip(0) =~= catalog@);
    while i < catalog.len()
        invariant
            i <= catalog.len(),
            first_admitted(catalog@, *criteria) == first_admitted(
                catalog@.skip(i as int),
                *criteria,
            ),
        decreases catalog.len() - i,
    {
        if criteria.is_met_by(&catalog[i]) {
            return Some(catalog[i]);
        }
        assert(catalog@.skip(i as int).drop_first() =~= catalog@.skip(i + 1));
        i += 1;
    }
    None
}

/// Decides what a request with `criteria` does to the mode of display
/// `display_id`, whose current mode is `current`.
pub fn select_mode(
    catalog: &Vec<DisplayMode>,
    criteria: &ModeCriteria,
    current: &DisplayMode,
    display_id: u32,
) -> (decision: Result<ModeChoice, DisplayError>)
    ensures
        match decision {
            Ok(chosen) => choice(catalog@, *criteria, current.mode_number, display_id) == Ok::<
                ModeChoice,
                DisplayErrorView,
            >(chosen),
            Err(error) => choice(catalog@, *criteria, current.mode_number, display_id) == Err::<
                ModeChoice,
                DisplayErrorView,
            >(error@),
        },
{
    if !criteria.is_selective() {
        return Ok(ModeChoice::Unchanged);
    }
    match find_mode(catalog, criteria) {
        None => Err(DisplayError::NoMatchingMode { display_id }),
        Some(mode) => {
            if mode.mode_number == current.mode_number {
                Ok(ModeChoice::Unchanged)
            } else {
                Ok(ModeChoice::Switch(mode))
            }
        },
    }
}

} // verus!
