//! Selection of the mode that hides or shows the notch of a display.

use crate::error::{DisplayError, DisplayErrorView};
use crate::hertz::close;
use crate::model::DisplayMode;
use vstd::prelude::*;

verus! {

/// A family whose heights differ by more than this is unlikely to differ by a notch.
pub const NOTCH_SPREAD_LIMIT: u32 = 100;

/// What to do about the notch.
#[derive(Clone, Copy, Debug, PartialEq, Eq, Structural)]
pub enum NotchAction {
    Hide,
    Show,
    Toggle,
}

/// The outcome of a notch request that can be carried out.
#[derive(Clone, Copy, Debug, PartialEq, Eq)]
pub struct NotchPlan {
    /// The mode that the action leads to.
    pub target: DisplayMode,
    /// Whether the display has to change its mode to reach the target.
    pub switch: bool,
    /// The difference between the tallest and the shortest mode of the family.
    pub spread: u32,
    /// Whether the spread is too large, on a display that is not built in, to look like a notch.
    pub advisory: bool,
}

/// Whether `mode` differs from `current` at most in height and in the flags
/// that do not describe its geometry.
pub open spec fn similar(mode: DisplayMode, current: DisplayMode) -> bool {
    &&& mode.width == current.width
    &&& close(mode.refresh_rate, current.refresh_rate)
    &&& mode.depth == current.depth
    &&& mode.is_scaled == current.is_scaled
}

/// The test that `family` applies to each entry of a catalog.
pub open spec fn similar_to(current: DisplayMode) -> spec_fn(DisplayMode) -> bool {
    |mode: DisplayMode| similar(mode, current)
}

/// The entries of `catalog` that are similar to `current`, in catalog order.
pub open spec fn family(catalog: Seq<DisplayMode>, current: DisplayMode) -> Seq<DisplayMode> {
    catalog.filter(similar_to(current))
}

/// Where a mode of height `height` goes into `sorted`: behind every entry that is not taller.
pub open spec fn insertion_point(sorted: Seq<DisplayMode>, height: u32) -> nat
    decreases sorted.len(),
{
    if sorted.len() > 0 && sorted.last().height > height {
        insertion_point(sorted.drop_last(), height)
    } else {
        sorted.len()
    }
}

/// `sorted` with `mode` put in behind every entry that is not taller than it.
pub open spec fn insert_by_height(sorted: Seq<DisplayMode>, mode: DisplayMode) -> Seq<
    DisplayMode,
> {
    let at = insertion_point(sorted, mode.height) as int;
    sorted.take(at).push(mode) + sorted.skip(at)
}

/// `modes` by ascending height, modes of one height in the order in which they stand in `modes`.
pub open spec fn sort_by_height(modes: Seq<DisplayMode>) -> Seq<DisplayMode>
    decreases modes.len(),
{
    if modes.len() == 0 {
        Seq::empty()
    } else {
        insert_by_height(sort_by_height(modes.drop_last()), modes.last())
    }
}

/// Whether the heights of `modes` never fall from one entry to the next.
pub open spec fn ascending(modes: Seq<DisplayMode>) -> bool {
    forall|i: int, j: int| 0 <= i < j < modes.len() ==> modes[i].height <= modes[j].height
}

/// The last entry of `sorted` that is shorter than `height`.
pub open spec fn last_below(sorted: Seq<DisplayMode>, height: u32) -> Option<DisplayMode>
    decreases sorted.len(),
{
    if sorted.len() == 0 {
        None
    } else if sorted.last().height < height {
        Some(sorted.last())
    } else {
        last_below(sorted.drop_last(), height)
    }
}

/// The first entry of `sorted` that is taller than `height`.
pub open spec fn first_above(sorted: Seq<DisplayMode>, height: u32) -> Option<DisplayMode>
    decreases sorted.len(),
{
    if sorted.len() == 0 {
        None
    } else if sorted[0].height > height {
        Some(sorted[0])
    } else {
        first_above(sorted.drop_first(), height)
    }
}

/// The mode that hides the notch: the nearest shorter one, or else the shortest of all.
pub open spec fn hide_target(sorted: Seq<DisplayMode>, height: u32) -> DisplayMode
    recommends
        sorted.len() > 0,
{
    match last_below(sorted, height) {
        Some(mode) => mode,
        None => sorted.first(),
    }
}

/// The mode that shows the notch: the nearest taller one, or else the tallest of all.
pub open spec fn show_target(sorted: Seq<DisplayMode>, height: u32) -> DisplayMode
    recommends
        sorted.len() > 0,
{
    match first_above(sorted, height) {
        Some(mode) => mode,
        None => sorted.last(),
    }
}

/// The mode that `action` leads to from a mode of height `height`, in a
/// family sorted by height. Toggling shows the notch from the least height
/// and hides it from any other.
pub open spec fn target(action: NotchAction, sorted: Seq<DisplayMode>, height: u32) -> DisplayMode
    recommends
        sorted.len() > 0,
{
    match action {
        NotchAction::Hide => hide_target(sorted, height),
        NotchAction::Show => show_target(sorted, height),
        NotchAction::Toggle => if height == sorted.first().height {
            show_target(sorted, height)
        } else {
            hide_target(sorted, height)
        },
    }
}

/// What a notch request does to display `display_id`, whose current mode is
/// `current` and whose modes are `catalog`: it fails where no mode is similar
/// to the current one or where the similar modes all have one height, and
/// else names the target mode.
pub open spec fn plan(
    action: NotchAction,
    display_id: u32,
    built_in: bool,
    current: DisplayMode,
    catalog: Seq<DisplayMode>,
) -> Result<NotchPlan, DisplayErrorView> {
    let sorted = sort_by_height(family(catalog, current));
    if sorted.len() == 0 {
        Err(DisplayErrorView::NoSimilarModes { display_id })
    } else if sorted.first().height == sorted.last().height {
        Err(DisplayErrorView::NotNotchCapable { display_id, built_in })
    } else {
        let goal = target(action, sorted, current.height);
        let spread = (sorted.last().height - sorted.first().height) as u32;
        Ok(
            NotchPlan {
                target: goal,
                switch: goal.mode_number != current.mode_number,
                spread,
                advisory: !built_in && spread > NOTCH_SPREAD_LIMIT,
            },
        )
    }
}

/// The insertion point lies inside the sequence, every entry from it on is
/// taller than `height`, and the entry before it is not.
pub proof fn lemma_insertion_point(sorted: Seq<DisplayMode>, height: u32)
    ensures
        insertion_point(sorted, height) <= sorted.len(),
        forall|k: int|
            insertion_point(sorted, height) <= k < sorted.len() ==> (#[trigger] sorted[k]).height
                > height,
        insertion_point(sorted, height) > 0 ==> sorted[insertion_point(sorted, height) - 1].height
            <= height,
    decreases sorted.len(),
{
    if sorted.len() > 0 && sorted.last().height > height {
        let rest = sorted.drop_last();
        lemma_insertion_point(rest, height);
        assert forall|k: int| insertion_point(sorted, height) <= k < sorted.len() implies (
        #[trigger] sorted[k]).height > height by {
            if k < rest.len() {
                assert(sorted[k] == rest[k]);
            }
        }
        if insertion_point(sorted, height) > 0 {
            assert(sorted[insertion_point(sorted, height) - 1] == rest[insertion_point(
                rest,
                height,
            ) - 1]);
        }
    }
}

/// Inserting a mode keeps the entries that were there and adds the mode.
pub proof fn lemma_insert_keeps_modes(sorted: Seq<DisplayMode>, mode: DisplayMode)
    ensures
        insert_by_height(sorted, mode).len() == sorted.len() + 1,
        insert_by_height(sorted, mode).to_multiset() == sorted.to_multiset().insert(mode),
{
    let at = insertion_point(sorted, mode.height) as int;
    lemma_insertion_point(sorted, mode.height);
    let front = sorted.take(at);
    let back = sorted.skip(at);
    assert(sorted =~= front + back);
    vstd::seq_lib::lemma_multiset_commutative(front, back);
    vstd::seq_lib::lemma_multiset_commutative(front.push(mode), back);
    front.to_multiset_ensures();
    assert(front.push(mode).to_multiset() =~= front.to_multiset().insert(mode));
    assert(insert_by_height(sorted, mode).to_multiset() =~= sorted.to_multiset().insert(mode));
}

/// Inserting a mode into modes of ascending height leaves them ascending.
pub proof fn lemma_insert_keeps_order(sorted: Seq<DisplayMode>, mode: DisplayMode)
    requires
        ascending(sorted),
    ensures
        ascending(insert_by_height(sorted, mode)),
{
    let at = insertion_point(sorted, mode.height) as int;
    lemma_insertion_point(sorted, mode.height);
    let out = insert_by_height(sorted, mode);
    assert forall|i: int, j: int| 0 <= i < j < out.len() implies out[i].height
        <= out[j].height by {
        if j < at {
            assert(out[i] == sorted[i] && out[j] == sorted[j]);
        } else if j == at {
            assert(out[i] == sorted[i]);
            assert(out[j] == mode);
            if i < at - 1 {
                assert(sorted[i].height <= sorted[at - 1].height);
            }
        } else if i < at {
            assert(out[i] == sorted[i]);
            assert(out[j] == sorted[j - 1]);
        } else if i == at {
            assert(out[i] == mode);
            assert(out[j] == sorted[j - 1]);
        } else {
            assert(out[i] == sorted[i - 1]);
            assert(out[j] == sorted[j - 1]);
        }
    }
}

/// Sorting by height rearranges the modes, and leaves them in ascending height.
pub proof fn lemma_sort_by_height(modes: Seq<DisplayMode>)
    ensures
        sort_by_height(modes).len() == modes.len(),
        sort_by_height(modes).to_multiset() == modes.to_multiset(),
        ascending(sort_by_height(modes)),
        forall|mode: DisplayMode|
            #[trigger] sort_by_height(modes).contains(mode) <==> modes.contains(mode),
    decreases modes.len(),
{
    let sorted = sort_by_height(modes);
    if modes.len() == 0 {
        assert(sorted =~= modes);
    } else {
        let rest = modes.drop_last();
        lemma_sort_by_height(rest);
        lemma_insert_keeps_modes(sort_by_height(rest), modes.last());
        lemma_insert_keeps_order(sort_by_height(rest), modes.last());
        assert(modes =~= rest.push(modes.last()));
        rest.to_multiset_ensures();
        assert(rest.push(modes.last()).to_multiset() =~= rest.to_multiset().insert(modes.last()));
        assert(sorted.to_multiset() =~= modes.to_multiset());
    }
    sorted.to_multiset_ensures();
    modes.to_multiset_ensures();
    assert forall|mode: DisplayMode| #[trigger]
        sorted.contains(mode) <==> modes.contains(mode) by {
        assert(sorted.to_multiset().count(mode) == modes.to_multiset().count(mode));
    }
}

/// The test for modes of height `height`.
pub open spec fn of_height(height: u32) -> spec_fn(DisplayMode) -> bool {
    |mode: DisplayMode| mode.height == height
}

/// Modes that are all taller than `height` hold none of height `height`.
proof fn lemma_taller_modes(modes: Seq<DisplayMode>, height: u32)
    requires
        forall|k: int| 0 <= k < modes.len() ==> (#[trigger] modes[k]).height > height,
    ensures
        modes.filter(of_height(height)) == Seq::<DisplayMode>::empty(),
    decreases modes.len(),
{
    reveal(Seq::filter);
    if modes.len() > 0 {
        let rest = modes.drop_last();
        assert forall|k: int| 0 <= k < rest.len() implies (#[trigger] rest[k]).height > height by {
            assert(rest[k] == modes[k]);
        }
        lemma_taller_modes(rest, height);
        assert(modes.last() == modes[modes.len() - 1]);
    }
}

/// Inserting a mode puts it behind the modes of its own height, and leaves
/// the modes of every height in the order in which they stood.
pub proof fn lemma_insert_is_stable(sorted: Seq<DisplayMode>, mode: DisplayMode, height: u32)
    ensures
        insert_by_height(sorted, mode).filter(of_height(height)) == (if mode.height == height {
            sorted.filter(of_height(height)).push(mode)
        } else {
            sorted.filter(of_height(height))
        }),
{
    let at = insertion_point(sorted, mode.height) as int;
    lemma_insertion_point(sorted, mode.height);
    let pred = of_height(height);
    let front = sorted.take(at);
    let back = sorted.skip(at);
    assert(sorted =~= front + back);
    Seq::filter_distributes_over_add(front, back, pred);
    Seq::filter_distributes_over_add(front.push(mode), back, pred);
    assert(front.push(mode).filter(pred) == (if mode.height == height {
        front.filter(pred).push(mode)
    } else {
        front.filter(pred)
    })) by {
        reveal(Seq::filter);
        assert(front.push(mode).drop_last() =~= front);
    }
    if mode.height == height {
        assert forall|k: int| 0 <= k < back.len() implies (#[trigger] back[k]).height > height by {
            assert(back[k] == sorted[at + k]);
        }
        lemma_taller_modes(back, height);
        assert(front.filter(pred).push(mode) + Seq::<DisplayMode>::empty() =~= (front.filter(pred)
            + Seq::<DisplayMode>::empty()).push(mode));
    }
}

/// Sorting is stable: the modes of any one height stand in the sorted
/// sequence in the order in which they stood before.
pub proof fn lemma_sort_is_stable(modes: Seq<DisplayMode>, height: u32)
    ensures
        sort_by_height(modes).filter(of_height(height)) == modes.filter(of_height(height)),
    decreases modes.len(),
{
    reveal(Seq::filter);
    if modes.len() > 0 {
        lemma_sort_is_stable(modes.drop_last(), height);
        lemma_insert_is_stable(sort_by_height(modes.drop_last()), modes.last(), height);
    }
}

/// The members of a family are the catalog entries that are similar to the current mode.
pub proof fn lemma_family(catalog: Seq<DisplayMode>, current: DisplayMode)
    ensures
        forall|mode: DisplayMode|
            #[trigger] family(catalog, current).contains(mode) <==> catalog.contains(mode)
                && similar(mode, current),
{
    let pred = similar_to(current);
    let members = catalog.filter(pred);
    assert forall|mode: DisplayMode| #[trigger]
        members.contains(mode) implies catalog.contains(mode) && similar(mode, current) by {
        let i = choose|i: int| 0 <= i < members.len() && members[i] == mode;
        catalog.lemma_filter_pred(pred, i);
        lemma_family_within_catalog(catalog, current, i);
    }
    assert forall|mode: DisplayMode| catalog.contains(mode) && similar(mode, current) implies 
        #[trigger] members.contains(mode) by {
        let i = choose|i: int| 0 <= i < catalog.len() && catalog[i] == mode;
        catalog.lemma_filter_contains(pred, i);
    }
}

/// Every member of a family is an entry of the catalog.
proof fn lemma_family_within_catalog(catalog: Seq<DisplayMode>, current: DisplayMode, i: int)
    requires
        0 <= i < family(catalog, current).len(),
    ensures
        catalog.contains(family(catalog, current)[i]),
    decreases catalog.len(),
{
    reveal(Seq::filter);
    let pred = similar_to(current);
    if catalog.len() > 0 {
        let rest = catalog.drop_last();
        let kept = rest.filter(pred);
        if i < kept.len() {
            lemma_family_within_catalog(rest, current, i);
            let k = choose|k: int| 0 <= k < rest.len() && rest[k] == kept[i];
            assert(catalog[k] == kept[i]);
        } else {
            assert(catalog[catalog.len() - 1] == catalog.last());
        }
    }
}

/// What `last_below` finds is an entry shorter than `height` with no such
/// entry behind it; it finds nothing exactly where no entry is shorter.
pub proof fn lemma_last_below(sorted: Seq<DisplayMode>, height: u32)
    ensures
        match last_below(sorted, height) {
            Some(mode) => exists|i: int|
                {
                    &&& 0 <= i < sorted.len()
                    &&& #[trigger] sorted[i] == mode
                    &&& mode.height < height
                    &&& forall|j: int| i < j < sorted.len() ==> (#[trigger] sorted[j]).height >= height
                },
            None => forall|j: int| 0 <= j < sorted.len() ==> (#[trigger] sorted[j]).height >= height,
        },
    decreases sorted.len(),
{
    if sorted.len() > 0 {
        if sorted.last().height < height {
            assert(sorted[sorted.len() - 1] == sorted.last());
        } else {
            let rest = sorted.drop_last();
            lemma_last_below(rest, height);
            match last_below(rest, height) {
                Some(mode) => {
                    let i = choose|i: int|
                        {
                            &&& 0 <= i < rest.len()
                            &&& #[trigger] rest[i] == mode
                            &&& mode.height < height
                            &&& forall|j: int|
                                i < j < rest.len() ==> (#[trigger] rest[j]).height >= height
                        };
                    assert(sorted[i] == mode);
                    assert forall|j: int| i < j < sorted.len() implies (
                    #[trigger] sorted[j]).height >= height by {
                        if j < rest.len() {
                            assert(sorted[j] == rest[j]);
                        }
                    }
                },
                None => {
                    assert forall|j: int| 0 <= j < sorted.len() implies (
                    #[trigger] sorted[j]).height >= height by {
                        if j < rest.len() {
                            assert(sorted[j] == rest[j]);
                        }
                    }
                },
            }
        }
    }
}

/// What `first_above` finds is an entry taller than `height` with no such
/// entry before it; it finds nothing exactly where no entry is taller.
pub proof fn lemma_first_above(sorted: Seq<DisplayMode>, height: u32)
    ensures
        match first_above(sorted, height) {
            Some(mode) => exists|i: int|
                {
                    &&& 0 <= i < sorted.len()
                    &&& #[trigger] sorted[i] == mode
                    &&& mode.height > height
                    &&& forall|j: int| 0 <= j < i ==> (#[trigger] sorted[j]).height <= height
                },
            None => forall|j: int| 0 <= j < sorted.len() ==> (#[trigger] sorted[j]).height <= height,
        },
    decreases sorted.len(),
{
    if sorted.len() > 0 {
        if sorted[0].height > height {
            assert(sorted[0] == sorted[0]);
        } else {
            let rest = sorted.drop_first();
            lemma_first_above(rest, height);
            match first_above(rest, height) {
                Some(mode) => {
                    let i = choose|i: int|
                        {
                            &&& 0 <= i < rest.len()
                            &&& #[trigger] rest[i] == mode
                            &&& mode.height > height
                            &&& forall|j: int| 0 <= j < i ==> (#[trigger] rest[j]).height <= height
                        };
                    assert(sorted[i + 1] == mode);
                    assert forall|j: int| 0 <= j < i + 1 implies (#[trigger] sorted[j]).height
                        <= height by {
                        if j > 0 {
                            assert(sorted[j] == rest[j - 1]);
                        }
                    }
                },
                None => {
                    assert forall|j: int| 0 <= j < sorted.len() implies (
                    #[trigger] sorted[j]).height <= height by {
                        if j > 0 {
                            assert(sorted[j] == rest[j - 1]);
                        }
                    }
                },
            }
        }
    }
}

/// The mode that hides the notch is a member of the family. Where a member
/// is shorter than `height`, it is the tallest of those; where none is, it
/// is a shortest member.
pub proof fn lemma_hide_target(sorted: Seq<DisplayMode>, height: u32)
    requires
        sorted.len() > 0,
        ascending(sorted),
    ensures
        sorted.contains(hide_target(sorted, height)),
        (exists|k: int| 0 <= k < sorted.len() && (#[trigger] sorted[k]).height < height) ==> {
            &&& hide_target(sorted, height).height < height
            &&& forall|k: int|
                0 <= k < sorted.len() && (#[trigger] sorted[k]).height < height ==> sorted[k].height
                    <= hide_target(sorted, height).height
        },
        (forall|k: int| 0 <= k < sorted.len() ==> (#[trigger] sorted[k]).height >= height)
            ==> hide_target(sorted, height) == sorted.first(),
        forall|k: int| 0 <= k < sorted.len() ==> sorted.first().height <= (#[trigger] sorted[k]).height,
{
    lemma_last_below(sorted, height);
    match last_below(sorted, height) {
        Some(mode) => {
            let i = choose|i: int|
                {
                    &&& 0 <= i < sorted.len()
                    &&& #[trigger] sorted[i] == mode
                    &&& mode.height < height
                    &&& forall|j: int| i < j < sorted.len() ==> (#[trigger] sorted[j]).height >= height
                };
            assert forall|k: int|
                0 <= k < sorted.len() && (#[trigger] sorted[k]).height < height implies sorted[k].height
                <= mode.height by {
                if k > i {
                    assert(sorted[k].height >= height);
                } else if k < i {
                    assert(sorted[k].height <= sorted[i].height);
                }
            }
        },
        None => {
            assert(sorted[0] == sorted.first());
        },
    }
    assert forall|k: int| 0 <= k < sorted.len() implies sorted.first().height <= (
    #[trigger] sorted[k]).height by {
        if k > 0 {
            assert(sorted[0].height <= sorted[k].height);
        }
    }
}

/// The mode that shows the notch is a member of the family. Where a member
/// is taller than `height`, it is the shortest of those; where none is, it
/// is a tallest member.
pub proof fn lemma_show_target(sorted: Seq<DisplayMode>, height: u32)
    requires
        sorted.len() > 0,
        ascending(sorted),
    ensures
        sorted.contains(show_target(sorted, height)),
        (exists|k: int| 0 <= k < sorted.len() && (#[trigger] sorted[k]).height > height) ==> {
            &&& show_target(sorted, height).height > height
            &&& forall|k: int|
                0 <= k < sorted.len() && (#[trigger] sorted[k]).height > height ==> sorted[k].height
                    >= show_target(sorted, height).height
        },
        (forall|k: int| 0 <= k < sorted.len() ==> (#[trigger] sorted[k]).height <= height)
            ==> show_target(sorted, height) == sorted.last(),
        forall|k: int| 0 <= k < sorted.len() ==> sorted.last().height >= (#[trigger] sorted[k]).height,
{
    lemma_first_above(sorted, height);
    match first_above(sorted, height) {
        Some(mode) => {
            let i = choose|i: int|
                {
                    &&& 0 <= i < sorted.len()
                    &&& #[trigger] sorted[i] == mode
                    &&& mode.height > height
                    &&& forall|j: int| 0 <= j < i ==> (#[trigger] sorted[j]).height <= height
                };
            assert forall|k: int|
                0 <= k < sorted.len() && (#[trigger] sorted[k]).height > height implies sorted[k].height
                >= mode.height by {
                if k < i {
                    assert(sorted[k].height <= height);
                } else if k > i {
                    assert(sorted[i].height <= sorted[k].height);
                }
            }
        },
        None => {
            assert(sorted[sorted.len() - 1] == sorted.last());
        },
    }
    assert forall|k: int| 0 <= k < sorted.len() implies sorted.last().height >= (
    #[trigger] sorted[k]).height by {
        if k < sorted.len() - 1 {
            assert(sorted[k].height <= sorted[sorted.len() - 1].height);
        }
    }
}

/// The target of a plan is an entry of the catalog that is similar to the current mode.
pub proof fn lemma_target_is_member(
    action: NotchAction,
    display_id: u32,
    built_in: bool,
    current: DisplayMode,
    catalog: Seq<DisplayMode>,
)
    ensures
        plan(action, display_id, built_in, current, catalog) matches Ok(found) ==> {
            &&& catalog.contains(found.target)
            &&& similar(found.target, current)
            &&& found.switch == (found.target.mode_number != current.mode_number)
        },
{
    let members = family(catalog, current);
    let sorted = sort_by_height(members);
    lemma_sort_by_height(members);
    lemma_family(catalog, current);
    if sorted.len() > 0 {
        lemma_hide_target(sorted, current.height);
        lemma_show_target(sorted, current.height);
        let goal = target(action, sorted, current.height);
        assert(sorted.contains(goal));
        assert(members.contains(goal));
    }
}

/// A request fails for want of a notch exactly where the current mode has a
/// family and all of its members have one height.
pub proof fn lemma_flat_family_is_not_notch_capable(
    action: NotchAction,
    display_id: u32,
    built_in: bool,
    current: DisplayMode,
    catalog: Seq<DisplayMode>,
)
    ensures
        ({
            let members = family(catalog, current);
            &&& members.len() > 0
            &&& forall|i: int, j: int|
                0 <= i < members.len() && 0 <= j < members.len() ==> members[i].height
                    == members[j].height
        }) <==> plan(action, display_id, built_in, current, catalog) == Err::<
            NotchPlan,
            DisplayErrorView,
        >(DisplayErrorView::NotNotchCapable { display_id, built_in }),
        family(catalog, current).len() == 0 <==> plan(
            action,
            display_id,
            built_in,
            current,
            catalog,
        ) == Err::<NotchPlan, DisplayErrorView>(DisplayErrorView::NoSimilarModes { display_id }),
{
    let members = family(catalog, current);
    let sorted = sort_by_height(members);
    lemma_sort_by_height(members);
    if sorted.len() > 0 {
        lemma_hide_target(sorted, current.height);
        lemma_show_target(sorted, current.height);
        let flat = forall|i: int, j: int|
            0 <= i < members.len() && 0 <= j < members.len() ==> members[i].height
                == members[j].height;
        if flat {
            assert(sorted.contains(sorted.first())) by {
                assert(sorted[0] == sorted.first());
            }
            assert(sorted.contains(sorted.last())) by {
                assert(sorted[sorted.len() - 1] == sorted.last());
            }
            assert(members.contains(sorted.first()));
            assert(members.contains(sorted.last()));
        }
        if sorted.first().height == sorted.last().height {
            assert forall|i: int, j: int|
                0 <= i < members.len() && 0 <= j < members.len() implies members[i].height
                == members[j].height by {
                assert(members.contains(members[i]));
                assert(members.contains(members[j]));
                assert(sorted.contains(members[i]));
                assert(sorted.contains(members[j]));
                let a = choose|a: int| 0 <= a < sorted.len() && sorted[a] == members[i];
                let b = choose|b: int| 0 <= b < sorted.len() && sorted[b] == members[j];
                assert(sorted.first().height <= sorted[a].height <= sorted.last().height);
                assert(sorted.first().height <= sorted[b].height <= sorted.last().height);
            }
        }
    }
}

/// Hiding the notch changes nothing where it is hidden already: where the
/// current mode is an entry of the catalog and every member of its family
/// with another mode number is taller, no switch is planned.
pub proof fn lemma_hide_when_hidden_changes_nothing(
    display_id: u32,
    built_in: bool,
    current: DisplayMode,
    catalog: Seq<DisplayMode>,
)
    requires
        catalog.contains(current),
        forall|k: int|
            0 <= k < family(catalog, current).len() && (#[trigger] family(
                catalog,
                current,
            )[k]).mode_number != current.mode_number ==> family(catalog, current)[k].height
                > current.height,
    ensures
        plan(NotchAction::Hide, display_id, built_in, current, catalog) matches Ok(found)
            ==> !found.switch,
{
    let members = family(catalog, current);
    let sorted = sort_by_height(members);
    lemma_sort_by_height(members);
    lemma_family(catalog, current);
    assert(members.contains(current));
    assert(sorted.contains(current));
    lemma_hide_target(sorted, current.height);
    let goal = hide_target(sorted, current.height);
    assert(members.contains(goal));
    let g = choose|g: int| 0 <= g < members.len() && members[g] == goal;
    let c = choose|c: int| 0 <= c < sorted.len() && sorted[c] == current;
    if exists|k: int| 0 <= k < sorted.len() && (#[trigger] sorted[k]).height < current.height {
        assert(members[g].height < current.height);
    } else {
        assert(sorted.first().height <= sorted[c].height);
        assert(members[g].height <= current.height);
    }
}

/// Hiding twice in succession switches at most once: where the mode that
/// a first hiding leads to is the only one of its height in its family and
/// none there is shorter, a second hiding from that mode plans no switch.
pub proof fn lemma_hide_twice(
    display_id: u32,
    built_in: bool,
    current: DisplayMode,
    catalog: Seq<DisplayMode>,
)
    requires
        plan(NotchAction::Hide, display_id, built_in, current, catalog) is Ok,
        ({
            let reached = plan(
                NotchAction::Hide,
                display_id,
                built_in,
                current,
                catalog,
            )->Ok_0.target;
            forall|k: int|
                0 <= k < family(catalog, reached).len() && (#[trigger] family(
                    catalog,
                    reached,
                )[k]).mode_number != reached.mode_number ==> family(catalog, reached)[k].height
                    > reached.height
        }),
    ensures
        ({
            let reached = plan(
                NotchAction::Hide,
                display_id,
                built_in,
                current,
                catalog,
            )->Ok_0.target;
            plan(NotchAction::Hide, display_id, built_in, reached, catalog) matches Ok(second)
                ==> !second.switch
        }),
{
    let reached = plan(NotchAction::Hide, display_id, built_in, current, catalog)->Ok_0.target;
    lemma_target_is_member(NotchAction::Hide, display_id, built_in, current, catalog);
    lemma_hide_when_hidden_changes_nothing(display_id, built_in, reached, catalog);
}

/// Whether `mode` is similar to `current`.
pub fn is_similar(mode: &DisplayMode, current: &DisplayMode) -> (yes: bool)
    ensures
        yes == similar(*mode, *current),
{
    mode.width == current.width && mode.refresh_rate.is_close_to(&current.refresh_rate)
        && mode.depth == current.depth && mode.is_scaled == current.is_scaled
}

/// The entries of `catalog` that are similar to `current`, in catalog order.
pub fn mode_family(catalog: &Vec<DisplayMode>, current: &DisplayMode) -> (members: Vec<
    DisplayMode,
>)
    ensures
        members@ == family(catalog@, *current),
{
    let mut members: Vec<DisplayMode> = Vec::new();
    let mut i: usize = 0;
    proof {
        reveal(Seq::filter);
        assert(catalog@.take(0).filter(similar_to(*current)) =~= Seq::<DisplayMode>::empty());
    }
    while i < catalog.len()
        invariant
            i <= catalog.len(),
            members@ == catalog@.take(i as int).filter(similar_to(*current)),
        decreases catalog.len() - i,
    {
        proof {
            reveal(Seq::filter);
            assert(catalog@.take(i + 1).drop_last() =~= catalog@.take(i as int));
            assert(catalog@.take(i + 1).last() == catalog@[i as int]);
        }
        if is_similar(&catalog[i], current) {
            members.push(catalog[i]);
        }
        i += 1;
    }
    assert(catalog@.take(i as int) =~= catalog@);
    members
}

/// `modes` by ascending height, modes of one height in the order in which they stand in `modes`.
pub fn sort_modes(modes: &Vec<DisplayMode>) -> (sorted: Vec<DisplayMode>)
    ensures
        sorted@ == sort_by_height(modes@),
{
    let mut sorted: Vec<DisplayMode> = Vec::new();
    let mut i: usize = 0;
    assert(modes@.take(0) =~= Seq::<DisplayMode>::empty());
    while i < modes.len()
        invariant
            i <= modes.len(),
            sorted@ == sort_by_height(modes@.take(i as int)),
        decreases modes.len() - i,
    {
        let mode = modes[i];
        let mut at: usize = sorted.len();
        assert(sorted@.take(at as int) =~= sorted@);
        while at > 0 && sorted[at - 1].height > mode.height
            invariant
                at <= sorted.len(),
                insertion_point(sorted@, mode.height) == insertion_point(
                    sorted@.take(at as int),
                    mode.height,
                ),
            decreases at,
        {
            assert(sorted@.take(at as int).drop_last() =~= sorted@.take(at - 1));
            at -= 1;
        }
        proof {
            assert(modes@.take(i + 1).drop_last() =~= modes@.take(i as int));
            assert(modes@.take(i + 1).last() == mode);
            assert(insertion_point(sorted@, mode.height) == at);
            assert(sorted@.insert(at as int, mode) =~= insert_by_height(sorted@, mode));
        }
        sorted.insert(at, mode);
        i += 1;
    }
    assert(modes@.take(i as int) =~= modes@);
    sorted
}

/// The last entry of `sorted` that is shorter than `height`.
fn find_last_below(sorted: &Vec<DisplayMode>, height: u32) -> (found: Option<DisplayMode>)
    ensures
        found == last_below(sorted@, height),
{
    let mut at: usize = sorted.len();
    assert(sorted@.take(at as int) =~= sorted@);
    while at > 0
        invariant
            at <= sorted.len(),
            last_below(sorted@, height) == last_below(sorted@.take(at as int), height),
        decreases at,
    {
        if sorted[at - 1].height < height {
            return Some(sorted[at - 1]);
        }
        assert(sorted@.take(at as int).drop_last() =~= sorted@.take(at - 1));
        at -= 1;
    }
    None
}

/// The first entry of `sorted` that is taller than `height`.
fn find_first_above(sorted: &Vec<DisplayMode>, height: u32) -> (found: Option<DisplayMode>)
    ensures
        found == first_above(sorted@, height),
{
    let mut at: usize = 0;
    assert(sorted@.skip(0) =~= sorted@);
    while at < sorted.len()
        invariant
            at <= sorted.len(),
            first_above(sorted@, height) == first_above(sorted@.skip(at as int), height),
        decreases sorted.len() - at,
    {
        if sorted[at].height > height {
            return Some(sorted[at]);
        }
        assert(sorted@.skip(at as int).drop_first() =~= sorted@.skip(at + 1));
        at += 1;
    }
    None
}

/// The mode that `action` leads to from a mode of height `height`.
fn find_target(action: NotchAction, sorted: &Vec<DisplayMode>, height: u32) -> (goal: DisplayMode)
    requires
        sorted.len() > 0,
    ensures
        goal == target(action, sorted@, height),
{
    let hide = match action {
        NotchAction::Hide => true,
        NotchAction::Show => false,
        NotchAction::Toggle => height != sorted[0].height,
    };
    if hide {
        match find_last_below(sorted, height) {
            Some(mode) => mode,
            None => sorted[0],
        }
    } else {
        match find_first_above(sorted, height) {
            Some(mode) => mode,
            None => sorted[sorted.len() - 1],
        }
    }
}

/// Decides what `action` does to display `display_id`, whose current mode is
/// `current` and whose modes are `catalog`.
pub fn plan_notch(
    action: NotchAction,
    display_id: u32,
    built_in: bool,
    current: &DisplayMode,
    catalog: &Vec<DisplayMode>,
) -> (planned: Result<NotchPlan, DisplayError>)
    ensures
        match planned {
            Ok(found) => plan(action, display_id, built_in, *current, catalog@) == Ok::<
                NotchPlan,
                DisplayErrorView,
            >(found),
            Err(error) => plan(action, display_id, built_in, *current, catalog@) == Err::<
                NotchPlan,
                DisplayErrorView,
            >(error@),
        },
{
    let members = mode_family(catalog, current);
    if members.len() == 0 {
        return Err(DisplayError::NoSimilarModes { display_id });
    }
    let sorted = sort_modes(&members);
    proof {
        lemma_sort_by_height(members@);
        lemma_hide_target(sorted@, current.height);
    }
    let least: u32 = sorted[0].height;
    let greatest: u32 = sorted[sorted.len() - 1].height;
    if least == greatest {
        return Err(DisplayError::NotNotchCapable { display_id, built_in });
    }
    assert(sorted@[0].height <= sorted@[sorted.len() - 1].height);
    let spread: u32 = greatest - least;
    let goal = find_target(action, &sorted, current.height);
    Ok(
        NotchPlan {
            target: goal,
            switch: goal.mode_number != current.mode_number,
            spread,
            advisory: !built_in && spread > NOTCH_SPREAD_LIMIT,
        },
    )
}

} // verus!
