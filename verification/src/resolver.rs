//! Resolution of display tokens against the displays that are active.

use crate::error::{DisplayError, DisplayErrorView};
use crate::model::{DisplayInfo, DisplayInfoView};
use crate::number::{parse_u32, parse_u32_spec};
use crate::text::chars_of;
use vstd::prelude::*;

verus! {

/// The displays that were active at one moment, in the order in which they were reported.
#[derive(Clone, Debug)]
pub struct DisplaySnapshot {
    pub displays: Vec<DisplayInfo>,
}

impl View for DisplaySnapshot {
    type V = Seq<DisplayInfoView>;

    open spec fn view(&self) -> Seq<DisplayInfoView> {
        Seq::new(self.displays@.len(), |i: int| self.displays@[i]@)
    }
}

/// Whether a display of `snapshot` has the numeric identifier `id`.
pub open spec fn has_display(snapshot: Seq<DisplayInfoView>, id: u32) -> bool {
    exists|i: int| 0 <= i < snapshot.len() && (#[trigger] snapshot[i]).id == id
}

/// The numeric identifier of the first display of `snapshot` whose
/// persistent identifier is `token`.
pub open spec fn by_persistent_id(snapshot: Seq<DisplayInfoView>, token: Seq<char>) -> Option<u32>
    decreases snapshot.len(),
{
    if snapshot.len() == 0 {
        None
    } else if snapshot[0].persistent_id == token {
        Some(snapshot[0].id)
    } else {
        by_persistent_id(snapshot.drop_first(), token)
    }
}

/// The numeric identifier of the first display of `snapshot` that is the main display.
pub open spec fn main_display(snapshot: Seq<DisplayInfoView>) -> Option<u32>
    decreases snapshot.len(),
{
    if snapshot.len() == 0 {
        None
    } else if snapshot[0].is_main {
        Some(snapshot[0].id)
    } else {
        main_display(snapshot.drop_first())
    }
}

/// The display that `token` names. A token that reads as a number names the
/// display with that numeric identifier and no other; any other token names
/// the first display with that persistent identifier.
pub open spec fn resolve(token: Seq<char>, snapshot: Seq<DisplayInfoView>) -> Result<
    u32,
    DisplayErrorView,
> {
    match parse_u32_spec(token) {
        Some(id) => if has_display(snapshot, id) {
            Ok(id)
        } else {
            Err(DisplayErrorView::DisplayNotFound(token))
        },
        None => match by_persistent_id(snapshot, token) {
            Some(id) => Ok(id),
            None => Err(DisplayErrorView::DisplayNotFound(token)),
        },
    }
}

/// The display that a notch request is about: the one asked for, else the
/// main display, else display 1.
pub open spec fn notch_display(requested: Option<u32>, snapshot: Seq<DisplayInfoView>) -> u32 {
    match requested {
        Some(id) => id,
        None => match main_display(snapshot) {
            Some(id) => id,
            None => 1,
        },
    }
}

/// A token that reads as the number of an active display resolves to that
/// number, whatever the persistent identifiers of the displays are.
pub proof fn lemma_number_comes_first(token: Seq<char>, snapshot: Seq<DisplayInfoView>, id: u32)
    requires
        parse_u32_spec(token) == Some(id),
        has_display(snapshot, id),
    ensures
        resolve(token, snapshot) == Ok::<u32, DisplayErrorView>(id),
{
}

/// A token that reads as a number, but not as that of an active display,
/// names no display, whatever the persistent identifiers of the displays are.
pub proof fn lemma_number_is_never_persistent(
    token: Seq<char>,
    snapshot: Seq<DisplayInfoView>,
    id: u32,
)
    requires
        parse_u32_spec(token) == Some(id),
        !has_display(snapshot, id),
    ensures
        resolve(token, snapshot) == Err::<u32, DisplayErrorView>(
            DisplayErrorView::DisplayNotFound(token),
        ),
{
}

/// A token that does not read as a number resolves to the first display
/// with that persistent identifier, and to none where no display has it.
pub proof fn lemma_persistent_token(token: Seq<char>, snapshot: Seq<DisplayInfoView>)
    requires
        parse_u32_spec(token) is None,
    ensures
        match resolve(token, snapshot) {
            Ok(id) => exists|i: int|
                {
                    &&& 0 <= i < snapshot.len()
                    &&& (#[trigger] snapshot[i]).persistent_id == token
                    &&& snapshot[i].id == id
                    &&& forall|j: int| 0 <= j < i ==> (#[trigger] snapshot[j]).persistent_id != token
                },
            Err(error) => {
                &&& error == DisplayErrorView::DisplayNotFound(token)
                &&& forall|j: int|
                    0 <= j < snapshot.len() ==> (#[trigger] snapshot[j]).persistent_id != token
            },
        },
{
    lemma_by_persistent_id(snapshot, token);
}

/// A token resolves to none but an active display.
pub proof fn lemma_resolved_display_is_active(token: Seq<char>, snapshot: Seq<DisplayInfoView>)
    ensures
        resolve(token, snapshot) matches Ok(id) ==> has_display(snapshot, id),
{
    lemma_by_persistent_id(snapshot, token);
}

/// `by_persistent_id` finds the first display with the persistent
/// identifier, and nothing exactly where no display has it.
pub proof fn lemma_by_persistent_id(snapshot: Seq<DisplayInfoView>, token: Seq<char>)
    ensures
        match by_persistent_id(snapshot, token) {
            Some(id) => exists|i: int|
                {
                    &&& 0 <= i < snapshot.len()
                    &&& (#[trigger] snapshot[i]).persistent_id == token
                    &&& snapshot[i].id == id
                    &&& forall|j: int| 0 <= j < i ==> (#[trigger] snapshot[j]).persistent_id != token
                },
            None => forall|j: int|
                0 <= j < snapshot.len() ==> (#[trigger] snapshot[j]).persistent_id != token,
        },
    decreases snapshot.len(),
{
    if snapshot.len() > 0 {
        if snapshot[0].persistent_id == token {
            assert(snapshot[0].id == snapshot[0].id);
        } else {
            let rest = snapshot.drop_first();
            lemma_by_persistent_id(rest, token);
            match by_persistent_id(rest, token) {
                Some(id) => {
                    let i = choose|i: int|
                        {
                            &&& 0 <= i < rest.len()
                            &&& (#[trigger] rest[i]).persistent_id == token
                            &&& rest[i].id == id
                            &&& forall|j: int|
                                0 <= j < i ==> (#[trigger] rest[j]).persistent_id != token
                        };
                    assert(snapshot[i + 1] == rest[i]);
                    assert forall|j: int| 0 <= j < i + 1 implies (
                    #[trigger] snapshot[j]).persistent_id != token by {
                        if j > 0 {
                            assert(snapshot[j] == rest[j - 1]);
                        }
                    }
                },
                None => {
                    assert forall|j: int| 0 <= j < snapshot.len() implies (
                    #[trigger] snapshot[j]).persistent_id != token by {
                        if j > 0 {
                            assert(snapshot[j] == rest[j - 1]);
                        }
                    }
                },
            }
        }
    }
}

impl DisplaySnapshot {
    /// The snapshot of `displays`.
    pub fn new(displays: Vec<DisplayInfo>) -> (snapshot: DisplaySnapshot)
        ensures
            snapshot.displays == displays,
    {
        DisplaySnapshot { displays }
    }

    /// Whether a display of the snapshot has the numeric identifier `id`.
    pub fn contains_id(&self, id: u32) -> (yes: bool)
        ensures
            yes == has_display(self@, id),
    {
        let mut i: usize = 0;
        while i < self.displays.len()
            invariant
                i <= self.displays.len(),
                forall|j: int| 0 <= j < i ==> (#[trigger] self@[j]).id != id,
            decreases self.displays.len() - i,
        {
            if self.displays[i].id == id {
                assert(self@[i as int].id == id);
                return true;
            }
            i += 1;
        }
        false
    }

    /// The numeric identifier of the first display whose persistent identifier is `token`.
    pub fn find_persistent(&self, token: &str) -> (found: Option<u32>)
        ensures
            found == by_persistent_id(self@, token@),
    {
        let wanted = token.to_owned();
        let mut i: usize = 0;
        assert(self@.skip(0) =~= self@);
        while i < self.displays.len()
            invariant
                i <= self.displays.len(),
                wanted@ == token@,
                by_persistent_id(self@, token@) == by_persistent_id(self@.skip(i as int), token@),
            decreases self.displays.len() - i,
        {
            assert(self@.skip(i as int)[0] == self@[i as int]);
            if self.displays[i].persistent_id == wanted {
                return Some(self.displays[i].id);
            }
            assert(self@.skip(i as int).drop_first() =~= self@.skip(i + 1));
            i += 1;
        }
        None
    }

    /// The numeric identifier of the first display that is the main display.
    pub fn find_main(&self) -> (found: Option<u32>)
        ensures
            found == main_display(self@),
    {
        let mut i: usize = 0;
        assert(self@.skip(0) =~= self@);
        while i < self.displays.len()
            invariant
                i <= self.displays.len(),
                main_display(self@) == main_display(self@.skip(i as int)),
            decreases self.displays.len() - i,
        {
            assert(self@.skip(i as int)[0] == self@[i as int]);
            if self.displays[i].is_main {
                return Some(self.displays[i].id);
            }
            assert(self@.skip(i as int).drop_first() =~= self@.skip(i + 1));
            i += 1;
        }
        None
    }

    /// The display that `token` names.
    pub fn resolve(&self, token: &str) -> (resolved: Result<u32, DisplayError>)
        ensures
            match resolved {
                Ok(id) => resolve(token@, self@) == Ok::<u32, DisplayErrorView>(id),
                Err(error) => resolve(token@, self@) == Err::<u32, DisplayErrorView>(error@),
            },
    {
        let chars = chars_of(token);
        match parse_u32(chars.as_slice()) {
            Some(id) => {
                if self.contains_id(id) {
                    Ok(id)
                } else {
                    Err(DisplayError::DisplayNotFound(token.to_owned()))
                }
            },
            None => {
                match self.find_persistent(token) {
                    Some(id) => Ok(id),
                    None => Err(DisplayError::DisplayNotFound(token.to_owned())),
                }
            },
        }
    }

    /// The display that a notch request is about.
    pub fn notch_display(&self, requested: Option<u32>) -> (id: u32)
        ensures
            id == notch_display(requested, self@),
    {
        match requested {
            Some(id) => id,
            None => match self.find_main() {
                Some(id) => id,
                None => 1,
            },
        }
    }
}

} // verus!
