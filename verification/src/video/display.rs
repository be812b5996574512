//! Which display to capture.
use crate::error::{BridgeError, BridgeResult};
use crate::text::{decimal, format_u64};
use crate::video::capture::DisplayInfo;
use vstd::prelude::*;
use vstd::string::StringExecFns;

verus! {

/// Display statistics.
#[derive(Debug, Clone, Copy, PartialEq, Eq, Structural)]
pub struct DisplayStats {
    pub frames_rendered: u64,
    pub avg_render_time_us: u64,
    pub dropped_frames: u64,
}

impl Default for DisplayStats {
    fn default() -> (s: Self)
        ensures
            s == (DisplayStats { frames_rendered: 0, avg_render_time_us: 0, dropped_frames: 0 }),
    {
        DisplayStats { frames_rendered: 0, avg_render_time_us: 0, dropped_frames: 0 }
    }
}

/// The first place from `from` on whose display satisfies `p`; the number of
/// displays where there is none.
pub open spec fn first_from(
    displays: Seq<DisplayInfo>,
    p: spec_fn(DisplayInfo) -> bool,
    from: int,
) -> int
    decreases displays.len() - from,
{
    if from < 0 || from >= displays.len() || p(displays[from]) {
        from
    } else {
        first_from(displays, p, from + 1)
    }
}

/// The first display that satisfies `p`, if any.
pub open spec fn first_where(
    displays: Seq<DisplayInfo>,
    p: spec_fn(DisplayInfo) -> bool,
) -> Option<DisplayInfo> {
    let i = first_from(displays, p, 0);
    if i < displays.len() {
        Some(displays[i])
    } else {
        None
    }
}

/// Whether a display has a number.
pub open spec fn has_id(id: u32) -> spec_fn(DisplayInfo) -> bool {
    |d: DisplayInfo| d.id == id
}

/// Whether a display is marked as the main one.
pub open spec fn marked_main() -> spec_fn(DisplayInfo) -> bool {
    |d: DisplayInfo| d.is_main
}

/// The main display: the first that is marked so, or the first of all.
pub open spec fn main_of(displays: Seq<DisplayInfo>) -> Option<DisplayInfo> {
    let marked = first_where(displays, marked_main());
    if marked is Some {
        marked
    } else if displays.len() > 0 {
        Some(displays[0])
    } else {
        None
    }
}

/// The main display, where there is any display.
pub fn main_display(displays: &[DisplayInfo]) -> (r: Option<DisplayInfo>)
    ensures
        r == main_of(displays@),
{
    let ghost p = marked_main();
    let mut i: usize = 0;
    while i < displays.len()
        invariant
            i <= displays@.len(),
            p == marked_main(),
            first_from(displays@, p, 0) == first_from(displays@, p, i as int),
        decreases displays@.len() - i,
    {
        if displays[i].is_main {
            return Some(displays[i]);
        }
        i += 1;
    }
    if displays.len() > 0 {
        Some(displays[0])
    } else {
        None
    }
}

/// The display to test the capture on: the virtual one where it is listed, else
/// the main one.
pub open spec fn test_display_of(displays: Seq<DisplayInfo>, virtual_id: Option<u32>) -> Option<
    DisplayInfo,
> {
    match virtual_id {
        Some(id) => {
            let listed = first_where(displays, has_id(id));
            if listed is Some {
                listed
            } else {
                main_of(displays)
            }
        },
        None => main_of(displays),
    }
}

/// The first display with a number, if any has it.
pub fn find_display(displays: &[DisplayInfo], id: u32) -> (r: Option<DisplayInfo>)
    ensures
        r == first_where(displays@, has_id(id)),
{
    let ghost p = has_id(id);
    let mut i: usize = 0;
    while i < displays.len()
        invariant
            i <= displays@.len(),
            p == has_id(id),
            first_from(displays@, p, 0) == first_from(displays@, p, i as int),
        decreases displays@.len() - i,
    {
        if displays[i].id == id {
            return Some(displays[i]);
        }
        i += 1;
    }
    None
}

/// The display to test the capture on.
pub fn test_display(displays: &[DisplayInfo], virtual_id: Option<u32>) -> (r: Option<DisplayInfo>)
    ensures
        r == test_display_of(displays@, virtual_id),
{
    if let Some(id) = virtual_id {
        let listed = find_display(displays, id);
        if listed.is_some() {
            return listed;
        }
    }
    main_display(displays)
}

/// The display that a capture stream is opened on: the one asked for, or the
/// first.
pub open spec fn target_of(displays: Seq<DisplayInfo>, display_id: Option<u32>) -> Option<
    DisplayInfo,
> {
    match display_id {
        Some(id) => first_where(displays, has_id(id)),
        None => if displays.len() > 0 {
            Some(displays[0])
        } else {
            None
        },
    }
}

/// The display that a capture stream is opened on, or why there is none.
pub fn target_display(displays: &[DisplayInfo], display_id: Option<u32>) -> (r: BridgeResult<
    DisplayInfo,
>)
    ensures
        match r {
            Ok(d) => target_of(displays@, display_id) == Some(d),
            Err(BridgeError::Video(m)) => {
                &&& target_of(displays@, display_id) is None
                &&& if displays@.len() == 0 {
                    m@ == "No displays found via ScreenCaptureKit"@
                } else {
                    display_id is Some && m@ == "Display "@ + decimal(display_id->0 as nat)
                        + " not found in SCK"@
                }
            },
            Err(_) => false,
        },
{
    if displays.len() == 0 {
        return Err(
            BridgeError::Video(String::from_str("No displays found via ScreenCaptureKit")),
        );
    }
    match display_id {
        None => Ok(displays[0]),
        Some(id) => match find_display(displays, id) {
            Some(d) => Ok(d),
            None => {
                let mut m = String::from_str("Display ");
                let number = format_u64(id as u64);
                m.append(number.as_str());
                m.append(" not found in SCK");
                Err(BridgeError::Video(m))
            },
        },
    }
}

/// There is a main display exactly if there is a display, and it is one of them.
pub proof fn law_main_display_exists(displays: Seq<DisplayInfo>)
    ensures
        main_of(displays) is Some <==> displays.len() > 0,
        main_of(displays) is Some ==> displays.contains(main_of(displays)->0),
{
    let p = marked_main();
    lemma_first_from(displays, p, 0);
    if displays.len() > 0 {
        let i = first_from(displays, p, 0);
        if i < displays.len() {
            assert(displays[i] == main_of(displays)->0);
        } else {
            assert(displays[0] == main_of(displays)->0);
        }
    }
}

proof fn lemma_first_from(
    displays: Seq<DisplayInfo>,
    p: spec_fn(DisplayInfo) -> bool,
    from: int,
)
    requires
        0 <= from <= displays.len(),
    ensures
        from <= first_from(displays, p, from) <= displays.len(),
    decreases displays.len() - from,
{
    if from < displays.len() && !p(displays[from]) {
        lemma_first_from(displays, p, from + 1);
    }
}

/// The first display that satisfies a condition is found: one that does, with none
/// before it that does; and none is found only where no display does.
pub proof fn law_first_display_is_found(
    displays: Seq<DisplayInfo>,
    p: spec_fn(DisplayInfo) -> bool,
    k: int,
)
    requires
        0 <= k < displays.len(),
        p(displays[k]),
        forall|j: int| 0 <= j < k ==> !p(#[trigger] displays[j]),
    ensures
        first_where(displays, p) == Some(displays[k]),
{
    lemma_first_is(displays, p, 0, k);
}

proof fn lemma_first_is(
    displays: Seq<DisplayInfo>,
    p: spec_fn(DisplayInfo) -> bool,
    from: int,
    k: int,
)
    requires
        0 <= from <= k < displays.len(),
        p(displays[k]),
        forall|j: int| 0 <= j < k ==> !p(#[trigger] displays[j]),
    ensures
        first_from(displays, p, from) == k,
    decreases k - from,
{
    if from < k {
        assert(!p(displays[from]));
        lemma_first_is(displays, p, from + 1, k);
    }
}

proof fn lemma_none_from(displays: Seq<DisplayInfo>, p: spec_fn(DisplayInfo) -> bool, from: int)
    requires
        0 <= from <= displays.len(),
        forall|j: int| 0 <= j < displays.len() ==> !p(#[trigger] displays[j]),
    ensures
        first_from(displays, p, from) == displays.len(),
    decreases displays.len() - from,
{
    if from < displays.len() {
        assert(!p(displays[from]));
        lemma_none_from(displays, p, from + 1);
    }
}

/// The main display is the first that is marked so; where none is marked, it is the
/// first of all.
pub proof fn law_marked_display_is_the_main_one(displays: Seq<DisplayInfo>, k: int)
    requires
        0 <= k < displays.len(),
        forall|j: int| 0 <= j < k ==> !(#[trigger] displays[j]).is_main,
    ensures
        displays[k].is_main ==> main_of(displays) == Some(displays[k]),
        k == displays.len() - 1 && !displays[k].is_main ==> main_of(displays) == Some(displays[0]),
{
    let p = marked_main();
    if displays[k].is_main {
        law_first_display_is_found(displays, p, k);
    } else if k == displays.len() - 1 {
        assert forall|j: int| 0 <= j < displays.len() implies !p(#[trigger] displays[j]) by {}
        lemma_none_from(displays, p, 0);
    }
}

/// A display is found by its number: the first that has it is the one to capture, and
/// the one to test on where it is virtual. Where none has it, there is none to
/// capture, and the main one is tested. Without a number the first is captured, and
/// the main one tested.
pub proof fn law_displays_are_found_by_number(displays: Seq<DisplayInfo>, id: u32, k: int)
    requires
        0 <= k < displays.len(),
        forall|j: int| 0 <= j < k ==> (#[trigger] displays[j]).id != id,
    ensures
        displays[k].id == id ==> first_where(displays, has_id(id)) == Some(displays[k]) && target_of(
            displays,
            Some(id),
        ) == Some(displays[k]) && test_display_of(displays, Some(id)) == Some(displays[k]),
        k == displays.len() - 1 && displays[k].id != id ==> first_where(displays, has_id(id)) is None
            && target_of(displays, Some(id)) is None && test_display_of(displays, Some(id))
            == main_of(displays),
        target_of(displays, None) == Some(displays[0]),
        test_display_of(displays, None) == main_of(displays),
{
    let p = has_id(id);
    if displays[k].id == id {
        law_first_display_is_found(displays, p, k);
    } else if k == displays.len() - 1 {
        assert forall|j: int| 0 <= j < displays.len() implies !p(#[trigger] displays[j]) by {}
        lemma_none_from(displays, p, 0);
    }
}

/// Without displays there is none to capture and none to test on.
pub proof fn law_no_display_is_no_target(id: Option<u32>)
    ensures
        target_of(Seq::empty(), id) is None,
        test_display_of(Seq::empty(), id) is None,
        main_of(Seq::empty()) is None,
{
}

} // verus!
