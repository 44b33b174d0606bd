//! Pointer input: which pickable parts of a text lie under the pointer, and
//! what the pointer does to them.

use std::ops::Range;
use vstd::prelude::*;

use crate::pxtext::{EventType, PickableText, PxText, PxTextEvent};
use crate::rect::ScreenRect;

verus! {

/// What the pointer does, from the buttons that went down in this cycle: the
/// left button comes before the right one, and either before a mere hover.
pub open spec fn pick_type_of(left_pressed: bool, right_pressed: bool) -> EventType {
    if left_pressed {
        EventType::LeftClick
    } else if right_pressed {
        EventType::RightClick
    } else {
        EventType::Hover
    }
}

/// What the pointer does, from the buttons that went down in this cycle.
pub fn pick_type(left_pressed: bool, right_pressed: bool) -> (r: EventType)
    ensures
        r == pick_type_of(left_pressed, right_pressed),
        left_pressed ==> r == EventType::LeftClick,
{
    if left_pressed {
        EventType::LeftClick
    } else if right_pressed {
        EventType::RightClick
    } else {
        EventType::Hover
    }
}

/// Those of the first `n` rectangles that hold the point, in their order.
pub open spec fn hits(rects: Seq<ScreenRect>, point: (i32, i32), n: int) -> Seq<ScreenRect>
    decreases n,
{
    if n <= 0 {
        Seq::empty()
    } else if rects[n - 1].spec_contains(point) {
        hits(rects, point, n - 1).push(rects[n - 1])
    } else {
        hits(rects, point, n - 1)
    }
}

/// The events of one pickable part of a text in one cycle: one for each of
/// its rectangles that holds the pointer, in the order of the rectangles.
///
/// Each event names the entity, the picked characters and their places, the
/// rectangle that was hit, and what the pointer did.
pub fn pick_events(
    entity: u64,
    text: &PxText,
    pickable: &PickableText,
    rects: &Vec<ScreenRect>,
    pointer: (i32, i32),
    left_pressed: bool,
    right_pressed: bool,
) -> (events: Vec<PxTextEvent>)
    ensures
        events@.len() == hits(rects@, pointer, rects@.len() as int).len(),
        forall|i: int|
            0 <= i < events@.len() ==> {
                let event = #[trigger] events@[i];
                &&& event.entity == entity
                &&& event.rect == hits(rects@, pointer, rects@.len() as int)[i]
                &&& event.pick_type == pick_type_of(left_pressed, right_pressed)
                &&& event.range.start == pickable.resolve(text).0
                &&& event.range.end == pickable.resolve(text).1
                &&& event.value@ == text.flat().subrange(
                    pickable.resolve(text).0,
                    pickable.resolve(text).1,
                )
            },
{
    let (value, range) = pickable.get_string(text);
    let kind: EventType = pick_type(left_pressed, right_pressed);
    let mut events: Vec<PxTextEvent> = Vec::new();
    let n: usize = rects.len();
    let mut k: usize = 0;
    while k < n
        invariant
            n == rects@.len(),
            k <= n,
            kind == pick_type_of(left_pressed, right_pressed),
            range.start == pickable.resolve(text).0,
            range.end == pickable.resolve(text).1,
            value@ == text.flat().subrange(pickable.resolve(text).0, pickable.resolve(text).1),
            events@.len() == hits(rects@, pointer, k as int).len(),
            forall|i: int|
                0 <= i < events@.len() ==> {
                    let event = #[trigger] events@[i];
                    &&& event.entity == entity
                    &&& event.rect == hits(rects@, pointer, k as int)[i]
                    &&& event.pick_type == kind
                    &&& event.range.start == range.start
                    &&& event.range.end == range.end
                    &&& event.value@ == value@
                },
        decreases n - k,
    {
        let rect: ScreenRect = rects[k];
        if rect.contains(pointer) {
            let picked: Range<usize> = range.start..range.end;
            events.push(
                PxTextEvent {
                    entity,
                    range: picked,
                    value: value.clone(),
                    rect,
                    pick_type: kind,
                },
            );
        }
        k = k + 1;
    }
    events
}

} // verus!
