//! The layout that panes and panels sit in: dividers that split an area in a
//! row or a column, with resize handles between their parts.
use vstd::prelude::*;

verus! {

/// How a divider splits its area.
#[derive(Clone, Copy, PartialEq, Eq, Structural)]
pub enum Divider {
    /// Its parts stand side by side.
    Horizontal,
    /// Its parts stand one above the other.
    Vertical,
}

/// The cursor shown over a resize handle.
#[derive(Clone, Copy, PartialEq, Eq, Structural)]
pub enum ResizeCursor {
    EwResize,
    NsResize,
}

/// The cursor over the resize handle of a divider: across its direction.
pub fn resize_cursor(divider: Divider) -> (c: ResizeCursor)
    ensures
        c == (match divider {
            Divider::Horizontal => ResizeCursor::EwResize,
            Divider::Vertical => ResizeCursor::NsResize,
        }),
{
    match divider {
        Divider::Horizontal => ResizeCursor::EwResize,
        Divider::Vertical => ResizeCursor::NsResize,
    }
}

/// Which sides of a part follow its size: for a part of a divider the side
/// along the divider, for any other node neither (it fills its parent).
pub fn sized_axes(parent: Option<Divider>) -> (axes: (bool, bool))
    ensures
        axes == (match parent {
            Some(Divider::Horizontal) => (true, false),
            Some(Divider::Vertical) => (false, true),
            None => (false, false),
        }),
{
    match parent {
        Some(Divider::Horizontal) => (true, false),
        Some(Divider::Vertical) => (false, true),
        None => (false, false),
    }
}

/// The parts of a divider that are not resize handles, in their order.
pub open spec fn non_handles(parts: Seq<(u64, bool)>) -> Seq<u64>
    decreases parts.len(),
{
    if parts.len() == 0 {
        Seq::empty()
    } else if parts.last().1 {
        non_handles(parts.drop_last())
    } else {
        non_handles(parts.drop_last()).push(parts.last().0)
    }
}

/// What becomes of a divider whose children changed.
#[derive(PartialEq, Eq, Structural)]
pub enum DividerChange {
    /// It still splits two parts or more.
    Keep,
    /// It has no part left and goes.
    Despawn,
    /// It has one part left, which takes its place and size.
    Unwrap { part: u64 },
}

/// The change for a divider with these parts: each a child and whether it is
/// a resize handle.
pub open spec fn divider_change_of(parts: Seq<(u64, bool)>) -> DividerChange {
    let rest = non_handles(parts);
    if rest.len() == 0 {
        DividerChange::Despawn
    } else if rest.len() == 1 {
        DividerChange::Unwrap { part: rest[0] }
    } else {
        DividerChange::Keep
    }
}

/// Decides what becomes of a divider whose children changed.
pub fn remove_dividers(parts: &Vec<(u64, bool)>) -> (c: DividerChange)
    ensures
        c == divider_change_of(parts@),
{
    let mut first: Option<u64> = None;
    let mut count: usize = 0;
    let mut i: usize = 0;
    while i < parts.len()
        invariant
            i <= parts.len(),
            count <= i,
            (count as int) == if non_handles(parts@.take(i as int)).len() < 2 {
                non_handles(parts@.take(i as int)).len() as int
            } else {
                2int
            },
            count > 0 ==> first == Some(non_handles(parts@.take(i as int))[0]),
        decreases parts.len() - i,
    {
        proof {
            assert(parts@.take(i + 1).drop_last() =~= parts@.take(i as int));
            assert(parts@.take(i + 1).last() == parts@[i as int]);
            let prev = non_handles(parts@.take(i as int));
            if !parts@[i as int].1 && prev.len() > 0 {
                assert(prev.push(parts@[i as int].0)[0] == prev[0]);
            }
        }
        let (part, is_handle) = parts[i];
        if !is_handle {
            if count == 0 {
                first = Some(part);
                count = 1;
            } else if count == 1 {
                count = 2;
            }
        }
        i += 1;
    }
    proof {
        assert(parts@.take(parts@.len() as int) =~= parts@);
    }
    if count == 0 {
        DividerChange::Despawn
    } else if count == 1 {
        match first {
            Some(part) => DividerChange::Unwrap { part },
            None => DividerChange::Despawn,
        }
    } else {
        DividerChange::Keep
    }
}

/// The plugin that keeps the pane layout in order.
pub struct PaneLayoutPlugin;

} // verus!
