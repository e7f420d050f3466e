use vstd::prelude::*;
use crate::ids::{MarkerId, ProjectId};
use crate::marker::{MarkerGeometry, MarkerStyle, MarkerView};
use crate::events::EventView;
use crate::undo_actions::ActionView;
use crate::marker_service::{with_marker, point_of, rect_of, anchor_of};
use crate::undo_performer::{
    CoreView, undone, geometry_undone, law_undo_restores_translation, law_undo_restores_style,
    law_undo_restores_point_position, law_undo_restores_rectangle_geometry, law_undo_restores_point_marker,
    law_undo_removes_added_marker,
};
use crate::undo_service::event_action;
use crate::state::page_list;
use crate::marker_laws::lemma_moved_pointwise;
use crate::ids::ImageId;

verus! {

/// The stores after marker `id` is replaced by `m`.
pub open spec fn with_edited_marker(o: CoreView, id: MarkerId, m: MarkerView) -> CoreView {
    CoreView { markers: with_marker(o.markers, id, m), ..o }
}

/// Undoing the action that the history records for a style change puts the
/// style back: when marker `id` of `o` gets layout `style` (announced as
/// `MarkerStyleUpdated` from its old layout to `style`), the event is
/// recorded on the marker's page, and undoing the recorded action on the
/// edited stores gives back `o`.
pub proof fn law_recorded_style_change_undoes(
    o: CoreView,
    n: CoreView,
    oe: Seq<EventView>,
    ne: Seq<EventView>,
    pid: ProjectId,
    id: MarkerId,
    style: MarkerStyle,
    r: ActionView,
)
    requires
        o.markers.markers.contains_key(id),
        ({
            let after = with_edited_marker(o, id, MarkerView { style, ..o.markers.markers[id] });
            let ev = EventView::MarkerStyleUpdated { id, old_style: o.markers.markers[id].style, new_style: style };
            event_action(ev, after.markers.markers) matches Some((_, a)) && undone(after, n, oe, ne, pid, a, r)
        }),
    ensures
        ({
            let after = with_edited_marker(o, id, MarkerView { style, ..o.markers.markers[id] });
            let ev = EventView::MarkerStyleUpdated { id, old_style: o.markers.markers[id].style, new_style: style };
            event_action(ev, after.markers.markers) matches Some((img, _)) && img == o.markers.markers[id].image_id
        }),
        n == o,
{
    law_undo_restores_style(o, n, oe, ne, pid, id, style, r);
}

/// Undoing the action recorded for a translation change puts the
/// translation back (see `law_recorded_style_change_undoes`).
pub proof fn law_recorded_translation_change_undoes(
    o: CoreView,
    n: CoreView,
    oe: Seq<EventView>,
    ne: Seq<EventView>,
    pid: ProjectId,
    id: MarkerId,
    t: Seq<char>,
    r: ActionView,
)
    requires
        o.markers.markers.contains_key(id),
        ({
            let after = with_edited_marker(o, id, MarkerView { translation: t, ..o.markers.markers[id] });
            let ev = EventView::MarkerTranslationUpdated {
                id,
                old_trans: o.markers.markers[id].translation,
                new_trans: t,
            };
            event_action(ev, after.markers.markers) matches Some((_, a)) && undone(after, n, oe, ne, pid, a, r)
        }),
    ensures
        ({
            let after = with_edited_marker(o, id, MarkerView { translation: t, ..o.markers.markers[id] });
            let ev = EventView::MarkerTranslationUpdated {
                id,
                old_trans: o.markers.markers[id].translation,
                new_trans: t,
            };
            event_action(ev, after.markers.markers) matches Some((img, _)) && img == o.markers.markers[id].image_id
        }),
        n == o,
{
    law_undo_restores_translation(o, n, oe, ne, pid, id, t, r);
}

/// Undoing the action recorded for a move of a point marker puts the point
/// back.
pub proof fn law_recorded_point_move_undoes(
    o: CoreView,
    n: CoreView,
    oe: Seq<EventView>,
    ne: Seq<EventView>,
    id: MarkerId,
    x: u64,
    y: u64,
    r: ActionView,
)
    requires
        o.markers.markers.contains_key(id),
        point_of(o.markers.markers[id].geometry) is Some,
        ({
            let after = with_edited_marker(
                o,
                id,
                MarkerView { geometry: MarkerGeometry::Point { x, y }, ..o.markers.markers[id] },
            );
            let ev = EventView::PointMarkerPositionUpdated {
                id,
                old_pos: anchor_of(o.markers.markers[id].geometry),
                new_pos: (x, y),
            };
            event_action(ev, after.markers.markers) matches Some((_, a)) && geometry_undone(after, n, oe, ne, a, r)
        }),
    ensures
        n == o,
{
    law_undo_restores_point_position(o, n, oe, ne, id, x, y, r);
}

/// Undoing the action recorded for a change of a rectangle puts the
/// rectangle back.
pub proof fn law_recorded_rectangle_change_undoes(
    o: CoreView,
    n: CoreView,
    oe: Seq<EventView>,
    ne: Seq<EventView>,
    pid: ProjectId,
    id: MarkerId,
    g: (u64, u64, u64, u64),
    r: ActionView,
)
    requires
        o.markers.markers.contains_key(id),
        rect_of(o.markers.markers[id].geometry) is Some,
        ({
            let after = with_edited_marker(
                o,
                id,
                MarkerView {
                    geometry: MarkerGeometry::Rectangle { x: g.0, y: g.1, width: g.2, height: g.3 },
                    ..o.markers.markers[id]
                },
            );
            let ev = EventView::RectangleGeometryUpdated {
                id,
                old_geometry: rect_of(o.markers.markers[id].geometry)->0,
                new_geometry: g,
            };
            event_action(ev, after.markers.markers) matches Some((_, a)) && undone(after, n, oe, ne, pid, a, r)
        }),
    ensures
        n == o,
{
    law_undo_restores_rectangle_geometry(o, n, oe, ne, pid, id, g, r);
}

/// Undoing the action recorded for a full update of a point marker (its
/// position, text and layout) puts all three back.
pub proof fn law_recorded_point_update_undoes(
    o: CoreView,
    n: CoreView,
    oe: Seq<EventView>,
    ne: Seq<EventView>,
    id: MarkerId,
    pos: (u64, u64),
    t: Seq<char>,
    style: MarkerStyle,
    r: ActionView,
)
    requires
        o.markers.markers.contains_key(id),
        point_of(o.markers.markers[id].geometry) is Some,
        ({
            let m = o.markers.markers[id];
            let after = with_edited_marker(
                o,
                id,
                MarkerView { geometry: MarkerGeometry::Point { x: pos.0, y: pos.1 }, translation: t, style, ..m },
            );
            let ev = EventView::MarkerFullUpdated {
                id,
                old_position: anchor_of(m.geometry),
                new_position: pos,
                old_translation: m.translation,
                new_translation: t,
                old_style: m.style,
                new_style: style,
            };
            event_action(ev, after.markers.markers) matches Some((_, a)) && geometry_undone(after, n, oe, ne, a, r)
        }),
    ensures
        n == o,
{
    law_undo_restores_point_marker(o, n, oe, ne, id, pos, t, style, r);
}

/// Undoing the action recorded for a move of a marker within its page puts
/// the marker back at its old index: `o` holds the marker at the index it
/// was moved to (announced as `MarkerOrderMoved` from `old_index`), and
/// undoing the recorded action gives it `old_index` again.
pub proof fn law_recorded_order_move_undoes(
    o: CoreView,
    n: CoreView,
    oe: Seq<EventView>,
    ne: Seq<EventView>,
    pid: ProjectId,
    id: MarkerId,
    img: ImageId,
    old_index: u32,
    r: ActionView,
)
    requires
        o.markers.markers.contains_key(id),
        o.markers.markers[id].id == id,
        page_list(o.markers.by_image, o.markers.markers[id].image_id).no_duplicates(),
        page_list(o.markers.by_image, o.markers.markers[id].image_id).contains(id),
        o.markers.markers[id].image_index != old_index,
        ({
            let ev = EventView::MarkerOrderMoved {
                id,
                image_id: img,
                old_index,
                new_index: o.markers.markers[id].image_index,
            };
            event_action(ev, o.markers.markers) matches Some((_, a)) && undone(o, n, oe, ne, pid, a, r)
        }),
    ensures
        n.markers.markers.contains_key(id),
        n.markers.markers[id].image_index == old_index,
        n.markers.by_image == o.markers.by_image,
{
    let m = o.markers.markers[id];
    lemma_moved_pointwise(
        o.markers.markers,
        page_list(o.markers.by_image, m.image_id),
        id,
        m.image_index,
        old_index,
    );
}

/// Undoing the action recorded for an added marker takes that marker away
/// again: after marker `mid` is added to page `img` (the stores `o`), the
/// recorded action, undone on `o`, leaves no marker `mid` and no `mid` on
/// its page.
pub proof fn law_recorded_addition_undoes(
    o: CoreView,
    n: CoreView,
    oe: Seq<EventView>,
    ne: Seq<EventView>,
    pid: ProjectId,
    img: ImageId,
    mid: MarkerId,
    r: ActionView,
)
    requires
        o.markers.markers.contains_key(mid),
        o.markers.markers[mid].id == mid,
        event_action(EventView::MarkerAddedToImage(img, mid), o.markers.markers) matches Some((_, a)) && undone(
            o,
            n,
            oe,
            ne,
            pid,
            a,
            r,
        ),
    ensures
        !n.markers.markers.contains_key(mid),
        !page_list(n.markers.by_image, o.markers.markers[mid].image_id).contains(mid),
{
    law_undo_removes_added_marker(o, n, oe, ne, pid, o.markers.markers[mid], r);
}

/// Undoing the action recorded for a removed marker puts that marker back,
/// as it was, at the end of its page's list.
pub proof fn law_recorded_removal_undoes(
    o: CoreView,
    n: CoreView,
    oe: Seq<EventView>,
    ne: Seq<EventView>,
    pid: ProjectId,
    img: ImageId,
    m: MarkerView,
    r: ActionView,
)
    requires
        event_action(EventView::MarkerRemovedFromImage(img, m.id, m), o.markers.markers) matches Some((_, a))
            && undone(o, n, oe, ne, pid, a, r),
    ensures
        n.markers.markers.contains_key(m.id),
        n.markers.markers[m.id] == m,
        page_list(n.markers.by_image, m.image_id) == page_list(o.markers.by_image, m.image_id).push(m.id),
{
}

} // verus!
