//! Which wallpapers the picker's carousel shows: the selected one and up to three on each
//! side, wrapping around the folder, and the slot each of them takes.
use vstd::prelude::*;
use crate::path::{path_eq, paths_equal};
use crate::shell::model::WallpaperItem;
use crate::shell::thumbnail::{dimensions, image_dimensions, image_dimensions_view, ThumbnailRole};

verus! {

/// How many cards the carousel shows on each side of the selected one.
pub const SIDE_SLOTS: isize = 3;

pub open spec fn abs_int(x: int) -> int {
    if x < 0 {
        -x
    } else {
        x
    }
}

/// The wallpaper `offset` places from the selected one, wrapping around: the selected one itself
/// at offset 0; none in a folder of fewer than two, or once the offset reaches around the folder.
pub open spec fn offset_index_spec(len: int, selected: int, offset: int) -> Option<int> {
    if offset == 0 && len > 0 {
        Some(selected % len)
    } else if len < 2 {
        None
    } else if abs_int(offset) >= len {
        None
    } else if offset < 0 {
        Some((selected + len - abs_int(offset)) % len)
    } else {
        Some((selected + offset) % len)
    }
}

pub fn offset_index(len: usize, selected: usize, offset: isize) -> (r: Option<usize>)
    requires
        selected + len <= usize::MAX,
    ensures
        match r {
            Some(i) => offset_index_spec(len as int, selected as int, offset as int) == Some(i as int),
            None => offset_index_spec(len as int, selected as int, offset as int) is None,
        },
{
    if offset == 0 && len > 0 {
        return Some(selected % len);
    }
    if len < 2 {
        return None;
    }
    let distance: usize = if offset < 0 {
        ((-(offset + 1)) as usize) + 1
    } else {
        offset as usize
    };
    assert(distance as int == abs_int(offset as int));
    if distance >= len {
        return None;
    }
    let index = if offset < 0 {
        (selected + len - distance) % len
    } else {
        (selected + distance) % len
    };
    Some(index)
}

/// A wallpaper the carousel shows: one within three places of the selected one.
pub open spec fn visible(len: int, selected: int, x: int) -> bool {
    exists|o: int| -SIDE_SLOTS <= o <= SIDE_SLOTS && #[trigger] offset_index_spec(len, selected, o) == Some(x)
}

/// Every card the carousel shows is a wallpaper of the folder, and the selected one (taken
/// around the folder) is always among them.
pub proof fn lemma_visible_cards(len: int, selected: int, x: int)
    requires
        len >= 0,
        selected >= 0,
    ensures
        visible(len, selected, x) ==> 0 <= x < len,
        len > 0 ==> visible(len, selected, selected % len),
{
    if visible(len, selected, x) {
        let o = choose|o: int| -SIDE_SLOTS <= o <= SIDE_SLOTS && #[trigger] offset_index_spec(len, selected, o) == Some(x);
        if o == 0 && len > 0 {
            assert(x == selected % len);
        } else if o < 0 {
            assert(x == (selected + len - abs_int(o)) % len);
        } else {
            assert(x == (selected + o) % len);
        }
    }
    if len > 0 {
        assert(offset_index_spec(len, selected, 0) == Some(selected % len));
    }
}

/// Strictly increasing positions.
pub open spec fn ascending(v: Seq<usize>) -> bool {
    forall|i: int, j: int| 0 <= i < j < v.len() ==> v[i] < v[j]
}

/// `v` with `x` put in its place, unless it is there already.
fn insert_ascending(v: &mut Vec<usize>, x: usize)
    requires
        ascending(old(v)@),
    ensures
        ascending(final(v)@),
        forall|y: usize| final(v)@.contains(y) <==> (old(v)@.contains(y) || y == x),
{
    let mut p: usize = 0;
    while p < v.len() && v[p] < x
        invariant
            0 <= p <= v@.len(),
            forall|k: int| 0 <= k < p ==> v@[k] < x,
        decreases v.len() - p,
    {
        p += 1;
    }
    let ghost before = v@;
    if p < v.len() && v[p] == x {
        assert(v@[p as int] == x);
        return;
    }
    v.insert(p, x);
    assert(v@ == before.insert(p as int, x));
    assert forall|a: int, b: int| 0 <= a < b < v@.len() implies v@[a] < v@[b] by {
        if b < p {
            assert(v@[a] == before[a] && v@[b] == before[b]);
        } else if b == p {
            assert(v@[a] == before[a]);
        } else if a < p {
            assert(v@[a] == before[a] && v@[b] == before[b - 1]);
        } else if a == p {
            assert(v@[b] == before[b - 1]);
            assert(before[p as int] >= x);
            if b - 1 > p {
                assert(before[p as int] < before[b - 1]);
            }
        } else {
            assert(v@[a] == before[a - 1] && v@[b] == before[b - 1]);
        }
    }
    assert(before == old(v)@);
    assert forall|y: usize| v@.contains(y) <==> (before.contains(y) || y == x) by {
        if v@.contains(y) {
            let k = choose|k: int| 0 <= k < v@.len() && v@[k] == y;
            if k < p {
                assert(before[k] == y);
            } else if k > p {
                assert(before[k - 1] == y);
            }
        }
        if before.contains(y) {
            let k = choose|k: int| 0 <= k < before.len() && before[k] == y;
            if k < p {
                assert(v@[k] == y);
            } else {
                assert(v@[k + 1] == y);
            }
        }
        if y == x {
            assert(v@[p as int] == y);
        }
    }
    assert(forall|y: usize| v@.contains(y) <==> (old(v)@.contains(y) || y == x));
}

/// The wallpapers the carousel shows, in folder order, each once.
pub fn visible_indexes(len: usize, selected: usize) -> (r: Vec<usize>)
    requires
        selected + len <= usize::MAX,
    ensures
        ascending(r@),
        forall|x: usize| r@.contains(x) <==> visible(len as int, selected as int, x as int),
{
    let mut out: Vec<usize> = Vec::new();
    let mut o: isize = -SIDE_SLOTS;
    while o <= SIDE_SLOTS
        invariant
            selected + len <= usize::MAX,
            -SIDE_SLOTS <= o <= SIDE_SLOTS + 1,
            ascending(out@),
            forall|x: usize|
                out@.contains(x) <==> exists|q: int|
                    -SIDE_SLOTS <= q < o && #[trigger] offset_index_spec(len as int, selected as int, q) == Some(
                        x as int,
                    ),
        decreases SIDE_SLOTS + 1 - o,
    {
        let ghost before = out@;
        let found = offset_index(len, selected, o);
        match found {
            Some(i) => {
                insert_ascending(&mut out, i);
            },
            None => {},
        }
        assert forall|x: usize|
            out@.contains(x) <==> exists|q: int|
                -SIDE_SLOTS <= q < o + 1 && #[trigger] offset_index_spec(len as int, selected as int, q) == Some(
                    x as int,
                ) by {
            if exists|q: int|
                -SIDE_SLOTS <= q < o + 1 && #[trigger] offset_index_spec(len as int, selected as int, q) == Some(
                    x as int,
                ) {
                let q = choose|q: int|
                    -SIDE_SLOTS <= q < o + 1 && #[trigger] offset_index_spec(len as int, selected as int, q)
                        == Some(x as int);
                if q < o {
                    assert(before.contains(x));
                } else {
                    assert(found == Some(x));
                }
            }
            if out@.contains(x) {
                if before.contains(x) {
                    let q = choose|q: int|
                        -SIDE_SLOTS <= q < o && #[trigger] offset_index_spec(len as int, selected as int, q)
                            == Some(x as int);
                    assert(-SIDE_SLOTS <= q < o + 1);
                } else {
                    assert(found == Some(x));
                    assert(offset_index_spec(len as int, selected as int, o as int) == Some(x as int));
                }
            }
        }
        o += 1;
    }
    assert forall|x: usize| out@.contains(x) <==> visible(len as int, selected as int, x as int) by {
        if out@.contains(x) {
            let q = choose|q: int|
                -SIDE_SLOTS <= q < o && #[trigger] offset_index_spec(len as int, selected as int, q) == Some(
                    x as int,
                );
            assert(visible(len as int, selected as int, x as int));
        }
        if visible(len as int, selected as int, x as int) {
            let q = choose|q: int|
                -SIDE_SLOTS <= q <= SIDE_SLOTS && #[trigger] offset_index_spec(len as int, selected as int, q)
                    == Some(x as int);
            assert(-SIDE_SLOTS <= q < o);
        }
    }
    out
}

/// The first slot, from the left, at or after `o` that shows wallpaper `index`.
pub open spec fn first_slot(len: int, selected: int, index: int, o: int) -> Option<int>
    decreases SIDE_SLOTS + 1 - o,
{
    if o > SIDE_SLOTS {
        None
    } else if offset_index_spec(len, selected, o) == Some(index) {
        Some(o)
    } else {
        first_slot(len, selected, index, o + 1)
    }
}

/// The slot (from -3 to 3) that shows wallpaper `index`: the leftmost one when several do.
pub fn slot_for_index(len: usize, selected: usize, index: usize) -> (r: Option<isize>)
    requires
        selected + len <= usize::MAX,
    ensures
        match r {
            Some(s) => first_slot(len as int, selected as int, index as int, -SIDE_SLOTS as int) == Some(s as int),
            None => first_slot(len as int, selected as int, index as int, -SIDE_SLOTS as int) is None,
        },
{
    let mut o: isize = -SIDE_SLOTS;
    while o <= SIDE_SLOTS
        invariant
            selected + len <= usize::MAX,
            -SIDE_SLOTS <= o <= SIDE_SLOTS + 1,
            first_slot(len as int, selected as int, index as int, -SIDE_SLOTS as int) == first_slot(
                len as int,
                selected as int,
                index as int,
                o as int,
            ),
        decreases SIDE_SLOTS + 1 - o,
    {
        match offset_index(len, selected, o) {
            Some(i) => {
                if i == index {
                    return Some(o);
                }
            },
            None => {},
        }
        o += 1;
    }
    None
}

/// A card is the wallpaper the desktop shows: it shows a wallpaper, and that wallpaper is (as a
/// path) the active one.
pub fn is_active(items: &[WallpaperItem], index: Option<usize>, active: Option<&str>) -> (r: bool)
    requires
        index matches Some(i) ==> i < items@.len(),
    ensures
        r == (index is Some && active is Some && path_eq(items@[index.unwrap() as int].path@, active.unwrap()@)),
{
    match (index, active) {
        (Some(i), Some(a)) => paths_equal(items[i].path.as_str(), a),
        _ => false,
    }
}

/// The width of the carousel's stage, in pixels.
pub const STAGE_WIDTH: i32 = 860;

/// The height of the carousel's stage, in pixels.
pub const STAGE_HEIGHT: i32 = 204;

/// How far neighbouring cards' images overlap when at rest, in pixels.
pub const SLOT_IMAGE_OVERLAP: i32 = 18;

/// The card's role for a slot, the slot taken to the nearest whole place: the selected one at
/// 0, the neighbours at one and two places, and the outer ones beyond.
pub open spec fn role_for_slot_view(slot: int) -> ThumbnailRole {
    if slot == 0 {
        ThumbnailRole::Selected
    } else if slot == -1 {
        ThumbnailRole::Previous
    } else if slot == 1 {
        ThumbnailRole::Next
    } else if slot == -2 {
        ThumbnailRole::FarPrevious
    } else if slot == 2 {
        ThumbnailRole::FarNext
    } else if slot < 0 {
        ThumbnailRole::OuterPrevious
    } else {
        ThumbnailRole::OuterNext
    }
}

pub fn role_for_slot(slot: isize) -> (r: ThumbnailRole)
    ensures
        r == role_for_slot_view(slot as int),
{
    if slot == 0 {
        ThumbnailRole::Selected
    } else if slot == -1 {
        ThumbnailRole::Previous
    } else if slot == 1 {
        ThumbnailRole::Next
    } else if slot == -2 {
        ThumbnailRole::FarPrevious
    } else if slot == 2 {
        ThumbnailRole::FarNext
    } else if slot < 0 {
        ThumbnailRole::OuterPrevious
    } else {
        ThumbnailRole::OuterNext
    }
}

/// The room a card with an image of the given size takes: the image with the same shadow room
/// that the selected card keeps.
pub fn allocation_dimensions(image_width: i32, image_height: i32) -> (r: (i32, i32))
    requires
        image_width + 84 <= i32::MAX,
        image_height + 54 <= i32::MAX,
    ensures
        r.0 == image_width + 84,
        r.1 == image_height + 54,
{
    let (selected_image_width, selected_image_height) = image_dimensions(ThumbnailRole::Selected);
    let (selected_width, selected_height) = dimensions(ThumbnailRole::Selected);
    (image_width + (selected_width - selected_image_width), image_height + (selected_height - selected_image_height))
}

/// The image width of the card resting in `slot`.
pub open spec fn resting_width(slot: int) -> int {
    image_dimensions_view(role_for_slot_view(slot)).0 as int
}

pub fn image_width_for_resting_slot(slot: isize) -> (r: i32)
    ensures
        r == resting_width(slot as int),
{
    let (width, _) = image_dimensions(role_for_slot(slot));
    width
}

/// How far the centre of the card resting in `slot + 1` stands right of the one in `slot`:
/// half of each image, less the overlap.
pub open spec fn center_step(slot: int) -> int {
    (resting_width(slot) + resting_width(slot + 1)) / 2 - SLOT_IMAGE_OVERLAP
}

/// How far the centre of the card resting in `end` stands right of the one in `start`.
pub open spec fn center_distance(start: int, end: int) -> int
    decreases end - start,
{
    if end <= start {
        0
    } else {
        center_distance(start, end - 1) + center_step(end - 1)
    }
}

pub fn center_distance_between_slots(start: isize, end: isize) -> (r: i32)
    requires
        -SIDE_SLOTS <= start <= SIDE_SLOTS,
        -SIDE_SLOTS <= end <= SIDE_SLOTS,
    ensures
        r == center_distance(start as int, end as int),
        0 <= r <= 1200,
{
    if start == end {
        return 0;
    }
    let mut distance: i32 = 0;
    let mut slot: isize = start;
    while slot < end
        invariant
            -SIDE_SLOTS <= start <= SIDE_SLOTS,
            -SIDE_SLOTS <= end <= SIDE_SLOTS,
            start <= slot,
            slot == start || slot <= end,
            distance == center_distance(start as int, slot as int),
            0 <= distance <= 200 * (slot - start),
        decreases end - slot,
    {
        let left_width = image_width_for_resting_slot(slot);
        let right_width = image_width_for_resting_slot(slot + 1);
        distance = distance + ((left_width + right_width) / 2 - SLOT_IMAGE_OVERLAP);
        slot = slot + 1;
    }
    distance
}

/// Where the centre of the card resting in `slot` (held to -3 to 3) stands on the stage: the
/// selected card in the middle, the others the summed steps to its left or right.
pub open spec fn slot_center_view(slot: int) -> int {
    let s = if slot < -SIDE_SLOTS { -SIDE_SLOTS as int } else if slot > SIDE_SLOTS { SIDE_SLOTS as int } else { slot };
    if s < 0 {
        STAGE_WIDTH / 2 - center_distance(s, 0)
    } else {
        STAGE_WIDTH / 2 + center_distance(0, s)
    }
}

pub fn center_for_slot(slot: isize) -> (r: i32)
    ensures
        r == slot_center_view(slot as int),
{
    let s: isize = if slot < -SIDE_SLOTS {
        -SIDE_SLOTS
    } else if slot > SIDE_SLOTS {
        SIDE_SLOTS
    } else {
        slot
    };
    let selected_center: i32 = STAGE_WIDTH / 2;
    if s < 0 {
        selected_center - center_distance_between_slots(s, 0)
    } else {
        selected_center + center_distance_between_slots(0, s)
    }
}

/// Cards at rest overlap their neighbours by the same amount all along the carousel: the right
/// edge of each image stands `SLOT_IMAGE_OVERLAP` past the left edge of the next (counted in
/// half pixels, so that halves of odd widths stay whole).
pub proof fn lemma_resting_cards_overlap_evenly(slot: int)
    requires
        -SIDE_SLOTS <= slot < SIDE_SLOTS,
    ensures
        (2 * slot_center_view(slot) + resting_width(slot)) - (2 * slot_center_view(slot + 1) - resting_width(slot + 1))
            == 2 * SLOT_IMAGE_OVERLAP,
{
    reveal_with_fuel(center_distance, 4);
}

} // verus!
