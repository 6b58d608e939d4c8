//! The picker's interaction state and its three pointer handlers.
//!
//! The picker is idle or dragging. While it is dragging, a pointer sample
//! that lies on the wheel moves the cursor there and selects the colour of
//! that position; every other sample is ignored.

use crate::hex::{hex_color, is_hex_color, lemma_hex_color_well_formed, Rgb};
use crate::hsv::{hsv_to_hex, rgb_of_hsv, valid_hsv, UNIT};
use crate::wheel::{
    distance_squared, hue_from_angle, hue_of_angle, inside_wheel, lemma_saturation_in_range,
    lemma_wheel_in_square, saturation, saturation_of, within_wheel, CENTER,
};
use vstd::prelude::*;

verus! {

/// Where the widget's bounding box starts on the screen, in position units.
#[derive(Clone, Copy, Debug)]
pub struct Bounds {
    pub left: i64,
    pub top: i64,
}

/// What a picker holds: the selected colour as text, the cursor's position
/// within the widget, and whether a drag is under way.
pub struct PickerView {
    pub color: Seq<char>,
    pub x: int,
    pub y: int,
    pub dragging: bool,
}

/// The state of one colour picker.
pub struct PickerState {
    color: String,
    cursor_x: i64,
    cursor_y: i64,
    dragging: bool,
}

/// The state of a picker that has just been made: red, the cursor at the
/// centre, idle.
pub open spec fn initial() -> PickerView {
    PickerView { color: "#FF0000"@, x: CENTER as int, y: CENTER as int, dragging: false }
}

/// A state whose colour has the shape `#RRGGBB` and whose cursor lies on
/// the wheel.
pub open spec fn well_formed(s: PickerView) -> bool {
    is_hex_color(s.color) && within_wheel(s.x, s.y)
}

/// The state after the pointer went down: dragging, nothing else changed.
pub open spec fn after_pointer_down(s: PickerView) -> PickerView {
    PickerView { dragging: true, ..s }
}

/// The state after the pointer went up: idle, nothing else changed.
pub open spec fn after_pointer_up(s: PickerView) -> PickerView {
    PickerView { dragging: false, ..s }
}

/// The colour of the position `(x, y)` whose direction from the centre has
/// the given angle: hue from the angle, saturation from the distance, full
/// value.
pub open spec fn sample_color(x: int, y: int, angle: int) -> Seq<char> {
    hex_color(
        rgb_of_hsv(hue_from_angle(angle), saturation_of(distance_squared(x, y)), UNIT as int),
    )
}

/// The state after a pointer sample at screen position
/// `(pointer_x, pointer_y)`, with the widget at `(left, top)`. The sample
/// counts only during a drag and only if it lies on the wheel.
pub open spec fn after_pointer_move(
    s: PickerView,
    pointer_x: int,
    pointer_y: int,
    left: int,
    top: int,
    angle: int,
) -> PickerView {
    let x = pointer_x - left;
    let y = pointer_y - top;
    if s.dragging && within_wheel(x, y) {
        PickerView { color: sample_color(x, y, angle), x, y, dragging: true }
    } else {
        s
    }
}

/// A sample on the wheel stands for a hue below a full turn and a
/// saturation of at most one, whatever its angle.
pub proof fn lemma_sample_is_valid_hsv(x: int, y: int, angle: int)
    requires
        within_wheel(x, y),
    ensures
        valid_hsv(hue_from_angle(angle), saturation_of(distance_squared(x, y)), UNIT as int),
{
    let dx = x - CENTER;
    let dy = y - CENTER;
    assert(dx * dx >= 0 && dy * dy >= 0) by (nonlinear_arith);
    lemma_saturation_in_range(distance_squared(x, y));
}

/// A sample that is repeated changes nothing the second time.
pub proof fn lemma_pointer_move_idempotent(
    s: PickerView,
    pointer_x: int,
    pointer_y: int,
    left: int,
    top: int,
    angle: int,
)
    ensures
        after_pointer_move(
            after_pointer_move(s, pointer_x, pointer_y, left, top, angle),
            pointer_x,
            pointer_y,
            left,
            top,
            angle,
        ) == after_pointer_move(s, pointer_x, pointer_y, left, top, angle),
{
}

/// A press that is released at once leaves colour and cursor as they were,
/// and the picker idle.
pub proof fn lemma_press_then_release(s: PickerView)
    ensures
        after_pointer_up(after_pointer_down(s)) == (PickerView { dragging: false, ..s }),
{
}

/// The pointer handlers keep a well-formed state well-formed.
pub proof fn lemma_handlers_keep_well_formed(
    s: PickerView,
    pointer_x: int,
    pointer_y: int,
    left: int,
    top: int,
    angle: int,
)
    requires
        well_formed(s),
    ensures
        well_formed(after_pointer_down(s)),
        well_formed(after_pointer_up(s)),
        well_formed(after_pointer_move(s, pointer_x, pointer_y, left, top, angle)),
{
    let x = pointer_x - left;
    let y = pointer_y - top;
    let c: Rgb = rgb_of_hsv(
        hue_from_angle(angle),
        saturation_of(distance_squared(x, y)),
        UNIT as int,
    );
    lemma_hex_color_well_formed(c);
}

impl View for PickerState {
    type V = PickerView;

    closed spec fn view(&self) -> PickerView {
        PickerView {
            color: self.color@,
            x: self.cursor_x as int,
            y: self.cursor_y as int,
            dragging: self.dragging,
        }
    }
}

impl PickerState {
    /// A picker in its initial state.
    pub fn new() -> (p: PickerState)
        ensures
            p@ == initial(),
            well_formed(p@),
    {
        proof {
            reveal_strlit("#FF0000");
            assert(0 <= 1_500_000 * 1_500_000) by (nonlinear_arith);
        }
        PickerState {
            color: "#FF0000".to_owned(),
            cursor_x: CENTER,
            cursor_y: CENTER,
            dragging: false,
        }
    }

    /// The selected colour, as `#RRGGBB` text.
    pub fn color(&self) -> (c: &String)
        ensures
            c@ == self@.color,
    {
        &self.color
    }

    /// The cursor's position within the widget.
    pub fn cursor_position(&self) -> (p: (i64, i64))
        ensures
            p.0 == self@.x,
            p.1 == self@.y,
    {
        (self.cursor_x, self.cursor_y)
    }

    /// Whether a drag is under way.
    pub fn is_dragging(&self) -> (d: bool)
        ensures
            d == self@.dragging,
    {
        self.dragging
    }

    /// The pointer went down: a drag starts.
    pub fn on_pointer_down(&mut self)
        ensures
            final(self)@ == after_pointer_down(old(self)@),
    {
        self.dragging = true;
    }

    /// The pointer went up: the drag ends.
    pub fn on_pointer_up(&mut self)
        ensures
            final(self)@ == after_pointer_up(old(self)@),
    {
        self.dragging = false;
    }

    /// The pointer moved to the screen position `(pointer_x, pointer_y)`
    /// while the widget's bounding box is `bounds`; `angle` is the
    /// direction of the pointer from the wheel's centre in millidegrees,
    /// counted from the positive x axis towards the positive y axis.
    ///
    /// During a drag, a sample on the wheel (rim included) becomes the
    /// cursor and selects its colour. Any other sample leaves the state as
    /// it was.
    pub fn on_pointer_move(&mut self, pointer_x: i64, pointer_y: i64, bounds: Bounds, angle: i32)
        ensures
            final(self)@ == after_pointer_move(
                old(self)@,
                pointer_x as int,
                pointer_y as int,
                bounds.left as int,
                bounds.top as int,
                angle as int,
            ),
            !old(self)@.dragging ==> final(self)@ == old(self)@,
            !within_wheel(pointer_x - bounds.left, pointer_y - bounds.top) ==> final(self)@ == old(
                self,
            )@,
            old(self)@.dragging && within_wheel(pointer_x - bounds.left, pointer_y - bounds.top)
                ==> final(self)@.x == pointer_x - bounds.left && final(self)@.y == pointer_y
                - bounds.top && is_hex_color(final(self)@.color),
            well_formed(old(self)@) ==> well_formed(final(self)@),
    {
        proof {
            if well_formed(old(self)@) {
                lemma_handlers_keep_well_formed(
                    old(self)@,
                    pointer_x as int,
                    pointer_y as int,
                    bounds.left as int,
                    bounds.top as int,
                    angle as int,
                );
            }
        }
        if !self.dragging {
            return ;
        }
        let wide_x: i128 = (pointer_x as i128) - (bounds.left as i128);
        let wide_y: i128 = (pointer_y as i128) - (bounds.top as i128);
        let side: i128 = 2 * (CENTER as i128);
        if wide_x < 0 || wide_x > side || wide_y < 0 || wide_y > side {
            proof {
                if within_wheel(wide_x as int, wide_y as int) {
                    lemma_wheel_in_square(wide_x as int, wide_y as int);
                }
            }
            return ;
        }
        let x: i64 = wide_x as i64;
        let y: i64 = wide_y as i64;
        if !inside_wheel(x, y) {
            return ;
        }
        let s: u32 = saturation(x, y);
        let h: u32 = hue_of_angle(angle);
        self.color = hsv_to_hex(h, s, UNIT);
        self.cursor_x = x;
        self.cursor_y = y;
    }
}

} // verus!
