//! The tray icon's picture and the events of its menu.

use crate::text::str_equal;
use vstd::prelude::*;

verus! {

/// What the user asked for through the tray menu.
#[derive(Clone, Copy, Debug, PartialEq, Eq, Structural)]
pub enum TrayEvent {
    Show,
    Hide,
    Quit,
}

/// The side of the icon, in pixels.
pub const ICON_SIZE: usize = 16;

/// Whether the pixel in column `x` and row `y` lies in the icon's disc:
/// nearer than six pixels to the point (8, 8).
pub open spec fn in_disc(x: int, y: int) -> bool {
    (x - 8) * (x - 8) + (y - 8) * (y - 8) < 36
}

/// The byte at index `i` of the icon: four bytes a pixel, red, green, blue
/// and opacity, row by row. The disc is an opaque blue, the rest is clear.
pub open spec fn icon_byte(i: int) -> u8 {
    let pixel = i / 4;
    if in_disc(pixel % 16, pixel / 16) {
        if i % 4 == 0 {
            59
        } else if i % 4 == 1 {
            130
        } else if i % 4 == 2 {
            246
        } else {
            255
        }
    } else {
        0
    }
}

/// The icon: a blue disc on a clear ground, sixteen pixels square.
pub fn create_simple_icon() -> (rgba: Vec<u8>)
    ensures
        rgba@.len() == 16 * 16 * 4,
        forall|i: int| 0 <= i < rgba@.len() ==> #[trigger] rgba@[i] == icon_byte(i),
{
    let mut rgba: Vec<u8> = Vec::new();
    let mut y: usize = 0;
    while y < ICON_SIZE
        invariant
            y <= 16,
            rgba@.len() == y * 64,
            forall|i: int| 0 <= i < rgba@.len() ==> #[trigger] rgba@[i] == icon_byte(i),
        decreases 16 - y,
    {
        let mut x: usize = 0;
        while x < ICON_SIZE
            invariant
                y < 16,
                x <= 16,
                rgba@.len() == y * 64 + x * 4,
                forall|i: int| 0 <= i < rgba@.len() ==> #[trigger] rgba@[i] == icon_byte(i),
            decreases 16 - x,
        {
            let dx: i32 = x as i32 - 8;
            let dy: i32 = y as i32 - 8;
            proof {
                assert(0 <= dx * dx <= 64) by (nonlinear_arith)
                    requires
                        -8 <= dx <= 8,
                ;
                assert(0 <= dy * dy <= 64) by (nonlinear_arith)
                    requires
                        -8 <= dy <= 8,
                ;
            }
            let inside: bool = dx * dx + dy * dy < 36;
            let ghost base: int = rgba@.len() as int;
            proof {
                assert(base == (y * 16 + x) * 4);
                assert((base + 0) / 4 == y * 16 + x && (base + 1) / 4 == y * 16 + x && (base + 2)
                    / 4 == y * 16 + x && (base + 3) / 4 == y * 16 + x);
                assert((y * 16 + x) % 16 == x && (y * 16 + x) / 16 == y);
                assert(inside == in_disc(x as int, y as int));
            }
            if inside {
                rgba.push(59);
                rgba.push(130);
                rgba.push(246);
                rgba.push(255);
            } else {
                rgba.push(0);
                rgba.push(0);
                rgba.push(0);
                rgba.push(0);
            }
            x += 1;
        }
        y += 1;
    }
    rgba
}

/// The event that the menu item `id` stands for, if it is one of the three
/// items given; of items with the same id the first counts.
pub fn event_for_menu_item(id: &str, show_id: &str, hide_id: &str, quit_id: &str) -> (r: Option<
    TrayEvent,
>)
    ensures
        r == if id@ == show_id@ {
            Some(TrayEvent::Show)
        } else if id@ == hide_id@ {
            Some(TrayEvent::Hide)
        } else if id@ == quit_id@ {
            Some(TrayEvent::Quit)
        } else {
            None
        },
{
    if str_equal(id, show_id) {
        Some(TrayEvent::Show)
    } else if str_equal(id, hide_id) {
        Some(TrayEvent::Hide)
    } else if str_equal(id, quit_id) {
        Some(TrayEvent::Quit)
    } else {
        None
    }
}

} // verus!
