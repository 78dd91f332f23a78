//! The widget catalogue's foundation, as verified logic: keyboard and pointer state, list navigation, reordering, the plan a keyed list reconciles by, the press gesture, exits in flight, and the small registries the widgets share.

mod fx;

pub mod dispatch;
pub mod keyboard;
pub mod keynav;
pub mod keys;
pub mod layout_item;
pub mod lazy;
pub mod link;
pub mod named_overlay;
pub mod names;
pub mod overlay;
pub mod pointer;
pub mod presence;
pub mod press;
pub mod reconcile;
pub mod reorder;
pub mod row_keys;
pub mod scroll_gesture;
pub mod scroll_region;
pub mod section;
pub mod serial;
pub mod slots;
pub mod styled_container;
pub mod surface;

pub use keyboard::{Keyboard, end_frame, end_frame as end_keyboard_frame, reset, reset as reset_keyboard};
pub use keynav::{KeyNav, KeyNavMove, key_nav_apply, key_nav_apply_grid};
pub use keys::{Event, Key, ModifiersState, NamedKey, PointerButton};
pub use layout_item::{ClipAxis, ClipPointer};
pub use link::{AnchorRegistration, Anchors, register_anchor, reveal_anchor};
pub use named_overlay::{NamedOverlays, close as close_overlay, open as open_overlay};
pub use overlay::Placement;
pub use pointer::{PointerButtons, PointerState, pointer_buttons, reset_pointer};
pub use reorder::{Axis, apply_move};
pub use scroll_region::{ScrollRegionId, ScrollRegions, unregister_scroll_region};
pub use section::{Heading, Section};
pub use slots::Slots;
pub use styled_container::{KeyAnswer, PAINT_STATES, PaintState};
pub use surface::Edge;
