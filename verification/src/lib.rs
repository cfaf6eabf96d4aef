//! The logic of a desktop shell around the Discord web app: the messages the
//! page sends to the shell, the decisions of the shell's event loop, the tray
//! badge, and the pixel work that turns the tray glyph into its badged form.

pub mod agent;
pub mod badge;
pub mod controller;
pub mod icons;
pub mod ipc;
pub mod pixels;
pub mod window;

pub use agent::{user_agent, TargetOs};
pub use badge::{badge_appearance, badge_label_text, BadgeAppearance};
pub use controller::{Action, Controller, LoopEvent, MenuChoice};
pub use icons::{badge_pixels, decode_rgba, IconCache, RgbaPixels};
pub use ipc::{is_loaded_message, parse_ipc_message, parse_u32, BadgeState, UserEvent};
pub use pixels::{draw_red_dot, whiten_opaque_pixels, DotPixel, DotShape};
pub use window::WindowBuilder;
