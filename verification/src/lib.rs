//! A retained-mode UI widget tree: a hierarchy of boxes that size, position,
//! animate and render themselves every frame.
//!
//! The tree is built from [`UiElement`] nodes. Each node carries a [`Layout`]
//! (alignment, offset, sizing policy, padding), [`Visuals`] for its background,
//! a draw cache that memoizes the geometry of the last frame, and a serial
//! queue of [`Transition`]s that blend layout and visuals over time.
//! Containers ([`containers::VerticalBox`], [`containers::HorizontalBox`],
//! [`containers::StackBox`], [`containers::GridBox`], [`containers::DurationBox`])
//! split their space among children with a two-phase water-filling allocator.
//!
//! All geometry is computed over integer units (see [`units`]): lengths are
//! capped at [`units::LEN_MAX`], which doubles as the "unbounded" bound of a
//! growing element. The draw cycle does not paint; it emits [`DrawCommand`]s
//! that a render backend executes.

pub mod containers;
pub mod distribution;
pub mod draw_cache;
pub mod layout;
pub mod message;
pub mod scene_manager;
pub mod sprite;
pub mod tiny;
pub mod transition;
pub mod ui_element;
pub mod ui_element_builder;
pub mod units;
pub mod visuals;

pub use draw_cache::DrawCache;
pub use layout::Alignment;
pub use layout::Layout;
pub use layout::Rect;
pub use layout::Size;
pub use message::UiMessage;
pub use message::UiMessageSet;
pub use scene_manager::SceneManager;
pub use scene_manager::SceneSwitch;
pub use sprite::Sprite;
pub use transition::Transition;
pub use ui_element::DrawCommand;
pub use ui_element::FrameInput;
pub use ui_element::HandlerRule;
pub use ui_element::UiContent;
pub use ui_element::UiDrawParam;
pub use ui_element::UiElement;
pub use ui_element::UiError;
pub use ui_element_builder::UiElementBuilder;
pub use units::Frac;
pub use units::Ratio;
pub use visuals::Color;
pub use visuals::Visuals;
