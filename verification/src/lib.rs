//! Terminal selection and pagination engine: anchored, scroll-compensated
//! in-place redraw; hierarchical tri-state multi-select lists; a paginated
//! line viewer with incremental search; and the scoped raw-mode session
//! that guarantees clean restoration on every exit path.
//!
//! The widgets are pure state machines: one keystroke (or one terminal
//! failure) is one verified step. The caller owns the redraw/input loop —
//! it reads keys, writes the rendered rows, and mirrors the session flags
//! on the real terminal — while every decision, every piece of row text,
//! and the session discipline itself are computed and proved here.

pub mod anchor;
pub mod clsets;
pub mod items;
pub mod pager;
pub mod records;
pub mod render;
pub mod select;
pub mod session;
pub mod strings;
pub mod text;
pub mod tracklist;
