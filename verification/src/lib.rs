//! Terminal creature viewer core: catalog queries, selection, glyph
//! rendering rules, and the bounded icon-retry state machine.

pub mod csvdata;
pub mod display;
pub mod glyphs;
pub mod records;
pub mod selection;
pub mod strutil;
pub mod update;
