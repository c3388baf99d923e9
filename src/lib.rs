//! Readable debug output: long identifiers are given short names, and the
//! debug text of any value is rewritten so that every identifier inside it
//! shows its registered name.
//!
//! A `NameContext` holds the registry of names, the short-ID cache and the
//! events to report. Leaves (`Nameable` or `AliasedId` values) are collected
//! from a value by `Rename` or `Aliasable`, and the value's debug text is
//! rendered with each leaf's text replaced by how it shows.

pub mod aliases;
pub mod collect;
pub mod ids;
pub mod laws;
pub mod leaf;
pub mod name;
pub mod registry;
pub mod render;
pub mod substitute;
pub mod table;
pub mod text;

pub use aliases::{
    alias_text_of, assert_prefix_unique, get_alias_string, Aliasable, Aliased, AliasedId, ShortId,
};
pub use aliases::Aliasable as ContainsAliases;
pub use collect::{collect_members, Member};
pub use ids::{Hex, Num};
pub use leaf::{get_name_string, AnyNameable, AnyNameableBounds, Nameable, CLOSE_BRACKET, OPEN_BRACKET};
pub use name::{bracketed, Name, NameKind};
pub use registry::{Event, NameContext, Shortener};
pub use render::{rename, rename_text, substitute, substitute_all, Rename, Renamed};
pub use substitute::{apply_matches, pretty_pattern, reindent, replace_all_literal};
pub use text::{chars_of, string_of};
