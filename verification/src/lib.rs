//! Tag-grouped changelogs from a walked commit history.
//!
//! The crate classifies the commits of a history walk into release sections,
//! groups the commits of a pull request under the merge commit that brought
//! them in, and writes the result as Markdown-flavoured text.
//!
//! - [`repository`] builds the tag index and the list of walked commits from
//!   what was read of the repository.
//! - [`machine`] holds the assembler: it is handed one commit after the
//!   other, asks for what it needs to know of the hosting service, and keeps
//!   the entries written so far.
//! - [`process`] assembles a whole walk whose answers are at hand.
//! - [`render`] writes entries as text.
//! - [`assembly`] says over views what the assembler does; [`laws`] and
//!   [`round_trip`] prove what holds of every changelog.

pub mod assembly;
pub mod date;
pub mod directory;
pub mod keyed;
pub mod laws;
pub mod machine;
pub mod model;
pub mod process;
pub mod render;
pub mod repository;
pub mod round_trip;
pub mod text;
