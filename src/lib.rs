//! Report generation engine of a security-assessment tracker: a directive and
//! markdown parser, a styled word wrapper, a two-pass page layout, and a LaTeX
//! back end, each with its behaviour stated and proved.
pub mod text;
pub mod inline;
pub mod markdown;
pub mod blocks;
pub mod model;
pub mod filters;
pub mod latex;
pub mod wrap;
pub mod layout;
pub mod dates;
pub mod images;
pub mod import;
pub mod query;
