//! Branding for a CLI distributed under several names: the brand record with
//! its goose defaults, the interactive style it selects, and the rewriting of
//! help texts and command trees from the default product nouns to a brand's.
use vstd::prelude::*;

pub mod text;
pub mod phrase;
pub mod style;
pub mod brand;
pub mod rebrand;
pub mod help;
pub mod manifest;

pub use brand::Brand;
pub use help::apply_brand;
pub use style::InteractiveStyle;
pub mod parking;
pub mod laws;
