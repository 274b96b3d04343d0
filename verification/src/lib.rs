//! Styled text and trees for the terminal.
//!
//! A [`Text`] is composed piece by piece, colour and style sequences among
//! the pieces; a [`ColorMode`] decides whether the sequences are written at
//! all. A [`TreeNode`] is put together by builders, from the leaves up, and
//! drawn with connectors into a [`TextSink`].
//!
//! What a drawing is made of is said by `tree::rendered`, over the view of a
//! tree; what holds of every drawing is proved in `laws`.

pub mod builders;
pub mod colors;
pub mod indent;
pub mod laws;
pub mod sink;
pub mod text;
pub mod tree;

pub use builders::{leaf, node, LeafBuilder, LeafLineBuilder, NodeBuilder, NodeLineBuilder};
pub use colors::{Color, ColorMode, RgbColor};
pub use sink::{Recorded, TextSink, WriteError, Writer};
pub use text::{StyledText, Text};
pub use tree::{Level, TreeNode, TreeView};
