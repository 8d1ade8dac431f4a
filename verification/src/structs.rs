//! The four section codecs of the container, one module per section, each
//! owning the read-from-bytes and write-to-bytes logic for its section.

pub mod atr1;
pub mod header;
pub mod lbl1;
pub mod txt2;

pub use atr1::ATR1;
pub use header::Header;
pub use lbl1::LBL1;
pub use lbl1::Label;
pub use lbl1::LabelDef;
pub use txt2::TXT2;
