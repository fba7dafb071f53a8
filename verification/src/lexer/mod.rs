pub mod token;

pub use token::DocStringIndentationKind;
pub use token::DocStringKind;
