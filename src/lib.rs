pub mod annotate;
pub mod config;
pub mod model;
pub mod scan;
pub mod text;
pub mod types;
pub mod walk;

pub use annotate::UtoipaAnnotator;
pub use model::{Attr, Data, Decl, TypeExpr};
pub use scan::FieldTypeChecker;
pub use types::{Conversation, ImageDetail, ReasoningEffort};
pub use walk::{is_candidate_file, FileOutcome, Summary};
