pub mod parser;
pub mod renderer;
pub mod segment;

pub use parser::MarkdownProcessor;
pub use renderer::HtmlRenderer;
pub use segment::{Segment, SegmentView};
