use vstd::prelude::*;

use vstd::string::StringExecFns;

verus! {

/// Errors of the library. Those that arise outside it (I/O, the network,
/// serialisation) carry the outside error's message.
#[derive(Debug, Clone, PartialEq, Eq)]
pub enum MdTranslateError {
    OllamaError(String),
    CacheError(String),
    MarkdownError(String),
    IoError(String),
    NetworkError(String),
    SerdeError(String),
}

pub type Result<T> = core::result::Result<T, MdTranslateError>;

impl MdTranslateError {
    /// The prefix that names the kind of error in its message.
    pub open spec fn label(&self) -> Seq<char> {
        match self {
            MdTranslateError::OllamaError(_) => "Ollama API error: "@,
            MdTranslateError::CacheError(_) => "Cache error: "@,
            MdTranslateError::MarkdownError(_) => "Markdown parsing error: "@,
            MdTranslateError::IoError(_) => "IO error: "@,
            MdTranslateError::NetworkError(_) => "Network error: "@,
            MdTranslateError::SerdeError(_) => "Serialization error: "@,
        }
    }

    pub open spec fn detail(&self) -> Seq<char> {
        match self {
            MdTranslateError::OllamaError(m) => m@,
            MdTranslateError::CacheError(m) => m@,
            MdTranslateError::MarkdownError(m) => m@,
            MdTranslateError::IoError(m) => m@,
            MdTranslateError::NetworkError(m) => m@,
            MdTranslateError::SerdeError(m) => m@,
        }
    }

    /// The message shown for the error: its kind, then its detail.
    pub fn message(&self) -> (r: String)
        ensures
            r@ == self.label() + self.detail(),
    {
        let (label, detail) = match self {
            MdTranslateError::OllamaError(m) => ("Ollama API error: ", m),
            MdTranslateError::CacheError(m) => ("Cache error: ", m),
            MdTranslateError::MarkdownError(m) => ("Markdown parsing error: ", m),
            MdTranslateError::IoError(m) => ("IO error: ", m),
            MdTranslateError::NetworkError(m) => ("Network error: ", m),
            MdTranslateError::SerdeError(m) => ("Serialization error: ", m),
        };
        let mut r = String::from_str(label);
        r.append(detail.as_str());
        r
    }
}

} // verus!
