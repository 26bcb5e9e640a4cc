//! The envelope every engine returns, its error taxonomy, and the option records
//! of the command surface.
use vstd::prelude::*;

verus! {

/// Outcome of a finished operation.
#[derive(Debug, Clone)]
pub struct ConvertResult {
    pub success: bool,
    pub output_files: Vec<String>,
    pub output_folder: String,
    pub message: String,
}

/// Why an operation failed; each variant carries a message naming what failed.
#[derive(Debug, Clone)]
pub enum ConvertError {
    /// A filesystem create, read or write failed.
    IoError(String),
    /// The container or extension is not recognised.
    UnsupportedFormat(String),
    /// The content is password protected or uses a method the engine cannot read.
    UnsupportedOrEncrypted(String),
    /// The requested format is known but has no engine yet.
    NotImplemented(String),
    /// The request itself is invalid; nothing was run.
    InvalidRequest(String),
    /// An external tool is missing or could not be started.
    ExecutionError(String),
    /// An external tool ran and reported failure; carries its diagnostics.
    EncodingError(String),
}

/// Facts about a document file.
#[derive(Debug, Clone)]
pub struct PdfInfo {
    pub path: String,
    pub page_count: u32,
    pub file_size: u64,
}

/// How documents are rendered to images.
#[derive(Debug, Clone)]
pub struct ConvertOptions {
    pub format: String,
    pub dpi: u32,
    pub pages: Option<Vec<u32>>,
}

/// How an archive is created.
#[derive(Debug, Clone)]
pub struct ArchiveOptions {
    pub format: String,
    pub password: Option<String>,
}

} // verus!
