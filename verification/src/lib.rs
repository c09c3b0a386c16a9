//! Lexia: a document reader that asks a language model for summaries and key points.
//!
//! The verified core holds the text handling (extension detection, text extraction
//! rules, prompt construction, response interpretation, form handling and result
//! layout); the program around it lives in `app/`.

pub mod analysis;
pub mod display;
pub mod extractor;
pub mod gemini;
pub mod path;
pub mod server;
pub mod text;
