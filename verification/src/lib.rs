//! Verified logic of a manga translation application: languages and models, line breaking
//! and shaping runs for typesetting, text-mask refinement, OCR prompting and generation,
//! DeepL requests, and the choice of CUDA runtime.

pub mod cuda;
pub mod deepl;
pub mod language;
pub mod mask;
pub mod model;
pub mod paddleocr;
pub mod segment;
pub mod shape;
pub mod text;
pub mod unicode;
