# koharu

The decision logic of a manga translation application, written in Verus and proved
against its contracts.

- `src/` is the verified library:
  - `language`: target languages, their BCP-47 tags, English names and aliases, and parsing;
  - `model`: the local translation models, their files, languages and sampling settings;
  - `deepl`: DeepL API roots, language codes and form-encoded translation requests;
  - `segment`: line-break opportunities (ICU4X), Chinese word protection (jieba),
    hyphenation (hypher) and the line segments handed to shaping;
  - `shape`: the script runs and font-fallback runs that text is shaped in;
  - `mask`: refinement of the comic text detector's segmentation mask;
  - `paddleocr`: PaddleOCR-VL prompts and their chat-template rendering, context sizing, the repeat guard and the token-by-token
    generation state, and model-file choice;
  - `cuda`: driver and GPU requirements, runtime wheels and their platform tags;
  - `text` and `unicode`: UTF-8 and character utilities, and the Unicode services of
    ICU4X, jieba and hypher that the rest consults.
- `tests/` runs the library on concrete inputs.
- `app/` holds what the library leaves to its caller: CUDA driver calls, HTTP, the file
  system, the generation loop that drives the model, and the floating-point geometry of
  text-block crops and glyph shaping.
