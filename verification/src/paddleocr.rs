//! Prompt and output handling around the PaddleOCR-VL vision-language OCR model.

use vstd::prelude::*;
use vstd::utf8::encode_utf8;
use minijinja::{Environment, Value};
use crate::text::{
    ascii_lower, byte_offset, decimal, decimal_chars, char_byte_offsets, chars_of, contains_chars, contains_str, is_white_space,
    is_whitespace, lemma_byte_offset_bounds, lemma_encode_utf8_concat, push_str_chars,
    string_from_chars, trim_range, trimmed,
};

verus! {

broadcast use vstd::string::group_string_axioms;

/// Where the multimodal projector puts the image in a prompt.
pub const PADDLEOCR_IMAGE_MARKER: &'static str = "<|IMAGE_START|><|IMAGE_PLACEHOLDER|><|IMAGE_END|>";

/// Longest repeating unit, in non-whitespace chars, that the repeat guard looks for.
pub const OCR_REPEAT_MAX_UNIT_CHARS: usize = 12;

/// Fewest back-to-back copies of a unit that count as a runaway repetition.
pub const OCR_REPEAT_MIN_REPETITIONS: usize = 4;

/// Fewest non-whitespace chars that a runaway repetition must span.
pub const OCR_REPEAT_MIN_TOTAL_CHARS: usize = 12;

/// Indices of the chars of `text` that are not white space, in order.
pub open spec fn ink_positions(text: Seq<char>) -> Seq<int>
    decreases text.len(),
{
    if text.len() == 0 {
        Seq::empty()
    } else {
        let rest = ink_positions(text.drop_last());
        if is_white_space(text.last()) {
            rest
        } else {
            rest.push(text.len() - 1)
        }
    }
}

/// The chars of `text` that are not white space, in order.
pub open spec fn ink_chars(text: Seq<char>) -> Seq<char> {
    ink_positions(text).map_values(|j: int| text[j])
}

/// Where the run of back-to-back copies of the last `u` chars of `w` starts, given that the
/// run already reaches back to index `p`.
pub open spec fn run_start_from(w: Seq<char>, u: int, p: int) -> int
    decreases p,
{
    if u >= 1 && p - u >= 0 && w.subrange(p - u, p) == w.subrange(w.len() - u, w.len() as int) {
        run_start_from(w, u, p - u)
    } else {
        p
    }
}

/// Where the longest run of back-to-back copies of the last `u` chars of `w` starts.
pub open spec fn run_start(w: Seq<char>, u: int) -> int {
    run_start_from(w, u, w.len() - u)
}

/// Whether the copies of the last `u` chars of `w` that end `w` are a runaway repetition:
/// at least four copies, spanning at least twelve chars.
pub open spec fn unit_repeats(w: Seq<char>, u: int) -> bool {
    &&& w.len() - run_start(w, u) >= OCR_REPEAT_MIN_REPETITIONS * u
    &&& w.len() - run_start(w, u) >= OCR_REPEAT_MIN_TOTAL_CHARS
}

/// The shortest unit length in `u..=max` whose copies end `w` as a runaway repetition.
pub open spec fn first_repeating_unit(w: Seq<char>, u: int, max: int) -> Option<int>
    decreases max - u + 1,
{
    if u < 1 || u > max {
        None
    } else if unit_repeats(w, u) {
        Some(u)
    } else {
        first_repeating_unit(w, u + 1, max)
    }
}

/// The longest unit length that the repeat guard considers for `n` non-whitespace chars.
pub open spec fn max_unit_len(n: int) -> int {
    if n / (OCR_REPEAT_MIN_REPETITIONS as int) < OCR_REPEAT_MAX_UNIT_CHARS {
        n / (OCR_REPEAT_MIN_REPETITIONS as int)
    } else {
        OCR_REPEAT_MAX_UNIT_CHARS as int
    }
}

/// Index of the first char of the runaway repetition that ends `text`, if one does. White
/// space is ignored when units are compared.
pub open spec fn repeated_suffix_index(text: Seq<char>) -> Option<int> {
    let pos = ink_positions(text);
    let w = ink_chars(text);
    if w.len() < OCR_REPEAT_MIN_TOTAL_CHARS {
        None
    } else {
        match first_repeating_unit(w, 1, max_unit_len(w.len() as int)) {
            Some(u) => Some(pos[run_start(w, u)]),
            None => None,
        }
    }
}

/// Byte offset of the first char of the runaway repetition that ends `text`, if one does.
pub open spec fn repeated_suffix_start(text: Seq<char>) -> Option<int> {
    match repeated_suffix_index(text) {
        Some(i) => Some(byte_offset(text, i)),
        None => None,
    }
}

proof fn lemma_ink_positions_bounds(text: Seq<char>)
    ensures
        ink_positions(text).len() <= text.len(),
        forall|k: int|
            0 <= k < ink_positions(text).len() ==> 0 <= #[trigger] ink_positions(text)[k]
                < text.len(),
    decreases text.len(),
{
    if text.len() > 0 {
        lemma_ink_positions_bounds(text.drop_last());
    }
}

/// Whether the `u` chars of `w` at `a` equal the `u` chars at `b`.
fn blocks_equal(w: &Vec<char>, a: usize, b: usize, u: usize) -> (r: bool)
    requires
        a + u <= w@.len(),
        b + u <= w@.len(),
    ensures
        r == (w@.subrange(a as int, a + u) == w@.subrange(b as int, b + u)),
{
    let n = w.len();
    let mut k: usize = 0;
    proof {
        assert(w@.subrange(a as int, a as int) =~= w@.subrange(b as int, b as int));
    }
    while k < u
        invariant
            a + u <= w@.len(),
            b + u <= w@.len(),
            n == w@.len(),
            k <= u,
            w@.subrange(a as int, a + k) == w@.subrange(b as int, b + k),
        decreases u - k,
    {
        if w[a + k] != w[b + k] {
            proof {
                assert(w@.subrange(a as int, a + u)[k as int] != w@.subrange(b as int, b + u)[k as int]);
            }
            return false;
        }
        proof {
            assert(w@.subrange(a as int, a + k + 1) =~= w@.subrange(a as int, a + k).push(w@[a + k]));
            assert(w@.subrange(b as int, b + k + 1) =~= w@.subrange(b as int, b + k).push(w@[b + k]));
        }
        k = k + 1;
    }
    true
}

/// Index of the first char of the runaway repetition of a short unit (at least four copies
/// of a unit of at most twelve non-whitespace chars, twelve chars in all) that ends `text`.
pub fn repeated_suffix_char_index(text: &Vec<char>) -> (r: Option<usize>)
    ensures
        r matches Some(i) ==> repeated_suffix_index(text@) == Some(i as int) && i < text@.len(),
        r is None ==> repeated_suffix_index(text@) is None,
{
    let mut ink: Vec<char> = Vec::new();
    let mut ink_at: Vec<usize> = Vec::new();
    let mut i: usize = 0;
    let ghost t = text@;
    proof {
        assert(t.take(0) =~= Seq::<char>::empty());
    }
    while i < text.len()
        invariant
            text@ == t,
            i <= t.len(),
            ink@ == ink_positions(t.take(i as int)).map_values(|j: int| t[j]),
            ink_at@.len() == ink@.len(),
            forall|k: int|
                0 <= k < ink_at@.len() ==> #[trigger] ink_at@[k] == ink_positions(
                    t.take(i as int),
                )[k],
        decreases t.len() - i,
    {
        let c = text[i];
        proof {
            assert(t.take(i + 1).drop_last() =~= t.take(i as int));
            assert(t.take(i + 1).last() == c);
        }
        if !is_whitespace(c) {
            ink.push(c);
            ink_at.push(i);
            proof {
                let p = ink_positions(t.take(i as int));
                assert(ink_positions(t.take(i + 1)) == p.push(i as int));
                assert(ink@ =~= p.push(i as int).map_values(|j: int| t[j]));
            }
        }
        i = i + 1;
    }
    proof {
        assert(t.take(t.len() as int) =~= t);
        lemma_ink_positions_bounds(t);
    }
    let ghost w = ink_chars(t);
    let ghost pos = ink_positions(t);
    assert(ink@ =~= w);
    let len = ink.len();
    if len < OCR_REPEAT_MIN_TOTAL_CHARS {
        return None;
    }
    let max_unit = if len / OCR_REPEAT_MIN_REPETITIONS < OCR_REPEAT_MAX_UNIT_CHARS {
        len / OCR_REPEAT_MIN_REPETITIONS
    } else {
        OCR_REPEAT_MAX_UNIT_CHARS
    };
    assert(max_unit == max_unit_len(len as int));
    let mut unit_len: usize = 1;
    while unit_len <= max_unit
        invariant
            t == text@,
            w == ink_chars(t),
            pos == ink_positions(t),
            forall|k: int| 0 <= k < pos.len() ==> 0 <= #[trigger] pos[k] < t.len(),
            ink@ == w,
            len == w.len(),
            len >= OCR_REPEAT_MIN_TOTAL_CHARS,
            max_unit == max_unit_len(len as int),
            max_unit <= len / 4,
            1 <= unit_len <= max_unit + 1,
            ink_at@.len() == len,
            pos.len() == len,
            forall|k: int| 0 <= k < len ==> #[trigger] ink_at@[k] == pos[k],
            first_repeating_unit(w, 1, max_unit as int) == first_repeating_unit(
                w,
                unit_len as int,
                max_unit as int,
            ),
        decreases max_unit + 1 - unit_len,
    {
        let mut p: usize = len - unit_len;
        while p >= unit_len && blocks_equal(&ink, p - unit_len, len - unit_len, unit_len)
            invariant
                ink@ == w,
                len == w.len(),
                1 <= unit_len <= len,
                p <= len - unit_len,
                run_start_from(w, unit_len as int, p as int) == run_start(w, unit_len as int),
            decreases p,
        {
            p = p - unit_len;
        }
        proof {
            assert(run_start_from(w, unit_len as int, p as int) == p as int);
        }
        let repeated = len - p;
        if repeated >= OCR_REPEAT_MIN_REPETITIONS * unit_len && repeated
            >= OCR_REPEAT_MIN_TOTAL_CHARS {
            proof {
                assert(first_repeating_unit(w, unit_len as int, max_unit as int) == Some(
                    unit_len as int,
                ));
            }
            return Some(ink_at[p]);
        }
        unit_len = unit_len + 1;
    }
    None
}

/// Byte offset at which `text` ends in a runaway repetition of a short unit (at least four
/// copies of a unit of at most twelve non-whitespace chars, twelve chars in all), if it does.
pub fn repeated_ocr_suffix_start(text: &str) -> (r: Option<usize>)
    ensures
        r matches Some(o) ==> repeated_suffix_start(text@) == Some(o as int),
        r is None ==> repeated_suffix_start(text@) is None,
{
    let chars = chars_of(text);
    let offsets = char_byte_offsets(text);
    match repeated_suffix_char_index(&chars) {
        Some(i) => Some(offsets[i]),
        None => None,
    }
}

/// What PaddleOCR-VL is asked to recognise in an image.
#[derive(Debug, Clone, Copy, PartialEq, Eq, Hash, Structural)]
pub enum PaddleOcrVlTask {
    Ocr,
    Table,
    Formula,
    Chart,
    Spotting,
    Seal,
}

impl PaddleOcrVlTask {
    /// The instruction that asks the model for the task.
    pub open spec fn spec_prompt(self) -> Seq<char> {
        match self {
            PaddleOcrVlTask::Ocr => seq!['O', 'C', 'R', ':'],
            PaddleOcrVlTask::Table => seq!['T', 'a', 'b', 'l', 'e', ' ', 'R', 'e', 'c', 'o', 'g', 'n', 'i', 't', 'i', 'o', 'n', ':'],
            PaddleOcrVlTask::Formula => seq!['F', 'o', 'r', 'm', 'u', 'l', 'a', ' ', 'R', 'e', 'c', 'o', 'g', 'n', 'i', 't', 'i', 'o', 'n', ':'],
            PaddleOcrVlTask::Chart => seq!['C', 'h', 'a', 'r', 't', ' ', 'R', 'e', 'c', 'o', 'g', 'n', 'i', 't', 'i', 'o', 'n', ':'],
            PaddleOcrVlTask::Spotting => seq!['S', 'p', 'o', 't', 't', 'i', 'n', 'g', ':'],
            PaddleOcrVlTask::Seal => seq!['S', 'e', 'a', 'l', ' ', 'R', 'e', 'c', 'o', 'g', 'n', 'i', 't', 'i', 'o', 'n', ':'],
        }
    }

    /// The instruction that asks the model for the task, such as `OCR:`.
    pub fn prompt(self) -> (r: &'static str)
        ensures
            r@ == self.spec_prompt(),
    {
        match self {
            PaddleOcrVlTask::Ocr => {
                proof {
                    reveal_strlit("OCR:");
                }
                "OCR:"
            },
            PaddleOcrVlTask::Table => {
                proof {
                    reveal_strlit("Table Recognition:");
                }
                "Table Recognition:"
            },
            PaddleOcrVlTask::Formula => {
                proof {
                    reveal_strlit("Formula Recognition:");
                }
                "Formula Recognition:"
            },
            PaddleOcrVlTask::Chart => {
                proof {
                    reveal_strlit("Chart Recognition:");
                }
                "Chart Recognition:"
            },
            PaddleOcrVlTask::Spotting => {
                proof {
                    reveal_strlit("Spotting:");
                }
                "Spotting:"
            },
            PaddleOcrVlTask::Seal => {
                proof {
                    reveal_strlit("Seal Recognition:");
                }
                "Seal Recognition:"
            },
        }
    }
}

/// One part of the content of a chat message.
#[derive(Debug, Clone, PartialEq, Eq)]
pub enum PromptContent {
    /// The image, where the multimodal projector puts its tokens.
    Image,
    /// A piece of text.
    Text { text: String },
}

/// The content of the user turn for `task`: the image first, then the task instruction.
pub fn build_user_message_content(task: PaddleOcrVlTask) -> (r: Vec<PromptContent>)
    ensures
        r@.len() == 2,
        r@[0] is Image,
        r@[1] matches PromptContent::Text { text } && text@ == task.spec_prompt(),
{
    vec![PromptContent::Image, PromptContent::Text { text: task.prompt().to_owned() }]
}

/// The parts of a message's content as a chat template sees them: `None` for the image,
/// the text for a piece of text.
pub open spec fn content_parts(content: Seq<PromptContent>) -> Seq<Option<Seq<char>>> {
    content.map_values(
        |c: PromptContent|
            match c {
                PromptContent::Image => None,
                PromptContent::Text { text } => Some(text@),
            },
    )
}

/// What minijinja renders `template` to, in a default environment, for one message of
/// `role` whose content is `parts` (an image part has `type` `image`; a text part has
/// `type` `text` and its `text`), with `bos_token`, `eos_token` and `add_generation_prompt`
/// set; `None` when the template cannot be parsed or rendered.
pub uninterp spec fn chat_template_rendered(
    template: Seq<char>,
    bos_token: Seq<char>,
    eos_token: Seq<char>,
    role: Seq<char>,
    parts: Seq<Option<Seq<char>>>,
) -> Option<Seq<char>>;

/// `minijinja::Environment::new()` parsing `template` (`template_from_str`) and rendering it
/// (`render`) with the context `{messages: [{role, content}], bos_token, eos_token,
/// add_generation_prompt: true}`, each content part as a map with its `type` (and `text`).
/// Claimed: the text is the value the name `chat_template_rendered` gives these arguments,
/// and an error (its message) comes exactly where the name gives none.
#[verifier::external_body]
fn render_chat_template(
    template: &str,
    bos_token: &str,
    eos_token: &str,
    role: &str,
    content: &Vec<PromptContent>,
) -> (r: Result<String, String>)
    ensures
        match r {
            Ok(s) => chat_template_rendered(template@, bos_token@, eos_token@, role@, content_parts(content@))
                == Some(s@),
            Err(_) => chat_template_rendered(template@, bos_token@, eos_token@, role@, content_parts(content@))
                is None,
        },
{
    let parts = content.iter().map(|c| match c {
        PromptContent::Image => Value::from_iter([("type", Value::from("image"))]),
        PromptContent::Text { text } => Value::from_iter([("type", Value::from("text")), ("text", Value::from(text.as_str()))]),
    });
    let message = Value::from_iter([("role", Value::from(role)), ("content", Value::from_iter(parts))]);
    let ctx = Value::from_iter([("messages", Value::from_iter([message])), ("bos_token", Value::from(bos_token)),
        ("eos_token", Value::from(eos_token)), ("add_generation_prompt", Value::from(true))]);
    let env = Environment::new();
    env.template_from_str(template).and_then(|t| t.render(ctx)).map_err(|e| e.to_string())
}

/// The chat template of the model rendered for one user turn that holds the image and then
/// the instruction for `task`; `Err` with minijinja's message when the template cannot be
/// parsed or rendered.
pub fn render_chat_prompt(chat_template: &str, bos_token: &str, eos_token: &str, task: PaddleOcrVlTask) -> (r: Result<String, String>)
    ensures
        ({
            let parts = seq![None, Some(task.spec_prompt())];
            let role = seq!['u', 's', 'e', 'r'];
            match r {
                Ok(s) => chat_template_rendered(chat_template@, bos_token@, eos_token@, role, parts) == Some(s@),
                Err(_) => chat_template_rendered(chat_template@, bos_token@, eos_token@, role, parts) is None,
            }
        }),
{
    let content = build_user_message_content(task);
    proof {
        reveal_strlit("user");
        assert("user"@ =~= seq!['u', 's', 'e', 'r']);
        assert(content_parts(content@) =~= seq![None, Some(task.spec_prompt())]);
    }
    render_chat_template(chat_template, bos_token, eos_token, "user", &content)
}

/// Layers offloaded to the GPU when the backend can offload (all of them).
pub const DEFAULT_GPU_LAYERS: u32 = 1000;

/// Largest micro-batch for causal decoding.
pub const MAX_UBATCH: u32 = 512;

/// Parameters of the loaded model.
#[derive(Debug, Clone, Copy, PartialEq, Eq, Structural)]
pub struct ModelParams {
    /// Layers offloaded to the GPU; 0 keeps the whole model on the CPU.
    pub n_gpu_layers: u32,
}

/// The model parameters: all layers on the GPU unless the CPU is asked for or the backend
/// cannot offload, in which case none (the backend's own default could still offload).
pub fn model_params(cpu: bool, supports_gpu_offload: bool) -> (r: ModelParams)
    ensures
        r.n_gpu_layers == (if !cpu && supports_gpu_offload {
            DEFAULT_GPU_LAYERS
        } else {
            0
        }),
{
    if !cpu && supports_gpu_offload {
        ModelParams { n_gpu_layers: DEFAULT_GPU_LAYERS }
    } else {
        ModelParams { n_gpu_layers: 0 }
    }
}

/// `a + b` as `usize::saturating_add` gives it.
pub open spec fn saturating_sum(a: int, b: int) -> int {
    if a + b > usize::MAX {
        usize::MAX as int
    } else {
        a + b
    }
}

/// The larger of `a` and `b`.
pub open spec fn larger(a: int, b: int) -> int {
    if a >= b {
        a
    } else {
        b
    }
}

/// Sizes of the llama.cpp context that evaluates one OCR request.
#[derive(Debug, Clone, Copy, PartialEq, Eq, Structural)]
pub struct ContextSizing {
    /// Context length in tokens.
    pub n_ctx: u32,
    /// Logical batch size.
    pub n_batch: u32,
    /// Physical batch size.
    pub n_ubatch: u32,
    /// Whether attention is non-causal, as the projector asks.
    pub non_causal: bool,
}

/// Why a context cannot be sized.
#[derive(Debug, Clone, Copy, PartialEq, Eq, Structural)]
pub enum ContextSizingError {
    /// The context length does not fit in a `u32`.
    ContextTooLarge,
    /// The batch size does not fit in a `u32`.
    BatchTooLarge,
}

/// The context length that a request needs: room for the prompt (by positions and by
/// tokens) and `max_tokens` more plus one, and for a batch plus one; sums saturate.
pub open spec fn required_context(
    prompt_positions: int,
    prompt_total_tokens: int,
    batch_tokens: int,
    max_tokens: int,
) -> int {
    larger(
        larger(
            saturating_sum(saturating_sum(prompt_positions, max_tokens), 1),
            saturating_sum(saturating_sum(prompt_total_tokens, max_tokens), 1),
        ),
        saturating_sum(batch_tokens, 1),
    )
}

/// A context that can be sized leaves room for the whole prompt, by positions and by
/// tokens, with every token that may be generated, and for a batch, and holds at least one
/// token (where none of the sums saturates).
pub proof fn law_context_fits_prompt_and_generation(
    prompt_positions: usize,
    prompt_total_tokens: usize,
    batch_tokens: usize,
    max_tokens: usize,
)
    requires
        required_context(prompt_positions as int, prompt_total_tokens as int, batch_tokens as int, max_tokens as int)
            <= u32::MAX,
        prompt_positions + max_tokens + 1 <= usize::MAX,
        prompt_total_tokens + max_tokens + 1 <= usize::MAX,
        batch_tokens + 1 <= usize::MAX,
    ensures
        ({
            let n_ctx = required_context(
                prompt_positions as int,
                prompt_total_tokens as int,
                batch_tokens as int,
                max_tokens as int,
            );
            &&& n_ctx >= 1
            &&& n_ctx >= prompt_positions + max_tokens + 1
            &&& n_ctx >= prompt_total_tokens + max_tokens + 1
            &&& n_ctx > batch_tokens
        }),
{
}

/// Sizes the context for a prompt of `prompt_positions` positions and `prompt_total_tokens`
/// tokens, evaluated in batches of `batch_tokens`, that may generate `max_tokens` more.
pub fn context_params(
    prompt_positions: usize,
    prompt_total_tokens: usize,
    batch_tokens: usize,
    max_tokens: usize,
    non_causal: bool,
) -> (r: Result<ContextSizing, ContextSizingError>)
    ensures
        required_context(prompt_positions as int, prompt_total_tokens as int, batch_tokens as int, max_tokens as int) > u32::MAX
            ==> r == Err::<ContextSizing, ContextSizingError>(ContextSizingError::ContextTooLarge),
        required_context(prompt_positions as int, prompt_total_tokens as int, batch_tokens as int, max_tokens as int) <= u32::MAX
            && larger(batch_tokens as int, 1) > u32::MAX ==> r == Err::<ContextSizing, ContextSizingError>(ContextSizingError::BatchTooLarge),
        r matches Ok(c) ==> {
            &&& c.n_ctx == required_context(prompt_positions as int, prompt_total_tokens as int, batch_tokens as int, max_tokens as int)
            &&& c.n_ctx >= 1
            &&& c.n_batch == larger(batch_tokens as int, 1)
            &&& c.n_ubatch == (if non_causal || c.n_batch <= MAX_UBATCH { c.n_batch } else { MAX_UBATCH })
            &&& c.non_causal == non_causal
        },
        r is Ok <==> (required_context(prompt_positions as int, prompt_total_tokens as int, batch_tokens as int, max_tokens as int) <= u32::MAX
            && larger(batch_tokens as int, 1) <= u32::MAX),
{
    let by_positions = prompt_positions.saturating_add(max_tokens).saturating_add(1);
    let by_tokens = prompt_total_tokens.saturating_add(max_tokens).saturating_add(1);
    let by_batch = batch_tokens.saturating_add(1);
    let mut required = if by_positions >= by_tokens {
        by_positions
    } else {
        by_tokens
    };
    if by_batch > required {
        required = by_batch;
    }
    if required > u32::MAX as usize {
        return Err(ContextSizingError::ContextTooLarge);
    }
    let batch = if batch_tokens >= 1 {
        batch_tokens
    } else {
        1
    };
    if batch > u32::MAX as usize {
        return Err(ContextSizingError::BatchTooLarge);
    }
    let n_ctx = required as u32;
    let n_batch = batch as u32;
    let n_ubatch = if non_causal || n_batch <= MAX_UBATCH {
        n_batch
    } else {
        MAX_UBATCH
    };
    Ok(ContextSizing { n_ctx, n_batch, n_ubatch, non_causal })
}

/// What the OCR request needs to know of one chunk of the tokenized prompt.
#[derive(Debug, Clone, Copy, PartialEq, Eq, Structural)]
pub struct ChunkInfo {
    /// Tokens in the chunk.
    pub n_tokens: usize,
    /// Whether the chunk holds image tokens.
    pub is_image: bool,
}

/// The largest token count among `chunks[..n]` (0 when `n == 0`).
pub open spec fn max_tokens_of(chunks: Seq<ChunkInfo>, n: int) -> int
    decreases n,
{
    if n <= 0 {
        0
    } else {
        larger(max_tokens_of(chunks, n - 1), chunks[n - 1].n_tokens as int)
    }
}

/// The number of image tokens in `chunks[..n]`.
pub open spec fn image_tokens_of(chunks: Seq<ChunkInfo>, n: int) -> int
    decreases n,
{
    if n <= 0 {
        0
    } else {
        image_tokens_of(chunks, n - 1) + if chunks[n - 1].is_image {
            chunks[n - 1].n_tokens as int
        } else {
            0
        }
    }
}

/// The largest token count of any chunk, or 0 when there are none.
pub fn max_chunk_tokens(chunks: &[ChunkInfo]) -> (r: usize)
    ensures
        r == max_tokens_of(chunks@, chunks@.len() as int),
{
    let mut best: usize = 0;
    let mut i: usize = 0;
    while i < chunks.len()
        invariant
            i <= chunks@.len(),
            best == max_tokens_of(chunks@, i as int),
        decreases chunks@.len() - i,
    {
        if chunks[i].n_tokens > best {
            best = chunks[i].n_tokens;
        }
        i = i + 1;
    }
    best
}

/// The number of image tokens over all chunks.
pub fn image_chunk_tokens(chunks: &[ChunkInfo]) -> (r: usize)
    requires
        image_tokens_of(chunks@, chunks@.len() as int) <= usize::MAX,
    ensures
        r == image_tokens_of(chunks@, chunks@.len() as int),
{
    let mut total: usize = 0;
    let mut i: usize = 0;
    while i < chunks.len()
        invariant
            i <= chunks@.len(),
            total == image_tokens_of(chunks@, i as int),
            image_tokens_of(chunks@, chunks@.len() as int) <= usize::MAX,
        decreases chunks@.len() - i,
    {
        proof {
            lemma_image_tokens_monotone(chunks@, i as int + 1, chunks@.len() as int);
        }
        if chunks[i].is_image {
            total = total + chunks[i].n_tokens;
        }
        i = i + 1;
    }
    total
}

proof fn lemma_image_tokens_monotone(chunks: Seq<ChunkInfo>, a: int, b: int)
    requires
        0 <= a <= b <= chunks.len(),
    ensures
        image_tokens_of(chunks, a) <= image_tokens_of(chunks, b),
    decreases b - a,
{
    if a < b {
        lemma_image_tokens_monotone(chunks, a, b - 1);
    }
}

/// What the generation logic reads of a loaded PaddleOCR-VL model: its end-of-sequence
/// token, and the chat template with the texts of its begin- and end-of-sequence tokens.
pub struct PaddleOcrVl {
    pub eos_token: i32,
    pub chat_template: String,
    pub bos_token: String,
    pub eos_token_text: String,
}

impl PaddleOcrVl {
    /// Whether generation stops at `token`: it is the model's end-of-sequence token, or the
    /// model reports it as an end-of-generation token (`is_end_of_generation`).
    pub fn should_stop(&self, token: i32, is_end_of_generation: bool) -> (r: bool)
        ensures
            r == (token == self.eos_token || is_end_of_generation),
    {
        token == self.eos_token || is_end_of_generation
    }

    /// The prompt for `task` from the model's own chat template, with its begin- and
    /// end-of-sequence texts; the tokenizer adds no special tokens to it.
    pub fn render_prompt(&self, task: PaddleOcrVlTask) -> (r: Result<RenderedPrompt, String>)
        ensures
            ({
                let parts = seq![None, Some(task.spec_prompt())];
                let role = seq!['u', 's', 'e', 'r'];
                let rendered = chat_template_rendered(
                    self.chat_template@,
                    self.bos_token@,
                    self.eos_token_text@,
                    role,
                    parts,
                );
                match r {
                    Ok(p) => rendered == Some(p.text@) && !p.add_special,
                    Err(_) => rendered is None,
                }
            }),
    {
        match render_chat_prompt(
            self.chat_template.as_str(),
            self.bos_token.as_str(),
            self.eos_token_text.as_str(),
            task,
        ) {
            Ok(text) => Ok(RenderedPrompt { text, add_special: false }),
            Err(e) => Err(e),
        }
    }
}

/// A rendered prompt and whether the tokenizer adds special tokens to it.
pub struct RenderedPrompt {
    pub text: String,
    pub add_special: bool,
}

/// The token that starts decoding: none for a decoder-only model; for an encoder-decoder
/// model, its decoder start token, or the BOS token when it reports none (a negative id).
pub fn decoder_start_token(has_encoder: bool, decode_start: i32, bos: i32) -> (r: Option<i32>)
    ensures
        r == (if !has_encoder {
            None
        } else if decode_start >= 0 {
            Some(decode_start)
        } else {
            Some(bos)
        }),
{
    if !has_encoder {
        return None;
    }
    if decode_start >= 0 {
        Some(decode_start)
    } else {
        Some(bos)
    }
}

/// The text shown for a special token such as BOS or EOS: the piece the model decodes it
/// to (`None` when decoding failed), or the token's number when there is no such piece.
pub fn token_text(piece: Option<String>, token: i32) -> (r: String)
    ensures
        r@ == (match piece {
            Some(p) => if p@.len() > 0 {
                p@
            } else {
                decimal(token as int)
            },
            None => decimal(token as int),
        }),
{
    match piece {
        Some(p) => {
            if p.as_str().as_bytes().len() > 0 {
                proof {
                    assert(p@.len() > 0);
                }
                return p;
            }
            proof {
                assert(p@.len() == 0);
            }
        },
        None => {},
    }
    let digits = decimal_chars(token as i64);
    string_from_chars(digits.as_slice())
}

/// Leading entries of `ends`, from index `i`, that are at most `bound`: the index of the
/// first larger entry at or after `i`, or the length.
pub open spec fn leading_at_most_from(ends: Seq<usize>, bound: int, i: int) -> int
    decreases ends.len() - i,
{
    if 0 <= i < ends.len() && ends[i] <= bound {
        leading_at_most_from(ends, bound, i + 1)
    } else {
        i
    }
}

/// The state of one OCR generation.
pub struct GenerationView {
    /// Most tokens the generation may keep.
    pub max_new_tokens: nat,
    /// The tokens generated so far.
    pub token_ids: Seq<u32>,
    /// For each token, the byte length of the text once it was decoded.
    pub text_ends: Seq<usize>,
    /// The decoded text.
    pub text: Seq<char>,
    /// Whether the text was cut back at a runaway repetition.
    pub stopped_on_repeat: bool,
    /// Whether generation is over.
    pub finished: bool,
}

/// The generation after `token`, which decodes to `piece`, is accepted: the token and its
/// text are added; if the text now ends in a runaway repetition, the repetition is cut off,
/// with the tokens whose text reached into it, and generation ends; otherwise it ends once
/// `max_new_tokens` tokens are kept.
pub open spec fn accepted(v: GenerationView, token: u32, piece: Seq<char>) -> GenerationView {
    let text = v.text + piece;
    let ids = v.token_ids.push(token);
    let ends = v.text_ends.push(encode_utf8(text).len() as usize);
    match repeated_suffix_index(text) {
        Some(k) => {
            let keep = leading_at_most_from(ends, byte_offset(text, k), 0);
            GenerationView {
                max_new_tokens: v.max_new_tokens,
                token_ids: ids.take(keep),
                text_ends: ends.take(keep),
                text: text.take(k),
                stopped_on_repeat: true,
                finished: true,
            }
        },
        None => GenerationView {
            max_new_tokens: v.max_new_tokens,
            token_ids: ids,
            text_ends: ends,
            text: text,
            stopped_on_repeat: v.stopped_on_repeat,
            finished: ids.len() >= v.max_new_tokens,
        },
    }
}

/// Whether a generation state hangs together: one text end per kept token, no more tokens
/// than the budget, and no token's text reaching past the end of the text.
pub open spec fn generation_consistent(v: GenerationView) -> bool {
    &&& v.token_ids.len() == v.text_ends.len()
    &&& v.token_ids.len() <= v.max_new_tokens
    &&& forall|i: int| 0 <= i < v.text_ends.len() ==> #[trigger] v.text_ends[i] <= encode_utf8(v.text).len()
}

proof fn lemma_run_start_from(w: Seq<char>, u: int, p: int)
    requires
        u >= 1,
        0 <= p,
    ensures
        0 <= run_start_from(w, u, p) <= p,
    decreases p,
{
    if p - u >= 0 && w.subrange(p - u, p) == w.subrange(w.len() - u, w.len() as int) {
        lemma_run_start_from(w, u, p - u);
    }
}

proof fn lemma_first_repeating_unit(w: Seq<char>, u: int, max: int)
    ensures
        first_repeating_unit(w, u, max) matches Some(x) ==> 1 <= u <= x <= max,
    decreases max - u + 1,
{
    if u >= 1 && u <= max && !unit_repeats(w, u) {
        lemma_first_repeating_unit(w, u + 1, max);
    }
}

/// A runaway repetition starts at a char of the text.
proof fn lemma_repeated_suffix_index_bounds(text: Seq<char>)
    ensures
        repeated_suffix_index(text) matches Some(k) ==> 0 <= k < text.len(),
{
    let pos = ink_positions(text);
    let w = ink_chars(text);
    let n = w.len() as int;
    if n >= OCR_REPEAT_MIN_TOTAL_CHARS {
        let max = max_unit_len(n);
        lemma_first_repeating_unit(w, 1, max);
        if let Some(x) = first_repeating_unit(w, 1, max) {
            assert(max <= n / 4);
            lemma_run_start_from(w, x, n - x);
            lemma_ink_positions_bounds(text);
            let j = run_start(w, x);
            assert(0 <= j < pos.len());
            assert(0 <= pos[j] < text.len());
        }
    }
}

/// The repeat guard leaves short text alone: text with fewer than twelve non-whitespace
/// chars, such as emphasis punctuation, is never cut.
pub proof fn law_short_text_never_trimmed(text: Seq<char>)
    ensures
        ink_chars(text).len() < OCR_REPEAT_MIN_TOTAL_CHARS ==> repeated_suffix_start(text) is None,
{
}

proof fn lemma_leading_at_most_from(ends: Seq<usize>, bound: int, i: int)
    requires
        0 <= i <= ends.len(),
    ensures
        i <= leading_at_most_from(ends, bound, i) <= ends.len(),
        forall|j: int| i <= j < leading_at_most_from(ends, bound, i) ==> #[trigger] ends[j] <= bound,
    decreases ends.len() - i,
{
    if i < ends.len() && ends[i] <= bound {
        lemma_leading_at_most_from(ends, bound, i + 1);
    }
}

/// Accepting a token keeps a generation consistent: it never keeps more tokens than the
/// budget, and when a runaway repetition is cut off, the tokens kept are exactly those
/// whose text ends within the kept text; cutting off a repetition ends the generation.
pub proof fn law_accept_keeps_generation_consistent(v: GenerationView, token: u32, piece: Seq<char>)
    requires
        generation_consistent(v),
        v.token_ids.len() < v.max_new_tokens,
        encode_utf8(v.text + piece).len() <= usize::MAX,
    ensures
        generation_consistent(accepted(v, token, piece)),
        accepted(v, token, piece).stopped_on_repeat && !v.stopped_on_repeat ==> accepted(v, token, piece).finished,
        v.text + piece == accepted(v, token, piece).text + (v.text + piece).skip(
            accepted(v, token, piece).text.len() as int,
        ),
{
    let text = v.text + piece;
    let ends = v.text_ends.push(encode_utf8(text).len() as usize);
    lemma_encode_utf8_concat(v.text, piece);
    let a = accepted(v, token, piece);
    match repeated_suffix_index(text) {
        Some(k) => {
            lemma_repeated_suffix_index_bounds(text);
            let bound = byte_offset(text, k);
            lemma_leading_at_most_from(ends, bound, 0);
            let keep = leading_at_most_from(ends, bound, 0);
            lemma_byte_offset_bounds(text, k, text.len() as int);
            assert(text.take(k) == a.text);
            assert forall|i: int| 0 <= i < a.text_ends.len() implies #[trigger] a.text_ends[i] <= encode_utf8(
                a.text,
            ).len() by {
                assert(a.text_ends[i] == ends[i]);
            }
            assert(text =~= a.text + text.skip(k));
        },
        None => {
            assert forall|i: int| 0 <= i < a.text_ends.len() implies #[trigger] a.text_ends[i] <= encode_utf8(
                a.text,
            ).len() by {
                if i < v.text_ends.len() {
                    assert(a.text_ends[i] == v.text_ends[i]);
                }
            }
            assert(text.skip(text.len() as int) =~= Seq::<char>::empty());
            assert(text =~= a.text + text.skip(a.text.len() as int));
        },
    }
}

/// Whether generation goes on after a step.
#[derive(Debug, Clone, Copy, PartialEq, Eq, Structural)]
pub enum GenerationStep {
    /// Decode the token and sample the next one.
    Continue,
    /// Generation is over.
    Finished,
}

/// Why a sampled token cannot be accepted.
#[derive(Debug, Clone, Copy, PartialEq, Eq, Structural)]
pub enum GenerationError {
    /// The sampler gave a negative token id.
    NegativeTokenId,
}

/// The text generated for one OCR request, token by token, with the guard that cuts off
/// runaway repetitions.
pub struct OcrGeneration {
    max_new_tokens: usize,
    token_ids: Vec<u32>,
    token_text_ends: Vec<usize>,
    text: Vec<char>,
    text_bytes: usize,
    stopped_on_repeat: bool,
    finished: bool,
}

impl View for OcrGeneration {
    type V = GenerationView;

    closed spec fn view(&self) -> GenerationView {
        GenerationView {
            max_new_tokens: self.max_new_tokens as nat,
            token_ids: self.token_ids@,
            text_ends: self.token_text_ends@,
            text: self.text@,
            stopped_on_repeat: self.stopped_on_repeat,
            finished: self.finished,
        }
    }
}

/// The byte length of the UTF-8 encoding of `chars[..k]`.
fn byte_offset_of(chars: &Vec<char>, k: usize) -> (r: usize)
    requires
        k <= chars@.len(),
        encode_utf8(chars@).len() <= usize::MAX,
    ensures
        r == byte_offset(chars@, k as int),
{
    let mut total: usize = 0;
    let mut i: usize = 0;
    proof {
        lemma_byte_offset_bounds(chars@, 0, k as int);
    }
    while i < k
        invariant
            k <= chars@.len(),
            encode_utf8(chars@).len() <= usize::MAX,
            i <= k,
            total == byte_offset(chars@, i as int),
        decreases k - i,
    {
        proof {
            crate::text::lemma_byte_offset_step(chars@, i as int);
            lemma_byte_offset_bounds(chars@, i as int + 1, chars@.len() as int);
        }
        total = total + crate::text::utf8_len(chars[i]);
        i = i + 1;
    }
    total
}

impl OcrGeneration {
    /// Whether the fields agree with each other.
    pub closed spec fn wf(self) -> bool {
        &&& self.token_ids@.len() == self.token_text_ends@.len()
        &&& self.text_bytes == encode_utf8(self.text@).len()
    }

    /// A generation that keeps at most `max_new_tokens` tokens.
    pub fn new(max_new_tokens: usize) -> (r: Self)
        ensures
            r.wf(),
            r@ == (GenerationView {
                max_new_tokens: max_new_tokens as nat,
                token_ids: Seq::empty(),
                text_ends: Seq::empty(),
                text: Seq::empty(),
                stopped_on_repeat: false,
                finished: false,
            }),
    {
        let r = OcrGeneration {
            max_new_tokens,
            token_ids: Vec::new(),
            token_text_ends: Vec::new(),
            text: Vec::new(),
            text_bytes: 0,
            stopped_on_repeat: false,
            finished: false,
        };
        proof {
            assert(r.text@ =~= Seq::<char>::empty());
        }
        r
    }

    /// Whether another token may be accepted.
    pub fn wants_token(&self) -> (r: bool)
        ensures
            r == (!self@.finished && self@.token_ids.len() < self@.max_new_tokens),
    {
        !self.finished && self.token_ids.len() < self.max_new_tokens
    }

    /// Bytes of UTF-8 text generated so far.
    pub fn text_byte_len(&self) -> (r: usize)
        requires
            self.wf(),
        ensures
            r == encode_utf8(self@.text).len(),
    {
        self.text_bytes
    }

    /// Whether the text was cut back at a runaway repetition.
    pub fn stopped_on_repeat(&self) -> (r: bool)
        ensures
            r == self@.stopped_on_repeat,
    {
        self.stopped_on_repeat
    }

    /// Accepts the sampled `token`, which decodes to `piece`, and says whether generation
    /// goes on. A negative token id is refused and leaves the generation as it was.
    pub fn accept(&mut self, token: i32, piece: &str) -> (r: Result<GenerationStep, GenerationError>)
        requires
            old(self).wf(),
            !old(self)@.finished,
            old(self)@.token_ids.len() < old(self)@.max_new_tokens,
            encode_utf8(old(self)@.text + piece@).len() <= usize::MAX,
        ensures
            final(self).wf(),
            token < 0 ==> r == Err::<GenerationStep, GenerationError>(GenerationError::NegativeTokenId)
                && final(self)@ == old(self)@,
            token >= 0 ==> final(self)@ == accepted(old(self)@, token as u32, piece@) && r == Ok::<
                GenerationStep,
                GenerationError,
            >(if final(self)@.finished {
                GenerationStep::Finished
            } else {
                GenerationStep::Continue
            }),
    {
        if token < 0 {
            return Err(GenerationError::NegativeTokenId);
        }
        let ghost old_view = self@;
        let mut text = self.text.clone();
        proof {
            assert(text@ == old_view.text);
        }
        push_str_chars(&mut text, piece);
        proof {
            lemma_encode_utf8_concat(old_view.text, piece@);
        }
        let text_bytes = self.text_bytes + piece.as_bytes().len();
        let mut token_ids = self.token_ids.clone();
        token_ids.push(token as u32);
        let mut ends = self.token_text_ends.clone();
        ends.push(text_bytes);
        proof {
            assert(token_ids@ =~= old_view.token_ids.push(token as u32));
            assert(ends@ =~= old_view.text_ends.push(encode_utf8(text@).len() as usize));
        }
        match repeated_suffix_char_index(&text) {
            Some(k) => {
                let trim_at = byte_offset_of(&text, k);
                let mut keep: usize = 0;
                while keep < ends.len() && ends[keep] <= trim_at
                    invariant
                        keep <= ends@.len(),
                        leading_at_most_from(ends@, trim_at as int, keep as int)
                            == leading_at_most_from(ends@, trim_at as int, 0),
                    decreases ends@.len() - keep,
                {
                    keep = keep + 1;
                }
                token_ids.truncate(keep);
                ends.truncate(keep);
                text.truncate(k);
                proof {
                    lemma_byte_offset_bounds(old_view.text + piece@, 0, k as int);
                    assert(text@ =~= (old_view.text + piece@).take(k as int));
                }
                *self = OcrGeneration {
                    max_new_tokens: self.max_new_tokens,
                    token_ids,
                    token_text_ends: ends,
                    text,
                    text_bytes: trim_at,
                    stopped_on_repeat: true,
                    finished: true,
                };
                Ok(GenerationStep::Finished)
            },
            None => {
                let finished = token_ids.len() >= self.max_new_tokens;
                *self = OcrGeneration {
                    max_new_tokens: self.max_new_tokens,
                    token_ids,
                    token_text_ends: ends,
                    text,
                    text_bytes,
                    stopped_on_repeat: self.stopped_on_repeat,
                    finished,
                };
                if finished {
                    Ok(GenerationStep::Finished)
                } else {
                    Ok(GenerationStep::Continue)
                }
            },
        }
    }

    /// The result of the request: the text without surrounding white space, the kept
    /// tokens, the image size (also as the processed size) and the image token count.
    pub fn into_output(
        self,
        task: PaddleOcrVlTask,
        original_width: u32,
        original_height: u32,
        num_image_tokens: usize,
    ) -> (r: PaddleOcrVlOutput)
        ensures
            r.task == task,
            r.text@ == trimmed(self@.text),
            r.token_ids@ == self@.token_ids,
            r.original_width == original_width,
            r.original_height == original_height,
            r.processed_width == original_width,
            r.processed_height == original_height,
            r.grid_thw@ == seq![0u32, 0u32, 0u32],
            r.num_image_tokens == num_image_tokens,
    {
        let (lo, hi) = trim_range(&self.text);
        let text = string_from_chars(vstd::slice::slice_subrange(self.text.as_slice(), lo, hi));
        let grid_thw: [u32; 3] = [0, 0, 0];
        proof {
            assert(grid_thw@ =~= seq![0u32, 0u32, 0u32]);
        }
        PaddleOcrVlOutput {
            task,
            text,
            token_ids: self.token_ids,
            original_width,
            original_height,
            processed_width: original_width,
            processed_height: original_height,
            grid_thw,
            num_image_tokens,
        }
    }
}

/// What one PaddleOCR-VL request produced.
#[derive(Debug, Clone)]
pub struct PaddleOcrVlOutput {
    pub task: PaddleOcrVlTask,
    pub text: String,
    pub token_ids: Vec<u32>,
    pub original_width: u32,
    pub original_height: u32,
    pub processed_width: u32,
    pub processed_height: u32,
    pub grid_thw: [u32; 3],
    pub num_image_tokens: usize,
}

/// What the model directory scan reports of one entry.
pub struct ModelDirEntry {
    /// The file name, when it is valid UTF-8.
    pub file_name: Option<String>,
    /// The extension, when there is one and it is valid UTF-8.
    pub extension: Option<String>,
}

/// Whether a file with extension `ext` is a GGUF file: the extension is `gguf` in any
/// ASCII case.
pub open spec fn is_gguf_extension(ext: Option<Seq<char>>) -> bool {
    ext is Some && ext->0.len() == 4 && ascii_lower(ext->0[0]) == 'g' && ascii_lower(ext->0[1])
        == 'g' && ascii_lower(ext->0[2]) == 'u' && ascii_lower(ext->0[3]) == 'f'
}

/// The view of an optional string.
pub open spec fn opt_view(s: Option<String>) -> Option<Seq<char>> {
    match s {
        Some(x) => Some(x@),
        None => None,
    }
}

/// Whether an entry is a projector file: its name (empty when unknown) contains `mmproj`.
pub open spec fn names_projector(e: ModelDirEntry) -> bool {
    contains_chars(
        match e.file_name {
            Some(n) => n@,
            None => Seq::empty(),
        },
        seq!['m', 'm', 'p', 'r', 'o', 'j'],
    )
}

/// The first GGUF entry at or after `i` that is a projector file (`projector`) or is not
/// one (`!projector`).
pub open spec fn first_gguf_from(entries: Seq<ModelDirEntry>, projector: bool, i: int) -> Option<int>
    decreases entries.len() - i,
{
    if i < 0 || i >= entries.len() {
        None
    } else if is_gguf_extension(opt_view(entries[i].extension)) && names_projector(entries[i])
        == projector {
        Some(i)
    } else {
        first_gguf_from(entries, projector, i + 1)
    }
}

/// Which files of a model directory to load.
#[derive(Debug, Clone, Copy, PartialEq, Eq, Structural)]
pub enum ModelFilesChoice {
    /// The files with the published names are both there.
    Preferred,
    /// The entries at these indices hold the weights and the projector.
    Found { model: usize, mmproj: usize },
}

/// Why a model directory cannot be used.
#[derive(Debug, Clone, Copy, PartialEq, Eq, Structural)]
pub enum ModelFilesError {
    /// No GGUF file other than a projector.
    MissingModel,
    /// No GGUF projector file.
    MissingMmproj,
}

/// Whether `ext` is `gguf` in any ASCII case.
fn is_gguf(ext: &Option<String>) -> (r: bool)
    ensures
        r == is_gguf_extension(opt_view(*ext)),
{
    match ext {
        None => false,
        Some(e) => {
            let c = chars_of(e.as_str());
            if c.len() != 4 {
                return false;
            }
            let lower = |x: char| -> (y: char)
                ensures
                    y == ascii_lower(x),
                {
                    if 'A' <= x && x <= 'Z' {
                        ((x as u32) + 32) as u8 as char
                    } else {
                        x
                    }
                };
            lower(c[0]) == 'g' && lower(c[1]) == 'g' && lower(c[2]) == 'u' && lower(c[3]) == 'f'
        },
    }
}

/// Whether the entry's name contains `mmproj`.
fn is_projector(e: &ModelDirEntry) -> (r: bool)
    ensures
        r == names_projector(*e),
{
    proof {
        reveal_strlit("mmproj");
        reveal_strlit("");
        assert("mmproj"@ =~= seq!['m', 'm', 'p', 'r', 'o', 'j']);
        assert(""@ =~= Seq::<char>::empty());
    }
    match &e.file_name {
        Some(n) => contains_str(n.as_str(), "mmproj"),
        None => contains_str("", "mmproj"),
    }
}

/// The first GGUF entry that is a projector file (`projector`) or is not one.
fn find_first_gguf(entries: &[ModelDirEntry], projector: bool) -> (r: Option<usize>)
    ensures
        match r {
            Some(i) => first_gguf_from(entries@, projector, 0) == Some(i as int),
            None => first_gguf_from(entries@, projector, 0) is None,
        },
{
    let mut i: usize = 0;
    while i < entries.len()
        invariant
            i <= entries@.len(),
            first_gguf_from(entries@, projector, i as int) == first_gguf_from(entries@, projector, 0),
        decreases entries@.len() - i,
    {
        if is_gguf(&entries[i].extension) && is_projector(&entries[i]) == projector {
            return Some(i);
        }
        i = i + 1;
    }
    None
}

/// Picks the files of a model directory: the published file names when both are there;
/// otherwise the first GGUF file whose name does not contain `mmproj` as the weights and
/// the first whose name does as the projector, in the order of `entries`.
pub fn choose_model_files(preferred_present: bool, entries: &[ModelDirEntry]) -> (r: Result<ModelFilesChoice, ModelFilesError>)
    ensures
        preferred_present ==> r == Ok::<ModelFilesChoice, ModelFilesError>(ModelFilesChoice::Preferred),
        !preferred_present ==> r == (match (first_gguf_from(entries@, false, 0), first_gguf_from(entries@, true, 0)) {
            (None, _) => Err(ModelFilesError::MissingModel),
            (Some(_), None) => Err(ModelFilesError::MissingMmproj),
            (Some(m), Some(p)) => Ok(ModelFilesChoice::Found { model: m as usize, mmproj: p as usize }),
        }),
{
    if preferred_present {
        return Ok(ModelFilesChoice::Preferred);
    }
    let model = find_first_gguf(entries, false);
    let mmproj = find_first_gguf(entries, true);
    match (model, mmproj) {
        (None, _) => Err(ModelFilesError::MissingModel),
        (Some(_), None) => Err(ModelFilesError::MissingMmproj),
        (Some(m), Some(p)) => Ok(ModelFilesChoice::Found { model: m, mmproj: p }),
    }
}

/// Each position that the repeat guard reads is a char of the text that is not white space,
/// and the positions rise.
proof fn lemma_ink_positions_ink(text: Seq<char>)
    ensures
        forall|k: int|
            0 <= k < ink_positions(text).len() ==> 0 <= #[trigger] ink_positions(text)[k] < text.len()
                && !is_white_space(text[ink_positions(text)[k]]),
    decreases text.len(),
{
    if text.len() > 0 {
        lemma_ink_positions_ink(text.drop_last());
        let rest = ink_positions(text.drop_last());
        assert forall|k: int| 0 <= k < rest.len() implies text[rest[k]] == text.drop_last()[rest[k]] by {}
    }
}

/// The chars that the repeat guard compares are exactly the chars of the text that are not
/// white space, in order; none of them is white space.
pub proof fn law_ink_chars_are_the_non_white_space_chars(text: Seq<char>)
    ensures
        ink_chars(text) == text.filter(|c: char| !is_white_space(c)),
        forall|i: int| 0 <= i < ink_chars(text).len() ==> !is_white_space(#[trigger] ink_chars(text)[i]),
    decreases text.len(),
{
    reveal(Seq::filter);
    lemma_ink_positions_ink(text);
    if text.len() > 0 {
        let init = text.drop_last();
        law_ink_chars_are_the_non_white_space_chars(init);
        lemma_ink_positions_bounds(init);
        let rest = ink_positions(init);
        assert(rest.map_values(|j: int| text[j]) =~= ink_chars(init));
        if is_white_space(text.last()) {
            assert(ink_chars(text) =~= ink_chars(init));
        } else {
            assert(ink_chars(text) =~= ink_chars(init).push(text.last()));
        }
    } else {
        assert(ink_chars(text) =~= Seq::<char>::empty());
    }
}

/// Where a char at position `p` lands once a char is inserted at position `k`.
pub open spec fn shifted(p: int, k: int) -> int {
    if p >= k {
        p + 1
    } else {
        p
    }
}

proof fn lemma_ink_positions_insert(text: Seq<char>, k: int, c: char)
    requires
        0 <= k <= text.len(),
        is_white_space(c),
    ensures
        ink_positions(text.insert(k, c)) == ink_positions(text).map_values(|p: int| shifted(p, k)),
    decreases text.len(),
{
    let t2 = text.insert(k, c);
    text.insert_ensures(k, c);
    lemma_ink_positions_bounds(text);
    if k == text.len() {
        assert(t2.drop_last() =~= text);
        assert(ink_positions(text).map_values(|p: int| shifted(p, k)) =~= ink_positions(text));
    } else {
        let init = text.drop_last();
        lemma_ink_positions_insert(init, k, c);
        init.insert_ensures(k, c);
        assert(t2.drop_last() =~= init.insert(k, c));
        assert(t2.last() == text.last());
        lemma_ink_positions_bounds(init);
        let rest = ink_positions(init);
        if is_white_space(text.last()) {
            assert(ink_positions(text) == rest);
        } else {
            assert(ink_positions(text) == rest.push(text.len() - 1));
            assert(ink_positions(t2) == rest.map_values(|p: int| shifted(p, k)).push(t2.len() - 1));
            assert(rest.push(text.len() - 1).map_values(|p: int| shifted(p, k)) =~= rest.map_values(
                |p: int| shifted(p, k),
            ).push(t2.len() - 1));
        }
    }
}

/// White space between the copies makes no difference to the repeat guard: inserting a
/// white-space char anywhere in the text leaves the chars it compares unchanged, and it
/// finds the same repetition, starting at the same char of the text (one place further on
/// when the white space goes in before it).
pub proof fn law_repeat_guard_ignores_white_space(text: Seq<char>, k: int, c: char)
    requires
        0 <= k <= text.len(),
        is_white_space(c),
    ensures
        ink_chars(text.insert(k, c)) == ink_chars(text),
        repeated_suffix_index(text.insert(k, c)) == (match repeated_suffix_index(text) {
            Some(i) => Some(shifted(i, k)),
            None => None,
        }),
{
    let t2 = text.insert(k, c);
    text.insert_ensures(k, c);
    lemma_ink_positions_insert(text, k, c);
    lemma_ink_positions_bounds(text);
    let pos = ink_positions(text);
    assert forall|j: int| 0 <= j < pos.len() implies #[trigger] t2[shifted(pos[j], k)] == text[pos[j]] by {
        if pos[j] >= k {
            assert(t2[pos[j] + 1] == text[pos[j]]);
        }
    }
    assert(ink_chars(t2) =~= ink_chars(text));
    let w = ink_chars(text);
    let n = w.len() as int;
    if n >= OCR_REPEAT_MIN_TOTAL_CHARS {
        let max = max_unit_len(n);
        lemma_first_repeating_unit(w, 1, max);
        if let Some(x) = first_repeating_unit(w, 1, max) {
            lemma_run_start_from(w, x, n - x);
            let j = run_start(w, x);
            assert(0 <= j < pos.len());
            assert(ink_positions(t2)[j] == shifted(pos[j], k));
        }
    }
}

} // verus!
