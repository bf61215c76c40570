//! The local translation models, where their weights live, which languages they target and
//! how they sample by default.

use vstd::prelude::*;
use crate::language::{Language, all_language_values, all_languages, law_parse_reads_back_tags_and_names, parse_language};
use crate::text::{chars_of, chars_range_eq, joined};

verus! {

broadcast use vstd::string::group_string_axioms;

/// A local translation model.
#[derive(Debug, Clone, Copy, PartialEq, Eq, Hash, Structural)]
pub enum ModelId {
    VntlLlama3_8Bv2,
    Lfm2_5_1_2bInstruct,
    SakuraGalTransl7Bv3_7,
    Sakura1_5bQwen2_5v1_0,
    HunyuanMT7B,
    Sugoi14bUltra,
    Sugoi32bUltra,
    Gemma4E2bIt,
    Gemma4E4bIt,
    Gemma4_12bIt,
    Gemma4_26bA4bIt,
    Gemma4_31bIt,
    Gemma4E2bUncensored,
    Gemma4E4bUncensored,
    Qwen3_5_0_8b,
    Qwen3_5_2b,
    Qwen3_5_4b,
    Qwen3_5_9b,
    Qwen3_5_27b,
    Qwen3_5_35bA3b,
    Qwen3_6_27b,
    Qwen3_6_35bA3b,
    Qwen3_5_2bUncensored,
    Qwen3_5_4bUncensored,
    Qwen3_5_9bUncensored,
    Qwen3_5_27bUncensored,
    Qwen3_5_35bA3bUncensored,
    Qwen3_6_27bUncensored,
    Qwen3_6_35bA3bUncensored,
}

/// Sampling settings that a model sets in place of the generic defaults, in thousandths
/// (`temperature_milli == Some(700)` is a temperature of 0.7); `None` keeps the generic
/// default of that setting.
#[derive(Debug, Clone, Copy, PartialEq, Eq, Structural)]
pub struct SamplingDefaults {
    pub temperature_milli: Option<u32>,
    pub top_k: Option<u32>,
    pub top_p_milli: Option<u32>,
    pub min_p_milli: Option<u32>,
    pub presence_penalty_milli: Option<u32>,
    pub repeat_penalty_milli: Option<u32>,
}

/// Every model, in declaration order.
pub open spec fn all_models() -> Seq<ModelId> {
    seq![
        ModelId::VntlLlama3_8Bv2,
        ModelId::Lfm2_5_1_2bInstruct,
        ModelId::SakuraGalTransl7Bv3_7,
        ModelId::Sakura1_5bQwen2_5v1_0,
        ModelId::HunyuanMT7B,
        ModelId::Sugoi14bUltra,
        ModelId::Sugoi32bUltra,
        ModelId::Gemma4E2bIt,
        ModelId::Gemma4E4bIt,
        ModelId::Gemma4_12bIt,
        ModelId::Gemma4_26bA4bIt,
        ModelId::Gemma4_31bIt,
        ModelId::Gemma4E2bUncensored,
        ModelId::Gemma4E4bUncensored,
        ModelId::Qwen3_5_0_8b,
        ModelId::Qwen3_5_2b,
        ModelId::Qwen3_5_4b,
        ModelId::Qwen3_5_9b,
        ModelId::Qwen3_5_27b,
        ModelId::Qwen3_5_35bA3b,
        ModelId::Qwen3_6_27b,
        ModelId::Qwen3_6_35bA3b,
        ModelId::Qwen3_5_2bUncensored,
        ModelId::Qwen3_5_4bUncensored,
        ModelId::Qwen3_5_9bUncensored,
        ModelId::Qwen3_5_27bUncensored,
        ModelId::Qwen3_5_35bA3bUncensored,
        ModelId::Qwen3_6_27bUncensored,
        ModelId::Qwen3_6_35bA3bUncensored,
    ]
}

/// Every model, in declaration order.
pub fn all_model_values() -> (r: Vec<ModelId>)
    ensures
        r@ == all_models(),
{
    vec![
        ModelId::VntlLlama3_8Bv2,
        ModelId::Lfm2_5_1_2bInstruct,
        ModelId::SakuraGalTransl7Bv3_7,
        ModelId::Sakura1_5bQwen2_5v1_0,
        ModelId::HunyuanMT7B,
        ModelId::Sugoi14bUltra,
        ModelId::Sugoi32bUltra,
        ModelId::Gemma4E2bIt,
        ModelId::Gemma4E4bIt,
        ModelId::Gemma4_12bIt,
        ModelId::Gemma4_26bA4bIt,
        ModelId::Gemma4_31bIt,
        ModelId::Gemma4E2bUncensored,
        ModelId::Gemma4E4bUncensored,
        ModelId::Qwen3_5_0_8b,
        ModelId::Qwen3_5_2b,
        ModelId::Qwen3_5_4b,
        ModelId::Qwen3_5_9b,
        ModelId::Qwen3_5_27b,
        ModelId::Qwen3_5_35bA3b,
        ModelId::Qwen3_6_27b,
        ModelId::Qwen3_6_35bA3b,
        ModelId::Qwen3_5_2bUncensored,
        ModelId::Qwen3_5_4bUncensored,
        ModelId::Qwen3_5_9bUncensored,
        ModelId::Qwen3_5_27bUncensored,
        ModelId::Qwen3_5_35bA3bUncensored,
        ModelId::Qwen3_6_27bUncensored,
        ModelId::Qwen3_6_35bA3bUncensored,
    ]
}

/// The names of the properties that every model carries.
pub open spec fn is_property_name(name: Seq<char>) -> bool {
    ||| name == seq!['r', 'e', 'p', 'o']
    ||| name == seq!['f', 'i', 'l', 'e', 'n', 'a', 'm', 'e']
    ||| name == seq!['l', 'a', 'n', 'g', 'u', 'a', 'g', 'e', 's']
}

impl ModelId {
    /// The identifier of the model, such as `hunyuan-mt-7b`.
    pub open spec fn spec_id(self) -> Seq<char> {
        match self {
            ModelId::VntlLlama3_8Bv2 => seq!['v', 'n', 't', 'l', '-', 'l', 'l', 'a', 'm', 'a', '3', '-', '8', 'b', '-', 'v', '2'],
            ModelId::Lfm2_5_1_2bInstruct => seq!['l', 'f', 'm', '2', '.', '5', '-', '1', '.', '2', 'b', '-', 'i', 'n', 's', 't', 'r', 'u', 'c', 't'],
            ModelId::SakuraGalTransl7Bv3_7 => seq!['s', 'a', 'k', 'u', 'r', 'a', '-', 'g', 'a', 'l', 't', 'r', 'a', 'n', 's', 'l', '-', '7', 'b', '-', 'v', '3', '.', '7'],
            ModelId::Sakura1_5bQwen2_5v1_0 => seq!['s', 'a', 'k', 'u', 'r', 'a', '-', '1', '.', '5', 'b', '-', 'q', 'w', 'e', 'n', '2', '.', '5', '-', 'v', '1', '.', '0'],
            ModelId::HunyuanMT7B => seq!['h', 'u', 'n', 'y', 'u', 'a', 'n', '-', 'm', 't', '-', '7', 'b'],
            ModelId::Sugoi14bUltra => seq!['s', 'u', 'g', 'o', 'i', '-', '1', '4', 'b', '-', 'u', 'l', 't', 'r', 'a'],
            ModelId::Sugoi32bUltra => seq!['s', 'u', 'g', 'o', 'i', '-', '3', '2', 'b', '-', 'u', 'l', 't', 'r', 'a'],
            ModelId::Gemma4E2bIt => seq!['g', 'e', 'm', 'm', 'a', '4', '-', 'e', '2', 'b', '-', 'i', 't'],
            ModelId::Gemma4E4bIt => seq!['g', 'e', 'm', 'm', 'a', '4', '-', 'e', '4', 'b', '-', 'i', 't'],
            ModelId::Gemma4_12bIt => seq!['g', 'e', 'm', 'm', 'a', '4', '-', '1', '2', 'b', '-', 'i', 't'],
            ModelId::Gemma4_26bA4bIt => seq!['g', 'e', 'm', 'm', 'a', '4', '-', '2', '6', 'b', '-', 'a', '4', 'b', '-', 'i', 't'],
            ModelId::Gemma4_31bIt => seq!['g', 'e', 'm', 'm', 'a', '4', '-', '3', '1', 'b', '-', 'i', 't'],
            ModelId::Gemma4E2bUncensored => seq!['g', 'e', 'm', 'm', 'a', '4', '-', 'e', '2', 'b', '-', 'u', 'n', 'c', 'e', 'n', 's', 'o', 'r', 'e', 'd'],
            ModelId::Gemma4E4bUncensored => seq!['g', 'e', 'm', 'm', 'a', '4', '-', 'e', '4', 'b', '-', 'u', 'n', 'c', 'e', 'n', 's', 'o', 'r', 'e', 'd'],
            ModelId::Qwen3_5_0_8b => seq!['q', 'w', 'e', 'n', '3', '.', '5', '-', '0', '.', '8', 'b'],
            ModelId::Qwen3_5_2b => seq!['q', 'w', 'e', 'n', '3', '.', '5', '-', '2', 'b'],
            ModelId::Qwen3_5_4b => seq!['q', 'w', 'e', 'n', '3', '.', '5', '-', '4', 'b'],
            ModelId::Qwen3_5_9b => seq!['q', 'w', 'e', 'n', '3', '.', '5', '-', '9', 'b'],
            ModelId::Qwen3_5_27b => seq!['q', 'w', 'e', 'n', '3', '.', '5', '-', '2', '7', 'b'],
            ModelId::Qwen3_5_35bA3b => seq!['q', 'w', 'e', 'n', '3', '.', '5', '-', '3', '5', 'b', '-', 'a', '3', 'b'],
            ModelId::Qwen3_6_27b => seq!['q', 'w', 'e', 'n', '3', '.', '6', '-', '2', '7', 'b'],
            ModelId::Qwen3_6_35bA3b => seq!['q', 'w', 'e', 'n', '3', '.', '6', '-', '3', '5', 'b', '-', 'a', '3', 'b'],
            ModelId::Qwen3_5_2bUncensored => seq!['q', 'w', 'e', 'n', '3', '.', '5', '-', '2', 'b', '-', 'u', 'n', 'c', 'e', 'n', 's', 'o', 'r', 'e', 'd'],
            ModelId::Qwen3_5_4bUncensored => seq!['q', 'w', 'e', 'n', '3', '.', '5', '-', '4', 'b', '-', 'u', 'n', 'c', 'e', 'n', 's', 'o', 'r', 'e', 'd'],
            ModelId::Qwen3_5_9bUncensored => seq!['q', 'w', 'e', 'n', '3', '.', '5', '-', '9', 'b', '-', 'u', 'n', 'c', 'e', 'n', 's', 'o', 'r', 'e', 'd'],
            ModelId::Qwen3_5_27bUncensored => seq!['q', 'w', 'e', 'n', '3', '.', '5', '-', '2', '7', 'b', '-', 'u', 'n', 'c', 'e', 'n', 's', 'o', 'r', 'e', 'd'],
            ModelId::Qwen3_5_35bA3bUncensored => seq!['q', 'w', 'e', 'n', '3', '.', '5', '-', '3', '5', 'b', '-', 'a', '3', 'b', '-', 'u', 'n', 'c', 'e', 'n', 's', 'o', 'r', 'e', 'd'],
            ModelId::Qwen3_6_27bUncensored => seq!['q', 'w', 'e', 'n', '3', '.', '6', '-', '2', '7', 'b', '-', 'u', 'n', 'c', 'e', 'n', 's', 'o', 'r', 'e', 'd'],
            ModelId::Qwen3_6_35bA3bUncensored => seq!['q', 'w', 'e', 'n', '3', '.', '6', '-', '3', '5', 'b', '-', 'a', '3', 'b', '-', 'u', 'n', 'c', 'e', 'n', 's', 'o', 'r', 'e', 'd'],
        }
    }

    /// The Hugging Face repository that holds the weights.
    pub open spec fn spec_repo(self) -> Seq<char> {
        match self {
            ModelId::VntlLlama3_8Bv2 => seq!['l', 'm', 'g', '-', 'a', 'n', 'o', 'n', '/', 'v', 'n', 't', 'l', '-', 'l', 'l', 'a', 'm', 'a', '3', '-', '8', 'b', '-', 'v', '2', '-', 'g', 'g', 'u', 'f'],
            ModelId::Lfm2_5_1_2bInstruct => seq!['L', 'i', 'q', 'u', 'i', 'd', 'A', 'I', '/', 'L', 'F', 'M', '2', '.', '5', '-', '1', '.', '2', 'B', '-', 'I', 'n', 's', 't', 'r', 'u', 'c', 't', '-', 'G', 'G', 'U', 'F'],
            ModelId::SakuraGalTransl7Bv3_7 => seq!['S', 'a', 'k', 'u', 'r', 'a', 'L', 'L', 'M', '/', 'S', 'a', 'k', 'u', 'r', 'a', '-', 'G', 'a', 'l', 'T', 'r', 'a', 'n', 's', 'l', '-', '7', 'B', '-', 'v', '3', '.', '7'],
            ModelId::Sakura1_5bQwen2_5v1_0 => seq!['s', 'h', 'i', 'n', 'g', '3', '2', '3', '2', '/', 'S', 'a', 'k', 'u', 'r', 'a', '-', '1', '.', '5', 'B', '-', 'Q', 'w', 'e', 'n', '2', '.', '5', '-', 'v', '1', '.', '0', '-', 'G', 'G', 'U', 'F', '-', 'I', 'M', 'X'],
            ModelId::HunyuanMT7B => seq!['M', 'u', 'n', 'g', 'e', 'r', 't', '/', 'H', 'u', 'n', 'y', 'u', 'a', 'n', '-', 'M', 'T', '-', '7', 'B', '-', 'G', 'G', 'U', 'F'],
            ModelId::Sugoi14bUltra => seq!['s', 'u', 'g', 'o', 'i', 't', 'o', 'o', 'l', 'k', 'i', 't', '/', 'S', 'u', 'g', 'o', 'i', '-', '1', '4', 'B', '-', 'U', 'l', 't', 'r', 'a', '-', 'G', 'G', 'U', 'F'],
            ModelId::Sugoi32bUltra => seq!['s', 'u', 'g', 'o', 'i', 't', 'o', 'o', 'l', 'k', 'i', 't', '/', 'S', 'u', 'g', 'o', 'i', '-', '3', '2', 'B', '-', 'U', 'l', 't', 'r', 'a', '-', 'G', 'G', 'U', 'F'],
            ModelId::Gemma4E2bIt => seq!['u', 'n', 's', 'l', 'o', 't', 'h', '/', 'g', 'e', 'm', 'm', 'a', '-', '4', '-', 'E', '2', 'B', '-', 'i', 't', '-', 'G', 'G', 'U', 'F'],
            ModelId::Gemma4E4bIt => seq!['u', 'n', 's', 'l', 'o', 't', 'h', '/', 'g', 'e', 'm', 'm', 'a', '-', '4', '-', 'E', '4', 'B', '-', 'i', 't', '-', 'G', 'G', 'U', 'F'],
            ModelId::Gemma4_12bIt => seq!['u', 'n', 's', 'l', 'o', 't', 'h', '/', 'g', 'e', 'm', 'm', 'a', '-', '4', '-', '1', '2', 'b', '-', 'i', 't', '-', 'G', 'G', 'U', 'F'],
            ModelId::Gemma4_26bA4bIt => seq!['u', 'n', 's', 'l', 'o', 't', 'h', '/', 'g', 'e', 'm', 'm', 'a', '-', '4', '-', '2', '6', 'B', '-', 'A', '4', 'B', '-', 'i', 't', '-', 'G', 'G', 'U', 'F'],
            ModelId::Gemma4_31bIt => seq!['u', 'n', 's', 'l', 'o', 't', 'h', '/', 'g', 'e', 'm', 'm', 'a', '-', '4', '-', '3', '1', 'B', '-', 'i', 't', '-', 'G', 'G', 'U', 'F'],
            ModelId::Gemma4E2bUncensored => seq!['H', 'a', 'u', 'h', 'a', 'u', 'C', 'S', '/', 'G', 'e', 'm', 'm', 'a', '-', '4', '-', 'E', '2', 'B', '-', 'U', 'n', 'c', 'e', 'n', 's', 'o', 'r', 'e', 'd', '-', 'H', 'a', 'u', 'h', 'a', 'u', 'C', 'S', '-', 'A', 'g', 'g', 'r', 'e', 's', 's', 'i', 'v', 'e'],
            ModelId::Gemma4E4bUncensored => seq!['H', 'a', 'u', 'h', 'a', 'u', 'C', 'S', '/', 'G', 'e', 'm', 'm', 'a', '-', '4', '-', 'E', '4', 'B', '-', 'U', 'n', 'c', 'e', 'n', 's', 'o', 'r', 'e', 'd', '-', 'H', 'a', 'u', 'h', 'a', 'u', 'C', 'S', '-', 'A', 'g', 'g', 'r', 'e', 's', 's', 'i', 'v', 'e'],
            ModelId::Qwen3_5_0_8b => seq!['u', 'n', 's', 'l', 'o', 't', 'h', '/', 'Q', 'w', 'e', 'n', '3', '.', '5', '-', '0', '.', '8', 'B', '-', 'G', 'G', 'U', 'F'],
            ModelId::Qwen3_5_2b => seq!['u', 'n', 's', 'l', 'o', 't', 'h', '/', 'Q', 'w', 'e', 'n', '3', '.', '5', '-', '2', 'B', '-', 'G', 'G', 'U', 'F'],
            ModelId::Qwen3_5_4b => seq!['u', 'n', 's', 'l', 'o', 't', 'h', '/', 'Q', 'w', 'e', 'n', '3', '.', '5', '-', '4', 'B', '-', 'G', 'G', 'U', 'F'],
            ModelId::Qwen3_5_9b => seq!['u', 'n', 's', 'l', 'o', 't', 'h', '/', 'Q', 'w', 'e', 'n', '3', '.', '5', '-', '9', 'B', '-', 'G', 'G', 'U', 'F'],
            ModelId::Qwen3_5_27b => seq!['u', 'n', 's', 'l', 'o', 't', 'h', '/', 'Q', 'w', 'e', 'n', '3', '.', '5', '-', '2', '7', 'B', '-', 'G', 'G', 'U', 'F'],
            ModelId::Qwen3_5_35bA3b => seq!['u', 'n', 's', 'l', 'o', 't', 'h', '/', 'Q', 'w', 'e', 'n', '3', '.', '5', '-', '3', '5', 'B', '-', 'A', '3', 'B', '-', 'G', 'G', 'U', 'F'],
            ModelId::Qwen3_6_27b => seq!['u', 'n', 's', 'l', 'o', 't', 'h', '/', 'Q', 'w', 'e', 'n', '3', '.', '6', '-', '2', '7', 'B', '-', 'G', 'G', 'U', 'F'],
            ModelId::Qwen3_6_35bA3b => seq!['u', 'n', 's', 'l', 'o', 't', 'h', '/', 'Q', 'w', 'e', 'n', '3', '.', '6', '-', '3', '5', 'B', '-', 'A', '3', 'B', '-', 'G', 'G', 'U', 'F'],
            ModelId::Qwen3_5_2bUncensored => seq!['H', 'a', 'u', 'h', 'a', 'u', 'C', 'S', '/', 'Q', 'w', 'e', 'n', '3', '.', '5', '-', '2', 'B', '-', 'U', 'n', 'c', 'e', 'n', 's', 'o', 'r', 'e', 'd', '-', 'H', 'a', 'u', 'h', 'a', 'u', 'C', 'S', '-', 'A', 'g', 'g', 'r', 'e', 's', 's', 'i', 'v', 'e'],
            ModelId::Qwen3_5_4bUncensored => seq!['H', 'a', 'u', 'h', 'a', 'u', 'C', 'S', '/', 'Q', 'w', 'e', 'n', '3', '.', '5', '-', '4', 'B', '-', 'U', 'n', 'c', 'e', 'n', 's', 'o', 'r', 'e', 'd', '-', 'H', 'a', 'u', 'h', 'a', 'u', 'C', 'S', '-', 'A', 'g', 'g', 'r', 'e', 's', 's', 'i', 'v', 'e'],
            ModelId::Qwen3_5_9bUncensored => seq!['H', 'a', 'u', 'h', 'a', 'u', 'C', 'S', '/', 'Q', 'w', 'e', 'n', '3', '.', '5', '-', '9', 'B', '-', 'U', 'n', 'c', 'e', 'n', 's', 'o', 'r', 'e', 'd', '-', 'H', 'a', 'u', 'h', 'a', 'u', 'C', 'S', '-', 'A', 'g', 'g', 'r', 'e', 's', 's', 'i', 'v', 'e'],
            ModelId::Qwen3_5_27bUncensored => seq!['H', 'a', 'u', 'h', 'a', 'u', 'C', 'S', '/', 'Q', 'w', 'e', 'n', '3', '.', '5', '-', '2', '7', 'B', '-', 'U', 'n', 'c', 'e', 'n', 's', 'o', 'r', 'e', 'd', '-', 'H', 'a', 'u', 'h', 'a', 'u', 'C', 'S', '-', 'A', 'g', 'g', 'r', 'e', 's', 's', 'i', 'v', 'e'],
            ModelId::Qwen3_5_35bA3bUncensored => seq!['H', 'a', 'u', 'h', 'a', 'u', 'C', 'S', '/', 'Q', 'w', 'e', 'n', '3', '.', '5', '-', '3', '5', 'B', '-', 'A', '3', 'B', '-', 'U', 'n', 'c', 'e', 'n', 's', 'o', 'r', 'e', 'd', '-', 'H', 'a', 'u', 'h', 'a', 'u', 'C', 'S', '-', 'A', 'g', 'g', 'r', 'e', 's', 's', 'i', 'v', 'e'],
            ModelId::Qwen3_6_27bUncensored => seq!['H', 'a', 'u', 'h', 'a', 'u', 'C', 'S', '/', 'Q', 'w', 'e', 'n', '3', '.', '6', '-', '2', '7', 'B', '-', 'U', 'n', 'c', 'e', 'n', 's', 'o', 'r', 'e', 'd', '-', 'H', 'a', 'u', 'h', 'a', 'u', 'C', 'S', '-', 'A', 'g', 'g', 'r', 'e', 's', 's', 'i', 'v', 'e'],
            ModelId::Qwen3_6_35bA3bUncensored => seq!['H', 'a', 'u', 'h', 'a', 'u', 'C', 'S', '/', 'Q', 'w', 'e', 'n', '3', '.', '6', '-', '3', '5', 'B', '-', 'A', '3', 'B', '-', 'U', 'n', 'c', 'e', 'n', 's', 'o', 'r', 'e', 'd', '-', 'H', 'a', 'u', 'h', 'a', 'u', 'C', 'S', '-', 'A', 'g', 'g', 'r', 'e', 's', 's', 'i', 'v', 'e'],
        }
    }

    /// The file of the weights in that repository.
    pub open spec fn spec_filename(self) -> Seq<char> {
        match self {
            ModelId::VntlLlama3_8Bv2 => seq!['v', 'n', 't', 'l', '-', 'l', 'l', 'a', 'm', 'a', '3', '-', '8', 'b', '-', 'v', '2', '-', 'h', 'f', '-', 'q', '5', '_', 'k', '_', 'm', '.', 'g', 'g', 'u', 'f'],
            ModelId::Lfm2_5_1_2bInstruct => seq!['L', 'F', 'M', '2', '.', '5', '-', '1', '.', '2', 'B', '-', 'I', 'n', 's', 't', 'r', 'u', 'c', 't', '-', 'Q', '4', '_', 'K', '_', 'M', '.', 'g', 'g', 'u', 'f'],
            ModelId::SakuraGalTransl7Bv3_7 => seq!['S', 'a', 'k', 'u', 'r', 'a', '-', 'G', 'a', 'l', 't', 'r', 'a', 'n', 's', 'l', '-', '7', 'B', '-', 'v', '3', '.', '7', '-', 'I', 'Q', '4', '_', 'X', 'S', '.', 'g', 'g', 'u', 'f'],
            ModelId::Sakura1_5bQwen2_5v1_0 => seq!['s', 'a', 'k', 'u', 'r', 'a', '-', '1', '.', '5', 'b', '-', 'q', 'w', 'e', 'n', '2', '.', '5', '-', 'v', '1', '.', '0', '-', 'Q', '5', 'K', 'S', '.', 'g', 'g', 'u', 'f'],
            ModelId::HunyuanMT7B => seq!['H', 'u', 'n', 'y', 'u', 'a', 'n', '-', 'M', 'T', '-', '7', 'B', '-', 'q', '4', '_', 'k', '_', 'm', '.', 'g', 'g', 'u', 'f'],
            ModelId::Sugoi14bUltra => seq!['S', 'u', 'g', 'o', 'i', '-', '1', '4', 'B', '-', 'U', 'l', 't', 'r', 'a', '-', 'Q', '4', '_', 'K', '_', 'M', '.', 'g', 'g', 'u', 'f'],
            ModelId::Sugoi32bUltra => seq!['S', 'u', 'g', 'o', 'i', '-', '3', '2', 'B', '-', 'U', 'l', 't', 'r', 'a', '-', 'Q', '4', '_', 'K', '_', 'M', '.', 'g', 'g', 'u', 'f'],
            ModelId::Gemma4E2bIt => seq!['g', 'e', 'm', 'm', 'a', '-', '4', '-', 'E', '2', 'B', '-', 'i', 't', '-', 'Q', '4', '_', 'K', '_', 'M', '.', 'g', 'g', 'u', 'f'],
            ModelId::Gemma4E4bIt => seq!['g', 'e', 'm', 'm', 'a', '-', '4', '-', 'E', '4', 'B', '-', 'i', 't', '-', 'Q', '4', '_', 'K', '_', 'M', '.', 'g', 'g', 'u', 'f'],
            ModelId::Gemma4_12bIt => seq!['g', 'e', 'm', 'm', 'a', '-', '4', '-', '1', '2', 'b', '-', 'i', 't', '-', 'Q', '4', '_', 'K', '_', 'M', '.', 'g', 'g', 'u', 'f'],
            ModelId::Gemma4_26bA4bIt => seq!['g', 'e', 'm', 'm', 'a', '-', '4', '-', '2', '6', 'B', '-', 'A', '4', 'B', '-', 'i', 't', '-', 'U', 'D', '-', 'Q', '4', '_', 'K', '_', 'M', '.', 'g', 'g', 'u', 'f'],
            ModelId::Gemma4_31bIt => seq!['g', 'e', 'm', 'm', 'a', '-', '4', '-', '3', '1', 'B', '-', 'i', 't', '-', 'Q', '4', '_', 'K', '_', 'M', '.', 'g', 'g', 'u', 'f'],
            ModelId::Gemma4E2bUncensored => seq!['G', 'e', 'm', 'm', 'a', '-', '4', '-', 'E', '2', 'B', '-', 'U', 'n', 'c', 'e', 'n', 's', 'o', 'r', 'e', 'd', '-', 'H', 'a', 'u', 'h', 'a', 'u', 'C', 'S', '-', 'A', 'g', 'g', 'r', 'e', 's', 's', 'i', 'v', 'e', '-', 'Q', '4', '_', 'K', '_', 'P', '.', 'g', 'g', 'u', 'f'],
            ModelId::Gemma4E4bUncensored => seq!['G', 'e', 'm', 'm', 'a', '-', '4', '-', 'E', '4', 'B', '-', 'U', 'n', 'c', 'e', 'n', 's', 'o', 'r', 'e', 'd', '-', 'H', 'a', 'u', 'h', 'a', 'u', 'C', 'S', '-', 'A', 'g', 'g', 'r', 'e', 's', 's', 'i', 'v', 'e', '-', 'Q', '4', '_', 'K', '_', 'M', '.', 'g', 'g', 'u', 'f'],
            ModelId::Qwen3_5_0_8b => seq!['Q', 'w', 'e', 'n', '3', '.', '5', '-', '0', '.', '8', 'B', '-', 'Q', '4', '_', 'K', '_', 'M', '.', 'g', 'g', 'u', 'f'],
            ModelId::Qwen3_5_2b => seq!['Q', 'w', 'e', 'n', '3', '.', '5', '-', '2', 'B', '-', 'Q', '4', '_', 'K', '_', 'M', '.', 'g', 'g', 'u', 'f'],
            ModelId::Qwen3_5_4b => seq!['Q', 'w', 'e', 'n', '3', '.', '5', '-', '4', 'B', '-', 'Q', '4', '_', 'K', '_', 'M', '.', 'g', 'g', 'u', 'f'],
            ModelId::Qwen3_5_9b => seq!['Q', 'w', 'e', 'n', '3', '.', '5', '-', '9', 'B', '-', 'Q', '4', '_', 'K', '_', 'M', '.', 'g', 'g', 'u', 'f'],
            ModelId::Qwen3_5_27b => seq!['Q', 'w', 'e', 'n', '3', '.', '5', '-', '2', '7', 'B', '-', 'Q', '4', '_', 'K', '_', 'M', '.', 'g', 'g', 'u', 'f'],
            ModelId::Qwen3_5_35bA3b => seq!['Q', 'w', 'e', 'n', '3', '.', '5', '-', '3', '5', 'B', '-', 'A', '3', 'B', '-', 'Q', '4', '_', 'K', '_', 'M', '.', 'g', 'g', 'u', 'f'],
            ModelId::Qwen3_6_27b => seq!['Q', 'w', 'e', 'n', '3', '.', '6', '-', '2', '7', 'B', '-', 'I', 'Q', '4', '_', 'X', 'S', '.', 'g', 'g', 'u', 'f'],
            ModelId::Qwen3_6_35bA3b => seq!['Q', 'w', 'e', 'n', '3', '.', '6', '-', '3', '5', 'B', '-', 'A', '3', 'B', '-', 'U', 'D', '-', 'I', 'Q', '4', '_', 'X', 'S', '.', 'g', 'g', 'u', 'f'],
            ModelId::Qwen3_5_2bUncensored => seq!['Q', 'w', 'e', 'n', '3', '.', '5', '-', '2', 'B', '-', 'U', 'n', 'c', 'e', 'n', 's', 'o', 'r', 'e', 'd', '-', 'H', 'a', 'u', 'h', 'a', 'u', 'C', 'S', '-', 'A', 'g', 'g', 'r', 'e', 's', 's', 'i', 'v', 'e', '-', 'Q', '4', '_', 'K', '_', 'M', '.', 'g', 'g', 'u', 'f'],
            ModelId::Qwen3_5_4bUncensored => seq!['Q', 'w', 'e', 'n', '3', '.', '5', '-', '4', 'B', '-', 'U', 'n', 'c', 'e', 'n', 's', 'o', 'r', 'e', 'd', '-', 'H', 'a', 'u', 'h', 'a', 'u', 'C', 'S', '-', 'A', 'g', 'g', 'r', 'e', 's', 's', 'i', 'v', 'e', '-', 'Q', '4', '_', 'K', '_', 'M', '.', 'g', 'g', 'u', 'f'],
            ModelId::Qwen3_5_9bUncensored => seq!['Q', 'w', 'e', 'n', '3', '.', '5', '-', '9', 'B', '-', 'U', 'n', 'c', 'e', 'n', 's', 'o', 'r', 'e', 'd', '-', 'H', 'a', 'u', 'h', 'a', 'u', 'C', 'S', '-', 'A', 'g', 'g', 'r', 'e', 's', 's', 'i', 'v', 'e', '-', 'Q', '4', '_', 'K', '_', 'M', '.', 'g', 'g', 'u', 'f'],
            ModelId::Qwen3_5_27bUncensored => seq!['Q', 'w', 'e', 'n', '3', '.', '5', '-', '2', '7', 'B', '-', 'U', 'n', 'c', 'e', 'n', 's', 'o', 'r', 'e', 'd', '-', 'H', 'a', 'u', 'h', 'a', 'u', 'C', 'S', '-', 'A', 'g', 'g', 'r', 'e', 's', 's', 'i', 'v', 'e', '-', 'Q', '4', '_', 'K', '_', 'M', '.', 'g', 'g', 'u', 'f'],
            ModelId::Qwen3_5_35bA3bUncensored => seq!['Q', 'w', 'e', 'n', '3', '.', '5', '-', '3', '5', 'B', '-', 'A', '3', 'B', '-', 'U', 'n', 'c', 'e', 'n', 's', 'o', 'r', 'e', 'd', '-', 'H', 'a', 'u', 'h', 'a', 'u', 'C', 'S', '-', 'A', 'g', 'g', 'r', 'e', 's', 's', 'i', 'v', 'e', '-', 'Q', '4', '_', 'K', '_', 'M', '.', 'g', 'g', 'u', 'f'],
            ModelId::Qwen3_6_27bUncensored => seq!['Q', 'w', 'e', 'n', '3', '.', '6', '-', '2', '7', 'B', '-', 'U', 'n', 'c', 'e', 'n', 's', 'o', 'r', 'e', 'd', '-', 'H', 'a', 'u', 'h', 'a', 'u', 'C', 'S', '-', 'A', 'g', 'g', 'r', 'e', 's', 's', 'i', 'v', 'e', '-', 'I', 'Q', '4', '_', 'X', 'S', '.', 'g', 'g', 'u', 'f'],
            ModelId::Qwen3_6_35bA3bUncensored => seq!['Q', 'w', 'e', 'n', '3', '.', '6', '-', '3', '5', 'B', '-', 'A', '3', 'B', '-', 'U', 'n', 'c', 'e', 'n', 's', 'o', 'r', 'e', 'd', '-', 'H', 'a', 'u', 'h', 'a', 'u', 'C', 'S', '-', 'A', 'g', 'g', 'r', 'e', 's', 's', 'i', 'v', 'e', '-', 'I', 'Q', '4', '_', 'X', 'S', '.', 'g', 'g', 'u', 'f'],
        }
    }

    /// The tags of the languages the model translates to, separated by commas, or `*` for all.
    pub open spec fn spec_languages(self) -> Seq<char> {
        match self {
            ModelId::VntlLlama3_8Bv2 => seq!['e', 'n', '-', 'U', 'S'],
            ModelId::Lfm2_5_1_2bInstruct => seq!['e', 'n', '-', 'U', 'S', ',', 'a', 'r', '-', 'S', 'A', ',', 'z', 'h', '-', 'C', 'N', ',', 'f', 'r', '-', 'F', 'R', ',', 'd', 'e', '-', 'D', 'E', ',', 'j', 'a', '-', 'J', 'P', ',', 'k', 'o', '-', 'K', 'R', ',', 'p', 't', '-', 'P', 'T', ',', 'e', 's', '-', 'E', 'S'],
            ModelId::SakuraGalTransl7Bv3_7 => seq!['z', 'h', '-', 'C', 'N'],
            ModelId::Sakura1_5bQwen2_5v1_0 => seq!['z', 'h', '-', 'C', 'N'],
            ModelId::HunyuanMT7B => seq!['z', 'h', '-', 'C', 'N', ',', 'e', 'n', '-', 'U', 'S', ',', 'f', 'r', '-', 'F', 'R', ',', 'p', 't', '-', 'P', 'T', ',', 'p', 't', '-', 'B', 'R', ',', 'e', 's', '-', 'E', 'S', ',', 'j', 'a', '-', 'J', 'P', ',', 't', 'r', '-', 'T', 'R', ',', 'r', 'u', '-', 'R', 'U', ',', 'a', 'r', '-', 'S', 'A', ',', 'k', 'o', '-', 'K', 'R', ',', 't', 'h', '-', 'T', 'H', ',', 'i', 't', '-', 'I', 'T', ',', 'd', 'e', '-', 'D', 'E', ',', 'v', 'i', '-', 'V', 'N', ',', 'm', 's', '-', 'M', 'Y', ',', 'i', 'd', '-', 'I', 'D', ',', 'f', 'i', 'l', '-', 'P', 'H', ',', 'h', 'i', '-', 'I', 'N', ',', 'z', 'h', '-', 'T', 'W', ',', 'p', 'l', '-', 'P', 'L', ',', 'c', 's', '-', 'C', 'Z', ',', 'n', 'l', '-', 'N', 'L', ',', 'k', 'm', '-', 'K', 'H', ',', 'm', 'y', '-', 'M', 'M', ',', 'f', 'a', '-', 'I', 'R', ',', 'g', 'u', '-', 'I', 'N', ',', 'u', 'r', '-', 'P', 'K', ',', 't', 'e', '-', 'I', 'N', ',', 'm', 'r', '-', 'I', 'N', ',', 'h', 'e', '-', 'I', 'L', ',', 'b', 'n', '-', 'B', 'D', ',', 't', 'a', '-', 'I', 'N', ',', 'u', 'k', '-', 'U', 'A', ',', 'b', 'o', '-', 'C', 'N', ',', 'k', 'k', '-', 'K', 'Z', ',', 'm', 'n', '-', 'M', 'N', ',', 'u', 'g', '-', 'C', 'N', ',', 'y', 'u', 'e', '-', 'H', 'K'],
            ModelId::Sugoi14bUltra => seq!['e', 'n', '-', 'U', 'S'],
            ModelId::Sugoi32bUltra => seq!['e', 'n', '-', 'U', 'S'],
            ModelId::Gemma4E2bIt => seq!['*'],
            ModelId::Gemma4E4bIt => seq!['*'],
            ModelId::Gemma4_12bIt => seq!['*'],
            ModelId::Gemma4_26bA4bIt => seq!['*'],
            ModelId::Gemma4_31bIt => seq!['*'],
            ModelId::Gemma4E2bUncensored => seq!['*'],
            ModelId::Gemma4E4bUncensored => seq!['*'],
            ModelId::Qwen3_5_0_8b => seq!['*'],
            ModelId::Qwen3_5_2b => seq!['*'],
            ModelId::Qwen3_5_4b => seq!['*'],
            ModelId::Qwen3_5_9b => seq!['*'],
            ModelId::Qwen3_5_27b => seq!['*'],
            ModelId::Qwen3_5_35bA3b => seq!['*'],
            ModelId::Qwen3_6_27b => seq!['*'],
            ModelId::Qwen3_6_35bA3b => seq!['*'],
            ModelId::Qwen3_5_2bUncensored => seq!['*'],
            ModelId::Qwen3_5_4bUncensored => seq!['*'],
            ModelId::Qwen3_5_9bUncensored => seq!['*'],
            ModelId::Qwen3_5_27bUncensored => seq!['*'],
            ModelId::Qwen3_5_35bA3bUncensored => seq!['*'],
            ModelId::Qwen3_6_27bUncensored => seq!['*'],
            ModelId::Qwen3_6_35bA3bUncensored => seq!['*'],
        }
    }

    /// The value of the property `name` of the model.
    pub open spec fn spec_property(self, name: Seq<char>) -> Seq<char> {
        if name == seq!['r', 'e', 'p', 'o'] {
            self.spec_repo()
        } else if name == seq!['f', 'i', 'l', 'e', 'n', 'a', 'm', 'e'] {
            self.spec_filename()
        } else {
            self.spec_languages()
        }
    }

    /// The languages the model translates to.
    pub open spec fn target_languages(self) -> Seq<Language> {
        match self {
            ModelId::VntlLlama3_8Bv2 => seq![Language::English],
            ModelId::Lfm2_5_1_2bInstruct => seq![Language::English, Language::Arabic, Language::ChineseSimplified, Language::French, Language::German, Language::Japanese, Language::Korean, Language::Portuguese, Language::Spanish],
            ModelId::SakuraGalTransl7Bv3_7 => seq![Language::ChineseSimplified],
            ModelId::Sakura1_5bQwen2_5v1_0 => seq![Language::ChineseSimplified],
            ModelId::HunyuanMT7B => seq![Language::ChineseSimplified, Language::English, Language::French, Language::Portuguese, Language::BrazilianPortuguese, Language::Spanish, Language::Japanese, Language::Turkish, Language::Russian, Language::Arabic, Language::Korean, Language::Thai, Language::Italian, Language::German, Language::Vietnamese, Language::Malay, Language::Indonesian, Language::Filipino, Language::Hindi, Language::ChineseTraditional, Language::Polish, Language::Czech, Language::Dutch, Language::Khmer, Language::Burmese, Language::Persian, Language::Gujarati, Language::Urdu, Language::Telugu, Language::Marathi, Language::Hebrew, Language::Bengali, Language::Tamil, Language::Ukrainian, Language::Tibetan, Language::Kazakh, Language::Mongolian, Language::Uyghur, Language::Cantonese],
            ModelId::Sugoi14bUltra => seq![Language::English],
            ModelId::Sugoi32bUltra => seq![Language::English],
            ModelId::Gemma4E2bIt => all_languages(),
            ModelId::Gemma4E4bIt => all_languages(),
            ModelId::Gemma4_12bIt => all_languages(),
            ModelId::Gemma4_26bA4bIt => all_languages(),
            ModelId::Gemma4_31bIt => all_languages(),
            ModelId::Gemma4E2bUncensored => all_languages(),
            ModelId::Gemma4E4bUncensored => all_languages(),
            ModelId::Qwen3_5_0_8b => all_languages(),
            ModelId::Qwen3_5_2b => all_languages(),
            ModelId::Qwen3_5_4b => all_languages(),
            ModelId::Qwen3_5_9b => all_languages(),
            ModelId::Qwen3_5_27b => all_languages(),
            ModelId::Qwen3_5_35bA3b => all_languages(),
            ModelId::Qwen3_6_27b => all_languages(),
            ModelId::Qwen3_6_35bA3b => all_languages(),
            ModelId::Qwen3_5_2bUncensored => all_languages(),
            ModelId::Qwen3_5_4bUncensored => all_languages(),
            ModelId::Qwen3_5_9bUncensored => all_languages(),
            ModelId::Qwen3_5_27bUncensored => all_languages(),
            ModelId::Qwen3_5_35bA3bUncensored => all_languages(),
            ModelId::Qwen3_6_27bUncensored => all_languages(),
            ModelId::Qwen3_6_35bA3bUncensored => all_languages(),
        }
    }

    /// The sampling settings that the model sets in place of the generic defaults.
    pub open spec fn spec_sampling_defaults(self) -> SamplingDefaults {
        match self {
            ModelId::VntlLlama3_8Bv2 => SamplingDefaults { temperature_milli: None, top_k: None, top_p_milli: None, min_p_milli: None, presence_penalty_milli: None, repeat_penalty_milli: None },
            ModelId::Lfm2_5_1_2bInstruct => SamplingDefaults { temperature_milli: Some(100), top_k: Some(50), top_p_milli: None, min_p_milli: None, presence_penalty_milli: None, repeat_penalty_milli: Some(1050) },
            ModelId::SakuraGalTransl7Bv3_7 => SamplingDefaults { temperature_milli: None, top_k: None, top_p_milli: None, min_p_milli: None, presence_penalty_milli: None, repeat_penalty_milli: None },
            ModelId::Sakura1_5bQwen2_5v1_0 => SamplingDefaults { temperature_milli: None, top_k: None, top_p_milli: None, min_p_milli: None, presence_penalty_milli: None, repeat_penalty_milli: None },
            ModelId::HunyuanMT7B => SamplingDefaults { temperature_milli: None, top_k: None, top_p_milli: None, min_p_milli: None, presence_penalty_milli: None, repeat_penalty_milli: None },
            ModelId::Sugoi14bUltra => SamplingDefaults { temperature_milli: Some(100), top_k: Some(40), top_p_milli: Some(950), min_p_milli: Some(50), presence_penalty_milli: None, repeat_penalty_milli: Some(1100) },
            ModelId::Sugoi32bUltra => SamplingDefaults { temperature_milli: Some(100), top_k: Some(40), top_p_milli: Some(950), min_p_milli: Some(50), presence_penalty_milli: None, repeat_penalty_milli: Some(1100) },
            ModelId::Gemma4E2bIt => SamplingDefaults { temperature_milli: Some(1000), top_k: Some(64), top_p_milli: Some(950), min_p_milli: None, presence_penalty_milli: None, repeat_penalty_milli: Some(1000) },
            ModelId::Gemma4E4bIt => SamplingDefaults { temperature_milli: Some(1000), top_k: Some(64), top_p_milli: Some(950), min_p_milli: None, presence_penalty_milli: None, repeat_penalty_milli: Some(1000) },
            ModelId::Gemma4_12bIt => SamplingDefaults { temperature_milli: None, top_k: None, top_p_milli: None, min_p_milli: None, presence_penalty_milli: None, repeat_penalty_milli: None },
            ModelId::Gemma4_26bA4bIt => SamplingDefaults { temperature_milli: Some(1000), top_k: Some(64), top_p_milli: Some(950), min_p_milli: None, presence_penalty_milli: None, repeat_penalty_milli: Some(1000) },
            ModelId::Gemma4_31bIt => SamplingDefaults { temperature_milli: Some(1000), top_k: Some(64), top_p_milli: Some(950), min_p_milli: None, presence_penalty_milli: None, repeat_penalty_milli: Some(1000) },
            ModelId::Gemma4E2bUncensored => SamplingDefaults { temperature_milli: Some(1000), top_k: Some(64), top_p_milli: Some(950), min_p_milli: None, presence_penalty_milli: None, repeat_penalty_milli: Some(1000) },
            ModelId::Gemma4E4bUncensored => SamplingDefaults { temperature_milli: Some(1000), top_k: Some(64), top_p_milli: Some(950), min_p_milli: None, presence_penalty_milli: None, repeat_penalty_milli: Some(1000) },
            ModelId::Qwen3_5_0_8b => SamplingDefaults { temperature_milli: Some(1000), top_k: Some(20), top_p_milli: Some(1000), min_p_milli: Some(0), presence_penalty_milli: Some(2000), repeat_penalty_milli: Some(1000) },
            ModelId::Qwen3_5_2b => SamplingDefaults { temperature_milli: Some(1000), top_k: Some(20), top_p_milli: Some(1000), min_p_milli: Some(0), presence_penalty_milli: Some(2000), repeat_penalty_milli: Some(1000) },
            ModelId::Qwen3_5_4b => SamplingDefaults { temperature_milli: Some(1000), top_k: Some(20), top_p_milli: Some(1000), min_p_milli: Some(0), presence_penalty_milli: Some(2000), repeat_penalty_milli: Some(1000) },
            ModelId::Qwen3_5_9b => SamplingDefaults { temperature_milli: Some(1000), top_k: Some(20), top_p_milli: Some(1000), min_p_milli: Some(0), presence_penalty_milli: Some(2000), repeat_penalty_milli: Some(1000) },
            ModelId::Qwen3_5_27b => SamplingDefaults { temperature_milli: Some(1000), top_k: Some(20), top_p_milli: Some(1000), min_p_milli: Some(0), presence_penalty_milli: Some(2000), repeat_penalty_milli: Some(1000) },
            ModelId::Qwen3_5_35bA3b => SamplingDefaults { temperature_milli: Some(1000), top_k: Some(20), top_p_milli: Some(1000), min_p_milli: Some(0), presence_penalty_milli: Some(2000), repeat_penalty_milli: Some(1000) },
            ModelId::Qwen3_6_27b => SamplingDefaults { temperature_milli: Some(700), top_k: Some(20), top_p_milli: Some(800), min_p_milli: Some(0), presence_penalty_milli: Some(1500), repeat_penalty_milli: Some(1000) },
            ModelId::Qwen3_6_35bA3b => SamplingDefaults { temperature_milli: Some(700), top_k: Some(20), top_p_milli: Some(800), min_p_milli: Some(0), presence_penalty_milli: Some(1500), repeat_penalty_milli: Some(1000) },
            ModelId::Qwen3_5_2bUncensored => SamplingDefaults { temperature_milli: Some(1000), top_k: Some(20), top_p_milli: Some(1000), min_p_milli: Some(0), presence_penalty_milli: Some(2000), repeat_penalty_milli: Some(1000) },
            ModelId::Qwen3_5_4bUncensored => SamplingDefaults { temperature_milli: Some(1000), top_k: Some(20), top_p_milli: Some(1000), min_p_milli: Some(0), presence_penalty_milli: Some(2000), repeat_penalty_milli: Some(1000) },
            ModelId::Qwen3_5_9bUncensored => SamplingDefaults { temperature_milli: Some(1000), top_k: Some(20), top_p_milli: Some(1000), min_p_milli: Some(0), presence_penalty_milli: Some(2000), repeat_penalty_milli: Some(1000) },
            ModelId::Qwen3_5_27bUncensored => SamplingDefaults { temperature_milli: Some(1000), top_k: Some(20), top_p_milli: Some(1000), min_p_milli: Some(0), presence_penalty_milli: Some(2000), repeat_penalty_milli: Some(1000) },
            ModelId::Qwen3_5_35bA3bUncensored => SamplingDefaults { temperature_milli: Some(1000), top_k: Some(20), top_p_milli: Some(1000), min_p_milli: Some(0), presence_penalty_milli: Some(2000), repeat_penalty_milli: Some(1000) },
            ModelId::Qwen3_6_27bUncensored => SamplingDefaults { temperature_milli: Some(700), top_k: Some(20), top_p_milli: Some(800), min_p_milli: Some(0), presence_penalty_milli: Some(1500), repeat_penalty_milli: Some(1000) },
            ModelId::Qwen3_6_35bA3bUncensored => SamplingDefaults { temperature_milli: Some(700), top_k: Some(20), top_p_milli: Some(800), min_p_milli: Some(0), presence_penalty_milli: Some(1500), repeat_penalty_milli: Some(1000) },
        }
    }

    /// The identifier of the model, such as `hunyuan-mt-7b`.
    pub fn id(&self) -> (r: &'static str)
        ensures
            r@ == self.spec_id(),
    {
        match self {
            ModelId::VntlLlama3_8Bv2 => {
                proof {
                    reveal_strlit("vntl-llama3-8b-v2");
                }
                "vntl-llama3-8b-v2"
            },
            ModelId::Lfm2_5_1_2bInstruct => {
                proof {
                    reveal_strlit("lfm2.5-1.2b-instruct");
                }
                "lfm2.5-1.2b-instruct"
            },
            ModelId::SakuraGalTransl7Bv3_7 => {
                proof {
                    reveal_strlit("sakura-galtransl-7b-v3.7");
                }
                "sakura-galtransl-7b-v3.7"
            },
            ModelId::Sakura1_5bQwen2_5v1_0 => {
                proof {
                    reveal_strlit("sakura-1.5b-qwen2.5-v1.0");
                }
                "sakura-1.5b-qwen2.5-v1.0"
            },
            ModelId::HunyuanMT7B => {
                proof {
                    reveal_strlit("hunyuan-mt-7b");
                }
                "hunyuan-mt-7b"
            },
            ModelId::Sugoi14bUltra => {
                proof {
                    reveal_strlit("sugoi-14b-ultra");
                }
                "sugoi-14b-ultra"
            },
            ModelId::Sugoi32bUltra => {
                proof {
                    reveal_strlit("sugoi-32b-ultra");
                }
                "sugoi-32b-ultra"
            },
            ModelId::Gemma4E2bIt => {
                proof {
                    reveal_strlit("gemma4-e2b-it");
                }
                "gemma4-e2b-it"
            },
            ModelId::Gemma4E4bIt => {
                proof {
                    reveal_strlit("gemma4-e4b-it");
                }
                "gemma4-e4b-it"
            },
            ModelId::Gemma4_12bIt => {
                proof {
                    reveal_strlit("gemma4-12b-it");
                }
                "gemma4-12b-it"
            },
            ModelId::Gemma4_26bA4bIt => {
                proof {
                    reveal_strlit("gemma4-26b-a4b-it");
                }
                "gemma4-26b-a4b-it"
            },
            ModelId::Gemma4_31bIt => {
                proof {
                    reveal_strlit("gemma4-31b-it");
                }
                "gemma4-31b-it"
            },
            ModelId::Gemma4E2bUncensored => {
                proof {
                    reveal_strlit("gemma4-e2b-uncensored");
                }
                "gemma4-e2b-uncensored"
            },
            ModelId::Gemma4E4bUncensored => {
                proof {
                    reveal_strlit("gemma4-e4b-uncensored");
                }
                "gemma4-e4b-uncensored"
            },
            ModelId::Qwen3_5_0_8b => {
                proof {
                    reveal_strlit("qwen3.5-0.8b");
                }
                "qwen3.5-0.8b"
            },
            ModelId::Qwen3_5_2b => {
                proof {
                    reveal_strlit("qwen3.5-2b");
                }
                "qwen3.5-2b"
            },
            ModelId::Qwen3_5_4b => {
                proof {
                    reveal_strlit("qwen3.5-4b");
                }
                "qwen3.5-4b"
            },
            ModelId::Qwen3_5_9b => {
                proof {
                    reveal_strlit("qwen3.5-9b");
                }
                "qwen3.5-9b"
            },
            ModelId::Qwen3_5_27b => {
                proof {
                    reveal_strlit("qwen3.5-27b");
                }
                "qwen3.5-27b"
            },
            ModelId::Qwen3_5_35bA3b => {
                proof {
                    reveal_strlit("qwen3.5-35b-a3b");
                }
                "qwen3.5-35b-a3b"
            },
            ModelId::Qwen3_6_27b => {
                proof {
                    reveal_strlit("qwen3.6-27b");
                }
                "qwen3.6-27b"
            },
            ModelId::Qwen3_6_35bA3b => {
                proof {
                    reveal_strlit("qwen3.6-35b-a3b");
                }
                "qwen3.6-35b-a3b"
            },
            ModelId::Qwen3_5_2bUncensored => {
                proof {
                    reveal_strlit("qwen3.5-2b-uncensored");
                }
                "qwen3.5-2b-uncensored"
            },
            ModelId::Qwen3_5_4bUncensored => {
                proof {
                    reveal_strlit("qwen3.5-4b-uncensored");
                }
                "qwen3.5-4b-uncensored"
            },
            ModelId::Qwen3_5_9bUncensored => {
                proof {
                    reveal_strlit("qwen3.5-9b-uncensored");
                }
                "qwen3.5-9b-uncensored"
            },
            ModelId::Qwen3_5_27bUncensored => {
                proof {
                    reveal_strlit("qwen3.5-27b-uncensored");
                }
                "qwen3.5-27b-uncensored"
            },
            ModelId::Qwen3_5_35bA3bUncensored => {
                proof {
                    reveal_strlit("qwen3.5-35b-a3b-uncensored");
                }
                "qwen3.5-35b-a3b-uncensored"
            },
            ModelId::Qwen3_6_27bUncensored => {
                proof {
                    reveal_strlit("qwen3.6-27b-uncensored");
                }
                "qwen3.6-27b-uncensored"
            },
            ModelId::Qwen3_6_35bA3bUncensored => {
                proof {
                    reveal_strlit("qwen3.6-35b-a3b-uncensored");
                }
                "qwen3.6-35b-a3b-uncensored"
            },
        }
    }

    /// The Hugging Face repository that holds the weights.
    pub fn repo(&self) -> (r: &'static str)
        ensures
            r@ == self.spec_repo(),
    {
        match self {
            ModelId::VntlLlama3_8Bv2 => {
                proof {
                    reveal_strlit("lmg-anon/vntl-llama3-8b-v2-gguf");
                }
                "lmg-anon/vntl-llama3-8b-v2-gguf"
            },
            ModelId::Lfm2_5_1_2bInstruct => {
                proof {
                    reveal_strlit("LiquidAI/LFM2.5-1.2B-Instruct-GGUF");
                }
                "LiquidAI/LFM2.5-1.2B-Instruct-GGUF"
            },
            ModelId::SakuraGalTransl7Bv3_7 => {
                proof {
                    reveal_strlit("SakuraLLM/Sakura-GalTransl-7B-v3.7");
                }
                "SakuraLLM/Sakura-GalTransl-7B-v3.7"
            },
            ModelId::Sakura1_5bQwen2_5v1_0 => {
                proof {
                    reveal_strlit("shing3232/Sakura-1.5B-Qwen2.5-v1.0-GGUF-IMX");
                }
                "shing3232/Sakura-1.5B-Qwen2.5-v1.0-GGUF-IMX"
            },
            ModelId::HunyuanMT7B => {
                proof {
                    reveal_strlit("Mungert/Hunyuan-MT-7B-GGUF");
                }
                "Mungert/Hunyuan-MT-7B-GGUF"
            },
            ModelId::Sugoi14bUltra => {
                proof {
                    reveal_strlit("sugoitoolkit/Sugoi-14B-Ultra-GGUF");
                }
                "sugoitoolkit/Sugoi-14B-Ultra-GGUF"
            },
            ModelId::Sugoi32bUltra => {
                proof {
                    reveal_strlit("sugoitoolkit/Sugoi-32B-Ultra-GGUF");
                }
                "sugoitoolkit/Sugoi-32B-Ultra-GGUF"
            },
            ModelId::Gemma4E2bIt => {
                proof {
                    reveal_strlit("unsloth/gemma-4-E2B-it-GGUF");
                }
                "unsloth/gemma-4-E2B-it-GGUF"
            },
            ModelId::Gemma4E4bIt => {
                proof {
                    reveal_strlit("unsloth/gemma-4-E4B-it-GGUF");
                }
                "unsloth/gemma-4-E4B-it-GGUF"
            },
            ModelId::Gemma4_12bIt => {
                proof {
                    reveal_strlit("unsloth/gemma-4-12b-it-GGUF");
                }
                "unsloth/gemma-4-12b-it-GGUF"
            },
            ModelId::Gemma4_26bA4bIt => {
                proof {
                    reveal_strlit("unsloth/gemma-4-26B-A4B-it-GGUF");
                }
                "unsloth/gemma-4-26B-A4B-it-GGUF"
            },
            ModelId::Gemma4_31bIt => {
                proof {
                    reveal_strlit("unsloth/gemma-4-31B-it-GGUF");
                }
                "unsloth/gemma-4-31B-it-GGUF"
            },
            ModelId::Gemma4E2bUncensored => {
                proof {
                    reveal_strlit("HauhauCS/Gemma-4-E2B-Uncensored-HauhauCS-Aggressive");
                }
                "HauhauCS/Gemma-4-E2B-Uncensored-HauhauCS-Aggressive"
            },
            ModelId::Gemma4E4bUncensored => {
                proof {
                    reveal_strlit("HauhauCS/Gemma-4-E4B-Uncensored-HauhauCS-Aggressive");
                }
                "HauhauCS/Gemma-4-E4B-Uncensored-HauhauCS-Aggressive"
            },
            ModelId::Qwen3_5_0_8b => {
                proof {
                    reveal_strlit("unsloth/Qwen3.5-0.8B-GGUF");
                }
                "unsloth/Qwen3.5-0.8B-GGUF"
            },
            ModelId::Qwen3_5_2b => {
                proof {
                    reveal_strlit("unsloth/Qwen3.5-2B-GGUF");
                }
                "unsloth/Qwen3.5-2B-GGUF"
            },
            ModelId::Qwen3_5_4b => {
                proof {
                    reveal_strlit("unsloth/Qwen3.5-4B-GGUF");
                }
                "unsloth/Qwen3.5-4B-GGUF"
            },
            ModelId::Qwen3_5_9b => {
                proof {
                    reveal_strlit("unsloth/Qwen3.5-9B-GGUF");
                }
                "unsloth/Qwen3.5-9B-GGUF"
            },
            ModelId::Qwen3_5_27b => {
                proof {
                    reveal_strlit("unsloth/Qwen3.5-27B-GGUF");
                }
                "unsloth/Qwen3.5-27B-GGUF"
            },
            ModelId::Qwen3_5_35bA3b => {
                proof {
                    reveal_strlit("unsloth/Qwen3.5-35B-A3B-GGUF");
                }
                "unsloth/Qwen3.5-35B-A3B-GGUF"
            },
            ModelId::Qwen3_6_27b => {
                proof {
                    reveal_strlit("unsloth/Qwen3.6-27B-GGUF");
                }
                "unsloth/Qwen3.6-27B-GGUF"
            },
            ModelId::Qwen3_6_35bA3b => {
                proof {
                    reveal_strlit("unsloth/Qwen3.6-35B-A3B-GGUF");
                }
                "unsloth/Qwen3.6-35B-A3B-GGUF"
            },
            ModelId::Qwen3_5_2bUncensored => {
                proof {
                    reveal_strlit("HauhauCS/Qwen3.5-2B-Uncensored-HauhauCS-Aggressive");
                }
                "HauhauCS/Qwen3.5-2B-Uncensored-HauhauCS-Aggressive"
            },
            ModelId::Qwen3_5_4bUncensored => {
                proof {
                    reveal_strlit("HauhauCS/Qwen3.5-4B-Uncensored-HauhauCS-Aggressive");
                }
                "HauhauCS/Qwen3.5-4B-Uncensored-HauhauCS-Aggressive"
            },
            ModelId::Qwen3_5_9bUncensored => {
                proof {
                    reveal_strlit("HauhauCS/Qwen3.5-9B-Uncensored-HauhauCS-Aggressive");
                }
                "HauhauCS/Qwen3.5-9B-Uncensored-HauhauCS-Aggressive"
            },
            ModelId::Qwen3_5_27bUncensored => {
                proof {
                    reveal_strlit("HauhauCS/Qwen3.5-27B-Uncensored-HauhauCS-Aggressive");
                }
                "HauhauCS/Qwen3.5-27B-Uncensored-HauhauCS-Aggressive"
            },
            ModelId::Qwen3_5_35bA3bUncensored => {
                proof {
                    reveal_strlit("HauhauCS/Qwen3.5-35B-A3B-Uncensored-HauhauCS-Aggressive");
                }
                "HauhauCS/Qwen3.5-35B-A3B-Uncensored-HauhauCS-Aggressive"
            },
            ModelId::Qwen3_6_27bUncensored => {
                proof {
                    reveal_strlit("HauhauCS/Qwen3.6-27B-Uncensored-HauhauCS-Aggressive");
                }
                "HauhauCS/Qwen3.6-27B-Uncensored-HauhauCS-Aggressive"
            },
            ModelId::Qwen3_6_35bA3bUncensored => {
                proof {
                    reveal_strlit("HauhauCS/Qwen3.6-35B-A3B-Uncensored-HauhauCS-Aggressive");
                }
                "HauhauCS/Qwen3.6-35B-A3B-Uncensored-HauhauCS-Aggressive"
            },
        }
    }

    /// The file of the weights in that repository.
    pub fn filename(&self) -> (r: &'static str)
        ensures
            r@ == self.spec_filename(),
    {
        match self {
            ModelId::VntlLlama3_8Bv2 => {
                proof {
                    reveal_strlit("vntl-llama3-8b-v2-hf-q5_k_m.gguf");
                }
                "vntl-llama3-8b-v2-hf-q5_k_m.gguf"
            },
            ModelId::Lfm2_5_1_2bInstruct => {
                proof {
                    reveal_strlit("LFM2.5-1.2B-Instruct-Q4_K_M.gguf");
                }
                "LFM2.5-1.2B-Instruct-Q4_K_M.gguf"
            },
            ModelId::SakuraGalTransl7Bv3_7 => {
                proof {
                    reveal_strlit("Sakura-Galtransl-7B-v3.7-IQ4_XS.gguf");
                }
                "Sakura-Galtransl-7B-v3.7-IQ4_XS.gguf"
            },
            ModelId::Sakura1_5bQwen2_5v1_0 => {
                proof {
                    reveal_strlit("sakura-1.5b-qwen2.5-v1.0-Q5KS.gguf");
                }
                "sakura-1.5b-qwen2.5-v1.0-Q5KS.gguf"
            },
            ModelId::HunyuanMT7B => {
                proof {
                    reveal_strlit("Hunyuan-MT-7B-q4_k_m.gguf");
                }
                "Hunyuan-MT-7B-q4_k_m.gguf"
            },
            ModelId::Sugoi14bUltra => {
                proof {
                    reveal_strlit("Sugoi-14B-Ultra-Q4_K_M.gguf");
                }
                "Sugoi-14B-Ultra-Q4_K_M.gguf"
            },
            ModelId::Sugoi32bUltra => {
                proof {
                    reveal_strlit("Sugoi-32B-Ultra-Q4_K_M.gguf");
                }
                "Sugoi-32B-Ultra-Q4_K_M.gguf"
            },
            ModelId::Gemma4E2bIt => {
                proof {
                    reveal_strlit("gemma-4-E2B-it-Q4_K_M.gguf");
                }
                "gemma-4-E2B-it-Q4_K_M.gguf"
            },
            ModelId::Gemma4E4bIt => {
                proof {
                    reveal_strlit("gemma-4-E4B-it-Q4_K_M.gguf");
                }
                "gemma-4-E4B-it-Q4_K_M.gguf"
            },
            ModelId::Gemma4_12bIt => {
                proof {
                    reveal_strlit("gemma-4-12b-it-Q4_K_M.gguf");
                }
                "gemma-4-12b-it-Q4_K_M.gguf"
            },
            ModelId::Gemma4_26bA4bIt => {
                proof {
                    reveal_strlit("gemma-4-26B-A4B-it-UD-Q4_K_M.gguf");
                }
                "gemma-4-26B-A4B-it-UD-Q4_K_M.gguf"
            },
            ModelId::Gemma4_31bIt => {
                proof {
                    reveal_strlit("gemma-4-31B-it-Q4_K_M.gguf");
                }
                "gemma-4-31B-it-Q4_K_M.gguf"
            },
            ModelId::Gemma4E2bUncensored => {
                proof {
                    reveal_strlit("Gemma-4-E2B-Uncensored-HauhauCS-Aggressive-Q4_K_P.gguf");
                }
                "Gemma-4-E2B-Uncensored-HauhauCS-Aggressive-Q4_K_P.gguf"
            },
            ModelId::Gemma4E4bUncensored => {
                proof {
                    reveal_strlit("Gemma-4-E4B-Uncensored-HauhauCS-Aggressive-Q4_K_M.gguf");
                }
                "Gemma-4-E4B-Uncensored-HauhauCS-Aggressive-Q4_K_M.gguf"
            },
            ModelId::Qwen3_5_0_8b => {
                proof {
                    reveal_strlit("Qwen3.5-0.8B-Q4_K_M.gguf");
                }
                "Qwen3.5-0.8B-Q4_K_M.gguf"
            },
            ModelId::Qwen3_5_2b => {
                proof {
                    reveal_strlit("Qwen3.5-2B-Q4_K_M.gguf");
                }
                "Qwen3.5-2B-Q4_K_M.gguf"
            },
            ModelId::Qwen3_5_4b => {
                proof {
                    reveal_strlit("Qwen3.5-4B-Q4_K_M.gguf");
                }
                "Qwen3.5-4B-Q4_K_M.gguf"
            },
            ModelId::Qwen3_5_9b => {
                proof {
                    reveal_strlit("Qwen3.5-9B-Q4_K_M.gguf");
                }
                "Qwen3.5-9B-Q4_K_M.gguf"
            },
            ModelId::Qwen3_5_27b => {
                proof {
                    reveal_strlit("Qwen3.5-27B-Q4_K_M.gguf");
                }
                "Qwen3.5-27B-Q4_K_M.gguf"
            },
            ModelId::Qwen3_5_35bA3b => {
                proof {
                    reveal_strlit("Qwen3.5-35B-A3B-Q4_K_M.gguf");
                }
                "Qwen3.5-35B-A3B-Q4_K_M.gguf"
            },
            ModelId::Qwen3_6_27b => {
                proof {
                    reveal_strlit("Qwen3.6-27B-IQ4_XS.gguf");
                }
                "Qwen3.6-27B-IQ4_XS.gguf"
            },
            ModelId::Qwen3_6_35bA3b => {
                proof {
                    reveal_strlit("Qwen3.6-35B-A3B-UD-IQ4_XS.gguf");
                }
                "Qwen3.6-35B-A3B-UD-IQ4_XS.gguf"
            },
            ModelId::Qwen3_5_2bUncensored => {
                proof {
                    reveal_strlit("Qwen3.5-2B-Uncensored-HauhauCS-Aggressive-Q4_K_M.gguf");
                }
                "Qwen3.5-2B-Uncensored-HauhauCS-Aggressive-Q4_K_M.gguf"
            },
            ModelId::Qwen3_5_4bUncensored => {
                proof {
                    reveal_strlit("Qwen3.5-4B-Uncensored-HauhauCS-Aggressive-Q4_K_M.gguf");
                }
                "Qwen3.5-4B-Uncensored-HauhauCS-Aggressive-Q4_K_M.gguf"
            },
            ModelId::Qwen3_5_9bUncensored => {
                proof {
                    reveal_strlit("Qwen3.5-9B-Uncensored-HauhauCS-Aggressive-Q4_K_M.gguf");
                }
                "Qwen3.5-9B-Uncensored-HauhauCS-Aggressive-Q4_K_M.gguf"
            },
            ModelId::Qwen3_5_27bUncensored => {
                proof {
                    reveal_strlit("Qwen3.5-27B-Uncensored-HauhauCS-Aggressive-Q4_K_M.gguf");
                }
                "Qwen3.5-27B-Uncensored-HauhauCS-Aggressive-Q4_K_M.gguf"
            },
            ModelId::Qwen3_5_35bA3bUncensored => {
                proof {
                    reveal_strlit("Qwen3.5-35B-A3B-Uncensored-HauhauCS-Aggressive-Q4_K_M.gguf");
                }
                "Qwen3.5-35B-A3B-Uncensored-HauhauCS-Aggressive-Q4_K_M.gguf"
            },
            ModelId::Qwen3_6_27bUncensored => {
                proof {
                    reveal_strlit("Qwen3.6-27B-Uncensored-HauhauCS-Aggressive-IQ4_XS.gguf");
                }
                "Qwen3.6-27B-Uncensored-HauhauCS-Aggressive-IQ4_XS.gguf"
            },
            ModelId::Qwen3_6_35bA3bUncensored => {
                proof {
                    reveal_strlit("Qwen3.6-35B-A3B-Uncensored-HauhauCS-Aggressive-IQ4_XS.gguf");
                }
                "Qwen3.6-35B-A3B-Uncensored-HauhauCS-Aggressive-IQ4_XS.gguf"
            },
        }
    }

    /// The tags of the languages the model translates to, separated by commas, or `*`.
    pub fn language_list(&self) -> (r: &'static str)
        ensures
            r@ == self.spec_languages(),
    {
        match self {
            ModelId::VntlLlama3_8Bv2 => {
                proof {
                    reveal_strlit("en-US");
                }
                "en-US"
            },
            ModelId::Lfm2_5_1_2bInstruct => {
                proof {
                    reveal_strlit("en-US,ar-SA,zh-CN,fr-FR,de-DE,ja-JP,ko-KR,pt-PT,es-ES");
                }
                "en-US,ar-SA,zh-CN,fr-FR,de-DE,ja-JP,ko-KR,pt-PT,es-ES"
            },
            ModelId::SakuraGalTransl7Bv3_7 => {
                proof {
                    reveal_strlit("zh-CN");
                }
                "zh-CN"
            },
            ModelId::Sakura1_5bQwen2_5v1_0 => {
                proof {
                    reveal_strlit("zh-CN");
                }
                "zh-CN"
            },
            ModelId::HunyuanMT7B => {
                proof {
                    reveal_strlit("zh-CN,en-US,fr-FR,pt-PT,pt-BR,es-ES,ja-JP,tr-TR,ru-RU,ar-SA,ko-KR,th-TH,it-IT,de-DE,vi-VN,ms-MY,id-ID,fil-PH,hi-IN,zh-TW,pl-PL,cs-CZ,nl-NL,km-KH,my-MM,fa-IR,gu-IN,ur-PK,te-IN,mr-IN,he-IL,bn-BD,ta-IN,uk-UA,bo-CN,kk-KZ,mn-MN,ug-CN,yue-HK");
                }
                "zh-CN,en-US,fr-FR,pt-PT,pt-BR,es-ES,ja-JP,tr-TR,ru-RU,ar-SA,ko-KR,th-TH,it-IT,de-DE,vi-VN,ms-MY,id-ID,fil-PH,hi-IN,zh-TW,pl-PL,cs-CZ,nl-NL,km-KH,my-MM,fa-IR,gu-IN,ur-PK,te-IN,mr-IN,he-IL,bn-BD,ta-IN,uk-UA,bo-CN,kk-KZ,mn-MN,ug-CN,yue-HK"
            },
            ModelId::Sugoi14bUltra => {
                proof {
                    reveal_strlit("en-US");
                }
                "en-US"
            },
            ModelId::Sugoi32bUltra => {
                proof {
                    reveal_strlit("en-US");
                }
                "en-US"
            },
            ModelId::Gemma4E2bIt => {
                proof {
                    reveal_strlit("*");
                }
                "*"
            },
            ModelId::Gemma4E4bIt => {
                proof {
                    reveal_strlit("*");
                }
                "*"
            },
            ModelId::Gemma4_12bIt => {
                proof {
                    reveal_strlit("*");
                }
                "*"
            },
            ModelId::Gemma4_26bA4bIt => {
                proof {
                    reveal_strlit("*");
                }
                "*"
            },
            ModelId::Gemma4_31bIt => {
                proof {
                    reveal_strlit("*");
                }
                "*"
            },
            ModelId::Gemma4E2bUncensored => {
                proof {
                    reveal_strlit("*");
                }
                "*"
            },
            ModelId::Gemma4E4bUncensored => {
                proof {
                    reveal_strlit("*");
                }
                "*"
            },
            ModelId::Qwen3_5_0_8b => {
                proof {
                    reveal_strlit("*");
                }
                "*"
            },
            ModelId::Qwen3_5_2b => {
                proof {
                    reveal_strlit("*");
                }
                "*"
            },
            ModelId::Qwen3_5_4b => {
                proof {
                    reveal_strlit("*");
                }
                "*"
            },
            ModelId::Qwen3_5_9b => {
                proof {
                    reveal_strlit("*");
                }
                "*"
            },
            ModelId::Qwen3_5_27b => {
                proof {
                    reveal_strlit("*");
                }
                "*"
            },
            ModelId::Qwen3_5_35bA3b => {
                proof {
                    reveal_strlit("*");
                }
                "*"
            },
            ModelId::Qwen3_6_27b => {
                proof {
                    reveal_strlit("*");
                }
                "*"
            },
            ModelId::Qwen3_6_35bA3b => {
                proof {
                    reveal_strlit("*");
                }
                "*"
            },
            ModelId::Qwen3_5_2bUncensored => {
                proof {
                    reveal_strlit("*");
                }
                "*"
            },
            ModelId::Qwen3_5_4bUncensored => {
                proof {
                    reveal_strlit("*");
                }
                "*"
            },
            ModelId::Qwen3_5_9bUncensored => {
                proof {
                    reveal_strlit("*");
                }
                "*"
            },
            ModelId::Qwen3_5_27bUncensored => {
                proof {
                    reveal_strlit("*");
                }
                "*"
            },
            ModelId::Qwen3_5_35bA3bUncensored => {
                proof {
                    reveal_strlit("*");
                }
                "*"
            },
            ModelId::Qwen3_6_27bUncensored => {
                proof {
                    reveal_strlit("*");
                }
                "*"
            },
            ModelId::Qwen3_6_35bA3bUncensored => {
                proof {
                    reveal_strlit("*");
                }
                "*"
            },
        }
    }

    /// The value of the property `name` (`repo`, `filename` or `languages`) of the model.
    pub fn property(&self, name: &str) -> (r: &'static str)
        requires
            is_property_name(name@),
        ensures
            r@ == self.spec_property(name@),
    {
        let chars = chars_of(name);
        let repo = chars_of("repo");
        let filename = chars_of("filename");
        proof {
            reveal_strlit("repo");
            reveal_strlit("filename");
            assert(chars@.subrange(0, chars@.len() as int) =~= chars@);
            assert(repo@ =~= seq!['r', 'e', 'p', 'o']);
            assert(filename@ =~= seq!['f', 'i', 'l', 'e', 'n', 'a', 'm', 'e']);
        }
        if chars_range_eq(&chars, 0, chars.len(), &repo) {
            self.repo()
        } else if chars_range_eq(&chars, 0, chars.len(), &filename) {
            self.filename()
        } else {
            self.language_list()
        }
    }

    /// The sampling settings that the model sets in place of the generic defaults.
    pub fn default_generate_options(&self) -> (r: SamplingDefaults)
        ensures
            r == self.spec_sampling_defaults(),
    {
        match self {
            ModelId::VntlLlama3_8Bv2 => SamplingDefaults { temperature_milli: None, top_k: None, top_p_milli: None, min_p_milli: None, presence_penalty_milli: None, repeat_penalty_milli: None },
            ModelId::Lfm2_5_1_2bInstruct => SamplingDefaults { temperature_milli: Some(100), top_k: Some(50), top_p_milli: None, min_p_milli: None, presence_penalty_milli: None, repeat_penalty_milli: Some(1050) },
            ModelId::SakuraGalTransl7Bv3_7 => SamplingDefaults { temperature_milli: None, top_k: None, top_p_milli: None, min_p_milli: None, presence_penalty_milli: None, repeat_penalty_milli: None },
            ModelId::Sakura1_5bQwen2_5v1_0 => SamplingDefaults { temperature_milli: None, top_k: None, top_p_milli: None, min_p_milli: None, presence_penalty_milli: None, repeat_penalty_milli: None },
            ModelId::HunyuanMT7B => SamplingDefaults { temperature_milli: None, top_k: None, top_p_milli: None, min_p_milli: None, presence_penalty_milli: None, repeat_penalty_milli: None },
            ModelId::Sugoi14bUltra => SamplingDefaults { temperature_milli: Some(100), top_k: Some(40), top_p_milli: Some(950), min_p_milli: Some(50), presence_penalty_milli: None, repeat_penalty_milli: Some(1100) },
            ModelId::Sugoi32bUltra => SamplingDefaults { temperature_milli: Some(100), top_k: Some(40), top_p_milli: Some(950), min_p_milli: Some(50), presence_penalty_milli: None, repeat_penalty_milli: Some(1100) },
            ModelId::Gemma4E2bIt => SamplingDefaults { temperature_milli: Some(1000), top_k: Some(64), top_p_milli: Some(950), min_p_milli: None, presence_penalty_milli: None, repeat_penalty_milli: Some(1000) },
            ModelId::Gemma4E4bIt => SamplingDefaults { temperature_milli: Some(1000), top_k: Some(64), top_p_milli: Some(950), min_p_milli: None, presence_penalty_milli: None, repeat_penalty_milli: Some(1000) },
            ModelId::Gemma4_12bIt => SamplingDefaults { temperature_milli: None, top_k: None, top_p_milli: None, min_p_milli: None, presence_penalty_milli: None, repeat_penalty_milli: None },
            ModelId::Gemma4_26bA4bIt => SamplingDefaults { temperature_milli: Some(1000), top_k: Some(64), top_p_milli: Some(950), min_p_milli: None, presence_penalty_milli: None, repeat_penalty_milli: Some(1000) },
            ModelId::Gemma4_31bIt => SamplingDefaults { temperature_milli: Some(1000), top_k: Some(64), top_p_milli: Some(950), min_p_milli: None, presence_penalty_milli: None, repeat_penalty_milli: Some(1000) },
            ModelId::Gemma4E2bUncensored => SamplingDefaults { temperature_milli: Some(1000), top_k: Some(64), top_p_milli: Some(950), min_p_milli: None, presence_penalty_milli: None, repeat_penalty_milli: Some(1000) },
            ModelId::Gemma4E4bUncensored => SamplingDefaults { temperature_milli: Some(1000), top_k: Some(64), top_p_milli: Some(950), min_p_milli: None, presence_penalty_milli: None, repeat_penalty_milli: Some(1000) },
            ModelId::Qwen3_5_0_8b => SamplingDefaults { temperature_milli: Some(1000), top_k: Some(20), top_p_milli: Some(1000), min_p_milli: Some(0), presence_penalty_milli: Some(2000), repeat_penalty_milli: Some(1000) },
            ModelId::Qwen3_5_2b => SamplingDefaults { temperature_milli: Some(1000), top_k: Some(20), top_p_milli: Some(1000), min_p_milli: Some(0), presence_penalty_milli: Some(2000), repeat_penalty_milli: Some(1000) },
            ModelId::Qwen3_5_4b => SamplingDefaults { temperature_milli: Some(1000), top_k: Some(20), top_p_milli: Some(1000), min_p_milli: Some(0), presence_penalty_milli: Some(2000), repeat_penalty_milli: Some(1000) },
            ModelId::Qwen3_5_9b => SamplingDefaults { temperature_milli: Some(1000), top_k: Some(20), top_p_milli: Some(1000), min_p_milli: Some(0), presence_penalty_milli: Some(2000), repeat_penalty_milli: Some(1000) },
            ModelId::Qwen3_5_27b => SamplingDefaults { temperature_milli: Some(1000), top_k: Some(20), top_p_milli: Some(1000), min_p_milli: Some(0), presence_penalty_milli: Some(2000), repeat_penalty_milli: Some(1000) },
            ModelId::Qwen3_5_35bA3b => SamplingDefaults { temperature_milli: Some(1000), top_k: Some(20), top_p_milli: Some(1000), min_p_milli: Some(0), presence_penalty_milli: Some(2000), repeat_penalty_milli: Some(1000) },
            ModelId::Qwen3_6_27b => SamplingDefaults { temperature_milli: Some(700), top_k: Some(20), top_p_milli: Some(800), min_p_milli: Some(0), presence_penalty_milli: Some(1500), repeat_penalty_milli: Some(1000) },
            ModelId::Qwen3_6_35bA3b => SamplingDefaults { temperature_milli: Some(700), top_k: Some(20), top_p_milli: Some(800), min_p_milli: Some(0), presence_penalty_milli: Some(1500), repeat_penalty_milli: Some(1000) },
            ModelId::Qwen3_5_2bUncensored => SamplingDefaults { temperature_milli: Some(1000), top_k: Some(20), top_p_milli: Some(1000), min_p_milli: Some(0), presence_penalty_milli: Some(2000), repeat_penalty_milli: Some(1000) },
            ModelId::Qwen3_5_4bUncensored => SamplingDefaults { temperature_milli: Some(1000), top_k: Some(20), top_p_milli: Some(1000), min_p_milli: Some(0), presence_penalty_milli: Some(2000), repeat_penalty_milli: Some(1000) },
            ModelId::Qwen3_5_9bUncensored => SamplingDefaults { temperature_milli: Some(1000), top_k: Some(20), top_p_milli: Some(1000), min_p_milli: Some(0), presence_penalty_milli: Some(2000), repeat_penalty_milli: Some(1000) },
            ModelId::Qwen3_5_27bUncensored => SamplingDefaults { temperature_milli: Some(1000), top_k: Some(20), top_p_milli: Some(1000), min_p_milli: Some(0), presence_penalty_milli: Some(2000), repeat_penalty_milli: Some(1000) },
            ModelId::Qwen3_5_35bA3bUncensored => SamplingDefaults { temperature_milli: Some(1000), top_k: Some(20), top_p_milli: Some(1000), min_p_milli: Some(0), presence_penalty_milli: Some(2000), repeat_penalty_milli: Some(1000) },
            ModelId::Qwen3_6_27bUncensored => SamplingDefaults { temperature_milli: Some(700), top_k: Some(20), top_p_milli: Some(800), min_p_milli: Some(0), presence_penalty_milli: Some(1500), repeat_penalty_milli: Some(1000) },
            ModelId::Qwen3_6_35bA3bUncensored => SamplingDefaults { temperature_milli: Some(700), top_k: Some(20), top_p_milli: Some(800), min_p_milli: Some(0), presence_penalty_milli: Some(1500), repeat_penalty_milli: Some(1000) },
        }
    }

    /// The languages the model translates to: all languages, in declaration order, for a
    /// model that lists `*`, else those it lists, in its order.
    pub fn languages(&self) -> (r: Vec<Language>)
        ensures
            r@ == self.target_languages(),
    {
        match self {
            ModelId::VntlLlama3_8Bv2 => vec![Language::English],
            ModelId::Lfm2_5_1_2bInstruct => vec![Language::English, Language::Arabic, Language::ChineseSimplified, Language::French, Language::German, Language::Japanese, Language::Korean, Language::Portuguese, Language::Spanish],
            ModelId::SakuraGalTransl7Bv3_7 => vec![Language::ChineseSimplified],
            ModelId::Sakura1_5bQwen2_5v1_0 => vec![Language::ChineseSimplified],
            ModelId::HunyuanMT7B => vec![Language::ChineseSimplified, Language::English, Language::French, Language::Portuguese, Language::BrazilianPortuguese, Language::Spanish, Language::Japanese, Language::Turkish, Language::Russian, Language::Arabic, Language::Korean, Language::Thai, Language::Italian, Language::German, Language::Vietnamese, Language::Malay, Language::Indonesian, Language::Filipino, Language::Hindi, Language::ChineseTraditional, Language::Polish, Language::Czech, Language::Dutch, Language::Khmer, Language::Burmese, Language::Persian, Language::Gujarati, Language::Urdu, Language::Telugu, Language::Marathi, Language::Hebrew, Language::Bengali, Language::Tamil, Language::Ukrainian, Language::Tibetan, Language::Kazakh, Language::Mongolian, Language::Uyghur, Language::Cantonese],
            ModelId::Sugoi14bUltra => vec![Language::English],
            ModelId::Sugoi32bUltra => vec![Language::English],
            ModelId::Gemma4E2bIt => all_language_values(),
            ModelId::Gemma4E4bIt => all_language_values(),
            ModelId::Gemma4_12bIt => all_language_values(),
            ModelId::Gemma4_26bA4bIt => all_language_values(),
            ModelId::Gemma4_31bIt => all_language_values(),
            ModelId::Gemma4E2bUncensored => all_language_values(),
            ModelId::Gemma4E4bUncensored => all_language_values(),
            ModelId::Qwen3_5_0_8b => all_language_values(),
            ModelId::Qwen3_5_2b => all_language_values(),
            ModelId::Qwen3_5_4b => all_language_values(),
            ModelId::Qwen3_5_9b => all_language_values(),
            ModelId::Qwen3_5_27b => all_language_values(),
            ModelId::Qwen3_5_35bA3b => all_language_values(),
            ModelId::Qwen3_6_27b => all_language_values(),
            ModelId::Qwen3_6_35bA3b => all_language_values(),
            ModelId::Qwen3_5_2bUncensored => all_language_values(),
            ModelId::Qwen3_5_4bUncensored => all_language_values(),
            ModelId::Qwen3_5_9bUncensored => all_language_values(),
            ModelId::Qwen3_5_27bUncensored => all_language_values(),
            ModelId::Qwen3_5_35bA3bUncensored => all_language_values(),
            ModelId::Qwen3_6_27bUncensored => all_language_values(),
            ModelId::Qwen3_6_35bA3bUncensored => all_language_values(),
        }
    }
}

/// The tags of `languages`, in order.
pub open spec fn language_tags(languages: Seq<Language>) -> Seq<Seq<char>> {
    languages.map_values(|l: Language| l.spec_tag())
}

/// No language tag holds a comma.
proof fn lemma_tag_has_no_comma(l: Language)
    ensures
        forall|j: int| 0 <= j < l.spec_tag().len() ==> l.spec_tag()[j] != ',',
{
}

#[verifier::spinoff_prover]
#[verifier::rlimit(100)]
proof fn lemma_listed_languages_vntlllama3_8bv2()
    ensures
        ModelId::VntlLlama3_8Bv2.spec_languages() == joined(language_tags(ModelId::VntlLlama3_8Bv2.target_languages()), seq![',']),
{
    reveal_with_fuel(joined, 2);
    assert(joined(language_tags(ModelId::VntlLlama3_8Bv2.target_languages()), seq![',']) =~= ModelId::VntlLlama3_8Bv2.spec_languages());
}

#[verifier::spinoff_prover]
#[verifier::rlimit(100)]
proof fn lemma_listed_languages_lfm2_5_1_2binstruct()
    ensures
        ModelId::Lfm2_5_1_2bInstruct.spec_languages() == joined(language_tags(ModelId::Lfm2_5_1_2bInstruct.target_languages()), seq![',']),
{
    reveal_with_fuel(joined, 10);
    assert(joined(language_tags(ModelId::Lfm2_5_1_2bInstruct.target_languages()), seq![',']) =~= ModelId::Lfm2_5_1_2bInstruct.spec_languages());
}

#[verifier::spinoff_prover]
#[verifier::rlimit(100)]
proof fn lemma_listed_languages_sakuragaltransl7bv3_7()
    ensures
        ModelId::SakuraGalTransl7Bv3_7.spec_languages() == joined(language_tags(ModelId::SakuraGalTransl7Bv3_7.target_languages()), seq![',']),
{
    reveal_with_fuel(joined, 2);
    assert(joined(language_tags(ModelId::SakuraGalTransl7Bv3_7.target_languages()), seq![',']) =~= ModelId::SakuraGalTransl7Bv3_7.spec_languages());
}

#[verifier::spinoff_prover]
#[verifier::rlimit(100)]
proof fn lemma_listed_languages_sakura1_5bqwen2_5v1_0()
    ensures
        ModelId::Sakura1_5bQwen2_5v1_0.spec_languages() == joined(language_tags(ModelId::Sakura1_5bQwen2_5v1_0.target_languages()), seq![',']),
{
    reveal_with_fuel(joined, 2);
    assert(joined(language_tags(ModelId::Sakura1_5bQwen2_5v1_0.target_languages()), seq![',']) =~= ModelId::Sakura1_5bQwen2_5v1_0.spec_languages());
}

#[verifier::spinoff_prover]
#[verifier::rlimit(100)]
proof fn lemma_listed_languages_hunyuanmt7b()
    ensures
        ModelId::HunyuanMT7B.spec_languages() == joined(language_tags(ModelId::HunyuanMT7B.target_languages()), seq![',']),
{
    reveal_with_fuel(joined, 40);
    assert(joined(language_tags(ModelId::HunyuanMT7B.target_languages()), seq![',']) =~= ModelId::HunyuanMT7B.spec_languages());
}

#[verifier::spinoff_prover]
#[verifier::rlimit(100)]
proof fn lemma_listed_languages_sugoi14bultra()
    ensures
        ModelId::Sugoi14bUltra.spec_languages() == joined(language_tags(ModelId::Sugoi14bUltra.target_languages()), seq![',']),
{
    reveal_with_fuel(joined, 2);
    assert(joined(language_tags(ModelId::Sugoi14bUltra.target_languages()), seq![',']) =~= ModelId::Sugoi14bUltra.spec_languages());
}

#[verifier::spinoff_prover]
#[verifier::rlimit(100)]
proof fn lemma_listed_languages_sugoi32bultra()
    ensures
        ModelId::Sugoi32bUltra.spec_languages() == joined(language_tags(ModelId::Sugoi32bUltra.target_languages()), seq![',']),
{
    reveal_with_fuel(joined, 2);
    assert(joined(language_tags(ModelId::Sugoi32bUltra.target_languages()), seq![',']) =~= ModelId::Sugoi32bUltra.spec_languages());
}

/// The languages a model offers are those its `languages` property names: all languages, in
/// declaration order, when the property is `*`; otherwise the property is the tags of the
/// languages offered, in order, separated by commas, where no tag holds a comma and each tag
/// parses back to its language, so the property splits and parses into exactly them.
pub proof fn law_languages_follow_the_property(m: ModelId)
    ensures
        m.spec_languages() == seq!['*'] ==> m.target_languages() == all_languages(),
        m.spec_languages() != seq!['*'] ==> m.spec_languages() == joined(
            language_tags(m.target_languages()),
            seq![','],
        ),
        forall|i: int|
            0 <= i < m.target_languages().len() ==> parse_language(
                #[trigger] language_tags(m.target_languages())[i],
            ) == Some(m.target_languages()[i]),
        forall|i: int, j: int|
            0 <= i < m.target_languages().len() && 0 <= j < language_tags(m.target_languages())[i].len()
                ==> #[trigger] language_tags(m.target_languages())[i][j] != ',',
{
    let ls = m.target_languages();
    assert forall|i: int| 0 <= i < ls.len() implies parse_language(
        #[trigger] language_tags(ls)[i],
    ) == Some(ls[i]) by {
        law_parse_reads_back_tags_and_names(ls[i]);
    }
    assert forall|i: int, j: int|
        0 <= i < ls.len() && 0 <= j < language_tags(ls)[i].len() implies #[trigger] language_tags(ls)[i][j] != ',' by {
        lemma_tag_has_no_comma(ls[i]);
    }
    match m {
        ModelId::VntlLlama3_8Bv2 => lemma_listed_languages_vntlllama3_8bv2(),
        ModelId::Lfm2_5_1_2bInstruct => lemma_listed_languages_lfm2_5_1_2binstruct(),
        ModelId::SakuraGalTransl7Bv3_7 => lemma_listed_languages_sakuragaltransl7bv3_7(),
        ModelId::Sakura1_5bQwen2_5v1_0 => lemma_listed_languages_sakura1_5bqwen2_5v1_0(),
        ModelId::HunyuanMT7B => lemma_listed_languages_hunyuanmt7b(),
        ModelId::Sugoi14bUltra => lemma_listed_languages_sugoi14bultra(),
        ModelId::Sugoi32bUltra => lemma_listed_languages_sugoi32bultra(),
        _ => {
            assert(m.spec_languages() == seq!['*']);
        },
    }
}

} // verus!
