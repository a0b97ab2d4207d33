//! Text generators: what is made of the text of a prompt.

use vstd::prelude::*;
use vstd::string::*;

verus! {

/// The choice of a text generator.
#[derive(Copy, Clone, PartialEq, Eq, PartialOrd, Ord, Debug)]
pub enum GeneratorType {
    /// The mock generator.
    Mock,
    /// The generator that stands for a large language model.
    Llm,
}

/// Something that generates text from the text of a prompt. Nothing is asked
/// of what it generates.
pub trait TextGenerator {
    /// Generates text from `prompt_text`.
    fn generate(&self, prompt_text: &str) -> (text: String);
}

/// What the mock generator makes of a text.
pub open spec fn mock_text(prompt_text: Seq<char>) -> Seq<char> {
    "Generated text for '"@ + prompt_text + "': "@ + prompt_text
        + "\n(This is a mock generation)"@
}

/// What the stand-in for a language model makes of a text.
pub open spec fn llm_text(prompt_text: Seq<char>) -> Seq<char> {
    "Generated text for '"@ + prompt_text + "' using LLM: "@ + prompt_text
        + "\n(This is a placeholder for LLM API call)"@
}

/// A generator that repeats the text of the prompt in a fixed frame.
pub struct MockTextGenerator;

impl TextGenerator for MockTextGenerator {
    fn generate(&self, prompt_text: &str) -> (text: String)
        ensures
            text@ == mock_text(prompt_text@),
    {
        String::from_str("Generated text for '").concat(prompt_text).concat("': ").concat(
            prompt_text,
        ).concat("\n(This is a mock generation)")
    }
}

/// A generator that stands for a call to a large language model: it repeats
/// the text of the prompt in a fixed frame.
pub struct LLMTextGenerator;

impl TextGenerator for LLMTextGenerator {
    fn generate(&self, prompt_text: &str) -> (text: String)
        ensures
            text@ == llm_text(prompt_text@),
    {
        String::from_str("Generated text for '").concat(prompt_text).concat("' using LLM: ").concat(
            prompt_text,
        ).concat("\n(This is a placeholder for LLM API call)")
    }
}

/// Generates text with the generator of the given kind.
pub fn generate_with(kind: GeneratorType, prompt_text: &str) -> (text: String)
    ensures
        text@ == match kind {
            GeneratorType::Mock => mock_text(prompt_text@),
            GeneratorType::Llm => llm_text(prompt_text@),
        },
{
    match kind {
        GeneratorType::Mock => {
            let generator = MockTextGenerator;
            generator.generate(prompt_text)
        },
        GeneratorType::Llm => {
            let generator = LLMTextGenerator;
            generator.generate(prompt_text)
        },
    }
}

} // verus!
