use prompts_cli::generator::generate_with;
use prompts_cli::{GeneratorType, LLMTextGenerator, MockTextGenerator, TextGenerator};

#[test]
fn the_mock_generator_frames_the_text() {
    let generator = MockTextGenerator;
    assert_eq!(
        generator.generate("This is a test prompt."),
        "Generated text for 'This is a test prompt.': This is a test prompt.\n(This is a mock generation)"
    );
    assert_eq!(generator.generate(""), "Generated text for '': \n(This is a mock generation)");
}

#[test]
fn the_llm_generator_frames_the_text() {
    let generator = LLMTextGenerator;
    assert_eq!(
        generator.generate("Hi"),
        "Generated text for 'Hi' using LLM: Hi\n(This is a placeholder for LLM API call)"
    );
}

#[test]
fn the_kind_picks_the_generator() {
    assert_eq!(
        generate_with(GeneratorType::Mock, "x"),
        "Generated text for 'x': x\n(This is a mock generation)"
    );
    assert_eq!(
        generate_with(GeneratorType::Llm, "x"),
        "Generated text for 'x' using LLM: x\n(This is a placeholder for LLM API call)"
    );
    assert_ne!(GeneratorType::Mock, GeneratorType::Llm);
    assert!(GeneratorType::Mock < GeneratorType::Llm);
}
