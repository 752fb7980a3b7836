use quick_capture::transcription::{
    collapse_repeated_words, is_hallucination, language_seed_prompt, strip_bracketed_tokens,
    strip_filler_words, strip_hallucination_artifacts, whisper_thread_count, audio_context_size,
    effective_prompt, SEED_PT, SEED_EN, pad_audio, MIN_AUDIO_SAMPLES_16KHZ, TRAILING_SILENCE_SAMPLES,
};


#[test]
fn test_hallucination_single_word_repeat() {
    assert!(is_hallucination(
        "Obrigado Obrigado Obrigado Obrigado Obrigado"
    ));
}

#[test]
fn test_hallucination_two_word_repeat() {
    assert!(is_hallucination("E aí E aí E aí E aí E aí"));
}

#[test]
fn test_not_hallucination_normal_text() {
    assert!(!is_hallucination(
        "Olá, como vai você? Tudo bem por aqui. Vamos começar a reunião."
    ));
}

#[test]
fn test_not_hallucination_short() {
    assert!(!is_hallucination("Sim"));
    assert!(!is_hallucination("Olá pessoal"));
}

#[test]
fn test_strip_both_prefix_and_suffix() {
    let result = strip_hallucination_artifacts(
        "E aí, conteúdo real aqui. Obrigado por assistir!"
    );
    assert_eq!(result, "conteúdo real aqui.");
}

#[test]
fn test_strip_no_artifacts() {
    let result = strip_hallucination_artifacts("Uma frase normal sem artefatos.");
    assert_eq!(result, "Uma frase normal sem artefatos.");
}

#[test]
fn strip_bracketed_tokens_removes_music_and_blank() {
    assert_eq!(strip_bracketed_tokens("[MUSIC] hello [BLANK_AUDIO]"), " hello ");
    assert_eq!(strip_bracketed_tokens("(music) test"), " test");
}

#[test]
fn strip_bracketed_tokens_preserves_unclosed() {
    assert_eq!(strip_bracketed_tokens("hello [unclosed"), "hello [unclosed");
}

#[test]
fn collapse_repeated_words_deduplicates() {
    assert_eq!(collapse_repeated_words("the the the dog"), "the dog");
    assert_eq!(collapse_repeated_words("hello"), "hello");
}

#[test]
fn strip_leading_exclamation() {
    let result = strip_hallucination_artifacts("! Some text here");
    assert_eq!(result, "Some text here");
}

#[test]
fn seed_prompt_pt_returns_portuguese() {
    assert!(language_seed_prompt("pt").unwrap().contains("Olá"));
}

#[test]
fn seed_prompt_en_returns_english() {
    assert!(language_seed_prompt("en").unwrap().contains("Hello"));
}

#[test]
fn seed_prompt_unknown_returns_none() {
    assert!(language_seed_prompt("de").is_none());
}

#[test]
fn strip_en_suffix_thank_you() {
    let result = strip_hallucination_artifacts("Real content here. Thank you for watching!");
    assert_eq!(result, "Real content here.");
}

#[test]
fn strip_en_suffix_subscribe() {
    let result = strip_hallucination_artifacts("Some text. Like and subscribe!");
    assert_eq!(result, "Some text.");
}

// --- hallucination detection edge cases ---

#[test]
fn hallucination_three_word_repeat() {
    assert!(is_hallucination(
        "E aí pessoal E aí pessoal E aí pessoal E aí pessoal"
    ));
}

#[test]
fn hallucination_four_word_repeat() {
    assert!(is_hallucination(
        "a b c d a b c d a b c d a b c d"
    ));
}

#[test]
fn hallucination_empty_is_not_hallucination() {
    assert!(!is_hallucination(""));
}

#[test]
fn hallucination_three_words_is_not_hallucination() {
    assert!(!is_hallucination("one two three"));
}

#[test]
fn hallucination_partial_repeat_below_threshold() {
    assert!(!is_hallucination(
        "hello hello hello world foo bar baz qux"
    ));
}

// --- collapse_repeated_words edge cases ---

#[test]
fn collapse_case_insensitive() {
    assert_eq!(collapse_repeated_words("The the THE dog"), "The dog");
}

#[test]
fn collapse_no_repeats() {
    assert_eq!(collapse_repeated_words("all different words"), "all different words");
}

#[test]
fn collapse_empty() {
    assert_eq!(collapse_repeated_words(""), "");
}

// --- strip_bracketed_tokens edge cases ---

#[test]
fn strip_multiple_bracketed_tokens() {
    assert_eq!(
        strip_bracketed_tokens("[MUSIC] hello [BLANK_AUDIO] world (applause)"),
        " hello  world "
    );
}

#[test]
fn strip_nested_brackets_treated_as_single() {
    assert_eq!(strip_bracketed_tokens("[a [b] c]"), " c]");
}

#[test]
fn strip_empty_brackets() {
    assert_eq!(strip_bracketed_tokens("[]()text"), "text");
}

// --- strip_hallucination_artifacts combined ---

#[test]
fn strip_artifacts_all_removed_returns_empty() {
    let result = strip_hallucination_artifacts("Fala pessoal, Obrigado por assistir!");
    assert_eq!(result, "");
}

#[test]
fn strip_artifacts_bracketed_plus_prefix() {
    let result = strip_hallucination_artifacts("E aí, [MUSIC] real content here");
    assert_eq!(result, "real content here");
}

#[test]
fn strip_artifacts_repeated_words_collapsed() {
    let result = strip_hallucination_artifacts("hello hello hello world world");
    assert_eq!(result, "hello world");
}

#[test]
fn strip_pt_suffix_ate_a_proxima() {
    let result = strip_hallucination_artifacts("Conteúdo real. Até a próxima!");
    assert_eq!(result, "Conteúdo real.");
}

#[test]
fn strip_pt_prefix_fala_galera() {
    let result = strip_hallucination_artifacts("Fala galera, conteúdo real aqui");
    assert_eq!(result, "conteúdo real aqui");
}

#[test]
fn strip_en_see_you_next_time() {
    let result = strip_hallucination_artifacts("Good stuff. See you next time!");
    assert_eq!(result, "Good stuff.");
}

#[test]
fn strip_legendas_amara() {
    let result = strip_hallucination_artifacts("Texto. Legendas pela comunidade Amara.org");
    assert_eq!(result, "Texto.");
}

#[test]
fn collapse_two_word_phrase_repeat() {
    assert_eq!(collapse_repeated_words("foo bar foo bar"), "foo bar");
    assert_eq!(collapse_repeated_words("foo bar foo bar foo bar"), "foo bar");
}

#[test]
fn collapse_three_word_phrase_repeat() {
    assert_eq!(collapse_repeated_words("a b c a b c a b c"), "a b c");
}

#[test]
fn collapse_phrase_with_trailing() {
    assert_eq!(collapse_repeated_words("foo bar foo bar baz"), "foo bar baz");
}

#[test]
fn collapse_mixed_single_and_phrase() {
    assert_eq!(
        collapse_repeated_words("hello hello foo bar foo bar world"),
        "hello foo bar world"
    );
}

#[test]
fn strip_curly_braces() {
    assert_eq!(strip_bracketed_tokens("{inaudible} hello"), " hello");
    assert_eq!(strip_bracketed_tokens("text {noise}"), "text ");
}

#[test]
fn strip_curly_preserves_unclosed() {
    assert_eq!(strip_bracketed_tokens("hello {unclosed"), "hello {unclosed");
}

#[test]
fn filler_words_removed() {
    assert_eq!(strip_filler_words("uh hello um world"), "hello world");
    assert_eq!(strip_filler_words("hmm let me think ah yes"), "let me think yes");
}

#[test]
fn filler_words_case_insensitive_with_punctuation() {
    assert_eq!(strip_filler_words("Uh, well then"), "well then");
    assert_eq!(strip_filler_words("right umm... okay"), "right okay");
}

#[test]
fn filler_words_preserves_normal_text() {
    assert_eq!(strip_filler_words("this is normal text"), "this is normal text");
}

#[test]
fn strip_artifacts_with_fillers() {
    let result = strip_hallucination_artifacts("uh hello um world ah yes");
    assert_eq!(result, "hello world yes");
}

#[test]
fn thread_count_leaves_two_cpus_and_stays_in_range() {
    assert_eq!(whisper_thread_count(4), 2);
    assert_eq!(whisper_thread_count(1), 1);
    assert_eq!(whisper_thread_count(3), 1);
    assert_eq!(whisper_thread_count(10), 8);
    assert_eq!(whisper_thread_count(16), 8);
    assert_eq!(whisper_thread_count(i32::MIN), 1);
}

#[test]
fn audio_context_grows_with_audio_and_is_capped() {
    assert_eq!(audio_context_size(0), 128);
    assert_eq!(audio_context_size(48_000), 278);
    assert_eq!(audio_context_size(480_000), 1500);
    assert_eq!(audio_context_size(160_000), 628);
}

#[test]
fn effective_prompt_prefers_caller_prompt() {
    assert_eq!(effective_prompt(Some("names: Ana"), "pt"), Some("names: Ana".to_string()));
    assert_eq!(effective_prompt(Some(""), "pt"), Some(SEED_PT.to_string()));
    assert_eq!(effective_prompt(None, "en"), Some(SEED_EN.to_string()));
    assert_eq!(effective_prompt(None, "de"), None);
}

#[test]
fn pad_audio_adds_trailing_silence_and_meets_minimum() {
    let input = vec![0.5f32, -0.5, 0.25];
    let padded = pad_audio(&input, 0.0);
    assert_eq!(padded.len(), MIN_AUDIO_SAMPLES_16KHZ + TRAILING_SILENCE_SAMPLES);
    assert_eq!(&padded[..3], &input[..]);
    assert!(padded[3..].iter().all(|&s| s == 0.0));
}

#[test]
fn pad_audio_appends_silence_to_long_buffer() {
    let input = vec![0.1f32; MIN_AUDIO_SAMPLES_16KHZ + 100];
    let padded = pad_audio(&input, 0.0);
    assert_eq!(padded.len(), input.len() + TRAILING_SILENCE_SAMPLES);
}
