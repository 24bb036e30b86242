use ai_safety::analyzer::{keeps_char, keeps_punctuation, AnalysisError, TextAnalyzer, MAX_INPUT_BYTES};
use ai_safety::sentiment::{tally_sentiment, SentimentCounts};

#[test]
fn test_input_validation() {
    let analyzer = TextAnalyzer::new().unwrap();

    // Test empty input
    assert!(matches!(
        analyzer.sanitize_input(""),
        Err(AnalysisError::EmptyInput)
    ));

    // Test valid input
    let result = analyzer.sanitize_input("Hello, world!");
    assert!(result.is_ok());
}

#[test]
fn test_analysis() {
    let mut analyzer = TextAnalyzer::new().unwrap();
    let request = analyzer.begin_analysis("I love this!");
    assert!(request.is_ok());
    let counts = tally_sentiment(&request.unwrap());
    let result = analyzer.finish_analysis(Ok(counts));
    assert!(result.is_ok());
    assert_eq!(result.unwrap(), SentimentCounts { positive: 1, negative: 0 });
}

#[test]
fn size_limit_is_ten_thousand_bytes() {
    assert_eq!(MAX_INPUT_BYTES, 10_000);
}

#[test]
fn clean_text_passes_unchanged() {
    let analyzer = TextAnalyzer::new().unwrap();
    assert_eq!(analyzer.sanitize_input("Hello, world!").unwrap(), "Hello, world!");
    assert_eq!(
        analyzer.sanitize_input("It's fine - isn't it? Yes.").unwrap(),
        "It's fine - isn't it? Yes."
    );
}

#[test]
fn other_characters_are_stripped() {
    let analyzer = TextAnalyzer::new().unwrap();
    assert_eq!(
        analyzer.sanitize_input("Hi <b>there</b> @you #1; $5 (ok) [x] {y}").unwrap(),
        "Hi bthereb you 1 5 ok x y"
    );
    assert_eq!(analyzer.sanitize_input("a\"b:c;d/e\\f_g+h=i*j&k%l").unwrap(), "abcdefghijkl");
}

#[test]
fn white_space_of_every_kind_is_kept() {
    let analyzer = TextAnalyzer::new().unwrap();
    assert_eq!(analyzer.sanitize_input("a\tb\nc\r\nd e").unwrap(), "a\tb\nc\r\nd e");
    assert_eq!(analyzer.sanitize_input("a\u{a0}b\u{2003}c").unwrap(), "a\u{a0}b\u{2003}c");
}

#[test]
fn letters_and_digits_of_other_scripts_are_kept() {
    let analyzer = TextAnalyzer::new().unwrap();
    assert_eq!(analyzer.sanitize_input("héllo wörld ñ ß").unwrap(), "héllo wörld ñ ß");
    assert_eq!(analyzer.sanitize_input("藏 ٣ ¾ ① K").unwrap(), "藏 ٣ ¾ ① K");
    assert_eq!(analyzer.sanitize_input("smile 😀 — done…").unwrap(), "smile   done");
}

#[test]
fn nothing_but_stripped_characters_leaves_an_empty_text() {
    let analyzer = TextAnalyzer::new().unwrap();
    assert_eq!(analyzer.sanitize_input("@#$%^&*()").unwrap(), "");
}

#[test]
fn input_of_exactly_the_limit_passes() {
    let analyzer = TextAnalyzer::new().unwrap();
    let input = "a".repeat(10_000);
    assert_eq!(analyzer.sanitize_input(&input).unwrap(), input);
}

#[test]
fn input_over_the_limit_is_too_large() {
    let analyzer = TextAnalyzer::new().unwrap();
    let input = "a".repeat(10_001);
    assert!(matches!(analyzer.sanitize_input(&input), Err(AnalysisError::InputTooLarge)));
}

#[test]
fn the_limit_counts_bytes_not_characters() {
    let analyzer = TextAnalyzer::new().unwrap();
    let fits = "é".repeat(5_000);
    assert_eq!(analyzer.sanitize_input(&fits).unwrap(), fits);
    let too_large = "é".repeat(5_001);
    assert!(matches!(analyzer.sanitize_input(&too_large), Err(AnalysisError::InputTooLarge)));
}

#[test]
fn the_size_is_judged_before_stripping() {
    let analyzer = TextAnalyzer::new().unwrap();
    let input = "#".repeat(10_001);
    assert!(matches!(analyzer.sanitize_input(&input), Err(AnalysisError::InputTooLarge)));
}

#[test]
fn kept_punctuation_marks() {
    for c in ['.', ',', '!', '?', '\'', '-'] {
        assert!(keeps_punctuation(c), "{c:?}");
    }
    for c in [';', ':', '"', '_', '(', ' ', 'a', '1', '`', '\u{2019}', '\u{2013}'] {
        assert!(!keeps_punctuation(c), "{c:?}");
    }
}

#[test]
fn a_character_is_kept_for_any_one_reason() {
    assert!(keeps_char('x', true, false));
    assert!(keeps_char(' ', false, true));
    assert!(keeps_char('!', false, false));
    assert!(keeps_char('!', true, true));
    assert!(!keeps_char('x', false, false));
    assert!(!keeps_char('@', false, false));
}

#[test]
fn begin_hands_back_the_sanitized_text() {
    let analyzer = TextAnalyzer::new().unwrap();
    assert_eq!(analyzer.begin_analysis("Great <stuff>!").unwrap(), "Great stuff!");
}

#[test]
fn begin_refuses_bad_input() {
    let analyzer = TextAnalyzer::new().unwrap();
    assert!(matches!(analyzer.begin_analysis(""), Err(AnalysisError::EmptyInput)));
    let input = "a".repeat(10_001);
    assert!(matches!(analyzer.begin_analysis(&input), Err(AnalysisError::InputTooLarge)));
}

#[test]
fn three_failed_analyses_open_the_guard() {
    let mut analyzer = TextAnalyzer::new().unwrap();
    for round in 0..3 {
        assert!(analyzer.begin_analysis("fine").is_ok(), "round {round}");
        let outcome: Result<u8, AnalysisError> =
            Err(AnalysisError::ApiError("service down".to_string()));
        let handed_back = analyzer.finish_analysis(outcome);
        assert!(matches!(handed_back, Err(AnalysisError::ApiError(detail)) if detail == "service down"));
    }
    assert!(matches!(analyzer.begin_analysis("fine"), Err(AnalysisError::CircuitBreakerOpen)));
}

#[test]
fn bad_input_is_reported_before_the_open_guard() {
    let mut analyzer = TextAnalyzer::new().unwrap();
    for _ in 0..3 {
        let _ = analyzer.finish_analysis::<u8>(Err(AnalysisError::ApiError(String::new())));
    }
    assert!(matches!(analyzer.begin_analysis("ok"), Err(AnalysisError::CircuitBreakerOpen)));
    assert!(matches!(analyzer.begin_analysis(""), Err(AnalysisError::EmptyInput)));
    let input = "a".repeat(10_001);
    assert!(matches!(analyzer.begin_analysis(&input), Err(AnalysisError::InputTooLarge)));
}

#[test]
fn a_successful_analysis_closes_the_guard_again() {
    let mut analyzer = TextAnalyzer::new().unwrap();
    for _ in 0..5 {
        let _ = analyzer.finish_analysis::<u8>(Err(AnalysisError::CircuitBreakerOpen));
    }
    assert!(analyzer.begin_analysis("ok").is_err());
    assert_eq!(analyzer.finish_analysis(Ok(7u8)).unwrap(), 7);
    assert_eq!(analyzer.begin_analysis("ok").unwrap(), "ok");
}

#[test]
fn two_failures_leave_the_guard_closed() {
    let mut analyzer = TextAnalyzer::new().unwrap();
    for _ in 0..2 {
        let _ = analyzer.finish_analysis::<u8>(Err(AnalysisError::ApiError(String::new())));
    }
    assert!(analyzer.begin_analysis("ok").is_ok());
}

#[test]
fn error_messages() {
    assert_eq!(AnalysisError::EmptyInput.message(), "Input text is empty");
    assert_eq!(AnalysisError::InputTooLarge.message(), "Input text too large");
    assert_eq!(
        AnalysisError::ApiError("status 503".to_string()).message(),
        "API error: status 503"
    );
    assert_eq!(AnalysisError::ApiError(String::new()).message(), "API error: ");
    assert_eq!(AnalysisError::CircuitBreakerOpen.message(), "Circuit breaker open");
}
