use mailsync::llm::{sorted_models, text_before_or_same, AIModel};
use mailsync::llm::{
    after_failure, chat_completions_url, check_answer, extract_json, models_url,
    required_key_list, unquote, AiError, AiSettings, RetryStep,
};

#[test]
fn json_object_is_cut_out() {
    assert_eq!(extract_json("  {\"a\": 1}  "), "{\"a\": 1}");
    assert_eq!(extract_json("Here you go: {\"a\": {\"b\": 2}} thanks"), "{\"a\": {\"b\": 2}}");
    assert_eq!(extract_json("```json\n{\"a\": 1}\n```"), "{\"a\": 1}");
    assert_eq!(extract_json("{}"), "{}");
}

#[test]
fn fences_are_stripped_where_there_is_no_object() {
    assert_eq!(extract_json("```json\n[1, 2]\n```"), "[1, 2]");
    assert_eq!(extract_json("```\nnull\n```"), "null");
    assert_eq!(extract_json("``````json true ``````"), "json true");
    assert_eq!(extract_json("  plain  "), "plain");
    assert_eq!(extract_json(""), "");
    assert_eq!(extract_json("```json```"), "");
    assert_eq!(extract_json("only { here"), "only { here");
    assert_eq!(extract_json("only } here"), "only } here");
    assert_eq!(extract_json("} before {"), "} before {");
}

#[test]
fn service_addresses() {
    assert_eq!(models_url("https://api.example.com/v1"), "https://api.example.com/v1/models");
    assert_eq!(models_url("https://api.example.com/v1///"), "https://api.example.com/v1/models");
    assert_eq!(models_url("https://api.example.com/v1/models"), "https://api.example.com/v1/models");
    assert_eq!(models_url("https://api.example.com/v1/models/"), "https://api.example.com/v1/models/models");
    assert_eq!(models_url(""), "/models");
    assert_eq!(
        chat_completions_url("https://api.openai.com/v1/"),
        "https://api.openai.com/v1/chat/completions"
    );
    assert_eq!(chat_completions_url("//"), "/chat/completions");
}

#[test]
fn stored_values_are_unquoted() {
    assert_eq!(unquote("\"sk-123\"".to_string()), "sk-123");
    assert_eq!(unquote("\"a\\\"b\"".to_string()), "a\"b");
    assert_eq!(unquote("sk-123".to_string()), "sk-123");
    assert_eq!(unquote("12".to_string()), "12");
    assert_eq!(unquote("".to_string()), "");
}

#[test]
fn settings_from_rows() {
    let rows = vec![
        ("aiModel".to_string(), "\"gpt\"".to_string()),
        ("other".to_string(), "\"x\"".to_string()),
        ("aiApiKey".to_string(), "key".to_string()),
        ("aiModel".to_string(), "\"gpt-2\"".to_string()),
    ];
    let settings = AiSettings::from_rows(&rows);
    assert_eq!(settings.api_key, "key");
    assert_eq!(settings.model, "gpt-2");
    assert_eq!(settings.base_url, "https://api.openai.com/v1");
    assert_eq!(settings.check_configured(), Ok(()));

    let rows = vec![("aiBaseUrl".to_string(), "\"http://localhost:1234/v1\"".to_string())];
    let settings = AiSettings::from_rows(&rows);
    assert_eq!(settings.base_url, "http://localhost:1234/v1");
    assert_eq!(settings.check_configured(), Err(AiError::NotConfigured));
    let settings = AiSettings::from_rows(&vec![("aiApiKey".to_string(), "k".to_string())]);
    assert_eq!(settings.check_configured(), Err(AiError::NotConfigured));
}

#[test]
fn answers_are_checked_for_their_keys() {
    let full = "{\"name\":null,\"job_title\":null,\"company\":\"X\",\"is_personal_email\":true,\"is_automated_mailer\":false}";
    assert_eq!(check_answer(full), Ok(()));
    assert_eq!(check_answer("{}"), Err(AiError::MissingKey { index: 0 }));
    assert_eq!(
        check_answer("{\"name\":1,\"job_title\":2,\"is_personal_email\":true}"),
        Err(AiError::MissingKey { index: 2 })
    );
    assert_eq!(
        check_answer("{\"name\":1,\"job_title\":2,\"company\":3,\"is_personal_email\":true}"),
        Err(AiError::MissingKey { index: 4 })
    );
    assert_eq!(check_answer("not json"), Err(AiError::InvalidJson));
    assert_eq!(check_answer("[1]"), Err(AiError::MissingKey { index: 0 }));
}

#[test]
fn two_attempts_with_a_second_between() {
    assert_eq!(after_failure(1), RetryStep::RetryAfter { millis: 1000 });
    assert_eq!(after_failure(2), RetryStep::GiveUp);
    assert_eq!(after_failure(3), RetryStep::GiveUp);
    assert_eq!(after_failure(0), RetryStep::RetryAfter { millis: 0 });
}

#[test]
fn models_are_sorted_by_identifier() {
    let models: Vec<AIModel> = ["gpt-4", "ada", "gpt-3.5", "ada", "", "Zeta", "gpt-4o", "é"]
        .iter()
        .map(|id| AIModel { id: id.to_string() })
        .collect();
    let ids: Vec<String> = sorted_models(&models).into_iter().map(|m| m.id).collect();
    assert_eq!(ids, vec!["", "Zeta", "ada", "ada", "gpt-3.5", "gpt-4", "gpt-4o", "é"]);
    let mut expected: Vec<String> = models.iter().map(|m| m.id.clone()).collect();
    expected.sort();
    assert_eq!(ids, expected);
    assert!(sorted_models(&Vec::new()).is_empty());
    let a: Vec<char> = "ab".chars().collect();
    let b: Vec<char> = "abc".chars().collect();
    assert!(text_before_or_same(&a, &b));
    assert!(!text_before_or_same(&b, &a));
    assert!(text_before_or_same(&a, &a));
}

#[test]
fn errors_have_their_words_and_name_the_missing_key() {
    assert_eq!(AiError::NotConfigured.message(), "AI API Key or Model not configured");
    assert_eq!(AiError::InvalidJson.message(), "Failed to parse JSON");
    assert_eq!(
        AiError::MissingKey { index: 0 }.message(),
        "Missing required key 'name' in AI response"
    );
    assert_eq!(
        AiError::MissingKey { index: 4 }.message(),
        "Missing required key 'is_automated_mailer' in AI response"
    );
    assert_eq!(AiError::MissingKey { index: 5 }.message(), "Missing required key in AI response");
    assert_eq!(
        required_key_list(),
        vec!["name", "job_title", "company", "is_personal_email", "is_automated_mailer"]
    );
}

#[test]
fn extracted_object_has_no_white_space_around_it() {
    assert_eq!(extract_json(" \u{3000}\n{ \"a\": 1 }\u{00A0}\t"), "{ \"a\": 1 }");
    assert_eq!(extract_json("x { \"a\": 1 } y"), "{ \"a\": 1 }");
    assert_eq!(extract_json("```json \n [1] \n ```"), "[1]");
    assert_eq!(extract_json(" \u{2028} "), "");
    assert_eq!(extract_json("\u{200B}{}"), "{}");
    assert_eq!(extract_json("\u{200B}[]"), "\u{200B}[]");
}
