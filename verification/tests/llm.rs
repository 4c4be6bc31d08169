use betterbot::base::scalar::Scalar;
use betterbot::base::settings::Environment;
use betterbot::vault::llm::{
    parse_decision_dsl, ChatCompletionResponse, DecisionAction, DecisionUncertainty, DslError, LlmError, LlmUsage,
    OpenRouterClient, ParsedDecisionDsl,
};

fn scalar(x: f64) -> Scalar {
    if x.is_nan() {
        Scalar::Undefined
    } else {
        let b = x.to_bits() as i64;
        Scalar::Rank(if b < 0 { i64::MIN.wrapping_sub(b) } else { b })
    }
}

fn number(s: Scalar) -> f64 {
    match s {
        Scalar::Undefined => f64::NAN,
        Scalar::Rank(a) => {
            if a < 0 {
                -f64::from_bits((-a) as u64)
            } else {
                f64::from_bits(a as u64)
            }
        }
    }
}

fn read(dsl: &str) -> Result<ParsedDecisionDsl, DslError> {
    let lines = parse_decision_dsl(dsl)?;
    let p = lines.p_true_text.as_ref().and_then(|t| t.parse::<f64>().ok()).map(scalar);
    let m = lines.size_mult_text.as_ref().and_then(|t| t.parse::<f64>().ok()).map(scalar);
    Ok(lines.with_numbers(p, m))
}

#[test]
fn parse_dsl_buy_yes() {
    let dsl = "ACTION=BUY\nOUTCOME=YES\nP_TRUE=0.62\nUNCERTAINTY=LOW\nSIZE_MULT=0.50\nFLAGS=\nRATIONALE_HASH=abc";
    let parsed = read(dsl).unwrap();
    assert_eq!(parsed.action, DecisionAction::Buy);
    assert_eq!(parsed.outcome_raw.as_deref(), Some("YES"));
    assert_eq!(parsed.p_true.map(number), Some(0.62));
    assert_eq!(parsed.size_mult.map(number), Some(0.5));
    assert_eq!(parsed.uncertainty, Some(DecisionUncertainty::Low));
    assert_eq!(parsed.rationale_hash.as_deref(), Some("abc"));
    assert!(parsed.flags.is_empty());
    assert!(parsed.is_buy());
}

#[test]
fn parse_dsl_unknown_key_rejected() {
    let dsl = "ACTION=BUY\nWAT=NO\n";
    assert!(read(dsl).is_err());
    assert!(matches!(read(dsl), Err(DslError::UnknownKey(k)) if k == "WAT"));
}

#[test]
fn an_action_and_an_outcome_are_needed() {
    assert!(matches!(read("OUTCOME=YES"), Err(DslError::MissingAction)));
    assert!(matches!(read("ACTION=BUY"), Err(DslError::MissingOutcome)));
    assert!(read("ACTION=HOLD").is_ok());
}

#[test]
fn numbers_are_held_between_their_bounds() {
    let parsed = read("ACTION=BUY\nOUTCOME=NO\nP_TRUE=1.7\nSIZE_MULT=-3").unwrap();
    let p = parsed.p_true.map(number).unwrap();
    let m = parsed.size_mult.map(number).unwrap();
    assert!(p <= 1.0);
    assert!(m >= 0.0);
}

#[test]
fn an_outcome_is_one_of_those_named() {
    let outcomes = vec!["Yes".to_string(), "No".to_string()];
    let yes = read("ACTION=BUY\nOUTCOME=YES").unwrap();
    assert_eq!(yes.map_outcome_index(&outcomes), Some(0));
    let no = read("ACTION=BUY\nOUTCOME=no").unwrap();
    assert_eq!(no.map_outcome_index(&outcomes), Some(1));
    let other = read("ACTION=BUY\nOUTCOME=MAYBE").unwrap();
    assert_eq!(other.map_outcome_index(&outcomes), None);
    assert_eq!(DecisionAction::Sell.as_str(), "SELL");
    assert_eq!(DecisionUncertainty::Med.as_str(), "MED");
}

#[test]
fn a_client_needs_a_key() {
    let mut env = Environment::new();
    assert!(matches!(OpenRouterClient::from_env(&env), Err(LlmError::KeyMissing)));
    env.set("OPENROUTER_API_KEY", "  ", None);
    assert!(matches!(OpenRouterClient::from_env(&env), Err(LlmError::KeyEmpty)));
    env.set("OPENROUTER_API_KEY", "k", None);
    env.set("OPENROUTER_HTTP_REFERER", " ", None);
    env.set("OPENROUTER_APP_TITLE", "desk", None);
    let client = OpenRouterClient::from_env(&env).unwrap();
    let headers = client.headers();
    assert_eq!(headers.len(), 3);
    assert_eq!(headers[0], ("Authorization".to_string(), "Bearer k".to_string()));
    assert_eq!(headers[2], ("X-Title".to_string(), "desk".to_string()));
}

#[test]
fn questions_and_answers_are_put_together() {
    let mut env = Environment::new();
    env.set("OPENROUTER_API_KEY", "k", None);
    let client = OpenRouterClient::from_env(&env).unwrap();
    let q = client.chat_request("m", "be brief", "what now", 64, scalar(0.5));
    assert_eq!(q.messages.len(), 2);
    assert_eq!(q.messages[0].role, "system");
    assert_eq!(q.messages[1].content, "what now");
    assert_eq!(q.max_tokens, Some(64));
    let usage = LlmUsage { prompt_tokens: Some(1), completion_tokens: Some(2), total_tokens: Some(3) };
    let answer = ChatCompletionResponse { choices: vec![Some("ACTION=HOLD".to_string())], usage: Some(usage) };
    let out = client.completion("m", &answer, 12);
    assert_eq!(out.content, "ACTION=HOLD");
    assert_eq!(out.usage, usage);
    assert_eq!(out.latency_ms, 12);
    let nothing = client.completion("m", &ChatCompletionResponse { choices: vec![None], usage: None }, 12);
    assert_eq!(nothing.content, "");
    assert_eq!(nothing.usage.total_tokens, None);
    match client.refusal(429, "slow down") {
        LlmError::Answer(text) => assert_eq!(text, "openrouter 429: slow down"),
        _ => panic!("the answer is told"),
    }
}
