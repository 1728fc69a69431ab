use rootcause::ai::{advice_json, build_user_prompt, powershell_quote, request_script, strip_code_fences, AiAdvisor, AiUnavailable};
use rootcause::models::{IncidentEvidence, IncidentSummary, Severity};
use rootcause::config::AiConfig;

#[test]
fn remueve_code_fences() {
    let raw = "```json\n{\"summary\":\"ok\",\"probable_causes\":[],\"suggested_actions\":[],\"confidence\":\"alta\",\"warnings\":[]}\n```";
    assert!(strip_code_fences(raw).starts_with('{'));
}

#[test]
fn strip_code_fences_exact_results() {
    assert_eq!(strip_code_fences("```json\n{\"a\":1}\n```"), "{\"a\":1}");
    assert_eq!(strip_code_fences("```\n{}\n```"), "{}");
    assert_eq!(strip_code_fences("  {\"b\":2}  "), "{\"b\":2}");
    assert_eq!(strip_code_fences(""), "");
}

#[test]
fn strip_code_fences_is_idempotent_on_example() {
    let once = strip_code_fences("```json\n{\"x\":true}\n```");
    let twice = strip_code_fences(&once);
    assert_eq!(once, twice);
}

#[test]
fn powershell_quote_doubles_single_quotes() {
    assert_eq!(powershell_quote("it's"), "it''s");
    assert_eq!(powershell_quote("plain"), "plain");
}

#[test]
fn advisor_readiness_reports_each_reason() {
    let disabled = AiAdvisor::new(AiConfig::default());
    assert_eq!(disabled.readiness(), Err(AiUnavailable::Disabled));
    assert!(!disabled.enabled());

    let mut cfg = AiConfig::default();
    cfg.enabled = true;
    cfg.endpoint = "   ".to_owned();
    let blank = AiAdvisor::new(cfg.clone());
    assert_eq!(blank.readiness(), Err(AiUnavailable::MissingEndpoint));

    cfg.endpoint = "https://example.invalid/v1".to_owned();
    let ready = AiAdvisor::new(cfg);
    assert_eq!(ready.readiness(), Ok(()));
    assert!(ready.enabled());
    assert_eq!(ready.config().model, "gpt-4.1-mini");
}

#[test]
fn unavailable_messages() {
    assert_eq!(
        AiUnavailable::Disabled.message(),
        "La integración IA está desactivada en la configuración"
    );
    assert_eq!(AiUnavailable::MissingEndpoint.message(), "Falta ai.endpoint en la configuración");
}

#[test]
fn prompt_lists_the_incident() {
    let incident = IncidentSummary {
        title: "T".to_owned(),
        severity: Severity::Warning,
        kind: "k".to_owned(),
        summary: "S".to_owned(),
        probable_causes: vec!["c1".to_owned(), "c2".to_owned()],
        evidence: vec![IncidentEvidence { kind: "process".to_owned(), label: "L".to_owned(), value: "V".to_owned() }],
        recommended_actions: vec!["a1".to_owned()],
        ..Default::default()
    };
    assert_eq!(
        build_user_prompt(&incident),
        "Analiza este incidente de RootCause y devuelve solo JSON.\nTítulo: T\nSeveridad: Warning\nTipo: k\nResumen: S\nCausas probables detectadas: c1 | c2\nEvidencia: L=V (process)\nAcciones recomendadas locales: a1"
    );
}

#[test]
fn request_script_quotes_its_inputs() {
    let s = request_script("https://x/v1", "k'ey", "C:\\t\\r.json", 25);
    assert!(s.starts_with("$headers = @{ Authorization = 'Bearer k''ey'; 'Content-Type' = 'application/json' }; $body = Get-Content -Raw -Path '"));
    assert!(s.contains("-TimeoutSec 25;"));
    assert!(s.ends_with("$response | ConvertTo-Json -Depth 20 -Compress"));
}

#[test]
fn advice_comes_from_the_first_choice() {
    let raw = r#"{"choices":[{"message":{"content":"```json\n{\"summary\":\"ok\"}\n```"}},{"message":{"content":"otra"}}]}"#;
    assert_eq!(advice_json(raw), Ok("{\"summary\":\"ok\"}".to_owned()));
    assert_eq!(advice_json(r#"{"choices":[{"message":{"content":"  {}  "}}]}"#), Ok("{}".to_owned()));
}

#[test]
fn replies_without_advice_are_refused() {
    assert_eq!(advice_json("no es json"), Err("La respuesta del proveedor IA no es JSON válido".to_owned()));
    let missing = Err("No se encontró choices[0].message.content en la respuesta IA".to_owned());
    assert_eq!(advice_json(r#"{"choices":[]}"#), missing);
    assert_eq!(advice_json(r#"{"choices":[{"message":{"content":3}}]}"#), missing);
    assert_eq!(advice_json(r#"{"error":"quota"}"#), missing);
}
