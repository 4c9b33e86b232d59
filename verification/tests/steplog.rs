use nhl_input::json::JsonValue;
use nhl_input::daemon::{
    count_logged_steps, daemon_command, daemon_response, json_escape, unlogged_step_message,
    unlogged_steps_exceeded, refuse_command,
};
use nhl_input::steplog::{
    banned_pattern, check_analysis_source, check_prompt, check_provenance,
    check_provenance_metadata, check_step_choices, check_vision_response, match_normalize,
    normalize_for_match, require_step_args, check_response_document, check_sidecar_document,
    modified_stamp, sidecar_provenance, run_id_slicing_ok, validate_run_id_neutral,
    AnalysisSource, ProvenanceField, RegionField, ResponseField, StepArg, StepArgs, StepError,
};

fn s(x: &str) -> JsonValue {
    JsonValue::String(x.to_string())
}

fn arr(items: Vec<JsonValue>) -> JsonValue {
    JsonValue::Array(items)
}

fn obj(members: Vec<(&str, JsonValue)>) -> JsonValue {
    JsonValue::Object(members.into_iter().map(|(k, v)| (k.to_string(), v)).collect())
}

fn good_response() -> Vec<(&'static str, JsonValue)> {
    vec![
        ("all_text", arr(vec![s("PLAY"), s("SETTINGS")])),
        ("screen_title", s("Main Menu")),
        ("layout", s("list")),
        ("layout_description", s("a vertical list")),
        ("options", arr(vec![s("PLAY"), s("SETTINGS"), s("CUSTOMIZE")])),
        ("selected", s("PLAY")),
        ("button_hints", arr(vec![s("A Select")])),
        ("gameplay", JsonValue::Bool(false)),
        ("confidence", s("high")),
    ]
}

fn with(field: &str, value: Option<JsonValue>) -> JsonValue {
    let mut m: Vec<(&str, JsonValue)> = good_response().into_iter().filter(|(k, _)| *k != field).collect();
    if let Some(v) = value {
        m.push((Box::leak(field.to_string().into_boxed_str()), v));
    }
    obj(m)
}

fn args() -> StepArgs {
    StepArgs {
        run_id: Some("20260709_120000_run".to_string()),
        step: Some(3),
        screenshot: Some("shot.png".to_string()),
        prompt_file: Some("p.txt".to_string()),
        response_file: Some("r.json".to_string()),
        assessment: Some("match_confirmed".to_string()),
        decision: Some("navigate".to_string()),
        plan: Some("press A".to_string()),
        ocr_file: Some("shot.png.ocr.json".to_string()),
        analysis_source: Some("ocr".to_string()),
    }
}

#[test]
fn step_arguments() {
    let i = require_step_args(args()).unwrap();
    assert_eq!(i.step, 3);
    assert_eq!(i.plan, "press A");
    let mut a = args();
    a.step = None;
    a.plan = None;
    assert!(matches!(require_step_args(a), Err(StepError::MissingArgument(StepArg::Step))));
    let mut a = args();
    a.analysis_source = None;
    assert!(matches!(require_step_args(a), Err(StepError::MissingArgument(StepArg::AnalysisSource))));
}

#[test]
fn step_choices() {
    assert_eq!(check_step_choices("ocr", "halt", "halt").unwrap(), AnalysisSource::Ocr);
    assert_eq!(
        check_step_choices("vision_fallback", "mismatch", "recover").unwrap(),
        AnalysisSource::VisionFallback
    );
    assert!(matches!(check_step_choices("vision", "halt", "halt"), Err(StepError::InvalidAnalysisSource)));
    assert!(matches!(check_step_choices("ocr", "goal_match", "x"), Err(StepError::InvalidAssessment)));
    assert!(matches!(check_step_choices("ocr", "recovery", "wait"), Err(StepError::InvalidDecision)));
}

#[test]
fn prompt_checks() {
    assert!(check_prompt("Describe the screen.\nScreenshot: 001_step_001.png\n").is_ok());
    assert!(check_prompt("no header at all").is_ok());
    assert!(matches!(check_prompt("Please answer the MATCH question"), Err(StepError::BannedPattern(4))));
    assert_eq!(banned_pattern(4), "MATCH question");
    assert!(matches!(check_prompt("reply {\"match\": true}"), Err(StepError::BannedPattern(6))));
    match check_prompt("x\nScreenshot:   \nScreenshot: a/b.png") {
        Err(StepError::HeaderWithoutFilename(line)) => assert_eq!(line, "Screenshot:   "),
        other => panic!("{other:?}"),
    }
    match check_prompt("Screenshot:  screenshots/run/001.png \nScreenshot: ok.png") {
        Err(StepError::HeaderWithPath(f)) => assert_eq!(f, "screenshots/run/001.png"),
        other => panic!("{other:?}"),
    }
    // Only the first header line counts.
    assert!(check_prompt("Screenshot: ok.png\nScreenshot: a/b.png").is_ok());
}

#[test]
fn run_ids() {
    assert!(validate_run_id_neutral("20260709_120000_run").is_ok());
    assert!(validate_run_id_neutral("20260709_120000_explore").is_ok());
    match validate_run_id_neutral("20260709_120000_trade_mtl_tor") {
        Err(StepError::InvalidRunId(id)) => assert_eq!(id, "20260709_120000_trade_mtl_tor"),
        other => panic!("{other:?}"),
    }
    assert!(validate_run_id_neutral("2026070a_120000_run").is_err());
    assert!(validate_run_id_neutral("20260709-120000_run").is_err());
    assert!(validate_run_id_neutral("20260709_120000_ruN").is_err());
    assert!(validate_run_id_neutral("20260709_120000_runs").is_err());
    assert!(run_id_slicing_ok("20260709_120000_run"));
    assert!(run_id_slicing_ok("anything"));
    // Byte 8 inside a character: validation would cut it.
    assert!(!run_id_slicing_ok("2026070\u{e9}120000_run"));
}

#[test]
fn normalizing_for_match() {
    assert_eq!(normalize_for_match("Main Menu: PLAY!"), "main menu play");
    assert_eq!(match_normalize("ÉDIT  Team-1"), "édit  team1");
    assert_eq!(normalize_for_match(""), "");
}

#[test]
fn normalizing_ascii_twice_changes_nothing() {
    for t in ["Main Menu: PLAY!", "  Team-1 vs TEAM_2\t(OT)", "already plain 42", "!!!", ""] {
        let once = normalize_for_match(t);
        assert!(once.is_ascii());
        assert_eq!(normalize_for_match(&once), once, "{t:?}");
    }
    assert_eq!(normalize_for_match("  Team-1 vs TEAM_2\t(OT)"), "  team1 vs team2\tot");
}

#[test]
fn response_documents() {
    match check_response_document("not json") {
        Err(StepError::ResponseNotJson(m)) => assert!(!m.is_empty()),
        other => panic!("{other:?}"),
    }
    assert!(matches!(check_response_document("{}"), Err(StepError::MissingField(ResponseField::AllText))));
    let text = "{\"all_text\": [\"PLAY\"], \"screen_title\": \"Main\", \"layout\": \"list\", \
        \"layout_description\": \"one column\", \"options\": [\"PLAY\"], \"selected\": \"PLAY\", \
        \"button_hints\": [], \"gameplay\": false, \"confidence\": \"high\", \"score\": 0.5}";
    let v = check_response_document(text).unwrap();
    assert_eq!(v.get("screen_title").and_then(|t| t.as_str()), Some("Main"));
    assert_eq!(v.get("score").map(|n| n.as_u64()), Some(None));
    assert!(check_vision_response(&v).is_ok());
}

#[test]
fn sidecar_documents() {
    match check_sidecar_document("{", "shot.png") {
        Err(StepError::SidecarNotJson(m)) => assert!(!m.is_empty()),
        other => panic!("{other:?}"),
    }
    let text = "{\"provenance\": {\"screenshot_path\": \"shot.png\", \"screenshot_size\": 1234, \
        \"screenshot_modified\": \"2026-07-09T12:00:00.000Z\"}, \"succeeded\": true}";
    let (doc, p) = check_sidecar_document(text, "shot.png").unwrap();
    assert_eq!(p.screenshot_size, 1234);
    assert_eq!(p.screenshot_modified, "2026-07-09T12:00:00.000Z");
    assert_eq!(doc.get("succeeded").and_then(|b| b.as_bool()), Some(true));
    assert!(matches!(check_sidecar_document(text, "other.png"), Err(StepError::PathMismatch(_, _))));
    assert!(matches!(check_sidecar_document("[1, 2]", "shot.png"), Err(StepError::ProvenanceMissing)));
}

#[test]
fn modification_stamps() {
    assert_eq!(modified_stamp(None), "unknown");
    assert_eq!(modified_stamp(Some(0)), "1970-01-01T00:00:00.000Z");
    assert_eq!(modified_stamp(Some(1_700_000_000)), "2023-11-14T22:13:20.000Z");
    // Seconds beyond i64 wrap around, as the cast does.
    assert_eq!(modified_stamp(Some(u64::MAX)), "1969-12-31T23:59:59.000Z");
    // Far beyond the calendar's range.
    assert_eq!(modified_stamp(Some(i64::MAX as u64)), "unknown");
}

#[test]
fn written_provenance_passes_the_check() {
    let stamp = modified_stamp(Some(1_700_000_000));
    let record = sidecar_provenance("shots/001.png", 4096, &stamp);
    assert_eq!(record.get("screenshot_size").and_then(|n| n.as_u64()), Some(4096));
    let sidecar = obj(vec![("provenance", record), ("succeeded", JsonValue::Bool(true))]);
    let p = check_provenance(&sidecar, "shots/001.png").unwrap();
    assert_eq!(p.screenshot_size, 4096);
    assert_eq!(p.screenshot_modified, stamp);
    assert!(check_provenance_metadata(&p, 4096, &stamp).is_ok());
}

#[test]
fn escaping() {
    assert_eq!(json_escape("plain"), "plain");
    assert_eq!(json_escape("a\"b\\c\nd\re\tf"), "a\\\"b\\\\c\\nd\\re\\tf");
    assert_eq!(json_escape("\u{1}\u{7f}\u{9f}\u{a0}"), "\\u0001\\u007f\\u009f\u{a0}");
    let e = json_escape("x\"y\u{2}");
    let parsed: String = serde_json::from_str(&format!("\"{e}\"")).unwrap();
    assert_eq!(parsed, "x\"y\u{2}");
}

#[test]
fn vision_response_checks() {
    assert!(check_vision_response(&obj(good_response())).is_ok());
    assert!(matches!(
        check_vision_response(&with("selected", None)),
        Err(StepError::MissingField(ResponseField::Selected))
    ));
    assert!(matches!(
        check_vision_response(&obj(vec![])),
        Err(StepError::MissingField(ResponseField::AllText))
    ));
    assert!(matches!(
        check_vision_response(&with("all_text", Some(s("x")))),
        Err(StepError::NotAnArray(ResponseField::AllText))
    ));
    assert!(matches!(
        check_vision_response(&with("options", Some(arr(vec![s("a"), JsonValue::Null])))),
        Err(StepError::ElementNotString(ResponseField::Options, 1))
    ));
    assert!(matches!(
        check_vision_response(&with("screen_title", Some(JsonValue::Null))),
        Err(StepError::NotAString(ResponseField::ScreenTitle))
    ));
    match check_vision_response(&with("layout", Some(s("table")))) {
        Err(StepError::InvalidLayout(l)) => assert_eq!(l, "table"),
        other => panic!("{other:?}"),
    }
    match check_vision_response(&with("layout", Some(JsonValue::Number(Some(3))))) {
        Err(StepError::InvalidLayout(l)) => assert_eq!(l, ""),
        other => panic!("{other:?}"),
    }
    assert!(matches!(
        check_vision_response(&with("gameplay", Some(s("no")))),
        Err(StepError::NotABoolean(ResponseField::Gameplay))
    ));
    match check_vision_response(&with("confidence", Some(s("certain")))) {
        Err(StepError::InvalidConfidence(c)) => assert_eq!(c, "certain"),
        other => panic!("{other:?}"),
    }
}

#[test]
fn optional_response_fields() {
    let mut m = good_response();
    m.push(("breadcrumbs", arr(vec![])));
    assert!(matches!(check_vision_response(&obj(m)), Err(StepError::BreadcrumbsNotString)));
    let mut m = good_response();
    m.push(("regions", s("left")));
    assert!(matches!(check_vision_response(&obj(m)), Err(StepError::RegionsNotArray)));
    let region = |opts: JsonValue| obj(vec![("name", s("tabs")), ("options", opts), ("selected", s("a"))]);
    let mut m = good_response();
    m.push(("regions", arr(vec![region(arr(vec![s("a")])), region(arr(vec![s("b"), JsonValue::Bool(true)]))])));
    assert!(matches!(check_vision_response(&obj(m)), Err(StepError::RegionOptionNotString(1, 1))));
    let mut m = good_response();
    m.push(("regions", arr(vec![obj(vec![("name", s("x")), ("selected", s("y"))])])));
    assert!(matches!(
        check_vision_response(&obj(m)),
        Err(StepError::RegionMissingField(0, RegionField::Options))
    ));
    let mut m = good_response();
    m.push(("regions", arr(vec![s("x")])));
    assert!(matches!(check_vision_response(&obj(m)), Err(StepError::RegionNotObject(0))));
    let mut m = good_response();
    m.push(("regions", arr(vec![region(arr(vec![s("a")]))])));
    m.push(("breadcrumbs", s("HOME > PLAY")));
    assert!(check_vision_response(&obj(m)).is_ok());
}

fn sidecar(succeeded: Option<bool>, result: Option<JsonValue>) -> JsonValue {
    let mut m = vec![(
        "provenance",
        obj(vec![
            ("screenshot_path", s("shot.png")),
            ("screenshot_size", JsonValue::Number(Some(1234))),
            ("screenshot_modified", s("2026-07-09T12:00:00.000Z")),
        ]),
    )];
    if let Some(b) = succeeded {
        m.push(("succeeded", JsonValue::Bool(b)));
    }
    if let Some(r) = result {
        m.push(("result", r));
    }
    obj(m)
}

#[test]
fn provenance_checks() {
    let p = check_provenance(&sidecar(Some(true), None), "shot.png").unwrap();
    assert_eq!(p.screenshot_size, 1234);
    assert_eq!(p.screenshot_modified, "2026-07-09T12:00:00.000Z");
    assert!(check_provenance_metadata(&p, 1234, "2026-07-09T12:00:00.000Z").is_ok());
    assert!(matches!(check_provenance_metadata(&p, 99, "x"), Err(StepError::SizeMismatch(1234, 99))));
    assert!(matches!(check_provenance_metadata(&p, 1234, "x"), Err(StepError::ModifiedMismatch(_, _))));
    match check_provenance(&sidecar(Some(true), None), "other.png") {
        Err(StepError::PathMismatch(a, b)) => assert_eq!((a.as_str(), b.as_str()), ("shot.png", "other.png")),
        other => panic!("{other:?}"),
    }
    assert!(matches!(check_provenance(&obj(vec![]), "shot.png"), Err(StepError::ProvenanceMissing)));
    let bad_size = obj(vec![(
        "provenance",
        obj(vec![("screenshot_path", s("shot.png")), ("screenshot_size", JsonValue::Number(None))]),
    )]);
    assert!(matches!(
        check_provenance(&bad_size, "shot.png"),
        Err(StepError::ProvenanceFieldMissing(ProvenanceField::ScreenshotSize))
    ));
}

fn ocr_text(all: &str, lines: usize) -> JsonValue {
    obj(vec![("all_text", s(all)), ("lines", arr((0..lines).map(|_| JsonValue::Null).collect()))])
}

#[test]
fn ocr_analysis_source() {
    let mut resp = good_response();
    resp.push(("ocr_source", JsonValue::Bool(true)));
    let resp = obj(resp);
    let plain = obj(good_response());
    let src = AnalysisSource::Ocr;
    assert!(check_analysis_source(src, &sidecar(Some(true), Some(ocr_text("PLAY", 1))), &resp).is_ok());
    assert!(matches!(check_analysis_source(src, &sidecar(None, None), &resp), Err(StepError::SucceededMissing)));
    assert!(matches!(check_analysis_source(src, &sidecar(Some(false), None), &resp), Err(StepError::OcrNotSucceeded)));
    assert!(matches!(check_analysis_source(src, &sidecar(Some(true), None), &plain), Err(StepError::OcrSourceMissing)));
    assert!(matches!(
        check_analysis_source(src, &sidecar(Some(true), Some(ocr_text(" \n ", 0))), &resp),
        Err(StepError::OcrTextEmpty)
    ));
    assert!(check_analysis_source(src, &sidecar(Some(true), Some(ocr_text("", 2))), &resp).is_ok());
}

#[test]
fn vision_fallback_analysis_source() {
    let mut resp = good_response();
    resp.push(("ocr_source", JsonValue::Bool(true)));
    let marked = obj(resp);
    let plain = obj(good_response());
    let src = AnalysisSource::VisionFallback;
    assert!(matches!(check_analysis_source(src, &sidecar(Some(true), None), &marked), Err(StepError::VisionHasOcrSource)));
    assert!(check_analysis_source(src, &sidecar(Some(false), Some(ocr_text("MAIN MENU PLAY SETTINGS", 3))), &plain).is_ok());
    // Title and two of three options found: OCR was enough.
    match check_analysis_source(src, &sidecar(Some(true), Some(ocr_text("MAIN MENU\nPLAY\nSETTINGS", 3))), &plain) {
        Err(StepError::OcrSufficient(t, m, f, n)) => {
            assert_eq!((t.as_str(), m, f, n), ("main menu", true, 2, 3));
        }
        other => panic!("{other:?}"),
    }
    // Title found but only one option of three.
    assert!(check_analysis_source(src, &sidecar(Some(true), Some(ocr_text("MAIN MENU PLAY", 1))), &plain).is_ok());
    // Options found but no title.
    assert!(check_analysis_source(src, &sidecar(Some(true), Some(ocr_text("PLAY SETTINGS CUSTOMIZE", 1))), &plain).is_ok());
}

#[test]
fn daemon_decisions() {
    assert_eq!(count_logged_steps("{\"a\":1}\n\n  \n{\"b\":2}\n"), 2);
    assert_eq!(count_logged_steps(""), 0);
    assert!(!unlogged_steps_exceeded(2, 2));
    assert!(unlogged_steps_exceeded(3, 2));
    assert!(unlogged_steps_exceeded(4, 2));
    assert!(!unlogged_steps_exceeded(1, 5));
    assert!(refuse_command(false, true, 3, 2));
    assert!(!refuse_command(true, true, 3, 2));
    assert!(!refuse_command(false, false, 3, 2));
    assert!(!refuse_command(false, true, 2, 2));
    assert_eq!(
        unlogged_step_message(4, 2),
        "UNLOGGED_STEP: Must call --log-step before sending next command. screenshots_taken=4, logged_steps=2"
    );
    assert_eq!(daemon_command("  tap(\"a\");\n"), Some("tap(\"a\");".to_string()));
    assert_eq!(daemon_command(" \n"), None);
    assert_eq!(daemon_response(None), "{\"ok\":true}");
    assert_eq!(daemon_response(Some("bad \"x\"\nline")), "{\"ok\":false,\"err\":\"bad \\\"x\\\"\\nline\"}");
}

#[test]
fn escaping_is_piecewise_and_clean() {
    let a = "tab\there";
    let b = "\u{0}quote\"";
    assert_eq!(json_escape(&format!("{a}{b}")), format!("{}{}", json_escape(a), json_escape(b)));
    let e = json_escape("\u{1b}[0m \"x\"");
    assert!(!e.chars().any(|c| c.is_control()));
    let reply = daemon_response(Some("line1\nline2 \u{7}"));
    let v: serde_json::Value = serde_json::from_str(&reply).unwrap();
    assert_eq!(v["err"], "line1\nline2 \u{7}");
    assert_eq!(v["ok"], false);
}
