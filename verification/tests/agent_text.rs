//! The text that agents leave, and what reviews decide.
use vibe_kanban::autopilot::agent_text::{
    extract_process_agent_text, item_text, process_agent_text, text_from_value, AgentTranscript,
    LogMsg,
};
use vibe_kanban::autopilot::review::{
    decide_from_review_attempts, deciding_review, decision_from_text, excerpt,
};
use vibe_kanban::autopilot::types::{
    AutopilotDecision, ExecutionProcessRunReason, ExecutionProcessStatus, ProcessRow,
};
use vibe_kanban::ids::Uuid;
use vibe_kanban::json::Json;

fn extract(lines: &[&str]) -> String {
    extract_process_agent_text(&lines.iter().map(|line| line.to_string()).collect::<Vec<_>>())
}

fn review(bits: u128, status: ExecutionProcessStatus, exit_code: Option<i64>) -> ProcessRow {
    ProcessRow {
        id: Uuid::from_u128(bits),
        session_id: Uuid::from_u128(1),
        session_name: Some("Auto review - Codex (medium)".to_string()),
        status,
        run_reason: ExecutionProcessRunReason::CodingAgent,
        exit_code,
        started_at: "2026-04-25T12:00:00Z".to_string(),
        completed_at: None,
    }
}

#[test]
fn nothing_is_left_by_an_empty_log() {
    assert_eq!(extract(&[]), "");
    assert_eq!(extract(&["no json", "{\"method\": 5}", "[]"]), "");
    assert_eq!(process_agent_text(&None), "");
}

#[test]
fn final_answers_are_preferred_to_reviews_and_messages() {
    let text = extract(&[
        r#"{"method":"item/completed","params":{"item":{"id":"m","type":"agentMessage","text":"chat"}}}"#,
        r#"{"method":"item/completed","params":{"item":{"id":"r","type":"exitedReviewMode","review":"found"}}}"#,
        r#"{"method":"item/completed","params":{"item":{"id":"f","type":"agentMessage","phase":"final_answer","text":"final"}}}"#,
    ]);
    assert_eq!(text, "final");
}

#[test]
fn an_item_that_starts_and_completes_as_a_final_answer_is_named_twice() {
    let text = extract(&[
        r#"{"method":"item/started","params":{"item":{"id":"f","type":"agentMessage","phase":"final_answer"}}}"#,
        r#"{"method":"item/completed","params":{"item":{"id":"f","type":"agentMessage","phase":"final_answer","text":"final"}}}"#,
    ]);
    assert_eq!(text, "final\nfinal");
}

#[test]
fn pieces_stand_in_for_a_text_that_did_not_come_whole() {
    let text = extract(&[
        r#"{"method":"item/started","params":{"item":{"id":"f","type":"agentMessage","phase":"final_answer"}}}"#,
        "{\"method\":\"item/agentMessage/delta\",\"params\":{\"itemId\":\"f\",\"delta\":\"Decision: \"}}\n{\"method\":\"item/agentMessage/delta\",\"params\":{\"item_id\":\"f\",\"delta\":\"pass\"}}",
        r#"{"method":"item/agentMessage/delta","params":{"itemId":5,"item_id":"f","delta":"lost"}}"#,
    ]);
    assert_eq!(text, "Decision: pass");
}

#[test]
fn reviews_without_identifiers_are_numbered() {
    let text = extract(&[
        r#"{"method":"item/completed","params":{"item":{"type":"exitedReviewMode","review":"one"}}}"#,
        r#"{"method":"item/completed","params":{"item":{"type":"exitedReviewMode","review":"two"}}}"#,
        r#"{"method":"review_rollout_assistant","params":{"item":{"text":"three"}}}"#,
        r#"{"method":"review_rollout_assistant","params":{"item":{"text":"  "}}}"#,
    ]);
    assert_eq!(text, "one\ntwo\nthree");
}

#[test]
fn messages_to_the_user_come_last_and_in_order() {
    let text = extract(&[
        r#"{"method":"item/completed","params":{"item":{"id":"b","type":"agentMessage","text":"first"}}}"#,
        r#"{"method":"item/completed","params":{"item":{"id":"a","type":"agentMessage","phase":"commentary","text":["second",{"body":"third"}]}}}"#,
        r#"{"method":"item/completed","params":{"item":{"id":"c","type":"agentMessage","phase":"analysis","text":"hidden"}}}"#,
        r#"{"method":"item/completed","params":{"item":{"id":"d","type":"other","text":"tool"}}}"#,
    ]);
    assert_eq!(text, "first\nsecond\nthird");
}

#[test]
fn only_standard_output_is_read() {
    let line = r#"{"method":"review_rollout_assistant","params":{"text":"seen"}}"#;
    let log = vec![LogMsg::Other, LogMsg::Stdout(line.to_string()), LogMsg::Other];
    assert_eq!(process_agent_text(&Some(log)), "seen");
    assert_eq!(process_agent_text(&Some(vec![LogMsg::Other])), "");
}

#[test]
fn transcripts_take_messages_one_by_one() {
    let mut transcript = AgentTranscript::new();
    assert_eq!(transcript.text(), "");
    let message = Json::parse(
        r#"{"method":"item/completed","params":{"item":{"id":"x","type":"agentMessage","text":"hi"}}}"#,
    )
    .unwrap();
    transcript.record(&message);
    assert_eq!(transcript.text(), "hi");
    transcript.record(&Json::Null);
    assert_eq!(transcript.text(), "hi");
}

#[test]
fn the_text_of_a_document_is_gathered_by_key_order() {
    let value = Json::parse(
        r#"{"content":"7","review":"6","decision":"5","summary":"4","body":"3","message":"2","text":"1","other":"x"}"#,
    )
    .unwrap();
    assert_eq!(text_from_value(&value), "1\n2\n3\n4\n5\n6\n7");
    assert_eq!(text_from_value(&Json::parse(r#"["a", "", null, 3, ["b"]]"#).unwrap()), "a\nb");
    assert_eq!(text_from_value(&Json::Bool(true)), "");
    assert_eq!(item_text(&Json::parse(r#"{"type":"agentMessage"}"#).unwrap()), "");
    assert_eq!(item_text(&Json::parse(r#"{"type":"reasoning","text":"x"}"#).unwrap()), "");
}

#[test]
fn decisions_read_case_and_spaces_loosely() {
    for (text, decision) in [
        ("DECISION:\n  Request changes", AutopilotDecision::RequestChanges),
        ("changes   requested", AutopilotDecision::RequestChanges),
        ("a blocking regression", AutopilotDecision::RequestChanges),
        ("Blocker: x. Approved otherwise", AutopilotDecision::RequestChanges),
        ("Blocker: none, no blockers", AutopilotDecision::Pass),
        ("request changes? no blocking", AutopilotDecision::Failed),
        ("decision: approve", AutopilotDecision::Pass),
        ("no blocking issues", AutopilotDecision::Pass),
        ("fine", AutopilotDecision::Failed),
        ("", AutopilotDecision::Failed),
    ] {
        assert_eq!(decision_from_text(text), decision, "{text}");
    }
}

#[test]
fn excerpts_have_at_most_280_characters() {
    assert_eq!(excerpt("  a \n b  "), "a b");
    let long = "ä ".repeat(200);
    let short = excerpt(&long);
    assert_eq!(short.chars().count(), 280);
    assert!("ä ".repeat(200).starts_with(&short));
}

#[test]
fn only_the_latest_attempt_decides() {
    let running = review(1, ExecutionProcessStatus::Running, None);
    let passed = review(2, ExecutionProcessStatus::Completed, Some(0));
    let killed = review(3, ExecutionProcessStatus::Killed, Some(0));

    assert_eq!(deciding_review(&[]), None);
    assert_eq!(deciding_review(&[&passed, &running]), Some(passed.id));
    assert_eq!(deciding_review(&[&running, &passed]), None);

    let (decision, excerpt, row) = decide_from_review_attempts(&[], "Decision: pass");
    assert_eq!(decision, AutopilotDecision::Missing);
    assert_eq!(excerpt, None);
    assert!(row.is_none());

    let (decision, _, row) = decide_from_review_attempts(&[&running, &passed], "Decision: pass");
    assert_eq!(decision, AutopilotDecision::Running);
    assert_eq!(row.map(|row| row.id), Some(running.id));

    let (decision, excerpt, _) = decide_from_review_attempts(&[&passed], "Decision:  pass");
    assert_eq!(decision, AutopilotDecision::Pass);
    assert_eq!(excerpt, Some("Decision: pass".to_string()));

    let (decision, excerpt, _) = decide_from_review_attempts(&[&killed], "Decision: pass");
    assert_eq!(decision, AutopilotDecision::Failed);
    assert_eq!(excerpt, None);
}

const FINAL: &str = r#"{"method":"item/completed","params":{"item":{"id":"f","type":"agentMessage","phase":"final_answer","text":"final"}}}"#;
const REVIEW: &str = r#"{"method":"review_rollout_assistant","params":{"item":{"text":"found"}}}"#;
const UNKNOWN: &str = r#"{"method":"turn/started","params":{"item":{"id":"u","type":"agentMessage","phase":"final_answer","text":"no"}}}"#;

#[test]
fn other_lines_change_nothing_wherever_they_stand() {
    let plain = extract(&[&format!("{REVIEW}\n{FINAL}\n")]);
    assert_eq!(plain, "final");
    let inserted = format!("noise\n{UNKNOWN}\n{REVIEW}\n\n{UNKNOWN}\nnoise\n{FINAL}\n[]\n");
    assert_eq!(extract(&[&inserted]), plain);
    assert_eq!(extract(&["noise", REVIEW, UNKNOWN, "{", FINAL, UNKNOWN]), plain);
    assert_eq!(extract(&[UNKNOWN, REVIEW, "noise"]), "found");
}

#[test]
fn a_chunk_may_be_split_behind_a_line_feed() {
    let whole = format!("{REVIEW}\r\n{FINAL}\n");
    let (head, tail) = whole.split_at(REVIEW.len() + 2);
    assert_eq!(extract(&[head, tail]), extract(&[&whole]));
    assert_eq!(extract(&[head]), "found");
    assert_eq!(extract(&[head, tail]), "final");
}
