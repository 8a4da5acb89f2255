use lib::bjson::{MAX_STRING, MAX_WIRE};
use lib::http::{MAX_BODY, MAX_HEADER_BLOCK, Request, STATUS_BAD_REQUEST, STATUS_METHOD_NOT_ALLOWED, STATUS_OK};
use lib::service::{
    ChallengeIssuer, ChallengeRequest, ChallengeResponse, EvidenceProcessor, EvidenceSimulator,
    SERVICE_LIMITS, WireVerdict, error_body, parse_challenge_request, respond, route,
};

struct FixedIssuer;
struct FixedSimulator;
struct FixedProcessor;

impl ChallengeIssuer for FixedIssuer {
    fn issue(&self, _request: &ChallengeRequest, now: u64) -> Result<ChallengeResponse, String> {
        Ok(ChallengeResponse {
            challenge_hex: vec![0x01, 0x02],
            issued_at: now,
            expires_at: now + 300,
        })
    }
}

impl EvidenceSimulator for FixedSimulator {
    fn simulate(&self, challenge_object: &[u8]) -> Result<Vec<u8>, String> {
        Ok(challenge_object.to_vec())
    }
}

impl EvidenceProcessor for FixedProcessor {
    fn process(&self, _now: u64, challenge: &[u8], evidence: &[u8]) -> WireVerdict {
        if evidence == challenge {
            WireVerdict::Allow { permit_hex: vec![0xAA] }
        } else {
            WireVerdict::Deny { reason: "EvidenceInvalid".to_string() }
        }
    }
}

fn request(path: &str, body: &str) -> Request {
    Request {
        method: "POST".to_string(),
        path: path.to_string(),
        body: body.as_bytes().to_vec(),
    }
}

#[test]
fn challenge_route_issues() {
    let body = route(
        &request(
            "/v1/challenge",
            "{\"publisher_id\":\"p\",\"game_id\":\"g\",\"build_id\":\"b\",\"account_scope\":\"a\",\"match_id\":\"m\",\"policy_id\":\"pol\",\"policy_version\":\"3\"}",
        ),
        1000,
        &FixedIssuer,
        None,
        &FixedProcessor,
    )
    .unwrap_or_else(|e| panic!("{e}"));
    assert!(body.contains("\"challenge_hex\":\"0102\""));
    assert!(body.contains("\"expires_at\":\"1300\""));
}

#[test]
fn evidence_route_maps_verdicts() {
    let allow = route(
        &request("/v1/evidence", "{\"challenge_hex\":\"0102\",\"evidence_hex\":\"0102\"}"),
        1000,
        &FixedIssuer,
        None,
        &FixedProcessor,
    )
    .unwrap_or_else(|e| panic!("{e}"));
    assert!(allow.contains("\"verdict\":\"allow\""));
    assert!(allow.contains("\"permit_hex\":\"aa\""));

    let deny = route(
        &request("/v1/evidence", "{\"challenge_hex\":\"0102\",\"evidence_hex\":\"0304\"}"),
        1000,
        &FixedIssuer,
        None,
        &FixedProcessor,
    )
    .unwrap_or_else(|e| panic!("{e}"));
    assert!(deny.contains("\"verdict\":\"deny\""));
    assert!(deny.contains("\"reason\":\"EvidenceInvalid\""));
}

#[test]
fn dev_route_simulates_when_enabled() {
    let body = route(
        &request("/v1/dev/evidence", "{\"challenge_hex\":\"0102\"}"),
        1000,
        &FixedIssuer,
        Some(&FixedSimulator),
        &FixedProcessor,
    )
    .unwrap_or_else(|e| panic!("{e}"));
    assert!(body.contains("\"evidence_hex\":\"0102\""), "{body}");
}

#[test]
fn dev_route_requires_enabled_mode() {
    assert_eq!(
        route(
            &request("/v1/dev/evidence", "{\"challenge_hex\":\"01\"}"),
            1000,
            &FixedIssuer,
            None,
            &FixedProcessor,
        ),
        Err("developer mode is not enabled".to_string())
    );
}

#[test]
fn unknown_routes_and_malformed_bodies_reject() {
    assert_eq!(
        route(&request("/v1/nope", "{}"), 1000, &FixedIssuer, None, &FixedProcessor),
        Err("unknown route".to_string())
    );
    assert!(
        route(
            &request("/v1/evidence", "{\"challenge_hex\":\"01\"}"),
            1000,
            &FixedIssuer,
            None,
            &FixedProcessor,
        )
        .is_err()
    );
}

#[test]
fn responses_carry_status_and_error_bodies() {
    let mut get = request("/v1/evidence", "{}");
    get.method = "GET".to_string();
    let (status, body) = respond(&get, 1000, &FixedIssuer, None, &FixedProcessor);
    assert_eq!(status, STATUS_METHOD_NOT_ALLOWED);
    assert_eq!(body, "{\"error\":\"post only\"}");

    let (status, body) = respond(&request("/v1/nope", "{}"), 1000, &FixedIssuer, None, &FixedProcessor);
    assert_eq!(status, STATUS_BAD_REQUEST);
    assert_eq!(body, error_body("unknown route"));

    let (status, body) = respond(
        &request("/v1/evidence", "{\"challenge_hex\":\"0102\",\"evidence_hex\":\"0102\"}"),
        1000,
        &FixedIssuer,
        None,
        &FixedProcessor,
    );
    assert_eq!(status, STATUS_OK);
    assert_eq!(body, "{\"verdict\":\"allow\",\"permit_hex\":\"aa\"}");
}

#[test]
fn challenge_request_fields_are_required_and_version_numeric() {
    let parsed = parse_challenge_request(
        &b"{\"publisher_id\":\"p\",\"game_id\":\"g\",\"build_id\":\"b\",\"account_scope\":\"a\",\"match_id\":\"m\",\"policy_id\":\"pol\",\"policy_version\":\"42\"}".to_vec(),
    )
    .unwrap_or_else(|e| panic!("{e}"));
    assert_eq!(parsed.publisher_id, "p");
    assert_eq!(parsed.policy_id, "pol");
    assert_eq!(parsed.policy_version, 42);
    assert_eq!(
        parse_challenge_request(
            &b"{\"publisher_id\":\"p\",\"game_id\":\"g\",\"build_id\":\"b\",\"account_scope\":\"a\",\"match_id\":\"m\",\"policy_id\":\"pol\",\"policy_version\":\"x\"}".to_vec(),
        ),
        Err("policy_version must be a number".to_string())
    );
    assert_eq!(
        parse_challenge_request(&b"{\"publisher_id\":\"p\"}".to_vec()),
        Err("protocol member error: missing member".to_string())
    );
}

#[test]
fn service_limits_name_the_ceilings() {
    assert_eq!(SERVICE_LIMITS, (MAX_WIRE, MAX_BODY, MAX_STRING, MAX_HEADER_BLOCK));
    assert_eq!(SERVICE_LIMITS, (65536, 65536, 512, 4096));
}
