//! The verifier service shell: routes and wire codec, with the semantics
//! injected through narrow traits so that the service stays free of every
//! substrate. Reading from and writing to connections is left to the caller.
use vstd::prelude::*;
use vstd::utf8::encode_utf8;

use crate::bjson::{
    JsonError, MAX_STRING, MAX_WIRE, SpecMember, SpecValue, Value, decode_object, encode_object,
    encode_spec, error_message, input_view, members_view, require_hex, require_str, spec_decode,
    spec_require_hex, spec_require_str, find_key,
};
use crate::bjson_laws::{encodable, lemma_decoded_encodable};
use crate::http::{
    HttpError, MAX_BODY, MAX_HEADER_BLOCK, Request, STATUS_BAD_REQUEST, STATUS_METHOD_NOT_ALLOWED,
    STATUS_OK,
};
use crate::text::{
    chars_of, decimal_text, parse_decimal, push_decimal, push_text, same_text, spec_parse_decimal,
};

verus! {

/// The verdict as it goes on the wire: an allow with its permit, or a denial
/// with its public reason code.
#[derive(Debug, Clone, PartialEq, Eq)]
pub enum WireVerdict {
    /// Admission with the opaque signed permit.
    Allow { permit_hex: Vec<u8> },
    /// A deterministic, non-disciplinary denial with its public reason code.
    Deny { reason: String },
}

/// Challenge issuance requests (flat, bounded text fields).
#[derive(Debug, Clone, PartialEq, Eq)]
pub struct ChallengeRequest {
    pub publisher_id: String,
    pub game_id: String,
    pub build_id: String,
    pub account_scope: String,
    pub match_id: String,
    pub policy_id: String,
    pub policy_version: u32,
}

/// The issued challenge.
#[derive(Debug, Clone, PartialEq, Eq)]
pub struct ChallengeResponse {
    pub challenge_hex: Vec<u8>,
    pub issued_at: u64,
    pub expires_at: u64,
}

/// Issues signed challenges. Implemented by the developer-mode daemon with
/// test keys today and by the authoritative service later.
pub trait ChallengeIssuer {
    fn issue(&self, request: &ChallengeRequest, now: u64) -> Result<ChallengeResponse, String>;
}

/// Simulates a client answering a challenge (developer mode only).
pub trait EvidenceSimulator {
    fn simulate(&self, challenge_object: &[u8]) -> Result<Vec<u8>, String>;
}

/// Processes a submitted (challenge, evidence) pair at decision time. The
/// verdict is the wire verdict; the implementation maps its own semantics
/// into it.
pub trait EvidenceProcessor {
    fn process(&self, now: u64, challenge_object: &[u8], evidence_object: &[u8]) -> WireVerdict;
}

/// Service-level failures surfaced as HTTP error bodies.
#[derive(Debug, Clone, PartialEq, Eq)]
pub enum RouteError {
    Bad(JsonError),
    Http(HttpError),
    Internal(String),
}

/// The content of a challenge issuance request.
pub struct SpecChallengeRequest {
    pub publisher_id: Seq<char>,
    pub game_id: Seq<char>,
    pub build_id: Seq<char>,
    pub account_scope: Seq<char>,
    pub match_id: Seq<char>,
    pub policy_id: Seq<char>,
    pub policy_version: u32,
}

impl View for ChallengeRequest {
    type V = SpecChallengeRequest;

    open spec fn view(&self) -> SpecChallengeRequest {
        SpecChallengeRequest {
            publisher_id: self.publisher_id@,
            game_id: self.game_id@,
            build_id: self.build_id@,
            account_scope: self.account_scope@,
            match_id: self.match_id@,
            policy_id: self.policy_id@,
            policy_version: self.policy_version,
        }
    }
}

/// One required string member, with a failure given as its message.
pub open spec fn text_field(ms: Seq<SpecMember>, key: Seq<char>) -> Result<Seq<char>, Seq<char>> {
    match spec_require_str(ms, key) {
        Ok(text) => Ok(text),
        Err(e) => Err(error_message(e)),
    }
}

/// One required hex member, with a failure given as its message.
pub open spec fn hex_field(ms: Seq<SpecMember>, key: Seq<char>) -> Result<Seq<u8>, Seq<char>> {
    match spec_require_hex(ms, key) {
        Ok(bytes) => Ok(bytes),
        Err(e) => Err(error_message(e)),
    }
}

/// The members of a request body, with a failure given as its message.
pub open spec fn body_members(body: Seq<u8>) -> Result<Seq<SpecMember>, Seq<char>> {
    match spec_decode(body) {
        Ok(ms) => Ok(ms),
        Err(e) => Err(error_message(e)),
    }
}

/// The message for a policy version that is not a number.
pub open spec fn version_message() -> Seq<char> {
    "policy_version must be a number"@
}

/// The challenge request that a body of the challenge route carries.
pub open spec fn spec_challenge_request(body: Seq<u8>) -> Result<SpecChallengeRequest, Seq<char>> {
    match body_members(body) {
        Err(m) => Err(m),
        Ok(ms) => match text_field(ms, "publisher_id"@) {
            Err(m) => Err(m),
            Ok(publisher_id) => match text_field(ms, "game_id"@) {
                Err(m) => Err(m),
                Ok(game_id) => match text_field(ms, "build_id"@) {
                    Err(m) => Err(m),
                    Ok(build_id) => match text_field(ms, "account_scope"@) {
                        Err(m) => Err(m),
                        Ok(account_scope) => match text_field(ms, "match_id"@) {
                            Err(m) => Err(m),
                            Ok(match_id) => match text_field(ms, "policy_id"@) {
                                Err(m) => Err(m),
                                Ok(policy_id) => match text_field(ms, "policy_version"@) {
                                    Err(m) => Err(m),
                                    Ok(version) => match spec_parse_decimal(
                                        version,
                                        u32::MAX as nat,
                                    ) {
                                        None => Err(version_message()),
                                        Some(v) => Ok(
                                            SpecChallengeRequest {
                                                publisher_id,
                                                game_id,
                                                build_id,
                                                account_scope,
                                                match_id,
                                                policy_id,
                                                policy_version: v as u32,
                                            },
                                        ),
                                    },
                                },
                            },
                        },
                    },
                },
            },
        },
    }
}

/// A required string member, copied, with a failure given as its message.
fn text_member(members: &Vec<(String, Value)>, key: &str) -> (r: Result<String, String>)
    ensures
        match text_field(members_view(members@), key@) {
            Ok(text) => r matches Ok(found) && found@ == text,
            Err(m) => r matches Err(found) && found@ == m,
        },
{
    match require_str(members.as_slice(), key) {
        Ok(text) => Ok(text.to_owned()),
        Err(error) => Err(error.message()),
    }
}

/// A required hex member, copied, with a failure given as its message.
fn hex_member(members: &Vec<(String, Value)>, key: &str) -> (r: Result<Vec<u8>, String>)
    ensures
        match hex_field(members_view(members@), key@) {
            Ok(bytes) => r matches Ok(found) && found@ == bytes,
            Err(m) => r matches Err(found) && found@ == m,
        },
{
    match require_hex(members.as_slice(), key) {
        Ok(bytes) => Ok(slice_to_vec(bytes)),
        Err(error) => Err(error.message()),
    }
}

/// A copy of a byte slice.
fn slice_to_vec(bytes: &[u8]) -> (r: Vec<u8>)
    ensures
        r@ == bytes@,
{
    let mut out: Vec<u8> = Vec::new();
    let mut i: usize = 0;
    while i < bytes.len()
        invariant
            i <= bytes.len(),
            out@ == bytes@.take(i as int),
        decreases bytes.len() - i,
    {
        out.push(bytes[i]);
        i = i + 1;
        assert(out@ =~= bytes@.take(i as int));
    }
    assert(bytes@.take(i as int) =~= bytes@);
    out
}

/// The members of a request body, with a failure given as its message.
fn decode_body(body: &Vec<u8>) -> (r: Result<Vec<(String, Value)>, String>)
    ensures
        match body_members(body@) {
            Ok(ms) => r matches Ok(members) && members_view(members@) == ms,
            Err(m) => r matches Err(found) && found@ == m,
        },
{
    match decode_object(body.as_slice()) {
        Ok(members) => Ok(members),
        Err(error) => Err(error.message()),
    }
}

/// Parses the body of a challenge issuance request.
pub fn parse_challenge_request(body: &Vec<u8>) -> (r: Result<ChallengeRequest, String>)
    ensures
        match spec_challenge_request(body@) {
            Ok(request) => r matches Ok(found) && found@ == request,
            Err(m) => r matches Err(found) && found@ == m,
        },
{
    let members = decode_body(body)?;
    let publisher_id = text_member(&members, "publisher_id")?;
    let game_id = text_member(&members, "game_id")?;
    let build_id = text_member(&members, "build_id")?;
    let account_scope = text_member(&members, "account_scope")?;
    let match_id = text_member(&members, "match_id")?;
    let policy_id = text_member(&members, "policy_id")?;
    let version = text_member(&members, "policy_version")?;
    let digits = chars_of(version.as_str());
    let policy_version = match parse_decimal(digits.as_slice(), u32::MAX as u64) {
        Some(v) => v as u32,
        None => return Err("policy_version must be a number".to_owned()),
    };
    Ok(
        ChallengeRequest {
            publisher_id,
            game_id,
            build_id,
            account_scope,
            match_id,
            policy_id,
            policy_version,
        },
    )
}

/// The content of an issued challenge.
pub struct SpecChallengeResponse {
    pub challenge_hex: Seq<u8>,
    pub issued_at: u64,
    pub expires_at: u64,
}

impl View for ChallengeResponse {
    type V = SpecChallengeResponse;

    open spec fn view(&self) -> SpecChallengeResponse {
        SpecChallengeResponse {
            challenge_hex: self.challenge_hex@,
            issued_at: self.issued_at,
            expires_at: self.expires_at,
        }
    }
}

/// The content of a wire verdict.
pub enum SpecVerdict {
    Allow(Seq<u8>),
    Deny(Seq<char>),
}

impl View for WireVerdict {
    type V = SpecVerdict;

    open spec fn view(&self) -> SpecVerdict {
        match self {
            WireVerdict::Allow { permit_hex } => SpecVerdict::Allow(permit_hex@),
            WireVerdict::Deny { reason } => SpecVerdict::Deny(reason@),
        }
    }
}

/// The body answering an issued challenge.
pub open spec fn challenge_response_text(response: SpecChallengeResponse) -> Seq<char> {
    encode_spec(
        seq![
            ("challenge_hex"@, SpecValue::Hex(response.challenge_hex)),
            ("issued_at"@, SpecValue::Str(decimal_text(response.issued_at as nat))),
            ("expires_at"@, SpecValue::Str(decimal_text(response.expires_at as nat))),
        ],
    )
}

/// The body answering a verdict.
pub open spec fn verdict_text(verdict: SpecVerdict) -> Seq<char> {
    match verdict {
        SpecVerdict::Allow(permit) => encode_spec(
            seq![("verdict"@, SpecValue::Str("allow"@)), ("permit_hex"@, SpecValue::Hex(permit))],
        ),
        SpecVerdict::Deny(reason) => encode_spec(
            seq![("verdict"@, SpecValue::Str("deny"@)), ("reason"@, SpecValue::Str(reason))],
        ),
    }
}

/// The body answering simulated evidence.
pub open spec fn evidence_text(evidence: Seq<u8>) -> Seq<char> {
    encode_spec(seq![("evidence_hex"@, SpecValue::Hex(evidence))])
}

/// The body of an error response.
pub open spec fn error_text(detail: Seq<char>) -> Seq<char> {
    encode_spec(seq![("error"@, SpecValue::Str(detail))])
}

/// The decimal text of `n` as a string.
fn decimal_string(n: u64) -> (r: String)
    ensures
        r@ == decimal_text(n as nat),
{
    let mut out = String::new();
    push_decimal(&mut out, n);
    assert(out@ =~= decimal_text(n as nat));
    out
}

/// Encodes the body answering an issued challenge.
pub fn challenge_response_body(issued: ChallengeResponse) -> (r: String)
    ensures
        r@ == challenge_response_text(issued@),
{
    let ghost view = issued@;
    let issued_at = decimal_string(issued.issued_at);
    let expires_at = decimal_string(issued.expires_at);
    let members = vec![
        ("challenge_hex", Value::Hex(issued.challenge_hex)),
        ("issued_at", Value::Str(issued_at)),
        ("expires_at", Value::Str(expires_at)),
    ];
    let text = encode_object(members.as_slice());
    assert(input_view(members@) =~= seq![
        ("challenge_hex"@, SpecValue::Hex(view.challenge_hex)),
        ("issued_at"@, SpecValue::Str(decimal_text(view.issued_at as nat))),
        ("expires_at"@, SpecValue::Str(decimal_text(view.expires_at as nat))),
    ]);
    text
}

/// Encodes the body answering a verdict.
pub fn verdict_body(verdict: WireVerdict) -> (r: String)
    ensures
        r@ == verdict_text(verdict@),
{
    let ghost view = verdict@;
    match verdict {
        WireVerdict::Allow { permit_hex } => {
            let members = vec![
                ("verdict", Value::Str("allow".to_owned())),
                ("permit_hex", Value::Hex(permit_hex)),
            ];
            let text = encode_object(members.as_slice());
            assert(input_view(members@) =~= seq![
                ("verdict"@, SpecValue::Str("allow"@)),
                ("permit_hex"@, SpecValue::Hex(permit_hex@)),
            ]);
            text
        },
        WireVerdict::Deny { reason } => {
            let members = vec![
                ("verdict", Value::Str("deny".to_owned())),
                ("reason", Value::Str(reason)),
            ];
            let text = encode_object(members.as_slice());
            assert(input_view(members@) =~= seq![
                ("verdict"@, SpecValue::Str("deny"@)),
                ("reason"@, SpecValue::Str(reason@)),
            ]);
            text
        },
    }
}

/// Encodes the body answering simulated evidence.
pub fn evidence_body(evidence: Vec<u8>) -> (r: String)
    ensures
        r@ == evidence_text(evidence@),
{
    let ghost view = evidence@;
    let members = vec![("evidence_hex", Value::Hex(evidence))];
    let text = encode_object(members.as_slice());
    assert(input_view(members@) =~= seq![("evidence_hex"@, SpecValue::Hex(view))]);
    text
}

/// Encodes the body of an error response.
pub fn error_body(detail: &str) -> (r: String)
    ensures
        r@ == error_text(detail@),
{
    let members = vec![("error", Value::Str(detail.to_owned()))];
    let text = encode_object(members.as_slice());
    assert(input_view(members@) =~= seq![("error"@, SpecValue::Str(detail@))]);
    text
}

/// The challenge object a body of the developer evidence route carries.
pub open spec fn spec_dev_request(body: Seq<u8>) -> Result<Seq<u8>, Seq<char>> {
    match body_members(body) {
        Err(m) => Err(m),
        Ok(ms) => hex_field(ms, "challenge_hex"@),
    }
}

/// The challenge and evidence objects a body of the evidence route carries.
pub open spec fn spec_evidence_submission(body: Seq<u8>) -> Result<(Seq<u8>, Seq<u8>), Seq<char>> {
    match body_members(body) {
        Err(m) => Err(m),
        Ok(ms) => match hex_field(ms, "challenge_hex"@) {
            Err(m) => Err(m),
            Ok(challenge) => match hex_field(ms, "evidence_hex"@) {
                Err(m) => Err(m),
                Ok(evidence) => Ok((challenge, evidence)),
            },
        },
    }
}

/// The route paths.
pub open spec fn challenge_path() -> Seq<char> {
    "/v1/challenge"@
}

pub open spec fn dev_evidence_path() -> Seq<char> {
    "/v1/dev/evidence"@
}

pub open spec fn evidence_path() -> Seq<char> {
    "/v1/evidence"@
}

/// Routes one request whose method was accepted. `now` is supplied by the
/// caller so that the service stays deterministic and testable.
pub fn route(
    request: &Request,
    now: u64,
    issuer: &dyn ChallengeIssuer,
    simulator: Option<&dyn EvidenceSimulator>,
    processor: &dyn EvidenceProcessor,
) -> (r: Result<String, String>)
    ensures
        request.path@ == challenge_path() ==> match spec_challenge_request(request.body@) {
            Err(m) => r matches Err(found) && found@ == m,
            Ok(_) => r matches Ok(text) ==> exists|issued: SpecChallengeResponse|
                text@ == challenge_response_text(issued),
        },
        request.path@ == dev_evidence_path() ==> if simulator is None {
            (r matches Err(found) && found@ == "developer mode is not enabled"@)
        } else {
            match spec_dev_request(request.body@) {
                Err(m) => r matches Err(found) && found@ == m,
                Ok(_) => r matches Ok(text) ==> exists|evidence: Seq<u8>|
                    text@ == evidence_text(evidence),
            }
        },
        request.path@ == evidence_path() ==> match spec_evidence_submission(request.body@) {
            Err(m) => r matches Err(found) && found@ == m,
            Ok(_) => r matches Ok(text) && exists|verdict: SpecVerdict|
                text@ == verdict_text(verdict),
        },
        request.path@ != challenge_path() && request.path@ != dev_evidence_path()
            && request.path@ != evidence_path() ==> (r matches Err(found) && found@
            == "unknown route"@),
{
    proof {
        reveal_strlit("/v1/challenge");
        reveal_strlit("/v1/dev/evidence");
        reveal_strlit("/v1/evidence");
        assert(challenge_path().len() == 13);
        assert(dev_evidence_path().len() == 16);
        assert(evidence_path().len() == 12);
    }
    let path = request.path.as_str();
    if same_text(path, "/v1/challenge") {
        let parsed = parse_challenge_request(&request.body)?;
        let issued = issuer.issue(&parsed, now)?;
        let text = challenge_response_body(issued);
        return Ok(text);
    }
    if same_text(path, "/v1/dev/evidence") {
        let simulator = match simulator {
            Some(simulator) => simulator,
            None => return Err("developer mode is not enabled".to_owned()),
        };
        let members = decode_body(&request.body)?;
        let challenge = hex_member(&members, "challenge_hex")?;
        let evidence = simulator.simulate(challenge.as_slice())?;
        let text = evidence_body(evidence);
        return Ok(text);
    }
    if same_text(path, "/v1/evidence") {
        let members = decode_body(&request.body)?;
        let challenge = hex_member(&members, "challenge_hex")?;
        let evidence = hex_member(&members, "evidence_hex")?;
        let verdict = processor.process(now, challenge.as_slice(), evidence.as_slice());
        let text = verdict_body(verdict);
        return Ok(text);
    }
    Err("unknown route".to_owned())
}

/// The status line and body answering one request. Only `POST` is served.
pub fn respond(
    request: &Request,
    now: u64,
    issuer: &dyn ChallengeIssuer,
    simulator: Option<&dyn EvidenceSimulator>,
    processor: &dyn EvidenceProcessor,
) -> (r: (&'static str, String))
    ensures
        request.method@ != "POST"@ ==> r.0 == STATUS_METHOD_NOT_ALLOWED && r.1@ == error_text(
            "post only"@,
        ),
        request.method@ == "POST"@ ==> (r.0 == STATUS_OK || r.0 == STATUS_BAD_REQUEST),
        request.method@ == "POST"@ && request.path@ != challenge_path() && request.path@
            != dev_evidence_path() && request.path@ != evidence_path() ==> r.0 == STATUS_BAD_REQUEST
            && r.1@ == error_text("unknown route"@),
        request.method@ == "POST"@ && request.path@ == evidence_path() ==> match spec_evidence_submission(
            request.body@,
        ) {
            Err(m) => r.0 == STATUS_BAD_REQUEST && r.1@ == error_text(m),
            Ok(_) => r.0 == STATUS_OK && exists|verdict: SpecVerdict| r.1@ == verdict_text(verdict),
        },
        request.method@ == "POST"@ && request.path@ == challenge_path() ==> match spec_challenge_request(
            request.body@,
        ) {
            Err(m) => r.0 == STATUS_BAD_REQUEST && r.1@ == error_text(m),
            Ok(_) => (r.0 == STATUS_OK ==> exists|issued: SpecChallengeResponse|
                r.1@ == challenge_response_text(issued)) && (r.0 == STATUS_BAD_REQUEST ==> exists|
                detail: Seq<char>,
            | r.1@ == error_text(detail)),
        },
        request.method@ == "POST"@ && request.path@ == dev_evidence_path() ==> if simulator is None {
            r.0 == STATUS_BAD_REQUEST && r.1@ == error_text("developer mode is not enabled"@)
        } else {
            match spec_dev_request(request.body@) {
                Err(m) => r.0 == STATUS_BAD_REQUEST && r.1@ == error_text(m),
                Ok(_) => (r.0 == STATUS_OK ==> exists|evidence: Seq<u8>|
                    r.1@ == evidence_text(evidence)) && (r.0 == STATUS_BAD_REQUEST ==> exists|
                    detail: Seq<char>,
                | r.1@ == error_text(detail)),
            }
        },
{
    if !same_text(request.method.as_str(), "POST") {
        return (STATUS_METHOD_NOT_ALLOWED, error_body("post only"));
    }
    match route(request, now, issuer, simulator, processor) {
        Ok(body) => (STATUS_OK, body),
        Err(detail) => (STATUS_BAD_REQUEST, error_body(detail.as_str())),
    }
}

/// The public ceilings (wire object, body, string member, header block), for
/// callers that gate bodies before the codec sees them.
pub const SERVICE_LIMITS: (usize, usize, usize, usize) = (
    MAX_WIRE,
    MAX_BODY,
    MAX_STRING,
    MAX_HEADER_BLOCK,
);

/// `ms` carries exactly one member named `key`, and it is the text `text`.
pub open spec fn sole_text_member(ms: Seq<SpecMember>, key: Seq<char>, text: Seq<char>) -> bool {
    &&& exists|i: int| 0 <= i < ms.len() && (#[trigger] ms[i]).0 == key && ms[i].1 == SpecValue::Str(text)
    &&& forall|i: int| 0 <= i < ms.len() && (#[trigger] ms[i]).0 == key ==> ms[i].1 == SpecValue::Str(text)
}

proof fn lemma_find_key_at(ms: Seq<SpecMember>, key: Seq<char>, i: int)
    requires
        0 <= i,
    ensures
        find_key(ms, key, i) matches Some(j) ==> i <= j < ms.len() && ms[j].0 == key,
    decreases ms.len() - i,
{
    if i < ms.len() && ms[i].0 != key {
        lemma_find_key_at(ms, key, i + 1);
    }
}

proof fn lemma_text_field_member(ms: Seq<SpecMember>, key: Seq<char>)
    requires
        encodable(ms),
        text_field(ms, key) is Ok,
    ensures
        sole_text_member(ms, key, text_field(ms, key)->Ok_0),
{
    lemma_find_key_at(ms, key, 0);
    let i = find_key(ms, key, 0)->0;
    let text = text_field(ms, key)->Ok_0;
    assert(ms[i].0 == key && ms[i].1 == SpecValue::Str(text));
    assert forall|j: int| 0 <= j < ms.len() && (#[trigger] ms[j]).0 == key implies ms[j].1
        == SpecValue::Str(text) by {
        if j < i {
            assert(ms[j].0 != ms[i].0);
        } else if j > i {
            assert(ms[i].0 != ms[j].0);
        }
    }
}

/// A challenge request reads each field from the body member of the same
/// name: the body decodes, and the publisher, game, build, account scope,
/// match and policy are each the text of the one member called
/// `publisher_id`, `game_id`, `build_id`, `account_scope`, `match_id` and
/// `policy_id`; the policy version is the decimal number written in the
/// one member called `policy_version`.
pub proof fn lemma_challenge_request_fields(body: Seq<u8>)
    requires
        spec_challenge_request(body) is Ok,
    ensures
        spec_decode(body) is Ok,
        ({
            let ms = spec_decode(body)->Ok_0;
            let request = spec_challenge_request(body)->Ok_0;
            &&& sole_text_member(ms, "publisher_id"@, request.publisher_id)
            &&& sole_text_member(ms, "game_id"@, request.game_id)
            &&& sole_text_member(ms, "build_id"@, request.build_id)
            &&& sole_text_member(ms, "account_scope"@, request.account_scope)
            &&& sole_text_member(ms, "match_id"@, request.match_id)
            &&& sole_text_member(ms, "policy_id"@, request.policy_id)
            &&& exists|version: Seq<char>|
                sole_text_member(ms, "policy_version"@, version) && spec_parse_decimal(
                    version,
                    u32::MAX as nat,
                ) == Some(request.policy_version as nat)
        }),
{
    let ms = spec_decode(body)->Ok_0;
    lemma_decoded_encodable(body);
    lemma_text_field_member(ms, "publisher_id"@);
    lemma_text_field_member(ms, "game_id"@);
    lemma_text_field_member(ms, "build_id"@);
    lemma_text_field_member(ms, "account_scope"@);
    lemma_text_field_member(ms, "match_id"@);
    lemma_text_field_member(ms, "policy_id"@);
    lemma_text_field_member(ms, "policy_version"@);
    let version = text_field(ms, "policy_version"@)->Ok_0;
    assert(spec_parse_decimal(version, u32::MAX as nat) is Some);
}

} // verus!
