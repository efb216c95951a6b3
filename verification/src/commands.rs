//! The request for the user's status: which port is probed next, which one
//! is used, what the server's answer means, and when the request is made a
//! second time.

use crate::cache::CacheManager;
use crate::text::{char_is_space, chars_of, decimal_text, format_decimal, is_space};
use crate::types::{DiscoveryError, PortInfo};
use vstd::prelude::*;
use vstd::string::*;

verus! {

/// The header that carries the token. The server tells upper case from
/// lower case in it.
pub const CSRF_HEADER: &'static str = "X-Codeium-Csrf-Token";

/// How long a probe may take, in milliseconds.
pub const PROBE_TIMEOUT_MS: u64 = 2000;

/// The ports to probe for an extension port, in their order: the port after
/// it, the port itself, the second port after it, and three fixed ports. A
/// port past the largest port number is left out.
pub open spec fn candidate_ports(extension_port: u16) -> Seq<u16> {
    (if extension_port < 0xffff {
        seq![(extension_port + 1) as u16]
    } else {
        Seq::<u16>::empty()
    }) + seq![extension_port] + (if extension_port < 0xfffe {
        seq![(extension_port + 2) as u16]
    } else {
        Seq::<u16>::empty()
    }) + seq![42100u16, 42101u16, 42102u16]
}

/// The first candidate whose probe was answered, as far as probes were
/// made: `outcomes[i]` tells of the probe of `candidates[i]`.
pub open spec fn first_live(candidates: Seq<u16>, outcomes: Seq<bool>) -> Option<u16>
    decreases candidates.len(),
{
    if candidates.len() == 0 || outcomes.len() == 0 {
        None
    } else if outcomes[0] {
        Some(candidates[0])
    } else {
        first_live(candidates.drop_first(), outcomes.drop_first())
    }
}

/// The port to use: the first candidate that answered, and the extension
/// port itself where none did.
pub open spec fn working_port(extension_port: u16, outcomes: Seq<bool>) -> u16 {
    match first_live(candidate_ports(extension_port), outcomes) {
        Some(p) => p,
        None => extension_port,
    }
}

/// What to do after some probes have failed.
#[derive(Debug, Clone, Copy, PartialEq, Eq, Structural)]
pub enum ProbeStep {
    /// Probe this port next.
    Probe(u16),
    /// Every candidate has failed: use this port.
    Use(u16),
}

/// A response status that tells of success.
pub open spec fn is_success(status: u16) -> bool {
    200 <= status && status <= 299
}

/// The address of a method of the language server on a local port.
pub open spec fn method_url(port: u16, method: Seq<char>) -> Seq<char> {
    "https://127.0.0.1:"@ + decimal_text(port as nat)
        + "/exa.language_server_pb.LanguageServerService/"@ + method
}

/// The text of the error for a bundle without a port.
pub open spec fn no_port_text() -> Seq<char> {
    "端口信息中未找到端口"@
}

/// The text of the error for a response that tells of failure.
pub open spec fn bad_status_text(status: u16, body: Seq<char>) -> Seq<char> {
    "请求返回错误状态码: "@ + decimal_text(status as nat) + ", Body: "@ + body
}

/// The text of the error for a request that got no response.
pub open spec fn no_response_text(reason: Seq<char>) -> Seq<char> {
    "请求失败: "@ + reason
}

/// The text of the error for a response body that is no JSON.
pub open spec fn bad_body_text(reason: Seq<char>, body: Seq<char>) -> Seq<char> {
    "解析 JSON 失败: "@ + reason + "; body="@ + body
}

/// The text of the error for a key that is empty or blank.
pub open spec fn blank_key_text() -> Seq<char> {
    "apiKey 不能为空"@
}

/// The text of the error after the second failure: the second reason, then
/// the first.
pub open spec fn retry_failed_text(first: Seq<char>, second: Seq<char>) -> Seq<char> {
    "获取配额失败 (已重试): "@ + second + " (首次失败: "@ + first + ")"@
}

/// A text of white space only; the empty text is one.
pub open spec fn is_blank(text: Seq<char>) -> bool {
    forall|i: int| 0 <= i < text.len() ==> is_space(#[trigger] text[i])
}

/// Which attempt a request is: the first, or the second with the reason for
/// which the first one failed.
#[derive(Debug, PartialEq, Eq)]
pub enum Attempt {
    First,
    Second(String),
}

/// What follows an attempt.
#[derive(Debug, PartialEq, Eq)]
pub enum RetryStep {
    /// The request was answered: this is its payload.
    Done(String),
    /// The first attempt failed for this reason and the caches were emptied:
    /// discover anew and make the second attempt.
    Retry(String),
    /// The second attempt failed as well: this is the error.
    Failed(String),
}

/// `RetryStep` with its texts as sequences of characters.
pub enum RetryStepView {
    Done(Seq<char>),
    Retry(Seq<char>),
    Failed(Seq<char>),
}

impl View for RetryStep {
    type V = RetryStepView;

    open spec fn view(&self) -> RetryStepView {
        match self {
            RetryStep::Done(t) => RetryStepView::Done(t@),
            RetryStep::Retry(t) => RetryStepView::Retry(t@),
            RetryStep::Failed(t) => RetryStepView::Failed(t@),
        }
    }
}

/// The reason for which the first attempt failed, for a second attempt.
pub open spec fn first_reason(attempt: Attempt) -> Option<Seq<char>> {
    match attempt {
        Attempt::First => None,
        Attempt::Second(reason) => Some(reason@),
    }
}

/// How a request ended, with its texts as sequences of characters.
pub open spec fn outcome_view(outcome: Result<String, String>) -> Result<Seq<char>, Seq<char>> {
    match outcome {
        Ok(payload) => Ok(payload@),
        Err(reason) => Err(reason@),
    }
}

/// What follows an attempt that ended as `outcome`, `first` being the reason
/// for which the first attempt failed where this is the second: an answered
/// request is done; the first failure asks for the second attempt; the
/// second failure is final and names both reasons.
pub open spec fn step_of(first: Option<Seq<char>>, outcome: Result<Seq<char>, Seq<char>>)
    -> RetryStepView {
    match outcome {
        Ok(payload) => RetryStepView::Done(payload),
        Err(reason) => match first {
            None => RetryStepView::Retry(reason),
            Some(f) => RetryStepView::Failed(retry_failed_text(f, reason)),
        },
    }
}

/// How many requests are made when the first one ends as `first`: a second
/// one where the step after the first asks for it.
pub open spec fn requests_made(first: Result<Seq<char>, Seq<char>>) -> nat {
    if step_of(None, first) is Retry {
        2
    } else {
        1
    }
}

/// What the caller gets when the first request ends as `first` and the
/// second one, if it is made, as `second`.
pub open spec fn retried_outcome(
    first: Result<Seq<char>, Seq<char>>,
    second: Result<Seq<char>, Seq<char>>,
) -> Result<Seq<char>, Seq<char>> {
    match step_of(None, first) {
        RetryStepView::Done(payload) => Ok(payload),
        RetryStepView::Failed(e) => Err(e),
        RetryStepView::Retry(reason) => match step_of(Some(reason), second) {
            RetryStepView::Done(payload) => Ok(payload),
            RetryStepView::Failed(e) => Err(e),
            RetryStepView::Retry(_) => Err(Seq::empty()),
        },
    }
}

/// The ports to probe for an extension port, in their order.
pub fn find_candidate_ports(extension_port: u16) -> (r: Vec<u16>)
    ensures
        r@ == candidate_ports(extension_port),
        3 <= r@.len() <= 6,
{
    let mut ports: Vec<u16> = Vec::new();
    if extension_port < 0xffff {
        ports.push(extension_port + 1);
    }
    ports.push(extension_port);
    if extension_port < 0xfffe {
        ports.push(extension_port + 2);
    }
    ports.push(42100);
    ports.push(42101);
    ports.push(42102);
    assert(ports@ =~= candidate_ports(extension_port));
    ports
}

/// Says what to do after the first `failed` candidates were probed in vain:
/// probe the next one, or use the extension port where none is left.
pub fn next_probe(extension_port: u16, failed: usize) -> (r: ProbeStep)
    ensures
        r == if failed < candidate_ports(extension_port).len() {
            ProbeStep::Probe(candidate_ports(extension_port)[failed as int])
        } else {
            ProbeStep::Use(extension_port)
        },
{
    let ports = find_candidate_ports(extension_port);
    if failed < ports.len() {
        ProbeStep::Probe(ports[failed])
    } else {
        ProbeStep::Use(extension_port)
    }
}

/// Picks the port to use from the outcomes of the probes, `outcomes[i]`
/// telling whether candidate `i` answered: the first candidate that
/// answered, and the extension port itself where none did.
pub fn find_working_https_port(extension_port: u16, outcomes: &Vec<bool>) -> (r: u16)
    ensures
        r == working_port(extension_port, outcomes@),
{
    let ports = find_candidate_ports(extension_port);
    let ghost all = ports@;
    let mut i: usize = 0;
    assert(all.skip(0) =~= all);
    assert(outcomes@.skip(0) =~= outcomes@);
    while i < ports.len() && i < outcomes.len()
        invariant
            i <= ports@.len(),
            i <= outcomes@.len(),
            all == ports@,
            all == candidate_ports(extension_port),
            first_live(all, outcomes@) == first_live(all.skip(i as int), outcomes@.skip(i as int)),
        decreases ports@.len() - i,
    {
        let ghost left = all.skip(i as int);
        let ghost told = outcomes@.skip(i as int);
        proof {
            assert(left[0] == all[i as int]);
            assert(told[0] == outcomes@[i as int]);
            assert(left.drop_first() =~= all.skip(i + 1));
            assert(told.drop_first() =~= outcomes@.skip(i + 1));
        }
        if outcomes[i] {
            return ports[i];
        }
        i += 1;
    }
    proof {
        let left = all.skip(i as int);
        let told = outcomes@.skip(i as int);
        assert(left.len() == 0 || told.len() == 0);
    }
    extension_port
}

/// While every probe so far has failed, the port to use is the one that
/// `next_probe` names: a candidate that answers is used, and after the last
/// candidate the extension port is.
pub proof fn lemma_probe_order(extension_port: u16, outcomes: Seq<bool>, failed: int)
    requires
        0 <= failed <= outcomes.len(),
        forall|i: int| 0 <= i < failed ==> !outcomes[i],
    ensures
        failed < candidate_ports(extension_port).len() && failed < outcomes.len()
            && outcomes[failed] ==> working_port(extension_port, outcomes) == candidate_ports(
            extension_port,
        )[failed],
        failed >= candidate_ports(extension_port).len() ==> working_port(extension_port, outcomes)
            == extension_port,
{
    lemma_first_live_skips(candidate_ports(extension_port), outcomes, failed);
}

/// Probes that failed are passed over.
proof fn lemma_first_live_skips(candidates: Seq<u16>, outcomes: Seq<bool>, failed: int)
    requires
        0 <= failed <= outcomes.len(),
        forall|i: int| 0 <= i < failed ==> !outcomes[i],
    ensures
        failed < candidates.len() && failed < outcomes.len() && outcomes[failed] ==> first_live(
            candidates,
            outcomes,
        ) == Some(candidates[failed]),
        failed >= candidates.len() ==> first_live(candidates, outcomes) is None,
    decreases candidates.len(),
{
    if candidates.len() == 0 || outcomes.len() == 0 {
    } else if failed == 0 {
    } else {
        assert(!outcomes[0]);
        let rest = outcomes.drop_first();
        assert forall|i: int| 0 <= i < failed - 1 implies !rest[i] by {
            assert(rest[i] == outcomes[i + 1]);
        }
        lemma_first_live_skips(candidates.drop_first(), rest, failed - 1);
        if failed < candidates.len() && failed < outcomes.len() {
            assert(candidates.drop_first()[failed - 1] == candidates[failed]);
            assert(rest[failed - 1] == outcomes[failed]);
        }
    }
}

/// Whether a response status tells of success.
pub fn status_is_success(status: u16) -> (r: bool)
    ensures
        r == is_success(status),
{
    200 <= status && status <= 299
}

/// Whether a probe was answered: a response came, and its status tells of
/// success.
pub fn test_port_connectivity(response_status: Option<u16>) -> (r: bool)
    ensures
        r == (response_status matches Some(s) && is_success(s)),
{
    match response_status {
        Some(s) => status_is_success(s),
        None => false,
    }
}

/// Writes the address of a method of the language server on a local port.
pub fn language_server_url(port: u16, method: &str) -> (r: String)
    ensures
        r@ == method_url(port, method@),
{
    let mut url = String::from_str("https://127.0.0.1:");
    let number = format_decimal(port as u64);
    url.append(number.as_str());
    url.append("/exa.language_server_pb.LanguageServerService/");
    url.append(method);
    url
}

/// The port from which the search for the working port starts: the HTTPS
/// port of the bundle.
pub fn base_port(port_info: &PortInfo) -> (r: Result<u16, String>)
    ensures
        match port_info@.https_port {
            Some(p) => r == Ok::<u16, String>(p),
            None => r matches Err(e) && e@ == no_port_text(),
        },
{
    match port_info.https_port {
        Some(p) => Ok(p),
        None => Err(String::from_str("端口信息中未找到端口")),
    }
}

/// The error for a request that got no response.
pub fn request_failed(reason: &str) -> (r: DiscoveryError)
    ensures
        r matches DiscoveryError::NetworkError(t) && t@ == no_response_text(reason@),
{
    let mut text = String::from_str("请求失败: ");
    text.append(reason);
    DiscoveryError::NetworkError(text)
}

/// The error for a response whose body is not what it should be.
pub fn malformed_body(reason: &str, body: &str) -> (r: DiscoveryError)
    ensures
        r matches DiscoveryError::DecodeError(t) && t@ == bad_body_text(reason@, body@),
{
    let mut text = String::from_str("解析 JSON 失败: ");
    text.append(reason);
    text.append("; body=");
    text.append(body);
    assert(text@ =~= bad_body_text(reason@, body@));
    DiscoveryError::DecodeError(text)
}

/// Judges a response by its status: any status but a success is an error
/// that names the status and the body.
pub fn check_response(status: u16, body: &str) -> (r: Result<(), DiscoveryError>)
    ensures
        is_success(status) ==> r is Ok,
        !is_success(status) ==> (r matches Err(DiscoveryError::NetworkError(e)) && e@
            == bad_status_text(status, body@)),
{
    if status_is_success(status) {
        Ok(())
    } else {
        let mut text = String::from_str("请求返回错误状态码: ");
        let number = format_decimal(status as u64);
        text.append(number.as_str());
        text.append(", Body: ");
        text.append(body);
        Err(DiscoveryError::NetworkError(text))
    }
}

/// Refuses a key that is empty or holds white space only.
pub fn check_api_key(api_key: &str) -> (r: Result<(), String>)
    ensures
        !is_blank(api_key@) ==> r is Ok,
        is_blank(api_key@) ==> (r matches Err(e) && e@ == blank_key_text()),
{
    let chars = chars_of(api_key);
    let mut i: usize = 0;
    while i < chars.len()
        invariant
            i <= chars@.len(),
            chars@ == api_key@,
            forall|j: int| 0 <= j < i ==> is_space(#[trigger] api_key@[j]),
        decreases chars@.len() - i,
    {
        if !char_is_space(chars[i]) {
            return Ok(());
        }
        i += 1;
    }
    Err(String::from_str("apiKey 不能为空"))
}

/// Decides what follows an attempt. An answered request is done. After the
/// first failure both caches are emptied and the request is to be made once
/// more, after a discovery from scratch. After the second failure the error
/// names both reasons, and nothing more is tried.
pub fn after_attempt(cache: &mut CacheManager, attempt: Attempt, outcome: Result<String, String>)
    -> (r: RetryStep)
    ensures
        r@ == step_of(first_reason(attempt), outcome_view(outcome)),
        final(cache).tokens() == if r@ is Retry {
            old(cache).tokens().clear()
        } else {
            old(cache).tokens()
        },
        final(cache).ports() == if r@ is Retry {
            old(cache).ports().clear()
        } else {
            old(cache).ports()
        },
{
    match outcome {
        Ok(payload) => RetryStep::Done(payload),
        Err(reason) => match attempt {
            Attempt::First => {
                cache.clear_all();
                RetryStep::Retry(reason)
            },
            Attempt::Second(first) => {
                let mut text = String::from_str("获取配额失败 (已重试): ");
                text.append(reason.as_str());
                text.append(" (首次失败: ");
                text.append(first.as_str());
                text.append(")");
                assert(text@ =~= retry_failed_text(first@, reason@));
                RetryStep::Failed(text)
            },
        },
    }
}

/// Asks for the user's status with one retry, given how the first request
/// ended and how the second one ended if it was made: the payload of the
/// first request that was answered, or the error that names both reasons.
/// The caches are emptied after a first failure. A blank key is refused
/// before anything is asked.
pub fn language_server_get_user_status(
    cache: &mut CacheManager,
    api_key: &str,
    first: Result<String, String>,
    second: Result<String, String>,
) -> (r: Result<String, String>)
    ensures
        is_blank(api_key@) ==> {
            &&& r matches Err(e)
            &&& e@ == blank_key_text()
            &&& final(cache).tokens() == old(cache).tokens()
            &&& final(cache).ports() == old(cache).ports()
        },
        !is_blank(api_key@) ==> {
            &&& outcome_view(r) == retried_outcome(outcome_view(first), outcome_view(second))
            &&& final(cache).tokens() == if first is Err {
                old(cache).tokens().clear()
            } else {
                old(cache).tokens()
            }
            &&& final(cache).ports() == if first is Err {
                old(cache).ports().clear()
            } else {
                old(cache).ports()
            }
        },
{
    match check_api_key(api_key) {
        Err(e) => {
            return Err(e);
        },
        Ok(_) => {},
    }
    match after_attempt(cache, Attempt::First, first) {
        RetryStep::Done(payload) => Ok(payload),
        RetryStep::Failed(e) => Err(e),
        RetryStep::Retry(reason) => match after_attempt(cache, Attempt::Second(reason), second) {
            RetryStep::Done(payload) => Ok(payload),
            RetryStep::Failed(e) => Err(e),
            RetryStep::Retry(_) => Err(String::new()),
        },
    }
}

/// A request is made at most twice: a first failure, and only that, asks for
/// the second request, and whatever the second request comes to, no step
/// asks for a third. The second request rests on a discovery from scratch:
/// with the caches emptied no key has a value, whatever the time.
pub proof fn lemma_retry_once(
    tokens: crate::cache::CacheModel<String>,
    ports: crate::cache::CacheModel<crate::types::PortInfo>,
    first: Result<Seq<char>, Seq<char>>,
    second: Result<Seq<char>, Seq<char>>,
    key: Seq<char>,
    now: u64,
)
    ensures
        step_of(None, first) is Retry <==> first is Err,
        forall|reason: Seq<char>| !(#[trigger] step_of(Some(reason), second) is Retry),
        1 <= requests_made(first) <= 2,
        requests_made(first) == 2 <==> first is Err,
        tokens.clear().get(key, now) is None,
        ports.clear().get(key, now) is None,
        retried_outcome(first, second) is Err <==> first is Err && second is Err,
        match (first, second) {
            (Err(e1), Err(e2)) => retried_outcome(first, second) == Err::<Seq<char>, Seq<char>>(
                retry_failed_text(e1, e2),
            ),
            _ => true,
        },
{
}

} // verus!
