//! Inspection of requests and responses.

use crate::config::AppConfig;
use crate::detection::normalization::NormalizationLimits;
use crate::net;
use crate::outside;
use crate::outside::UrlParts;
use crate::policy;
use crate::text;
use crate::text::CharClass;
use crate::types;
use crate::types::{AttackClass, Finding, FindingView, LivePolicyState, Severity};
use vstd::prelude::*;

pub mod detectors;
pub mod inspection;
pub mod normalization;
pub mod schema_learning;
pub mod tokens;

verus! {

/// Signs of SQL injection.
pub const SQLI_PATTERN: &'static str =
    r#"(?i)(?:\bunion\s+(?:all\s+)?select\b|\binformation_schema\b|\bbenchmark\s*\(|\bsleep\s*\(|(?:'|")\s*or\s+(?:'|")?1(?:'|")?\s*=\s*(?:'|")?1|--\s*$|/\*)"#;

/// Signs of script injection.
pub const XSS_PATTERN: &'static str =
    r"(?i)(<script|javascript:|onerror\s*=|onload\s*=|document\.cookie|alert\s*\()";

/// Signs of command injection.
pub const CMDI_PATTERN: &'static str =
    r"(?i)(;\s*(cat|ls|id)\b|\|\s*(whoami|id)\b|&&\s*(whoami|id)\b|`[^`]+`|\$\([^\)]+\)|/bin/sh|cmd\.exe|powershell\.exe)";

/// Addresses that a server must not be made to call.
pub const SSRF_PATTERN: &'static str =
    r"(?i)(https?://(?:127\.0\.0\.1|localhost|169\.254\.169\.254)|file://|gopher://)";

pub fn matches_sqli(s: &str) -> (r: bool)
    ensures
        r == outside::regex_finds(SQLI_PATTERN@, s@),
{
    outside::regex_is_match(SQLI_PATTERN, s)
}

pub fn matches_xss(s: &str) -> (r: bool)
    ensures
        r == outside::regex_finds(XSS_PATTERN@, s@),
{
    outside::regex_is_match(XSS_PATTERN, s)
}

pub fn matches_cmdi(s: &str) -> (r: bool)
    ensures
        r == outside::regex_finds(CMDI_PATTERN@, s@),
{
    outside::regex_is_match(CMDI_PATTERN, s)
}

pub fn matches_ssrf(s: &str) -> (r: bool)
    ensures
        r == outside::regex_finds(SSRF_PATTERN@, s@),
{
    outside::regex_is_match(SSRF_PATTERN, s)
}

/// Whether a host, in lower case and without dots at its ends, is one that a server must not be
/// made to call.
pub open spec fn internal_host(host: Seq<char>) -> bool {
    ||| host == "localhost"@
    ||| host == "metadata.google.internal"@
    ||| host == "169.254.169.254"@
    ||| net::ip_of(host) is Some && net::is_internal(net::ip_of(host)->0)
}

/// Whether a URL with this scheme and host leads to a place that a server must not be made to
/// call.
pub open spec fn suspicious_parts(scheme: Seq<char>, host: Option<Seq<char>>) -> bool {
    ||| scheme == "file"@
    ||| scheme == "gopher"@
    ||| {
        &&& scheme == "http"@ || scheme == "https"@
        &&& host is Some
        &&& internal_host(text::lower_of(text::trim_matches_of(host->0, '.')))
    }
}

/// Whether the parts of a URL lead to a place that a server must not be made to call.
pub fn is_suspicious_parts(parts: &UrlParts) -> (r: bool)
    ensures
        r == suspicious_parts(parts.scheme@, parts.host.deep_view()),
{
    let scheme = parts.scheme.as_str();
    if text::same(scheme, "file") || text::same(scheme, "gopher") {
        return true;
    }
    if !text::same(scheme, "http") && !text::same(scheme, "https") {
        return false;
    }
    match &parts.host {
        None => false,
        Some(h) => {
            let trimmed = text::trim_matches(h.as_str(), '.');
            let host = text::to_ascii_lowercase(trimmed.as_str());
            if text::same(host.as_str(), "localhost") || text::same(
                host.as_str(),
                "metadata.google.internal",
            ) || text::same(host.as_str(), "169.254.169.254") {
                return true;
            }
            match net::parse_ip(host.as_str()) {
                Some(ip) => net::is_private_or_link_local(&ip),
                None => false,
            }
        },
    }
}

/// Whether a text is a URL that leads to a place that a server must not be made to call.
pub open spec fn suspicious_url(raw: Seq<char>) -> bool {
    match outside::url_parts(raw) {
        Some((scheme, host)) => suspicious_parts(scheme, host),
        None => false,
    }
}

pub fn is_suspicious_url_target(raw: &str) -> (r: bool)
    ensures
        r == suspicious_url(raw@),
{
    match outside::parse_url(raw) {
        Some(parts) => is_suspicious_parts(&parts),
        None => false,
    }
}

/// The first twenty parts that look like URLs, without closing brackets at their ends.
pub open spec fn url_candidates(parts: Seq<Seq<char>>) -> Seq<Seq<char>>
    decreases parts.len(),
{
    if parts.len() == 0 {
        Seq::empty()
    } else {
        let before = url_candidates(parts.drop_last());
        if text::has_part(parts.last(), "://"@) && before.len() < 20 {
            before.push(
                text::trim_end_of(
                    text::trim_start_of(parts.last(), CharClass::Closing),
                    CharClass::Closing,
                ),
            )
        } else {
            before
        }
    }
}

pub open spec fn url_candidates_of(value: Seq<char>) -> Seq<Seq<char>> {
    url_candidates(text::split_class_of(value, CharClass::UrlEnd))
}

pub fn extract_url_candidates(value: &str) -> (r: Vec<String>)
    ensures
        r.deep_view() == url_candidates_of(value@),
{
    let parts = text::split_class(value, CharClass::UrlEnd);
    let ghost all = parts.deep_view();
    let mut out: Vec<String> = Vec::new();
    let mut i: usize = 0;
    assert(all.take(0) =~= Seq::empty());
    assert(out.deep_view() =~= Seq::empty());
    while i < parts.len()
        invariant
            i <= parts@.len(),
            all == parts.deep_view(),
            out.deep_view() == url_candidates(all.take(i as int)),
        decreases parts@.len() - i,
    {
        assert(all.take(i + 1).drop_last() =~= all.take(i as int));
        assert(all.take(i + 1).last() == parts@[i as int]@);
        if text::contains(parts[i].as_str(), "://") && out.len() < 20 {
            text::push_text(&mut out, text::trim_class(parts[i].as_str(), CharClass::Closing));
        }
        i = i + 1;
    }
    assert(all.take(i as int) =~= all);
    out
}

/// Whether a text holds a URL that leads to a place that a server must not be made to call.
pub open spec fn holds_suspicious_url(value: Seq<char>) -> bool {
    exists|i: int|
        0 <= i < url_candidates_of(value).len() && suspicious_url(
            #[trigger] url_candidates_of(value)[i],
        )
}

/// Whether one of some texts holds such a URL.
pub open spec fn any_suspicious_url(values: Seq<Seq<char>>) -> bool {
    exists|i: int| 0 <= i < values.len() && holds_suspicious_url(#[trigger] values[i])
}

fn has_suspicious_url(value: &str) -> (r: bool)
    ensures
        r == holds_suspicious_url(value@),
{
    let candidates = extract_url_candidates(value);
    let ghost all = url_candidates_of(value@);
    let mut i: usize = 0;
    while i < candidates.len()
        invariant
            i <= candidates@.len(),
            all == candidates.deep_view(),
            all == url_candidates_of(value@),
            forall|j: int| 0 <= j < i ==> !suspicious_url(#[trigger] all[j]),
        decreases candidates@.len() - i,
    {
        assert(all[i as int] == candidates@[i as int]@);
        if is_suspicious_url_target(candidates[i].as_str()) {
            return true;
        }
        i = i + 1;
    }
    false
}

pub fn detect_ssrf_values(values: &Vec<String>) -> (r: bool)
    ensures
        r == any_suspicious_url(values.deep_view()),
{
    let ghost all = values.deep_view();
    let mut i: usize = 0;
    while i < values.len()
        invariant
            i <= values@.len(),
            all == values.deep_view(),
            forall|j: int| 0 <= j < i ==> !holds_suspicious_url(#[trigger] all[j]),
        decreases values@.len() - i,
    {
        assert(all[i as int] == values@[i as int]@);
        if has_suspicious_url(values[i].as_str()) {
            return true;
        }
        i = i + 1;
    }
    false
}

/// Whether a Host header has a form that no well-behaved client sends.
pub open spec fn is_malformed_host(value: Seq<char>) -> bool {
    ||| value.contains('@')
    ||| value.contains('\\')
    ||| text::count_of(value, ':') > 1 && !text::has_prefix(value, "["@)
    ||| text::byte_len_of(value) > 255
}

pub fn malformed_host(value: &str) -> (r: bool)
    ensures
        r == is_malformed_host(value@),
{
    text::contains_char(value, '@') || text::contains_char(value, '\\') || (text::count_char(
        value,
        ':',
    ) > 1 && !text::starts_with(value, "[")) || text::byte_len(value) > 255
}

/// What the pattern search says about a payload.
#[derive(Debug, Clone, Copy)]
pub struct PayloadSignals {
    pub sqli: bool,
    pub xss: bool,
    pub cmdi: bool,
    pub ssrf: bool,
}

/// Whether a payload climbs out of a directory, plainly or encoded. The payload is in lower case.
pub open spec fn has_traversal(lower: Seq<char>) -> bool {
    ||| text::has_part(lower, "../"@)
    ||| text::has_part(lower, "..\\"@)
    ||| text::has_part(lower, "%2e%2e"@)
    ||| text::has_part(lower, "%252e%252e"@)
}

/// Whether a payload is encoded more than a plain request needs.
pub open spec fn is_evasive(lower: Seq<char>) -> bool {
    text::count_of(lower, '%') >= 8 || text::has_part(lower, "%25"@)
}

/// The rule for a place: the second of two for bodies, the first for everything else.
pub open spec fn rule_for(location: Seq<char>, elsewhere: Seq<char>, in_body: Seq<char>) -> Seq<
    char,
> {
    if location == "request.body"@ {
        in_body
    } else {
        elsewhere
    }
}

/// A finding about a payload.
pub open spec fn payload_finding(
    policy: LivePolicyState,
    path: Seq<char>,
    rule_id: Seq<char>,
    class: AttackClass,
    severity: Severity,
    confidence: i64,
    message: Seq<char>,
    location: Seq<char>,
    haystack: Seq<char>,
) -> FindingView {
    types::finding_of(
        rule_id,
        class,
        severity,
        confidence,
        message,
        location,
        text::truncate_of(haystack, 200),
        types::rule_mode_of(policy, path, rule_id),
    )
}

/// A list with one more item where a condition holds.
pub open spec fn push_if(s: Seq<FindingView>, condition: bool, f: FindingView) -> Seq<FindingView> {
    if condition {
        s.push(f)
    } else {
        s
    }
}

/// The findings about a payload, given what the pattern search says.
pub open spec fn payload_findings_of(
    policy: LivePolicyState,
    path: Seq<char>,
    location: Seq<char>,
    haystack: Seq<char>,
    signals: PayloadSignals,
) -> Seq<FindingView> {
    let lower = text::lower_of(haystack);
    let sqli_rule = rule_for(location, "UZ-SQLI-001"@, "UZ-SQLI-002"@);
    let xss_rule = rule_for(location, "UZ-XSS-001"@, "UZ-XSS-002"@);
    let cmdi_rule = rule_for(location, "UZ-CMDI-001"@, "UZ-CMDI-002"@);
    let s0 = Seq::<FindingView>::empty();
    let s1 = push_if(
        s0,
        has_traversal(lower),
        payload_finding(
            policy,
            path,
            "UZ-TRAV-001"@,
            AttackClass::PathTraversal,
            Severity::High,
            950_000,
            "path traversal markers detected"@,
            location,
            haystack,
        ),
    );
    let s2 = push_if(
        s1,
        signals.sqli,
        payload_finding(
            policy,
            path,
            sqli_rule,
            AttackClass::SqlInjection,
            Severity::Critical,
            910_000,
            "SQL injection indicators detected with normalized inspection"@,
            location,
            haystack,
        ),
    );
    let s3 = push_if(
        s2,
        signals.xss,
        payload_finding(
            policy,
            path,
            xss_rule,
            AttackClass::Xss,
            Severity::High,
            890_000,
            "XSS indicators detected"@,
            location,
            haystack,
        ),
    );
    let s4 = push_if(
        s3,
        signals.cmdi,
        payload_finding(
            policy,
            path,
            cmdi_rule,
            AttackClass::CommandInjection,
            Severity::Critical,
            870_000,
            "command injection indicators detected"@,
            location,
            haystack,
        ),
    );
    let s5 = push_if(
        s4,
        signals.ssrf,
        payload_finding(
            policy,
            path,
            "UZ-SSRF-001"@,
            AttackClass::Ssrf,
            Severity::High,
            800_000,
            "SSRF-like indicators detected"@,
            location,
            haystack,
        ),
    );
    push_if(
        s5,
        is_evasive(lower),
        payload_finding(
            policy,
            path,
            "UZ-EVASION-001"@,
            AttackClass::PayloadEvasion,
            Severity::Medium,
            760_000,
            "encoded or evasive payload indicators detected"@,
            location,
            haystack,
        ),
    )
}

fn note_payload(
    findings: &mut Vec<Finding>,
    policy: &LivePolicyState,
    path: &str,
    rule_id: &str,
    class: AttackClass,
    severity: Severity,
    confidence: i64,
    message: &str,
    location: &str,
    haystack: &str,
)
    ensures
        final(findings).deep_view() == old(findings).deep_view().push(
            payload_finding(
                *policy,
                path@,
                rule_id@,
                class,
                severity,
                confidence,
                message@,
                location@,
                haystack@,
            ),
        ),
{
    let preview = text::truncate(haystack, 200);
    let mode = types::resolve_rule_mode(policy, path, rule_id);
    types::push_finding(
        findings,
        types::make_finding(
            rule_id,
            class,
            severity,
            confidence,
            message,
            location,
            preview.as_str(),
            mode,
        ),
    );
}

/// The findings about a payload, given what the pattern search says.
pub fn payload_findings(
    policy: &LivePolicyState,
    path: &str,
    location: &str,
    haystack: &str,
    signals: PayloadSignals,
) -> (r: Vec<Finding>)
    ensures
        r.deep_view() == payload_findings_of(*policy, path@, location@, haystack@, signals),
{
    let lower = text::to_ascii_lowercase(haystack);
    let l = lower.as_str();
    let in_body = text::same(location, "request.body");
    let mut findings: Vec<Finding> = Vec::new();
    assert(findings.deep_view() =~= Seq::empty());
    if text::contains(l, "../") || text::contains(l, "..\\") || text::contains(l, "%2e%2e")
        || text::contains(l, "%252e%252e") {
        note_payload(
            &mut findings,
            policy,
            path,
            "UZ-TRAV-001",
            AttackClass::PathTraversal,
            Severity::High,
            950_000,
            "path traversal markers detected",
            location,
            haystack,
        );
    }
    if signals.sqli {
        let rule_id = if in_body {
            "UZ-SQLI-002"
        } else {
            "UZ-SQLI-001"
        };
        note_payload(
            &mut findings,
            policy,
            path,
            rule_id,
            AttackClass::SqlInjection,
            Severity::Critical,
            910_000,
            "SQL injection indicators detected with normalized inspection",
            location,
            haystack,
        );
    }
    if signals.xss {
        let rule_id = if in_body {
            "UZ-XSS-002"
        } else {
            "UZ-XSS-001"
        };
        note_payload(
            &mut findings,
            policy,
            path,
            rule_id,
            AttackClass::Xss,
            Severity::High,
            890_000,
            "XSS indicators detected",
            location,
            haystack,
        );
    }
    if signals.cmdi {
        let rule_id = if in_body {
            "UZ-CMDI-002"
        } else {
            "UZ-CMDI-001"
        };
        note_payload(
            &mut findings,
            policy,
            path,
            rule_id,
            AttackClass::CommandInjection,
            Severity::Critical,
            870_000,
            "command injection indicators detected",
            location,
            haystack,
        );
    }
    if signals.ssrf {
        note_payload(
            &mut findings,
            policy,
            path,
            "UZ-SSRF-001",
            AttackClass::Ssrf,
            Severity::High,
            800_000,
            "SSRF-like indicators detected",
            location,
            haystack,
        );
    }
    if text::count_char(l, '%') >= 8 || text::contains(l, "%25") {
        note_payload(
            &mut findings,
            policy,
            path,
            "UZ-EVASION-001",
            AttackClass::PayloadEvasion,
            Severity::Medium,
            760_000,
            "encoded or evasive payload indicators detected",
            location,
            haystack,
        );
    }
    findings
}

/// The limits on normalization that a configuration sets.
pub open spec fn limits_of(config: AppConfig) -> NormalizationLimits {
    NormalizationLimits {
        max_bytes: config.discovery.max_normalized_bytes,
        max_decode_passes: config.discovery.max_decode_passes,
        max_query_params: config.discovery.max_query_params,
    }
}

pub fn normalization_limits(config: &AppConfig) -> (r: NormalizationLimits)
    ensures
        r == limits_of(*config),
{
    NormalizationLimits {
        max_bytes: config.discovery.max_normalized_bytes,
        max_decode_passes: config.discovery.max_decode_passes,
        max_query_params: config.discovery.max_query_params,
    }
}

/// The decoded forms of some texts.
pub open spec fn variants_of(config: AppConfig, candidates: Seq<Seq<char>>) -> Seq<Seq<char>> {
    Seq::new(
        candidates.len(),
        |i: int| normalization::decoded_of(candidates[i], limits_of(config)),
    )
}

pub fn normalized_variants(config: &AppConfig, candidates: &Vec<String>) -> (r: Vec<String>)
    ensures
        r.deep_view() == variants_of(*config, candidates.deep_view()),
{
    let limits = normalization_limits(config);
    let ghost all = variants_of(*config, candidates.deep_view());
    let mut out: Vec<String> = Vec::new();
    let mut i: usize = 0;
    while i < candidates.len()
        invariant
            i <= candidates@.len(),
            limits == limits_of(*config),
            all == variants_of(*config, candidates.deep_view()),
            out.deep_view() == all.take(i as int),
        decreases candidates@.len() - i,
    {
        let v = normalization::bounded_decode(candidates[i].as_str(), &limits);
        assert(v@ == all[i as int]);
        text::push_text(&mut out, v);
        i = i + 1;
        assert(out.deep_view() =~= all.take(i as int));
    }
    assert(all.take(i as int) =~= all);
    out
}

/// What the pattern search says about some texts and the text that they make together.
pub open spec fn signals_of(values: Seq<Seq<char>>, haystack: Seq<char>) -> PayloadSignals {
    let lower = text::lower_of(haystack);
    PayloadSignals {
        sqli: outside::regex_finds(SQLI_PATTERN@, lower),
        xss: outside::regex_finds(XSS_PATTERN@, lower),
        cmdi: outside::regex_finds(CMDI_PATTERN@, lower),
        ssrf: outside::regex_finds(SSRF_PATTERN@, lower) || any_suspicious_url(values),
    }
}

/// The findings about some parts of a request that are inspected together.
pub open spec fn candidate_findings(
    config: AppConfig,
    policy: LivePolicyState,
    path: Seq<char>,
    location: Seq<char>,
    candidates: Seq<Seq<char>>,
) -> Seq<FindingView> {
    if candidates.len() == 0 {
        Seq::empty()
    } else {
        let values = variants_of(config, candidates);
        let haystack = text::join_of(values, " | "@);
        payload_findings_of(policy, path, location, haystack, signals_of(values, haystack))
    }
}

pub fn inspect_payload_candidates(
    config: &AppConfig,
    policy: &LivePolicyState,
    path: &str,
    location: &str,
    candidates: &Vec<String>,
) -> (r: Vec<Finding>)
    ensures
        r.deep_view() == candidate_findings(
            *config,
            *policy,
            path@,
            location@,
            candidates.deep_view(),
        ),
{
    if candidates.len() == 0 {
        let none: Vec<Finding> = Vec::new();
        assert(none.deep_view() =~= Seq::empty());
        return none;
    }
    let values = normalized_variants(config, candidates);
    let haystack = text::join(&values, " | ");
    let lower = text::to_ascii_lowercase(haystack.as_str());
    let signals = PayloadSignals {
        sqli: matches_sqli(lower.as_str()),
        xss: matches_xss(lower.as_str()),
        cmdi: matches_cmdi(lower.as_str()),
        ssrf: matches_ssrf(lower.as_str()) || detect_ssrf_values(&values),
    };
    payload_findings(policy, path, location, haystack.as_str(), signals)
}

} // verus!
