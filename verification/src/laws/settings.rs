//! Which settings are accepted, and where they come from.

use crate::config;
use crate::config::{
    AppConfig, AuthConfig, ConfigError, ControlPlaneConfig, DetectorException, EnvOverrides,
};
use crate::enrollment;
use crate::enrollment::{EnrollmentError, EnrollmentResponse};
use crate::outside;
use crate::text;
use vstd::prelude::*;

verus! {

/// Whether a text holds more than white space.
pub open spec fn is_given(s: Seq<char>) -> bool {
    text::trim_of(s).len() > 0
}

/// The settings for the control plane are accepted where what is switched on has all that it needs
/// and the limits are within their ranges.
pub proof fn law_control_plane_accepted(c: ControlPlaneConfig)
    ensures
        config::control_plane_error(c) is None <==> {
            &&& c.enrollment_enabled ==> is_given(c.enrollment_url@) && is_given(
                c.enrollment_token@,
            )
            &&& c.telemetry_enabled ==> is_given(c.ingestion_url@)
            &&& c.telemetry_enabled && !c.enrollment_enabled ==> is_given(c.api_key@) && is_given(
                c.firewall_instance_id@,
            )
            &&& 1 <= c.request_timeout_ms <= 30_000
            &&& 1 <= c.queue_capacity <= 100_000
        },
{
}

/// What is wrong with the settings for the control plane is what is told.
pub proof fn law_control_plane_refused(c: ControlPlaneConfig, e: ConfigError)
    requires
        config::control_plane_error(c) == Some(e),
    ensures
        e is EnrollmentUrlMissing ==> c.enrollment_enabled && !is_given(c.enrollment_url@),
        e is EnrollmentTokenMissing ==> c.enrollment_enabled && !is_given(c.enrollment_token@),
        e is IngestionUrlMissing ==> c.telemetry_enabled && !is_given(c.ingestion_url@),
        e is ApiKeyMissing ==> c.telemetry_enabled && !c.enrollment_enabled && !is_given(
            c.api_key@,
        ),
        e is FirewallInstanceIdMissing ==> c.telemetry_enabled && !c.enrollment_enabled
            && !is_given(c.firewall_instance_id@),
        e is RequestTimeoutOutOfRange ==> c.request_timeout_ms == 0 || c.request_timeout_ms
            > 30_000,
        e is QueueCapacityOutOfRange ==> c.queue_capacity == 0 || c.queue_capacity > 100_000,
        e is EnrollmentUrlMissing || e is EnrollmentTokenMissing || e is IngestionUrlMissing || e
            is ApiKeyMissing || e is FirewallInstanceIdMissing || e is RequestTimeoutOutOfRange || e
            is QueueCapacityOutOfRange,
{
}

/// Whether a text can name a parameter: letters, digits and a few signs, not too many.
pub open spec fn is_name(s: Seq<char>) -> bool {
    &&& s.len() > 0 && text::byte_len_of(s) <= 120
    &&& forall|i: int|
        0 <= i < s.len() ==> 'a' <= #[trigger] s[i] <= 'z' || 'A' <= s[i] <= 'Z' || '0' <= s[i]
            <= '9' || s[i] == '_' || s[i] == '-' || s[i] == '.'
}

proof fn lemma_name(s: Seq<char>)
    ensures
        config::valid_selector(s) <==> is_name(s),
{
    if is_name(s) {
        assert forall|i: int| 0 <= i < s.len() implies config::is_selector_char(#[trigger] s[i]) by {
            assert('a' <= s[i] <= 'z' || 'A' <= s[i] <= 'Z' || '0' <= s[i] <= '9' || s[i] == '_'
                || s[i] == '-' || s[i] == '.');
        }
    }
    if config::valid_selector(s) {
        assert forall|i: int| 0 <= i < s.len() implies 'a' <= #[trigger] s[i] <= 'z' || 'A' <= s[i]
            <= 'Z' || '0' <= s[i] <= '9' || s[i] == '_' || s[i] == '-' || s[i] == '.' by {
            assert(config::is_selector_char(s[i]));
        }
    }
}

/// Whether an exception names a detector, has a confidence between zero and one, and a parameter
/// that can be one.
pub open spec fn is_sound_exception(e: DetectorException) -> bool {
    &&& is_given(e.detector_id@)
    &&& e.min_confidence is Some ==> 0 <= e.min_confidence->0 <= 1_000_000
    &&& e.parameter is Some ==> is_name(e.parameter->0@)
}

proof fn lemma_exceptions(s: Seq<DetectorException>)
    ensures
        config::exceptions_error(s) is None <==> forall|i: int|
            0 <= i < s.len() ==> is_sound_exception(#[trigger] s[i]),
        config::exceptions_error(s) is Some ==> exists|i: int|
            0 <= i < s.len() && !is_sound_exception(#[trigger] s[i]) && is_fault_of(
                config::exceptions_error(s)->0,
                s[i],
            ) && forall|j: int| 0 <= j < i ==> is_sound_exception(#[trigger] s[j]),
    decreases s.len(),
{
    if s.len() > 0 {
        let rest = s.drop_first();
        lemma_exceptions(rest);
        if s[0].parameter is Some {
            lemma_name(s[0].parameter->0@);
        }
        assert(config::exception_error(s[0]) is None <==> is_sound_exception(s[0]));
        assert(forall|i: int| 0 <= i < rest.len() ==> #[trigger] rest[i] == s[i + 1]);
        if config::exception_error(s[0]) is Some {
            assert(!is_sound_exception(s[0]) && is_fault_of(config::exceptions_error(s)->0, s[0]));
        } else if config::exceptions_error(rest) is Some {
            let i = choose|i: int|
                0 <= i < rest.len() && !is_sound_exception(#[trigger] rest[i]) && is_fault_of(
                    config::exceptions_error(rest)->0,
                    rest[i],
                ) && forall|j: int| 0 <= j < i ==> is_sound_exception(#[trigger] rest[j]);
            assert(!is_sound_exception(s[i + 1]));
            assert forall|j: int| 0 <= j < i + 1 implies is_sound_exception(#[trigger] s[j]) by {
                if j > 0 {
                    assert(rest[j - 1] == s[j]);
                }
            }
        } else {
            assert forall|i: int| 0 <= i < s.len() implies is_sound_exception(#[trigger] s[i]) by {
                if i > 0 {
                    assert(rest[i - 1] == s[i]);
                }
            }
        }
    }
}

/// Whether an error tells what is wrong with an exception.
pub open spec fn is_fault_of(error: ConfigError, e: DetectorException) -> bool {
    ||| error == ConfigError::ExceptionDetectorIdEmpty && !is_given(e.detector_id@)
    ||| error == ConfigError::ExceptionConfidenceOutOfRange && e.min_confidence is Some && !(0
        <= e.min_confidence->0 <= 1_000_000)
    ||| error == ConfigError::ExceptionParameterInvalid && e.parameter is Some && !is_name(
        e.parameter->0@,
    )
}

/// Whether a secret is one that stands in a sample.
pub open spec fn is_sample(s: Seq<char>) -> bool {
    let t = text::trim_of(s);
    t == "dev-admin-token-1"@ || t == "replace-me-admin-token"@ || t == "replace-me-in-production"@
}

/// Whether what is switched on has secrets of its own.
pub open spec fn has_secrets(auth: AuthConfig) -> bool {
    &&& auth.admin.enabled ==> is_given(auth.admin.token@) && !is_sample(auth.admin.token@)
    &&& auth.enabled ==> auth.api_keys@.len() > 0 && forall|i: int|
        0 <= i < auth.api_keys@.len() ==> is_given(#[trigger] auth.api_keys@[i]@) && !is_sample(
            auth.api_keys@[i]@,
        )
}

/// Settings are accepted where those for the control plane are, the bars for blocking, the
/// exceptions and the limits are within their ranges, and, in production, no secret is missing or
/// from a sample.
pub proof fn law_settings_accepted(c: AppConfig)
    ensures
        config::config_error(c) is None <==> {
            &&& config::control_plane_error(c.control_plane) is None
            &&& 0 <= c.security.min_block_confidence <= 1_000_000
            &&& 0 <= c.security.min_block_score <= 100_000_000
            &&& forall|i: int|
                0 <= i < c.security.detector_exceptions@.len() ==> is_sound_exception(
                    #[trigger] c.security.detector_exceptions@[i],
                )
            &&& c.discovery.max_decode_passes <= 4
            &&& 1 <= c.discovery.max_normalized_bytes <= 262_144
            &&& text::lower_of(c.server.environment@) == "production"@ ==> has_secrets(c.auth)
        },
{
    lemma_exceptions(c.security.detector_exceptions@);
    lemma_production();
    lemma_secrets(c.auth);
}

proof fn lemma_secrets(auth: AuthConfig)
    ensures
        config::production_error(auth) is None <==> has_secrets(auth),
{
    if has_secrets(auth) && auth.enabled {
        assert forall|i: int| 0 <= i < auth.api_keys@.len() implies !config::placeholder_secret(
            #[trigger] auth.api_keys@[i]@,
        ) by {
            assert(is_given(auth.api_keys@[i]@));
        }
    }
    if config::production_error(auth) is None && auth.enabled {
        assert forall|i: int| 0 <= i < auth.api_keys@.len() implies is_given(
            #[trigger] auth.api_keys@[i]@,
        ) && !is_sample(auth.api_keys@[i]@) by {
            assert(!config::placeholder_secret(auth.api_keys@[i]@));
        }
    }
}

proof fn lemma_production()
    ensures
        text::lower_of("production"@) == "production"@,
{
    reveal_strlit("production");
    assert(text::lower_of("production"@) =~= "production"@);
}

/// What is wrong with the settings is what is told.
pub proof fn law_settings_refused(c: AppConfig, e: ConfigError)
    requires
        config::config_error(c) == Some(e),
        config::control_plane_error(c.control_plane) is None,
    ensures
        e is MinBlockConfidenceOutOfRange ==> !(0 <= c.security.min_block_confidence <= 1_000_000),
        e is MinBlockScoreOutOfRange ==> !(0 <= c.security.min_block_score <= 100_000_000),
        e is TooManyDecodePasses ==> c.discovery.max_decode_passes > 4,
        e is NormalizedBytesOutOfRange ==> !(1 <= c.discovery.max_normalized_bytes <= 262_144),
        e is AdminTokenEmpty ==> c.auth.admin.enabled && !is_given(c.auth.admin.token@),
        e is AdminTokenPlaceholder ==> c.auth.admin.enabled && is_sample(c.auth.admin.token@),
        e is ApiKeysEmpty ==> c.auth.enabled && c.auth.api_keys@.len() == 0,
        e is ApiKeyPlaceholder ==> c.auth.enabled && exists|i: int|
            0 <= i < c.auth.api_keys@.len() && (!is_given(#[trigger] c.auth.api_keys@[i]@)
                || is_sample(c.auth.api_keys@[i]@)),
        e is ExceptionDetectorIdEmpty || e is ExceptionConfidenceOutOfRange || e
            is ExceptionParameterInvalid ==> exists|i: int|
            0 <= i < c.security.detector_exceptions@.len() && is_fault_of(
                e,
                #[trigger] c.security.detector_exceptions@[i],
            ),
        e is AdminTokenEmpty || e is AdminTokenPlaceholder || e is ApiKeysEmpty || e
            is ApiKeyPlaceholder ==> text::lower_of(c.server.environment@) == "production"@,
        e is MinBlockConfidenceOutOfRange || e is MinBlockScoreOutOfRange || e
            is TooManyDecodePasses || e is NormalizedBytesOutOfRange || e is AdminTokenEmpty || e
            is AdminTokenPlaceholder || e is ApiKeysEmpty || e is ApiKeyPlaceholder || e
            is ExceptionDetectorIdEmpty || e is ExceptionConfidenceOutOfRange || e
            is ExceptionParameterInvalid,
{
    let all = c.security.detector_exceptions@;
    lemma_exceptions(all);
    lemma_production();
    if config::exceptions_error(all) is Some {
        let i = choose|i: int|
            0 <= i < all.len() && !is_sound_exception(#[trigger] all[i]) && is_fault_of(
                config::exceptions_error(all)->0,
                all[i],
            ) && forall|j: int| 0 <= j < i ==> is_sound_exception(#[trigger] all[j]);
        assert(is_fault_of(config::exceptions_error(all)->0, all[i]));
    }
    if e is ApiKeyPlaceholder {
        let i = choose|i: int|
            0 <= i < c.auth.api_keys@.len() && config::placeholder_secret(
                #[trigger] c.auth.api_keys@[i]@,
            );
        assert(!is_given(c.auth.api_keys@[i]@) || is_sample(c.auth.api_keys@[i]@));
    }
}

/// What the environment gives comes before what the file says, and what it does not give is left as
/// the file says.
pub proof fn law_environment_wins(c: AppConfig, env: EnvOverrides, r: AppConfig)
    requires
        config::overridden(c, env, r),
    ensures
        env.public_bind_addr is Some ==> r.server.public_bind_addr@ == env.public_bind_addr->0@,
        env.public_bind_addr is None && env.port is Some ==> r.server.public_bind_addr@
            == "0.0.0.0:"@ + text::trim_of(env.port->0@),
        env.public_bind_addr is None && env.port is None ==> r.server.public_bind_addr@
            == c.server.public_bind_addr@,
        env.admin_bind_addr is Some ==> r.server.admin_bind_addr@ == env.admin_bind_addr->0@,
        env.admin_bind_addr is None ==> r.server.admin_bind_addr@ == c.server.admin_bind_addr@,
        env.upstream_base_url is Some ==> r.proxy.upstream_base_url@ == env.upstream_base_url->0@,
        env.upstream_base_url is None ==> r.proxy.upstream_base_url@ == c.proxy.upstream_base_url@,
        env.log_level is Some ==> r.telemetry.log_level@ == env.log_level->0@,
        env.log_level is None ==> r.telemetry.log_level@ == c.telemetry.log_level@,
        env.admin_token is Some ==> r.auth.admin.token@ == env.admin_token->0@,
        env.admin_token is None ==> r.auth.admin.token@ == c.auth.admin.token@,
        env.api_keys is None ==> r.auth.api_keys.deep_view() == c.auth.api_keys.deep_view(),
        r.auth.enabled == c.auth.enabled && r.auth.admin.enabled == c.auth.admin.enabled,
        r.auth.protected_path_prefixes == c.auth.protected_path_prefixes,
        r.security == c.security && r.spec == c.spec && r.jwt == c.jwt && r.behavior == c.behavior,
        r.discovery == c.discovery && r.response_security == c.response_security,
        r.server.trust_x_forwarded_for == c.server.trust_x_forwarded_for,
        r.server.environment == c.server.environment,
{
}

/// The same of the settings for the control plane.
pub proof fn law_environment_wins_for_control_plane(
    c: AppConfig,
    env: EnvOverrides,
    r: AppConfig,
)
    requires
        config::overridden(c, env, r),
    ensures
        ({
            let was = c.control_plane;
            let is = r.control_plane;
            &&& env.enrollment_url is Some ==> is.enrollment_url@ == env.enrollment_url->0@
            &&& env.enrollment_url is None ==> is.enrollment_url@ == was.enrollment_url@
            &&& env.enrollment_token is Some ==> is.enrollment_token@ == env.enrollment_token->0@
            &&& env.enrollment_token is None ==> is.enrollment_token@ == was.enrollment_token@
            &&& env.installation_identifier is Some ==> is.installation_identifier@
                == env.installation_identifier->0@
            &&& env.installation_identifier is None ==> is.installation_identifier@
                == was.installation_identifier@
            &&& env.hostname is Some ==> is.hostname@ == env.hostname->0@
            &&& env.hostname is None ==> is.hostname@ == was.hostname@
            &&& env.version is Some ==> is.version@ == env.version->0@
            &&& env.version is None ==> is.version@ == was.version@
            &&& env.region is Some ==> is.region@ == env.region->0@
            &&& env.region is None ==> is.region@ == was.region@
            &&& env.ingestion_url is Some ==> is.ingestion_url@ == env.ingestion_url->0@
            &&& env.ingestion_url is None ==> is.ingestion_url@ == was.ingestion_url@
            &&& env.api_key is Some ==> is.api_key@ == env.api_key->0@
            &&& env.api_key is None ==> is.api_key@ == was.api_key@
            &&& env.firewall_instance_id is Some ==> is.firewall_instance_id@
                == env.firewall_instance_id->0@
            &&& env.firewall_instance_id is None ==> is.firewall_instance_id@
                == was.firewall_instance_id@
            &&& env.telemetry_enabled is None ==> is.telemetry_enabled == was.telemetry_enabled
            &&& env.enrollment_enabled is None ==> is.enrollment_enabled == was.enrollment_enabled
            &&& env.telemetry_enabled is Some ==> (is.telemetry_enabled <==> is_yes(
                outside::unicode_lower(text::trim_of(env.telemetry_enabled->0@)),
            ))
            &&& env.enrollment_enabled is Some ==> (is.enrollment_enabled <==> is_yes(
                outside::unicode_lower(text::trim_of(env.enrollment_enabled->0@)),
            ))
            &&& is.request_timeout_ms == was.request_timeout_ms
            &&& is.queue_capacity == was.queue_capacity
        }),
{
}

/// The words that switch something on.
pub open spec fn is_yes(s: Seq<char>) -> bool {
    s == "1"@ || s == "true"@ || s == "yes"@ || s == "on"@ || s == "enabled"@
}

/// A word switches something on where it is one of the words that do.
pub proof fn law_switch(s: Seq<char>)
    ensures
        config::is_on_word(s) <==> is_yes(s),
{
}

/// A list of keys is read as its parts between commas, without the space around them; what is empty
/// is left out.
pub proof fn law_keys_read(parts: Seq<Seq<char>>, x: Seq<char>)
    ensures
        text::trimmed_fields_of(parts).contains(x) <==> x.len() > 0 && exists|i: int|
            0 <= i < parts.len() && text::trim_of(#[trigger] parts[i]) == x,
    decreases parts.len(),
{
    if parts.len() > 0 {
        let rest = parts.drop_last();
        let before = text::trimmed_fields_of(rest);
        let all = text::trimmed_fields_of(parts);
        let t = text::trim_of(parts.last());
        law_keys_read(rest, x);
        assert(forall|i: int| 0 <= i < rest.len() ==> #[trigger] rest[i] == parts[i]);
        assert(parts.last() == parts[parts.len() - 1]);
        if all.contains(x) {
            let k = choose|k: int| 0 <= k < all.len() && all[k] == x;
            if k < before.len() {
                assert(before[k] == x);
                let i = choose|i: int| 0 <= i < rest.len() && text::trim_of(#[trigger] rest[i]) == x;
                assert(text::trim_of(parts[i]) == x);
            } else {
                assert(text::trim_of(parts[parts.len() - 1]) == x);
            }
        }
        if x.len() > 0 && exists|i: int|
            0 <= i < parts.len() && text::trim_of(#[trigger] parts[i]) == x {
            let i = choose|i: int| 0 <= i < parts.len() && text::trim_of(#[trigger] parts[i]) == x;
            if i < rest.len() {
                assert(text::trim_of(rest[i]) == x);
                let k = choose|k: int| 0 <= k < before.len() && before[k] == x;
                assert(all[k] == x);
            } else {
                assert(all[before.len() as int] == x);
            }
        }
    }
}

/// An enrollment is accepted where it succeeded and gave an identity and a key.
pub proof fn law_enrolled(response: EnrollmentResponse)
    ensures
        enrollment::enrollment_error_of(response) is None <==> response.success && response.data
            is Some && is_given(response.data->0.firewall.id@) && is_given(
            response.data->0.plaintext_api_key@,
        ),
        enrollment::enrollment_error_of(response) == Some(EnrollmentError::MissingData)
            <==> response.data is None,
        enrollment::enrollment_error_of(response) is Some && response.data is Some
            ==> enrollment::enrollment_error_of(response) == Some(EnrollmentError::Invalid),
{
}

/// What is asked for goes out without the space around it, and not at all where it is blank.
pub proof fn law_optional(value: Seq<char>)
    ensures
        is_given(value) ==> enrollment::trimmed_of(value) == Some(text::trim_of(value)),
        !is_given(value) ==> enrollment::trimmed_of(value) is None,
{
}

} // verus!
