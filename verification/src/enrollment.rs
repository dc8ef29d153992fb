//! Enrolment with the control plane.

use crate::config::ControlPlaneConfig;
use crate::telemetry_delivery;
use crate::text;
use vstd::prelude::*;

verus! {

/// A text without white space at its ends, where something is left of it.
pub open spec fn trimmed_of(value: Seq<char>) -> Option<Seq<char>> {
    if text::trim_of(value).len() == 0 {
        None
    } else {
        Some(text::trim_of(value))
    }
}

pub fn optional_trimmed(value: &str) -> (r: Option<String>)
    ensures
        r.deep_view() == trimmed_of(value@),
{
    let trimmed = text::trim(value);
    if trimmed.as_str().is_empty() {
        None
    } else {
        Some(trimmed)
    }
}

/// What a firewall sends to enrol.
#[derive(Debug)]
pub struct EnrollmentRequest {
    pub enrollment_token: String,
    pub installation_identifier: Option<String>,
    pub hostname: Option<String>,
    pub version: Option<String>,
    pub region: Option<String>,
}

/// What the control plane answers.
#[derive(Debug)]
pub struct EnrollmentResponse {
    pub success: bool,
    pub data: Option<EnrollmentData>,
}

#[derive(Debug)]
pub struct EnrollmentData {
    pub firewall: EnrolledFirewall,
    pub plaintext_api_key: String,
}

#[derive(Debug)]
pub struct EnrolledFirewall {
    pub id: String,
}

/// The request to enrol, and where it goes, if enrolment is configured.
pub fn enrollment_request(config: &ControlPlaneConfig) -> (r: Option<(String, EnrollmentRequest)>)
    ensures
        match r {
            Some((url, request)) => {
                &&& config.enrollment_enabled
                &&& url@ == text::trim_of(config.enrollment_url@)
                &&& request.enrollment_token@ == text::trim_of(config.enrollment_token@)
                &&& request.installation_identifier.deep_view() == trimmed_of(
                    config.installation_identifier@,
                )
                &&& request.hostname.deep_view() == trimmed_of(config.hostname@)
                &&& request.version.deep_view() == trimmed_of(config.version@)
                &&& request.region.deep_view() == trimmed_of(config.region@)
            },
            None => !config.enrollment_enabled,
        },
{
    if !config.enrollment_enabled {
        return None;
    }
    Some(
        (
            text::trim(config.enrollment_url.as_str()),
            EnrollmentRequest {
                enrollment_token: text::trim(config.enrollment_token.as_str()),
                installation_identifier: optional_trimmed(config.installation_identifier.as_str()),
                hostname: optional_trimmed(config.hostname.as_str()),
                version: optional_trimmed(config.version.as_str()),
                region: optional_trimmed(config.region.as_str()),
            },
        ),
    )
}

/// Why an answer to a request to enrol was not accepted.
#[derive(Debug, Clone, Copy, PartialEq, Eq, Structural)]
pub enum EnrollmentError {
    Refused(u16),
    MissingData,
    Invalid,
}

/// What is said about an error, given how the status of the answer is written.
pub open spec fn enrollment_error_text(e: EnrollmentError, status_text: Seq<char>) -> Seq<char> {
    match e {
        EnrollmentError::Refused(_) => "control-plane enrollment failed with status "@
            + status_text,
        EnrollmentError::MissingData => "control-plane enrollment response missing data"@,
        EnrollmentError::Invalid => "control-plane enrollment response is invalid"@,
    }
}

impl EnrollmentError {
    pub fn message(&self, status_text: &str) -> (r: String)
        ensures
            r@ == enrollment_error_text(*self, status_text@),
    {
        match self {
            EnrollmentError::Refused(_) => text::cat2(
                "control-plane enrollment failed with status ",
                status_text,
            ),
            EnrollmentError::MissingData =>
                "control-plane enrollment response missing data".to_string(),
            EnrollmentError::Invalid => "control-plane enrollment response is invalid".to_string(),
        }
    }

    /// The message with the status written in full.
    pub fn describe(&self) -> (r: String)
        ensures
            r@ == enrollment_error_text(
                *self,
                match *self {
                    EnrollmentError::Refused(status) => telemetry_delivery::status_text_of(status),
                    _ => Seq::empty(),
                },
            ),
    {
        let shown = match self {
            EnrollmentError::Refused(status) => telemetry_delivery::status_text(*status),
            _ => String::new(),
        };
        self.message(shown.as_str())
    }
}

/// What is wrong with the status of an answer.
pub fn check_enrollment_status(status: u16) -> (r: Result<(), EnrollmentError>)
    ensures
        match r {
            Ok(_) => 200 <= status <= 299,
            Err(e) => !(200 <= status <= 299) && e == EnrollmentError::Refused(status),
        },
{
    if 200 <= status && status <= 299 {
        Ok(())
    } else {
        Err(EnrollmentError::Refused(status))
    }
}

/// What is wrong with an answer.
pub open spec fn enrollment_error_of(response: EnrollmentResponse) -> Option<EnrollmentError> {
    match response.data {
        None => Some(EnrollmentError::MissingData),
        Some(data) => if !response.success || text::trim_of(data.firewall.id@).len() == 0
            || text::trim_of(data.plaintext_api_key@).len() == 0 {
            Some(EnrollmentError::Invalid)
        } else {
            None
        },
    }
}

/// Whether two configurations differ in nothing that enrolment does not touch.
pub open spec fn same_apart_from_enrollment(a: ControlPlaneConfig, b: ControlPlaneConfig) -> bool {
    b == (ControlPlaneConfig {
        telemetry_enabled: b.telemetry_enabled,
        firewall_instance_id: b.firewall_instance_id,
        api_key: b.api_key,
        enrollment_token: b.enrollment_token,
        ..a
    })
}

/// Takes over what the control plane assigned: deliveries are switched on under the assigned name
/// and key, and the token, which serves once, is forgotten. An answer that is not accepted changes
/// nothing.
pub fn accept_enrollment(config: &mut ControlPlaneConfig, response: EnrollmentResponse) -> (r:
    Result<(), EnrollmentError>)
    ensures
        match r {
            Ok(_) => {
                &&& enrollment_error_of(response) is None
                &&& final(config).telemetry_enabled
                &&& final(config).firewall_instance_id == response.data->0.firewall.id
                &&& final(config).api_key == response.data->0.plaintext_api_key
                &&& final(config).enrollment_token@ == Seq::<char>::empty()
                &&& same_apart_from_enrollment(*old(config), *final(config))
            },
            Err(e) => enrollment_error_of(response) == Some(e) && *final(config) == *old(config),
        },
{
    match response.data {
        None => Err(EnrollmentError::MissingData),
        Some(data) => {
            let id = text::trim(data.firewall.id.as_str());
            let key = text::trim(data.plaintext_api_key.as_str());
            if !response.success || id.as_str().is_empty() || key.as_str().is_empty() {
                return Err(EnrollmentError::Invalid);
            }
            config.telemetry_enabled = true;
            config.firewall_instance_id = data.firewall.id;
            config.api_key = data.plaintext_api_key;
            config.enrollment_token = String::new();
            Ok(())
        },
    }
}

} // verus!
