//! The settings that both ways of issuing short-term credentials share.

use crate::error::{RunError, RunErrorView};
use crate::text::{ends_with, is_suffix};
use vstd::prelude::*;

verus! {

/// Settings shared by every request for short-term credentials.
#[derive(Debug, Default, Clone)]
pub struct CommonStsConfig {
    /// The long-term profile to start from.
    pub profile_name: String,
    /// The MFA device to use in place of the one stored with the profile.
    pub mfa_device: Option<String>,
    /// A one-time password given up front.
    pub otp: Option<String>,
    /// For how many seconds the credentials are to stay valid.
    pub duration: Option<i32>,
    /// What marks the name of a short-term profile.
    pub short_term_suffix: String,
    /// Whether to issue new credentials although cached ones are still valid.
    pub force_new_credentials: bool,
    /// The region of the issuing service.
    pub sts_region: String,
}

/// The message of a profile name that ends with the short-term suffix.
pub open spec fn suffix_message() -> Seq<char> {
    "Profile name cannot end with the short-term suffix"@
}

impl CommonStsConfig {
    /// The settings are acceptable: the profile name does not end with the
    /// short-term suffix, so no derived name can shadow a long-term profile.
    pub open spec fn valid(&self) -> bool {
        !is_suffix(self.short_term_suffix@, self.profile_name@)
    }

    /// Checks the settings before anything else is done with them.
    pub fn init(&mut self) -> (checked: Result<(), RunError>)
        ensures
            *final(self) == *old(self),
            checked is Ok <==> old(self).valid(),
            checked matches Err(error) ==> error@ == RunErrorView::ConfigValidationError(
                suffix_message(),
            ),
    {
        self.validate_profile_name()
    }

    /// Refuses a profile name that ends with the short-term suffix.
    pub fn validate_profile_name(&self) -> (checked: Result<(), RunError>)
        ensures
            checked is Ok <==> self.valid(),
            checked matches Err(error) ==> error@ == RunErrorView::ConfigValidationError(
                suffix_message(),
            ),
    {
        if ends_with(self.profile_name.as_str(), self.short_term_suffix.as_str()) {
            Err(
                RunError::ConfigValidationError(
                    String::from_str("Profile name cannot end with the short-term suffix"),
                ),
            )
        } else {
            Ok(())
        }
    }
}

} // verus!
