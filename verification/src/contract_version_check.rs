//! Contract version verification: whether the deployed contract meets the
//! minimum version that this backend requires.

use crate::text;
use crate::text::{copied, decimal_text, joined, parse_unsigned};
use vstd::prelude::*;
use vstd::string::*;

verus! {

/// Result of a contract version compatibility check.
#[derive(Debug)]
pub struct VersionCheckResult {
    /// Whether the contract version meets the minimum requirement.
    pub compatible: bool,
    /// The version that the contract returned, if successful.
    pub contract_version: Option<u32>,
    /// The minimum version required by this backend build.
    pub min_required_version: u32,
    /// Error message if the check failed (e.g., contract unreachable).
    pub error: Option<String>,
}

impl Clone for VersionCheckResult {
    fn clone(&self) -> (r: Self)
        ensures
            r == *self,
    {
        VersionCheckResult {
            compatible: self.compatible,
            contract_version: self.contract_version,
            min_required_version: self.min_required_version,
            error: copied(&self.error),
        }
    }
}

impl VersionCheckResult {
    /// The result in words.
    pub open spec fn message(self) -> Seq<char> {
        match self.error {
            Some(err) => "Version check error: "@ + err@,
            None => match self.contract_version {
                Some(version) => "Contract version "@ + text::decimal(version as nat)
                    + " (minimum required: "@ + text::decimal(self.min_required_version as nat)
                    + ")"@,
                None => "Version check inconclusive"@,
            },
        }
    }

    /// The result in words.
    pub fn to_string(&self) -> (r: String)
        ensures
            r@ == self.message(),
    {
        match &self.error {
            Some(err) => joined("Version check error: ", err.as_str()),
            None => match self.contract_version {
                Some(version) => {
                    let found = decimal_text(version as u128);
                    let wanted = decimal_text(self.min_required_version as u128);
                    let mut r: String = "Contract version ".to_owned();
                    r.append(found.as_str());
                    r.append(" (minimum required: ");
                    r.append(wanted.as_str());
                    r.append(")");
                    r
                },
                None => "Version check inconclusive".to_owned(),
            },
        }
    }
}

/// Compares the version that the contract returned against
/// `min_required_version`. `answer` is what asking the contract came to.
pub fn check_contract_version(
    answer: Result<u32, String>,
    min_required_version: u32,
) -> (r: VersionCheckResult)
    ensures
        r.min_required_version == min_required_version,
        match answer {
            Ok(version) => {
                &&& r.compatible == (version >= min_required_version)
                &&& r.contract_version == Some(version)
                &&& r.error is None
            },
            Err(e) => {
                &&& !r.compatible
                &&& r.contract_version is None
                &&& r.error is Some
                &&& r.error->0@ == "Unable to reach contract to verify version: "@ + e@
            },
        },
{
    match answer {
        Ok(version) => VersionCheckResult {
            compatible: version >= min_required_version,
            contract_version: Some(version),
            min_required_version,
            error: None,
        },
        Err(e) => VersionCheckResult {
            compatible: false,
            contract_version: None,
            min_required_version,
            error: Some(joined("Unable to reach contract to verify version: ", e.as_str())),
        },
    }
}

/// The minimum version that a setting asks for: one when it is not set or
/// empty, and otherwise the number that it is; `None` when it is no number.
pub open spec fn min_version_setting(value: Option<String>) -> Option<nat> {
    match value {
        None => Some(1),
        Some(s) => if s@.len() == 0 {
            Some(1)
        } else {
            match text::unsigned_value(s@) {
                Some(n) => if n <= u32::MAX {
                    Some(n)
                } else {
                    None
                },
                None => None,
            }
        },
    }
}

/// Parse the minimum contract version from the value of its setting. The
/// default is 1 if the setting is missing or empty; a setting that is no
/// 32-bit number is not accepted.
pub fn parse_min_contract_version(env_var_value: Option<String>) -> (r: u32)
    requires
        min_version_setting(env_var_value) is Some,
    ensures
        min_version_setting(env_var_value) == Some(r as nat),
{
    match env_var_value {
        None => 1,
        Some(s) => if s.as_str().unicode_len() == 0 {
            1
        } else {
            match parse_unsigned(s.as_str(), u32::MAX as u64) {
                Some(n) => n as u32,
                None => 1,
            }
        },
    }
}

/// The minimum version is one where none is set; a number is taken as it is, and
/// what is no number of 32 bits is refused.
pub proof fn law_minimum_version_is_read(value: String, n: nat)
    ensures
        min_version_setting(None) == Some(1nat),
        value@.len() == 0 ==> min_version_setting(Some(value)) == Some(1nat),
        value@.len() > 0 && text::unsigned_value(value@) == Some(n) && n <= u32::MAX
            ==> min_version_setting(Some(value)) == Some(n),
        value@.len() > 0 && text::unsigned_value(value@) == Some(n) && n > u32::MAX
            ==> min_version_setting(Some(value)) is None,
        value@.len() > 0 && text::unsigned_value(value@) is None ==> min_version_setting(
            Some(value),
        ) is None,
{
}

/// The words on a check tell an error first, and otherwise the version beside the
/// one that is required.
pub proof fn law_check_is_put_into_words(r: VersionCheckResult)
    ensures
        r.error is Some ==> r.message() == "Version check error: "@ + r.error->0@,
        r.error is None && r.contract_version is Some ==> r.message() == "Contract version "@
            + text::decimal(r.contract_version->0 as nat) + " (minimum required: "@ + text::decimal(
            r.min_required_version as nat,
        ) + ")"@,
        r.error is None && r.contract_version is None ==> r.message()
            == "Version check inconclusive"@,
{
}

} // verus!
