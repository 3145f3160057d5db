//! The DMARC enforcement policy and its textual form.

use crate::text::{ascii_lowercase, chars_of, lowercase_is};
use vstd::prelude::*;
use vstd::std_specs::convert::TryFromSpecImpl;

verus! {

/// What a domain asks receivers to do with mail that fails DMARC.
#[derive(Debug, Clone, Copy, PartialEq, Eq, Structural)]
pub enum DmarcPolicy {
    /// `none`: no enforcement is asked for.
    NoEnforcement,
    /// `quarantine`: treat failing mail as suspicious.
    Quarantine,
    /// `reject`: refuse failing mail.
    Reject,
}

/// The error of reading a policy from text that names none.
#[derive(Debug, Clone, Copy, PartialEq, Eq, Structural)]
pub struct UnknownPolicy;

/// The policy that `text` names: `none`, `quarantine` or `reject`, in any
/// mix of ASCII capital and small letters.
pub open spec fn policy_named(text: Seq<char>) -> Option<DmarcPolicy> {
    let lower = ascii_lowercase(text);
    if lower == "none"@ {
        Some(DmarcPolicy::NoEnforcement)
    } else if lower == "quarantine"@ {
        Some(DmarcPolicy::Quarantine)
    } else if lower == "reject"@ {
        Some(DmarcPolicy::Reject)
    } else {
        None
    }
}

impl DmarcPolicy {
    /// The name of the variant, which is the text kept for it in the cache.
    pub open spec fn spec_name(self) -> Seq<char> {
        match self {
            DmarcPolicy::NoEnforcement => "None"@,
            DmarcPolicy::Quarantine => "Quarantine"@,
            DmarcPolicy::Reject => "Reject"@,
        }
    }

    /// The name of the variant, which is the text kept for it in the cache.
    pub fn name(self) -> (name: &'static str)
        ensures
            name@ == self.spec_name(),
    {
        match self {
            DmarcPolicy::NoEnforcement => "None",
            DmarcPolicy::Quarantine => "Quarantine",
            DmarcPolicy::Reject => "Reject",
        }
    }

    /// The policy that `text` names, if it names one.
    pub fn from_name(text: &str) -> (policy: Option<DmarcPolicy>)
        ensures
            policy == policy_named(text@),
    {
        let chars = chars_of(text);
        if lowercase_is(&chars, &chars_of("none")) {
            Some(DmarcPolicy::NoEnforcement)
        } else if lowercase_is(&chars, &chars_of("quarantine")) {
            Some(DmarcPolicy::Quarantine)
        } else if lowercase_is(&chars, &chars_of("reject")) {
            Some(DmarcPolicy::Reject)
        } else {
            None
        }
    }
}

/// The lower-case form of each variant's name is the word that stands for
/// the policy in a DMARC record.
pub proof fn lemma_lowercase_names()
    ensures
        ascii_lowercase(DmarcPolicy::NoEnforcement.spec_name()) == "none"@,
        ascii_lowercase(DmarcPolicy::Quarantine.spec_name()) == "quarantine"@,
        ascii_lowercase(DmarcPolicy::Reject.spec_name()) == "reject"@,
        "none"@ != "quarantine"@,
        "none"@ != "reject"@,
        "quarantine"@ != "reject"@,
{
    reveal_strlit("None");
    reveal_strlit("Quarantine");
    reveal_strlit("Reject");
    reveal_strlit("none");
    reveal_strlit("quarantine");
    reveal_strlit("reject");
}

/// Reading back the name of a policy gives that policy.
pub proof fn law_name_round_trip(policy: DmarcPolicy)
    ensures
        policy_named(policy.spec_name()) == Some(policy),
{
    lemma_lowercase_names();
}

/// Reading a name does not depend on the case of its ASCII letters: any text
/// that differs from a policy's name only in case names that policy.
pub proof fn law_name_ignores_case(policy: DmarcPolicy, text: Seq<char>)
    requires
        ascii_lowercase(text) == ascii_lowercase(policy.spec_name()),
    ensures
        policy_named(text) == Some(policy),
{
    lemma_lowercase_names();
}

/// A policy from its name, as `from_name` reads it.
impl<'a> TryFrom<&'a str> for DmarcPolicy {
    type Error = UnknownPolicy;

    /// The policy that `s` names, or `UnknownPolicy` if it names none:
    /// what `try_from_spec` says.
    fn try_from(s: &'a str) -> (res: Result<Self, Self::Error>) {
        match DmarcPolicy::from_name(s) {
            Some(policy) => Ok(policy),
            None => Err(UnknownPolicy),
        }
    }
}

/// What `try_from` returns.
impl<'a> TryFromSpecImpl<&'a str> for DmarcPolicy {
    open spec fn obeys_try_from_spec() -> bool {
        true
    }

    open spec fn try_from_spec(s: &'a str) -> Result<Self, Self::Error> {
        match policy_named(s@) {
            Some(policy) => Ok(policy),
            None => Err(UnknownPolicy),
        }
    }
}

} // verus!
