//! Jerk limits. The trajectory pipeline plans with unlimited jerk only: positive
//! infinity is the one limit it takes.

use vstd::prelude::*;
use vstd::string::*;

verus! {

/// What kind of number a jerk setting is.
#[derive(Debug, Clone, Copy, PartialEq, Eq, Structural)]
pub enum Jerk {
    PositiveInfinity,
    Finite,
    /// Negative infinity or not a number.
    OtherNonFinite,
}

/// Refuses a configured limit that is not unlimited.
pub fn require_unlimited_config_jerk(max_jerk: Jerk) -> (result: Result<(), &'static str>)
    ensures
        result is Ok <==> max_jerk is PositiveInfinity,
        result matches Err(reason) ==> reason@
            == "finite [printer] max_jerk is not supported by the continuous trajectory pipeline; set max_jerk: 0"@,
{
    match max_jerk {
        Jerk::PositiveInfinity => Ok(()),
        _ => Err(
            "finite [printer] max_jerk is not supported by the continuous trajectory pipeline; set max_jerk: 0",
        ),
    }
}

/// What is said against an override that the pipeline does not take.
pub open spec fn override_refusal(jerk: Jerk) -> Seq<char> {
    if jerk is Finite {
        "finite jerk overrides are not supported by the continuous trajectory pipeline"@
    } else {
        "jerk override must be positive infinity or None"@
    }
}

/// Refuses an override that is neither absent nor unlimited.
pub fn require_supported_jerk_override(jerk: Option<Jerk>) -> (result: Result<(), &'static str>)
    ensures
        result is Ok <==> (jerk is None || jerk == Some(Jerk::PositiveInfinity)),
        result matches Err(reason) ==> reason@ == override_refusal(jerk->0),
{
    match jerk {
        None | Some(Jerk::PositiveInfinity) => Ok(()),
        Some(Jerk::Finite) => Err(
            "finite jerk overrides are not supported by the continuous trajectory pipeline",
        ),
        Some(Jerk::OtherNonFinite) => Err("jerk override must be positive infinity or None"),
    }
}

/// The limits that can be changed while printing.
#[derive(Debug, Clone, Copy, PartialEq, Eq, Structural)]
pub struct RuntimeCaps {
    pub jerk_override: Option<Jerk>,
}

impl RuntimeCaps {
    pub fn new() -> (caps: Self)
        ensures
            caps.jerk_override is None,
    {
        RuntimeCaps { jerk_override: None }
    }

    /// Sets the override, or refuses it and keeps the one in force.
    pub fn set_jerk_override(&mut self, jerk: Option<Jerk>) -> (result: Result<(), &'static str>)
        ensures
            result is Ok <==> (jerk is None || jerk == Some(Jerk::PositiveInfinity)),
            result is Ok ==> final(self).jerk_override == jerk,
            result matches Err(reason) ==> {
                &&& reason@ == override_refusal(jerk->0)
                &&& *final(self) == *old(self)
            },
    {
        match require_supported_jerk_override(jerk) {
            Ok(()) => {
                self.jerk_override = jerk;
                Ok(())
            },
            Err(reason) => Err(reason),
        }
    }
}

/// Unlimited jerk is accepted wherever a limit can be set, and no finite limit is anywhere.
pub proof fn law_only_unlimited_jerk_is_taken(
    jerk: Jerk,
    configured: Result<(), &'static str>,
    overridden: Result<(), &'static str>,
    absent: Result<(), &'static str>,
)
    requires
        call_ensures(require_unlimited_config_jerk, (jerk,), configured),
        call_ensures(require_supported_jerk_override, (Some(jerk),), overridden),
        call_ensures(require_supported_jerk_override, (None,), absent),
    ensures
        configured is Ok <==> jerk is PositiveInfinity,
        configured is Ok <==> overridden is Ok,
        absent is Ok,
        jerk is Finite ==> override_refusal(jerk)
            == "finite jerk overrides are not supported by the continuous trajectory pipeline"@,
        jerk is OtherNonFinite ==> override_refusal(jerk)
            == "jerk override must be positive infinity or None"@,
{
}

/// An override is kept exactly where it is taken; one that is refused leaves the caps alone.
pub proof fn law_taken_override_is_kept(
    caps: &mut RuntimeCaps,
    jerk: Option<Jerk>,
    result: Result<(), &'static str>,
)
    requires
        call_ensures(RuntimeCaps::set_jerk_override, (caps, jerk), result),
    ensures
        jerk is None || jerk == Some(Jerk::PositiveInfinity) ==> result is Ok
            && final(caps).jerk_override == jerk,
        !(jerk is None || jerk == Some(Jerk::PositiveInfinity)) ==> result is Err
            && final(caps).jerk_override == old(caps).jerk_override,
{
}

} // verus!
