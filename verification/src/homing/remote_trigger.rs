//! Remote triggers: endstops on another mcu than the motors they stop, watched through
//! their mcu's reports.

use crate::text::append_decimal;
use std::collections::HashMap;
use vstd::prelude::*;
use vstd::std_specs::hash::group_hash_axioms;
use vstd::string::*;

verus! {

broadcast use group_hash_axioms;

/// The mcu a trigger watches and the interceptor that watches it.
#[derive(Debug, Clone, Copy, PartialEq, Eq, Structural)]
pub struct ArmedTrigger {
    pub mcu_handle: u32,
    pub interceptor: u64,
}

/// The triggers that are armed, by endstop.
#[derive(Debug)]
pub struct RemoteTriggers {
    armed: HashMap<u8, ArmedTrigger>,
}

pub open spec fn already_armed_text(endstop_id: u8) -> Seq<char> {
    "arm_remote_trigger: endstop_id "@ + crate::text::decimal(endstop_id as nat)
        + " is already armed"@
}

pub open spec fn no_serial_text(mcu_handle: u32) -> Seq<char> {
    "arm_remote_trigger: mcu "@ + crate::text::decimal(mcu_handle as nat)
        + " has no serial transport"@
}

pub open spec fn not_armed_text(endstop_id: u8) -> Seq<char> {
    "disarm_remote_trigger: endstop_id "@ + crate::text::decimal(endstop_id as nat)
        + " is not armed"@
}

impl View for RemoteTriggers {
    type V = Map<u8, ArmedTrigger>;

    closed spec fn view(&self) -> Map<u8, ArmedTrigger> {
        self.armed@
    }
}

impl RemoteTriggers {
    pub fn new() -> (triggers: Self)
        ensures
            triggers@ == Map::<u8, ArmedTrigger>::empty(),
    {
        RemoteTriggers { armed: HashMap::new() }
    }

    /// Whether the endstop can be armed: it is not yet, and its mcu can be watched. The
    /// caller then notes the arm and registers the interceptor.
    pub fn check_arm(&self, mcu_handle: u32, endstop_id: u8, has_transport: bool) -> (
    outcome: Result<(), String>)
        ensures
            outcome is Ok <==> !self@.contains_key(endstop_id) && has_transport,
            outcome matches Err(reason) ==> reason@ == if self@.contains_key(endstop_id) {
                already_armed_text(endstop_id)
            } else {
                no_serial_text(mcu_handle)
            },
    {
        if self.armed.contains_key(&endstop_id) {
            let mut reason = "arm_remote_trigger: endstop_id ".to_owned();
            append_decimal(&mut reason, endstop_id as u64);
            reason.append(" is already armed");
            return Err(reason);
        }
        if !has_transport {
            let mut reason = "arm_remote_trigger: mcu ".to_owned();
            append_decimal(&mut reason, mcu_handle as u64);
            reason.append(" has no serial transport");
            return Err(reason);
        }
        Ok(())
    }

    /// Takes in what registering the interceptor came to: the endstop is armed once its
    /// interceptor is there.
    pub fn registered(
        &mut self,
        mcu_handle: u32,
        endstop_id: u8,
        interceptor: Result<u64, String>,
    ) -> (outcome: Result<(), String>)
        ensures
            match interceptor {
                Ok(id) => outcome is Ok && final(self)@ == old(self)@.insert(
                    endstop_id,
                    ArmedTrigger { mcu_handle, interceptor: id },
                ),
                Err(error) => {
                    &&& outcome is Err
                    &&& outcome->Err_0@ == "arm_remote_trigger: interceptor registration failed: "@
                        + error@
                    &&& final(self)@ == old(self)@
                },
            },
    {
        match interceptor {
            Ok(interceptor) => {
                self.armed.insert(endstop_id, ArmedTrigger { mcu_handle, interceptor });
                Ok(())
            },
            Err(error) => {
                let mut reason =
                    "arm_remote_trigger: interceptor registration failed: ".to_owned();
                reason.append(error.as_str());
                Err(reason)
            },
        }
    }

    /// Forgets an armed endstop: what the caller unregisters, where its mcu is still there.
    pub fn disarm(&mut self, endstop_id: u8) -> (trigger: Result<ArmedTrigger, String>)
        ensures
            match trigger {
                Ok(armed) => old(self)@.contains_key(endstop_id) && armed == old(self)@[endstop_id]
                    && final(self)@ == old(self)@.remove(endstop_id),
                Err(reason) => !old(self)@.contains_key(endstop_id) && reason@ == not_armed_text(
                    endstop_id,
                ) && final(self)@ == old(self)@,
            },
    {
        match self.armed.remove(&endstop_id) {
            Some(trigger) => Ok(trigger),
            None => {
                assert(self@ =~= old(self)@);
                let mut reason = "disarm_remote_trigger: endstop_id ".to_owned();
                append_decimal(&mut reason, endstop_id as u64);
                reason.append(" is not armed");
                Err(reason)
            },
        }
    }
}

/// A watcher dispatches the first report that says its endstop fired, and no other.
#[derive(Debug, Clone, Copy, PartialEq, Eq, Structural)]
pub struct TriggerWatch {
    pub fired: bool,
}

impl TriggerWatch {
    pub fn new() -> (watch: Self)
        ensures
            !watch.fired,
    {
        TriggerWatch { fired: false }
    }

    /// Takes a report in; `true` asks for the trip to be dispatched.
    pub fn report(&mut self, terminal: bool) -> (dispatch: bool)
        ensures
            dispatch == (terminal && !old(self).fired),
            final(self).fired == (old(self).fired || terminal),
    {
        if terminal && !self.fired {
            self.fired = true;
            true
        } else {
            false
        }
    }
}

/// Arming and then disarming an endstop leaves the triggers as they were.
pub proof fn law_disarming_undoes_arming(
    triggers: Map<u8, ArmedTrigger>,
    endstop_id: u8,
    trigger: ArmedTrigger,
)
    requires
        !triggers.contains_key(endstop_id),
    ensures
        triggers.insert(endstop_id, trigger).remove(endstop_id) == triggers,
        triggers.insert(endstop_id, trigger)[endstop_id] == trigger,
{
    assert(triggers.insert(endstop_id, trigger).remove(endstop_id) =~= triggers);
}

/// An endstop can be armed exactly where it is not armed yet and its mcu can be watched; the
/// refusal names the endstop, or else the mcu.
pub proof fn law_endstop_is_armed_once(
    triggers: RemoteTriggers,
    mcu_handle: u32,
    endstop_id: u8,
    has_transport: bool,
    outcome: Result<(), String>,
)
    requires
        call_ensures(
            RemoteTriggers::check_arm,
            (&triggers, mcu_handle, endstop_id, has_transport),
            outcome,
        ),
    ensures
        triggers@.contains_key(endstop_id) ==> outcome is Err && outcome->Err_0@
            == "arm_remote_trigger: endstop_id "@ + crate::text::decimal(endstop_id as nat)
            + " is already armed"@,
        !triggers@.contains_key(endstop_id) ==> (outcome is Ok <==> has_transport),
        !triggers@.contains_key(endstop_id) && !has_transport ==> outcome->Err_0@
            == "arm_remote_trigger: mcu "@ + crate::text::decimal(mcu_handle as nat)
            + " has no serial transport"@,
{
}

/// An armed endstop is remembered with the mcu and the interceptor that watch it until it is
/// disarmed, which hands both back; no other endstop is touched.
pub proof fn law_armed_endstop_is_remembered(
    armed: &mut RemoteTriggers,
    mcu_handle: u32,
    endstop_id: u8,
    interceptor: Result<u64, String>,
    registered: Result<(), String>,
    disarmed: &mut RemoteTriggers,
    trigger: Result<ArmedTrigger, String>,
    other: u8,
)
    requires
        call_ensures(
            RemoteTriggers::registered,
            (armed, mcu_handle, endstop_id, interceptor),
            registered,
        ),
        call_ensures(RemoteTriggers::disarm, (disarmed, endstop_id), trigger),
        other != endstop_id,
    ensures
        registered is Ok <==> interceptor is Ok,
        interceptor matches Ok(id) ==> final(armed)@.contains_key(endstop_id)
            && final(armed)@[endstop_id].mcu_handle == mcu_handle
            && final(armed)@[endstop_id].interceptor == id,
        interceptor is Err ==> final(armed)@ == old(armed)@,
        final(armed)@.contains_key(other) <==> old(armed)@.contains_key(other),
        old(armed)@.contains_key(other) ==> final(armed)@[other] == old(armed)@[other],
        trigger is Ok <==> old(disarmed)@.contains_key(endstop_id),
        trigger matches Ok(found) ==> found == old(disarmed)@[endstop_id],
        !final(disarmed)@.contains_key(endstop_id),
        final(disarmed)@.contains_key(other) <==> old(disarmed)@.contains_key(other),
        old(disarmed)@.contains_key(other) ==> final(disarmed)@[other] == old(disarmed)@[other],
{
}

/// Only the first report that an endstop fired is dispatched.
pub proof fn law_only_the_first_firing_is_dispatched(
    watch: &mut TriggerWatch,
    terminal: bool,
    dispatch: bool,
)
    requires
        call_ensures(TriggerWatch::report, (watch, terminal), dispatch),
    ensures
        dispatch ==> terminal && !old(watch).fired && final(watch).fired,
        terminal ==> final(watch).fired,
        terminal && !old(watch).fired ==> dispatch,
        old(watch).fired ==> final(watch).fired,
        !terminal ==> final(watch).fired == old(watch).fired,
{
}

} // verus!
