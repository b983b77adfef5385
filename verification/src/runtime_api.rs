//! What the runtime's C entry points decide before they reach the engine.
//!
//! A handle or an out-pointer enters as whether it is there. Every entry refuses a null
//! handle first, then a runtime that was not created.

use vstd::prelude::*;
use vstd::slice::*;

verus! {

/// What an entry point answers.
#[derive(Debug, Clone, Copy, PartialEq, Eq, Structural)]
pub enum FaultCode {
    NoFault,
    NullPtr,
    NotInit,
    InvalidArg,
}

/// An idle phase slot.
pub const PHASE_SLOT_FREE: u8 = 0xFF;

/// Whether the runtime was created.
#[derive(Debug, Clone, Copy, PartialEq, Eq, Structural)]
pub struct RuntimeGate {
    pub init_done: bool,
}

impl RuntimeGate {
    pub fn new() -> (gate: Self)
        ensures
            !gate.init_done,
    {
        RuntimeGate { init_done: false }
    }

    /// The runtime is created once: only the first call gives a handle.
    pub fn handle_create(&mut self) -> (created: bool)
        ensures
            created == !old(self).init_done,
            final(self).init_done,
    {
        if self.init_done {
            return false;
        }
        self.init_done = true;
        true
    }

    /// What an entry point answers before it does anything.
    pub open spec fn spec_guard(self, handle: bool) -> FaultCode {
        if !handle {
            FaultCode::NullPtr
        } else if !self.init_done {
            FaultCode::NotInit
        } else {
            FaultCode::NoFault
        }
    }

    pub fn guard(&self, handle: bool) -> (code: FaultCode)
        ensures
            code == self.spec_guard(handle),
    {
        if !handle {
            FaultCode::NullPtr
        } else if !self.init_done {
            FaultCode::NotInit
        } else {
            FaultCode::NoFault
        }
    }

    /// The count of a stepper; 0 where there is no runtime or no such stepper.
    pub fn get_stepper_count(&self, handle: bool, counts: &[i32], oid: u8) -> (count: i32)
        ensures
            count == if self.spec_guard(handle) is NoFault && oid < counts@.len() {
                counts@[oid as int]
            } else {
                0
            },
    {
        if let FaultCode::NoFault = self.guard(handle) {
            if (oid as usize) < counts.len() {
                return counts[oid as usize];
            }
        }
        0
    }

    /// The runtime's clock; 0 where there is no runtime.
    pub fn now_ticks(&self, handle: bool, widened: u64) -> (ticks: u64)
        ensures
            ticks == if self.spec_guard(handle) is NoFault {
                widened
            } else {
                0
            },
    {
        if let FaultCode::NoFault = self.guard(handle) {
            widened
        } else {
            0
        }
    }

    /// What a command with a payload answers, and the payload it goes on with.
    pub fn check_payload<'a>(&self, handle: bool, data: Option<&'a [u8]>, data_len: u16) -> (result:
        Result<&'a [u8], FaultCode>)
        requires
            data matches Some(bytes) ==> data_len <= bytes@.len(),
        ensures
            match result {
                Ok(bytes) => {
                    &&& self.spec_guard(handle) is NoFault
                    &&& if data_len == 0 {
                        bytes@ == Seq::<u8>::empty()
                    } else {
                        data is Some && bytes@ == data->0@.take(data_len as int)
                    }
                },
                Err(code) => {
                    &&& !(code is NoFault)
                    &&& !(self.spec_guard(handle) is NoFault) ==> code == self.spec_guard(handle)
                    &&& self.spec_guard(handle) is NoFault ==> {
                        &&& code is NullPtr
                        &&& data is None
                        &&& data_len > 0
                    }
                },
            },
    {
        match self.guard(handle) {
            FaultCode::NoFault => {},
            code => {
                return Err(code);
            },
        }
        match payload(data, data_len) {
            Some(bytes) => Ok(bytes),
            None => Err(FaultCode::NullPtr),
        }
    }

    /// What a query for an executed position answers, and what it writes. `executed` is
    /// the lane's clock and position, or nothing where there is no such lane, which is
    /// raised as a fault.
    pub fn sample_query(&self, handle: bool, outs: bool, executed: Option<(u64, i32)>) -> (answer: (
        FaultCode,
        Option<(u64, i32)>,
    ))
        ensures
            answer.0 == if !(self.spec_guard(handle) is NoFault) {
                self.spec_guard(handle)
            } else if !outs {
                FaultCode::NullPtr
            } else if executed is None {
                FaultCode::InvalidArg
            } else {
                FaultCode::NoFault
            },
            answer.1 == if answer.0 is NoFault {
                executed
            } else {
                None
            },
    {
        match self.guard(handle) {
            FaultCode::NoFault => {},
            code => {
                return (code, None);
            },
        }
        if !outs {
            return (FaultCode::NullPtr, None);
        }
        match executed {
            Some(at) => (FaultCode::NoFault, Some(at)),
            None => (FaultCode::InvalidArg, None),
        }
    }

    /// The fence that playback has passed, where one is ready and can be handed out.
    pub fn take_barrier_ack(&self, handle: bool, outs: bool, ready: Option<(u8, u32)>) -> (taken:
        Option<(u8, u32)>)
        ensures
            taken == if self.spec_guard(handle) is NoFault && outs {
                ready
            } else {
                None
            },
    {
        match self.guard(handle) {
            FaultCode::NoFault => {},
            _ => {
                return None;
            },
        }
        if !outs {
            return None;
        }
        ready
    }
}

/// The first `data_len` bytes of a command's data; none are needed where the length is 0.
pub fn payload<'a>(data: Option<&'a [u8]>, data_len: u16) -> (bytes: Option<&'a [u8]>)
    requires
        data matches Some(bytes) ==> data_len <= bytes@.len(),
    ensures
        data_len == 0 ==> bytes is Some && bytes->0@ == Seq::<u8>::empty(),
        data_len > 0 ==> (bytes is Some <==> data is Some),
        data_len > 0 && data is Some ==> bytes->0@ == data->0@.take(data_len as int),
{
    if data_len == 0 {
        let none: &'a [u8] = &[];
        assert(none@ =~= Seq::<u8>::empty());
        return Some(none);
    }
    match data {
        None => None,
        Some(all) => {
            let bytes: &'a [u8] = slice_subrange(all, 0, data_len as usize);
            assert(bytes@ =~= all@.take(data_len as int));
            Some(bytes)
        },
    }
}

/// How the motors are stepped, as the interrupt sees it.
#[derive(Debug)]
pub struct StepSlots {
    /// The phase slot of each stepper.
    pub phase_slot_idx: Vec<u8>,
    pub phase_motor_count: u8,
    /// Whether each motor is driven by phase rather than by step time.
    pub phase_mode: Vec<bool>,
}

impl StepSlots {
    /// Frees every phase slot and steps every motor by time.
    pub fn reset(&mut self)
        ensures
            final(self).phase_slot_idx@.len() == old(self).phase_slot_idx@.len(),
            forall|i: int|
                0 <= i < final(self).phase_slot_idx@.len() ==> #[trigger] final(self).phase_slot_idx@[i]
                    == PHASE_SLOT_FREE,
            final(self).phase_motor_count == 0,
            final(self).phase_mode@.len() == old(self).phase_mode@.len(),
            forall|i: int|
                0 <= i < final(self).phase_mode@.len() ==> !#[trigger] final(self).phase_mode@[i],
    {
        let slots: usize = self.phase_slot_idx.len();
        let mut i: usize = 0;
        while i < slots
            invariant
                i <= slots == self.phase_slot_idx@.len(),
                slots == old(self).phase_slot_idx@.len(),
                self.phase_mode == old(self).phase_mode,
                forall|k: int|
                    0 <= k < i ==> #[trigger] self.phase_slot_idx@[k] == PHASE_SLOT_FREE,
            decreases slots - i,
        {
            self.phase_slot_idx.set(i, PHASE_SLOT_FREE);
            i += 1;
        }
        self.phase_motor_count = 0;
        let motors: usize = self.phase_mode.len();
        let mut m: usize = 0;
        while m < motors
            invariant
                m <= motors == self.phase_mode@.len(),
                motors == old(self).phase_mode@.len(),
                slots == self.phase_slot_idx@.len(),
                self.phase_motor_count == 0,
                forall|k: int|
                    0 <= k < slots ==> #[trigger] self.phase_slot_idx@[k] == PHASE_SLOT_FREE,
                forall|k: int| 0 <= k < m ==> !#[trigger] self.phase_mode@[k],
            decreases motors - m,
        {
            self.phase_mode.set(m, false);
            m += 1;
        }
    }
}

/// A null handle is refused first, then a runtime that was not created; nothing else is.
pub proof fn law_null_is_refused_before_uninitialised(
    gate: RuntimeGate,
    handle: bool,
    code: FaultCode,
)
    requires
        call_ensures(RuntimeGate::guard, (&gate, handle), code),
    ensures
        code is NullPtr <==> !handle,
        code is NotInit <==> handle && !gate.init_done,
        code is NoFault <==> handle && gate.init_done,
        gate.spec_guard(handle) == code,
{
}

/// A free phase slot is told by a number that no slot has.
pub proof fn law_free_is_beyond_every_slot(slot: u8)
    ensures
        slot <= PHASE_SLOT_FREE,
{
}

/// The runtime is created by the first call and by no later one.
pub proof fn law_runtime_is_created_once(gate: &mut RuntimeGate, created: bool)
    requires
        call_ensures(RuntimeGate::handle_create, (gate,), created),
    ensures
        created <==> !old(gate).init_done,
        final(gate).init_done,
{
}

/// Without a handle, or before the runtime was created, nothing is read: every answer is
/// empty, and a command hears why, the handle first. Else the answer is what was read.
pub proof fn law_nothing_is_read_without_a_runtime<'a>(
    gate: RuntimeGate,
    handle: bool,
    counts: &[i32],
    oid: u8,
    count: i32,
    widened: u64,
    ticks: u64,
    outs: bool,
    ready: Option<(u8, u32)>,
    taken: Option<(u8, u32)>,
    executed: Option<(u64, i32)>,
    answer: (FaultCode, Option<(u64, i32)>),
)
    requires
        call_ensures(RuntimeGate::get_stepper_count, (&gate, handle, counts, oid), count),
        call_ensures(RuntimeGate::now_ticks, (&gate, handle, widened), ticks),
        call_ensures(RuntimeGate::take_barrier_ack, (&gate, handle, outs, ready), taken),
        call_ensures(RuntimeGate::sample_query, (&gate, handle, outs, executed), answer),
    ensures
        !handle || !gate.init_done ==> count == 0 && ticks == 0 && taken is None && answer.1 is None,
        !handle ==> answer.0 is NullPtr,
        handle && !gate.init_done ==> answer.0 is NotInit,
        handle && gate.init_done ==> {
            &&& oid < counts@.len() ==> count == counts@[oid as int]
            &&& oid >= counts@.len() ==> count == 0
            &&& ticks == widened
            &&& outs ==> taken == ready
            &&& !outs ==> taken is None && answer.0 is NullPtr && answer.1 is None
            &&& outs && executed is None ==> answer.0 is InvalidArg && answer.1 is None
            &&& outs && executed is Some ==> answer.0 is NoFault && answer.1 == executed
        },
{
}

/// A payload is the first bytes of what is there, as many as it is long; one that is not there
/// is refused unless it is empty, and only where the runtime would take it.
pub proof fn law_payload_is_what_its_length_says<'a>(
    gate: RuntimeGate,
    handle: bool,
    data: Option<&'a [u8]>,
    data_len: u16,
    result: Result<&'a [u8], FaultCode>,
    bytes: Option<&'a [u8]>,
)
    requires
        data matches Some(held) ==> data_len <= held@.len(),
        call_ensures(RuntimeGate::check_payload, (&gate, handle, data, data_len), result),
        call_ensures(payload, (data, data_len), bytes),
    ensures
        result is Ok <==> handle && gate.init_done && (data_len == 0 || data is Some),
        result matches Ok(read) ==> read@.len() == data_len,
        result matches Ok(read) ==> data_len > 0 ==> read@ == data->0@.take(data_len as int),
        result matches Err(code) ==> (code is NullPtr <==> !handle || gate.init_done),
        result matches Err(code) ==> (code is NotInit <==> handle && !gate.init_done),
        bytes is Some <==> data_len == 0 || data is Some,
        bytes matches Some(read) ==> read@.len() == data_len,
        bytes matches Some(read) ==> data_len > 0 ==> read@ == data->0@.take(data_len as int),
{
}

/// A reset frees every phase slot and puts no motor in phase mode.
pub proof fn law_reset_frees_every_slot(slots: &mut StepSlots, i: int)
    requires
        call_ensures(StepSlots::reset, (slots,), ()),
    ensures
        final(slots).phase_motor_count == 0,
        final(slots).phase_slot_idx@.len() == old(slots).phase_slot_idx@.len(),
        final(slots).phase_mode@.len() == old(slots).phase_mode@.len(),
        0 <= i < final(slots).phase_slot_idx@.len() ==> final(slots).phase_slot_idx@[i] == 0xFF,
        0 <= i < final(slots).phase_mode@.len() ==> !final(slots).phase_mode@[i],
{
}

} // verus!
