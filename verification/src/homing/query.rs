//! Where the machine was at some clock: which motors are needed for an axis, and what
//! their histories come to.

use crate::pump::lanes::AxisKey;
use crate::text::append_decimal;
use vstd::prelude::*;
use vstd::string::*;

verus! {

#[derive(Debug, Clone, Copy, PartialEq, Eq, Structural)]
pub enum KinematicsKind {
    Cartesian,
    CoreXy,
}

/// One mcu's axes and the kinematics they run under.
#[derive(Debug)]
pub struct McuAxes {
    pub mcu_id: u32,
    pub axes: Vec<usize>,
    pub kinematics: u8,
}

/// Motor `motor` is needed to know the axis asked for: all of them where none is named,
/// both of the first two for either belt axis of a CoreXY machine, else just that one.
pub open spec fn needs_motor(kind: KinematicsKind, requested: Option<u8>, motor: int) -> bool {
    match requested {
        None => true,
        Some(axis) => motor == axis || (kind == KinematicsKind::CoreXy && axis < 2 && motor < 2),
    }
}

/// The motors needed for an axis; an axis beyond the fourth is handed back.
pub fn required_motor_axes(kind: KinematicsKind, requested_axis: Option<u8>) -> (required: Result<
    [bool; 4],
    u8,
>)
    ensures
        match required {
            Ok(motors) => (requested_axis matches Some(axis) ==> axis < 4) && forall|motor: int|
                0 <= motor < 4 ==> #[trigger] motors@[motor] == needs_motor(
                    kind,
                    requested_axis,
                    motor,
                ),
            Err(axis) => requested_axis == Some(axis) && axis >= 4,
        },
{
    let axis: u8 = match requested_axis {
        None => {
            return Ok([true, true, true, true]);
        },
        Some(axis) => axis,
    };
    if axis >= 4 {
        return Err(axis);
    }
    let belts = kind == KinematicsKind::CoreXy && axis < 2;
    Ok([axis == 0 || belts, axis == 1 || belts, axis == 2, axis == 3])
}

/// How a lane's history is asked: by the clock itself on the mcu the clock is of, and
/// by the host's time elsewhere.
#[derive(Debug, Clone, Copy, PartialEq, Eq, Structural)]
pub enum HistoryQuery {
    AtClock,
    AtHost,
}

pub fn history_state_at_query(key: AxisKey, source_mcu: u32) -> (query: HistoryQuery)
    ensures
        query == if key.mcu_id == source_mcu {
            HistoryQuery::AtClock
        } else {
            HistoryQuery::AtHost
        },
{
    if key.mcu_id == source_mcu {
        HistoryQuery::AtClock
    } else {
        HistoryQuery::AtHost
    }
}

/// What a lane's history answers.
#[derive(Debug)]
pub enum HistoryAnswer<S> {
    State(S),
    NoHistory,
    /// The time lies before what is retained; the state the lane was first held in, where
    /// that is known, and the error otherwise.
    BeforeRetained { initial: Option<S>, error: String },
    Failed(String),
}

pub open spec fn unnamed_axis_text(axis: u8) -> Seq<char> {
    "motion_state_at: unnamed axis "@ + crate::text::decimal(axis as nat)
}

/// The refusal of an axis that has no name.
pub fn unnamed_axis(axis: u8) -> (reason: String)
    ensures
        reason@ == unnamed_axis_text(axis),
{
    let mut reason = "motion_state_at: unnamed axis ".to_owned();
    append_decimal(&mut reason, axis as u64);
    reason
}

/// The states gathered from the first `count` lanes: each lane that is needed and has
/// a history sets its motor's state; the first error ends the gathering.
pub open spec fn gathered<S>(
    keys: Seq<AxisKey>,
    answers: Seq<HistoryAnswer<S>>,
    required: Seq<bool>,
    count: int,
) -> Result<Seq<Option<S>>, Seq<char>>
    decreases count,
{
    if count <= 0 {
        Ok(Seq::new(4, |motor: int| None))
    } else {
        match gathered(keys, answers, required, count - 1) {
            Err(reason) => Err(reason),
            Ok(states) => {
                let axis = keys[count - 1].axis;
                if axis >= 4 {
                    Err(unnamed_axis_text(axis))
                } else if !required[axis as int] {
                    Ok(states)
                } else {
                    match answers[count - 1] {
                        HistoryAnswer::State(state) => Ok(
                            states.update(axis as int, Some(state)),
                        ),
                        HistoryAnswer::NoHistory => Ok(states),
                        HistoryAnswer::BeforeRetained { initial, error } => match initial {
                            Some(state) => Ok(states.update(axis as int, Some(state))),
                            None => Err(error@),
                        },
                        HistoryAnswer::Failed(error) => Err(error@),
                    }
                }
            },
        }
    }
}

proof fn lemma_gathering_stops_at_an_error<S>(
    keys: Seq<AxisKey>,
    answers: Seq<HistoryAnswer<S>>,
    required: Seq<bool>,
    count: int,
    total: int,
)
    requires
        count <= total,
        gathered(keys, answers, required, count) is Err,
    ensures
        gathered(keys, answers, required, total) == gathered(keys, answers, required, count),
    decreases total - count,
{
    if count < total {
        lemma_gathering_stops_at_an_error(keys, answers, required, count, total - 1);
    }
}

/// Gathers the motors' states from what the lanes' histories answered, lane by lane.
pub fn gather_motor_states<S: Copy>(
    keys: &[AxisKey],
    answers: &[HistoryAnswer<S>],
    required: [bool; 4],
) -> (states: Result<[Option<S>; 4], String>)
    requires
        keys@.len() == answers@.len(),
    ensures
        match states {
            Ok(motors) => gathered(keys@, answers@, required@, keys@.len() as int) == Ok::<
                Seq<Option<S>>,
                Seq<char>,
            >(motors@),
            Err(reason) => gathered(keys@, answers@, required@, keys@.len() as int) == Err::<
                Seq<Option<S>>,
                Seq<char>,
            >(reason@),
        },
{
    let mut states: [Option<S>; 4] = [None, None, None, None];
    let mut index: usize = 0;
    assert(states@ =~= Seq::new(4, |motor: int| None::<S>));
    while index < keys.len()
        invariant
            index <= keys@.len(),
            keys@.len() == answers@.len(),
            gathered(keys@, answers@, required@, index as int) == Ok::<
                Seq<Option<S>>,
                Seq<char>,
            >(states@),
        decreases keys@.len() - index,
    {
        proof {
            if gathered(keys@, answers@, required@, index + 1) is Err {
                lemma_gathering_stops_at_an_error(
                    keys@,
                    answers@,
                    required@,
                    index + 1,
                    keys@.len() as int,
                );
            }
        }
        let axis: u8 = keys[index].axis;
        if axis >= 4 {
            return Err(unnamed_axis(axis));
        }
        if required[axis as usize] {
            match &answers[index] {
                HistoryAnswer::State(state) => {
                    states[axis as usize] = Some(*state);
                },
                HistoryAnswer::NoHistory => {},
                HistoryAnswer::BeforeRetained { initial, error } => match initial {
                    Some(state) => {
                        states[axis as usize] = Some(*state);
                    },
                    None => {
                        return Err(error.clone());
                    },
                },
                HistoryAnswer::Failed(error) => {
                    return Err(error.clone());
                },
            }
        }
        index += 1;
    }
    Ok(states)
}

/// The lanes of one mcu.
pub open spec fn keys_of_mcu(config: McuAxes) -> Seq<AxisKey> {
    config.axes@.map_values(
        |axis: usize| AxisKey { mcu_id: config.mcu_id, axis: (axis % 256) as u8 },
    )
}

/// The lanes of every mcu, in the order they are configured.
pub open spec fn keys_of(configs: Seq<McuAxes>) -> Seq<AxisKey>
    decreases configs.len(),
{
    if configs.len() == 0 {
        Seq::empty()
    } else {
        keys_of(configs.drop_last()) + keys_of_mcu(configs.last())
    }
}

/// Every configured lane.
pub fn configured_keys(configs: &[McuAxes]) -> (keys: Vec<AxisKey>)
    ensures
        keys@ == keys_of(configs@),
{
    let mut keys: Vec<AxisKey> = Vec::new();
    let mut index: usize = 0;
    assert(configs@.take(0) =~= Seq::empty());
    while index < configs.len()
        invariant
            index <= configs@.len(),
            keys@ == keys_of(configs@.take(index as int)),
        decreases configs@.len() - index,
    {
        let ghost before = keys@;
        let ghost config = configs@[index as int];
        let mut place: usize = 0;
        while place < configs[index].axes.len()
            invariant
                index < configs@.len(),
                config == configs@[index as int],
                place <= config.axes@.len(),
                keys@ == before + keys_of_mcu(config).take(place as int),
            decreases config.axes@.len() - place,
        {
            let axis: usize = configs[index].axes[place];
            keys.push(AxisKey { mcu_id: configs[index].mcu_id, axis: (axis % 256) as u8 });
            assert(keys_of_mcu(config).take(place + 1) =~= keys_of_mcu(config).take(
                place as int,
            ).push(keys_of_mcu(config)[place as int]));
            assert(keys@ =~= before + keys_of_mcu(config).take(place + 1));
            place += 1;
        }
        assert(keys_of_mcu(config).take(place as int) =~= keys_of_mcu(config));
        assert(configs@.take(index + 1).drop_last() =~= configs@.take(index as int));
        index += 1;
    }
    assert(configs@.take(index as int) =~= configs@);
    keys
}

/// The mcu drives the axis.
pub open spec fn drives(config: McuAxes, axis: usize) -> bool {
    config.axes@.contains(axis)
}

/// `place` is the first config that drives the axis.
pub open spec fn first_driver(configs: Seq<McuAxes>, axis: usize, place: int) -> bool {
    &&& 0 <= place < configs.len()
    &&& drives(configs[place], axis)
    &&& forall|i: int| 0 <= i < place ==> !drives(#[trigger] configs[i], axis)
}

pub open spec fn driven(configs: Seq<McuAxes>, axis: usize) -> bool {
    exists|i: int| 0 <= i < configs.len() && drives(#[trigger] configs[i], axis)
}

/// The place of the first config that drives the axis.
pub fn find_driver(configs: &[McuAxes], axis: usize) -> (place: Option<usize>)
    ensures
        match place {
            Some(found) => first_driver(configs@, axis, found as int),
            None => !driven(configs@, axis),
        },
{
    let mut index: usize = 0;
    while index < configs.len()
        invariant
            index <= configs@.len(),
            forall|i: int| 0 <= i < index ==> !drives(#[trigger] configs@[i], axis),
        decreases configs@.len() - index,
    {
        let mut place: usize = 0;
        while place < configs[index].axes.len()
            invariant
                index < configs@.len(),
                place <= configs@[index as int].axes@.len(),
                forall|i: int| 0 <= i < index ==> !drives(#[trigger] configs@[i], axis),
                forall|i: int| 0 <= i < place ==> configs@[index as int].axes@[i] != axis,
            decreases configs@[index as int].axes@.len() - place,
        {
            if configs[index].axes[place] == axis {
                assert(configs@[index as int].axes@[place as int] == axis);
                assert(drives(configs@[index as int], axis));
                return Some(index);
            }
            place += 1;
        }
        index += 1;
    }
    None
}

/// The kinematics a machine runs under: that of the mcu that drives its first axis, and
/// `cartesian` where none does.
pub fn kinematics_tag(configs: &[McuAxes], cartesian: u8) -> (tag: u8)
    ensures
        forall|place: int| #[trigger]
            first_driver(configs@, 0, place) ==> tag == configs@[place].kinematics,
        !driven(configs@, 0) ==> tag == cartesian,
{
    match find_driver(configs, 0) {
        Some(place) => {
            proof {
                assert forall|other: int| #[trigger] first_driver(configs@, 0, other) implies other
                    == place by {
                    assert(drives(configs@[place as int], 0));
                    assert(drives(configs@[other], 0));
                }
            }
            configs[place].kinematics
        },
        None => cartesian,
    }
}

/// What is done to a state that is handed out while a bed mesh may be active.
#[derive(Debug, Clone, Copy, PartialEq, Eq, Structural)]
pub enum Unwarp {
    /// Hand it out as it is.
    Keep,
    /// Unwarp its height with its x and y.
    Height,
    /// Refuse it: the height cannot be unwarped without x and y.
    Refuse,
}

/// How a machine state becomes a gcode one.
pub fn cartesian_state_to_gcode(mesh_active: bool, has_x: bool, has_y: bool, has_z: bool) -> (
unwarp: Unwarp)
    ensures
        unwarp == if !mesh_active || !has_z {
            Unwarp::Keep
        } else if has_x && has_y {
            Unwarp::Height
        } else {
            Unwarp::Refuse
        },
{
    if !mesh_active {
        return Unwarp::Keep;
    }
    if !has_z {
        return Unwarp::Keep;
    }
    if has_x && has_y {
        Unwarp::Height
    } else {
        Unwarp::Refuse
    }
}

/// A motor's state is gathered only where it is needed; what is not needed stays out.
pub proof fn law_only_needed_motors_are_gathered<S>(
    keys: Seq<AxisKey>,
    answers: Seq<HistoryAnswer<S>>,
    required: Seq<bool>,
    count: int,
    motor: int,
)
    requires
        0 <= motor < 4,
        required.len() == 4,
        !required[motor],
    ensures
        gathered(keys, answers, required, count) matches Ok(states) ==> states.len() == 4
            && states[motor] is None,
    decreases count,
{
    if count > 0 {
        law_only_needed_motors_are_gathered(keys, answers, required, count - 1, motor);
    }
}

/// Asking for one axis never needs fewer motors than moving it does: the motor of the
/// axis itself is always among them.
pub proof fn law_own_motor_is_needed(kind: KinematicsKind, axis: u8)
    ensures
        needs_motor(kind, Some(axis), axis as int),
        needs_motor(kind, None, axis as int),
{
}

/// Without a named axis every motor is needed. A named one needs its own motor, and on a
/// CoreXY machine either belt axis needs both belt motors; nothing else is needed, and an
/// axis past the fourth is handed back.
pub proof fn law_belt_axes_need_both_belts(
    kind: KinematicsKind,
    requested: Option<u8>,
    required: Result<[bool; 4], u8>,
)
    requires
        call_ensures(required_motor_axes, (kind, requested), required),
    ensures
        required is Err <==> requested is Some && requested->0 >= 4,
        required matches Err(axis) ==> requested == Some(axis),
        required matches Ok(motors) ==> {
            &&& requested is None ==> motors@[0] && motors@[1] && motors@[2] && motors@[3]
            &&& requested is Some ==> {
                let axis = requested->0;
                &&& motors@[axis as int]
                &&& motors@[2] <==> axis == 2
                &&& motors@[3] <==> axis == 3
                &&& kind is Cartesian ==> (motors@[0] <==> axis == 0) && (motors@[1] <==> axis == 1)
                &&& kind is CoreXy ==> (motors@[0] <==> axis < 2) && (motors@[1] <==> axis < 2)
            }
        },
{
    if let Ok(motors) = required {
        assert(motors@[0] == needs_motor(kind, requested, 0));
        assert(motors@[1] == needs_motor(kind, requested, 1));
        assert(motors@[2] == needs_motor(kind, requested, 2));
        assert(motors@[3] == needs_motor(kind, requested, 3));
    }
}

/// Lane `i` tells its motor's state `state`.
pub open spec fn tells_state<S>(answer: HistoryAnswer<S>, state: S) -> bool {
    ||| answer == HistoryAnswer::State(state)
    ||| answer matches HistoryAnswer::BeforeRetained { initial, .. } && initial == Some(state)
}

/// A gathered state is what a lane of that motor told, and the last one to tell any. A motor
/// that is needed and that a lane told of has a state.
pub proof fn law_gathered_state_is_its_motors_own<S>(
    keys: Seq<AxisKey>,
    answers: Seq<HistoryAnswer<S>>,
    required: Seq<bool>,
    count: int,
    states: Seq<Option<S>>,
    motor: int,
)
    requires
        0 <= count,
        required.len() == 4,
        0 <= motor < 4,
        gathered(keys, answers, required, count) == Ok::<Seq<Option<S>>, Seq<char>>(states),
    ensures
        states.len() == 4,
        states[motor] matches Some(state) ==> required[motor] && exists|i: int|
            {
                &&& 0 <= i < count
                &&& (#[trigger] keys[i]).axis == motor
                &&& tells_state(answers[i], state)
                &&& forall|later: int|
                    i < later < count && (#[trigger] keys[later]).axis == motor
                        ==> answers[later] is NoHistory
            },
        states[motor] is None && required[motor] ==> forall|i: int|
            0 <= i < count && (#[trigger] keys[i]).axis == motor ==> answers[i] is NoHistory,
    decreases count,
{
    if count > 0 {
        let before = gathered(keys, answers, required, count - 1)->Ok_0;
        law_gathered_state_is_its_motors_own(keys, answers, required, count - 1, before, motor);
        let last = keys[count - 1];
        if last.axis == motor && required[motor] && !(answers[count - 1] is NoHistory) {
            assert(tells_state(answers[count - 1], states[motor]->0));
        } else {
            assert(states[motor] == before[motor]);
            if let Some(state) = states[motor] {
                let i = choose|i: int|
                    {
                        &&& 0 <= i < count - 1
                        &&& (#[trigger] keys[i]).axis == motor
                        &&& tells_state(answers[i], state)
                        &&& forall|later: int|
                            i < later < count - 1 && (#[trigger] keys[later]).axis == motor
                                ==> answers[later] is NoHistory
                    };
                assert(keys[i].axis == motor);
            }
        }
    }
}

/// Lane `i` cannot be gathered from, for this reason: its axis has no name, or its motor is
/// needed and its history failed.
pub open spec fn refuses_state<S>(
    key: AxisKey,
    answer: HistoryAnswer<S>,
    required: Seq<bool>,
    reason: Seq<char>,
) -> bool {
    ||| key.axis >= 4 && reason == unnamed_axis_text(key.axis)
    ||| {
        &&& key.axis < 4 && required[key.axis as int]
        &&& {
            ||| answer matches HistoryAnswer::Failed(error) && error@ == reason
            ||| answer matches HistoryAnswer::BeforeRetained { initial, error } && initial is None
                && error@ == reason
        }
    }
}

/// Gathering fails with the reason of the first lane that cannot be gathered from, and only
/// where there is one.
pub proof fn law_gathering_fails_with_the_first_reason<S>(
    keys: Seq<AxisKey>,
    answers: Seq<HistoryAnswer<S>>,
    required: Seq<bool>,
    count: int,
)
    requires
        0 <= count,
    ensures
        match gathered(keys, answers, required, count) {
            Err(reason) => exists|i: int|
                {
                    &&& 0 <= i < count
                    &&& #[trigger] refuses_state(keys[i], answers[i], required, reason)
                    &&& gathered(keys, answers, required, i) is Ok
                },
            Ok(_) => forall|i: int, reason: Seq<char>|
                0 <= i < count ==> !#[trigger] refuses_state(
                    keys[i],
                    answers[i],
                    required,
                    reason,
                ),
        },
    decreases count,
{
    if count > 0 {
        law_gathering_fails_with_the_first_reason(keys, answers, required, count - 1);
        match gathered(keys, answers, required, count) {
            Err(reason) => {
                if gathered(keys, answers, required, count - 1) is Ok {
                    assert(refuses_state(keys[count - 1], answers[count - 1], required, reason));
                }
            },
            Ok(_) => {},
        }
    }
}

/// Every axis of every mcu has its lane, and every lane is one of those.
pub proof fn law_every_configured_axis_has_its_lane(configs: Seq<McuAxes>, key: AxisKey)
    ensures
        keys_of(configs).contains(key) <==> exists|i: int, place: int|
            {
                &&& 0 <= i < configs.len()
                &&& 0 <= place < configs[i].axes@.len()
                &&& key.mcu_id == configs[i].mcu_id
                &&& key.axis == #[trigger] configs[i].axes@[place] % 256
            },
    decreases configs.len(),
{
    if configs.len() > 0 {
        let fewer = configs.drop_last();
        let last = configs.last();
        let own = keys_of_mcu(last);
        law_every_configured_axis_has_its_lane(fewer, key);
        assert(keys_of(configs) == keys_of(fewer) + own);
        if keys_of(configs).contains(key) {
            let at = choose|at: int| 0 <= at < keys_of(configs).len() && keys_of(configs)[at] == key;
            if at < keys_of(fewer).len() {
                assert(keys_of(fewer)[at] == key);
                let (i, place) = choose|i: int, place: int|
                    {
                        &&& 0 <= i < fewer.len()
                        &&& 0 <= place < fewer[i].axes@.len()
                        &&& key.mcu_id == fewer[i].mcu_id
                        &&& key.axis == #[trigger] fewer[i].axes@[place] % 256
                    };
                assert(configs[i].axes@[place] == fewer[i].axes@[place]);
            } else {
                let place = at - keys_of(fewer).len();
                assert(own[place] == key);
                assert(key.axis == configs[configs.len() - 1].axes@[place] % 256);
            }
        }
        if exists|i: int, place: int|
            {
                &&& 0 <= i < configs.len()
                &&& 0 <= place < configs[i].axes@.len()
                &&& key.mcu_id == configs[i].mcu_id
                &&& key.axis == #[trigger] configs[i].axes@[place] % 256
            } {
            let (i, place) = choose|i: int, place: int|
                {
                    &&& 0 <= i < configs.len()
                    &&& 0 <= place < configs[i].axes@.len()
                    &&& key.mcu_id == configs[i].mcu_id
                    &&& key.axis == #[trigger] configs[i].axes@[place] % 256
                };
            if i < fewer.len() {
                assert(fewer[i].axes@[place] == configs[i].axes@[place]);
                let at = choose|at: int| 0 <= at < keys_of(fewer).len() && keys_of(fewer)[at] == key;
                assert(keys_of(configs)[at] == key);
            } else {
                assert(own[place] == key);
                assert(keys_of(configs)[keys_of(fewer).len() + place] == key);
            }
        }
    }
}

/// The driver of an axis is the first mcu that lists the axis; there is none only where no
/// mcu lists it.
pub proof fn law_first_mcu_that_lists_the_axis_drives_it(
    configs: Seq<McuAxes>,
    axis: usize,
    place: int,
    other: int,
)
    requires
        0 <= other < configs.len(),
        configs[other].axes@.contains(axis),
    ensures
        driven(configs, axis),
        first_driver(configs, axis, place) ==> configs[place].axes@.contains(axis) && place
            <= other,
{
    assert(drives(configs[other], axis));
}

/// A lane is asked by the clock exactly on the mcu that the clock is of. A state with a
/// height is unwarped under a mesh where x and y are known, and refused where they are not;
/// without a mesh or a height it is handed out as it is.
pub proof fn law_lane_is_asked_by_its_own_clock(
    key: AxisKey,
    source_mcu: u32,
    query: HistoryQuery,
    mesh_active: bool,
    has_x: bool,
    has_y: bool,
    has_z: bool,
    unwarp: Unwarp,
    axis: u8,
    reason: String,
)
    requires
        call_ensures(history_state_at_query, (key, source_mcu), query),
        call_ensures(cartesian_state_to_gcode, (mesh_active, has_x, has_y, has_z), unwarp),
        call_ensures(unnamed_axis, (axis,), reason),
    ensures
        query is AtClock <==> key.mcu_id == source_mcu,
        unwarp is Keep <==> !(mesh_active && has_z),
        unwarp is Height <==> mesh_active && has_z && has_x && has_y,
        unwarp is Refuse <==> mesh_active && has_z && !(has_x && has_y),
        reason@ == "motion_state_at: unnamed axis "@ + crate::text::decimal(axis as nat),
{
}

/// What is gathered, or refused, is what the lanes told.
pub proof fn law_gathered_states_are_handed_out<S: Copy>(
    keys: &[AxisKey],
    answers: &[HistoryAnswer<S>],
    required: [bool; 4],
    states: Result<[Option<S>; 4], String>,
    motor: int,
)
    requires
        keys@.len() == answers@.len(),
        call_ensures(gather_motor_states::<S>, (keys, answers, required), states),
        0 <= motor < 4,
    ensures
        states matches Ok(motors) ==> {
            &&& motors@[motor] is Some ==> required@[motor] && exists|i: int|
                0 <= i < keys@.len() && (#[trigger] keys@[i]).axis == motor && tells_state(
                    answers@[i],
                    motors@[motor]->0,
                )
            &&& motors@[motor] is None && required@[motor] ==> forall|i: int|
                0 <= i < keys@.len() && (#[trigger] keys@[i]).axis == motor ==> answers@[i]
                    is NoHistory
        },
        states matches Err(reason) ==> exists|i: int|
            0 <= i < keys@.len() && #[trigger] refuses_state(
                keys@[i],
                answers@[i],
                required@,
                reason@,
            ),
        states is Ok ==> forall|i: int, reason: Seq<char>|
            0 <= i < keys@.len() ==> !#[trigger] refuses_state(
                keys@[i],
                answers@[i],
                required@,
                reason,
            ),
{
    law_gathering_fails_with_the_first_reason(keys@, answers@, required@, keys@.len() as int);
    if let Ok(motors) = states {
        law_gathered_state_is_its_motors_own(
            keys@,
            answers@,
            required@,
            keys@.len() as int,
            motors@,
            motor,
        );
    }
}

/// The lanes of an mcu follow those of the mcus before it, one for each of its axes in
/// order.
pub proof fn law_lanes_follow_the_configuration(configs: Seq<McuAxes>, config: McuAxes, i: int)
    ensures
        keys_of(Seq::empty()).len() == 0,
        keys_of(configs.push(config)).len() == keys_of(configs).len() + config.axes@.len(),
        0 <= i < keys_of(configs).len() ==> keys_of(configs.push(config))[i] == keys_of(
            configs,
        )[i],
        0 <= i < config.axes@.len() ==> keys_of(configs.push(config))[keys_of(configs).len() + i]
            == (AxisKey { mcu_id: config.mcu_id, axis: (config.axes@[i] % 256) as u8 }),
{
    assert(configs.push(config).drop_last() =~= configs);
}

/// A machine runs under the kinematics of the first mcu that lists its first axis, and as a
/// cartesian one where none does; every configured lane is listed.
pub proof fn law_first_axis_decides_the_kinematics(
    configs: &[McuAxes],
    cartesian: u8,
    tag: u8,
    axis: usize,
    driver: Option<usize>,
    keys: Vec<AxisKey>,
)
    requires
        call_ensures(kinematics_tag, (configs, cartesian), tag),
        call_ensures(find_driver, (configs, axis), driver),
        call_ensures(configured_keys, (configs,), keys),
    ensures
        (forall|i: int| 0 <= i < configs@.len() ==> !(#[trigger] configs@[i]).axes@.contains(0))
            ==> tag == cartesian,
        forall|place: int|
            0 <= place < configs@.len() && (#[trigger] configs@[place]).axes@.contains(0) && (
            forall|i: int| 0 <= i < place ==> !(#[trigger] configs@[i]).axes@.contains(0)) ==> tag
                == configs@[place].kinematics,
        driver is None <==> forall|i: int|
            0 <= i < configs@.len() ==> !(#[trigger] configs@[i]).axes@.contains(axis),
        driver matches Some(place) ==> place < configs@.len() && configs@[place as int].axes@.contains(
            axis,
        ),
        keys@ == keys_of(configs@),
{
    assert forall|place: int|
        0 <= place < configs@.len() && (#[trigger] configs@[place]).axes@.contains(0) && (forall|
            i: int,
        |
            0 <= i < place ==> !(#[trigger] configs@[i]).axes@.contains(0)) implies tag
        == configs@[place].kinematics by {
        assert forall|i: int| 0 <= i < place implies !drives(#[trigger] configs@[i], 0) by {
            assert(!configs@[i].axes@.contains(0));
        }
        assert(first_driver(configs@, 0, place));
    }
    if forall|i: int| 0 <= i < configs@.len() ==> !(#[trigger] configs@[i]).axes@.contains(0) {
        assert forall|i: int| 0 <= i < configs@.len() implies !drives(#[trigger] configs@[i], 0) by {
            assert(!configs@[i].axes@.contains(0));
        }
    }
    if driver is None {
        assert forall|i: int| 0 <= i < configs@.len() implies !(
        #[trigger] configs@[i]).axes@.contains(axis) by {
            assert(!drives(configs@[i], axis));
        }
    } else {
        assert(drives(configs@[driver->0 as int], axis));
    }
}

} // verus!
