//! Which endpoints a resonance buzz goes out through.

use crate::text::{append_decimal, append_hexadecimal};
use vstd::prelude::*;
use vstd::string::*;

verus! {

/// One lane of a buzz and the direction it moves in.
#[derive(Debug, Clone, Copy, PartialEq, Eq, Structural)]
pub struct BuzzLane {
    pub axis: u8,
    pub sign: i8,
}

/// What a caller asks to buzz.
#[derive(Debug, Clone, Copy, PartialEq, Eq, Structural)]
pub enum EndpointBuzzSpec {
    Ethercat { mcu_handle: u32, slot_mask: u8, sign_mask: u8 },
    Stepper { axis_mask: u8, sign_mask: u8 },
}

/// One endpoint's part of a buzz.
#[derive(Debug)]
pub enum BuzzRoute {
    Ethercat { mcu_id: u32, slot_mask: u8, sign_mask: u8 },
    Pulse { mcu_id: u32, axis_mask: u8, sign_mask: u8 },
    Phase { mcu_id: u32, lanes: Vec<BuzzLane> },
}

/// The value of a route.
#[verifier::ext_equal]
pub enum RouteView {
    Ethercat { mcu_id: u32, slot_mask: u8, sign_mask: u8 },
    Pulse { mcu_id: u32, axis_mask: u8, sign_mask: u8 },
    Phase { mcu_id: u32, lanes: Seq<BuzzLane> },
}

impl View for BuzzRoute {
    type V = RouteView;

    open spec fn view(&self) -> RouteView {
        match self {
            BuzzRoute::Ethercat { mcu_id, slot_mask, sign_mask } => RouteView::Ethercat {
                mcu_id: *mcu_id,
                slot_mask: *slot_mask,
                sign_mask: *sign_mask,
            },
            BuzzRoute::Pulse { mcu_id, axis_mask, sign_mask } => RouteView::Pulse {
                mcu_id: *mcu_id,
                axis_mask: *axis_mask,
                sign_mask: *sign_mask,
            },
            BuzzRoute::Phase { mcu_id, lanes } => RouteView::Phase {
                mcu_id: *mcu_id,
                lanes: lanes@,
            },
        }
    }
}

/// One mcu that drives stepper lanes: the axes it drives, and those of them that
/// run in phase mode just now.
#[derive(Debug, Clone, Copy, PartialEq, Eq, Structural)]
pub struct LaneEndpoint {
    pub mcu_id: u32,
    pub drives: u8,
    pub in_phase_mode: u8,
}

/// The endpoints a pump can reach.
#[derive(Debug)]
pub struct EndpointMap {
    pub ethercat: Vec<u32>,
    pub pulse: Vec<LaneEndpoint>,
    pub phase: Vec<LaneEndpoint>,
}

/// Bit `axis` of `mask` is set.
pub open spec fn has_bit(mask: u8, axis: u8) -> bool {
    mask & (1u8 << axis) != 0
}

/// The axes in increasing order.
pub open spec fn all_axes() -> Seq<u8> {
    Seq::new(8, |i: int| i as u8)
}

/// The direction of one axis: backwards where its sign bit is set.
pub open spec fn lane_of(axis: u8, sign_mask: u8) -> BuzzLane {
    BuzzLane {
        axis,
        sign: if has_bit(sign_mask, axis) {
            -1i8
        } else {
            1i8
        },
    }
}

/// The lanes of the set axes, in increasing order.
pub open spec fn lanes_of(axis_bits: u8, sign_mask: u8) -> Seq<BuzzLane> {
    all_axes().filter(|axis: u8| has_bit(axis_bits, axis)).map_values(
        |axis: u8| lane_of(axis, sign_mask),
    )
}

proof fn lemma_setting_a_bit(bits: u8, set: u8, axis: u8)
    requires
        set < 8,
        axis < 8,
    ensures
        has_bit(bits | (1u8 << set), axis) == (axis == set || has_bit(bits, axis)),
{
    assert(((bits | (1u8 << set)) & (1u8 << axis) != 0) == (axis == set || (bits & (1u8 << axis)
        != 0))) by (bit_vector)
        requires
            set < 8,
            axis < 8,
    ;
}

proof fn lemma_no_bit_of_zero(axis: u8)
    ensures
        !has_bit(0, axis),
{
    assert(0u8 & (1u8 << axis) == 0) by (bit_vector);
}

fn test_bit(mask: u8, axis: u8) -> (set: bool)
    requires
        axis < 8,
    ensures
        set == has_bit(mask, axis),
{
    mask & (1u8 << axis) != 0
}

/// The axes of `axis_mask` that `keep` accepts.
pub fn buzz_axis_bits<F: Fn(u8) -> bool>(axis_mask: u8, keep: F) -> (bits: u8)
    requires
        forall|axis: u8| axis < 8 ==> call_requires(keep, (axis,)),
    ensures
        forall|axis: u8|
            axis < 8 && #[trigger] has_bit(bits, axis) ==> has_bit(axis_mask, axis)
                && call_ensures(keep, (axis,), true),
        forall|axis: u8|
            axis < 8 && has_bit(axis_mask, axis) && !#[trigger] has_bit(bits, axis)
                ==> call_ensures(keep, (axis,), false),
{
    let mut bits: u8 = 0;
    let mut axis: u8 = 0;
    proof {
        assert forall|a: u8| !#[trigger] has_bit(bits, a) by {
            lemma_no_bit_of_zero(a);
        }
    }
    while axis < 8
        invariant
            axis <= 8,
            forall|a: u8| a < 8 ==> call_requires(keep, (a,)),
            forall|a: u8|
                a < 8 && #[trigger] has_bit(bits, a) ==> a < axis && has_bit(axis_mask, a)
                    && call_ensures(keep, (a,), true),
            forall|a: u8|
                a < axis && has_bit(axis_mask, a) && !#[trigger] has_bit(bits, a)
                    ==> call_ensures(keep, (a,), false),
        decreases 8 - axis,
    {
        if test_bit(axis_mask, axis) {
            if keep(axis) {
                let ghost before = bits;
                proof {
                    assert forall|a: u8| a < 8 implies #[trigger] has_bit(
                        before | (1u8 << axis),
                        a,
                    ) == (a == axis || has_bit(before, a)) by {
                        lemma_setting_a_bit(before, axis, a);
                    }
                }
                bits = bits | (1u8 << axis);
                assert(forall|a: u8|
                    a < 8 ==> (#[trigger] has_bit(bits, a) == (a == axis || has_bit(before, a))));
            }
        }
        axis += 1;
    }
    bits
}

/// The lanes of the set axes, in increasing order, each with its direction.
pub fn buzz_lanes(axis_bits: u8, sign_mask: u8) -> (lanes: Vec<BuzzLane>)
    ensures
        lanes@ == lanes_of(axis_bits, sign_mask),
{
    let mut lanes: Vec<BuzzLane> = Vec::new();
    let mut axis: u8 = 0;
    let ghost set = |axis: u8| has_bit(axis_bits, axis);
    let ghost as_lane = |axis: u8| lane_of(axis, sign_mask);
    assert(all_axes().take(0).filter(set) =~= Seq::empty());
    while axis < 8
        invariant
            axis <= 8,
            set == (|axis: u8| has_bit(axis_bits, axis)),
            as_lane == (|axis: u8| lane_of(axis, sign_mask)),
            lanes@ == all_axes().take(axis as int).filter(set).map_values(as_lane),
        decreases 8 - axis,
    {
        let ghost sofar = all_axes().take(axis as int).filter(set);
        assert(all_axes().take(axis + 1) =~= all_axes().take(axis as int).push(axis));
        proof {
            all_axes().take(axis as int).lemma_filter_push(axis, set);
        }
        if test_bit(axis_bits, axis) {
            let sign: i8 = if test_bit(sign_mask, axis) {
                -1
            } else {
                1
            };
            lanes.push(BuzzLane { axis, sign });
            assert(lanes@ =~= sofar.push(axis).map_values(as_lane));
        }
        axis += 1;
    }
    assert(all_axes().take(axis as int) =~= all_axes());
    lanes
}

/// `bits` are the axes of `axis_mask` that the endpoint drives in the mode asked
/// for: pulse lanes are those it does not run in phase mode, phase lanes the rest.
pub open spec fn driven_bits(
    bits: u8,
    axis_mask: u8,
    endpoint: LaneEndpoint,
    phase: bool,
) -> bool {
    forall|axis: u8|
        axis < 8 ==> (#[trigger] has_bit(bits, axis) == (has_bit(axis_mask, axis) && has_bit(
            endpoint.drives,
            axis,
        ) && has_bit(endpoint.in_phase_mode, axis) == phase))
}

/// The bits of one endpoint, as a mask.
pub open spec fn driven_mask(axis_mask: u8, endpoint: LaneEndpoint, phase: bool) -> u8 {
    if phase {
        axis_mask & endpoint.drives & endpoint.in_phase_mode
    } else {
        axis_mask & endpoint.drives & !endpoint.in_phase_mode
    }
}

proof fn lemma_driven_bits_are_the_mask(
    bits: u8,
    axis_mask: u8,
    endpoint: LaneEndpoint,
    phase: bool,
)
    requires
        driven_bits(bits, axis_mask, endpoint, phase),
    ensures
        bits == driven_mask(axis_mask, endpoint, phase),
{
    let drives = endpoint.drives;
    let mode = endpoint.in_phase_mode;
    let mask = driven_mask(axis_mask, endpoint, phase);
    assert forall|axis: u8| axis < 8 implies has_bit(mask, axis) == has_bit(bits, axis) by {
        assert((axis_mask & drives & mode) & (1u8 << axis) != 0 <==> (axis_mask & (1u8 << axis)
            != 0 && drives & (1u8 << axis) != 0 && mode & (1u8 << axis) != 0)) by (bit_vector)
            requires
                axis < 8,
        ;
        assert((axis_mask & drives & !mode) & (1u8 << axis) != 0 <==> (axis_mask & (1u8 << axis)
            != 0 && drives & (1u8 << axis) != 0 && mode & (1u8 << axis) == 0)) by (bit_vector)
            requires
                axis < 8,
        ;
        assert(has_bit(bits, axis) == (has_bit(axis_mask, axis) && has_bit(drives, axis)
            && has_bit(mode, axis) == phase));
    }
    assert(has_bit(mask, 0) == has_bit(bits, 0));
    assert(has_bit(mask, 1) == has_bit(bits, 1));
    assert(has_bit(mask, 2) == has_bit(bits, 2));
    assert(has_bit(mask, 3) == has_bit(bits, 3));
    assert(has_bit(mask, 4) == has_bit(bits, 4));
    assert(has_bit(mask, 5) == has_bit(bits, 5));
    assert(has_bit(mask, 6) == has_bit(bits, 6));
    assert(has_bit(mask, 7) == has_bit(bits, 7));
    assert(bits == mask) by (bit_vector)
        requires
            (mask & (1u8 << 0) != 0) == (bits & (1u8 << 0) != 0),
            (mask & (1u8 << 1) != 0) == (bits & (1u8 << 1) != 0),
            (mask & (1u8 << 2) != 0) == (bits & (1u8 << 2) != 0),
            (mask & (1u8 << 3) != 0) == (bits & (1u8 << 3) != 0),
            (mask & (1u8 << 4) != 0) == (bits & (1u8 << 4) != 0),
            (mask & (1u8 << 5) != 0) == (bits & (1u8 << 5) != 0),
            (mask & (1u8 << 6) != 0) == (bits & (1u8 << 6) != 0),
            (mask & (1u8 << 7) != 0) == (bits & (1u8 << 7) != 0),
    ;
}

fn driven(axis_mask: u8, endpoint: LaneEndpoint, phase: bool) -> (bits: u8)
    ensures
        bits == driven_mask(axis_mask, endpoint, phase),
{
    let keep = |axis: u8| -> (kept: bool)
        requires
            axis < 8,
        ensures
            kept == (has_bit(endpoint.drives, axis) && has_bit(endpoint.in_phase_mode, axis)
                == phase),
        { test_bit(endpoint.drives, axis) && test_bit(endpoint.in_phase_mode, axis) == phase };
    let bits: u8 = buzz_axis_bits(axis_mask, keep);
    proof {
        lemma_driven_bits_are_the_mask(bits, axis_mask, endpoint, phase);
    }
    bits
}

/// The endpoints are listed by increasing mcu.
pub open spec fn listed_by_mcu(endpoints: Seq<LaneEndpoint>) -> bool {
    forall|i: int, j: int|
        0 <= i < j < endpoints.len() ==> endpoints[i].mcu_id < endpoints[j].mcu_id
}

/// The route of one stepper endpoint, where it has lanes in the buzz.
pub open spec fn stepper_route(
    endpoint: LaneEndpoint,
    axis_mask: u8,
    sign_mask: u8,
    phase: bool,
) -> RouteView {
    if phase {
        RouteView::Phase {
            mcu_id: endpoint.mcu_id,
            lanes: lanes_of(driven_mask(axis_mask, endpoint, true), sign_mask),
        }
    } else {
        RouteView::Pulse {
            mcu_id: endpoint.mcu_id,
            axis_mask: driven_mask(axis_mask, endpoint, false),
            sign_mask,
        }
    }
}

/// The routes of the endpoints that drive some of the axes, in order.
pub open spec fn stepper_routes(
    endpoints: Seq<LaneEndpoint>,
    axis_mask: u8,
    sign_mask: u8,
    phase: bool,
) -> Seq<RouteView> {
    endpoints.filter(
        |endpoint: LaneEndpoint| driven_mask(axis_mask, endpoint, phase) != 0,
    ).map_values(|endpoint: LaneEndpoint| stepper_route(endpoint, axis_mask, sign_mask, phase))
}

/// A mask as two lower-case hexadecimal digits.
pub open spec fn mask_text(mask: u8) -> Seq<char> {
    if mask < 16 {
        "0"@ + crate::text::hexadecimal(mask as nat)
    } else {
        crate::text::hexadecimal(mask as nat)
    }
}

pub open spec fn no_filler_text(mcu_handle: u32) -> Seq<char> {
    "resonance_buzz: mcu_handle "@ + crate::text::decimal(mcu_handle as nat)
        + " has no EtherCAT setpoint filler"@
}

pub open spec fn no_endpoint_text(axis_mask: u8) -> Seq<char> {
    "resonance_buzz: axis mask 0x"@ + mask_text(axis_mask)
        + " selects no pulse or phase endpoint"@
}

/// The routes of one request, or why there are none.
pub open spec fn routes_of_spec(spec: EndpointBuzzSpec, map: EndpointMap) -> Result<
    Seq<RouteView>,
    Seq<char>,
> {
    match spec {
        EndpointBuzzSpec::Ethercat { mcu_handle, slot_mask, sign_mask } => {
            if slot_mask == 0 {
                Err("resonance_buzz: ethercat route has an empty slot mask"@)
            } else if !map.ethercat@.contains(mcu_handle) {
                Err(no_filler_text(mcu_handle))
            } else {
                Ok(seq![RouteView::Ethercat { mcu_id: mcu_handle, slot_mask, sign_mask }])
            }
        },
        EndpointBuzzSpec::Stepper { axis_mask, sign_mask } => {
            let routes = stepper_routes(map.pulse@, axis_mask, sign_mask, false) + stepper_routes(
                map.phase@,
                axis_mask,
                sign_mask,
                true,
            );
            if axis_mask == 0 {
                Err("resonance_buzz: stepper route has an empty axis mask"@)
            } else if routes.len() == 0 {
                Err(no_endpoint_text(axis_mask))
            } else {
                Ok(routes)
            }
        },
    }
}

/// The routes of all requests in order, or the first refusal.
pub open spec fn routes_of(specs: Seq<EndpointBuzzSpec>, map: EndpointMap) -> Result<
    Seq<RouteView>,
    Seq<char>,
>
    decreases specs.len(),
{
    if specs.len() == 0 {
        Ok(Seq::empty())
    } else {
        match routes_of(specs.drop_last(), map) {
            Err(refusal) => Err(refusal),
            Ok(earlier) => match routes_of_spec(specs.last(), map) {
                Err(refusal) => Err(refusal),
                Ok(routes) => Ok(earlier + routes),
            },
        }
    }
}

/// The values of a sequence of routes.
pub open spec fn route_views(routes: Seq<BuzzRoute>) -> Seq<RouteView> {
    routes.map_values(|route: BuzzRoute| route@)
}

impl EndpointMap {
    pub open spec fn wf(&self) -> bool {
        listed_by_mcu(self.pulse@) && listed_by_mcu(self.phase@)
    }

    pub fn new() -> (map: Self)
        ensures
            map.wf(),
            map.ethercat@ == Seq::<u32>::empty(),
            map.pulse@ == Seq::<LaneEndpoint>::empty(),
            map.phase@ == Seq::<LaneEndpoint>::empty(),
    {
        EndpointMap { ethercat: Vec::new(), pulse: Vec::new(), phase: Vec::new() }
    }

    pub fn has_ethercat(&self, mcu_id: u32) -> (found: bool)
        ensures
            found == self.ethercat@.contains(mcu_id),
    {
        let mut index: usize = 0;
        while index < self.ethercat.len()
            invariant
                index <= self.ethercat@.len(),
                forall|i: int| 0 <= i < index ==> self.ethercat@[i] != mcu_id,
            decreases self.ethercat@.len() - index,
        {
            if self.ethercat[index] == mcu_id {
                return true;
            }
            index += 1;
        }
        false
    }

    /// Some pulse endpoint is the mcu's.
    pub open spec fn spec_has_pulse(&self, mcu_id: u32) -> bool {
        exists|i: int| 0 <= i < self.pulse@.len() && (#[trigger] self.pulse@[i]).mcu_id == mcu_id
    }

    /// Some phase endpoint is the mcu's.
    pub open spec fn spec_has_phase(&self, mcu_id: u32) -> bool {
        exists|i: int| 0 <= i < self.phase@.len() && (#[trigger] self.phase@[i]).mcu_id == mcu_id
    }

    pub fn has_pulse(&self, mcu_id: u32) -> (found: bool)
        ensures
            found == self.spec_has_pulse(mcu_id),
    {
        find_endpoint(&self.pulse, mcu_id)
    }

    pub fn has_phase(&self, mcu_id: u32) -> (found: bool)
        ensures
            found == self.spec_has_phase(mcu_id),
    {
        find_endpoint(&self.phase, mcu_id)
    }

    /// Adds a pulse endpoint, or replaces the mcu's.
    pub fn set_pulse(&mut self, endpoint: LaneEndpoint)
        requires
            old(self).wf(),
        ensures
            final(self).wf(),
            final(self).ethercat == old(self).ethercat,
            final(self).phase == old(self).phase,
            forall|other: LaneEndpoint| #[trigger]
                final(self).pulse@.contains(other) <==> other == endpoint || (other.mcu_id
                    != endpoint.mcu_id && old(self).pulse@.contains(other)),
    {
        place_endpoint(&mut self.pulse, endpoint);
    }

    /// Adds a phase endpoint, or replaces the mcu's.
    pub fn set_phase(&mut self, endpoint: LaneEndpoint)
        requires
            old(self).wf(),
        ensures
            final(self).wf(),
            final(self).ethercat == old(self).ethercat,
            final(self).pulse == old(self).pulse,
            forall|other: LaneEndpoint| #[trigger]
                final(self).phase@.contains(other) <==> other == endpoint || (other.mcu_id
                    != endpoint.mcu_id && old(self).phase@.contains(other)),
    {
        place_endpoint(&mut self.phase, endpoint);
    }

    /// The endpoints a buzz goes out through: the EtherCAT fillers asked for, and for
    /// steppers every endpoint that drives some of the axes, pulse before phase and
    /// by increasing mcu.
    pub fn resolve_buzz_routes(&self, specs: &[EndpointBuzzSpec]) -> (outcome: Result<
        Vec<BuzzRoute>,
        String,
    >)
        requires
            self.wf(),
        ensures
            match outcome {
                Ok(routes) => routes_of(specs@, *self) == Ok::<Seq<RouteView>, Seq<char>>(
                    route_views(routes@),
                ),
                Err(refusal) => routes_of(specs@, *self) == Err::<Seq<RouteView>, Seq<char>>(
                    refusal@,
                ),
            },
    {
        let mut routes: Vec<BuzzRoute> = Vec::new();
        let mut index: usize = 0;
        assert(specs@.take(0) =~= Seq::empty());
        assert(route_views(routes@) =~= Seq::empty());
        while index < specs.len()
            invariant
                index <= specs@.len(),
                routes_of(specs@.take(index as int), *self) == Ok::<Seq<RouteView>, Seq<char>>(
                    route_views(routes@),
                ),
            decreases specs@.len() - index,
        {
            let ghost earlier = route_views(routes@);
            let ghost upto = specs@.take(index + 1);
            assert(upto.drop_last() =~= specs@.take(index as int));
            assert(upto.last() == specs@[index as int]);
            proof {
                lemma_first_refusal_stands(specs@, *self, index + 1);
            }
            match specs[index] {
                EndpointBuzzSpec::Ethercat { mcu_handle, slot_mask, sign_mask } => {
                    if slot_mask == 0 {
                        return Err(
                            "resonance_buzz: ethercat route has an empty slot mask".to_owned(),
                        );
                    }
                    if !self.has_ethercat(mcu_handle) {
                        let mut refusal = "resonance_buzz: mcu_handle ".to_owned();
                        append_decimal(&mut refusal, mcu_handle as u64);
                        refusal.append(" has no EtherCAT setpoint filler");
                        return Err(refusal);
                    }
                    routes.push(BuzzRoute::Ethercat { mcu_id: mcu_handle, slot_mask, sign_mask });
                    assert(route_views(routes@) =~= earlier + routes_of_spec(
                        specs@[index as int],
                        *self,
                    )->Ok_0);
                },
                EndpointBuzzSpec::Stepper { axis_mask, sign_mask } => {
                    if axis_mask == 0 {
                        return Err(
                            "resonance_buzz: stepper route has an empty axis mask".to_owned(),
                        );
                    }
                    let selected: usize = routes.len();
                    append_stepper_routes(&mut routes, &self.pulse, axis_mask, sign_mask, false);
                    append_stepper_routes(&mut routes, &self.phase, axis_mask, sign_mask, true);
                    assert(route_views(routes@) =~= earlier + (stepper_routes(
                        self.pulse@,
                        axis_mask,
                        sign_mask,
                        false,
                    ) + stepper_routes(self.phase@, axis_mask, sign_mask, true)));
                    if routes.len() == selected {
                        let mut refusal = "resonance_buzz: axis mask 0x".to_owned();
                        if axis_mask < 16 {
                            refusal.append("0");
                        }
                        append_hexadecimal(&mut refusal, axis_mask as u64);
                        refusal.append(" selects no pulse or phase endpoint");
                        assert(refusal@ =~= no_endpoint_text(axis_mask));
                        assert(earlier.len() == selected);
                        return Err(refusal);
                    }
                },
            }
            index += 1;
        }
        assert(specs@.take(index as int) =~= specs@);
        Ok(routes)
    }
}

fn find_endpoint(endpoints: &Vec<LaneEndpoint>, mcu_id: u32) -> (found: bool)
    ensures
        found == exists|i: int|
            0 <= i < endpoints@.len() && (#[trigger] endpoints@[i]).mcu_id == mcu_id,
{
    let mut index: usize = 0;
    while index < endpoints.len()
        invariant
            index <= endpoints@.len(),
            forall|i: int| 0 <= i < index ==> (#[trigger] endpoints@[i]).mcu_id != mcu_id,
        decreases endpoints@.len() - index,
    {
        if endpoints[index].mcu_id == mcu_id {
            assert(endpoints@[index as int].mcu_id == mcu_id);
            return true;
        }
        index += 1;
    }
    false
}

fn place_endpoint(endpoints: &mut Vec<LaneEndpoint>, endpoint: LaneEndpoint)
    requires
        listed_by_mcu(old(endpoints)@),
    ensures
        listed_by_mcu(final(endpoints)@),
        forall|other: LaneEndpoint| #[trigger]
            final(endpoints)@.contains(other) <==> other == endpoint || (other.mcu_id
                != endpoint.mcu_id && old(endpoints)@.contains(other)),
{
    let mut place: usize = 0;
    while place < endpoints.len() && endpoints[place].mcu_id < endpoint.mcu_id
        invariant
            place <= endpoints@.len(),
            endpoints@ == old(endpoints)@,
            forall|i: int| 0 <= i < place ==> (#[trigger] endpoints@[i]).mcu_id < endpoint.mcu_id,
        decreases endpoints@.len() - place,
    {
        place += 1;
    }
    if place < endpoints.len() && endpoints[place].mcu_id == endpoint.mcu_id {
        endpoints[place] = endpoint;
        assert forall|other: LaneEndpoint| #[trigger]
            endpoints@.contains(other) <==> other == endpoint || (other.mcu_id != endpoint.mcu_id
                && old(endpoints)@.contains(other)) by {
            assert(endpoints@[place as int] == endpoint);
            if old(endpoints)@.contains(other) && other.mcu_id != endpoint.mcu_id {
                let i = choose|i: int| 0 <= i < old(endpoints)@.len() && old(endpoints)@[i]
                    == other;
                assert(endpoints@[i] == other);
            }
            if endpoints@.contains(other) && other != endpoint {
                let i = choose|i: int| 0 <= i < endpoints@.len() && endpoints@[i] == other;
                assert(old(endpoints)@[i] == other);
            }
        }
    } else {
        endpoints.insert(place, endpoint);
        assert forall|other: LaneEndpoint| #[trigger]
            endpoints@.contains(other) <==> other == endpoint || (other.mcu_id != endpoint.mcu_id
                && old(endpoints)@.contains(other)) by {
            assert(endpoints@[place as int] == endpoint);
            if old(endpoints)@.contains(other) {
                let i = choose|i: int| 0 <= i < old(endpoints)@.len() && old(endpoints)@[i]
                    == other;
                if i < place {
                    assert(endpoints@[i] == other);
                } else {
                    assert(endpoints@[i + 1] == other);
                }
            }
            if endpoints@.contains(other) && other != endpoint {
                let i = choose|i: int| 0 <= i < endpoints@.len() && endpoints@[i] == other;
                if i < place {
                    assert(old(endpoints)@[i] == other);
                } else {
                    assert(old(endpoints)@[i - 1] == other);
                }
            }
        }
    }
}

fn append_stepper_routes(
    routes: &mut Vec<BuzzRoute>,
    endpoints: &Vec<LaneEndpoint>,
    axis_mask: u8,
    sign_mask: u8,
    phase: bool,
)
    ensures
        route_views(final(routes)@) == route_views(old(routes)@) + stepper_routes(
            endpoints@,
            axis_mask,
            sign_mask,
            phase,
        ),
        final(routes)@.len() >= old(routes)@.len(),
{
    let ghost before = route_views(routes@);
    let ghost drives = |endpoint: LaneEndpoint| driven_mask(axis_mask, endpoint, phase) != 0;
    let ghost as_route = |endpoint: LaneEndpoint|
        stepper_route(endpoint, axis_mask, sign_mask, phase);
    let mut index: usize = 0;
    assert(endpoints@.take(0).filter(drives) =~= Seq::empty());
    assert(route_views(routes@) =~= before + endpoints@.take(0).filter(drives).map_values(
        as_route,
    ));
    while index < endpoints.len()
        invariant
            index <= endpoints@.len(),
            routes@.len() >= before.len(),
            drives == (|endpoint: LaneEndpoint| driven_mask(axis_mask, endpoint, phase) != 0),
            as_route == (|endpoint: LaneEndpoint|
                stepper_route(endpoint, axis_mask, sign_mask, phase)),
            route_views(routes@) == before + endpoints@.take(index as int).filter(
                drives,
            ).map_values(as_route),
        decreases endpoints@.len() - index,
    {
        let endpoint = endpoints[index];
        let ghost sofar = endpoints@.take(index as int).filter(drives);
        let ghost listed = route_views(routes@);
        assert(endpoints@.take(index + 1) =~= endpoints@.take(index as int).push(endpoint));
        proof {
            endpoints@.take(index as int).lemma_filter_push(endpoint, drives);
        }
        let bits: u8 = driven(axis_mask, endpoint, phase);
        if bits != 0 {
            let route = if phase {
                BuzzRoute::Phase { mcu_id: endpoint.mcu_id, lanes: buzz_lanes(bits, sign_mask) }
            } else {
                BuzzRoute::Pulse { mcu_id: endpoint.mcu_id, axis_mask: bits, sign_mask }
            };
            assert(route@ == as_route(endpoint));
            routes.push(route);
            assert(route_views(routes@) =~= listed.push(as_route(endpoint)));
            assert(before + sofar.push(endpoint).map_values(as_route) =~= listed.push(
                as_route(endpoint),
            ));
        }
        index += 1;
    }
    assert(endpoints@.take(index as int) =~= endpoints@);
}

proof fn lemma_first_refusal_stands(specs: Seq<EndpointBuzzSpec>, map: EndpointMap, count: int)
    requires
        0 <= count <= specs.len(),
    ensures
        routes_of(specs.take(count), map) is Err ==> routes_of(specs, map) == routes_of(
            specs.take(count),
            map,
        ),
    decreases specs.len() - count,
{
    if count < specs.len() {
        lemma_first_refusal_stands(specs, map, count + 1);
        assert(specs.take(count + 1).drop_last() =~= specs.take(count));
    } else {
        assert(specs.take(count) =~= specs);
    }
}

/// An axis that a mcu drives both ways goes out through exactly one of its modes.
pub proof fn law_axis_is_buzzed_in_one_mode(axis_mask: u8, endpoint: LaneEndpoint, axis: u8)
    requires
        axis < 8,
    ensures
        has_bit(driven_mask(axis_mask, endpoint, true), axis) ==> !has_bit(
            driven_mask(axis_mask, endpoint, false),
            axis,
        ),
        has_bit(axis_mask, axis) && has_bit(endpoint.drives, axis) ==> has_bit(
            driven_mask(axis_mask, endpoint, true),
            axis,
        ) || has_bit(driven_mask(axis_mask, endpoint, false), axis),
{
    let drives = endpoint.drives;
    let mode = endpoint.in_phase_mode;
    assert((axis_mask & drives & mode) & (1u8 << axis) != 0 ==> (axis_mask & drives & !mode) & (1u8
        << axis) == 0) by (bit_vector)
        requires
            axis < 8,
    ;
    assert(axis_mask & (1u8 << axis) != 0 && drives & (1u8 << axis) != 0 ==> (axis_mask & drives
        & mode) & (1u8 << axis) != 0 || (axis_mask & drives & !mode) & (1u8 << axis) != 0)
        by (bit_vector)
        requires
            axis < 8,
    ;
}

/// The lanes of a buzz: one for each set axis and no other, by increasing axis, moving
/// backwards exactly where the axis' sign bit is set.
pub proof fn law_lanes_are_the_set_axes(axis_bits: u8, sign_mask: u8, lanes: Vec<BuzzLane>)
    requires
        call_ensures(buzz_lanes, (axis_bits, sign_mask), lanes),
    ensures
        forall|i: int|
            0 <= i < lanes@.len() ==> (#[trigger] lanes@[i]).axis < 8 && has_bit(axis_bits, lanes@[i].axis),
        forall|i: int|
            0 <= i < lanes@.len() ==> (#[trigger] lanes@[i]).sign == if has_bit(sign_mask, lanes@[i].axis) {
                -1
            } else {
                1int
            },
        forall|i: int, j: int| 0 <= i < j < lanes@.len() ==> lanes@[i].axis < lanes@[j].axis,
        forall|axis: u8|
            axis < 8 && has_bit(axis_bits, axis) ==> #[trigger] has_lane_of(lanes@, axis),
{
    lemma_lanes_of(axis_bits, sign_mask);
}

/// Some lane is the axis'.
pub open spec fn has_lane_of(lanes: Seq<BuzzLane>, axis: u8) -> bool {
    exists|i: int| 0 <= i < lanes.len() && (#[trigger] lanes[i]).axis == axis
}

proof fn lemma_increasing_after_filter(axes: Seq<u8>, keep: spec_fn(u8) -> bool)
    requires
        forall|i: int, j: int| 0 <= i < j < axes.len() ==> axes[i] < axes[j],
    ensures
        forall|i: int, j: int|
            0 <= i < j < axes.filter(keep).len() ==> axes.filter(keep)[i] < axes.filter(keep)[j],
    decreases axes.len(),
{
    broadcast use {Seq::lemma_filter_len, Seq::lemma_filter_contains_rev};

    if axes.len() > 0 {
        let earlier = axes.drop_last();
        lemma_increasing_after_filter(earlier, keep);
        assert(axes =~= earlier.push(axes.last()));
        earlier.lemma_filter_push(axes.last(), keep);
        assert forall|i: int| 0 <= i < earlier.filter(keep).len() implies earlier.filter(keep)[i]
            < axes.last() by {
            assert(earlier.filter(keep).contains(earlier.filter(keep)[i]));
            assert(earlier.contains(earlier.filter(keep)[i]));
        }
    } else {
        assert(axes.filter(keep).len() <= axes.len());
    }
}

proof fn lemma_lanes_of(axis_bits: u8, sign_mask: u8)
    ensures
        forall|i: int|
            0 <= i < lanes_of(axis_bits, sign_mask).len() ==> {
                let lane = #[trigger] lanes_of(axis_bits, sign_mask)[i];
                &&& lane.axis < 8
                &&& has_bit(axis_bits, lane.axis)
                &&& lane.sign == if has_bit(sign_mask, lane.axis) {
                    -1
                } else {
                    1int
                }
            },
        forall|i: int, j: int|
            0 <= i < j < lanes_of(axis_bits, sign_mask).len() ==> (#[trigger] lanes_of(
                axis_bits,
                sign_mask,
            )[i]).axis < (#[trigger] lanes_of(axis_bits, sign_mask)[j]).axis,
        forall|axis: u8|
            axis < 8 && has_bit(axis_bits, axis) ==> #[trigger] has_lane_of(
                lanes_of(axis_bits, sign_mask),
                axis,
            ),
{
    broadcast use {
        Seq::lemma_filter_len,
        Seq::lemma_filter_pred,
        Seq::lemma_filter_contains,
        Seq::lemma_filter_contains_rev,
    };

    let keep = |axis: u8| has_bit(axis_bits, axis);
    let kept = all_axes().filter(keep);
    let lanes = lanes_of(axis_bits, sign_mask);
    lemma_increasing_after_filter(all_axes(), keep);
    assert forall|i: int| 0 <= i < lanes.len() implies lanes[i] == lane_of(kept[i], sign_mask)
        && kept[i] < 8 && has_bit(axis_bits, kept[i]) by {
        assert(kept.contains(kept[i]));
        assert(all_axes().contains(kept[i]));
    }
    assert forall|axis: u8| axis < 8 && has_bit(axis_bits, axis) implies #[trigger] has_lane_of(
        lanes,
        axis,
    ) by {
        assert(all_axes()[axis as int] == axis);
        assert(all_axes().contains(axis));
        assert(keep(axis));
        assert(kept.contains(axis));
        let i = choose|i: int| 0 <= i < kept.len() && kept[i] == axis;
        assert(lanes[i].axis == axis);
    }
}

/// The endpoint drives the axis in the mode asked for.
pub open spec fn drives_in(endpoint: LaneEndpoint, axis: u8, phase: bool) -> bool {
    has_bit(endpoint.drives, axis) && (has_bit(endpoint.in_phase_mode, axis)) == phase
}

/// An endpoint's share of a buzz: of the axes asked for, those it drives in that mode.
pub proof fn law_share_is_what_the_endpoint_drives(
    axis_mask: u8,
    endpoint: LaneEndpoint,
    phase: bool,
)
    ensures
        forall|axis: u8|
            axis < 8 ==> (#[trigger] has_bit(driven_mask(axis_mask, endpoint, phase), axis)
                <==> has_bit(axis_mask, axis) && drives_in(endpoint, axis, phase)),
        (forall|axis: u8|
            axis < 8 && has_bit(axis_mask, axis) ==> !#[trigger] drives_in(
                endpoint,
                axis,
                phase,
            )) ==> driven_mask(axis_mask, endpoint, phase) == 0,
{
    let drives = endpoint.drives;
    let mode = endpoint.in_phase_mode;
    let mask = driven_mask(axis_mask, endpoint, phase);
    assert forall|axis: u8| axis < 8 implies (#[trigger] has_bit(mask, axis) <==> has_bit(
        axis_mask,
        axis,
    ) && drives_in(endpoint, axis, phase)) by {
        assert((axis_mask & drives & mode) & (1u8 << axis) != 0 <==> (axis_mask & (1u8 << axis)
            != 0 && drives & (1u8 << axis) != 0 && mode & (1u8 << axis) != 0)) by (bit_vector)
            requires
                axis < 8,
        ;
        assert((axis_mask & drives & !mode) & (1u8 << axis) != 0 <==> (axis_mask & (1u8 << axis)
            != 0 && drives & (1u8 << axis) != 0 && mode & (1u8 << axis) == 0)) by (bit_vector)
            requires
                axis < 8,
        ;
    }
    if forall|axis: u8|
        axis < 8 && has_bit(axis_mask, axis) ==> !#[trigger] drives_in(
            endpoint,
            axis,
            phase,
        ) {
        assert forall|axis: u8| axis < 8 implies !has_bit(mask, axis) by {
            if has_bit(mask, axis) {
                assert(drives_in(endpoint, axis, phase));
            }
        }
        let none = LaneEndpoint { mcu_id: 0, drives: 0, in_phase_mode: 0 };
        assert forall|axis: u8| axis < 8 implies (#[trigger] has_bit(mask, axis) == (has_bit(
            0,
            axis,
        ) && has_bit(none.drives, axis) && has_bit(none.in_phase_mode, axis) == false)) by {
            lemma_no_bit_of_zero(axis);
        }
        lemma_driven_bits_are_the_mask(mask, 0, none, false);
        assert(0u8 & 0u8 & !0u8 == 0u8) by (bit_vector);
    }
}

/// The route is the endpoint's: its mcu, and the axes of the mask that it drives in the
/// route's mode, with the signs asked for.
pub open spec fn routes_through(
    route: RouteView,
    endpoint: LaneEndpoint,
    axis_mask: u8,
    sign_mask: u8,
) -> bool {
    match route {
        RouteView::Ethercat { .. } => false,
        RouteView::Pulse { mcu_id, axis_mask: bits, sign_mask: signs } => {
            &&& mcu_id == endpoint.mcu_id
            &&& signs == sign_mask
            &&& forall|axis: u8|
                axis < 8 ==> (#[trigger] has_bit(bits, axis) <==> has_bit(axis_mask, axis)
                    && drives_in(endpoint, axis, false))
        },
        RouteView::Phase { mcu_id, lanes } => {
            &&& mcu_id == endpoint.mcu_id
            &&& forall|axis: u8|
                axis < 8 ==> (#[trigger] has_lane_of(lanes, axis) <==> has_bit(axis_mask, axis)
                    && drives_in(endpoint, axis, true))
            &&& forall|i: int|
                0 <= i < lanes.len() ==> (#[trigger] lanes[i]).axis < 8 && lanes[i].sign
                    == if has_bit(sign_mask, lanes[i].axis) {
                    -1
                } else {
                    1int
                }
            &&& forall|i: int, j: int| 0 <= i < j < lanes.len() ==> lanes[i].axis < lanes[j].axis
        },
    }
}

/// The endpoint drives some axis of the mask in this mode.
pub open spec fn takes_part(endpoint: LaneEndpoint, axis_mask: u8, phase: bool) -> bool {
    exists|axis: u8|
        axis < 8 && has_bit(axis_mask, axis) && #[trigger] drives_in(endpoint, axis, phase)
}

proof fn lemma_stepper_route(
    endpoint: LaneEndpoint,
    axis_mask: u8,
    sign_mask: u8,
    phase: bool,
)
    ensures
        routes_through(
            stepper_route(endpoint, axis_mask, sign_mask, phase),
            endpoint,
            axis_mask,
            sign_mask,
        ),
        stepper_route(endpoint, axis_mask, sign_mask, phase) is Phase <==> phase,
        stepper_route(endpoint, axis_mask, sign_mask, phase) is Pulse <==> !phase,
        driven_mask(axis_mask, endpoint, phase) != 0 <==> takes_part(endpoint, axis_mask, phase),
{
    let mask = driven_mask(axis_mask, endpoint, phase);
    law_share_is_what_the_endpoint_drives(axis_mask, endpoint, phase);
    lemma_lanes_of(mask, sign_mask);
    if takes_part(endpoint, axis_mask, phase) {
        let axis = choose|axis: u8|
            axis < 8 && has_bit(axis_mask, axis) && #[trigger] drives_in(
                endpoint,
                axis,
                phase,
            );
        lemma_no_bit_of_zero(axis);
        assert(has_bit(mask, axis));
    }
    if phase {
        let lanes = lanes_of(mask, sign_mask);
        assert forall|axis: u8| axis < 8 implies (#[trigger] has_lane_of(lanes, axis) <==> has_bit(axis_mask, axis) && drives_in(endpoint, axis, true)) by {
            if has_lane_of(lanes, axis) {
                let i = choose|i: int| 0 <= i < lanes.len() && (#[trigger] lanes[i]).axis == axis;
                assert(has_bit(mask, lanes[i].axis));
            }
            assert(has_bit(mask, axis) <==> has_bit(axis_mask, axis) && drives_in(
                endpoint,
                axis,
                true,
            ));
        }
    }
}

proof fn lemma_listing_after_filter(
    endpoints: Seq<LaneEndpoint>,
    keep: spec_fn(LaneEndpoint) -> bool,
)
    requires
        listed_by_mcu(endpoints),
    ensures
        listed_by_mcu(endpoints.filter(keep)),
    decreases endpoints.len(),
{
    broadcast use {Seq::lemma_filter_len, Seq::lemma_filter_contains_rev};

    if endpoints.len() > 0 {
        let earlier = endpoints.drop_last();
        lemma_listing_after_filter(earlier, keep);
        assert(endpoints =~= earlier.push(endpoints.last()));
        earlier.lemma_filter_push(endpoints.last(), keep);
        assert forall|i: int| 0 <= i < earlier.filter(keep).len() implies (#[trigger] earlier.filter(
            keep,
        )[i]).mcu_id < endpoints.last().mcu_id by {
            assert(earlier.filter(keep).contains(earlier.filter(keep)[i]));
            let j = choose|j: int| 0 <= j < earlier.len() && earlier[j] == earlier.filter(keep)[i];
            assert(endpoints[j] == earlier[j]);
        }
    } else {
        assert(endpoints.filter(keep).len() <= endpoints.len());
    }
}

/// The mcu of a stepper route.
pub open spec fn mcu_of_route(route: RouteView) -> u32 {
    match route {
        RouteView::Ethercat { mcu_id, .. } => mcu_id,
        RouteView::Pulse { mcu_id, .. } => mcu_id,
        RouteView::Phase { mcu_id, .. } => mcu_id,
    }
}

/// Every endpoint that drives some of the axes in the mode, and no other, gets one route,
/// by increasing mcu.
pub proof fn law_endpoints_that_take_part_get_a_route(
    endpoints: Seq<LaneEndpoint>,
    axis_mask: u8,
    sign_mask: u8,
    phase: bool,
)
    requires
        listed_by_mcu(endpoints),
    ensures
        forall|k: int|
            0 <= k < stepper_routes(endpoints, axis_mask, sign_mask, phase).len()
                ==> #[trigger] is_of_an_endpoint(
                stepper_routes(endpoints, axis_mask, sign_mask, phase)[k],
                endpoints,
                axis_mask,
                sign_mask,
                phase,
            ),
        forall|i: int|
            0 <= i < endpoints.len() && takes_part(#[trigger] endpoints[i], axis_mask, phase)
                ==> is_routed(
                endpoints[i],
                stepper_routes(endpoints, axis_mask, sign_mask, phase),
                axis_mask,
                sign_mask,
            ),
        forall|k: int, l: int|
            0 <= k < l < stepper_routes(endpoints, axis_mask, sign_mask, phase).len()
                ==> mcu_of_route(
                #[trigger] stepper_routes(endpoints, axis_mask, sign_mask, phase)[k],
            ) < mcu_of_route(#[trigger] stepper_routes(endpoints, axis_mask, sign_mask, phase)[l]),
{
    broadcast use {
        Seq::lemma_filter_len,
        Seq::lemma_filter_pred,
        Seq::lemma_filter_contains,
        Seq::lemma_filter_contains_rev,
    };

    let keep = |endpoint: LaneEndpoint| driven_mask(axis_mask, endpoint, phase) != 0;
    let kept = endpoints.filter(keep);
    let routes = stepper_routes(endpoints, axis_mask, sign_mask, phase);
    lemma_listing_after_filter(endpoints, keep);
    assert forall|k: int| 0 <= k < routes.len() implies #[trigger] is_of_an_endpoint(
        routes[k],
        endpoints,
        axis_mask,
        sign_mask,
        phase,
    ) && mcu_of_route(routes[k]) == kept[k].mcu_id by {
        assert(kept.contains(kept[k]));
        assert(endpoints.contains(kept[k]));
        assert(keep(kept[k]));
        lemma_stepper_route(kept[k], axis_mask, sign_mask, phase);
        let i = choose|i: int| 0 <= i < endpoints.len() && endpoints[i] == kept[k];
        assert(takes_part(endpoints[i], axis_mask, phase));
    }
    assert forall|k: int, l: int| 0 <= k < l < routes.len() implies mcu_of_route(
        #[trigger] routes[k],
    ) < mcu_of_route(#[trigger] routes[l]) by {
        assert(is_of_an_endpoint(routes[k], endpoints, axis_mask, sign_mask, phase));
        assert(is_of_an_endpoint(routes[l], endpoints, axis_mask, sign_mask, phase));
    }
    assert forall|i: int|
        0 <= i < endpoints.len() && takes_part(
            #[trigger] endpoints[i],
            axis_mask,
            phase,
        ) implies is_routed(endpoints[i], routes, axis_mask, sign_mask) by {
        lemma_stepper_route(endpoints[i], axis_mask, sign_mask, phase);
        assert(keep(endpoints[i]));
        assert(endpoints.contains(endpoints[i]));
        assert(kept.contains(endpoints[i]));
        let k = choose|k: int| 0 <= k < kept.len() && kept[k] == endpoints[i];
        assert(routes_through(routes[k], endpoints[i], axis_mask, sign_mask));
    }
}

/// The route goes through some endpoint that takes part, in the mode asked for.
pub open spec fn is_of_an_endpoint(
    route: RouteView,
    endpoints: Seq<LaneEndpoint>,
    axis_mask: u8,
    sign_mask: u8,
    phase: bool,
) -> bool {
    &&& if phase {
        route is Phase
    } else {
        route is Pulse
    }
    &&& exists|i: int|
        0 <= i < endpoints.len() && takes_part(#[trigger] endpoints[i], axis_mask, phase)
            && routes_through(route, endpoints[i], axis_mask, sign_mask)
}

/// Some route goes through the endpoint.
pub open spec fn is_routed(
    endpoint: LaneEndpoint,
    routes: Seq<RouteView>,
    axis_mask: u8,
    sign_mask: u8,
) -> bool {
    exists|k: int|
        0 <= k < routes.len() && routes_through(
            #[trigger] routes[k],
            endpoint,
            axis_mask,
            sign_mask,
        )
}

/// A stepper request reaches its pulse endpoints and after them its phase endpoints. It is
/// refused exactly where the mask is empty or no endpoint takes part.
pub proof fn law_stepper_request_reaches_pulse_and_phase(
    map: EndpointMap,
    axis_mask: u8,
    sign_mask: u8,
)
    requires
        map.wf(),
    ensures
        ({
            let spec = EndpointBuzzSpec::Stepper { axis_mask, sign_mask };
            let pulse = stepper_routes(map.pulse@, axis_mask, sign_mask, false);
            let phase = stepper_routes(map.phase@, axis_mask, sign_mask, true);
            let some_pulse = exists|i: int|
                0 <= i < map.pulse@.len() && takes_part(
                    #[trigger] map.pulse@[i],
                    axis_mask,
                    false,
                );
            let some_phase = exists|i: int|
                0 <= i < map.phase@.len() && takes_part(#[trigger] map.phase@[i], axis_mask, true);
            &&& routes_of_spec(spec, map) is Ok <==> axis_mask != 0 && (some_pulse || some_phase)
            &&& routes_of_spec(spec, map) is Ok ==> routes_of_spec(spec, map)->Ok_0 == pulse + phase
            &&& axis_mask == 0 ==> routes_of_spec(spec, map) == Err::<Seq<RouteView>, Seq<char>>(
                "resonance_buzz: stepper route has an empty axis mask"@,
            )
        }),
{
    let pulse = stepper_routes(map.pulse@, axis_mask, sign_mask, false);
    let phase = stepper_routes(map.phase@, axis_mask, sign_mask, true);
    law_endpoints_that_take_part_get_a_route(map.pulse@, axis_mask, sign_mask, false);
    law_endpoints_that_take_part_get_a_route(map.phase@, axis_mask, sign_mask, true);
    if pulse.len() > 0 {
        assert(is_of_an_endpoint(pulse[0], map.pulse@, axis_mask, sign_mask, false));
    }
    if phase.len() > 0 {
        assert(is_of_an_endpoint(phase[0], map.phase@, axis_mask, sign_mask, true));
    }
}

/// An EtherCAT request reaches the filler it names, with the masks it gives. It is refused
/// exactly where the slots are none or the mcu has no filler.
pub proof fn law_ethercat_request_reaches_its_filler(
    map: EndpointMap,
    mcu_handle: u32,
    slot_mask: u8,
    sign_mask: u8,
)
    ensures
        ({
            let spec = EndpointBuzzSpec::Ethercat { mcu_handle, slot_mask, sign_mask };
            let has_filler = exists|i: int|
                0 <= i < map.ethercat@.len() && map.ethercat@[i] == mcu_handle;
            &&& routes_of_spec(spec, map) is Ok <==> slot_mask != 0 && has_filler
            &&& routes_of_spec(spec, map) is Ok ==> routes_of_spec(spec, map)->Ok_0.len() == 1
                && routes_of_spec(spec, map)->Ok_0[0] == (RouteView::Ethercat {
                mcu_id: mcu_handle,
                slot_mask,
                sign_mask,
            })
        }),
{
}

/// Requests are answered one after the other: the routes of each follow those of the ones
/// before it, and a refused request refuses the whole.
pub proof fn law_requests_are_routed_in_order(
    map: EndpointMap,
    specs: Seq<EndpointBuzzSpec>,
    spec: EndpointBuzzSpec,
)
    ensures
        routes_of(Seq::empty(), map) == Ok::<Seq<RouteView>, Seq<char>>(Seq::empty()),
        routes_of(specs.push(spec), map) is Ok <==> routes_of(specs, map) is Ok && routes_of_spec(
            spec,
            map,
        ) is Ok,
        routes_of(specs.push(spec), map) is Ok ==> {
            let earlier = routes_of(specs, map)->Ok_0;
            let own = routes_of_spec(spec, map)->Ok_0;
            let all = routes_of(specs.push(spec), map)->Ok_0;
            &&& all.len() == earlier.len() + own.len()
            &&& forall|i: int| 0 <= i < earlier.len() ==> all[i] == earlier[i]
            &&& forall|i: int| 0 <= i < own.len() ==> all[earlier.len() + i] == own[i]
        },
        routes_of(specs, map) is Err ==> routes_of(specs.push(spec), map) == routes_of(specs, map),
        routes_of(specs, map) is Ok && routes_of_spec(spec, map) is Err ==> routes_of(
            specs.push(spec),
            map,
        ) == routes_of_spec(spec, map),
{
    assert(specs.push(spec).drop_last() =~= specs);
}

/// Bit `axis` of a mask is its binary digit at that place.
pub proof fn law_bit_is_the_binary_digit(mask: u8, axis: u8)
    requires
        axis < 8,
    ensures
        has_bit(mask, axis) <==> (mask >> axis) % 2 == 1,
{
    assert((mask & (1u8 << axis) != 0) == ((mask >> axis) % 2 == 1)) by (bit_vector)
        requires
            axis < 8,
    ;
}

/// An axis is in the answer exactly where the mask names it and it is accepted.
pub proof fn law_accepted_axes_of_the_mask_stay<F: Fn(u8) -> bool>(
    axis_mask: u8,
    keep: F,
    bits: u8,
    axis: u8,
)
    requires
        axis < 8,
        call_ensures(buzz_axis_bits::<F>, (axis_mask, keep), bits),
        call_ensures(keep, (axis,), true) != call_ensures(keep, (axis,), false),
    ensures
        has_bit(bits, axis) <==> has_bit(axis_mask, axis) && call_ensures(keep, (axis,), true),
{
}

/// An endpoint is found by its mcu where one is placed; placing one replaces what stood for its
/// mcu on its own transport, and nothing else.
pub proof fn law_placed_endpoint_is_found(
    asked: EndpointMap,
    mcu_id: u32,
    has_ethercat: bool,
    has_pulse: bool,
    has_phase: bool,
    pulse: &mut EndpointMap,
    phase: &mut EndpointMap,
    endpoint: LaneEndpoint,
    other: LaneEndpoint,
)
    requires
        old(pulse).wf(),
        old(phase).wf(),
        call_ensures(EndpointMap::has_ethercat, (&asked, mcu_id), has_ethercat),
        call_ensures(EndpointMap::has_pulse, (&asked, mcu_id), has_pulse),
        call_ensures(EndpointMap::has_phase, (&asked, mcu_id), has_phase),
        call_ensures(EndpointMap::set_pulse, (pulse, endpoint), ()),
        call_ensures(EndpointMap::set_phase, (phase, endpoint), ()),
    ensures
        has_ethercat <==> asked.ethercat@.contains(mcu_id),
        has_pulse <==> exists|i: int|
            0 <= i < asked.pulse@.len() && (#[trigger] asked.pulse@[i]).mcu_id == mcu_id,
        has_phase <==> exists|i: int|
            0 <= i < asked.phase@.len() && (#[trigger] asked.phase@[i]).mcu_id == mcu_id,
        final(pulse).pulse@.contains(endpoint),
        final(phase).phase@.contains(endpoint),
        other.mcu_id != endpoint.mcu_id ==> (final(pulse).pulse@.contains(other) <==> old(pulse).pulse@.contains(other)),
        other.mcu_id == endpoint.mcu_id && other != endpoint ==> !final(pulse).pulse@.contains(
            other,
        ) && !final(phase).phase@.contains(other),
        other.mcu_id != endpoint.mcu_id ==> (final(phase).phase@.contains(other) <==> old(phase).phase@.contains(other)),
        final(pulse).phase == old(pulse).phase && final(pulse).ethercat == old(pulse).ethercat,
        final(phase).pulse == old(phase).pulse && final(phase).ethercat == old(phase).ethercat,
{
}

} // verus!
