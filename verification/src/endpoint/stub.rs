//! The drive-off stand-in: its arguments, its object dictionary, and what its mailbox
//! does beyond the dictionary.

use vstd::prelude::*;
use vstd::string::*;

verus! {

pub const STUB_CYCLE_NS: i64 = 1_000_000;

/// Read count of the object dictionary, so a test can assert how many probe and verify
/// round trips a write cost. Answered without counting itself.
pub const STUB_PROBE_COUNTER_INDEX: u16 = 0x5FFF;

/// Writing this object injects a measured torque into the simulated drives, which is
/// what the sensorless endstop trips on.
pub const TXPDO_TORQUE_ACTUAL_INDEX: u16 = 0x6077;

/// One object of the dictionary, by its index and subindex.
#[derive(Debug, Clone, Copy, PartialEq, Eq)]
pub struct DictObject {
    pub index: u16,
    pub subindex: u8,
    pub size: u8,
    pub value: [u8; 4],
    pub read_only: bool,
    pub unsigned_clamp_max: Option<u32>,
}

/// The argument after the first `key`, where there is one.
pub open spec fn value_after(args: Seq<Seq<char>>, key: Seq<char>) -> Option<Seq<char>>
    decreases args.len(),
{
    if args.len() == 0 {
        None
    } else if args[0] == key {
        if args.len() > 1 {
            Some(args[1])
        } else {
            None
        }
    } else {
        value_after(args.skip(1), key)
    }
}

pub fn arg_val(args: &Vec<String>, key: &String) -> (value: Option<String>)
    ensures
        match value {
            Some(text) => value_after(crate::text::texts(args@), key@) == Some(text@),
            None => value_after(crate::text::texts(args@), key@) is None,
        },
{
    let ghost all = crate::text::texts(args@);
    let mut index: usize = 0;
    assert(all.skip(0) =~= all);
    while index < args.len()
        invariant
            index <= args@.len(),
            all == crate::text::texts(args@),
            value_after(all, key@) == value_after(all.skip(index as int), key@),
        decreases args@.len() - index,
    {
        let ghost rest = all.skip(index as int);
        assert(rest[0] == args@[index as int]@);
        assert(rest.skip(1) =~= all.skip(index + 1));
        if args[index] == *key {
            if index + 1 < args.len() {
                assert(rest[1] == args@[index + 1]@);
                return Some(args[index + 1].clone());
            }
            return None;
        }
        index += 1;
    }
    assert(all.skip(index as int).len() == 0);
    None
}

/// The lag of one slot: alternating, so every slot's telemetry differs from its
/// neighbour's.
pub open spec fn slot_lag(slot: int) -> i32 {
    if slot % 2 == 0 {
        40
    } else {
        -25i32
    }
}

/// Neighbouring slots never report the same lag.
pub proof fn law_neighbouring_lags_differ(slot: int)
    ensures
        slot_lag(slot) != slot_lag(slot + 1),
{
}

/// The following errors the stand-in's drives report.
pub fn stub_following_errors(num_slaves: usize) -> (lags: Vec<i32>)
    ensures
        lags@ == Seq::new(num_slaves as nat, |slot: int| slot_lag(slot)),
{
    let mut lags: Vec<i32> = Vec::new();
    let mut slot: usize = 0;
    while slot < num_slaves
        invariant
            slot <= num_slaves,
            lags@ == Seq::new(slot as nat, |slot: int| slot_lag(slot)),
        decreases num_slaves - slot,
    {
        let lag: i32 = if slot % 2 == 0 {
            40
        } else {
            -25
        };
        lags.push(lag);
        assert(lags@ =~= Seq::new((slot + 1) as nat, |slot: int| slot_lag(slot)));
        slot += 1;
    }
    lags
}

/// The objects the stand-in's drives have.
pub fn stub_object_dictionary() -> (objects: Vec<DictObject>)
    ensures
        objects@ == seq![
            DictObject {
                index: 0x2002,
                subindex: 0,
                size: 2,
                value: [100, 0, 0, 0],
                read_only: false,
                unsigned_clamp_max: None,
            },
            DictObject {
                index: 0x2003,
                subindex: 0,
                size: 2,
                value: [0, 0, 0, 0],
                read_only: false,
                unsigned_clamp_max: Some(500),
            },
            DictObject {
                index: 0x2010,
                subindex: 1,
                size: 4,
                value: [0, 0, 0, 0],
                read_only: false,
                unsigned_clamp_max: None,
            },
            DictObject {
                index: 0x6041,
                subindex: 0,
                size: 2,
                value: [0x37, 0x02, 0, 0],
                read_only: true,
                unsigned_clamp_max: None,
            },
            DictObject {
                index: TXPDO_TORQUE_ACTUAL_INDEX,
                subindex: 0,
                size: 2,
                value: [0, 0, 0, 0],
                read_only: false,
                unsigned_clamp_max: None,
            },
        ],
{
    let mut objects: Vec<DictObject> = Vec::new();
    objects.push(
        DictObject {
            index: 0x2002,
            subindex: 0,
            size: 2,
            value: [100, 0, 0, 0],
            read_only: false,
            unsigned_clamp_max: None,
        },
    );
    objects.push(
        DictObject {
            index: 0x2003,
            subindex: 0,
            size: 2,
            value: [0, 0, 0, 0],
            read_only: false,
            unsigned_clamp_max: Some(500),
        },
    );
    objects.push(
        DictObject {
            index: 0x2010,
            subindex: 1,
            size: 4,
            value: [0, 0, 0, 0],
            read_only: false,
            unsigned_clamp_max: None,
        },
    );
    objects.push(
        DictObject {
            index: 0x6041,
            subindex: 0,
            size: 2,
            value: [0x37, 0x02, 0, 0],
            read_only: true,
            unsigned_clamp_max: None,
        },
    );
    objects.push(
        DictObject {
            index: TXPDO_TORQUE_ACTUAL_INDEX,
            subindex: 0,
            size: 2,
            value: [0, 0, 0, 0],
            read_only: false,
            unsigned_clamp_max: None,
        },
    );
    objects
}

/// What a read of the mailbox is answered without the dictionary: the number of reads
/// the dictionary has served, under the probe's index.
pub fn probe_read(index: u16, read_count: u32) -> (answer: Option<(u8, [u8; 4])>)
    ensures
        match answer {
            Some((size, bytes)) => index == STUB_PROBE_COUNTER_INDEX && size == 4 && bytes@
                == crate::protocol::bootstrap::four_bytes(read_count),
            None => index != STUB_PROBE_COUNTER_INDEX,
        },
{
    if index != STUB_PROBE_COUNTER_INDEX {
        return None;
    }
    let bytes: [u8; 4] = [
        (read_count % 256) as u8,
        (read_count / 256 % 256) as u8,
        (read_count / 0x1_0000 % 256) as u8,
        (read_count / 0x100_0000) as u8,
    ];
    assert(bytes@ =~= crate::protocol::bootstrap::four_bytes(read_count));
    Some((4, bytes))
}

/// The number in two bytes, least significant first, with a sign.
pub open spec fn signed_pair(low: u8, high: u8) -> int {
    let raw = low + 256 * high;
    if raw < 0x8000 {
        raw
    } else {
        raw - 0x1_0000
    }
}

/// The torque a write the dictionary has taken injects, if it is one that does.
pub fn injected_torque(index: u16, bytes: &[u8]) -> (torque: Option<i16>)
    requires
        index == TXPDO_TORQUE_ACTUAL_INDEX ==> bytes@.len() >= 2,
    ensures
        match torque {
            Some(tenths) => index == TXPDO_TORQUE_ACTUAL_INDEX && tenths == signed_pair(
                bytes@[0],
                bytes@[1],
            ),
            None => index != TXPDO_TORQUE_ACTUAL_INDEX,
        },
{
    if index != TXPDO_TORQUE_ACTUAL_INDEX {
        return None;
    }
    let raw: i32 = bytes[0] as i32 + 256 * (bytes[1] as i32);
    let torque: i16 = if raw < 0x8000 {
        raw as i16
    } else {
        (raw - 0x1_0000) as i16
    };
    Some(torque)
}

/// An argument is what follows the first occurrence of its key, where something does.
pub proof fn law_argument_follows_its_key(
    args: Vec<String>,
    key: String,
    value: Option<String>,
    first: int,
)
    requires
        call_ensures(arg_val, (&args, &key), value),
        0 <= first <= args@.len(),
        forall|i: int| 0 <= i < first ==> (#[trigger] args@[i])@ != key@,
        first < args@.len() ==> args@[first]@ == key@,
    ensures
        value is Some <==> first + 1 < args@.len(),
        value matches Some(text) ==> text@ == args@[first + 1]@,
{
    lemma_value_after(crate::text::texts(args@), key@, first);
}

proof fn lemma_value_after(args: Seq<Seq<char>>, key: Seq<char>, first: int)
    requires
        0 <= first <= args.len(),
        forall|i: int| 0 <= i < first ==> #[trigger] args[i] != key,
        first < args.len() ==> args[first] == key,
    ensures
        value_after(args, key) == if first + 1 < args.len() {
            Some(args[first + 1])
        } else {
            None
        },
    decreases first,
{
    if first > 0 {
        assert(args[0] != key);
        let rest = args.skip(1);
        assert forall|i: int| 0 <= i < first - 1 implies #[trigger] rest[i] != key by {
            assert(args[i + 1] != key);
        }
        lemma_value_after(rest, key, first - 1);
    }
}

/// Every slot reports a lag: 40 where its number is even, -25 where it is odd.
pub proof fn law_lags_alternate(num_slaves: usize, lags: Vec<i32>, slot: int)
    requires
        call_ensures(stub_following_errors, (num_slaves,), lags),
    ensures
        lags@.len() == num_slaves,
        0 <= slot && 2 * slot < num_slaves ==> lags@[2 * slot] == 40,
        0 <= slot && 2 * slot + 1 < num_slaves ==> lags@[2 * slot + 1] == -25,
{
}

/// The probe is answered under its own index alone, with the count least significant byte
/// first.
pub proof fn law_probe_tells_the_read_count(
    index: u16,
    read_count: u32,
    answer: Option<(u8, [u8; 4])>,
)
    requires
        call_ensures(probe_read, (index, read_count), answer),
    ensures
        answer is Some <==> index == 0x5FFF,
        answer matches Some((size, bytes)) ==> size == 4 && bytes@[0] + 256 * bytes@[1] + 0x1_0000
            * bytes@[2] + 0x100_0000 * bytes@[3] == read_count,
{
    crate::protocol::bootstrap::law_bytes_spell_their_number(read_count);
    if let Some((size, bytes)) = answer {
        assert(bytes@ == crate::protocol::bootstrap::four_bytes(read_count));
    }
}

/// A write to the torque object injects the signed number in its first two bytes, and no
/// other write injects any.
pub proof fn law_torque_is_the_written_number(index: u16, bytes: &[u8], torque: Option<i16>)
    requires
        index == 0x6077 ==> bytes@.len() >= 2,
        call_ensures(injected_torque, (index, bytes), torque),
    ensures
        torque is Some <==> index == 0x6077,
        torque matches Some(tenths) ==> tenths as int % 0x1_0000 == bytes@[0] + 256 * bytes@[1],
{
}

/// The stub's objects are listed by index and subindex, each once, with a size that its value
/// holds; only the status word is read-only.
pub proof fn law_stub_objects_are_listed_once(objects: Vec<DictObject>, i: int, j: int)
    requires
        call_ensures(stub_object_dictionary, (), objects),
        0 <= i < j < objects@.len(),
    ensures
        objects@.len() == 5,
        objects@[i].index < objects@[j].index,
        objects@[i].size == 2 || objects@[i].size == 4,
        objects@[i].size == 4 <==> objects@[i].index == 0x2010,
        objects@[i].read_only <==> objects@[i].index == 0x6041,
        objects@[j].read_only <==> objects@[j].index == 0x6041,
        objects@[i].unsigned_clamp_max is Some <==> objects@[i].index == 0x2003,
        objects@[i].unsigned_clamp_max matches Some(most) ==> most == 500,
        objects@[i].index == 0x2002 ==> objects@[i].value@ == seq![100u8, 0, 0, 0],
        objects@[i].index == 0x6041 ==> objects@[i].value@ == seq![0x37u8, 0x02, 0, 0],
{
    assert([100u8, 0u8, 0u8, 0u8]@ =~= seq![100u8, 0, 0, 0]);
    assert([0x37u8, 0x02u8, 0u8, 0u8]@ =~= seq![0x37u8, 0x02, 0, 0]);
}

} // verus!
