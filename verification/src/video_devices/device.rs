//! The device record, its frame geometries, and their canonical orderings.

use crate::video_devices::order::{
    bytes_le, lemma_lex_le_antisymmetric, lemma_lex_le_reflexive, lemma_lex_le_total,
    lemma_lex_le_transitive, lemma_moved_elements, lemma_moved_filter,
    lemma_permutation_has_source, lemma_permutation_keeps_keys_distinct, lemma_permutation_len,
    lex_le, moved,
};
use vstd::prelude::*;
use vstd::utf8::{encode_utf8, encode_utf8_decode_utf8};

verus! {

/// One discovered capture device. A value of this type holds no resource of
/// the operating system.
#[derive(Clone, Debug, PartialEq, Eq)]
pub struct Device {
    /// The reference by which the device is opened later: the tag of the
    /// backend that found the device plus a small index.
    pub opencv_id: i32,
    /// The key that tells devices apart, stable across reconnection.
    pub unique_id: String,
    /// A label for people.
    pub name: String,
    /// The geometries that the device supports.
    pub frame_size_types: Vec<FrameSizeType>,
}

/// What a `Device` holds, as mathematical values.
pub struct DeviceView {
    pub opencv_id: i32,
    pub unique_id: Seq<char>,
    pub name: Seq<char>,
    pub frame_size_types: Seq<FrameSizeType>,
}

impl View for Device {
    type V = DeviceView;

    open spec fn view(&self) -> DeviceView {
        DeviceView {
            opencv_id: self.opencv_id,
            unique_id: self.unique_id@,
            name: self.name@,
            frame_size_types: self.frame_size_types@,
        }
    }
}

/// A frame geometry that a device supports: one exact size, or a range of sizes.
#[derive(Clone, Copy, Debug, PartialEq, Eq, Structural)]
pub enum FrameSizeType {
    Discrete { width: u32, height: u32 },
    Stepwise {
        min_width: u32,
        max_width: u32,
        step_width: u32,
        min_height: u32,
        max_height: u32,
        step_height: u32,
    },
}

/// The area by which geometries are ranked: width times height, taken at the
/// maximum dimensions for a range.
pub open spec fn area(fst: FrameSizeType) -> int {
    match fst {
        FrameSizeType::Discrete { width, height } => width * height,
        FrameSizeType::Stepwise { max_width, max_height, .. } => max_width * max_height,
    }
}

/// Computes the ranking area of a geometry. The product of two 32-bit
/// dimensions always fits in 64 bits.
pub fn frame_area(fst: &FrameSizeType) -> (a: u64)
    ensures
        a == area(*fst),
{
    match fst {
        FrameSizeType::Discrete { width, height } => {
            assert(*width * *height <= 0xffff_ffff * 0xffff_ffff) by (nonlinear_arith)
                requires
                    *width <= 0xffff_ffff,
                    *height <= 0xffff_ffff,
            ;
            (*width as u64) * (*height as u64)
        },
        FrameSizeType::Stepwise { max_width, max_height, .. } => {
            assert(*max_width * *max_height <= 0xffff_ffff * 0xffff_ffff) by (nonlinear_arith)
                requires
                    *max_width <= 0xffff_ffff,
                    *max_height <= 0xffff_ffff,
            ;
            (*max_width as u64) * (*max_height as u64)
        },
    }
}

/// Selects the geometries whose ranking area is `a`.
pub open spec fn of_area(a: int) -> spec_fn(FrameSizeType) -> bool {
    |fst: FrameSizeType| area(fst) == a
}

/// Larger areas come first.
pub open spec fn descending_by_area(s: Seq<FrameSizeType>) -> bool {
    forall|i: int, j: int| 0 <= i < j < s.len() ==> area(s[i]) >= area(s[j])
}

/// Geometries of equal area stand in `after` in the order in which they
/// stand in `before`.
pub open spec fn ties_keep_order(before: Seq<FrameSizeType>, after: Seq<FrameSizeType>) -> bool {
    forall|a: int| #[trigger] before.filter(of_area(a)) == after.filter(of_area(a))
}

/// `after` is `before` ranked: the same geometries, larger areas first, and
/// geometries of equal area in their earlier order.
pub open spec fn ranked(before: Seq<FrameSizeType>, after: Seq<FrameSizeType>) -> bool {
    &&& after.to_multiset() == before.to_multiset()
    &&& descending_by_area(after)
    &&& ties_keep_order(before, after)
}

/// Ranks the geometries by area, largest first. The sort is stable.
pub fn sort_frame_size_types(frame_size_types: &mut Vec<FrameSizeType>)
    ensures
        ranked(old(frame_size_types)@, final(frame_size_types)@),
{
    let ghost initial = frame_size_types@;
    let n = frame_size_types.len();
    let mut i: usize = 0;
    while i < n
        invariant
            i <= n,
            frame_size_types.len() == n,
            frame_size_types@.to_multiset() == initial.to_multiset(),
            descending_by_area(frame_size_types@.subrange(0, i as int)),
            ties_keep_order(initial, frame_size_types@),
        decreases n - i,
    {
        let ghost before = frame_size_types@;
        let current = frame_area(&frame_size_types[i]);
        let mut pos: usize = i;
        while pos > 0 && frame_area(&frame_size_types[pos - 1]) < current
            invariant
                pos <= i < n,
                frame_size_types@ == before,
                before.len() == n,
                current == area(before[i as int]),
                forall|j: int| pos <= j < i ==> area(#[trigger] before[j]) < current,
            decreases pos,
        {
            pos -= 1;
        }
        let moving = frame_size_types.remove(i);
        frame_size_types.insert(pos, moving);
        proof {
            let after = frame_size_types@;
            assert(after == moved(before, i as int, pos as int));
            lemma_moved_elements(before, i as int, pos as int);
            assert forall|a: int| #[trigger] initial.filter(of_area(a)) == after.filter(
                of_area(a),
            ) by {
                lemma_moved_filter(before, i as int, pos as int, of_area(a));
            }
            let head = before.subrange(0, i as int);
            let grown = after.subrange(0, i + 1);
            assert forall|j: int, k: int| 0 <= j < k < i + 1 implies area(#[trigger] grown[j])
                >= area(#[trigger] grown[k]) by {
                if k < pos {
                    assert(area(head[j]) >= area(head[k]));
                } else if k == pos {
                    assert(area(head[j]) >= area(head[pos - 1]));
                } else if j < pos {
                    assert(area(head[j]) >= area(head[k - 1]));
                } else if j == pos {
                    assert(area(before[k - 1]) < current);
                } else {
                    assert(area(head[j - 1]) >= area(head[k - 1]));
                }
            }
        }
        i += 1;
    }
    proof {
        assert(frame_size_types@.subrange(0, n as int) =~= frame_size_types@);
    }
}

/// Ranking keeps a list free of duplicates.
pub proof fn lemma_ranked_no_duplicates(before: Seq<FrameSizeType>, after: Seq<FrameSizeType>)
    requires
        ranked(before, after),
        before.no_duplicates(),
    ensures
        after.no_duplicates(),
{
    before.lemma_multiset_has_no_duplicates();
    after.lemma_multiset_has_no_duplicates_conv();
}

/// Ranking neither drops a geometry nor makes one up.
pub proof fn lemma_ranked_same_geometries(
    before: Seq<FrameSizeType>,
    after: Seq<FrameSizeType>,
    t: FrameSizeType,
)
    requires
        ranked(before, after),
    ensures
        after.contains(t) <==> before.contains(t),
{
    before.to_multiset_ensures();
    after.to_multiset_ensures();
    assert(after.contains(t) <==> after.to_multiset().count(t) > 0);
    assert(before.contains(t) <==> before.to_multiset().count(t) > 0);
}

/// The geometries are as a finished device holds them: none twice, larger
/// areas first.
pub open spec fn well_ranked(types: Seq<FrameSizeType>) -> bool {
    types.no_duplicates() && descending_by_area(types)
}

/// The list `types` with `t` appended, unless `types` holds `t` already.
pub open spec fn added(types: Seq<FrameSizeType>, t: FrameSizeType) -> Seq<FrameSizeType> {
    if types.contains(t) {
        types
    } else {
        types.push(t)
    }
}

/// Adding a geometry keeps a list free of duplicates.
pub proof fn lemma_added_no_duplicates(types: Seq<FrameSizeType>, t: FrameSizeType)
    requires
        types.no_duplicates(),
    ensures
        added(types, t).no_duplicates(),
{
}

/// The list `types` after the geometries of `more` have joined it one by
/// one, each unless it was there.
pub open spec fn joined(types: Seq<FrameSizeType>, more: Seq<FrameSizeType>) -> Seq<FrameSizeType>
    decreases more.len(),
{
    if more.len() == 0 {
        types
    } else {
        joined(added(types, more.first()), more.drop_first())
    }
}

/// Joining two lists one after the other is joining them as one.
pub proof fn lemma_joined_twice(
    types: Seq<FrameSizeType>,
    first: Seq<FrameSizeType>,
    second: Seq<FrameSizeType>,
)
    ensures
        joined(joined(types, first), second) == joined(types, first + second),
    decreases first.len(),
{
    if first.len() == 0 {
        assert(first + second =~= second);
    } else {
        assert((first + second).first() == first.first());
        assert((first + second).drop_first() =~= first.drop_first() + second);
        lemma_joined_twice(added(types, first.first()), first.drop_first(), second);
    }
}

/// A list without duplicates has none after other geometries have joined
/// it, and holds then what it held and what has joined it.
pub proof fn lemma_joined_no_duplicates(types: Seq<FrameSizeType>, more: Seq<FrameSizeType>)
    requires
        types.no_duplicates(),
    ensures
        joined(types, more).no_duplicates(),
        forall|t: FrameSizeType|
            joined(types, more).contains(t) <==> types.contains(t) || more.contains(t),
    decreases more.len(),
{
    if more.len() > 0 {
        let first = more.first();
        let grown = added(types, first);
        lemma_joined_no_duplicates(grown, more.drop_first());
        assert forall|t: FrameSizeType|
            joined(types, more).contains(t) <==> types.contains(t) || more.contains(t) by {
            if !types.contains(first) {
                assert(grown[types.len() as int] == first);
            }
            assert(grown.contains(t) <==> types.contains(t) || t == first) by {
                if grown.contains(t) && !types.contains(t) {
                    let i = choose|i: int| 0 <= i < grown.len() && grown[i] == t;
                    assert(i == types.len());
                }
                if types.contains(t) {
                    let i = choose|i: int| 0 <= i < types.len() && types[i] == t;
                    assert(grown[i] == t);
                }
            }
            assert(more.contains(t) <==> t == first || more.drop_first().contains(t)) by {
                if more.contains(t) {
                    let i = choose|i: int| 0 <= i < more.len() && more[i] == t;
                    if i > 0 {
                        assert(more.drop_first()[i - 1] == t);
                    }
                }
                if more.drop_first().contains(t) {
                    let i = choose|i: int|
                        0 <= i < more.drop_first().len() && more.drop_first()[i] == t;
                    assert(more[i + 1] == t);
                }
                assert(more[0] == first);
            }
        }
    }
}

/// Appends `t` to `types` unless a structurally equal geometry is there
/// already.
pub fn add_frame_size_type(types: &mut Vec<FrameSizeType>, t: FrameSizeType)
    ensures
        final(types)@ == added(old(types)@, t),
{
    let mut i: usize = 0;
    while i < types.len()
        invariant
            i <= types.len(),
            types@ == old(types)@,
            forall|j: int| 0 <= j < i ==> types@[j] != t,
        decreases types.len() - i,
    {
        if types[i] == t {
            return ;
        }
        i += 1;
    }
    types.push(t);
}

/// The bytes by which devices are ordered: the UTF-8 encoding of the
/// identity.
pub open spec fn identity_bytes(device: Device) -> Seq<u8> {
    encode_utf8(device.unique_id@)
}

/// Selects the devices whose identity is `id`.
pub open spec fn of_identity(id: Seq<char>) -> spec_fn(Device) -> bool {
    |device: Device| device.unique_id@ == id
}

/// Identities ascend in lexicographic byte order.
pub open spec fn ascending_by_identity(s: Seq<Device>) -> bool {
    forall|i: int, j: int|
        0 <= i < j < s.len() ==> lex_le(identity_bytes(s[i]), identity_bytes(s[j]))
}

/// Devices of equal identity stand in `after` in the order in which they
/// stand in `before`.
pub open spec fn equals_keep_order(before: Seq<Device>, after: Seq<Device>) -> bool {
    forall|id: Seq<char>| #[trigger] before.filter(of_identity(id)) == after.filter(of_identity(id))
}

/// `after` is `before` put in order: the same devices, identities ascending,
/// and devices of equal identity in their earlier order.
pub open spec fn ordered(before: Seq<Device>, after: Seq<Device>) -> bool {
    &&& after.to_multiset() == before.to_multiset()
    &&& ascending_by_identity(after)
    &&& equals_keep_order(before, after)
}

/// Decides whether the identity `a` comes no later than the identity `b`.
fn identity_le(a: &String, b: &String) -> (r: bool)
    ensures
        r == lex_le(encode_utf8(a@), encode_utf8(b@)),
{
    bytes_le(a.as_str().as_bytes(), b.as_str().as_bytes())
}

/// Puts the devices in ascending order of identity. The sort is stable.
pub fn sort_devices(devices: &mut Vec<Device>)
    ensures
        ordered(old(devices)@, final(devices)@),
{
    let ghost initial = devices@;
    let n = devices.len();
    let mut i: usize = 0;
    while i < n
        invariant
            i <= n,
            devices.len() == n,
            devices@.to_multiset() == initial.to_multiset(),
            ascending_by_identity(devices@.subrange(0, i as int)),
            equals_keep_order(initial, devices@),
        decreases n - i,
    {
        let ghost before = devices@;
        let mut pos: usize = i;
        while pos > 0 && !identity_le(&devices[pos - 1].unique_id, &devices[i].unique_id)
            invariant
                pos <= i < n,
                devices@ == before,
                before.len() == n,
                forall|j: int|
                    pos <= j < i ==> !lex_le(
                        identity_bytes(#[trigger] before[j]),
                        identity_bytes(before[i as int]),
                    ),
            decreases pos,
        {
            pos -= 1;
        }
        let moving = devices.remove(i);
        devices.insert(pos, moving);
        proof {
            let after = devices@;
            let key = identity_bytes(before[i as int]);
            assert(after == moved(before, i as int, pos as int));
            lemma_moved_elements(before, i as int, pos as int);
            assert forall|id: Seq<char>| #[trigger]
                initial.filter(of_identity(id)) == after.filter(of_identity(id)) by {
                lemma_lex_le_reflexive(key);
                lemma_moved_filter(before, i as int, pos as int, of_identity(id));
            }
            let head = before.subrange(0, i as int);
            let grown = after.subrange(0, i + 1);
            assert forall|j: int, k: int| 0 <= j < k < i + 1 implies lex_le(
                identity_bytes(#[trigger] grown[j]),
                identity_bytes(#[trigger] grown[k]),
            ) by {
                if k < pos {
                    assert(lex_le(identity_bytes(head[j]), identity_bytes(head[k])));
                } else if k == pos {
                    if j < pos - 1 {
                        assert(lex_le(identity_bytes(head[j]), identity_bytes(head[pos - 1])));
                        lemma_lex_le_transitive(
                            identity_bytes(before[j]),
                            identity_bytes(before[pos - 1]),
                            key,
                        );
                    }
                } else if j < pos {
                    assert(lex_le(identity_bytes(head[j]), identity_bytes(head[k - 1])));
                } else if j == pos {
                    lemma_lex_le_total(identity_bytes(before[k - 1]), key);
                } else {
                    assert(lex_le(identity_bytes(head[j - 1]), identity_bytes(head[k - 1])));
                }
            }
        }
        i += 1;
    }
    proof {
        assert(devices@.subrange(0, n as int) =~= devices@);
    }
}

/// The handles of the devices, in their order.
pub open spec fn handles(devices: Seq<Device>) -> Seq<i32> {
    devices.map_values(|device: Device| device.opencv_id)
}

/// Every device holds its geometries ranked and once.
pub open spec fn all_well_ranked(devices: Seq<Device>) -> bool {
    forall|i: int| 0 <= i < devices.len() ==> well_ranked((#[trigger] devices[i]).frame_size_types@)
}

/// Ordering changes no device: handles that differ pairwise still do, and
/// geometries that are ranked still are.
pub proof fn lemma_ordered_keeps_devices(before: Seq<Device>, after: Seq<Device>)
    requires
        ordered(before, after),
    ensures
        handles(before).no_duplicates() ==> handles(after).no_duplicates(),
        all_well_ranked(before) ==> all_well_ranked(after),
{
    if handles(before).no_duplicates() {
        lemma_permutation_keeps_keys_distinct(before, after, |device: Device| device.opencv_id);
    }
    if all_well_ranked(before) {
        assert forall|i: int| 0 <= i < after.len() implies well_ranked(
            (#[trigger] after[i]).frame_size_types@,
        ) by {
            let j = lemma_permutation_has_source(before, after, i);
        }
    }
}

/// The identities of the devices, in their order.
pub open spec fn identities(devices: Seq<Device>) -> Seq<Seq<char>> {
    devices.map_values(|device: Device| device.unique_id@)
}

/// Each identity comes strictly before the next.
pub open spec fn strictly_ascending(s: Seq<Device>) -> bool {
    forall|i: int, j: int|
        0 <= i < j < s.len() ==> !lex_le(identity_bytes(s[j]), identity_bytes(s[i]))
}

/// Devices whose identities differ pairwise come out of the ordering with
/// identities that differ pairwise and ascend strictly.
pub proof fn lemma_ordered_distinct_identities(before: Seq<Device>, after: Seq<Device>)
    requires
        ordered(before, after),
        identities(before).no_duplicates(),
    ensures
        identities(after).no_duplicates(),
        strictly_ascending(after),
{
    broadcast use encode_utf8_decode_utf8;

    lemma_permutation_keeps_keys_distinct(before, after, |device: Device| device.unique_id@);
    assert forall|i: int, j: int| 0 <= i < j < after.len() implies !lex_le(
        identity_bytes(after[j]),
        identity_bytes(after[i]),
    ) by {
        if lex_le(identity_bytes(after[j]), identity_bytes(after[i])) {
            lemma_lex_le_antisymmetric(identity_bytes(after[i]), identity_bytes(after[j]));
            assert(identities(after)[i] == after[i].unique_id@);
            assert(identities(after)[j] == after[j].unique_id@);
            assert(decode_utf8_of(after[i]) == decode_utf8_of(after[j]));
        }
    }
}

/// The identity of a device, read back from the bytes that order it.
spec fn decode_utf8_of(device: Device) -> Seq<char> {
    vstd::utf8::decode_utf8(identity_bytes(device))
}

/// Ordering keeps the number of devices.
pub proof fn lemma_ordered_len(before: Seq<Device>, after: Seq<Device>)
    requires
        ordered(before, after),
    ensures
        after.len() == before.len(),
{
    lemma_permutation_len(before, after);
}

/// Every device that comes out of the ordering went into it.
pub proof fn lemma_ordered_has_source(before: Seq<Device>, after: Seq<Device>, i: int) -> (j: int)
    requires
        ordered(before, after),
        0 <= i < after.len(),
    ensures
        0 <= j < before.len(),
        before[j] == after[i],
{
    lemma_permutation_has_source(before, after, i)
}

} // verus!
