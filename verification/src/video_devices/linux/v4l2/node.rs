//! What the paths of a device say: the identity in the name of a symlink, and
//! the index in the name of the node that it resolves to.

use vstd::prelude::*;
use vstd::slice::slice_subrange;
use vstd::string::StringSliceAdditionalSpecFns;
use vstd::utf8::*;

verus! {

/// The tag that OpenCV gives the V4L backend. A handle is the sum of the
/// tag and the index of a node.
pub const CAP_V4L: i32 = 200;

/// The largest index that has a handle.
pub const MAX_NODE_INDEX: i32 = 0x7fff_ffff - 200;

/// The place of the last occurrence of `byte` in `s`.
pub open spec fn last_position(s: Seq<u8>, byte: u8) -> Option<int>
    decreases s.len(),
{
    if s.len() == 0 {
        None
    } else if s.last() == byte {
        Some(s.len() - 1)
    } else {
        last_position(s.drop_last(), byte)
    }
}

/// `last_position` is `p` where `byte` stands at `p` and nowhere after it.
pub proof fn lemma_last_position_found(s: Seq<u8>, byte: u8, p: int)
    requires
        0 <= p < s.len(),
        s[p] == byte,
        forall|j: int| p < j < s.len() ==> s[j] != byte,
    ensures
        last_position(s, byte) == Some(p),
    decreases s.len(),
{
    if s.last() != byte {
        lemma_last_position_found(s.drop_last(), byte, p);
    }
}

/// `last_position` finds nothing where `byte` does not occur.
pub proof fn lemma_last_position_absent(s: Seq<u8>, byte: u8)
    requires
        forall|j: int| 0 <= j < s.len() ==> s[j] != byte,
    ensures
        last_position(s, byte) is None,
    decreases s.len(),
{
    if s.len() > 0 {
        lemma_last_position_absent(s.drop_last(), byte);
    }
}

/// Finds the last occurrence of `byte`.
fn find_last(bytes: &[u8], byte: u8) -> (r: Option<usize>)
    ensures
        match r {
            Some(p) => last_position(bytes@, byte) == Some(p as int) && p < bytes.len()
                && bytes@[p as int] == byte,
            None => last_position(bytes@, byte) is None,
        },
{
    let mut i: usize = bytes.len();
    while i > 0
        invariant
            i <= bytes.len(),
            forall|j: int| i <= j < bytes@.len() ==> bytes@[j] != byte,
        decreases i,
    {
        i -= 1;
        if bytes[i] == byte {
            proof {
                lemma_last_position_found(bytes@, byte, i as int);
            }
            return Some(i);
        }
    }
    proof {
        lemma_last_position_absent(bytes@, byte);
    }
    None
}

/// The path without what stands idle at its end: separators, and `.`
/// segments that follow a separator.
pub open spec fn trimmed(path: Seq<u8>) -> Seq<u8>
    decreases path.len(),
{
    if path.len() > 0 && path.last() == 0x2f {
        trimmed(path.drop_last())
    } else if path.len() >= 2 && path.last() == 0x2e && path[path.len() - 2] == 0x2f {
        trimmed(path.drop_last())
    } else {
        path
    }
}

/// The final segment of a path: of the path without what stands idle at its
/// end, what follows the last `/`, or all of it where it has none.
pub open spec fn final_segment(path: Seq<u8>) -> Seq<u8> {
    let body = trimmed(path);
    match last_position(body, 0x2f) {
        Some(p) => body.subrange(p + 1, body.len() as int),
        None => body,
    }
}

/// The path ends in the name of an entry: its final segment is neither empty
/// nor `.` nor `..`.
pub open spec fn names_entry(path: Seq<u8>) -> bool {
    let segment = final_segment(path);
    &&& segment.len() > 0
    &&& !(segment.len() == 1 && segment[0] == 0x2e)
    &&& !(segment.len() == 2 && segment[0] == 0x2e && segment[1] == 0x2e)
}

/// In valid UTF-8 a character starts right after every ASCII byte.
proof fn lemma_boundary_after_ascii(bytes: Seq<u8>, p: int)
    requires
        valid_utf8(bytes),
        0 <= p < bytes.len(),
        bytes[p] <= 0x7f,
    ensures
        is_char_boundary(bytes, p + 1),
    decreases bytes.len(),
{
    let width = length_of_first_scalar(bytes);
    if p < width {
        reveal_with_fuel(is_char_boundary, 2);
    } else {
        lemma_boundary_after_ascii(pop_first_scalar(bytes), p - width);
    }
}

/// Where the path ends without what stands idle at its end.
fn trimmed_end(bytes: &[u8]) -> (end: usize)
    ensures
        end <= bytes.len(),
        trimmed(bytes@) == bytes@.subrange(0, end as int),
        end < bytes.len() ==> bytes@[end as int] <= 0x7f,
{
    let mut end: usize = bytes.len();
    proof {
        assert(bytes@.subrange(0, end as int) =~= bytes@);
    }
    while end > 0 && (bytes[end - 1] == 0x2f || (end >= 2 && bytes[end - 1] == 0x2e && bytes[end
        - 2] == 0x2f))
        invariant
            end <= bytes.len(),
            trimmed(bytes@) == trimmed(bytes@.subrange(0, end as int)),
            end < bytes.len() ==> bytes@[end as int] <= 0x7f,
        decreases end,
    {
        proof {
            assert(bytes@.subrange(0, end as int).drop_last() =~= bytes@.subrange(0, end - 1));
        }
        end -= 1;
    }
    end
}

/// Where the final segment of `path` starts and ends.
fn final_segment_bounds(path: &str) -> (bounds: (usize, usize))
    ensures
        bounds.0 <= bounds.1 <= path.spec_bytes().len(),
        bounds.0 == 0 || path.spec_bytes()[bounds.0 - 1] == 0x2f,
        is_char_boundary(path.spec_bytes(), bounds.1 as int),
        final_segment(path.spec_bytes()) == path.spec_bytes().subrange(
            bounds.0 as int,
            bounds.1 as int,
        ),
{
    broadcast use
        encode_utf8_valid_utf8,
        is_char_boundary_start_end_of_seq,
        is_char_boundary_iff_not_is_continuation_byte,
    ;

    let bytes = path.as_bytes();
    let end = trimmed_end(bytes);
    let body = slice_subrange(bytes, 0, end);
    proof {
        if end < bytes.len() {
            assert(!is_continuation_byte(bytes@[end as int]));
        }
    }
    match find_last(body, 0x2f) {
        Some(p) => {
            proof {
                assert(body@.subrange(p + 1, end as int) =~= bytes@.subrange(p + 1, end as int));
            }
            (p + 1, end)
        },
        None => {
            (0, end)
        },
    }
}

/// Decides whether the path ends in the name of an entry.
pub fn has_unique_id(entry_path: &str) -> (r: bool)
    ensures
        r == names_entry(entry_path.spec_bytes()),
{
    let bytes = entry_path.as_bytes();
    let (start, end) = final_segment_bounds(entry_path);
    let len = end - start;
    if len == 0 {
        false
    } else if len == 1 {
        bytes[start] != 0x2e
    } else if len == 2 {
        !(bytes[start] == 0x2e && bytes[start + 1] == 0x2e)
    } else {
        true
    }
}

/// The identity of a device: the final segment of the path of its symlink.
pub fn to_unique_id(entry_path: &str) -> (id: String)
    requires
        names_entry(entry_path.spec_bytes()),
    ensures
        encode_utf8(id@) == final_segment(entry_path.spec_bytes()),
        id@ == decode_utf8(final_segment(entry_path.spec_bytes())),
{
    broadcast use
        encode_utf8_decode_utf8,
        encode_utf8_valid_utf8,
        is_char_boundary_start_end_of_seq,
    ;

    let (start, end) = final_segment_bounds(entry_path);
    let (head, _) = entry_path.split_at(end);
    proof {
        if start > 0 {
            lemma_boundary_after_ascii(head.spec_bytes(), start - 1);
        }
    }
    let (_, segment) = head.split_at(start);
    proof {
        assert(segment.spec_bytes() =~= entry_path.spec_bytes().subrange(start as int, end as int));
    }
    segment.to_owned()
}

/// The byte is a decimal digit.
pub open spec fn is_digit(b: u8) -> bool {
    0x30 <= b <= 0x39
}

/// Every byte of `s` is a decimal digit.
pub open spec fn all_digits(s: Seq<u8>) -> bool {
    forall|i: int| 0 <= i < s.len() ==> is_digit(#[trigger] s[i])
}

/// The number that the digits of `s` write in base ten.
pub open spec fn decimal_value(s: Seq<u8>) -> int
    decreases s.len(),
{
    if s.len() == 0 {
        0
    } else {
        10 * decimal_value(s.drop_last()) + (s.last() - 0x30)
    }
}

/// The integer that the digits write, negated on demand; nothing where
/// `digits` is empty or holds anything but digits.
pub open spec fn magnitude(digits: Seq<u8>, negative: bool) -> Option<int> {
    if digits.len() > 0 && all_digits(digits) {
        if negative {
            Some(-decimal_value(digits))
        } else {
            Some(decimal_value(digits))
        }
    } else {
        None
    }
}

/// The integer that `s` writes: an optional sign, then at least one digit.
pub open spec fn signed_decimal(s: Seq<u8>) -> Option<int> {
    if s.len() > 0 && (s[0] == 0x2b || s[0] == 0x2d) {
        magnitude(s.subrange(1, s.len() as int), s[0] == 0x2d)
    } else {
        magnitude(s, false)
    }
}

/// The integer where it can be the index of a node: where it is not
/// negative and leaves room for the tag of the backend.
pub open spec fn narrowed(v: Option<int>) -> Option<i32> {
    match v {
        Some(v) => if 0 <= v <= MAX_NODE_INDEX {
            Some(v as i32)
        } else {
            None
        },
        None => None,
    }
}

/// The index in the path of a device node: the integer written after the
/// last `o` of the path, where there is one and it can be an index.
pub open spec fn node_index(path: Seq<u8>) -> Option<i32> {
    match last_position(path, 0x6f) {
        Some(p) => narrowed(signed_decimal(path.subrange(p + 1, path.len() as int))),
        None => None,
    }
}

/// The handle of the node at `path`: the tag of the backend plus the index
/// of the node.
pub open spec fn node_handle(path: Seq<u8>) -> i32
    recommends
        node_index(path) is Some,
{
    (CAP_V4L + node_index(path)->0) as i32
}

/// Nodes of different index have different handles, and every handle is the
/// tag of the backend or comes after it.
pub proof fn lemma_handles_tell_nodes_apart(a: Seq<u8>, b: Seq<u8>)
    requires
        node_index(a) is Some,
        node_index(b) is Some,
    ensures
        node_handle(a) == CAP_V4L + node_index(a)->0,
        node_handle(a) >= CAP_V4L,
        node_handle(a) == node_handle(b) <==> node_index(a) == node_index(b),
{
}

/// A number written in digits is no smaller than what any of its prefixes
/// writes.
proof fn lemma_decimal_value_grows(s: Seq<u8>, k: int)
    requires
        all_digits(s),
        0 <= k <= s.len(),
    ensures
        0 <= decimal_value(s.subrange(0, k)) <= decimal_value(s),
    decreases s.len(),
{
    if k == s.len() {
        assert(s.subrange(0, k) =~= s);
        if k > 0 {
            lemma_decimal_value_grows(s.drop_last(), k - 1);
        }
    } else {
        assert(s.drop_last().subrange(0, k) =~= s.subrange(0, k));
        lemma_decimal_value_grows(s.drop_last(), k);
    }
}

/// Reads the index in the path of a device node.
pub fn parse_node_index(device_filepath: &str) -> (r: Option<i32>)
    ensures
        r == node_index(device_filepath.spec_bytes()),
{
    let bytes = device_filepath.as_bytes();
    let len = bytes.len();
    let after = match find_last(bytes, 0x6f) {
        Some(p) => p + 1,
        None => {
            return None;
        },
    };
    let ghost text = bytes@.subrange(after as int, len as int);
    let negative = after < len && bytes[after] == 0x2d;
    let signed = after < len && (bytes[after] == 0x2b || bytes[after] == 0x2d);
    let start: usize = if signed {
        after + 1
    } else {
        after
    };
    let ghost digits = bytes@.subrange(start as int, len as int);
    proof {
        if after < len {
            assert(text[0] == bytes@[after as int]);
        }
        if signed {
            assert(text.subrange(1, text.len() as int) =~= digits);
        } else {
            assert(text =~= digits);
        }
        assert(node_index(bytes@) == narrowed(magnitude(digits, negative)));
    }
    if start == len {
        return None;
    }
    let mut value: i64 = 0;
    let mut i: usize = start;
    while i < len
        invariant
            start <= i <= len,
            len == bytes@.len(),
            digits == bytes@.subrange(start as int, len as int),
            node_index(bytes@) == narrowed(magnitude(digits, negative)),
            bytes@ == device_filepath.spec_bytes(),
            all_digits(digits.subrange(0, i - start)),
            value == decimal_value(digits.subrange(0, i - start)),
            0 <= value <= 0x8000_0000,
        decreases len - i,
    {
        let b = bytes[i];
        if b < 0x30 || b > 0x39 {
            proof {
                assert(digits[i - start] == b);
            }
            return None;
        }
        value = value * 10 + (b - 0x30) as i64;
        proof {
            let longer = digits.subrange(0, i + 1 - start);
            assert(longer.drop_last() =~= digits.subrange(0, i - start));
            assert(longer.last() == b);
            assert forall|j: int| 0 <= j < longer.len() implies is_digit(#[trigger] longer[j]) by {
                if j < i - start {
                    assert(digits.subrange(0, i - start)[j] == longer[j]);
                }
            }
        }
        if value > 0x8000_0000 {
            proof {
                if all_digits(digits) {
                    lemma_decimal_value_grows(digits, i + 1 - start);
                }
            }
            return None;
        }
        i += 1;
    }
    proof {
        assert(digits.subrange(0, len - start) =~= digits);
    }
    if negative && value != 0 {
        None
    } else if value <= MAX_NODE_INDEX as i64 {
        Some(value as i32)
    } else {
        None
    }
}

/// Decides whether the path is that of a numbered device node.
pub fn has_opencv_id(device_filepath: &str) -> (r: bool)
    ensures
        r == node_index(device_filepath.spec_bytes()) is Some,
{
    parse_node_index(device_filepath).is_some()
}

/// The handle by which OpenCV opens the node at `device_filepath`: the tag
/// of the backend plus the index of the node.
pub fn to_opencv_id(device_filepath: &str) -> (id: i32)
    requires
        node_index(device_filepath.spec_bytes()) is Some,
    ensures
        id == node_handle(device_filepath.spec_bytes()),
{
    match parse_node_index(device_filepath) {
        Some(index) => CAP_V4L + index,
        None => CAP_V4L,
    }
}

} // verus!
