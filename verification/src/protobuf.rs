//! What protobuf bytes are made of: numbers, the keys of fields, and fields that nobody knows and that
//! are skipped.
//!
//! Numbers are read and written by `prost`. Keys and skipped fields are this module's grammar: `prost`
//! tells the cause of a failure only in words, and its `skip_field` cannot be told how many levels are
//! left inside a nested message, since only `prost` itself can lower the count of a `DecodeContext`.

use vstd::prelude::*;
use vstd::slice::slice_subrange;

use crate::text::{decimal, push_decimal, push_text};

verus! {

/// A number in groups of seven bits, the lowest first; every byte but the last has its high bit
/// set.
pub open spec fn varint(value: nat) -> Seq<u8>
    decreases value,
{
    if value < 128 {
        seq![value as u8]
    } else {
        seq![(value % 128 + 128) as u8] + varint(value / 128)
    }
}

/// The number at the front of `bytes` and how many bytes it takes, where `count` bytes of it were
/// read before: at most ten bytes, and no more than 64 bits.
pub open spec fn read_varint(bytes: Seq<u8>, count: nat) -> Option<(nat, nat)>
    decreases bytes.len(),
{
    if bytes.len() == 0 || count >= 10 {
        None
    } else if bytes[0] < 128 {
        if count == 9 && bytes[0] >= 2 {
            None
        } else {
            Some((bytes[0] as nat, 1))
        }
    } else {
        match read_varint(bytes.skip(1), count + 1) {
            Some((value, used)) => Some(((bytes[0] - 128) as nat + 128 * value, used + 1)),
            None => None,
        }
    }
}

/// `prost::encoding::encode_varint` appends the number in groups of seven bits.
#[verifier::external_body]
pub(crate) fn write_varint(value: u64, bytes: &mut Vec<u8>)
    ensures
        final(bytes)@ == old(bytes)@ + varint(value as nat),
{
    prost::encoding::encode_varint(value, bytes);
}

/// `prost::encoding::decode_varint` reads a number of at most ten bytes and 64 bits; the second
/// part of the result is how many bytes it leaves.
#[verifier::external_body]
pub(crate) fn take_varint(bytes: &[u8]) -> (taken: Option<(u64, usize)>)
    ensures
        match taken {
            Some(pair) => pair.1 <= bytes@.len() && read_varint(bytes@, 0) == Some(
                (pair.0 as nat, (bytes@.len() - pair.1) as nat),
            ),
            None => read_varint(bytes@, 0) is None,
        },
{
    let mut rest = bytes;
    prost::encoding::decode_varint(&mut rest).ok().map(|value| (value, rest.len()))
}

/// What reading gives of what was written: the number, and all of its bytes.
pub proof fn varint_reads_back(value: nat, rest: Seq<u8>, count: nat)
    requires
        count < 10,
        fits(value, count),
    ensures
        read_varint(varint(value) + rest, count) == Some((value, varint(value).len())),
        varint(value).len() >= 1,
    decreases value,
{
    let bytes = varint(value) + rest;
    if value < 128 {
    } else {
        assert(bytes.skip(1) =~= varint(value / 128) + rest);
        assert(fits(value / 128, count + 1));
        varint_reads_back(value / 128, rest, count + 1);
        assert(value == value % 128 + 128 * (value / 128));
    }
}

/// Whether a number fits into what remains of ten groups after `count` of them.
pub open spec fn fits(value: nat, count: nat) -> bool
    decreases 10 - count,
{
    if count >= 10 {
        false
    } else if count == 9 {
        value < 2
    } else {
        value < 128 || fits(value / 128, count + 1)
    }
}

/// A number of 64 bits fits into ten groups.
pub proof fn u64_fits(value: u64)
    ensures
        fits(value as nat, 0),
{
    reveal_with_fuel(fits, 11);
    let v = value as nat;
    assert(v / 128 / 128 / 128 / 128 / 128 / 128 / 128 / 128 / 128 < 2) by (nonlinear_arith)
        requires
            v <= 0xffff_ffff_ffff_ffff,
    ;
}

/// Numbers at the front of bytes take some of the bytes, and no more than there are.
pub proof fn varint_bounds(bytes: Seq<u8>, count: nat)
    ensures
        read_varint(bytes, count) matches Some(pair) ==> 1 <= pair.1 <= bytes.len(),
    decreases bytes.len(),
{
    if bytes.len() > 0 && count < 10 && bytes[0] >= 128 {
        varint_bounds(bytes.skip(1), count + 1);
    }
}

/// Why bytes are no message.
#[derive(Clone, Copy, Debug, PartialEq, Eq, Structural)]
pub enum Cause {
    /// A number does not end, or is too large.
    Number,
    /// The key of a field is too large.
    Key(u64),
    /// A field is of no known kind.
    Kind(u64),
    /// The tag of a field is zero.
    Tag,
    /// A field is of another kind than it should be.
    OtherKind { actual: u64, expected: u64 },
    /// The bytes end too early.
    Underflow,
    /// A message is longer than its length says.
    Exceeded,
    /// A group ends that did not begin.
    EndGroup,
    /// A text is not UTF-8.
    Text,
    /// Messages and groups are nested too deeply.
    Depth,
}

/// What a kind of field is called.
pub open spec fn kind_name(kind: u64) -> Seq<char> {
    if kind == 0 {
        "Varint"@
    } else if kind == 1 {
        "SixtyFourBit"@
    } else if kind == 2 {
        "LengthDelimited"@
    } else if kind == 3 {
        "StartGroup"@
    } else if kind == 4 {
        "EndGroup"@
    } else {
        "ThirtyTwoBit"@
    }
}

/// The text of a cause.
pub open spec fn cause_text(cause: Cause) -> Seq<char> {
    match cause {
        Cause::Number => "invalid varint"@,
        Cause::Key(key) => "invalid key value: "@ + decimal(key as nat),
        Cause::Kind(kind) => "invalid wire type value: "@ + decimal(kind as nat),
        Cause::Tag => "invalid tag value: 0"@,
        Cause::OtherKind { actual, expected } => "invalid wire type: "@ + kind_name(actual)
            + " (expected "@ + kind_name(expected) + ")"@,
        Cause::Underflow => "buffer underflow"@,
        Cause::Exceeded => "delimited length exceeded"@,
        Cause::EndGroup => "unexpected end group tag"@,
        Cause::Text => "invalid string value: data is not UTF-8 encoded"@,
        Cause::Depth => "recursion limit reached"@,
    }
}

fn name_of_kind(kind: u64) -> (name: &'static str)
    ensures
        name@ == kind_name(kind),
{
    if kind == 0 {
        "Varint"
    } else if kind == 1 {
        "SixtyFourBit"
    } else if kind == 2 {
        "LengthDelimited"
    } else if kind == 3 {
        "StartGroup"
    } else if kind == 4 {
        "EndGroup"
    } else {
        "ThirtyTwoBit"
    }
}

impl Cause {
    /// The text of the cause.
    pub fn text(self) -> (text: String)
        ensures
            text@ == cause_text(self),
    {
        match self {
            Cause::Number => "invalid varint".to_owned(),
            Cause::Key(key) => {
                let mut text: String = "invalid key value: ".to_owned();
                push_decimal(&mut text, key);
                text
            },
            Cause::Kind(kind) => {
                let mut text: String = "invalid wire type value: ".to_owned();
                push_decimal(&mut text, kind);
                text
            },
            Cause::Tag => "invalid tag value: 0".to_owned(),
            Cause::OtherKind { actual, expected } => {
                let mut text: String = "invalid wire type: ".to_owned();
                push_text(&mut text, name_of_kind(actual));
                push_text(&mut text, " (expected ");
                push_text(&mut text, name_of_kind(expected));
                push_text(&mut text, ")");
                text
            },
            Cause::Underflow => "buffer underflow".to_owned(),
            Cause::Exceeded => "delimited length exceeded".to_owned(),
            Cause::EndGroup => "unexpected end group tag".to_owned(),
            Cause::Text => "invalid string value: data is not UTF-8 encoded".to_owned(),
            Cause::Depth => "recursion limit reached".to_owned(),
        }
    }
}

/// The key at the front of `bytes`: the tag of a field, its kind, and how many bytes the key takes.
pub open spec fn key_in(bytes: Seq<u8>) -> Result<(u32, u64, nat), Cause> {
    match read_varint(bytes, 0) {
        None => Err(Cause::Number),
        Some((key, used)) => if key > u32::MAX {
            Err(Cause::Key(key as u64))
        } else if key % 8 > 5 {
            Err(Cause::Kind((key % 8) as u64))
        } else if key < 8 {
            Err(Cause::Tag)
        } else {
            Ok(((key / 8) as u32, (key % 8) as u64, used))
        },
    }
}

/// The key at the front of `bytes`, and how many bytes remain behind it.
pub(crate) fn take_key(bytes: &[u8]) -> (taken: Result<(u32, u64, usize), Cause>)
    ensures
        match taken {
            Ok((tag, kind, left)) => left < bytes@.len() && key_in(bytes@) == Ok::<
                (u32, u64, nat),
                Cause,
            >((tag, kind, (bytes@.len() - left) as nat)),
            Err(cause) => key_in(bytes@) == Err::<(u32, u64, nat), Cause>(cause),
        },
{
    proof {
        varint_bounds(bytes@, 0);
    }
    match take_varint(bytes) {
        None => Err(Cause::Number),
        Some((key, left)) => if key > u32::MAX as u64 {
            Err(Cause::Key(key))
        } else if key % 8 > 5 {
            Err(Cause::Kind(key % 8))
        } else if key < 8 {
            Err(Cause::Tag)
        } else {
            Ok(((key / 8) as u32, key % 8, left))
        },
    }
}

/// How deeply messages and groups may be nested.
pub const MAX_DEPTH: u32 = 100;

/// The place of the byte string whose length stands at the front of `bytes`.
pub open spec fn sized(bytes: Seq<u8>) -> Result<(nat, nat), Cause> {
    match read_varint(bytes, 0) {
        None => Err(Cause::Number),
        Some((length, used)) => if used + length > bytes.len() {
            Err(Cause::Underflow)
        } else {
            Ok((used, used + length))
        },
    }
}

/// The place of the byte string whose length stands at the front of `bytes`.
pub(crate) fn take_sized(bytes: &[u8]) -> (taken: Result<(usize, usize), Cause>)
    ensures
        match taken {
            Ok((start, end)) => 1 <= start <= end <= bytes@.len() && sized(bytes@) == Ok::<
                (nat, nat),
                Cause,
            >((start as nat, end as nat)),
            Err(cause) => sized(bytes@) == Err::<(nat, nat), Cause>(cause),
        },
{
    proof {
        varint_bounds(bytes@, 0);
    }
    match take_varint(bytes) {
        None => Err(Cause::Number),
        Some((length, left)) => if length > left as u64 {
            Err(Cause::Underflow)
        } else {
            let start: usize = bytes.len() - left;
            Ok((start, start + length as usize))
        },
    }
}

/// How many bytes remain behind a value that nobody knows, of this kind and under this tag, where
/// `depth` levels are left.
pub open spec fn skipped(kind: u64, tag: u32, bytes: Seq<u8>, depth: nat) -> Result<nat, Cause>
    decreases bytes.len(), 1nat,
{
    if depth == 0 {
        Err(Cause::Depth)
    } else if kind == 0 {
        match read_varint(bytes, 0) {
            Some((_, used)) => Ok((bytes.len() - used) as nat),
            None => Err(Cause::Number),
        }
    } else if kind == 1 {
        if bytes.len() < 8 {
            Err(Cause::Underflow)
        } else {
            Ok((bytes.len() - 8) as nat)
        }
    } else if kind == 2 {
        match sized(bytes) {
            Ok((_, end)) => Ok((bytes.len() - end) as nat),
            Err(cause) => Err(cause),
        }
    } else if kind == 3 {
        group_after(tag, bytes, depth)
    } else if kind == 5 {
        if bytes.len() < 4 {
            Err(Cause::Underflow)
        } else {
            Ok((bytes.len() - 4) as nat)
        }
    } else {
        Err(Cause::EndGroup)
    }
}

/// How many bytes remain behind the group under this tag: fields up to the end of the group.
pub open spec fn group_after(tag: u32, bytes: Seq<u8>, depth: nat) -> Result<nat, Cause>
    decreases bytes.len(), 0nat,
{
    match key_in(bytes) {
        Err(cause) => Err(cause),
        Ok((inner, kind, used)) => if kind == 4 {
            if inner == tag {
                Ok((bytes.len() - used) as nat)
            } else {
                Err(Cause::EndGroup)
            }
        } else {
            proof {
                varint_bounds(bytes, 0);
            }
            match skipped(kind, inner, bytes.skip(used as int), (depth - 1) as nat) {
                Err(cause) => Err(cause),
                Ok(left) => if left < bytes.len() {
                    group_after(tag, bytes.skip(bytes.len() - left), depth)
                } else {
                    Err(Cause::EndGroup)
                },
            }
        },
    }
}

/// What remains behind a value that nobody knows.
pub(crate) fn skip_value(kind: u64, tag: u32, bytes: &[u8], depth: u32) -> (left: Result<
    usize,
    Cause,
>)
    ensures
        match left {
            Ok(left) => left <= bytes@.len() && skipped(kind, tag, bytes@, depth as nat) == Ok::<
                nat,
                Cause,
            >(left as nat),
            Err(cause) => skipped(kind, tag, bytes@, depth as nat) == Err::<nat, Cause>(cause),
        },
    decreases bytes@.len(), 1nat,
{
    if depth == 0 {
        return Err(Cause::Depth);
    }
    if kind == 0 {
        match take_varint(bytes) {
            Some((_, left)) => Ok(left),
            None => Err(Cause::Number),
        }
    } else if kind == 1 {
        if bytes.len() < 8 {
            Err(Cause::Underflow)
        } else {
            Ok(bytes.len() - 8)
        }
    } else if kind == 2 {
        match take_sized(bytes) {
            Ok((_, end)) => Ok(bytes.len() - end),
            Err(cause) => Err(cause),
        }
    } else if kind == 3 {
        skip_group(tag, bytes, depth)
    } else if kind == 5 {
        if bytes.len() < 4 {
            Err(Cause::Underflow)
        } else {
            Ok(bytes.len() - 4)
        }
    } else {
        Err(Cause::EndGroup)
    }
}

fn skip_group(tag: u32, bytes: &[u8], depth: u32) -> (left: Result<usize, Cause>)
    requires
        depth > 0,
    ensures
        match left {
            Ok(left) => left <= bytes@.len() && group_after(tag, bytes@, depth as nat) == Ok::<
                nat,
                Cause,
            >(left as nat),
            Err(cause) => group_after(tag, bytes@, depth as nat) == Err::<nat, Cause>(cause),
        },
    decreases bytes@.len(), 0nat,
{
    let mut left: usize = bytes.len();
    assert(bytes@.skip(0) =~= bytes@);
    loop
        invariant
            depth > 0,
            left <= bytes@.len(),
            group_after(tag, bytes@, depth as nat) == group_after(
                tag,
                bytes@.skip(bytes@.len() - left),
                depth as nat,
            ),
        decreases left,
    {
        let here: &[u8] = slice_subrange(bytes, bytes.len() - left, bytes.len());
        assert(here@ =~= bytes@.skip(bytes@.len() - left));
        let (inner, kind, behind): (u32, u64, usize) = match take_key(here) {
            Ok(key) => key,
            Err(cause) => {
                return Err(cause);
            },
        };
        if kind == 4 {
            if inner == tag {
                return Ok(behind);
            }
            return Err(Cause::EndGroup);
        }
        let rest: &[u8] = slice_subrange(here, here.len() - behind, here.len());
        assert(rest@ =~= here@.skip(here@.len() - behind));
        match skip_value(kind, inner, rest, depth - 1) {
            Ok(remaining) => {
                assert(here@.skip(here@.len() - remaining) =~= bytes@.skip(
                    bytes@.len() - remaining,
                ));
                left = remaining;
            },
            Err(cause) => {
                return Err(cause);
            },
        }
    }
}

} // verus!
