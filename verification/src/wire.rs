//! The bytes that peers exchange: protobuf messages.
//!
//! A message is a list of fields, each a number or a byte string under a tag. Fields with the
//! default value are left out; of a field that occurs more than once the last one counts; tags
//! that a message does not know are skipped.

use vstd::prelude::*;
use vstd::slice::slice_subrange;
use vstd::utf8::{decode_utf8, encode_utf8, encode_utf8_decode_utf8, encode_utf8_valid_utf8, valid_utf8};

use crate::bytes::{append, bytes_between, to_vec};
use crate::protobuf::{
    read_varint, skip_value, skipped, take_varint, u64_fits, varint, varint_reads_back, write_varint,
    MAX_DEPTH,
};
use crate::text::text_of_utf8;

verus! {

/// One field of a message.
#[derive(Debug)]
pub enum Field {
    Number { tag: u32, value: u64 },
    Bytes { tag: u32, bytes: Vec<u8> },
    Other { tag: u32 },
}

/// What a field says.
pub enum FieldModel {
    Number { tag: u32, value: u64 },
    Bytes { tag: u32, bytes: Seq<u8> },
    Other { tag: u32 },
}

impl View for Field {
    type V = FieldModel;

    open spec fn view(&self) -> FieldModel {
        match self {
            Field::Number { tag, value } => FieldModel::Number { tag: *tag, value: *value },
            Field::Bytes { tag, bytes } => FieldModel::Bytes { tag: *tag, bytes: bytes@ },
            Field::Other { tag } => FieldModel::Other { tag: *tag },
        }
    }
}

impl FieldModel {
    /// The tag of the field.
    pub open spec fn tag(self) -> u32 {
        match self {
            FieldModel::Number { tag, .. } => tag,
            FieldModel::Bytes { tag, .. } => tag,
            FieldModel::Other { tag } => tag,
        }
    }
}

/// What a list of fields says.
pub open spec fn models(fields: Seq<Field>) -> Seq<FieldModel> {
    Seq::new(fields.len(), |i: int| fields[i]@)
}

/// The bytes of a field.
pub open spec fn field_bytes(field: FieldModel) -> Seq<u8> {
    match field {
        FieldModel::Number { tag, value } => varint(tag as nat * 8) + varint(value as nat),
        FieldModel::Bytes { tag, bytes } => varint(tag as nat * 8 + 2) + varint(bytes.len())
            + bytes,
        FieldModel::Other { tag } => Seq::empty(),
    }
}

/// The bytes of a message.
pub open spec fn encoded(fields: Seq<FieldModel>) -> Seq<u8>
    decreases fields.len(),
{
    if fields.len() == 0 {
        Seq::empty()
    } else {
        encoded(fields.drop_last()) + field_bytes(fields.last())
    }
}

/// The field at the front of `bytes`, and how many bytes remain behind it, where groups may be nested
/// `depth` levels deep.
pub open spec fn first_field(bytes: Seq<u8>, depth: nat) -> Option<(FieldModel, nat)> {
    match read_varint(bytes, 0) {
        None => None,
        Some((key, used)) => if key > u32::MAX || key < 8 {
            None
        } else {
            let tag = (key / 8) as u32;
            let rest = bytes.skip(used as int);
            let kind = key % 8;
            if kind == 0 {
                match read_varint(rest, 0) {
                    Some((value, used)) => Some(
                        (
                            FieldModel::Number { tag, value: value as u64 },
                            (rest.len() - used) as nat,
                        ),
                    ),
                    None => None,
                }
            } else if kind == 1 {
                if rest.len() >= 8 {
                    Some((FieldModel::Other { tag }, (rest.len() - 8) as nat))
                } else {
                    None
                }
            } else if kind == 2 {
                match read_varint(rest, 0) {
                    Some((length, used)) => if used + length <= rest.len() {
                        Some(
                            (
                                FieldModel::Bytes {
                                    tag,
                                    bytes: rest.subrange(used as int, (used + length) as int),
                                },
                                (rest.len() - used - length) as nat,
                            ),
                        )
                    } else {
                        None
                    },
                    None => None,
                }
            } else if kind == 3 {
                match skipped(3, tag, rest, depth) {
                    Ok(left) => Some((FieldModel::Other { tag }, left)),
                    Err(_) => None,
                }
            } else if kind == 5 {
                if rest.len() >= 4 {
                    Some((FieldModel::Other { tag }, (rest.len() - 4) as nat))
                } else {
                    None
                }
            } else {
                None
            }
        },
    }
}

/// The fields of a message; `None` where the bytes are not a message.
pub open spec fn parsed(bytes: Seq<u8>, depth: nat) -> Option<Seq<FieldModel>>
    decreases bytes.len(),
{
    if bytes.len() == 0 {
        Some(Seq::empty())
    } else {
        match first_field(bytes, depth) {
            Some((field, left)) => if left < bytes.len() {
                match parsed(bytes.skip(bytes.len() - left), depth) {
                    Some(fields) => Some(seq![field] + fields),
                    None => None,
                }
            } else {
                None
            },
            None => None,
        }
    }
}

/// Whether every field has a tag that a message can have and a value.
pub open spec fn writable(fields: Seq<FieldModel>) -> bool {
    forall|i: int|
        0 <= i < fields.len() ==> 1 <= (#[trigger] fields[i]).tag() < 0x2000_0000 && !(fields[i] is Other)
            && (fields[i] matches FieldModel::Bytes { bytes, .. } ==> bytes.len() <= u64::MAX)
}

proof fn encoded_concat(a: Seq<FieldModel>, b: Seq<FieldModel>)
    ensures
        encoded(a + b) == encoded(a) + encoded(b),
    decreases b.len(),
{
    if b.len() == 0 {
        assert(a + b =~= a);
        assert(encoded(a) + encoded(b) =~= encoded(a));
    } else {
        assert((a + b).drop_last() =~= a + b.drop_last());
        encoded_concat(a, b.drop_last());
        assert(encoded(a + b) =~= encoded(a) + encoded(b));
    }
}

proof fn field_reads_back(field: FieldModel, rest: Seq<u8>, depth: nat)
    requires
        1 <= field.tag() < 0x2000_0000,
        !(field is Other),
        field matches FieldModel::Bytes { bytes, .. } ==> bytes.len() <= u64::MAX,
    ensures
        first_field(field_bytes(field) + rest, depth) == Some((field, rest.len())),
        field_bytes(field).len() > 0,
{
    let all = field_bytes(field) + rest;
    match field {
        FieldModel::Number { tag, value } => {
            let key = tag as nat * 8;
            let tail = varint(value as nat) + rest;
            assert(all =~= varint(key) + tail);
            u64_fits(key as u64);
            u64_fits(value);
            varint_reads_back(key, tail, 0);
            varint_reads_back(value as nat, rest, 0);
            assert(all.skip(varint(key).len() as int) =~= tail);
        },
        FieldModel::Bytes { tag, bytes } => {
            let key = tag as nat * 8 + 2;
            let tail = varint(bytes.len()) + (bytes + rest);
            assert(all =~= varint(key) + tail);
            u64_fits(key as u64);
            u64_fits(bytes.len() as u64);
            varint_reads_back(key, tail, 0);
            varint_reads_back(bytes.len(), bytes + rest, 0);
            assert(all.skip(varint(key).len() as int) =~= tail);
            let n = varint(bytes.len()).len() as int;
            assert(tail.subrange(n, n + bytes.len()) =~= bytes);
        },
        FieldModel::Other { tag } => {},
    }
}

proof fn fields_read_back_at(fields: Seq<FieldModel>, depth: nat)
    requires
        writable(fields),
    ensures
        parsed(encoded(fields), depth) == Some(fields),
    decreases fields.len(),
{
    if fields.len() == 0 {
        assert(fields =~= Seq::empty());
    } else {
        let first = fields[0];
        let tail = fields.skip(1);
        assert(fields =~= seq![first] + tail);
        encoded_concat(seq![first], tail);
        assert(seq![first].drop_last() =~= Seq::<FieldModel>::empty());
        assert(encoded(seq![first].drop_last()) =~= Seq::<u8>::empty());
        assert(seq![first].last() == first);
        assert(encoded(seq![first]) =~= field_bytes(first));
        let all = encoded(fields);
        assert(all =~= field_bytes(first) + encoded(tail));
        field_reads_back(first, encoded(tail), depth);
        assert(all.skip(all.len() - encoded(tail).len()) =~= encoded(tail));
        assert(writable(tail)) by {
            assert forall|i: int| 0 <= i < tail.len() implies 1 <= (#[trigger] tail[i]).tag()
                < 0x2000_0000 && !(tail[i] is Other) && (tail[i] matches FieldModel::Bytes {
                bytes,
                ..
            } ==> bytes.len() <= u64::MAX) by {
                assert(tail[i] == fields[i + 1]);
            }
        }
        fields_read_back_at(tail, depth);
    }
}

/// Reading the fields of what was written gives the fields.
pub proof fn fields_read_back(fields: Seq<FieldModel>)
    requires
        writable(fields),
    ensures
        forall|depth: nat| #[trigger] parsed(encoded(fields), depth) == Some(fields),
{
    assert forall|depth: nat| #[trigger] parsed(encoded(fields), depth) == Some(fields) by {
        fields_read_back_at(fields, depth);
    }
}

fn take_field(bytes: &[u8], depth: u32) -> (taken: Option<(Field, usize)>)
    ensures
        match taken {
            Some(pair) => pair.1 <= bytes@.len() && first_field(bytes@, depth as nat) == Some(
                (pair.0@, pair.1 as nat),
            ),
            None => first_field(bytes@, depth as nat) is None,
        },
{
    let (key, left): (u64, usize) = match take_varint(bytes) {
        Some(pair) => pair,
        None => {
            return None;
        },
    };
    if key > u32::MAX as u64 || key < 8 {
        return None;
    }
    let tag: u32 = (key / 8) as u32;
    let kind: u64 = key % 8;
    let rest: &[u8] = slice_subrange(bytes, bytes.len() - left, bytes.len());
    assert(rest@ =~= bytes@.skip(bytes@.len() - left));
    if kind == 0 {
        match take_varint(rest) {
            Some((value, left)) => Some((Field::Number { tag, value }, left)),
            None => None,
        }
    } else if kind == 1 {
        if rest.len() >= 8 {
            Some((Field::Other { tag }, rest.len() - 8))
        } else {
            None
        }
    } else if kind == 2 {
        match take_varint(rest) {
            Some((length, left)) => if length <= left as u64 {
                let start: usize = rest.len() - left;
                let end: usize = start + length as usize;
                let part: Vec<u8> = bytes_between(rest, start, end);
                Some((Field::Bytes { tag, bytes: part }, rest.len() - end))
            } else {
                None
            },
            None => None,
        }
    } else if kind == 3 {
        match skip_value(3, tag, rest, depth) {
            Ok(left) => Some((Field::Other { tag }, left)),
            Err(_) => None,
        }
    } else if kind == 5 {
        if rest.len() >= 4 {
            Some((Field::Other { tag }, rest.len() - 4))
        } else {
            None
        }
    } else {
        None
    }
}

/// The fields of a message.
pub fn parse_fields(bytes: &[u8], depth: u32) -> (fields: Option<Vec<Field>>)
    ensures
        match fields {
            Some(fields) => parsed(bytes@, depth as nat) == Some(models(fields@)),
            None => parsed(bytes@, depth as nat) is None,
        },
{
    let mut fields: Vec<Field> = Vec::new();
    let mut left: usize = bytes.len();
    proof {
        assert(bytes@.skip(0) =~= bytes@);
        assert(models(fields@) =~= Seq::empty());
        if parsed(bytes@, depth as nat) is Some {
            assert(Seq::<FieldModel>::empty() + parsed(bytes@, depth as nat)->0 =~= parsed(bytes@, depth as nat)->0);
        }
    }
    while left > 0
        invariant
            left <= bytes@.len(),
            parsed(bytes@, depth as nat) == (match parsed(bytes@.skip(bytes@.len() - left), depth as nat) {
                Some(rest) => Some(models(fields@) + rest),
                None => None,
            }),
        decreases left,
    {
        let rest: &[u8] = slice_subrange(bytes, bytes.len() - left, bytes.len());
        assert(rest@ =~= bytes@.skip(bytes@.len() - left));
        match take_field(rest, depth) {
            Some((field, remaining)) => {
                if remaining >= left {
                    return None;
                }
                let ghost before = models(fields@);
                let ghost model = field@;
                fields.push(field);
                proof {
                    assert(rest@.skip(left - remaining) =~= bytes@.skip(bytes@.len() - remaining));
                    assert(models(fields@) =~= before.push(model));
                    match parsed(bytes@.skip(bytes@.len() - remaining), depth as nat) {
                        Some(more) => {
                            assert(before + (seq![model] + more) =~= before.push(model) + more);
                        },
                        None => {},
                    }
                }
                left = remaining;
            },
            None => {
                return None;
            },
        }
    }
    assert(bytes@.skip(bytes@.len() as int) =~= Seq::empty());
    assert(models(fields@) + Seq::empty() =~= models(fields@));
    Some(fields)
}

/// The number under `tag`, 0 where there is none; `None` where another kind of value is there.
pub open spec fn number_at(fields: Seq<FieldModel>, tag: u32) -> Option<u64>
    decreases fields.len(),
{
    if fields.len() == 0 {
        Some(0)
    } else {
        let before = number_at(fields.drop_last(), tag);
        if fields.last().tag() != tag || before is None {
            before
        } else {
            match fields.last() {
                FieldModel::Number { value, .. } => Some(value),
                _ => None,
            }
        }
    }
}

/// The byte string under `tag`, empty where there is none; `None` where another kind of value is
/// there.
pub open spec fn bytes_at(fields: Seq<FieldModel>, tag: u32) -> Option<Seq<u8>>
    decreases fields.len(),
{
    if fields.len() == 0 {
        Some(Seq::empty())
    } else {
        let before = bytes_at(fields.drop_last(), tag);
        if fields.last().tag() != tag || before is None {
            before
        } else {
            match fields.last() {
                FieldModel::Bytes { bytes, .. } => Some(bytes),
                _ => None,
            }
        }
    }
}

/// The text under `tag`, empty where there is none; `None` where another kind of value is there or
/// the bytes are not UTF-8.
pub open spec fn text_at(fields: Seq<FieldModel>, tag: u32) -> Option<Seq<char>>
    decreases fields.len(),
{
    if fields.len() == 0 {
        Some(Seq::empty())
    } else {
        let before = text_at(fields.drop_last(), tag);
        if fields.last().tag() != tag || before is None {
            before
        } else {
            match fields.last() {
                FieldModel::Bytes { bytes, .. } => if valid_utf8(bytes) {
                    Some(decode_utf8(bytes))
                } else {
                    None
                },
                _ => None,
            }
        }
    }
}

fn find_number(fields: &Vec<Field>, tag: u32) -> (found: Option<u64>)
    ensures
        found == number_at(models(fields@), tag),
{
    let mut found: u64 = 0;
    let mut i: usize = 0;
    assert(models(fields@).take(0).len() == 0);
    while i < fields.len()
        invariant
            i <= fields@.len(),
            number_at(models(fields@).take(i as int), tag) == Some(found),
        decreases fields@.len() - i,
    {
        proof {
            step(models(fields@), i as int);
        }
        match &fields[i] {
            Field::Number { tag: here, value } => {
                if *here == tag {
                    found = *value;
                }
            },
            Field::Bytes { tag: here, bytes } => {
                if *here == tag {
                    proof {
                        number_failure_stays(models(fields@), tag, i + 1);
                    }
                    return None;
                }
            },
            Field::Other { tag: here } => {
                if *here == tag {
                    proof {
                        number_failure_stays(models(fields@), tag, i + 1);
                    }
                    return None;
                }
            },
        }
        i += 1;
    }
    assert(models(fields@).take(i as int) =~= models(fields@));
    Some(found)
}

proof fn step(fields: Seq<FieldModel>, i: int)
    requires
        0 <= i < fields.len(),
    ensures
        fields.take(i + 1).drop_last() == fields.take(i),
        fields.take(i + 1).last() == fields[i],
{
    assert(fields.take(i + 1).drop_last() =~= fields.take(i));
}

proof fn number_failure_stays(fields: Seq<FieldModel>, tag: u32, n: int)
    requires
        0 <= n <= fields.len(),
        number_at(fields.take(n), tag) is None,
    ensures
        number_at(fields, tag) is None,
    decreases fields.len() - n,
{
    if n < fields.len() {
        step(fields, n);
        number_failure_stays(fields, tag, n + 1);
    } else {
        assert(fields.take(n) =~= fields);
    }
}

proof fn bytes_failure_stays(fields: Seq<FieldModel>, tag: u32, n: int)
    requires
        0 <= n <= fields.len(),
        bytes_at(fields.take(n), tag) is None,
    ensures
        bytes_at(fields, tag) is None,
    decreases fields.len() - n,
{
    if n < fields.len() {
        step(fields, n);
        bytes_failure_stays(fields, tag, n + 1);
    } else {
        assert(fields.take(n) =~= fields);
    }
}

proof fn text_failure_stays(fields: Seq<FieldModel>, tag: u32, n: int)
    requires
        0 <= n <= fields.len(),
        text_at(fields.take(n), tag) is None,
    ensures
        text_at(fields, tag) is None,
    decreases fields.len() - n,
{
    if n < fields.len() {
        step(fields, n);
        text_failure_stays(fields, tag, n + 1);
    } else {
        assert(fields.take(n) =~= fields);
    }
}

fn find_bytes(fields: &Vec<Field>, tag: u32) -> (found: Option<Vec<u8>>)
    ensures
        match found {
            Some(found) => bytes_at(models(fields@), tag) == Some(found@),
            None => bytes_at(models(fields@), tag) is None,
        },
{
    let mut found: Option<usize> = None;
    let mut i: usize = 0;
    assert(models(fields@).take(0).len() == 0);
    while i < fields.len()
        invariant
            i <= fields@.len(),
            match found {
                Some(at) => at < i && fields@[at as int] is Bytes && bytes_at(
                    models(fields@).take(i as int),
                    tag,
                ) == Some(fields@[at as int]->bytes@),
                None => bytes_at(models(fields@).take(i as int), tag) == Some(Seq::<u8>::empty()),
            },
        decreases fields@.len() - i,
    {
        proof {
            step(models(fields@), i as int);
        }
        match &fields[i] {
            Field::Bytes { tag: here, bytes } => {
                if *here == tag {
                    found = Some(i);
                }
            },
            Field::Number { tag: here, value } => {
                if *here == tag {
                    proof {
                        bytes_failure_stays(models(fields@), tag, i + 1);
                    }
                    return None;
                }
            },
            Field::Other { tag: here } => {
                if *here == tag {
                    proof {
                        bytes_failure_stays(models(fields@), tag, i + 1);
                    }
                    return None;
                }
            },
        }
        i += 1;
    }
    assert(models(fields@).take(i as int) =~= models(fields@));
    match found {
        Some(at) => match &fields[at] {
            Field::Bytes { tag: _, bytes } => Some(to_vec(bytes.as_slice())),
            _ => None,
        },
        None => Some(Vec::new()),
    }
}

fn find_text(fields: &Vec<Field>, tag: u32) -> (found: Option<String>)
    ensures
        match found {
            Some(found) => text_at(models(fields@), tag) == Some(found@),
            None => text_at(models(fields@), tag) is None,
        },
{
    let mut found: String = String::new();
    let mut i: usize = 0;
    assert(models(fields@).take(0).len() == 0);
    while i < fields.len()
        invariant
            i <= fields@.len(),
            text_at(models(fields@).take(i as int), tag) == Some(found@),
        decreases fields@.len() - i,
    {
        proof {
            step(models(fields@), i as int);
        }
        match &fields[i] {
            Field::Bytes { tag: here, bytes } => {
                if *here == tag {
                    match text_of_utf8(to_vec(bytes.as_slice())) {
                        Ok(text) => {
                            found = text;
                        },
                        Err(_) => {
                            proof {
                                text_failure_stays(models(fields@), tag, i + 1);
                            }
                            return None;
                        },
                    }
                }
            },
            Field::Number { tag: here, value } => {
                if *here == tag {
                    proof {
                        text_failure_stays(models(fields@), tag, i + 1);
                    }
                    return None;
                }
            },
            Field::Other { tag: here } => {
                if *here == tag {
                    proof {
                        text_failure_stays(models(fields@), tag, i + 1);
                    }
                    return None;
                }
            },
        }
        i += 1;
    }
    assert(models(fields@).take(i as int) =~= models(fields@));
    Some(found)
}

/// The fields with this byte string behind them; an empty one is left out.
pub open spec fn put_bytes(fields: Seq<FieldModel>, tag: u32, bytes: Seq<u8>) -> Seq<FieldModel> {
    if bytes.len() == 0 {
        fields
    } else {
        fields.push(FieldModel::Bytes { tag, bytes })
    }
}

/// The fields with this number behind them; zero is left out.
pub open spec fn put_number(fields: Seq<FieldModel>, tag: u32, value: u64) -> Seq<FieldModel> {
    if value == 0 {
        fields
    } else {
        fields.push(FieldModel::Number { tag, value })
    }
}

/// The number of a truth value.
pub open spec fn flag(value: bool) -> u64 {
    if value {
        1
    } else {
        0
    }
}

fn flag_number(value: bool) -> (number: u64)
    ensures
        number == flag(value),
{
    if value {
        1
    } else {
        0
    }
}

fn write_bytes(out: &mut Vec<u8>, tag: u32, bytes: &[u8], Ghost(fields): Ghost<Seq<FieldModel>>)
    requires
        1 <= tag < 0x2000_0000,
        old(out)@ == encoded(fields),
    ensures
        final(out)@ == encoded(put_bytes(fields, tag, bytes@)),
{
    if bytes.len() > 0 {
        let ghost field = FieldModel::Bytes { tag, bytes: bytes@ };
        write_varint(tag as u64 * 8 + 2, out);
        write_varint(bytes.len() as u64, out);
        append(out, bytes);
        proof {
            assert(fields.push(field).drop_last() =~= fields);
            assert(out@ =~= encoded(fields) + field_bytes(field));
        }
    }
}

fn write_number(out: &mut Vec<u8>, tag: u32, value: u64, Ghost(fields): Ghost<Seq<FieldModel>>)
    requires
        1 <= tag < 0x2000_0000,
        old(out)@ == encoded(fields),
    ensures
        final(out)@ == encoded(put_number(fields, tag, value)),
{
    if value != 0 {
        let ghost field = FieldModel::Number { tag, value };
        write_varint(tag as u64 * 8, out);
        write_varint(value, out);
        proof {
            assert(fields.push(field).drop_last() =~= fields);
            assert(out@ =~= encoded(fields) + field_bytes(field));
        }
    }
}

broadcast proof fn bytes_behind_bytes(fields: Seq<FieldModel>, tag: u32, bytes: Seq<u8>, at: u32)
    ensures
        #[trigger] bytes_at(put_bytes(fields, tag, bytes), at) == (if at != tag || bytes.len() == 0
            || bytes_at(fields, at) is None {
            bytes_at(fields, at)
        } else {
            Some(bytes)
        }),
{
    let field = FieldModel::Bytes { tag, bytes };
    assert(fields.push(field).drop_last() =~= fields);
}

broadcast proof fn bytes_behind_number(fields: Seq<FieldModel>, tag: u32, value: u64, at: u32)
    requires
        at != tag,
    ensures
        #[trigger] bytes_at(put_number(fields, tag, value), at) == bytes_at(fields, at),
{
    assert(fields.push(FieldModel::Number { tag, value }).drop_last() =~= fields);
}

broadcast proof fn number_behind_number(fields: Seq<FieldModel>, tag: u32, value: u64, at: u32)
    ensures
        #[trigger] number_at(put_number(fields, tag, value), at) == (if at != tag || value == 0
            || number_at(fields, at) is None {
            number_at(fields, at)
        } else {
            Some(value)
        }),
{
    assert(fields.push(FieldModel::Number { tag, value }).drop_last() =~= fields);
}

broadcast proof fn number_behind_bytes(fields: Seq<FieldModel>, tag: u32, bytes: Seq<u8>, at: u32)
    requires
        at != tag,
    ensures
        #[trigger] number_at(put_bytes(fields, tag, bytes), at) == number_at(fields, at),
{
    assert(fields.push(FieldModel::Bytes { tag, bytes }).drop_last() =~= fields);
}

broadcast proof fn text_behind_bytes(fields: Seq<FieldModel>, tag: u32, bytes: Seq<u8>, at: u32)
    ensures
        #[trigger] text_at(put_bytes(fields, tag, bytes), at) == (if at != tag || bytes.len() == 0
            || text_at(fields, at) is None {
            text_at(fields, at)
        } else if valid_utf8(bytes) {
            Some(decode_utf8(bytes))
        } else {
            None
        }),
{
    assert(fields.push(FieldModel::Bytes { tag, bytes }).drop_last() =~= fields);
}

broadcast proof fn text_behind_number(fields: Seq<FieldModel>, tag: u32, value: u64, at: u32)
    requires
        at != tag,
    ensures
        #[trigger] text_at(put_number(fields, tag, value), at) == text_at(fields, at),
{
    assert(fields.push(FieldModel::Number { tag, value }).drop_last() =~= fields);
}

broadcast proof fn bytes_stay_writable(fields: Seq<FieldModel>, tag: u32, bytes: Seq<u8>)
    requires
        writable(fields),
        1 <= tag < 0x2000_0000,
        bytes.len() <= u64::MAX,
    ensures
        #[trigger] writable(put_bytes(fields, tag, bytes)),
{
}

broadcast proof fn numbers_stay_writable(fields: Seq<FieldModel>, tag: u32, value: u64)
    requires
        writable(fields),
        1 <= tag < 0x2000_0000,
    ensures
        #[trigger] writable(put_number(fields, tag, value)),
{
}

broadcast group group_fields {
    bytes_behind_bytes,
    bytes_behind_number,
    number_behind_number,
    number_behind_bytes,
    text_behind_bytes,
    text_behind_number,
    bytes_stay_writable,
    numbers_stay_writable,
}

/// An encrypted text. `body` held the text before texts were encrypted.
#[derive(Debug)]
pub struct TextMessage {
    pub id: Vec<u8>,
    pub body: String,
    pub author: Vec<u8>,
    pub signature: Vec<u8>,
    pub channel_id: Vec<u8>,
    pub epoch: u64,
    pub membership_head: Vec<u8>,
    pub nonce: Vec<u8>,
    pub ciphertext: Vec<u8>,
}

/// What the message says.
pub struct TextMessageModel {
    pub id: Seq<u8>,
    pub body: Seq<char>,
    pub author: Seq<u8>,
    pub signature: Seq<u8>,
    pub channel_id: Seq<u8>,
    pub epoch: u64,
    pub membership_head: Seq<u8>,
    pub nonce: Seq<u8>,
    pub ciphertext: Seq<u8>,
}

impl View for TextMessage {
    type V = TextMessageModel;

    open spec fn view(&self) -> TextMessageModel {
        TextMessageModel {
            id: self.id@,
            body: self.body@,
            author: self.author@,
            signature: self.signature@,
            channel_id: self.channel_id@,
            epoch: self.epoch,
            membership_head: self.membership_head@,
            nonce: self.nonce@,
            ciphertext: self.ciphertext@,
        }
    }
}

/// The fields of the message.
pub open spec fn text_message_fields(message: TextMessageModel) -> Seq<FieldModel> {
    let f0 = put_bytes(Seq::<FieldModel>::empty(), 1, message.id);
    let f1 = put_bytes(f0, 2, encode_utf8(message.body));
    let f2 = put_bytes(f1, 3, message.author);
    let f3 = put_bytes(f2, 4, message.signature);
    let f4 = put_bytes(f3, 5, message.channel_id);
    let f5 = put_number(f4, 6, message.epoch);
    let f6 = put_bytes(f5, 7, message.membership_head);
    let f7 = put_bytes(f6, 8, message.nonce);
    let f8 = put_bytes(f7, 9, message.ciphertext);
    f8
}

/// The message that the fields hold.
pub open spec fn text_message_of(fields: Seq<FieldModel>) -> Option<TextMessageModel> {
    if bytes_at(fields, 1) is Some
        && text_at(fields, 2) is Some
        && bytes_at(fields, 3) is Some
        && bytes_at(fields, 4) is Some
        && bytes_at(fields, 5) is Some
        && number_at(fields, 6) is Some
        && bytes_at(fields, 7) is Some
        && bytes_at(fields, 8) is Some
        && bytes_at(fields, 9) is Some {
        Some(TextMessageModel {
            id: bytes_at(fields, 1)->0,
            body: text_at(fields, 2)->0,
            author: bytes_at(fields, 3)->0,
            signature: bytes_at(fields, 4)->0,
            channel_id: bytes_at(fields, 5)->0,
            epoch: number_at(fields, 6)->0,
            membership_head: bytes_at(fields, 7)->0,
            nonce: bytes_at(fields, 8)->0,
            ciphertext: bytes_at(fields, 9)->0,
        })
    } else {
        None
    }
}

/// Reading the fields of a message gives the message.
pub proof fn text_message_reads_back(message: TextMessageModel)
    requires
        message.id.len() <= u64::MAX,
        message.author.len() <= u64::MAX,
        message.signature.len() <= u64::MAX,
        message.channel_id.len() <= u64::MAX,
        message.membership_head.len() <= u64::MAX,
        message.nonce.len() <= u64::MAX,
        message.ciphertext.len() <= u64::MAX,
        encode_utf8(message.body).len() <= u64::MAX,
    ensures
        text_message_of(text_message_fields(message)) == Some(message),
        forall|depth: nat| #[trigger]
            parsed(encoded(text_message_fields(message)), depth) == Some(text_message_fields(message)),
{
    broadcast use group_fields;

    let fields = text_message_fields(message);
    assert(writable(Seq::<FieldModel>::empty()));
    encode_utf8_valid_utf8(message.body);
    encode_utf8_decode_utf8(message.body);
    if encode_utf8(message.body).len() == 0 {
        assert(message.body =~= Seq::empty()) by {
            assert(encode_utf8(message.body) =~= encode_utf8(Seq::empty()));
            encode_utf8_decode_utf8(Seq::empty());
        }
    }
    assert(bytes_at(fields, 1) is Some && bytes_at(fields, 1)->0 =~= message.id);
    assert(text_at(fields, 2) == Some(message.body));
    assert(bytes_at(fields, 3) is Some && bytes_at(fields, 3)->0 =~= message.author);
    assert(bytes_at(fields, 4) is Some && bytes_at(fields, 4)->0 =~= message.signature);
    assert(bytes_at(fields, 5) is Some && bytes_at(fields, 5)->0 =~= message.channel_id);
    assert(bytes_at(fields, 7) is Some && bytes_at(fields, 7)->0 =~= message.membership_head);
    assert(bytes_at(fields, 8) is Some && bytes_at(fields, 8)->0 =~= message.nonce);
    assert(bytes_at(fields, 9) is Some && bytes_at(fields, 9)->0 =~= message.ciphertext);
    assert(writable(fields));
    fields_read_back(fields);
}

impl TextMessage {
    /// The bytes of the message.
    pub fn encode(&self) -> (bytes: Vec<u8>)
        ensures
            bytes@ == encoded(text_message_fields(self@)),
    {
        let mut bytes: Vec<u8> = Vec::new();
        let ghost e = Seq::<FieldModel>::empty();
        assert(bytes@ =~= encoded(e));
        write_bytes(&mut bytes, 1, self.id.as_slice(), Ghost(e));
        let ghost f0 = put_bytes(e, 1, self.id@);
        write_bytes(&mut bytes, 2, self.body.as_str().as_bytes(), Ghost(f0));
        let ghost f1 = put_bytes(f0, 2, encode_utf8(self.body@));
        write_bytes(&mut bytes, 3, self.author.as_slice(), Ghost(f1));
        let ghost f2 = put_bytes(f1, 3, self.author@);
        write_bytes(&mut bytes, 4, self.signature.as_slice(), Ghost(f2));
        let ghost f3 = put_bytes(f2, 4, self.signature@);
        write_bytes(&mut bytes, 5, self.channel_id.as_slice(), Ghost(f3));
        let ghost f4 = put_bytes(f3, 5, self.channel_id@);
        write_number(&mut bytes, 6, self.epoch, Ghost(f4));
        let ghost f5 = put_number(f4, 6, self.epoch);
        write_bytes(&mut bytes, 7, self.membership_head.as_slice(), Ghost(f5));
        let ghost f6 = put_bytes(f5, 7, self.membership_head@);
        write_bytes(&mut bytes, 8, self.nonce.as_slice(), Ghost(f6));
        let ghost f7 = put_bytes(f6, 8, self.nonce@);
        write_bytes(&mut bytes, 9, self.ciphertext.as_slice(), Ghost(f7));
        bytes
    }

    fn from_fields(fields: &Vec<Field>) -> (message: Option<Self>)
        ensures
            match message {
                Some(message) => text_message_of(models(fields@)) == Some(message@),
                None => text_message_of(models(fields@)) is None,
            },
    {
        let id: Vec<u8> = match find_bytes(fields, 1) {
            Some(found) => found,
            None => {
                return None;
            },
        };
        let body: String = match find_text(fields, 2) {
            Some(found) => found,
            None => {
                return None;
            },
        };
        let author: Vec<u8> = match find_bytes(fields, 3) {
            Some(found) => found,
            None => {
                return None;
            },
        };
        let signature: Vec<u8> = match find_bytes(fields, 4) {
            Some(found) => found,
            None => {
                return None;
            },
        };
        let channel_id: Vec<u8> = match find_bytes(fields, 5) {
            Some(found) => found,
            None => {
                return None;
            },
        };
        let epoch: u64 = match find_number(fields, 6) {
            Some(found) => found,
            None => {
                return None;
            },
        };
        let membership_head: Vec<u8> = match find_bytes(fields, 7) {
            Some(found) => found,
            None => {
                return None;
            },
        };
        let nonce: Vec<u8> = match find_bytes(fields, 8) {
            Some(found) => found,
            None => {
                return None;
            },
        };
        let ciphertext: Vec<u8> = match find_bytes(fields, 9) {
            Some(found) => found,
            None => {
                return None;
            },
        };
        Some(TextMessage { id, body, author, signature, channel_id, epoch, membership_head, nonce, ciphertext })
    }
}

/// A signed change of the membership.
#[derive(Debug)]
pub struct MembershipChange {
    pub revision: u64,
    pub member: Vec<u8>,
    pub admitted: bool,
    pub signature: Vec<u8>,
    pub availability: bool,
}

/// What the message says.
pub struct MembershipChangeModel {
    pub revision: u64,
    pub member: Seq<u8>,
    pub admitted: bool,
    pub signature: Seq<u8>,
    pub availability: bool,
}

impl View for MembershipChange {
    type V = MembershipChangeModel;

    open spec fn view(&self) -> MembershipChangeModel {
        MembershipChangeModel {
            revision: self.revision,
            member: self.member@,
            admitted: self.admitted,
            signature: self.signature@,
            availability: self.availability,
        }
    }
}

/// The fields of the message.
pub open spec fn membership_change_fields(message: MembershipChangeModel) -> Seq<FieldModel> {
    let f0 = put_number(Seq::<FieldModel>::empty(), 1, message.revision);
    let f1 = put_bytes(f0, 2, message.member);
    let f2 = put_number(f1, 3, flag(message.admitted));
    let f3 = put_bytes(f2, 4, message.signature);
    let f4 = put_number(f3, 5, flag(message.availability));
    f4
}

/// The message that the fields hold.
pub open spec fn membership_change_of(fields: Seq<FieldModel>) -> Option<MembershipChangeModel> {
    if number_at(fields, 1) is Some
        && bytes_at(fields, 2) is Some
        && number_at(fields, 3) is Some
        && bytes_at(fields, 4) is Some
        && number_at(fields, 5) is Some {
        Some(MembershipChangeModel {
            revision: number_at(fields, 1)->0,
            member: bytes_at(fields, 2)->0,
            admitted: number_at(fields, 3)->0 != 0,
            signature: bytes_at(fields, 4)->0,
            availability: number_at(fields, 5)->0 != 0,
        })
    } else {
        None
    }
}

/// Reading the fields of a message gives the message.
pub proof fn membership_change_reads_back(message: MembershipChangeModel)
    requires
        message.member.len() <= u64::MAX,
        message.signature.len() <= u64::MAX,
    ensures
        membership_change_of(membership_change_fields(message)) == Some(message),
        forall|depth: nat| #[trigger]
            parsed(encoded(membership_change_fields(message)), depth) == Some(membership_change_fields(message)),
{
    broadcast use group_fields;

    let fields = membership_change_fields(message);
    assert(writable(Seq::<FieldModel>::empty()));
    assert(bytes_at(fields, 2) is Some && bytes_at(fields, 2)->0 =~= message.member);
    assert(bytes_at(fields, 4) is Some && bytes_at(fields, 4)->0 =~= message.signature);
    assert(writable(fields));
    fields_read_back(fields);
}

impl MembershipChange {
    /// The bytes of the message.
    pub fn encode(&self) -> (bytes: Vec<u8>)
        ensures
            bytes@ == encoded(membership_change_fields(self@)),
    {
        let mut bytes: Vec<u8> = Vec::new();
        let ghost e = Seq::<FieldModel>::empty();
        assert(bytes@ =~= encoded(e));
        write_number(&mut bytes, 1, self.revision, Ghost(e));
        let ghost f0 = put_number(e, 1, self.revision);
        write_bytes(&mut bytes, 2, self.member.as_slice(), Ghost(f0));
        let ghost f1 = put_bytes(f0, 2, self.member@);
        write_number(&mut bytes, 3, flag_number(self.admitted), Ghost(f1));
        let ghost f2 = put_number(f1, 3, flag(self.admitted));
        write_bytes(&mut bytes, 4, self.signature.as_slice(), Ghost(f2));
        let ghost f3 = put_bytes(f2, 4, self.signature@);
        write_number(&mut bytes, 5, flag_number(self.availability), Ghost(f3));
        bytes
    }

    fn from_fields(fields: &Vec<Field>) -> (message: Option<Self>)
        ensures
            match message {
                Some(message) => membership_change_of(models(fields@)) == Some(message@),
                None => membership_change_of(models(fields@)) is None,
            },
    {
        let revision: u64 = match find_number(fields, 1) {
            Some(found) => found,
            None => {
                return None;
            },
        };
        let member: Vec<u8> = match find_bytes(fields, 2) {
            Some(found) => found,
            None => {
                return None;
            },
        };
        let admitted: u64 = match find_number(fields, 3) {
            Some(found) => found,
            None => {
                return None;
            },
        };
        let signature: Vec<u8> = match find_bytes(fields, 4) {
            Some(found) => found,
            None => {
                return None;
            },
        };
        let availability: u64 = match find_number(fields, 5) {
            Some(found) => found,
            None => {
                return None;
            },
        };
        Some(MembershipChange { revision, member, admitted: admitted != 0, signature, availability: availability != 0 })
    }
}

/// A signed channel.
#[derive(Debug)]
pub struct CreateChannel {
    pub id: Vec<u8>,
    pub name: String,
    pub kind: u32,
    pub signature: Vec<u8>,
}

/// What the message says.
pub struct CreateChannelModel {
    pub id: Seq<u8>,
    pub name: Seq<char>,
    pub kind: u32,
    pub signature: Seq<u8>,
}

impl View for CreateChannel {
    type V = CreateChannelModel;

    open spec fn view(&self) -> CreateChannelModel {
        CreateChannelModel {
            id: self.id@,
            name: self.name@,
            kind: self.kind,
            signature: self.signature@,
        }
    }
}

/// The fields of the message.
pub open spec fn create_channel_fields(message: CreateChannelModel) -> Seq<FieldModel> {
    let f0 = put_bytes(Seq::<FieldModel>::empty(), 1, message.id);
    let f1 = put_bytes(f0, 2, encode_utf8(message.name));
    let f2 = put_number(f1, 3, message.kind as u64);
    let f3 = put_bytes(f2, 4, message.signature);
    f3
}

/// The message that the fields hold.
pub open spec fn create_channel_of(fields: Seq<FieldModel>) -> Option<CreateChannelModel> {
    if bytes_at(fields, 1) is Some
        && text_at(fields, 2) is Some
        && number_at(fields, 3) is Some
        && bytes_at(fields, 4) is Some {
        Some(CreateChannelModel {
            id: bytes_at(fields, 1)->0,
            name: text_at(fields, 2)->0,
            kind: (number_at(fields, 3)->0) as u32,
            signature: bytes_at(fields, 4)->0,
        })
    } else {
        None
    }
}

/// Reading the fields of a message gives the message.
pub proof fn create_channel_reads_back(message: CreateChannelModel)
    requires
        message.id.len() <= u64::MAX,
        message.signature.len() <= u64::MAX,
        encode_utf8(message.name).len() <= u64::MAX,
    ensures
        create_channel_of(create_channel_fields(message)) == Some(message),
        forall|depth: nat| #[trigger]
            parsed(encoded(create_channel_fields(message)), depth) == Some(create_channel_fields(message)),
{
    broadcast use group_fields;

    let fields = create_channel_fields(message);
    assert(writable(Seq::<FieldModel>::empty()));
    encode_utf8_valid_utf8(message.name);
    encode_utf8_decode_utf8(message.name);
    if encode_utf8(message.name).len() == 0 {
        assert(message.name =~= Seq::empty()) by {
            assert(encode_utf8(message.name) =~= encode_utf8(Seq::empty()));
            encode_utf8_decode_utf8(Seq::empty());
        }
    }
    assert(bytes_at(fields, 1) is Some && bytes_at(fields, 1)->0 =~= message.id);
    assert(text_at(fields, 2) == Some(message.name));
    assert(bytes_at(fields, 4) is Some && bytes_at(fields, 4)->0 =~= message.signature);
    assert(writable(fields));
    fields_read_back(fields);
}

impl CreateChannel {
    /// The bytes of the message.
    pub fn encode(&self) -> (bytes: Vec<u8>)
        ensures
            bytes@ == encoded(create_channel_fields(self@)),
    {
        let mut bytes: Vec<u8> = Vec::new();
        let ghost e = Seq::<FieldModel>::empty();
        assert(bytes@ =~= encoded(e));
        write_bytes(&mut bytes, 1, self.id.as_slice(), Ghost(e));
        let ghost f0 = put_bytes(e, 1, self.id@);
        write_bytes(&mut bytes, 2, self.name.as_str().as_bytes(), Ghost(f0));
        let ghost f1 = put_bytes(f0, 2, encode_utf8(self.name@));
        write_number(&mut bytes, 3, self.kind as u64, Ghost(f1));
        let ghost f2 = put_number(f1, 3, self.kind as u64);
        write_bytes(&mut bytes, 4, self.signature.as_slice(), Ghost(f2));
        bytes
    }

    fn from_fields(fields: &Vec<Field>) -> (message: Option<Self>)
        ensures
            match message {
                Some(message) => create_channel_of(models(fields@)) == Some(message@),
                None => create_channel_of(models(fields@)) is None,
            },
    {
        let id: Vec<u8> = match find_bytes(fields, 1) {
            Some(found) => found,
            None => {
                return None;
            },
        };
        let name: String = match find_text(fields, 2) {
            Some(found) => found,
            None => {
                return None;
            },
        };
        let kind: u64 = match find_number(fields, 3) {
            Some(found) => found,
            None => {
                return None;
            },
        };
        let signature: Vec<u8> = match find_bytes(fields, 4) {
            Some(found) => found,
            None => {
                return None;
            },
        };
        Some(CreateChannel { id, name, kind: kind as u32, signature })
    }
}

/// A member's signed encryption key.
#[derive(Debug)]
pub struct KeyRegistration {
    pub member: Vec<u8>,
    pub public_key: Vec<u8>,
    pub signature: Vec<u8>,
}

/// What the message says.
pub struct KeyRegistrationModel {
    pub member: Seq<u8>,
    pub public_key: Seq<u8>,
    pub signature: Seq<u8>,
}

impl View for KeyRegistration {
    type V = KeyRegistrationModel;

    open spec fn view(&self) -> KeyRegistrationModel {
        KeyRegistrationModel {
            member: self.member@,
            public_key: self.public_key@,
            signature: self.signature@,
        }
    }
}

/// The fields of the message.
pub open spec fn key_registration_fields(message: KeyRegistrationModel) -> Seq<FieldModel> {
    let f0 = put_bytes(Seq::<FieldModel>::empty(), 1, message.member);
    let f1 = put_bytes(f0, 2, message.public_key);
    let f2 = put_bytes(f1, 3, message.signature);
    f2
}

/// The message that the fields hold.
pub open spec fn key_registration_of(fields: Seq<FieldModel>) -> Option<KeyRegistrationModel> {
    if bytes_at(fields, 1) is Some
        && bytes_at(fields, 2) is Some
        && bytes_at(fields, 3) is Some {
        Some(KeyRegistrationModel {
            member: bytes_at(fields, 1)->0,
            public_key: bytes_at(fields, 2)->0,
            signature: bytes_at(fields, 3)->0,
        })
    } else {
        None
    }
}

/// Reading the fields of a message gives the message.
pub proof fn key_registration_reads_back(message: KeyRegistrationModel)
    requires
        message.member.len() <= u64::MAX,
        message.public_key.len() <= u64::MAX,
        message.signature.len() <= u64::MAX,
    ensures
        key_registration_of(key_registration_fields(message)) == Some(message),
        forall|depth: nat| #[trigger]
            parsed(encoded(key_registration_fields(message)), depth) == Some(key_registration_fields(message)),
{
    broadcast use group_fields;

    let fields = key_registration_fields(message);
    assert(writable(Seq::<FieldModel>::empty()));
    assert(bytes_at(fields, 1) is Some && bytes_at(fields, 1)->0 =~= message.member);
    assert(bytes_at(fields, 2) is Some && bytes_at(fields, 2)->0 =~= message.public_key);
    assert(bytes_at(fields, 3) is Some && bytes_at(fields, 3)->0 =~= message.signature);
    assert(writable(fields));
    fields_read_back(fields);
}

impl KeyRegistration {
    /// The bytes of the message.
    pub fn encode(&self) -> (bytes: Vec<u8>)
        ensures
            bytes@ == encoded(key_registration_fields(self@)),
    {
        let mut bytes: Vec<u8> = Vec::new();
        let ghost e = Seq::<FieldModel>::empty();
        assert(bytes@ =~= encoded(e));
        write_bytes(&mut bytes, 1, self.member.as_slice(), Ghost(e));
        let ghost f0 = put_bytes(e, 1, self.member@);
        write_bytes(&mut bytes, 2, self.public_key.as_slice(), Ghost(f0));
        let ghost f1 = put_bytes(f0, 2, self.public_key@);
        write_bytes(&mut bytes, 3, self.signature.as_slice(), Ghost(f1));
        bytes
    }

    fn from_fields(fields: &Vec<Field>) -> (message: Option<Self>)
        ensures
            match message {
                Some(message) => key_registration_of(models(fields@)) == Some(message@),
                None => key_registration_of(models(fields@)) is None,
            },
    {
        let member: Vec<u8> = match find_bytes(fields, 1) {
            Some(found) => found,
            None => {
                return None;
            },
        };
        let public_key: Vec<u8> = match find_bytes(fields, 2) {
            Some(found) => found,
            None => {
                return None;
            },
        };
        let signature: Vec<u8> = match find_bytes(fields, 3) {
            Some(found) => found,
            None => {
                return None;
            },
        };
        Some(KeyRegistration { member, public_key, signature })
    }
}

/// A content key, sealed for one member and signed by the owner.
#[derive(Debug)]
pub struct ContentKeyEnvelope {
    pub epoch: u64,
    pub membership_head: Vec<u8>,
    pub recipient: Vec<u8>,
    pub encapsulated_key: Vec<u8>,
    pub ciphertext: Vec<u8>,
    pub signature: Vec<u8>,
}

/// What the message says.
pub struct ContentKeyEnvelopeModel {
    pub epoch: u64,
    pub membership_head: Seq<u8>,
    pub recipient: Seq<u8>,
    pub encapsulated_key: Seq<u8>,
    pub ciphertext: Seq<u8>,
    pub signature: Seq<u8>,
}

impl View for ContentKeyEnvelope {
    type V = ContentKeyEnvelopeModel;

    open spec fn view(&self) -> ContentKeyEnvelopeModel {
        ContentKeyEnvelopeModel {
            epoch: self.epoch,
            membership_head: self.membership_head@,
            recipient: self.recipient@,
            encapsulated_key: self.encapsulated_key@,
            ciphertext: self.ciphertext@,
            signature: self.signature@,
        }
    }
}

/// The fields of the message.
pub open spec fn content_key_envelope_fields(message: ContentKeyEnvelopeModel) -> Seq<FieldModel> {
    let f0 = put_number(Seq::<FieldModel>::empty(), 1, message.epoch);
    let f1 = put_bytes(f0, 2, message.membership_head);
    let f2 = put_bytes(f1, 3, message.recipient);
    let f3 = put_bytes(f2, 4, message.encapsulated_key);
    let f4 = put_bytes(f3, 5, message.ciphertext);
    let f5 = put_bytes(f4, 6, message.signature);
    f5
}

/// The message that the fields hold.
pub open spec fn content_key_envelope_of(
    fields: Seq<FieldModel>,
) -> Option<ContentKeyEnvelopeModel> {
    if number_at(fields, 1) is Some
        && bytes_at(fields, 2) is Some
        && bytes_at(fields, 3) is Some
        && bytes_at(fields, 4) is Some
        && bytes_at(fields, 5) is Some
        && bytes_at(fields, 6) is Some {
        Some(ContentKeyEnvelopeModel {
            epoch: number_at(fields, 1)->0,
            membership_head: bytes_at(fields, 2)->0,
            recipient: bytes_at(fields, 3)->0,
            encapsulated_key: bytes_at(fields, 4)->0,
            ciphertext: bytes_at(fields, 5)->0,
            signature: bytes_at(fields, 6)->0,
        })
    } else {
        None
    }
}

/// Reading the fields of a message gives the message.
pub proof fn content_key_envelope_reads_back(message: ContentKeyEnvelopeModel)
    requires
        message.membership_head.len() <= u64::MAX,
        message.recipient.len() <= u64::MAX,
        message.encapsulated_key.len() <= u64::MAX,
        message.ciphertext.len() <= u64::MAX,
        message.signature.len() <= u64::MAX,
    ensures
        content_key_envelope_of(content_key_envelope_fields(message)) == Some(message),
        forall|depth: nat| #[trigger]
            parsed(encoded(content_key_envelope_fields(message)), depth) == Some(content_key_envelope_fields(message)),
{
    broadcast use group_fields;

    let fields = content_key_envelope_fields(message);
    assert(writable(Seq::<FieldModel>::empty()));
    assert(bytes_at(fields, 2) is Some && bytes_at(fields, 2)->0 =~= message.membership_head);
    assert(bytes_at(fields, 3) is Some && bytes_at(fields, 3)->0 =~= message.recipient);
    assert(bytes_at(fields, 4) is Some && bytes_at(fields, 4)->0 =~= message.encapsulated_key);
    assert(bytes_at(fields, 5) is Some && bytes_at(fields, 5)->0 =~= message.ciphertext);
    assert(bytes_at(fields, 6) is Some && bytes_at(fields, 6)->0 =~= message.signature);
    assert(writable(fields));
    fields_read_back(fields);
}

impl ContentKeyEnvelope {
    /// The bytes of the message.
    pub fn encode(&self) -> (bytes: Vec<u8>)
        ensures
            bytes@ == encoded(content_key_envelope_fields(self@)),
    {
        let mut bytes: Vec<u8> = Vec::new();
        let ghost e = Seq::<FieldModel>::empty();
        assert(bytes@ =~= encoded(e));
        write_number(&mut bytes, 1, self.epoch, Ghost(e));
        let ghost f0 = put_number(e, 1, self.epoch);
        write_bytes(&mut bytes, 2, self.membership_head.as_slice(), Ghost(f0));
        let ghost f1 = put_bytes(f0, 2, self.membership_head@);
        write_bytes(&mut bytes, 3, self.recipient.as_slice(), Ghost(f1));
        let ghost f2 = put_bytes(f1, 3, self.recipient@);
        write_bytes(&mut bytes, 4, self.encapsulated_key.as_slice(), Ghost(f2));
        let ghost f3 = put_bytes(f2, 4, self.encapsulated_key@);
        write_bytes(&mut bytes, 5, self.ciphertext.as_slice(), Ghost(f3));
        let ghost f4 = put_bytes(f3, 5, self.ciphertext@);
        write_bytes(&mut bytes, 6, self.signature.as_slice(), Ghost(f4));
        bytes
    }

    fn from_fields(fields: &Vec<Field>) -> (message: Option<Self>)
        ensures
            match message {
                Some(message) => content_key_envelope_of(models(fields@)) == Some(message@),
                None => content_key_envelope_of(models(fields@)) is None,
            },
    {
        let epoch: u64 = match find_number(fields, 1) {
            Some(found) => found,
            None => {
                return None;
            },
        };
        let membership_head: Vec<u8> = match find_bytes(fields, 2) {
            Some(found) => found,
            None => {
                return None;
            },
        };
        let recipient: Vec<u8> = match find_bytes(fields, 3) {
            Some(found) => found,
            None => {
                return None;
            },
        };
        let encapsulated_key: Vec<u8> = match find_bytes(fields, 4) {
            Some(found) => found,
            None => {
                return None;
            },
        };
        let ciphertext: Vec<u8> = match find_bytes(fields, 5) {
            Some(found) => found,
            None => {
                return None;
            },
        };
        let signature: Vec<u8> = match find_bytes(fields, 6) {
            Some(found) => found,
            None => {
                return None;
            },
        };
        Some(ContentKeyEnvelope { epoch, membership_head, recipient, encapsulated_key, ciphertext, signature })
    }
}

/// An encrypted attachment.
#[derive(Debug)]
pub struct Attachment {
    pub id: Vec<u8>,
    pub author: Vec<u8>,
    pub channel_id: Vec<u8>,
    pub epoch: u64,
    pub membership_head: Vec<u8>,
    pub nonce: Vec<u8>,
    pub ciphertext: Vec<u8>,
    pub signature: Vec<u8>,
}

/// What the message says.
pub struct AttachmentModel {
    pub id: Seq<u8>,
    pub author: Seq<u8>,
    pub channel_id: Seq<u8>,
    pub epoch: u64,
    pub membership_head: Seq<u8>,
    pub nonce: Seq<u8>,
    pub ciphertext: Seq<u8>,
    pub signature: Seq<u8>,
}

impl View for Attachment {
    type V = AttachmentModel;

    open spec fn view(&self) -> AttachmentModel {
        AttachmentModel {
            id: self.id@,
            author: self.author@,
            channel_id: self.channel_id@,
            epoch: self.epoch,
            membership_head: self.membership_head@,
            nonce: self.nonce@,
            ciphertext: self.ciphertext@,
            signature: self.signature@,
        }
    }
}

/// The fields of the message.
pub open spec fn attachment_fields(message: AttachmentModel) -> Seq<FieldModel> {
    let f0 = put_bytes(Seq::<FieldModel>::empty(), 1, message.id);
    let f1 = put_bytes(f0, 2, message.author);
    let f2 = put_bytes(f1, 3, message.channel_id);
    let f3 = put_number(f2, 4, message.epoch);
    let f4 = put_bytes(f3, 5, message.membership_head);
    let f5 = put_bytes(f4, 6, message.nonce);
    let f6 = put_bytes(f5, 7, message.ciphertext);
    let f7 = put_bytes(f6, 8, message.signature);
    f7
}

/// The message that the fields hold.
pub open spec fn attachment_of(fields: Seq<FieldModel>) -> Option<AttachmentModel> {
    if bytes_at(fields, 1) is Some
        && bytes_at(fields, 2) is Some
        && bytes_at(fields, 3) is Some
        && number_at(fields, 4) is Some
        && bytes_at(fields, 5) is Some
        && bytes_at(fields, 6) is Some
        && bytes_at(fields, 7) is Some
        && bytes_at(fields, 8) is Some {
        Some(AttachmentModel {
            id: bytes_at(fields, 1)->0,
            author: bytes_at(fields, 2)->0,
            channel_id: bytes_at(fields, 3)->0,
            epoch: number_at(fields, 4)->0,
            membership_head: bytes_at(fields, 5)->0,
            nonce: bytes_at(fields, 6)->0,
            ciphertext: bytes_at(fields, 7)->0,
            signature: bytes_at(fields, 8)->0,
        })
    } else {
        None
    }
}

/// Reading the fields of a message gives the message.
pub proof fn attachment_reads_back(message: AttachmentModel)
    requires
        message.id.len() <= u64::MAX,
        message.author.len() <= u64::MAX,
        message.channel_id.len() <= u64::MAX,
        message.membership_head.len() <= u64::MAX,
        message.nonce.len() <= u64::MAX,
        message.ciphertext.len() <= u64::MAX,
        message.signature.len() <= u64::MAX,
    ensures
        attachment_of(attachment_fields(message)) == Some(message),
        forall|depth: nat| #[trigger]
            parsed(encoded(attachment_fields(message)), depth) == Some(attachment_fields(message)),
{
    broadcast use group_fields;

    let fields = attachment_fields(message);
    assert(writable(Seq::<FieldModel>::empty()));
    assert(bytes_at(fields, 1) is Some && bytes_at(fields, 1)->0 =~= message.id);
    assert(bytes_at(fields, 2) is Some && bytes_at(fields, 2)->0 =~= message.author);
    assert(bytes_at(fields, 3) is Some && bytes_at(fields, 3)->0 =~= message.channel_id);
    assert(bytes_at(fields, 5) is Some && bytes_at(fields, 5)->0 =~= message.membership_head);
    assert(bytes_at(fields, 6) is Some && bytes_at(fields, 6)->0 =~= message.nonce);
    assert(bytes_at(fields, 7) is Some && bytes_at(fields, 7)->0 =~= message.ciphertext);
    assert(bytes_at(fields, 8) is Some && bytes_at(fields, 8)->0 =~= message.signature);
    assert(writable(fields));
    fields_read_back(fields);
}

impl Attachment {
    /// The bytes of the message.
    pub fn encode(&self) -> (bytes: Vec<u8>)
        ensures
            bytes@ == encoded(attachment_fields(self@)),
    {
        let mut bytes: Vec<u8> = Vec::new();
        let ghost e = Seq::<FieldModel>::empty();
        assert(bytes@ =~= encoded(e));
        write_bytes(&mut bytes, 1, self.id.as_slice(), Ghost(e));
        let ghost f0 = put_bytes(e, 1, self.id@);
        write_bytes(&mut bytes, 2, self.author.as_slice(), Ghost(f0));
        let ghost f1 = put_bytes(f0, 2, self.author@);
        write_bytes(&mut bytes, 3, self.channel_id.as_slice(), Ghost(f1));
        let ghost f2 = put_bytes(f1, 3, self.channel_id@);
        write_number(&mut bytes, 4, self.epoch, Ghost(f2));
        let ghost f3 = put_number(f2, 4, self.epoch);
        write_bytes(&mut bytes, 5, self.membership_head.as_slice(), Ghost(f3));
        let ghost f4 = put_bytes(f3, 5, self.membership_head@);
        write_bytes(&mut bytes, 6, self.nonce.as_slice(), Ghost(f4));
        let ghost f5 = put_bytes(f4, 6, self.nonce@);
        write_bytes(&mut bytes, 7, self.ciphertext.as_slice(), Ghost(f5));
        let ghost f6 = put_bytes(f5, 7, self.ciphertext@);
        write_bytes(&mut bytes, 8, self.signature.as_slice(), Ghost(f6));
        bytes
    }

    fn from_fields(fields: &Vec<Field>) -> (message: Option<Self>)
        ensures
            match message {
                Some(message) => attachment_of(models(fields@)) == Some(message@),
                None => attachment_of(models(fields@)) is None,
            },
    {
        let id: Vec<u8> = match find_bytes(fields, 1) {
            Some(found) => found,
            None => {
                return None;
            },
        };
        let author: Vec<u8> = match find_bytes(fields, 2) {
            Some(found) => found,
            None => {
                return None;
            },
        };
        let channel_id: Vec<u8> = match find_bytes(fields, 3) {
            Some(found) => found,
            None => {
                return None;
            },
        };
        let epoch: u64 = match find_number(fields, 4) {
            Some(found) => found,
            None => {
                return None;
            },
        };
        let membership_head: Vec<u8> = match find_bytes(fields, 5) {
            Some(found) => found,
            None => {
                return None;
            },
        };
        let nonce: Vec<u8> = match find_bytes(fields, 6) {
            Some(found) => found,
            None => {
                return None;
            },
        };
        let ciphertext: Vec<u8> = match find_bytes(fields, 7) {
            Some(found) => found,
            None => {
                return None;
            },
        };
        let signature: Vec<u8> = match find_bytes(fields, 8) {
            Some(found) => found,
            None => {
                return None;
            },
        };
        Some(Attachment { id, author, channel_id, epoch, membership_head, nonce, ciphertext, signature })
    }
}

/// An encrypted display name.
#[derive(Debug)]
pub struct MemberProfile {
    pub member: Vec<u8>,
    pub revision: u64,
    pub epoch: u64,
    pub membership_head: Vec<u8>,
    pub nonce: Vec<u8>,
    pub ciphertext: Vec<u8>,
    pub signature: Vec<u8>,
}

/// What the message says.
pub struct MemberProfileModel {
    pub member: Seq<u8>,
    pub revision: u64,
    pub epoch: u64,
    pub membership_head: Seq<u8>,
    pub nonce: Seq<u8>,
    pub ciphertext: Seq<u8>,
    pub signature: Seq<u8>,
}

impl View for MemberProfile {
    type V = MemberProfileModel;

    open spec fn view(&self) -> MemberProfileModel {
        MemberProfileModel {
            member: self.member@,
            revision: self.revision,
            epoch: self.epoch,
            membership_head: self.membership_head@,
            nonce: self.nonce@,
            ciphertext: self.ciphertext@,
            signature: self.signature@,
        }
    }
}

/// The fields of the message.
pub open spec fn member_profile_fields(message: MemberProfileModel) -> Seq<FieldModel> {
    let f0 = put_bytes(Seq::<FieldModel>::empty(), 1, message.member);
    let f1 = put_number(f0, 2, message.revision);
    let f2 = put_number(f1, 3, message.epoch);
    let f3 = put_bytes(f2, 4, message.membership_head);
    let f4 = put_bytes(f3, 5, message.nonce);
    let f5 = put_bytes(f4, 6, message.ciphertext);
    let f6 = put_bytes(f5, 7, message.signature);
    f6
}

/// The message that the fields hold.
pub open spec fn member_profile_of(fields: Seq<FieldModel>) -> Option<MemberProfileModel> {
    if bytes_at(fields, 1) is Some
        && number_at(fields, 2) is Some
        && number_at(fields, 3) is Some
        && bytes_at(fields, 4) is Some
        && bytes_at(fields, 5) is Some
        && bytes_at(fields, 6) is Some
        && bytes_at(fields, 7) is Some {
        Some(MemberProfileModel {
            member: bytes_at(fields, 1)->0,
            revision: number_at(fields, 2)->0,
            epoch: number_at(fields, 3)->0,
            membership_head: bytes_at(fields, 4)->0,
            nonce: bytes_at(fields, 5)->0,
            ciphertext: bytes_at(fields, 6)->0,
            signature: bytes_at(fields, 7)->0,
        })
    } else {
        None
    }
}

/// Reading the fields of a message gives the message.
pub proof fn member_profile_reads_back(message: MemberProfileModel)
    requires
        message.member.len() <= u64::MAX,
        message.membership_head.len() <= u64::MAX,
        message.nonce.len() <= u64::MAX,
        message.ciphertext.len() <= u64::MAX,
        message.signature.len() <= u64::MAX,
    ensures
        member_profile_of(member_profile_fields(message)) == Some(message),
        forall|depth: nat| #[trigger]
            parsed(encoded(member_profile_fields(message)), depth) == Some(member_profile_fields(message)),
{
    broadcast use group_fields;

    let fields = member_profile_fields(message);
    assert(writable(Seq::<FieldModel>::empty()));
    assert(bytes_at(fields, 1) is Some && bytes_at(fields, 1)->0 =~= message.member);
    assert(bytes_at(fields, 4) is Some && bytes_at(fields, 4)->0 =~= message.membership_head);
    assert(bytes_at(fields, 5) is Some && bytes_at(fields, 5)->0 =~= message.nonce);
    assert(bytes_at(fields, 6) is Some && bytes_at(fields, 6)->0 =~= message.ciphertext);
    assert(bytes_at(fields, 7) is Some && bytes_at(fields, 7)->0 =~= message.signature);
    assert(writable(fields));
    fields_read_back(fields);
}

impl MemberProfile {
    /// The bytes of the message.
    pub fn encode(&self) -> (bytes: Vec<u8>)
        ensures
            bytes@ == encoded(member_profile_fields(self@)),
    {
        let mut bytes: Vec<u8> = Vec::new();
        let ghost e = Seq::<FieldModel>::empty();
        assert(bytes@ =~= encoded(e));
        write_bytes(&mut bytes, 1, self.member.as_slice(), Ghost(e));
        let ghost f0 = put_bytes(e, 1, self.member@);
        write_number(&mut bytes, 2, self.revision, Ghost(f0));
        let ghost f1 = put_number(f0, 2, self.revision);
        write_number(&mut bytes, 3, self.epoch, Ghost(f1));
        let ghost f2 = put_number(f1, 3, self.epoch);
        write_bytes(&mut bytes, 4, self.membership_head.as_slice(), Ghost(f2));
        let ghost f3 = put_bytes(f2, 4, self.membership_head@);
        write_bytes(&mut bytes, 5, self.nonce.as_slice(), Ghost(f3));
        let ghost f4 = put_bytes(f3, 5, self.nonce@);
        write_bytes(&mut bytes, 6, self.ciphertext.as_slice(), Ghost(f4));
        let ghost f5 = put_bytes(f4, 6, self.ciphertext@);
        write_bytes(&mut bytes, 7, self.signature.as_slice(), Ghost(f5));
        bytes
    }

    fn from_fields(fields: &Vec<Field>) -> (message: Option<Self>)
        ensures
            match message {
                Some(message) => member_profile_of(models(fields@)) == Some(message@),
                None => member_profile_of(models(fields@)) is None,
            },
    {
        let member: Vec<u8> = match find_bytes(fields, 1) {
            Some(found) => found,
            None => {
                return None;
            },
        };
        let revision: u64 = match find_number(fields, 2) {
            Some(found) => found,
            None => {
                return None;
            },
        };
        let epoch: u64 = match find_number(fields, 3) {
            Some(found) => found,
            None => {
                return None;
            },
        };
        let membership_head: Vec<u8> = match find_bytes(fields, 4) {
            Some(found) => found,
            None => {
                return None;
            },
        };
        let nonce: Vec<u8> = match find_bytes(fields, 5) {
            Some(found) => found,
            None => {
                return None;
            },
        };
        let ciphertext: Vec<u8> = match find_bytes(fields, 6) {
            Some(found) => found,
            None => {
                return None;
            },
        };
        let signature: Vec<u8> = match find_bytes(fields, 7) {
            Some(found) => found,
            None => {
                return None;
            },
        };
        Some(MemberProfile { member, revision, epoch, membership_head, nonce, ciphertext, signature })
    }
}

/// An encrypted statement about a voice channel.
#[derive(Debug)]
pub struct VoicePresence {
    pub epoch: u64,
    pub membership_head: Vec<u8>,
    pub nonce: Vec<u8>,
    pub ciphertext: Vec<u8>,
}

/// What the message says.
pub struct VoicePresenceModel {
    pub epoch: u64,
    pub membership_head: Seq<u8>,
    pub nonce: Seq<u8>,
    pub ciphertext: Seq<u8>,
}

impl View for VoicePresence {
    type V = VoicePresenceModel;

    open spec fn view(&self) -> VoicePresenceModel {
        VoicePresenceModel {
            epoch: self.epoch,
            membership_head: self.membership_head@,
            nonce: self.nonce@,
            ciphertext: self.ciphertext@,
        }
    }
}

/// The fields of the message.
pub open spec fn voice_presence_fields(message: VoicePresenceModel) -> Seq<FieldModel> {
    let f0 = put_number(Seq::<FieldModel>::empty(), 1, message.epoch);
    let f1 = put_bytes(f0, 2, message.membership_head);
    let f2 = put_bytes(f1, 3, message.nonce);
    let f3 = put_bytes(f2, 4, message.ciphertext);
    f3
}

/// The message that the fields hold.
pub open spec fn voice_presence_of(fields: Seq<FieldModel>) -> Option<VoicePresenceModel> {
    if number_at(fields, 1) is Some
        && bytes_at(fields, 2) is Some
        && bytes_at(fields, 3) is Some
        && bytes_at(fields, 4) is Some {
        Some(VoicePresenceModel {
            epoch: number_at(fields, 1)->0,
            membership_head: bytes_at(fields, 2)->0,
            nonce: bytes_at(fields, 3)->0,
            ciphertext: bytes_at(fields, 4)->0,
        })
    } else {
        None
    }
}

/// Reading the fields of a message gives the message.
pub proof fn voice_presence_reads_back(message: VoicePresenceModel)
    requires
        message.membership_head.len() <= u64::MAX,
        message.nonce.len() <= u64::MAX,
        message.ciphertext.len() <= u64::MAX,
    ensures
        voice_presence_of(voice_presence_fields(message)) == Some(message),
        forall|depth: nat| #[trigger]
            parsed(encoded(voice_presence_fields(message)), depth) == Some(voice_presence_fields(message)),
{
    broadcast use group_fields;

    let fields = voice_presence_fields(message);
    assert(writable(Seq::<FieldModel>::empty()));
    assert(bytes_at(fields, 2) is Some && bytes_at(fields, 2)->0 =~= message.membership_head);
    assert(bytes_at(fields, 3) is Some && bytes_at(fields, 3)->0 =~= message.nonce);
    assert(bytes_at(fields, 4) is Some && bytes_at(fields, 4)->0 =~= message.ciphertext);
    assert(writable(fields));
    fields_read_back(fields);
}

impl VoicePresence {
    /// The bytes of the message.
    pub fn encode(&self) -> (bytes: Vec<u8>)
        ensures
            bytes@ == encoded(voice_presence_fields(self@)),
    {
        let mut bytes: Vec<u8> = Vec::new();
        let ghost e = Seq::<FieldModel>::empty();
        assert(bytes@ =~= encoded(e));
        write_number(&mut bytes, 1, self.epoch, Ghost(e));
        let ghost f0 = put_number(e, 1, self.epoch);
        write_bytes(&mut bytes, 2, self.membership_head.as_slice(), Ghost(f0));
        let ghost f1 = put_bytes(f0, 2, self.membership_head@);
        write_bytes(&mut bytes, 3, self.nonce.as_slice(), Ghost(f1));
        let ghost f2 = put_bytes(f1, 3, self.nonce@);
        write_bytes(&mut bytes, 4, self.ciphertext.as_slice(), Ghost(f2));
        bytes
    }

    fn from_fields(fields: &Vec<Field>) -> (message: Option<Self>)
        ensures
            match message {
                Some(message) => voice_presence_of(models(fields@)) == Some(message@),
                None => voice_presence_of(models(fields@)) is None,
            },
    {
        let epoch: u64 = match find_number(fields, 1) {
            Some(found) => found,
            None => {
                return None;
            },
        };
        let membership_head: Vec<u8> = match find_bytes(fields, 2) {
            Some(found) => found,
            None => {
                return None;
            },
        };
        let nonce: Vec<u8> = match find_bytes(fields, 3) {
            Some(found) => found,
            None => {
                return None;
            },
        };
        let ciphertext: Vec<u8> = match find_bytes(fields, 4) {
            Some(found) => found,
            None => {
                return None;
            },
        };
        Some(VoicePresence { epoch, membership_head, nonce, ciphertext })
    }
}

/// The author and the name of a text.
#[derive(Debug)]
pub struct EncryptedTextIdentity {
    pub author: Vec<u8>,
    pub id: Vec<u8>,
}

/// What the message says.
pub struct EncryptedTextIdentityModel {
    pub author: Seq<u8>,
    pub id: Seq<u8>,
}

impl View for EncryptedTextIdentity {
    type V = EncryptedTextIdentityModel;

    open spec fn view(&self) -> EncryptedTextIdentityModel {
        EncryptedTextIdentityModel {
            author: self.author@,
            id: self.id@,
        }
    }
}

/// The fields of the message.
pub open spec fn encrypted_text_identity_fields(
    message: EncryptedTextIdentityModel,
) -> Seq<FieldModel> {
    let f0 = put_bytes(Seq::<FieldModel>::empty(), 1, message.author);
    let f1 = put_bytes(f0, 2, message.id);
    f1
}

/// The message that the fields hold.
pub open spec fn encrypted_text_identity_of(
    fields: Seq<FieldModel>,
) -> Option<EncryptedTextIdentityModel> {
    if bytes_at(fields, 1) is Some
        && bytes_at(fields, 2) is Some {
        Some(EncryptedTextIdentityModel {
            author: bytes_at(fields, 1)->0,
            id: bytes_at(fields, 2)->0,
        })
    } else {
        None
    }
}

/// Reading the fields of a message gives the message.
pub proof fn encrypted_text_identity_reads_back(message: EncryptedTextIdentityModel)
    requires
        message.author.len() <= u64::MAX,
        message.id.len() <= u64::MAX,
    ensures
        encrypted_text_identity_of(encrypted_text_identity_fields(message)) == Some(message),
        forall|depth: nat| #[trigger]
            parsed(encoded(encrypted_text_identity_fields(message)), depth) == Some(encrypted_text_identity_fields(message)),
{
    broadcast use group_fields;

    let fields = encrypted_text_identity_fields(message);
    assert(writable(Seq::<FieldModel>::empty()));
    assert(bytes_at(fields, 1) is Some && bytes_at(fields, 1)->0 =~= message.author);
    assert(bytes_at(fields, 2) is Some && bytes_at(fields, 2)->0 =~= message.id);
    assert(writable(fields));
    fields_read_back(fields);
}

impl EncryptedTextIdentity {
    /// The bytes of the message.
    pub fn encode(&self) -> (bytes: Vec<u8>)
        ensures
            bytes@ == encoded(encrypted_text_identity_fields(self@)),
    {
        let mut bytes: Vec<u8> = Vec::new();
        let ghost e = Seq::<FieldModel>::empty();
        assert(bytes@ =~= encoded(e));
        write_bytes(&mut bytes, 1, self.author.as_slice(), Ghost(e));
        let ghost f0 = put_bytes(e, 1, self.author@);
        write_bytes(&mut bytes, 2, self.id.as_slice(), Ghost(f0));
        bytes
    }

    fn from_fields(fields: &Vec<Field>) -> (message: Option<Self>)
        ensures
            match message {
                Some(message) => encrypted_text_identity_of(models(fields@)) == Some(message@),
                None => encrypted_text_identity_of(models(fields@)) is None,
            },
    {
        let author: Vec<u8> = match find_bytes(fields, 1) {
            Some(found) => found,
            None => {
                return None;
            },
        };
        let id: Vec<u8> = match find_bytes(fields, 2) {
            Some(found) => found,
            None => {
                return None;
            },
        };
        Some(EncryptedTextIdentity { author, id })
    }
}

/// An encrypted voice frame, sent as a datagram.
#[derive(Debug)]
pub struct VoiceFrame {
    pub stream_id: Vec<u8>,
    pub sequence: u64,
    pub payload: Vec<u8>,
    pub channel_id: Vec<u8>,
    pub epoch: u64,
    pub membership_head: Vec<u8>,
    pub nonce: Vec<u8>,
}

/// What the message says.
pub struct VoiceFrameModel {
    pub stream_id: Seq<u8>,
    pub sequence: u64,
    pub payload: Seq<u8>,
    pub channel_id: Seq<u8>,
    pub epoch: u64,
    pub membership_head: Seq<u8>,
    pub nonce: Seq<u8>,
}

impl View for VoiceFrame {
    type V = VoiceFrameModel;

    open spec fn view(&self) -> VoiceFrameModel {
        VoiceFrameModel {
            stream_id: self.stream_id@,
            sequence: self.sequence,
            payload: self.payload@,
            channel_id: self.channel_id@,
            epoch: self.epoch,
            membership_head: self.membership_head@,
            nonce: self.nonce@,
        }
    }
}

/// The fields of the message.
pub open spec fn voice_frame_fields(message: VoiceFrameModel) -> Seq<FieldModel> {
    let f0 = put_bytes(Seq::<FieldModel>::empty(), 1, message.stream_id);
    let f1 = put_number(f0, 2, message.sequence);
    let f2 = put_bytes(f1, 3, message.payload);
    let f3 = put_bytes(f2, 4, message.channel_id);
    let f4 = put_number(f3, 5, message.epoch);
    let f5 = put_bytes(f4, 6, message.membership_head);
    let f6 = put_bytes(f5, 7, message.nonce);
    f6
}

/// The message that the fields hold.
pub open spec fn voice_frame_of(fields: Seq<FieldModel>) -> Option<VoiceFrameModel> {
    if bytes_at(fields, 1) is Some
        && number_at(fields, 2) is Some
        && bytes_at(fields, 3) is Some
        && bytes_at(fields, 4) is Some
        && number_at(fields, 5) is Some
        && bytes_at(fields, 6) is Some
        && bytes_at(fields, 7) is Some {
        Some(VoiceFrameModel {
            stream_id: bytes_at(fields, 1)->0,
            sequence: number_at(fields, 2)->0,
            payload: bytes_at(fields, 3)->0,
            channel_id: bytes_at(fields, 4)->0,
            epoch: number_at(fields, 5)->0,
            membership_head: bytes_at(fields, 6)->0,
            nonce: bytes_at(fields, 7)->0,
        })
    } else {
        None
    }
}

/// Reading the fields of a message gives the message.
pub proof fn voice_frame_reads_back(message: VoiceFrameModel)
    requires
        message.stream_id.len() <= u64::MAX,
        message.payload.len() <= u64::MAX,
        message.channel_id.len() <= u64::MAX,
        message.membership_head.len() <= u64::MAX,
        message.nonce.len() <= u64::MAX,
    ensures
        voice_frame_of(voice_frame_fields(message)) == Some(message),
        forall|depth: nat| #[trigger]
            parsed(encoded(voice_frame_fields(message)), depth) == Some(voice_frame_fields(message)),
{
    broadcast use group_fields;

    let fields = voice_frame_fields(message);
    assert(writable(Seq::<FieldModel>::empty()));
    assert(bytes_at(fields, 1) is Some && bytes_at(fields, 1)->0 =~= message.stream_id);
    assert(bytes_at(fields, 3) is Some && bytes_at(fields, 3)->0 =~= message.payload);
    assert(bytes_at(fields, 4) is Some && bytes_at(fields, 4)->0 =~= message.channel_id);
    assert(bytes_at(fields, 6) is Some && bytes_at(fields, 6)->0 =~= message.membership_head);
    assert(bytes_at(fields, 7) is Some && bytes_at(fields, 7)->0 =~= message.nonce);
    assert(writable(fields));
    fields_read_back(fields);
}

impl VoiceFrame {
    /// The bytes of the message.
    pub fn encode(&self) -> (bytes: Vec<u8>)
        ensures
            bytes@ == encoded(voice_frame_fields(self@)),
    {
        let mut bytes: Vec<u8> = Vec::new();
        let ghost e = Seq::<FieldModel>::empty();
        assert(bytes@ =~= encoded(e));
        write_bytes(&mut bytes, 1, self.stream_id.as_slice(), Ghost(e));
        let ghost f0 = put_bytes(e, 1, self.stream_id@);
        write_number(&mut bytes, 2, self.sequence, Ghost(f0));
        let ghost f1 = put_number(f0, 2, self.sequence);
        write_bytes(&mut bytes, 3, self.payload.as_slice(), Ghost(f1));
        let ghost f2 = put_bytes(f1, 3, self.payload@);
        write_bytes(&mut bytes, 4, self.channel_id.as_slice(), Ghost(f2));
        let ghost f3 = put_bytes(f2, 4, self.channel_id@);
        write_number(&mut bytes, 5, self.epoch, Ghost(f3));
        let ghost f4 = put_number(f3, 5, self.epoch);
        write_bytes(&mut bytes, 6, self.membership_head.as_slice(), Ghost(f4));
        let ghost f5 = put_bytes(f4, 6, self.membership_head@);
        write_bytes(&mut bytes, 7, self.nonce.as_slice(), Ghost(f5));
        bytes
    }

    fn from_fields(fields: &Vec<Field>) -> (message: Option<Self>)
        ensures
            match message {
                Some(message) => voice_frame_of(models(fields@)) == Some(message@),
                None => voice_frame_of(models(fields@)) is None,
            },
    {
        let stream_id: Vec<u8> = match find_bytes(fields, 1) {
            Some(found) => found,
            None => {
                return None;
            },
        };
        let sequence: u64 = match find_number(fields, 2) {
            Some(found) => found,
            None => {
                return None;
            },
        };
        let payload: Vec<u8> = match find_bytes(fields, 3) {
            Some(found) => found,
            None => {
                return None;
            },
        };
        let channel_id: Vec<u8> = match find_bytes(fields, 4) {
            Some(found) => found,
            None => {
                return None;
            },
        };
        let epoch: u64 = match find_number(fields, 5) {
            Some(found) => found,
            None => {
                return None;
            },
        };
        let membership_head: Vec<u8> = match find_bytes(fields, 6) {
            Some(found) => found,
            None => {
                return None;
            },
        };
        let nonce: Vec<u8> = match find_bytes(fields, 7) {
            Some(found) => found,
            None => {
                return None;
            },
        };
        Some(VoiceFrame { stream_id, sequence, payload, channel_id, epoch, membership_head, nonce })
    }

    /// The message in `bytes`.
    pub fn decode(bytes: &[u8]) -> (message: Option<Self>)
        ensures
            match message {
                Some(message) => voice_frame_in(bytes@) == Some(message@),
                None => voice_frame_in(bytes@) is None,
            },
    {
        match parse_fields(bytes, MAX_DEPTH) {
            Some(fields) => VoiceFrame::from_fields(&fields),
            None => None,
        }
    }
}

/// The voice frame in `bytes`.
pub open spec fn voice_frame_in(bytes: Seq<u8>) -> Option<VoiceFrameModel> {
    match parsed(bytes, MAX_DEPTH as nat) {
        Some(fields) => voice_frame_of(fields),
        None => None,
    }
}

fn write_message(out: &mut Vec<u8>, tag: u32, bytes: &[u8], Ghost(fields): Ghost<Seq<FieldModel>>)
    requires
        1 <= tag < 0x2000_0000,
        old(out)@ == encoded(fields),
    ensures
        final(out)@ == encoded(fields.push(FieldModel::Bytes { tag, bytes: bytes@ })),
{
    let ghost field = FieldModel::Bytes { tag, bytes: bytes@ };
    write_varint(tag as u64 * 8 + 2, out);
    write_varint(bytes.len() as u64, out);
    append(out, bytes);
    proof {
        assert(fields.push(field).drop_last() =~= fields);
        assert(out@ =~= encoded(fields) + field_bytes(field));
    }
}

/// Which texts a peer holds.
#[derive(Debug)]
pub struct TextInventory {
    pub messages: Vec<EncryptedTextIdentity>,
}

/// What the message says.
pub struct TextInventoryModel {
    pub messages: Seq<EncryptedTextIdentityModel>,
}

impl View for TextInventory {
    type V = TextInventoryModel;

    open spec fn view(&self) -> TextInventoryModel {
        TextInventoryModel {
            messages: Seq::new(self.messages@.len(), |i: int| self.messages@[i]@),
        }
    }
}

/// The fields of the message: one for each text.
pub open spec fn text_inventory_fields(message: TextInventoryModel) -> Seq<FieldModel> {
    Seq::new(
        message.messages.len(),
        |i: int|
            FieldModel::Bytes {
                tag: 1,
                bytes: encoded(encrypted_text_identity_fields(message.messages[i])),
            },
    )
}

/// The message that the fields hold.
pub open spec fn text_inventory_of(fields: Seq<FieldModel>) -> Option<TextInventoryModel>
    decreases fields.len(),
{
    if fields.len() == 0 {
        Some(TextInventoryModel { messages: Seq::empty() })
    } else {
        match text_inventory_of(fields.drop_last()) {
            None => None,
            Some(before) => if fields.last().tag() != 1 {
                Some(before)
            } else {
                match fields.last() {
                    FieldModel::Bytes { bytes, .. } => match identity_in(bytes) {
                        Some(identity) => Some(
                            TextInventoryModel { messages: before.messages.push(identity) },
                        ),
                        None => None,
                    },
                    _ => None,
                }
            },
        }
    }
}

/// The author and the name of a text in `bytes`.
pub open spec fn identity_in(bytes: Seq<u8>) -> Option<EncryptedTextIdentityModel> {
    match parsed(bytes, (MAX_DEPTH - 2) as nat) {
        Some(fields) => encrypted_text_identity_of(fields),
        None => None,
    }
}

/// Whether a message is no longer than a length in 64 bits can say.
pub open spec fn sendable(message: TextInventoryModel) -> bool {
    forall|i: int|
        0 <= i < message.messages.len() ==> (#[trigger] message.messages[i]).author.len()
            <= u64::MAX && message.messages[i].id.len() <= u64::MAX && encoded(
            encrypted_text_identity_fields(message.messages[i]),
        ).len() <= u64::MAX
}

/// Reading the fields of a message gives the message.
pub proof fn text_inventory_reads_back(message: TextInventoryModel)
    requires
        sendable(message),
    ensures
        text_inventory_of(text_inventory_fields(message)) == Some(message),
        forall|depth: nat| #[trigger]
            parsed(encoded(text_inventory_fields(message)), depth) == Some(text_inventory_fields(message)),
    decreases message.messages.len(),
{
    let fields = text_inventory_fields(message);
    assert(writable(fields));
    fields_read_back(fields);
    if message.messages.len() == 0 {
        assert(message.messages =~= Seq::empty());
    } else {
        let less = TextInventoryModel { messages: message.messages.drop_last() };
        let last = message.messages.last();
        assert(less.messages.len() == message.messages.len() - 1);
        assert forall|i: int| 0 <= i < less.messages.len() implies (
        #[trigger] less.messages[i]).author.len() <= u64::MAX && less.messages[i].id.len()
            <= u64::MAX && encoded(encrypted_text_identity_fields(less.messages[i])).len()
            <= u64::MAX by {
            assert(less.messages[i] == message.messages[i]);
        }
        text_inventory_reads_back(less);
        assert(fields.drop_last() =~= text_inventory_fields(less));
        assert(last == message.messages[message.messages.len() - 1]);
        encrypted_text_identity_reads_back(last);
        assert(less.messages.push(last) =~= message.messages);
    }
}

proof fn inventory_failure_stays(fields: Seq<FieldModel>, n: int)
    requires
        0 <= n <= fields.len(),
        text_inventory_of(fields.take(n)) is None,
    ensures
        text_inventory_of(fields) is None,
    decreases fields.len() - n,
{
    if n < fields.len() {
        step(fields, n);
        inventory_failure_stays(fields, n + 1);
    } else {
        assert(fields.take(n) =~= fields);
    }
}

impl TextInventory {
    /// The bytes of the message.
    pub fn encode(&self) -> (bytes: Vec<u8>)
        ensures
            bytes@ == encoded(text_inventory_fields(self@)),
    {
        let mut bytes: Vec<u8> = Vec::new();
        let mut i: usize = 0;
        let ghost all = text_inventory_fields(self@);
        assert(all.take(0) =~= Seq::<FieldModel>::empty());
        assert(bytes@ =~= encoded(all.take(0)));
        while i < self.messages.len()
            invariant
                i <= self.messages@.len(),
                all == text_inventory_fields(self@),
                bytes@ == encoded(all.take(i as int)),
            decreases self.messages@.len() - i,
        {
            let part: Vec<u8> = self.messages[i].encode();
            proof {
                step(all, i as int);
                assert(all.take(i as int).push(all[i as int]) =~= all.take(i + 1));
            }
            write_message(&mut bytes, 1, part.as_slice(), Ghost(all.take(i as int)));
            i += 1;
        }
        assert(all.take(i as int) =~= all);
        bytes
    }

    fn from_fields(fields: &Vec<Field>) -> (message: Option<Self>)
        ensures
            match message {
                Some(message) => text_inventory_of(models(fields@)) == Some(message@),
                None => text_inventory_of(models(fields@)) is None,
            },
    {
        let mut messages: Vec<EncryptedTextIdentity> = Vec::new();
        let mut i: usize = 0;
        let ghost all = models(fields@);
        proof {
            assert(all.take(0).len() == 0);
            assert(Seq::new(messages@.len(), |i: int| messages@[i]@) =~= Seq::empty());
        }
        while i < fields.len()
            invariant
                i <= fields@.len(),
                all == models(fields@),
                text_inventory_of(all.take(i as int)) == Some(
                    TextInventoryModel {
                        messages: Seq::new(messages@.len(), |i: int| messages@[i]@),
                    },
                ),
            decreases fields@.len() - i,
        {
            proof {
                step(all, i as int);
            }
            let ghost before = Seq::new(messages@.len(), |i: int| messages@[i]@);
            match &fields[i] {
                Field::Bytes { tag, bytes } => {
                    if *tag == 1 {
                        let identity: Option<EncryptedTextIdentity> = match parse_fields(
                            bytes.as_slice(),
                            MAX_DEPTH - 2,
                        ) {
                            Some(inner) => EncryptedTextIdentity::from_fields(&inner),
                            None => None,
                        };
                        match identity {
                            Some(identity) => {
                                messages.push(identity);
                                assert(Seq::new(messages@.len(), |i: int| messages@[i]@)
                                    =~= before.push(identity@));
                            },
                            None => {
                                proof {
                                    inventory_failure_stays(all, i + 1);
                                }
                                return None;
                            },
                        }
                    }
                },
                Field::Number { tag, value } => {
                    if *tag == 1 {
                        proof {
                            inventory_failure_stays(all, i + 1);
                        }
                        return None;
                    }
                },
                Field::Other { tag } => {
                    if *tag == 1 {
                        proof {
                            inventory_failure_stays(all, i + 1);
                        }
                        return None;
                    }
                },
            }
            i += 1;
        }
        assert(all.take(i as int) =~= all);
        Some(TextInventory { messages })
    }
}

/// What a statement about a voice channel says.
#[derive(Clone, Copy, Debug, PartialEq, Eq, Structural)]
pub enum PresenceState {
    Joined(bool),
    Left(bool),
    Muted(bool),
}

/// A statement about a voice channel, before it is encrypted.
#[derive(Debug)]
pub struct VoicePresencePayload {
    pub channel_id: Vec<u8>,
    pub state: Option<PresenceState>,
}

/// What the message says.
pub struct VoicePresencePayloadModel {
    pub channel_id: Seq<u8>,
    pub state: Option<PresenceState>,
}

impl View for VoicePresencePayload {
    type V = VoicePresencePayloadModel;

    open spec fn view(&self) -> VoicePresencePayloadModel {
        VoicePresencePayloadModel { channel_id: self.channel_id@, state: self.state }
    }
}

/// The field of a state; it is written whatever its value.
pub open spec fn state_field(state: PresenceState) -> FieldModel {
    match state {
        PresenceState::Joined(value) => FieldModel::Number { tag: 2, value: flag(value) },
        PresenceState::Left(value) => FieldModel::Number { tag: 3, value: flag(value) },
        PresenceState::Muted(value) => FieldModel::Number { tag: 4, value: flag(value) },
    }
}

/// The state that the last of the state fields gives; `None` where one of them is no number.
pub open spec fn state_at(fields: Seq<FieldModel>) -> Option<Option<PresenceState>>
    decreases fields.len(),
{
    if fields.len() == 0 {
        Some(None)
    } else {
        match state_at(fields.drop_last()) {
            None => None,
            Some(before) => if fields.last().tag() < 2 || fields.last().tag() > 4 {
                Some(before)
            } else {
                match fields.last() {
                    FieldModel::Number { tag, value } => Some(
                        Some(
                            if tag == 2 {
                                PresenceState::Joined(value != 0)
                            } else if tag == 3 {
                                PresenceState::Left(value != 0)
                            } else {
                                PresenceState::Muted(value != 0)
                            },
                        ),
                    ),
                    _ => None,
                }
            },
        }
    }
}

/// The fields of the message.
pub open spec fn voice_presence_payload_fields(message: VoicePresencePayloadModel) -> Seq<
    FieldModel,
> {
    let named = put_bytes(Seq::empty(), 1, message.channel_id);
    match message.state {
        Some(state) => named.push(state_field(state)),
        None => named,
    }
}

/// The message that the fields hold.
pub open spec fn voice_presence_payload_of(fields: Seq<FieldModel>) -> Option<
    VoicePresencePayloadModel,
> {
    if bytes_at(fields, 1) is Some && state_at(fields) is Some {
        Some(
            VoicePresencePayloadModel {
                channel_id: bytes_at(fields, 1)->0,
                state: state_at(fields)->0,
            },
        )
    } else {
        None
    }
}

/// The message in `bytes`.
pub open spec fn voice_presence_payload_in(bytes: Seq<u8>) -> Option<VoicePresencePayloadModel> {
    match parsed(bytes, MAX_DEPTH as nat) {
        Some(fields) => voice_presence_payload_of(fields),
        None => None,
    }
}

/// Reading the bytes of a message gives the message.
pub proof fn voice_presence_payload_reads_back(message: VoicePresencePayloadModel)
    requires
        message.channel_id.len() <= u64::MAX,
    ensures
        voice_presence_payload_in(encoded(voice_presence_payload_fields(message))) == Some(message),
{
    broadcast use group_fields;

    let named = put_bytes(Seq::<FieldModel>::empty(), 1, message.channel_id);
    let fields = voice_presence_payload_fields(message);
    assert(writable(Seq::<FieldModel>::empty()));
    assert(writable(named));
    assert(state_at(Seq::<FieldModel>::empty()) == Some(None::<PresenceState>));
    assert(named.len() > 0 ==> named.drop_last() =~= Seq::<FieldModel>::empty());
    assert(state_at(named) == Some(None::<PresenceState>));
    if message.state is Some {
        assert(fields.drop_last() =~= named);
        assert(fields.last() == state_field(message.state->0));
    }
    assert(bytes_at(named, 1) is Some && bytes_at(named, 1)->0 =~= message.channel_id);
    assert(bytes_at(fields, 1) == bytes_at(named, 1));
    assert(state_at(fields) == Some(message.state));
    fields_read_back(fields);
}

proof fn state_failure_stays(fields: Seq<FieldModel>, n: int)
    requires
        0 <= n <= fields.len(),
        state_at(fields.take(n)) is None,
    ensures
        state_at(fields) is None,
    decreases fields.len() - n,
{
    if n < fields.len() {
        step(fields, n);
        state_failure_stays(fields, n + 1);
    } else {
        assert(fields.take(n) =~= fields);
    }
}

fn find_state(fields: &Vec<Field>) -> (found: Option<Option<PresenceState>>)
    ensures
        found == state_at(models(fields@)),
{
    let mut found: Option<PresenceState> = None;
    let mut i: usize = 0;
    let ghost all = models(fields@);
    assert(all.take(0).len() == 0);
    while i < fields.len()
        invariant
            i <= fields@.len(),
            all == models(fields@),
            state_at(all.take(i as int)) == Some(found),
        decreases fields@.len() - i,
    {
        proof {
            step(all, i as int);
        }
        match &fields[i] {
            Field::Number { tag, value } => {
                if *tag == 2 {
                    found = Some(PresenceState::Joined(*value != 0));
                } else if *tag == 3 {
                    found = Some(PresenceState::Left(*value != 0));
                } else if *tag == 4 {
                    found = Some(PresenceState::Muted(*value != 0));
                }
            },
            Field::Bytes { tag, bytes } => {
                if 2 <= *tag && *tag <= 4 {
                    proof {
                        state_failure_stays(all, i + 1);
                    }
                    return None;
                }
            },
            Field::Other { tag } => {
                if 2 <= *tag && *tag <= 4 {
                    proof {
                        state_failure_stays(all, i + 1);
                    }
                    return None;
                }
            },
        }
        i += 1;
    }
    assert(all.take(i as int) =~= all);
    Some(found)
}

impl VoicePresencePayload {
    /// The bytes of the message.
    pub fn encode(&self) -> (bytes: Vec<u8>)
        ensures
            bytes@ == encoded(voice_presence_payload_fields(self@)),
    {
        let mut bytes: Vec<u8> = Vec::new();
        let ghost e = Seq::<FieldModel>::empty();
        assert(bytes@ =~= encoded(e));
        write_bytes(&mut bytes, 1, self.channel_id.as_slice(), Ghost(e));
        let ghost named = put_bytes(e, 1, self.channel_id@);
        match self.state {
            Some(state) => {
                let (tag, value): (u64, bool) = match state {
                    PresenceState::Joined(value) => (2, value),
                    PresenceState::Left(value) => (3, value),
                    PresenceState::Muted(value) => (4, value),
                };
                write_varint(tag * 8, &mut bytes);
                write_varint(flag_number(value), &mut bytes);
                proof {
                    let fields = voice_presence_payload_fields(self@);
                    assert(fields.drop_last() =~= named);
                    assert(fields.last() == state_field(state));
                    assert(bytes@ =~= encoded(named) + field_bytes(state_field(state)));
                }
            },
            None => {},
        }
        bytes
    }

    /// The message in `bytes`.
    pub fn decode(bytes: &[u8]) -> (message: Option<Self>)
        ensures
            match message {
                Some(message) => voice_presence_payload_in(bytes@) == Some(message@),
                None => voice_presence_payload_in(bytes@) is None,
            },
    {
        let fields: Vec<Field> = match parse_fields(bytes, MAX_DEPTH) {
            Some(fields) => fields,
            None => {
                return None;
            },
        };
        let channel_id: Vec<u8> = match find_bytes(&fields, 1) {
            Some(found) => found,
            None => {
                return None;
            },
        };
        match find_state(&fields) {
            Some(state) => Some(VoicePresencePayload { channel_id, state }),
            None => None,
        }
    }
}

/// What one peer sends another.
#[derive(Debug)]
pub enum Body {
    Text(TextMessage),
    Membership(MembershipChange),
    CreateChannel(CreateChannel),
    KeyRegistration(KeyRegistration),
    ContentKeyEnvelope(ContentKeyEnvelope),
    Attachment(Attachment),
    MemberProfile(MemberProfile),
    VoicePresence(VoicePresence),
    TextInventory(TextInventory),
}

/// What the message says.
pub enum BodyModel {
    Text(TextMessageModel),
    Membership(MembershipChangeModel),
    CreateChannel(CreateChannelModel),
    KeyRegistration(KeyRegistrationModel),
    ContentKeyEnvelope(ContentKeyEnvelopeModel),
    Attachment(AttachmentModel),
    MemberProfile(MemberProfileModel),
    VoicePresence(VoicePresenceModel),
    TextInventory(TextInventoryModel),
}

impl View for Body {
    type V = BodyModel;

    open spec fn view(&self) -> BodyModel {
        match self {
            Body::Text(message) => BodyModel::Text(message@),
            Body::Membership(message) => BodyModel::Membership(message@),
            Body::CreateChannel(message) => BodyModel::CreateChannel(message@),
            Body::KeyRegistration(message) => BodyModel::KeyRegistration(message@),
            Body::ContentKeyEnvelope(message) => BodyModel::ContentKeyEnvelope(message@),
            Body::Attachment(message) => BodyModel::Attachment(message@),
            Body::MemberProfile(message) => BodyModel::MemberProfile(message@),
            Body::VoicePresence(message) => BodyModel::VoicePresence(message@),
            Body::TextInventory(message) => BodyModel::TextInventory(message@),
        }
    }
}

/// The tag of a body.
pub open spec fn body_tag(body: BodyModel) -> u32 {
    match body {
        BodyModel::Text(_) => 1,
        BodyModel::Membership(_) => 2,
        BodyModel::CreateChannel(_) => 3,
        BodyModel::KeyRegistration(_) => 4,
        BodyModel::ContentKeyEnvelope(_) => 5,
        BodyModel::Attachment(_) => 6,
        BodyModel::MemberProfile(_) => 7,
        BodyModel::VoicePresence(_) => 8,
        BodyModel::TextInventory(_) => 9,
    }
}

/// The fields of a body.
pub open spec fn body_fields(body: BodyModel) -> Seq<FieldModel> {
    match body {
        BodyModel::Text(message) => text_message_fields(message),
        BodyModel::Membership(message) => membership_change_fields(message),
        BodyModel::CreateChannel(message) => create_channel_fields(message),
        BodyModel::KeyRegistration(message) => key_registration_fields(message),
        BodyModel::ContentKeyEnvelope(message) => content_key_envelope_fields(message),
        BodyModel::Attachment(message) => attachment_fields(message),
        BodyModel::MemberProfile(message) => member_profile_fields(message),
        BodyModel::VoicePresence(message) => voice_presence_fields(message),
        BodyModel::TextInventory(message) => text_inventory_fields(message),
    }
}

/// The body that the fields hold under a tag.
pub open spec fn body_of(tag: u32, fields: Seq<FieldModel>) -> Option<BodyModel> {
    if tag == 1 {
        match text_message_of(fields) {
            Some(message) => Some(BodyModel::Text(message)),
            None => None,
        }
    } else if tag == 2 {
        match membership_change_of(fields) {
            Some(message) => Some(BodyModel::Membership(message)),
            None => None,
        }
    } else if tag == 3 {
        match create_channel_of(fields) {
            Some(message) => Some(BodyModel::CreateChannel(message)),
            None => None,
        }
    } else if tag == 4 {
        match key_registration_of(fields) {
            Some(message) => Some(BodyModel::KeyRegistration(message)),
            None => None,
        }
    } else if tag == 5 {
        match content_key_envelope_of(fields) {
            Some(message) => Some(BodyModel::ContentKeyEnvelope(message)),
            None => None,
        }
    } else if tag == 6 {
        match attachment_of(fields) {
            Some(message) => Some(BodyModel::Attachment(message)),
            None => None,
        }
    } else if tag == 7 {
        match member_profile_of(fields) {
            Some(message) => Some(BodyModel::MemberProfile(message)),
            None => None,
        }
    } else if tag == 8 {
        match voice_presence_of(fields) {
            Some(message) => Some(BodyModel::VoicePresence(message)),
            None => None,
        }
    } else if tag == 9 {
        match text_inventory_of(fields) {
            Some(message) => Some(BodyModel::TextInventory(message)),
            None => None,
        }
    } else {
        None
    }
}

/// The tag and the fields of the body that an operation holds, if it holds one; `None` where the
/// bytes under one of the bodies' tags are no such body. Pieces under one tag are joined.
pub open spec fn body_at(fields: Seq<FieldModel>) -> Option<Option<(u32, Seq<FieldModel>)>>
    decreases fields.len(),
{
    if fields.len() == 0 {
        Some(None)
    } else {
        match body_at(fields.drop_last()) {
            None => None,
            Some(before) => if fields.last().tag() < 1 || fields.last().tag() > 9 {
                Some(before)
            } else {
                match fields.last() {
                    FieldModel::Bytes { tag, bytes } => match parsed(bytes, (MAX_DEPTH - 1) as nat) {
                        Some(inner) => if body_of(tag, inner) is None {
                            None
                        } else {
                            match before {
                                Some((held, fields)) => if held == tag {
                                    Some(Some((tag, fields + inner)))
                                } else {
                                    Some(Some((tag, inner)))
                                },
                                None => Some(Some((tag, inner))),
                            }
                        },
                        None => None,
                    },
                    _ => None,
                }
            },
        }
    }
}

/// The operation in `bytes`: its body, if it has one; `None` where the bytes are no operation.
pub open spec fn operation_in(bytes: Seq<u8>) -> Option<Option<BodyModel>> {
    match parsed(bytes, MAX_DEPTH as nat) {
        None => None,
        Some(fields) => match body_at(fields) {
            None => None,
            Some(None) => Some(None),
            Some(Some((tag, fields))) => match body_of(tag, fields) {
                Some(body) => Some(Some(body)),
                None => None,
            },
        },
    }
}

/// The bytes of the operation with this body.
pub open spec fn operation_bytes(body: BodyModel) -> Seq<u8> {
    encoded(
        seq![FieldModel::Bytes { tag: body_tag(body), bytes: encoded(body_fields(body)) }],
    )
}

/// Whether every part of a body is no longer than a length in 64 bits can say.
pub open spec fn body_sendable(body: BodyModel) -> bool {
    &&& encoded(body_fields(body)).len() <= u64::MAX
    &&& match body {
        BodyModel::Text(message) => message.id.len() <= u64::MAX
            && message.author.len() <= u64::MAX
            && message.signature.len() <= u64::MAX
            && message.channel_id.len() <= u64::MAX
            && message.membership_head.len() <= u64::MAX
            && message.nonce.len() <= u64::MAX
            && message.ciphertext.len() <= u64::MAX
            && encode_utf8(message.body).len() <= u64::MAX,
        BodyModel::Membership(message) => message.member.len() <= u64::MAX
            && message.signature.len() <= u64::MAX,
        BodyModel::CreateChannel(message) => message.id.len() <= u64::MAX
            && message.signature.len() <= u64::MAX
            && encode_utf8(message.name).len() <= u64::MAX,
        BodyModel::KeyRegistration(message) => message.member.len() <= u64::MAX
            && message.public_key.len() <= u64::MAX
            && message.signature.len() <= u64::MAX,
        BodyModel::ContentKeyEnvelope(message) => message.membership_head.len() <= u64::MAX
            && message.recipient.len() <= u64::MAX
            && message.encapsulated_key.len() <= u64::MAX
            && message.ciphertext.len() <= u64::MAX
            && message.signature.len() <= u64::MAX,
        BodyModel::Attachment(message) => message.id.len() <= u64::MAX
            && message.author.len() <= u64::MAX
            && message.channel_id.len() <= u64::MAX
            && message.membership_head.len() <= u64::MAX
            && message.nonce.len() <= u64::MAX
            && message.ciphertext.len() <= u64::MAX
            && message.signature.len() <= u64::MAX,
        BodyModel::MemberProfile(message) => message.member.len() <= u64::MAX
            && message.membership_head.len() <= u64::MAX
            && message.nonce.len() <= u64::MAX
            && message.ciphertext.len() <= u64::MAX
            && message.signature.len() <= u64::MAX,
        BodyModel::VoicePresence(message) => message.membership_head.len() <= u64::MAX
            && message.nonce.len() <= u64::MAX
            && message.ciphertext.len() <= u64::MAX,
        BodyModel::TextInventory(message) => sendable(message),
    }
}

/// Reading the bytes of an operation gives the operation.
pub proof fn operation_reads_back(body: BodyModel)
    requires
        body_sendable(body),
    ensures
        operation_in(operation_bytes(body)) == Some(Some(body)),
{
    match body {
        BodyModel::Text(message) => {
            text_message_reads_back(message);
        },
        BodyModel::Membership(message) => {
            membership_change_reads_back(message);
        },
        BodyModel::CreateChannel(message) => {
            create_channel_reads_back(message);
        },
        BodyModel::KeyRegistration(message) => {
            key_registration_reads_back(message);
        },
        BodyModel::ContentKeyEnvelope(message) => {
            content_key_envelope_reads_back(message);
        },
        BodyModel::Attachment(message) => {
            attachment_reads_back(message);
        },
        BodyModel::MemberProfile(message) => {
            member_profile_reads_back(message);
        },
        BodyModel::VoicePresence(message) => {
            voice_presence_reads_back(message);
        },
        BodyModel::TextInventory(message) => {
            text_inventory_reads_back(message);
        },
    }
    let inner = body_fields(body);
    let field = FieldModel::Bytes { tag: body_tag(body), bytes: encoded(inner) };
    let fields = seq![field];
    assert(writable(fields));
    fields_read_back(fields);
    assert(fields.drop_last() =~= Seq::<FieldModel>::empty());
    assert(fields.last() == field);
    assert(body_at(Seq::<FieldModel>::empty()) == Some(None::<(u32, Seq<FieldModel>)>));
    assert(body_at(fields) == Some(Some((body_tag(body), inner))));
}

proof fn body_failure_stays(fields: Seq<FieldModel>, n: int)
    requires
        0 <= n <= fields.len(),
        body_at(fields.take(n)) is None,
    ensures
        body_at(fields) is None,
    decreases fields.len() - n,
{
    if n < fields.len() {
        step(fields, n);
        body_failure_stays(fields, n + 1);
    } else {
        assert(fields.take(n) =~= fields);
    }
}

impl Body {
    fn encode_body(&self) -> (bytes: Vec<u8>)
        ensures
            bytes@ == encoded(body_fields(self@)),
    {
        match self {
            Body::Text(message) => message.encode(),
            Body::Membership(message) => message.encode(),
            Body::CreateChannel(message) => message.encode(),
            Body::KeyRegistration(message) => message.encode(),
            Body::ContentKeyEnvelope(message) => message.encode(),
            Body::Attachment(message) => message.encode(),
            Body::MemberProfile(message) => message.encode(),
            Body::VoicePresence(message) => message.encode(),
            Body::TextInventory(message) => message.encode(),
        }
    }

    fn tag(&self) -> (tag: u32)
        ensures
            tag == body_tag(self@),
            1 <= tag <= 9,
    {
        match self {
            Body::Text(_) => 1,
            Body::Membership(_) => 2,
            Body::CreateChannel(_) => 3,
            Body::KeyRegistration(_) => 4,
            Body::ContentKeyEnvelope(_) => 5,
            Body::Attachment(_) => 6,
            Body::MemberProfile(_) => 7,
            Body::VoicePresence(_) => 8,
            Body::TextInventory(_) => 9,
        }
    }

    /// The bytes of the operation with this body.
    pub fn encode(&self) -> (bytes: Vec<u8>)
        ensures
            bytes@ == operation_bytes(self@),
    {
        let part: Vec<u8> = self.encode_body();
        let mut bytes: Vec<u8> = Vec::new();
        let ghost e = Seq::<FieldModel>::empty();
        assert(bytes@ =~= encoded(e));
        write_message(&mut bytes, self.tag(), part.as_slice(), Ghost(e));
        proof {
            let field = FieldModel::Bytes {
                tag: body_tag(self@),
                bytes: encoded(body_fields(self@)),
            };
            assert(e.push(field) =~= seq![field]);
        }
        bytes
    }

    fn from_fields(tag: u32, fields: &Vec<Field>) -> (body: Option<Self>)
        ensures
            match body {
                Some(body) => body_of(tag, models(fields@)) == Some(body@),
                None => body_of(tag, models(fields@)) is None,
            },
    {
        if tag == 1 {
            match TextMessage::from_fields(fields) {
                Some(message) => Some(Body::Text(message)),
                None => None,
            }
        } else if tag == 2 {
            match MembershipChange::from_fields(fields) {
                Some(message) => Some(Body::Membership(message)),
                None => None,
            }
        } else if tag == 3 {
            match CreateChannel::from_fields(fields) {
                Some(message) => Some(Body::CreateChannel(message)),
                None => None,
            }
        } else if tag == 4 {
            match KeyRegistration::from_fields(fields) {
                Some(message) => Some(Body::KeyRegistration(message)),
                None => None,
            }
        } else if tag == 5 {
            match ContentKeyEnvelope::from_fields(fields) {
                Some(message) => Some(Body::ContentKeyEnvelope(message)),
                None => None,
            }
        } else if tag == 6 {
            match Attachment::from_fields(fields) {
                Some(message) => Some(Body::Attachment(message)),
                None => None,
            }
        } else if tag == 7 {
            match MemberProfile::from_fields(fields) {
                Some(message) => Some(Body::MemberProfile(message)),
                None => None,
            }
        } else if tag == 8 {
            match VoicePresence::from_fields(fields) {
                Some(message) => Some(Body::VoicePresence(message)),
                None => None,
            }
        } else if tag == 9 {
            match TextInventory::from_fields(fields) {
                Some(message) => Some(Body::TextInventory(message)),
                None => None,
            }
        } else {
            None
        }
    }

    /// The operation in `bytes`: its body, if it has one.
    pub fn decode(bytes: &[u8]) -> (operation: Option<Option<Self>>)
        ensures
            match operation {
                Some(Some(body)) => operation_in(bytes@) == Some(Some(body@)),
                Some(None) => operation_in(bytes@) == Some(None::<BodyModel>),
                None => operation_in(bytes@) is None,
            },
    {
        let fields: Vec<Field> = match parse_fields(bytes, MAX_DEPTH) {
            Some(fields) => fields,
            None => {
                return None;
            },
        };
        let ghost all = models(fields@);
        let mut held_tag: u32 = 0;
        let mut held: Vec<Field> = Vec::new();
        let mut i: usize = 0;
        assert(all.take(0).len() == 0);
        while i < fields.len()
            invariant
                i <= fields@.len(),
                all == models(fields@),
                parsed(bytes@, MAX_DEPTH as nat) == Some(all),
                body_at(all.take(i as int)) == (if held_tag == 0 {
                    Some(None::<(u32, Seq<FieldModel>)>)
                } else {
                    Some(Some((held_tag, models(held@))))
                }),
            decreases fields@.len() - i,
        {
            proof {
                step(all, i as int);
            }
            match &fields[i] {
                Field::Bytes { tag, bytes } => {
                    if 1 <= *tag && *tag <= 9 {
                        let mut inner: Vec<Field> = match parse_fields(
                            bytes.as_slice(),
                            MAX_DEPTH - 1,
                        ) {
                            Some(inner) => inner,
                            None => {
                                proof {
                                    body_failure_stays(all, i + 1);
                                }
                                return None;
                            },
                        };
                        if Body::from_fields(*tag, &inner).is_none() {
                            proof {
                                body_failure_stays(all, i + 1);
                            }
                            return None;
                        }
                        if held_tag == *tag {
                            let ghost before = models(held@);
                            let ghost more = models(inner@);
                            held.append(&mut inner);
                            assert(models(held@) =~= before + more);
                        } else {
                            held_tag = *tag;
                            held = inner;
                        }
                    }
                },
                Field::Number { tag, value } => {
                    if 1 <= *tag && *tag <= 9 {
                        proof {
                            body_failure_stays(all, i + 1);
                        }
                        return None;
                    }
                },
                Field::Other { tag } => {
                    if 1 <= *tag && *tag <= 9 {
                        proof {
                            body_failure_stays(all, i + 1);
                        }
                        return None;
                    }
                },
            }
            i += 1;
        }
        assert(all.take(i as int) =~= all);
        if held_tag == 0 {
            Some(None)
        } else {
            match Body::from_fields(held_tag, &held) {
                Some(body) => Some(Some(body)),
                None => None,
            }
        }
    }
}

} // verus!
