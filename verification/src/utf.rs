//! Places in a text: by characters, by bytes of UTF-8 and by units of UTF-16.

use vstd::prelude::*;
use vstd::utf8::{char_is_scalar, encode_scalar, encode_utf8};

use crate::text::utf8_len;

verus! {

/// How many bytes a character takes in UTF-8.
pub open spec fn width(c: char) -> nat {
    encode_scalar(c as u32).len()
}

/// How many bytes a character takes in UTF-8.
pub fn char_width(c: char) -> (bytes: usize)
    ensures
        bytes == width(c),
        1 <= bytes <= 4,
{
    proof {
        char_is_scalar(c);
    }
    let scalar: u32 = c as u32;
    if scalar < 0x80 {
        1
    } else if scalar < 0x800 {
        2
    } else if scalar < 0x10000 {
        3
    } else {
        4
    }
}

/// How many units a character takes in UTF-16.
pub open spec fn width16(c: char) -> nat {
    if (c as u32) < 0x10000 {
        1
    } else {
        2
    }
}

/// How many units a character takes in UTF-16.
pub fn char_width16(c: char) -> (units: usize)
    ensures
        units == width16(c),
{
    if (c as u32) < 0x10000 {
        1
    } else {
        2
    }
}

/// How many units a text takes in UTF-16.
pub open spec fn utf16_len(text: Seq<char>) -> nat
    decreases text.len(),
{
    if text.len() == 0 {
        0
    } else {
        utf16_len(text.drop_last()) + width16(text.last())
    }
}

/// How many bytes the first characters of a text take.
pub open spec fn at(text: Seq<char>, index: int) -> nat {
    utf8_len(text.take(index))
}

/// The last place in a text that is not behind a byte.
pub open spec fn floor_index(text: Seq<char>, offset: int) -> int
    decreases text.len(),
{
    if utf8_len(text) <= offset || text.len() == 0 {
        text.len() as int
    } else {
        floor_index(text.drop_last(), offset)
    }
}

/// Whether a byte is where a character starts, or where the text ends.
pub open spec fn is_boundary(text: Seq<char>, offset: int) -> bool {
    0 <= offset <= utf8_len(text) && at(text, floor_index(text, offset)) == offset
}

/// The lengths of two texts add up.
pub proof fn lengths_add(a: Seq<char>, b: Seq<char>)
    ensures
        utf8_len(a + b) == utf8_len(a) + utf8_len(b),
    decreases a.len(),
{
    if a.len() == 0 {
        assert(a + b =~= b);
    } else {
        assert((a + b).drop_first() =~= a.drop_first() + b);
        lengths_add(a.drop_first(), b);
    }
}

/// One more character is its bytes more.
pub proof fn length_with(text: Seq<char>, c: char)
    ensures
        utf8_len(text.push(c)) == utf8_len(text) + width(c),
        1 <= width(c) <= 4,
{
    char_is_scalar(c);
    lengths_add(text, seq![c]);
    assert(text + seq![c] =~= text.push(c));
    assert(seq![c].drop_first() =~= Seq::<char>::empty());
    assert(encode_utf8(seq![c]) =~= encode_scalar(c as u32)) by {
        reveal_with_fuel(encode_utf8, 2);
    }
}

/// Later places are at later bytes.
pub proof fn places_ascend(text: Seq<char>, i: int, j: int)
    requires
        0 <= i <= j <= text.len(),
    ensures
        at(text, i) + (j - i) <= at(text, j) <= utf8_len(text),
{
    places_step_up(text, i, j);
    places_step_up(text, j, text.len() as int);
    assert(text.take(text.len() as int) =~= text);
}

proof fn places_step_up(text: Seq<char>, i: int, j: int)
    requires
        0 <= i <= j <= text.len(),
    ensures
        at(text, i) + (j - i) <= at(text, j),
    decreases j - i,
{
    if i < j {
        places_step_up(text, i, j - 1);
        length_with(text.take(j - 1), text[j - 1]);
        assert(text.take(j - 1).push(text[j - 1]) =~= text.take(j));
    }
}

/// What the last place that is not behind a byte is.
pub proof fn floor_facts(text: Seq<char>, offset: int)
    requires
        0 <= offset,
    ensures
        0 <= floor_index(text, offset) <= text.len(),
        at(text, floor_index(text, offset)) <= offset,
        floor_index(text, offset) < text.len() ==> at(text, floor_index(text, offset) + 1) > offset,
    decreases text.len(),
{
    assert(text.take(text.len() as int) =~= text);
    if utf8_len(text) <= offset || text.len() == 0 {
        assert(text.len() == 0 ==> utf8_len(text) == 0);
    } else {
        let before = text.drop_last();
        floor_facts(before, offset);
        let i = floor_index(before, offset);
        assert(before.take(i) =~= text.take(i));
        if i < before.len() {
            assert(before.take(i + 1) =~= text.take(i + 1));
        } else {
            assert(text.take(i + 1) =~= text);
        }
    }
}

/// A place that is not behind a byte, while the next one is, is the last such place.
pub proof fn floor_is(text: Seq<char>, offset: int, i: int)
    requires
        0 <= i <= text.len(),
        at(text, i) <= offset,
        i < text.len() ==> at(text, i + 1) > offset,
    ensures
        floor_index(text, offset) == i,
{
    floor_facts(text, offset);
    let f = floor_index(text, offset);
    if f < i {
        places_ascend(text, f + 1, i);
    } else if i < f {
        places_ascend(text, i + 1, f);
    }
}

/// The place of a character is found again from its byte.
pub proof fn places_are_boundaries(text: Seq<char>, i: int)
    requires
        0 <= i <= text.len(),
    ensures
        floor_index(text, at(text, i) as int) == i,
        is_boundary(text, at(text, i) as int),
{
    places_ascend(text, i, text.len() as int);
    if i < text.len() {
        places_ascend(text, i, i + 1);
    }
    floor_is(text, at(text, i) as int, i);
}

/// Finds the last place that is not behind a byte: its character and its byte.
pub fn locate(chars: &Vec<char>, offset: usize) -> (place: (usize, usize))
    requires
        utf8_len(chars@) <= usize::MAX,
    ensures
        place.0 == floor_index(chars@, offset as int),
        place.0 <= chars@.len(),
        place.1 == at(chars@, place.0 as int),
        place.1 <= offset,
{
    let mut i: usize = 0;
    let mut bytes: usize = 0;
    assert(chars@.take(0) =~= Seq::<char>::empty());
    while i < chars.len()
        invariant
            i <= chars@.len(),
            utf8_len(chars@) <= usize::MAX,
            bytes == at(chars@, i as int),
            bytes <= offset,
        decreases chars@.len() - i,
    {
        let wide: usize = char_width(chars[i]);
        proof {
            length_with(chars@.take(i as int), chars@[i as int]);
            assert(chars@.take(i as int).push(chars@[i as int]) =~= chars@.take(i + 1));
            places_ascend(chars@, i + 1, chars@.len() as int);
        }
        if bytes + wide > offset {
            proof {
                floor_is(chars@, offset as int, i as int);
            }
            return (i, bytes);
        }
        bytes += wide;
        i += 1;
    }
    proof {
        floor_is(chars@, offset as int, i as int);
    }
    (i, bytes)
}

/// The byte of a place.
pub fn byte_at(chars: &Vec<char>, index: usize) -> (offset: usize)
    requires
        utf8_len(chars@) <= usize::MAX,
        index <= chars@.len(),
    ensures
        offset == at(chars@, index as int),
{
    let mut i: usize = 0;
    let mut bytes: usize = 0;
    assert(chars@.take(0) =~= Seq::<char>::empty());
    while i < index
        invariant
            i <= index <= chars@.len(),
            utf8_len(chars@) <= usize::MAX,
            bytes == at(chars@, i as int),
        decreases index - i,
    {
        let wide: usize = char_width(chars[i]);
        proof {
            length_with(chars@.take(i as int), chars@[i as int]);
            assert(chars@.take(i as int).push(chars@[i as int]) =~= chars@.take(i + 1));
            places_ascend(chars@, i + 1, chars@.len() as int);
        }
        bytes += wide;
        i += 1;
    }
    bytes
}

/// A text takes no more units of UTF-16 than bytes of UTF-8.
pub proof fn units_fit(text: Seq<char>)
    ensures
        utf16_len(text) <= utf8_len(text),
    decreases text.len(),
{
    if text.len() > 0 {
        units_fit(text.drop_last());
        length_with(text.drop_last(), text.last());
        assert(text.drop_last().push(text.last()) =~= text);
        char_is_scalar(text.last());
    }
}

/// The first place, from a place on, that has at least so many units before it.
pub open spec fn unit_index_from(text: Seq<char>, units: int, i: int) -> int
    decreases text.len() - i,
{
    if i >= text.len() || utf16_len(text.take(i)) >= units {
        if i > text.len() {
            text.len() as int
        } else {
            i
        }
    } else {
        unit_index_from(text, units, i + 1)
    }
}

/// The first place that has at least so many units before it; the end where there is none.
pub open spec fn unit_index(text: Seq<char>, units: int) -> int {
    unit_index_from(text, units, 0)
}

/// How many units stand before a place.
pub fn units_before(chars: &Vec<char>, index: usize) -> (units: usize)
    requires
        utf8_len(chars@) <= usize::MAX,
        index <= chars@.len(),
    ensures
        units == utf16_len(chars@.take(index as int)),
{
    let mut i: usize = 0;
    let mut units: usize = 0;
    assert(chars@.take(0) =~= Seq::<char>::empty());
    while i < index
        invariant
            i <= index <= chars@.len(),
            utf8_len(chars@) <= usize::MAX,
            units == utf16_len(chars@.take(i as int)),
        decreases index - i,
    {
        proof {
            assert(chars@.take(i + 1).drop_last() =~= chars@.take(i as int));
            assert(chars@.take(i + 1).last() == chars@[i as int]);
            units_fit(chars@.take(i + 1));
            places_ascend(chars@, i + 1, chars@.len() as int);
        }
        units += char_width16(chars[i]);
        i += 1;
    }
    units
}

/// The first place that has at least so many units before it.
pub fn place_of_unit(chars: &Vec<char>, units: usize) -> (index: usize)
    requires
        utf8_len(chars@) <= usize::MAX,
    ensures
        index == unit_index(chars@, units as int),
        index <= chars@.len(),
{
    let mut i: usize = 0;
    let mut passed: usize = 0;
    assert(chars@.take(0) =~= Seq::<char>::empty());
    while i < chars.len() && passed < units
        invariant
            i <= chars@.len(),
            utf8_len(chars@) <= usize::MAX,
            passed == utf16_len(chars@.take(i as int)),
            unit_index(chars@, units as int) == unit_index_from(chars@, units as int, i as int),
        decreases chars@.len() - i,
    {
        proof {
            assert(chars@.take(i + 1).drop_last() =~= chars@.take(i as int));
            assert(chars@.take(i + 1).last() == chars@[i as int]);
            units_fit(chars@.take(i + 1));
            places_ascend(chars@, i + 1, chars@.len() as int);
        }
        passed += char_width16(chars[i]);
        i += 1;
    }
    i
}

proof fn units_ascend(text: Seq<char>, i: int, j: int)
    requires
        0 <= i <= j <= text.len(),
    ensures
        utf16_len(text.take(i)) + (j - i) <= utf16_len(text.take(j)),
    decreases j - i,
{
    if i < j {
        units_ascend(text, i, j - 1);
        assert(text.take(j).drop_last() =~= text.take(j - 1));
        assert(text.take(j).last() == text[j - 1]);
    }
}

proof fn unit_index_reaches(text: Seq<char>, i: int, from: int)
    requires
        0 <= from <= i <= text.len(),
    ensures
        unit_index_from(text, utf16_len(text.take(i)) as int, from) == i,
    decreases i - from,
{
    if from < i {
        units_ascend(text, from, i);
        unit_index_reaches(text, i, from + 1);
    }
}

/// A place is found again from the units before it.
pub proof fn units_lead_back(text: Seq<char>, i: int)
    requires
        0 <= i <= text.len(),
    ensures
        unit_index(text, utf16_len(text.take(i)) as int) == i,
{
    unit_index_reaches(text, i, 0);
}

} // verus!
