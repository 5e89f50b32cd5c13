//! A line of text that a user edits.
//!
//! Offsets are counted in bytes of UTF-8, and stand where a character starts or where the text ends.

use vstd::prelude::*;

use crate::text::{byte_len, chars_of, is_white_space, push_text, text_between, utf8_len, white_space};
use crate::utf::{
    at, byte_at, floor_facts, floor_index, is_boundary, lengths_add, locate, place_of_unit,
    places_are_boundaries, places_ascend, unit_index, units_before, units_lead_back, utf16_len,
};

verus! {

/// Edits that can be undone.
pub const MAX_UNDO: usize = 100;

/// A part of a text, from one offset to another.
#[derive(Clone, Copy, Debug, PartialEq, Eq, Structural)]
pub struct Selection {
    pub start: usize,
    pub end: usize,
}

/// The place before the white space in front of a place.
pub open spec fn before_space(text: Seq<char>, i: int) -> int
    decreases i,
{
    if 0 < i <= text.len() && is_white_space(text[i - 1]) {
        before_space(text, i - 1)
    } else {
        i
    }
}

/// The place before the word in front of a place.
pub open spec fn before_word(text: Seq<char>, i: int) -> int
    decreases i,
{
    if 0 < i <= text.len() && !is_white_space(text[i - 1]) {
        before_word(text, i - 1)
    } else {
        i
    }
}

/// The place after the word behind a place.
pub open spec fn after_word(text: Seq<char>, i: int) -> int
    decreases text.len() - i,
{
    if 0 <= i < text.len() && !is_white_space(text[i]) {
        after_word(text, i + 1)
    } else {
        i
    }
}

/// The place after the white space behind a place.
pub open spec fn after_space(text: Seq<char>, i: int) -> int
    decreases text.len() - i,
{
    if 0 <= i < text.len() && is_white_space(text[i]) {
        after_space(text, i + 1)
    } else {
        i
    }
}

/// Where the word that ends at or before an offset starts.
pub open spec fn word_before(text: Seq<char>, offset: int) -> nat {
    at(text, before_word(text, before_space(text, floor_index(text, offset))))
}

/// Where the word after that at an offset starts.
pub open spec fn word_after(text: Seq<char>, offset: int) -> nat {
    at(text, after_space(text, after_word(text, floor_index(text, offset))))
}

/// Where the word that ends at or before an offset starts.
pub fn previous_word_boundary(content: &str, offset: usize) -> (boundary: usize)
    requires
        is_boundary(content@, offset as int),
    ensures
        boundary == word_before(content@, offset as int),
        boundary <= offset,
        is_boundary(content@, boundary as int),
{
    let chars: Vec<char> = chars_of(content);
    let _length: usize = byte_len(content);
    let start: usize = locate(&chars, offset).0;
    let mut i: usize = start;
    while i > 0 && white_space(chars[i - 1])
        invariant
            i <= start <= chars@.len(),
            chars@ == content@,
            before_space(content@, start as int) == before_space(content@, i as int),
        decreases i,
    {
        i -= 1;
    }
    while i > 0 && !white_space(chars[i - 1])
        invariant
            i <= start <= chars@.len(),
            chars@ == content@,
            before_word(content@, before_space(content@, start as int)) == before_word(
                content@,
                i as int,
            ),
        decreases i,
    {
        i -= 1;
    }
    proof {
        places_ascend(content@, i as int, start as int);
        places_are_boundaries(content@, i as int);
    }
    byte_at(&chars, i)
}

/// Where the word after that at an offset starts.
pub fn next_word_boundary(content: &str, offset: usize) -> (boundary: usize)
    requires
        is_boundary(content@, offset as int),
    ensures
        boundary == word_after(content@, offset as int),
        boundary >= offset,
        is_boundary(content@, boundary as int),
{
    let chars: Vec<char> = chars_of(content);
    let _length: usize = byte_len(content);
    let start: usize = locate(&chars, offset).0;
    let mut i: usize = start;
    while i < chars.len() && !white_space(chars[i])
        invariant
            start <= i <= chars@.len(),
            chars@ == content@,
            after_word(content@, start as int) == after_word(content@, i as int),
        decreases chars@.len() - i,
    {
        i += 1;
    }
    while i < chars.len() && white_space(chars[i])
        invariant
            start <= i <= chars@.len(),
            chars@ == content@,
            after_space(content@, after_word(content@, start as int)) == after_space(
                content@,
                i as int,
            ),
        decreases chars@.len() - i,
    {
        i += 1;
    }
    proof {
        places_ascend(content@, start as int, i as int);
        places_are_boundaries(content@, i as int);
    }
    byte_at(&chars, i)
}

/// The character that a part starts with, and the one that it ends before; both within the text.
pub open spec fn part_of(text: Seq<char>, range: Selection) -> (int, int) {
    let start = floor_index(text, range.start as int);
    let end = floor_index(text, range.end as int);
    (
        start,
        if end < start {
            start
        } else {
            end
        },
    )
}

/// The text with a part of it replaced.
pub open spec fn spliced(text: Seq<char>, range: Selection, inserted: Seq<char>) -> Seq<char> {
    let (start, end) = part_of(text, range);
    text.take(start) + inserted + text.skip(end)
}

/// Replaces a part of a text, as far as it is within the text, and tells where what was inserted ends.
pub fn replace_content(content: &str, range: Selection, text: &str) -> (replaced: (String, usize))
    requires
        utf8_len(content@) + utf8_len(text@) <= usize::MAX,
    ensures
        replaced.0@ == spliced(content@, range, text@),
        replaced.1 == at(content@, part_of(content@, range).0) + utf8_len(text@),
        is_boundary(replaced.0@, replaced.1 as int),
        utf8_len(replaced.0@) <= utf8_len(content@) + utf8_len(text@),
{
    let chars: Vec<char> = chars_of(content);
    let (start, bytes): (usize, usize) = locate(&chars, range.start);
    let found: usize = locate(&chars, range.end).0;
    let end: usize = if found < start {
        start
    } else {
        found
    };
    let mut result: String = text_between(&chars, 0, start);
    push_text(&mut result, text);
    let tail: String = text_between(&chars, end, chars.len());
    push_text(&mut result, tail.as_str());
    proof {
        assert(content@.subrange(0, start as int) =~= content@.take(start as int));
        assert(content@.subrange(end as int, content@.len() as int) =~= content@.skip(end as int));
        let whole = spliced(content@, range, text@);
        assert(result@ =~= whole);
        let head = content@.take(start as int) + text@;
        assert(whole.take(head.len() as int) =~= head);
        lengths_add(content@.take(start as int), text@);
        places_are_boundaries(whole, head.len() as int);
        lengths_add(head, content@.skip(end as int));
        lengths_add(content@.take(end as int), content@.skip(end as int));
        assert(content@.take(end as int) + content@.skip(end as int) =~= content@);
        places_ascend(content@, start as int, end as int);
    }
    let length: usize = byte_len(text);
    assert(bytes <= utf8_len(content@)) by {
        places_ascend(content@, start as int, content@.len() as int);
    }
    (result, bytes + length)
}

/// A state that an edit can go back to.
#[derive(Debug)]
pub struct Edit {
    pub content: String,
    pub selected: Selection,
    pub reversed: bool,
}

/// What a state is.
pub struct EditModel {
    pub content: Seq<char>,
    pub selected: Selection,
    pub reversed: bool,
}

impl View for Edit {
    type V = EditModel;

    open spec fn view(&self) -> EditModel {
        EditModel { content: self.content@, selected: self.selected, reversed: self.reversed }
    }
}

/// What states are.
pub open spec fn edits(list: Seq<Edit>) -> Seq<EditModel> {
    list.map_values(|edit: Edit| edit@)
}

/// A line of text that a user edits: what it says, what is said while it is empty, whether it is a
/// secret, what is selected and from which side, what an input method has not settled yet, whether the
/// mouse selects, and what can be undone and redone.
#[derive(Debug)]
pub struct TextInput {
    pub content: String,
    pub placeholder: String,
    pub masked: bool,
    pub selected: Selection,
    pub reversed: bool,
    pub marked: Option<Selection>,
    pub selecting: bool,
    pub undo: Vec<Edit>,
    pub redo: Vec<Edit>,
}

/// What a line is.
#[verifier::ext_equal]
pub struct InputModel {
    pub content: Seq<char>,
    pub placeholder: Seq<char>,
    pub masked: bool,
    pub selected: Selection,
    pub reversed: bool,
    pub marked: Option<Selection>,
    pub selecting: bool,
    pub undo: Seq<EditModel>,
    pub redo: Seq<EditModel>,
}

impl View for TextInput {
    type V = InputModel;

    open spec fn view(&self) -> InputModel {
        InputModel {
            content: self.content@,
            placeholder: self.placeholder@,
            masked: self.masked,
            selected: self.selected,
            reversed: self.reversed,
            marked: self.marked,
            selecting: self.selecting,
            undo: edits(self.undo@),
            redo: edits(self.redo@),
        }
    }
}

/// Whether a part of a text starts and ends between characters.
pub open spec fn fits(text: Seq<char>, part: Selection) -> bool {
    part.start <= part.end && is_boundary(text, part.start as int) && is_boundary(
        text,
        part.end as int,
    )
}

/// Whether a state's selection is within its text.
pub open spec fn edit_fits(edit: EditModel) -> bool {
    fits(edit.content, edit.selected)
}

impl InputModel {
    /// Whether the selection and what is not settled are within the text, also in what can be undone
    /// and redone, and no more can be undone and redone than is kept.
    pub open spec fn well_formed(self) -> bool {
        &&& utf8_len(self.content) <= usize::MAX
        &&& fits(self.content, self.selected)
        &&& self.marked is Some ==> fits(self.content, self.marked->0)
        &&& forall|i: int| 0 <= i < self.undo.len() ==> edit_fits(#[trigger] self.undo[i])
        &&& forall|i: int| 0 <= i < self.redo.len() ==> edit_fits(#[trigger] self.redo[i])
        &&& self.undo.len() + self.redo.len() <= MAX_UNDO
    }

    /// Where the cursor is.
    pub open spec fn cursor(self) -> usize {
        if self.reversed {
            self.selected.start
        } else {
            self.selected.end
        }
    }

    /// The line with its cursor at an offset.
    pub open spec fn moved(self, offset: usize) -> InputModel {
        InputModel { selected: Selection { start: offset, end: offset }, reversed: false, ..self }
    }

    /// The line with its selection up to an offset.
    pub open spec fn reaching(self, offset: usize) -> InputModel {
        let start = if self.reversed {
            offset
        } else {
            self.selected.start
        };
        let end = if self.reversed {
            self.selected.end
        } else {
            offset
        };
        if end < start {
            InputModel {
                selected: Selection { start: end, end: start },
                reversed: !self.reversed,
                ..self
            }
        } else {
            InputModel { selected: Selection { start, end }, ..self }
        }
    }

    /// The offset before the character in front of an offset.
    pub open spec fn before(self, offset: usize) -> usize {
        let i = floor_index(self.content, offset as int);
        if i > 0 {
            at(self.content, i - 1) as usize
        } else {
            0
        }
    }

    /// The offset after the character behind an offset.
    pub open spec fn after(self, offset: usize) -> usize {
        let i = floor_index(self.content, offset as int);
        if i < self.content.len() {
            at(self.content, i + 1) as usize
        } else {
            utf8_len(self.content) as usize
        }
    }

    /// A part given in units of UTF-16, as a part in bytes.
    pub open spec fn from_units(self, range: Selection) -> Selection {
        Selection {
            start: at(self.content, unit_index(self.content, range.start as int)) as usize,
            end: at(self.content, unit_index(self.content, range.end as int)) as usize,
        }
    }

    /// The last place at or in front of an offset, within the text.
    pub open spec fn place(self, offset: usize) -> usize {
        at(self.content, floor_index(self.content, offset as int)) as usize
    }

    /// Where what is not settled starts, or else where the cursor is.
    pub open spec fn unsettled_start(self) -> usize {
        match self.marked {
            Some(marked) => marked.start,
            None => self.cursor(),
        }
    }

    /// The line with the selection that an input method asks for: a part given in units of UTF-16,
    /// counted from the start of what is not settled. One that is not between characters, or runs
    /// backwards, changes nothing.
    pub open spec fn selecting_in_marked(self, range: Selection) -> InputModel {
        let start = self.unsettled_start();
        let part = self.from_units(range);
        let from = start + part.start;
        let to = start + part.end;
        if from <= to && is_boundary(self.content, from) && is_boundary(self.content, to) {
            InputModel {
                selected: Selection { start: from as usize, end: to as usize },
                ..self
            }
        } else {
            self
        }
    }

    /// The line with a part replaced by a text that is not settled.
    pub open spec fn marking(self, range: Option<Selection>, text: Seq<char>) -> InputModel {
        let after = self.replaced(range, text);
        InputModel {
            marked: if text.len() > 0 {
                Some(
                    Selection {
                        start: (after.selected.end - utf8_len(text)) as usize,
                        end: after.selected.end,
                    },
                )
            } else {
                None
            },
            ..after
        }
    }

    /// A part in bytes, in units of UTF-16.
    pub open spec fn to_units(self, range: Selection) -> Selection {
        Selection {
            start: utf16_len(
                self.content.take(floor_index(self.content, range.start as int)),
            ) as usize,
            end: utf16_len(self.content.take(floor_index(self.content, range.end as int))) as usize,
        }
    }

    /// The state of the line.
    pub open spec fn state(self) -> EditModel {
        EditModel { content: self.content, selected: self.selected, reversed: self.reversed }
    }

    /// The line with another state.
    pub open spec fn with_state(self, state: EditModel) -> InputModel {
        InputModel {
            content: state.content,
            selected: state.selected,
            reversed: state.reversed,
            marked: None,
            ..self
        }
    }

    /// The part that an edit replaces: the given one, or else what is not settled, or else what is
    /// selected.
    pub open spec fn edited_part(self, range: Option<Selection>) -> Selection {
        match range {
            Some(range) => self.from_units(range),
            None => match self.marked {
                Some(marked) => marked,
                None => self.selected,
            },
        }
    }

    /// The line with a part of it replaced.
    pub open spec fn replaced(self, range: Option<Selection>, text: Seq<char>) -> InputModel {
        let part = self.edited_part(range);
        let cursor = (at(self.content, part_of(self.content, part).0) + utf8_len(text)) as usize;
        let all = self.undo.push(self.state());
        InputModel {
            content: spliced(self.content, part, text),
            selected: Selection { start: cursor, end: cursor },
            marked: None,
            undo: if all.len() > MAX_UNDO {
                all.drop_first()
            } else {
                all
            },
            redo: Seq::empty(),
            ..self
        }
    }

    /// The line with the last edit undone.
    pub open spec fn undone(self) -> InputModel {
        if self.undo.len() == 0 {
            self
        } else {
            InputModel {
                undo: self.undo.drop_last(),
                redo: self.redo.push(self.state()),
                ..self.with_state(self.undo.last())
            }
        }
    }

    /// The line with the last undone edit done again.
    pub open spec fn redone(self) -> InputModel {
        if self.redo.len() == 0 {
            self
        } else {
            InputModel {
                redo: self.redo.drop_last(),
                undo: self.undo.push(self.state()),
                ..self.with_state(self.redo.last())
            }
        }
    }

    /// Whether nothing is selected.
    pub open spec fn nothing_selected(self) -> bool {
        self.selected.start == self.selected.end
    }

    /// The line without its selection, or else without the character in front of the cursor.
    pub open spec fn erased_back(self) -> InputModel {
        if self.nothing_selected() {
            self.reaching(self.before(self.cursor())).replaced(None, Seq::empty())
        } else {
            self.replaced(None, Seq::empty())
        }
    }

    /// The line without its selection, or else without the character behind the cursor.
    pub open spec fn erased_ahead(self) -> InputModel {
        if self.nothing_selected() {
            self.reaching(self.after(self.cursor())).replaced(None, Seq::empty())
        } else {
            self.replaced(None, Seq::empty())
        }
    }
}

proof fn ends_are_boundaries(text: Seq<char>)
    ensures
        is_boundary(text, 0),
        is_boundary(text, utf8_len(text) as int),
{
    places_are_boundaries(text, 0);
    places_are_boundaries(text, text.len() as int);
    assert(text.take(0) =~= Seq::<char>::empty());
    assert(text.take(text.len() as int) =~= text);
}

proof fn neighbours_are_boundaries(line: InputModel, offset: usize)
    requires
        utf8_len(line.content) <= usize::MAX,
    ensures
        is_boundary(line.content, line.before(offset) as int),
        is_boundary(line.content, line.after(offset) as int),
{
    let text = line.content;
    ends_are_boundaries(text);
    floor_facts(text, offset as int);
    let i = floor_index(text, offset as int);
    if i > 0 {
        places_are_boundaries(text, i - 1);
    }
    if i < text.len() {
        places_are_boundaries(text, i + 1);
    }
}

proof fn units_are_boundaries(line: InputModel, range: Selection)
    requires
        utf8_len(line.content) <= usize::MAX,
        0 <= unit_index(line.content, range.start as int) <= line.content.len(),
        0 <= unit_index(line.content, range.end as int) <= line.content.len(),
    ensures
        is_boundary(line.content, line.from_units(range).start as int),
        is_boundary(line.content, line.from_units(range).end as int),
{
    places_are_boundaries(line.content, unit_index(line.content, range.start as int));
    places_are_boundaries(line.content, unit_index(line.content, range.end as int));
}

fn drop_oldest(list: &mut Vec<Edit>)
    requires
        old(list)@.len() > 0,
    ensures
        edits(final(list)@) == edits(old(list)@).drop_first(),
{
    let ghost before = list@;
    let _oldest: Edit = list.remove(0);
    assert(edits(list@) =~= edits(before).drop_first());
}

impl TextInput {
    /// An empty line.
    pub fn new(placeholder: &str) -> (line: Self)
        ensures
            line@ == (InputModel {
                content: Seq::empty(),
                placeholder: placeholder@,
                masked: false,
                selected: Selection { start: 0, end: 0 },
                reversed: false,
                marked: None,
                selecting: false,
                undo: Seq::empty(),
                redo: Seq::empty(),
            }),
            line@.well_formed(),
    {
        let line: TextInput = TextInput {
            content: String::new(),
            placeholder: placeholder.to_owned(),
            masked: false,
            selected: Selection { start: 0, end: 0 },
            reversed: false,
            marked: None,
            selecting: false,
            undo: Vec::new(),
            redo: Vec::new(),
        };
        proof {
            ends_are_boundaries(line@.content);
            assert(line@.undo =~= Seq::<EditModel>::empty());
            assert(line@.redo =~= Seq::<EditModel>::empty());
            assert(line@.content =~= Seq::<char>::empty());
        }
        line
    }

    /// An empty line for a secret.
    pub fn password(placeholder: &str) -> (line: Self)
        ensures
            line@ == (InputModel {
                content: Seq::empty(),
                placeholder: placeholder@,
                masked: true,
                selected: Selection { start: 0, end: 0 },
                reversed: false,
                marked: None,
                selecting: false,
                undo: Seq::empty(),
                redo: Seq::empty(),
            }),
            line@.well_formed(),
    {
        let mut line: TextInput = TextInput::new(placeholder);
        line.masked = true;
        line
    }

    /// A line that says something, with its cursor at the end.
    pub fn with_value(placeholder: &str, value: &str) -> (line: Self)
        ensures
            line@ == (InputModel {
                content: value@,
                placeholder: placeholder@,
                masked: false,
                selected: Selection {
                    start: utf8_len(value@) as usize,
                    end: utf8_len(value@) as usize,
                },
                reversed: false,
                marked: None,
                selecting: false,
                undo: Seq::empty(),
                redo: Seq::empty(),
            }),
            line@.well_formed(),
    {
        let mut line: TextInput = TextInput::new(placeholder);
        let length: usize = byte_len(value);
        line.content = value.to_owned();
        line.selected = Selection { start: length, end: length };
        proof {
            ends_are_boundaries(value@);
        }
        line
    }

    /// What the line says.
    pub fn value(&self) -> (value: String)
        ensures
            value@ == self@.content,
    {
        self.content.clone()
    }

    /// Empties the line, and returns what it said.
    pub fn take(&mut self) -> (value: String)
        ensures
            value@ == old(self)@.content,
            final(self)@ == (InputModel {
                content: Seq::empty(),
                selected: Selection { start: 0, end: 0 },
                reversed: false,
                marked: None,
                undo: Seq::empty(),
                redo: Seq::empty(),
                ..old(self)@
            }),
            final(self)@.well_formed(),
    {
        let value: String = self.content.clone();
        self.content = String::new();
        self.selected = Selection { start: 0, end: 0 };
        self.reversed = false;
        self.marked = None;
        self.undo = Vec::new();
        self.redo = Vec::new();
        proof {
            ends_are_boundaries(self@.content);
            assert(self@.undo =~= Seq::<EditModel>::empty());
            assert(self@.redo =~= Seq::<EditModel>::empty());
            assert(self@.content =~= Seq::<char>::empty());
        }
        value
    }

    /// What is shown: what the line says, a star for each of its bytes where it is a secret, or what is
    /// said while it is empty.
    pub fn display(&self) -> (text: String)
        ensures
            self@.content.len() == 0 ==> text@ == self@.placeholder,
            self@.content.len() > 0 && !self@.masked ==> text@ == self@.content,
            self@.content.len() > 0 && self@.masked ==> text@ == Seq::new(
                utf8_len(self@.content),
                |i: int| '*',
            ),
    {
        let length: usize = byte_len(self.content.as_str());
        proof {
            places_ascend(self@.content, 0, self@.content.len() as int);
            assert(self@.content.take(0) =~= Seq::<char>::empty());
            assert(self@.content.take(self@.content.len() as int) =~= self@.content);
        }
        if length == 0 {
            self.placeholder.clone()
        } else if self.masked {
            let mut stars: String = String::new();
            let mut i: usize = 0;
            while i < length
                invariant
                    i <= length,
                    stars@ == Seq::new(i as nat, |k: int| '*'),
                decreases length - i,
            {
                stars.push('*');
                i += 1;
                assert(stars@ =~= Seq::new(i as nat, |k: int| '*'));
            }
            stars
        } else {
            self.content.clone()
        }
    }

    /// Where the cursor is.
    pub fn cursor(&self) -> (offset: usize)
        ensures
            offset == self@.cursor(),
    {
        if self.reversed {
            self.selected.start
        } else {
            self.selected.end
        }
    }

    /// Whether an offset is where a character starts, or where the text ends.
    pub fn is_char_boundary(&self, offset: usize) -> (boundary: bool)
        ensures
            boundary == is_boundary(self@.content, offset as int),
    {
        let length: usize = byte_len(self.content.as_str());
        let chars: Vec<char> = chars_of(self.content.as_str());
        let place: (usize, usize) = locate(&chars, offset);
        offset <= length && place.1 == offset
    }

    /// Moves the cursor.
    pub fn move_to(&mut self, offset: usize)
        requires
            old(self)@.well_formed(),
            is_boundary(old(self)@.content, offset as int),
        ensures
            final(self)@ == old(self)@.moved(offset),
            final(self)@.well_formed(),
    {
        self.selected = Selection { start: offset, end: offset };
        self.reversed = false;
    }

    /// Selects up to an offset.
    pub fn select_to(&mut self, offset: usize)
        requires
            old(self)@.well_formed(),
            is_boundary(old(self)@.content, offset as int),
        ensures
            final(self)@ == old(self)@.reaching(offset),
            final(self)@.well_formed(),
    {
        let mut start: usize = self.selected.start;
        let mut end: usize = self.selected.end;
        if self.reversed {
            start = offset;
        } else {
            end = offset;
        }
        if end < start {
            self.reversed = !self.reversed;
            self.selected = Selection { start: end, end: start };
        } else {
            self.selected = Selection { start, end };
        }
    }

    /// The offset before the character in front of an offset.
    pub fn previous_boundary(&self, offset: usize) -> (boundary: usize)
        requires
            self@.well_formed(),
            is_boundary(self@.content, offset as int),
        ensures
            boundary == self@.before(offset),
            is_boundary(self@.content, boundary as int),
    {
        let chars: Vec<char> = chars_of(self.content.as_str());
        let index: usize = locate(&chars, offset).0;
        proof {
            neighbours_are_boundaries(self@, offset);
            if index > 0 {
                places_ascend(chars@, index - 1, chars@.len() as int);
            }
        }
        if index > 0 {
            byte_at(&chars, index - 1)
        } else {
            0
        }
    }

    /// The offset after the character behind an offset.
    pub fn next_boundary(&self, offset: usize) -> (boundary: usize)
        requires
            self@.well_formed(),
            is_boundary(self@.content, offset as int),
        ensures
            boundary == self@.after(offset),
            is_boundary(self@.content, boundary as int),
    {
        let length: usize = byte_len(self.content.as_str());
        let chars: Vec<char> = chars_of(self.content.as_str());
        let index: usize = locate(&chars, offset).0;
        proof {
            neighbours_are_boundaries(self@, offset);
        }
        if index < chars.len() {
            byte_at(&chars, index + 1)
        } else {
            length
        }
    }

    /// One character to the left, or to the start of what is selected.
    pub fn left(&mut self)
        requires
            old(self)@.well_formed(),
        ensures
            final(self)@ == old(self)@.moved(
                if old(self)@.nothing_selected() {
                    old(self)@.before(old(self)@.cursor())
                } else {
                    old(self)@.selected.start
                },
            ),
            final(self)@.well_formed(),
    {
        let target: usize = if self.selected.start == self.selected.end {
            self.previous_boundary(self.cursor())
        } else {
            self.selected.start
        };
        self.move_to(target);
    }

    /// One character to the right, or to the end of what is selected.
    pub fn right(&mut self)
        requires
            old(self)@.well_formed(),
        ensures
            final(self)@ == old(self)@.moved(
                if old(self)@.nothing_selected() {
                    old(self)@.after(old(self)@.cursor())
                } else {
                    old(self)@.selected.end
                },
            ),
            final(self)@.well_formed(),
    {
        let target: usize = if self.selected.start == self.selected.end {
            self.next_boundary(self.cursor())
        } else {
            self.selected.end
        };
        self.move_to(target);
    }

    /// Selects one character to the left.
    pub fn select_left(&mut self)
        requires
            old(self)@.well_formed(),
        ensures
            final(self)@ == old(self)@.reaching(old(self)@.before(old(self)@.cursor())),
            final(self)@.well_formed(),
    {
        let target: usize = self.previous_boundary(self.cursor());
        self.select_to(target);
    }

    /// Selects one character to the right.
    pub fn select_right(&mut self)
        requires
            old(self)@.well_formed(),
        ensures
            final(self)@ == old(self)@.reaching(old(self)@.after(old(self)@.cursor())),
            final(self)@.well_formed(),
    {
        let target: usize = self.next_boundary(self.cursor());
        self.select_to(target);
    }

    /// One word to the left.
    pub fn word_left(&mut self)
        requires
            old(self)@.well_formed(),
        ensures
            final(self)@ == old(self)@.moved(
                word_before(old(self)@.content, old(self)@.cursor() as int) as usize,
            ),
            final(self)@.well_formed(),
    {
        let target: usize = previous_word_boundary(self.content.as_str(), self.cursor());
        self.move_to(target);
    }

    /// One word to the right.
    pub fn word_right(&mut self)
        requires
            old(self)@.well_formed(),
        ensures
            final(self)@ == old(self)@.moved(
                word_after(old(self)@.content, old(self)@.cursor() as int) as usize,
            ),
            final(self)@.well_formed(),
    {
        let target: usize = next_word_boundary(self.content.as_str(), self.cursor());
        self.move_to(target);
    }

    /// Selects one word to the left.
    pub fn select_word_left(&mut self)
        requires
            old(self)@.well_formed(),
        ensures
            final(self)@ == old(self)@.reaching(
                word_before(old(self)@.content, old(self)@.cursor() as int) as usize,
            ),
            final(self)@.well_formed(),
    {
        let target: usize = previous_word_boundary(self.content.as_str(), self.cursor());
        self.select_to(target);
    }

    /// Selects one word to the right.
    pub fn select_word_right(&mut self)
        requires
            old(self)@.well_formed(),
        ensures
            final(self)@ == old(self)@.reaching(
                word_after(old(self)@.content, old(self)@.cursor() as int) as usize,
            ),
            final(self)@.well_formed(),
    {
        let target: usize = next_word_boundary(self.content.as_str(), self.cursor());
        self.select_to(target);
    }

    /// Selects everything.
    pub fn select_all(&mut self)
        requires
            old(self)@.well_formed(),
        ensures
            final(self)@ == (InputModel {
                selected: Selection { start: 0, end: utf8_len(old(self)@.content) as usize },
                ..old(self)@
            }),
            final(self)@.well_formed(),
    {
        let length: usize = byte_len(self.content.as_str());
        proof {
            ends_are_boundaries(self@.content);
        }
        self.selected = Selection { start: 0, end: length };
    }

    /// To the start.
    pub fn home(&mut self)
        requires
            old(self)@.well_formed(),
        ensures
            final(self)@ == old(self)@.moved(0),
            final(self)@.well_formed(),
    {
        proof {
            ends_are_boundaries(self@.content);
        }
        self.move_to(0);
    }

    /// To the end.
    pub fn end(&mut self)
        requires
            old(self)@.well_formed(),
        ensures
            final(self)@ == old(self)@.moved(utf8_len(old(self)@.content) as usize),
            final(self)@.well_formed(),
    {
        let length: usize = byte_len(self.content.as_str());
        proof {
            ends_are_boundaries(self@.content);
        }
        self.move_to(length);
    }

    /// Selects to the start.
    pub fn select_home(&mut self)
        requires
            old(self)@.well_formed(),
        ensures
            final(self)@ == old(self)@.reaching(0),
            final(self)@.well_formed(),
    {
        proof {
            ends_are_boundaries(self@.content);
        }
        self.select_to(0);
    }

    /// Selects to the end.
    pub fn select_end(&mut self)
        requires
            old(self)@.well_formed(),
        ensures
            final(self)@ == old(self)@.reaching(utf8_len(old(self)@.content) as usize),
            final(self)@.well_formed(),
    {
        let length: usize = byte_len(self.content.as_str());
        proof {
            ends_are_boundaries(self@.content);
        }
        self.select_to(length);
    }

    /// A part given in units of UTF-16, as a part in bytes.
    pub fn range_from_utf16(&self, range: Selection) -> (part: Selection)
        ensures
            part == self@.from_units(range),
            is_boundary(self@.content, part.start as int),
            is_boundary(self@.content, part.end as int),
    {
        let _length: usize = byte_len(self.content.as_str());
        let chars: Vec<char> = chars_of(self.content.as_str());
        let start: usize = place_of_unit(&chars, range.start);
        let end: usize = place_of_unit(&chars, range.end);
        proof {
            units_are_boundaries(self@, range);
        }
        Selection { start: byte_at(&chars, start), end: byte_at(&chars, end) }
    }

    /// A part in bytes, in units of UTF-16.
    pub fn range_to_utf16(&self, range: Selection) -> (units: Selection)
        requires
            is_boundary(self@.content, range.start as int),
            is_boundary(self@.content, range.end as int),
        ensures
            units == self@.to_units(range),
    {
        let _length: usize = byte_len(self.content.as_str());
        let chars: Vec<char> = chars_of(self.content.as_str());
        let start: usize = locate(&chars, range.start).0;
        let end: usize = locate(&chars, range.end).0;
        Selection { start: units_before(&chars, start), end: units_before(&chars, end) }
    }

    /// What a part given in units of UTF-16 says, and which part that is. The part may run backwards
    /// only where both its ends come to the same place, as they do at the end of the text and behind.
    pub fn text_for_range(&self, range: Selection) -> (found: (String, Selection))
        requires
            range.start <= range.end || unit_index(self@.content, range.start as int) <= unit_index(
                self@.content,
                range.end as int,
            ),
        ensures
            found.0@ == self@.content.subrange(
                unit_index(self@.content, range.start as int),
                unit_index(self@.content, range.end as int),
            ),
            found.1 == self@.to_units(self@.from_units(range)),
    {
        let _length: usize = byte_len(self.content.as_str());
        let chars: Vec<char> = chars_of(self.content.as_str());
        let start: usize = place_of_unit(&chars, range.start);
        let end: usize = place_of_unit(&chars, range.end);
        proof {
            if range.start <= range.end {
                later_units_later(self@.content, range.start as int, range.end as int, 0);
            }
        }
        let actual: Selection = self.range_to_utf16(self.range_from_utf16(range));
        (text_between(&chars, start, end), actual)
    }

    /// Replaces a part: the given one, or else what is not settled, or else what is selected.
    pub fn replace_text_in_range(&mut self, range: Option<Selection>, text: &str)
        requires
            old(self)@.well_formed(),
            utf8_len(old(self)@.content) + utf8_len(text@) <= usize::MAX,
        ensures
            final(self)@ == old(self)@.replaced(range, text@),
            final(self)@.well_formed(),
    {
        let ghost before = self@;
        let ghost kept = self.undo@;
        let edit: Edit = Edit {
            content: self.content.clone(),
            selected: self.selected,
            reversed: self.reversed,
        };
        self.undo.push(edit);
        assert(edits(self.undo@) =~= edits(kept).push(before.state()));
        let ghost all = edits(self.undo@);
        if self.undo.len() > MAX_UNDO {
            drop_oldest(&mut self.undo);
        }
        self.redo = Vec::new();
        let part: Selection = match range {
            Some(range) => self.range_from_utf16(range),
            None => match self.marked {
                Some(marked) => marked,
                None => self.selected,
            },
        };
        assert(part == before.edited_part(range));
        let (content, cursor): (String, usize) = replace_content(
            self.content.as_str(),
            part,
            text,
        );
        self.content = content;
        self.selected = Selection { start: cursor, end: cursor };
        self.marked = None;
        proof {
            assert(self@.redo =~= Seq::<EditModel>::empty());
            assert(self@ =~= before.replaced(range, text@));
            assert forall|i: int| 0 <= i < self@.undo.len() implies edit_fits(
                #[trigger] self@.undo[i],
            ) by {
                let k = if all.len() > MAX_UNDO { i + 1 } else { i };
                assert(self@.undo[i] == all[k]);
                if k < before.undo.len() {
                    assert(all[k] == before.undo[k]);
                } else {
                    assert(all[k] == before.state());
                }
            }
        }
    }

    /// Replaces a part, marks what was inserted as not settled, and selects what the input method
    /// asks for in it.
    pub fn replace_and_mark_text_in_range(
        &mut self,
        range: Option<Selection>,
        text: &str,
        selected: Option<Selection>,
    )
        requires
            old(self)@.well_formed(),
            utf8_len(old(self)@.content) + utf8_len(text@) <= usize::MAX,
        ensures
            final(self)@ == match selected {
                Some(part) => old(self)@.marking(range, text@).selecting_in_marked(part),
                None => old(self)@.marking(range, text@),
            },
            final(self)@.well_formed(),
    {
        let ghost before = self@;
        self.replace_text_in_range(range, text);
        let length: usize = byte_len(text);
        proof {
            places_ascend(text@, 0, text@.len() as int);
            assert(text@.take(0) =~= Seq::<char>::empty());
            assert(text@.take(text@.len() as int) =~= text@);
        }
        if length > 0 {
            let end: usize = self.selected.end;
            assert(self.selected.start == end);
            proof {
                let part = before.edited_part(range);
                let start = part_of(before.content, part).0;
                floor_facts(before.content, part.start as int);
                assert(self@.content.take(start) =~= before.content.take(start));
                places_are_boundaries(self@.content, start);
                places_ascend(before.content, start, before.content.len() as int);
            }
            self.marked = Some(Selection { start: end - length, end });
        }
        assert(self@ =~= before.marking(range, text@));
        if let Some(part) = selected {
            self.select_in_marked(part);
        }
    }

    /// Selects what an input method asks for: a part given in units of UTF-16, counted from the start
    /// of what is not settled, or else from the cursor.
    pub fn select_in_marked(&mut self, range: Selection)
        requires
            old(self)@.well_formed(),
        ensures
            final(self)@ == old(self)@.selecting_in_marked(range),
            final(self)@.well_formed(),
    {
        let start: usize = match self.marked {
            Some(marked) => marked.start,
            None => self.cursor(),
        };
        let part: Selection = self.range_from_utf16(range);
        if let (Some(from), Some(to)) = (start.checked_add(part.start), start.checked_add(part.end)) {
            if from <= to && self.is_char_boundary(from) && self.is_char_boundary(to) {
                self.selected = Selection { start: from, end: to };
            }
        }
    }

    /// Settles what is not settled.
    pub fn unmark_text(&mut self)
        requires
            old(self)@.well_formed(),
        ensures
            final(self)@ == (InputModel { marked: None, ..old(self)@ }),
            final(self)@.well_formed(),
    {
        self.marked = None;
    }

    /// Erases what is selected, or else the character in front of the cursor.
    pub fn backspace(&mut self)
        requires
            old(self)@.well_formed(),
        ensures
            final(self)@ == old(self)@.erased_back(),
            final(self)@.well_formed(),
    {
        if self.selected.start == self.selected.end {
            let target: usize = self.previous_boundary(self.cursor());
            self.select_to(target);
        }
        let nothing: String = String::new();
        assert(nothing@ =~= Seq::<char>::empty());
        self.replace_text_in_range(None, nothing.as_str());
    }

    /// Erases what is selected, or else the character behind the cursor.
    pub fn delete(&mut self)
        requires
            old(self)@.well_formed(),
        ensures
            final(self)@ == old(self)@.erased_ahead(),
            final(self)@.well_formed(),
    {
        if self.selected.start == self.selected.end {
            let target: usize = self.next_boundary(self.cursor());
            self.select_to(target);
        }
        let nothing: String = String::new();
        assert(nothing@ =~= Seq::<char>::empty());
        self.replace_text_in_range(None, nothing.as_str());
    }

    /// Inserts a text from elsewhere, on one line.
    pub fn paste(&mut self, text: &str)
        requires
            old(self)@.well_formed(),
            utf8_len(old(self)@.content) + utf8_len(on_one_line(text@)) <= usize::MAX,
        ensures
            final(self)@ == old(self)@.replaced(None, on_one_line(text@)),
            final(self)@.well_formed(),
    {
        let chars: Vec<char> = chars_of(text);
        let mut line: String = String::new();
        let mut i: usize = 0;
        while i < chars.len()
            invariant
                i <= chars@.len(),
                chars@ == text@,
                line@ == on_one_line(text@).take(i as int),
            decreases chars@.len() - i,
        {
            if chars[i] == '\n' {
                line.push(' ');
            } else {
                line.push(chars[i]);
            }
            i += 1;
            assert(line@ =~= on_one_line(text@).take(i as int));
        }
        assert(line@ =~= on_one_line(text@));
        self.replace_text_in_range(None, line.as_str());
    }

    /// What is selected, if anything is.
    pub fn copied(&self) -> (text: Option<String>)
        requires
            self@.well_formed(),
        ensures
            match text {
                Some(text) => !self@.nothing_selected() && text@ == self@.content.subrange(
                    floor_index(self@.content, self@.selected.start as int),
                    floor_index(self@.content, self@.selected.end as int),
                ),
                None => self@.nothing_selected(),
            },
    {
        if self.selected.start == self.selected.end {
            return None;
        }
        let chars: Vec<char> = chars_of(self.content.as_str());
        let start: usize = locate(&chars, self.selected.start).0;
        let end: usize = locate(&chars, self.selected.end).0;
        assert(start <= end) by {
            if end < start {
                places_ascend(chars@, end as int, start as int);
            }
        }
        Some(text_between(&chars, start, end))
    }

    /// Erases what is selected, and returns it.
    pub fn cut(&mut self) -> (text: Option<String>)
        requires
            old(self)@.well_formed(),
        ensures
            match text {
                Some(text) => !old(self)@.nothing_selected() && text@
                    == old(self)@.content.subrange(
                    floor_index(old(self)@.content, old(self)@.selected.start as int),
                    floor_index(old(self)@.content, old(self)@.selected.end as int),
                ) && final(self)@ == old(self)@.replaced(None, Seq::empty()),
                None => old(self)@.nothing_selected() && final(self)@ == old(self)@,
            },
            final(self)@.well_formed(),
    {
        let text: Option<String> = self.copied();
        if text.is_some() {
            let nothing: String = String::new();
            assert(nothing@ =~= Seq::<char>::empty());
            self.replace_text_in_range(None, nothing.as_str());
        }
        text
    }

    /// Undoes the last edit.
    pub fn undo(&mut self)
        requires
            old(self)@.well_formed(),
        ensures
            final(self)@ == old(self)@.undone(),
            final(self)@.well_formed(),
    {
        let ghost before = *self;
        match self.undo.pop() {
            Some(previous) => {
                assert(before@.undo.last() == previous@);
                assert(edits(self.undo@) =~= before@.undo.drop_last());
                let edit: Edit = Edit {
                    content: self.content.clone(),
                    selected: self.selected,
                    reversed: self.reversed,
                };
                self.redo.push(edit);
                assert(edits(self.redo@) =~= before@.redo.push(before@.state()));
                let _length: usize = byte_len(previous.content.as_str());
                self.content = previous.content;
                self.selected = previous.selected;
                self.reversed = previous.reversed;
                self.marked = None;
                proof {
                    assert(edit_fits(before@.undo[before@.undo.len() - 1]));
                    assert(self@ =~= before@.undone());
                }
            },
            None => {
                assert(before@.undo.len() == 0);
            },
        }
    }

    /// Does the last undone edit again.
    pub fn redo(&mut self)
        requires
            old(self)@.well_formed(),
        ensures
            final(self)@ == old(self)@.redone(),
            final(self)@.well_formed(),
    {
        let ghost before = *self;
        match self.redo.pop() {
            Some(next) => {
                assert(before@.redo.last() == next@);
                assert(edits(self.redo@) =~= before@.redo.drop_last());
                let edit: Edit = Edit {
                    content: self.content.clone(),
                    selected: self.selected,
                    reversed: self.reversed,
                };
                self.undo.push(edit);
                assert(edits(self.undo@) =~= before@.undo.push(before@.state()));
                let _length: usize = byte_len(next.content.as_str());
                self.content = next.content;
                self.selected = next.selected;
                self.reversed = next.reversed;
                self.marked = None;
                proof {
                    assert(edit_fits(before@.redo[before@.redo.len() - 1]));
                    assert(self@ =~= before@.redone());
                }
            },
            None => {
                assert(before@.redo.len() == 0);
            },
        }
    }

    /// Whether the line can be submitted: an empty one cannot.
    pub fn submits(&self) -> (submits: bool)
        ensures
            submits == (self@.content.len() > 0),
    {
        let length: usize = byte_len(self.content.as_str());
        proof {
            places_ascend(self@.content, 0, self@.content.len() as int);
            assert(self@.content.take(0) =~= Seq::<char>::empty());
            assert(self@.content.take(self@.content.len() as int) =~= self@.content);
        }
        length > 0
    }

    /// The last place at or in front of an offset, within the text.
    fn place_at(&self, offset: usize) -> (place: usize)
        ensures
            place == self@.place(offset),
            is_boundary(self@.content, place as int),
    {
        let _length: usize = byte_len(self.content.as_str());
        let chars: Vec<char> = chars_of(self.content.as_str());
        let place: (usize, usize) = locate(&chars, offset);
        proof {
            places_are_boundaries(self@.content, place.0 as int);
        }
        place.1
    }

    /// The mouse goes down over an offset: the cursor goes to the last place at or in front of it. An
    /// empty line shows its placeholder and a secret shows a star for each byte, so the offset may be
    /// within a character or behind the end.
    pub fn mouse_down(&mut self, offset: usize)
        requires
            old(self)@.well_formed(),
        ensures
            final(self)@ == (InputModel {
                selecting: true,
                ..old(self)@.moved(old(self)@.place(offset))
            }),
            final(self)@.well_formed(),
    {
        let place: usize = self.place_at(offset);
        self.selecting = true;
        self.move_to(place);
    }

    /// The mouse goes up.
    pub fn mouse_up(&mut self)
        requires
            old(self)@.well_formed(),
        ensures
            final(self)@ == (InputModel { selecting: false, ..old(self)@ }),
            final(self)@.well_formed(),
    {
        self.selecting = false;
    }

    /// The mouse is over an offset: while it is down, it selects up to the last place at or in front of
    /// the offset.
    pub fn mouse_move(&mut self, offset: usize)
        requires
            old(self)@.well_formed(),
        ensures
            final(self)@ == (if old(self)@.selecting {
                old(self)@.reaching(old(self)@.place(offset))
            } else {
                old(self)@
            }),
            final(self)@.well_formed(),
    {
        if self.selecting {
            let place: usize = self.place_at(offset);
            self.select_to(place);
        }
    }
}

/// A text with a space for each line break.
pub open spec fn on_one_line(text: Seq<char>) -> Seq<char> {
    text.map_values(
        |c: char|
            if c == '\n' {
                ' '
            } else {
                c
            },
    )
}

proof fn later_units_later(text: Seq<char>, a: int, b: int, i: int)
    requires
        a <= b,
        0 <= i <= text.len(),
    ensures
        i <= crate::utf::unit_index_from(text, a, i) <= crate::utf::unit_index_from(text, b, i)
            <= text.len(),
    decreases text.len() - i,
{
    if i < text.len() {
        later_units_later(text, a, b, i + 1);
    }
}

/// Undoing an edit brings back what the line said and what was selected.
pub proof fn undo_takes_back(line: InputModel, range: Option<Selection>, text: Seq<char>)
    ensures
        line.replaced(range, text).undone().state() == line.state(),
{
    let after = line.replaced(range, text);
    assert(after.undo.last() == line.state());
}

/// Doing an undone edit again brings back what the line said and what was selected.
pub proof fn redo_takes_up(line: InputModel)
    requires
        line.undo.len() > 0,
    ensures
        line.undone().redone() == (InputModel { marked: None, ..line }),
{
    let after = line.undone().redone();
    assert(after.undo =~= line.undo);
    assert(after.redo =~= line.redo);
}

/// A part in bytes comes back from its units of UTF-16.
pub proof fn units_round_trip(line: InputModel, part: Selection)
    requires
        utf8_len(line.content) <= usize::MAX,
        fits(line.content, part),
    ensures
        line.from_units(line.to_units(part)) == part,
{
    let text = line.content;
    let i = floor_index(text, part.start as int);
    let j = floor_index(text, part.end as int);
    floor_facts(text, part.start as int);
    floor_facts(text, part.end as int);
    units_lead_back(text, i);
    units_lead_back(text, j);
    crate::utf::units_fit(text.take(i));
    crate::utf::units_fit(text.take(j));
}

/// What an edit does not replace stays as it was.
pub proof fn edits_keep_the_rest(text: Seq<char>, part: Selection, inserted: Seq<char>)
    ensures
        ({
            let (start, end) = part_of(text, part);
            let after = spliced(text, part, inserted);
            &&& 0 <= start <= end <= text.len()
            &&& after.take(start) == text.take(start)
            &&& after.subrange(start, start + inserted.len()) == inserted
            &&& after.skip(start + inserted.len()) == text.skip(end)
        }),
{
    floor_facts(text, part.start as int);
    floor_facts(text, part.end as int);
    let (start, end) = part_of(text, part);
    let after = spliced(text, part, inserted);
    assert(after.take(start) =~= text.take(start));
    assert(after.subrange(start, start + inserted.len()) =~= inserted);
    assert(after.skip(start + inserted.len()) =~= text.skip(end));
}

/// Whoever types where nothing is selected inserts the text at the cursor, and the cursor stands
/// behind it; whoever types where something is selected puts the text in its place.
pub proof fn typing_replaces_the_selection(line: InputModel, i: int, j: int, text: Seq<char>)
    requires
        line.well_formed(),
        line.marked is None,
        0 <= i <= j <= line.content.len(),
        line.selected.start == at(line.content, i),
        line.selected.end == at(line.content, j),
        utf8_len(line.content) + utf8_len(text) <= usize::MAX,
    ensures
        ({
            let after = line.replaced(None, text);
            let typed = line.content.take(i) + text + line.content.skip(j);
            &&& after.content == typed
            &&& after.selected.start == at(typed, i + text.len())
            &&& after.selected.end == after.selected.start
            &&& after.marked is None
            &&& after.masked == line.masked && after.placeholder == line.placeholder
        }),
{
    places_are_boundaries(line.content, i);
    places_are_boundaries(line.content, j);
    let typed = line.content.take(i) + text + line.content.skip(j);
    assert(typed.take(i + text.len()) =~= line.content.take(i) + text);
    lengths_add(line.content.take(i), text);
    places_ascend(line.content, i, line.content.len() as int);
}

/// Whoever erases backwards where nothing is selected erases the character before the cursor, and
/// nothing at the start of the line; erasing ahead erases the one behind it, and nothing at the end.
pub proof fn erasing_takes_one_character(line: InputModel, i: int)
    requires
        line.well_formed(),
        line.marked is None,
        0 <= i <= line.content.len(),
        line.selected.start == at(line.content, i),
        line.selected.end == at(line.content, i),
    ensures
        i > 0 ==> line.erased_back().content == line.content.take(i - 1) + line.content.skip(i),
        i == 0 ==> line.erased_back().content == line.content,
        i < line.content.len() ==> line.erased_ahead().content == line.content.take(i)
            + line.content.skip(i + 1),
        i == line.content.len() ==> line.erased_ahead().content == line.content,
{
    let text = line.content;
    places_are_boundaries(text, i);
    if i > 0 {
        places_ascend(text, i - 1, i);
        places_ascend(text, i, text.len() as int);
        places_are_boundaries(text, i - 1);
        assert(line.before(line.cursor()) == at(text, i - 1));
        assert(line.erased_back().content =~= text.take(i - 1) + text.skip(i));
    } else {
        assert(text.take(0) =~= Seq::<char>::empty());
        assert(line.before(line.cursor()) == 0);
        assert(line.erased_back().content =~= text);
    }
    if i < text.len() {
        places_ascend(text, i, i + 1);
        places_ascend(text, i + 1, text.len() as int);
        places_are_boundaries(text, i + 1);
        assert(line.after(line.cursor()) == at(text, i + 1));
        assert(line.erased_ahead().content =~= text.take(i) + text.skip(i + 1));
    } else {
        assert(text.take(i) =~= text);
        assert(line.erased_ahead().content =~= text);
    }
}

/// Whoever erases where something is selected erases just that, in either direction.
pub proof fn erasing_takes_the_selection(line: InputModel, i: int, j: int)
    requires
        line.well_formed(),
        line.marked is None,
        0 <= i < j <= line.content.len(),
        line.selected.start == at(line.content, i),
        line.selected.end == at(line.content, j),
    ensures
        line.erased_back().content == line.content.take(i) + line.content.skip(j),
        line.erased_ahead().content == line.content.take(i) + line.content.skip(j),
{
    places_ascend(line.content, i, j);
    places_are_boundaries(line.content, i);
    places_are_boundaries(line.content, j);
    assert(line.content.take(i) + Seq::<char>::empty() =~= line.content.take(i));
}

/// The place before a place is one character back, down to the start; the place after it is one
/// character on, up to the end.
pub proof fn neighbours_are_one_character_away(line: InputModel, i: int)
    requires
        line.well_formed(),
        0 <= i <= line.content.len(),
    ensures
        i > 0 ==> line.before(at(line.content, i) as usize) == at(line.content, i - 1),
        i == 0 ==> line.before(0) == 0,
        i < line.content.len() ==> line.after(at(line.content, i) as usize) == at(
            line.content,
            i + 1,
        ),
        i == line.content.len() ==> line.after(at(line.content, i) as usize) == utf8_len(
            line.content,
        ),
{
    places_are_boundaries(line.content, i);
    places_ascend(line.content, i, line.content.len() as int);
    if i > 0 {
        places_ascend(line.content, i - 1, line.content.len() as int);
    } else {
        assert(line.content.take(0) =~= Seq::<char>::empty());
    }
    if i < line.content.len() {
        places_ascend(line.content, i + 1, line.content.len() as int);
    }
}

/// Extending a selection keeps the end where it began, and the cursor comes to stand at the place.
pub proof fn selections_keep_their_anchor(line: InputModel, offset: usize)
    requires
        line.selected.start <= line.selected.end,
    ensures
        ({
            let anchor = if line.reversed {
                line.selected.end
            } else {
                line.selected.start
            };
            let after = line.reaching(offset);
            &&& after.cursor() == offset || (offset == anchor && after.selected.start == anchor
                && after.selected.end == anchor)
            &&& after.selected.start == anchor || after.selected.end == anchor
            &&& after.selected.start <= after.selected.end
            &&& after.content == line.content
        }),
{
}

proof fn word_back(text: Seq<char>, i: int)
    requires
        0 <= i <= text.len(),
    ensures
        0 <= before_word(text, i) <= i,
        forall|k: int| before_word(text, i) <= k < i ==> !is_white_space(#[trigger] text[k]),
        before_word(text, i) > 0 ==> is_white_space(text[before_word(text, i) - 1]),
    decreases i,
{
    if i > 0 && !is_white_space(text[i - 1]) {
        word_back(text, i - 1);
    }
}

proof fn space_back(text: Seq<char>, i: int)
    requires
        0 <= i <= text.len(),
    ensures
        0 <= before_space(text, i) <= i,
        forall|k: int| before_space(text, i) <= k < i ==> is_white_space(#[trigger] text[k]),
        before_space(text, i) > 0 ==> !is_white_space(text[before_space(text, i) - 1]),
    decreases i,
{
    if i > 0 && is_white_space(text[i - 1]) {
        space_back(text, i - 1);
    }
}

proof fn word_on(text: Seq<char>, i: int)
    requires
        0 <= i <= text.len(),
    ensures
        i <= after_word(text, i) <= text.len(),
        forall|k: int| i <= k < after_word(text, i) ==> !is_white_space(#[trigger] text[k]),
        after_word(text, i) < text.len() ==> is_white_space(text[after_word(text, i)]),
    decreases text.len() - i,
{
    if i < text.len() && !is_white_space(text[i]) {
        word_on(text, i + 1);
    }
}

proof fn space_on(text: Seq<char>, i: int)
    requires
        0 <= i <= text.len(),
    ensures
        i <= after_space(text, i) <= text.len(),
        forall|k: int| i <= k < after_space(text, i) ==> is_white_space(#[trigger] text[k]),
        after_space(text, i) < text.len() ==> !is_white_space(text[after_space(text, i)]),
    decreases text.len() - i,
{
    if i < text.len() && is_white_space(text[i]) {
        space_on(text, i + 1);
    }
}

/// A word back from a place a word starts: before it is white space or the start, and from there to
/// the place come the word's characters and then white space alone.
pub proof fn words_back_start_a_word(text: Seq<char>, i: int)
    requires
        0 <= i <= text.len(),
    ensures
        exists|start: int, end: int|
            {
                &&& 0 <= start <= end <= i
                &&& word_before(text, at(text, i) as int) == #[trigger] at(text, start)
                &&& start > 0 ==> is_white_space(text[start - 1])
                &&& forall|k: int| start <= k < end ==> !is_white_space(#[trigger] text[k])
                &&& forall|k: int| end <= k < i ==> is_white_space(#[trigger] text[k])
                &&& end == i || #[trigger] at(text, end) < at(text, i)
                &&& i > 0 ==> start < i
            },
{
    places_are_boundaries(text, i);
    space_back(text, i);
    let end = before_space(text, i);
    word_back(text, end);
    let start = before_word(text, end);
    if end < i {
        places_ascend(text, end, i);
    }
    if i > 0 && start == i {
        assert(end == i);
        assert(!is_white_space(text[end - 1]));
        assert(is_white_space(text[start - 1]));
    }
    assert(word_before(text, at(text, i) as int) == at(text, start));
    assert(end == i || at(text, end) < at(text, i));
}

/// A word on from a place the rest of the word and the white space behind it are passed: the next
/// word starts there, or the text ends.
pub proof fn words_on_reach_the_next_word(text: Seq<char>, i: int)
    requires
        0 <= i <= text.len(),
    ensures
        exists|end: int, next: int|
            {
                &&& i <= end <= next <= text.len()
                &&& word_after(text, at(text, i) as int) == #[trigger] at(text, next)
                &&& next < text.len() ==> !is_white_space(text[next])
                &&& forall|k: int| i <= k < end ==> !is_white_space(#[trigger] text[k])
                &&& forall|k: int| end <= k < next ==> is_white_space(#[trigger] text[k])
                &&& end == i || at(text, i) < #[trigger] at(text, end)
                &&& i < text.len() ==> i < next
            },
{
    places_are_boundaries(text, i);
    word_on(text, i);
    let end = after_word(text, i);
    space_on(text, end);
    let next = after_space(text, end);
    if i < end {
        places_ascend(text, i, end);
    }
    if i < text.len() && next == i {
        assert(is_white_space(text[end]));
        assert(!is_white_space(text[next]));
    }
    assert(word_after(text, at(text, i) as int) == at(text, next));
    assert(end == i || at(text, i) < at(text, end));
}

/// What is pasted comes on one line: every line break is a space, and everything else is as it was.
pub proof fn pasted_text_is_one_line(text: Seq<char>, i: int)
    requires
        0 <= i < text.len(),
    ensures
        on_one_line(text).len() == text.len(),
        text[i] == '\n' ==> on_one_line(text)[i] == ' ',
        text[i] != '\n' ==> on_one_line(text)[i] == text[i],
{
}

/// A hundred edits can be undone; of more, the oldest ones can not.
pub proof fn the_last_edits_can_be_undone(line: InputModel, range: Option<Selection>, text: Seq<char>)
    requires
        line.undo.len() <= 100,
    ensures
        ({
            let after = line.replaced(range, text);
            &&& after.undo.last() == line.state()
            &&& line.undo.len() < 100 ==> after.undo == line.undo.push(line.state())
            &&& line.undo.len() == 100 ==> after.undo == line.undo.drop_first().push(line.state())
            &&& after.redo.len() == 0
        }),
{
    let after = line.replaced(range, text);
    if line.undo.len() == 100 {
        assert(after.undo =~= line.undo.drop_first().push(line.state()));
    }
}

} // verus!
