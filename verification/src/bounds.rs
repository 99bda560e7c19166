//! The text form of a window's bounds, `x:10, y:20, w:300, h:200`: parts
//! separated by a comma and a space, each a key, a colon and a number.
//!
//! This module takes the text apart and says which part gives which side.
//! It does not read the numbers.

use vstd::prelude::*;
use vstd::string::{StrSliceExecFns, StringExecFns};
use crate::text::chars_of;

verus! {

/// Which side of a rectangle a part of the bounds text gives.
#[derive(Debug, Clone, Copy, PartialEq, Eq, Structural)]
pub enum BoundsKey {
    /// The left edge, written `x:`.
    X,
    /// The top edge, written `y:`.
    Y,
    /// The width, written `w:`.
    Width,
    /// The height, written `h:`.
    Height,
}

/// One part of a bounds text that names a side, with the text of its number.
#[derive(Debug, Clone)]
pub struct BoundsField {
    pub key: BoundsKey,
    pub value: String,
}

/// What a `BoundsField` holds.
pub ghost struct BoundsFieldView {
    pub key: BoundsKey,
    pub value: Seq<char>,
}

impl View for BoundsField {
    type V = BoundsFieldView;

    open spec fn view(&self) -> BoundsFieldView {
        BoundsFieldView { key: self.key, value: self.value@ }
    }
}

/// The field that gives `key` the number written as `value`.
pub open spec fn keyed(key: BoundsKey, value: Seq<char>) -> BoundsFieldView {
    BoundsFieldView { key, value }
}

/// What `fields` hold, in order.
pub open spec fn field_views(fields: Seq<BoundsField>) -> Seq<BoundsFieldView> {
    fields.map_values(|f: BoundsField| f@)
}

/// A comma followed by a space stands at `i`.
pub open spec fn separator_at(s: Seq<char>, i: int) -> bool {
    0 <= i && i + 1 < s.len() && s[i] == ',' && s[i + 1] == ' '
}

/// Where the first separator at or after `from` stands; the length of `s`
/// where there is none.
pub open spec fn separator_from(s: Seq<char>, from: int) -> int
    decreases s.len() - from,
{
    if from < 0 || from + 1 >= s.len() {
        s.len() as int
    } else if separator_at(s, from) {
        from
    } else {
        separator_from(s, from + 1)
    }
}

/// The parts of `s` from `from` on: what stands between one separator and
/// the next, the separators taken from left to right.
pub open spec fn parts_from(s: Seq<char>, from: int) -> Seq<Seq<char>>
    decreases s.len() - from,
{
    let at = separator_from(s, from);
    if from < 0 || from > s.len() {
        Seq::empty()
    } else if from <= at && at + 2 <= s.len() {
        seq![s.subrange(from, at)] + parts_from(s, at + 2)
    } else {
        seq![s.subrange(from, s.len() as int)]
    }
}

/// The parts of `s`. A text without a separator is one part, the empty text
/// too.
pub open spec fn split_parts(s: Seq<char>) -> Seq<Seq<char>> {
    parts_from(s, 0)
}

/// `part` begins with `key` and a colon.
pub open spec fn has_key(part: Seq<char>, key: char) -> bool {
    part.len() >= 2 && part[0] == key && part[1] == ':'
}

/// The side that `part` names, if it names one.
pub open spec fn key_of(part: Seq<char>) -> Option<BoundsKey> {
    if has_key(part, 'x') {
        Some(BoundsKey::X)
    } else if has_key(part, 'y') {
        Some(BoundsKey::Y)
    } else if has_key(part, 'w') {
        Some(BoundsKey::Width)
    } else if has_key(part, 'h') {
        Some(BoundsKey::Height)
    } else {
        None
    }
}

/// The fields among `parts`, in order: each part that names a side, with
/// what follows its colon. The other parts are passed over.
pub open spec fn fields_of(parts: Seq<Seq<char>>) -> Seq<BoundsFieldView>
    decreases parts.len(),
{
    if parts.len() == 0 {
        Seq::empty()
    } else {
        match key_of(parts[0]) {
            Some(key) => seq![keyed(key, parts[0].skip(2))] + fields_of(parts.skip(1)),
            None => fields_of(parts.skip(1)),
        }
    }
}

/// The fields of a bounds text.
pub open spec fn bounds_fields(s: Seq<char>) -> Seq<BoundsFieldView> {
    fields_of(split_parts(s))
}

/// The first separator at or after `from` stands at or after `from`, within
/// the text, with no separator between.
pub proof fn lemma_separator_from(s: Seq<char>, from: int)
    requires
        0 <= from <= s.len(),
    ensures
        from <= separator_from(s, from) <= s.len(),
        separator_from(s, from) < s.len() ==> separator_at(s, separator_from(s, from)),
        forall|i: int| from <= i < separator_from(s, from) ==> !separator_at(s, i),
    decreases s.len() - from,
{
    if from + 1 >= s.len() {
    } else if separator_at(s, from) {
    } else {
        lemma_separator_from(s, from + 1);
    }
}

/// Where the first separator at or after `from` stands.
pub fn find_separator(chars: &Vec<char>, from: usize) -> (at: usize)
    requires
        from <= chars.len(),
    ensures
        at == separator_from(chars@, from as int),
        from <= at <= chars.len(),
{
    let n = chars.len();
    let mut i: usize = from;
    while i < n && i + 1 < n
        invariant
            from <= i <= n,
            n == chars.len(),
            separator_from(chars@, i as int) == separator_from(chars@, from as int),
        decreases n - i,
    {
        if chars[i] == ',' && chars[i + 1] == ' ' {
            return i;
        }
        i += 1;
    }
    n
}

/// The side that the part from `start` to `end` names, if it names one.
pub fn part_key(chars: &Vec<char>, start: usize, end: usize) -> (key: Option<BoundsKey>)
    requires
        start <= end <= chars.len(),
    ensures
        key == key_of(chars@.subrange(start as int, end as int)),
{
    if end - start < 2 {
        return None;
    }
    if chars[start + 1] != ':' {
        return None;
    }
    let c = chars[start];
    if c == 'x' {
        Some(BoundsKey::X)
    } else if c == 'y' {
        Some(BoundsKey::Y)
    } else if c == 'w' {
        Some(BoundsKey::Width)
    } else if c == 'h' {
        Some(BoundsKey::Height)
    } else {
        None
    }
}

/// Takes a bounds text apart: for each part that names a side, in order,
/// the side and the text of its number. Parts that name no side are passed
/// over; a side may occur more than once, or not at all.
pub fn parse_bounds_fields(bounds: &str) -> (fields: Vec<BoundsField>)
    ensures
        field_views(fields@) == bounds_fields(bounds@),
{
    let chars = chars_of(bounds);
    let n = chars.len();
    let mut fields: Vec<BoundsField> = Vec::new();
    let mut start: usize = 0;
    let mut more = true;
    while more
        invariant
            start <= n,
            n == chars.len(),
            chars@ == bounds@,
            more ==> field_views(fields@) + fields_of(parts_from(chars@, start as int))
                == bounds_fields(chars@),
            !more ==> field_views(fields@) == bounds_fields(chars@),
        decreases (if more { n - start + 1 } else { 0 }),
    {
        let end = find_separator(&chars, start);
        let ghost part = chars@.subrange(start as int, end as int);
        let ghost rest = if end < n {
            parts_from(chars@, end + 2)
        } else {
            Seq::empty()
        };
        proof {
            lemma_separator_from(chars@, start as int);
            assert((seq![part] + rest).skip(1) =~= rest);
        }
        match part_key(&chars, start, end) {
            Some(key) => {
                let value = bounds.substring_char(start + 2, end).to_owned();
                assert(value@ =~= part.skip(2));
                fields.push(BoundsField { key, value });
            },
            None => {},
        }
        if end < n {
            start = end + 2;
        } else {
            assert(fields_of(rest) =~= Seq::empty());
            more = false;
        }
    }
    fields
}

/// No separator stands anywhere in `s`.
pub open spec fn separator_free(s: Seq<char>) -> bool {
    forall|i: int| !separator_at(s, i)
}

/// The bounds text that gives the four sides the numbers written as `x`,
/// `y`, `w` and `h`.
pub open spec fn bounds_text(x: Seq<char>, y: Seq<char>, w: Seq<char>, h: Seq<char>) -> Seq<char> {
    seq!['x', ':'] + x + seq![',', ' ', 'y', ':'] + y + seq![',', ' ', 'w', ':'] + w
        + seq![',', ' ', 'h', ':'] + h
}

/// Writes the bounds text for the four sides, each number given as text.
pub fn format_bounds(x: &str, y: &str, w: &str, h: &str) -> (text: String)
    ensures
        text@ == bounds_text(x@, y@, w@, h@),
{
    proof {
        reveal_strlit("x:");
        reveal_strlit(", y:");
        reveal_strlit(", w:");
        reveal_strlit(", h:");
    }
    let mut text = String::from_str("x:");
    text.append(x);
    text.append(", y:");
    text.append(y);
    text.append(", w:");
    text.append(w);
    text.append(", h:");
    text.append(h);
    text
}

/// Where a part without a separator is followed by a separator, the first
/// separator from the part's start on is that one.
pub proof fn lemma_part_before_separator(s: Seq<char>, from: int, end: int)
    requires
        0 <= from <= end,
        separator_at(s, end),
        separator_free(s.subrange(from, end)),
    ensures
        separator_from(s, from) == end,
{
    lemma_separator_from(s, from);
    let at = separator_from(s, from);
    let part = s.subrange(from, end);
    if at + 1 < end {
        assert(separator_at(part, at - from));
    }
}

/// Where the text ends in a part without a separator, no separator stands
/// from the part's start on.
pub proof fn lemma_last_part(s: Seq<char>, from: int)
    requires
        0 <= from <= s.len(),
        separator_free(s.subrange(from, s.len() as int)),
    ensures
        separator_from(s, from) == s.len(),
{
    lemma_separator_from(s, from);
    let at = separator_from(s, from);
    let part = s.subrange(from, s.len() as int);
    if at < s.len() {
        assert(separator_at(part, at - from));
    }
}

/// A key, a colon and a number without a separator in it hold no separator.
pub proof fn lemma_keyed_separator_free(key: char, value: Seq<char>)
    requires
        key != ',',
        separator_free(value),
    ensures
        separator_free(seq![key, ':'] + value),
{
    let part = seq![key, ':'] + value;
    assert forall|i: int| !separator_at(part, i) by {
        if separator_at(part, i) {
            assert(separator_at(value, i - 2));
        }
    }
}

/// Taking apart what `format_bounds` wrote gives the four numbers back, as
/// long as none of them holds a comma followed by a space.
pub proof fn lemma_parse_format_bounds(x: Seq<char>, y: Seq<char>, w: Seq<char>, h: Seq<char>)
    requires
        separator_free(x),
        separator_free(y),
        separator_free(w),
        separator_free(h),
    ensures
        bounds_fields(bounds_text(x, y, w, h)) == seq![
            keyed(BoundsKey::X, x),
            keyed(BoundsKey::Y, y),
            keyed(BoundsKey::Width, w),
            keyed(BoundsKey::Height, h),
        ],
{
    let s = bounds_text(x, y, w, h);
    let px = seq!['x', ':'] + x;
    let py = seq!['y', ':'] + y;
    let pw = seq!['w', ':'] + w;
    let ph = seq!['h', ':'] + h;
    let x0: int = 0;
    let x1 = px.len() as int;
    let y0 = x1 + 2;
    let y1 = y0 + py.len();
    let w0 = y1 + 2;
    let w1 = w0 + pw.len();
    let h0 = w1 + 2;
    assert(s.subrange(x0, x1) =~= px);
    assert(s.subrange(y0, y1) =~= py);
    assert(s.subrange(w0, w1) =~= pw);
    assert(s.subrange(h0, s.len() as int) =~= ph);
    lemma_keyed_separator_free('x', x);
    lemma_keyed_separator_free('y', y);
    lemma_keyed_separator_free('w', w);
    lemma_keyed_separator_free('h', h);
    lemma_part_before_separator(s, x0, x1);
    lemma_part_before_separator(s, y0, y1);
    lemma_part_before_separator(s, w0, w1);
    lemma_last_part(s, h0);
    let parts_h = seq![ph];
    let parts_w = seq![pw] + parts_h;
    let parts_y = seq![py] + parts_w;
    let parts_x = seq![px] + parts_y;
    assert(parts_from(s, h0) =~= parts_h);
    assert(parts_from(s, w0) =~= parts_w);
    assert(parts_from(s, y0) =~= parts_y);
    let fx = BoundsFieldView { key: BoundsKey::X, value: x };
    let fy = BoundsFieldView { key: BoundsKey::Y, value: y };
    let fw = BoundsFieldView { key: BoundsKey::Width, value: w };
    let fh = BoundsFieldView { key: BoundsKey::Height, value: h };
    assert(px.skip(2) =~= x);
    assert(py.skip(2) =~= y);
    assert(pw.skip(2) =~= w);
    assert(ph.skip(2) =~= h);
    assert(parts_w.skip(1) =~= parts_h);
    assert(parts_y.skip(1) =~= parts_w);
    assert(parts_x.skip(1) =~= parts_y);
    assert(fields_of(parts_h.skip(1)) =~= Seq::<BoundsFieldView>::empty());
    assert(fields_of(parts_h) =~= seq![fh]);
    assert(fields_of(parts_w) =~= seq![fw, fh]);
    assert(fields_of(parts_y) =~= seq![fy, fw, fh]);
}

/// The parts put together again, a separator between each two.
pub open spec fn joined(parts: Seq<Seq<char>>) -> Seq<char>
    decreases parts.len(),
{
    if parts.len() == 0 {
        Seq::empty()
    } else if parts.len() == 1 {
        parts[0]
    } else {
        parts[0] + seq![',', ' '] + joined(parts.skip(1))
    }
}

/// From any place on, a text falls into at least one part, no part holds a
/// separator, and the parts joined by separators are the text from that
/// place on.
pub proof fn lemma_parts_from(s: Seq<char>, from: int)
    requires
        0 <= from <= s.len(),
    ensures
        parts_from(s, from).len() >= 1,
        forall|k: int|
            0 <= k < parts_from(s, from).len() ==> separator_free(#[trigger] parts_from(s, from)[k]),
        joined(parts_from(s, from)) == s.subrange(from, s.len() as int),
    decreases s.len() - from,
{
    lemma_separator_from(s, from);
    let at = separator_from(s, from);
    let parts = parts_from(s, from);
    if at + 2 <= s.len() {
        let first = s.subrange(from, at);
        let rest = parts_from(s, at + 2);
        lemma_parts_from(s, at + 2);
        assert(parts.skip(1) =~= rest);
        assert(separator_free(first)) by {
            assert forall|i: int| !separator_at(first, i) by {
                if separator_at(first, i) {
                    assert(separator_at(s, from + i));
                }
            }
        }
    } else {
        let only = s.subrange(from, s.len() as int);
        assert(separator_free(only)) by {
            assert forall|i: int| !separator_at(only, i) by {
                if separator_at(only, i) {
                    assert(separator_at(s, from + i));
                }
            }
        }
    }
}

/// A text falls into at least one part, no part holds a separator, and the
/// parts joined by separators are the text again.
pub proof fn lemma_split_parts(s: Seq<char>)
    ensures
        split_parts(s).len() >= 1,
        forall|k: int|
            0 <= k < split_parts(s).len() ==> separator_free(#[trigger] split_parts(s)[k]),
        joined(split_parts(s)) == s,
{
    lemma_parts_from(s, 0);
}

/// The text of the number that `fields` give for `key`: that of the last
/// field with this key. `None` where no field has it.
pub fn last_value(fields: &Vec<BoundsField>, key: BoundsKey) -> (value: Option<String>)
    ensures
        value is None <==> forall|i: int| 0 <= i < fields@.len() ==> fields@[i].key != key,
        value is Some ==> exists|i: int|
            0 <= i < fields@.len() && fields@[i].key == key && fields@[i].value@ == value->Some_0@
                && forall|j: int| i < j < fields@.len() ==> fields@[j].key != key,
{
    let mut i: usize = fields.len();
    while i > 0
        invariant
            i <= fields.len(),
            forall|j: int| i <= j < fields@.len() ==> fields@[j].key != key,
        decreases i,
    {
        i -= 1;
        if fields[i].key == key {
            let value = fields[i].value.clone();
            assert(fields@[i as int].key == key && fields@[i as int].value@ == value@);
            return Some(value);
        }
    }
    None
}

} // verus!
