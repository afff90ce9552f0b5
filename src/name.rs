//! The grammar of input file names: a run of ASCII letters (the type tag),
//! a run of ASCII digits (the index) and an underscore.
use vstd::prelude::*;

use crate::SensorError;

verus! {

/// The kind of sensor an input belongs to.
#[derive(Debug, Clone, PartialEq, Eq)]
pub enum Type {
    Voltage,
    Temp,
    Fan,
    Other(Option<String>),
}

pub open spec fn is_letter(c: char) -> bool {
    ('a' <= c && c <= 'z') || ('A' <= c && c <= 'Z')
}

pub open spec fn is_digit(c: char) -> bool {
    '0' <= c && c <= '9'
}

/// Whether `c` belongs to the class of the type tag (`digit == false`) or of
/// the index (`digit == true`).
pub open spec fn in_class(c: char, digit: bool) -> bool {
    if digit {
        is_digit(c)
    } else {
        is_letter(c)
    }
}

/// The end of the longest run of characters of one class that starts at `i`.
pub open spec fn run_end(s: Seq<char>, i: int, digit: bool) -> int
    decreases s.len() - i,
{
    if 0 <= i < s.len() && in_class(s[i], digit) {
        run_end(s, i + 1, digit)
    } else {
        i
    }
}

/// Where the type tag of a name ends.
pub open spec fn tag_end(s: Seq<char>) -> int {
    run_end(s, 0, false)
}

/// Where the index of a name ends: the stem is everything before it.
pub open spec fn stem_end(s: Seq<char>) -> int {
    run_end(s, tag_end(s), true)
}

/// A name starts with one or more letters, one or more digits and `_`.
pub open spec fn is_well_formed(s: Seq<char>) -> bool {
    &&& tag_end(s) > 0
    &&& stem_end(s) > tag_end(s)
    &&& stem_end(s) < s.len()
    &&& s[stem_end(s)] == '_'
}

pub open spec fn tag_of(s: Seq<char>) -> Seq<char> {
    s.subrange(0, tag_end(s))
}

pub open spec fn stem_of(s: Seq<char>) -> Seq<char> {
    s.subrange(0, stem_end(s))
}

/// The kind that a type tag stands for.
pub open spec fn type_matches_tag(t: Type, tag: Seq<char>) -> bool {
    if tag == seq!['i', 'n'] {
        t is Voltage
    } else if tag == seq!['f', 'a', 'n'] {
        t is Fan
    } else if tag == seq!['t', 'e', 'm', 'p'] {
        t is Temp
    } else {
        t matches Type::Other(Some(o)) && o@ == tag
    }
}

pub open spec fn input_suffix() -> Seq<char> {
    seq!['_', 'i', 'n', 'p', 'u', 't']
}

/// Whether a directory entry's name ends in `_input`.
pub open spec fn is_input_name(s: Seq<char>) -> bool {
    s.len() >= input_suffix().len() && s.subrange(
        s.len() - input_suffix().len(),
        s.len() as int,
    ) == input_suffix()
}

/// A run that stops at `end` ends there, from every start inside it.
proof fn lemma_run_end(s: Seq<char>, i: int, end: int, digit: bool)
    requires
        0 <= i <= end <= s.len(),
        forall|j: int| i <= j < end ==> in_class(#[trigger] s[j], digit),
        end == s.len() || !in_class(s[end], digit),
    ensures
        run_end(s, i, digit) == end,
    decreases end - i,
{
    if i < end {
        lemma_run_end(s, i + 1, end, digit);
    }
}

/// Every name made of a tag of letters, an index of digits and `_input` is
/// well formed; its tag and stem are the parts it was made of.
pub proof fn law_names_classify(tag: Seq<char>, index: Seq<char>)
    requires
        tag.len() > 0,
        index.len() > 0,
        forall|j: int| 0 <= j < tag.len() ==> is_letter(#[trigger] tag[j]),
        forall|j: int| 0 <= j < index.len() ==> is_digit(#[trigger] index[j]),
    ensures
        is_well_formed(tag + index + input_suffix()),
        is_input_name(tag + index + input_suffix()),
        tag_of(tag + index + input_suffix()) == tag,
        stem_of(tag + index + input_suffix()) == tag + index,
{
    let s = tag + index + input_suffix();
    let a = tag.len() as int;
    let b = a + index.len();
    assert forall|j: int| 0 <= j < a implies in_class(#[trigger] s[j], false) by {
        assert(s[j] == tag[j]);
    }
    assert(s[a] == index[0]);
    lemma_run_end(s, 0, a, false);
    assert forall|j: int| a <= j < b implies in_class(#[trigger] s[j], true) by {
        assert(s[j] == index[j - a]);
    }
    assert(s[b] == '_');
    lemma_run_end(s, a, b, true);
    assert(s.subrange(0, a) =~= tag);
    assert(s.subrange(0, b) =~= tag + index);
    assert(s.subrange(s.len() - 6, s.len() as int) =~= input_suffix());
}

fn is_letter_char(c: char) -> (r: bool)
    ensures
        r == is_letter(c),
{
    ('a' <= c && c <= 'z') || ('A' <= c && c <= 'Z')
}

fn is_digit_char(c: char) -> (r: bool)
    ensures
        r == is_digit(c),
{
    '0' <= c && c <= '9'
}

/// The end of the run of one class of characters that starts at `start`.
fn find_run_end(s: &str, start: usize, digit: bool) -> (r: usize)
    requires
        start <= s@.len(),
    ensures
        r == run_end(s@, start as int, digit),
        start <= r <= s@.len(),
{
    let len = s.unicode_len();
    let mut i: usize = start;
    while i < len
        invariant
            len == s@.len(),
            start <= i <= len,
            forall|j: int| start <= j < i ==> in_class(#[trigger] s@[j], digit),
        ensures
            i == len || !in_class(s@[i as int], digit),
        decreases len - i,
    {
        let c = s.get_char(i);
        let inside = if digit {
            is_digit_char(c)
        } else {
            is_letter_char(c)
        };
        if !inside {
            break;
        }
        i = i + 1;
    }
    proof {
        lemma_run_end(s@, start as int, i as int, digit);
    }
    i
}

/// A well-formed input file name taken apart: the kind of sensor its tag
/// stands for and its stem, the tag and index together (`temp1`).
#[derive(Debug)]
pub struct InputName {
    pub typ: Type,
    pub stem: String,
}

/// The kind of sensor that a type tag stands for.
fn type_of_tag(tag: &str) -> (r: Type)
    ensures
        type_matches_tag(r, tag@),
{
    let n = tag.unicode_len();
    if n == 2 && tag.get_char(0) == 'i' && tag.get_char(1) == 'n' {
        assert(tag@ =~= seq!['i', 'n']);
        Type::Voltage
    } else if n == 3 && tag.get_char(0) == 'f' && tag.get_char(1) == 'a' && tag.get_char(2) == 'n' {
        assert(tag@ =~= seq!['f', 'a', 'n']);
        Type::Fan
    } else if n == 4 && tag.get_char(0) == 't' && tag.get_char(1) == 'e' && tag.get_char(2) == 'm'
        && tag.get_char(3) == 'p' {
        assert(tag@ =~= seq!['t', 'e', 'm', 'p']);
        Type::Temp
    } else {
        Type::Other(Some(String::from_str(tag)))
    }
}

/// Takes an input file name apart. Fails with `MalformedName` exactly when
/// the name does not start with letters, digits and `_`.
pub fn parse_input_name(file_name: &str) -> (r: Result<InputName, SensorError>)
    ensures
        r is Ok <==> is_well_formed(file_name@),
        r is Err ==> r == Err::<InputName, SensorError>(SensorError::MalformedName),
        r matches Ok(n) ==> n.stem@ == stem_of(file_name@) && type_matches_tag(
            n.typ,
            tag_of(file_name@),
        ),
{
    let len = file_name.unicode_len();
    let tag_len = find_run_end(file_name, 0, false);
    if tag_len == 0 {
        return Err(SensorError::MalformedName);
    }
    let stem_len = find_run_end(file_name, tag_len, true);
    if stem_len == tag_len || stem_len >= len || file_name.get_char(stem_len) != '_' {
        return Err(SensorError::MalformedName);
    }
    let typ = type_of_tag(file_name.substring_char(0, tag_len));
    let stem = String::from_str(file_name.substring_char(0, stem_len));
    Ok(InputName { typ, stem })
}

/// Whether a directory entry's name marks a sensor input.
pub fn is_input_file_name(file_name: &str) -> (r: bool)
    ensures
        r == is_input_name(file_name@),
{
    let len = file_name.unicode_len();
    if len < 6 {
        return false;
    }
    let end = file_name.substring_char(len - 6, len);
    let r = end.get_char(0) == '_' && end.get_char(1) == 'i' && end.get_char(2) == 'n'
        && end.get_char(3) == 'p' && end.get_char(4) == 'u' && end.get_char(5) == 't';
    assert(r ==> end@ =~= input_suffix());
    r
}

impl InputName {
    /// The name of the label file that may sit beside the input: the stem
    /// followed by `_label`.
    pub fn label_file_name(&self) -> (r: String)
        ensures
            r@ == self.stem@ + seq!['_', 'l', 'a', 'b', 'e', 'l'],
    {
        let suffix = "_label";
        proof {
            reveal_strlit("_label");
        }
        let r = self.stem.clone().concat(suffix);
        assert(suffix@ =~= seq!['_', 'l', 'a', 'b', 'e', 'l']);
        r
    }
}

} // verus!
