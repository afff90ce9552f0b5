//! One classified sensor input: its kind, its label, and the scaling of its
//! raw readings.
use vstd::prelude::*;

use crate::name::{InputName, Type};
use crate::SensorError;

verus! {

/// What came of reading the label file that may sit beside an input.
#[derive(Debug)]
pub enum LabelFile {
    /// The file was read; this is all it holds.
    Contents(String),
    /// There is no such file.
    NotFound,
    /// The file exists but could not be read.
    Unreadable,
}

/// A sensor input whose kind and label are known.
#[derive(Debug)]
pub struct Input {
    pub label: String,
    pub typ: Type,
}

/// A reading as a fraction: the value is `raw / divisor`.
#[derive(PartialEq, Eq, Structural, Debug, Clone, Copy)]
pub struct Reading {
    pub raw: u32,
    pub divisor: u32,
}

/// `s` with its last character removed.
pub open spec fn drop_newline(s: Seq<char>) -> Seq<char> {
    s.subrange(0, s.len() - 1)
}

pub open spec fn ends_with_newline(s: Seq<char>) -> bool {
    s.len() > 0 && s.last() == '\n'
}

/// The label that an input with the given stem gets from its label file,
/// or the error that stops the input from being built.
pub open spec fn label_outcome(stem: Seq<char>, file: LabelFile) -> Result<Seq<char>, SensorError> {
    match file {
        LabelFile::Contents(s) => if ends_with_newline(s@) {
            Ok(drop_newline(s@))
        } else {
            Err(SensorError::InconsistentLabelFile)
        },
        LabelFile::NotFound => Ok(stem),
        LabelFile::Unreadable => Err(SensorError::Filesystem),
    }
}

/// The label: the label file's text without its final newline, or the stem
/// where there is no label file.
pub fn resolve_label(stem: &str, file: LabelFile) -> (r: Result<String, SensorError>)
    ensures
        match (r, label_outcome(stem@, file)) {
            (Ok(l), Ok(m)) => l@ == m,
            (Err(e), Err(f)) => e == f,
            _ => false,
        },
{
    match file {
        LabelFile::Contents(s) => {
            let n = s.unicode_len();
            if n > 0 && s.get_char(n - 1) == '\n' {
                Ok(String::from_str(s.substring_char(0, n - 1)))
            } else {
                Err(SensorError::InconsistentLabelFile)
            }
        },
        LabelFile::NotFound => Ok(String::from_str(stem)),
        LabelFile::Unreadable => Err(SensorError::Filesystem),
    }
}

pub open spec fn is_digit_byte(b: u8) -> bool {
    48 <= b <= 57
}

/// The number that a run of decimal digits spells.
pub open spec fn decimal_value(d: Seq<u8>) -> nat
    decreases d.len(),
{
    if d.len() == 0 {
        0
    } else {
        decimal_value(d.drop_last()) * 10 + (d.last() - 48) as nat
    }
}

/// The text of a value file: what was read, less its final newline.
pub open spec fn value_text(b: Seq<u8>) -> Seq<u8> {
    b.subrange(0, b.len() - 1)
}

/// The digits of a value's text, after an optional `+`.
pub open spec fn value_digits(t: Seq<u8>) -> Seq<u8> {
    if t.len() > 0 && t[0] == 43 {
        t.drop_first()
    } else {
        t
    }
}

/// Whether the bytes read from a value file hold an unsigned 32-bit decimal
/// number followed by one more byte, the newline.
pub open spec fn is_valid_value(b: Seq<u8>) -> bool {
    let d = value_digits(value_text(b));
    &&& b.len() > 0
    &&& d.len() > 0
    &&& forall|i: int| 0 <= i < d.len() ==> is_digit_byte(#[trigger] d[i])
    &&& decimal_value(d) <= u32::MAX
}

/// The raw number in the bytes read from a value file.
pub open spec fn raw_value(b: Seq<u8>) -> nat {
    decimal_value(value_digits(value_text(b)))
}

/// A prefix of a run of digits spells no more than the whole run.
proof fn lemma_decimal_prefix(d: Seq<u8>, k: int)
    requires
        0 <= k <= d.len(),
        forall|i: int| 0 <= i < d.len() ==> is_digit_byte(#[trigger] d[i]),
    ensures
        decimal_value(d.subrange(0, k)) <= decimal_value(d),
    decreases d.len(),
{
    if k < d.len() {
        let p = d.drop_last();
        assert forall|i: int| 0 <= i < p.len() implies is_digit_byte(#[trigger] p[i]) by {
            assert(p[i] == d[i]);
        }
        lemma_decimal_prefix(p, k);
        assert(p.subrange(0, k) =~= d.subrange(0, k));
    } else {
        assert(d.subrange(0, k) =~= d);
    }
}

/// Parses the bytes read from a value file: a decimal number that fits in
/// 32 bits, optionally after `+`, then one final byte, the newline. Fails
/// with `MalformedValue` on anything else.
pub fn parse_value(bytes: &[u8]) -> (r: Result<u32, SensorError>)
    ensures
        r is Ok <==> is_valid_value(bytes@),
        r matches Ok(v) ==> v == raw_value(bytes@),
        r is Err ==> r == Err::<u32, SensorError>(SensorError::MalformedValue),
{
    let n = bytes.len();
    if n == 0 {
        return Err(SensorError::MalformedValue);
    }
    let end = n - 1;
    let start: usize = if end > 0 && bytes[0] == 43 {
        1
    } else {
        0
    };
    let ghost t = value_text(bytes@);
    let ghost d = value_digits(t);
    assert(d =~= bytes@.subrange(start as int, end as int));
    if start == end {
        return Err(SensorError::MalformedValue);
    }
    let mut acc: u64 = 0;
    let mut i: usize = start;
    while i < end
        invariant
            start <= i <= end,
            end < bytes@.len(),
            d =~= bytes@.subrange(start as int, end as int),
            d == value_digits(value_text(bytes@)),
            forall|j: int| 0 <= j < i - start ==> is_digit_byte(#[trigger] d[j]),
            acc == decimal_value(d.subrange(0, i - start)),
            acc <= u32::MAX,
        decreases end - i,
    {
        let c = bytes[i];
        if c < 48 || c > 57 {
            assert(d[i - start] == c);
            return Err(SensorError::MalformedValue);
        }
        proof {
            let p = d.subrange(0, i - start + 1);
            assert(p.drop_last() =~= d.subrange(0, i - start));
            assert(p.last() == c);
        }
        acc = acc * 10 + (c - 48) as u64;
        if acc > 0xffff_ffff {
            proof {
                if forall|j: int| 0 <= j < d.len() ==> is_digit_byte(#[trigger] d[j]) {
                    lemma_decimal_prefix(d, i - start + 1);
                }
            }
            return Err(SensorError::MalformedValue);
        }
        i = i + 1;
    }
    assert(d.subrange(0, i - start) =~= d);
    Ok(acc as u32)
}

/// What the raw number of a reading is divided by: temperatures come in
/// thousandths of a degree, everything else in whole units.
pub open spec fn divisor_of(t: Type) -> u32 {
    if t is Temp {
        1000
    } else {
        1
    }
}

/// The unit that readings of a kind are shown in.
pub open spec fn unit_of(t: Type) -> Seq<char> {
    match t {
        Type::Voltage => seq!['V'],
        Type::Fan => seq![' ', 'R', 'P', 'M'],
        Type::Temp => seq!['\u{b0}', 'C'],
        Type::Other(Some(tag)) => tag@,
        Type::Other(None) => seq![],
    }
}

/// The reading of an input of kind `t`, given the bytes that were read, or
/// `None` where the read failed: the raw number is zero unless the bytes hold
/// a valid value.
pub open spec fn reading_of(t: Type, read: Option<Seq<u8>>) -> Reading {
    let raw = match read {
        Some(b) => if is_valid_value(b) {
            raw_value(b) as u32
        } else {
            0
        },
        None => 0,
    };
    Reading { raw, divisor: divisor_of(t) }
}

pub open spec fn read_view(read: Option<&[u8]>) -> Option<Seq<u8>> {
    match read {
        Some(b) => Some(b@),
        None => None,
    }
}

/// Readings keep no state: the same bytes give the same reading, however
/// often they are read.
pub proof fn law_update_repeatable(t: Type, first: Option<Seq<u8>>, again: Option<Seq<u8>>)
    requires
        first == again,
    ensures
        reading_of(t, first) == reading_of(t, again),
{
}

/// A label file that holds a text and a newline gives back that text.
pub proof fn law_label_round_trip(stem: Seq<char>, file: LabelFile, text: Seq<char>)
    requires
        file matches LabelFile::Contents(s) && s@ == text.push('\n'),
    ensures
        label_outcome(stem, file) == Ok::<Seq<char>, SensorError>(text),
{
    assert(text.push('\n').subrange(0, text.len() as int) =~= text);
}

impl Input {
    /// Builds an input from its parsed name and what came of reading its
    /// label file.
    pub fn new(name: InputName, label_file: LabelFile) -> (r: Result<Input, SensorError>)
        ensures
            match (r, label_outcome(name.stem@, label_file)) {
                (Ok(i), Ok(l)) => i.label@ == l && i.typ == name.typ,
                (Err(e), Err(f)) => e == f,
                _ => false,
            },
    {
        match resolve_label(name.stem.as_str(), label_file) {
            Ok(label) => Ok(Input { label, typ: name.typ }),
            Err(e) => Err(e),
        }
    }

    /// The current reading, from the bytes just read at the start of the
    /// input's value file, or `None` where that read failed. A failed read
    /// or a malformed value reads as zero.
    pub fn update(&self, read: Option<&[u8]>) -> (r: Reading)
        ensures
            r == reading_of(self.typ, read_view(read)),
    {
        let raw = match read {
            Some(b) => match parse_value(b) {
                Ok(v) => v,
                Err(_) => 0,
            },
            None => 0,
        };
        let divisor = match self.typ {
            Type::Temp => 1000,
            _ => 1,
        };
        Reading { raw, divisor }
    }

    pub fn label(&self) -> (r: &str)
        ensures
            r@ == self.label@,
    {
        self.label.as_str()
    }

    /// The unit of the input's readings.
    pub fn unit(&self) -> (r: &str)
        ensures
            r@ == unit_of(self.typ),
    {
        match &self.typ {
            Type::Voltage => {
                proof {
                    reveal_strlit("V");
                }
                "V"
            },
            Type::Fan => {
                proof {
                    reveal_strlit(" RPM");
                }
                " RPM"
            },
            Type::Temp => {
                proof {
                    reveal_strlit("\u{b0}C");
                }
                "\u{b0}C"
            },
            Type::Other(Some(tag)) => tag.as_str(),
            Type::Other(None) => {
                proof {
                    reveal_strlit("");
                }
                ""
            },
        }
    }
}

} // verus!
