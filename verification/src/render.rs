//! A readable form of a blob, for display.
//!
//! The payload of most messages is a structured value that describes itself:
//! a map. A blob that holds such a map is shown as that map, and where the map
//! has a binary entry named `payload` that holds a structured value in turn,
//! that value is shown behind it. Any other blob is shown as its bytes. None of
//! this takes part in decoding.

use crate::convert::Data;
use rmpv::Value;
use vstd::prelude::*;
use vstd::string::StringExecFns;

verus! {

/// What is read of an entry of a map: its key where the key is a text, and
/// its value where the value is binary.
#[derive(Debug, PartialEq, Eq)]
pub struct Entry {
    pub key: Option<String>,
    pub binary: Option<Vec<u8>>,
}

/// The model of `Entry`.
pub struct EntryView {
    pub key: Option<Seq<char>>,
    pub binary: Option<Seq<u8>>,
}

impl View for Entry {
    type V = EntryView;

    open spec fn view(&self) -> EntryView {
        EntryView {
            key: match self.key {
                Some(key) => Some(key@),
                None => None,
            },
            binary: match self.binary {
                Some(bytes) => Some(bytes@),
                None => None,
            },
        }
    }
}

/// What is read of a structured value: whether it is a map, the text that
/// shows it, and the entries of a map.
#[derive(Debug, PartialEq, Eq)]
pub struct Structured {
    pub is_map: bool,
    pub text: String,
    pub entries: Vec<Entry>,
}

/// The model of `Structured`.
pub struct StructuredView {
    pub is_map: bool,
    pub text: Seq<char>,
    pub entries: Seq<EntryView>,
}

impl View for Structured {
    type V = StructuredView;

    open spec fn view(&self) -> StructuredView {
        StructuredView {
            is_map: self.is_map,
            text: self.text@,
            entries: Seq::new(self.entries@.len(), |i: int| self.entries@[i]@),
        }
    }
}

/// The structured value that the bytes start with, where they start with
/// one.
pub uninterp spec fn structured(bytes: Seq<u8>) -> Option<StructuredView>;

/// The character of a decimal digit.
pub open spec fn digit(d: u8) -> char {
    (48 + d) as char
}

/// The decimal digits of a byte, without zeros in front.
pub open spec fn decimal(byte: u8) -> Seq<char> {
    if byte < 10 {
        seq![digit(byte)]
    } else if byte < 100 {
        seq![digit(byte / 10u8), digit(byte % 10u8)]
    } else {
        seq![digit(byte / 100u8), digit(byte / 10u8 % 10u8), digit(byte % 10u8)]
    }
}

/// The bytes as decimal numbers, with a comma and a blank between one and
/// the next.
pub open spec fn items(bytes: Seq<u8>) -> Seq<char>
    decreases bytes.len(),
{
    if bytes.len() == 0 {
        Seq::empty()
    } else if bytes.len() == 1 {
        decimal(bytes[0])
    } else {
        items(bytes.drop_last()) + ", "@ + decimal(bytes.last())
    }
}

/// The text that shows the bytes one by one: their decimal numbers in
/// square brackets.
pub open spec fn listed(bytes: Seq<u8>) -> Seq<char> {
    "["@ + items(bytes) + "]"@
}

/// `rmpv::decode::read_value` on the bytes: the value that they start with,
/// where they start with one. Of the value it hands on whether it is a map
/// (`Value::is_map`), the text that shows it (its `Display`), and of each entry
/// of a map (`Value::as_map`) the key where it is a text (`Value::as_str`) and
/// the value where it is binary.
#[verifier::external_body]
fn read_structured(bytes: &[u8]) -> (r: Option<Structured>)
    ensures
        match structured(bytes@) {
            Some(value) => r matches Some(x) && x@ == value,
            None => r is None,
        },
{
    let value = rmpv::decode::read_value(&mut &bytes[..]).ok()?;
    let entry = |pair: &(Value, Value)| Entry {
        key: pair.0.as_str().map(str::to_owned),
        binary: match &pair.1 {
            Value::Binary(bytes) => Some(bytes.clone()),
            _ => None,
        },
    };
    let entries = value.as_map().map(|map| map.iter().map(entry).collect()).unwrap_or_default();
    Some(Structured { is_map: value.is_map(), text: value.to_string(), entries })
}

/// The text of a decimal digit.
fn digit_text(d: u8) -> (r: &'static str)
    requires
        d < 10,
    ensures
        r@ == seq![digit(d)],
{
    proof {
        reveal_strlit("0");
        reveal_strlit("1");
        reveal_strlit("2");
        reveal_strlit("3");
        reveal_strlit("4");
        reveal_strlit("5");
        reveal_strlit("6");
        reveal_strlit("7");
        reveal_strlit("8");
        reveal_strlit("9");
    }
    let text = match d {
        0 => "0",
        1 => "1",
        2 => "2",
        3 => "3",
        4 => "4",
        5 => "5",
        6 => "6",
        7 => "7",
        8 => "8",
        _ => "9",
    };
    assert(text@ =~= seq![digit(d)]);
    text
}

/// The decimal digits of a byte.
pub fn decimal_text(byte: u8) -> (r: String)
    ensures
        r@ == decimal(byte),
{
    let mut text = String::new();
    if byte >= 100 {
        text.append(digit_text(byte / 100));
    }
    if byte >= 10 {
        text.append(digit_text(byte / 10 % 10));
    }
    text.append(digit_text(byte % 10));
    assert(text@ =~= decimal(byte));
    text
}

/// The text that shows the bytes one by one.
pub fn list(bytes: &Vec<u8>) -> (r: String)
    ensures
        r@ == listed(bytes@),
{
    let mut text = String::from_str("[");
    let mut i: usize = 0;
    while i < bytes.len()
        invariant
            i <= bytes@.len(),
            text@ == "["@ + items(bytes@.take(i as int)),
        decreases bytes@.len() - i,
    {
        let ghost before = bytes@.take(i as int);
        let ghost now = bytes@.take(i + 1);
        assert(now.drop_last() =~= before);
        if i > 0 {
            text.append(", ");
        }
        let number = decimal_text(bytes[i]);
        text.append(number.as_str());
        assert(text@ =~= "["@ + items(now));
        i += 1;
    }
    assert(bytes@.take(i as int) =~= bytes@);
    text.append("]");
    text
}

/// The binary value of the first entry named `payload` at or behind the
/// position `from`, where there is such an entry and its value is binary.
pub open spec fn payload_from(entries: Seq<EntryView>, from: int) -> Option<Seq<u8>>
    decreases entries.len() - from,
{
    if from < 0 || from >= entries.len() {
        None
    } else if entries[from].key == Some("payload"@) {
        entries[from].binary
    } else {
        payload_from(entries, from + 1)
    }
}

/// The binary value of the first entry named `payload`, where there is such
/// an entry and its value is binary.
pub open spec fn payload_of(value: StructuredView) -> Option<Seq<u8>> {
    payload_from(value.entries, 0)
}

/// The binary value of the first entry named `payload`.
pub fn payload(value: &Structured) -> (r: Option<&Vec<u8>>)
    ensures
        match payload_of(value@) {
            Some(bytes) => r matches Some(x) && x@ == bytes,
            None => r is None,
        },
{
    let name = String::from_str("payload");
    let mut i: usize = 0;
    while i < value.entries.len()
        invariant
            i <= value.entries@.len(),
            name@ == "payload"@,
            payload_of(value@) == payload_from(value@.entries, i as int),
        decreases value.entries@.len() - i,
    {
        let entry = &value.entries[i];
        assert(value@.entries[i as int] == entry@);
        let named = match &entry.key {
            Some(key) => *key == name,
            None => false,
        };
        if named {
            return match &entry.binary {
                Some(bytes) => Some(bytes),
                None => None,
            };
        }
        i += 1;
    }
    None
}

/// How a map is shown: its text, and behind it the text of the value in its
/// payload, where there is one.
pub open spec fn shown(value: StructuredView, inner: Option<StructuredView>) -> Seq<char> {
    match inner {
        Some(inner) => value.text + ", payload (decoded): "@ + inner.text,
        None => value.text,
    }
}

/// How a map is shown.
pub fn show(value: Structured, inner: Option<Structured>) -> (r: String)
    ensures
        r@ == shown(
            value@,
            match inner {
                Some(inner) => Some(inner@),
                None => None,
            },
        ),
{
    match inner {
        Some(inner) => value.text.concat(", payload (decoded): ").concat(inner.text.as_str()),
        None => value.text,
    }
}

/// How a blob is shown: as the map that it holds, and else as its bytes.
pub open spec fn rendered(bytes: Seq<u8>) -> Seq<char> {
    match structured(bytes) {
        Some(value) => if value.is_map {
            shown(
                value,
                match payload_of(value) {
                    Some(inner) => structured(inner),
                    None => None,
                },
            )
        } else {
            "Data("@ + listed(bytes) + ")"@
        },
        None => "Data("@ + listed(bytes) + ")"@,
    }
}

impl Data {
    /// The text that shows the blob.
    pub fn render(&self) -> (r: String)
        ensures
            r@ == rendered(self.0@),
    {
        match read_structured(self.0.as_slice()) {
            Some(value) => {
                if value.is_map {
                    let inner = match payload(&value) {
                        Some(bytes) => read_structured(bytes.as_slice()),
                        None => None,
                    };
                    return show(value, inner);
                }
            },
            None => {},
        }
        String::from_str("Data(").concat(list(&self.0).as_str()).concat(")")
    }
}

} // verus!
