//! Decoded documents: what the general decoder makes of a frame, as a value
//! of this library.

use vstd::prelude::*;
use vstd::multiset::Multiset;
use vstd::string::StringSliceAdditionalSpecFns;
use vstd::utf8::encode_utf8;
use simd_json::base::ValueAsArray;
use simd_json::base::ValueAsObject;
use simd_json::base::ValueAsScalar;
use crate::parsing::bytes::same_bytes;
use crate::parsing::scan::BACKSLASH;
use crate::parsing::scan::QUOTE;
use crate::parsing::Field;
use crate::parsing::FormatIssue;
use crate::parsing::ParseError;
use crate::parsing::Real;

verus! {

/// How deep lists and objects may be nested in a frame that is handed to the
/// decoder, and how deep they are read. No reply of the exchange that this
/// library reads is deeper than five.
pub const MAX_DEPTH: usize = 16;

/// What a document says, as a plain value. The members of an object are held
/// without an order, each as often as the document has it.
pub enum JsonModel {
    Null,
    Bool(bool),
    /// A whole number from 0 to 2^64 - 1.
    Unsigned(u64),
    /// A whole number below 0.
    Signed(i64),
    /// A number written with a fraction or an exponent, by its 64 bits.
    Real(u64),
    Text(Seq<char>),
    List(Seq<JsonModel>),
    Object(Multiset<(Seq<char>, JsonModel)>),
}

/// What the decoder makes of the bytes of a frame: the document that they
/// write, or `None` where they write none.
pub uninterp spec fn decoded(bytes: Seq<u8>) -> Option<JsonModel>;

/// What a document of the decoder says.
pub uninterp spec fn document(value: simd_json::BorrowedValue<'_>) -> JsonModel;

/// `[` or `{`.
pub open spec fn opens(b: u8) -> bool {
    b == 91 || b == 123
}

/// `]` or `}`.
pub open spec fn closes(b: u8) -> bool {
    b == 93 || b == 125
}

/// The deepest nesting of brackets and braces that the bytes from `pos` on
/// reach, given the nesting `depth` at `pos`, the deepest nesting `most`
/// before `pos`, and whether `pos` lies in a string. Brackets in strings do
/// not count; a backslash in a string hides the byte behind it.
pub open spec fn deepest(buf: Seq<u8>, pos: int, depth: nat, in_string: bool, most: nat) -> nat
    decreases buf.len() + 1 - pos,
{
    if pos < 0 || pos >= buf.len() {
        most
    } else if in_string {
        if buf[pos] == BACKSLASH {
            deepest(buf, pos + 2, depth, true, most)
        } else {
            deepest(buf, pos + 1, depth, buf[pos] != QUOTE, most)
        }
    } else if buf[pos] == QUOTE {
        deepest(buf, pos + 1, depth, true, most)
    } else if opens(buf[pos]) {
        deepest(buf, pos + 1, depth + 1, false, if depth + 1 > most {
            depth + 1
        } else {
            most
        })
    } else if closes(buf[pos]) {
        deepest(buf, pos + 1, if depth > 0 {
            (depth - 1) as nat
        } else {
            0
        }, false, most)
    } else {
        deepest(buf, pos + 1, depth, false, most)
    }
}

/// How deep the lists and objects of a frame are nested.
pub open spec fn nesting(buf: Seq<u8>) -> nat {
    deepest(buf, 0, 0, false, 0)
}

/// The deepest nesting is no less than the deepest before.
pub proof fn lemma_deepest_grows(buf: Seq<u8>, pos: int, depth: nat, in_string: bool, most: nat)
    ensures
        deepest(buf, pos, depth, in_string, most) >= most,
    decreases buf.len() + 1 - pos,
{
    if pos < 0 || pos >= buf.len() {
    } else if in_string {
        if buf[pos] == BACKSLASH {
            lemma_deepest_grows(buf, pos + 2, depth, true, most);
        } else {
            lemma_deepest_grows(buf, pos + 1, depth, buf[pos] != QUOTE, most);
        }
    } else if buf[pos] == QUOTE {
        lemma_deepest_grows(buf, pos + 1, depth, true, most);
    } else if opens(buf[pos]) {
        lemma_deepest_grows(buf, pos + 1, depth + 1, false, if depth + 1 > most {
            depth + 1
        } else {
            most
        });
    } else if closes(buf[pos]) {
        lemma_deepest_grows(buf, pos + 1, if depth > 0 {
            (depth - 1) as nat
        } else {
            0
        }, false, most);
    } else {
        lemma_deepest_grows(buf, pos + 1, depth, false, most);
    }
}

/// Whether the lists and objects of a frame are nested deeper than `limit`.
pub fn nested_deeper(buffer: &[u8], limit: usize) -> (deeper: bool)
    ensures
        deeper == (nesting(buffer@) > limit),
{
    let mut pos: usize = 0;
    let mut depth: usize = 0;
    let mut most: usize = 0;
    let mut in_string = false;
    while pos < buffer.len()
        invariant
            pos <= buffer.len(),
            depth <= most <= limit,
            nesting(buffer@) == deepest(buffer@, pos as int, depth as nat, in_string, most as nat),
        decreases buffer.len() - pos,
    {
        let b = buffer[pos];
        if in_string {
            if b == BACKSLASH {
                if buffer.len() - pos < 2 {
                    assert(deepest(buffer@, pos + 2, depth as nat, true, most as nat) == most);
                    assert(deepest(buffer@, buffer@.len() as int, depth as nat, true, most as nat)
                        == most);
                    pos = buffer.len();
                } else {
                    pos = pos + 2;
                }
            } else {
                in_string = b != QUOTE;
                pos = pos + 1;
            }
        } else if b == QUOTE {
            in_string = true;
            pos = pos + 1;
        } else if b == 91 || b == 123 {
            if depth >= limit {
                proof {
                    lemma_deepest_grows(
                        buffer@,
                        pos + 1,
                        (depth + 1) as nat,
                        false,
                        (depth + 1) as nat,
                    );
                }
                return true;
            }
            depth = depth + 1;
            if depth > most {
                most = depth;
            }
            pos = pos + 1;
        } else if b == 93 || b == 125 {
            if depth > 0 {
                depth = depth - 1;
            }
            pos = pos + 1;
        } else {
            pos = pos + 1;
        }
    }
    false
}

/// A decoded document.
#[derive(Debug)]
pub enum JsonValue {
    Null,
    Bool(bool),
    /// A whole number from 0 to 2^64 - 1.
    Unsigned(u64),
    /// A whole number below 0.
    Signed(i64),
    /// A number written with a fraction or an exponent.
    Real(Real),
    Text(String),
    List(Vec<JsonValue>),
    /// The members of an object, each name once.
    Object(Vec<(String, JsonValue)>),
    /// A list or an object that lies too deep to be read.
    Deep,
}

/// `simd_json::BorrowedValue`: a document as the decoder holds it. Nothing is
/// known of what it holds but what the functions below read from it.
#[verifier::external_type_specification]
#[verifier::external_body]
pub struct ExBorrowedValue<'a>(simd_json::BorrowedValue<'a>);

/// `simd_json::Error`: the decoder's error. Only its words are read.
#[verifier::external_type_specification]
#[verifier::external_body]
pub struct ExDecodeError(simd_json::Error);

/// `simd_json::to_borrowed_value`: the document that the bytes write, or the
/// decoder's error where they write none. Which of the two, and what the
/// document says, depends on the bytes alone. The decoder rewrites the buffer
/// as it goes. It builds the document by one call for each level of nesting,
/// so the nesting is bounded.
#[verifier::external_body]
pub(crate) fn decode<'a>(buffer: &'a mut [u8]) -> (found: Result<
    simd_json::BorrowedValue<'a>,
    simd_json::Error,
>)
    requires
        nesting(old(buffer)@) <= MAX_DEPTH,
    ensures
        match found {
            Ok(value) => decoded(old(buffer)@) == Some(document(value)),
            Err(_) => decoded(old(buffer)@) is None,
        },
{
    simd_json::to_borrowed_value(buffer)
}

/// The `Display` of `simd_json::Error`: the decoder's words for its error.
#[verifier::external_body]
pub(crate) fn error_text(error: &simd_json::Error) -> (text: String) {
    error.to_string()
}

/// `ValueAsScalar::as_bool`: the truth value; `None` for any other document.
#[verifier::external_body]
pub(crate) fn boolean(value: &simd_json::BorrowedValue<'_>) -> (found: Option<bool>)
    ensures
        found == match document(*value) {
            JsonModel::Bool(b) => Some(b),
            _ => None::<bool>,
        },
{
    value.as_bool()
}

/// `ValueAsScalar::as_u64`: the number, where the document is a whole number
/// from 0 to 2^64 - 1; else `None`.
#[verifier::external_body]
pub(crate) fn unsigned(value: &simd_json::BorrowedValue<'_>) -> (found: Option<u64>)
    ensures
        found == match document(*value) {
            JsonModel::Unsigned(n) => Some(n),
            _ => None::<u64>,
        },
{
    value.as_u64()
}

/// `ValueAsScalar::as_i64`: the number, where the document is a whole number
/// that fits in 64 bits with a sign; else `None`.
#[verifier::external_body]
pub(crate) fn signed(value: &simd_json::BorrowedValue<'_>) -> (found: Option<i64>)
    ensures
        found == match document(*value) {
            JsonModel::Signed(n) => Some(n),
            JsonModel::Unsigned(n) => if n <= i64::MAX {
                Some(n as i64)
            } else {
                None::<i64>
            },
            _ => None::<i64>,
        },
{
    value.as_i64()
}

/// `ValueAsScalar::as_f64`, with `to_bits` of std on what it returns: the 64
/// bits of the number, where the document is a number written with a fraction
/// or an exponent; else `None`.
#[verifier::external_body]
pub(crate) fn real_bits(value: &simd_json::BorrowedValue<'_>) -> (found: Option<u64>)
    ensures
        found == match document(*value) {
            JsonModel::Real(bits) => Some(bits),
            _ => None::<u64>,
        },
{
    value.as_f64().map(|x| x.to_bits())
}

/// `ValueAsScalar::as_str`: the text of a string; `None` for any other
/// document.
#[verifier::external_body]
pub(crate) fn text<'a, 'v>(value: &'a simd_json::BorrowedValue<'v>) -> (found: Option<&'a str>)
    ensures
        match found {
            Some(s) => document(*value) == JsonModel::Text(s@),
            None => !(document(*value) is Text),
        },
{
    value.as_str()
}

/// `ValueAsArray::as_array`: the items of a list, in their order; `None` for
/// any other document.
#[verifier::external_body]
pub(crate) fn items<'a, 'v>(value: &'a simd_json::BorrowedValue<'v>) -> (found: Option<
    &'a Vec<simd_json::BorrowedValue<'v>>,
>)
    ensures
        match found {
            Some(all) => document(*value) == JsonModel::List(
                Seq::new(all@.len(), |i: int| document(all@[i])),
            ),
            None => !(document(*value) is List),
        },
{
    value.as_array()
}

/// `ValueAsObject::as_object`, with the map's `iter`: the members of an
/// object, each with its name and as often as the object has it, in the order
/// in which the map hands them out; `None` for any other document.
#[verifier::external_body]
pub(crate) fn members<'a, 'v>(value: &'a simd_json::BorrowedValue<'v>) -> (found: Option<
    Vec<(&'a str, &'a simd_json::BorrowedValue<'v>)>,
>)
    ensures
        match found {
            Some(all) => document(*value) == JsonModel::Object(
                Seq::new(all@.len(), |i: int| (all@[i].0@, document(*all@[i].1))).to_multiset(),
            ),
            None => !(document(*value) is Object),
        },
{
    value.as_object().map(|object| object.iter().map(|(name, item)| (&**name, item)).collect())
}

/// The first member named `key` among the members from number `from` on.
pub open spec fn member_from(members: Seq<(String, JsonValue)>, key: Seq<u8>, from: int) -> Option<
    JsonValue,
>
    decreases members.len() - from,
{
    if from < 0 || from >= members.len() {
        None
    } else if encode_utf8(members[from].0@) == key {
        Some(members[from].1)
    } else {
        member_from(members, key, from + 1)
    }
}

impl Field {
    /// The bytes of the name of the field.
    pub open spec fn key(self) -> Seq<u8> {
        encode_utf8(self.spec_name())
    }
}

impl JsonValue {
    /// The member named `key`, where the value is an object that has one.
    pub open spec fn member(self, key: Seq<u8>) -> Option<JsonValue> {
        match self {
            JsonValue::Object(members) => member_from(members@, key, 0),
            _ => None,
        }
    }

    /// The text, where the value is a string.
    pub open spec fn text(self) -> Option<String> {
        match self {
            JsonValue::Text(s) => Some(s),
            _ => None,
        }
    }

    /// The number, where the value is a whole number from 0 to 2^64 - 1.
    pub open spec fn unsigned(self) -> Option<u64> {
        match self {
            JsonValue::Unsigned(n) => Some(n),
            _ => None,
        }
    }

    /// The number, where the value is a whole number that fits `usize`.
    pub open spec fn size(self) -> Option<usize> {
        match self {
            JsonValue::Unsigned(n) => if n <= usize::MAX {
                Some(n as usize)
            } else {
                None
            },
            _ => None,
        }
    }

    /// The number, where the value is written with a fraction or an exponent.
    pub open spec fn real_number(self) -> Option<Real> {
        match self {
            JsonValue::Real(r) => Some(r),
            _ => None,
        }
    }

    /// The items, where the value is a list.
    pub open spec fn items(self) -> Option<Seq<JsonValue>> {
        match self {
            JsonValue::List(all) => Some(all@),
            _ => None,
        }
    }

    /// The text of the member `field`, which has to be a string.
    pub open spec fn string_field(self, field: Field) -> Result<String, ParseError> {
        match self.member(field.key()) {
            Some(JsonValue::Text(s)) => Ok(s),
            _ => Err(ParseError::MissingField(field)),
        }
    }

    /// The number of the member `field`, which has to be a whole number from
    /// 0 to 2^64 - 1.
    pub open spec fn u64_field(self, field: Field) -> Result<u64, ParseError> {
        match self.member(field.key()) {
            Some(JsonValue::Unsigned(n)) => Ok(n),
            _ => Err(ParseError::MissingField(field)),
        }
    }

    /// The number of the member `field`, which has to be a whole number that
    /// fits `usize`.
    pub open spec fn usize_field(self, field: Field) -> Result<usize, ParseError> {
        match self.member(field.key()) {
            Some(found) => match found.size() {
                Some(n) => Ok(n),
                None => Err(ParseError::MissingField(field)),
            },
            None => Err(ParseError::MissingField(field)),
        }
    }

    /// The number of the member `field`, which has to be written with a
    /// fraction or an exponent.
    pub open spec fn real_field(self, field: Field) -> Result<Real, ParseError> {
        match self.member(field.key()) {
            Some(JsonValue::Real(r)) => Ok(r),
            _ => Err(ParseError::MissingField(field)),
        }
    }

    /// The member named `key`, where the value is an object that has one.
    pub fn get(&self, key: &str) -> (found: Option<&JsonValue>)
        ensures
            match found {
                Some(item) => self.member(key.spec_bytes()) == Some(*item),
                None => self.member(key.spec_bytes()) is None,
            },
    {
        match self {
            JsonValue::Object(members) => {
                let mut i: usize = 0;
                while i < members.len()
                    invariant
                        i <= members.len(),
                        self.member(key.spec_bytes()) == member_from(
                            members@,
                            key.spec_bytes(),
                            i as int,
                        ),
                    decreases members.len() - i,
                {
                    if same_bytes(members[i].0.as_str().as_bytes(), key.as_bytes()) {
                        assert(encode_utf8(members@[i as int].0@) == key.spec_bytes());
                        return Some(&members[i].1);
                    }
                    i += 1;
                }
                None
            },
            _ => None,
        }
    }

    /// The text, where the value is a string.
    pub fn as_string(&self) -> (found: Option<&String>)
        ensures
            match found {
                Some(s) => self.text() == Some(*s),
                None => self.text() is None,
            },
    {
        match self {
            JsonValue::Text(s) => Some(s),
            _ => None,
        }
    }

    /// The number, where the value is a whole number from 0 to 2^64 - 1.
    pub fn as_u64(&self) -> (found: Option<u64>)
        ensures
            found == self.unsigned(),
    {
        match self {
            JsonValue::Unsigned(n) => Some(*n),
            _ => None,
        }
    }

    /// The number, where the value is a whole number that fits `usize`.
    pub fn as_usize(&self) -> (found: Option<usize>)
        ensures
            found == self.size(),
    {
        match self {
            JsonValue::Unsigned(n) => if *n <= usize::MAX as u64 {
                Some(*n as usize)
            } else {
                None
            },
            _ => None,
        }
    }

    /// The number, where the value is written with a fraction or an exponent.
    pub fn as_real(&self) -> (found: Option<Real>)
        ensures
            found == self.real_number(),
    {
        match self {
            JsonValue::Real(r) => Some(*r),
            _ => None,
        }
    }

    /// The items, where the value is a list.
    pub fn as_list(&self) -> (found: Option<&Vec<JsonValue>>)
        ensures
            match found {
                Some(all) => self.items() == Some(all@),
                None => self.items() is None,
            },
    {
        match self {
            JsonValue::List(all) => Some(all),
            _ => None,
        }
    }

    /// Whether the value says what `model` says, read down to `depth`
    /// levels: a plain value is the model's, the items of a list are the
    /// model's in their order, the members of an object are the model's in some
    /// order, and `Deep` stands exactly where the model has a list or an object
    /// at that depth.
    pub open spec fn models(self, model: JsonModel, depth: nat) -> bool
        decreases depth,
    {
        match self {
            JsonValue::Null => model is Null,
            JsonValue::Bool(b) => model == JsonModel::Bool(b),
            JsonValue::Unsigned(n) => model == JsonModel::Unsigned(n),
            JsonValue::Signed(n) => model == JsonModel::Signed(n),
            JsonValue::Real(r) => model == JsonModel::Real(r.bits),
            JsonValue::Text(s) => model == JsonModel::Text(s@),
            JsonValue::Deep => depth == 0 && (model is List || model is Object),
            JsonValue::List(all) => if depth == 0 {
                false
            } else {
                &&& model matches JsonModel::List(items)
                &&& items.len() == all@.len()
                &&& forall|i: int|
                    0 <= i < all@.len() ==> (#[trigger] all@[i]).models(
                        items[i],
                        (depth - 1) as nat,
                    )
            },
            JsonValue::Object(members) => if depth == 0 {
                false
            } else {
                &&& model matches JsonModel::Object(entries)
                &&& exists|listed: Seq<(Seq<char>, JsonModel)>|
                    {
                        &&& listed.len() == members@.len()
                        &&& #[trigger] listed.to_multiset() == entries
                        &&& forall|i: int|
                            0 <= i < members@.len() ==> {
                                &&& (#[trigger] members@[i]).0@ == listed[i].0
                                &&& members@[i].1.models(listed[i].1, (depth - 1) as nat)
                            }
                    }
            },
        }
    }

    /// The value of a document that is no list and no object, from what the
    /// decoder says of it: a truth value before a whole number from 0 up,
    /// that before a whole number below 0, that before a number with a
    /// fraction, that before a string. `None` where the decoder says none of
    /// these.
    pub fn scalar(
        boolean: Option<bool>,
        unsigned: Option<u64>,
        signed: Option<i64>,
        real_bits: Option<u64>,
        text: Option<&str>,
    ) -> (found: Option<JsonValue>)
        ensures
            match found {
                Some(JsonValue::Bool(b)) => boolean == Some(b),
                Some(JsonValue::Unsigned(n)) => boolean is None && unsigned == Some(n),
                Some(JsonValue::Signed(n)) => boolean is None && unsigned is None && signed
                    == Some(n),
                Some(JsonValue::Real(r)) => boolean is None && unsigned is None && signed is None
                    && real_bits == Some(r.bits),
                Some(JsonValue::Text(s)) => boolean is None && unsigned is None && signed is None
                    && real_bits is None && (text matches Some(t) && t@ == s@),
                Some(_) => false,
                None => boolean is None && unsigned is None && signed is None
                    && real_bits is None && text is None,
            },
    {
        if let Some(b) = boolean {
            Some(JsonValue::Bool(b))
        } else if let Some(n) = unsigned {
            Some(JsonValue::Unsigned(n))
        } else if let Some(n) = signed {
            Some(JsonValue::Signed(n))
        } else if let Some(bits) = real_bits {
            Some(JsonValue::Real(Real { bits }))
        } else if let Some(s) = text {
            Some(JsonValue::Text(s.to_owned()))
        } else {
            None
        }
    }

    /// The document as a value of this library: what the document says, with
    /// the members of an object in the order in which the decoder hands them
    /// out. Lists and objects are read down to `depth` levels below the value;
    /// one that lies at that depth is kept as `Deep`.
    pub(crate) fn from_document(value: &simd_json::BorrowedValue<'_>, depth: usize) -> (json:
        JsonValue)
        ensures
            json.models(document(*value), depth as nat),
            depth > 0 ==> !(json is Deep),
        decreases depth,
    {
        let plain = Self::scalar(
            boolean(value),
            unsigned(value),
            signed(value),
            real_bits(value),
            text(value),
        );
        if let Some(json) = plain {
            json
        } else if let Some(all) = items(value) {
            if depth == 0 {
                return JsonValue::Deep;
            }
            let mut list: Vec<JsonValue> = Vec::new();
            let mut i: usize = 0;
            while i < all.len()
                invariant
                    i <= all.len(),
                    list@.len() == i,
                    depth > 0,
                    forall|j: int|
                        0 <= j < i ==> (#[trigger] list@[j]).models(
                            document(all@[j]),
                            (depth - 1) as nat,
                        ),
                decreases all.len() - i,
            {
                list.push(Self::from_document(&all[i], depth - 1));
                i += 1;
            }
            JsonValue::List(list)
        } else if let Some(all) = members(value) {
            if depth == 0 {
                return JsonValue::Deep;
            }
            let ghost listed = Seq::new(
                all@.len(),
                |i: int| (all@[i].0@, document(*all@[i].1)),
            );
            let mut object: Vec<(String, JsonValue)> = Vec::new();
            let mut i: usize = 0;
            while i < all.len()
                invariant
                    i <= all.len(),
                    object@.len() == i,
                    depth > 0,
                    listed == Seq::new(all@.len(), |i: int| (all@[i].0@, document(*all@[i].1))),
                    forall|j: int|
                        0 <= j < i ==> {
                            &&& (#[trigger] object@[j]).0@ == listed[j].0
                            &&& object@[j].1.models(listed[j].1, (depth - 1) as nat)
                        },
                decreases all.len() - i,
            {
                let name = all[i].0.to_owned();
                let item = Self::from_document(all[i].1, depth - 1);
                object.push((name, item));
                i += 1;
            }
            assert(listed.to_multiset() == listed.to_multiset());
            JsonValue::Object(object)
        } else {
            JsonValue::Null
        }
    }

    /// Decodes a frame: what the decoder makes of the bytes, as a value of
    /// this library. A frame whose lists and objects are nested deeper than
    /// `MAX_DEPTH` is not handed to the decoder. The decoder rewrites the
    /// buffer as it goes.
    pub fn from_bytes(buffer: &mut [u8]) -> (found: Result<JsonValue, ParseError>)
        ensures
            decodes(old(buffer)@, found),
    {
        if nested_deeper(buffer, MAX_DEPTH) {
            return Err(ParseError::InvalidFormat(FormatIssue::TooDeep));
        }
        match decode(buffer) {
            Err(error) => Err(ParseError::JsonError(error_text(&error))),
            Ok(value) => Ok(Self::from_document(&value, MAX_DEPTH)),
        }
    }
}

/// Whether `found` is what decoding the bytes of a frame gives: `TooDeep` for
/// a frame nested deeper than `MAX_DEPTH`, the decoder's error where the bytes
/// write no document, and else a value that says what the document says.
pub open spec fn decodes(bytes: Seq<u8>, found: Result<JsonValue, ParseError>) -> bool {
    if nesting(bytes) > MAX_DEPTH {
        found == Err::<JsonValue, ParseError>(ParseError::InvalidFormat(FormatIssue::TooDeep))
    } else {
        match decoded(bytes) {
            None => found matches Err(ParseError::JsonError(_)),
            Some(model) => found matches Ok(json) && json.models(model, MAX_DEPTH as nat),
        }
    }
}

/// What a list gives when each of its first `upto` items is read by `each`:
/// what the items give, in their order, or the error of the first item that
/// gives one.
pub open spec fn collected<T>(
    list: Seq<JsonValue>,
    each: spec_fn(JsonValue) -> Result<T, ParseError>,
    upto: int,
) -> Result<Seq<T>, ParseError>
    decreases upto,
{
    if upto <= 0 {
        Ok(Seq::empty())
    } else {
        match collected(list, each, upto - 1) {
            Err(e) => Err(e),
            Ok(before) => match each(list[upto - 1]) {
                Err(e) => Err(e),
                Ok(item) => Ok(before.push(item)),
            },
        }
    }
}

/// An error among the first items of a list is the error of the list.
pub proof fn lemma_collected_error<T>(
    list: Seq<JsonValue>,
    each: spec_fn(JsonValue) -> Result<T, ParseError>,
    at: int,
    upto: int,
)
    requires
        0 <= at <= upto,
        collected(list, each, at) is Err,
    ensures
        collected(list, each, upto) == collected(list, each, at),
    decreases upto - at,
{
    if at < upto {
        lemma_collected_error(list, each, at, upto - 1);
    }
}

} // verus!
