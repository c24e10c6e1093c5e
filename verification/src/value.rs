//! Values that travel between devices and the bus, and the conversions
//! between their four representations.
use vstd::prelude::*;
use vstd::slice::slice_to_vec;
use vstd::utf8::{decode_utf8, encode_utf8, valid_utf8};
use byteorder::{BigEndian, ByteOrder};
use rustc_serialize::base64::{ToBase64, STANDARD};
use crate::number::{to_i64, truncated, truncated_unit, ONE, ZERO};
use crate::text::{chars_eq_ignore_case, chars_of, same_ignoring_case, string_of, trim, trimmed};

verus! {

/// The four representations of a value.
#[derive(Clone, Copy, Debug, PartialEq, Eq, Structural)]
pub enum ValueKind {
    Number,
    String,
    Raw,
    Bool,
}

/// A device value. A number is held as its IEEE-754 binary64 bit pattern,
/// and `==` compares numbers by their patterns.
#[derive(Clone, Debug, PartialEq, Eq)]
pub enum Value {
    Number(u64),
    String(String),
    Raw(Vec<u8>),
    Bool(bool),
}

/// What a `Value` holds.
pub enum ValueView {
    Number(u64),
    Text(Seq<char>),
    Raw(Seq<u8>),
    Bool(bool),
}

impl View for Value {
    type V = ValueView;

    open spec fn view(&self) -> ValueView {
        match self {
            Value::Number(n) => ValueView::Number(*n),
            Value::String(s) => ValueView::Text(s@),
            Value::Raw(b) => ValueView::Raw(b@),
            Value::Bool(b) => ValueView::Bool(*b),
        }
    }
}

/// Why a conversion failed: the text that is no number, or the value and
/// the representation it has no form in.
#[derive(Clone, Debug, PartialEq, Eq)]
pub enum ConversionError {
    ParseNumber(String),
    InvalidConversion(Value, ValueKind),
}

/// What a `ConversionError` holds.
pub enum ConversionErrorView {
    ParseNumber(Seq<char>),
    InvalidConversion(ValueView, ValueKind),
}

impl View for ConversionError {
    type V = ConversionErrorView;

    open spec fn view(&self) -> ConversionErrorView {
        match self {
            ConversionError::ParseNumber(s) => ConversionErrorView::ParseNumber(s@),
            ConversionError::InvalidConversion(v, k) => ConversionErrorView::InvalidConversion(
                v@,
                *k,
            ),
        }
    }
}

/// A result of the library holds what the model says.
pub open spec fn agrees<T>(r: Result<T, ConversionError>, m: Result<T, ConversionErrorView>) -> bool {
    match m {
        Ok(x) => r == Ok::<T, ConversionError>(x),
        Err(e) => r is Err && r->Err_0@ == e,
    }
}

/// A value of the library holds what the model says.
pub open spec fn value_agrees(
    r: Result<Value, ConversionError>,
    m: Result<ValueView, ConversionErrorView>,
) -> bool {
    match m {
        Ok(x) => r is Ok && r->Ok_0@ == x,
        Err(e) => r is Err && r->Err_0@ == e,
    }
}

/// Decimal text of numbers. Parsing and rendering need floating-point
/// arithmetic, which the embedding program supplies.
pub trait NumberText {
    /// The bit pattern of the number that the decimal text denotes, or
    /// `None` where the text is malformed.
    fn parse(&self, text: &str) -> Option<u64>;

    /// The default decimal text of a number.
    fn render(&self, bits: u64) -> String;
}

/// The eight bytes of `n`, most significant first.
pub open spec fn be_bytes(n: u64) -> Seq<u8> {
    seq![
        (n >> 56) as u8,
        (n >> 48) as u8,
        (n >> 40) as u8,
        (n >> 32) as u8,
        (n >> 24) as u8,
        (n >> 16) as u8,
        (n >> 8) as u8,
        n as u8,
    ]
}

/// The number whose bytes, most significant first, are the first eight of `b`.
pub open spec fn be_value(b: Seq<u8>) -> u64
    recommends
        b.len() >= 8,
{
    ((b[0] as u64) << 56) | ((b[1] as u64) << 48) | ((b[2] as u64) << 40) | ((b[3] as u64) << 32)
        | ((b[4] as u64) << 24) | ((b[5] as u64) << 16) | ((b[6] as u64) << 8) | (b[7] as u64)
}

/// The text that `rustc_serialize` gives for bytes in its standard
/// Base64 configuration.
pub uninterp spec fn base64_standard(bytes: Seq<u8>) -> Seq<char>;

/// `byteorder::BigEndian::write_u64` fills a buffer of eight bytes with
/// the bytes of `n`, most significant first.
#[verifier::external_body]
fn write_be(n: u64) -> (r: Vec<u8>)
    ensures
        r@ == be_bytes(n),
{
    let mut buf = [0u8; 8];
    BigEndian::write_u64(&mut buf, n);
    buf.to_vec()
}

/// `byteorder::BigEndian::read_u64` reads the first eight bytes of the
/// buffer as a number, most significant byte first. It needs eight bytes.
#[verifier::external_body]
fn read_be(buf: &[u8]) -> (r: u64)
    requires
        buf@.len() >= 8,
    ensures
        r == be_value(buf@),
{
    BigEndian::read_u64(buf)
}

/// `rustc_serialize::base64::ToBase64::to_base64` with the `STANDARD`
/// configuration: the result is a function of the bytes alone.
#[verifier::external_body]
fn base64_text(bytes: &[u8]) -> (r: String)
    ensures
        r@ == base64_standard(bytes@),
{
    bytes.to_base64(STANDARD)
}

/// `std::str::from_utf8` accepts exactly the valid UTF-8 encodings and
/// gives the text that the bytes encode.
#[verifier::external_body]
pub(crate) fn utf8_text(bytes: &[u8]) -> (r: Option<String>)
    ensures
        valid_utf8(bytes@) ==> r is Some && r->Some_0@ == decode_utf8(bytes@),
        !valid_utf8(bytes@) ==> r is None,
{
    match std::str::from_utf8(bytes) {
        Ok(s) => Some(String::from(s)),
        Err(_) => None,
    }
}

/// The boolean that a token stands for, whatever the case of its letters.
pub open spec fn bool_token(s: Seq<char>) -> Option<bool> {
    if same_ignoring_case(s, "on"@) || same_ignoring_case(s, "open"@) || same_ignoring_case(
        s,
        "true"@,
    ) {
        Some(true)
    } else if same_ignoring_case(s, "off"@) || same_ignoring_case(s, "closed"@)
        || same_ignoring_case(s, "false"@) {
        Some(false)
    } else {
        None
    }
}

/// The boolean form of a value.
pub open spec fn bool_of(v: ValueView) -> Result<bool, ConversionErrorView> {
    match v {
        ValueView::Number(n) => Ok(
            crate::number::saturate(truncated(n), i64::MIN as int, i64::MAX as int) != 0,
        ),
        ValueView::Text(s) => match bool_token(trimmed(s)) {
            Some(b) => Ok(b),
            None => Err(ConversionErrorView::InvalidConversion(v, ValueKind::Bool)),
        },
        ValueView::Raw(b) => Ok(b.len() > 0 && b[0] != 0),
        ValueView::Bool(b) => Ok(b),
    }
}

/// The raw form of a value.
pub open spec fn raw_of(v: ValueView) -> Seq<u8> {
    match v {
        ValueView::Number(n) => be_bytes(n),
        ValueView::Text(s) => encode_utf8(s),
        ValueView::Raw(b) => b,
        ValueView::Bool(b) => seq![if b { 1u8 } else { 0u8 }],
    }
}

/// The number form of a value, where `parsed` is what the decimal parse
/// of the trimmed text gave.
pub open spec fn number_of(v: ValueView, parsed: Option<u64>) -> Result<u64, ConversionErrorView> {
    match v {
        ValueView::Number(n) => Ok(n),
        ValueView::Text(s) => match parsed {
            Some(n) => Ok(n),
            None => Err(ConversionErrorView::ParseNumber(s)),
        },
        ValueView::Raw(b) => if b.len() >= 8 {
            Ok(be_value(b))
        } else {
            Err(ConversionErrorView::InvalidConversion(v, ValueKind::Number))
        },
        ValueView::Bool(b) => Ok(if b { ONE } else { ZERO }),
    }
}

/// The number form of a value, as a value.
pub open spec fn number_value_of(v: ValueView, parsed: Option<u64>) -> Result<
    ValueView,
    ConversionErrorView,
> {
    match number_of(v, parsed) {
        Ok(n) => Ok(ValueView::Number(n)),
        Err(e) => Err(e),
    }
}

/// The boolean form of a value, as a value.
pub open spec fn bool_value_of(v: ValueView) -> Result<ValueView, ConversionErrorView> {
    match bool_of(v) {
        Ok(b) => Ok(ValueView::Bool(b)),
        Err(e) => Err(e),
    }
}

/// The text form of a value, where `rendered` is the decimal text of the number.
pub open spec fn text_of(v: ValueView, rendered: Seq<char>) -> Seq<char> {
    match v {
        ValueView::Number(_) => rendered,
        ValueView::Text(s) => s,
        ValueView::Raw(b) => if valid_utf8(b) {
            decode_utf8(b)
        } else {
            base64_standard(b)
        },
        ValueView::Bool(b) => if b { "ON"@ } else { "OFF"@ },
    }
}

/// A text is taken for a boolean where it is a boolean token, else for
/// a number where it parses as one, else it stays text. Other values stay.
pub open spec fn un_stringified(v: ValueView, parsed: Option<u64>) -> ValueView {
    match v {
        ValueView::Text(s) => match bool_token(trimmed(s)) {
            Some(b) => ValueView::Bool(b),
            None => match parsed {
                Some(n) => ValueView::Number(n),
                None => v,
            },
        },
        _ => v,
    }
}

/// The value that bytes from the bus are taken for.
pub open spec fn ingested(bytes: Seq<u8>, parsed: Option<u64>) -> ValueView {
    if valid_utf8(bytes) {
        un_stringified(ValueView::Text(decode_utf8(bytes)), parsed)
    } else {
        ValueView::Raw(bytes)
    }
}

/// Reads a boolean token.
pub fn parse_bool_token(s: &Vec<char>) -> (r: Option<bool>)
    ensures
        r == bool_token(s@),
{
    let on = chars_of("on");
    let open = chars_of("open");
    let yes = chars_of("true");
    let off = chars_of("off");
    let closed = chars_of("closed");
    let no = chars_of("false");
    if chars_eq_ignore_case(s, &on) || chars_eq_ignore_case(s, &open) || chars_eq_ignore_case(
        s,
        &yes,
    ) {
        Some(true)
    } else if chars_eq_ignore_case(s, &off) || chars_eq_ignore_case(s, &closed)
        || chars_eq_ignore_case(s, &no) {
        Some(false)
    } else {
        None
    }
}

/// The text without the white space at its ends.
pub fn trimmed_text(s: &str) -> (r: String)
    ensures
        r@ == trimmed(s@),
{
    let chars = chars_of(s);
    let t = trim(&chars);
    string_of(&t)
}

impl Value {
    /// A copy of the value.
    pub fn duplicate(&self) -> (r: Value)
        ensures
            r@ == self@,
    {
        match self {
            Value::Number(n) => Value::Number(*n),
            Value::String(s) => Value::String(s.clone()),
            Value::Raw(b) => Value::Raw(slice_to_vec(b.as_slice())),
            Value::Bool(b) => Value::Bool(*b),
        }
    }

    /// The representation that the value is held in.
    pub fn kind(&self) -> (r: ValueKind)
        ensures
            r == match self@ {
                ValueView::Number(_) => ValueKind::Number,
                ValueView::Text(_) => ValueKind::String,
                ValueView::Raw(_) => ValueKind::Raw,
                ValueView::Bool(_) => ValueKind::Bool,
            },
    {
        match self {
            Value::Number(_) => ValueKind::Number,
            Value::String(_) => ValueKind::String,
            Value::Raw(_) => ValueKind::Raw,
            Value::Bool(_) => ValueKind::Bool,
        }
    }

    /// Takes a text for a boolean or a number where it reads as one;
    /// `parsed` is what the decimal parse of the trimmed text gave.
    pub fn un_stringify(val: Value, parsed: Option<u64>) -> (r: Value)
        ensures
            r@ == un_stringified(val@, parsed),
    {
        match &val {
            Value::String(s) => {
                let chars = chars_of(s.as_str());
                let t = trim(&chars);
                match parse_bool_token(&t) {
                    Some(b) => Value::Bool(b),
                    None => match parsed {
                        Some(n) => Value::Number(n),
                        None => val,
                    },
                }
            },
            _ => val,
        }
    }

    /// The value that bytes from the bus are taken for, where `parsed` is
    /// what the decimal parse of the trimmed text gave.
    pub fn ingest(v: &[u8], parsed: Option<u64>) -> (r: Value)
        ensures
            r@ == ingested(v@, parsed),
    {
        match utf8_text(v) {
            Some(s) => Value::un_stringify(Value::String(s), parsed),
            None => Value::Raw(slice_to_vec(v)),
        }
    }

    /// The value that bytes from the bus are taken for. Text that is no
    /// boolean token is handed, trimmed, to the decimal parse.
    pub fn from_raw<C: NumberText>(v: &[u8], codec: &C) -> (r: Value)
        ensures
            exists|parsed: Option<u64>| r@ == ingested(v@, parsed),
    {
        match utf8_text(v) {
            Some(s) => {
                let t = trim(&chars_of(s.as_str()));
                let parsed = match parse_bool_token(&t) {
                    Some(_) => None,
                    None => codec.parse(string_of(&t).as_str()),
                };
                let r = Value::un_stringify(Value::String(s), parsed);
                assert(r@ == ingested(v@, parsed));
                r
            },
            None => {
                let r = Value::Raw(slice_to_vec(v));
                assert(r@ == ingested(v@, None));
                r
            },
        }
    }

    /// The number form, where `parsed` is what the decimal parse of the
    /// trimmed text gave.
    pub fn number_given(&self, parsed: Option<u64>) -> (r: Result<u64, ConversionError>)
        ensures
            agrees(r, number_of(self@, parsed)),
    {
        match self {
            Value::Number(n) => Ok(*n),
            Value::String(s) => match parsed {
                Some(n) => Ok(n),
                None => Err(ConversionError::ParseNumber(s.clone())),
            },
            Value::Raw(b) => if b.len() >= 8 {
                Ok(read_be(b.as_slice()))
            } else {
                Err(ConversionError::InvalidConversion(self.duplicate(), ValueKind::Number))
            },
            Value::Bool(b) => Ok(if *b { ONE } else { ZERO }),
        }
    }

    /// The number form. A text is handed, trimmed, to the decimal parse.
    pub fn as_number<C: NumberText>(&self, codec: &C) -> (r: Result<u64, ConversionError>)
        ensures
            exists|parsed: Option<u64>| agrees(r, number_of(self@, parsed)),
    {
        let parsed = match self {
            Value::String(s) => codec.parse(trimmed_text(s.as_str()).as_str()),
            _ => None,
        };
        let r = self.number_given(parsed);
        assert(agrees(r, number_of(self@, parsed)));
        r
    }

    pub fn as_number_value<C: NumberText>(&self, codec: &C) -> (r: Result<Value, ConversionError>)
        ensures
            exists|parsed: Option<u64>| value_agrees(r, number_value_of(self@, parsed)),
    {
        let parsed = match self {
            Value::String(s) => codec.parse(trimmed_text(s.as_str()).as_str()),
            _ => None,
        };
        let r = match self.number_given(parsed) {
            Ok(n) => Ok(Value::Number(n)),
            Err(e) => Err(e),
        };
        assert(value_agrees(r, number_value_of(self@, parsed)));
        r
    }

    /// The text form, where `rendered` is the decimal text of the number.
    pub fn string_given(&self, rendered: String) -> (r: String)
        ensures
            r@ == text_of(self@, rendered@),
    {
        match self {
            Value::Number(_) => rendered,
            Value::String(s) => s.clone(),
            Value::Raw(b) => match utf8_text(b.as_slice()) {
                Some(s) => s,
                None => base64_text(b.as_slice()),
            },
            Value::Bool(b) => if *b {
                String::from_str("ON")
            } else {
                String::from_str("OFF")
            },
        }
    }

    /// The text form. It never fails; a number is rendered by `codec`.
    pub fn as_string<C: NumberText>(&self, codec: &C) -> (r: Result<String, ConversionError>)
        ensures
            r is Ok,
            exists|rendered: Seq<char>| r->Ok_0@ == text_of(self@, rendered),
    {
        let rendered = match self {
            Value::Number(n) => codec.render(*n),
            _ => String::new(),
        };
        let s = self.string_given(rendered);
        assert(s@ == text_of(self@, rendered@));
        Ok(s)
    }

    pub fn as_string_value<C: NumberText>(&self, codec: &C) -> (r: Result<Value, ConversionError>)
        ensures
            r is Ok,
            exists|rendered: Seq<char>| r->Ok_0@ == ValueView::Text(text_of(self@, rendered)),
    {
        let rendered = match self {
            Value::Number(n) => codec.render(*n),
            _ => String::new(),
        };
        let s = self.string_given(rendered);
        assert(s@ == text_of(self@, rendered@));
        Ok(Value::String(s))
    }

    /// The boolean form.
    pub fn as_bool(&self) -> (r: Result<bool, ConversionError>)
        ensures
            agrees(r, bool_of(self@)),
    {
        match self {
            Value::Number(n) => Ok(to_i64(*n) != 0),
            Value::String(s) => {
                let t = trim(&chars_of(s.as_str()));
                match parse_bool_token(&t) {
                    Some(b) => Ok(b),
                    None => Err(
                        ConversionError::InvalidConversion(self.duplicate(), ValueKind::Bool),
                    ),
                }
            },
            Value::Raw(b) => Ok(b.len() > 0 && b[0] != 0),
            Value::Bool(b) => Ok(*b),
        }
    }

    pub fn as_bool_value(&self) -> (r: Result<Value, ConversionError>)
        ensures
            value_agrees(r, bool_value_of(self@)),
    {
        match self.as_bool() {
            Ok(b) => Ok(Value::Bool(b)),
            Err(e) => Err(e),
        }
    }

    /// The raw form. It never fails.
    pub fn as_raw(&self) -> (r: Result<Vec<u8>, ConversionError>)
        ensures
            r is Ok,
            r->Ok_0@ == raw_of(self@),
    {
        match self {
            Value::Number(n) => Ok(write_be(*n)),
            Value::String(s) => Ok(s.as_str().as_bytes_vec()),
            Value::Raw(b) => Ok(slice_to_vec(b.as_slice())),
            Value::Bool(b) => {
                let mut out: Vec<u8> = Vec::new();
                out.push(if *b { 1u8 } else { 0u8 });
                Ok(out)
            },
        }
    }

    pub fn as_raw_value(&self) -> (r: Result<Value, ConversionError>)
        ensures
            r is Ok,
            r->Ok_0@ == ValueView::Raw(raw_of(self@)),
    {
        match self.as_raw() {
            Ok(b) => Ok(Value::Raw(b)),
            Err(e) => Err(e),
        }
    }
}

/// Reading the eight bytes of a number back gives the number.
pub proof fn lemma_be_round_trip(n: u64)
    ensures
        be_bytes(n).len() == 8,
        be_value(be_bytes(n)) == n,
{
    assert((((n >> 56) as u8) as u64) << 56 | (((n >> 48) as u8) as u64) << 48 | (((n >> 40) as u8)
        as u64) << 40 | (((n >> 32) as u8) as u64) << 32 | (((n >> 24) as u8) as u64) << 24 | (((n
        >> 16) as u8) as u64) << 16 | (((n >> 8) as u8) as u64) << 8 | ((n as u8) as u64) == n)
        by (bit_vector);
}

/// The raw form of a boolean or of a number, read back as a boolean or
/// as a number, gives the value that was written.
pub proof fn raw_form_reads_back(v: ValueView, parsed: Option<u64>)
    ensures
        v matches ValueView::Bool(b) ==> bool_of(ValueView::Raw(raw_of(v))) == Ok::<
            bool,
            ConversionErrorView,
        >(b),
        v matches ValueView::Number(n) ==> number_of(ValueView::Raw(raw_of(v)), parsed) == Ok::<
            u64,
            ConversionErrorView,
        >(n),
{
    if let ValueView::Number(n) = v {
        lemma_be_round_trip(n);
    }
}

/// A boolean comes back from its number form, and stays itself in its
/// text form read as a boolean.
pub proof fn bool_forms_read_back(b: bool, parsed: Option<u64>, rendered: Seq<char>)
    ensures
        number_of(ValueView::Bool(b), parsed) is Ok,
        bool_of(ValueView::Number(number_of(ValueView::Bool(b), parsed)->Ok_0)) == Ok::<
            bool,
            ConversionErrorView,
        >(b),
        bool_of(ValueView::Text(text_of(ValueView::Bool(b), rendered))) == Ok::<
            bool,
            ConversionErrorView,
        >(b),
        un_stringified(ValueView::Text(text_of(ValueView::Bool(b), rendered)), parsed)
            == ValueView::Bool(b),
{
    truncated_unit();
    reveal_strlit("ON");
    reveal_strlit("OFF");
    reveal_strlit("on");
    reveal_strlit("off");
    reveal_strlit("open");
    reveal_strlit("true");
    reveal_strlit("closed");
    reveal_strlit("false");
    let t = text_of(ValueView::Bool(b), rendered);
    crate::text::bare_text_is_trimmed(t);
    if b {
        assert(same_ignoring_case(trimmed(t), "on"@));
    } else {
        assert(same_ignoring_case(trimmed(t), "off"@));
        assert(!same_ignoring_case(trimmed(t), "on"@));
        assert(!same_ignoring_case(trimmed(t), "open"@));
        assert(!same_ignoring_case(trimmed(t), "true"@));
    }
}

/// The raw form of a text, taken in from the bus, is what the text
/// itself is taken for: the text again, unless it reads as a boolean
/// token or as a number.
pub proof fn text_round_trip(s: Seq<char>, parsed: Option<u64>)
    ensures
        ingested(raw_of(ValueView::Text(s)), parsed) == un_stringified(ValueView::Text(s), parsed),
        bool_token(trimmed(s)) is None && parsed is None ==> ingested(
            raw_of(ValueView::Text(s)),
            parsed,
        ) == ValueView::Text(s),
        bool_token(trimmed(s)) matches Some(b) ==> ingested(raw_of(ValueView::Text(s)), parsed)
            == ValueView::Bool(b),
        parsed matches Some(n) ==> (bool_token(trimmed(s)) is None ==> ingested(
            raw_of(ValueView::Text(s)),
            parsed,
        ) == ValueView::Number(n)),
{
    vstd::utf8::encode_utf8_valid_utf8(s);
    vstd::utf8::encode_utf8_decode_utf8(s);
}

/// The raw form of a number whose eight bytes are no valid UTF-8, taken
/// in from the bus, stays raw and reads back as the number.
pub proof fn number_round_trip(n: u64, parsed: Option<u64>)
    requires
        !valid_utf8(be_bytes(n)),
    ensures
        ingested(raw_of(ValueView::Number(n)), parsed) == ValueView::Raw(be_bytes(n)),
        number_of(ingested(raw_of(ValueView::Number(n)), parsed), parsed) == Ok::<
            u64,
            ConversionErrorView,
        >(n),
{
    lemma_be_round_trip(n);
}

} // verus!
