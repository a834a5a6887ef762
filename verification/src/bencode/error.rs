//! What a failed decode reports.
//!
//! A failure is a trail of frames. The first frame is the production that
//! failed; each later one is a production around it, up to the one that the
//! caller asked for. Every frame holds the input as it stood where its
//! production began.

use vstd::prelude::*;

verus! {

/// The productions of the grammar that label a frame of an error trail.
#[derive(Debug, Clone, Copy, PartialEq, Eq, Structural)]
pub enum ContextLabel {
    /// A whole integer, `i`, digits, `e`.
    Integer,
    /// The check that an integer does not begin with `-0`.
    IntegerNegativeZero,
    /// The check that an integer has no leading zero.
    IntegerLeadingZero,
    /// A whole byte string: length, `:`, bytes.
    Bytes,
    /// The length that a byte string begins with.
    BytesLength,
    /// The `:` between the length of a byte string and its bytes.
    BytesDelimiter,
    /// A value of any kind.
    Value,
    /// A list: `l`, values, `e`.
    List,
    /// A dictionary: `d`, keys and values in turn, `e`.
    Dictionary,
    /// A key of a dictionary, which is a byte string.
    DictionaryKey,
}

/// The step of the grammar that did not match.
#[derive(Debug, Clone, Copy, PartialEq, Eq, Structural)]
pub enum GrammarKind {
    /// A fixed delimiter, `i` or `e`, is missing.
    Tag,
    /// A decimal digit is missing.
    Digit,
    /// A check on what follows found a forbidden form.
    Verify,
    /// None of the alternatives matched.
    Alt,
    /// The text matched but could not be turned into a value.
    MapRes,
    /// The input ends inside a list or a dictionary.
    Eof,
    /// Lists and dictionaries are nested deeper than the decoder follows.
    TooLarge,
}

/// Why decimal digits are no value of the number type that was asked for.
#[derive(Debug, Clone, Copy, PartialEq, Eq, Structural)]
pub enum IntegerFault {
    /// A sign stands before a number that has none.
    InvalidDigit,
    /// The number is above the largest value of the type.
    PosOverflow,
    /// The number is below the smallest value of the type.
    NegOverflow,
}

/// An error of turning decimal digits into a number; it does not show which
/// number type refused them.
#[derive(Debug, Clone, Copy, PartialEq, Eq, Structural)]
pub struct ParseIntegerDelegate(pub IntegerFault);

impl ParseIntegerDelegate {
    /// The fault that this error stands for.
    pub fn fault(&self) -> (r: IntegerFault)
        ensures
            r == self.0,
    {
        self.0
    }
}

/// The cause that one frame of a trail names.
#[derive(Debug, Clone, Copy, PartialEq, Eq, Structural)]
pub enum BertErrorKind {
    /// The digits are no value of the number type.
    ParseInt(ParseIntegerDelegate),
    /// The bytes are no UTF-8; `valid_up_to` bytes at their start are.
    Unicode { valid_up_to: usize },
    /// A production around the failure.
    Context(ContextLabel),
    /// A step of the grammar did not match.
    Grammar(GrammarKind),
    /// Another byte stands where this one was expected.
    ErrantChar(u8),
    /// A byte string announces more bytes than the input holds.
    Truncated { requested: usize, available: usize },
}

/// One frame of a trail, as contracts see it.
pub struct BertErrorView {
    pub input: Seq<u8>,
    pub source: BertErrorKind,
}

/// One frame of a trail: a cause and the input at which it was found.
#[derive(Debug, Clone, PartialEq, Eq)]
pub struct BertError {
    input: Vec<u8>,
    source: BertErrorKind,
}

impl View for BertError {
    type V = BertErrorView;

    closed spec fn view(&self) -> BertErrorView {
        BertErrorView { input: self.input@, source: self.source }
    }
}

impl BertError {
    /// A frame for `source`, found at `input`.
    pub fn new(input: &[u8], source: BertErrorKind) -> (r: Self)
        ensures
            r@ == spec_frame(input@, source),
    {
        BertError { input: vstd::slice::slice_to_vec(input), source }
    }

    /// The input at which the cause was found.
    pub fn input(&self) -> (r: &[u8])
        ensures
            r@ == self@.input,
    {
        self.input.as_slice()
    }

    /// The cause.
    pub fn source(&self) -> (r: BertErrorKind)
        ensures
            r == self@.source,
    {
        self.source
    }
}

/// The frame that names `source` at `input`.
pub open spec fn spec_frame(input: Seq<u8>, source: BertErrorKind) -> BertErrorView {
    BertErrorView { input, source }
}

/// The frame of a production around a failure.
pub open spec fn spec_context(input: Seq<u8>, label: ContextLabel) -> BertErrorView {
    spec_frame(input, BertErrorKind::Context(label))
}

/// The frame of a step of the grammar that did not match.
pub open spec fn spec_grammar(input: Seq<u8>, kind: GrammarKind) -> BertErrorView {
    spec_frame(input, BertErrorKind::Grammar(kind))
}

/// The trail of a failed decode, innermost frame first.
#[derive(Debug, Clone, PartialEq, Eq)]
pub struct BertErrorTrace {
    sources: Vec<BertError>,
}

impl View for BertErrorTrace {
    type V = Seq<BertErrorView>;

    closed spec fn view(&self) -> Seq<BertErrorView> {
        Seq::new(self.sources@.len(), |i: int| self.sources@[i]@)
    }
}

impl BertErrorTrace {
    /// A trail of one frame.
    pub fn from_bert_error_kind(input: &[u8], kind: BertErrorKind) -> (r: Self)
        ensures
            r@ == seq![spec_frame(input@, kind)],
    {
        let mut sources: Vec<BertError> = Vec::new();
        sources.push(BertError::new(input, kind));
        let r = BertErrorTrace { sources };
        assert(r@ =~= seq![spec_frame(input@, kind)]);
        r
    }

    /// A trail of one frame, for a step of the grammar that did not match.
    pub fn from_error_kind(input: &[u8], kind: GrammarKind) -> (r: Self)
        ensures
            r@ == seq![spec_grammar(input@, kind)],
    {
        Self::from_bert_error_kind(input, BertErrorKind::Grammar(kind))
    }

    /// A trail of one frame, for a byte that was expected and is not there.
    pub fn from_char(input: &[u8], ch: u8) -> (r: Self)
        ensures
            r@ == seq![spec_frame(input@, BertErrorKind::ErrantChar(ch))],
    {
        Self::from_bert_error_kind(input, BertErrorKind::ErrantChar(ch))
    }

    /// The trail of a text that matched and was refused as a value: the step
    /// that refused it, then the reason.
    pub fn from_external_error(input: &[u8], kind: GrammarKind, e: BertErrorKind) -> (r: Self)
        ensures
            r@ == seq![spec_grammar(input@, kind), spec_frame(input@, e)],
    {
        let mut sources: Vec<BertError> = Vec::new();
        sources.push(BertError::new(input, BertErrorKind::Grammar(kind)));
        sources.push(BertError::new(input, e));
        let r = BertErrorTrace { sources };
        assert(r@ =~= seq![spec_grammar(input@, kind), spec_frame(input@, e)]);
        r
    }

    /// Add the frame of a step of the grammar around the failure.
    pub fn append(input: &[u8], kind: GrammarKind, other: Self) -> (r: Self)
        ensures
            r@ == other@.push(spec_grammar(input@, kind)),
    {
        Self::push_frame(input, BertErrorKind::Grammar(kind), other)
    }

    /// Add the frame of a production around the failure.
    pub fn add_context(input: &[u8], ctx: ContextLabel, other: Self) -> (r: Self)
        ensures
            r@ == other@.push(spec_context(input@, ctx)),
    {
        Self::push_frame(input, BertErrorKind::Context(ctx), other)
    }

    fn push_frame(input: &[u8], kind: BertErrorKind, other: Self) -> (r: Self)
        ensures
            r@ == other@.push(spec_frame(input@, kind)),
    {
        let mut sources = other.sources;
        sources.push(BertError::new(input, kind));
        let r = BertErrorTrace { sources };
        assert(r@ =~= other@.push(spec_frame(input@, kind)));
        r
    }

    /// The number of frames.
    pub fn len(&self) -> (r: usize)
        ensures
            r == self@.len(),
    {
        self.sources.len()
    }

    /// The frame at `index`, counted from the innermost.
    pub fn frame(&self, index: usize) -> (r: &BertError)
        requires
            index < self@.len(),
        ensures
            r@ == self@[index as int],
    {
        &self.sources[index]
    }
}

/// The text of a label, as a reader of a trail sees it.
pub fn label(ctx: ContextLabel) -> (r: &'static str)
    ensures
        r@ == spec_label(ctx),
{
    match ctx {
        ContextLabel::Integer => "[Parse] {integer} Arbitrary precision integer",
        ContextLabel::IntegerNegativeZero => "[Check] {integer} BEP-0003 forbids `i-0e` or `-0`",
        ContextLabel::IntegerLeadingZero => "[Check] {integer} BEP-0003 forbids leading zeroes",
        ContextLabel::Bytes => "[Parse] {bytes} Bytes array/string",
        ContextLabel::BytesLength => "[Expected] {bytes} Bytes length as positive integer",
        ContextLabel::BytesDelimiter => "[Expected] {bytes} Delimiter `:`",
        ContextLabel::Value => "[Parse] {value} Integer, bytes, list or dictionary",
        ContextLabel::List => "[Parse] {list} List of values",
        ContextLabel::Dictionary => "[Parse] {dictionary} Dictionary of keys and values",
        ContextLabel::DictionaryKey => "[Expected] {dictionary} Key as bytes",
    }
}

/// The text of a label.
pub open spec fn spec_label(ctx: ContextLabel) -> Seq<char> {
    match ctx {
        ContextLabel::Integer => "[Parse] {integer} Arbitrary precision integer"@,
        ContextLabel::IntegerNegativeZero => "[Check] {integer} BEP-0003 forbids `i-0e` or `-0`"@,
        ContextLabel::IntegerLeadingZero => "[Check] {integer} BEP-0003 forbids leading zeroes"@,
        ContextLabel::Bytes => "[Parse] {bytes} Bytes array/string"@,
        ContextLabel::BytesLength => "[Expected] {bytes} Bytes length as positive integer"@,
        ContextLabel::BytesDelimiter => "[Expected] {bytes} Delimiter `:`"@,
        ContextLabel::Value => "[Parse] {value} Integer, bytes, list or dictionary"@,
        ContextLabel::List => "[Parse] {list} List of values"@,
        ContextLabel::Dictionary => "[Parse] {dictionary} Dictionary of keys and values"@,
        ContextLabel::DictionaryKey => "[Expected] {dictionary} Key as bytes"@,
    }
}

/// The cause of a failure without its trail.
#[derive(Debug, Clone, Copy, PartialEq, Eq, Structural)]
pub enum BencodeErrorKind {
    /// The digits are no value of the number type.
    ParseInt(ParseIntegerDelegate),
    /// The bytes are no UTF-8; `valid_up_to` bytes at their start are.
    Unicode { valid_up_to: usize },
}

/// A failure without its trail: the cause, and the bytes that it was found
/// in where they are known.
#[derive(Debug, PartialEq, Eq)]
pub struct BencodeError {
    bytes: Option<Vec<u8>>,
    source: BencodeErrorKind,
}

impl BencodeError {
    /// The bytes that the cause was found in, as contracts see them.
    pub closed spec fn spec_bytes(&self) -> Option<Seq<u8>> {
        match self.bytes {
            Some(b) => Some(b@),
            None => None,
        }
    }

    /// The cause, as contracts see it.
    pub closed spec fn spec_source(&self) -> BencodeErrorKind {
        self.source
    }

    /// A failure of the cause `source`, found in `bytes`.
    pub fn from_bytes_source(bytes: Option<&[u8]>, source: BencodeErrorKind) -> (r: Self)
        ensures
            r.spec_source() == source,
            r.spec_bytes() == match bytes {
                Some(b) => Some(b@),
                None => None,
            },
    {
        let bytes = match bytes {
            Some(b) => Some(vstd::slice::slice_to_vec(b)),
            None => None,
        };
        BencodeError { bytes, source }
    }

    /// The bytes that the cause was found in.
    pub fn bytes(&self) -> (r: Option<&[u8]>)
        ensures
            match self.spec_bytes() {
                Some(b) => r matches Some(found) && found@ == b,
                None => r is None,
            },
    {
        match &self.bytes {
            Some(b) => Some(b.as_slice()),
            None => None,
        }
    }

    /// The cause.
    pub fn source(&self) -> (r: BencodeErrorKind)
        ensures
            r == self.spec_source(),
    {
        self.source
    }
}

} // verus!
