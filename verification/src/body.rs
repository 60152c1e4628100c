//! Block 4, the text block: the statement itself, written as tagged lines.
use vstd::prelude::*;
use vstd::string::*;
use vstd::utf8::*;
use crate::codes::BalanceType;
use crate::error::{
    failure, optional_view, outcome, views, DecodeError, ErrorKind, Failure, Field,
};
use crate::pattern::{pattern_captures, search, span_bytes, span_fits, span_text, Capture};
use crate::tag::{
    decode_phased_balance, AccountIdentification, BookedFunds, ClosingAvailableBalance,
    InformationToAccountOwner, OpeningBalance, PhasedBalanceView, StatementLine,
    StatementLineView, StatementNumber, TransactionReferenceNumber,
};
use crate::text::{slice_from, trim, trimmed, ByteClass};
use crate::utils::{Balance, BalanceView};

verus! {

/// The pattern of a tagged line: a key of two digits, or of two digits and
/// a capital letter, then a colon and what follows it up to the end of the
/// line. The key is the first capture group.
pub open spec fn tag_pattern() -> Seq<u8> {
    r"(?m)(?:(\d{2}|\d{2}[A-Z]):.+)".spec_bytes()
}

/// The pattern of a tagged line, as `regex` reads it.
pub fn tag_line_pattern() -> (pattern: &'static str)
    ensures
        pattern.spec_bytes() == tag_pattern(),
{
    r"(?m)(?:(\d{2}|\d{2}[A-Z]):.+)"
}

/// Whether a key is the two given characters.
pub open spec fn key_is(key: Seq<u8>, a: char, b: char) -> bool {
    key.len() == 2 && key[0] as char == a && key[1] as char == b
}

/// Whether a key is the three given characters.
pub open spec fn key_is3(key: Seq<u8>, a: char, b: char, c: char) -> bool {
    key.len() == 3 && key[0] as char == a && key[1] as char == b && key[2] as char == c
}

/// Whether `key` is the two given characters.
pub fn has_key(key: &[u8], a: char, b: char) -> (r: bool)
    ensures
        r == key_is(key@, a, b),
{
    key.len() == 2 && key[0] as char == a && key[1] as char == b
}

/// Whether `key` is the three given characters.
pub fn has_key3(key: &[u8], a: char, b: char, c: char) -> (r: bool)
    ensures
        r == key_is3(key@, a, b, c),
{
    key.len() == 3 && key[0] as char == a && key[1] as char == b && key[2] as char == c
}

/// The places that a statement has for its tags. Tags 60F and 60M share one
/// place, and so do 62F and 62M.
#[derive(Debug, PartialEq, Eq, Clone, Copy, Structural)]
pub enum Slot {
    Reference,
    Account,
    Number,
    Opening,
    Line,
    Booked,
    Available,
    Information,
}

impl Slot {
    /// Whether a statement must have the place filled.
    pub open spec fn is_mandatory(self) -> bool {
        self == Slot::Reference || self == Slot::Account || self == Slot::Number || self
            == Slot::Opening || self == Slot::Booked
    }

    /// The field by which a failure names the place.
    pub open spec fn field(self) -> Field {
        match self {
            Slot::Reference => Field::TransactionReferenceNumber,
            Slot::Account => Field::AccountIdentification,
            Slot::Number => Field::StatementNumber,
            Slot::Opening => Field::OpeningBalance,
            Slot::Line => Field::StatementLine,
            Slot::Booked => Field::BookedFunds,
            Slot::Available => Field::ClosingAvailableBalance,
            Slot::Information => Field::InformationToAccountOwner,
        }
    }
}

/// One decoded tag of the text block.
#[derive(Debug, PartialEq, Eq, Clone, Copy)]
pub enum TextTag<'a> {
    Reference(TransactionReferenceNumber<'a>),
    Account(AccountIdentification<'a>),
    Number(StatementNumber),
    Opening(OpeningBalance),
    Line(StatementLine<'a>),
    Booked(BookedFunds),
    Available(ClosingAvailableBalance),
    Information(InformationToAccountOwner<'a>),
}

/// The model of a `TextTag`.
pub enum TextTagView {
    Reference(Seq<u8>),
    Account(Seq<u8>),
    Number(StatementNumber),
    Opening(PhasedBalanceView),
    Line(StatementLineView),
    Booked(PhasedBalanceView),
    Available(BalanceView),
    Information(Seq<u8>),
}

impl<'a> View for TextTag<'a> {
    type V = TextTagView;

    open spec fn view(&self) -> TextTagView {
        match *self {
            TextTag::Reference(t) => TextTagView::Reference(t@),
            TextTag::Account(t) => TextTagView::Account(t@),
            TextTag::Number(t) => TextTagView::Number(t),
            TextTag::Opening(t) => TextTagView::Opening(t@),
            TextTag::Line(t) => TextTagView::Line(t@),
            TextTag::Booked(t) => TextTagView::Booked(t@),
            TextTag::Available(t) => TextTagView::Available(t@),
            TextTag::Information(t) => TextTagView::Information(t@),
        }
    }
}

impl TextTagView {
    /// The place that the tag fills.
    pub open spec fn slot(self) -> Slot {
        match self {
            TextTagView::Reference(_) => Slot::Reference,
            TextTagView::Account(_) => Slot::Account,
            TextTagView::Number(_) => Slot::Number,
            TextTagView::Opening(_) => Slot::Opening,
            TextTagView::Line(_) => Slot::Line,
            TextTagView::Booked(_) => Slot::Booked,
            TextTagView::Available(_) => Slot::Available,
            TextTagView::Information(_) => Slot::Information,
        }
    }
}

/// A statement in the making: what the tags read so far have filled.
#[derive(Debug, PartialEq, Eq)]
pub struct Draft<'a> {
    pub tag_20: Option<TransactionReferenceNumber<'a>>,
    pub tag_25: Option<AccountIdentification<'a>>,
    pub tag_28c: Option<StatementNumber>,
    pub tag_60: Option<OpeningBalance>,
    pub tag_61: Vec<StatementLine<'a>>,
    pub tag_62: Option<BookedFunds>,
    pub tag_64: Option<ClosingAvailableBalance>,
    pub tag_86: Vec<InformationToAccountOwner<'a>>,
}

/// The model of a `Draft`.
pub struct DraftView {
    pub tag_20: Option<Seq<u8>>,
    pub tag_25: Option<Seq<u8>>,
    pub tag_28c: Option<StatementNumber>,
    pub tag_60: Option<PhasedBalanceView>,
    pub tag_61: Seq<StatementLineView>,
    pub tag_62: Option<PhasedBalanceView>,
    pub tag_64: Option<BalanceView>,
    pub tag_86: Seq<Seq<u8>>,
}

impl<'a> View for Draft<'a> {
    type V = DraftView;

    open spec fn view(&self) -> DraftView {
        DraftView {
            tag_20: optional_view(self.tag_20),
            tag_25: optional_view(self.tag_25),
            tag_28c: self.tag_28c,
            tag_60: optional_view(self.tag_60),
            tag_61: views(self.tag_61@),
            tag_62: optional_view(self.tag_62),
            tag_64: optional_view(self.tag_64),
            tag_86: views(self.tag_86@),
        }
    }
}

impl DraftView {
    /// The draft that no tag has filled.
    pub open spec fn empty() -> DraftView {
        DraftView {
            tag_20: None,
            tag_25: None,
            tag_28c: None,
            tag_60: None,
            tag_61: Seq::empty(),
            tag_62: None,
            tag_64: None,
            tag_86: Seq::empty(),
        }
    }

    /// The draft with one more tag. A statement line or an information is
    /// added behind those already there; any other tag takes its place,
    /// whatever held it before.
    pub open spec fn with(self, tag: TextTagView) -> DraftView {
        match tag {
            TextTagView::Reference(t) => DraftView { tag_20: Some(t), ..self },
            TextTagView::Account(t) => DraftView { tag_25: Some(t), ..self },
            TextTagView::Number(t) => DraftView { tag_28c: Some(t), ..self },
            TextTagView::Opening(t) => DraftView { tag_60: Some(t), ..self },
            TextTagView::Line(t) => DraftView { tag_61: self.tag_61.push(t), ..self },
            TextTagView::Booked(t) => DraftView { tag_62: Some(t), ..self },
            TextTagView::Available(t) => DraftView { tag_64: Some(t), ..self },
            TextTagView::Information(t) => DraftView { tag_86: self.tag_86.push(t), ..self },
        }
    }

    /// Whether a place holds anything.
    pub open spec fn filled(self, slot: Slot) -> bool {
        match slot {
            Slot::Reference => self.tag_20 is Some,
            Slot::Account => self.tag_25 is Some,
            Slot::Number => self.tag_28c is Some,
            Slot::Opening => self.tag_60 is Some,
            Slot::Line => self.tag_61.len() > 0,
            Slot::Booked => self.tag_62 is Some,
            Slot::Available => self.tag_64 is Some,
            Slot::Information => self.tag_86.len() > 0,
        }
    }

    /// The failure for a mandatory tag that the block lacks.
    pub open spec fn missing(field: Field, block: Seq<u8>) -> Failure {
        failure(ErrorKind::MissingField, field, block)
    }

    /// The statement that the draft has come to. The tags 20, 25, 28C, 60
    /// and 62 are mandatory, and the first of them, in this order, that was
    /// never read is reported as missing.
    pub open spec fn finish(self, block: Seq<u8>) -> Result<TextView, Failure> {
        if self.tag_20 is None {
            Err(Self::missing(Field::TransactionReferenceNumber, block))
        } else if self.tag_25 is None {
            Err(Self::missing(Field::AccountIdentification, block))
        } else if self.tag_28c is None {
            Err(Self::missing(Field::StatementNumber, block))
        } else if self.tag_60 is None {
            Err(Self::missing(Field::OpeningBalance, block))
        } else if self.tag_62 is None {
            Err(Self::missing(Field::BookedFunds, block))
        } else {
            Ok(
                TextView {
                    tag_20: self.tag_20->Some_0,
                    tag_25: self.tag_25->Some_0,
                    tag_28c: self.tag_28c->Some_0,
                    tag_60: self.tag_60->Some_0,
                    tag_61: self.tag_61,
                    tag_62: self.tag_62->Some_0,
                    tag_64: self.tag_64,
                    tag_86: self.tag_86,
                },
            )
        }
    }
}

impl<'a> Draft<'a> {
    /// The draft that no tag has filled.
    pub fn new() -> (r: Self)
        ensures
            r@ == DraftView::empty(),
    {
        let r = Draft {
            tag_20: None,
            tag_25: None,
            tag_28c: None,
            tag_60: None,
            tag_61: Vec::new(),
            tag_62: None,
            tag_64: None,
            tag_86: Vec::new(),
        };
        assert(r@.tag_61 =~= Seq::empty());
        assert(r@.tag_86 =~= Seq::empty());
        r
    }

    /// Puts one more tag into the draft.
    pub fn with(self, tag: TextTag<'a>) -> (r: Self)
        ensures
            r@ == self@.with(tag@),
    {
        let mut draft = self;
        match tag {
            TextTag::Reference(t) => {
                draft.tag_20 = Some(t);
            },
            TextTag::Account(t) => {
                draft.tag_25 = Some(t);
            },
            TextTag::Number(t) => {
                draft.tag_28c = Some(t);
            },
            TextTag::Opening(t) => {
                draft.tag_60 = Some(t);
            },
            TextTag::Line(t) => {
                draft.tag_61.push(t);
                assert(views(draft.tag_61@) =~= views(self.tag_61@).push(t@));
            },
            TextTag::Booked(t) => {
                draft.tag_62 = Some(t);
            },
            TextTag::Available(t) => {
                draft.tag_64 = Some(t);
            },
            TextTag::Information(t) => {
                draft.tag_86.push(t);
                assert(views(draft.tag_86@) =~= views(self.tag_86@).push(t@));
            },
        }
        draft
    }

    /// Closes the draft: the statement, or the first mandatory tag that is
    /// missing. `block_data` is the block that was read, for the failure to
    /// carry.
    pub fn finish(self, block_data: &'a str) -> (r: Result<Text<'a>, DecodeError<'a>>)
        ensures
            outcome(r) == self@.finish(block_data.spec_bytes()),
    {
        let tag_20 = match self.tag_20 {
            Some(t) => t,
            None => {
                return Err(
                    DecodeError::new(
                        ErrorKind::MissingField,
                        Field::TransactionReferenceNumber,
                        block_data,
                    ),
                );
            },
        };
        let tag_25 = match self.tag_25 {
            Some(t) => t,
            None => {
                return Err(
                    DecodeError::new(
                        ErrorKind::MissingField,
                        Field::AccountIdentification,
                        block_data,
                    ),
                );
            },
        };
        let tag_28c = match self.tag_28c {
            Some(t) => t,
            None => {
                return Err(
                    DecodeError::new(ErrorKind::MissingField, Field::StatementNumber, block_data),
                );
            },
        };
        let tag_60 = match self.tag_60 {
            Some(t) => t,
            None => {
                return Err(
                    DecodeError::new(ErrorKind::MissingField, Field::OpeningBalance, block_data),
                );
            },
        };
        let tag_62 = match self.tag_62 {
            Some(t) => t,
            None => {
                return Err(
                    DecodeError::new(ErrorKind::MissingField, Field::BookedFunds, block_data),
                );
            },
        };
        Ok(
            Text {
                tag_20,
                tag_25,
                tag_28c,
                tag_60,
                tag_61: self.tag_61,
                tag_62,
                tag_64: self.tag_64,
                tag_86: self.tag_86,
            },
        )
    }
}

/// Block 4, the statement: its reference, account and number, the opening
/// balance, the statement lines and the information to the account owner in
/// the order in which they were written, the booked funds, and the closing
/// available balance where one is given.
#[derive(Debug, PartialEq, Eq)]
pub struct Text<'a> {
    pub tag_20: TransactionReferenceNumber<'a>,
    pub tag_25: AccountIdentification<'a>,
    pub tag_28c: StatementNumber,
    pub tag_60: OpeningBalance,
    pub tag_61: Vec<StatementLine<'a>>,
    pub tag_62: BookedFunds,
    pub tag_64: Option<ClosingAvailableBalance>,
    pub tag_86: Vec<InformationToAccountOwner<'a>>,
}

/// The model of a `Text`.
pub struct TextView {
    pub tag_20: Seq<u8>,
    pub tag_25: Seq<u8>,
    pub tag_28c: StatementNumber,
    pub tag_60: PhasedBalanceView,
    pub tag_61: Seq<StatementLineView>,
    pub tag_62: PhasedBalanceView,
    pub tag_64: Option<BalanceView>,
    pub tag_86: Seq<Seq<u8>>,
}

impl<'a> View for Text<'a> {
    type V = TextView;

    open spec fn view(&self) -> TextView {
        TextView {
            tag_20: self.tag_20@,
            tag_25: self.tag_25@,
            tag_28c: self.tag_28c,
            tag_60: self.tag_60@,
            tag_61: views(self.tag_61@),
            tag_62: self.tag_62@,
            tag_64: optional_view(self.tag_64),
            tag_86: views(self.tag_86@),
        }
    }
}

/// The key and the value of a tagged line.
pub struct TagLine {
    pub key: Seq<u8>,
    pub value: Seq<u8>,
}

impl<'a> Text<'a> {
    /// The key and the value of the line that a match covers. The key is
    /// the first capture group. The value is what follows the key in the
    /// match, with the colons and carriage returns taken off both its ends.
    /// `MissingField` where the match lacks its key or its extent, and
    /// `StructuralError` where either does not fit the block or the key
    /// does not fit the match.
    pub open spec fn line(block: Seq<u8>, capture: Capture) -> Result<TagLine, Failure> {
        match (capture.first, capture.whole) {
            (Some(first), Some(whole)) => if !span_fits(block, first) || !span_fits(block, whole) {
                Err(failure(ErrorKind::StructuralError, Field::TextTag, block))
            } else {
                let key = span_bytes(block, first);
                let matched = span_bytes(block, whole);
                if key.len() > matched.len() || !is_char_boundary(matched, key.len() as int) {
                    Err(failure(ErrorKind::StructuralError, Field::TextTag, matched))
                } else {
                    Ok(
                        TagLine {
                            key,
                            value: trimmed(
                                matched.subrange(key.len() as int, matched.len() as int),
                                ByteClass::ColonOrReturn,
                            ),
                        },
                    )
                }
            },
            _ => Err(failure(ErrorKind::MissingField, Field::TextTag, block)),
        }
    }

    /// The tag that a key and a value decode to: the key picks the decoder,
    /// and a key that picks none is an `UnknownTag`.
    pub open spec fn tag(key: Seq<u8>, value: Seq<u8>) -> Result<TextTagView, Failure> {
        if key_is(key, '2', '0') {
            Ok(TextTagView::Reference(value))
        } else if key_is(key, '2', '5') {
            Ok(TextTagView::Account(value))
        } else if key_is3(key, '2', '8', 'C') {
            match StatementNumber::decode(value) {
                Ok(t) => Ok(TextTagView::Number(t)),
                Err(e) => Err(e),
            }
        } else if key_is3(key, '6', '0', 'F') {
            match decode_phased_balance(BalanceType::Final, value) {
                Ok(t) => Ok(TextTagView::Opening(t)),
                Err(e) => Err(e),
            }
        } else if key_is3(key, '6', '0', 'M') {
            match decode_phased_balance(BalanceType::Intermediary, value) {
                Ok(t) => Ok(TextTagView::Opening(t)),
                Err(e) => Err(e),
            }
        } else if key_is3(key, '6', '2', 'F') {
            match decode_phased_balance(BalanceType::Final, value) {
                Ok(t) => Ok(TextTagView::Booked(t)),
                Err(e) => Err(e),
            }
        } else if key_is3(key, '6', '2', 'M') {
            match decode_phased_balance(BalanceType::Intermediary, value) {
                Ok(t) => Ok(TextTagView::Booked(t)),
                Err(e) => Err(e),
            }
        } else if key_is(key, '6', '1') {
            match StatementLine::decode(value) {
                Ok(t) => Ok(TextTagView::Line(t)),
                Err(e) => Err(e),
            }
        } else if key_is(key, '8', '6') {
            Ok(TextTagView::Information(value))
        } else if key_is(key, '6', '4') {
            match Balance::decode(value) {
                Ok(t) => Ok(TextTagView::Available(t)),
                Err(e) => Err(e),
            }
        } else {
            Err(failure(ErrorKind::UnknownTag, Field::TextTag, key))
        }
    }

    /// The tag that a match decodes to.
    #[verifier::opaque]
    pub open spec fn read(block: Seq<u8>, capture: Capture) -> Result<TextTagView, Failure> {
        match Self::line(block, capture) {
            Ok(line) => Self::tag(line.key, line.value),
            Err(e) => Err(e),
        }
    }

    /// The draft that the matches fill, read from first to last; the first
    /// match that fails decides the failure.
    pub open spec fn draft(block: Seq<u8>, captures: Seq<Capture>) -> Result<DraftView, Failure>
        decreases captures.len(),
    {
        if captures.len() == 0 {
            Ok(DraftView::empty())
        } else {
            match Self::draft(block, captures.drop_last()) {
                Err(e) => Err(e),
                Ok(draft) => match Self::read(block, captures.last()) {
                    Err(e) => Err(e),
                    Ok(tag) => Ok(draft.with(tag)),
                },
            }
        }
    }

    /// What decoding a text block yields, given the matches of the tagged
    /// line pattern in it.
    pub open spec fn decode_captures(block: Seq<u8>, captures: Seq<Capture>) -> Result<
        TextView,
        Failure,
    > {
        match Self::draft(block, captures) {
            Err(e) => Err(e),
            Ok(draft) => draft.finish(block),
        }
    }

    /// What decoding a text block yields: its tagged lines are searched for
    /// and decoded. `StructuralError` where the pattern itself is refused.
    pub open spec fn decode(block: Seq<u8>) -> Result<TextView, Failure> {
        match pattern_captures(tag_pattern(), block) {
            None => Err(failure(ErrorKind::StructuralError, Field::BlockPattern, block)),
            Some(captures) => Self::decode_captures(block, captures),
        }
    }

    /// Cuts the key and the value of a tagged line out of the block.
    fn read_line(block_data: &'a str, capture: &Capture) -> (r: Result<
        (&'a str, &'a str),
        DecodeError<'a>,
    >)
        ensures
            match Self::line(block_data.spec_bytes(), *capture) {
                Ok(line) => r is Ok && r->Ok_0.0.spec_bytes() == line.key
                    && r->Ok_0.1.spec_bytes() == line.value,
                Err(e) => r is Err && r->Err_0@ == e,
            },
    {
        let (first, whole) = match (capture.first, capture.whole) {
            (Some(first), Some(whole)) => (first, whole),
            _ => {
                return Err(DecodeError::new(ErrorKind::MissingField, Field::TextTag, block_data));
            },
        };
        let (key, matched) = match (span_text(block_data, first), span_text(block_data, whole)) {
            (Some(key), Some(matched)) => (key, matched),
            _ => {
                return Err(
                    DecodeError::new(ErrorKind::StructuralError, Field::TextTag, block_data),
                );
            },
        };
        match slice_from(matched, key.as_bytes().len()) {
            Some(rest) => Ok((key, trim(rest, ByteClass::ColonOrReturn))),
            None => Err(DecodeError::new(ErrorKind::StructuralError, Field::TextTag, matched)),
        }
    }

    /// Decodes the value of a tag, by the decoder that the key picks.
    pub fn read_tag(key: &'a str, value: &'a str) -> (r: Result<TextTag<'a>, DecodeError<'a>>)
        ensures
            outcome(r) == Self::tag(key.spec_bytes(), value.spec_bytes()),
    {
        let k = key.as_bytes();
        if has_key(k, '2', '0') {
            Ok(TextTag::Reference(TransactionReferenceNumber::new(value)))
        } else if has_key(k, '2', '5') {
            Ok(TextTag::Account(AccountIdentification::new(value)))
        } else if has_key3(k, '2', '8', 'C') {
            match StatementNumber::new(value) {
                Ok(t) => Ok(TextTag::Number(t)),
                Err(e) => Err(e),
            }
        } else if has_key3(k, '6', '0', 'F') {
            match OpeningBalance::new(BalanceType::Final, value) {
                Ok(t) => Ok(TextTag::Opening(t)),
                Err(e) => Err(e),
            }
        } else if has_key3(k, '6', '0', 'M') {
            match OpeningBalance::new(BalanceType::Intermediary, value) {
                Ok(t) => Ok(TextTag::Opening(t)),
                Err(e) => Err(e),
            }
        } else if has_key3(k, '6', '2', 'F') {
            match BookedFunds::new(BalanceType::Final, value) {
                Ok(t) => Ok(TextTag::Booked(t)),
                Err(e) => Err(e),
            }
        } else if has_key3(k, '6', '2', 'M') {
            match BookedFunds::new(BalanceType::Intermediary, value) {
                Ok(t) => Ok(TextTag::Booked(t)),
                Err(e) => Err(e),
            }
        } else if has_key(k, '6', '1') {
            match StatementLine::new(value) {
                Ok(t) => Ok(TextTag::Line(t)),
                Err(e) => Err(e),
            }
        } else if has_key(k, '8', '6') {
            Ok(TextTag::Information(InformationToAccountOwner::new(value)))
        } else if has_key(k, '6', '4') {
            match ClosingAvailableBalance::new(value) {
                Ok(t) => Ok(TextTag::Available(t)),
                Err(e) => Err(e),
            }
        } else {
            Err(DecodeError::new(ErrorKind::UnknownTag, Field::TextTag, key))
        }
    }

    /// Decodes a text block from the matches of the tagged line pattern in
    /// it.
    pub fn from_captures(block_data: &'a str, captures: &[Capture]) -> (r: Result<
        Self,
        DecodeError<'a>,
    >)
        ensures
            outcome(r) == Self::decode_captures(block_data.spec_bytes(), captures@),
    {
        let ghost block = block_data.spec_bytes();
        let mut draft = Draft::new();
        let mut i: usize = 0;
        assert(captures@.subrange(0, 0) =~= Seq::<Capture>::empty());
        while i < captures.len()
            invariant
                0 <= i <= captures@.len(),
                block == block_data.spec_bytes(),
                Self::draft(block, captures@.subrange(0, i as int)) == Ok::<DraftView, Failure>(
                    draft@,
                ),
            decreases captures@.len() - i,
        {
            let ghost before = captures@.subrange(0, i as int);
            let ghost after = captures@.subrange(0, i + 1);
            proof {
                reveal(Text::read);
                assert(after.drop_last() =~= before);
                assert(after.last() == captures@[i as int]);
                if i + 1 < captures@.len() {
                    assert(captures@.subrange(0, captures@.len() as int).subrange(0, i + 1)
                        =~= after);
                }
            }
            let (key, value) = match Self::read_line(block_data, &captures[i]) {
                Ok(line) => line,
                Err(e) => {
                    proof {
                        Self::lemma_draft_fails(block, captures@, i as int);
                    }
                    return Err(e);
                },
            };
            let tag = match Self::read_tag(key, value) {
                Ok(tag) => tag,
                Err(e) => {
                    proof {
                        Self::lemma_draft_fails(block, captures@, i as int);
                    }
                    return Err(e);
                },
            };
            draft = draft.with(tag);
            i += 1;
        }
        assert(captures@.subrange(0, i as int) =~= captures@);
        draft.finish(block_data)
    }

    /// Where the matches before the `i`-th fill a draft and the `i`-th
    /// fails, reading all the matches fails as the `i`-th does.
    pub proof fn lemma_draft_fails(block: Seq<u8>, captures: Seq<Capture>, i: int)
        requires
            0 <= i < captures.len(),
            Self::draft(block, captures.subrange(0, i)) is Ok,
            Self::read(block, captures[i]) is Err,
        ensures
            Self::draft(block, captures) == Err::<DraftView, Failure>(
                Self::read(block, captures[i])->Err_0,
            ),
        decreases captures.len(),
    {
        let upto = captures.subrange(0, i + 1);
        assert(upto.drop_last() =~= captures.subrange(0, i));
        assert(upto.last() == captures[i]);
        if i + 1 == captures.len() {
            assert(upto =~= captures);
        } else {
            let shorter = captures.drop_last();
            assert(shorter.subrange(0, i) =~= captures.subrange(0, i));
            assert(shorter[i] == captures[i]);
            Self::lemma_draft_fails(block, shorter, i);
        }
    }

    /// Whether a match decodes to a tag of the given place.
    pub open spec fn fills(block: Seq<u8>, capture: Capture, slot: Slot) -> bool {
        Self::read(block, capture) matches Ok(tag) && tag.slot() == slot
    }

    /// Whether a match decodes to a tag other than of the given place, or
    /// to none.
    pub open spec fn fills_other(block: Seq<u8>, slot: Slot) -> spec_fn(Capture) -> bool {
        |capture: Capture| !Self::fills(block, capture, slot)
    }

    /// Where all matches can be read, so can those of them that are kept,
    /// whatever the choice. A place whose tags are all kept is filled as
    /// before, and a place whose tags are all dropped is left unfilled.
    pub proof fn lemma_draft_of_kept(
        block: Seq<u8>,
        captures: Seq<Capture>,
        keep: spec_fn(Capture) -> bool,
        slot: Slot,
    )
        requires
            Self::draft(block, captures) is Ok,
        ensures
            Self::draft(block, captures.filter(keep)) is Ok,
            (forall|i: int|
                0 <= i < captures.len() && Self::fills(block, #[trigger] captures[i], slot)
                    ==> keep(captures[i])) ==> Self::draft(
                block,
                captures.filter(keep),
            )->Ok_0.filled(slot) == Self::draft(block, captures)->Ok_0.filled(slot),
            (forall|i: int|
                0 <= i < captures.len() && Self::fills(block, #[trigger] captures[i], slot)
                    ==> !keep(captures[i])) ==> !Self::draft(
                block,
                captures.filter(keep),
            )->Ok_0.filled(slot),
        decreases captures.len(),
    {
        reveal(Seq::filter);
        if captures.len() > 0 {
            let rest = captures.drop_last();
            let last = captures.last();
            Self::lemma_draft_of_kept(block, rest, keep, slot);
            let kept = captures.filter(keep);
            if keep(last) {
                assert(kept.drop_last() =~= rest.filter(keep));
                assert(kept.last() == last);
            }
            assert(forall|i: int| 0 <= i < rest.len() ==> rest[i] == captures[i]);
            assert(last == captures[captures.len() - 1]);
        }
    }

    /// Without the tagged lines of a mandatory tag, a text block that
    /// could be decoded fails with `MissingField`, naming that tag. The
    /// mandatory tags are 20, 25, 28C, 60 and 62; the lines are given by
    /// their matches.
    pub proof fn lemma_missing_mandatory_tag(block: Seq<u8>, captures: Seq<Capture>, slot: Slot)
        requires
            Self::decode_captures(block, captures) is Ok,
            slot.is_mandatory(),
        ensures
            Self::decode_captures(block, captures.filter(Self::fills_other(block, slot))) == Err::<
                TextView,
                Failure,
            >(failure(ErrorKind::MissingField, slot.field(), block)),
    {
        let keep = Self::fills_other(block, slot);
        Self::lemma_draft_of_kept(block, captures, keep, Slot::Reference);
        Self::lemma_draft_of_kept(block, captures, keep, Slot::Account);
        Self::lemma_draft_of_kept(block, captures, keep, Slot::Number);
        Self::lemma_draft_of_kept(block, captures, keep, Slot::Opening);
        Self::lemma_draft_of_kept(block, captures, keep, Slot::Booked);
    }

    /// Without some or all of the tagged lines of the tags 61, 64 and 86, a
    /// text block that could be decoded can still be decoded. The lines are
    /// given by their matches; `keep` says which of them stay.
    pub proof fn lemma_optional_tags(
        block: Seq<u8>,
        captures: Seq<Capture>,
        keep: spec_fn(Capture) -> bool,
    )
        requires
            Self::decode_captures(block, captures) is Ok,
            forall|i: int|
                0 <= i < captures.len() && !keep(#[trigger] captures[i]) ==> Self::fills(
                    block,
                    captures[i],
                    Slot::Line,
                ) || Self::fills(block, captures[i], Slot::Available) || Self::fills(
                    block,
                    captures[i],
                    Slot::Information,
                ),
        ensures
            Self::decode_captures(block, captures.filter(keep)) is Ok,
    {
        Self::lemma_draft_of_kept(block, captures, keep, Slot::Reference);
        Self::lemma_draft_of_kept(block, captures, keep, Slot::Account);
        Self::lemma_draft_of_kept(block, captures, keep, Slot::Number);
        Self::lemma_draft_of_kept(block, captures, keep, Slot::Opening);
        Self::lemma_draft_of_kept(block, captures, keep, Slot::Booked);
    }

    /// Decodes a text block.
    pub fn new(block_data: &'a str) -> (r: Result<Self, DecodeError<'a>>)
        ensures
            outcome(r) == Self::decode(block_data.spec_bytes()),
    {
        match search(tag_line_pattern(), block_data) {
            Ok(captures) => Self::from_captures(block_data, captures.as_slice()),
            Err(_) => Err(
                DecodeError::new(ErrorKind::StructuralError, Field::BlockPattern, block_data),
            ),
        }
    }
}

} // verus!
