//! Block 3, the user header: optional sub-tags, each in braces of its own.
use vstd::prelude::*;
use vstd::string::*;
use vstd::utf8::*;
use crate::body::{has_key3, key_is3};
use crate::calendar::{decode_date_time, naive_date_time_from_swift_date_time, DateTime};
use crate::error::{
    failure, optional_view, outcome, DecodeError, ErrorKind, Failure, Field,
};
use crate::identifier::{identifier_value, parse_identifier};
use crate::tag::{
    BankingPriority, MessageUserReference, PaymentControlsInformation,
    PaymentControlsInformationView, PaymentReleaseInformationReceiver, RelatedReference,
    SanctionsScreeningInformation, SanctionsScreeningInformationView, ServiceIdentifier,
    ServiceTypeIdentifier, Validation,
};
use crate::text::{
    cut, cut_from, find_byte, has_segment, index_of, lemma_ascii_boundaries,
    lemma_end_boundaries, lemma_index_of, lemma_last_segment, lemma_segment_bounds, read_segment,
    segment_end, segment_start, slice,
};
use crate::utils::{
    AddressInformation, AddressInformationView, MessageInputReference, MessageInputReferenceView,
};

verus! {

/// One decoded sub-tag of the user header.
#[derive(Debug, PartialEq, Eq, Clone, Copy)]
pub enum UserTag<'a> {
    ServiceIdentifier(ServiceIdentifier<'a>),
    BankingPriority(BankingPriority<'a>),
    MessageUserReference(MessageUserReference<'a>),
    Validation(Validation),
    BalanceCheckpoint(DateTime),
    MessageInputReference(MessageInputReference<'a>),
    RelatedReference(RelatedReference<'a>),
    ServiceTypeIdentifier(ServiceTypeIdentifier<'a>),
    UniqueTransactionReference(u128),
    AddressInformation(AddressInformation<'a>),
    PaymentReleaseInformationReceiver(PaymentReleaseInformationReceiver<'a>),
    SanctionsScreeningInformation(SanctionsScreeningInformation<'a>),
    PaymentControlsInformation(PaymentControlsInformation<'a>),
}

/// The model of a `UserTag`.
pub enum UserTagView {
    ServiceIdentifier(Seq<u8>),
    BankingPriority(Seq<u8>),
    MessageUserReference(Seq<u8>),
    Validation(Validation),
    BalanceCheckpoint(DateTime),
    MessageInputReference(MessageInputReferenceView),
    RelatedReference(Seq<u8>),
    ServiceTypeIdentifier(Seq<u8>),
    UniqueTransactionReference(u128),
    AddressInformation(AddressInformationView),
    PaymentReleaseInformationReceiver(Seq<u8>),
    SanctionsScreeningInformation(SanctionsScreeningInformationView),
    PaymentControlsInformation(PaymentControlsInformationView),
}

impl<'a> View for UserTag<'a> {
    type V = UserTagView;

    open spec fn view(&self) -> UserTagView {
        match *self {
            UserTag::ServiceIdentifier(t) => UserTagView::ServiceIdentifier(t@),
            UserTag::BankingPriority(t) => UserTagView::BankingPriority(t@),
            UserTag::MessageUserReference(t) => UserTagView::MessageUserReference(t@),
            UserTag::Validation(t) => UserTagView::Validation(t),
            UserTag::BalanceCheckpoint(t) => UserTagView::BalanceCheckpoint(t),
            UserTag::MessageInputReference(t) => UserTagView::MessageInputReference(t@),
            UserTag::RelatedReference(t) => UserTagView::RelatedReference(t@),
            UserTag::ServiceTypeIdentifier(t) => UserTagView::ServiceTypeIdentifier(t@),
            UserTag::UniqueTransactionReference(t) => UserTagView::UniqueTransactionReference(t),
            UserTag::AddressInformation(t) => UserTagView::AddressInformation(t@),
            UserTag::PaymentReleaseInformationReceiver(t) => {
                UserTagView::PaymentReleaseInformationReceiver(t@)
            },
            UserTag::SanctionsScreeningInformation(t) => {
                UserTagView::SanctionsScreeningInformation(t@)
            },
            UserTag::PaymentControlsInformation(t) => UserTagView::PaymentControlsInformation(t@),
        }
    }
}

/// Block 3, the user header. Every sub-tag is optional; tag 423 is held as
/// the date and time it writes, and tag 121 as the 128-bit value of its
/// identifier.
#[derive(Debug, PartialEq, Eq, Clone, Copy)]
pub struct User<'a> {
    pub tag_103: Option<ServiceIdentifier<'a>>,
    pub tag_113: Option<BankingPriority<'a>>,
    pub tag_108: Option<MessageUserReference<'a>>,
    pub tag_119: Option<Validation>,
    pub tag_423: Option<DateTime>,
    pub tag_106: Option<MessageInputReference<'a>>,
    pub tag_424: Option<RelatedReference<'a>>,
    pub tag_111: Option<ServiceTypeIdentifier<'a>>,
    pub tag_121: Option<u128>,
    pub tag_115: Option<AddressInformation<'a>>,
    pub tag_165: Option<PaymentReleaseInformationReceiver<'a>>,
    pub tag_433: Option<SanctionsScreeningInformation<'a>>,
    pub tag_434: Option<PaymentControlsInformation<'a>>,
}

/// The model of a `User`.
pub struct UserView {
    pub tag_103: Option<Seq<u8>>,
    pub tag_113: Option<Seq<u8>>,
    pub tag_108: Option<Seq<u8>>,
    pub tag_119: Option<Validation>,
    pub tag_423: Option<DateTime>,
    pub tag_106: Option<MessageInputReferenceView>,
    pub tag_424: Option<Seq<u8>>,
    pub tag_111: Option<Seq<u8>>,
    pub tag_121: Option<u128>,
    pub tag_115: Option<AddressInformationView>,
    pub tag_165: Option<Seq<u8>>,
    pub tag_433: Option<SanctionsScreeningInformationView>,
    pub tag_434: Option<PaymentControlsInformationView>,
}

impl<'a> View for User<'a> {
    type V = UserView;

    open spec fn view(&self) -> UserView {
        UserView {
            tag_103: optional_view(self.tag_103),
            tag_113: optional_view(self.tag_113),
            tag_108: optional_view(self.tag_108),
            tag_119: self.tag_119,
            tag_423: self.tag_423,
            tag_106: optional_view(self.tag_106),
            tag_424: optional_view(self.tag_424),
            tag_111: optional_view(self.tag_111),
            tag_121: self.tag_121,
            tag_115: optional_view(self.tag_115),
            tag_165: optional_view(self.tag_165),
            tag_433: optional_view(self.tag_433),
            tag_434: optional_view(self.tag_434),
        }
    }
}

/// The byte that opens a sub-tag.
pub open spec fn open_brace() -> u8 {
    '{' as u8
}

/// The byte that closes a sub-tag.
pub open spec fn close_brace() -> u8 {
    '}' as u8
}

/// The byte between a sub-tag's number and its value.
pub open spec fn colon() -> u8 {
    ':' as u8
}

impl UserView {
    /// The header without any sub-tag.
    pub open spec fn empty() -> UserView {
        UserView {
            tag_103: None,
            tag_113: None,
            tag_108: None,
            tag_119: None,
            tag_423: None,
            tag_106: None,
            tag_424: None,
            tag_111: None,
            tag_121: None,
            tag_115: None,
            tag_165: None,
            tag_433: None,
            tag_434: None,
        }
    }

    /// The header with one more sub-tag, which takes its place whatever
    /// held it before.
    pub open spec fn with(self, tag: UserTagView) -> UserView {
        match tag {
            UserTagView::ServiceIdentifier(t) => UserView { tag_103: Some(t), ..self },
            UserTagView::BankingPriority(t) => UserView { tag_113: Some(t), ..self },
            UserTagView::MessageUserReference(t) => UserView { tag_108: Some(t), ..self },
            UserTagView::Validation(t) => UserView { tag_119: Some(t), ..self },
            UserTagView::BalanceCheckpoint(t) => UserView { tag_423: Some(t), ..self },
            UserTagView::MessageInputReference(t) => UserView { tag_106: Some(t), ..self },
            UserTagView::RelatedReference(t) => UserView { tag_424: Some(t), ..self },
            UserTagView::ServiceTypeIdentifier(t) => UserView { tag_111: Some(t), ..self },
            UserTagView::UniqueTransactionReference(t) => UserView { tag_121: Some(t), ..self },
            UserTagView::AddressInformation(t) => UserView { tag_115: Some(t), ..self },
            UserTagView::PaymentReleaseInformationReceiver(t) => UserView {
                tag_165: Some(t),
                ..self
            },
            UserTagView::SanctionsScreeningInformation(t) => UserView { tag_433: Some(t), ..self },
            UserTagView::PaymentControlsInformation(t) => UserView { tag_434: Some(t), ..self },
        }
    }
}

impl<'a> User<'a> {
    /// Where the `n`-th opening brace stands; the length where there are
    /// not that many.
    pub open spec fn opening(bytes: Seq<u8>, n: nat) -> int {
        segment_end(bytes, open_brace(), n)
    }

    /// Where the `n`-th closing brace stands; the length where there are
    /// not that many.
    pub open spec fn closing(bytes: Seq<u8>, n: nat) -> int {
        segment_end(bytes, close_brace(), n)
    }

    /// Whether the header has an `n`-th sub-tag: an `n`-th opening brace
    /// and an `n`-th closing brace. The braces are paired by their count,
    /// whatever their order.
    pub open spec fn has_section(bytes: Seq<u8>, n: nat) -> bool {
        Self::opening(bytes, n) < bytes.len() && Self::closing(bytes, n) < bytes.len()
    }

    /// The failure for a value whose length or form its sub-tag does not
    /// take.
    pub open spec fn unfit(field: Field, value: Seq<u8>) -> Failure {
        failure(ErrorKind::InvalidValue, field, value)
    }

    /// The sub-tag that a number and a value decode to: the number picks
    /// the decoder, and a number that picks none is an `UnknownTag`.
    pub open spec fn tag(key: Seq<u8>, value: Seq<u8>) -> Result<UserTagView, Failure> {
        if key_is3(key, '1', '0', '3') {
            if ServiceIdentifier::fits(value) {
                Ok(UserTagView::ServiceIdentifier(value))
            } else {
                Err(Self::unfit(Field::ServiceIdentifier, value))
            }
        } else if key_is3(key, '1', '1', '3') {
            if BankingPriority::fits(value) {
                Ok(UserTagView::BankingPriority(value))
            } else {
                Err(Self::unfit(Field::BankingPriority, value))
            }
        } else if key_is3(key, '1', '0', '8') {
            if MessageUserReference::fits(value) {
                Ok(UserTagView::MessageUserReference(value))
            } else {
                Err(Self::unfit(Field::MessageUserReference, value))
            }
        } else if key_is3(key, '1', '1', '9') {
            match Validation::decode(value) {
                Ok(t) => Ok(UserTagView::Validation(t)),
                Err(e) => Err(e),
            }
        } else if key_is3(key, '4', '2', '3') {
            match decode_date_time(value) {
                Ok(t) => Ok(UserTagView::BalanceCheckpoint(t)),
                Err(e) => Err(e),
            }
        } else if key_is3(key, '1', '0', '6') {
            match MessageInputReference::decode(value) {
                Ok(t) => Ok(UserTagView::MessageInputReference(t)),
                Err(e) => Err(e),
            }
        } else if key_is3(key, '4', '2', '4') {
            if RelatedReference::fits(value) {
                Ok(UserTagView::RelatedReference(value))
            } else {
                Err(Self::unfit(Field::RelatedReference, value))
            }
        } else if key_is3(key, '1', '1', '1') {
            if ServiceTypeIdentifier::fits(value) {
                Ok(UserTagView::ServiceTypeIdentifier(value))
            } else {
                Err(Self::unfit(Field::ServiceTypeIdentifier, value))
            }
        } else if key_is3(key, '1', '2', '1') {
            match identifier_value(value) {
                Some(t) => Ok(UserTagView::UniqueTransactionReference(t)),
                None => Err(Self::unfit(Field::UniqueTransactionReference, value)),
            }
        } else if key_is3(key, '1', '1', '5') {
            match AddressInformation::decode(value) {
                Ok(t) => Ok(UserTagView::AddressInformation(t)),
                Err(e) => Err(e),
            }
        } else if key_is3(key, '1', '6', '5') {
            if PaymentReleaseInformationReceiver::fits(value) {
                Ok(UserTagView::PaymentReleaseInformationReceiver(value))
            } else {
                Err(Self::unfit(Field::PaymentReleaseInformationReceiver, value))
            }
        } else if key_is3(key, '4', '3', '3') {
            match SanctionsScreeningInformation::decode(value) {
                Ok(t) => Ok(UserTagView::SanctionsScreeningInformation(t)),
                Err(e) => Err(e),
            }
        } else if key_is3(key, '4', '3', '4') {
            if PaymentControlsInformation::fits(value) {
                Ok(UserTagView::PaymentControlsInformation(PaymentControlsInformation::decode(value)))
            } else {
                Err(failure(ErrorKind::TruncatedField, Field::PaymentControlsInformation, value))
            }
        } else {
            Err(failure(ErrorKind::UnknownTag, Field::UserTag, key))
        }
    }

    /// The sub-tag that the text between a pair of braces decodes to: its
    /// number stands before the first colon and its value behind it.
    /// `MissingField` where the text has no colon.
    pub open spec fn sub_tag(section: Seq<u8>) -> Result<UserTagView, Failure> {
        let at = index_of(section, 0, colon());
        if at >= section.len() {
            Err(failure(ErrorKind::MissingField, Field::UserTag, section))
        } else {
            Self::tag(section.subrange(0, at), section.subrange(at + 1, section.len() as int))
        }
    }

    /// The `n`-th sub-tag of the header: what stands between the `n`-th
    /// opening brace and the `n`-th closing brace. `StructuralError` where
    /// the closing brace stands before the opening one.
    pub open spec fn read(bytes: Seq<u8>, n: nat) -> Result<UserTagView, Failure> {
        if Self::opening(bytes, n) + 1 > Self::closing(bytes, n) {
            Err(failure(ErrorKind::StructuralError, Field::UserBlock, bytes))
        } else {
            Self::sub_tag(bytes.subrange(Self::opening(bytes, n) + 1, Self::closing(bytes, n)))
        }
    }

    /// The header that the first `count` sub-tags fill, read from first to
    /// last; the first that fails decides the failure. Counts beyond the
    /// sub-tags that the header has add nothing.
    pub open spec fn fold(bytes: Seq<u8>, count: nat) -> Result<UserView, Failure>
        decreases count,
    {
        if count == 0 {
            Ok(UserView::empty())
        } else {
            let n = (count - 1) as nat;
            match Self::fold(bytes, n) {
                Err(e) => Err(e),
                Ok(user) => if !Self::has_section(bytes, n) {
                    Ok(user)
                } else {
                    match Self::read(bytes, n) {
                        Err(e) => Err(e),
                        Ok(tag) => Ok(user.with(tag)),
                    }
                },
            }
        }
    }

    /// What decoding a user header yields: all its sub-tags, of which there
    /// are fewer than it has bytes.
    pub open spec fn decode(bytes: Seq<u8>) -> Result<UserView, Failure> {
        Self::fold(bytes, bytes.len())
    }

    /// Behind a sub-tag that the header lacks there is no other.
    pub proof fn lemma_no_later_section(bytes: Seq<u8>, n: nat, m: nat)
        requires
            n <= m,
            !Self::has_section(bytes, n),
        ensures
            !Self::has_section(bytes, m),
    {
        if n < m {
            lemma_segment_bounds(bytes, open_brace(), n);
            lemma_segment_bounds(bytes, close_brace(), n);
            lemma_segment_bounds(bytes, open_brace(), m);
            lemma_segment_bounds(bytes, close_brace(), m);
            if Self::opening(bytes, n) >= bytes.len() {
                if has_segment(bytes, open_brace(), n) {
                    lemma_index_of(bytes, segment_start(bytes, open_brace(), n), open_brace());
                }
                lemma_last_segment(bytes, open_brace(), n, m);
            } else {
                if has_segment(bytes, close_brace(), n) {
                    lemma_index_of(bytes, segment_start(bytes, close_brace(), n), close_brace());
                }
                lemma_last_segment(bytes, close_brace(), n, m);
            }
        }
    }

    /// Counting beyond the last sub-tag changes nothing.
    pub proof fn lemma_fold_stable(bytes: Seq<u8>, n: nat, m: nat)
        requires
            n <= m,
            !Self::has_section(bytes, n),
        ensures
            Self::fold(bytes, m) == Self::fold(bytes, n),
        decreases m,
    {
        if n < m {
            let before = (m - 1) as nat;
            Self::lemma_fold_stable(bytes, n, before);
            Self::lemma_no_later_section(bytes, n, before);
        }
    }

    /// Once a sub-tag has failed, counting on changes nothing.
    pub proof fn lemma_fold_fails(bytes: Seq<u8>, n: nat, m: nat)
        requires
            n <= m,
            Self::fold(bytes, n) is Err,
        ensures
            Self::fold(bytes, m) == Self::fold(bytes, n),
        decreases m,
    {
        if n < m {
            Self::lemma_fold_fails(bytes, n, (m - 1) as nat);
        }
    }

    /// The header without any sub-tag.
    pub fn empty() -> (r: Self)
        ensures
            r@ == UserView::empty(),
    {
        User {
            tag_103: None,
            tag_113: None,
            tag_108: None,
            tag_119: None,
            tag_423: None,
            tag_106: None,
            tag_424: None,
            tag_111: None,
            tag_121: None,
            tag_115: None,
            tag_165: None,
            tag_433: None,
            tag_434: None,
        }
    }

    /// Puts one more sub-tag into the header.
    pub fn with(self, tag: UserTag<'a>) -> (r: Self)
        ensures
            r@ == self@.with(tag@),
    {
        let mut user = self;
        match tag {
            UserTag::ServiceIdentifier(t) => {
                user.tag_103 = Some(t);
            },
            UserTag::BankingPriority(t) => {
                user.tag_113 = Some(t);
            },
            UserTag::MessageUserReference(t) => {
                user.tag_108 = Some(t);
            },
            UserTag::Validation(t) => {
                user.tag_119 = Some(t);
            },
            UserTag::BalanceCheckpoint(t) => {
                user.tag_423 = Some(t);
            },
            UserTag::MessageInputReference(t) => {
                user.tag_106 = Some(t);
            },
            UserTag::RelatedReference(t) => {
                user.tag_424 = Some(t);
            },
            UserTag::ServiceTypeIdentifier(t) => {
                user.tag_111 = Some(t);
            },
            UserTag::UniqueTransactionReference(t) => {
                user.tag_121 = Some(t);
            },
            UserTag::AddressInformation(t) => {
                user.tag_115 = Some(t);
            },
            UserTag::PaymentReleaseInformationReceiver(t) => {
                user.tag_165 = Some(t);
            },
            UserTag::SanctionsScreeningInformation(t) => {
                user.tag_433 = Some(t);
            },
            UserTag::PaymentControlsInformation(t) => {
                user.tag_434 = Some(t);
            },
        }
        user
    }

    /// Decodes the value of a sub-tag, by the decoder that the number picks.
    pub fn read_tag(key: &'a str, value: &'a str) -> (r: Result<UserTag<'a>, DecodeError<'a>>)
        ensures
            outcome(r) == Self::tag(key.spec_bytes(), value.spec_bytes()),
    {
        let k = key.as_bytes();
        let length = value.as_bytes().len();
        if has_key3(k, '1', '0', '3') {
            if length == 3 {
                Ok(UserTag::ServiceIdentifier(ServiceIdentifier::new(value)))
            } else {
                Err(DecodeError::new(ErrorKind::InvalidValue, Field::ServiceIdentifier, value))
            }
        } else if has_key3(k, '1', '1', '3') {
            if length == 4 {
                Ok(UserTag::BankingPriority(BankingPriority::new(value)))
            } else {
                Err(DecodeError::new(ErrorKind::InvalidValue, Field::BankingPriority, value))
            }
        } else if has_key3(k, '1', '0', '8') {
            if length <= 16 {
                Ok(UserTag::MessageUserReference(MessageUserReference::new(value)))
            } else {
                Err(DecodeError::new(ErrorKind::InvalidValue, Field::MessageUserReference, value))
            }
        } else if has_key3(k, '1', '1', '9') {
            match Validation::new(value) {
                Ok(t) => Ok(UserTag::Validation(t)),
                Err(e) => Err(e),
            }
        } else if has_key3(k, '4', '2', '3') {
            match naive_date_time_from_swift_date_time(value) {
                Ok(t) => Ok(UserTag::BalanceCheckpoint(t)),
                Err(e) => Err(e),
            }
        } else if has_key3(k, '1', '0', '6') {
            match MessageInputReference::new(value) {
                Ok(t) => Ok(UserTag::MessageInputReference(t)),
                Err(e) => Err(e),
            }
        } else if has_key3(k, '4', '2', '4') {
            if length <= 16 {
                Ok(UserTag::RelatedReference(RelatedReference::new(value)))
            } else {
                Err(DecodeError::new(ErrorKind::InvalidValue, Field::RelatedReference, value))
            }
        } else if has_key3(k, '1', '1', '1') {
            if length == 3 {
                Ok(UserTag::ServiceTypeIdentifier(ServiceTypeIdentifier::new(value)))
            } else {
                Err(DecodeError::new(ErrorKind::InvalidValue, Field::ServiceTypeIdentifier, value))
            }
        } else if has_key3(k, '1', '2', '1') {
            match parse_identifier(value) {
                Ok(t) => Ok(UserTag::UniqueTransactionReference(t)),
                Err(_) => Err(
                    DecodeError::new(
                        ErrorKind::InvalidValue,
                        Field::UniqueTransactionReference,
                        value,
                    ),
                ),
            }
        } else if has_key3(k, '1', '1', '5') {
            match AddressInformation::new(value) {
                Ok(t) => Ok(UserTag::AddressInformation(t)),
                Err(e) => Err(e),
            }
        } else if has_key3(k, '1', '6', '5') {
            if length <= 34 {
                Ok(
                    UserTag::PaymentReleaseInformationReceiver(
                        PaymentReleaseInformationReceiver::new(value),
                    ),
                )
            } else {
                Err(
                    DecodeError::new(
                        ErrorKind::InvalidValue,
                        Field::PaymentReleaseInformationReceiver,
                        value,
                    ),
                )
            }
        } else if has_key3(k, '4', '3', '3') {
            match SanctionsScreeningInformation::new(value) {
                Ok(t) => Ok(UserTag::SanctionsScreeningInformation(t)),
                Err(e) => Err(e),
            }
        } else if has_key3(k, '4', '3', '4') {
            if slice(value, 1, 4).is_some() {
                Ok(UserTag::PaymentControlsInformation(PaymentControlsInformation::new(value)))
            } else {
                Err(
                    DecodeError::new(
                        ErrorKind::TruncatedField,
                        Field::PaymentControlsInformation,
                        value,
                    ),
                )
            }
        } else {
            Err(DecodeError::new(ErrorKind::UnknownTag, Field::UserTag, key))
        }
    }

    /// Decodes the text between a pair of braces.
    pub fn read_sub_tag(section: &'a str) -> (r: Result<UserTag<'a>, DecodeError<'a>>)
        ensures
            outcome(r) == Self::sub_tag(section.spec_bytes()),
    {
        proof {
            lemma_end_boundaries(section);
        }
        let (key, at) = read_segment(section, ':' as u8, 0);
        if at >= section.as_bytes().len() {
            return Err(DecodeError::new(ErrorKind::MissingField, Field::UserTag, section));
        }
        Self::read_tag(key, cut_from(section, at + 1))
    }

    /// Decodes a user header.
    pub fn new(block_data: &'a str) -> (r: Result<Self, DecodeError<'a>>)
        ensures
            outcome(r) == Self::decode(block_data.spec_bytes()),
    {
        let ghost bytes = block_data.spec_bytes();
        let b = block_data.as_bytes();
        let length = b.len();
        let mut user = Self::empty();
        let mut open_from: usize = 0;
        let mut close_from: usize = 0;
        let ghost mut n: nat = 0;
        proof {
            lemma_end_boundaries(block_data);
        }
        loop
            invariant
                bytes == block_data.spec_bytes(),
                b@ == bytes,
                length == bytes.len(),
                valid_utf8(bytes),
                open_from as int == segment_start(bytes, open_brace(), n),
                close_from as int == segment_start(bytes, close_brace(), n),
                open_from <= length,
                close_from <= length,
                n <= open_from,
                Self::fold(bytes, n) == Ok::<UserView, Failure>(user@),
            decreases length - open_from,
        {
            let opening = find_byte(b, open_from, '{' as u8);
            let closing = find_byte(b, close_from, '}' as u8);
            if opening >= length || closing >= length {
                proof {
                    Self::lemma_fold_stable(bytes, n, bytes.len());
                }
                return Ok(user);
            }
            proof {
                lemma_index_of(bytes, open_from as int, open_brace());
                lemma_index_of(bytes, close_from as int, close_brace());
                lemma_ascii_boundaries(bytes, opening as int);
                lemma_ascii_boundaries(bytes, closing as int);
            }
            let ghost next = (n + 1) as nat;
            if opening + 1 > closing {
                proof {
                    assert(Self::fold(bytes, next) is Err);
                    Self::lemma_fold_fails(bytes, next, bytes.len());
                }
                return Err(
                    DecodeError::new(ErrorKind::StructuralError, Field::UserBlock, block_data),
                );
            }
            let section = cut(block_data, opening + 1, closing);
            let tag = match Self::read_sub_tag(section) {
                Ok(t) => t,
                Err(e) => {
                    proof {
                        assert(Self::fold(bytes, next) is Err);
                        Self::lemma_fold_fails(bytes, next, bytes.len());
                    }
                    return Err(e);
                },
            };
            user = user.with(tag);
            proof {
                assert(Self::fold(bytes, next) == Ok::<UserView, Failure>(user@));
                assert(segment_start(bytes, open_brace(), next) == opening + 1);
                assert(segment_start(bytes, close_brace(), next) == closing + 1);
                n = next;
            }
            open_from = opening + 1;
            close_from = closing + 1;
        }
    }
}

} // verus!
