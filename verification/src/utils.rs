//! The values that several blocks and tags share: amounts, balances,
//! business identifier codes, terminal addresses and the two composite
//! values of the user header.
use vstd::prelude::*;
use vstd::string::*;
use vstd::utf8::*;
pub use crate::calendar::{
    naive_date_from_swift_date, naive_date_time_from_swift_date_time, naive_time_from_swift_time,
};
use crate::calendar::{decode_date, decode_time, swift_date_in_year, Date, Time};
pub use crate::codes::{
    ApplicationId, BalanceType, CreditDebit, FundsCode, SanctionScreenType, ServiceId, SwiftType,
    TransactionType, ValidationFlag, IO,
};
use crate::error::{failure, outcome, outcome_plain, DecodeError, ErrorKind, Failure, Field};
use crate::iso::{country_code, currency_code, listed_country, listed_currency};
use crate::text::{
    all_digits, cut_from, digits_value, find_byte, index_of, lemma_digits_value_prefix,
    lemma_end_boundaries, number, read_digits,
    read_number, read_segment, segment, has_segment, segment_start, lemma_segment_bounds, slice,
    sliceable, trim, trimmed, ByteClass,
};

verus! {

/// An unsigned decimal number: `digits` is the number written by all its
/// digits, and `decimals` says how many of them stand behind the separator.
/// So `54484,04` is held as 5448404 with 2 decimals.
#[derive(Debug, PartialEq, Eq, Clone, Copy, Structural)]
pub struct Amount {
    pub digits: u64,
    pub decimals: usize,
}

/// The offset of the decimal separator, a comma or a point, or the length of
/// `bytes` where there is none.
pub open spec fn separator_index(bytes: Seq<u8>) -> int {
    let comma = index_of(bytes, 0, ',' as u8);
    let point = index_of(bytes, 0, '.' as u8);
    if comma <= point {
        comma
    } else {
        point
    }
}

/// The digits before the separator.
pub open spec fn whole_part(bytes: Seq<u8>) -> Seq<u8> {
    bytes.subrange(0, separator_index(bytes))
}

/// The digits behind the separator.
pub open spec fn fraction_part(bytes: Seq<u8>) -> Seq<u8> {
    if separator_index(bytes) < bytes.len() {
        bytes.subrange(separator_index(bytes) + 1, bytes.len() as int)
    } else {
        Seq::empty()
    }
}

/// The amount that `bytes` write: digits, then at most one separator with
/// more digits behind it, at least one digit in all, and a number that
/// `u64` holds.
pub open spec fn swift_amount(bytes: Seq<u8>) -> Option<Amount> {
    let whole = whole_part(bytes);
    let fraction = fraction_part(bytes);
    if all_digits(whole) && all_digits(fraction) && whole.len() + fraction.len() > 0
        && digits_value(whole + fraction) <= u64::MAX {
        Some(
            Amount {
                digits: digits_value(whole + fraction) as u64,
                decimals: fraction.len() as usize,
            },
        )
    } else {
        None
    }
}

/// What decoding an amount yields: the amount, or `InvalidAmount` with the
/// text.
pub open spec fn decode_amount(bytes: Seq<u8>) -> Result<Amount, Failure> {
    match swift_amount(bytes) {
        Some(a) => Ok(a),
        None => Err(failure(ErrorKind::InvalidAmount, Field::Amount, bytes)),
    }
}

/// Decodes an amount written with a comma, or a point, as its decimal
/// separator.
pub fn float_from_swift_amount<'a>(amount: &'a str) -> (r: Result<Amount, DecodeError<'a>>)
    ensures
        outcome_plain(r) == decode_amount(amount.spec_bytes()),
{
    let b = amount.as_bytes();
    let comma = find_byte(b, 0, ',' as u8);
    let point = find_byte(b, 0, '.' as u8);
    let separator = if comma <= point {
        comma
    } else {
        point
    };
    let behind = if separator < b.len() {
        separator + 1
    } else {
        b.len()
    };
    let ghost whole = whole_part(b@);
    let ghost fraction = fraction_part(b@);
    proof {
        assert(fraction =~= b@.subrange(behind as int, b@.len() as int));
        assert(Seq::<u8>::empty() + whole =~= whole);
        if all_digits(whole) && all_digits(fraction) {
            assert((whole + fraction).subrange(0, whole.len() as int) =~= whole);
            lemma_digits_value_prefix(whole + fraction, whole.len() as int);
        }
    }
    let found = match read_digits(0, Ghost(Seq::empty()), b, 0, separator) {
        Some(w) => match read_digits(w, Ghost(whole), b, behind, b.len()) {
            Some(digits) => if separator + (b.len() - behind) > 0 {
                Some(Amount { digits, decimals: b.len() - behind })
            } else {
                None
            },
            None => None,
        },
        None => None,
    };
    match found {
        Some(a) => Ok(a),
        None => Err(DecodeError::new(ErrorKind::InvalidAmount, Field::Amount, amount)),
    }
}

/// A business identifier code: the party's prefix, its country and the
/// party's suffix.
#[derive(Debug, PartialEq, Eq, Clone, Copy)]
pub struct BusinessIdentifierCode<'a> {
    pub business_party_prefix: &'a str,
    pub country_code: &'a str,
    pub business_party_suffix: &'a str,
}

/// The model of a `BusinessIdentifierCode`.
pub struct BusinessIdentifierCodeView {
    pub business_party_prefix: Seq<u8>,
    pub country_code: Seq<u8>,
    pub business_party_suffix: Seq<u8>,
}

impl<'a> View for BusinessIdentifierCode<'a> {
    type V = BusinessIdentifierCodeView;

    open spec fn view(&self) -> BusinessIdentifierCodeView {
        BusinessIdentifierCodeView {
            business_party_prefix: self.business_party_prefix.spec_bytes(),
            country_code: self.country_code.spec_bytes(),
            business_party_suffix: self.business_party_suffix.spec_bytes(),
        }
    }
}

impl<'a> BusinessIdentifierCode<'a> {
    /// What decoding a code yields: four bytes of prefix, two of country,
    /// which must be a listed one, and the rest as suffix.
    pub open spec fn decode(bytes: Seq<u8>) -> Result<BusinessIdentifierCodeView, Failure> {
        if !sliceable(bytes, 0, 4) || !sliceable(bytes, 4, 6) {
            Err(failure(ErrorKind::TruncatedField, Field::BusinessIdentifierCode, bytes))
        } else {
            match listed_country(bytes.subrange(4, 6)) {
                None => Err(
                    failure(ErrorKind::InvalidEnumValue, Field::CountryCode, bytes.subrange(4, 6)),
                ),
                Some(country) => Ok(
                    BusinessIdentifierCodeView {
                        business_party_prefix: bytes.subrange(0, 4),
                        country_code: country,
                        business_party_suffix: bytes.subrange(6, bytes.len() as int),
                    },
                ),
            }
        }
    }

    /// Decodes a business identifier code.
    pub fn new(input: &'a str) -> (r: Result<Self, DecodeError<'a>>)
        ensures
            outcome(r) == Self::decode(input.spec_bytes()),
    {
        let (prefix, country) = match (slice(input, 0, 4), slice(input, 4, 6)) {
            (Some(p), Some(c)) => (p, c),
            _ => {
                return Err(
                    DecodeError::new(
                        ErrorKind::TruncatedField,
                        Field::BusinessIdentifierCode,
                        input,
                    ),
                );
            },
        };
        let country_code = match country_code(country) {
            Some(listed) => listed,
            None => {
                return Err(
                    DecodeError::new(ErrorKind::InvalidEnumValue, Field::CountryCode, country),
                );
            },
        };
        Ok(
            BusinessIdentifierCode {
                business_party_prefix: prefix,
                country_code,
                business_party_suffix: cut_from(input, 6),
            },
        )
    }
}

/// A logical terminal address: a business identifier code of eight bytes,
/// the terminal's letter and the branch.
#[derive(Debug, PartialEq, Eq, Clone, Copy)]
pub struct LogicalTerminalAddress<'a> {
    pub bic_code: BusinessIdentifierCode<'a>,
    pub terminal_code: &'a str,
    pub branch_code: &'a str,
}

/// The model of a `LogicalTerminalAddress`.
pub struct LogicalTerminalAddressView {
    pub bic_code: BusinessIdentifierCodeView,
    pub terminal_code: Seq<u8>,
    pub branch_code: Seq<u8>,
}

impl<'a> View for LogicalTerminalAddress<'a> {
    type V = LogicalTerminalAddressView;

    open spec fn view(&self) -> LogicalTerminalAddressView {
        LogicalTerminalAddressView {
            bic_code: self.bic_code@,
            terminal_code: self.terminal_code.spec_bytes(),
            branch_code: self.branch_code.spec_bytes(),
        }
    }
}

impl<'a> LogicalTerminalAddress<'a> {
    /// What decoding an address yields: the code in its first eight bytes,
    /// one byte of terminal and the rest as branch.
    pub open spec fn decode(bytes: Seq<u8>) -> Result<LogicalTerminalAddressView, Failure> {
        if !sliceable(bytes, 0, 8) {
            Err(failure(ErrorKind::TruncatedField, Field::LogicalTerminalAddress, bytes))
        } else {
            match BusinessIdentifierCode::decode(bytes.subrange(0, 8)) {
                Err(e) => Err(e),
                Ok(bic_code) => if !sliceable(bytes, 8, 9) {
                    Err(failure(ErrorKind::TruncatedField, Field::TerminalCode, bytes))
                } else {
                    Ok(
                        LogicalTerminalAddressView {
                            bic_code,
                            terminal_code: bytes.subrange(8, 9),
                            branch_code: bytes.subrange(9, bytes.len() as int),
                        },
                    )
                },
            }
        }
    }

    /// Decodes a logical terminal address.
    pub fn new(input: &'a str) -> (r: Result<Self, DecodeError<'a>>)
        ensures
            outcome(r) == Self::decode(input.spec_bytes()),
    {
        let code = match slice(input, 0, 8) {
            Some(c) => c,
            None => {
                return Err(
                    DecodeError::new(
                        ErrorKind::TruncatedField,
                        Field::LogicalTerminalAddress,
                        input,
                    ),
                );
            },
        };
        let bic_code = match BusinessIdentifierCode::new(code) {
            Ok(b) => b,
            Err(e) => {
                return Err(e);
            },
        };
        let terminal_code = match slice(input, 8, 9) {
            Some(t) => t,
            None => {
                return Err(DecodeError::new(ErrorKind::TruncatedField, Field::TerminalCode, input));
            },
        };
        Ok(LogicalTerminalAddress { bic_code, terminal_code, branch_code: cut_from(input, 9) })
    }
}

/// A balance: its direction, the day it holds for, its currency and the
/// amount.
#[derive(Debug, PartialEq, Eq, Clone, Copy)]
pub struct Balance {
    pub credit_or_debit: CreditDebit,
    pub date: Date,
    pub currency: &'static str,
    pub amount: Amount,
}

/// The model of a `Balance`.
pub struct BalanceView {
    pub credit_or_debit: CreditDebit,
    pub date: Date,
    pub currency: Seq<u8>,
    pub amount: Amount,
}

impl View for Balance {
    type V = BalanceView;

    open spec fn view(&self) -> BalanceView {
        BalanceView {
            credit_or_debit: self.credit_or_debit,
            date: self.date,
            currency: self.currency.spec_bytes(),
            amount: self.amount,
        }
    }
}

impl Balance {
    /// What decoding a balance yields. The parts are read from left to
    /// right, and the first that fails decides the failure: one byte of
    /// marker, six of date, three of currency, and the amount in the rest.
    pub open spec fn decode(bytes: Seq<u8>) -> Result<BalanceView, Failure> {
        if !sliceable(bytes, 0, 1) {
            Err(failure(ErrorKind::TruncatedField, Field::CreditDebit, bytes))
        } else {
            match CreditDebit::parse(bytes.subrange(0, 1)) {
                None => Err(
                    failure(
                        ErrorKind::InvalidCreditDebitMarker,
                        Field::CreditDebit,
                        bytes.subrange(0, 1),
                    ),
                ),
                Some(credit_or_debit) => if !sliceable(bytes, 1, 7) {
                    Err(failure(ErrorKind::TruncatedField, Field::Date, bytes))
                } else {
                    match decode_date(bytes.subrange(1, 7), 0) {
                        Err(e) => Err(e),
                        Ok(date) => if !sliceable(bytes, 7, 10) {
                            Err(failure(ErrorKind::TruncatedField, Field::Currency, bytes))
                        } else {
                            match listed_currency(bytes.subrange(7, 10)) {
                                None => Err(
                                    failure(
                                        ErrorKind::UnknownCurrency,
                                        Field::Currency,
                                        bytes.subrange(7, 10),
                                    ),
                                ),
                                Some(currency) => match decode_amount(
                                    bytes.subrange(10, bytes.len() as int),
                                ) {
                                    Err(e) => Err(e),
                                    Ok(amount) => Ok(
                                        BalanceView { credit_or_debit, date, currency, amount },
                                    ),
                                },
                            }
                        },
                    }
                },
            }
        }
    }

    /// Decodes a balance.
    pub fn new<'a>(input: &'a str) -> (r: Result<Balance, DecodeError<'a>>)
        ensures
            outcome(r) == Self::decode(input.spec_bytes()),
            r matches Ok(b) ==> b.date.is_valid(),
    {
        let marker = match slice(input, 0, 1) {
            Some(m) => m,
            None => {
                return Err(DecodeError::new(ErrorKind::TruncatedField, Field::CreditDebit, input));
            },
        };
        let credit_or_debit = match CreditDebit::try_from(marker) {
            Ok(c) => c,
            Err(e) => {
                return Err(e);
            },
        };
        let date = match slice(input, 1, 7) {
            Some(d) => d,
            None => {
                return Err(DecodeError::new(ErrorKind::TruncatedField, Field::Date, input));
            },
        };
        let date = match swift_date_in_year(date, 0) {
            Ok(d) => d,
            Err(e) => {
                return Err(e);
            },
        };
        let code = match slice(input, 7, 10) {
            Some(c) => c,
            None => {
                return Err(DecodeError::new(ErrorKind::TruncatedField, Field::Currency, input));
            },
        };
        let currency = match currency_code(code) {
            Some(c) => c,
            None => {
                return Err(DecodeError::new(ErrorKind::UnknownCurrency, Field::Currency, code));
            },
        };
        let amount = match float_from_swift_amount(cut_from(input, 10)) {
            Ok(a) => a,
            Err(e) => {
                return Err(e);
            },
        };
        Ok(Balance { credit_or_debit, date, currency, amount })
    }
}

/// A message input reference: the day the message went in, the terminal
/// that sent it, and its session and sequence numbers.
#[derive(Debug, PartialEq, Eq, Clone, Copy)]
pub struct MessageInputReference<'a> {
    pub date: Date,
    pub lt_identifier: &'a str,
    pub branch_code: &'a str,
    pub session_number: i16,
    pub sequence_number: i16,
}

/// The model of a `MessageInputReference`.
pub struct MessageInputReferenceView {
    pub date: Date,
    pub lt_identifier: Seq<u8>,
    pub branch_code: Seq<u8>,
    pub session_number: i16,
    pub sequence_number: i16,
}

impl<'a> View for MessageInputReference<'a> {
    type V = MessageInputReferenceView;

    open spec fn view(&self) -> MessageInputReferenceView {
        MessageInputReferenceView {
            date: self.date,
            lt_identifier: self.lt_identifier.spec_bytes(),
            branch_code: self.branch_code.spec_bytes(),
            session_number: self.session_number,
            sequence_number: self.sequence_number,
        }
    }
}

/// What reading a counter of a header yields: the number that the digits
/// write, or `InvalidValue` with the digits where they are no number of at
/// most `max`.
pub open spec fn decode_counter(bytes: Seq<u8>, max: nat, field: Field) -> Result<nat, Failure> {
    match number(bytes, max) {
        Some(n) => Ok(n),
        None => Err(failure(ErrorKind::InvalidValue, field, bytes)),
    }
}

/// Reads a counter of a header: one or more digits that write a number of
/// at most `max`.
pub fn read_counter<'a>(token: &'a str, max: u64, field: Field) -> (r: Result<
    u64,
    DecodeError<'a>,
>)
    ensures
        match decode_counter(token.spec_bytes(), max as nat, field) {
            Ok(n) => r == Ok::<u64, DecodeError<'a>>(n as u64),
            Err(e) => r is Err && r->Err_0@ == e,
        },
        r matches Ok(n) ==> n <= max,
{
    let b = token.as_bytes();
    assert(b@.subrange(0, b@.len() as int) =~= b@);
    match read_number(b, 0, b.len(), max) {
        Some(n) => Ok(n),
        None => Err(DecodeError::new(ErrorKind::InvalidValue, field, token)),
    }
}

impl<'a> MessageInputReference<'a> {
    /// What decoding a reference yields. The parts are read from left to
    /// right, and the first that fails decides the failure: six bytes of
    /// date, twelve of terminal, three of branch, four of session number,
    /// and the sequence number in the rest.
    pub open spec fn decode(bytes: Seq<u8>) -> Result<MessageInputReferenceView, Failure> {
        if !sliceable(bytes, 0, 6) {
            Err(failure(ErrorKind::TruncatedField, Field::Date, bytes))
        } else {
            match decode_date(bytes.subrange(0, 6), 0) {
                Err(e) => Err(e),
                Ok(date) => if !sliceable(bytes, 6, 18) || !sliceable(bytes, 18, 21) {
                    Err(failure(ErrorKind::TruncatedField, Field::MessageInputReference, bytes))
                } else if !sliceable(bytes, 21, 25) {
                    Err(failure(ErrorKind::TruncatedField, Field::SessionNumber, bytes))
                } else {
                    match decode_counter(
                        bytes.subrange(21, 25),
                        i16::MAX as nat,
                        Field::SessionNumber,
                    ) {
                        Err(e) => Err(e),
                        Ok(session) => match decode_counter(
                            bytes.subrange(25, bytes.len() as int),
                            i16::MAX as nat,
                            Field::SequenceNumber,
                        ) {
                            Err(e) => Err(e),
                            Ok(sequence) => Ok(
                                MessageInputReferenceView {
                                    date,
                                    lt_identifier: bytes.subrange(6, 18),
                                    branch_code: bytes.subrange(18, 21),
                                    session_number: session as i16,
                                    sequence_number: sequence as i16,
                                },
                            ),
                        },
                    }
                },
            }
        }
    }

    /// Decodes a message input reference.
    pub fn new(input: &'a str) -> (r: Result<Self, DecodeError<'a>>)
        ensures
            outcome(r) == Self::decode(input.spec_bytes()),
            r matches Ok(m) ==> m.date.is_valid(),
    {
        let date = match slice(input, 0, 6) {
            Some(d) => d,
            None => {
                return Err(DecodeError::new(ErrorKind::TruncatedField, Field::Date, input));
            },
        };
        let date = match swift_date_in_year(date, 0) {
            Ok(d) => d,
            Err(e) => {
                return Err(e);
            },
        };
        let (lt_identifier, branch_code) = match (slice(input, 6, 18), slice(input, 18, 21)) {
            (Some(l), Some(b)) => (l, b),
            _ => {
                return Err(
                    DecodeError::new(
                        ErrorKind::TruncatedField,
                        Field::MessageInputReference,
                        input,
                    ),
                );
            },
        };
        let session = match slice(input, 21, 25) {
            Some(s) => s,
            None => {
                return Err(
                    DecodeError::new(ErrorKind::TruncatedField, Field::SessionNumber, input),
                );
            },
        };
        let session_number = match read_counter(session, i16::MAX as u64, Field::SessionNumber) {
            Ok(n) => n as i16,
            Err(e) => {
                return Err(e);
            },
        };
        let sequence_number = match read_counter(
            cut_from(input, 25),
            i16::MAX as u64,
            Field::SequenceNumber,
        ) {
            Ok(n) => n as i16,
            Err(e) => {
                return Err(e);
            },
        };
        Ok(
            MessageInputReference {
                date,
                lt_identifier,
                branch_code,
                session_number,
                sequence_number,
            },
        )
    }
}

/// The address information of a payment: when it was credited and debited,
/// the country and the bank's posting reference.
#[derive(Debug, PartialEq, Eq, Clone, Copy)]
pub struct AddressInformation<'a> {
    pub time_of_crediting: Time,
    pub time_of_debiting: Time,
    pub country_code: &'a str,
    pub internal_posting_reference: &'a str,
}

/// The model of an `AddressInformation`.
pub struct AddressInformationView {
    pub time_of_crediting: Time,
    pub time_of_debiting: Time,
    pub country_code: Seq<u8>,
    pub internal_posting_reference: Seq<u8>,
}

impl<'a> View for AddressInformation<'a> {
    type V = AddressInformationView;

    open spec fn view(&self) -> AddressInformationView {
        AddressInformationView {
            time_of_crediting: self.time_of_crediting,
            time_of_debiting: self.time_of_debiting,
            country_code: self.country_code.spec_bytes(),
            internal_posting_reference: self.internal_posting_reference.spec_bytes(),
        }
    }
}

/// The byte that separates the parts of an address information.
pub open spec fn space() -> u8 {
    ' ' as u8
}

impl<'a> AddressInformation<'a> {
    /// The failure for a part that the text lacks.
    pub open spec fn missing(bytes: Seq<u8>) -> Failure {
        failure(ErrorKind::MissingField, Field::AddressInformation, bytes)
    }

    /// What decoding an address information yields. White space is taken
    /// off both ends and the rest is divided at single spaces. The first
    /// four parts are read in turn, and the first that is missing or fails
    /// decides the failure: two times of day, a listed country, and the
    /// reference. Further parts are left unread.
    pub open spec fn decode(bytes: Seq<u8>) -> Result<AddressInformationView, Failure> {
        let text = trimmed(bytes, ByteClass::Whitespace);
        match decode_time(segment(text, space(), 0)) {
            Err(e) => Err(e),
            Ok(time_of_crediting) => if !has_segment(text, space(), 1) {
                Err(Self::missing(bytes))
            } else {
                match decode_time(segment(text, space(), 1)) {
                    Err(e) => Err(e),
                    Ok(time_of_debiting) => if !has_segment(text, space(), 2) {
                        Err(Self::missing(bytes))
                    } else {
                        match listed_country(segment(text, space(), 2)) {
                            None => Err(
                                failure(
                                    ErrorKind::InvalidEnumValue,
                                    Field::CountryCode,
                                    segment(text, space(), 2),
                                ),
                            ),
                            Some(country) => if !has_segment(text, space(), 3) {
                                Err(Self::missing(bytes))
                            } else {
                                Ok(
                                    AddressInformationView {
                                        time_of_crediting,
                                        time_of_debiting,
                                        country_code: country,
                                        internal_posting_reference: segment(text, space(), 3),
                                    },
                                )
                            },
                        }
                    },
                }
            },
        }
    }

    /// Decodes an address information.
    pub fn new(input: &'a str) -> (r: Result<Self, DecodeError<'a>>)
        ensures
            outcome(r) == Self::decode(input.spec_bytes()),
            r matches Ok(a) ==> a.time_of_crediting.is_valid() && a.time_of_debiting.is_valid(),
    {
        let text = trim(input, ByteClass::Whitespace);
        let ghost t = text.spec_bytes();
        let sep = ' ' as u8;
        proof {
            lemma_end_boundaries(text);
            reveal_with_fuel(segment_start, 4);
            lemma_segment_bounds(t, sep, 0);
            lemma_segment_bounds(t, sep, 1);
            lemma_segment_bounds(t, sep, 2);
            lemma_segment_bounds(t, sep, 3);
        }
        let (first, end) = read_segment(text, sep, 0);
        let time_of_crediting = match naive_time_from_swift_time(first) {
            Ok(t) => t,
            Err(e) => {
                return Err(e);
            },
        };
        if end >= text.as_bytes().len() {
            return Err(DecodeError::new(ErrorKind::MissingField, Field::AddressInformation, input));
        }
        let (second, end) = read_segment(text, sep, end + 1);
        let time_of_debiting = match naive_time_from_swift_time(second) {
            Ok(t) => t,
            Err(e) => {
                return Err(e);
            },
        };
        if end >= text.as_bytes().len() {
            return Err(DecodeError::new(ErrorKind::MissingField, Field::AddressInformation, input));
        }
        let (third, end) = read_segment(text, sep, end + 1);
        let country_code = match country_code(third) {
            Some(c) => c,
            None => {
                return Err(DecodeError::new(ErrorKind::InvalidEnumValue, Field::CountryCode, third));
            },
        };
        if end >= text.as_bytes().len() {
            return Err(DecodeError::new(ErrorKind::MissingField, Field::AddressInformation, input));
        }
        let (internal_posting_reference, _) = read_segment(text, sep, end + 1);
        Ok(
            AddressInformation {
                time_of_crediting,
                time_of_debiting,
                country_code,
                internal_posting_reference,
            },
        )
    }
}

} // verus!
