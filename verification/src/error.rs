//! What a decoder reports when it gives up: the kind of failure, the field or
//! tag it concerns, and the raw text that was rejected.
use vstd::prelude::*;
use vstd::string::*;

verus! {

/// The kinds of failure.
#[derive(Debug, PartialEq, Eq, Clone, Copy, Structural)]
pub enum ErrorKind {
    /// The blocks of a message are miscounted, misnumbered or badly delimited.
    StructuralError,
    /// A mandatory tag or part is absent.
    MissingField,
    /// A tag key or sub-tag number is not one that the block knows.
    UnknownTag,
    /// A coded field holds a token outside its closed set.
    InvalidEnumValue,
    /// A credit/debit marker is none of the known ones.
    InvalidCreditDebitMarker,
    /// A funds code is none of `S`, `N`, `F`.
    InvalidFundsCode,
    /// A currency code is not in the ISO 4217 list.
    UnknownCurrency,
    /// A date or time is malformed or does not exist.
    InvalidDate,
    /// An amount is no unsigned decimal number, or is too large to hold.
    InvalidAmount,
    /// A value ends before a part of it that must be read, or a part cannot
    /// be cut out between characters.
    TruncatedField,
    /// A number, identifier or length-bound text breaks its format.
    InvalidValue,
}

/// The field, tag or block that a failure concerns.
#[derive(Debug, PartialEq, Eq, Clone, Copy, Structural)]
pub enum Field {
    Message,
    BlockPattern,
    BasicBlock,
    ApplicationBlock,
    UserBlock,
    TextBlock,
    TrailerBlock,
    ApplicationId,
    ServiceId,
    SessionNumber,
    SequenceNumber,
    InputOutputId,
    MessageType,
    Priority,
    DeliveryMonitoring,
    LogicalTerminalAddress,
    BusinessIdentifierCode,
    CountryCode,
    TerminalCode,
    UserTag,
    ServiceIdentifier,
    BankingPriority,
    MessageUserReference,
    ValidationFlag,
    MessageInputReference,
    RelatedReference,
    ServiceTypeIdentifier,
    UniqueTransactionReference,
    AddressInformation,
    PaymentReleaseInformationReceiver,
    SanctionsScreeningInformation,
    PaymentControlsInformation,
    TextTag,
    TransactionReferenceNumber,
    AccountIdentification,
    StatementNumber,
    OpeningBalance,
    StatementLine,
    BookedFunds,
    ClosingAvailableBalance,
    InformationToAccountOwner,
    CreditDebit,
    Date,
    Time,
    Currency,
    Amount,
    ValueDate,
    EntryDate,
    FundsCode,
    TransactionType,
    AccountOwnerReference,
}

/// A failure, with the rejected text borrowed from the input.
#[derive(Debug, PartialEq, Eq, Clone, Copy)]
pub struct DecodeError<'a> {
    pub kind: ErrorKind,
    pub field: Field,
    pub value: &'a str,
}

/// The model of a `DecodeError`: the rejected text as bytes.
pub struct Failure {
    pub kind: ErrorKind,
    pub field: Field,
    pub value: Seq<u8>,
}

impl<'a> View for DecodeError<'a> {
    type V = Failure;

    open spec fn view(&self) -> Failure {
        Failure { kind: self.kind, field: self.field, value: self.value.spec_bytes() }
    }
}

/// The failure of the given kind on the given field and text.
pub open spec fn failure(kind: ErrorKind, field: Field, value: Seq<u8>) -> Failure {
    Failure { kind, field, value }
}

/// The model of a decoder's result: the model of what was decoded, or of the
/// failure.
pub open spec fn outcome<T: View>(r: Result<T, DecodeError<'_>>) -> Result<T::V, Failure> {
    match r {
        Ok(t) => Ok(t@),
        Err(e) => Err(e@),
    }
}

/// The model of a decoder's result where what was decoded is its own model.
pub open spec fn outcome_plain<T>(r: Result<T, DecodeError<'_>>) -> Result<T, Failure> {
    match r {
        Ok(t) => Ok(t),
        Err(e) => Err(e@),
    }
}

/// The model of an optional text.
pub open spec fn optional_bytes(text: Option<&str>) -> Option<Seq<u8>> {
    match text {
        Some(t) => Some(t.spec_bytes()),
        None => None,
    }
}

/// The model of an optional value.
pub open spec fn optional_view<T: View>(value: Option<T>) -> Option<T::V> {
    match value {
        Some(t) => Some(t@),
        None => None,
    }
}

/// The models of a sequence of values.
pub open spec fn views<T: View>(items: Seq<T>) -> Seq<T::V> {
    items.map_values(|item: T| item@)
}

impl<'a> DecodeError<'a> {
    /// The failure of the given kind on the given field and text.
    pub fn new(kind: ErrorKind, field: Field, value: &'a str) -> (e: Self)
        ensures
            e@ == failure(kind, field, value.spec_bytes()),
    {
        DecodeError { kind, field, value }
    }
}

} // verus!
