//! The tags of the user header and of the statement body, one decoder each.
use vstd::prelude::*;
use vstd::string::*;
use vstd::utf8::*;
use crate::calendar::{decode_date, swift_date_in_year, Date};
use crate::codes::{
    BalanceType, CreditDebit, FundsCode, SanctionScreenType, TransactionType, ValidationFlag,
};
use crate::cursor::Cursor;
use crate::error::{
    failure, optional_bytes, outcome, outcome_plain, DecodeError, ErrorKind, Failure, Field,
};
use crate::text::{
    all_digits, cut, cut_from, digits_only, has_prefix, has_segment, lemma_ascii_boundaries,
    lemma_end_boundaries, lemma_last_segment, lemma_segment_bounds, number,
    read_number, read_segment, segment, segment_start, skip_class, slice,
    sliceable, starts_with_at, strip_lead, without_lead, ByteClass,
};
use crate::utils::{decode_amount, float_from_swift_amount, Amount, Balance, BalanceView};

verus! {

/// Tag 20: the reference that the sender gave the statement.
#[derive(Debug, PartialEq, Eq, Clone, Copy)]
pub struct TransactionReferenceNumber<'a> {
    pub transaction_reference_number: &'a str,
}

impl<'a> View for TransactionReferenceNumber<'a> {
    type V = Seq<u8>;

    open spec fn view(&self) -> Seq<u8> {
        self.transaction_reference_number.spec_bytes()
    }
}

impl<'a> TransactionReferenceNumber<'a> {
    pub fn new(value: &'a str) -> (r: Self)
        ensures
            r@ == value.spec_bytes(),
    {
        Self { transaction_reference_number: value }
    }
}

/// Tag 25: the account that the statement is for.
#[derive(Debug, PartialEq, Eq, Clone, Copy)]
pub struct AccountIdentification<'a> {
    pub account_identification: &'a str,
}

impl<'a> View for AccountIdentification<'a> {
    type V = Seq<u8>;

    open spec fn view(&self) -> Seq<u8> {
        self.account_identification.spec_bytes()
    }
}

impl<'a> AccountIdentification<'a> {
    pub fn new(account_identification: &'a str) -> (r: Self)
        ensures
            r@ == account_identification.spec_bytes(),
    {
        Self { account_identification }
    }
}

/// Tag 28C: the number of the statement and of the page within it.
#[derive(Debug, PartialEq, Eq, Clone, Copy, Structural)]
pub struct StatementNumber {
    pub statement_number: u32,
    pub sequence_number: u32,
}

/// The byte that divides the parts of a statement number.
pub open spec fn slash() -> u8 {
    '/' as u8
}

impl StatementNumber {
    /// The number that a part writes, once one `0` in front of it has been
    /// taken off: one or more digits that `u32` holds.
    pub open spec fn part(bytes: Seq<u8>) -> Option<nat> {
        match without_lead(bytes, '0' as u8) {
            Some(rest) => number(rest, u32::MAX as nat),
            None => number(bytes, u32::MAX as nat),
        }
    }

    /// Whether the value has an `n`-th part that writes no number.
    pub open spec fn bad_part(bytes: Seq<u8>, n: nat) -> bool {
        has_segment(bytes, slash(), n) && Self::part(segment(bytes, slash(), n)) is None
    }

    /// What decoding a statement number yields. The value is divided at
    /// every `/`. `InvalidValue` where any part writes no number, else
    /// `MissingField` where there is no second part, else the numbers of
    /// the first two parts.
    pub open spec fn decode(bytes: Seq<u8>) -> Result<StatementNumber, Failure> {
        if exists|n: nat| #[trigger] Self::bad_part(bytes, n) {
            Err(failure(ErrorKind::InvalidValue, Field::StatementNumber, bytes))
        } else if !has_segment(bytes, slash(), 1) {
            Err(failure(ErrorKind::MissingField, Field::SequenceNumber, bytes))
        } else {
            Ok(
                StatementNumber {
                    statement_number: Self::part(segment(bytes, slash(), 0))->Some_0 as u32,
                    sequence_number: Self::part(segment(bytes, slash(), 1))->Some_0 as u32,
                },
            )
        }
    }

    /// Reads one part of a statement number.
    fn read_part(part: &str) -> (r: Option<u32>)
        ensures
            r == match Self::part(part.spec_bytes()) {
                Some(n) => Some(n as u32),
                None => None,
            },
    {
        let digits = match strip_lead(part, '0' as u8) {
            Some(rest) => rest,
            None => part,
        };
        let b = digits.as_bytes();
        assert(b@.subrange(0, b@.len() as int) =~= b@);
        match read_number(b, 0, b.len(), u32::MAX as u64) {
            Some(n) => Some(n as u32),
            None => None,
        }
    }

    /// Decodes a statement number.
    pub fn new<'a>(value: &'a str) -> (r: Result<StatementNumber, DecodeError<'a>>)
        ensures
            outcome_plain(r) == Self::decode(value.spec_bytes()),
    {
        let ghost bytes = value.spec_bytes();
        let sep = '/' as u8;
        let length = value.as_bytes().len();
        let mut start: usize = 0;
        let mut count: usize = 0;
        let mut statement_number: u32 = 0;
        let mut sequence_number: u32 = 0;
        proof {
            lemma_end_boundaries(value);
            lemma_segment_bounds(bytes, sep, 0);
        }
        loop
            invariant
                bytes == value.spec_bytes(),
                sep == slash(),
                length == bytes.len(),
                start as int == segment_start(bytes, sep, count as nat),
                start <= length,
                valid_utf8(bytes),
                is_char_boundary(bytes, start as int),
                count <= start,
                forall|n: nat| n < count ==> !Self::bad_part(bytes, n),
                count >= 1 ==> Some(statement_number as nat) == Self::part(segment(bytes, sep, 0)),
                count >= 2 ==> Some(sequence_number as nat) == Self::part(segment(bytes, sep, 1)),
            decreases length - start,
        {
            let (part, end) = read_segment(value, sep, start);
            let number = match Self::read_part(part) {
                Some(n) => n,
                None => {
                    assert(Self::bad_part(bytes, count as nat));
                    return Err(
                        DecodeError::new(ErrorKind::InvalidValue, Field::StatementNumber, value),
                    );
                },
            };
            if count == 0 {
                statement_number = number;
            } else if count == 1 {
                sequence_number = number;
            }
            if end >= length {
                proof {
                    assert forall|n: nat| !#[trigger] Self::bad_part(bytes, n) by {
                        if n > count {
                            lemma_last_segment(bytes, sep, count as nat, n);
                        }
                    }
                    if count == 0 {
                        lemma_last_segment(bytes, sep, 0, 1);
                    } else {
                        lemma_segment_bounds(bytes, sep, 1);
                        if !has_segment(bytes, sep, 1) {
                            if count > 1 {
                                lemma_last_segment(bytes, sep, 1, count as nat);
                            }
                        }
                    }
                }
                if count == 0 {
                    return Err(
                        DecodeError::new(ErrorKind::MissingField, Field::SequenceNumber, value),
                    );
                }
                return Ok(StatementNumber { statement_number, sequence_number });
            }
            proof {
                assert(segment_start(bytes, sep, (count + 1) as nat) == end + 1);
            }
            start = end + 1;
            count = count + 1;
        }
    }
}

/// Tag 60: the balance that the statement opens with.
#[derive(Debug, PartialEq, Eq, Clone, Copy)]
pub struct OpeningBalance {
    pub balance_type: BalanceType,
    pub balance_data: Balance,
}

/// The model of a balance with its phase: an `OpeningBalance` or a
/// `BookedFunds`.
pub struct PhasedBalanceView {
    pub balance_type: BalanceType,
    pub balance_data: BalanceView,
}

/// What decoding a balance of a given phase yields.
pub open spec fn decode_phased_balance(balance_type: BalanceType, bytes: Seq<u8>) -> Result<
    PhasedBalanceView,
    Failure,
> {
    match Balance::decode(bytes) {
        Ok(balance_data) => Ok(PhasedBalanceView { balance_type, balance_data }),
        Err(e) => Err(e),
    }
}

/// The phase takes no part in decoding a balance: a balance of either phase
/// is decoded exactly when the balance alone is, to that balance with the
/// phase that was given, and fails as the balance alone does.
pub proof fn lemma_phase_is_kept(balance_type: BalanceType, bytes: Seq<u8>)
    ensures
        match Balance::decode(bytes) {
            Ok(balance) => decode_phased_balance(balance_type, bytes) == Ok::<
                PhasedBalanceView,
                Failure,
            >(PhasedBalanceView { balance_type, balance_data: balance }),
            Err(e) => decode_phased_balance(balance_type, bytes) == Err::<
                PhasedBalanceView,
                Failure,
            >(e),
        },
{
}

impl View for OpeningBalance {
    type V = PhasedBalanceView;

    open spec fn view(&self) -> PhasedBalanceView {
        PhasedBalanceView { balance_type: self.balance_type, balance_data: self.balance_data@ }
    }
}

impl OpeningBalance {
    /// Decodes an opening balance of the given phase.
    pub fn new<'a>(balance_type: BalanceType, balance_data: &'a str) -> (r: Result<
        OpeningBalance,
        DecodeError<'a>,
    >)
        ensures
            outcome(r) == decode_phased_balance(balance_type, balance_data.spec_bytes()),
    {
        match Balance::new(balance_data) {
            Ok(balance_data) => Ok(OpeningBalance { balance_type, balance_data }),
            Err(e) => Err(e),
        }
    }
}

/// Tag 62: the booked funds that the statement closes with.
#[derive(Debug, PartialEq, Eq, Clone, Copy)]
pub struct BookedFunds {
    pub balance_type: BalanceType,
    pub balance_data: Balance,
}

impl View for BookedFunds {
    type V = PhasedBalanceView;

    open spec fn view(&self) -> PhasedBalanceView {
        PhasedBalanceView { balance_type: self.balance_type, balance_data: self.balance_data@ }
    }
}

impl BookedFunds {
    /// Decodes the booked funds of the given phase.
    pub fn new<'a>(balance_type: BalanceType, balance_data: &'a str) -> (r: Result<
        BookedFunds,
        DecodeError<'a>,
    >)
        ensures
            outcome(r) == decode_phased_balance(balance_type, balance_data.spec_bytes()),
    {
        match Balance::new(balance_data) {
            Ok(balance_data) => Ok(BookedFunds { balance_type, balance_data }),
            Err(e) => Err(e),
        }
    }
}

/// Tag 64: the funds that are available at the close of the statement.
#[derive(Debug, PartialEq, Eq, Clone, Copy)]
pub struct ClosingAvailableBalance {
    pub balance_data: Balance,
}

impl View for ClosingAvailableBalance {
    type V = BalanceView;

    open spec fn view(&self) -> BalanceView {
        self.balance_data@
    }
}

impl ClosingAvailableBalance {
    /// Decodes a closing available balance.
    pub fn new<'a>(value: &'a str) -> (r: Result<ClosingAvailableBalance, DecodeError<'a>>)
        ensures
            outcome(r) == Balance::decode(value.spec_bytes()),
    {
        match Balance::new(value) {
            Ok(balance_data) => Ok(ClosingAvailableBalance { balance_data }),
            Err(e) => Err(e),
        }
    }
}

/// Tag 86: free text for the account owner.
#[derive(Debug, PartialEq, Eq, Clone, Copy)]
pub struct InformationToAccountOwner<'a> {
    pub information_to_account_owner: &'a str,
}

impl<'a> View for InformationToAccountOwner<'a> {
    type V = Seq<u8>;

    open spec fn view(&self) -> Seq<u8> {
        self.information_to_account_owner.spec_bytes()
    }
}

impl<'a> InformationToAccountOwner<'a> {
    pub fn new(value: &'a str) -> (r: Self)
        ensures
            r@ == value.spec_bytes(),
    {
        Self { information_to_account_owner: value }
    }
}

/// Tag 103: the service that the message travels by; three bytes.
#[derive(Debug, PartialEq, Eq, Clone, Copy)]
pub struct ServiceIdentifier<'a> {
    pub service_identifier: &'a str,
}

impl<'a> View for ServiceIdentifier<'a> {
    type V = Seq<u8>;

    open spec fn view(&self) -> Seq<u8> {
        self.service_identifier.spec_bytes()
    }
}

impl<'a> ServiceIdentifier<'a> {
    /// Whether a value has the length of a service identifier.
    pub open spec fn fits(bytes: Seq<u8>) -> bool {
        bytes.len() == 3
    }

    pub fn new(value: &'a str) -> (r: Self)
        requires
            Self::fits(value.spec_bytes()),
        ensures
            r@ == value.spec_bytes(),
    {
        Self { service_identifier: value }
    }
}

/// Tag 113: the banking priority; four bytes.
#[derive(Debug, PartialEq, Eq, Clone, Copy)]
pub struct BankingPriority<'a> {
    pub banking_priority: &'a str,
}

impl<'a> View for BankingPriority<'a> {
    type V = Seq<u8>;

    open spec fn view(&self) -> Seq<u8> {
        self.banking_priority.spec_bytes()
    }
}

impl<'a> BankingPriority<'a> {
    /// Whether a value has the length of a banking priority.
    pub open spec fn fits(bytes: Seq<u8>) -> bool {
        bytes.len() == 4
    }

    pub fn new(value: &'a str) -> (r: Self)
        requires
            Self::fits(value.spec_bytes()),
        ensures
            r@ == value.spec_bytes(),
    {
        Self { banking_priority: value }
    }
}

/// Tag 108: the sender's own reference for the message; at most 16 bytes.
#[derive(Debug, PartialEq, Eq, Clone, Copy)]
pub struct MessageUserReference<'a> {
    pub message_user_reference: &'a str,
}

impl<'a> View for MessageUserReference<'a> {
    type V = Seq<u8>;

    open spec fn view(&self) -> Seq<u8> {
        self.message_user_reference.spec_bytes()
    }
}

impl<'a> MessageUserReference<'a> {
    /// Whether a value has the length of a message user reference.
    pub open spec fn fits(bytes: Seq<u8>) -> bool {
        bytes.len() <= 16
    }

    pub fn new(value: &'a str) -> (r: Self)
        requires
            Self::fits(value.spec_bytes()),
        ensures
            r@ == value.spec_bytes(),
    {
        Self { message_user_reference: value }
    }
}

/// Tag 119: the validation asked of the network.
#[derive(Debug, PartialEq, Eq, Clone, Copy, Structural)]
pub struct Validation {
    pub validation_flag: ValidationFlag,
}

impl Validation {
    /// What decoding a validation yields.
    pub open spec fn decode(bytes: Seq<u8>) -> Result<Validation, Failure> {
        match ValidationFlag::parse(bytes) {
            Some(validation_flag) => Ok(Validation { validation_flag }),
            None => Err(failure(ErrorKind::InvalidEnumValue, Field::ValidationFlag, bytes)),
        }
    }

    /// Decodes a validation.
    pub fn new<'a>(value: &'a str) -> (r: Result<Validation, DecodeError<'a>>)
        ensures
            outcome_plain(r) == Self::decode(value.spec_bytes()),
    {
        match ValidationFlag::try_from(value) {
            Ok(validation_flag) => Ok(Validation { validation_flag }),
            Err(e) => Err(e),
        }
    }
}

/// Tag 424: the reference of a related message; at most 16 bytes.
#[derive(Debug, PartialEq, Eq, Clone, Copy)]
pub struct RelatedReference<'a> {
    pub related_reference: &'a str,
}

impl<'a> View for RelatedReference<'a> {
    type V = Seq<u8>;

    open spec fn view(&self) -> Seq<u8> {
        self.related_reference.spec_bytes()
    }
}

impl<'a> RelatedReference<'a> {
    /// Whether a value has the length of a related reference.
    pub open spec fn fits(bytes: Seq<u8>) -> bool {
        bytes.len() <= 16
    }

    pub fn new(value: &'a str) -> (r: Self)
        requires
            Self::fits(value.spec_bytes()),
        ensures
            r@ == value.spec_bytes(),
    {
        Self { related_reference: value }
    }
}

/// Tag 111: the type of service agreed between the parties; three bytes.
#[derive(Debug, PartialEq, Eq, Clone, Copy)]
pub struct ServiceTypeIdentifier<'a> {
    pub service_type_identifier: &'a str,
}

impl<'a> View for ServiceTypeIdentifier<'a> {
    type V = Seq<u8>;

    open spec fn view(&self) -> Seq<u8> {
        self.service_type_identifier.spec_bytes()
    }
}

impl<'a> ServiceTypeIdentifier<'a> {
    /// Whether a value has the length of a service type identifier.
    pub open spec fn fits(bytes: Seq<u8>) -> bool {
        bytes.len() == 3
    }

    pub fn new(value: &'a str) -> (r: Self)
        requires
            Self::fits(value.spec_bytes()),
        ensures
            r@ == value.spec_bytes(),
    {
        Self { service_type_identifier: value }
    }
}

/// Tag 165: information for the receiver on the release of a payment; at
/// most 34 bytes.
#[derive(Debug, PartialEq, Eq, Clone, Copy)]
pub struct PaymentReleaseInformationReceiver<'a> {
    pub payment_release_information_receiver: &'a str,
}

impl<'a> View for PaymentReleaseInformationReceiver<'a> {
    type V = Seq<u8>;

    open spec fn view(&self) -> Seq<u8> {
        self.payment_release_information_receiver.spec_bytes()
    }
}

impl<'a> PaymentReleaseInformationReceiver<'a> {
    /// Whether a value has the length of such an information.
    pub open spec fn fits(bytes: Seq<u8>) -> bool {
        bytes.len() <= 34
    }

    pub fn new(value: &'a str) -> (r: Self)
        requires
            Self::fits(value.spec_bytes()),
        ensures
            r@ == value.spec_bytes(),
    {
        Self { payment_release_information_receiver: value }
    }
}

/// What follows the code word of a screening or controls value: the text
/// behind a backslash at offset 4, or nothing where no backslash stands
/// there.
pub open spec fn additional_information(bytes: Seq<u8>) -> Seq<u8> {
    match without_lead(bytes.subrange(4, bytes.len() as int), '\\' as u8) {
        Some(rest) => rest,
        None => Seq::empty(),
    }
}

/// Reads what follows the code word of a screening or controls value.
fn read_additional_information<'a>(value: &'a str) -> (r: &'a str)
    requires
        sliceable(value.spec_bytes(), 1, 4),
    ensures
        r.spec_bytes() == additional_information(value.spec_bytes()),
{
    match strip_lead(cut_from(value, 4), '\\' as u8) {
        Some(rest) => rest,
        None => {
            proof {
                reveal_strlit("");
                assert("".spec_bytes() =~= Seq::<u8>::empty()) by {
                    assert(""@ =~= Seq::<char>::empty());
                    reveal_with_fuel(encode_utf8, 1);
                }
            }
            ""
        },
    }
}

/// Tag 433: the verdict of a sanctions screening, with what the screener
/// added to it.
#[derive(Debug, PartialEq, Eq, Clone, Copy)]
pub struct SanctionsScreeningInformation<'a> {
    pub codeword: SanctionScreenType,
    pub additional_information: &'a str,
}

/// The model of a `SanctionsScreeningInformation`.
pub struct SanctionsScreeningInformationView {
    pub codeword: SanctionScreenType,
    pub additional_information: Seq<u8>,
}

impl<'a> View for SanctionsScreeningInformation<'a> {
    type V = SanctionsScreeningInformationView;

    open spec fn view(&self) -> SanctionsScreeningInformationView {
        SanctionsScreeningInformationView {
            codeword: self.codeword,
            additional_information: self.additional_information.spec_bytes(),
        }
    }
}

impl<'a> SanctionsScreeningInformation<'a> {
    /// What decoding a screening information yields: the verdict in the
    /// bytes 1 to 3, behind the delimiter that opens the value, and the
    /// additional information.
    pub open spec fn decode(bytes: Seq<u8>) -> Result<SanctionsScreeningInformationView, Failure> {
        if !sliceable(bytes, 1, 4) {
            Err(failure(ErrorKind::TruncatedField, Field::SanctionsScreeningInformation, bytes))
        } else {
            match SanctionScreenType::parse(bytes.subrange(1, 4)) {
                None => Err(
                    failure(
                        ErrorKind::InvalidEnumValue,
                        Field::SanctionsScreeningInformation,
                        bytes.subrange(1, 4),
                    ),
                ),
                Some(codeword) => Ok(
                    SanctionsScreeningInformationView {
                        codeword,
                        additional_information: additional_information(bytes),
                    },
                ),
            }
        }
    }

    /// Decodes a screening information.
    pub fn new(value: &'a str) -> (r: Result<Self, DecodeError<'a>>)
        ensures
            outcome(r) == Self::decode(value.spec_bytes()),
    {
        let codeword = match slice(value, 1, 4) {
            Some(c) => c,
            None => {
                return Err(
                    DecodeError::new(
                        ErrorKind::TruncatedField,
                        Field::SanctionsScreeningInformation,
                        value,
                    ),
                );
            },
        };
        let additional_information = read_additional_information(value);
        match SanctionScreenType::try_from(codeword) {
            Ok(codeword) => Ok(SanctionsScreeningInformation { codeword, additional_information }),
            Err(e) => Err(e),
        }
    }
}

/// Tag 434: the code word of a payment control, with what the controller
/// added to it.
#[derive(Debug, PartialEq, Eq, Clone, Copy)]
pub struct PaymentControlsInformation<'a> {
    pub codeword: &'a str,
    pub additional_information: &'a str,
}

/// The model of a `PaymentControlsInformation`.
pub struct PaymentControlsInformationView {
    pub codeword: Seq<u8>,
    pub additional_information: Seq<u8>,
}

impl<'a> View for PaymentControlsInformation<'a> {
    type V = PaymentControlsInformationView;

    open spec fn view(&self) -> PaymentControlsInformationView {
        PaymentControlsInformationView {
            codeword: self.codeword.spec_bytes(),
            additional_information: self.additional_information.spec_bytes(),
        }
    }
}

impl<'a> PaymentControlsInformation<'a> {
    /// Whether a value is long enough to hold a code word.
    pub open spec fn fits(bytes: Seq<u8>) -> bool {
        sliceable(bytes, 1, 4)
    }

    /// What a controls information holds: the code word in the bytes 1 to
    /// 3, and the additional information.
    pub open spec fn decode(bytes: Seq<u8>) -> PaymentControlsInformationView {
        PaymentControlsInformationView {
            codeword: bytes.subrange(1, 4),
            additional_information: additional_information(bytes),
        }
    }

    /// Decodes a controls information.
    pub fn new(value: &'a str) -> (r: Self)
        requires
            Self::fits(value.spec_bytes()),
        ensures
            r@ == Self::decode(value.spec_bytes()),
    {
        PaymentControlsInformation {
            codeword: cut(value, 1, 4),
            additional_information: read_additional_information(value),
        }
    }
}

/// Tag 61: one line of the statement.
#[derive(Debug, PartialEq, Eq, Clone, Copy)]
pub struct StatementLine<'a> {
    pub value_date: Date,
    pub entry_date: Date,
    pub debit_or_credit: CreditDebit,
    pub amount: Amount,
    pub funds_code: FundsCode,
    pub transaction_type: Option<TransactionType>,
    pub account_owner_reference: &'a str,
    pub account_servicing_institution_reference: Option<&'a str>,
    pub supplementary_details: Option<&'a str>,
}

/// The model of a `StatementLine`.
pub struct StatementLineView {
    pub value_date: Date,
    pub entry_date: Date,
    pub debit_or_credit: CreditDebit,
    pub amount: Amount,
    pub funds_code: FundsCode,
    pub transaction_type: Option<TransactionType>,
    pub account_owner_reference: Seq<u8>,
    pub account_servicing_institution_reference: Option<Seq<u8>>,
    pub supplementary_details: Option<Seq<u8>>,
}

impl<'a> View for StatementLine<'a> {
    type V = StatementLineView;

    open spec fn view(&self) -> StatementLineView {
        StatementLineView {
            value_date: self.value_date,
            entry_date: self.entry_date,
            debit_or_credit: self.debit_or_credit,
            amount: self.amount,
            funds_code: self.funds_code,
            transaction_type: self.transaction_type,
            account_owner_reference: self.account_owner_reference.spec_bytes(),
            account_servicing_institution_reference: optional_bytes(
                self.account_servicing_institution_reference,
            ),
            supplementary_details: optional_bytes(self.supplementary_details),
        }
    }
}

/// The parts of a statement line up to the account owner's reference.
pub struct StatementLineHead {
    pub value_date: Date,
    pub entry_date: Date,
    pub debit_or_credit: CreditDebit,
    pub amount: Amount,
    pub funds_code: FundsCode,
    pub transaction_type: Option<TransactionType>,
    pub account_owner_reference: Seq<u8>,
}

/// The word that stands for "no reference" of the account servicing
/// institution.
pub open spec fn nonref() -> Seq<u8> {
    "NONREF".spec_bytes()
}

/// `nonref()` is six ASCII bytes.
pub proof fn lemma_nonref()
    ensures
        nonref().len() == 6,
        forall|i: int| 0 <= i < 6 ==> crate::text::is_ascii_byte(#[trigger] nonref()[i]),
{
    reveal_strlit("NONREF");
    assert(is_ascii("NONREF"));
    is_ascii_spec_bytes("NONREF");
}

/// The longest account owner's reference, in bytes.
pub open spec fn owner_reference_limit() -> int {
    16
}

/// What a step of the statement line's decoder has done, given what it
/// should do: on success it returned the value and moved the cursor behind
/// what it read; on failure it returned the failure.
pub open spec fn stepped<'a, T>(
    r: Result<T, DecodeError<'a>>,
    before: Cursor<'a>,
    after: Cursor<'a>,
    expected: Result<(T, int), Failure>,
) -> bool {
    match expected {
        Ok((value, next)) => r == Ok::<T, DecodeError<'a>>(value) && before.moved_to(after, next)
            && after.wf(),
        Err(e) => r is Err && r->Err_0@ == e,
    }
}

impl<'a> StatementLine<'a> {
    /// The dates. Six bytes are the value date, `YYMMDD`. Four bytes are
    /// then looked at: where all are digits they are consumed as the entry
    /// date, `MMDD` in the year of the value date; else nothing is consumed
    /// and the entry date is the value date.
    pub open spec fn read_dates(bytes: Seq<u8>) -> Result<((Date, Date), int), Failure> {
        if !sliceable(bytes, 0, 6) {
            Err(failure(ErrorKind::TruncatedField, Field::ValueDate, bytes))
        } else {
            match decode_date(bytes.subrange(0, 6), 0) {
                Err(e) => Err(e),
                Ok(value_date) => if !sliceable(bytes, 6, 10) {
                    Err(failure(ErrorKind::TruncatedField, Field::EntryDate, bytes))
                } else if all_digits(bytes.subrange(6, 10)) {
                    match decode_date(bytes.subrange(6, 10), value_date.year as int) {
                        Err(e) => Err(e),
                        Ok(entry_date) => Ok(((value_date, entry_date), 10)),
                    }
                } else {
                    Ok(((value_date, value_date), 6))
                },
            }
        }
    }

    /// The credit/debit marker at `at`. Two bytes are looked at: where they
    /// name a reversal they are consumed. Else one byte is consumed, which
    /// must name a credit or a debit.
    pub open spec fn read_marker(bytes: Seq<u8>, at: int) -> Result<(CreditDebit, int), Failure> {
        if !sliceable(bytes, at, at + 2) {
            Err(failure(ErrorKind::TruncatedField, Field::CreditDebit, bytes))
        } else {
            match CreditDebit::parse(bytes.subrange(at, at + 2)) {
                Some(marker) => Ok((marker, at + 2)),
                None => if !sliceable(bytes, at, at + 1) {
                    Err(failure(ErrorKind::TruncatedField, Field::CreditDebit, bytes))
                } else {
                    match CreditDebit::parse(bytes.subrange(at, at + 1)) {
                        Some(marker) => Ok((marker, at + 1)),
                        None => Err(
                            failure(
                                ErrorKind::InvalidCreditDebitMarker,
                                Field::CreditDebit,
                                bytes.subrange(at, at + 1),
                            ),
                        ),
                    }
                },
            }
        }
    }

    /// The amount at `at`: all digits and commas up to the first byte that
    /// is neither are consumed, and must write an amount.
    pub open spec fn read_amount(bytes: Seq<u8>, at: int) -> Result<(Amount, int), Failure> {
        let end = skip_class(bytes, at, ByteClass::DigitOrComma);
        match decode_amount(bytes.subrange(at, end)) {
            Ok(amount) => Ok((amount, end)),
            Err(e) => Err(e),
        }
    }

    /// The funds code at `at`: one byte.
    pub open spec fn read_funds_code(bytes: Seq<u8>, at: int) -> Result<(FundsCode, int), Failure> {
        if !sliceable(bytes, at, at + 1) {
            Err(failure(ErrorKind::TruncatedField, Field::FundsCode, bytes))
        } else {
            match FundsCode::parse(bytes.subrange(at, at + 1)) {
                Some(code) => Ok((code, at + 1)),
                None => Err(
                    failure(
                        ErrorKind::InvalidFundsCode,
                        Field::FundsCode,
                        bytes.subrange(at, at + 1),
                    ),
                ),
            }
        }
    }

    /// The transaction type at `at`. Behind the funds code of a SWIFT
    /// transfer there is none and nothing is consumed; behind the others
    /// three bytes are consumed, which must be a known code.
    pub open spec fn read_transaction_type(bytes: Seq<u8>, at: int, funds_code: FundsCode) -> Result<
        (Option<TransactionType>, int),
        Failure,
    > {
        if funds_code == FundsCode::SwiftTransfer {
            Ok((None, at))
        } else if !sliceable(bytes, at, at + 3) {
            Err(failure(ErrorKind::TruncatedField, Field::TransactionType, bytes))
        } else {
            match TransactionType::parse(bytes.subrange(at, at + 3)) {
                Some(code) => Ok((Some(code), at + 3)),
                None => Err(
                    failure(
                        ErrorKind::InvalidEnumValue,
                        Field::TransactionType,
                        bytes.subrange(at, at + 3),
                    ),
                ),
            }
        }
    }

    /// The account owner's reference at `at`: the next 16 bytes, or all
    /// that is left where that is no more than 16.
    pub open spec fn read_owner_reference(bytes: Seq<u8>, at: int) -> Result<
        (Seq<u8>, int),
        Failure,
    > {
        if bytes.len() - at <= owner_reference_limit() {
            Ok((bytes.subrange(at, bytes.len() as int), bytes.len() as int))
        } else if !sliceable(bytes, at, at + owner_reference_limit()) {
            Err(failure(ErrorKind::TruncatedField, Field::AccountOwnerReference, bytes))
        } else {
            Ok((bytes.subrange(at, at + owner_reference_limit()), at + owner_reference_limit()))
        }
    }

    /// The parts up to the account owner's reference, read one after the
    /// other, and the offset behind them. The first part that fails decides
    /// the failure.
    pub open spec fn read_head(bytes: Seq<u8>) -> Result<(StatementLineHead, int), Failure> {
        match Self::read_dates(bytes) {
            Err(e) => Err(e),
            Ok(((value_date, entry_date), a)) => match Self::read_marker(bytes, a) {
                Err(e) => Err(e),
                Ok((debit_or_credit, b)) => match Self::read_amount(bytes, b) {
                    Err(e) => Err(e),
                    Ok((amount, c)) => match Self::read_funds_code(bytes, c) {
                        Err(e) => Err(e),
                        Ok((funds_code, d)) => match Self::read_transaction_type(
                            bytes,
                            d,
                            funds_code,
                        ) {
                            Err(e) => Err(e),
                            Ok((transaction_type, f)) => match Self::read_owner_reference(
                                bytes,
                                f,
                            ) {
                                Err(e) => Err(e),
                                Ok((account_owner_reference, g)) => Ok(
                                    (
                                        StatementLineHead {
                                            value_date,
                                            entry_date,
                                            debit_or_credit,
                                            amount,
                                            funds_code,
                                            transaction_type,
                                            account_owner_reference,
                                        },
                                        g,
                                    ),
                                ),
                            },
                        },
                    },
                },
            },
        }
    }

    /// The reference of the account servicing institution in what is left
    /// behind the account owner's reference: the word `NONREF` where the
    /// rest begins with it, nothing where the rest is empty, else the rest.
    pub open spec fn institution_reference(rest: Seq<u8>) -> Option<Seq<u8>> {
        if has_prefix(rest, nonref()) {
            Some(nonref())
        } else if rest.len() == 0 {
            None
        } else {
            Some(rest)
        }
    }

    /// The supplementary details in what is left behind the account owner's
    /// reference: what follows the word `NONREF`, where the rest begins with
    /// it.
    pub open spec fn details(rest: Seq<u8>) -> Option<Seq<u8>> {
        if has_prefix(rest, nonref()) {
            Some(rest.subrange(nonref().len() as int, rest.len() as int))
        } else {
            None
        }
    }

    /// What decoding a statement line yields.
    pub open spec fn decode(bytes: Seq<u8>) -> Result<StatementLineView, Failure> {
        match Self::read_head(bytes) {
            Err(e) => Err(e),
            Ok((head, at)) => {
                let rest = bytes.subrange(at, bytes.len() as int);
                Ok(
                    StatementLineView {
                        value_date: head.value_date,
                        entry_date: head.entry_date,
                        debit_or_credit: head.debit_or_credit,
                        amount: head.amount,
                        funds_code: head.funds_code,
                        transaction_type: head.transaction_type,
                        account_owner_reference: head.account_owner_reference,
                        account_servicing_institution_reference: Self::institution_reference(
                            rest,
                        ),
                        supplementary_details: Self::details(rest),
                    },
                )
            },
        }
    }

    /// A statement line has a transaction type exactly when its funds code
    /// is not that of a SWIFT transfer.
    pub proof fn lemma_funds_code_decides_transaction_type(bytes: Seq<u8>)
        ensures
            Self::decode(bytes) matches Ok(line) ==> (line.funds_code == FundsCode::SwiftTransfer
                <==> line.transaction_type is None),
    {
    }

    /// A statement line whose four bytes behind the value date are not all
    /// digits has the value date as its entry date; one where they are has
    /// the day that they write in the year of the value date.
    pub proof fn lemma_entry_date(bytes: Seq<u8>)
        ensures
            Self::decode(bytes) matches Ok(line) ==> (if all_digits(bytes.subrange(6, 10)) {
                decode_date(bytes.subrange(6, 10), line.value_date.year as int) == Ok::<
                    Date,
                    Failure,
                >(line.entry_date)
            } else {
                line.entry_date == line.value_date
            }),
    {
    }

    /// Where the head of a statement line can be read, the line can be
    /// decoded, and what is left behind the account owner's reference
    /// decides the last two parts. Where it begins with `NONREF`, the
    /// reference is that word and the supplementary details are what follows
    /// it. Where it is not empty and begins otherwise, the reference is all
    /// of it, which is not that word, and there are no supplementary
    /// details. Where it is empty, there is neither.
    pub proof fn lemma_nonref_decides_details(bytes: Seq<u8>)
        requires
            Self::read_head(bytes) is Ok,
        ensures
            Self::decode(bytes) is Ok,
            ({
                let at = Self::read_head(bytes)->Ok_0.1;
                let rest = bytes.subrange(at, bytes.len() as int);
                let line = Self::decode(bytes)->Ok_0;
                &&& has_prefix(rest, nonref()) ==> line.account_servicing_institution_reference
                    == Some(nonref()) && line.supplementary_details == Some(
                    rest.subrange(6, rest.len() as int),
                )
                &&& !has_prefix(rest, nonref()) && rest.len() > 0
                    ==> line.account_servicing_institution_reference == Some(rest)
                    && line.account_servicing_institution_reference != Some(nonref())
                    && line.supplementary_details is None
                &&& rest.len() == 0 ==> line.account_servicing_institution_reference is None
                    && line.supplementary_details is None
            }),
    {
        lemma_nonref();
        let at = Self::read_head(bytes)->Ok_0.1;
        let rest = bytes.subrange(at, bytes.len() as int);
        if !has_prefix(rest, nonref()) && rest == nonref() {
            assert(rest.subrange(0, 6) =~= rest);
        }
    }

    /// Reads the two dates.
    fn take_dates(cursor: &mut Cursor<'a>) -> (r: Result<(Date, Date), DecodeError<'a>>)
        requires
            old(cursor).wf(),
            old(cursor).position == 0,
        ensures
            stepped(r, *old(cursor), *final(cursor), Self::read_dates(old(cursor).bytes())),
            r matches Ok(dates) ==> dates.0.is_valid() && dates.1.is_valid(),
    {
        let source = cursor.source;
        let value_date = match cursor.take(6) {
            Some(d) => d,
            None => {
                return Err(DecodeError::new(ErrorKind::TruncatedField, Field::ValueDate, source));
            },
        };
        let value_date = match swift_date_in_year(value_date, 0) {
            Ok(d) => d,
            Err(e) => {
                return Err(e);
            },
        };
        let ahead = match cursor.peek(4) {
            Some(a) => a,
            None => {
                return Err(DecodeError::new(ErrorKind::TruncatedField, Field::EntryDate, source));
            },
        };
        let b = ahead.as_bytes();
        assert(b@.subrange(0, 4) =~= b@);
        if digits_only(b, 0, 4) {
            let entry_date = match swift_date_in_year(ahead, value_date.year) {
                Ok(d) => d,
                Err(e) => {
                    return Err(e);
                },
            };
            let _ = cursor.take(4);
            Ok((value_date, entry_date))
        } else {
            Ok((value_date, value_date))
        }
    }

    /// Reads the credit/debit marker.
    fn take_marker(cursor: &mut Cursor<'a>) -> (r: Result<CreditDebit, DecodeError<'a>>)
        requires
            old(cursor).wf(),
        ensures
            stepped(
                r,
                *old(cursor),
                *final(cursor),
                Self::read_marker(old(cursor).bytes(), old(cursor).position as int),
            ),
    {
        let source = cursor.source;
        let two = match cursor.peek(2) {
            Some(t) => t,
            None => {
                return Err(DecodeError::new(ErrorKind::TruncatedField, Field::CreditDebit, source));
            },
        };
        match CreditDebit::lookup(two.as_bytes()) {
            Some(marker) => {
                let _ = cursor.take(2);
                Ok(marker)
            },
            None => {
                let one = match cursor.take(1) {
                    Some(o) => o,
                    None => {
                        return Err(
                            DecodeError::new(ErrorKind::TruncatedField, Field::CreditDebit, source),
                        );
                    },
                };
                CreditDebit::try_from(one)
            },
        }
    }

    /// Reads the amount.
    fn take_amount(cursor: &mut Cursor<'a>) -> (r: Result<Amount, DecodeError<'a>>)
        requires
            old(cursor).wf(),
        ensures
            stepped(
                r,
                *old(cursor),
                *final(cursor),
                Self::read_amount(old(cursor).bytes(), old(cursor).position as int),
            ),
    {
        let run = cursor.take_class(ByteClass::DigitOrComma);
        float_from_swift_amount(run)
    }

    /// Reads the funds code.
    fn take_funds_code(cursor: &mut Cursor<'a>) -> (r: Result<FundsCode, DecodeError<'a>>)
        requires
            old(cursor).wf(),
        ensures
            stepped(
                r,
                *old(cursor),
                *final(cursor),
                Self::read_funds_code(old(cursor).bytes(), old(cursor).position as int),
            ),
    {
        let source = cursor.source;
        match cursor.take(1) {
            Some(code) => FundsCode::try_from(code),
            None => Err(DecodeError::new(ErrorKind::TruncatedField, Field::FundsCode, source)),
        }
    }

    /// Reads the transaction type, where the funds code asks for one.
    fn take_transaction_type(cursor: &mut Cursor<'a>, funds_code: FundsCode) -> (r: Result<
        Option<TransactionType>,
        DecodeError<'a>,
    >)
        requires
            old(cursor).wf(),
        ensures
            stepped(
                r,
                *old(cursor),
                *final(cursor),
                Self::read_transaction_type(
                    old(cursor).bytes(),
                    old(cursor).position as int,
                    funds_code,
                ),
            ),
    {
        let source = cursor.source;
        if funds_code == FundsCode::SwiftTransfer {
            return Ok(None);
        }
        match cursor.take(3) {
            Some(code) => match TransactionType::try_from(code) {
                Ok(code) => Ok(Some(code)),
                Err(e) => Err(e),
            },
            None => Err(DecodeError::new(ErrorKind::TruncatedField, Field::TransactionType, source)),
        }
    }

    /// Reads the account owner's reference.
    fn take_owner_reference(cursor: &mut Cursor<'a>) -> (r: Result<&'a str, DecodeError<'a>>)
        requires
            old(cursor).wf(),
        ensures
            match Self::read_owner_reference(old(cursor).bytes(), old(cursor).position as int) {
                Ok((reference, next)) => r is Ok && r->Ok_0.spec_bytes() == reference
                    && old(cursor).moved_to(*final(cursor), next) && final(cursor).wf(),
                Err(e) => r is Err && r->Err_0@ == e,
            },
    {
        let source = cursor.source;
        let left = cursor.remaining();
        if left <= 16 {
            proof {
                lemma_end_boundaries(source);
            }
            match cursor.take(left) {
                Some(reference) => Ok(reference),
                None => Err(
                    DecodeError::new(
                        ErrorKind::TruncatedField,
                        Field::AccountOwnerReference,
                        source,
                    ),
                ),
            }
        } else {
            match cursor.take(16) {
                Some(reference) => Ok(reference),
                None => Err(
                    DecodeError::new(
                        ErrorKind::TruncatedField,
                        Field::AccountOwnerReference,
                        source,
                    ),
                ),
            }
        }
    }

    /// Decodes a statement line.
    pub fn new(value: &'a str) -> (r: Result<Self, DecodeError<'a>>)
        ensures
            outcome(r) == Self::decode(value.spec_bytes()),
            r matches Ok(line) ==> line.value_date.is_valid() && line.entry_date.is_valid() && (
            line.funds_code == FundsCode::SwiftTransfer <==> line.transaction_type is None),
    {
        let mut cursor = Cursor::new(value);
        let (value_date, entry_date) = match Self::take_dates(&mut cursor) {
            Ok(d) => d,
            Err(e) => {
                return Err(e);
            },
        };
        let debit_or_credit = match Self::take_marker(&mut cursor) {
            Ok(m) => m,
            Err(e) => {
                return Err(e);
            },
        };
        let amount = match Self::take_amount(&mut cursor) {
            Ok(a) => a,
            Err(e) => {
                return Err(e);
            },
        };
        let funds_code = match Self::take_funds_code(&mut cursor) {
            Ok(f) => f,
            Err(e) => {
                return Err(e);
            },
        };
        let transaction_type = match Self::take_transaction_type(&mut cursor, funds_code) {
            Ok(t) => t,
            Err(e) => {
                return Err(e);
            },
        };
        let account_owner_reference = match Self::take_owner_reference(&mut cursor) {
            Ok(o) => o,
            Err(e) => {
                return Err(e);
            },
        };
        let rest = cursor.rest();
        let b = rest.as_bytes();
        assert(b@.subrange(0, b@.len() as int) =~= b@);
        let (account_servicing_institution_reference, supplementary_details) = if starts_with_at(
            b,
            0,
            "NONREF".as_bytes(),
        ) {
            proof {
                lemma_nonref();
                lemma_end_boundaries(rest);
                lemma_ascii_boundaries(b@, 5);
            }
            (Some("NONREF"), Some(cut_from(rest, 6)))
        } else if b.len() == 0 {
            (None, None)
        } else {
            (Some(rest), None)
        };
        Ok(
            StatementLine {
                value_date,
                entry_date,
                debit_or_credit,
                amount,
                funds_code,
                transaction_type,
                account_owner_reference,
                account_servicing_institution_reference,
                supplementary_details,
            },
        )
    }
}

} // verus!
