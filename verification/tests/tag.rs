use swift_mt940::calendar::Date;
use swift_mt940::error::{DecodeError, ErrorKind, Field};
use swift_mt940::tag::{
    AccountIdentification, BankingPriority, BookedFunds, ClosingAvailableBalance,
    InformationToAccountOwner, MessageUserReference, OpeningBalance, PaymentControlsInformation,
    PaymentReleaseInformationReceiver, RelatedReference, SanctionsScreeningInformation,
    ServiceIdentifier, ServiceTypeIdentifier, StatementLine, StatementNumber,
    TransactionReferenceNumber, Validation,
};
use swift_mt940::utils::{
    Amount, BalanceType, CreditDebit, FundsCode, SanctionScreenType, TransactionType,
    ValidationFlag,
};

fn as_float(amount: Amount) -> f64 {
    amount.digits as f64 / 10f64.powi(amount.decimals as i32)
}

fn date(year: i32, month: u32, day: u32) -> Date {
    Date { year, month, day }
}

fn failure<'a>(kind: ErrorKind, field: Field, value: &'a str) -> DecodeError<'a> {
    DecodeError { kind, field, value }
}

#[test]
fn test_transaction_reference_number() {
    assert_eq!(
        TransactionReferenceNumber::new("3996-11-11111111").transaction_reference_number,
        "3996-11-11111111"
    );
}

#[test]
fn test_account_identification() {
    assert_eq!(
        AccountIdentification::new("DABADKKK/111111-11111111").account_identification,
        "DABADKKK/111111-11111111"
    );
}

#[test]
fn test_statement_number() {
    let statement = StatementNumber::new("00001/001").unwrap();

    assert_eq!(statement.statement_number, 1);
    assert_eq!(statement.sequence_number, 1);
}

#[test]
fn statement_number_takes_one_zero_off_each_part() {
    let statement = StatementNumber::new("3/1").unwrap();
    assert_eq!(statement.statement_number, 3);
    assert_eq!(statement.sequence_number, 1);

    let statement = StatementNumber::new("0123/045").unwrap();
    assert_eq!(statement.statement_number, 123);
    assert_eq!(statement.sequence_number, 45);

    // A lone zero leaves nothing to read once the zero is taken off.
    assert_eq!(
        StatementNumber::new("0/1"),
        Err(failure(ErrorKind::InvalidValue, Field::StatementNumber, "0/1"))
    );
    assert!(StatementNumber::new("00/1").is_ok());
}

#[test]
fn statement_number_needs_two_parts_and_reads_all() {
    assert_eq!(
        StatementNumber::new("3"),
        Err(failure(ErrorKind::MissingField, Field::SequenceNumber, "3"))
    );
    assert_eq!(
        StatementNumber::new("3/x"),
        Err(failure(ErrorKind::InvalidValue, Field::StatementNumber, "3/x"))
    );
    assert_eq!(
        StatementNumber::new("3/1/x"),
        Err(failure(ErrorKind::InvalidValue, Field::StatementNumber, "3/1/x"))
    );
    assert_eq!(
        StatementNumber::new("3/1/7"),
        Ok(StatementNumber { statement_number: 3, sequence_number: 1 })
    );
    assert_eq!(
        StatementNumber::new("4294967296/1"),
        Err(failure(ErrorKind::InvalidValue, Field::StatementNumber, "4294967296/1"))
    );
    assert_eq!(
        StatementNumber::new("4294967295/1").unwrap().statement_number,
        4294967295
    );
}

#[test]
fn test_opening_balance() {
    let opening_balance = OpeningBalance::new(BalanceType::Final, "C090924EUR54484,04").unwrap();

    assert_eq!(opening_balance.balance_type, BalanceType::Final);
    assert_eq!(opening_balance.balance_data.credit_or_debit, CreditDebit::Credit);
    assert_eq!(opening_balance.balance_data.date, date(2009, 9, 24));
    assert_eq!(opening_balance.balance_data.currency, "EUR");
    assert_eq!(as_float(opening_balance.balance_data.amount), 54484.04);
}

#[test]
fn opening_balance_of_either_phase() {
    let last = OpeningBalance::new(BalanceType::Final, "C090924EUR54484,04").unwrap();
    let carried = OpeningBalance::new(BalanceType::Intermediary, "C090924EUR54484,04").unwrap();

    assert_eq!(carried.balance_type, BalanceType::Intermediary);
    assert_eq!(last.balance_data, carried.balance_data);
    assert_eq!(carried.balance_data.amount, Amount { digits: 5448404, decimals: 2 });
}

#[test]
fn test_booked_funds() {
    let booked_funds = BookedFunds::new(BalanceType::Final, "C090924EUR54484,04").unwrap();

    assert_eq!(booked_funds.balance_data.credit_or_debit, CreditDebit::Credit);
    assert_eq!(booked_funds.balance_data.date, date(2009, 9, 24));
    assert_eq!(booked_funds.balance_data.currency, "EUR");
    assert_eq!(as_float(booked_funds.balance_data.amount), 54484.04);
}

#[test]
fn test_closing_available_funds() {
    let closing_available_funds = ClosingAvailableBalance::new("C090924EUR54484,04").unwrap();

    assert_eq!(closing_available_funds.balance_data.credit_or_debit, CreditDebit::Credit);
    assert_eq!(closing_available_funds.balance_data.date, date(2009, 9, 24));
    assert_eq!(closing_available_funds.balance_data.currency, "EUR");
    assert_eq!(as_float(closing_available_funds.balance_data.amount), 54484.04);
}

#[test]
fn test_information_to_account_owner() {
    assert_eq!(
        InformationToAccountOwner::new("Fees according to advice").information_to_account_owner,
        "Fees according to advice"
    );
}

#[test]
fn test_statement_line() {
    let sl = StatementLine::new("0909290929DR55,00NMSC0000000000000269//1234").unwrap();

    assert_eq!(sl.value_date, date(2009, 9, 29));
    // The entry date lies in the year of the value date.
    assert_eq!(sl.entry_date, date(2009, 9, 29));
    assert_eq!(as_float(sl.amount), 55.0);
    assert_eq!(sl.funds_code, FundsCode::NonSwiftTransfer);
    assert_eq!(sl.transaction_type, Some(TransactionType::MSC));
    assert_eq!(sl.account_owner_reference, "0000000000000269");
    assert_eq!(sl.account_servicing_institution_reference, Some("//1234"));
    assert_eq!(sl.supplementary_details, None);
}

#[test]
fn test_statement_line_credit() {
    let sl = StatementLine::new("0909290929C55,00NMSC0000000000000269//1234").unwrap();

    assert_eq!(sl.debit_or_credit, CreditDebit::Credit);
}

#[test]
fn test_statement_line_debit() {
    let sl = StatementLine::new("0909290929D55,00NMSC0000000000000269//1234").unwrap();

    assert_eq!(sl.debit_or_credit, CreditDebit::Debit);
}

#[test]
fn test_statement_line_credit_reversal() {
    let sl = StatementLine::new("0909290929CR55,00NMSC0000000000000269//1234").unwrap();

    assert_eq!(sl.debit_or_credit, CreditDebit::CreditReversal);
}

#[test]
fn test_statement_line_debit_reversal() {
    let sl = StatementLine::new("0909290929DR55,00NMSC0000000000000269//1234").unwrap();

    assert_eq!(sl.debit_or_credit, CreditDebit::DebitReversal);
}

#[test]
fn test_statement_line_missing_credit_or_debit() {
    assert_eq!(
        StatementLine::new("090929092955,00NMSC0000000000000269//1234"),
        Err(failure(ErrorKind::InvalidCreditDebitMarker, Field::CreditDebit, "5"))
    );
}

#[test]
fn test_statement_line_missing_funds_code() {
    assert_eq!(
        StatementLine::new("0909290929DR55,00MSC0000000000000269//1234"),
        Err(failure(ErrorKind::InvalidFundsCode, Field::FundsCode, "M"))
    );
}

#[test]
fn statement_line_reversal_written_backwards() {
    let sl = StatementLine::new("0909290929RC55,00NMSC0000000000000269//1234").unwrap();
    assert_eq!(sl.debit_or_credit, CreditDebit::CreditReversal);
    assert_eq!(sl.amount, Amount { digits: 5500, decimals: 2 });

    let sl = StatementLine::new("0909290929RD55,00NMSC0000000000000269//1234").unwrap();
    assert_eq!(sl.debit_or_credit, CreditDebit::DebitReversal);
}

#[test]
fn statement_line_entry_date_override() {
    let sl = StatementLine::new("0909250925DR583,92NMSC1110030403010139//1234").unwrap();

    assert_eq!(sl.value_date, date(2009, 9, 25));
    assert_eq!(sl.entry_date, date(2009, 9, 25));
    assert_eq!(sl.debit_or_credit, CreditDebit::DebitReversal);
    assert_eq!(sl.amount, Amount { digits: 58392, decimals: 2 });
    assert_eq!(as_float(sl.amount), 583.92);
    assert_eq!(sl.account_owner_reference, "1110030403010139");
    assert_eq!(sl.account_servicing_institution_reference, Some("//1234"));
}

#[test]
fn statement_line_entry_date_differs_from_value_date() {
    let sl = StatementLine::new("0909251002D583,92NMSC1110030403010139").unwrap();

    assert_eq!(sl.value_date, date(2009, 9, 25));
    assert_eq!(sl.entry_date, date(2009, 10, 2));
}

#[test]
fn statement_line_entry_date_defaults_to_value_date() {
    let sl = StatementLine::new("090925DR583,92NMSC1110030403010139//1234").unwrap();

    assert_eq!(sl.value_date, date(2009, 9, 25));
    assert_eq!(sl.entry_date, date(2009, 9, 25));
    assert_eq!(sl.debit_or_credit, CreditDebit::DebitReversal);
    assert_eq!(sl.amount, Amount { digits: 58392, decimals: 2 });
    assert_eq!(sl.transaction_type, Some(TransactionType::MSC));
    assert_eq!(sl.account_owner_reference, "1110030403010139");
}

#[test]
fn statement_line_entry_date_must_exist() {
    // 2009 had no 29th of February.
    assert_eq!(
        StatementLine::new("0903010229D5,00S"),
        Err(failure(ErrorKind::InvalidDate, Field::Date, "0229"))
    );
    // 2008 had one.
    assert_eq!(
        StatementLine::new("0803010229D5,00S").unwrap().entry_date,
        date(2008, 2, 29)
    );
}

#[test]
fn statement_line_swift_transfer_has_no_transaction_type() {
    let sl = StatementLine::new("0909250925C1,5SREFERENCE").unwrap();

    assert_eq!(sl.funds_code, FundsCode::SwiftTransfer);
    assert_eq!(sl.transaction_type, None);
    assert_eq!(sl.amount, Amount { digits: 15, decimals: 1 });
    assert_eq!(sl.account_owner_reference, "REFERENCE");
    assert_eq!(sl.account_servicing_institution_reference, None);
    assert_eq!(sl.supplementary_details, None);
}

#[test]
fn statement_line_other_funds_codes_have_a_transaction_type() {
    let sl = StatementLine::new("0909250925C1,5NTRFREFERENCE").unwrap();
    assert_eq!(sl.funds_code, FundsCode::NonSwiftTransfer);
    assert_eq!(sl.transaction_type, Some(TransactionType::TRF));
    assert_eq!(sl.account_owner_reference, "REFERENCE");

    let sl = StatementLine::new("0909250925C1,5FCHKREFERENCE").unwrap();
    assert_eq!(sl.funds_code, FundsCode::FirstAdvice);
    assert_eq!(sl.transaction_type, Some(TransactionType::CHK));

    assert_eq!(
        StatementLine::new("0909250925C1,5NXYZREFERENCE"),
        Err(failure(ErrorKind::InvalidEnumValue, Field::TransactionType, "XYZ"))
    );
}

#[test]
fn statement_line_nonref() {
    let sl = StatementLine::new("0909250925C1,5NTRF0000000000000269NONREF//details").unwrap();
    assert_eq!(sl.account_owner_reference, "0000000000000269");
    assert_eq!(sl.account_servicing_institution_reference, Some("NONREF"));
    assert_eq!(sl.supplementary_details, Some("//details"));

    let sl = StatementLine::new("0909250925C1,5NTRF0000000000000269NONREF").unwrap();
    assert_eq!(sl.account_servicing_institution_reference, Some("NONREF"));
    assert_eq!(sl.supplementary_details, Some(""));

    let sl = StatementLine::new("0909250925C1,5NTRF0000000000000269NONRE").unwrap();
    assert_eq!(sl.account_servicing_institution_reference, Some("NONRE"));
    assert_eq!(sl.supplementary_details, None);

    let sl = StatementLine::new("0909250925C1,5NTRF0000000000000269").unwrap();
    assert_eq!(sl.account_servicing_institution_reference, None);
    assert_eq!(sl.supplementary_details, None);
}

#[test]
fn statement_line_owner_reference_is_at_most_sixteen_bytes() {
    let sl = StatementLine::new("0909250925C1,5S12345678901234567").unwrap();
    assert_eq!(sl.account_owner_reference, "1234567890123456");
    assert_eq!(sl.account_servicing_institution_reference, Some("7"));

    let sl = StatementLine::new("0909250925C1,5S1234567890123456").unwrap();
    assert_eq!(sl.account_owner_reference, "1234567890123456");
    assert_eq!(sl.account_servicing_institution_reference, None);

    let sl = StatementLine::new("0909250925C1,5S").unwrap();
    assert_eq!(sl.account_owner_reference, "");
}

#[test]
fn statement_line_amount_runs_to_the_first_other_byte() {
    let sl = StatementLine::new("0909250925C1234567890123456,78S").unwrap();
    assert_eq!(sl.amount, Amount { digits: 123456789012345678, decimals: 2 });

    assert_eq!(
        StatementLine::new("0909250925C1,2,3S"),
        Err(failure(ErrorKind::InvalidAmount, Field::Amount, "1,2,3"))
    );
    assert_eq!(
        StatementLine::new("0909250925CS"),
        Err(failure(ErrorKind::InvalidAmount, Field::Amount, ""))
    );
    assert_eq!(
        StatementLine::new("0909250925C,S"),
        Err(failure(ErrorKind::InvalidAmount, Field::Amount, ","))
    );
    assert_eq!(
        StatementLine::new("0909250925C99999999999999999999S"),
        Err(failure(ErrorKind::InvalidAmount, Field::Amount, "99999999999999999999"))
    );
}

#[test]
fn statement_line_truncated() {
    let whole = "0909";
    assert_eq!(
        StatementLine::new(whole),
        Err(failure(ErrorKind::TruncatedField, Field::ValueDate, whole))
    );
    let whole = "090925C1S";
    assert_eq!(
        StatementLine::new(whole),
        Err(failure(ErrorKind::TruncatedField, Field::EntryDate, whole))
    );
    let whole = "0909250925";
    assert_eq!(
        StatementLine::new(whole),
        Err(failure(ErrorKind::TruncatedField, Field::CreditDebit, whole))
    );
    let whole = "0909250925C1,5";
    assert_eq!(
        StatementLine::new(whole),
        Err(failure(ErrorKind::TruncatedField, Field::FundsCode, whole))
    );
    let whole = "0909250925C1,5NTR";
    assert_eq!(
        StatementLine::new(whole),
        Err(failure(ErrorKind::TruncatedField, Field::TransactionType, whole))
    );
    // A part that would end inside a character cannot be cut out.
    let whole = "09092\u{e9}";
    assert_eq!(
        StatementLine::new(whole),
        Err(failure(ErrorKind::TruncatedField, Field::ValueDate, whole))
    );
}

#[test]
fn statement_line_invalid_value_date() {
    assert_eq!(
        StatementLine::new("0913250925C1,5S"),
        Err(failure(ErrorKind::InvalidDate, Field::Date, "091325"))
    );
}

#[test]
fn user_tags_keep_their_value() {
    assert_eq!(ServiceIdentifier::new("EBA").service_identifier, "EBA");
    assert_eq!(BankingPriority::new("0001").banking_priority, "0001");
    assert_eq!(
        MessageUserReference::new("REF0140862/015").message_user_reference,
        "REF0140862/015"
    );
    assert_eq!(RelatedReference::new("RELATED").related_reference, "RELATED");
    assert_eq!(ServiceTypeIdentifier::new("001").service_type_identifier, "001");
    assert_eq!(
        PaymentReleaseInformationReceiver::new("/abc/information")
            .payment_release_information_receiver,
        "/abc/information"
    );
}

#[test]
fn validation_flags() {
    assert_eq!(Validation::new("REMIT").unwrap().validation_flag, ValidationFlag::REMIT);
    assert_eq!(Validation::new("RFDD").unwrap().validation_flag, ValidationFlag::RFDD);
    assert_eq!(Validation::new("STP").unwrap().validation_flag, ValidationFlag::STP);
    assert_eq!(
        Validation::new("stp"),
        Err(failure(ErrorKind::InvalidEnumValue, Field::ValidationFlag, "stp"))
    );
}

#[test]
fn sanctions_screening_information() {
    let information = SanctionsScreeningInformation::new("/AOK\\checked").unwrap();
    assert_eq!(information.codeword, SanctionScreenType::AOK);
    assert_eq!(information.additional_information, "checked");

    let information = SanctionsScreeningInformation::new("/FPO/other").unwrap();
    assert_eq!(information.codeword, SanctionScreenType::FPO);
    assert_eq!(information.additional_information, "");

    let information = SanctionsScreeningInformation::new("/NOK").unwrap();
    assert_eq!(information.codeword, SanctionScreenType::NOK);
    assert_eq!(information.additional_information, "");

    assert_eq!(
        SanctionsScreeningInformation::new("/XXX"),
        Err(failure(ErrorKind::InvalidEnumValue, Field::SanctionsScreeningInformation, "XXX"))
    );
    assert_eq!(
        SanctionsScreeningInformation::new("/AO"),
        Err(failure(ErrorKind::TruncatedField, Field::SanctionsScreeningInformation, "/AO"))
    );
}

#[test]
fn payment_controls_information() {
    let information = PaymentControlsInformation::new("/FPO\\checked");
    assert_eq!(information.codeword, "FPO");
    assert_eq!(information.additional_information, "checked");

    let information = PaymentControlsInformation::new("/FPO");
    assert_eq!(information.codeword, "FPO");
    assert_eq!(information.additional_information, "");
}
