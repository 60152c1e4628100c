use chrono::Datelike;
use swift_mt940::calendar::{swift_date_in_year, Date, DateTime, Time};
use swift_mt940::error::{DecodeError, ErrorKind, Field};
use swift_mt940::utils::{
    float_from_swift_amount, naive_date_from_swift_date, naive_date_time_from_swift_date_time,
    naive_time_from_swift_time, AddressInformation, Amount, ApplicationId, Balance,
    BusinessIdentifierCode, CreditDebit, FundsCode, LogicalTerminalAddress,
    MessageInputReference, SanctionScreenType, ServiceId, SwiftType, TransactionType,
    ValidationFlag, IO,
};

fn to_float(amount: Amount) -> f64 {
    amount.digits as f64 / 10f64.powi(amount.decimals as i32)
}

fn error<'a>(kind: ErrorKind, field: Field, value: &'a str) -> DecodeError<'a> {
    DecodeError { kind, field, value }
}

#[test]
fn test_amount_with_scale() {
    assert_eq!(to_float(float_from_swift_amount("379,29").unwrap()), 379.29);
}

#[test]
fn test_amount_without_scale() {
    assert_eq!(to_float(float_from_swift_amount("379,").unwrap()), 379.0);
}

#[test]
fn test_amount_without_comma() {
    assert_eq!(to_float(float_from_swift_amount("379.").unwrap()), 379.0);
}

#[test]
fn amount_holds_digits_and_decimals() {
    assert_eq!(float_from_swift_amount("379,29"), Ok(Amount { digits: 37929, decimals: 2 }));
    assert_eq!(float_from_swift_amount("379,"), Ok(Amount { digits: 379, decimals: 0 }));
    assert_eq!(float_from_swift_amount("379"), Ok(Amount { digits: 379, decimals: 0 }));
    assert_eq!(float_from_swift_amount(",5"), Ok(Amount { digits: 5, decimals: 1 }));
    assert_eq!(float_from_swift_amount("0,050"), Ok(Amount { digits: 50, decimals: 3 }));
    assert_eq!(float_from_swift_amount("54484,04"), Ok(Amount { digits: 5448404, decimals: 2 }));
    assert_eq!(
        float_from_swift_amount("18446744073709551615"),
        Ok(Amount { digits: 18446744073709551615, decimals: 0 })
    );
    assert_eq!(
        float_from_swift_amount("184467440737095516,15"),
        Ok(Amount { digits: 18446744073709551615, decimals: 2 })
    );
}

#[test]
fn amount_refused() {
    for text in [
        "", ",", ".", "1,2,3", "1.2,3", "-1", "+1", "1e3", "inf", "NaN", " 1", "1 ", "12a",
        "18446744073709551616", "1844674407370955161,6",
    ] {
        assert_eq!(
            float_from_swift_amount(text),
            Err(error(ErrorKind::InvalidAmount, Field::Amount, text))
        );
    }
}

#[test]
fn test_date_long_year() {
    let date = naive_date_from_swift_date("20090924").unwrap();

    assert_eq!(date.year(), 2009);
    assert_eq!(date.month(), 9);
    assert_eq!(date.day(), 24);
}

#[test]
fn test_date_short_year() {
    let date = naive_date_from_swift_date("090924").unwrap();

    assert_eq!(date.year(), 2009);
    assert_eq!(date.month(), 9);
    assert_eq!(date.day(), 24);
}

#[test]
fn test_date_no_year() {
    let before = chrono::Utc::now().year();
    let date = naive_date_from_swift_date("0924").unwrap();
    let after = chrono::Utc::now().year();

    assert!(date.year() == before || date.year() == after);
    assert_eq!(date.month(), 9);
    assert_eq!(date.day(), 24);
}

#[test]
fn date_in_a_given_year() {
    assert_eq!(swift_date_in_year("0924", 2022), Ok(Date { year: 2022, month: 9, day: 24 }));
    assert_eq!(swift_date_in_year("0229", 2024), Ok(Date { year: 2024, month: 2, day: 29 }));
    assert_eq!(
        swift_date_in_year("0229", 2023),
        Err(error(ErrorKind::InvalidDate, Field::Date, "0229"))
    );
    assert_eq!(swift_date_in_year("0229", 2000), Ok(Date { year: 2000, month: 2, day: 29 }));
    assert_eq!(
        swift_date_in_year("0229", 1900),
        Err(error(ErrorKind::InvalidDate, Field::Date, "0229"))
    );
    // The year is not looked at where the date writes its own.
    assert_eq!(swift_date_in_year("090924", 1), Ok(Date { year: 2009, month: 9, day: 24 }));
    assert_eq!(swift_date_in_year("19871231", 1), Ok(Date { year: 1987, month: 12, day: 31 }));
    // A year that chrono cannot hold.
    assert_eq!(
        swift_date_in_year("0101", 262143),
        Err(error(ErrorKind::InvalidDate, Field::Date, "0101"))
    );
    assert_eq!(swift_date_in_year("0101", 262142).unwrap().year, 262142);
    assert_eq!(swift_date_in_year("1231", -262143).unwrap().year, -262143);
    assert!(swift_date_in_year("1231", -262144).is_err());
}

#[test]
fn date_must_exist() {
    for text in [
        "090931", "090900", "091301", "090001", "090229", "20090230", "0909", "09092", "0909244",
        "200909241", "09o924", "+90924", "09 924", "",
    ] {
        assert_eq!(
            swift_date_in_year(text, 2009).map_err(|e| (e.kind, e.field, e.value)),
            if text == "0909" {
                Ok(Date { year: 2009, month: 9, day: 9 })
            } else {
                Err((ErrorKind::InvalidDate, Field::Date, text))
            }
        );
    }
    assert_eq!(swift_date_in_year("000229", 0), Ok(Date { year: 2000, month: 2, day: 29 }));
    assert_eq!(swift_date_in_year("00000229", 0), Ok(Date { year: 0, month: 2, day: 29 }));
    assert!(swift_date_in_year("01000229", 0).is_err());
}

#[test]
fn test_date_bad_data() {
    assert_eq!(
        naive_date_from_swift_date(""),
        Err(error(ErrorKind::InvalidDate, Field::Date, ""))
    );
}

#[test]
fn test_time() {
    let time = naive_time_from_swift_time("121413").unwrap();

    assert_eq!(time.hour(), 12);
    assert_eq!(time.minute(), 14);
    assert_eq!(time.second(), 13);
}

#[test]
fn time_must_exist() {
    assert_eq!(
        naive_time_from_swift_time("235959"),
        Ok(Time { hour: 23, minute: 59, second: 59, millisecond: 0 })
    );
    assert_eq!(
        naive_time_from_swift_time("00000"),
        Ok(Time { hour: 0, minute: 0, second: 0, millisecond: 0 })
    );
    for text in ["240000", "236000", "235960", "1214", "12141x", "1214130"] {
        assert_eq!(
            naive_time_from_swift_time(text),
            Err(error(ErrorKind::InvalidDate, Field::Time, text))
        );
    }
    assert_eq!(
        naive_time_from_swift_time("121"),
        Err(error(ErrorKind::TruncatedField, Field::Time, "121"))
    );
}

#[test]
fn test_datetime() {
    let datetime = naive_date_time_from_swift_date_time("18071715301204").unwrap();
    assert_eq!(datetime.date.year(), 2018);
    assert_eq!(datetime.date.month(), 7);
    assert_eq!(datetime.date.day(), 17);
    assert_eq!(datetime.time.hour(), 15);
    assert_eq!(datetime.time.minute(), 30);
    assert_eq!(datetime.time.second(), 12);
}

#[test]
fn datetime_with_milliseconds() {
    assert_eq!(
        naive_date_time_from_swift_date_time("18071715301204"),
        Ok(DateTime {
            date: Date { year: 2018, month: 7, day: 17 },
            time: Time { hour: 15, minute: 30, second: 12, millisecond: 4 },
        })
    );
    assert_eq!(
        naive_date_time_from_swift_date_time("180717153012999").unwrap().time.millisecond,
        999
    );
    // A leap second is written in second 59.
    assert_eq!(
        naive_date_time_from_swift_date_time("1807172359591999").unwrap().time.millisecond,
        1999
    );
    for text in ["1807172359592000", "1807171530121000", "180717153012", "180717153060000"] {
        assert_eq!(
            naive_date_time_from_swift_date_time(text),
            Err(error(ErrorKind::InvalidDate, Field::Time, text))
        );
    }
    assert_eq!(
        naive_date_time_from_swift_date_time("18133215301204"),
        Err(error(ErrorKind::InvalidDate, Field::Date, "18133215301204"))
    );
    assert_eq!(
        naive_date_time_from_swift_date_time("18071715301"),
        Err(error(ErrorKind::TruncatedField, Field::Time, "18071715301"))
    );
}

#[test]
fn test_business_identifier_code() {
    let bic_code = BusinessIdentifierCode::new("ASNBNL21").unwrap();

    assert_eq!(bic_code.business_party_prefix, "ASNB");
    assert_eq!(bic_code.country_code, "NL");
    assert_eq!(bic_code.business_party_suffix, "21");
}

#[test]
fn business_identifier_code_refused() {
    assert_eq!(
        BusinessIdentifierCode::new("ASNBZZ21"),
        Err(error(ErrorKind::InvalidEnumValue, Field::CountryCode, "ZZ"))
    );
    assert_eq!(
        BusinessIdentifierCode::new("ASNBnl21"),
        Err(error(ErrorKind::InvalidEnumValue, Field::CountryCode, "nl"))
    );
    assert_eq!(
        BusinessIdentifierCode::new("ASNBN"),
        Err(error(ErrorKind::TruncatedField, Field::BusinessIdentifierCode, "ASNBN"))
    );
    let longer = BusinessIdentifierCode::new("BANKDEFFXXX").unwrap();
    assert_eq!(longer.business_party_prefix, "BANK");
    assert_eq!(longer.country_code, "DE");
    assert_eq!(longer.business_party_suffix, "FFXXX");
    assert_eq!(BusinessIdentifierCode::new("BANKDE").unwrap().business_party_suffix, "");
}

#[test]
fn test_logical_terminal_address() {
    let lta = LogicalTerminalAddress::new("ASNBNL21XXXX").unwrap();

    assert_eq!(lta.bic_code, BusinessIdentifierCode::new("ASNBNL21").unwrap());
    assert_eq!(lta.terminal_code, "X");
    assert_eq!(lta.branch_code, "XXX");
}

#[test]
fn logical_terminal_address_refused() {
    assert_eq!(
        LogicalTerminalAddress::new("ASNBNL2"),
        Err(error(ErrorKind::TruncatedField, Field::LogicalTerminalAddress, "ASNBNL2"))
    );
    assert_eq!(
        LogicalTerminalAddress::new("ASNBNL21"),
        Err(error(ErrorKind::TruncatedField, Field::TerminalCode, "ASNBNL21"))
    );
    assert_eq!(
        LogicalTerminalAddress::new("ASNBQQ21XXXX"),
        Err(error(ErrorKind::InvalidEnumValue, Field::CountryCode, "QQ"))
    );
    let lta = LogicalTerminalAddress::new("ASNBNL21A").unwrap();
    assert_eq!(lta.terminal_code, "A");
    assert_eq!(lta.branch_code, "");
}

#[test]
fn test_credit_or_debit() {
    assert_eq!(CreditDebit::try_from("C").unwrap(), CreditDebit::Credit);
    assert_eq!(CreditDebit::try_from("D").unwrap(), CreditDebit::Debit);
}

#[test]
fn test_credit_or_debit_bad_data() {
    assert_eq!(
        CreditDebit::try_from("A"),
        Err(error(ErrorKind::InvalidCreditDebitMarker, Field::CreditDebit, "A"))
    );
}

#[test]
fn credit_or_debit_reversals_and_writing() {
    assert_eq!(CreditDebit::try_from("CR"), Ok(CreditDebit::CreditReversal));
    assert_eq!(CreditDebit::try_from("RC"), Ok(CreditDebit::CreditReversal));
    assert_eq!(CreditDebit::try_from("DR"), Ok(CreditDebit::DebitReversal));
    assert_eq!(CreditDebit::try_from("RD"), Ok(CreditDebit::DebitReversal));
    assert!(CreditDebit::try_from("CD").is_err());
    assert!(CreditDebit::try_from("").is_err());
    assert!(CreditDebit::try_from("CRC").is_err());
    assert_eq!(CreditDebit::lookup(b"RC"), Some(CreditDebit::CreditReversal));
    assert_eq!(CreditDebit::lookup(b"R"), None);

    assert_eq!(CreditDebit::Credit.value(), "C");
    assert_eq!(CreditDebit::Debit.value(), "D");
    assert_eq!(CreditDebit::CreditReversal.value(), "CR");
    assert_eq!(CreditDebit::DebitReversal.value(), "DR");
    for marker in [
        CreditDebit::Credit,
        CreditDebit::Debit,
        CreditDebit::CreditReversal,
        CreditDebit::DebitReversal,
    ] {
        assert_eq!(CreditDebit::try_from(marker.value().as_str()), Ok(marker));
    }
}

#[test]
fn test_currency_code() {
    assert_eq!(Balance::new("C090930EUR1,").unwrap().currency, "EUR");
    assert_eq!(
        Balance::new("C090930EUR1,").unwrap().currency,
        iso_currency::Currency::EUR.code()
    );
    assert_eq!(
        iso_currency::Currency::from_code(Balance::new("C090930USD1,").unwrap().currency),
        Some(iso_currency::Currency::USD)
    );
}

#[test]
fn test_funds_code() {
    assert_eq!(FundsCode::try_from("S").unwrap(), FundsCode::SwiftTransfer);
    assert_eq!(FundsCode::try_from("N").unwrap(), FundsCode::NonSwiftTransfer);
    assert_eq!(FundsCode::try_from("F").unwrap(), FundsCode::FirstAdvice);
}

#[test]
fn test_funds_code_bad_data() {
    assert_eq!(
        FundsCode::try_from("T"),
        Err(error(ErrorKind::InvalidFundsCode, Field::FundsCode, "T"))
    );
}

#[test]
fn closed_codes() {
    assert_eq!(SwiftType::try_from("940"), Ok(SwiftType::Mt940));
    assert_eq!(
        SwiftType::try_from("537"),
        Err(error(ErrorKind::InvalidEnumValue, Field::MessageType, "537"))
    );
    assert_eq!(IO::try_from("I"), Ok(IO::Input));
    assert_eq!(IO::try_from("O"), Ok(IO::Output));
    assert_eq!(
        IO::try_from("B"),
        Err(error(ErrorKind::InvalidEnumValue, Field::InputOutputId, "B"))
    );
    assert_eq!(ApplicationId::try_from("F"), Ok(ApplicationId::F));
    assert_eq!(ApplicationId::try_from("A"), Ok(ApplicationId::A));
    assert_eq!(ApplicationId::try_from("L"), Ok(ApplicationId::L));
    assert_eq!(
        ApplicationId::try_from("f"),
        Err(error(ErrorKind::InvalidEnumValue, Field::ApplicationId, "f"))
    );
    assert_eq!(ServiceId::try_from("21"), Ok(ServiceId::FinGpa));
    assert_eq!(ServiceId::try_from("01"), Ok(ServiceId::AckNak));
    assert_eq!(
        ServiceId::try_from("02"),
        Err(error(ErrorKind::InvalidEnumValue, Field::ServiceId, "02"))
    );
    assert_eq!(ValidationFlag::try_from("REMIT"), Ok(ValidationFlag::REMIT));
    assert_eq!(ValidationFlag::try_from("RFDD"), Ok(ValidationFlag::RFDD));
    assert_eq!(ValidationFlag::try_from("STP"), Ok(ValidationFlag::STP));
    assert!(ValidationFlag::try_from("REMI").is_err());
    assert_eq!(SanctionScreenType::try_from("AOK"), Ok(SanctionScreenType::AOK));
    assert_eq!(SanctionScreenType::try_from("FPO"), Ok(SanctionScreenType::FPO));
    assert_eq!(SanctionScreenType::try_from("NOK"), Ok(SanctionScreenType::NOK));
    assert!(SanctionScreenType::try_from("OK").is_err());
}

#[test]
fn transaction_type_table() {
    let table = [
        ("BNK", TransactionType::BNK), ("BOE", TransactionType::BOE),
        ("BRF", TransactionType::BRF), ("CAR", TransactionType::CAR),
        ("CAS", TransactionType::CAS), ("CHG", TransactionType::CHG),
        ("CHK", TransactionType::CHK), ("CLR", TransactionType::CLR),
        ("CMI", TransactionType::CMI), ("CMN", TransactionType::CMN),
        ("CMP", TransactionType::CMP), ("CMS", TransactionType::CMS),
        ("CMT", TransactionType::CMT), ("CMZ", TransactionType::CMZ),
        ("COL", TransactionType::COL), ("COM", TransactionType::COM),
        ("CPN", TransactionType::CPN), ("DCR", TransactionType::DCR),
        ("DDT", TransactionType::DDT), ("DIS", TransactionType::DIS),
        ("DIV", TransactionType::DIV), ("EQA", TransactionType::EQA),
        ("EXT", TransactionType::EXT), ("FEX", TransactionType::FEX),
        ("INT", TransactionType::INT), ("LBX", TransactionType::LBX),
        ("LDP", TransactionType::LDP), ("MAR", TransactionType::MAR),
        ("MAT", TransactionType::MAT), ("MGT", TransactionType::MGT),
        ("MSC", TransactionType::MSC), ("NWI", TransactionType::NWI),
        ("ODC", TransactionType::ODC), ("OPT", TransactionType::OPT),
        ("PCH", TransactionType::PCH), ("POP", TransactionType::POP),
        ("PRN", TransactionType::PRN), ("REC", TransactionType::REC),
        ("RED", TransactionType::RED), ("RIG", TransactionType::RIG),
        ("RTI", TransactionType::RTI), ("SAL", TransactionType::SAL),
        ("SEC", TransactionType::SEC), ("SLE", TransactionType::SLE),
        ("STO", TransactionType::STO), ("STP", TransactionType::STP),
        ("SUB", TransactionType::SUB), ("SWP", TransactionType::SWP),
        ("TAX", TransactionType::TAX), ("TCK", TransactionType::TCK),
        ("TCM", TransactionType::TCM), ("TRA", TransactionType::TRA),
        ("TRF", TransactionType::TRF), ("TRN", TransactionType::TRN),
        ("UWC", TransactionType::UWC), ("VDA", TransactionType::VDA),
        ("WAR", TransactionType::WAR),
    ];
    assert_eq!(table.len(), 57);
    for (token, code) in table {
        assert_eq!(TransactionType::try_from(token), Ok(code));
        assert_eq!(format!("{:?}", code), token);
    }
    for token in ["", "MS", "MSCX", "msc", "XXX", "M\u{e9}"] {
        assert_eq!(
            TransactionType::try_from(token),
            Err(error(ErrorKind::InvalidEnumValue, Field::TransactionType, token))
        );
    }
}

#[test]
fn test_balance() {
    let balance = Balance::new("C090930EUR53189,31").unwrap();

    assert_eq!(balance.credit_or_debit, CreditDebit::Credit);
    assert_eq!(balance.date, Date { year: 2009, month: 9, day: 30 });
    assert_eq!(balance.currency, "EUR");
    assert_eq!(to_float(balance.amount), 53189.31);
}

#[test]
fn balance_refused() {
    assert_eq!(
        Balance::new("X090930EUR53189,31"),
        Err(error(ErrorKind::InvalidCreditDebitMarker, Field::CreditDebit, "X"))
    );
    assert_eq!(
        Balance::new("C090931EUR53189,31"),
        Err(error(ErrorKind::InvalidDate, Field::Date, "090931"))
    );
    assert_eq!(
        Balance::new("C090930ZZZ53189,31"),
        Err(error(ErrorKind::UnknownCurrency, Field::Currency, "ZZZ"))
    );
    assert_eq!(
        Balance::new("C090930eur53189,31"),
        Err(error(ErrorKind::UnknownCurrency, Field::Currency, "eur"))
    );
    assert_eq!(
        Balance::new("C090930EUR53189,3x"),
        Err(error(ErrorKind::InvalidAmount, Field::Amount, "53189,3x"))
    );
    assert_eq!(
        Balance::new("C090930EUR"),
        Err(error(ErrorKind::InvalidAmount, Field::Amount, ""))
    );
    assert_eq!(
        Balance::new(""),
        Err(error(ErrorKind::TruncatedField, Field::CreditDebit, ""))
    );
    assert_eq!(
        Balance::new("C0909"),
        Err(error(ErrorKind::TruncatedField, Field::Date, "C0909"))
    );
    assert_eq!(
        Balance::new("C090930EU"),
        Err(error(ErrorKind::TruncatedField, Field::Currency, "C090930EU"))
    );
    let debit = Balance::new("D200103USD0,5").unwrap();
    assert_eq!(debit.credit_or_debit, CreditDebit::Debit);
    assert_eq!(debit.currency, "USD");
    assert_eq!(debit.amount, Amount { digits: 5, decimals: 1 });
}

#[test]
fn test_message_input_reference() {
    let mir = MessageInputReference::new("120811BANKBEBBAXXX2222123456").unwrap();
    assert_eq!(mir.date.year(), 2012);
    assert_eq!(mir.date.month(), 8);
    assert_eq!(mir.date.day(), 11);
    assert_eq!(mir.lt_identifier, "BANKBEBBAXXX");
    assert_eq!(mir.branch_code, "222");
    assert_eq!(mir.session_number, 2123);
    assert_eq!(mir.sequence_number, 456);
}

#[test]
fn message_input_reference_refused() {
    assert_eq!(
        MessageInputReference::new("120811BANKBEBBAXXX2222123456789"),
        Err(error(ErrorKind::InvalidValue, Field::SequenceNumber, "456789"))
    );
    assert_eq!(
        MessageInputReference::new("120811BANKBEBBAXXX22221x3456"),
        Err(error(ErrorKind::InvalidValue, Field::SessionNumber, "21x3"))
    );
    assert_eq!(
        MessageInputReference::new("120811BANKBEBBAXXX2222123"),
        Err(error(ErrorKind::InvalidValue, Field::SequenceNumber, ""))
    );
    assert_eq!(
        MessageInputReference::new("120811BANKBEBBAXXX222212"),
        Err(error(
            ErrorKind::TruncatedField,
            Field::SessionNumber,
            "120811BANKBEBBAXXX222212"
        ))
    );
    assert_eq!(
        MessageInputReference::new("121311BANKBEBBAXXX2222123456"),
        Err(error(ErrorKind::InvalidDate, Field::Date, "121311"))
    );
    assert_eq!(
        MessageInputReference::new("120811BANKBEBBAXXX222212332767").unwrap().sequence_number,
        32767
    );
    assert!(MessageInputReference::new("120811BANKBEBBAXXX222212332768").is_err());
}

#[test]
fn test_address_information() {
    let ai = AddressInformation::new(" 121413 121413 DE BANKDECDA123").unwrap();

    assert_eq!(ai.time_of_crediting.hour(), 12);
    assert_eq!(ai.time_of_crediting.minute(), 14);
    assert_eq!(ai.time_of_crediting.second(), 13);
    assert_eq!(ai.time_of_debiting.hour(), 12);
    assert_eq!(ai.time_of_debiting.minute(), 14);
    assert_eq!(ai.time_of_debiting.second(), 13);
    assert_eq!(ai.country_code, "DE");
    assert_eq!(ai.internal_posting_reference, "BANKDECDA123");
}

#[test]
fn address_information_parts() {
    let ai = AddressInformation::new("\t121413 235959 NL REF more \r\n").unwrap();
    assert_eq!(ai.time_of_debiting, Time { hour: 23, minute: 59, second: 59, millisecond: 0 });
    assert_eq!(ai.country_code, "NL");
    assert_eq!(ai.internal_posting_reference, "REF");

    let whole = "121413 121413 DE";
    assert_eq!(
        AddressInformation::new(whole),
        Err(error(ErrorKind::MissingField, Field::AddressInformation, whole))
    );
    let whole = "121413";
    assert_eq!(
        AddressInformation::new(whole),
        Err(error(ErrorKind::MissingField, Field::AddressInformation, whole))
    );
    assert_eq!(
        AddressInformation::new("121413 121413 XX REF"),
        Err(error(ErrorKind::InvalidEnumValue, Field::CountryCode, "XX"))
    );
    // Two spaces in a row enclose an empty part.
    assert_eq!(
        AddressInformation::new("121413  121413 DE REF"),
        Err(error(ErrorKind::TruncatedField, Field::Time, ""))
    );
    assert_eq!(
        AddressInformation::new("121413 256000 DE REF"),
        Err(error(ErrorKind::InvalidDate, Field::Time, "256000"))
    );
    assert_eq!(AddressInformation::new("121413 121413 DE ").unwrap_err().kind, ErrorKind::MissingField);
}
