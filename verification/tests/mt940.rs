use swift_mt940::calendar::Date;
use swift_mt940::error::{DecodeError, ErrorKind, Field};
use swift_mt940::mt940::{block_start_pattern, field_of_block, MT940};
use swift_mt940::pattern::{Capture, Span};
use swift_mt940::tag::StatementNumber;
use swift_mt940::utils::{
    Amount, ApplicationId, BalanceType, CreditDebit, ServiceId, SwiftType, IO,
};

const MESSAGE: &str = "{1:F01ASNBNL21XXXX0000000000}{2:O940ASNBNL21XXXXN}{3:}{4:\r\n:20:0000000000\r\n:25:NL81ASNB9999999999\r\n:28C:3/1\r\n:60F:C200103EUR379,29\r\n:62F:C200103EUR379,29\r\n-}{5:}";

fn broken<'a>(field: Field, value: &'a str) -> DecodeError<'a> {
    DecodeError { kind: ErrorKind::StructuralError, field, value }
}

fn starts(message: &str) -> Vec<Capture> {
    let mut found = Vec::new();
    for (at, _) in message.match_indices('{') {
        let bytes = message.as_bytes();
        if at + 2 < bytes.len() && bytes[at + 1].is_ascii_digit() && bytes[at + 2] == b':' {
            let span = Some(Span { start: at, end: at + 3 });
            found.push(Capture { whole: span, first: span });
        }
    }
    found
}

#[test]
fn test_message_wrong_id() {
    let message = "{1:F01ASNBNL21XXXX0000000000}{2:O940ASNBNL21XXXXN}{3:}{4:
                         :20:0000000000
                         :25:NL81ASNB9999999999
                         :28C:3/1
                         :60F:C200103EUR379,29
                         :62F:C200103EUR379,29
                         -}{5:}{6:}";
    assert_eq!(MT940::new(message).map(|_| ()), Err(broken(Field::Message, message)));
}

#[test]
fn message_end_to_end() {
    let message = MT940::new(MESSAGE).unwrap();

    assert_eq!(message.basic.application_id, ApplicationId::F);
    assert_eq!(message.basic.service_id, ServiceId::AckNak);
    assert_eq!(message.basic.source_address.bic_code.country_code, "NL");
    assert_eq!(message.basic.session_number, 0);
    assert_eq!(message.basic.sequence_number, 0);
    assert_eq!(message.application.input_output_id, IO::Output);
    assert_eq!(message.application.message_type, SwiftType::Mt940);
    assert_eq!(message.application.priority, Some("N"));
    assert_eq!(message.user, swift_mt940::block::User::empty());
    assert_eq!(message.text.tag_20.transaction_reference_number, "0000000000");
    assert_eq!(message.text.tag_25.account_identification, "NL81ASNB9999999999");
    assert_eq!(
        message.text.tag_28c,
        StatementNumber { statement_number: 3, sequence_number: 1 }
    );
    assert!(message.text.tag_61.is_empty());
    assert!(message.text.tag_86.is_empty());
    assert_eq!(message.text.tag_64, None);
    assert_eq!(message.text.tag_60.balance_type, BalanceType::Final);
    assert_eq!(message.text.tag_62.balance_type, BalanceType::Final);
    assert_eq!(message.text.tag_60.balance_data, message.text.tag_62.balance_data);
    let balance = message.text.tag_60.balance_data;
    assert_eq!(balance.credit_or_debit, CreditDebit::Credit);
    assert_eq!(balance.date, Date { year: 2020, month: 1, day: 3 });
    assert_eq!(balance.currency, "EUR");
    assert_eq!(balance.amount, Amount { digits: 37929, decimals: 2 });
    assert_eq!(balance.amount.digits as f64 / 100.0, 379.29);
    assert_eq!(message.trailer.data, None);
}

#[test]
fn message_with_user_header_and_trailer() {
    let message = "{1:F01ASNBNL21XXXX0000000000}{2:I940ASNBNL21XXXXU3003}{3:{108:REFERENCE}{119:STP}}{4:\n:20:R\n:25:A\n:28C:1/1\n:60F:C200103EUR1,\n:61:2001030103D1,NTRFNONREF\n:86:text {1 with braces}\n:62F:C200103EUR0,\n-}{5:{CHK:123456789ABC}}";
    let decoded = MT940::new(message).unwrap();
    assert_eq!(decoded.user.tag_108.unwrap().message_user_reference, "REFERENCE");
    assert!(decoded.user.tag_119.is_some());
    assert_eq!(decoded.application.obsolescence_period, Some("003"));
    assert_eq!(decoded.text.tag_61.len(), 1);
    assert_eq!(decoded.text.tag_86[0].information_to_account_owner, "text {1 with braces}");
    assert_eq!(decoded.trailer.data, Some("{CHK:123456789ABC}"));
}

#[test]
fn message_payloads_rebuild_the_message() {
    let captures = starts(MESSAGE);
    assert_eq!(captures.len(), 5);
    let mut rebuilt = String::new();
    for index in 0..5 {
        let payload = MT940::block_payload(MESSAGE, &captures, index).unwrap();
        rebuilt.push_str(&format!("{{{}:", index + 1));
        rebuilt.push_str(payload);
        rebuilt.push_str(if index == 3 { "-}" } else { "}" });
    }
    assert_eq!(rebuilt, MESSAGE);
    assert_eq!(
        MT940::block_payload(MESSAGE, &captures, 0),
        Ok("F01ASNBNL21XXXX0000000000")
    );
    assert_eq!(MT940::block_payload(MESSAGE, &captures, 1), Ok("O940ASNBNL21XXXXN"));
    assert_eq!(MT940::block_payload(MESSAGE, &captures, 2), Ok(""));
    assert_eq!(
        MT940::block_payload(MESSAGE, &captures, 3),
        Ok("\r\n:20:0000000000\r\n:25:NL81ASNB9999999999\r\n:28C:3/1\r\n:60F:C200103EUR379,29\r\n:62F:C200103EUR379,29\r\n")
    );
    assert_eq!(MT940::block_payload(MESSAGE, &captures, 4), Ok(""));
    assert_eq!(
        MT940::block_payload(MESSAGE, &captures, 5),
        Err(broken(Field::Message, MESSAGE))
    );
    assert_eq!(MT940::from_captures(MESSAGE, &captures), MT940::new(MESSAGE));
}

#[test]
fn message_block_count() {
    assert_eq!(MT940::new("").map(|_| ()), Err(broken(Field::BasicBlock, "")));
    assert_eq!(
        MT940::new("no blocks").map(|_| ()),
        Err(broken(Field::BasicBlock, "no blocks"))
    );
    let message = "{1:F01ASNBNL21XXXX0000000000}";
    assert_eq!(MT940::new(message).map(|_| ()), Err(broken(Field::ApplicationBlock, message)));
    let message = "{1:F01ASNBNL21XXXX0000000000}{2:O940ASNBNL21XXXXN}";
    assert_eq!(MT940::new(message).map(|_| ()), Err(broken(Field::UserBlock, message)));
    let message = "{1:F01ASNBNL21XXXX0000000000}{2:O940ASNBNL21XXXXN}{3:}";
    assert_eq!(MT940::new(message).map(|_| ()), Err(broken(Field::TextBlock, message)));
    let message = &MESSAGE[..MESSAGE.len() - 4];
    assert_eq!(MT940::new(message).map(|_| ()), Err(broken(Field::TrailerBlock, message)));
}

#[test]
fn message_block_numbers_and_delimiters() {
    let message = "{2:O940ASNBNL21XXXXN}{1:F01ASNBNL21XXXX0000000000}";
    assert_eq!(
        MT940::new(message).map(|_| ()),
        Err(broken(Field::BasicBlock, "{2:O940ASNBNL21XXXXN}"))
    );
    let message = "{1:F01ASNBNL21XXXX0000000000}{3:}";
    assert_eq!(MT940::new(message).map(|_| ()), Err(broken(Field::ApplicationBlock, "{3:}")));
    let message = "{1:F01ASNBNL21XXXX0000000000} {2:O940ASNBNL21XXXXN}";
    assert_eq!(
        MT940::new(message).map(|_| ()),
        Err(broken(Field::BasicBlock, "{1:F01ASNBNL21XXXX0000000000} "))
    );
    let message = "{1:F01ASNBNL21XXXX0000000000}{2:O940ASNBNL21XXXXN}{3:}{4:\n:20:R\n}{5:}";
    assert_eq!(
        MT940::new(message).map(|_| ()),
        Err(broken(Field::TextBlock, "{4:\n:20:R\n}"))
    );
    let message = "{1:F01ASNBNL21XXXX0000000000}{2:O940ASNBNL21XXXXN}{3:}{4:}{5:}";
    assert_eq!(MT940::new(message).map(|_| ()), Err(broken(Field::TextBlock, "{4:}")));
}

#[test]
fn message_first_failure_decides() {
    let message = "{1:T01ASNBNL21XXXX0000000000}{3:}";
    assert_eq!(
        MT940::new(message).map(|_| ()),
        Err(DecodeError { kind: ErrorKind::InvalidEnumValue, field: Field::ApplicationId, value: "T" })
    );
    let message = "{1:F01ASNBNL21XXXX0000000000}{2:O941ASNBNL21XXXXN}{3:}";
    assert_eq!(
        MT940::new(message).map(|_| ()),
        Err(DecodeError { kind: ErrorKind::InvalidEnumValue, field: Field::MessageType, value: "941" })
    );
    let message = "{1:F01ASNBNL21XXXX0000000000}{2:O940ASNBNL21XXXXN}{3:{999:x}}{4:";
    assert_eq!(
        MT940::new(message).map(|_| ()),
        Err(DecodeError { kind: ErrorKind::UnknownTag, field: Field::UserTag, value: "999" })
    );
    let message = "{1:F01ASNBNL21XXXX0000000000}{2:O940ASNBNL21XXXXN}{3:}{4:\n:20:R\n-}{5:}";
    assert_eq!(
        MT940::new(message).map(|_| ()),
        Err(DecodeError {
            kind: ErrorKind::MissingField,
            field: Field::AccountIdentification,
            value: "\n:20:R\n",
        })
    );
}

#[test]
fn message_text_before_the_first_block_is_passed_over() {
    let message = format!("junk{}", MESSAGE);
    let decoded = MT940::new(&message).unwrap();
    assert_eq!(decoded.text.tag_20.transaction_reference_number, "0000000000");
}

#[test]
fn message_from_matches() {
    let captures = starts(MESSAGE);
    let mut unplaced = captures.clone();
    unplaced[1].whole = None;
    assert_eq!(
        MT940::from_captures(MESSAGE, &unplaced).map(|_| ()),
        Err(broken(Field::BasicBlock, MESSAGE))
    );
    let mut disordered = captures.clone();
    disordered.swap(1, 2);
    // The first block then runs up to the third, and the second would have
    // to end before it begins.
    assert_eq!(
        MT940::from_captures(MESSAGE, &disordered).map(|_| ()),
        Err(DecodeError {
            kind: ErrorKind::InvalidValue,
            field: Field::SequenceNumber,
            value: "000000}{2:O940ASNBNL21XXXXN",
        })
    );
    assert_eq!(
        MT940::block_payload(MESSAGE, &disordered, 1),
        Err(broken(Field::ApplicationBlock, MESSAGE))
    );
    assert_eq!(
        MT940::from_captures(MESSAGE, &[]).map(|_| ()),
        Err(broken(Field::BasicBlock, MESSAGE))
    );
    assert_eq!(block_start_pattern(), r"(?m)(\{\d:)");
    assert_eq!(field_of_block(0), Field::BasicBlock);
    assert_eq!(field_of_block(1), Field::ApplicationBlock);
    assert_eq!(field_of_block(2), Field::UserBlock);
    assert_eq!(field_of_block(3), Field::TextBlock);
    assert_eq!(field_of_block(4), Field::TrailerBlock);
}
