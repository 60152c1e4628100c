//! The closed sets of codes that the headers and the statement body use.
//!
//! Every set is read in the same way: a token is looked up in the set's
//! table, and a token that the table lacks is an `InvalidEnumValue` failure
//! that carries the token.
use vstd::prelude::*;
use vstd::string::*;
use crate::error::{failure, outcome_plain, DecodeError, ErrorKind, Field};
use crate::text::same_bytes;

verus! {

/// The outcome of looking a token up in a closed set: the member found, or
/// the failure that names the set's field and carries the token.
pub open spec fn member_or_failure<T>(found: Option<T>, field: Field, token: Seq<u8>) -> Result<
    T,
    crate::error::Failure,
> {
    match found {
        Some(v) => Ok(v),
        None => Err(failure(ErrorKind::InvalidEnumValue, field, token)),
    }
}

/// The three bytes of a token as letters, where it has exactly three.
pub open spec fn three_letters(token: Seq<u8>) -> Option<(char, char, char)> {
    if token.len() == 3 {
        Some((token[0] as char, token[1] as char, token[2] as char))
    } else {
        None
    }
}

/// The message types that this library decodes.
#[derive(Debug, PartialEq, Eq, Clone, Copy, Structural)]
pub enum SwiftType {
    Mt940,
}

impl SwiftType {
    /// The type that a token names.
    pub open spec fn parse(token: Seq<u8>) -> Option<SwiftType> {
        match three_letters(token) {
            Some(('9', '4', '0')) => Some(SwiftType::Mt940),
            _ => None,
        }
    }

    /// Reads a message type.
    pub fn try_from<'a>(input: &'a str) -> (r: Result<SwiftType, DecodeError<'a>>)
        ensures
            outcome_plain(r) == member_or_failure(
                Self::parse(input.spec_bytes()),
                Field::MessageType,
                input.spec_bytes(),
            ),
    {
        let b = input.as_bytes();
        if b.len() == 3 {
            match (b[0] as char, b[1] as char, b[2] as char) {
                ('9', '4', '0') => { return Ok(SwiftType::Mt940); },
                _ => {},
            }
        }
        Err(DecodeError::new(ErrorKind::InvalidEnumValue, Field::MessageType, input))
    }
}

/// The transaction type identification codes of a statement line.
#[allow(clippy::upper_case_acronyms)]
#[derive(Debug, PartialEq, Eq, Clone, Copy, Structural)]
pub enum TransactionType {
    BNK,
    BOE,
    BRF,
    CAR,
    CAS,
    CHG,
    CHK,
    CLR,
    CMI,
    CMN,
    CMP,
    CMS,
    CMT,
    CMZ,
    COL,
    COM,
    CPN,
    DCR,
    DDT,
    DIS,
    DIV,
    EQA,
    EXT,
    FEX,
    INT,
    LBX,
    LDP,
    MAR,
    MAT,
    MGT,
    MSC,
    NWI,
    ODC,
    OPT,
    PCH,
    POP,
    PRN,
    REC,
    RED,
    RIG,
    RTI,
    SAL,
    SEC,
    SLE,
    STO,
    STP,
    SUB,
    SWP,
    TAX,
    TCK,
    TCM,
    TRA,
    TRF,
    TRN,
    UWC,
    VDA,
    WAR,
}

impl TransactionType {
    /// The code that three letters spell.
    pub open spec fn of_letters(a: char, b: char, c: char) -> Option<TransactionType> {
        match (a, b, c) {
            ('B', 'N', 'K') => Some(TransactionType::BNK),
            ('B', 'O', 'E') => Some(TransactionType::BOE),
            ('B', 'R', 'F') => Some(TransactionType::BRF),
            ('C', 'A', 'R') => Some(TransactionType::CAR),
            ('C', 'A', 'S') => Some(TransactionType::CAS),
            ('C', 'H', 'G') => Some(TransactionType::CHG),
            ('C', 'H', 'K') => Some(TransactionType::CHK),
            ('C', 'L', 'R') => Some(TransactionType::CLR),
            ('C', 'M', 'I') => Some(TransactionType::CMI),
            ('C', 'M', 'N') => Some(TransactionType::CMN),
            ('C', 'M', 'P') => Some(TransactionType::CMP),
            ('C', 'M', 'S') => Some(TransactionType::CMS),
            ('C', 'M', 'T') => Some(TransactionType::CMT),
            ('C', 'M', 'Z') => Some(TransactionType::CMZ),
            ('C', 'O', 'L') => Some(TransactionType::COL),
            ('C', 'O', 'M') => Some(TransactionType::COM),
            ('C', 'P', 'N') => Some(TransactionType::CPN),
            ('D', 'C', 'R') => Some(TransactionType::DCR),
            ('D', 'D', 'T') => Some(TransactionType::DDT),
            ('D', 'I', 'S') => Some(TransactionType::DIS),
            ('D', 'I', 'V') => Some(TransactionType::DIV),
            ('E', 'Q', 'A') => Some(TransactionType::EQA),
            ('E', 'X', 'T') => Some(TransactionType::EXT),
            ('F', 'E', 'X') => Some(TransactionType::FEX),
            ('I', 'N', 'T') => Some(TransactionType::INT),
            ('L', 'B', 'X') => Some(TransactionType::LBX),
            ('L', 'D', 'P') => Some(TransactionType::LDP),
            ('M', 'A', 'R') => Some(TransactionType::MAR),
            ('M', 'A', 'T') => Some(TransactionType::MAT),
            ('M', 'G', 'T') => Some(TransactionType::MGT),
            ('M', 'S', 'C') => Some(TransactionType::MSC),
            ('N', 'W', 'I') => Some(TransactionType::NWI),
            ('O', 'D', 'C') => Some(TransactionType::ODC),
            ('O', 'P', 'T') => Some(TransactionType::OPT),
            ('P', 'C', 'H') => Some(TransactionType::PCH),
            ('P', 'O', 'P') => Some(TransactionType::POP),
            ('P', 'R', 'N') => Some(TransactionType::PRN),
            ('R', 'E', 'C') => Some(TransactionType::REC),
            ('R', 'E', 'D') => Some(TransactionType::RED),
            ('R', 'I', 'G') => Some(TransactionType::RIG),
            ('R', 'T', 'I') => Some(TransactionType::RTI),
            ('S', 'A', 'L') => Some(TransactionType::SAL),
            ('S', 'E', 'C') => Some(TransactionType::SEC),
            ('S', 'L', 'E') => Some(TransactionType::SLE),
            ('S', 'T', 'O') => Some(TransactionType::STO),
            ('S', 'T', 'P') => Some(TransactionType::STP),
            ('S', 'U', 'B') => Some(TransactionType::SUB),
            ('S', 'W', 'P') => Some(TransactionType::SWP),
            ('T', 'A', 'X') => Some(TransactionType::TAX),
            ('T', 'C', 'K') => Some(TransactionType::TCK),
            ('T', 'C', 'M') => Some(TransactionType::TCM),
            ('T', 'R', 'A') => Some(TransactionType::TRA),
            ('T', 'R', 'F') => Some(TransactionType::TRF),
            ('T', 'R', 'N') => Some(TransactionType::TRN),
            ('U', 'W', 'C') => Some(TransactionType::UWC),
            ('V', 'D', 'A') => Some(TransactionType::VDA),
            ('W', 'A', 'R') => Some(TransactionType::WAR),
            _ => None,
        }
    }

    /// The three letters of a code.
    pub open spec fn letters(self) -> (char, char, char) {
        match self {
            TransactionType::BNK => ('B', 'N', 'K'),
            TransactionType::BOE => ('B', 'O', 'E'),
            TransactionType::BRF => ('B', 'R', 'F'),
            TransactionType::CAR => ('C', 'A', 'R'),
            TransactionType::CAS => ('C', 'A', 'S'),
            TransactionType::CHG => ('C', 'H', 'G'),
            TransactionType::CHK => ('C', 'H', 'K'),
            TransactionType::CLR => ('C', 'L', 'R'),
            TransactionType::CMI => ('C', 'M', 'I'),
            TransactionType::CMN => ('C', 'M', 'N'),
            TransactionType::CMP => ('C', 'M', 'P'),
            TransactionType::CMS => ('C', 'M', 'S'),
            TransactionType::CMT => ('C', 'M', 'T'),
            TransactionType::CMZ => ('C', 'M', 'Z'),
            TransactionType::COL => ('C', 'O', 'L'),
            TransactionType::COM => ('C', 'O', 'M'),
            TransactionType::CPN => ('C', 'P', 'N'),
            TransactionType::DCR => ('D', 'C', 'R'),
            TransactionType::DDT => ('D', 'D', 'T'),
            TransactionType::DIS => ('D', 'I', 'S'),
            TransactionType::DIV => ('D', 'I', 'V'),
            TransactionType::EQA => ('E', 'Q', 'A'),
            TransactionType::EXT => ('E', 'X', 'T'),
            TransactionType::FEX => ('F', 'E', 'X'),
            TransactionType::INT => ('I', 'N', 'T'),
            TransactionType::LBX => ('L', 'B', 'X'),
            TransactionType::LDP => ('L', 'D', 'P'),
            TransactionType::MAR => ('M', 'A', 'R'),
            TransactionType::MAT => ('M', 'A', 'T'),
            TransactionType::MGT => ('M', 'G', 'T'),
            TransactionType::MSC => ('M', 'S', 'C'),
            TransactionType::NWI => ('N', 'W', 'I'),
            TransactionType::ODC => ('O', 'D', 'C'),
            TransactionType::OPT => ('O', 'P', 'T'),
            TransactionType::PCH => ('P', 'C', 'H'),
            TransactionType::POP => ('P', 'O', 'P'),
            TransactionType::PRN => ('P', 'R', 'N'),
            TransactionType::REC => ('R', 'E', 'C'),
            TransactionType::RED => ('R', 'E', 'D'),
            TransactionType::RIG => ('R', 'I', 'G'),
            TransactionType::RTI => ('R', 'T', 'I'),
            TransactionType::SAL => ('S', 'A', 'L'),
            TransactionType::SEC => ('S', 'E', 'C'),
            TransactionType::SLE => ('S', 'L', 'E'),
            TransactionType::STO => ('S', 'T', 'O'),
            TransactionType::STP => ('S', 'T', 'P'),
            TransactionType::SUB => ('S', 'U', 'B'),
            TransactionType::SWP => ('S', 'W', 'P'),
            TransactionType::TAX => ('T', 'A', 'X'),
            TransactionType::TCK => ('T', 'C', 'K'),
            TransactionType::TCM => ('T', 'C', 'M'),
            TransactionType::TRA => ('T', 'R', 'A'),
            TransactionType::TRF => ('T', 'R', 'F'),
            TransactionType::TRN => ('T', 'R', 'N'),
            TransactionType::UWC => ('U', 'W', 'C'),
            TransactionType::VDA => ('V', 'D', 'A'),
            TransactionType::WAR => ('W', 'A', 'R'),
        }
    }

    /// The token that writes a code.
    pub open spec fn token(self) -> Seq<u8> {
        seq![self.letters().0 as u8, self.letters().1 as u8, self.letters().2 as u8]
    }

    /// The code that a token names.
    pub open spec fn parse(token: Seq<u8>) -> Option<TransactionType> {
        match three_letters(token) {
            Some((a, b, c)) => Self::of_letters(a, b, c),
            None => None,
        }
    }

    /// A token names a code exactly when it is the token that writes it.
    pub proof fn lemma_parse_token(token: Seq<u8>, code: TransactionType)
        ensures
            Self::parse(token) == Some(code) <==> token == code.token(),
    {
        if token == code.token() {
            assert(Self::parse(token) == Some(code));
        }
        if Self::parse(token) == Some(code) {
            assert(token =~= code.token());
        }
    }

    fn from_letters(a: char, b: char, c: char) -> (r: Option<TransactionType>)
        ensures
            r == Self::of_letters(a, b, c),
    {
        match (a, b, c) {
            ('B', 'N', 'K') => Some(TransactionType::BNK),
            ('B', 'O', 'E') => Some(TransactionType::BOE),
            ('B', 'R', 'F') => Some(TransactionType::BRF),
            ('C', 'A', 'R') => Some(TransactionType::CAR),
            ('C', 'A', 'S') => Some(TransactionType::CAS),
            ('C', 'H', 'G') => Some(TransactionType::CHG),
            ('C', 'H', 'K') => Some(TransactionType::CHK),
            ('C', 'L', 'R') => Some(TransactionType::CLR),
            ('C', 'M', 'I') => Some(TransactionType::CMI),
            ('C', 'M', 'N') => Some(TransactionType::CMN),
            ('C', 'M', 'P') => Some(TransactionType::CMP),
            ('C', 'M', 'S') => Some(TransactionType::CMS),
            ('C', 'M', 'T') => Some(TransactionType::CMT),
            ('C', 'M', 'Z') => Some(TransactionType::CMZ),
            ('C', 'O', 'L') => Some(TransactionType::COL),
            ('C', 'O', 'M') => Some(TransactionType::COM),
            ('C', 'P', 'N') => Some(TransactionType::CPN),
            ('D', 'C', 'R') => Some(TransactionType::DCR),
            ('D', 'D', 'T') => Some(TransactionType::DDT),
            ('D', 'I', 'S') => Some(TransactionType::DIS),
            ('D', 'I', 'V') => Some(TransactionType::DIV),
            ('E', 'Q', 'A') => Some(TransactionType::EQA),
            ('E', 'X', 'T') => Some(TransactionType::EXT),
            ('F', 'E', 'X') => Some(TransactionType::FEX),
            ('I', 'N', 'T') => Some(TransactionType::INT),
            ('L', 'B', 'X') => Some(TransactionType::LBX),
            ('L', 'D', 'P') => Some(TransactionType::LDP),
            ('M', 'A', 'R') => Some(TransactionType::MAR),
            ('M', 'A', 'T') => Some(TransactionType::MAT),
            ('M', 'G', 'T') => Some(TransactionType::MGT),
            ('M', 'S', 'C') => Some(TransactionType::MSC),
            ('N', 'W', 'I') => Some(TransactionType::NWI),
            ('O', 'D', 'C') => Some(TransactionType::ODC),
            ('O', 'P', 'T') => Some(TransactionType::OPT),
            ('P', 'C', 'H') => Some(TransactionType::PCH),
            ('P', 'O', 'P') => Some(TransactionType::POP),
            ('P', 'R', 'N') => Some(TransactionType::PRN),
            ('R', 'E', 'C') => Some(TransactionType::REC),
            ('R', 'E', 'D') => Some(TransactionType::RED),
            ('R', 'I', 'G') => Some(TransactionType::RIG),
            ('R', 'T', 'I') => Some(TransactionType::RTI),
            ('S', 'A', 'L') => Some(TransactionType::SAL),
            ('S', 'E', 'C') => Some(TransactionType::SEC),
            ('S', 'L', 'E') => Some(TransactionType::SLE),
            ('S', 'T', 'O') => Some(TransactionType::STO),
            ('S', 'T', 'P') => Some(TransactionType::STP),
            ('S', 'U', 'B') => Some(TransactionType::SUB),
            ('S', 'W', 'P') => Some(TransactionType::SWP),
            ('T', 'A', 'X') => Some(TransactionType::TAX),
            ('T', 'C', 'K') => Some(TransactionType::TCK),
            ('T', 'C', 'M') => Some(TransactionType::TCM),
            ('T', 'R', 'A') => Some(TransactionType::TRA),
            ('T', 'R', 'F') => Some(TransactionType::TRF),
            ('T', 'R', 'N') => Some(TransactionType::TRN),
            ('U', 'W', 'C') => Some(TransactionType::UWC),
            ('V', 'D', 'A') => Some(TransactionType::VDA),
            ('W', 'A', 'R') => Some(TransactionType::WAR),
            _ => None,
        }
    }

    /// Reads a transaction type code.
    pub fn try_from<'a>(input: &'a str) -> (r: Result<TransactionType, DecodeError<'a>>)
        ensures
            outcome_plain(r) == member_or_failure(
                Self::parse(input.spec_bytes()),
                Field::TransactionType,
                input.spec_bytes(),
            ),
    {
        let b = input.as_bytes();
        if b.len() == 3 {
            match Self::from_letters(b[0] as char, b[1] as char, b[2] as char) {
                Some(code) => { return Ok(code); },
                None => {},
            }
        }
        Err(DecodeError::new(ErrorKind::InvalidEnumValue, Field::TransactionType, input))
    }
}

/// Whether a message was sent to the network or delivered by it.
#[derive(Debug, PartialEq, Eq, Clone, Copy, Structural)]
pub enum IO {
    Input,
    Output,
}

impl IO {
    /// The direction that a token names.
    pub open spec fn parse(token: Seq<u8>) -> Option<IO> {
        if token.len() != 1 {
            None
        } else if token[0] == 'I' as u8 {
            Some(IO::Input)
        } else if token[0] == 'O' as u8 {
            Some(IO::Output)
        } else {
            None
        }
    }

    /// Reads a direction.
    pub fn try_from<'a>(input: &'a str) -> (r: Result<IO, DecodeError<'a>>)
        ensures
            outcome_plain(r) == member_or_failure(
                Self::parse(input.spec_bytes()),
                Field::InputOutputId,
                input.spec_bytes(),
            ),
    {
        let b = input.as_bytes();
        if b.len() == 1 && b[0] == 'I' as u8 {
            Ok(IO::Input)
        } else if b.len() == 1 && b[0] == 'O' as u8 {
            Ok(IO::Output)
        } else {
            Err(DecodeError::new(ErrorKind::InvalidEnumValue, Field::InputOutputId, input))
        }
    }
}

/// The application within which a message travels.
#[derive(Debug, PartialEq, Eq, Clone, Copy, Structural)]
pub enum ApplicationId {
    F,
    A,
    L,
}

impl ApplicationId {
    /// The application that a token names.
    pub open spec fn parse(token: Seq<u8>) -> Option<ApplicationId> {
        if token.len() != 1 {
            None
        } else if token[0] == 'F' as u8 {
            Some(ApplicationId::F)
        } else if token[0] == 'A' as u8 {
            Some(ApplicationId::A)
        } else if token[0] == 'L' as u8 {
            Some(ApplicationId::L)
        } else {
            None
        }
    }

    /// Reads an application id.
    pub fn try_from<'a>(input: &'a str) -> (r: Result<ApplicationId, DecodeError<'a>>)
        ensures
            outcome_plain(r) == member_or_failure(
                Self::parse(input.spec_bytes()),
                Field::ApplicationId,
                input.spec_bytes(),
            ),
    {
        let b = input.as_bytes();
        if b.len() == 1 && b[0] == 'F' as u8 {
            Ok(ApplicationId::F)
        } else if b.len() == 1 && b[0] == 'A' as u8 {
            Ok(ApplicationId::A)
        } else if b.len() == 1 && b[0] == 'L' as u8 {
            Ok(ApplicationId::L)
        } else {
            Err(DecodeError::new(ErrorKind::InvalidEnumValue, Field::ApplicationId, input))
        }
    }
}

/// The kind of data that a message carries.
#[derive(Debug, PartialEq, Eq, Clone, Copy, Structural)]
pub enum ServiceId {
    FinGpa,
    AckNak,
}

impl ServiceId {
    /// The service that a token names.
    pub open spec fn parse(token: Seq<u8>) -> Option<ServiceId> {
        if token.len() != 2 {
            None
        } else if token[0] == '2' as u8 && token[1] == '1' as u8 {
            Some(ServiceId::FinGpa)
        } else if token[0] == '0' as u8 && token[1] == '1' as u8 {
            Some(ServiceId::AckNak)
        } else {
            None
        }
    }

    /// Reads a service id.
    pub fn try_from<'a>(input: &'a str) -> (r: Result<ServiceId, DecodeError<'a>>)
        ensures
            outcome_plain(r) == member_or_failure(
                Self::parse(input.spec_bytes()),
                Field::ServiceId,
                input.spec_bytes(),
            ),
    {
        let b = input.as_bytes();
        if b.len() == 2 && b[0] == '2' as u8 && b[1] == '1' as u8 {
            Ok(ServiceId::FinGpa)
        } else if b.len() == 2 && b[0] == '0' as u8 && b[1] == '1' as u8 {
            Ok(ServiceId::AckNak)
        } else {
            Err(DecodeError::new(ErrorKind::InvalidEnumValue, Field::ServiceId, input))
        }
    }
}

/// The direction of an entry or a balance, and whether it reverses an
/// earlier one.
#[derive(Debug, PartialEq, Eq, Clone, Copy, Structural)]
pub enum CreditDebit {
    Credit,
    Debit,
    CreditReversal,
    DebitReversal,
}

impl CreditDebit {
    /// The letters that write a marker.
    pub open spec fn letters(self) -> Seq<char> {
        match self {
            CreditDebit::Credit => seq!['C'],
            CreditDebit::Debit => seq!['D'],
            CreditDebit::CreditReversal => seq!['C', 'R'],
            CreditDebit::DebitReversal => seq!['D', 'R'],
        }
    }

    /// The marker that a token names. A reversal is written with its two
    /// letters in either order.
    pub open spec fn parse(token: Seq<u8>) -> Option<CreditDebit> {
        if token.len() == 2 {
            let a = token[0] as char;
            let b = token[1] as char;
            if (a == 'C' && b == 'R') || (a == 'R' && b == 'C') {
                Some(CreditDebit::CreditReversal)
            } else if (a == 'D' && b == 'R') || (a == 'R' && b == 'D') {
                Some(CreditDebit::DebitReversal)
            } else {
                None
            }
        } else if token.len() == 1 {
            if token[0] == 'C' as u8 {
                Some(CreditDebit::Credit)
            } else if token[0] == 'D' as u8 {
                Some(CreditDebit::Debit)
            } else {
                None
            }
        } else {
            None
        }
    }

    /// The marker in its usual writing.
    pub fn value(&self) -> (r: String)
        ensures
            r@ == self.letters(),
    {
        proof {
            reveal_strlit("C");
            reveal_strlit("D");
            reveal_strlit("CR");
            reveal_strlit("DR");
        }
        let r = match self {
            CreditDebit::Credit => "C".to_owned(),
            CreditDebit::Debit => "D".to_owned(),
            CreditDebit::CreditReversal => "CR".to_owned(),
            CreditDebit::DebitReversal => "DR".to_owned(),
        };
        assert(r@ =~= self.letters());
        r
    }

    /// The marker that the bytes name, if any.
    pub fn lookup(b: &[u8]) -> (r: Option<CreditDebit>)
        ensures
            r == Self::parse(b@),
    {
        if b.len() == 2 {
            let x = b[0] as char;
            let y = b[1] as char;
            if (x == 'C' && y == 'R') || (x == 'R' && y == 'C') {
                Some(CreditDebit::CreditReversal)
            } else if (x == 'D' && y == 'R') || (x == 'R' && y == 'D') {
                Some(CreditDebit::DebitReversal)
            } else {
                None
            }
        } else if b.len() == 1 {
            if b[0] == 'C' as u8 {
                Some(CreditDebit::Credit)
            } else if b[0] == 'D' as u8 {
                Some(CreditDebit::Debit)
            } else {
                None
            }
        } else {
            None
        }
    }

    /// Reads a credit/debit marker.
    pub fn try_from<'a>(input: &'a str) -> (r: Result<CreditDebit, DecodeError<'a>>)
        ensures
            outcome_plain(r) == (match Self::parse(input.spec_bytes()) {
                Some(v) => Ok(v),
                None => Err(
                    failure(
                        ErrorKind::InvalidCreditDebitMarker,
                        Field::CreditDebit,
                        input.spec_bytes(),
                    ),
                ),
            }),
    {
        match Self::lookup(input.as_bytes()) {
            Some(v) => Ok(v),
            None => Err(
                DecodeError::new(ErrorKind::InvalidCreditDebitMarker, Field::CreditDebit, input),
            ),
        }
    }
}

/// Whether a balance is the statement's first or last, or one carried
/// between the pages of a statement.
#[derive(Debug, PartialEq, Eq, Clone, Copy, Structural)]
pub enum BalanceType {
    Final,
    Intermediary,
}

/// How the transaction behind a statement line was advised.
#[derive(Debug, PartialEq, Eq, Clone, Copy, Structural)]
pub enum FundsCode {
    SwiftTransfer,
    NonSwiftTransfer,
    FirstAdvice,
}

impl FundsCode {
    /// The funds code that a token names.
    pub open spec fn parse(token: Seq<u8>) -> Option<FundsCode> {
        if token.len() != 1 {
            None
        } else if token[0] == 'S' as u8 {
            Some(FundsCode::SwiftTransfer)
        } else if token[0] == 'N' as u8 {
            Some(FundsCode::NonSwiftTransfer)
        } else if token[0] == 'F' as u8 {
            Some(FundsCode::FirstAdvice)
        } else {
            None
        }
    }

    /// Reads a funds code.
    pub fn try_from<'a>(input: &'a str) -> (r: Result<FundsCode, DecodeError<'a>>)
        ensures
            outcome_plain(r) == (match Self::parse(input.spec_bytes()) {
                Some(v) => Ok(v),
                None => Err(
                    failure(ErrorKind::InvalidFundsCode, Field::FundsCode, input.spec_bytes()),
                ),
            }),
    {
        let b = input.as_bytes();
        if b.len() == 1 && b[0] == 'S' as u8 {
            Ok(FundsCode::SwiftTransfer)
        } else if b.len() == 1 && b[0] == 'N' as u8 {
            Ok(FundsCode::NonSwiftTransfer)
        } else if b.len() == 1 && b[0] == 'F' as u8 {
            Ok(FundsCode::FirstAdvice)
        } else {
            Err(DecodeError::new(ErrorKind::InvalidFundsCode, Field::FundsCode, input))
        }
    }
}

/// The validation that the network is asked to apply to a message.
#[allow(clippy::upper_case_acronyms)]
#[derive(Debug, PartialEq, Eq, Clone, Copy, Structural)]
pub enum ValidationFlag {
    REMIT,
    RFDD,
    STP,
}

impl ValidationFlag {
    /// The flag that a token names.
    pub open spec fn parse(token: Seq<u8>) -> Option<ValidationFlag> {
        if token == "REMIT".spec_bytes() {
            Some(ValidationFlag::REMIT)
        } else if token == "RFDD".spec_bytes() {
            Some(ValidationFlag::RFDD)
        } else if token == "STP".spec_bytes() {
            Some(ValidationFlag::STP)
        } else {
            None
        }
    }

    /// Reads a validation flag.
    pub fn try_from<'a>(input: &'a str) -> (r: Result<ValidationFlag, DecodeError<'a>>)
        ensures
            outcome_plain(r) == member_or_failure(
                Self::parse(input.spec_bytes()),
                Field::ValidationFlag,
                input.spec_bytes(),
            ),
    {
        let b = input.as_bytes();
        if same_bytes(b, "REMIT".as_bytes()) {
            Ok(ValidationFlag::REMIT)
        } else if same_bytes(b, "RFDD".as_bytes()) {
            Ok(ValidationFlag::RFDD)
        } else if same_bytes(b, "STP".as_bytes()) {
            Ok(ValidationFlag::STP)
        } else {
            Err(DecodeError::new(ErrorKind::InvalidEnumValue, Field::ValidationFlag, input))
        }
    }
}

/// The verdict of a sanctions screening.
#[allow(clippy::upper_case_acronyms)]
#[derive(Debug, PartialEq, Eq, Clone, Copy, Structural)]
pub enum SanctionScreenType {
    AOK,
    FPO,
    NOK,
}

impl SanctionScreenType {
    /// The verdict that a token names.
    pub open spec fn parse(token: Seq<u8>) -> Option<SanctionScreenType> {
        match three_letters(token) {
            Some(('A', 'O', 'K')) => Some(SanctionScreenType::AOK),
            Some(('F', 'P', 'O')) => Some(SanctionScreenType::FPO),
            Some(('N', 'O', 'K')) => Some(SanctionScreenType::NOK),
            _ => None,
        }
    }

    /// Reads a screening verdict.
    pub fn try_from<'a>(input: &'a str) -> (r: Result<SanctionScreenType, DecodeError<'a>>)
        ensures
            outcome_plain(r) == member_or_failure(
                Self::parse(input.spec_bytes()),
                Field::SanctionsScreeningInformation,
                input.spec_bytes(),
            ),
    {
        let b = input.as_bytes();
        if b.len() == 3 {
            match (b[0] as char, b[1] as char, b[2] as char) {
                ('A', 'O', 'K') => { return Ok(SanctionScreenType::AOK); },
                ('F', 'P', 'O') => { return Ok(SanctionScreenType::FPO); },
                ('N', 'O', 'K') => { return Ok(SanctionScreenType::NOK); },
                _ => {},
            }
        }
        Err(
            DecodeError::new(
                ErrorKind::InvalidEnumValue,
                Field::SanctionsScreeningInformation,
                input,
            ),
        )
    }
}

} // verus!
