//! The five blocks of a message, one decoder each.
use vstd::prelude::*;
use vstd::string::*;
use vstd::utf8::*;
pub use crate::body::Text;
use crate::codes::{ApplicationId, ServiceId, SwiftType, IO};
use crate::error::{failure, optional_bytes, outcome, DecodeError, ErrorKind, Failure, Field};
use crate::text::{cut_from, slice, sliceable};
pub use crate::user::User;
use crate::utils::{
    decode_counter, read_counter, LogicalTerminalAddress, LogicalTerminalAddressView,
};

verus! {

/// Block 1, the basic header: who sent the message, and in which session.
#[derive(Debug, PartialEq, Eq, Clone, Copy)]
pub struct Basic<'a> {
    pub application_id: ApplicationId,
    pub service_id: ServiceId,
    pub source_address: LogicalTerminalAddress<'a>,
    pub session_number: u32,
    pub sequence_number: u32,
}

/// The model of a `Basic`.
pub struct BasicView {
    pub application_id: ApplicationId,
    pub service_id: ServiceId,
    pub source_address: LogicalTerminalAddressView,
    pub session_number: u32,
    pub sequence_number: u32,
}

impl<'a> View for Basic<'a> {
    type V = BasicView;

    open spec fn view(&self) -> BasicView {
        BasicView {
            application_id: self.application_id,
            service_id: self.service_id,
            source_address: self.source_address@,
            session_number: self.session_number,
            sequence_number: self.sequence_number,
        }
    }
}

impl<'a> Basic<'a> {
    /// The two counters at the end of the header: four bytes of session
    /// number, and the sequence number in the rest.
    pub open spec fn decode_counters(bytes: Seq<u8>) -> Result<(u32, u32), Failure> {
        if !sliceable(bytes, 15, 19) {
            Err(failure(ErrorKind::TruncatedField, Field::SessionNumber, bytes))
        } else {
            match decode_counter(bytes.subrange(15, 19), u32::MAX as nat, Field::SessionNumber) {
                Err(e) => Err(e),
                Ok(session) => match decode_counter(
                    bytes.subrange(19, bytes.len() as int),
                    u32::MAX as nat,
                    Field::SequenceNumber,
                ) {
                    Err(e) => Err(e),
                    Ok(sequence) => Ok((session as u32, sequence as u32)),
                },
            }
        }
    }

    /// What decoding a basic header yields. Every part has its fixed place,
    /// the parts are read from left to right, and the first that fails
    /// decides the failure: one byte of application id, two of service id,
    /// twelve of address, and the two counters.
    pub open spec fn decode(bytes: Seq<u8>) -> Result<BasicView, Failure> {
        if !sliceable(bytes, 0, 1) {
            Err(failure(ErrorKind::TruncatedField, Field::ApplicationId, bytes))
        } else {
            match ApplicationId::parse(bytes.subrange(0, 1)) {
                None => Err(
                    failure(ErrorKind::InvalidEnumValue, Field::ApplicationId, bytes.subrange(0, 1)),
                ),
                Some(application_id) => if !sliceable(bytes, 1, 3) {
                    Err(failure(ErrorKind::TruncatedField, Field::ServiceId, bytes))
                } else {
                    match ServiceId::parse(bytes.subrange(1, 3)) {
                        None => Err(
                            failure(
                                ErrorKind::InvalidEnumValue,
                                Field::ServiceId,
                                bytes.subrange(1, 3),
                            ),
                        ),
                        Some(service_id) => if !sliceable(bytes, 3, 15) {
                            Err(
                                failure(
                                    ErrorKind::TruncatedField,
                                    Field::LogicalTerminalAddress,
                                    bytes,
                                ),
                            )
                        } else {
                            match LogicalTerminalAddress::decode(bytes.subrange(3, 15)) {
                                Err(e) => Err(e),
                                Ok(source_address) => match Self::decode_counters(bytes) {
                                    Err(e) => Err(e),
                                    Ok((session_number, sequence_number)) => Ok(
                                        BasicView {
                                            application_id,
                                            service_id,
                                            source_address,
                                            session_number,
                                            sequence_number,
                                        },
                                    ),
                                },
                            }
                        },
                    }
                },
            }
        }
    }

    /// A basic header whose first byte is a character by itself and none of
    /// `F`, `A`, `L` is refused as an invalid application id.
    pub proof fn lemma_unknown_application_id(bytes: Seq<u8>)
        requires
            sliceable(bytes, 0, 1),
            bytes[0] != 'F' as u8,
            bytes[0] != 'A' as u8,
            bytes[0] != 'L' as u8,
        ensures
            Self::decode(bytes) == Err::<BasicView, Failure>(
                failure(ErrorKind::InvalidEnumValue, Field::ApplicationId, bytes.subrange(0, 1)),
            ),
    {
    }

    /// Decodes a basic header.
    pub fn new(block_data: &'a str) -> (r: Result<Self, DecodeError<'a>>)
        ensures
            outcome(r) == Self::decode(block_data.spec_bytes()),
    {
        let token = match slice(block_data, 0, 1) {
            Some(t) => t,
            None => {
                return Err(
                    DecodeError::new(ErrorKind::TruncatedField, Field::ApplicationId, block_data),
                );
            },
        };
        let application_id = match ApplicationId::try_from(token) {
            Ok(a) => a,
            Err(e) => {
                return Err(e);
            },
        };
        let token = match slice(block_data, 1, 3) {
            Some(t) => t,
            None => {
                return Err(DecodeError::new(ErrorKind::TruncatedField, Field::ServiceId, block_data));
            },
        };
        let service_id = match ServiceId::try_from(token) {
            Ok(s) => s,
            Err(e) => {
                return Err(e);
            },
        };
        let address = match slice(block_data, 3, 15) {
            Some(a) => a,
            None => {
                return Err(
                    DecodeError::new(
                        ErrorKind::TruncatedField,
                        Field::LogicalTerminalAddress,
                        block_data,
                    ),
                );
            },
        };
        let source_address = match LogicalTerminalAddress::new(address) {
            Ok(a) => a,
            Err(e) => {
                return Err(e);
            },
        };
        let session = match slice(block_data, 15, 19) {
            Some(s) => s,
            None => {
                return Err(
                    DecodeError::new(ErrorKind::TruncatedField, Field::SessionNumber, block_data),
                );
            },
        };
        let session_number = match read_counter(session, u32::MAX as u64, Field::SessionNumber) {
            Ok(n) => n as u32,
            Err(e) => {
                return Err(e);
            },
        };
        let sequence_number = match read_counter(
            cut_from(block_data, 19),
            u32::MAX as u64,
            Field::SequenceNumber,
        ) {
            Ok(n) => n as u32,
            Err(e) => {
                return Err(e);
            },
        };
        Ok(Basic { application_id, service_id, source_address, session_number, sequence_number })
    }
}

/// Block 2, the application header: which message this is, and for whom.
#[derive(Debug, PartialEq, Eq, Clone, Copy)]
pub struct Application<'a> {
    pub input_output_id: IO,
    pub message_type: SwiftType,
    pub destination_address: LogicalTerminalAddress<'a>,
    pub priority: Option<&'a str>,
    pub delivery_monitoring: Option<&'a str>,
    pub obsolescence_period: Option<&'a str>,
}

/// The model of an `Application`.
pub struct ApplicationView {
    pub input_output_id: IO,
    pub message_type: SwiftType,
    pub destination_address: LogicalTerminalAddressView,
    pub priority: Option<Seq<u8>>,
    pub delivery_monitoring: Option<Seq<u8>>,
    pub obsolescence_period: Option<Seq<u8>>,
}

impl<'a> View for Application<'a> {
    type V = ApplicationView;

    open spec fn view(&self) -> ApplicationView {
        ApplicationView {
            input_output_id: self.input_output_id,
            message_type: self.message_type,
            destination_address: self.destination_address@,
            priority: optional_bytes(self.priority),
            delivery_monitoring: optional_bytes(self.delivery_monitoring),
            obsolescence_period: optional_bytes(self.obsolescence_period),
        }
    }
}

/// The three optional parts at the end of an application header.
pub struct ApplicationTail {
    pub priority: Option<Seq<u8>>,
    pub delivery_monitoring: Option<Seq<u8>>,
    pub obsolescence_period: Option<Seq<u8>>,
}

impl<'a> Application<'a> {
    /// The optional parts. Each is there exactly when the header is long
    /// enough to hold it: the priority is byte 16, the delivery monitoring
    /// byte 17, and the obsolescence period, of three bytes or more, all
    /// from byte 18 on. A header too short for a part goes without it.
    pub open spec fn decode_tail(bytes: Seq<u8>) -> Result<ApplicationTail, Failure> {
        if bytes.len() >= 17 && !sliceable(bytes, 16, 17) {
            Err(failure(ErrorKind::TruncatedField, Field::Priority, bytes))
        } else if bytes.len() >= 18 && !sliceable(bytes, 17, 18) {
            Err(failure(ErrorKind::TruncatedField, Field::DeliveryMonitoring, bytes))
        } else {
            Ok(
                ApplicationTail {
                    priority: if bytes.len() >= 17 {
                        Some(bytes.subrange(16, 17))
                    } else {
                        None
                    },
                    delivery_monitoring: if bytes.len() >= 18 {
                        Some(bytes.subrange(17, 18))
                    } else {
                        None
                    },
                    obsolescence_period: if bytes.len() >= 21 {
                        Some(bytes.subrange(18, bytes.len() as int))
                    } else {
                        None
                    },
                },
            )
        }
    }

    /// What decoding an application header yields. The parts are read in
    /// this order, and the first that fails decides the failure: one byte
    /// of direction, three of message type, the optional parts, and the
    /// twelve bytes of address that stand before them.
    pub open spec fn decode(bytes: Seq<u8>) -> Result<ApplicationView, Failure> {
        if !sliceable(bytes, 0, 1) {
            Err(failure(ErrorKind::TruncatedField, Field::InputOutputId, bytes))
        } else {
            match IO::parse(bytes.subrange(0, 1)) {
                None => Err(
                    failure(ErrorKind::InvalidEnumValue, Field::InputOutputId, bytes.subrange(0, 1)),
                ),
                Some(input_output_id) => if !sliceable(bytes, 1, 4) {
                    Err(failure(ErrorKind::TruncatedField, Field::MessageType, bytes))
                } else {
                    match SwiftType::parse(bytes.subrange(1, 4)) {
                        None => Err(
                            failure(
                                ErrorKind::InvalidEnumValue,
                                Field::MessageType,
                                bytes.subrange(1, 4),
                            ),
                        ),
                        Some(message_type) => match Self::decode_tail(bytes) {
                            Err(e) => Err(e),
                            Ok(tail) => if !sliceable(bytes, 4, 16) {
                                Err(
                                    failure(
                                        ErrorKind::TruncatedField,
                                        Field::LogicalTerminalAddress,
                                        bytes,
                                    ),
                                )
                            } else {
                                match LogicalTerminalAddress::decode(bytes.subrange(4, 16)) {
                                    Err(e) => Err(e),
                                    Ok(destination_address) => Ok(
                                        ApplicationView {
                                            input_output_id,
                                            message_type,
                                            destination_address,
                                            priority: tail.priority,
                                            delivery_monitoring: tail.delivery_monitoring,
                                            obsolescence_period: tail.obsolescence_period,
                                        },
                                    ),
                                }
                            },
                        },
                    }
                },
            }
        }
    }

    /// Decodes an application header.
    pub fn new(block_data: &'a str) -> (r: Result<Self, DecodeError<'a>>)
        ensures
            outcome(r) == Self::decode(block_data.spec_bytes()),
    {
        let length = block_data.as_bytes().len();
        let token = match slice(block_data, 0, 1) {
            Some(t) => t,
            None => {
                return Err(
                    DecodeError::new(ErrorKind::TruncatedField, Field::InputOutputId, block_data),
                );
            },
        };
        let input_output_id = match IO::try_from(token) {
            Ok(i) => i,
            Err(e) => {
                return Err(e);
            },
        };
        let token = match slice(block_data, 1, 4) {
            Some(t) => t,
            None => {
                return Err(
                    DecodeError::new(ErrorKind::TruncatedField, Field::MessageType, block_data),
                );
            },
        };
        let message_type = match SwiftType::try_from(token) {
            Ok(m) => m,
            Err(e) => {
                return Err(e);
            },
        };
        let mut priority = None;
        let mut delivery_monitoring = None;
        let mut obsolescence_period = None;
        if length >= 17 {
            priority = slice(block_data, 16, 17);
            if priority.is_none() {
                return Err(DecodeError::new(ErrorKind::TruncatedField, Field::Priority, block_data));
            }
        }
        if length >= 18 {
            delivery_monitoring = slice(block_data, 17, 18);
            if delivery_monitoring.is_none() {
                return Err(
                    DecodeError::new(
                        ErrorKind::TruncatedField,
                        Field::DeliveryMonitoring,
                        block_data,
                    ),
                );
            }
        }
        if length >= 21 {
            obsolescence_period = Some(cut_from(block_data, 18));
        }
        let address = match slice(block_data, 4, 16) {
            Some(a) => a,
            None => {
                return Err(
                    DecodeError::new(
                        ErrorKind::TruncatedField,
                        Field::LogicalTerminalAddress,
                        block_data,
                    ),
                );
            },
        };
        let destination_address = match LogicalTerminalAddress::new(address) {
            Ok(a) => a,
            Err(e) => {
                return Err(e);
            },
        };
        Ok(
            Application {
                input_output_id,
                message_type,
                destination_address,
                priority,
                delivery_monitoring,
                obsolescence_period,
            },
        )
    }
}

/// Block 5, the trailer: whatever it holds, or nothing.
#[derive(Debug, PartialEq, Eq, Clone, Copy)]
pub struct Trailer<'a> {
    pub data: Option<&'a str>,
}

impl<'a> View for Trailer<'a> {
    type V = Option<Seq<u8>>;

    open spec fn view(&self) -> Option<Seq<u8>> {
        optional_bytes(self.data)
    }
}

impl<'a> Trailer<'a> {
    /// What a trailer holds: the block's text, or nothing where the block is
    /// empty.
    pub open spec fn decode(bytes: Seq<u8>) -> Option<Seq<u8>> {
        if bytes.len() == 0 {
            None
        } else {
            Some(bytes)
        }
    }

    /// Decodes a trailer.
    pub fn new(block_data: &'a str) -> (r: Self)
        ensures
            r@ == Self::decode(block_data.spec_bytes()),
    {
        if block_data.as_bytes().len() == 0 {
            Trailer { data: None }
        } else {
            Trailer { data: Some(block_data) }
        }
    }
}

} // verus!
