//! The message as a whole: its five blocks, found, cut out and decoded.
use vstd::prelude::*;
use vstd::string::*;
use vstd::utf8::*;
use crate::block::{Application, ApplicationView, Basic, BasicView, Trailer};
use crate::body::{Text, TextView};
use crate::error::{failure, outcome, DecodeError, ErrorKind, Failure, Field};
use crate::pattern::{pattern_captures, search, Capture};
use crate::text::{
    cut, has_prefix, has_suffix, lemma_ascii_boundaries, lemma_end_boundaries, slice, sliceable,
};
use crate::user::{User, UserView};

verus! {

/// The pattern of the start of a block: an opening brace, a digit and a
/// colon.
pub open spec fn block_pattern() -> Seq<u8> {
    r"(?m)(\{\d:)".spec_bytes()
}

/// The pattern of the start of a block, as `regex` reads it.
pub fn block_start_pattern() -> (pattern: &'static str)
    ensures
        pattern.spec_bytes() == block_pattern(),
{
    r"(?m)(\{\d:)"
}

/// The number of blocks of a message.
pub open spec fn block_count() -> int {
    5
}

/// The field that names the block at `index`, counting from 0.
pub open spec fn block_field(index: int) -> Field {
    if index == 0 {
        Field::BasicBlock
    } else if index == 1 {
        Field::ApplicationBlock
    } else if index == 2 {
        Field::UserBlock
    } else if index == 3 {
        Field::TextBlock
    } else {
        Field::TrailerBlock
    }
}

/// What opens the block at `index`: a brace, the block's number, which is
/// one more than its index, and a colon.
pub open spec fn block_prefix(index: int) -> Seq<u8> {
    seq!['{' as u8, ('1' as u8 + index) as u8, ':' as u8]
}

/// What closes the block at `index`: a brace, and before it a hyphen for
/// the text block.
pub open spec fn block_suffix(index: int) -> Seq<u8> {
    if index == 3 {
        seq!['-' as u8, '}' as u8]
    } else {
        seq!['}' as u8]
    }
}

/// A payload in its delimiters, as the block at `index` is written.
pub open spec fn framed(index: int, payload: Seq<u8>) -> Seq<u8> {
    block_prefix(index) + payload + block_suffix(index)
}

/// The field that names the block at `index`.
pub fn field_of_block(index: usize) -> (r: Field)
    ensures
        r == block_field(index as int),
{
    if index == 0 {
        Field::BasicBlock
    } else if index == 1 {
        Field::ApplicationBlock
    } else if index == 2 {
        Field::UserBlock
    } else if index == 3 {
        Field::TextBlock
    } else {
        Field::TrailerBlock
    }
}

/// A decoded MT940 message.
#[derive(Debug, PartialEq, Eq)]
pub struct MT940<'a> {
    pub basic: Basic<'a>,
    pub application: Application<'a>,
    pub user: User<'a>,
    pub text: Text<'a>,
    pub trailer: Trailer<'a>,
}

/// The model of an `MT940`.
pub struct MT940View {
    pub basic: BasicView,
    pub application: ApplicationView,
    pub user: UserView,
    pub text: TextView,
    pub trailer: Option<Seq<u8>>,
}

impl<'a> View for MT940<'a> {
    type V = MT940View;

    open spec fn view(&self) -> MT940View {
        MT940View {
            basic: self.basic@,
            application: self.application@,
            user: self.user@,
            text: self.text@,
            trailer: self.trailer@,
        }
    }
}

impl<'a> MT940<'a> {
    /// The failure of the message's structure at a field.
    pub open spec fn broken(field: Field, value: Seq<u8>) -> Failure {
        failure(ErrorKind::StructuralError, field, value)
    }

    /// Where the block at `index` begins: where the match of that index
    /// begins.
    pub open spec fn block_start(captures: Seq<Capture>, index: int) -> int {
        captures[index].whole->Some_0.start as int
    }

    /// Where the block at `index` ends: where the next block begins, or at
    /// the end of the message for the last.
    pub open spec fn block_end(message: Seq<u8>, captures: Seq<Capture>, index: int) -> int {
        if index + 1 < captures.len() {
            Self::block_start(captures, index + 1)
        } else {
            message.len() as int
        }
    }

    /// The bytes of the block at `index`, delimiters included.
    pub open spec fn block_bytes(message: Seq<u8>, captures: Seq<Capture>, index: int) -> Seq<u8> {
        message.subrange(
            Self::block_start(captures, index),
            Self::block_end(message, captures, index),
        )
    }

    /// Whether the matches place the block at `index`: it and its successor
    /// have an extent.
    pub open spec fn placed(captures: Seq<Capture>, index: int) -> bool {
        captures[index].whole is Some && (index + 1 < captures.len() ==> captures[index
            + 1].whole is Some)
    }

    /// The payload of the block at `index`, counting from 0, given the
    /// matches of the block start pattern in the message: what stands
    /// between the block's opening and closing delimiters. All failures are
    /// of the kind `StructuralError`: the message has no such block, or a
    /// block too many; the block cannot be cut out; it does not begin with
    /// its own number; it does not end with its delimiter.
    pub open spec fn payload(message: Seq<u8>, captures: Seq<Capture>, index: int) -> Result<
        Seq<u8>,
        Failure,
    > {
        if index >= block_count() {
            Err(Self::broken(Field::Message, message))
        } else if index >= captures.len() {
            Err(Self::broken(block_field(index), message))
        } else if !Self::placed(captures, index) || !sliceable(
            message,
            Self::block_start(captures, index),
            Self::block_end(message, captures, index),
        ) {
            Err(Self::broken(block_field(index), message))
        } else {
            let block = Self::block_bytes(message, captures, index);
            let inner = block.subrange(3, block.len() as int);
            let suffix = block_suffix(index);
            if !has_prefix(block, block_prefix(index)) || !has_suffix(inner, suffix) {
                Err(Self::broken(block_field(index), block))
            } else {
                Ok(inner.subrange(0, inner.len() - suffix.len()))
            }
        }
    }

    /// What decoding a message yields, given the matches of the block start
    /// pattern in it. The blocks are cut out and decoded one after the
    /// other, and the first failure, of cutting or of decoding, decides. A
    /// message with all its five blocks decoded fails at last where it has
    /// a sixth.
    pub open spec fn decode_captures(message: Seq<u8>, captures: Seq<Capture>) -> Result<
        MT940View,
        Failure,
    > {
        match Self::payload(message, captures, 0) {
            Err(e) => Err(e),
            Ok(first) => match Basic::decode(first) {
                Err(e) => Err(e),
                Ok(basic) => match Self::payload(message, captures, 1) {
                    Err(e) => Err(e),
                    Ok(second) => match Application::decode(second) {
                        Err(e) => Err(e),
                        Ok(application) => match Self::payload(message, captures, 2) {
                            Err(e) => Err(e),
                            Ok(third) => match User::decode(third) {
                                Err(e) => Err(e),
                                Ok(user) => match Self::payload(message, captures, 3) {
                                    Err(e) => Err(e),
                                    Ok(fourth) => match Text::decode(fourth) {
                                        Err(e) => Err(e),
                                        Ok(text) => match Self::payload(message, captures, 4) {
                                            Err(e) => Err(e),
                                            Ok(fifth) => if captures.len() > block_count() {
                                                Err(Self::broken(Field::Message, message))
                                            } else {
                                                Ok(
                                                    MT940View {
                                                        basic,
                                                        application,
                                                        user,
                                                        text,
                                                        trailer: Trailer::decode(fifth),
                                                    },
                                                )
                                            },
                                        },
                                    },
                                },
                            },
                        },
                    },
                },
            },
        }
    }

    /// What decoding a message yields: the starts of its blocks are
    /// searched for, and the blocks cut out and decoded. `StructuralError`
    /// where the pattern itself is refused.
    pub open spec fn decode(message: Seq<u8>) -> Result<MT940View, Failure> {
        match pattern_captures(block_pattern(), message) {
            None => Err(Self::broken(Field::BlockPattern, message)),
            Some(captures) => Self::decode_captures(message, captures),
        }
    }

    /// A message that decodes has exactly five blocks.
    pub proof fn lemma_five_blocks(message: Seq<u8>, captures: Seq<Capture>)
        requires
            Self::decode_captures(message, captures) is Ok,
        ensures
            captures.len() == block_count(),
            forall|index: int|
                0 <= index < block_count() ==> #[trigger] Self::payload(message, captures, index)
                    is Ok,
    {
    }

    /// A block whose payload can be taken is its payload in its delimiters.
    pub proof fn lemma_block_is_framed(message: Seq<u8>, captures: Seq<Capture>, index: int)
        requires
            0 <= index,
            Self::payload(message, captures, index) is Ok,
        ensures
            Self::block_bytes(message, captures, index) == framed(
                index,
                Self::payload(message, captures, index)->Ok_0,
            ),
    {
        let block = Self::block_bytes(message, captures, index);
        let payload = Self::payload(message, captures, index)->Ok_0;
        assert(block =~= framed(index, payload));
    }

    /// The five payloads of a message, each in its delimiters and written
    /// one behind the other, are the message again, byte for byte. This
    /// holds of every message of five blocks that all can be cut out, and
    /// that begins with its first block.
    pub proof fn lemma_payloads_rebuild_message(message: Seq<u8>, captures: Seq<Capture>)
        requires
            captures.len() == block_count(),
            forall|index: int|
                0 <= index < block_count() ==> #[trigger] Self::payload(message, captures, index)
                    is Ok,
            Self::block_start(captures, 0) == 0,
        ensures
            message == framed(0, Self::payload(message, captures, 0)->Ok_0) + framed(
                1,
                Self::payload(message, captures, 1)->Ok_0,
            ) + framed(2, Self::payload(message, captures, 2)->Ok_0) + framed(
                3,
                Self::payload(message, captures, 3)->Ok_0,
            ) + framed(4, Self::payload(message, captures, 4)->Ok_0),
    {
        assert(Self::payload(message, captures, 0) is Ok);
        assert(Self::payload(message, captures, 1) is Ok);
        assert(Self::payload(message, captures, 2) is Ok);
        assert(Self::payload(message, captures, 3) is Ok);
        assert(Self::payload(message, captures, 4) is Ok);
        Self::lemma_block_is_framed(message, captures, 0);
        Self::lemma_block_is_framed(message, captures, 1);
        Self::lemma_block_is_framed(message, captures, 2);
        Self::lemma_block_is_framed(message, captures, 3);
        Self::lemma_block_is_framed(message, captures, 4);
        assert(message =~= Self::block_bytes(message, captures, 0) + Self::block_bytes(
            message,
            captures,
            1,
        ) + Self::block_bytes(message, captures, 2) + Self::block_bytes(message, captures, 3)
            + Self::block_bytes(message, captures, 4));
    }

    /// Cuts the payload of the block at `index`, counting from 0, out of the
    /// message.
    pub fn block_payload(message_data: &'a str, captures: &[Capture], index: usize) -> (r: Result<
        &'a str,
        DecodeError<'a>,
    >)
        ensures
            match Self::payload(message_data.spec_bytes(), captures@, index as int) {
                Ok(payload) => r is Ok && r->Ok_0.spec_bytes() == payload,
                Err(e) => r is Err && r->Err_0@ == e,
            },
    {
        if index >= 5 {
            return Err(DecodeError::new(ErrorKind::StructuralError, Field::Message, message_data));
        }
        let field = field_of_block(index);
        let broken = DecodeError::new(ErrorKind::StructuralError, field, message_data);
        if index >= captures.len() {
            return Err(broken);
        }
        let start = match captures[index].whole {
            Some(span) => span.start,
            None => {
                return Err(broken);
            },
        };
        let end = if index + 1 < captures.len() {
            match captures[index + 1].whole {
                Some(span) => span.start,
                None => {
                    return Err(broken);
                },
            }
        } else {
            message_data.as_bytes().len()
        };
        let block = match slice(message_data, start, end) {
            Some(b) => b,
            None => {
                return Err(broken);
            },
        };
        let b = block.as_bytes();
        let length = b.len();
        let ghost prefix = block_prefix(index as int);
        let ghost suffix = block_suffix(index as int);
        let ghost inner = b@.subrange(3, b@.len() as int);
        let opened = length >= 3 && b[0] == '{' as u8 && b[1] == '1' as u8 + index as u8 && b[2]
            == ':' as u8;
        proof {
            if opened {
                assert(b@.subrange(0, 3) =~= prefix);
            } else if length >= 3 {
                assert(b@.subrange(0, 3)[0] == b@[0]);
                assert(b@.subrange(0, 3)[1] == b@[1]);
                assert(b@.subrange(0, 3)[2] == b@[2]);
            }
        }
        if !opened {
            return Err(DecodeError::new(ErrorKind::StructuralError, field, block));
        }
        let closed = if index == 3 {
            length >= 5 && b[length - 2] == '-' as u8 && b[length - 1] == '}' as u8
        } else {
            length >= 4 && b[length - 1] == '}' as u8
        };
        proof {
            let tail = inner.subrange(inner.len() - suffix.len(), inner.len() as int);
            if closed {
                assert(tail =~= suffix);
            } else if inner.len() >= suffix.len() {
                if index == 3 {
                    assert(tail[0] == b@[length - 2]);
                    assert(tail[1] == b@[length - 1]);
                } else {
                    assert(tail[0] == b@[length - 1]);
                }
            }
        }
        if !closed {
            return Err(DecodeError::new(ErrorKind::StructuralError, field, block));
        }
        let stop = if index == 3 {
            length - 2
        } else {
            length - 1
        };
        proof {
            lemma_end_boundaries(block);
            lemma_ascii_boundaries(b@, 2);
            lemma_ascii_boundaries(b@, stop as int);
            assert(b@.subrange(3, stop as int) =~= inner.subrange(0, inner.len() - suffix.len()));
        }
        Ok(cut(block, 3, stop))
    }

    /// Decodes a message from the matches of the block start pattern in it.
    pub fn from_captures(message_data: &'a str, captures: &[Capture]) -> (r: Result<
        Self,
        DecodeError<'a>,
    >)
        ensures
            outcome(r) == Self::decode_captures(message_data.spec_bytes(), captures@),
    {
        let basic = match Self::block_payload(message_data, captures, 0) {
            Ok(payload) => match Basic::new(payload) {
                Ok(block) => block,
                Err(e) => {
                    return Err(e);
                },
            },
            Err(e) => {
                return Err(e);
            },
        };
        let application = match Self::block_payload(message_data, captures, 1) {
            Ok(payload) => match Application::new(payload) {
                Ok(block) => block,
                Err(e) => {
                    return Err(e);
                },
            },
            Err(e) => {
                return Err(e);
            },
        };
        let user = match Self::block_payload(message_data, captures, 2) {
            Ok(payload) => match User::new(payload) {
                Ok(block) => block,
                Err(e) => {
                    return Err(e);
                },
            },
            Err(e) => {
                return Err(e);
            },
        };
        let text = match Self::block_payload(message_data, captures, 3) {
            Ok(payload) => match Text::new(payload) {
                Ok(block) => block,
                Err(e) => {
                    return Err(e);
                },
            },
            Err(e) => {
                return Err(e);
            },
        };
        let trailer = match Self::block_payload(message_data, captures, 4) {
            Ok(payload) => Trailer::new(payload),
            Err(e) => {
                return Err(e);
            },
        };
        if captures.len() > 5 {
            return Err(DecodeError::new(ErrorKind::StructuralError, Field::Message, message_data));
        }
        Ok(MT940 { basic, application, user, text, trailer })
    }

    /// Decodes a message.
    pub fn new(message_data: &'a str) -> (r: Result<Self, DecodeError<'a>>)
        ensures
            outcome(r) == Self::decode(message_data.spec_bytes()),
    {
        match search(block_start_pattern(), message_data) {
            Ok(captures) => Self::from_captures(message_data, captures.as_slice()),
            Err(_) => Err(
                DecodeError::new(ErrorKind::StructuralError, Field::BlockPattern, message_data),
            ),
        }
    }
}

} // verus!
