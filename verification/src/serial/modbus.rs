//! The Modbus RTU frame codec: `[address][function][payload..][crc lo][crc hi]`.
//! Pure and synchronous; no retry logic lives here.

use vstd::prelude::*;
use crate::serial::crc16::{checksum, crc16_modbus, lemma_crc_detects_one_changed_byte};

verus! {

/// Shortest byte string that can be a frame: address, function code and the
/// two checksum bytes.
pub const MIN_FRAME_LENGTH: usize = 4;

/// Why a byte string was not accepted as a response frame.
#[derive(Debug, Clone, PartialEq, Eq)]
#[allow(inconsistent_fields)]
pub enum ModbusError {
    /// The trailing checksum is not the checksum of the bytes before it.
    CrcMismatch { calculated: u16, received: u16 },
    /// The device answered with an exception; `code` is the function code
    /// without its high bit, `error` the exception code it reported.
    ExceptionResponse { code: u8, error: u8 },
    /// Fewer bytes than a frame can have.
    InvalidLength { expected: usize, actual: usize },
    /// The response answers another function than the one requested.
    FunctionCodeMismatch { expected: u8, actual: u8 },
    /// The transport failed; the text is the cause as the transport gave it.
    IoError(String),
    /// The response comes from another slave than the one addressed.
    AddressMismatch { expected: u8, actual: u8 },
}

/// The four register classes of the protocol.
#[derive(Debug, Clone, Copy, PartialEq, Eq)]
pub enum RegisterType {
    Coil,
    DiscreteInput,
    HoldingRegister,
    InputRegister,
}

impl RegisterType {
    /// The function code that reads this class.
    pub open spec fn spec_read_code(self) -> u8 {
        match self {
            RegisterType::Coil => 0x01,
            RegisterType::DiscreteInput => 0x02,
            RegisterType::HoldingRegister => 0x03,
            RegisterType::InputRegister => 0x04,
        }
    }

    /// Whether a single-register write exists for this class.
    pub open spec fn spec_is_writable(self) -> bool {
        self is Coil || self is HoldingRegister
    }

    /// The function code that writes one register of this class.
    pub open spec fn spec_write_code(self) -> u8
        recommends
            self.spec_is_writable(),
    {
        match self {
            RegisterType::Coil => 0x05,
            _ => 0x06,
        }
    }

    pub fn read_code(&self) -> (code: u8)
        ensures
            code == self.spec_read_code(),
            !is_exception_code(code),
    {
        let code: u8 = match self {
            RegisterType::Coil => 0x01,
            RegisterType::DiscreteInput => 0x02,
            RegisterType::HoldingRegister => 0x03,
            RegisterType::InputRegister => 0x04,
        };
        assert(code < 0x80 ==> code & 0x80 == 0) by (bit_vector);
        code
    }

    pub fn is_writable(&self) -> (writable: bool)
        ensures
            writable == self.spec_is_writable(),
    {
        match self {
            RegisterType::Coil => true,
            RegisterType::HoldingRegister => true,
            _ => false,
        }
    }

    /// Only coils and holding registers can be written: asking for the write
    /// code of another class is a programming error.
    pub fn write_code(&self) -> (code: u8)
        requires
            self.spec_is_writable(),
        ensures
            code == self.spec_write_code(),
            !is_exception_code(code),
    {
        let code: u8 = match self {
            RegisterType::Coil => 0x05,
            _ => 0x06,
        };
        assert(code < 0x80 ==> code & 0x80 == 0) by (bit_vector);
        code
    }
}

/// What a frame is: the three things it carries.
pub struct FrameModel {
    pub slave_address: u8,
    pub function_code: u8,
    pub data: Seq<u8>,
}

/// One protocol message without its checksum, which is derived.
#[derive(Debug)]
pub struct ModbusFrame {
    slave_address: u8,
    function_code: u8,
    data: Vec<u8>,
}

impl View for ModbusFrame {
    type V = FrameModel;

    closed spec fn view(&self) -> FrameModel {
        FrameModel {
            slave_address: self.slave_address,
            function_code: self.function_code,
            data: self.data@,
        }
    }
}

/// Low byte of a 16-bit word.
pub open spec fn low_byte(word: u16) -> u8 {
    (word & 0xFF) as u8
}

/// High byte of a 16-bit word.
pub open spec fn high_byte(word: u16) -> u8 {
    (word >> 8) as u8
}

/// The word whose low byte is `low` and whose high byte is `high`.
pub open spec fn word_of(high: u8, low: u8) -> u16 {
    ((high as u16) << 8) | (low as u16)
}

/// The bytes the checksum covers: address, function code, payload.
pub open spec fn frame_body(frame: FrameModel) -> Seq<u8> {
    seq![frame.slave_address, frame.function_code] + frame.data
}

/// The frame on the wire: its body, then the checksum, low byte first.
pub open spec fn encode_spec(frame: FrameModel) -> Seq<u8> {
    let crc = crc16_modbus(frame_body(frame));
    frame_body(frame) + seq![low_byte(crc), high_byte(crc)]
}

/// Whether a function-code byte marks an exception response.
pub open spec fn is_exception_code(function_code: u8) -> bool {
    function_code & 0x80 != 0
}

/// What a byte string decodes to.
pub open spec fn decode_spec(bytes: Seq<u8>) -> Result<FrameModel, ModbusError> {
    if bytes.len() < MIN_FRAME_LENGTH {
        Err(ModbusError::InvalidLength { expected: MIN_FRAME_LENGTH, actual: bytes.len() as usize })
    } else {
        let body = bytes.subrange(0, bytes.len() - 2);
        let received = word_of(bytes[bytes.len() - 1], bytes[bytes.len() - 2]);
        let calculated = crc16_modbus(body);
        if calculated != received {
            Err(ModbusError::CrcMismatch { calculated, received })
        } else if is_exception_code(body[1]) {
            Err(
                ModbusError::ExceptionResponse {
                    code: body[1] & 0x7F,
                    error: if body.len() > 2 {
                        body[2]
                    } else {
                        0
                    },
                },
            )
        } else {
            Ok(
                FrameModel {
                    slave_address: body[0],
                    function_code: body[1],
                    data: body.subrange(2, body.len() as int),
                },
            )
        }
    }
}

/// The payload of a read request or a single write: two big-endian words.
pub open spec fn two_words(first: u16, second: u16) -> Seq<u8> {
    seq![high_byte(first), low_byte(first), high_byte(second), low_byte(second)]
}

fn split_word(word: u16) -> (bytes: (u8, u8))
    ensures
        bytes.0 == high_byte(word),
        bytes.1 == low_byte(word),
{
    ((word >> 8) as u8, (word & 0xFF) as u8)
}

fn words_payload(first: u16, second: u16) -> (payload: Vec<u8>)
    ensures
        payload@ == two_words(first, second),
{
    let (first_high, first_low) = split_word(first);
    let (second_high, second_low) = split_word(second);
    let mut payload: Vec<u8> = Vec::new();
    payload.push(first_high);
    payload.push(first_low);
    payload.push(second_high);
    payload.push(second_low);
    assert(payload@ =~= two_words(first, second));
    payload
}

impl ModbusFrame {
    pub fn new(slave_address: u8, function_code: u8, data: Vec<u8>) -> (frame: Self)
        ensures
            frame@ == (FrameModel { slave_address, function_code, data: data@ }),
    {
        Self { slave_address, function_code, data }
    }

    /// A request to read `count` registers of one class, starting at
    /// `address`.
    pub fn new_read_request(
        slave_address: u8,
        register_type: RegisterType,
        address: u16,
        count: u16,
    ) -> (frame: Self)
        ensures
            frame@ == (FrameModel {
                slave_address,
                function_code: register_type.spec_read_code(),
                data: two_words(address, count),
            }),
    {
        Self {
            slave_address,
            function_code: register_type.read_code(),
            data: words_payload(address, count),
        }
    }

    /// A request to write `value` to the one register at `address`.
    pub fn new_write_request(
        slave_address: u8,
        register_type: RegisterType,
        address: u16,
        value: u16,
    ) -> (frame: Self)
        requires
            register_type.spec_is_writable(),
        ensures
            frame@ == (FrameModel {
                slave_address,
                function_code: register_type.spec_write_code(),
                data: two_words(address, value),
            }),
    {
        Self {
            slave_address,
            function_code: register_type.write_code(),
            data: words_payload(address, value),
        }
    }

    pub fn get_slave_address(&self) -> (address: u8)
        ensures
            address == self@.slave_address,
    {
        self.slave_address
    }

    pub fn get_function_code(&self) -> (code: u8)
        ensures
            code == self@.function_code,
    {
        self.function_code
    }

    pub fn get_data(&self) -> (data: &Vec<u8>)
        ensures
            data@ == self@.data,
    {
        &self.data
    }

    /// Address, function code and payload in wire order.
    fn body_bytes(&self) -> (body: Vec<u8>)
        ensures
            body@ == frame_body(self@),
    {
        let mut body: Vec<u8> = Vec::new();
        body.push(self.slave_address);
        body.push(self.function_code);
        let mut i: usize = 0;
        while i < self.data.len()
            invariant
                i <= self.data.len(),
                body@ == seq![self.slave_address, self.function_code] + self.data@.take(i as int),
            decreases self.data.len() - i,
        {
            body.push(self.data[i]);
            assert(self.data@.take(i + 1) =~= self.data@.take(i as int).push(self.data@[i as int]));
            assert(body@ =~= seq![self.slave_address, self.function_code] + self.data@.take(i + 1));
            i += 1;
        }
        assert(self.data@.take(i as int) =~= self.data@);
        body
    }

    /// The checksum this frame carries on the wire.
    pub fn calculate_crc(&self) -> (crc: u16)
        ensures
            crc == crc16_modbus(frame_body(self@)),
    {
        let body = self.body_bytes();
        checksum(body.as_slice())
    }

    /// The frame as it goes on the wire.
    pub fn to_bytes(&self) -> (bytes: Vec<u8>)
        ensures
            bytes@ == encode_spec(self@),
    {
        let mut frame = self.body_bytes();
        let crc = checksum(frame.as_slice());
        let (crc_high, crc_low) = split_word(crc);
        frame.push(crc_low);
        frame.push(crc_high);
        assert(frame@ =~= encode_spec(self@));
        frame
    }

    /// Parses a response: length first, then the checksum, then the exception
    /// bit.
    pub fn from_bytes(bytes: &[u8]) -> (result: Result<Self, ModbusError>)
        ensures
            match result {
                Ok(frame) => decode_spec(bytes@) == Ok::<FrameModel, ModbusError>(frame@),
                Err(error) => decode_spec(bytes@) == Err::<FrameModel, ModbusError>(error),
            },
    {
        if bytes.len() < MIN_FRAME_LENGTH {
            return Err(
                ModbusError::InvalidLength { expected: MIN_FRAME_LENGTH, actual: bytes.len() },
            );
        }
        let crc_position = bytes.len() - 2;
        let frame_bytes = vstd::slice::slice_subrange(bytes, 0, crc_position);
        let low = bytes[crc_position];
        let high = bytes[crc_position + 1];
        let received = ((high as u16) << 8) | (low as u16);
        let calculated = checksum(frame_bytes);
        if calculated != received {
            return Err(ModbusError::CrcMismatch { calculated, received });
        }
        let function_code = frame_bytes[1];
        if function_code & 0x80 != 0 {
            let error = if frame_bytes.len() > 2 {
                frame_bytes[2]
            } else {
                0
            };
            return Err(ModbusError::ExceptionResponse { code: function_code & 0x7F, error });
        }
        let mut data: Vec<u8> = Vec::new();
        let mut i: usize = 2;
        while i < frame_bytes.len()
            invariant
                2 <= i <= frame_bytes.len(),
                data@ == frame_bytes@.subrange(2, i as int),
            decreases frame_bytes.len() - i,
        {
            data.push(frame_bytes[i]);
            assert(data@ =~= frame_bytes@.subrange(2, i + 1));
            i += 1;
        }
        Ok(Self { slave_address: frame_bytes[0], function_code, data })
    }
}

/// A word put on the wire low byte first is read back unchanged.
pub proof fn lemma_word_round_trip(word: u16)
    ensures
        word_of(high_byte(word), low_byte(word)) == word,
{
    assert(((((word >> 8) as u8) as u16) << 8) | (((word & 0xFF) as u8) as u16) == word)
        by (bit_vector);
}

/// Encoding then decoding gives the frame back, whenever its function code
/// is not an exception code.
pub proof fn lemma_decode_encode_round_trip(frame: FrameModel)
    requires
        !is_exception_code(frame.function_code),
    ensures
        decode_spec(encode_spec(frame)) == Ok::<FrameModel, ModbusError>(frame),
{
    let body = frame_body(frame);
    let crc = crc16_modbus(body);
    let wire = encode_spec(frame);
    lemma_word_round_trip(crc);
    assert(wire.subrange(0, wire.len() - 2) =~= body);
    assert(body.subrange(2, body.len() as int) =~= frame.data);
}

/// A frame whose function code has its high bit set never decodes to a
/// frame: it decodes to the exception it reports, whatever the payload.
pub proof fn lemma_exception_frame_decodes_to_exception(frame: FrameModel)
    requires
        is_exception_code(frame.function_code),
    ensures
        decode_spec(encode_spec(frame)) == Err::<FrameModel, ModbusError>(
            ModbusError::ExceptionResponse {
                code: frame.function_code & 0x7F,
                error: if frame.data.len() > 0 {
                    frame.data[0]
                } else {
                    0
                },
            },
        ),
{
    let body = frame_body(frame);
    let crc = crc16_modbus(body);
    let wire = encode_spec(frame);
    lemma_word_round_trip(crc);
    assert(wire.subrange(0, wire.len() - 2) =~= body);
}

/// Any byte string with the exception bit set in its function code is
/// rejected, encoded by this library or not.
pub proof fn lemma_exception_bit_never_yields_frame(bytes: Seq<u8>)
    requires
        bytes.len() >= 2,
        is_exception_code(bytes[1]),
    ensures
        decode_spec(bytes) is Err,
{
}

/// Fewer than four bytes are rejected as too short.
pub proof fn lemma_short_input_rejected(bytes: Seq<u8>)
    requires
        bytes.len() < MIN_FRAME_LENGTH,
    ensures
        decode_spec(bytes) == Err::<FrameModel, ModbusError>(
            ModbusError::InvalidLength {
                expected: MIN_FRAME_LENGTH,
                actual: bytes.len() as usize,
            },
        ),
{
}

/// The byte `byte` with bit number `bit` inverted.
pub open spec fn flip_bit(byte: u8, bit: u8) -> u8 {
    byte ^ (1u8 << bit)
}

/// Inverting any one bit of an encoded frame, in the body or in the checksum,
/// makes decoding fail with a checksum mismatch.
pub proof fn lemma_single_bit_corruption_detected(frame: FrameModel, at: int, bit: u8)
    requires
        0 <= at < encode_spec(frame).len(),
        bit < 8,
    ensures
        decode_spec(encode_spec(frame).update(at, flip_bit(encode_spec(frame)[at], bit)))
            matches Err(ModbusError::CrcMismatch { .. }),
{
    let wire = encode_spec(frame);
    let body = frame_body(frame);
    let crc = crc16_modbus(body);
    let old_byte = wire[at];
    let new_byte = flip_bit(old_byte, bit);
    let damaged = wire.update(at, new_byte);
    let damaged_body = damaged.subrange(0, damaged.len() - 2);
    assert(bit < 8 ==> (old_byte ^ (1u8 << bit)) != old_byte) by (bit_vector);
    lemma_word_round_trip(crc);
    assert(wire.subrange(0, wire.len() - 2) =~= body);
    if at < body.len() {
        lemma_crc_detects_one_changed_byte(body, damaged_body, at);
    } else {
        assert(damaged_body =~= body);
        let low = damaged[damaged.len() - 2];
        let high = damaged[damaged.len() - 1];
        let low0 = low_byte(crc);
        let high0 = high_byte(crc);
        assert((low != low0 && high == high0) || (low == low0 && high != high0));
        assert((low != low0 && high == high0) || (low == low0 && high != high0) ==> (((high as u16)
            << 8) | (low as u16)) != (((high0 as u16) << 8) | (low0 as u16))) by (bit_vector);
    }
}

} // verus!
