use vstd::prelude::*;

verus! {

/// The CRC-16/CCITT-FALSE checksum of a byte string.
pub uninterp spec fn crc16_ccitt_false(msg: Seq<u8>) -> u16;

/// Relies on `crc16::State::<CCITT_FALSE>::calculate`, which checksums the
/// whole message and depends on nothing else.
#[verifier::external_body]
fn ccitt_false_checksum(msg: &[u8]) -> (r: u16)
    ensures
        r == crc16_ccitt_false(msg@),
{
    crc16::State::<crc16::CCITT_FALSE>::calculate(msg)
}

/// Length of a frame on the wire.
pub const FRAME_LEN: usize = 38;

/// Capacity of the payload field; bytes past the declared length are padding.
pub const PAYLOAD_CAPACITY: usize = 32;

/// The commands the link carries, each with its wire code and the largest
/// payload it may declare.
#[derive(Clone, Copy, Debug, PartialEq, Eq, Structural)]
pub enum CommandType {
    /// Minimum and maximum positions of each finger joint (2 bytes per axis).
    SetPosition,
    /// Readings of all sensors: 3 pressure and 6 position values.
    GetSensors,
    /// Start opening (1) or closing (0).
    StartMotion,
    /// Stop the current motion.
    StopMotion,
    /// Motion speed, 0 to 65535.
    SetSpeed,
    GetDeviceInfo,
    EmergencyStop,
}

impl CommandType {
    pub open spec fn spec_code(self) -> u8 {
        match self {
            CommandType::SetPosition => 0x01,
            CommandType::GetSensors => 0x02,
            CommandType::StartMotion => 0x03,
            CommandType::StopMotion => 0x04,
            CommandType::SetSpeed => 0x05,
            CommandType::GetDeviceInfo => 0x10,
            CommandType::EmergencyStop => 0x16,
        }
    }

    pub open spec fn spec_max_payload(self) -> u8 {
        match self {
            CommandType::SetPosition => 24,
            CommandType::GetSensors => 18,
            CommandType::StartMotion => 1,
            CommandType::StopMotion => 0,
            CommandType::SetSpeed => 2,
            CommandType::GetDeviceInfo => 0,
            CommandType::EmergencyStop => 0,
        }
    }

    /// The byte that stands for the command on the wire.
    pub fn code(&self) -> (r: u8)
        ensures
            r == self.spec_code(),
    {
        match self {
            CommandType::SetPosition => 0x01,
            CommandType::GetSensors => 0x02,
            CommandType::StartMotion => 0x03,
            CommandType::StopMotion => 0x04,
            CommandType::SetSpeed => 0x05,
            CommandType::GetDeviceInfo => 0x10,
            CommandType::EmergencyStop => 0x16,
        }
    }

    pub fn max_payload_size(&self) -> (r: u8)
        ensures
            r == self.spec_max_payload(),
            r <= PAYLOAD_CAPACITY,
    {
        match self {
            CommandType::SetPosition => 24,
            CommandType::GetSensors => 18,
            CommandType::StartMotion => 1,
            CommandType::StopMotion => 0,
            CommandType::SetSpeed => 2,
            CommandType::GetDeviceInfo => 0,
            CommandType::EmergencyStop => 0,
        }
    }

    /// The command whose wire code is `code`, if any.
    pub fn from_code(code: u8) -> (r: Option<CommandType>)
        ensures
            r == command_of_code(code),
    {
        match code {
            0x01 => Some(CommandType::SetPosition),
            0x02 => Some(CommandType::GetSensors),
            0x03 => Some(CommandType::StartMotion),
            0x04 => Some(CommandType::StopMotion),
            0x05 => Some(CommandType::SetSpeed),
            0x10 => Some(CommandType::GetDeviceInfo),
            0x16 => Some(CommandType::EmergencyStop),
            _ => None,
        }
    }
}

pub open spec fn command_of_code(code: u8) -> Option<CommandType> {
    if code == 0x01 {
        Some(CommandType::SetPosition)
    } else if code == 0x02 {
        Some(CommandType::GetSensors)
    } else if code == 0x03 {
        Some(CommandType::StartMotion)
    } else if code == 0x04 {
        Some(CommandType::StopMotion)
    } else if code == 0x05 {
        Some(CommandType::SetSpeed)
    } else if code == 0x10 {
        Some(CommandType::GetDeviceInfo)
    } else if code == 0x16 {
        Some(CommandType::EmergencyStop)
    } else {
        None
    }
}

/// Each command is found again from its own code, and only from it.
pub proof fn lemma_code_round_trip(command: CommandType, code: u8)
    ensures
        command_of_code(command.spec_code()) == Some(command),
        command_of_code(code) == Some(command) ==> code == command.spec_code(),
{
}

/// Correlation token linking a request to its response.
#[derive(Clone, Copy, Debug, PartialEq, Eq, Hash, Structural)]
pub struct RequestId(pub u16);

/// Hands out request ids from a 16-bit counter that wraps silently.
pub struct RequestIdGenerator {
    next: u16,
}

impl RequestIdGenerator {
    pub closed spec fn upcoming(&self) -> u16 {
        self.next
    }

    pub fn new() -> (r: Self)
        ensures
            r.upcoming() == 0,
    {
        RequestIdGenerator { next: 0 }
    }

    pub fn next_id(&mut self) -> (r: RequestId)
        ensures
            r.0 == old(self).upcoming(),
            final(self).upcoming() == (old(self).upcoming() + 1) % 0x10000,
    {
        let id = self.next;
        self.next = if self.next == u16::MAX {
            0
        } else {
            self.next + 1
        };
        RequestId(id)
    }
}

impl RequestId {
    /// Draws a fresh id from `ids`.
    pub fn new(ids: &mut RequestIdGenerator) -> (r: RequestId)
        ensures
            r.0 == old(ids).upcoming(),
            final(ids).upcoming() == (old(ids).upcoming() + 1) % 0x10000,
    {
        ids.next_id()
    }
}

/// The value of two bytes read little-endian.
pub open spec fn le_u16(lo: u8, hi: u8) -> u16 {
    (lo + 256 * hi) as u16
}

/// The two little-endian bytes of `v`.
pub open spec fn le_bytes(v: u16) -> Seq<u8> {
    seq![(v % 256) as u8, (v / 256) as u8]
}

/// What a packet holds, with the payload field in full (padding included).
pub struct PacketView {
    pub command: CommandType,
    pub request_id: u16,
    pub length: nat,
    pub payload: Seq<u8>,
    pub crc: u16,
}

/// The bytes the checksum covers: opcode, length, request id and the
/// meaningful part of the payload, padding excluded.
pub open spec fn covered_bytes(command: CommandType, request_id: u16, body: Seq<u8>) -> Seq<u8> {
    seq![command.spec_code(), body.len() as u8] + le_bytes(request_id) + body
}

impl PacketView {
    /// The meaningful part of the payload.
    pub open spec fn body(self) -> Seq<u8> {
        self.payload.subrange(0, self.length as int)
    }

    pub open spec fn wf(self) -> bool {
        &&& self.length <= self.command.spec_max_payload()
        &&& self.payload.len() == PAYLOAD_CAPACITY
        &&& self.crc == crc16_ccitt_false(covered_bytes(self.command, self.request_id, self.body()))
    }
}

/// The packet built for `command` with id `request_id` and payload `body`,
/// zero-padded, with its checksum.
pub open spec fn assemble(command: CommandType, request_id: u16, body: Seq<u8>) -> PacketView {
    PacketView {
        command,
        request_id,
        length: body.len(),
        payload: body + Seq::new((PAYLOAD_CAPACITY - body.len()) as nat, |i: int| 0u8),
        crc: crc16_ccitt_false(covered_bytes(command, request_id, body)),
    }
}

/// The frame layout: opcode, length, request id (little-endian), the whole
/// payload field, checksum (little-endian).
pub open spec fn encode_frame(p: PacketView) -> Seq<u8> {
    seq![p.command.spec_code(), p.length as u8] + le_bytes(p.request_id) + p.payload + le_bytes(
        p.crc,
    )
}

/// What a received frame decodes to: nothing where its size is wrong, its
/// opcode unknown, its length over the opcode's limit, or its checksum
/// does not match.
pub open spec fn decode_frame(data: Seq<u8>) -> Option<PacketView> {
    if data.len() != FRAME_LEN {
        None
    } else {
        match command_of_code(data[0]) {
            None => None,
            Some(command) => {
                if data[1] > command.spec_max_payload() {
                    None
                } else if crc16_ccitt_false(data.subrange(0, 4 + data[1])) != le_u16(
                    data[36],
                    data[37],
                ) {
                    None
                } else {
                    Some(
                        PacketView {
                            command,
                            request_id: le_u16(data[2], data[3]),
                            length: data[1] as nat,
                            payload: data.subrange(4, 36),
                            crc: le_u16(data[36], data[37]),
                        },
                    )
                }
            },
        }
    }
}

proof fn lemma_le_round_trip(v: u16)
    ensures
        le_u16(le_bytes(v)[0], le_bytes(v)[1]) == v,
{
}

/// Decoding the encoding of a well-formed packet gives the packet back.
proof fn lemma_decode_encode(p: PacketView)
    requires
        p.wf(),
    ensures
        decode_frame(encode_frame(p)) == Some(p),
{
    let f = encode_frame(p);
    lemma_code_round_trip(p.command, p.command.spec_code());
    lemma_le_round_trip(p.request_id);
    lemma_le_round_trip(p.crc);
    assert(f.len() == FRAME_LEN);
    assert(f.subrange(0, 4 + p.length as int) =~= covered_bytes(p.command, p.request_id, p.body()));
    assert(f.subrange(4, 36) =~= p.payload);
    let q = decode_frame(f);
    assert(q == Some(p));
}

/// For every opcode and every payload within the opcode's limit, decoding
/// the frame of the packet built from them gives back the same opcode,
/// request id, length and payload bytes.
pub proof fn lemma_round_trip(command: CommandType, request_id: u16, body: Seq<u8>)
    requires
        body.len() <= command.spec_max_payload(),
    ensures
        decode_frame(encode_frame(assemble(command, request_id, body))) == Some(
            assemble(command, request_id, body),
        ),
        assemble(command, request_id, body).body() == body,
{
    let p = assemble(command, request_id, body);
    assert(p.body() =~= body);
    lemma_decode_encode(p);
}

/// Changing either checksum byte of a frame that decodes makes it fail to
/// decode: the covered bytes, and so their checksum, stay the same.
pub proof fn lemma_checksum_byte_change_rejected(frame: Seq<u8>, pos: int, byte: u8)
    requires
        decode_frame(frame) is Some,
        pos == 36 || pos == 37,
        byte != frame[pos],
    ensures
        decode_frame(frame.update(pos, byte)) is None,
{
    let g = frame.update(pos, byte);
    assert(g.subrange(0, 4 + g[1]) =~= frame.subrange(0, 4 + frame[1]));
}

/// A packet of the link protocol.
#[derive(Debug)]
pub struct Packet {
    command: CommandType,
    request_id: RequestId,
    length: u8,
    payload: [u8; 32],
    crc: u16,
}

impl View for Packet {
    type V = PacketView;

    closed spec fn view(&self) -> PacketView {
        PacketView {
            command: self.command,
            request_id: self.request_id.0,
            length: self.length as nat,
            payload: self.payload@,
            crc: self.crc,
        }
    }
}

impl Packet {
    /// A packet without payload.
    pub fn new(command: CommandType, request_id: RequestId) -> (r: Self)
        ensures
            r@ == assemble(command, request_id.0, Seq::empty()),
            r@.wf(),
    {
        let mut packet = Packet { command, request_id, length: 0, payload: [0; 32], crc: 0 };
        packet.crc = packet.calculate_crc();
        proof {
            assert(packet@.payload =~= Seq::<u8>::empty() + Seq::new(32, |i: int| 0u8));
            assert(packet@.body() =~= Seq::<u8>::empty());
        }
        packet
    }

    /// A packet carrying `payload`; nothing where the payload is longer than
    /// the command allows.
    pub fn with_payload(command: CommandType, request_id: RequestId, payload: &[u8]) -> (r: Option<
        Self,
    >)
        ensures
            r is Some <==> payload@.len() <= command.spec_max_payload(),
            r matches Some(p) ==> p@ == assemble(command, request_id.0, payload@) && p@.wf(),
    {
        if payload.len() > command.max_payload_size() as usize {
            return None;
        }
        let mut packet = Packet {
            command,
            request_id,
            length: payload.len() as u8,
            payload: [0; 32],
            crc: 0,
        };
        let mut i: usize = 0;
        while i < payload.len()
            invariant
                payload@.len() <= 32,
                i <= payload@.len(),
                packet.command == command,
                packet.request_id == request_id,
                packet.length == payload@.len(),
                forall|k: int| 0 <= k < i ==> packet.payload@[k] == payload@[k],
                forall|k: int| payload@.len() <= k < 32 ==> packet.payload@[k] == 0,
            decreases payload@.len() - i,
        {
            packet.payload[i] = payload[i];
            i = i + 1;
        }
        packet.crc = packet.calculate_crc();
        proof {
            let a = assemble(command, request_id.0, payload@);
            assert(packet@.payload =~= a.payload);
            assert(packet@.body() =~= payload@);
        }
        Some(packet)
    }

    pub fn request_id(&self) -> (r: RequestId)
        ensures
            r.0 == self@.request_id,
    {
        self.request_id
    }

    pub fn command(&self) -> (r: CommandType)
        ensures
            r == self@.command,
    {
        self.command
    }

    /// The meaningful part of the payload.
    pub fn body(&self) -> (r: &[u8])
        requires
            self@.length <= PAYLOAD_CAPACITY,
        ensures
            r@ == self@.body(),
    {
        slice_prefix(self.payload.as_slice(), self.length as usize)
    }

    /// The frame for this packet.
    pub fn serialize(&self) -> (r: [u8; 38])
        ensures
            r@ == encode_frame(self@),
    {
        let mut buffer = [0u8; 38];
        buffer[0] = self.command.code();
        buffer[1] = self.length;
        buffer[2] = (self.request_id.0 % 256) as u8;
        buffer[3] = (self.request_id.0 / 256) as u8;
        let mut i: usize = 0;
        while i < PAYLOAD_CAPACITY
            invariant
                i <= PAYLOAD_CAPACITY,
                buffer[0] == self.command.spec_code(),
                buffer[1] == self.length,
                buffer[2] == (self.request_id.0 % 256) as u8,
                buffer[3] == (self.request_id.0 / 256) as u8,
                forall|k: int| 0 <= k < i ==> buffer@[4 + k] == self.payload@[k],
            decreases PAYLOAD_CAPACITY - i,
        {
            buffer[4 + i] = self.payload[i];
            i = i + 1;
        }
        buffer[36] = (self.crc % 256) as u8;
        buffer[37] = (self.crc / 256) as u8;
        proof {
            assert(buffer@ =~= encode_frame(self@));
        }
        buffer
    }

    /// The packet a received frame holds; nothing where the frame is
    /// malformed or corrupt.
    pub fn deserialize(data: &[u8]) -> (r: Option<Self>)
        ensures
            match r {
                Some(p) => decode_frame(data@) == Some(p@) && p@.wf(),
                None => decode_frame(data@) is None,
            },
    {
        if data.len() != FRAME_LEN {
            return None;
        }
        let command = match CommandType::from_code(data[0]) {
            Some(c) => c,
            None => return None,
        };
        let length = data[1];
        if length > command.max_payload_size() {
            return None;
        }
        let request_id = RequestId(data[2] as u16 + 256 * data[3] as u16);
        let mut packet = Packet { command, request_id, length, payload: [0; 32], crc: 0 };
        let mut i: usize = 0;
        while i < PAYLOAD_CAPACITY
            invariant
                data@.len() == FRAME_LEN,
                i <= PAYLOAD_CAPACITY,
                packet.command == command,
                packet.request_id == request_id,
                packet.length == length,
                forall|k: int| 0 <= k < i ==> packet.payload@[k] == data@[4 + k],
            decreases PAYLOAD_CAPACITY - i,
        {
            packet.payload[i] = data[4 + i];
            i = i + 1;
        }
        let received_crc = data[36] as u16 + 256 * data[37] as u16;
        packet.crc = packet.calculate_crc();
        proof {
            assert(packet@.payload =~= data@.subrange(4, 36));
            assert(covered_bytes(command, request_id.0, packet@.body()) =~= data@.subrange(
                0,
                4 + length,
            ));
        }
        if packet.crc != received_crc {
            return None;
        }
        Some(packet)
    }

    /// The checksum over the header and the meaningful payload.
    fn calculate_crc(&self) -> (r: u16)
        requires
            self.length <= PAYLOAD_CAPACITY,
        ensures
            r == crc16_ccitt_false(covered_bytes(self.command, self.request_id.0, self@.body())),
    {
        let mut data: Vec<u8> = Vec::new();
        data.push(self.command.code());
        data.push(self.length);
        data.push((self.request_id.0 % 256) as u8);
        data.push((self.request_id.0 / 256) as u8);
        let mut i: usize = 0;
        while i < self.length as usize
            invariant
                self.length <= PAYLOAD_CAPACITY,
                i <= self.length,
                data@ =~= seq![self.command.spec_code(), self.length] + le_bytes(self.request_id.0)
                    + self.payload@.subrange(0, i as int),
            decreases self.length - i,
        {
            data.push(self.payload[i]);
            i = i + 1;
            proof {
                assert(data@ =~= seq![self.command.spec_code(), self.length] + le_bytes(
                    self.request_id.0,
                ) + self.payload@.subrange(0, i as int));
            }
        }
        proof {
            assert(data@ =~= covered_bytes(self.command, self.request_id.0, self@.body()));
        }
        ccitt_false_checksum(data.as_slice())
    }
}

/// The first `len` elements of `s`.
fn slice_prefix(s: &[u8], len: usize) -> (r: &[u8])
    requires
        len <= s@.len(),
    ensures
        r@ == s@.subrange(0, len as int),
{
    vstd::slice::slice_subrange(s, 0, len)
}

} // verus!
