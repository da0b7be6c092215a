use vstd::prelude::*;

verus! {

/// The states of the transfer protocol engine.
/// The state that waits for an acknowledgement is `WaitAck`; the state it waits on
/// behalf of is kept beside it by the session.
#[derive(Clone, Copy, Debug, PartialEq, Eq, Structural)]
pub enum TransferState {
    /// Sends the handshake byte until the target takes it.
    FirstContact,
    /// Waits for the target's acknowledgement.
    WaitAck,
    /// Sends the executable's header.
    SendHeader,
    /// Sends the size of the executable's body.
    SendExeSize,
    /// Gives the target time to clear its memory.
    CleaningRAM,
    /// Sends the next packet of the executable's body.
    SendExeData,
    /// Reads a file request from the target.
    WaitFileRequest,
    /// Serves the requested file.
    SendFile,
    /// The session is over.
    Finished,
}

/// Byte sent to the target to open the handshake (`c`).
pub const HANDSHAKE_BYTE: u8 = 0x63;

/// Byte the target answers with as a positive acknowledgement (`b`).
pub const ACK_BYTE: u8 = 0x62;

/// The state reached after a positive acknowledgement, given the state that waited for it.
pub open spec fn ack_target(prev: TransferState) -> TransferState {
    match prev {
        TransferState::FirstContact => TransferState::SendHeader,
        TransferState::SendHeader => TransferState::SendExeSize,
        TransferState::SendExeSize => TransferState::CleaningRAM,
        TransferState::CleaningRAM => TransferState::SendExeData,
        TransferState::SendExeData => TransferState::SendExeData,
        TransferState::SendFile => TransferState::SendFile,
        _ => TransferState::Finished,
    }
}

/// Whether what was read is exactly one acknowledgement byte.
pub open spec fn is_ack(read: Seq<u8>) -> bool {
    read.len() == 1 && read[0] == ACK_BYTE
}

/// The state that follows an acknowledgement wait that read `read`.
pub open spec fn after_ack_wait(prev: TransferState, read: Seq<u8>) -> TransferState {
    if is_ack(read) {
        ack_target(prev)
    } else if prev == TransferState::SendExeSize {
        TransferState::CleaningRAM
    } else {
        TransferState::WaitAck
    }
}

/// Decides the handshake's next state from the outcome of writing the handshake byte.
pub fn first_contact(written: Option<usize>) -> (r: TransferState)
    ensures
        r == (if written == Some(1usize) {
            TransferState::WaitAck
        } else {
            TransferState::FirstContact
        }),
{
    match written {
        Some(n) => {
            if n == 1 {
                TransferState::WaitAck
            } else {
                TransferState::FirstContact
            }
        },
        None => TransferState::FirstContact,
    }
}

/// Decides the next state after waiting for an acknowledgement on behalf of `prev_state`.
pub fn wait_ack_default(read: &[u8], prev_state: TransferState) -> (r: TransferState)
    ensures
        r == after_ack_wait(prev_state, read@),
{
    if read.len() == 1 && read[0] == ACK_BYTE {
        match prev_state {
            TransferState::FirstContact => TransferState::SendHeader,
            TransferState::SendHeader => TransferState::SendExeSize,
            TransferState::SendExeSize => TransferState::CleaningRAM,
            TransferState::CleaningRAM => TransferState::SendExeData,
            TransferState::SendExeData => TransferState::SendExeData,
            TransferState::SendFile => TransferState::SendFile,
            _ => TransferState::Finished,
        }
    } else {
        match prev_state {
            TransferState::SendExeSize => TransferState::CleaningRAM,
            _ => TransferState::WaitAck,
        }
    }
}

/// The state that follows the wait in `CleaningRAM` that read `read`: the body
/// follows a positive acknowledgement and also a timeout, since the target may stay
/// silent while it clears its memory; a wrong byte keeps waiting.
pub open spec fn after_cleaning(read: Seq<u8>) -> TransferState {
    if is_ack(read) || read.len() == 0 {
        TransferState::SendExeData
    } else {
        TransferState::CleaningRAM
    }
}

/// Decides the next state after the wait in `CleaningRAM`.
pub fn cleaning_ram(read: &[u8]) -> (r: TransferState)
    ensures
        r == after_cleaning(read@),
{
    if read.len() == 0 || (read.len() == 1 && read[0] == ACK_BYTE) {
        TransferState::SendExeData
    } else {
        TransferState::CleaningRAM
    }
}

/// Size in bytes of one packet on the link.
pub const PACKET_SIZE: usize = 8;

/// Size in bytes of the executable's header.
pub const HEADER_SIZE: usize = 32;

/// Offset in the executable at which its body begins.
pub const EXE_DATA_OFFSET: usize = 2048;

/// Where the packet that starts at `from` ends: a full packet, or the end of the data.
pub open spec fn packet_end(len: int, from: int) -> int {
    if from + PACKET_SIZE <= len {
        from + PACKET_SIZE
    } else {
        len
    }
}

/// The packet of `data` that starts at `from`.
pub open spec fn chunk_at(data: Seq<u8>, from: int) -> Seq<u8> {
    data.subrange(from, packet_end(data.len() as int, from))
}

/// Every packet from `from` to the end of `data`, concatenated in the order they are sent.
pub open spec fn streamed(data: Seq<u8>, from: int) -> Seq<u8>
    decreases data.len() - from,
{
    if from < 0 || from >= data.len() {
        Seq::empty()
    } else {
        chunk_at(data, from) + streamed(data, packet_end(data.len() as int, from))
    }
}

/// The four bytes of `n`, least significant first, cut to 32 bits.
pub open spec fn size_field(n: nat) -> Seq<u8> {
    seq![
        (n % 256) as u8,
        ((n / 256) % 256) as u8,
        ((n / 65536) % 256) as u8,
        ((n / 16777216) % 256) as u8,
    ]
}

/// The unsigned integer that four bytes encode, least significant first.
pub open spec fn le_value(b: Seq<u8>) -> nat {
    (b[0] + 256 * b[1] + 65536 * b[2] + 16777216 * b[3]) as nat
}

/// The body size announced for an executable image.
pub open spec fn body_size(image: Seq<u8>) -> int {
    image.len() - EXE_DATA_OFFSET
}

/// Copies `data[from..to]` into a new vector.
pub fn copy_range(data: &[u8], from: usize, to: usize) -> (r: Vec<u8>)
    requires
        from <= to <= data@.len(),
    ensures
        r@ == data@.subrange(from as int, to as int),
{
    let mut r: Vec<u8> = Vec::new();
    let mut i: usize = from;
    while i < to
        invariant
            from <= i <= to,
            to <= data@.len(),
            r@ == data@.subrange(from as int, i as int),
        decreases to - i,
    {
        r.push(data[i]);
        i = i + 1;
    }
    r
}

/// Encodes `n` as the four-byte little-endian size field of the protocol.
pub fn encode_size(n: usize) -> (r: Vec<u8>)
    ensures
        r@ == size_field(n as nat),
{
    let v: Vec<u8> = vec![
        (n % 256) as u8,
        ((n / 256) % 256) as u8,
        ((n / 65536) % 256) as u8,
        ((n / 16777216) % 256) as u8,
    ];
    v
}

/// How many whole header packets an image of `len` bytes yields: the four of the
/// header, or, for an image shorter than the header, those before the first packet
/// that cannot be cut.
pub open spec fn header_packet_count(len: nat) -> nat {
    if len >= HEADER_SIZE {
        (HEADER_SIZE / PACKET_SIZE) as nat
    } else {
        len / (PACKET_SIZE as nat)
    }
}

/// The header packets of an executable image, in order: the four 8-byte packets of
/// its first 32 bytes, or, when the image is shorter than its header, the whole
/// packets that come before the first one that cannot be cut.
pub fn send_header(exe_data: &[u8]) -> (r: Vec<Vec<u8>>)
    ensures
        r@.len() == header_packet_count(exe_data@.len()),
        forall|i: int|
            0 <= i < r@.len() ==> #[trigger] r@[i]@ == exe_data@.subrange(
                i * PACKET_SIZE,
                i * PACKET_SIZE + PACKET_SIZE,
            ),
{
    let mut packets: Vec<Vec<u8>> = Vec::new();
    let mut start: usize = 0;
    while start < HEADER_SIZE && PACKET_SIZE <= exe_data.len() - start
        invariant
            start % PACKET_SIZE == 0,
            start <= HEADER_SIZE,
            start <= exe_data@.len(),
            packets@.len() == start / PACKET_SIZE,
            forall|i: int|
                0 <= i < packets@.len() ==> #[trigger] packets@[i]@ == exe_data@.subrange(
                    i * PACKET_SIZE,
                    i * PACKET_SIZE + PACKET_SIZE,
                ),
        decreases HEADER_SIZE - start,
    {
        let packet = copy_range(exe_data, start, start + PACKET_SIZE);
        packets.push(packet);
        start = start + PACKET_SIZE;
    }
    assert(packets@.len() == header_packet_count(exe_data@.len())) by (nonlinear_arith)
        requires
            start % 8 == 0,
            start <= 32,
            start <= exe_data@.len(),
            packets@.len() == start / 8,
            start == 32 || exe_data@.len() - start < 8,
    ;
    packets
}

/// The size field announced before the body, or `None` when the image has no body.
pub fn send_exe_size(exe_data: &[u8]) -> (r: Option<Vec<u8>>)
    ensures
        r is Some <==> exe_data@.len() > EXE_DATA_OFFSET,
        r matches Some(field) ==> field@ == size_field(body_size(exe_data@) as nat),
{
    if exe_data.len() > EXE_DATA_OFFSET {
        Some(encode_size(exe_data.len() - EXE_DATA_OFFSET))
    } else {
        None
    }
}

/// The packet of `data` that starts at `sent_bytes`, or `None` once all of it was sent.
pub fn next_chunk(data: &[u8], sent_bytes: usize) -> (r: Option<Vec<u8>>)
    ensures
        r is Some <==> sent_bytes < data@.len(),
        r matches Some(c) ==> c@ == chunk_at(data@, sent_bytes as int),
{
    if sent_bytes < data.len() {
        let end: usize = if data.len() - sent_bytes >= PACKET_SIZE {
            sent_bytes + PACKET_SIZE
        } else {
            data.len()
        };
        Some(copy_range(data, sent_bytes, end))
    } else {
        None
    }
}

/// The next packet of the executable's body after `sent_bytes` body bytes, or `None`
/// once the whole body was sent.
pub fn send_exe_data(exe_data: &[u8], sent_bytes: usize) -> (r: Option<Vec<u8>>)
    ensures
        r is Some <==> sent_bytes + EXE_DATA_OFFSET < exe_data@.len(),
        r matches Some(c) ==> c@ == chunk_at(exe_data@, sent_bytes + EXE_DATA_OFFSET),
{
    if exe_data.len() > EXE_DATA_OFFSET && sent_bytes < exe_data.len() - EXE_DATA_OFFSET {
        next_chunk(exe_data, sent_bytes + EXE_DATA_OFFSET)
    } else {
        None
    }
}

/// Streaming `data` packet by packet from any offset `from` sends exactly the rest
/// of it, `data[from..]`.
pub proof fn lemma_streamed(data: Seq<u8>, from: int)
    requires
        0 <= from <= data.len(),
    ensures
        streamed(data, from) == data.subrange(from, data.len() as int),
    decreases data.len() - from,
{
    if from < data.len() {
        let next = packet_end(data.len() as int, from);
        lemma_streamed(data, next);
        assert(streamed(data, from) =~= data.subrange(from, data.len() as int));
    } else {
        assert(streamed(data, from) =~= data.subrange(from, data.len() as int));
    }
}

/// Streaming the body packet by packet from the body offset sends the body exactly:
/// the packets, concatenated in order, are `image[2048..]`, each packet holds at most
/// `PACKET_SIZE` bytes, and only the last may be shorter.
pub proof fn body_stream_is_body(image: Seq<u8>)
    requires
        image.len() >= EXE_DATA_OFFSET,
    ensures
        streamed(image, EXE_DATA_OFFSET as int) == image.subrange(
            EXE_DATA_OFFSET as int,
            image.len() as int,
        ),
        forall|from: int|
            EXE_DATA_OFFSET <= from < image.len() ==> {
                &&& #[trigger] chunk_at(image, from).len() <= PACKET_SIZE
                &&& chunk_at(image, from).len() < PACKET_SIZE ==> packet_end(
                    image.len() as int,
                    from,
                ) == image.len()
            },
{
    lemma_streamed(image, EXE_DATA_OFFSET as int);
}

/// The size field of an image with a body reads back, as a little-endian 32-bit
/// unsigned integer, as the body size `len - 2048`.
pub proof fn size_field_reads_back(image: Seq<u8>)
    requires
        image.len() > EXE_DATA_OFFSET,
        body_size(image) <= u32::MAX,
    ensures
        body_size(image) > 0,
        le_value(size_field(body_size(image) as nat)) == body_size(image),
{
    let n = body_size(image) as nat;
    let b = size_field(n);
    let q1 = n / 256;
    let q2 = q1 / 256;
    let q3 = q2 / 256;
    assert(n == 256 * q1 + n % 256) by (nonlinear_arith)
        requires q1 == n / 256;
    assert(q1 == 256 * q2 + q1 % 256) by (nonlinear_arith)
        requires q2 == q1 / 256;
    assert(q2 == 256 * q3 + q2 % 256) by (nonlinear_arith)
        requires q3 == q2 / 256;
    assert(n / 65536 == q2) by (nonlinear_arith)
        requires q1 == n / 256, q2 == q1 / 256;
    assert(n / 16777216 == q3) by (nonlinear_arith)
        requires q1 == n / 256, q2 == q1 / 256, q3 == q2 / 256;
    assert(q3 < 256) by (nonlinear_arith)
        requires n <= 0xffff_ffff, q1 == n / 256, q2 == q1 / 256, q3 == q2 / 256;
    assert(b[0] == n % 256);
    assert(b[1] == q1 % 256);
    assert(b[2] == q2 % 256);
    assert(b[3] == q3 % 256);
    assert(q3 % 256 == q3);
}

/// After the size was sent, waiting for an acknowledgement always moves on to
/// `CleaningRAM`: a positive acknowledgement and a timeout or a wrong byte converge.
pub proof fn size_ack_wait_converges(read: Seq<u8>)
    ensures
        after_ack_wait(TransferState::SendExeSize, read) == TransferState::CleaningRAM,
{
}

/// A served file is streamed with the same packet rule as the body: its packets,
/// concatenated in order from offset 0, are the whole file, each holds at most
/// `PACKET_SIZE` bytes, and only the last may be shorter.
pub proof fn file_stream_is_file(data: Seq<u8>)
    ensures
        streamed(data, 0) == data,
        forall|from: int|
            0 <= from < data.len() ==> {
                &&& #[trigger] chunk_at(data, from).len() <= PACKET_SIZE
                &&& chunk_at(data, from).len() < PACKET_SIZE ==> packet_end(
                    data.len() as int,
                    from,
                ) == data.len()
            },
{
    lemma_streamed(data, 0);
    assert(data.subrange(0, data.len() as int) =~= data);
}

} // verus!
