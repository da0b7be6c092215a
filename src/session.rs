use vstd::prelude::*;
use crate::image::{is_complete, joined, request_path, resolve_request};
use crate::request::{fed, wait_file_request, RequestAccumulator};
use crate::transfer::{
    after_ack_wait, after_cleaning, header_packet_count, body_size, chunk_at, cleaning_ram, encode_size, first_contact,
    next_chunk, send_exe_data, send_exe_size, send_header, size_field, wait_ack_default,
    TransferState, EXE_DATA_OFFSET, HANDSHAKE_BYTE, HEADER_SIZE, PACKET_SIZE,
};

verus! {

/// Seconds to wait for an acknowledgement.
pub const ACK_TIMEOUT_SECS: u64 = 2;

/// Seconds to wait for a file request.
pub const REQUEST_TIMEOUT_SECS: u64 = 5;

/// Most bytes read at once while waiting for a file request.
pub const REQUEST_READ_SIZE: usize = 128;

/// Milliseconds to pause before each header packet.
pub const PACKET_DELAY_MS: u64 = 100;

/// What the current state asks of the link or of the file system.
#[derive(Debug, PartialEq, Eq)]
pub enum Command {
    /// Write these bytes to the link.
    Write(Vec<u8>),
    /// Write each packet in turn, pausing `PACKET_DELAY_MS` before each.
    WritePaced(Vec<Vec<u8>>),
    /// Read at most `max_len` bytes, waiting at most `timeout_secs`.
    Read { max_len: usize, timeout_secs: u64 },
    /// Read the whole file at this host path.
    Load(Vec<u8>),
    /// Nothing to do outside.
    Idle,
    /// The session is over.
    Stop,
}

/// The outcome of a command, handed back to the session.
#[derive(Debug, PartialEq, Eq)]
pub enum Reply {
    /// How many bytes a write (or all the writes of `WritePaced`) put on the link;
    /// `None` when it failed.
    Written(Option<usize>),
    /// The bytes a read got; empty on a timeout or an error.
    Received(Vec<u8>),
    /// The contents of a loaded file; `None` when it could not be read.
    Loaded(Option<Vec<u8>>),
    /// The answer to `Idle` and `Stop`.
    Nothing,
}

/// Whether `reply` reports a write of exactly `len` bytes.
pub open spec fn written_ok(reply: Reply, len: nat) -> bool {
    reply matches Reply::Written(Some(n)) && n == len
}

/// The bytes that `reply` reports as read.
pub open spec fn read_bytes(reply: Reply) -> Seq<u8> {
    match reply {
        Reply::Received(b) => b@,
        _ => Seq::empty(),
    }
}

/// A file being served: its host path, its contents, and whether its size was sent.
pub struct ActiveFile {
    pub path: Vec<u8>,
    pub data: Vec<u8>,
    pub size_sent: bool,
}

/// The state of a transfer session between the host and the target.
///
/// The driver asks the session for its `command`, carries it out on the link or
/// the file system, and hands the outcome to `advance`. A write that does not put
/// all of its bytes on the link, outside the handshake, ends the session, as does a
/// file that cannot be loaded.
pub struct Session {
    state: TransferState,
    prev_state: TransferState,
    sent_bytes: usize,
    request: RequestAccumulator,
    active: Option<ActiveFile>,
    exe_data: Vec<u8>,
    folder: Vec<u8>,
}

impl Session {
    /// The current state.
    pub closed spec fn spec_state(&self) -> TransferState {
        self.state
    }

    /// The state that an acknowledgement wait waits on behalf of.
    pub closed spec fn spec_prev_state(&self) -> TransferState {
        self.prev_state
    }

    /// How many bytes of the body, or of the served file, were sent.
    pub closed spec fn spec_sent_bytes(&self) -> nat {
        self.sent_bytes as nat
    }

    /// The request token received so far.
    pub closed spec fn spec_token(&self) -> Seq<u8> {
        self.request.token@
    }

    /// Whether the request token is still open.
    pub closed spec fn spec_token_open(&self) -> bool {
        self.request.open
    }

    /// The served file, if any: its path, its contents, and whether its size was sent.
    pub closed spec fn spec_active(&self) -> Option<(Seq<u8>, Seq<u8>, bool)> {
        match self.active {
            Some(f) => Some((f.path@, f.data@, f.size_sent)),
            None => None,
        }
    }

    /// The boot executable.
    pub closed spec fn spec_exe_data(&self) -> Seq<u8> {
        self.exe_data@
    }

    /// The folder of the disc image.
    pub closed spec fn spec_folder(&self) -> Seq<u8> {
        self.folder@
    }

    /// The session's invariant: the sent-byte counter never passes the end of what
    /// is being streamed, and a served file exists only while `SendFile` runs.
    pub open spec fn wf(&self) -> bool {
        &&& self.spec_active() matches Some((_, data, _)) ==> {
            &&& self.spec_sent_bytes() <= data.len()
            &&& self.spec_state() == TransferState::SendFile || self.spec_state()
                == TransferState::Finished || waits_ack(*self, TransferState::SendFile)
        }
        &&& waits_ack(*self, TransferState::SendFile) ==> self.spec_active() is Some
        &&& self.spec_active() is None ==> (self.spec_sent_bytes() == 0 || self.spec_sent_bytes()
            + EXE_DATA_OFFSET <= self.spec_exe_data().len())
        &&& self.spec_active() is None && (self.spec_state() == TransferState::WaitFileRequest
            || self.spec_state() == TransferState::SendFile) ==> self.spec_sent_bytes() == 0
    }

    /// A session that starts with the handshake, serving `exe_data` as the boot
    /// executable and files from under `folder`.
    pub fn new(exe_data: Vec<u8>, folder: Vec<u8>) -> (r: Session)
        ensures
            r.wf(),
            r.spec_state() == TransferState::FirstContact,
            r.spec_sent_bytes() == 0,
            r.spec_token() == Seq::<u8>::empty(),
            !r.spec_token_open(),
            r.spec_active() is None,
            r.spec_exe_data() == exe_data@,
            r.spec_folder() == folder@,
    {
        Session {
            state: TransferState::FirstContact,
            prev_state: TransferState::FirstContact,
            sent_bytes: 0,
            request: RequestAccumulator::new(),
            active: None,
            exe_data,
            folder,
        }
    }

    /// The current state.
    pub fn state(&self) -> (r: TransferState)
        ensures
            r == self.spec_state(),
    {
        self.state
    }

    /// The state that an acknowledgement wait waits on behalf of.
    pub fn prev_state(&self) -> (r: TransferState)
        ensures
            r == self.spec_prev_state(),
    {
        self.prev_state
    }

    /// How many bytes of the body or of the served file were sent.
    pub fn sent_bytes(&self) -> (r: usize)
        ensures
            r == self.spec_sent_bytes(),
    {
        self.sent_bytes
    }

    /// The request token received so far.
    pub fn requested_file(&self) -> (r: &[u8])
        ensures
            r@ == self.spec_token(),
    {
        self.request.token.as_slice()
    }

    /// Whether a file is being served.
    pub fn has_active_file(&self) -> (r: bool)
        ensures
            r == self.spec_active() is Some,
    {
        self.active.is_some()
    }
}

/// How many bytes the packet of a `total`-byte stream that starts at `from` holds.
fn packet_len(total: usize, from: usize) -> (r: usize)
    requires
        from < total,
    ensures
        r == crate::transfer::packet_end(total as int, from as int) - from,
        0 < r <= PACKET_SIZE,
{
    if total - from >= PACKET_SIZE {
        PACKET_SIZE
    } else {
        total - from
    }
}

/// How many bytes `reply` reports as written; zero when a write failed.
fn written_len(reply: &Reply) -> (r: Option<usize>)
    ensures
        r == (match *reply {
            Reply::Written(w) => w,
            _ => None,
        }),
{
    match reply {
        Reply::Written(w) => *w,
        _ => None,
    }
}

/// The bytes that `reply` reports as read.
fn received_bytes(reply: Reply) -> (r: Vec<u8>)
    ensures
        r@ == read_bytes(reply),
{
    match reply {
        Reply::Received(b) => b,
        _ => Vec::new(),
    }
}

impl Session {
    /// What the current state asks of the link or of the file system.
    pub fn command(&self) -> (r: Command)
        requires
            self.wf(),
        ensures
            self.spec_state() == TransferState::FirstContact ==> (r matches Command::Write(b)
                && b@ == seq![HANDSHAKE_BYTE]),
            self.spec_state() == TransferState::WaitAck || self.spec_state()
                == TransferState::CleaningRAM ==> r == (Command::Read {
                max_len: 1,
                timeout_secs: ACK_TIMEOUT_SECS,
            }),
            self.spec_state() == TransferState::SendHeader ==> if header_packet_count(
                self.spec_exe_data().len(),
            ) > 0 {
                (r matches Command::WritePaced(packets) && packets@.len() == header_packet_count(
                    self.spec_exe_data().len(),
                ) && forall|i: int|
                    0 <= i < packets@.len() ==> #[trigger] packets@[i]@
                        == self.spec_exe_data().subrange(
                        i * PACKET_SIZE,
                        i * PACKET_SIZE + PACKET_SIZE,
                    ))
            } else {
                r == Command::Idle
            },
            self.spec_state() == TransferState::SendExeSize ==> if self.spec_exe_data().len()
                > EXE_DATA_OFFSET {
                (r matches Command::Write(b) && b@ == size_field(
                    body_size(self.spec_exe_data()) as nat,
                ))
            } else {
                r == Command::Idle
            },
            self.spec_state() == TransferState::SendExeData ==> if self.spec_sent_bytes()
                + EXE_DATA_OFFSET < self.spec_exe_data().len() {
                (r matches Command::Write(c) && c@ == chunk_at(
                    self.spec_exe_data(),
                    self.spec_sent_bytes() + EXE_DATA_OFFSET,
                ))
            } else {
                r == Command::Idle
            },
            self.spec_state() == TransferState::WaitFileRequest ==> r == (Command::Read {
                max_len: REQUEST_READ_SIZE,
                timeout_secs: REQUEST_TIMEOUT_SECS,
            }),
            self.spec_state() == TransferState::SendFile ==> match self.spec_active() {
                None => match request_path(self.spec_token()) {
                    Some(p) => (r matches Command::Load(path) && path@ == joined(
                        self.spec_folder(),
                        p,
                    )),
                    None => r == Command::Idle,
                },
                Some((_, data, size_sent)) => if !size_sent {
                    (r matches Command::Write(b) && b@ == size_field(data.len()))
                } else if self.spec_sent_bytes() < data.len() {
                    (r matches Command::Write(c) && c@ == chunk_at(data, self.spec_sent_bytes() as int))
                } else {
                    r == Command::Idle
                },
            },
            self.spec_state() == TransferState::Finished ==> r == Command::Stop,
    {
        match self.state {
            TransferState::FirstContact => Command::Write(vec![HANDSHAKE_BYTE]),
            TransferState::WaitAck | TransferState::CleaningRAM => Command::Read {
                max_len: 1,
                timeout_secs: ACK_TIMEOUT_SECS,
            },
            TransferState::SendHeader => {
                let packets = send_header(self.exe_data.as_slice());
                if packets.len() > 0 {
                    Command::WritePaced(packets)
                } else {
                    Command::Idle
                }
            },
            TransferState::SendExeSize => match send_exe_size(self.exe_data.as_slice()) {
                Some(field) => Command::Write(field),
                None => Command::Idle,
            },
            TransferState::SendExeData => match send_exe_data(
                self.exe_data.as_slice(),
                self.sent_bytes,
            ) {
                Some(c) => Command::Write(c),
                None => Command::Idle,
            },
            TransferState::WaitFileRequest => Command::Read {
                max_len: REQUEST_READ_SIZE,
                timeout_secs: REQUEST_TIMEOUT_SECS,
            },
            TransferState::SendFile => match &self.active {
                None => match resolve_request(
                    self.folder.as_slice(),
                    self.request.token.as_slice(),
                ) {
                    Some(path) => Command::Load(path),
                    None => Command::Idle,
                },
                Some(f) => {
                    if !f.size_sent {
                        Command::Write(encode_size(f.data.len()))
                    } else {
                        match next_chunk(f.data.as_slice(), self.sent_bytes) {
                            Some(c) => Command::Write(c),
                            None => Command::Idle,
                        }
                    }
                },
            },
            TransferState::Finished => Command::Stop,
        }
    }
}

/// Whether two sessions hold the same counter, request token and served file.
pub open spec fn same_data(a: Session, b: Session) -> bool {
    &&& a.spec_sent_bytes() == b.spec_sent_bytes()
    &&& a.spec_token() == b.spec_token()
    &&& a.spec_token_open() == b.spec_token_open()
    &&& a.spec_active() == b.spec_active()
}

/// Whether `s` waits for an acknowledgement on behalf of `prev`.
pub open spec fn waits_ack(s: Session, prev: TransferState) -> bool {
    s.spec_state() == TransferState::WaitAck && s.spec_prev_state() == prev
}

/// What one step of `SendFile` does to session `s`, giving `t`, when the command's
/// outcome was `reply`: resolve the request and load the file, announce its size,
/// send its next packet, or, once it is all sent, drop it and wait for a new request.
pub open spec fn served(s: Session, t: Session, reply: Reply) -> bool {
    &&& t.spec_exe_data() == s.spec_exe_data()
    &&& t.spec_folder() == s.spec_folder()
    &&& s.spec_active() is None ==> match request_path(s.spec_token()) {
        None => {
            &&& t.spec_state() == TransferState::WaitFileRequest
            &&& t.spec_token() == Seq::<u8>::empty()
            &&& !t.spec_token_open()
            &&& t.spec_active() is None
            &&& t.spec_sent_bytes() == 0
        },
        Some(p) => match reply {
            Reply::Loaded(Some(data)) => {
                &&& t.spec_state() == TransferState::SendFile
                &&& t.spec_active() == Some((joined(s.spec_folder(), p), data@, false))
                &&& t.spec_sent_bytes() == 0
                &&& t.spec_token() == s.spec_token()
            },
            _ => {
                &&& t.spec_state() == TransferState::Finished
                &&& t.spec_active() is None
                &&& t.spec_sent_bytes() == s.spec_sent_bytes()
                &&& t.spec_token() == s.spec_token()
            },
        },
    }
    &&& s.spec_active() matches Some((path, data, size_sent)) ==> {
        let chunk = chunk_at(data, s.spec_sent_bytes() as int);
        if !size_sent {
            if written_ok(reply, 4) {
                &&& waits_ack(t, TransferState::SendFile)
                &&& t.spec_active() == Some((path, data, true))
                &&& t.spec_sent_bytes() == s.spec_sent_bytes()
                &&& t.spec_token() == s.spec_token()
            } else {
                &&& t.spec_state() == TransferState::Finished
                &&& t.spec_active() == s.spec_active()
                &&& t.spec_sent_bytes() == s.spec_sent_bytes()
                &&& t.spec_token() == s.spec_token()
            }
        } else if s.spec_sent_bytes() >= data.len() {
            &&& t.spec_state() == TransferState::WaitFileRequest
            &&& t.spec_sent_bytes() == 0
            &&& t.spec_active() is None
            &&& t.spec_token() == Seq::<u8>::empty()
            &&& !t.spec_token_open()
        } else if written_ok(reply, chunk.len()) {
            &&& waits_ack(t, TransferState::SendFile)
            &&& t.spec_active() == s.spec_active()
            &&& t.spec_sent_bytes() == s.spec_sent_bytes() + chunk.len()
            &&& t.spec_token() == s.spec_token()
        } else {
            &&& t.spec_state() == TransferState::Finished
            &&& t.spec_active() == s.spec_active()
            &&& t.spec_sent_bytes() == s.spec_sent_bytes()
            &&& t.spec_token() == s.spec_token()
        }
    }
}

impl Session {
    /// One step of `SendFile`: resolves the request and takes in the loaded file,
    /// announces its size, sends its next packet, or, once it is all sent, drops it
    /// and clears the request.
    pub fn send_file(&mut self, reply: Reply)
        requires
            old(self).wf(),
            old(self).spec_state() == TransferState::SendFile,
        ensures
            final(self).wf(),
            served(*old(self), *final(self), reply),
    {
        let written = written_len(&reply);
        match self.active.take() {
            None => {
                match resolve_request(self.folder.as_slice(), self.request.token.as_slice()) {
                    None => {
                        self.request.clear();
                        self.sent_bytes = 0;
                        self.state = TransferState::WaitFileRequest;
                    },
                    Some(path) => match reply {
                        Reply::Loaded(Some(data)) => {
                            self.active = Some(ActiveFile { path, data, size_sent: false });
                            self.sent_bytes = 0;
                        },
                        _ => {
                            self.state = TransferState::Finished;
                        },
                    },
                }
            },
            Some(f) => {
                if !f.size_sent {
                    if written == Some(4usize) {
                        self.active = Some(ActiveFile { path: f.path, data: f.data, size_sent: true });
                        self.prev_state = TransferState::SendFile;
                        self.state = TransferState::WaitAck;
                    } else {
                        self.active = Some(f);
                        self.state = TransferState::Finished;
                    }
                } else if self.sent_bytes >= f.data.len() {
                    self.sent_bytes = 0;
                    self.request.clear();
                    self.state = TransferState::WaitFileRequest;
                } else {
                    let len = packet_len(f.data.len(), self.sent_bytes);
                    self.active = Some(f);
                    if written == Some(len) {
                        self.sent_bytes = self.sent_bytes + len;
                        self.prev_state = TransferState::SendFile;
                        self.state = TransferState::WaitAck;
                    } else {
                        self.state = TransferState::Finished;
                    }
                }
            },
        }
    }
}

impl Session {
    /// Moves the session on, given the outcome of the command of its current state.
    pub fn advance(&mut self, reply: Reply)
        requires
            old(self).wf(),
        ensures
            final(self).wf(),
            final(self).spec_exe_data() == old(self).spec_exe_data(),
            final(self).spec_folder() == old(self).spec_folder(),
            old(self).spec_state() == TransferState::FirstContact ==> same_data(
                *final(self),
                *old(self),
            ) && if reply == Reply::Written(Some(1usize)) {
                waits_ack(*final(self), TransferState::FirstContact)
            } else {
                final(self).spec_state() == TransferState::FirstContact
            },
            old(self).spec_state() == TransferState::WaitAck ==> same_data(*final(self), *old(self))
                && final(self).spec_prev_state() == old(self).spec_prev_state()
                && final(self).spec_state() == after_ack_wait(
                old(self).spec_prev_state(),
                read_bytes(reply),
            ),
            waits_ack(*old(self), TransferState::SendExeSize) ==> final(self).spec_state()
                == TransferState::CleaningRAM,
            old(self).spec_state() == TransferState::SendHeader ==> same_data(
                *final(self),
                *old(self),
            ) && if old(self).spec_exe_data().len() >= HEADER_SIZE && written_ok(
                reply,
                HEADER_SIZE as nat,
            ) {
                waits_ack(*final(self), TransferState::SendHeader)
            } else {
                final(self).spec_state() == TransferState::Finished
            },
            old(self).spec_state() == TransferState::SendExeSize ==> same_data(
                *final(self),
                *old(self),
            ) && if old(self).spec_exe_data().len() > EXE_DATA_OFFSET && written_ok(reply, 4) {
                waits_ack(*final(self), TransferState::SendExeSize)
            } else {
                final(self).spec_state() == TransferState::Finished
            },
            old(self).spec_state() == TransferState::CleaningRAM ==> same_data(
                *final(self),
                *old(self),
            ) && final(self).spec_state() == after_cleaning(read_bytes(reply)),
            old(self).spec_state() == TransferState::SendExeData ==> {
                let cursor = old(self).spec_sent_bytes() + EXE_DATA_OFFSET;
                let chunk = chunk_at(old(self).spec_exe_data(), cursor);
                &&& final(self).spec_token() == old(self).spec_token()
                &&& final(self).spec_token_open() == old(self).spec_token_open()
                &&& final(self).spec_active() == old(self).spec_active()
                &&& if cursor >= old(self).spec_exe_data().len() {
                    final(self).spec_sent_bytes() == 0 && final(self).spec_state()
                        == TransferState::WaitFileRequest
                } else if written_ok(reply, chunk.len()) {
                    final(self).spec_sent_bytes() == old(self).spec_sent_bytes() + chunk.len()
                        && waits_ack(*final(self), TransferState::SendExeData)
                } else {
                    final(self).spec_sent_bytes() == old(self).spec_sent_bytes()
                        && final(self).spec_state() == TransferState::Finished
                }
            },
            old(self).spec_state() == TransferState::WaitFileRequest ==> {
                let read = read_bytes(reply);
                &&& final(self).spec_sent_bytes() == old(self).spec_sent_bytes()
                &&& final(self).spec_active() == old(self).spec_active()
                &&& read.len() == 0 ==> final(self).spec_token() == old(self).spec_token()
                    && final(self).spec_token_open() == old(self).spec_token_open()
                    && final(self).spec_state() == TransferState::WaitFileRequest
                &&& read.len() > 0 ==> (final(self).spec_token(), final(self).spec_token_open())
                    == fed(old(self).spec_token(), old(self).spec_token_open(), read)
                    && final(self).spec_state() == if is_complete(final(self).spec_token()) {
                    TransferState::SendFile
                } else {
                    TransferState::WaitFileRequest
                }
            },
            old(self).spec_state() == TransferState::SendFile ==> served(
                *old(self),
                *final(self),
                reply,
            ),
            old(self).spec_state() == TransferState::Finished ==> *final(self) == *old(self),
    {
        let written = written_len(&reply);
        match self.state {
            TransferState::FirstContact => {
                let next = first_contact(written);
                if next == TransferState::WaitAck {
                    self.prev_state = TransferState::FirstContact;
                }
                self.state = next;
            },
            TransferState::WaitAck => {
                let read = received_bytes(reply);
                self.state = wait_ack_default(read.as_slice(), self.prev_state);
            },
            TransferState::SendHeader => {
                if self.exe_data.len() >= HEADER_SIZE && written == Some(HEADER_SIZE) {
                    self.prev_state = TransferState::SendHeader;
                    self.state = TransferState::WaitAck;
                } else {
                    self.state = TransferState::Finished;
                }
            },
            TransferState::SendExeSize => {
                if self.exe_data.len() > EXE_DATA_OFFSET && written == Some(4usize) {
                    self.prev_state = TransferState::SendExeSize;
                    self.state = TransferState::WaitAck;
                } else {
                    self.state = TransferState::Finished;
                }
            },
            TransferState::CleaningRAM => {
                let read = received_bytes(reply);
                self.state = cleaning_ram(read.as_slice());
            },
            TransferState::SendExeData => {
                let total = self.exe_data.len();
                if total > EXE_DATA_OFFSET && self.sent_bytes < total - EXE_DATA_OFFSET {
                    let len = packet_len(total, self.sent_bytes + EXE_DATA_OFFSET);
                    if written == Some(len) {
                        self.sent_bytes = self.sent_bytes + len;
                        self.prev_state = TransferState::SendExeData;
                        self.state = TransferState::WaitAck;
                    } else {
                        self.state = TransferState::Finished;
                    }
                } else {
                    self.sent_bytes = 0;
                    self.state = TransferState::WaitFileRequest;
                }
            },
            TransferState::WaitFileRequest => {
                let read = received_bytes(reply);
                self.state = wait_file_request(&mut self.request, read.as_slice());
            },
            TransferState::SendFile => {
                self.send_file(reply);
            },
            TransferState::Finished => {},
        }
    }
}

} // verus!
