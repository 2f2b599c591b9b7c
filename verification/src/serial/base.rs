//! One serial port's connection state and the decisions of its operations.
//!
//! The channel never touches the operating system itself. Each operation is
//! split where it would wait: the part before says what the driver has to do
//! (acquire the handle, write, read), the part after takes what came of it
//! and says what follows.

use vstd::prelude::*;
use crate::serial::lists::{
    distinct,
    lemma_distinct_push,
    lemma_distinct_remove,
    lemma_position_of,
    position_of,
};

verus! {

/// Shortest response a transaction stops reading at.
pub const MIN_RESPONSE_LENGTH: usize = 4;

/// How long the ingestion task waits before it looks again for an absent
/// port, in milliseconds.
pub const ABSENT_RETRY_MS: u64 = 1000;

/// Read timeout of a channel made for transactions only, in milliseconds.
pub const SCPI_READ_TIMEOUT_MS: u64 = 1000;

/// Queue length of a channel made for transactions only.
pub const SCPI_BUFFER_SIZE: usize = 10;

/// A chunk of bytes as it came from the port.
#[derive(Debug, PartialEq, Eq)]
pub struct ReceivedData {
    pub data: Vec<u8>,
}

/// Why a channel operation did not go through. None of these is fatal.
#[derive(Debug, Clone, PartialEq, Eq)]
pub enum ChannelError {
    /// The channel is not connected.
    NotOpen,
    /// No response within the deadline.
    Timeout,
    /// The port reported end of stream before any response byte.
    ConnectionClosed,
    /// The operating system refused; the text is its cause.
    Io(String),
}

/// What a read on the port came to.
#[derive(Debug, PartialEq, Eq)]
pub enum ReadOutcome {
    /// The bytes read; none at all means end of stream.
    Data(Vec<u8>),
    /// The read failed with this cause.
    Failed(String),
    /// Nothing arrived in time.
    TimedOut,
}

/// What `open` asks of the driver.
#[derive(Debug, PartialEq, Eq)]
pub enum OpenStep {
    /// The handle is already held: nothing to acquire.
    AlreadyOpen,
    /// Acquire the handle for this port at this baud rate, then report with
    /// `finish_open`.
    Acquire { port_path: String, baud_rate: u32 },
}

/// What wakes the ingestion task.
#[derive(Debug, PartialEq, Eq)]
pub enum ReceiveEvent {
    /// The task starts an iteration: at its start, or after a wait.
    Wake,
    /// The read it was told to make has ended.
    Read(ReadOutcome),
    /// The chunk it was told to forward was taken by the queue, or not.
    Forwarded(bool),
}

/// What the ingestion task does next.
#[derive(Debug, PartialEq, Eq)]
pub enum ReceiveAction {
    /// End the task for good.
    Stop,
    /// Read from the port, giving up after this many milliseconds.
    Read { timeout_ms: u64 },
    /// The port is absent: wait this many milliseconds.
    Wait { millis: u64 },
    /// Hand this chunk to the processing task.
    Forward(ReceivedData),
}

/// The state of a channel as contracts see it.
pub struct ChannelModel {
    pub port_path: Seq<char>,
    pub baud_rate: u32,
    pub read_timeout_ms: u64,
    pub buffer_size: usize,
    pub auto_receive: bool,
    /// The handle slot is filled.
    pub port_present: bool,
    /// The fast-path flag.
    pub connected: bool,
    /// The cancellation scope has been signalled.
    pub cancelled: bool,
    /// Everything the processing task has taken from the queue.
    pub accumulated: Seq<u8>,
}

/// Connection state of one serial port.
#[derive(Debug)]
pub struct SerialPortManager {
    port_path: String,
    baud_rate: u32,
    read_timeout_ms: u64,
    buffer_size: usize,
    auto_receive: bool,
    port_present: bool,
    is_connected: bool,
    cancelled: bool,
    accumulated: Vec<u8>,
}

impl View for SerialPortManager {
    type V = ChannelModel;

    closed spec fn view(&self) -> ChannelModel {
        ChannelModel {
            port_path: self.port_path@,
            baud_rate: self.baud_rate,
            read_timeout_ms: self.read_timeout_ms,
            buffer_size: self.buffer_size,
            auto_receive: self.auto_receive,
            port_present: self.port_present,
            connected: self.is_connected,
            cancelled: self.cancelled,
            accumulated: self.accumulated@,
        }
    }
}

/// A new channel: closed, with nothing accumulated.
pub open spec fn fresh_channel(
    port_path: Seq<char>,
    baud_rate: u32,
    read_timeout_ms: u64,
    buffer_size: usize,
    auto_receive: bool,
    cancelled: bool,
) -> ChannelModel {
    ChannelModel {
        port_path,
        baud_rate,
        read_timeout_ms,
        buffer_size,
        auto_receive,
        port_present: false,
        connected: false,
        cancelled,
        accumulated: Seq::<u8>::empty(),
    }
}

/// A new channel for transactions only.
pub open spec fn fresh_scpi_channel(port_path: Seq<char>, baud_rate: u32, cancelled: bool)
    -> ChannelModel {
    fresh_channel(port_path, baud_rate, SCPI_READ_TIMEOUT_MS, SCPI_BUFFER_SIZE, false, cancelled)
}

/// A connected channel holds its handle.
pub open spec fn channel_wf(channel: ChannelModel) -> bool {
    channel.connected ==> channel.port_present
}

/// What the ingestion task does at the start of an iteration.
pub open spec fn poll_action(channel: ChannelModel) -> ReceiveAction {
    if channel.cancelled {
        ReceiveAction::Stop
    } else if channel.port_present {
        ReceiveAction::Read { timeout_ms: channel.read_timeout_ms }
    } else {
        ReceiveAction::Wait { millis: ABSENT_RETRY_MS }
    }
}

/// The channel with its handle released and its flag cleared.
pub open spec fn closed_channel(channel: ChannelModel) -> ChannelModel {
    ChannelModel { port_present: false, connected: false, ..channel }
}

/// Whether a read ended the stream or failed, which marks the port absent.
pub open spec fn read_lost_port(outcome: ReadOutcome) -> bool {
    match outcome {
        ReadOutcome::Data(chunk) => chunk@.len() == 0,
        ReadOutcome::Failed(_) => true,
        ReadOutcome::TimedOut => false,
    }
}

/// The channel after one decision of the ingestion task.
pub open spec fn after_receive(channel: ChannelModel, event: ReceiveEvent) -> ChannelModel {
    match event {
        ReceiveEvent::Forwarded(delivered) => if delivered {
            channel
        } else {
            ChannelModel { connected: false, ..channel }
        },
        ReceiveEvent::Wake => channel,
        ReceiveEvent::Read(outcome) => if !channel.cancelled && read_lost_port(outcome) {
            closed_channel(channel)
        } else {
            channel
        },
    }
}

/// What the ingestion task does next after one decision.
pub open spec fn receive_action(channel: ChannelModel, event: ReceiveEvent) -> ReceiveAction {
    match event {
        ReceiveEvent::Forwarded(delivered) => if delivered {
            poll_action(channel)
        } else {
            ReceiveAction::Stop
        },
        ReceiveEvent::Wake => poll_action(channel),
        ReceiveEvent::Read(outcome) => if channel.cancelled {
            ReceiveAction::Stop
        } else {
            match outcome {
                ReadOutcome::Data(chunk) => if chunk@.len() > 0 {
                    ReceiveAction::Forward(ReceivedData { data: chunk })
                } else {
                    poll_action(closed_channel(channel))
                },
                ReadOutcome::Failed(_) => poll_action(closed_channel(channel)),
                ReadOutcome::TimedOut => poll_action(channel),
            }
        },
    }
}

/// The channel after one decision of the processing task.
pub open spec fn after_process(channel: ChannelModel, received: Option<ReceivedData>)
    -> ChannelModel {
    if channel.cancelled {
        channel
    } else {
        match received {
            Some(item) => ChannelModel {
                accumulated: channel.accumulated + item.data@,
                ..channel
            },
            None => channel,
        }
    }
}

/// Once a channel's scope is cancelled, the ingestion task stops at its next
/// decision, whatever woke it, and so does the processing task; neither
/// changes anything but, for a chunk the queue refused, the flag.
pub proof fn lemma_cancelled_tasks_stop(
    channel: ChannelModel,
    event: ReceiveEvent,
    received: Option<ReceivedData>,
)
    requires
        channel.cancelled,
    ensures
        receive_action(channel, event) is Stop,
        after_receive(channel, event).cancelled,
        after_process(channel, received) == channel,
{
}

/// The channel with its cancellation scope signalled.
pub open spec fn scope_cancelled(channel: ChannelModel) -> ChannelModel {
    ChannelModel { cancelled: true, ..channel }
}

/// The channel closed and with its cancellation scope signalled.
pub open spec fn cancelled_channel(channel: ChannelModel) -> ChannelModel {
    ChannelModel { cancelled: true, ..closed_channel(channel) }
}

/// The channel after the driver has reported on acquiring the handle.
pub open spec fn after_acquire(channel: ChannelModel, acquired: bool) -> ChannelModel {
    if acquired {
        ChannelModel { port_present: true, connected: true, ..channel }
    } else {
        ChannelModel { connected: false, ..channel }
    }
}

/// The channel after the first half of opening.
pub open spec fn after_open_request(channel: ChannelModel) -> ChannelModel {
    if channel.port_present {
        ChannelModel { connected: true, ..channel }
    } else {
        channel
    }
}

/// Opening a connected channel changes nothing, and opening twice is
/// opening once.
pub proof fn lemma_open_is_idempotent(channel: ChannelModel)
    requires
        channel_wf(channel),
    ensures
        channel.connected ==> after_open_request(channel) == channel,
        after_open_request(after_open_request(channel)) == after_open_request(channel),
        after_acquire(after_acquire(channel, true), true) == after_acquire(channel, true),
{
}

/// Closing a closed channel changes nothing, closing never cancels, and
/// cancelling twice is cancelling once.
pub proof fn lemma_close_and_cancel_are_idempotent(channel: ChannelModel)
    ensures
        closed_channel(closed_channel(channel)) == closed_channel(channel),
        closed_channel(channel).cancelled == channel.cancelled,
        cancelled_channel(cancelled_channel(channel)) == cancelled_channel(channel),
        !closed_channel(channel).connected && !closed_channel(channel).port_present,
{
}

/// The state of a running transaction as contracts see it.
pub struct TransactionModel {
    pub request: Seq<u8>,
    pub timeout_ms: u64,
    pub response: Seq<u8>,
}

/// One request and the response bytes gathered for it so far.
#[derive(Debug, PartialEq, Eq)]
pub struct Transaction {
    request: Vec<u8>,
    timeout_ms: u64,
    response: Vec<u8>,
}

impl View for Transaction {
    type V = TransactionModel;

    closed spec fn view(&self) -> TransactionModel {
        TransactionModel {
            request: self.request@,
            timeout_ms: self.timeout_ms,
            response: self.response@,
        }
    }
}

/// Where a transaction stands after a read.
#[derive(Debug, PartialEq, Eq)]
pub enum TransactionStep {
    /// Not enough yet: read again within the same deadline.
    ReadAgain(Transaction),
    /// The response, as far as it was read.
    Complete(Vec<u8>),
    /// The transaction failed.
    Failed(ChannelError),
}

fn copy_bytes(bytes: &[u8]) -> (copy: Vec<u8>)
    ensures
        copy@ == bytes@,
{
    vstd::slice::slice_to_vec(bytes)
}

fn append_bytes(target: &mut Vec<u8>, bytes: &Vec<u8>)
    ensures
        final(target)@ == old(target)@ + bytes@,
{
    let ghost before = target@;
    let mut i: usize = 0;
    while i < bytes.len()
        invariant
            i <= bytes.len(),
            target@ == before + bytes@.take(i as int),
        decreases bytes.len() - i,
    {
        target.push(bytes[i]);
        assert(bytes@.take(i + 1) =~= bytes@.take(i as int).push(bytes@[i as int]));
        assert(target@ =~= before + bytes@.take(i + 1));
        i += 1;
    }
    assert(bytes@.take(i as int) =~= bytes@);
}

impl Transaction {
    /// The bytes to write.
    pub fn request(&self) -> (request: &Vec<u8>)
        ensures
            request@ == self@.request,
    {
        &self.request
    }

    /// The deadline for the whole response, in milliseconds.
    pub fn timeout_ms(&self) -> (timeout: u64)
        ensures
            timeout == self@.timeout_ms,
    {
        self.timeout_ms
    }

    /// Takes the result of writing the request. A failed write ends the
    /// transaction with the cause.
    pub fn finish_write(&self, written: Result<(), String>) -> (result: Result<(), ChannelError>)
        ensures
            match written {
                Ok(_) => result is Ok,
                Err(cause) => result == Err::<(), ChannelError>(ChannelError::Io(cause)),
            },
    {
        match written {
            Ok(_) => Ok(()),
            Err(cause) => Err(ChannelError::Io(cause)),
        }
    }

    /// Takes the result of one read. Reading stops once four bytes are
    /// gathered, or at end of stream: with nothing gathered the connection
    /// counts as closed, otherwise what was gathered is the response.
    pub fn finish_read(self, outcome: ReadOutcome) -> (step: TransactionStep)
        ensures
            match outcome {
                ReadOutcome::Data(chunk) => if chunk@.len() == 0 {
                    if self@.response.len() == 0 {
                        step == TransactionStep::Failed(ChannelError::ConnectionClosed)
                    } else {
                        step matches TransactionStep::Complete(response) && response@
                            == self@.response
                    }
                } else if self@.response.len() + chunk@.len() >= MIN_RESPONSE_LENGTH {
                    step matches TransactionStep::Complete(response) && response@
                        == self@.response + chunk@
                } else {
                    step matches TransactionStep::ReadAgain(next) && next@ == (TransactionModel {
                        response: self@.response + chunk@,
                        ..self@
                    })
                },
                ReadOutcome::Failed(cause) => step == TransactionStep::Failed(
                    ChannelError::Io(cause),
                ),
                ReadOutcome::TimedOut => step == TransactionStep::Failed(ChannelError::Timeout),
            },
    {
        match outcome {
            ReadOutcome::Data(chunk) => {
                if chunk.len() == 0 {
                    if self.response.len() == 0 {
                        TransactionStep::Failed(ChannelError::ConnectionClosed)
                    } else {
                        TransactionStep::Complete(self.response)
                    }
                } else {
                    let mut next = self;
                    append_bytes(&mut next.response, &chunk);
                    if next.response.len() >= MIN_RESPONSE_LENGTH {
                        TransactionStep::Complete(next.response)
                    } else {
                        TransactionStep::ReadAgain(next)
                    }
                }
            },
            ReadOutcome::Failed(cause) => TransactionStep::Failed(ChannelError::Io(cause)),
            ReadOutcome::TimedOut => TransactionStep::Failed(ChannelError::Timeout),
        }
    }
}

impl SerialPortManager {
    /// A closed channel. `parent_cancelled` says whether the scope it
    /// descends from is already cancelled: a child of a cancelled scope is
    /// cancelled from the start.
    pub fn new(
        port_path: &str,
        baud_rate: u32,
        read_timeout_ms: u64,
        parent_cancelled: bool,
        data_channel_buffer_size: usize,
        enable_auto_receive: bool,
    ) -> (channel: Self)
        ensures
            channel@ == fresh_channel(
                port_path@,
                baud_rate,
                read_timeout_ms,
                data_channel_buffer_size,
                enable_auto_receive,
                parent_cancelled,
            ),
            channel_wf(channel@),
    {
        Self {
            port_path: port_path.to_owned(),
            baud_rate,
            read_timeout_ms,
            buffer_size: data_channel_buffer_size,
            auto_receive: enable_auto_receive,
            port_present: false,
            is_connected: false,
            cancelled: parent_cancelled,
            accumulated: Vec::new(),
        }
    }

    /// A closed channel for transactions only: no background ingestion, one
    /// second of read timeout, a short queue.
    pub fn new_for_scpi(port_path: &str, baud_rate: u32, parent_cancelled: bool) -> (channel: Self)
        ensures
            channel@ == fresh_scpi_channel(port_path@, baud_rate, parent_cancelled),
            channel_wf(channel@),
    {
        Self::new(
            port_path,
            baud_rate,
            SCPI_READ_TIMEOUT_MS,
            parent_cancelled,
            SCPI_BUFFER_SIZE,
            false,
        )
    }

    /// The connectivity flag.
    pub fn is_open(&self) -> (open: bool)
        ensures
            open == self@.connected,
    {
        self.is_connected
    }

    pub fn get_port(&self) -> (path: &str)
        ensures
            path@ == self@.port_path,
    {
        self.port_path.as_str()
    }

    /// Whether this is the channel of the port called `name`.
    pub fn has_path(&self, name: &String) -> (same: bool)
        ensures
            same == (self@.port_path == name@),
    {
        self.port_path == *name
    }

    pub fn baud_rate(&self) -> (baud: u32)
        ensures
            baud == self@.baud_rate,
    {
        self.baud_rate
    }

    /// How long a read of the ingestion task may take, in milliseconds.
    pub fn read_timeout_ms(&self) -> (timeout: u64)
        ensures
            timeout == self@.read_timeout_ms,
    {
        self.read_timeout_ms
    }

    /// Length of the queue between the ingestion and the processing task.
    pub fn buffer_size(&self) -> (size: usize)
        ensures
            size == self@.buffer_size,
    {
        self.buffer_size
    }

    /// Whether the background ingestion task belongs to this channel.
    pub fn auto_receive(&self) -> (enabled: bool)
        ensures
            enabled == self@.auto_receive,
    {
        self.auto_receive
    }

    /// Whether the channel's cancellation scope has been signalled.
    pub fn is_cancelled(&self) -> (cancelled: bool)
        ensures
            cancelled == self@.cancelled,
    {
        self.cancelled
    }

    /// Everything the processing task has accumulated.
    pub fn accumulated(&self) -> (bytes: &Vec<u8>)
        ensures
            bytes@ == self@.accumulated,
    {
        &self.accumulated
    }

    /// First half of opening. With the handle already held the channel is
    /// connected at once and nothing is acquired; otherwise the driver is
    /// told what to acquire and the channel stays as it is.
    pub fn open(&mut self) -> (step: OpenStep)
        ensures
            final(self)@ == after_open_request(old(self)@),
            old(self)@.port_present ==> step is AlreadyOpen,
            !old(self)@.port_present ==> (step matches OpenStep::Acquire { port_path, baud_rate }
                && port_path@ == old(self)@.port_path && baud_rate == old(self)@.baud_rate),
            channel_wf(old(self)@) ==> channel_wf(final(self)@),
    {
        if self.port_present {
            self.is_connected = true;
            OpenStep::AlreadyOpen
        } else {
            OpenStep::Acquire { port_path: self.port_path.clone(), baud_rate: self.baud_rate }
        }
    }

    /// The initialization step that follows a successful acquire. It is
    /// reserved for a protocol handshake and does nothing yet.
    fn scpi_initialize(&self) -> (result: Result<(), ChannelError>)
        ensures
            result is Ok,
    {
        Ok(())
    }

    /// Second half of opening: takes what acquiring the handle came to. On
    /// success the channel holds the handle and is connected; on failure it
    /// is closed and the cause is handed back. A failed initialization closes
    /// the channel again, so no half-initialized connection is ever seen.
    pub fn finish_open(&mut self, acquired: Result<(), String>) -> (result: Result<
        (),
        ChannelError,
    >)
        ensures
            final(self)@ == after_acquire(old(self)@, acquired is Ok),
            match acquired {
                Ok(_) => result is Ok,
                Err(cause) => result == Err::<(), ChannelError>(ChannelError::Io(cause)),
            },
            channel_wf(old(self)@) ==> channel_wf(final(self)@),
    {
        match acquired {
            Ok(_) => {
                self.port_present = true;
                self.is_connected = true;
                match self.scpi_initialize() {
                    Ok(_) => Ok(()),
                    Err(error) => {
                        self.close();
                        Err(error)
                    },
                }
            },
            Err(cause) => {
                self.is_connected = false;
                Err(ChannelError::Io(cause))
            },
        }
    }

    /// Releases the handle and clears the flag. Safe on a closed channel.
    /// Background tasks go on running.
    pub fn close(&mut self)
        ensures
            final(self)@ == closed_channel(old(self)@),
            channel_wf(final(self)@),
    {
        self.port_present = false;
        self.is_connected = false;
    }

    /// Decides a send. A channel that is not connected refuses at once and
    /// nothing is written; otherwise the bytes to write are handed out.
    pub fn send(&self, data: &[u8]) -> (result: Result<Vec<u8>, ChannelError>)
        ensures
            !(self@.connected && self@.port_present) ==> result == Err::<Vec<u8>, ChannelError>(
                ChannelError::NotOpen,
            ),
            self@.connected && self@.port_present ==> (result matches Ok(bytes) && bytes@
                == data@),
    {
        if !self.is_connected {
            return Err(ChannelError::NotOpen);
        }
        if self.port_present {
            Ok(copy_bytes(data))
        } else {
            Err(ChannelError::NotOpen)
        }
    }

    /// Takes the result of the write that `send` asked for. A failure is
    /// handed to the caller; it does not disconnect the channel.
    pub fn finish_send(&self, written: Result<(), String>) -> (result: Result<(), ChannelError>)
        ensures
            match written {
                Ok(_) => result is Ok,
                Err(cause) => result == Err::<(), ChannelError>(ChannelError::Io(cause)),
            },
    {
        match written {
            Ok(_) => Ok(()),
            Err(cause) => Err(ChannelError::Io(cause)),
        }
    }

    /// Starts a transaction. A channel that is not connected refuses at once;
    /// otherwise the transaction holds the request to write, the deadline, and
    /// an empty response.
    pub fn send_modbus_command(&self, command: &[u8], timeout_ms: u64) -> (result: Result<
        Transaction,
        ChannelError,
    >)
        ensures
            !(self@.connected && self@.port_present) ==> result == Err::<Transaction, ChannelError>(
                ChannelError::NotOpen,
            ),
            self@.connected && self@.port_present ==> (result matches Ok(transaction)
                && transaction@ == (TransactionModel {
                request: command@,
                timeout_ms,
                response: Seq::<u8>::empty(),
            })),
    {
        if !self.is_connected {
            return Err(ChannelError::NotOpen);
        }
        if self.port_present {
            Ok(Transaction { request: copy_bytes(command), timeout_ms, response: Vec::new() })
        } else {
            Err(ChannelError::NotOpen)
        }
    }

    /// What the ingestion task does at the start of an iteration.
    fn poll(&self) -> (action: ReceiveAction)
        ensures
            action == poll_action(self@),
    {
        if self.cancelled {
            ReceiveAction::Stop
        } else if self.port_present {
            ReceiveAction::Read { timeout_ms: self.read_timeout_ms }
        } else {
            ReceiveAction::Wait { millis: ABSENT_RETRY_MS }
        }
    }

    /// One decision of the background ingestion task.
    ///
    /// A chunk that the queue did not take ends the task and disconnects the
    /// channel. Otherwise a cancelled channel stops. A read that brought
    /// bytes has them forwarded; end of stream or a read error marks the port
    /// absent and the task goes on, waiting; a timeout changes nothing.
    pub fn receive_step(&mut self, event: ReceiveEvent) -> (action: ReceiveAction)
        ensures
            final(self)@ == after_receive(old(self)@, event),
            action == receive_action(old(self)@, event),
            channel_wf(old(self)@) ==> channel_wf(final(self)@),
    {
        match event {
            ReceiveEvent::Forwarded(delivered) => {
                if delivered {
                    self.poll()
                } else {
                    self.is_connected = false;
                    ReceiveAction::Stop
                }
            },
            ReceiveEvent::Wake => self.poll(),
            ReceiveEvent::Read(outcome) => {
                if self.cancelled {
                    return ReceiveAction::Stop;
                }
                match outcome {
                    ReadOutcome::Data(chunk) => {
                        if chunk.len() > 0 {
                            ReceiveAction::Forward(ReceivedData { data: chunk })
                        } else {
                            self.close();
                            self.poll()
                        }
                    },
                    ReadOutcome::Failed(_) => {
                        self.close();
                        self.poll()
                    },
                    ReadOutcome::TimedOut => self.poll(),
                }
            },
        }
    }

    /// One decision of the background processing task: a cancelled channel
    /// stops; otherwise a chunk from the queue is added to what was
    /// accumulated, and the task goes on.
    pub fn process_step(&mut self, received: Option<ReceivedData>) -> (go_on: bool)
        ensures
            go_on == !old(self)@.cancelled,
            final(self)@ == after_process(old(self)@, received),
            channel_wf(old(self)@) ==> channel_wf(final(self)@),
    {
        if self.cancelled {
            return false;
        }
        match received {
            Some(item) => {
                append_bytes(&mut self.accumulated, &item.data);
            },
            None => {},
        }
        true
    }

    /// Takes note that the scope this channel's scope descends from has been
    /// cancelled: the channel's scope is cancelled with it. The handle stays.
    pub fn parent_cancelled(&mut self)
        ensures
            final(self)@ == scope_cancelled(old(self)@),
            channel_wf(old(self)@) ==> channel_wf(final(self)@),
    {
        self.cancelled = true;
    }

    /// Closes the channel and signals its cancellation scope: both background
    /// tasks end for good. Doing it again changes nothing.
    pub fn cancel_tasks(&mut self)
        ensures
            final(self)@ == cancelled_channel(old(self)@),
            channel_wf(final(self)@),
    {
        self.close();
        self.cancelled = true;
    }
}

/// The channels of a list, each as contracts see it.
pub open spec fn channel_views(channels: Seq<SerialPortManager>) -> Seq<ChannelModel> {
    channels.map_values(|channel: SerialPortManager| channel@)
}

/// The port identifiers of a list of channels.
pub open spec fn port_names(ports: Seq<ChannelModel>) -> Seq<Seq<char>> {
    ports.map_values(|channel: ChannelModel| channel.port_path)
}

/// What holds of the channels of one registry: no port occurs twice, every
/// channel is well-formed, and under a cancelled scope every channel is
/// cancelled.
pub open spec fn channels_wf(ports: Seq<ChannelModel>, cancelled: bool) -> bool {
    &&& distinct(port_names(ports))
    &&& forall|i: int| 0 <= i < ports.len() ==> channel_wf(#[trigger] ports[i])
    &&& cancelled ==> forall|i: int| 0 <= i < ports.len() ==> (#[trigger] ports[i]).cancelled
}

/// Adding a well-formed channel for a port that is not there keeps a list
/// of channels well-formed.
pub proof fn lemma_channels_wf_push(ports: Seq<ChannelModel>, channel: ChannelModel, cancelled: bool)
    requires
        channels_wf(ports, cancelled),
        channel_wf(channel),
        cancelled ==> channel.cancelled,
        !port_names(ports).contains(channel.port_path),
    ensures
        channels_wf(ports.push(channel), cancelled),
{
    assert(port_names(ports.push(channel)) =~= port_names(ports).push(channel.port_path));
    lemma_distinct_push(port_names(ports), channel.port_path);
    assert forall|i: int| 0 <= i < ports.push(channel).len() implies channel_wf(
        #[trigger] ports.push(channel)[i],
    ) && (cancelled ==> ports.push(channel)[i].cancelled) by {
        if i < ports.len() {
            assert(ports.push(channel)[i] == ports[i]);
        }
    }
}

/// Replacing a channel by a well-formed one for the same port keeps a list
/// of channels well-formed.
pub proof fn lemma_channels_wf_update(
    ports: Seq<ChannelModel>,
    at: int,
    channel: ChannelModel,
    cancelled: bool,
)
    requires
        channels_wf(ports, cancelled),
        0 <= at < ports.len(),
        channel_wf(channel),
        channel.port_path == ports[at].port_path,
        cancelled ==> channel.cancelled,
    ensures
        channels_wf(ports.update(at, channel), cancelled),
{
    assert(port_names(ports.update(at, channel)) =~= port_names(ports));
    assert forall|i: int| 0 <= i < ports.len() implies channel_wf(
        #[trigger] ports.update(at, channel)[i],
    ) && (cancelled ==> ports.update(at, channel)[i].cancelled) by {
        if i != at {
            assert(ports.update(at, channel)[i] == ports[i]);
        }
    }
}

/// Taking a channel out keeps a list of channels well-formed, and its port
/// is then no longer there.
pub proof fn lemma_channels_wf_remove(ports: Seq<ChannelModel>, at: int, cancelled: bool)
    requires
        channels_wf(ports, cancelled),
        0 <= at < ports.len(),
    ensures
        channels_wf(ports.remove(at), cancelled),
        !port_names(ports.remove(at)).contains(ports[at].port_path),
{
    assert(port_names(ports.remove(at)) =~= port_names(ports).remove(at));
    lemma_distinct_remove(port_names(ports), at);
    assert forall|i: int| 0 <= i < ports.remove(at).len() implies channel_wf(
        #[trigger] ports.remove(at)[i],
    ) && (cancelled ==> ports.remove(at)[i].cancelled) by {
        let i0 = if i < at { i } else { i + 1 };
        assert(ports.remove(at)[i] == ports[i0]);
    }
}

/// Position of a port identifier among channels.
pub fn find_port(ports: &Vec<SerialPortManager>, name: &String) -> (at: usize)
    ensures
        at == position_of(port_names(channel_views(ports@)), name@),
        at <= ports@.len(),
{
    let ghost names = port_names(channel_views(ports@));
    let mut i: usize = 0;
    while i < ports.len()
        invariant
            i <= ports@.len(),
            names == port_names(channel_views(ports@)),
            forall|j: int| 0 <= j < i ==> names[j] != name@,
        decreases ports@.len() - i,
    {
        if ports[i].has_path(name) {
            proof {
                lemma_position_of(names, name@, i as int);
            }
            return i;
        }
        i += 1;
    }
    proof {
        lemma_position_of(names, name@, i as int);
    }
    i
}

} // verus!
