use vstd::prelude::*;
use vstd::string::*;
use crate::config::Host;

verus! {

/// Where a connection stands. `Closed` is final for the session it
/// describes: a new connection starts a new session.
#[derive(Clone, Copy, Debug, PartialEq, Eq, Structural)]
pub enum ConnectionStatus {
    Idle,
    Connecting,
    Connected,
    Closed,
}

/// What the reading side of a session reports to the host.
#[derive(Debug)]
pub enum SshEvent {
    Connected { host: Host },
    Data(Vec<u8>),
    Error(String),
    Disconnected,
}

/// Why a session operation failed.
#[derive(Clone, Debug)]
pub enum SessionError {
    /// A connection is already being made or is open.
    AlreadyActive,
    /// There is no open session to write to.
    NotConnected,
    /// The terminal or the process could not be created.
    Spawn(String),
    /// Reading or writing the terminal failed.
    Io(String),
}

/// The result of one blocking read of the terminal: bytes (none at end of
/// stream) or the system's description of a failure.
#[derive(Debug)]
pub enum ReadOutcome {
    Data(Vec<u8>),
    Failed(String),
}

/// What it takes to launch the remote shell: the key file (with a leading
/// `~` expanded), `user@host`, the port and the terminal size.
#[derive(Debug)]
pub struct SpawnPlan {
    pub key_path: String,
    pub destination: String,
    pub port: u16,
    pub cols: u16,
    pub rows: u16,
}

/// `path` with a leading `~` replaced by `home`.
pub open spec fn expanded_path(path: Seq<char>, home: Seq<char>) -> Seq<char> {
    if path.len() > 0 && path[0] == '~' { home + path.skip(1) } else { path }
}

/// `user@host`.
pub open spec fn destination_of(user: Seq<char>, host: Seq<char>) -> Seq<char> {
    user + "@"@ + host
}

fn expand_home(path: &str, home: &str) -> (r: String)
    ensures
        r@ == expanded_path(path@, home@),
{
    let n = path.unicode_len();
    if n > 0 && path.get_char(0) == '~' {
        let rest = path.substring_char(1, n);
        let r = String::from_str(home).concat(rest);
        assert(rest@ =~= path@.skip(1));
        r
    } else {
        String::from_str(path)
    }
}

/// The decimal digit character for `d < 10`.
pub open spec fn digit_char(d: int) -> char {
    if d == 0 {
        '0'
    } else if d == 1 {
        '1'
    } else if d == 2 {
        '2'
    } else if d == 3 {
        '3'
    } else if d == 4 {
        '4'
    } else if d == 5 {
        '5'
    } else if d == 6 {
        '6'
    } else if d == 7 {
        '7'
    } else if d == 8 {
        '8'
    } else {
        '9'
    }
}

/// `n` written in decimal, without leading zeros.
pub open spec fn decimal(n: nat) -> Seq<char>
    decreases n,
{
    if n < 10 { seq![digit_char(n as int)] } else { decimal(n / 10).push(digit_char((n % 10) as int)) }
}

fn digit_str(d: u16) -> (r: &'static str)
    requires
        d < 10,
    ensures
        r@ == seq![digit_char(d as int)],
{
    proof {
        reveal_strlit("0");
        reveal_strlit("1");
        reveal_strlit("2");
        reveal_strlit("3");
        reveal_strlit("4");
        reveal_strlit("5");
        reveal_strlit("6");
        reveal_strlit("7");
        reveal_strlit("8");
        reveal_strlit("9");
    }
    if d == 0 {
        "0"
    } else if d == 1 {
        "1"
    } else if d == 2 {
        "2"
    } else if d == 3 {
        "3"
    } else if d == 4 {
        "4"
    } else if d == 5 {
        "5"
    } else if d == 6 {
        "6"
    } else if d == 7 {
        "7"
    } else if d == 8 {
        "8"
    } else {
        "9"
    }
}

/// `n` in decimal.
pub fn decimal_string(n: u16) -> (r: String)
    ensures
        r@ == decimal(n as nat),
    decreases n,
{
    let mut s = if n >= 10 { decimal_string(n / 10) } else { String::new() };
    s.append(digit_str(n % 10));
    proof {
        if n < 10 {
            assert(s@ =~= decimal(n as nat));
        }
    }
    s
}

/// The arguments given to `ssh`: the key, options that keep an
/// unattended session alive without host-key prompts, a forced
/// pseudo-terminal, the destination and the port.
pub open spec fn ssh_args(key_path: Seq<char>, destination: Seq<char>, port: u16) -> Seq<Seq<char>> {
    seq![
        "-i"@,
        key_path,
        "-o"@,
        "StrictHostKeyChecking=no"@,
        "-o"@,
        "UserKnownHostsFile=/dev/null"@,
        "-o"@,
        "ServerAliveInterval=30"@,
        "-o"@,
        "ServerAliveCountMax=3"@,
        "-t"@,
        destination,
        "-p"@,
        decimal(port as nat),
    ]
}

/// The environment given to `ssh`: the terminal type and size.
pub open spec fn ssh_env(cols: u16, rows: u16) -> Seq<(Seq<char>, Seq<char>)> {
    seq![
        ("TERM"@, "xterm-256color"@),
        ("COLUMNS"@, decimal(cols as nat)),
        ("LINES"@, decimal(rows as nat)),
    ]
}

impl SpawnPlan {
    /// The program to launch.
    pub fn program(&self) -> (r: String)
        ensures
            r@ == "ssh"@,
    {
        String::from_str("ssh")
    }

    /// The arguments of the program, in order.
    pub fn args(&self) -> (r: Vec<String>)
        ensures
            r@.map_values(|a: String| a@) == ssh_args(self.key_path@, self.destination@, self.port),
    {
        let mut v: Vec<String> = Vec::new();
        v.push(String::from_str("-i"));
        v.push(self.key_path.clone());
        v.push(String::from_str("-o"));
        v.push(String::from_str("StrictHostKeyChecking=no"));
        v.push(String::from_str("-o"));
        v.push(String::from_str("UserKnownHostsFile=/dev/null"));
        v.push(String::from_str("-o"));
        v.push(String::from_str("ServerAliveInterval=30"));
        v.push(String::from_str("-o"));
        v.push(String::from_str("ServerAliveCountMax=3"));
        v.push(String::from_str("-t"));
        v.push(self.destination.clone());
        v.push(String::from_str("-p"));
        v.push(decimal_string(self.port));
        assert(v@.map_values(|a: String| a@) =~= ssh_args(self.key_path@, self.destination@, self.port));
        v
    }

    /// The environment variables to set, as `(name, value)` pairs.
    pub fn env(&self) -> (r: Vec<(String, String)>)
        ensures
            r@.map_values(|e: (String, String)| (e.0@, e.1@)) == ssh_env(self.cols, self.rows),
    {
        let mut v: Vec<(String, String)> = Vec::new();
        v.push((String::from_str("TERM"), String::from_str("xterm-256color")));
        v.push((String::from_str("COLUMNS"), decimal_string(self.cols)));
        v.push((String::from_str("LINES"), decimal_string(self.rows)));
        assert(v@.map_values(|e: (String, String)| (e.0@, e.1@)) =~= ssh_env(self.cols, self.rows));
        v
    }
}

/// The one event that ends a connection attempt: the handshake for `host`
/// when the terminal and process came up, else the error describing why
/// they did not.
pub open spec fn attempt_event(host: Host, spawned: Result<(), String>) -> SshEvent {
    match spawned {
        Ok(_) => SshEvent::Connected { host },
        Err(msg) => SshEvent::Error(msg),
    }
}

/// The event to report once a connection attempt has been carried out.
pub fn connect_outcome(host: Host, spawned: Result<(), String>) -> (r: SshEvent)
    ensures
        r == attempt_event(host, spawned),
{
    match spawned {
        Ok(_) => SshEvent::Connected { host },
        Err(msg) => SshEvent::Error(msg),
    }
}

/// The status after `event`.
pub open spec fn status_after(status: ConnectionStatus, event: SshEvent) -> ConnectionStatus {
    match event {
        SshEvent::Connected { .. } => if status == ConnectionStatus::Connecting {
            ConnectionStatus::Connected
        } else {
            status
        },
        SshEvent::Data(_) => status,
        SshEvent::Error(_) => ConnectionStatus::Closed,
        SshEvent::Disconnected => ConnectionStatus::Closed,
    }
}

/// The host on record after `event`.
pub open spec fn host_after(status: ConnectionStatus, host: Option<Host>, event: SshEvent) -> Option<Host> {
    match event {
        SshEvent::Connected { host: h } => if status == ConnectionStatus::Connecting {
            Some(h)
        } else {
            host
        },
        SshEvent::Disconnected => None,
        _ => host,
    }
}

/// The host's view of its connection: at most one is being made or open.
pub struct SshClient {
    pub status: ConnectionStatus,
    pub host: Option<Host>,
}

impl SshClient {
    /// An idle client with no host.
    pub fn new() -> (r: SshClient)
        ensures
            r.status == ConnectionStatus::Idle,
            r.host is None,
    {
        SshClient { status: ConnectionStatus::Idle, host: None }
    }

    /// Starts a connection to `host` with the key file `key_path` (`~` standing
    /// for `home`) and a `width` x `height` terminal. Refused while one is
    /// being made or open; otherwise the client is connecting and the launch
    /// plan is returned.
    pub fn connect(&mut self, host: Host, key_path: &str, home: &str, width: u16, height: u16) -> (r: Result<
        SpawnPlan,
        SessionError,
    >)
        ensures
            (old(self).status == ConnectionStatus::Connecting || old(self).status == ConnectionStatus::Connected)
                ==> (r matches Err(SessionError::AlreadyActive) && final(self).status == old(self).status
                && final(self).host == old(self).host),
            (old(self).status == ConnectionStatus::Idle || old(self).status == ConnectionStatus::Closed) ==> (
            r matches Ok(plan) && final(self).status == ConnectionStatus::Connecting && final(self).host == Some(
                host,
            ) && plan.key_path@ == expanded_path(key_path@, home@) && plan.destination@ == destination_of(
                host.user@,
                host.host@,
            ) && plan.port == host.port && plan.cols == width && plan.rows == height),
    {
        match self.status {
            ConnectionStatus::Connecting | ConnectionStatus::Connected => {
                return Err(SessionError::AlreadyActive);
            },
            _ => {},
        }
        let destination = host.user.clone().concat("@").concat(host.host.as_str());
        let plan = SpawnPlan {
            key_path: expand_home(key_path, home),
            destination,
            port: host.port,
            cols: width,
            rows: height,
        };
        self.status = ConnectionStatus::Connecting;
        self.host = Some(host);
        Ok(plan)
    }

    /// Applies an event from the reading side: the handshake completes a
    /// pending connection, end of stream or an error closes it, data changes
    /// nothing here.
    pub fn handle_event(&mut self, event: SshEvent)
        ensures
            final(self).status == status_after(old(self).status, event),
            final(self).host == host_after(old(self).status, old(self).host, event),
    {
        match event {
            SshEvent::Connected { host } => {
                if self.status == ConnectionStatus::Connecting {
                    self.status = ConnectionStatus::Connected;
                    self.host = Some(host);
                }
            },
            SshEvent::Data(_) => {},
            SshEvent::Error(_) => {
                self.status = ConnectionStatus::Closed;
            },
            SshEvent::Disconnected => {
                self.status = ConnectionStatus::Closed;
                self.host = None;
            },
        }
    }

    /// Ends the connection at the host's request.
    pub fn disconnect(&mut self)
        ensures
            final(self).status == ConnectionStatus::Closed,
            final(self).host is None,
    {
        self.status = ConnectionStatus::Closed;
        self.host = None;
    }

    /// Whether input may be written now: only to an open session whose
    /// terminal is still attached.
    pub fn check_send(&self, link: &PtyLink) -> (r: Result<(), SessionError>)
        ensures
            r is Ok <==> self.status == ConnectionStatus::Connected && link@.writer_open,
            r is Err ==> r matches Err(SessionError::NotConnected),
    {
        if self.status == ConnectionStatus::Connected && link.writer_open() {
            Ok(())
        } else {
            Err(SessionError::NotConnected)
        }
    }

    pub fn is_connected(&self) -> (r: bool)
        ensures
            r == (self.status == ConnectionStatus::Connected),
    {
        self.status == ConnectionStatus::Connected
    }

    pub fn is_connecting(&self) -> (r: bool)
        ensures
            r == (self.status == ConnectionStatus::Connecting),
    {
        self.status == ConnectionStatus::Connecting
    }

    pub fn get_host(&self) -> (r: Option<&Host>)
        ensures
            r matches Some(h) ==> self.host == Some(*h),
            r is None <==> self.host is None,
    {
        match &self.host {
            Some(h) => Some(h),
            None => None,
        }
    }
}

/// The state of one session's terminal shared by its reading and writing
/// sides: whether the write handle is still attached and whether reading
/// has stopped.
pub struct LinkModel {
    pub writer_open: bool,
    pub reader_done: bool,
}

/// The link after a read with `outcome`, and the event to report. Once
/// reading has stopped nothing is reported; end of stream or a failure
/// detaches the writer and stops reading.
pub open spec fn read_effect(m: LinkModel, outcome: ReadOutcome) -> (LinkModel, Option<SshEvent>) {
    if m.reader_done {
        (m, None)
    } else {
        match outcome {
            ReadOutcome::Data(bytes) => if bytes@.len() > 0 {
                (m, Some(SshEvent::Data(bytes)))
            } else {
                (LinkModel { writer_open: false, reader_done: true }, Some(SshEvent::Disconnected))
            },
            ReadOutcome::Failed(msg) => (
                LinkModel { writer_open: false, reader_done: true },
                Some(SshEvent::Error(msg)),
            ),
        }
    }
}

/// The link after a write to the terminal failed with `msg`: the session
/// ends as on a read failure, reporting the error unless the session has
/// already ended.
pub open spec fn write_failure_effect(m: LinkModel, msg: String) -> (LinkModel, Option<SshEvent>) {
    (
        LinkModel { writer_open: false, reader_done: true },
        if m.reader_done { None } else { Some(SshEvent::Error(msg)) },
    )
}

/// The decisions of a session's terminal link.
pub struct PtyLink {
    writer_open: bool,
    reader_done: bool,
}

impl View for PtyLink {
    type V = LinkModel;

    closed spec fn view(&self) -> LinkModel {
        LinkModel { writer_open: self.writer_open, reader_done: self.reader_done }
    }
}

impl PtyLink {
    /// A freshly attached terminal: writable, being read.
    pub fn new() -> (r: PtyLink)
        ensures
            r@ == (LinkModel { writer_open: true, reader_done: false }),
    {
        PtyLink { writer_open: true, reader_done: false }
    }

    /// Decides what one read means: the event to report, if any.
    pub fn on_read(&mut self, outcome: ReadOutcome) -> (r: Option<SshEvent>)
        ensures
            (final(self)@, r) == read_effect(old(self)@, outcome),
    {
        if self.reader_done {
            return None;
        }
        match outcome {
            ReadOutcome::Data(bytes) => {
                if bytes.len() > 0 {
                    Some(SshEvent::Data(bytes))
                } else {
                    self.writer_open = false;
                    self.reader_done = true;
                    Some(SshEvent::Disconnected)
                }
            },
            ReadOutcome::Failed(msg) => {
                self.writer_open = false;
                self.reader_done = true;
                Some(SshEvent::Error(msg))
            },
        }
    }

    /// Decides what a failed write means: the event to report, if any.
    pub fn on_write_failure(&mut self, msg: String) -> (r: Option<SshEvent>)
        ensures
            (final(self)@, r) == write_failure_effect(old(self)@, msg),
    {
        let was_done = self.reader_done;
        self.writer_open = false;
        self.reader_done = true;
        if was_done {
            None
        } else {
            Some(SshEvent::Error(msg))
        }
    }

    /// Detaches the writer and stops reading; doing it again changes nothing.
    pub fn close(&mut self)
        ensures
            final(self)@ == (LinkModel { writer_open: false, reader_done: true }),
    {
        self.writer_open = false;
        self.reader_done = true;
    }

    /// Whether a write may go to the terminal.
    pub fn check_write(&self) -> (r: Result<(), SessionError>)
        ensures
            r is Ok <==> self@.writer_open,
            r is Err ==> r matches Err(SessionError::NotConnected),
    {
        if self.writer_open {
            Ok(())
        } else {
            Err(SessionError::NotConnected)
        }
    }

    pub fn writer_open(&self) -> (r: bool)
        ensures
            r == self@.writer_open,
    {
        self.writer_open
    }

    pub fn reader_done(&self) -> (r: bool)
        ensures
            r == self@.reader_done,
    {
        self.reader_done
    }
}

/// The link after reads with `outcomes` in order, and the events reported.
pub open spec fn read_all(m: LinkModel, outcomes: Seq<ReadOutcome>) -> (LinkModel, Seq<SshEvent>)
    decreases outcomes.len(),
{
    if outcomes.len() == 0 {
        (m, Seq::empty())
    } else {
        let prev = read_all(m, outcomes.drop_last());
        let (m1, ev) = read_effect(prev.0, outcomes.last());
        (m1, match ev {
            Some(e) => prev.1.push(e),
            None => prev.1,
        })
    }
}

/// Once reading has stopped, no sequence of later reads reports anything or
/// reattaches the writer.
pub proof fn lemma_stopped_link_is_silent(m: LinkModel, outcomes: Seq<ReadOutcome>)
    requires
        m.reader_done,
    ensures
        read_all(m, outcomes) == (m, Seq::<SshEvent>::empty()),
    decreases outcomes.len(),
{
    if outcomes.len() > 0 {
        lemma_stopped_link_is_silent(m, outcomes.drop_last());
    }
}

/// Whether `o` is a read of at least one byte.
pub open spec fn is_data_read(o: ReadOutcome) -> bool {
    match o {
        ReadOutcome::Data(b) => b@.len() > 0,
        ReadOutcome::Failed(_) => false,
    }
}

/// Whether every outcome is a read of at least one byte.
pub open spec fn all_data(outcomes: Seq<ReadOutcome>) -> bool {
    forall|i: int| 0 <= i < outcomes.len() ==> is_data_read(#[trigger] outcomes[i])
}

/// The events that reads of data report: one `Data` each, in read order.
pub open spec fn data_events(outcomes: Seq<ReadOutcome>) -> Seq<SshEvent> {
    outcomes.map_values(|o: ReadOutcome| match o {
        ReadOutcome::Data(b) => SshEvent::Data(b),
        ReadOutcome::Failed(msg) => SshEvent::Error(msg),
    })
}

/// On a link that is being read, reads of data report one `Data` event
/// each, in order, and leave the link as it was.
pub proof fn lemma_data_reads_report_in_order(m: LinkModel, outcomes: Seq<ReadOutcome>)
    requires
        !m.reader_done,
        all_data(outcomes),
    ensures
        read_all(m, outcomes) == (m, data_events(outcomes)),
    decreases outcomes.len(),
{
    if outcomes.len() > 0 {
        let init = outcomes.drop_last();
        assert(all_data(init)) by {
            assert forall|i: int| 0 <= i < init.len() implies is_data_read(#[trigger] init[i]) by {
                assert(init[i] == outcomes[i]);
            }
        }
        lemma_data_reads_report_in_order(m, init);
        assert(outcomes[outcomes.len() - 1] == outcomes.last());
        assert(data_events(outcomes) =~= data_events(init).push(data_events(outcomes).last()));
    }
}

/// Reads of data followed by a failed read, on a link that is being read:
/// the events are the data in read order and then the error; the writer is
/// detached with that last event; and no read after it reports anything.
pub proof fn lemma_reads_until_error(
    m: LinkModel,
    data: Seq<ReadOutcome>,
    msg: String,
    later: Seq<ReadOutcome>,
)
    requires
        !m.reader_done,
        all_data(data),
    ensures
        read_all(m, data.push(ReadOutcome::Failed(msg))) == (
            LinkModel { writer_open: false, reader_done: true },
            data_events(data).push(SshEvent::Error(msg)),
        ),
        read_all(LinkModel { writer_open: false, reader_done: true }, later) == (
            LinkModel { writer_open: false, reader_done: true },
            Seq::<SshEvent>::empty(),
        ),
{
    let all = data.push(ReadOutcome::Failed(msg));
    assert(all.drop_last() =~= data);
    lemma_data_reads_report_in_order(m, data);
    lemma_stopped_link_is_silent(LinkModel { writer_open: false, reader_done: true }, later);
}

/// After a read error, writing is refused and no later read reports
/// anything, whatever it returns; the client that receives the error event
/// is closed and refuses to send.
pub proof fn lemma_read_error_ends_session(
    m: LinkModel,
    msg: String,
    later: Seq<ReadOutcome>,
    status: ConnectionStatus,
)
    requires
        !m.reader_done,
    ensures
        ({
            let (m1, ev) = read_effect(m, ReadOutcome::Failed(msg));
            &&& ev == Some(SshEvent::Error(msg))
            &&& !m1.writer_open
            &&& read_all(m1, later) == (m1, Seq::<SshEvent>::empty())
        }),
        status_after(status, SshEvent::Error(msg)) == ConnectionStatus::Closed,
{
    let (m1, ev) = read_effect(m, ReadOutcome::Failed(msg));
    lemma_stopped_link_is_silent(m1, later);
}

} // verus!
