//! The transport of messages over a stream: how a stream is opened, encrypted, read and interrupted.
//! What is done to the stream itself is left to the caller; here stands what is decided.

use crate::connection::connection_actions::{Platform, TransportContext, TransportView};
use crate::bytes::be_nat;
use crate::connection::transport::buffers::{first_packet, Assembly, PacketStep, TdsReadBuffer};
use crate::datatypes::metadata::ColumnMetadata;
use crate::error::{Error, ErrorKind, IoErrorKind, TdsResult};
use crate::io::packet_writer::{header, PacketWriter};
use crate::io::token_stream::{columns_of, extract_column_metadata, ParserContext};
use crate::message::{PacketType, STATUS_EOM};
use crate::settings::{
    EncryptionSetting, IPAddressPreference, NegotiatedEncryptionSetting, TdsVersion,
};
use crate::text::{number_message, text_message};
use crate::token::{law_done_status, Tokens};
use vstd::prelude::*;
use vstd::string::StringExecFns;

verus! {

/// The packet size before one was agreed on.
pub const PRE_NEGOTIATED_PACKET_SIZE: u32 = 4096;

/// The stream that a connection starts with.
#[derive(Clone, Debug, PartialEq, Eq)]
pub enum BaseStream {
    /// All addresses of the host at once.
    Parallel { host: String, port: u16 },
    /// The addresses of the host one after the other.
    Sequential { host: String, port: u16 },
    /// A named pipe.
    Pipe { pipe_name: String },
    /// The named pipe that a LocalDB instance is resolved to.
    LocalDb { instance_name: String },
}

/// The stream that a connection starts with, with its texts as characters.
#[verifier::ext_equal]
pub enum BaseStreamView {
    Parallel(Seq<char>, u16),
    Sequential(Seq<char>, u16),
    Pipe(Seq<char>),
    LocalDb(Seq<char>),
}

impl View for BaseStream {
    type V = BaseStreamView;

    open spec fn view(&self) -> BaseStreamView {
        match self {
            BaseStream::Parallel { host, port } => BaseStreamView::Parallel(host@, *port),
            BaseStream::Sequential { host, port } => BaseStreamView::Sequential(host@, *port),
            BaseStream::Pipe { pipe_name } => BaseStreamView::Pipe(pipe_name@),
            BaseStream::LocalDb { instance_name } => BaseStreamView::LocalDb(instance_name@),
        }
    }
}

/// The named pipe that stands for the shared memory of an instance.
pub open spec fn shared_memory_pipe(instance: Seq<char>) -> Seq<char> {
    "\\\\.\\pipe\\SQLLocal\\"@ + (if instance.len() == 0 {
        "MSSQLSERVER"@
    } else {
        instance
    })
}

/// The stream that a way to connect starts with. Only TCP goes with trying several subnets, and only
/// TCP is there on other systems than Windows.
pub open spec fn base_stream(way: TransportView, multi_subnet_failover: bool, platform: Platform) -> Result<
    BaseStreamView,
    ErrorKind,
> {
    match way {
        TransportView::Tcp(host, port, _) => if multi_subnet_failover {
            Ok(BaseStreamView::Parallel(host, port))
        } else {
            Ok(BaseStreamView::Sequential(host, port))
        },
        TransportView::NamedPipe(_)
        | TransportView::SharedMemory(_)
        | TransportView::LocalDB(_) => if platform != Platform::Windows {
            Err(ErrorKind::Io(IoErrorKind::Unsupported))
        } else if multi_subnet_failover {
            Err(ErrorKind::Usage)
        } else {
            match way {
                TransportView::NamedPipe(name) => Ok(BaseStreamView::Pipe(name)),
                TransportView::SharedMemory(instance) => Ok(
                    BaseStreamView::Pipe(shared_memory_pipe(instance)),
                ),
                TransportView::LocalDB(instance) => Ok(BaseStreamView::LocalDb(instance)),
                TransportView::Tcp(host, port, _) => Ok(BaseStreamView::Sequential(host, port)),
            }
        },
    }
}

/// An error that says that something is there on Windows only.
fn windows_only(what: &str) -> (e: Error)
    ensures
        e.kind() == ErrorKind::Io(IoErrorKind::Unsupported),
{
    Error::Io(IoErrorKind::Unsupported, text_message(what, " only supported on Windows", ""))
}

/// An error that says that something does not go with trying several subnets.
fn tcp_only(what: &str) -> (e: Error)
    ensures
        e.kind() == ErrorKind::Usage,
{
    Error::UsageError(
        text_message(
            "MultiSubnetFailover is only supported with TCP connections. ",
            what,
            " not support MultiSubnetFailover.",
        ),
    )
}

/// The stream that a way to connect starts with.
pub fn create_base_stream(
    transport_context: &TransportContext,
    multi_subnet_failover: bool,
    platform: Platform,
) -> (r: TdsResult<BaseStream>)
    ensures
        match base_stream(transport_context@, multi_subnet_failover, platform) {
            Ok(s) => r matches Ok(x) && x@ == s,
            Err(k) => r matches Err(e) && e.kind() == k,
        },
{
    match transport_context {
        TransportContext::Tcp { host, port, .. } => if multi_subnet_failover {
            Ok(BaseStream::Parallel { host: String::from_str(host.as_str()), port: *port })
        } else {
            Ok(BaseStream::Sequential { host: String::from_str(host.as_str()), port: *port })
        },
        TransportContext::NamedPipe { pipe_name } => match platform {
            Platform::Windows => if multi_subnet_failover {
                Err(tcp_only("Named Pipes do"))
            } else {
                Ok(BaseStream::Pipe { pipe_name: String::from_str(pipe_name.as_str()) })
            },
            _ => Err(windows_only("Named Pipes are")),
        },
        TransportContext::SharedMemory { instance_name } => match platform {
            Platform::Windows => if multi_subnet_failover {
                Err(tcp_only("Shared Memory does"))
            } else {
                let actual_instance: &str = if instance_name.as_str().unicode_len() == 0 {
                    "MSSQLSERVER"
                } else {
                    instance_name.as_str()
                };
                let mut pipe_name = String::from_str("\\\\.\\pipe\\SQLLocal\\");
                pipe_name.append(actual_instance);
                Ok(BaseStream::Pipe { pipe_name })
            },
            _ => Err(windows_only("Shared Memory is")),
        },
        TransportContext::LocalDB { instance_name } => match platform {
            Platform::Windows => if multi_subnet_failover {
                Err(tcp_only("LocalDB does"))
            } else {
                Ok(BaseStream::LocalDb { instance_name: String::from_str(instance_name.as_str()) })
            },
            _ => Err(windows_only("LocalDB is")),
        },
    }
}

/// The indexes of the addresses of one family, in order.
pub open spec fn of_family(ipv6: Seq<bool>, family: bool) -> Seq<usize>
    decreases ipv6.len(),
{
    if ipv6.len() == 0 {
        Seq::empty()
    } else {
        let rest = of_family(ipv6.drop_last(), family);
        if ipv6.last() == family {
            rest.push((ipv6.len() - 1) as usize)
        } else {
            rest
        }
    }
}

/// The order in which the addresses of a host are tried, given which of them are of version 6.
/// Addresses of one family keep their order.
pub open spec fn address_order(preference: IPAddressPreference, ipv6: Seq<bool>) -> Seq<usize> {
    match preference {
        IPAddressPreference::UsePlatformDefault => Seq::new(ipv6.len(), |i: int| i as usize),
        IPAddressPreference::IPv4First => of_family(ipv6, false) + of_family(ipv6, true),
        IPAddressPreference::IPv6First => of_family(ipv6, true) + of_family(ipv6, false),
    }
}

/// The indexes of the addresses of one family, in order.
fn family_indexes(ipv6: &Vec<bool>, family: bool) -> (v: Vec<usize>)
    ensures
        v@ == of_family(ipv6@, family),
{
    let mut v: Vec<usize> = Vec::new();
    let mut i: usize = 0;
    while i < ipv6.len()
        invariant
            i <= ipv6@.len(),
            v@ == of_family(ipv6@.take(i as int), family),
        decreases ipv6@.len() - i,
    {
        assert(ipv6@.take(i + 1).drop_last() =~= ipv6@.take(i as int));
        if ipv6[i] == family {
            v.push(i);
        }
        i += 1;
    }
    assert(ipv6@.take(ipv6@.len() as int) =~= ipv6@);
    v
}

/// The order in which the addresses of a host are tried.
pub fn order_addresses(preference: IPAddressPreference, ipv6: &Vec<bool>) -> (v: Vec<usize>)
    ensures
        v@ == address_order(preference, ipv6@),
{
    match preference {
        IPAddressPreference::UsePlatformDefault => {
            let mut v: Vec<usize> = Vec::new();
            let mut i: usize = 0;
            while i < ipv6.len()
                invariant
                    i <= ipv6@.len(),
                    v@ == Seq::new(i as nat, |k: int| k as usize),
                decreases ipv6@.len() - i,
            {
                v.push(i);
                i += 1;
                assert(v@ =~= Seq::new(i as nat, |k: int| k as usize));
            }
            v
        },
        IPAddressPreference::IPv4First => {
            let mut v = family_indexes(ipv6, false);
            let w = family_indexes(ipv6, true);
            v.extend_from_slice(w.as_slice());
            assert(v@ =~= address_order(preference, ipv6@));
            v
        },
        IPAddressPreference::IPv6First => {
            let mut v = family_indexes(ipv6, true);
            let w = family_indexes(ipv6, false);
            v.extend_from_slice(w.as_slice());
            assert(v@ =~= address_order(preference, ipv6@));
            v
        },
    }
}

/// Whatever is preferred, each address is tried, and none twice.
pub proof fn law_each_address_once(preference: IPAddressPreference, ipv6: Seq<bool>)
    requires
        ipv6.len() <= usize::MAX,
    ensures
        address_order(preference, ipv6).no_duplicates(),
        forall|i: usize|
            i < ipv6.len() <==> #[trigger] address_order(preference, ipv6).contains(i),
{
    lemma_of_family(ipv6, true);
    lemma_of_family(ipv6, false);
    let a = of_family(ipv6, true);
    let b = of_family(ipv6, false);
    let order = address_order(preference, ipv6);
    assert forall|i: usize| i < ipv6.len() <==> #[trigger] order.contains(i) by {
        if i < ipv6.len() {
            match preference {
                IPAddressPreference::UsePlatformDefault => {
                    assert(order[i as int] == i);
                },
                IPAddressPreference::IPv4First => {
                    if ipv6[i as int] {
                        let k = a.index_of(i);
                        assert(a.contains(i));
                        assert(order[b.len() + k] == i);
                    } else {
                        let k = b.index_of(i);
                        assert(b.contains(i));
                        assert(order[k] == i);
                    }
                },
                IPAddressPreference::IPv6First => {
                    if ipv6[i as int] {
                        let k = a.index_of(i);
                        assert(a.contains(i));
                        assert(order[k] == i);
                    } else {
                        let k = b.index_of(i);
                        assert(b.contains(i));
                        assert(order[a.len() + k] == i);
                    }
                },
            }
        }
        if order.contains(i) {
            let k = order.index_of(i);
            match preference {
                IPAddressPreference::UsePlatformDefault => {},
                IPAddressPreference::IPv4First => {
                    if k < b.len() {
                        assert(b.contains(b[k]));
                    } else {
                        assert(a.contains(a[k - b.len()]));
                    }
                },
                IPAddressPreference::IPv6First => {
                    if k < a.len() {
                        assert(a.contains(a[k]));
                    } else {
                        assert(b.contains(b[k - a.len()]));
                    }
                },
            }
        }
    }
    assert forall|i: int, j: int| 0 <= i < order.len() && 0 <= j < order.len() && i != j implies order[i]
        != order[j] by {
        match preference {
            IPAddressPreference::UsePlatformDefault => {},
            IPAddressPreference::IPv4First => {
                lemma_joined_distinct(b, a, i, j);
            },
            IPAddressPreference::IPv6First => {
                lemma_joined_distinct(a, b, i, j);
            },
        }
    }
}

/// Two lists without duplicates that share nothing make one without duplicates.
proof fn lemma_joined_distinct(a: Seq<usize>, b: Seq<usize>, i: int, j: int)
    requires
        a.no_duplicates(),
        b.no_duplicates(),
        forall|x: usize| #[trigger] a.contains(x) ==> !b.contains(x),
        0 <= i < (a + b).len(),
        0 <= j < (a + b).len(),
        i != j,
    ensures
        (a + b)[i] != (a + b)[j],
{
    if i < a.len() {
        assert(a.contains(a[i]));
    } else {
        assert(b.contains(b[i - a.len()]));
    }
    if j < a.len() {
        assert(a.contains(a[j]));
    } else {
        assert(b.contains(b[j - a.len()]));
    }
}

/// The indexes of one family are those of its addresses, each once.
proof fn lemma_of_family(ipv6: Seq<bool>, family: bool)
    requires
        ipv6.len() <= usize::MAX,
    ensures
        of_family(ipv6, family).no_duplicates(),
        forall|i: usize| #[trigger]
            of_family(ipv6, family).contains(i) <==> i < ipv6.len() && ipv6[i as int] == family,
    decreases ipv6.len(),
{
    if ipv6.len() > 0 {
        let shorter = ipv6.drop_last();
        let rest = of_family(shorter, family);
        let all = of_family(ipv6, family);
        lemma_of_family(shorter, family);
        assert forall|i: usize| #[trigger] all.contains(i) <==> i < ipv6.len() && ipv6[i as int]
            == family by {
            if i < ipv6.len() - 1 {
                assert(shorter[i as int] == ipv6[i as int]);
            }
            if rest.contains(i) {
                let k = rest.index_of(i);
                assert(all[k] == i);
            }
            if all.contains(i) {
                let k = all.index_of(i);
                if k < rest.len() {
                    assert(rest[k] == i);
                    assert(rest.contains(i));
                }
            }
            if i == ipv6.len() - 1 && ipv6.last() == family {
                assert(all[rest.len() as int] == i);
            }
        }
        assert forall|i: int, j: int| 0 <= i < all.len() && 0 <= j < all.len() && i != j implies all[i]
            != all[j] by {
            if i < rest.len() {
                assert(rest.contains(rest[i]));
            }
            if j < rest.len() {
                assert(rest.contains(rest[j]));
            }
        }
    }
}

/// What came of trying an address.
#[derive(Debug)]
pub enum Attempt {
    Connected,
    Failed(Error),
    TimedOut,
}

/// Trying the addresses of a host one after the other. The first that can be connected to is taken.
#[derive(Debug)]
pub struct SequentialConnect {
    pub order: Vec<usize>,
    pub next: usize,
}

impl SequentialConnect {
    /// Starts with the first address.
    pub fn new(order: Vec<usize>) -> (s: SequentialConnect)
        ensures
            s.order == order,
            s.next == 0,
    {
        SequentialConnect { order, next: 0 }
    }

    /// The index of the address to try.
    pub fn address(&self) -> (i: usize)
        requires
            self.next < self.order@.len(),
        ensures
            i == self.order@[self.next as int],
    {
        self.order[self.next]
    }

    /// Takes what came of trying the address: true where the connection is there, false where the next
    /// address is to be tried, the last failure where none is left.
    pub fn tried(&mut self, attempt: Attempt) -> (r: TdsResult<bool>)
        requires
            old(self).next < old(self).order@.len(),
        ensures
            final(self).order == old(self).order,
            match attempt {
                Attempt::Connected => r == Ok::<bool, Error>(true) && final(self).next == old(self).next,
                Attempt::Failed(e) => {
                    &&& final(self).next == old(self).next + 1
                    &&& if old(self).next + 1 < old(self).order@.len() {
                        r == Ok::<bool, Error>(false)
                    } else {
                        r == Err::<bool, Error>(e)
                    }
                },
                Attempt::TimedOut => {
                    &&& final(self).next == old(self).next + 1
                    &&& if old(self).next + 1 < old(self).order@.len() {
                        r == Ok::<bool, Error>(false)
                    } else {
                        r matches Err(e) && e.kind() == ErrorKind::Io(IoErrorKind::TimedOut)
                    }
                },
            },
    {
        let total: usize = self.order.len();
        match attempt {
            Attempt::Connected => Ok(true),
            Attempt::Failed(e) => {
                self.next = self.next + 1;
                if self.next < total {
                    Ok(false)
                } else {
                    Err(e)
                }
            },
            Attempt::TimedOut => {
                self.next = self.next + 1;
                if self.next < total {
                    Ok(false)
                } else {
                    Err(Error::Io(IoErrorKind::TimedOut, String::from_str("Connection timed out")))
                }
            },
        }
    }
}

/// What is done to a stream that was just opened.
#[derive(Clone, Copy, Debug, PartialEq, Eq, Structural)]
pub struct TransportSetup {
    /// Whether encryption starts before the first packet, and which.
    pub immediate_tls: Option<NegotiatedEncryptionSetting>,
    /// Whether the packets of the handshake go inside packets of the protocol.
    pub use_tds74_tls_wrapping: bool,
}

/// What is done to a stream that was just opened. Before version 8, encryption is negotiated in
/// packets; from version 8 on, it comes first.
pub fn create_transport_for_version(tds_version: TdsVersion) -> (r: TdsResult<TransportSetup>)
    ensures
        match tds_version {
            TdsVersion::V7_4 => r == Ok::<TransportSetup, Error>(
                (TransportSetup { immediate_tls: None, use_tds74_tls_wrapping: true }),
            ),
            TdsVersion::V8_0 => r == Ok::<TransportSetup, Error>(
                (TransportSetup {
                    immediate_tls: Some(NegotiatedEncryptionSetting::Strict),
                    use_tds74_tls_wrapping: false,
                }),
            ),
            TdsVersion::Unknown(_) => r matches Err(e) && e.kind() == ErrorKind::Protocol,
        },
{
    match tds_version {
        TdsVersion::V7_4 => Ok(TransportSetup { immediate_tls: None, use_tds74_tls_wrapping: true }),
        TdsVersion::V8_0 => Ok(
            TransportSetup {
                immediate_tls: Some(NegotiatedEncryptionSetting::Strict),
                use_tds74_tls_wrapping: false,
            },
        ),
        TdsVersion::Unknown(version_value) => Err(
            Error::ProtocolError(
                number_message(
                    "Unsupported TDS version: ",
                    version_value as u128,
                    ". Only TDS 7.4 and TDS 8.0 are supported.",
                ),
            ),
        ),
    }
}

/// A stream that is told when a handshake starts and when it is over.
pub trait Stream: Sized {
    /// What the start of a handshake makes of the stream.
    spec fn started(pre: Self, post: Self) -> bool;

    /// What the end of a handshake makes of the stream.
    spec fn completed(pre: Self, post: Self) -> bool;

    /// Says that a handshake starts.
    fn tls_handshake_starting(&mut self)
        ensures
            Self::started(*old(self), *final(self)),
    ;

    /// Says that a handshake is over.
    fn tls_handshake_completed(&mut self)
        ensures
            Self::completed(*old(self), *final(self)),
    ;
}

/// What a stream without packets of its own makes of handshakes: nothing.
#[derive(Clone, Copy, Debug, PartialEq, Eq, Structural)]
pub struct PlainStream {
    pub id: u64,
}

impl Stream for PlainStream {
    open spec fn started(pre: PlainStream, post: PlainStream) -> bool {
        post == pre
    }

    open spec fn completed(pre: PlainStream, post: PlainStream) -> bool {
        post == pre
    }

    fn tls_handshake_starting(&mut self) {
    }

    fn tls_handshake_completed(&mut self) {
    }
}

impl<S: Stream> Stream for Box<S> {
    open spec fn started(pre: Box<S>, post: Box<S>) -> bool {
        S::started(*pre, *post)
    }

    open spec fn completed(pre: Box<S>, post: Box<S>) -> bool {
        S::completed(*pre, *post)
    }

    fn tls_handshake_starting(&mut self) {
        (**self).tls_handshake_starting();
    }

    fn tls_handshake_completed(&mut self) {
        (**self).tls_handshake_completed();
    }
}

/// What is done to encrypt a stream.
#[derive(Clone, Copy, Debug, PartialEq, Eq, Structural)]
pub struct SslRequest {
    /// Whether the packets of the handshake go inside packets of the protocol.
    pub wrap: bool,
    /// The encryption that was agreed on.
    pub negotiated: NegotiatedEncryptionSetting,
}

/// A transport whose encryption can be switched on and off.
pub trait TransportSslHandler {
    /// Whether the stream is there.
    spec fn has_stream(&self) -> bool;

    /// Starts to encrypt the stream: says what is to be done to it.
    fn enable_ssl(&mut self) -> (r: SslRequest)
        requires
            old(self).has_stream(),
        ensures
            !final(self).has_stream(),
    ;

    /// Starts to take the encryption away: where that is allowed, the stream below it is to be taken
    /// out.
    fn disable_ssl(&mut self) -> (r: TdsResult<()>)
        ensures
            r is Ok ==> !final(self).has_stream(),
    ;
}

/// The state of a transport. The stream itself is with the caller; it may be taken away to be
/// encrypted or decrypted, and is gone where that fails.
#[derive(Debug)]
pub struct NetworkTransport {
    pub encryption: Option<NegotiatedEncryptionSetting>,
    pub packet_size: u32,
    pub stream_available: bool,
    pub encryption_setting: EncryptionSetting,
    pub tds_read_buffer: TdsReadBuffer,
    pub use_tds74_tls_wrapping: bool,
    /// Whether the stream below the encryption can be had back.
    pub extractable: bool,
}

impl NetworkTransport {
    /// While the stream is being encrypted.
    pub open spec fn ssl_begun(self) -> NetworkTransport {
        NetworkTransport { stream_available: false, extractable: true, ..self }
    }

    /// After the stream was handed back, or not.
    pub open spec fn ssl_over(self, handed_back: bool) -> NetworkTransport {
        NetworkTransport { stream_available: handed_back, ..self }
    }

    /// While the encryption is being taken away. The stream below it can be had once.
    pub open spec fn ssl_given_up(self) -> NetworkTransport {
        NetworkTransport {
            stream_available: false,
            extractable: self.extractable && !self.stream_available,
            ..self
        }
    }

    /// A transport over a stream that was just opened.
    pub fn new(
        packet_size: u32,
        encryption_setting: EncryptionSetting,
        use_tds74_tls_wrapping: bool,
    ) -> (t: NetworkTransport)
        requires
            8 <= packet_size <= 0x7fff_ffff,
        ensures
            t.encryption is None,
            t.packet_size == packet_size,
            t.stream_available,
            t.encryption_setting == encryption_setting,
            t.use_tds74_tls_wrapping == use_tds74_tls_wrapping,
            !t.extractable,
            t.tds_read_buffer.well_formed(),
            t.tds_read_buffer.max_packet_size == packet_size,
            t.tds_read_buffer.unread() == Seq::<u8>::empty(),
            t.tds_read_buffer.pending() == Seq::<u8>::empty(),
    {
        NetworkTransport {
            encryption: None,
            packet_size,
            stream_available: true,
            encryption_setting,
            tds_read_buffer: TdsReadBuffer::new(packet_size as usize),
            use_tds74_tls_wrapping,
            extractable: false,
        }
    }

    /// The packet size that was agreed on.
    pub fn packet_size(&self) -> (n: u32)
        ensures
            n == self.packet_size,
    {
        self.packet_size
    }

    /// Notes which encryption was agreed on. That happens once.
    pub fn notify_encryption_negotiation(&mut self, encryption: NegotiatedEncryptionSetting)
        requires
            old(self).encryption is None,
        ensures
            *final(self) == (NetworkTransport { encryption: Some(encryption), ..*old(self) }),
    {
        self.encryption = Some(encryption);
    }

    /// Notes the packet size that was agreed on. The read buffer follows when the reader is reset.
    pub fn notify_session_setting_change(&mut self, packet_size: u32)
        ensures
            *final(self) == (NetworkTransport { packet_size, ..*old(self) }),
    {
        self.packet_size = packet_size;
    }

    /// Which encryption was agreed on.
    pub fn get_encryption_setting(&self) -> (e: NegotiatedEncryptionSetting)
        requires
            self.encryption is Some,
        ensures
            Some(e) == self.encryption,
    {
        match self.encryption {
            Some(e) => e,
            None => NegotiatedEncryptionSetting::NoEncryption,
        }
    }

    /// Gives up all that was read of an answer, and makes the read buffer fit the packet size.
    pub fn reset_reader(&mut self)
        requires
            8 <= old(self).packet_size <= 0x7fff_ffff,
            old(self).tds_read_buffer.well_formed(),
        ensures
            TdsReadBuffer::was_reset(
                old(self).tds_read_buffer,
                final(self).tds_read_buffer,
                old(self).packet_size as nat,
            ),
            *final(self) == (NetworkTransport {
                tds_read_buffer: final(self).tds_read_buffer,
                ..*old(self)
            }),
    {
        self.tds_read_buffer.change_packet_size(self.packet_size);
        self.tds_read_buffer.reset_to_length(0);
        self.tds_read_buffer.pending_bytes = 0;
        self.tds_read_buffer.pending_bytes_offset = 0;
    }

    /// Says whether bytes can be received into a buffer of so many bytes.
    pub fn before_receive(&self, buffer_len: usize) -> (r: TdsResult<()>)
        ensures
            buffer_len > 0 ==> r is Ok,
            buffer_len == 0 ==> (r matches Err(e) && e.kind() == ErrorKind::Usage),
    {
        if buffer_len == 0 {
            return Err(Error::UsageError(String::from_str("Buffer length must be greater than 0")));
        }
        Ok(())
    }

    /// Takes how many bytes were received. None mean that the stream has ended.
    pub fn after_receive(&self, bytes_read: usize) -> (r: TdsResult<usize>)
        ensures
            bytes_read > 0 ==> r == Ok::<usize, Error>(bytes_read),
            bytes_read == 0 ==> (r matches Err(e) && e.kind() == ErrorKind::Io(
                IoErrorKind::UnexpectedEof,
            )),
    {
        if bytes_read == 0 {
            Err(Error::Io(IoErrorKind::UnexpectedEof, String::from_str("unexpected end of file")))
        } else {
            Ok(bytes_read)
        }
    }

    /// Begins to read a packet: the payload that has come is moved to the front of the buffer, and bytes
    /// that came after the last packet behind it.
    pub fn begin_tds_packet(&mut self) -> (r: TdsResult<Assembly>)
        requires
            old(self).tds_read_buffer.well_formed(),
        ensures
            r matches Ok(a) && final(self).tds_read_buffer.assembling(a)
                && final(self).tds_read_buffer.raw(a) == old(self).tds_read_buffer.pending(),
            final(self).tds_read_buffer.unread() == old(self).tds_read_buffer.unread(),
            final(self).tds_read_buffer.max_packet_size == old(self).tds_read_buffer.max_packet_size,
            *final(self) == (NetworkTransport {
                tds_read_buffer: final(self).tds_read_buffer,
                ..*old(self)
            }),
    {
        self.tds_read_buffer.prepare();
        self.tds_read_buffer.begin_packet()
    }

    /// Goes on to read a packet. Where it is all there, its payload goes behind the payload that was there,
    /// and what came after it is kept.
    pub fn read_tds_packet(&mut self, a: &Assembly) -> (r: TdsResult<PacketStep>)
        requires
            old(self).tds_read_buffer.assembling(*a),
        ensures
            ({
                let buffer = old(self).tds_read_buffer;
                let raw = buffer.raw(*a);
                let len = be_nat(raw, 2, 2);
                let space = buffer.working_buffer@.len() - a.base_offset - a.bytes_available;
                if raw.len() >= 8 && (len < 8 || len > buffer.max_packet_size || a.base_offset + len
                    > buffer.working_buffer@.len()) {
                    *final(self) == *old(self) && (r matches Err(e) && e.kind() == ErrorKind::Protocol)
                } else if first_packet(raw, buffer.max_packet_size as nat) is None {
                    *final(self) == *old(self) && r == Ok::<PacketStep, Error>(
                        PacketStep::Read(space as usize),
                    )
                } else {
                    &&& r == Ok::<PacketStep, Error>(PacketStep::Complete(len as usize))
                    &&& final(self).tds_read_buffer.well_formed()
                    &&& final(self).tds_read_buffer.unread() == buffer.unread() + raw.subrange(
                        8,
                        len as int,
                    )
                    &&& final(self).tds_read_buffer.pending() == raw.skip(len as int)
                    &&& final(self).tds_read_buffer.max_packet_size == buffer.max_packet_size
                    &&& *final(self) == (NetworkTransport {
                        tds_read_buffer: final(self).tds_read_buffer,
                        ..*old(self)
                    })
                }
            }),
    {
        let ghost raw = self.tds_read_buffer.raw(*a);
        let ghost whole = self.tds_read_buffer.working_buffer@;
        let step: PacketStep = self.tds_read_buffer.packet_step(a)?;
        match step {
            PacketStep::Read(n) => {},
            PacketStep::Complete(n) => {
                assert(whole.subrange(a.base_offset + 8, a.base_offset + n) =~= raw.subrange(
                    8,
                    n as int,
                ));
                self.tds_read_buffer.remove_header_from_packet(n);
            },
        }
        Ok(step)
    }

    /// Takes all of the payload that has come.
    pub fn take_payload(&mut self) -> (payload: Vec<u8>)
        requires
            old(self).tds_read_buffer.well_formed(),
        ensures
            payload@ == old(self).tds_read_buffer.unread(),
            final(self).tds_read_buffer.well_formed(),
            final(self).tds_read_buffer.unread() == Seq::<u8>::empty(),
            final(self).tds_read_buffer.pending() == old(self).tds_read_buffer.pending(),
            final(self).tds_read_buffer.max_packet_size == old(self).tds_read_buffer.max_packet_size,
            *final(self) == (NetworkTransport {
                tds_read_buffer: final(self).tds_read_buffer,
                ..*old(self)
            }),
    {
        let payload: Vec<u8> = vstd::slice::slice_to_vec(self.tds_read_buffer.get_slice());
        let n: usize = self.tds_read_buffer.get_remaining_byte_count();
        self.tds_read_buffer.consume_bytes(n);
        assert(self.tds_read_buffer.unread() =~= Seq::<u8>::empty());
        payload
    }

    /// Takes what came of a handshake: where it succeeded, the stream is there again.
    pub fn ssl_enabled(&mut self, handshake: TdsResult<()>) -> (r: TdsResult<()>)
        requires
            !old(self).stream_available,
        ensures
            r == handshake,
            *final(self) == old(self).ssl_over(handshake is Ok),
    {
        match handshake {
            Ok(u) => {
                self.stream_available = true;
                Ok(u)
            },
            Err(e) => Err(e),
        }
    }

    /// Takes whether the stream below the encryption could be taken out: where it could, it is the
    /// stream again.
    pub fn ssl_disabled(&mut self, extracted: bool) -> (r: TdsResult<()>)
        requires
            !old(self).stream_available,
        ensures
            *final(self) == old(self).ssl_over(extracted),
            extracted ==> r is Ok,
            !extracted ==> (r matches Err(e) && e.kind() == ErrorKind::ImplementationError),
    {
        if extracted {
            self.stream_available = true;
            Ok(())
        } else {
            Err(
                Error::ImplementationError(
                    String::from_str("Cannot disable TLS: underlying stream was already extracted"),
                ),
            )
        }
    }

    /// The columns of a context; a protocol error where it has none.
    pub fn extract_column_metadata(context: &ParserContext) -> (r: TdsResult<&Vec<ColumnMetadata>>)
        ensures
            match columns_of(context) {
                Some(c) => r matches Ok(v) && v@ == c,
                None => r matches Err(e) && e.kind() == ErrorKind::Protocol,
            },
    {
        extract_column_metadata(context)
    }

    /// The packet that tells the server to stop sending: a header alone.
    pub fn cancel_read_stream(&self) -> (packet: Vec<u8>)
        ensures
            packet@ == header(PacketType::Attention.code(), STATUS_EOM, 8, 1),
    {
        PacketWriter::build_header(8, PacketType::Attention, 1, true, false)
    }
}

impl TransportSslHandler for NetworkTransport {
    open spec fn has_stream(&self) -> bool {
        self.stream_available
    }

    /// Starts to encrypt the stream. Where nothing was agreed on, encryption is mandatory.
    fn enable_ssl(&mut self) -> (r: SslRequest)
        ensures
            r == (SslRequest {
                wrap: old(self).use_tds74_tls_wrapping,
                negotiated: match old(self).encryption {
                    Some(e) => e,
                    None => NegotiatedEncryptionSetting::Mandatory,
                },
            }),
            *final(self) == old(self).ssl_begun(),
    {
        self.stream_available = false;
        self.extractable = true;
        let negotiated: NegotiatedEncryptionSetting = match self.encryption {
            Some(e) => e,
            None => NegotiatedEncryptionSetting::Mandatory,
        };
        SslRequest { wrap: self.use_tds74_tls_wrapping, negotiated }
    }

    /// Starts to take the encryption away. Under strict encryption that is not allowed, and nothing
    /// changes; otherwise the encrypted stream is given up, whether the one below it can be had or not.
    fn disable_ssl(&mut self) -> (r: TdsResult<()>)
        ensures
            old(self).encryption_setting == EncryptionSetting::Strict ==> *final(self) == *old(self)
                && (r matches Err(e) && e.kind() == ErrorKind::Io(IoErrorKind::InvalidInput)),
            old(self).encryption_setting != EncryptionSetting::Strict ==> {
                &&& r is Ok <==> old(self).stream_available && old(self).extractable
                &&& r matches Err(e) ==> e.kind() == ErrorKind::ImplementationError
                &&& *final(self) == old(self).ssl_given_up()
            },
    {
        if self.encryption_setting == EncryptionSetting::Strict {
            return Err(
                Error::Io(
                    IoErrorKind::InvalidInput,
                    String::from_str("Under strict mode the client must communicate over TLS"),
                ),
            );
        }
        if !self.stream_available {
            return Err(
                Error::ImplementationError(
                    String::from_str("disable_ssl called but stream is not available"),
                ),
            );
        }
        self.stream_available = false;
        if !self.extractable {
            return Err(
                Error::ImplementationError(
                    String::from_str(
                        "Cannot disable TLS: TLS was never enabled (no extractable stream handle)",
                    ),
                ),
            );
        }
        self.extractable = false;
        Ok(())
    }
}

/// Whether an error asks for the server to be told to stop sending, before it is handed on.
pub open spec fn interrupts(k: ErrorKind) -> bool {
    k == ErrorKind::OperationCancelled || k == ErrorKind::Timeout
}

/// Whether an error of reading a token asks for the server to be told to stop sending.
pub fn needs_attention(e: &Error) -> (b: bool)
    ensures
        b == interrupts(e.kind()),
{
    match e {
        Error::OperationCancelledError(_) | Error::TimeoutError(_) => true,
        _ => false,
    }
}

/// What came of reading a token while an acknowledgement is awaited.
#[derive(Debug)]
pub enum AckReading {
    TimedOut,
    Token(Tokens),
    Failed(Error),
}

/// What is done next while an acknowledgement is awaited.
#[derive(Clone, Copy, Debug, PartialEq, Eq, Structural)]
pub enum AckStep {
    /// A token is to be read, for at most so many nanoseconds where there is a limit.
    Read(Option<u128>),
    /// It is over: whether the acknowledgement came.
    Over(bool),
}

/// What is done before a token is read, so many nanoseconds after the start.
pub open spec fn ack_next(attention_timeout: Option<u128>, elapsed: u128) -> AckStep {
    match attention_timeout {
        Some(t) => if elapsed >= t {
            AckStep::Over(false)
        } else {
            AckStep::Read(Some((t - elapsed) as u128))
        },
        None => AckStep::Read(None),
    }
}

/// What a reading comes to: nothing yet, whether the acknowledgement came, or the error. Only a token
/// that ends a command acknowledges; other tokens are passed over.
pub open spec fn ack_of(reading: AckReading) -> Option<TdsResult<bool>> {
    match reading {
        AckReading::TimedOut => Some(Ok(false)),
        AckReading::Token(Tokens::Done(d)) => if d.acknowledges() {
            Some(Ok(true))
        } else {
            None
        },
        AckReading::Token(_) => None,
        AckReading::Failed(e) => Some(Err(e)),
    }
}

/// What is done before a token is read.
pub fn before_ack(attention_timeout: Option<u128>, elapsed: u128) -> (s: AckStep)
    ensures
        s == ack_next(attention_timeout, elapsed),
{
    match attention_timeout {
        Some(t) => if elapsed >= t {
            AckStep::Over(false)
        } else {
            AckStep::Read(Some(t - elapsed))
        },
        None => AckStep::Read(None),
    }
}

/// What a reading comes to: nothing yet, or whether the acknowledgement came.
pub fn after_ack(reading: AckReading) -> (r: TdsResult<Option<bool>>)
    ensures
        match ack_of(reading) {
            None => r == Ok::<Option<bool>, Error>(None),
            Some(Ok(b)) => r == Ok::<Option<bool>, Error>(Some(b)),
            Some(Err(e)) => r == Err::<Option<bool>, Error>(e),
        },
{
    match reading {
        AckReading::TimedOut => Ok(Some(false)),
        AckReading::Token(token) => match token {
            Tokens::Done(d) => if d.acknowledges() {
                Ok(Some(true))
            } else {
                Ok(None)
            },
            _ => Ok(None),
        },
        AckReading::Failed(e) => Err(e),
    }
}

/// What a wait comes to after these readings, each with the time at which it was started; nothing while
/// it goes on.
pub open spec fn ack_run(attention_timeout: Option<u128>, readings: Seq<(u128, AckReading)>) -> Option<
    TdsResult<bool>,
>
    decreases readings.len(),
{
    if readings.len() == 0 {
        None
    } else if ack_next(attention_timeout, readings[0].0) == AckStep::Over(false) {
        Some(Ok(false))
    } else {
        match ack_of(readings[0].1) {
            Some(r) => Some(r),
            None => ack_run(attention_timeout, readings.drop_first()),
        }
    }
}

/// Whether a reading is a token that acknowledges.
pub open spec fn is_ack(reading: AckReading) -> bool {
    reading matches AckReading::Token(Tokens::Done(d)) && d.acknowledges()
}

/// A wait says that the acknowledgement came only where it did, and fails only with the error of a
/// reading.
pub proof fn law_ack_means_ack(limit: Option<u128>, readings: Seq<(u128, AckReading)>)
    ensures
        ack_run(limit, readings) == Some(Ok::<bool, Error>(true)) ==> exists|i: int|
            0 <= i < readings.len() && is_ack(#[trigger] readings[i].1),
        ack_run(limit, readings) matches Some(Err(e)) ==> exists|i: int|
            0 <= i < readings.len() && #[trigger] readings[i].1 == AckReading::Failed(e),
    decreases readings.len(),
{
    if readings.len() > 0 {
        let rest = readings.drop_first();
        law_ack_means_ack(limit, rest);
        match ack_run(limit, readings) {
            Some(Ok(true)) => {
                if ack_of(readings[0].1) is None {
                    let i = choose|i: int| 0 <= i < rest.len() && is_ack(#[trigger] rest[i].1);
                    assert(is_ack(readings[i + 1].1));
                } else {
                    assert(is_ack(readings[0].1));
                }
            },
            Some(Err(e)) => {
                if ack_of(readings[0].1) is None {
                    let i = choose|i: int|
                        0 <= i < rest.len() && #[trigger] rest[i].1 == AckReading::Failed(e);
                    assert(readings[i + 1].1 == AckReading::Failed(e));
                } else {
                    assert(readings[0].1 == AckReading::Failed(e));
                }
            },
            _ => {},
        }
    }
}

/// Without a limit, and where no reading runs out of time, a wait never ends without an acknowledgement
/// or an error.
pub proof fn law_ack_without_limit(readings: Seq<(u128, AckReading)>)
    requires
        forall|i: int| 0 <= i < readings.len() ==> !((#[trigger] readings[i]).1 is TimedOut),
    ensures
        ack_run(None, readings) != Some(Ok::<bool, Error>(false)),
    decreases readings.len(),
{
    if readings.len() > 0 {
        assert(!(readings[0].1 is TimedOut));
        let rest = readings.drop_first();
        assert forall|i: int| 0 <= i < rest.len() implies !((#[trigger] rest[i]).1 is TimedOut) by {
            assert(!(readings[i + 1].1 is TimedOut));
        }
        law_ack_without_limit(rest);
    }
}

/// After encryption was switched on and off again, the transport is as it was: the stream below is the
/// stream again.
pub proof fn law_ssl_on_and_off(t: NetworkTransport)
    requires
        t.stream_available,
        !t.extractable,
    ensures
        t.ssl_begun().ssl_over(true).ssl_given_up().ssl_over(true) == t,
{
}

/// Where one family of addresses is preferred, all of its addresses come before the others, and within a
/// family the order stays as it was.
pub proof fn law_preferred_addresses_first(preference: IPAddressPreference, ipv6: Seq<bool>, i: int, j: int)
    requires
        ipv6.len() <= usize::MAX,
        0 <= i < j < address_order(preference, ipv6).len(),
    ensures
        ({
            let a = address_order(preference, ipv6)[i];
            let b = address_order(preference, ipv6)[j];
            &&& address_order(preference, ipv6).len() == ipv6.len()
            &&& a < ipv6.len() && b < ipv6.len()
            &&& preference is UsePlatformDefault ==> a < b
            &&& preference is IPv4First ==> (ipv6[b as int] || !ipv6[a as int]) && (ipv6[a as int]
                == ipv6[b as int] ==> a < b)
            &&& preference is IPv6First ==> (ipv6[a as int] || !ipv6[b as int]) && (ipv6[a as int]
                == ipv6[b as int] ==> a < b)
        }),
{
    lemma_family_order(ipv6, true);
    lemma_family_order(ipv6, false);
    lemma_families_add_up(ipv6);
}

/// The addresses of a family, in their order.
proof fn lemma_family_order(ipv6: Seq<bool>, family: bool)
    requires
        ipv6.len() <= usize::MAX,
    ensures
        forall|i: int|
            0 <= i < of_family(ipv6, family).len() ==> (#[trigger] of_family(ipv6, family)[i])
                < ipv6.len() && ipv6[of_family(ipv6, family)[i] as int] == family,
        forall|i: int, j: int|
            0 <= i < j < of_family(ipv6, family).len() ==> #[trigger] of_family(ipv6, family)[i]
                < #[trigger] of_family(ipv6, family)[j],
    decreases ipv6.len(),
{
    if ipv6.len() > 0 {
        let rest = ipv6.drop_last();
        lemma_family_order(rest, family);
        let a = of_family(ipv6, family);
        let b = of_family(rest, family);
        assert forall|i: int| 0 <= i < a.len() implies (#[trigger] a[i]) < ipv6.len() && ipv6[a[i] as int]
            == family by {
            if i < b.len() {
                assert(a[i] == b[i]);
                assert(ipv6[b[i] as int] == rest[b[i] as int]);
            }
        }
        assert forall|i: int, j: int| 0 <= i < j < a.len() implies #[trigger] a[i] < #[trigger] a[j] by {
            assert(a[i] == b[i]);
            if j < b.len() {
                assert(a[j] == b[j]);
            }
        }
    }
}

/// Every address is of one of the two families.
proof fn lemma_families_add_up(ipv6: Seq<bool>)
    ensures
        of_family(ipv6, true).len() + of_family(ipv6, false).len() == ipv6.len(),
    decreases ipv6.len(),
{
    if ipv6.len() > 0 {
        lemma_families_add_up(ipv6.drop_last());
    }
}

/// What a connection is made of: TCP goes to the host and the port, to all addresses at once where that is
/// asked for; pipes, shared memory and LocalDB are there on Windows alone, and not for all addresses at once.
/// Shared memory is a pipe of the computer itself.
pub proof fn law_base_stream(way: TransportView, all: bool, platform: Platform)
    ensures
        way matches TransportView::Tcp(host, port, _) ==> base_stream(way, all, platform) == Ok::<
            BaseStreamView,
            ErrorKind,
        >(
            if all {
                BaseStreamView::Parallel(host, port)
            } else {
                BaseStreamView::Sequential(host, port)
            },
        ),
        !(way is Tcp) && (all || platform != Platform::Windows) ==> base_stream(way, all, platform) is Err,
        way matches TransportView::NamedPipe(name) ==> (!all && platform == Platform::Windows
            ==> base_stream(way, all, platform) == Ok::<BaseStreamView, ErrorKind>(
            BaseStreamView::Pipe(name),
        )),
        way matches TransportView::LocalDB(name) ==> (!all && platform == Platform::Windows
            ==> base_stream(way, all, platform) == Ok::<BaseStreamView, ErrorKind>(
            BaseStreamView::LocalDb(name),
        )),
        way matches TransportView::SharedMemory(name) ==> (!all && platform == Platform::Windows ==> (
        base_stream(way, all, platform) matches Ok(BaseStreamView::Pipe(pipe)) && pipe.len() >= 18
            && pipe.skip(18) == (if name.len() == 0 {
            seq!['M', 'S', 'S', 'Q', 'L', 'S', 'E', 'R', 'V', 'E', 'R']
        } else {
            name
        }) && pipe.take(18) == seq![
            '\\', '\\', '.', '\\', 'p', 'i', 'p', 'e', '\\', 'S', 'Q', 'L', 'L', 'o', 'c', 'a', 'l', '\\',
        ])),
{
    if way is SharedMemory {
        reveal_strlit("\\\\.\\pipe\\SQLLocal\\");
        reveal_strlit("MSSQLSERVER");
        let name = way->SharedMemory_0;
        let pipe = shared_memory_pipe(name);
        assert(pipe.take(18) =~= seq![
            '\\', '\\', '.', '\\', 'p', 'i', 'p', 'e', '\\', 'S', 'Q', 'L', 'L', 'o', 'c', 'a', 'l', '\\',
        ]);
        if name.len() > 0 {
            assert(pipe.skip(18) =~= name);
        }
    }
}

/// A wait for an acknowledgement with a limit goes on while time is left, and reads for no longer than that.
pub proof fn law_ack_time(limit: Option<u128>, elapsed: u128)
    ensures
        limit matches Some(t) ==> (match ack_next(limit, elapsed) {
            AckStep::Read(Some(left)) => elapsed < t && elapsed + left == t,
            AckStep::Read(None) => false,
            AckStep::Over(b) => !b && elapsed >= t,
        }),
        limit is None ==> ack_next(limit, elapsed) == AckStep::Read(None),
{
}

/// A wait is decided by the first reading that decides: as long as the time has not run out, it says that the
/// acknowledgement came with the first one that does, that it did not with the first reading that ran out of
/// time, and fails with the first that failed.
pub proof fn law_first_answer_decides(limit: Option<u128>, readings: Seq<(u128, AckReading)>, i: int)
    requires
        0 <= i < readings.len(),
        forall|j: int|
            0 <= j < i ==> ((#[trigger] readings[j]).1 matches AckReading::Token(t) && (t matches Tokens::Done(
                d,
            ) ==> (d.status / 32) % 2 == 0)),
        forall|j: int| 0 <= j <= i ==> (limit matches Some(t) ==> (#[trigger] readings[j]).0 < t),
    ensures
        readings[i].1 is TimedOut ==> ack_run(limit, readings) == Some(Ok::<bool, Error>(false)),
        readings[i].1 matches AckReading::Failed(e) ==> ack_run(limit, readings) == Some(Err::<bool, Error>(e)),
        readings[i].1 matches AckReading::Token(Tokens::Done(d)) ==> ((d.status / 32) % 2 == 1 ==> ack_run(
            limit,
            readings,
        ) == Some(Ok::<bool, Error>(true))),
    decreases i,
{
    let first = readings[0];
    if let AckReading::Token(Tokens::Done(d)) = first.1 {
        law_done_status(d);
    }
    assert(limit matches Some(t) ==> first.0 < t);
    if i > 0 {
        let rest = readings.drop_first();
        assert forall|j: int| 0 <= j < i - 1 implies ((#[trigger] rest[j]).1 matches AckReading::Token(t) && (
        t matches Tokens::Done(d) ==> (d.status / 32) % 2 == 0)) by {
            assert(rest[j] == readings[j + 1]);
        }
        assert forall|j: int| 0 <= j <= i - 1 implies (limit matches Some(t) ==> (#[trigger] rest[j]).0 < t) by {
            assert(rest[j] == readings[j + 1]);
        }
        law_first_answer_decides(limit, rest, i - 1);
        assert(rest[i - 1] == readings[i]);
        assert(ack_of(first.1) is None);
    }
}

/// A wait goes on after readings that do not decide, and ends without the acknowledgement once its time has
/// run out.
pub proof fn law_wait_runs_out(t: u128, elapsed: u128, reading: AckReading)
    ensures
        ack_run(None, Seq::<(u128, AckReading)>::empty()) is None,
        elapsed >= t ==> ack_run(Some(t), seq![(elapsed, reading)]) == Some(Ok::<bool, Error>(false)),
{
}

/// Reading is broken off by a cancellation and by a time that ran out, and by nothing else.
pub proof fn law_interruptions(k: ErrorKind)
    ensures
        interrupts(k) == (k is OperationCancelled || k is Timeout),
{
}

} // verus!
