//! Splitting a message into packets.

use crate::bytes::{
    be_bytes, be_nat, be_push_i16, be_push_i32, be_push_i64, be_push_u16, le_bytes, le_push_i16,
    le_push_i32, le_push_i64, le_push_u16, le_push_u32, le_push_u64, lemma_be_bytes_len,
    lemma_le_bytes_len, unsigned,
};
use crate::error::{Error, ErrorKind, TdsResult, TimeoutErrorType};
use crate::message::{PacketType, STATUS_EOM, STATUS_EOM_IGNORE, STATUS_NORMAL};
use crate::text::{utf16_units, utf16_text};
use vstd::prelude::*;
use vstd::string::StringExecFns;

verus! {

/// The size of a packet's header, in bytes.
pub const PACKET_HEADER_SIZE: usize = 8;

/// A packet that is ready to be sent. The first packet of a message is marked.
#[derive(Clone, Debug, PartialEq, Eq)]
pub struct OutgoingPacket {
    pub bytes: Vec<u8>,
    pub is_first: bool,
}

/// How far a message has been sent.
#[derive(Clone, Copy, Debug, PartialEq, Eq, Structural)]
pub enum MessageSendState {
    NotStarted,
    Partial,
    Complete,
}

/// The header of a packet: type, status, length (header included), two bytes of process
/// identifier, number of the packet, one byte of window.
pub open spec fn header(code: u8, status: u8, length: nat, id: u8) -> Seq<u8> {
    seq![code, status] + be_bytes(length % 0x1_0000, 2) + seq![0u8, 0u8, id, 0u8]
}

/// The status of a packet.
pub open spec fn status_of(is_last: bool, is_ignore: bool) -> u8 {
    if is_last {
        if is_ignore {
            STATUS_EOM_IGNORE
        } else {
            STATUS_EOM
        }
    } else {
        STATUS_NORMAL
    }
}

/// A message while it is written: what packets are made of, the packets made so far and not yet
/// taken, each with whether it is the message's first, and the bytes that are not yet in a packet.
#[verifier::ext_equal]
pub struct WriterView {
    pub packet_type: PacketType,
    pub max_payload: nat,
    pub id: u8,
    pub first: bool,
    pub packets: Seq<(Seq<u8>, bool)>,
    pub contents: Seq<u8>,
}

impl WriterView {
    /// After a packet with this payload.
    pub open spec fn sent(self, status: u8, payload: Seq<u8>) -> WriterView {
        WriterView {
            id: ((self.id + 1) % 256) as u8,
            first: false,
            packets: self.packets.push(
                (
                    header(self.packet_type.code(), status, 8 + payload.len(), self.id) + payload,
                    self.first,
                ),
            ),
            ..self
        }
    }

    /// The packet that ends the message and tells the server to ignore it: a header alone.
    pub open spec fn ignore_packet(self) -> Seq<u8> {
        header(self.packet_type.code(), STATUS_EOM_IGNORE, 8, self.id)
    }

    /// With these bytes in place of those that are not yet in a packet.
    pub open spec fn with(self, contents: Seq<u8>) -> WriterView {
        WriterView { contents, ..self }
    }

    /// After a packet has been made of the bytes that are not yet in one, where they fill it. What
    /// does not go into it starts the next.
    pub open spec fn overflowed(self) -> WriterView {
        if self.contents.len() >= self.max_payload {
            self.sent(STATUS_NORMAL, self.contents.take(self.max_payload as int)).with(
                self.contents.skip(self.max_payload as int),
            )
        } else {
            self
        }
    }

    /// After these bytes, where a packet is made once they are all there.
    pub open spec fn wrote(self, bytes: Seq<u8>) -> WriterView {
        self.with(self.contents + bytes).overflowed()
    }

    /// After these bytes, where packets are filled one after the other and the last one is kept,
    /// even if it is full.
    pub open spec fn filled(self, bytes: Seq<u8>) -> WriterView
        decreases bytes.len(), self.contents.len(),
        when self.contents.len() <= self.max_payload && self.max_payload > 0
    {
        let space = self.max_payload - self.contents.len();
        if bytes.len() == 0 {
            self
        } else if space < bytes.len() {
            self.sent(STATUS_NORMAL, self.contents + bytes.take(space)).with(Seq::empty()).filled(
                bytes.skip(space),
            )
        } else {
            self.with(self.contents + bytes)
        }
    }

    /// After these bytes, one by one, where a packet is made as soon as it is full.
    pub open spec fn wrote_each(self, bytes: Seq<u8>) -> WriterView
        decreases bytes.len(),
    {
        if bytes.len() == 0 {
            self
        } else {
            self.wrote_each(bytes.drop_last()).wrote(seq![bytes.last()])
        }
    }

    /// After a full packet that was kept has been made, if there is one.
    pub open spec fn flushed_if_full(self) -> WriterView {
        if self.contents.len() == self.max_payload {
            self.sent(STATUS_NORMAL, self.contents).with(Seq::empty())
        } else {
            self
        }
    }

    /// After so many full packets have been made of the bytes that are not yet in one.
    pub open spec fn cut(self, k: nat) -> WriterView
        decreases k,
    {
        if k == 0 {
            self
        } else {
            let v = self.cut((k - 1) as nat);
            v.sent(STATUS_NORMAL, v.contents.take(v.max_payload as int)).with(
                v.contents.skip(v.max_payload as int),
            )
        }
    }

    /// Whether the bytes that are not yet in a packet fill so many.
    pub open spec fn fills(self, k: nat) -> bool
        decreases k,
    {
        k == 0 || (self.fills((k - 1) as nat) && self.cut((k - 1) as nat).contents.len()
            >= self.max_payload)
    }

    /// Whether `later` is what is left after these bytes were written: they stand behind those that
    /// were not yet in a packet, and full packets may have been made of what stands there, in order.
    pub open spec fn grew(self, bytes: Seq<u8>, later: WriterView) -> bool {
        exists|k: nat|
            #[trigger] self.with(self.contents + bytes).fills(k) && later == self.with(
                self.contents + bytes,
            ).cut(k)
    }

    /// After the message's last packet has been made of the bytes that are not yet in one, if there
    /// are any.
    pub open spec fn finished(self) -> WriterView {
        if self.contents.len() > 0 {
            let n = if self.contents.len() > self.max_payload {
                self.max_payload as int
            } else {
                self.contents.len() as int
            };
            self.sent(STATUS_EOM, self.contents.take(n)).with(Seq::empty())
        } else {
            self
        }
    }

    /// The payloads of the packets, one after the other, and the bytes that are not yet in one: all
    /// that was written, in order.
    pub open spec fn written(self) -> Seq<u8> {
        payloads(self.packets) + self.contents
    }
}

/// The payloads of packets, one after the other.
pub open spec fn payloads(packets: Seq<(Seq<u8>, bool)>) -> Seq<u8>
    decreases packets.len(),
{
    if packets.len() == 0 {
        Seq::empty()
    } else {
        payloads(packets.drop_last()) + packets.last().0.skip(8)
    }
}

/// A header has eight bytes.
pub proof fn lemma_header_len(code: u8, status: u8, length: nat, id: u8)
    ensures
        header(code, status, length, id).len() == 8,
{
    lemma_be_bytes_len(length % 0x1_0000, 2);
}

/// A packet adds its payload.
pub proof fn lemma_sent_payloads(v: WriterView, status: u8, payload: Seq<u8>)
    ensures
        payloads(v.sent(status, payload).packets) == payloads(v.packets) + payload,
{
    let h = header(v.packet_type.code(), status, 8 + payload.len(), v.id);
    lemma_header_len(v.packet_type.code(), status, 8 + payload.len(), v.id);
    let p = v.sent(status, payload).packets;
    assert(p.drop_last() =~= v.packets);
    assert((h + payload).skip(8) =~= payload);
}

/// Making a packet of what fills it loses nothing and adds nothing.
pub proof fn lemma_overflow_keeps(v: WriterView)
    ensures
        v.overflowed().written() == v.written(),
        v.overflowed().max_payload == v.max_payload,
        v.overflowed().packet_type == v.packet_type,
{
    if v.contents.len() >= v.max_payload {
        let m = v.max_payload as int;
        lemma_sent_payloads(v, STATUS_NORMAL, v.contents.take(m));
        assert(payloads(v.packets) + v.contents.take(m) + v.contents.skip(m) =~= payloads(v.packets)
            + v.contents);
    }
}

/// Writing bytes puts exactly them behind what was written, however they are split into packets.
pub proof fn law_write_appends(v: WriterView, bytes: Seq<u8>)
    ensures
        v.wrote(bytes).written() == v.written() + bytes,
        v.wrote(bytes).max_payload == v.max_payload,
        v.wrote(bytes).packet_type == v.packet_type,
        v.contents.len() + bytes.len() < 2 * v.max_payload ==> v.wrote(bytes).contents.len()
            < v.max_payload,
{
    lemma_overflow_keeps(v.with(v.contents + bytes));
    assert(payloads(v.packets) + (v.contents + bytes) =~= v.written() + bytes);
}

/// Filling packets with bytes puts exactly them behind what was written.
pub proof fn law_fill_appends(v: WriterView, bytes: Seq<u8>)
    requires
        v.contents.len() <= v.max_payload,
        v.max_payload > 0,
    ensures
        v.filled(bytes).written() == v.written() + bytes,
        v.filled(bytes).max_payload == v.max_payload,
        v.filled(bytes).packet_type == v.packet_type,
        v.filled(bytes).contents.len() <= v.max_payload,
    decreases bytes.len(), v.contents.len(),
{
    let space = v.max_payload - v.contents.len();
    if bytes.len() == 0 {
        assert(v.written() + bytes =~= v.written());
    } else if space < bytes.len() {
        let w = v.sent(STATUS_NORMAL, v.contents + bytes.take(space)).with(Seq::empty());
        lemma_sent_payloads(v, STATUS_NORMAL, v.contents + bytes.take(space));
        law_fill_appends(w, bytes.skip(space));
        assert(w.written() + bytes.skip(space) =~= v.written() + bytes);
    } else {
        assert(payloads(v.packets) + (v.contents + bytes) =~= v.written() + bytes);
    }
}

/// Writing bytes one by one puts exactly them behind what was written.
pub proof fn law_write_each_appends(v: WriterView, bytes: Seq<u8>)
    requires
        v.contents.len() < v.max_payload,
    ensures
        v.wrote_each(bytes).written() == v.written() + bytes,
        v.wrote_each(bytes).max_payload == v.max_payload,
        v.wrote_each(bytes).packet_type == v.packet_type,
        v.wrote_each(bytes).contents.len() < v.max_payload,
    decreases bytes.len(),
{
    if bytes.len() == 0 {
        assert(v.written() + bytes =~= v.written());
    } else {
        law_write_each_appends(v, bytes.drop_last());
        law_write_appends(v.wrote_each(bytes.drop_last()), seq![bytes.last()]);
        assert(v.written() + bytes.drop_last() + seq![bytes.last()] =~= v.written() + bytes);
    }
}

/// Making a packet of what was kept loses nothing and adds nothing.
pub proof fn lemma_flush_keeps(v: WriterView)
    requires
        v.contents.len() <= v.max_payload,
        v.max_payload > 0,
    ensures
        v.flushed_if_full().written() == v.written(),
        v.flushed_if_full().max_payload == v.max_payload,
        v.flushed_if_full().packet_type == v.packet_type,
        v.flushed_if_full().contents.len() < v.max_payload,
{
    if v.contents.len() == v.max_payload {
        lemma_sent_payloads(v, STATUS_NORMAL, v.contents);
        assert(payloads(v.packets) + v.contents + Seq::<u8>::empty() =~= v.written());
    }
}

/// What a message is and how large its packets are stays the same.
pub proof fn lemma_cut_keeps(v: WriterView, k: nat)
    ensures
        v.cut(k).max_payload == v.max_payload,
        v.cut(k).packet_type == v.packet_type,
        v.fills(k) ==> v.cut(k).written() == v.written(),
    decreases k,
{
    if k > 0 {
        let w = v.cut((k - 1) as nat);
        lemma_cut_keeps(v, (k - 1) as nat);
        if v.fills(k) {
            lemma_overflow_keeps(w);
        }
    }
}

/// Bytes that come later do not change the packets that are already full.
pub proof fn lemma_cut_append(v: WriterView, bytes: Seq<u8>, k: nat)
    requires
        v.fills(k),
    ensures
        v.with(v.contents + bytes).fills(k),
        v.with(v.contents + bytes).cut(k) == v.cut(k).with(v.cut(k).contents + bytes),
    decreases k,
{
    if k > 0 {
        let w = v.cut((k - 1) as nat);
        lemma_cut_append(v, bytes, (k - 1) as nat);
        lemma_cut_keeps(v, (k - 1) as nat);
        let m = v.max_payload as int;
        assert((w.contents + bytes).take(m) =~= w.contents.take(m));
        assert((w.contents + bytes).skip(m) =~= w.contents.skip(m) + bytes);
    }
}

/// Full packets made one after the other.
pub proof fn lemma_cut_more(v: WriterView, k: nat, m: nat)
    requires
        v.fills(k),
        v.cut(k).fills(m),
    ensures
        v.fills(k + m),
        v.cut(k + m) == v.cut(k).cut(m),
    decreases m,
{
    lemma_cut_keeps(v, k);
    if m > 0 {
        lemma_cut_more(v, k, (m - 1) as nat);
        lemma_cut_keeps(v.cut(k), (m - 1) as nat);
    }
}

/// Writing bytes and then more bytes is writing them all.
pub proof fn law_writes_add_up(v: WriterView, a: Seq<u8>, w: WriterView, b: Seq<u8>, x: WriterView)
    requires
        v.grew(a, w),
        w.grew(b, x),
    ensures
        v.grew(a + b, x),
{
    let va = v.with(v.contents + a);
    let k = choose|k: nat| #[trigger] va.fills(k) && w == va.cut(k);
    let wb = w.with(w.contents + b);
    let m = choose|m: nat| #[trigger] wb.fills(m) && x == wb.cut(m);
    let vab = v.with(v.contents + (a + b));
    assert(va.with(va.contents + b) =~= vab) by {
        assert((v.contents + a) + b =~= v.contents + (a + b));
    }
    lemma_cut_append(va, b, k);
    lemma_cut_more(vab, k, m);
    assert(vab.fills(k + m) && x == vab.cut(k + m));
}

/// Writing nothing.
pub proof fn lemma_grew_nothing(v: WriterView)
    ensures
        v.grew(Seq::empty(), v),
{
    assert(v.contents + Seq::<u8>::empty() =~= v.contents);
    assert(v.with(v.contents + Seq::<u8>::empty()).fills(0));
}

/// However bytes are split into packets, what was written ends with exactly them, and the packets
/// that were already there stay as they were.
pub proof fn law_grew_appends(v: WriterView, bytes: Seq<u8>, w: WriterView)
    requires
        v.grew(bytes, w),
    ensures
        w.written() == v.written() + bytes,
        w.max_payload == v.max_payload,
        w.packet_type == v.packet_type,
        w.packets.len() >= v.packets.len(),
        w.packets.take(v.packets.len() as int) == v.packets,
{
    let va = v.with(v.contents + bytes);
    let k = choose|k: nat| #[trigger] va.fills(k) && w == va.cut(k);
    lemma_cut_keeps(va, k);
    lemma_cut_prefix(va, k);
    assert(payloads(v.packets) + (v.contents + bytes) =~= v.written() + bytes);
}

/// Packets are only added.
proof fn lemma_cut_prefix(v: WriterView, k: nat)
    ensures
        v.cut(k).packets.len() == v.packets.len() + k,
        v.cut(k).packets.take(v.packets.len() as int) == v.packets,
    decreases k,
{
    if k > 0 {
        lemma_cut_prefix(v, (k - 1) as nat);
        assert(v.cut(k).packets.take(v.packets.len() as int) =~= v.cut(
            (k - 1) as nat,
        ).packets.take(v.packets.len() as int));
    } else {
        assert(v.packets.take(v.packets.len() as int) =~= v.packets);
    }
}

/// A write that may make a packet.
pub proof fn lemma_wrote_grew(v: WriterView, bytes: Seq<u8>)
    ensures
        v.grew(bytes, v.wrote(bytes)),
{
    let w = v.with(v.contents + bytes);
    if w.contents.len() >= w.max_payload {
        reveal_with_fuel(WriterView::cut, 2);
        reveal_with_fuel(WriterView::fills, 2);
        assert(w.fills(1));
    } else {
        assert(w.fills(0));
    }
}

/// A write that fills packets.
#[verifier::rlimit(60)]
#[verifier::spinoff_prover]
pub proof fn lemma_filled_grew(v: WriterView, bytes: Seq<u8>)
    requires
        v.contents.len() <= v.max_payload,
        v.max_payload > 0,
    ensures
        v.grew(bytes, v.filled(bytes)),
    decreases bytes.len(), v.contents.len(),
{
    let space = v.max_payload - v.contents.len();
    if bytes.len() == 0 {
        assert(bytes =~= Seq::<u8>::empty());
        lemma_grew_nothing(v);
    } else if space < bytes.len() {
        let a = bytes.take(space);
        let w = v.sent(STATUS_NORMAL, v.contents + a).with(Seq::empty());
        let va = v.with(v.contents + a);
        assert(va.contents.take(v.max_payload as int) =~= va.contents);
        assert(va.contents.skip(v.max_payload as int) =~= Seq::<u8>::empty());
        reveal_with_fuel(WriterView::cut, 2);
        reveal_with_fuel(WriterView::fills, 2);
        assert(va.cut(1) == w);
        assert(va.fills(1));
        lemma_filled_grew(w, bytes.skip(space));
        law_writes_add_up(v, a, w, bytes.skip(space), v.filled(bytes));
        assert(a + bytes.skip(space) =~= bytes);
    } else {
        assert(v.with(v.contents + bytes).fills(0));
    }
}

/// Writes of one byte after the other.
pub proof fn lemma_wrote_each_grew(v: WriterView, bytes: Seq<u8>)
    ensures
        v.grew(bytes, v.wrote_each(bytes)),
        v.wrote_each(bytes).max_payload == v.max_payload,
        v.contents.len() <= v.max_payload && v.max_payload > 0 ==> v.wrote_each(
            bytes,
        ).contents.len() <= v.max_payload,
    decreases bytes.len(),
{
    if bytes.len() == 0 {
        assert(bytes =~= Seq::<u8>::empty());
        lemma_grew_nothing(v);
    } else {
        let w = v.wrote_each(bytes.drop_last());
        lemma_wrote_each_grew(v, bytes.drop_last());
        lemma_wrote_grew(w, seq![bytes.last()]);
        law_writes_add_up(v, bytes.drop_last(), w, seq![bytes.last()], v.wrote_each(bytes));
        assert(bytes.drop_last() + seq![bytes.last()] =~= bytes);
    }
}

/// The length field of a packet's header is the length of the packet, as long as that fits its two
/// bytes.
pub proof fn law_header_states_length(v: WriterView, status: u8, payload: Seq<u8>)
    requires
        8 + payload.len() < 0x1_0000,
    ensures
        ({
            let p = v.sent(status, payload).packets.last().0;
            &&& p.len() == 8 + payload.len()
            &&& be_nat(p, 2, 2) == p.len()
            &&& p[0] == v.packet_type.code()
            &&& p[1] == status
            &&& p[6] == v.id
        }),
{
    let n = 8 + payload.len();
    let p = v.sent(status, payload).packets.last().0;
    lemma_header_len(v.packet_type.code(), status, n, v.id);
    crate::bytes::lemma_pow256();
    crate::bytes::law_be_round_trip(n, 2);
    lemma_be_bytes_len(n, 2);
    assert(n % 0x1_0000 == n);
    assert(p.subrange(2, 4) =~= be_bytes(n, 2).subrange(0, 2));
    crate::bytes::lemma_be_nat_same(p, 2, be_bytes(n, 2), 0, 2);
}

/// Packets of one message are numbered one after the other, from any number, with 0 after 255; only
/// the first is marked.
pub proof fn law_packets_are_numbered(v: WriterView, s: u8, a: Seq<u8>, t: u8, b: Seq<u8>)
    ensures
        ({
            let w = v.sent(s, a);
            let x = w.sent(t, b);
            &&& x.packets.last().0[6] == (v.id + 1) % 256
            &&& !x.packets.last().1
            &&& w.packets.last().1 == v.first
        }),
{
    let w = v.sent(s, a);
    lemma_header_len(v.packet_type.code(), t, 8 + b.len(), w.id);
    lemma_be_bytes_len((8 + b.len()) as nat % 0x1_0000, 2);
}

/// Whether a packet is the one with this place among those that are made from here on, and has this
/// status: its header states its type, its status, its length and its number, and only the first packet
/// of a message is marked.
pub open spec fn is_packet(v: WriterView, p: (Seq<u8>, bool), place: int, status: u8) -> bool {
    &&& 8 <= p.0.len() <= 8 + v.max_payload
    &&& p.0[0] == v.packet_type.code()
    &&& p.0[1] == status
    &&& be_nat(p.0, 2, 2) == p.0.len()
    &&& p.0[6] == (v.id + place) % 256
    &&& p.1 == (v.first && place == 0)
}

/// Full packets made one after the other are full, and numbered in order.
proof fn lemma_cut_packets(v: WriterView, k: nat)
    requires
        v.packets.len() == 0,
        v.fills(k),
        8 + v.max_payload < 0x1_0000,
    ensures
        ({
            let w = v.cut(k);
            &&& w.packets.len() == k
            &&& w.id == (v.id + k) % 256
            &&& w.first == (v.first && k == 0)
            &&& w.max_payload == v.max_payload
            &&& w.packet_type == v.packet_type
            &&& forall|i: int|
                0 <= i < k ==> is_packet(v, #[trigger] w.packets[i], i, STATUS_NORMAL)
                    && w.packets[i].0.len() == 8 + v.max_payload
        }),
    decreases k,
{
    if k > 0 {
        let w = v.cut((k - 1) as nat);
        lemma_cut_packets(v, (k - 1) as nat);
        law_header_states_length(w, STATUS_NORMAL, w.contents.take(v.max_payload as int));
    }
}

/// A whole message, from a writer none of whose packets wait: every packet but the last is full, only
/// the last has the status that ends the message, every header states the packet's length, the packets
/// are numbered in order with 0 after 255, only the first is marked, and the payloads are the bytes of the
/// message. Of a writer that is new the first number is 1. Where the bytes ended with a full packet that
/// was made at once, none are left for a last packet, and none ends the message.
pub proof fn law_message_packets(v: WriterView, bytes: Seq<u8>, w: WriterView)
    requires
        v.packets.len() == 0,
        v.grew(bytes, w),
        0 < w.contents.len() <= w.max_payload,
        8 + v.max_payload < 0x1_0000,
    ensures
        ({
            let packets = w.finished().packets;
            let last = packets.len() - 1;
            &&& packets.len() == w.packets.len() + 1
            &&& forall|i: int|
                0 <= i < last ==> is_packet(v, #[trigger] packets[i], i, STATUS_NORMAL)
                    && packets[i].0.len() == 8 + v.max_payload
            &&& is_packet(v, packets[last], last, STATUS_EOM)
            &&& packets[last].0.len() == 8 + w.contents.len()
            &&& payloads(packets) == v.contents + bytes
            &&& w.finished().contents.len() == 0
        }),
{
    let va = v.with(v.contents + bytes);
    let k = choose|k: nat| #[trigger] va.fills(k) && w == va.cut(k);
    lemma_cut_packets(va, k);
    law_grew_appends(v, bytes, w);
    assert(w.contents.take(w.contents.len() as int) =~= w.contents);
    law_header_states_length(w, STATUS_EOM, w.contents);
    lemma_sent_payloads(w, STATUS_EOM, w.contents);
    assert(v.packets =~= Seq::empty());
    assert(v.written() =~= v.contents);
}

/// Splits a message into packets. Packets that are complete wait until they are taken and sent.
pub struct PacketWriter {
    packet_type: PacketType,
    packet_size: usize,
    packet_id: u8,
    buffer: Vec<u8>,
    is_first_packet: bool,
    max_timeout_sec: Option<u32>,
    outgoing: Vec<OutgoingPacket>,
}

impl View for PacketWriter {
    type V = WriterView;

    closed spec fn view(&self) -> WriterView {
        WriterView {
            packet_type: self.packet_type,
            max_payload: (self.packet_size - 8) as nat,
            id: self.packet_id,
            first: self.is_first_packet,
            packets: self.outgoing@.map_values(|p: OutgoingPacket| (p.bytes@, p.is_first)),
            contents: self.buffer@.skip(8),
        }
    }
}

impl PacketWriter {
    /// Whether the message has not been cancelled, and its packets have room for their header.
    pub closed spec fn open(&self) -> bool {
        8 <= self.packet_size <= 0x7fff_0000 && self.buffer@.len() >= 8
    }

    /// Whether bytes of any number can be written: a packet has room for some, and no more than one
    /// packet's worth is waiting.
    pub open spec fn ready(&self) -> bool {
        self.open() && 0 < self@.max_payload && self@.contents.len() <= self@.max_payload
    }

    /// The time allowed for the message, in seconds.
    pub closed spec fn timeout(&self) -> Option<u32> {
        self.max_timeout_sec
    }

    /// A writer of a message of this type, in packets of `packet_size` bytes. A timeout of 0 seconds
    /// means none.
    pub fn new(packet_type: PacketType, packet_size: u32, timeout: Option<u32>) -> (w: PacketWriter)
        requires
            8 <= packet_size <= 0x7fff_0000,
        ensures
            w.open(),
            w@ == (WriterView {
                packet_type,
                max_payload: (packet_size - 8) as nat,
                id: 1,
                first: true,
                packets: Seq::empty(),
                contents: Seq::empty(),
            }),
            w.timeout() == (if timeout == Some(0u32) {
                None
            } else {
                timeout
            }),
    {
        let max_timeout_sec: Option<u32> = match timeout {
            Some(t) => if t > 0 {
                Some(t)
            } else {
                None
            },
            None => None,
        };
        let mut buffer: Vec<u8> = Vec::new();
        buffer.resize(PACKET_HEADER_SIZE, 0);
        let w = PacketWriter {
            packet_type,
            packet_size: packet_size as usize,
            packet_id: 1,
            buffer,
            is_first_packet: true,
            max_timeout_sec,
            outgoing: Vec::new(),
        };
        assert(w@.contents =~= Seq::<u8>::empty());
        assert(w@.packets =~= Seq::<(Seq<u8>, bool)>::empty());
        w
    }

    /// The time allowed for the message, in seconds.
    pub fn max_timeout_sec(&self) -> (t: Option<u32>)
        ensures
            t == self.timeout(),
    {
        self.max_timeout_sec
    }

    /// The number of the next packet.
    pub fn packet_id(&self) -> (id: u8)
        ensures
            id == self@.id,
    {
        self.packet_id
    }

    /// How many seconds are left for sending a packet, `elapsed` seconds after the message was
    /// begun: none stated where there is no timeout, and a timeout error once they are over.
    pub fn remaining_timeout(&self, elapsed: u64) -> (r: TdsResult<Option<u64>>)
        ensures
            match self.timeout() {
                None => r == Ok::<Option<u64>, Error>(None),
                Some(t) => if elapsed > t {
                    r matches Err(e) && e.kind() == ErrorKind::Timeout
                } else {
                    r == Ok::<Option<u64>, Error>(Some((t - elapsed) as u64))
                },
            },
    {
        match self.max_timeout_sec {
            None => Ok(None),
            Some(t) => if elapsed > t as u64 {
                Err(Error::TimeoutError(TimeoutErrorType::String(String::from_str("Timeout expired"))))
            } else {
                Ok(Some(t as u64 - elapsed))
            },
        }
    }

    /// Takes the packets that are complete, in order.
    pub fn take_packets(&mut self) -> (packets: Vec<OutgoingPacket>)
        ensures
            packets@.map_values(|p: OutgoingPacket| (p.bytes@, p.is_first)) == old(self)@.packets,
            final(self)@ == (WriterView { packets: Seq::empty(), ..old(self)@ }),
            final(self).open() == old(self).open(),
            final(self).timeout() == old(self).timeout(),
    {
        let mut packets: Vec<OutgoingPacket> = Vec::new();
        std::mem::swap(&mut packets, &mut self.outgoing);
        assert(self@.packets =~= Seq::<(Seq<u8>, bool)>::empty());
        packets
    }

    /// How far the message has been sent. It counts as complete only once it was cancelled.
    pub fn get_message_state(&self) -> (s: MessageSendState)
        ensures
            self@.first ==> s == MessageSendState::NotStarted,
            !self@.first && self.open() ==> s == MessageSendState::Partial,
            !self@.first && self.cancelled() ==> s == MessageSendState::Complete,
    {
        if !self.is_first_packet {
            if self.buffer.len() == 0 {
                MessageSendState::Complete
            } else {
                MessageSendState::Partial
            }
        } else {
            MessageSendState::NotStarted
        }
    }

    /// Whether the message was cancelled.
    pub closed spec fn cancelled(&self) -> bool {
        self.buffer@.len() == 0
    }

    /// How many bytes are not yet in a packet.
    pub fn position(&self) -> (p: i32)
        requires
            self.open(),
            self@.contents.len() <= i32::MAX,
        ensures
            p == self@.contents.len(),
    {
        (self.buffer.len() - PACKET_HEADER_SIZE) as i32
    }

    /// The bytes that are not yet in a packet, behind the room for a header.
    pub fn get_cursor(&self) -> (b: &Vec<u8>)
        requires
            self.open(),
        ensures
            b@.len() == 8 + self@.contents.len(),
            b@.skip(8) == self@.contents,
    {
        &self.buffer
    }

    /// The header of a packet.
    pub fn build_header(
        packet_length: usize,
        packet_type: PacketType,
        packet_id: u8,
        is_last_packet: bool,
        is_ignore_packet: bool,
    ) -> (h: Vec<u8>)
        ensures
            h@ == header(
                packet_type.code(),
                status_of(is_last_packet, is_ignore_packet),
                packet_length as nat,
                packet_id,
            ),
    {
        let status: u8 = if is_last_packet {
            if is_ignore_packet {
                STATUS_EOM_IGNORE
            } else {
                STATUS_EOM
            }
        } else {
            STATUS_NORMAL
        };
        let mut h: Vec<u8> = Vec::new();
        h.push(packet_type.code());
        h.push(status);
        let length: u16 = (packet_length % 0x1_0000) as u16;
        be_push_u16(&mut h, length);
        be_push_u16(&mut h, 0);
        h.push(packet_id);
        h.push(0);
        proof {
            lemma_be_bytes_len(length as nat, 2);
            assert(be_bytes(0, 2) =~= seq![0u8, 0u8]) by {
                reveal_with_fuel(be_bytes, 3);
            }
            assert(h@ =~= header(
                packet_type.code(),
                status,
                packet_length as nat,
                packet_id,
            ));
        }
        h
    }

    /// Makes a packet of as many of the waiting bytes as go into one. An ignore packet is a header
    /// alone, and cancels the message.
    fn populate_header_and_send(&mut self, is_last_packet: bool, is_ignore_packet: bool)
        requires
            old(self).open(),
            is_last_packet || !is_ignore_packet,
        ensures
            !is_ignore_packet ==> final(self).open() && ({
                let n = if old(self)@.contents.len() > old(self)@.max_payload {
                    old(self)@.max_payload as int
                } else {
                    old(self)@.contents.len() as int
                };
                final(self)@ == old(self)@.sent(
                    status_of(is_last_packet, false),
                    old(self)@.contents.take(n),
                )
            }),
            is_ignore_packet ==> final(self).cancelled() && final(self)@.packets == old(
                self)@.packets.push((old(self)@.ignore_packet(), old(self)@.first))
                && !final(self)@.first && final(self)@.id == (old(self)@.id + 1) % 256,
            final(self).timeout() == old(self).timeout(),
    {
        let saved_position: usize = if is_ignore_packet {
            PACKET_HEADER_SIZE
        } else {
            self.buffer.len()
        };
        let packet_length: usize = if saved_position > self.packet_size {
            self.packet_size
        } else {
            saved_position
        };
        let ghost before = self@;
        let mut bytes: Vec<u8> = Self::build_header(
            packet_length,
            self.packet_type,
            self.packet_id,
            is_last_packet,
            is_ignore_packet,
        );
        let payload = vstd::slice::slice_subrange(
            self.buffer.as_slice(),
            PACKET_HEADER_SIZE,
            packet_length,
        );
        let ghost h = bytes@;
        bytes.extend_from_slice(payload);
        proof {
            lemma_header_len(
                self.packet_type.code(),
                status_of(is_last_packet, is_ignore_packet),
                packet_length as nat,
                self.packet_id,
            );
            if is_ignore_packet {
                assert(bytes@ =~= h);
            } else {
                assert(payload@ =~= self@.contents.take(packet_length - 8));
                assert(bytes@ =~= h + self@.contents.take(packet_length - 8));
            }
        }
        let ghost made = bytes@;
        self.outgoing.push(OutgoingPacket { bytes, is_first: self.is_first_packet });
        assert(self@.packets =~= before.packets.push((made, before.first)));
        self.is_first_packet = false;
        self.packet_id = self.packet_id.wrapping_add(1);
        if is_ignore_packet {
            self.buffer.clear();
        }
        assert(self@.packets =~= before.packets.push((made, before.first)));
    }

    /// Cancels the message: the server is to ignore what was sent of it. What goes out is a header that
    /// says so.
    pub fn cancel_current_message(&mut self)
        requires
            old(self).open(),
        ensures
            final(self).cancelled(),
            final(self)@.packets == old(self)@.packets.push(
                (old(self)@.ignore_packet(), old(self)@.first),
            ),
            !final(self)@.first,
            final(self).timeout() == old(self).timeout(),
    {
        self.populate_header_and_send(true, true);
    }

    /// Puts other bytes in the place of those that are not yet in a packet.
    fn set_contents(&mut self, from: usize)
        requires
            old(self).open(),
            from <= old(self)@.contents.len(),
        ensures
            final(self).open(),
            final(self)@ == old(self)@.with(old(self)@.contents.skip(from as int)),
            final(self).timeout() == old(self).timeout(),
    {
        let total: usize = self.buffer.len();
        assert(self.buffer@.len() == total && from <= total - 8);
        let mut buffer: Vec<u8> = Vec::new();
        buffer.resize(PACKET_HEADER_SIZE, 0);
        buffer.extend_from_slice(
            vstd::slice::slice_subrange(
                self.buffer.as_slice(),
                PACKET_HEADER_SIZE + from,
                self.buffer.len(),
            ),
        );
        let ghost contents = self@.contents;
        self.buffer = buffer;
        assert(self@.contents =~= contents.skip(from as int));
    }

    /// Makes a packet of the waiting bytes, where they fill it.
    fn handle_overflow_if_needed(&mut self)
        requires
            old(self).open(),
        ensures
            final(self).open(),
            final(self)@ == old(self)@.overflowed(),
            final(self).timeout() == old(self).timeout(),
    {
        let max_payload_size: usize = self.packet_size - PACKET_HEADER_SIZE;
        if self.buffer.len() - PACKET_HEADER_SIZE >= max_payload_size {
            self.populate_header_and_send(false, false);
            self.set_contents(max_payload_size);
        }
    }

    /// Makes a packet of the waiting bytes, where they fill it.
    pub fn check_overflow(&mut self)
        requires
            old(self).open(),
        ensures
            final(self).open(),
            final(self)@ == old(self)@.overflowed(),
            final(self).timeout() == old(self).timeout(),
    {
        self.handle_overflow_if_needed();
    }

    /// Ends the message: makes its last packet of the waiting bytes, if there are any. Waiting bytes
    /// beyond one packet are lost.
    pub fn finalize(&mut self)
        requires
            old(self).open(),
        ensures
            final(self).open(),
            final(self)@ == old(self)@.finished(),
            final(self).timeout() == old(self).timeout(),
    {
        if self.buffer.len() > PACKET_HEADER_SIZE {
            self.populate_header_and_send(true, false);
            let n: usize = self.buffer.len() - PACKET_HEADER_SIZE;
            self.set_contents(n);
            assert(self@.contents =~= Seq::<u8>::empty());
        }
    }

    /// Whether so many bytes still go into the current packet.
    pub fn has_space(&self, bytes_count: usize) -> (b: bool)
        requires
            self.open(),
        ensures
            b == (self@.contents.len() + bytes_count <= self@.max_payload),
    {
        let used: usize = self.buffer.len() - PACKET_HEADER_SIZE;
        let max_payload_size: usize = self.packet_size - PACKET_HEADER_SIZE;
        used <= max_payload_size && bytes_count <= max_payload_size - used
    }

    /// The position behind the waiting bytes, header included.
    pub fn unchecked_position(&self) -> (p: usize)
        requires
            self.open(),
        ensures
            p == 8 + self@.contents.len(),
    {
        self.buffer.len()
    }

    /// Puts bytes in the place of those that are waiting at a position, header included, as far as
    /// there are any.
    fn patch(&mut self, position: usize, bytes: &Vec<u8>)
        requires
            old(self).open(),
        ensures
            final(self).open(),
            final(self)@ == old(self)@.with(patched(old(self)@.contents, position - 8, bytes@)),
            final(self).timeout() == old(self).timeout(),
    {
        let ghost before = self.buffer@;
        let ghost contents = self@.contents;
        let mut i: usize = 0;
        while i < bytes.len() && position < self.buffer.len() && i < self.buffer.len() - position
            invariant
                self.open(),
                old(self).open(),
                i <= bytes@.len(),
                self.buffer@.len() == before.len(),
                forall|k: int|
                    0 <= k < before.len() ==> #[trigger] self.buffer@[k] == (if position <= k
                        < position + i {
                        bytes@[k - position]
                    } else {
                        before[k]
                    }),
                self.packet_type == old(self).packet_type,
                self.packet_size == old(self).packet_size,
                self.packet_id == old(self).packet_id,
                self.is_first_packet == old(self).is_first_packet,
                self.max_timeout_sec == old(self).max_timeout_sec,
                self.outgoing == old(self).outgoing,
            decreases bytes@.len() - i,
        {
            self.buffer.set(position + i, bytes[i]);
            i += 1;
        }
        assert(self@.contents =~= patched(contents, position - 8, bytes@));
    }

    /// Puts a 16-bit number, least significant byte first, in the place of waiting bytes at a
    /// position, header included.
    pub fn write_u16_at_position(&mut self, pos: usize, value: u16)
        requires
            old(self).open(),
        ensures
            final(self).open(),
            final(self)@ == old(self)@.with(
                patched(old(self)@.contents, pos - 8, le_bytes(value as nat, 2)),
            ),
            final(self).timeout() == old(self).timeout(),
    {
        let mut bytes: Vec<u8> = Vec::new();
        le_push_u16(&mut bytes, value);
        assert(bytes@ =~= le_bytes(value as nat, 2));
        self.patch(pos, &bytes);
    }

    /// Puts a 32-bit signed number, least significant byte first, in the place of waiting bytes at an
    /// index.
    pub fn write_i32_at_index(&mut self, index: usize, value: i32)
        requires
            old(self).open(),
            index <= usize::MAX - 8,
        ensures
            final(self).open(),
            final(self)@ == old(self)@.with(
                patched(old(self)@.contents, index as int, le_bytes(unsigned(value as int, 4), 4)),
            ),
            final(self).timeout() == old(self).timeout(),
    {
        let mut bytes: Vec<u8> = Vec::new();
        le_push_i32(&mut bytes, value);
        assert(bytes@ =~= le_bytes(unsigned(value as int, 4), 4));
        self.patch(PACKET_HEADER_SIZE + index, &bytes);
    }


    /// Writes a byte.
    pub fn write_byte(&mut self, value: u8)
        requires
            old(self).open(),
        ensures
            final(self).open(),
            final(self)@ == old(self)@.wrote(seq![value]),
            final(self).timeout() == old(self).timeout(),
    {
        let ghost contents = self@.contents;
        self.buffer.push(value);
        assert(self@.contents =~= contents + seq![value]);
        self.handle_overflow_if_needed();
    }

    /// Writes a 16-bit signed number, least significant byte first.
    pub fn write_i16(&mut self, value: i16)
        requires
            old(self).open(),
        ensures
            final(self).open(),
            final(self)@ == old(self)@.wrote(le_bytes(unsigned(value as int, 2), 2)),
            final(self).timeout() == old(self).timeout(),
    {
        let ghost contents = self@.contents;
        le_push_i16(&mut self.buffer, value);
        assert(self@.contents =~= contents + le_bytes(unsigned(value as int, 2), 2));
        self.handle_overflow_if_needed();
    }

    /// Writes a 16-bit number, least significant byte first.
    pub fn write_u16(&mut self, value: u16)
        requires
            old(self).open(),
        ensures
            final(self).open(),
            final(self)@ == old(self)@.wrote(le_bytes(value as nat, 2)),
            final(self).timeout() == old(self).timeout(),
    {
        let ghost contents = self@.contents;
        le_push_u16(&mut self.buffer, value);
        assert(self@.contents =~= contents + le_bytes(value as nat, 2));
        self.handle_overflow_if_needed();
    }

    /// Writes a 32-bit signed number, least significant byte first.
    pub fn write_i32(&mut self, value: i32)
        requires
            old(self).open(),
        ensures
            final(self).open(),
            final(self)@ == old(self)@.wrote(le_bytes(unsigned(value as int, 4), 4)),
            final(self).timeout() == old(self).timeout(),
    {
        let ghost contents = self@.contents;
        le_push_i32(&mut self.buffer, value);
        assert(self@.contents =~= contents + le_bytes(unsigned(value as int, 4), 4));
        self.handle_overflow_if_needed();
    }

    /// Writes a 32-bit number, least significant byte first.
    pub fn write_u32(&mut self, value: u32)
        requires
            old(self).open(),
        ensures
            final(self).open(),
            final(self)@ == old(self)@.wrote(le_bytes(value as nat, 4)),
            final(self).timeout() == old(self).timeout(),
    {
        let ghost contents = self@.contents;
        le_push_u32(&mut self.buffer, value);
        assert(self@.contents =~= contents + le_bytes(value as nat, 4));
        self.handle_overflow_if_needed();
    }

    /// Writes a 64-bit signed number, least significant byte first.
    pub fn write_i64(&mut self, value: i64)
        requires
            old(self).open(),
        ensures
            final(self).open(),
            final(self)@ == old(self)@.wrote(le_bytes(unsigned(value as int, 8), 8)),
            final(self).timeout() == old(self).timeout(),
    {
        let ghost contents = self@.contents;
        le_push_i64(&mut self.buffer, value);
        assert(self@.contents =~= contents + le_bytes(unsigned(value as int, 8), 8));
        self.handle_overflow_if_needed();
    }

    /// Writes a 64-bit number, least significant byte first.
    pub fn write_u64(&mut self, value: u64)
        requires
            old(self).open(),
        ensures
            final(self).open(),
            final(self)@ == old(self)@.wrote(le_bytes(value as nat, 8)),
            final(self).timeout() == old(self).timeout(),
    {
        let ghost contents = self@.contents;
        le_push_u64(&mut self.buffer, value);
        assert(self@.contents =~= contents + le_bytes(value as nat, 8));
        self.handle_overflow_if_needed();
    }

    /// Writes a 16-bit signed number, most significant byte first.
    pub fn write_i16_be(&mut self, value: i16)
        requires
            old(self).open(),
        ensures
            final(self).open(),
            final(self)@ == old(self)@.wrote(be_bytes(unsigned(value as int, 2), 2)),
            final(self).timeout() == old(self).timeout(),
    {
        let ghost contents = self@.contents;
        be_push_i16(&mut self.buffer, value);
        assert(self@.contents =~= contents + be_bytes(unsigned(value as int, 2), 2));
        self.handle_overflow_if_needed();
    }

    /// Writes a 32-bit signed number, most significant byte first.
    pub fn write_i32_be(&mut self, value: i32)
        requires
            old(self).open(),
        ensures
            final(self).open(),
            final(self)@ == old(self)@.wrote(be_bytes(unsigned(value as int, 4), 4)),
            final(self).timeout() == old(self).timeout(),
    {
        let ghost contents = self@.contents;
        be_push_i32(&mut self.buffer, value);
        assert(self@.contents =~= contents + be_bytes(unsigned(value as int, 4), 4));
        self.handle_overflow_if_needed();
    }

    /// Writes a 64-bit signed number, most significant byte first.
    pub fn write_i64_be(&mut self, value: i64)
        requires
            old(self).open(),
        ensures
            final(self).open(),
            final(self)@ == old(self)@.wrote(be_bytes(unsigned(value as int, 8), 8)),
            final(self).timeout() == old(self).timeout(),
    {
        let ghost contents = self@.contents;
        be_push_i64(&mut self.buffer, value);
        assert(self@.contents =~= contents + be_bytes(unsigned(value as int, 8), 8));
        self.handle_overflow_if_needed();
    }

    /// Writes a byte without making a packet.
    pub fn write_byte_unchecked(&mut self, value: u8)
        requires
            old(self).open(),
        ensures
            final(self).open(),
            final(self)@ == old(self)@.with(old(self)@.contents + seq![value]),
            final(self).timeout() == old(self).timeout(),
    {
        let ghost contents = self@.contents;
        self.buffer.push(value);
        assert(self@.contents =~= contents + seq![value]);
    }

    /// Writes a 16-bit signed number, least significant byte first, without making a packet.
    pub fn write_i16_unchecked(&mut self, value: i16)
        requires
            old(self).open(),
        ensures
            final(self).open(),
            final(self)@ == old(self)@.with(old(self)@.contents + le_bytes(unsigned(value as int, 2), 2)),
            final(self).timeout() == old(self).timeout(),
    {
        let ghost contents = self@.contents;
        le_push_i16(&mut self.buffer, value);
        assert(self@.contents =~= contents + le_bytes(unsigned(value as int, 2), 2));
    }

    /// Writes a 16-bit number, least significant byte first, without making a packet.
    pub fn write_u16_unchecked(&mut self, value: u16)
        requires
            old(self).open(),
        ensures
            final(self).open(),
            final(self)@ == old(self)@.with(old(self)@.contents + le_bytes(value as nat, 2)),
            final(self).timeout() == old(self).timeout(),
    {
        let ghost contents = self@.contents;
        le_push_u16(&mut self.buffer, value);
        assert(self@.contents =~= contents + le_bytes(value as nat, 2));
    }

    /// Writes a 32-bit signed number, least significant byte first, without making a packet.
    pub fn write_i32_unchecked(&mut self, value: i32)
        requires
            old(self).open(),
        ensures
            final(self).open(),
            final(self)@ == old(self)@.with(old(self)@.contents + le_bytes(unsigned(value as int, 4), 4)),
            final(self).timeout() == old(self).timeout(),
    {
        let ghost contents = self@.contents;
        le_push_i32(&mut self.buffer, value);
        assert(self@.contents =~= contents + le_bytes(unsigned(value as int, 4), 4));
    }

    /// Writes a 64-bit signed number, least significant byte first, without making a packet.
    pub fn write_i64_unchecked(&mut self, value: i64)
        requires
            old(self).open(),
        ensures
            final(self).open(),
            final(self)@ == old(self)@.with(old(self)@.contents + le_bytes(unsigned(value as int, 8), 8)),
            final(self).timeout() == old(self).timeout(),
    {
        let ghost contents = self@.contents;
        le_push_i64(&mut self.buffer, value);
        assert(self@.contents =~= contents + le_bytes(unsigned(value as int, 8), 8));
    }

    /// Writes a double-precision number, given as its bit pattern, least significant byte first,
    /// without making a packet.
    pub fn write_f64_unchecked(&mut self, bits: u64)
        requires
            old(self).open(),
        ensures
            final(self).open(),
            final(self)@ == old(self)@.with(old(self)@.contents + le_bytes(bits as nat, 8)),
            final(self).timeout() == old(self).timeout(),
    {
        let ghost contents = self@.contents;
        le_push_u64(&mut self.buffer, bits);
        assert(self@.contents =~= contents + le_bytes(bits as nat, 8));
    }

    /// Writes bytes without making a packet.
    pub fn write_unchecked(&mut self, content: &[u8])
        requires
            old(self).open(),
        ensures
            final(self).open(),
            final(self)@ == old(self)@.with(old(self)@.contents + content@),
            final(self).timeout() == old(self).timeout(),
    {
        let ghost contents = self@.contents;
        self.buffer.extend_from_slice(content);
        assert(self@.contents =~= contents + content@);
    }

    /// Writes the `length` least significant bytes of a number, least significant first.
    pub fn write_partial_u64(&mut self, value: u64, length: u8)
        requires
            old(self).open(),
            length <= 8,
        ensures
            final(self).open(),
            final(self)@ == old(self)@.wrote(le_bytes(value as nat, length as nat)),
            final(self).timeout() == old(self).timeout(),
    {
        let ghost contents = self@.contents;
        let mut bytes: Vec<u8> = Vec::new();
        le_push_u64(&mut bytes, value);
        assert(bytes@ =~= le_bytes(value as nat, 8));
        proof {
            lemma_le_bytes_len(value as nat, 8);
            crate::bytes::lemma_le_bytes_prefix(value as nat, length as nat, 8);
        }
        self.buffer.extend_from_slice(
            vstd::slice::slice_subrange(bytes.as_slice(), 0, length as usize),
        );
        assert(self@.contents =~= contents + le_bytes(value as nat, length as nat));
        self.handle_overflow_if_needed();
    }

    /// Writes bytes of any number, filling packets one after the other; a packet that they just fill
    /// is kept.
    pub fn write(&mut self, content: &[u8])
        requires
            old(self).ready(),
        ensures
            final(self).ready(),
            final(self)@ == old(self)@.filled(content@),
            old(self)@.grew(content@, final(self)@),
            final(self).timeout() == old(self).timeout(),
    {
        proof {
            lemma_filled_grew(self@, content@);
        }
        let max_payload_size: usize = self.packet_size - PACKET_HEADER_SIZE;
        let mut at: usize = 0;
        assert(content@.skip(0) =~= content@);
        while at < content.len()
            invariant
                at <= content@.len(),
                self.ready(),
                max_payload_size == self@.max_payload,
                old(self)@.filled(content@) == self@.filled(content@.skip(at as int)),
                old(self)@.grew(content@, old(self)@.filled(content@)),
                self.timeout() == old(self).timeout(),
            decreases content@.len() - at, self@.contents.len(),
        {
            let packet_space_left: usize = max_payload_size - (self.buffer.len()
                - PACKET_HEADER_SIZE);
            let ghost before = self@;
            let ghost rest = content@.skip(at as int);
            if packet_space_left < content.len() - at {
                let chunk = vstd::slice::slice_subrange(content, at, at + packet_space_left);
                self.buffer.extend_from_slice(chunk);
                proof {
                    assert(chunk@ =~= rest.take(packet_space_left as int));
                    assert(self@.contents =~= before.contents + rest.take(packet_space_left as int));
                    assert(self@.contents.take(max_payload_size as int) =~= self@.contents);
                }
                self.populate_header_and_send(false, false);
                let n: usize = self.buffer.len() - PACKET_HEADER_SIZE;
                self.set_contents(n);
                proof {
                    assert(self@.contents =~= Seq::<u8>::empty());
                    assert(self@ == before.sent(
                        STATUS_NORMAL,
                        before.contents + rest.take(packet_space_left as int),
                    ).with(Seq::empty()));
                    assert(rest.skip(packet_space_left as int) =~= content@.skip(
                        at + packet_space_left,
                    ));
                }
                at = at + packet_space_left;
            } else {
                let chunk = vstd::slice::slice_subrange(content, at, content.len());
                self.buffer.extend_from_slice(chunk);
                proof {
                    assert(chunk@ =~= rest);
                    assert(self@.contents =~= before.contents + rest);
                    assert(self@ == before.with(before.contents + rest));
                    assert(before.filled(rest) == self@);
                }
                return;
            }
        }
        assert(content@.skip(at as int) =~= Seq::<u8>::empty());
    }

    /// Writes a few bytes: into the current packet where they all go into it, else one by one.
    pub fn write_few(&mut self, bytes: &Vec<u8>)
        requires
            old(self).ready(),
        ensures
            final(self).ready(),
            final(self)@ == (if old(self)@.contents.len() + bytes@.len() <= old(
                self)@.max_payload {
                old(self)@.with(old(self)@.contents + bytes@)
            } else {
                old(self)@.wrote_each(bytes@)
            }),
            old(self)@.grew(bytes@, final(self)@),
            final(self).timeout() == old(self).timeout(),
    {
        let ghost before = self@;
        proof {
            lemma_wrote_each_grew(before, bytes@);
        }
        if self.has_space(bytes.len()) {
            self.write_unchecked(bytes.as_slice());
            assert(before.with(before.contents + bytes@).fills(0));
        } else {
            let mut i: usize = 0;
            assert(bytes@.take(0) =~= Seq::<u8>::empty());
            while i < bytes.len()
                invariant
                    i <= bytes@.len(),
                    self.open(),
                    self@ == before.wrote_each(bytes@.take(i as int)),
                    self.timeout() == old(self).timeout(),
                decreases bytes@.len() - i,
            {
                assert(bytes@.take(i + 1).drop_last() =~= bytes@.take(i as int));
                self.write_byte(bytes[i]);
                i += 1;
            }
            assert(bytes@.take(i as int) =~= bytes@);
        }
    }

    /// Writes a text as UTF-16, each unit with its least significant byte first. A packet is made as
    /// soon as it is full, also between the two bytes of a unit.
    pub fn write_string_unicode(&mut self, value: &str)
        requires
            old(self).ready(),
        ensures
            final(self).ready(),
            final(self)@ == old(self)@.flushed_if_full().wrote_each(
                units_bytes(utf16_units(value@)),
            ),
            final(self).timeout() == old(self).timeout(),
    {
        let units = utf16_text(value);
        self.write_units(&units);
    }

    /// Writes 16-bit units, each with its least significant byte first. A packet is made as soon as
    /// it is full, also between the two bytes of a unit.
    pub fn write_units(&mut self, units: &Vec<u16>)
        requires
            old(self).ready(),
        ensures
            final(self).ready(),
            final(self)@ == old(self)@.flushed_if_full().wrote_each(units_bytes(units@)),
            final(self).timeout() == old(self).timeout(),
    {
        let max_payload_size: usize = self.packet_size - PACKET_HEADER_SIZE;
        let ghost start = self@.flushed_if_full();
        if self.buffer.len() - PACKET_HEADER_SIZE == max_payload_size {
            assert(self@.contents.take(max_payload_size as int) =~= self@.contents);
            self.populate_header_and_send(false, false);
            self.set_contents(max_payload_size);
            assert(self@.contents =~= Seq::<u8>::empty());
        }
        let mut i: usize = 0;
        proof {
            lemma_flush_keeps(old(self)@);
            assert(units@.take(0) =~= Seq::<u16>::empty());
        }
        while i < units.len()
            invariant
                i <= units@.len(),
                self.open(),
                start.max_payload > 0,
                start.contents.len() < start.max_payload,
                self@ == start.wrote_each(units_bytes(units@.take(i as int))),
                self@.max_payload == start.max_payload,
                self@.contents.len() < self@.max_payload,
                self.timeout() == old(self).timeout(),
            decreases units@.len() - i,
        {
            let unit: u16 = units[i];
            let ghost b = units_bytes(units@.take(i as int));
            let low: u8 = (unit % 256) as u8;
            let high: u8 = (unit / 256) as u8;
            proof {
                assert(b.push(low).drop_last() =~= b);
                assert(b.push(low).push(high).drop_last() =~= b.push(low));
                law_write_appends(self@, seq![low]);
            }
            self.write_byte(low);
            proof {
                assert(self@ == start.wrote_each(b.push(low)));
                law_write_appends(self@, seq![high]);
            }
            self.write_byte(high);
            proof {
                assert(self@ == start.wrote_each(b.push(low).push(high)));
                assert(units@.take(i + 1).drop_last() =~= units@.take(i as int));
                assert(units_bytes(units@.take(i + 1)) =~= b.push(low).push(high));
            }
            i += 1;
        }
        assert(units@.take(i as int) =~= units@);
    }
}

/// Bytes in the place of others from an index on, as far as there are any.
pub open spec fn patched(contents: Seq<u8>, at: int, bytes: Seq<u8>) -> Seq<u8> {
    Seq::new(
        contents.len(),
        |i: int|
            if at <= i < at + bytes.len() {
                bytes[i - at]
            } else {
                contents[i]
            },
    )
}

/// 16-bit units as bytes, each with its least significant byte first.
pub open spec fn units_bytes(units: Seq<u16>) -> Seq<u8>
    decreases units.len(),
{
    if units.len() == 0 {
        Seq::empty()
    } else {
        units_bytes(units.drop_last()).push((units.last() % 256) as u8).push(
            (units.last() / 256) as u8,
        )
    }
}

/// Writes 16-bit units to the end of a list of bytes, each with its least significant byte first.
pub fn push_units(bytes: &mut Vec<u8>, units: &Vec<u16>)
    ensures
        final(bytes)@ == old(bytes)@ + units_bytes(units@),
{
    let ghost before = bytes@;
    let mut i: usize = 0;
    assert(units@.take(0) =~= Seq::<u16>::empty());
    while i < units.len()
        invariant
            i <= units@.len(),
            bytes@ =~= before + units_bytes(units@.take(i as int)),
        decreases units@.len() - i,
    {
        let unit: u16 = units[i];
        bytes.push((unit % 256) as u8);
        bytes.push((unit / 256) as u8);
        assert(units@.take(i + 1).drop_last() =~= units@.take(i as int));
        i += 1;
    }
    assert(units@.take(i as int) =~= units@);
}

/// Units are written two bytes each, in order, and the first byte of two counts ones.
pub proof fn law_units_are_bytes(units: Seq<u16>)
    ensures
        units_bytes(units).len() == 2 * units.len(),
        forall|i: int|
            #![trigger units[i]]
            0 <= i < units.len() ==> units[i] == units_bytes(units)[2 * i] + 256 * units_bytes(
                units,
            )[2 * i + 1],
    decreases units.len(),
{
    if units.len() > 0 {
        law_units_are_bytes(units.drop_last());
        assert forall|i: int|
            #![trigger units[i]]
            0 <= i < units.len() implies units[i] == units_bytes(units)[2 * i] + 256 * units_bytes(
            units,
        )[2 * i + 1] by {
            if i < units.len() - 1 {
                assert(units.drop_last()[i] == units[i]);
            }
        }
    }
}

/// Each unit takes two bytes.
pub proof fn lemma_units_bytes_len(units: Seq<u16>)
    ensures
        units_bytes(units).len() == 2 * units.len(),
    decreases units.len(),
{
    if units.len() > 0 {
        lemma_units_bytes_len(units.drop_last());
    }
}

/// The last packet of a message that was ended holds what was left: with the packets before it, all
/// that was written goes out, as long as no more than one packet's worth was waiting.
pub proof fn law_finalize_completes(v: WriterView)
    requires
        v.contents.len() <= v.max_payload,
    ensures
        payloads(v.sent(STATUS_EOM, v.contents).packets) == v.written(),
{
    lemma_sent_payloads(v, STATUS_EOM, v.contents);
}

/// The header of a packet is eight bytes: its type, its status, its length with the upper byte first, two
/// bytes that are 0, its number, and one byte that is 0.
pub proof fn law_header_bytes(code: u8, status: u8, length: nat, id: u8)
    requires
        length < 0x1_0000,
    ensures
        ({
            let h = header(code, status, length, id);
            &&& h.len() == 8
            &&& h[0] == code
            &&& h[1] == status
            &&& 256 * h[2] + h[3] == length
            &&& h[4] == 0 && h[5] == 0
            &&& h[6] == id
            &&& h[7] == 0
        }),
{
    lemma_header_len(code, status, length, id);
    reveal_with_fuel(be_bytes, 3);
    let b = be_bytes(length, 2);
    assert(length % 0x1_0000 == length);
    assert(b.len() == 2 && b[0] == (length / 256) % 256 && b[1] == length % 256);
    let h = header(code, status, length, id);
    assert(h[2] == b[0] && h[3] == b[1]);
}

/// The status of a packet: the lowest bit tells the last packet of a message, and the next one that the
/// message is to be ignored.
pub proof fn law_status(is_last: bool, is_ignore: bool)
    ensures
        status_of(is_last, is_ignore) < 4,
        (status_of(is_last, is_ignore) % 2 == 1) == is_last,
        (status_of(is_last, is_ignore) / 2 == 1) == (is_last && is_ignore),
{
}

/// A message is given up by a packet that is a header alone: the last one, to be ignored.
pub proof fn law_ignore_packet(v: WriterView)
    ensures
        v.ignore_packet() == seq![v.packet_type.code(), 3u8, 0u8, 8u8, 0u8, 0u8, v.id, 0u8],
{
    let h = v.ignore_packet();
    law_header_bytes(v.packet_type.code(), 3, 8, v.id);
    assert(h =~= seq![v.packet_type.code(), 3u8, 0u8, 8u8, 0u8, 0u8, v.id, 0u8]);
}

/// Making a packet of what fills one loses nothing and adds nothing, and leaves room for more.
pub proof fn law_full_packet(v: WriterView)
    requires
        0 < v.max_payload,
        v.contents.len() <= v.max_payload,
    ensures
        v.flushed_if_full().written() == v.written(),
        v.flushed_if_full().contents.len() < v.max_payload,
        v.flushed_if_full().packet_type == v.packet_type,
        v.flushed_if_full().max_payload == v.max_payload,
        v.contents.len() < v.max_payload ==> v.flushed_if_full() == v,
        v.grew(Seq::empty(), v.flushed_if_full()),
{
    let w = v.with(v.contents + Seq::empty());
    assert(v.contents + Seq::<u8>::empty() =~= v.contents);
    if v.contents.len() == v.max_payload {
        assert(w.fills(0));
        assert(w.cut(0) == w);
        assert(w.fills(1));
        assert(v.contents.take(v.max_payload as int) =~= v.contents);
        assert(v.contents.skip(v.max_payload as int) =~= Seq::<u8>::empty());
        assert(w.cut(1) == v.flushed_if_full());
    } else {
        lemma_grew_nothing(v);
    }
    lemma_sent_payloads(v, STATUS_NORMAL, v.contents);
    assert(v.flushed_if_full().written() =~= v.written());
}

/// Bytes that are written over others stand in their place, and what is before and behind stays.
pub proof fn law_patched(before: Seq<u8>, gone: Seq<u8>, after: Seq<u8>, bytes: Seq<u8>)
    requires
        gone.len() == bytes.len(),
    ensures
        patched(before + gone + after, before.len() as int, bytes) == before + bytes + after,
{
    assert(patched(before + gone + after, before.len() as int, bytes) =~= before + bytes + after);
}

} // verus!
