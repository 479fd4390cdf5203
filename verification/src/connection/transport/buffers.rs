//! Taking packets out of the bytes that come from a server.

use crate::bytes::{be_nat, be_read_u16, lemma_be_nat_same};
use crate::error::{Error, ErrorKind, TdsResult};
use crate::io::packet_writer::{
    law_finalize_completes, law_grew_appends, law_header_states_length, lemma_cut_keeps, payloads,
    WriterView, PACKET_HEADER_SIZE,
};
use crate::message::{STATUS_EOM, STATUS_NORMAL};
use crate::text::number_message;
use vstd::prelude::*;
use vstd::string::StringExecFns;

verus! {

/// Bytes in which `n` of them, from `src` on, were copied to `dst` on.
pub open spec fn moved(b: Seq<u8>, src: int, n: int, dst: int) -> Seq<u8> {
    Seq::new(
        b.len(),
        |i: int|
            if dst <= i < dst + n {
                b[src + i - dst]
            } else {
                b[i]
            },
    )
}

/// Copies `n` bytes from `src` on to `dst` on; the two places may overlap.
fn copy_within(b: &mut Vec<u8>, src: usize, n: usize, dst: usize)
    requires
        src + n <= old(b)@.len(),
        dst + n <= old(b)@.len(),
    ensures
        final(b)@ == moved(old(b)@, src as int, n as int, dst as int),
{
    let ghost before = b@;
    let total: usize = b.len();
    let mut part: Vec<u8> = Vec::new();
    let mut i: usize = 0;
    while i < n
        invariant
            i <= n,
            src + n <= b@.len(),
            b@.len() == total,
            b@ == before,
            part@ == before.subrange(src as int, src + i),
        decreases n - i,
    {
        part.push(b[src + i]);
        assert(part@ =~= before.subrange(src as int, src + i + 1));
        i += 1;
    }
    let mut k: usize = 0;
    while k < n
        invariant
            k <= n,
            src + n <= before.len(),
            dst + n <= before.len(),
            before.len() == total,
            part@ == before.subrange(src as int, src + n),
            b@.len() == before.len(),
            b@ =~= moved(before, src as int, k as int, dst as int),
        decreases n - k,
    {
        b.set(dst + k, part[k]);
        k += 1;
    }
}

/// What has come of a packet: where it starts, and how many bytes are there.
#[derive(Clone, Copy, Debug, PartialEq, Eq, Structural)]
pub struct Assembly {
    pub base_offset: usize,
    pub bytes_available: usize,
}

/// What is to be done to get a packet.
#[derive(Clone, Copy, Debug, PartialEq, Eq, Structural)]
pub enum PacketStep {
    /// More bytes are to be read; so many go into the buffer.
    Read(usize),
    /// The packet is there. It has so many bytes, its header included.
    Complete(usize),
}

/// The bytes that came from a server and were not taken yet. The buffer has room for two packets.
#[derive(Debug)]
pub struct TdsReadBuffer {
    pub working_buffer: Vec<u8>,
    pub buffer_position: usize,
    pub buffer_length: usize,
    pub max_packet_size: usize,
    pub pending_bytes: usize,
    pub pending_bytes_offset: usize,
}

/// A buffer that was reset and is reset again, for packets of the same size, stays as it is.
pub proof fn law_reset_is_idempotent(
    first: TdsReadBuffer,
    second: TdsReadBuffer,
    third: TdsReadBuffer,
    packet_size: nat,
)
    requires
        TdsReadBuffer::was_reset(first, second, packet_size),
        TdsReadBuffer::was_reset(second, third, packet_size),
    ensures
        third == second,
{
}

impl TdsReadBuffer {
    /// Whether the fields fit each other.
    pub open spec fn well_formed(&self) -> bool {
        &&& self.buffer_position <= self.buffer_length <= self.working_buffer@.len()
        &&& self.working_buffer@.len() == 2 * self.max_packet_size
        &&& self.max_packet_size >= 8
        &&& self.pending_bytes_offset + self.pending_bytes <= self.working_buffer@.len()
        &&& self.pending_bytes > 0 ==> self.buffer_length <= self.pending_bytes_offset
    }

    /// The payload that was not taken yet.
    pub open spec fn unread(&self) -> Seq<u8> {
        self.working_buffer@.subrange(self.buffer_position as int, self.buffer_length as int)
    }

    /// The bytes that came after the last packet.
    pub open spec fn pending(&self) -> Seq<u8> {
        self.working_buffer@.subrange(
            self.pending_bytes_offset as int,
            self.pending_bytes_offset + self.pending_bytes,
        )
    }

    /// The bytes that have come of a packet.
    pub open spec fn raw(&self, a: Assembly) -> Seq<u8> {
        self.working_buffer@.subrange(a.base_offset as int, a.base_offset + a.bytes_available)
    }

    /// Whether a packet that is being assembled stands right behind the payload.
    pub open spec fn assembling(&self, a: Assembly) -> bool {
        &&& self.well_formed()
        &&& self.pending_bytes == 0
        &&& a.base_offset == self.buffer_length
        &&& a.base_offset + a.bytes_available <= self.working_buffer@.len()
    }

    /// What giving up all that is buffered, and making the buffer fit a packet size, makes of a buffer.
    /// One that fits is kept.
    pub open spec fn was_reset(pre: TdsReadBuffer, post: TdsReadBuffer, packet_size: nat) -> bool {
        &&& post.well_formed()
        &&& post.max_packet_size == packet_size
        &&& post.buffer_position == 0
        &&& post.buffer_length == 0
        &&& post.pending_bytes == 0
        &&& post.pending_bytes_offset == 0
        &&& pre.max_packet_size == packet_size ==> post.working_buffer == pre.working_buffer
    }

    /// A buffer for packets of a size.
    pub fn new(packet_size: usize) -> (b: TdsReadBuffer)
        requires
            8 <= packet_size <= 0x7fff_ffff,
        ensures
            b.well_formed(),
            b.max_packet_size == packet_size,
            b.unread() == Seq::<u8>::empty(),
            b.pending() == Seq::<u8>::empty(),
            b.buffer_position == 0,
            b.buffer_length == 0,
            b.pending_bytes == 0,
            b.pending_bytes_offset == 0,
    {
        let mut working_buffer: Vec<u8> = Vec::new();
        working_buffer.resize(2 * packet_size, 0);
        TdsReadBuffer {
            working_buffer,
            buffer_position: 0,
            buffer_length: 0,
            max_packet_size: packet_size,
            pending_bytes: 0,
            pending_bytes_offset: 0,
        }
    }

    /// How many bytes of payload were not taken yet.
    pub fn get_remaining_byte_count(&self) -> (n: usize)
        requires
            self.buffer_position <= self.buffer_length,
        ensures
            n == self.buffer_length - self.buffer_position,
    {
        self.buffer_length - self.buffer_position
    }

    /// Whether so many bytes of payload can be taken.
    pub fn do_we_have_enough_data(&self, n: usize) -> (b: bool)
        requires
            self.buffer_position <= self.buffer_length,
        ensures
            b == (n <= self.buffer_length - self.buffer_position),
    {
        n <= self.buffer_length - self.buffer_position
    }

    /// Takes bytes of the payload.
    pub fn consume_bytes(&mut self, n: usize)
        requires
            old(self).well_formed(),
            n <= old(self).unread().len(),
        ensures
            final(self).well_formed(),
            final(self).unread() == old(self).unread().skip(n as int),
            final(self).pending() == old(self).pending(),
            final(self).working_buffer == old(self).working_buffer,
            final(self).max_packet_size == old(self).max_packet_size,
            final(self).buffer_length == old(self).buffer_length,
            final(self).buffer_position == old(self).buffer_position + n,
    {
        self.buffer_position = self.buffer_position + n;
        assert(self.unread() =~= old(self).unread().skip(n as int));
    }

    /// The payload that was not taken yet.
    pub fn get_slice(&self) -> (s: &[u8])
        requires
            self.buffer_position <= self.buffer_length <= self.working_buffer@.len(),
        ensures
            s@ == self.unread(),
    {
        vstd::slice::slice_subrange(
            self.working_buffer.as_slice(),
            self.buffer_position,
            self.buffer_length,
        )
    }

    /// Sets the position to the start and the length as given. What came after the last packet stays.
    pub fn reset_to_length(&mut self, length: usize)
        ensures
            final(self).buffer_position == 0,
            final(self).buffer_length == length,
            final(self).working_buffer == old(self).working_buffer,
            final(self).max_packet_size == old(self).max_packet_size,
            final(self).pending_bytes == old(self).pending_bytes,
            final(self).pending_bytes_offset == old(self).pending_bytes_offset,
    {
        self.buffer_position = 0;
        self.buffer_length = length;
    }

    /// Makes room for packets of another size. The buffer is made anew only where the size changes.
    pub fn change_packet_size(&mut self, packet_size: u32)
        requires
            8 <= packet_size <= 0x7fff_ffff,
        ensures
            final(self).max_packet_size == packet_size,
            old(self).max_packet_size == packet_size ==> *final(self) == *old(self),
            old(self).max_packet_size != packet_size ==> {
                &&& final(self).well_formed()
                &&& final(self).buffer_position == 0
                &&& final(self).buffer_length == 0
                &&& final(self).pending_bytes == 0
                &&& final(self).pending_bytes_offset == 0
            },
    {
        if self.max_packet_size != packet_size as usize {
            let fresh = TdsReadBuffer::new(packet_size as usize);
            *self = fresh;
        }
    }

    /// Moves the payload that was not taken yet to the start of the buffer.
    pub fn shift_data_to_front(&mut self)
        requires
            old(self).well_formed(),
        ensures
            final(self).well_formed(),
            final(self).unread() == old(self).unread(),
            final(self).pending() == old(self).pending(),
            final(self).buffer_position == 0,
            final(self).buffer_length == old(self).unread().len(),
            final(self).max_packet_size == old(self).max_packet_size,
            final(self).pending_bytes == old(self).pending_bytes,
    {
        let n: usize = self.buffer_length - self.buffer_position;
        let from: usize = self.buffer_position;
        copy_within(&mut self.working_buffer, from, n, 0);
        self.buffer_position = 0;
        self.buffer_length = n;
        assert(self.unread() =~= old(self).unread());
        assert(self.pending() =~= old(self).pending());
    }

    /// Makes room for another packet behind the payload that was not taken yet.
    pub fn prepare(&mut self)
        requires
            old(self).well_formed(),
        ensures
            final(self).well_formed(),
            final(self).unread() == old(self).unread(),
            final(self).pending() == old(self).pending(),
            final(self).buffer_position == 0,
            final(self).buffer_length == old(self).unread().len(),
            final(self).max_packet_size == old(self).max_packet_size,
            final(self).pending_bytes == old(self).pending_bytes,
    {
        if self.get_remaining_byte_count() > 0 {
            self.shift_data_to_front();
        } else {
            self.reset_to_length(0);
            assert(self.unread() =~= old(self).unread());
        }
    }

    /// Begins a packet behind the payload, with the bytes that came after the last one. Fields that do
    /// not fit the buffer are a protocol error.
    pub fn begin_packet(&mut self) -> (r: TdsResult<Assembly>)
        requires
            old(self).buffer_length <= old(self).working_buffer@.len(),
        ensures
            ({
                let n = old(self).pending_bytes;
                let from = old(self).pending_bytes_offset;
                let base = old(self).buffer_length;
                let len = old(self).working_buffer@.len();
                if n > 0 && (from + n > len || base + n > len) {
                    *final(self) == *old(self) && (r matches Err(e) && e.kind()
                        == ErrorKind::Protocol)
                } else {
                    &&& r == Ok::<Assembly, Error>(
                        Assembly { base_offset: base, bytes_available: n },
                    )
                    &&& final(self).working_buffer@ == moved(
                        old(self).working_buffer@,
                        from as int,
                        n as int,
                        base as int,
                    )
                    &&& final(self).pending_bytes == 0
                    &&& final(self).buffer_position == old(self).buffer_position
                    &&& final(self).buffer_length == old(self).buffer_length
                    &&& final(self).max_packet_size == old(self).max_packet_size
                }
            }),
            old(self).well_formed() ==> {
                &&& r is Ok
                &&& final(self).assembling(r->Ok_0)
                &&& final(self).unread() == old(self).unread()
                &&& final(self).raw(r->Ok_0) == old(self).pending()
            },
    {
        let base_offset: usize = self.buffer_length;
        let bytes_available: usize = self.pending_bytes;
        let pending_offset: usize = self.pending_bytes_offset;
        let buffer_len: usize = self.working_buffer.len();
        if bytes_available > 0 {
            let src_fits: bool = pending_offset <= buffer_len && bytes_available <= buffer_len
                - pending_offset;
            let dest_fits: bool = bytes_available <= buffer_len - base_offset;
            if !src_fits || !dest_fits {
                return Err(
                    Error::ProtocolError(
                        number_message(
                            "Invalid pending bytes range: ",
                            bytes_available as u128,
                            " bytes do not fit the buffer",
                        ),
                    ),
                );
            }
            copy_within(&mut self.working_buffer, pending_offset, bytes_available, base_offset);
            self.pending_bytes = 0;
            self.pending_bytes_offset = 0;
        }
        let a = Assembly { base_offset, bytes_available };
        proof {
            assert(self.working_buffer@ =~= moved(
                old(self).working_buffer@,
                pending_offset as int,
                bytes_available as int,
                base_offset as int,
            ));
            if old(self).well_formed() {
                assert(self.unread() =~= old(self).unread());
                assert(self.raw(a) =~= old(self).pending());
            }
        }
        Ok(a)
    }

    /// What is to be done next to get a packet: its length is in its header, which has to be there
    /// first. A length that no packet of the connection has is a protocol error. Once the packet is
    /// there, what came after it is kept.
    pub fn packet_step(&mut self, a: &Assembly) -> (r: TdsResult<PacketStep>)
        requires
            old(self).assembling(*a),
        ensures
            ({
                let raw = old(self).raw(*a);
                let len = be_nat(raw, 2, 2);
                let space = old(self).working_buffer@.len() - a.base_offset - a.bytes_available;
                if raw.len() < 8 {
                    *final(self) == *old(self) && r == Ok::<PacketStep, Error>(
                        PacketStep::Read(space as usize),
                    )
                } else if len < 8 || len > old(self).max_packet_size || a.base_offset + len
                    > old(self).working_buffer@.len() {
                    *final(self) == *old(self) && (r matches Err(e) && e.kind()
                        == ErrorKind::Protocol)
                } else if raw.len() < len {
                    *final(self) == *old(self) && r == Ok::<PacketStep, Error>(
                        PacketStep::Read(space as usize),
                    )
                } else {
                    &&& r == Ok::<PacketStep, Error>(PacketStep::Complete(len as usize))
                    &&& final(self).well_formed()
                    &&& final(self).working_buffer == old(self).working_buffer
                    &&& final(self).unread() == old(self).unread()
                    &&& final(self).pending() == raw.skip(len as int)
                    &&& final(self).buffer_position == old(self).buffer_position
                    &&& final(self).buffer_length == old(self).buffer_length
                    &&& final(self).max_packet_size == old(self).max_packet_size
                    &&& final(self).pending_bytes > 0 ==> final(self).pending_bytes_offset
                        == a.base_offset + len
                }
            }),
    {
        let base: usize = a.base_offset;
        let buffer_len: usize = self.working_buffer.len();
        let space: usize = buffer_len - base - a.bytes_available;
        let ghost raw = self.raw(*a);
        if a.bytes_available < PACKET_HEADER_SIZE {
            return Ok(PacketStep::Read(space));
        }
        let length: u16 = be_read_u16(self.working_buffer.as_slice(), base + 2);
        proof {
            assert(self.working_buffer@.subrange(base + 2, base + 4) =~= raw.subrange(2, 4));
            lemma_be_nat_same(self.working_buffer@, base + 2, raw, 2, 2);
        }
        let size: usize = length as usize;
        if size < PACKET_HEADER_SIZE {
            return Err(
                Error::ProtocolError(
                    number_message(
                        "Invalid TDS packet length ",
                        size as u128,
                        ": must be at least 8 bytes (header size)",
                    ),
                ),
            );
        }
        if size > self.max_packet_size {
            return Err(
                Error::ProtocolError(
                    number_message(
                        "TDS packet length ",
                        size as u128,
                        " exceeds negotiated max packet size",
                    ),
                ),
            );
        }
        if size > buffer_len - base {
            return Err(
                Error::ProtocolError(
                    number_message("TDS packet length ", size as u128, " exceeds buffer capacity"),
                ),
            );
        }
        if a.bytes_available < size {
            return Ok(PacketStep::Read(space));
        }
        let extra: usize = a.bytes_available - size;
        if extra > 0 {
            self.pending_bytes = extra;
            self.pending_bytes_offset = base + size;
        } else {
            self.pending_bytes = 0;
            self.pending_bytes_offset = 0;
        }
        assert(self.pending() =~= raw.skip(size as int));
        Ok(PacketStep::Complete(size))
    }

    /// Takes bytes that were read for a packet. No bytes at all mean that the server closed the
    /// connection.
    pub fn receive(&mut self, a: &mut Assembly, data: &[u8]) -> (r: TdsResult<()>)
        requires
            old(self).assembling(*old(a)),
            data@.len() <= old(self).working_buffer@.len() - old(a).base_offset - old(a).bytes_available,
        ensures
            data@.len() == 0 ==> {
                &&& *final(self) == *old(self)
                &&& *final(a) == *old(a)
                &&& r matches Err(e) && e.kind() == ErrorKind::ConnectionClosed
            },
            data@.len() > 0 ==> {
                &&& r is Ok
                &&& final(self).assembling(*final(a))
                &&& final(self).raw(*final(a)) == old(self).raw(*old(a)) + data@
                &&& final(self).unread() == old(self).unread()
                &&& final(self).max_packet_size == old(self).max_packet_size
                &&& final(self).buffer_position == old(self).buffer_position
                &&& final(self).buffer_length == old(self).buffer_length
                &&& final(a).base_offset == old(a).base_offset
            },
    {
        if data.len() == 0 {
            return Err(
                Error::ConnectionClosed(
                    String::from_str("Connection closed by server while reading TDS packet"),
                ),
            );
        }
        let total: usize = self.working_buffer.len();
        let at: usize = a.base_offset + a.bytes_available;
        let ghost before = self.working_buffer@;
        let mut i: usize = 0;
        while i < data.len()
            invariant
                i <= data@.len(),
                at + data@.len() <= before.len(),
                before.len() == total,
                self.working_buffer@.len() == before.len(),
                forall|k: int|
                    0 <= k < before.len() ==> #[trigger] self.working_buffer@[k] == (if at <= k < at
                        + i {
                        data@[k - at]
                    } else {
                        before[k]
                    }),
                self.buffer_position == old(self).buffer_position,
                self.buffer_length == old(self).buffer_length,
                self.max_packet_size == old(self).max_packet_size,
                self.pending_bytes == old(self).pending_bytes,
                self.pending_bytes_offset == old(self).pending_bytes_offset,
            decreases data@.len() - i,
        {
            self.working_buffer.set(at + i, data[i]);
            i += 1;
        }
        a.bytes_available = a.bytes_available + data.len();
        proof {
            assert(self.unread() =~= old(self).unread());
            assert(self.raw(*a) =~= old(self).raw(*old(a)) + data@);
        }
        Ok(())
    }

    /// Adds the payload of a packet that stands behind the payload to it.
    pub fn remove_header_from_packet(&mut self, packet_size: usize)
        requires
            old(self).well_formed(),
            packet_size >= 8,
            old(self).buffer_length + packet_size <= old(self).working_buffer@.len(),
            old(self).pending_bytes > 0 ==> old(self).pending_bytes_offset >= old(self).buffer_length + packet_size,
        ensures
            final(self).well_formed(),
            final(self).unread() == old(self).unread() + old(self).working_buffer@.subrange(
                old(self).buffer_length + 8,
                old(self).buffer_length + packet_size,
            ),
            final(self).pending() == old(self).pending(),
            final(self).max_packet_size == old(self).max_packet_size,
            final(self).buffer_length == old(self).buffer_length + packet_size - 8,
    {
        let total: usize = self.working_buffer.len();
        let n: usize = packet_size - PACKET_HEADER_SIZE;
        assert(self.buffer_length + packet_size <= total);
        let at: usize = self.buffer_length;
        copy_within(&mut self.working_buffer, at + PACKET_HEADER_SIZE, n, at);
        self.buffer_length = at + n;
        proof {
            assert(self.unread() =~= old(self).unread() + old(self).working_buffer@.subrange(
                old(self).buffer_length + 8,
                old(self).buffer_length + packet_size,
            ));
            assert(self.pending() =~= old(self).pending());
        }
    }
}

/// The length of the packet at the start of bytes that came from a server, where the packet is all
/// there and no longer than it may be.
pub open spec fn first_packet(s: Seq<u8>, max: nat) -> Option<nat> {
    let len = be_nat(s, 2, 2);
    if s.len() >= 8 && 8 <= len <= max && len <= s.len() {
        Some(len)
    } else {
        None
    }
}

/// The payloads of the packets that bytes from a server are made of, one after the other, up to the
/// first that is not all there.
pub open spec fn stream_payload(s: Seq<u8>, max: nat) -> Seq<u8>
    decreases s.len(),
{
    match first_packet(s, max) {
        Some(len) => s.subrange(8, len as int) + stream_payload(s.skip(len as int), max),
        None => Seq::empty(),
    }
}

/// A packet that is all there stays the same packet when more bytes come.
pub proof fn lemma_first_packet_stays(s: Seq<u8>, more: Seq<u8>, max: nat)
    requires
        first_packet(s, max) is Some,
    ensures
        first_packet(s + more, max) == first_packet(s, max),
{
    assert((s + more).subrange(2, 4) =~= s.subrange(2, 4));
    lemma_be_nat_same(s + more, 2, s, 2, 2);
}

/// It does not matter how the bytes of a stream are cut into reads, nor how many packets come in one:
/// taking a packet moves its payload from what is still to come to what can be read, and nothing is
/// lost or doubled.
pub proof fn law_reads_do_not_matter(
    unread: Seq<u8>,
    raw: Seq<u8>,
    rest: Seq<u8>,
    max: nat,
    len: nat,
)
    requires
        first_packet(raw, max) == Some(len),
    ensures
        unread + stream_payload(raw + rest, max) == (unread + raw.subrange(8, len as int))
            + stream_payload(raw.skip(len as int) + rest, max),
{
    lemma_first_packet_stays(raw, rest, max);
    let all = raw + rest;
    assert(all.subrange(8, len as int) =~= raw.subrange(8, len as int));
    assert(all.skip(len as int) =~= raw.skip(len as int) + rest);
    assert(unread + stream_payload(all, max) =~= (unread + raw.subrange(8, len as int))
        + stream_payload(all.skip(len as int), max));
}

/// The payloads of packets that were made from a message are read back as the message.
pub proof fn law_packets_are_read_back(packets: Seq<Seq<u8>>, max: nat)
    requires
        forall|i: int|
            0 <= i < packets.len() ==> first_packet(#[trigger] packets[i], max) == Some(
                packets[i].len(),
            ),
    ensures
        stream_payload(joined(packets), max) == joined(
            packets.map_values(|p: Seq<u8>| p.skip(8)),
        ),
    decreases packets.len(),
{
    let payloads = packets.map_values(|p: Seq<u8>| p.skip(8));
    if packets.len() > 0 {
        let p = packets[0];
        let others = packets.drop_first();
        assert forall|i: int| 0 <= i < others.len() implies first_packet(
            #[trigger] others[i],
            max,
        ) == Some(others[i].len()) by {
            assert(others[i] == packets[i + 1]);
        }
        law_packets_are_read_back(others, max);
        lemma_first_packet_stays(p, joined(others), max);
        let all = joined(packets);
        assert(all == p + joined(others));
        assert(all.subrange(8, p.len() as int) =~= p.skip(8));
        assert(all.skip(p.len() as int) =~= joined(others));
        assert(payloads.drop_first() =~= others.map_values(|p: Seq<u8>| p.skip(8)));
    } else {
        assert(payloads =~= Seq::<Seq<u8>>::empty());
    }
}

/// Sequences, one after the other.
pub open spec fn joined(s: Seq<Seq<u8>>) -> Seq<u8>
    decreases s.len(),
{
    if s.len() == 0 {
        Seq::empty()
    } else {
        s[0] + joined(s.drop_first())
    }
}

/// What is joined with one more is what was joined, and that one.
proof fn lemma_joined_push(s: Seq<Seq<u8>>, x: Seq<u8>)
    ensures
        joined(s.push(x)) == joined(s) + x,
    decreases s.len(),
{
    reveal_with_fuel(joined, 2);
    if s.len() == 0 {
        assert(s.push(x)[0] == x);
        assert(s.push(x).drop_first() =~= Seq::<Seq<u8>>::empty());
        assert(x + Seq::<u8>::empty() =~= Seq::<u8>::empty() + x);
    } else {
        assert(s.push(x)[0] == s[0]);
        lemma_joined_push(s.drop_first(), x);
        assert(s.push(x).drop_first() =~= s.drop_first().push(x));
        assert(s[0] + (joined(s.drop_first()) + x) =~= (s[0] + joined(s.drop_first())) + x);
    }
}

/// The bytes of packets that wait to be sent.
pub open spec fn packet_bytes(packets: Seq<(Seq<u8>, bool)>) -> Seq<Seq<u8>> {
    packets.map_values(|p: (Seq<u8>, bool)| p.0)
}

/// The payloads of packets are those of their bytes.
proof fn lemma_payloads_joined(packets: Seq<(Seq<u8>, bool)>)
    ensures
        payloads(packets) == joined(
            packet_bytes(packets).map_values(|p: Seq<u8>| p.skip(8)),
        ),
    decreases packets.len(),
{
    let f = |p: Seq<u8>| p.skip(8);
    let b = packet_bytes(packets).map_values(f);
    if packets.len() > 0 {
        let others = packets.drop_last();
        lemma_payloads_joined(others);
        let c = packet_bytes(others).map_values(f);
        assert(b =~= c.push(packets.last().0.skip(8)));
        lemma_joined_push(c, packets.last().0.skip(8));
    } else {
        assert(b =~= Seq::<Seq<u8>>::empty());
    }
}

/// Whether each packet is one that is read as a whole.
pub open spec fn all_readable(packets: Seq<(Seq<u8>, bool)>, max: nat) -> bool {
    forall|i: int|
        0 <= i < packets.len() ==> first_packet(#[trigger] packets[i].0, max) == Some(
            packets[i].0.len(),
        )
}

/// A packet that was made is one that is read as a whole, where its length fits its header.
proof fn lemma_sent_is_readable(v: WriterView, status: u8, payload: Seq<u8>, max: nat)
    requires
        8 + payload.len() <= max <= 0xFFFF,
        all_readable(v.packets, max),
    ensures
        all_readable(v.sent(status, payload).packets, max),
{
    law_header_states_length(v, status, payload);
    let w = v.sent(status, payload).packets;
    assert forall|i: int| 0 <= i < w.len() implies first_packet(#[trigger] w[i].0, max) == Some(
        w[i].0.len(),
    ) by {
        if i < v.packets.len() {
            assert(w[i] == v.packets[i]);
        } else {
            assert(w[i] == w.last());
        }
    }
}

/// Full packets that were made are such that are read as a whole.
proof fn lemma_cut_is_readable(v: WriterView, k: nat, max: nat)
    requires
        v.fills(k),
        8 + v.max_payload <= max <= 0xFFFF,
        all_readable(v.packets, max),
    ensures
        all_readable(v.cut(k).packets, max),
    decreases k,
{
    if k > 0 {
        let w = v.cut((k - 1) as nat);
        lemma_cut_is_readable(v, (k - 1) as nat, max);
        lemma_cut_keeps(v, (k - 1) as nat);
        lemma_sent_is_readable(w, STATUS_NORMAL, w.contents.take(w.max_payload as int), max);
    }
}

/// A message that was written and ended is read back from its packets as it was written, however
/// their bytes are cut into reads.
pub proof fn law_message_is_read_back(v: WriterView, bytes: Seq<u8>, w: WriterView, max: nat)
    requires
        v.packets.len() == 0,
        v.contents.len() == 0,
        v.grew(bytes, w),
        w.contents.len() <= w.max_payload,
        8 + v.max_payload <= max <= 0xFFFF,
    ensures
        stream_payload(
            joined(packet_bytes(w.sent(STATUS_EOM, w.contents).packets)),
            max,
        ) == bytes,
{
    let full = v.with(v.contents + bytes);
    let k = choose|k: nat| #[trigger] full.fills(k) && w == full.cut(k);
    lemma_cut_keeps(full, k);
    lemma_cut_is_readable(full, k, max);
    law_grew_appends(v, bytes, w);
    lemma_sent_is_readable(w, STATUS_EOM, w.contents, max);
    law_finalize_completes(w);
    let all = w.sent(STATUS_EOM, w.contents).packets;
    let b = packet_bytes(all);
    assert forall|i: int| 0 <= i < b.len() implies first_packet(#[trigger] b[i], max) == Some(
        b[i].len(),
    ) by {
        assert(b[i] == all[i].0);
    }
    law_packets_are_read_back(b, max);
    lemma_payloads_joined(all);
    assert(v.written() =~= Seq::<u8>::empty());
    assert(v.written() + bytes =~= bytes);
}

/// The first packet of a stream: its length is in the third and the fourth byte, the upper one first, counts
/// its header of eight bytes, is no more than the largest packet, and all of it is there.
pub proof fn law_first_packet(s: Seq<u8>, max: nat)
    ensures
        match first_packet(s, max) {
            Some(n) => s.len() >= 8 && n == 256 * s[2] + s[3] && 8 <= n <= max && n <= s.len(),
            None => s.len() < 8 || 256 * s[2] + s[3] < 8 || 256 * s[2] + s[3] > max || 256 * s[2] + s[3]
                > s.len(),
        },
{
    reveal_with_fuel(be_nat, 3);
}

/// Bytes that are moved stand at their new place in their order, and all others stay.
pub proof fn law_moved(b: Seq<u8>, src: int, n: int, dst: int)
    requires
        0 <= src,
        0 <= n,
        0 <= dst,
        src + n <= b.len(),
        dst + n <= b.len(),
    ensures
        moved(b, src, n, dst).len() == b.len(),
        moved(b, src, n, dst).subrange(dst, dst + n) == b.subrange(src, src + n),
        moved(b, src, n, dst).take(dst) == b.take(dst),
        moved(b, src, n, dst).skip(dst + n) == b.skip(dst + n),
{
    let m = moved(b, src, n, dst);
    assert(m.subrange(dst, dst + n) =~= b.subrange(src, src + n));
    assert(m.take(dst) =~= b.take(dst));
    assert(m.skip(dst + n) =~= b.skip(dst + n));
}

} // verus!
