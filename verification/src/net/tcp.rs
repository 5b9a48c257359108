//! TCP: segment parsing and building, the checksum and the connection
//! state machine.

use std::collections::VecDeque;
use vstd::prelude::*;
use super::arp::Ipv4Address;
use super::bytes::{add_words, fold_checksum, read_be_u16, read_be_u32, spec_be_u16, spec_be_u32, spec_checksum_of, spec_u16_be, spec_u32_be, spec_word_count, spec_word_sum, u16_to_be, u32_to_be};
use super::ethernet::slice_from;
use super::tcp_flags;
use super::udp::{pseudo_header_sum, spec_pseudo_sum};

verus! {

/// Connection states.
#[derive(Debug, Clone, Copy, PartialEq, Eq, Structural)]
pub enum TcpState {
    Closed,
    Listen,
    SynSent,
    SynReceived,
    Established,
    FinWait1,
    FinWait2,
    CloseWait,
    Closing,
    LastAck,
    TimeWait,
}

/// A TCP header.
pub struct TcpHeader {
    pub src_port: u16,
    pub dst_port: u16,
    pub seq_num: u32,
    pub ack_num: u32,
    pub data_offset_flags: u16,
    pub window_size: u16,
    pub checksum: u16,
    pub urgent_ptr: u16,
}

/// The flag bits of a header word.
pub open spec fn spec_flags(dof: u16) -> u8 {
    (dof % 64) as u8
}

impl TcpHeader {
    /// The data offset in 32-bit words (top 4 bits).
    pub fn data_offset(&self) -> (r: u8)
        ensures
            r == self.data_offset_flags / 4096,
    {
        let v = self.data_offset_flags;
        assert((v >> 12u16) & 0x0Fu16 == v / 4096) by (bit_vector);
        ((v >> 12) & 0x0F) as u8
    }

    /// The header length in bytes.
    pub fn header_length(&self) -> (r: usize)
        ensures
            r == (self.data_offset_flags / 4096) * 4,
    {
        (self.data_offset() * 4) as usize
    }

    /// The flag bits.
    pub fn flags(&self) -> (r: u8)
        ensures
            r == spec_flags(self.data_offset_flags),
    {
        let v = self.data_offset_flags;
        assert(v & 0x3Fu16 == v % 64) by (bit_vector);
        (v & 0x3F) as u8
    }

    /// Whether any bit of `flag` is set.
    pub fn has_flag(&self, flag: u8) -> (r: bool)
        ensures
            r == (spec_flags(self.data_offset_flags) & flag != 0),
    {
        self.flags() & flag != 0
    }
}

/// The segment `build` produces.
pub open spec fn spec_tcp_segment(
    src_port: u16,
    dst_port: u16,
    seq_num: u32,
    ack_num: u32,
    flags: u8,
    window_size: u16,
    payload: Seq<u8>,
) -> Seq<u8> {
    spec_u16_be(src_port) + spec_u16_be(dst_port) + spec_u32_be(seq_num) + spec_u32_be(ack_num) + spec_u16_be(
        (0x5000 + flags) as u16,
    ) + spec_u16_be(window_size) + seq![0u8, 0u8, 0u8, 0u8] + payload
}

/// Parsing and building of TCP segments.
pub struct TcpParser;

impl TcpParser {
    /// Splits a segment into header and payload. Fails on fewer than 20
    /// bytes and on a header longer than the data.
    pub fn parse(data: &[u8]) -> (r: Result<(TcpHeader, &[u8]), &'static str>)
        ensures
            data@.len() < 20 ==> r is Err && r->Err_0 == "TCP packet too short",
            data@.len() >= 20 && data@.len() < (spec_be_u16(data@, 12) / 4096) * 4 ==> r is Err && r->Err_0
                == "Truncated TCP header",
            data@.len() >= 20 && data@.len() >= (spec_be_u16(data@, 12) / 4096) * 4 ==> (r matches Ok((h, payload))
                && h.src_port == spec_be_u16(data@, 0) && h.dst_port == spec_be_u16(data@, 2) && h.seq_num
                == spec_be_u32(data@, 4) && h.ack_num == spec_be_u32(data@, 8) && h.data_offset_flags == spec_be_u16(
                data@,
                12,
            ) && h.window_size == spec_be_u16(data@, 14) && h.checksum == spec_be_u16(data@, 16) && h.urgent_ptr
                == spec_be_u16(data@, 18) && payload@ == data@.subrange(
                (spec_be_u16(data@, 12) / 4096) * 4,
                data@.len() as int,
            )),
    {
        if data.len() < 20 {
            return Err("TCP packet too short");
        }
        let header = TcpHeader {
            src_port: read_be_u16(data, 0),
            dst_port: read_be_u16(data, 2),
            seq_num: read_be_u32(data, 4),
            ack_num: read_be_u32(data, 8),
            data_offset_flags: read_be_u16(data, 12),
            window_size: read_be_u16(data, 14),
            checksum: read_be_u16(data, 16),
            urgent_ptr: read_be_u16(data, 18),
        };
        let header_len = header.header_length();
        if data.len() < header_len {
            return Err("Truncated TCP header");
        }
        Ok((header, slice_from(data, header_len)))
    }

    /// A segment with a 20-byte header (data offset 5), the given fields,
    /// the low bits `flags`, and zero checksum and urgent pointer.
    pub fn build(
        src_port: u16,
        dst_port: u16,
        seq_num: u32,
        ack_num: u32,
        flags: u8,
        window_size: u16,
        payload: &[u8],
    ) -> (r: Vec<u8>)
        ensures
            r@ == spec_tcp_segment(src_port, dst_port, seq_num, ack_num, flags, window_size, payload@),
    {
        let mut packet: Vec<u8> = Vec::new();
        packet.extend_from_slice(&u16_to_be(src_port));
        packet.extend_from_slice(&u16_to_be(dst_port));
        packet.extend_from_slice(&u32_to_be(seq_num));
        packet.extend_from_slice(&u32_to_be(ack_num));
        let f = flags as u16;
        assert((5u16 << 12u16) | f == 0x5000 + f) by (bit_vector)
            requires f < 256;
        let data_offset_flags = (5u16 << 12) | (flags as u16);
        packet.extend_from_slice(&u16_to_be(data_offset_flags));
        packet.extend_from_slice(&u16_to_be(window_size));
        packet.push(0);
        packet.push(0);
        packet.push(0);
        packet.push(0);
        packet.extend_from_slice(payload);
        assert(packet@ =~= spec_tcp_segment(src_port, dst_port, seq_num, ack_num, flags, window_size, payload@));
        packet
    }

    /// The TCP checksum of a segment: the internet checksum over the
    /// pseudo-header (addresses, protocol 6, length) and the segment.
    pub fn calculate_checksum(src_ip: Ipv4Address, dst_ip: Ipv4Address, tcp_packet: &[u8]) -> (r: u16)
        requires
            tcp_packet@.len() + 2 <= usize::MAX,
            spec_pseudo_sum(src_ip, dst_ip, 6, tcp_packet@.len() as int) + spec_word_sum(tcp_packet@, spec_word_count(tcp_packet@))
                <= u32::MAX,
        ensures
            r == spec_checksum_of(spec_pseudo_sum(src_ip, dst_ip, 6, tcp_packet@.len() as int) + spec_word_sum(
                tcp_packet@,
                spec_word_count(tcp_packet@),
            )),
    {
        proof {
            super::bytes::lemma_word_sum_nonneg(tcp_packet@, spec_word_count(tcp_packet@));
        }
        let init = pseudo_header_sum(&src_ip, &dst_ip, 6, tcp_packet.len());
        let sum = add_words(init, tcp_packet);
        fold_checksum(sum)
    }
}

/// The state after a segment with flag bits `f` arrives in state `s`.
/// (A test for "SYN and ACK" or "FIN and ACK" is met by either bit.)
pub open spec fn spec_tcp_next(s: TcpState, f: u8) -> TcpState {
    match s {
        TcpState::Listen => if f & 0x02 != 0 { TcpState::SynReceived } else { s },
        TcpState::SynSent => if f & 0x12 != 0 { TcpState::Established } else { s },
        TcpState::SynReceived => if f & 0x10 != 0 { TcpState::Established } else { s },
        TcpState::Established => if f & 0x01 != 0 { TcpState::CloseWait } else { s },
        TcpState::FinWait1 => if f & 0x11 != 0 { TcpState::TimeWait } else if f & 0x10 != 0 { TcpState::FinWait2 } else { s },
        TcpState::FinWait2 => if f & 0x01 != 0 { TcpState::TimeWait } else { s },
        _ => s,
    }
}

/// Whether the transition takes the peer's sequence number plus one as the
/// next expected sequence number.
pub open spec fn spec_tcp_takes_seq(s: TcpState, f: u8) -> bool {
    match s {
        TcpState::Listen => f & 0x02 != 0,
        TcpState::SynSent => f & 0x12 != 0,
        TcpState::Established => f & 0x01 != 0,
        _ => false,
    }
}

/// The state after a local close.
pub open spec fn spec_tcp_close(s: TcpState) -> TcpState {
    match s {
        TcpState::Established => TcpState::FinWait1,
        TcpState::CloseWait => TcpState::LastAck,
        _ => s,
    }
}

/// A TCP connection.
pub struct TcpConnection {
    pub state: TcpState,
    pub local_addr: Ipv4Address,
    pub local_port: u16,
    pub remote_addr: Ipv4Address,
    pub remote_port: u16,
    pub send_seq: u32,
    pub recv_seq: u32,
    pub send_window: u16,
    pub recv_window: u16,
    pub recv_buffer: VecDeque<u8>,
    pub send_buffer: VecDeque<u8>,
}

impl TcpConnection {
    /// A closed connection between the two endpoints, with 8 KiB windows
    /// and empty buffers.
    pub fn new(local_addr: Ipv4Address, local_port: u16, remote_addr: Ipv4Address, remote_port: u16) -> (r: Self)
        ensures
            r.state == TcpState::Closed,
            r.local_addr == local_addr,
            r.local_port == local_port,
            r.remote_addr == remote_addr,
            r.remote_port == remote_port,
            r.send_seq == 0,
            r.recv_seq == 0,
            r.send_window == 8192,
            r.recv_window == 8192,
            r.recv_buffer@ == Seq::<u8>::empty(),
            r.send_buffer@ == Seq::<u8>::empty(),
    {
        TcpConnection {
            state: TcpState::Closed,
            local_addr,
            local_port,
            remote_addr,
            remote_port,
            send_seq: 0,
            recv_seq: 0,
            send_window: 8192,
            recv_window: 8192,
            recv_buffer: VecDeque::new(),
            send_buffer: VecDeque::new(),
        }
    }

    /// Moves the state machine on an incoming segment.
    pub fn handle_packet(&mut self, header: &TcpHeader, _payload: &[u8])
        requires
            spec_tcp_takes_seq(old(self).state, spec_flags(header.data_offset_flags)) ==> header.seq_num < u32::MAX,
        ensures
            final(self).state == spec_tcp_next(old(self).state, spec_flags(header.data_offset_flags)),
            final(self).recv_seq == (if spec_tcp_takes_seq(old(self).state, spec_flags(header.data_offset_flags)) {
                (header.seq_num + 1) as u32
            } else {
                old(self).recv_seq
            }),
            final(self).send_seq == old(self).send_seq,
            final(self).local_addr == old(self).local_addr && final(self).local_port == old(self).local_port,
            final(self).remote_addr == old(self).remote_addr && final(self).remote_port == old(self).remote_port,
            final(self).recv_buffer@ == old(self).recv_buffer@ && final(self).send_buffer@ == old(self).send_buffer@,
    {
        assert(0x02u8 | 0x10u8 == 0x12u8 && 0x01u8 | 0x10u8 == 0x11u8) by (bit_vector);
        match self.state {
            TcpState::Closed => {},
            TcpState::Listen => {
                if header.has_flag(tcp_flags::SYN) {
                    self.state = TcpState::SynReceived;
                    self.recv_seq = header.seq_num + 1;
                }
            },
            TcpState::SynSent => {
                if header.has_flag(tcp_flags::SYN | tcp_flags::ACK) {
                    self.state = TcpState::Established;
                    self.recv_seq = header.seq_num + 1;
                }
            },
            TcpState::SynReceived => {
                if header.has_flag(tcp_flags::ACK) {
                    self.state = TcpState::Established;
                }
            },
            TcpState::Established => {
                if header.has_flag(tcp_flags::FIN) {
                    self.state = TcpState::CloseWait;
                    self.recv_seq = header.seq_num + 1;
                }
            },
            TcpState::FinWait1 => {
                if header.has_flag(tcp_flags::FIN | tcp_flags::ACK) {
                    self.state = TcpState::TimeWait;
                } else if header.has_flag(tcp_flags::ACK) {
                    self.state = TcpState::FinWait2;
                }
            },
            TcpState::FinWait2 => {
                if header.has_flag(tcp_flags::FIN) {
                    self.state = TcpState::TimeWait;
                }
            },
            _ => {},
        }
    }

    /// Starts an active open: SYN sent, initial sequence number 1000.
    pub fn connect(&mut self)
        ensures
            final(self).state == TcpState::SynSent,
            final(self).send_seq == 1000,
            final(self).recv_seq == old(self).recv_seq,
            final(self).local_addr == old(self).local_addr && final(self).local_port == old(self).local_port,
            final(self).remote_addr == old(self).remote_addr && final(self).remote_port == old(self).remote_port,
            final(self).recv_buffer@ == old(self).recv_buffer@ && final(self).send_buffer@ == old(self).send_buffer@,
    {
        self.state = TcpState::SynSent;
        self.send_seq = 1000;
    }

    /// Starts a local close: Established goes to FinWait1, CloseWait to
    /// LastAck; other states are kept.
    pub fn close(&mut self)
        ensures
            final(self).state == spec_tcp_close(old(self).state),
            final(self).send_seq == old(self).send_seq && final(self).recv_seq == old(self).recv_seq,
            final(self).recv_buffer@ == old(self).recv_buffer@ && final(self).send_buffer@ == old(self).send_buffer@,
    {
        match self.state {
            TcpState::Established => {
                self.state = TcpState::FinWait1;
            },
            TcpState::CloseWait => {
                self.state = TcpState::LastAck;
            },
            _ => {},
        }
    }
}

/// Closed, TimeWait, Closing and LastAck are never left by an incoming
/// segment, and a close changes only Established and CloseWait.
pub proof fn lemma_tcp_terminal_states(f: u8)
    ensures
        spec_tcp_next(TcpState::Closed, f) == TcpState::Closed,
        spec_tcp_next(TcpState::TimeWait, f) == TcpState::TimeWait,
        spec_tcp_next(TcpState::Closing, f) == TcpState::Closing,
        spec_tcp_next(TcpState::LastAck, f) == TcpState::LastAck,
        forall|s: TcpState| s != TcpState::Established && s != TcpState::CloseWait ==> spec_tcp_close(s) == s,
{
}

/// The passive close: an established connection that receives a FIN goes
/// to CloseWait (the peer is done, the local side may still send) and
/// expects the sequence number after the FIN; only a local close then
/// moves it to LastAck. No segment leads into LastAck, and a local close
/// leads into it only from CloseWait.
pub proof fn lemma_tcp_passive_close(f: u8)
    ensures
        f & 0x01 != 0 ==> spec_tcp_next(TcpState::Established, f) == TcpState::CloseWait,
        f & 0x01 != 0 ==> spec_tcp_takes_seq(TcpState::Established, f),
        f & 0x01 == 0 ==> spec_tcp_next(TcpState::Established, f) == TcpState::Established,
        spec_tcp_close(TcpState::CloseWait) == TcpState::LastAck,
        forall|s: TcpState| #[trigger] spec_tcp_next(s, f) == TcpState::LastAck ==> s == TcpState::LastAck,
        forall|s: TcpState| #[trigger] spec_tcp_close(s) == TcpState::LastAck ==> s == TcpState::CloseWait || s
            == TcpState::LastAck,
        forall|s: TcpState| #[trigger] spec_tcp_next(s, f) == TcpState::CloseWait ==> s == TcpState::Established || s
            == TcpState::CloseWait,
{
}

/// The three-way handshake: a listening connection that gets a SYN and
/// then an ACK is established, and so is one that sent a SYN and gets a
/// SYN-ACK.
pub proof fn lemma_tcp_handshake()
    ensures
        spec_tcp_next(spec_tcp_next(TcpState::Listen, 0x02), 0x10) == TcpState::Established,
        spec_tcp_next(TcpState::SynSent, 0x12) == TcpState::Established,
{
    assert(0x02u8 & 0x02u8 != 0 && 0x10u8 & 0x10u8 != 0 && 0x12u8 & 0x12u8 != 0) by (bit_vector);
}

/// Parsing a built segment gives back its ports, sequence numbers, flags
/// and payload.
pub proof fn lemma_tcp_roundtrip(
    src_port: u16,
    dst_port: u16,
    seq_num: u32,
    ack_num: u32,
    flags: u8,
    window_size: u16,
    payload: Seq<u8>,
)
    requires
        flags < 64,
    ensures
        ({
            let d = spec_tcp_segment(src_port, dst_port, seq_num, ack_num, flags, window_size, payload);
            &&& d.len() >= 20
            &&& spec_be_u16(d, 0) == src_port
            &&& spec_be_u16(d, 2) == dst_port
            &&& spec_be_u32(d, 4) == seq_num
            &&& spec_be_u32(d, 8) == ack_num
            &&& spec_be_u16(d, 12) / 4096 == 5
            &&& spec_flags(spec_be_u16(d, 12) as u16) == flags
            &&& d.subrange(20, d.len() as int) == payload
        }),
{
    let d = spec_tcp_segment(src_port, dst_port, seq_num, ack_num, flags, window_size, payload);
    assert(d.subrange(20, d.len() as int) =~= payload);
    super::bytes::lemma_u32_be_roundtrip(seq_num);
    super::bytes::lemma_u32_be_roundtrip(ack_num);
    assert(spec_be_u32(d, 4) == spec_be_u32(spec_u32_be(seq_num), 0));
    assert(spec_be_u32(d, 8) == spec_be_u32(spec_u32_be(ack_num), 0));
}

} // verus!
