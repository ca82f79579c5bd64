//! The `[length][packet id][payload]` envelope of the modern protocol, and
//! the fixed request sequence a status query begins with.

use vstd::prelude::*;
use vstd::slice::{slice_subrange, slice_to_vec};
use vstd::string::StringSliceAdditionalSpecFns;

use crate::varint::{
    lemma_read_varint_bounds, lemma_varint_round_trip, read_varint, spec_encode_varint,
    spec_read_varint, write_varint, VarintStatus,
};
use crate::Error;

verus! {

/// The bytes `write_packet` produces: the length of id-plus-payload as a
/// varint, then the id as a varint, then the payload.
pub open spec fn spec_write_packet(packet_id: i32, payload: Seq<u8>) -> Seq<u8> {
    let id_enc = spec_encode_varint(packet_id);
    spec_encode_varint((id_enc.len() + payload.len()) as i32) + id_enc + payload
}

/// Frame one packet for the modern protocol.
pub fn write_packet(packet_id: i32, payload: &[u8]) -> (out: Vec<u8>)
    requires
        payload@.len() + 5 <= i32::MAX,
    ensures
        out@ == spec_write_packet(packet_id, payload@),
{
    let mut id_buf: Vec<u8> = Vec::new();
    write_varint(&mut id_buf, packet_id);
    proof {
        lemma_varint_round_trip(packet_id, Seq::empty());
    }
    let total: i32 = (id_buf.len() + payload.len()) as i32;
    let mut out: Vec<u8> = Vec::new();
    write_varint(&mut out, total);
    out.append(&mut id_buf);
    let mut tail = slice_to_vec(payload);
    out.append(&mut tail);
    out
}

/// Ghost outcome of unframing a packet from the front of a buffer.
pub enum PacketScan {
    Done { packet_id: i32, payload: Seq<u8>, consumed: int },
    Incomplete,
    Failed(Error),
}

/// Split a packet body (the declared-length span) into id and payload.
/// A body too short to hold its own id varint is an underflowing length.
pub open spec fn spec_parse_packet_body(body: Seq<u8>) -> Result<(i32, Seq<u8>), Error> {
    match spec_read_varint(body) {
        VarintStatus::Done { value, length } => Ok((value, body.skip(length as int))),
        VarintStatus::NeedMore => Err(Error::ProtocolError),
        VarintStatus::Malformed => Err(Error::MalformedVarint),
    }
}

/// What unframing a packet from the front of `s` yields.
pub open spec fn spec_read_packet(s: Seq<u8>) -> PacketScan {
    match spec_read_varint(s) {
        VarintStatus::NeedMore => PacketScan::Incomplete,
        VarintStatus::Malformed => PacketScan::Failed(Error::MalformedVarint),
        VarintStatus::Done { value: len, length: n } => {
            if len < 0 {
                PacketScan::Failed(Error::ProtocolError)
            } else if s.len() < n + len {
                PacketScan::Incomplete
            } else {
                match spec_parse_packet_body(s.subrange(n as int, n + len)) {
                    Ok((id, payload)) => PacketScan::Done {
                        packet_id: id,
                        payload,
                        consumed: n + len,
                    },
                    Err(e) => PacketScan::Failed(e),
                }
            }
        },
    }
}

/// Outcome of unframing a packet from the front of a buffer.
#[derive(Debug)]
pub enum PacketStatus {
    /// A whole packet: its id, its payload, and the bytes it occupied.
    Done { packet_id: i32, payload: Vec<u8>, consumed: usize },
    /// The buffer ends before the declared length is satisfied.
    NeedMore,
    /// The framing is invalid: a bad length varint or an underflowing length.
    Failed(Error),
}

/// The exec unframing result agrees with the ghost one.
pub open spec fn packet_status_matches(r: PacketStatus, g: PacketScan) -> bool {
    match r {
        PacketStatus::Done { packet_id, payload, consumed } => g matches PacketScan::Done {
            packet_id: gi,
            payload: gp,
            consumed: gc,
        } && packet_id == gi && payload@ == gp && consumed == gc,
        PacketStatus::NeedMore => g is Incomplete,
        PacketStatus::Failed(e) => g matches PacketScan::Failed(ge) && e == ge,
    }
}

/// Split a packet body into its id varint and the remaining payload.
pub fn parse_packet_body(body: &[u8]) -> (r: Result<(i32, Vec<u8>), Error>)
    ensures
        ({
            let g = spec_parse_packet_body(body@);
            match r {
                Ok((id, payload)) => g matches Ok((gi, gp)) && id == gi && payload@ == gp,
                Err(e) => g matches Err(ge) && e == ge,
            }
        }),
{
    proof {
        assert(body@.skip(0) =~= body@);
        lemma_read_varint_bounds(body@);
    }
    match read_varint(body, 0) {
        VarintStatus::Done { value, length } => {
            let payload = slice_to_vec(slice_subrange(body, length, body.len()));
            Ok((value, payload))
        },
        VarintStatus::NeedMore => Err(Error::ProtocolError),
        VarintStatus::Malformed => Err(Error::MalformedVarint),
    }
}

/// Unframe one packet from the front of `data`.
pub fn read_packet(data: &[u8]) -> (r: PacketStatus)
    ensures
        packet_status_matches(r, spec_read_packet(data@)),
{
    proof {
        assert(data@.skip(0) =~= data@);
        lemma_read_varint_bounds(data@);
    }
    match read_varint(data, 0) {
        VarintStatus::NeedMore => PacketStatus::NeedMore,
        VarintStatus::Malformed => PacketStatus::Failed(Error::MalformedVarint),
        VarintStatus::Done { value, length } => {
            if value < 0 {
                PacketStatus::Failed(Error::ProtocolError)
            } else {
                let body_len = value as usize;
                if data.len() - length < body_len {
                    PacketStatus::NeedMore
                } else {
                    let body = slice_subrange(data, length, length + body_len);
                    match parse_packet_body(body) {
                        Ok((id, payload)) => PacketStatus::Done {
                            packet_id: id,
                            payload,
                            consumed: length + body_len,
                        },
                        Err(e) => PacketStatus::Failed(e),
                    }
                }
            }
        },
    }
}

/// What handling the status reply packet's body yields: the span of raw
/// JSON bytes, or the failure.  The packet id must be zero; within the
/// payload a varint gives the length of the JSON span, which must fit in
/// what remains.
pub open spec fn spec_parse_status_body(body: Seq<u8>) -> Result<Seq<u8>, Error> {
    match spec_parse_packet_body(body) {
        Err(e) => Err(e),
        Ok((id, payload)) => if id != 0 {
            Err(Error::ProtocolError)
        } else {
            match spec_read_varint(payload) {
                VarintStatus::Done { value: jlen, length: k } => {
                    if jlen < 0 || payload.len() < k + jlen {
                        Err(Error::ProtocolError)
                    } else {
                        Ok(payload.subrange(k as int, k + jlen))
                    }
                },
                VarintStatus::NeedMore => Err(Error::ProtocolError),
                VarintStatus::Malformed => Err(Error::MalformedVarint),
            }
        },
    }
}

/// Extract the raw JSON span from the body of a status reply packet.
pub fn parse_status_body(body: &[u8]) -> (r: Result<Vec<u8>, Error>)
    ensures
        ({
            let g = spec_parse_status_body(body@);
            match r {
                Ok(json) => (g matches Ok(gj) && json@ == gj),
                Err(e) => (g matches Err(ge) && e == ge),
            }
        }),
{
    match parse_packet_body(body) {
        Err(e) => Err(e),
        Ok((id, payload)) => {
            if id != 0 {
                return Err(Error::ProtocolError);
            }
            proof {
                assert(payload@.skip(0) =~= payload@);
                lemma_read_varint_bounds(payload@);
            }
            match read_varint(payload.as_slice(), 0) {
                VarintStatus::Done { value, length } => {
                    if value < 0 {
                        return Err(Error::ProtocolError);
                    }
                    let jlen = value as usize;
                    if payload.len() - length < jlen {
                        return Err(Error::ProtocolError);
                    }
                    let json = slice_to_vec(
                        slice_subrange(payload.as_slice(), length, length + jlen),
                    );
                    Ok(json)
                },
                VarintStatus::NeedMore => Err(Error::ProtocolError),
                VarintStatus::Malformed => Err(Error::MalformedVarint),
            }
        },
    }
}

/// The two-packet opening sequence of a modern status query: a handshake
/// (id 0, protocol version -1, the hostname, the port, next state 1)
/// followed by an empty status request (id 0).
pub open spec fn spec_modern_request(host: Seq<u8>, port: u16) -> Seq<u8> {
    let data = seq![0x00u8, 0xffu8, 0xffu8, 0xffu8, 0xffu8, 0x0fu8] + spec_encode_varint(
        host.len() as i32,
    ) + host + seq![(port / 256) as u8, (port % 256) as u8, 0x01u8];
    spec_encode_varint(data.len() as i32) + data + seq![0x01u8, 0x00u8]
}

/// Build the handshake and status-request packets for one modern attempt.
///
/// The hostname and port are carried verbatim: some server software routes
/// status queries by them, so real values matter even though the reference
/// server ignores them.
pub fn build_latest_request(hostname: &str, port: u16) -> (r: Result<Vec<u8>, Error>)
    requires
        hostname.spec_bytes().len() + 16 <= i32::MAX,
    ensures
        r matches Ok(v) && v@ == spec_modern_request(hostname.spec_bytes(), port),
{
    let host = hostname.as_bytes();
    let mut data: Vec<u8> = Vec::new();
    data.push(0x00);
    data.push(0xff);
    data.push(0xff);
    data.push(0xff);
    data.push(0xff);
    data.push(0x0f);
    write_varint(&mut data, host.len() as i32);
    let mut host_copy = slice_to_vec(host);
    data.append(&mut host_copy);
    data.push((port / 256) as u8);
    data.push((port % 256) as u8);
    data.push(0x01);
    proof {
        lemma_varint_round_trip(host.len() as i32, Seq::empty());
        assert(data@ =~= seq![0x00u8, 0xffu8, 0xffu8, 0xffu8, 0xffu8, 0x0fu8]
            + spec_encode_varint(hostname.spec_bytes().len() as i32) + hostname.spec_bytes()
            + seq![(port / 256) as u8, (port % 256) as u8, 0x01u8]);
    }
    let mut out: Vec<u8> = Vec::new();
    write_varint(&mut out, data.len() as i32);
    out.append(&mut data);
    out.push(0x01);
    out.push(0x00);
    proof {
        assert(out@ =~= spec_modern_request(hostname.spec_bytes(), port));
    }
    Ok(out)
}

/// Law: a packet round-trips through the framer.  Unframing a framed packet
/// yields the same id and payload and consumes the whole frame.
pub proof fn lemma_packet_round_trip(packet_id: i32, payload: Seq<u8>)
    ensures
        ({
            let frame = spec_write_packet(packet_id, payload);
            payload.len() + 5 <= i32::MAX ==> spec_read_packet(frame) == (PacketScan::Done {
                packet_id,
                payload,
                consumed: frame.len() as int,
            })
        }),
{
    if payload.len() + 5 <= i32::MAX {
        let id_enc = spec_encode_varint(packet_id);
        lemma_varint_round_trip(packet_id, Seq::empty());
        let total: i32 = (id_enc.len() + payload.len()) as i32;
        let len_enc = spec_encode_varint(total);
        let frame = spec_write_packet(packet_id, payload);
        assert(frame =~= len_enc + (id_enc + payload));
        lemma_varint_round_trip(total, id_enc + payload);
        let n = len_enc.len() as int;
        assert(frame.subrange(n, n + total) =~= id_enc + payload);
        lemma_varint_round_trip(packet_id, payload);
        assert((id_enc + payload).skip(id_enc.len() as int) =~= payload);
    }
}

} // verus!
