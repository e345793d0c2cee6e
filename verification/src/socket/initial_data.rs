//! Data that travels in the first packet of a connection.

use bytes::Bytes;
use vstd::prelude::*;

use crate::error::Error;

verus! {

/// The sizes that decide how much data the first packet holds, in bytes.
#[derive(Clone, Copy, Debug, PartialEq, Eq, Structural)]
pub struct PacketLimits {
    /// The most data that one data frame carries.
    pub max_payload_size: usize,
    /// The most that one packet holds.
    pub max_packet_size: usize,
    /// The encoded size of the header of a frame that opens a connection.
    pub long_header_size: usize,
    /// The encoded size of the header of a data frame.
    pub short_header_size: usize,
}

/// The number of data frames that `len` bytes take.
pub open spec fn push_frame_count(len: int, limits: PacketLimits) -> int {
    (len + limits.max_payload_size - 1) / (limits.max_payload_size as int)
}

/// The size of the packet that opens a connection and carries `len` bytes. Each
/// frame takes one byte for its command and the size of its header.
pub open spec fn first_packet_size(len: int, limits: PacketLimits) -> int {
    1 + limits.long_header_size + push_frame_count(len, limits) * (1 + limits.short_header_size)
        + len
}

/// Data for the first packet of a connection, which fits into that packet.
#[derive(Debug)]
pub struct InitialData(Bytes);

impl View for InitialData {
    type V = Seq<u8>;

    closed spec fn view(&self) -> Seq<u8> {
        crate::outside::bytes_contents(self.0)
    }
}

impl InitialData {
    /// Takes `data` where a packet that opens a connection and carries it is no
    /// larger than the limit. No data at all is always fine.
    pub fn new(data: &[u8], limits: &PacketLimits) -> (result: Result<Self, Error>)
        requires
            data@.len() > 0 ==> limits.max_payload_size > 0,
            data@.len() > 0 ==> first_packet_size(data@.len() as int, *limits) <= usize::MAX,
        ensures
            match result {
                Ok(initial) => {
                    &&& initial@ == data@
                    &&& data@.len() == 0 || first_packet_size(data@.len() as int, *limits)
                        <= limits.max_packet_size
                },
                Err(e) => {
                    &&& e == Error::InitialDataTooLarge
                    &&& data@.len() > 0
                    &&& first_packet_size(data@.len() as int, *limits) > limits.max_packet_size
                },
            },
    {
        if data.len() == 0 {
            let initial = InitialData(Bytes::new());
            assert(initial@ =~= data@);
            return Ok(initial);
        }
        let ghost len = data@.len() as int;
        let ghost frames = push_frame_count(len, *limits);
        let ghost header = 1 + limits.short_header_size;
        proof {
            let m = limits.max_payload_size as int;
            assert((len + m - 1) / m == (len - 1) / m + 1) by (nonlinear_arith)
                requires
                    m > 0,
                    len > 0,
            ;
            assert((len - 1) / m >= 0) by (nonlinear_arith)
                requires
                    m > 0,
                    len > 0,
            ;
            assert(frames * header >= frames) by (nonlinear_arith)
                requires
                    frames >= 1,
                    header >= 1,
            ;
            assert(frames * header >= header) by (nonlinear_arith)
                requires
                    frames >= 1,
                    header >= 1,
            ;
        }
        let syn_overhead: usize = 1 + limits.long_header_size;
        let num_push_frames: usize = (data.len() - 1) / limits.max_payload_size + 1;
        let push_header_overhead: usize = num_push_frames * (1 + limits.short_header_size);
        let total_size: usize = syn_overhead + push_header_overhead + data.len();
        if total_size > limits.max_packet_size {
            return Err(Error::InitialDataTooLarge);
        }
        Ok(InitialData(Bytes::copy_from_slice(data)))
    }

    /// The data itself.
    pub fn into_bytes(self) -> (bytes: Bytes)
        ensures
            crate::outside::bytes_contents(bytes) == self@,
    {
        self.0
    }
}

} // verus!
