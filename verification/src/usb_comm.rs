//! The command channel over the two bulk endpoints of a mass-storage
//! device: which transfer to make, and what its outcome means. The transfer
//! itself is made by the caller.

use vstd::prelude::*;
use crate::buffer::VecNewtype;
use crate::descriptor::{
    ClassTriple, DeviceDescriptor, Direction, EndpointDiscoveryError, ReadEndpoint, WriteEndpoint,
    duplex_pair, find_duplex_pair,
};

verus! {

/// The interface class of USB mass storage.
pub const MASS_STORAGE_CLASS: u8 = 8;

/// The subclass of the SCSI transparent command set.
pub const SCSI_SUB_CLASS: u8 = 6;

/// The bulk-only transport protocol.
pub const BULK_ONLY_PROTOCOL: u8 = 80;

/// How long one bulk transfer may block unless the channel is told
/// otherwise, in seconds.
pub const TRANSFER_TIMEOUT_SECS: u64 = 30;

/// The class triple of a SCSI bulk-only mass-storage interface.
pub open spec fn bulk_storage_triple() -> ClassTriple {
    ClassTriple { class_code: 8, sub_class_code: 6, protocol_code: 80 }
}

/// Why the physical transport gave up.
#[derive(Clone, Copy, Debug, PartialEq, Eq, Structural)]
pub enum TransportError {
    Timeout,
    Stall,
    DeviceDetached,
}

/// A failed transfer of the channel.
#[derive(Clone, Copy, Debug, PartialEq, Eq, Structural)]
pub struct TransferError {
    pub direction: Direction,
    pub cause: TransportError,
}

/// One bulk transfer to make: on which endpoint, of how many bytes at
/// most, and within how many seconds.
#[derive(Clone, Copy, Debug, PartialEq, Eq, Structural)]
pub struct BulkTransfer {
    pub address: u8,
    pub length: usize,
    pub timeout_secs: u64,
}

/// The channel: the endpoint to pull from, the endpoint to push to, and
/// how long each transfer may block, in seconds.
#[derive(Clone, Copy, Debug, PartialEq, Eq, Structural)]
pub struct UsbClient {
    pub read_endpoint: ReadEndpoint,
    pub write_endpoint: WriteEndpoint,
    pub timeout_secs: u64,
}

/// The first `n` bytes of `staged`, or all of them when there are fewer.
pub open spec fn received(staged: Seq<u8>, n: int) -> Seq<u8> {
    if n <= 0 {
        Seq::<u8>::empty()
    } else if n < staged.len() {
        staged.subrange(0, n)
    } else {
        staged
    }
}

impl UsbClient {
    /// The channel over the given pair of endpoints, with the usual
    /// timeout.
    pub fn new(read_endpoint: ReadEndpoint, write_endpoint: WriteEndpoint) -> (c: UsbClient)
        ensures
            c == (UsbClient { read_endpoint, write_endpoint, timeout_secs: TRANSFER_TIMEOUT_SECS }),
    {
        UsbClient { read_endpoint, write_endpoint, timeout_secs: TRANSFER_TIMEOUT_SECS }
    }

    /// The channel over the given pair of endpoints, with a timeout of
    /// `timeout_secs` seconds.
    pub fn with_timeout(
        read_endpoint: ReadEndpoint,
        write_endpoint: WriteEndpoint,
        timeout_secs: u64,
    ) -> (c: UsbClient)
        ensures
            c == (UsbClient { read_endpoint, write_endpoint, timeout_secs }),
    {
        UsbClient { read_endpoint, write_endpoint, timeout_secs }
    }

    /// The pair of bulk endpoints of a device: its duplex pair for the
    /// class triple of SCSI bulk-only mass storage.
    pub fn find_bulk_endpoints(desc: &DeviceDescriptor) -> (r: Result<
        (ReadEndpoint, WriteEndpoint),
        EndpointDiscoveryError,
    >)
        ensures
            r == duplex_pair(*desc, bulk_storage_triple()),
    {
        find_duplex_pair(
            desc,
            ClassTriple {
                class_code: MASS_STORAGE_CLASS,
                sub_class_code: SCSI_SUB_CLASS,
                protocol_code: BULK_ONLY_PROTOCOL,
            },
        )
    }

    /// The channel of a device: over its pair of bulk endpoints, or the
    /// reason why it has none.
    pub fn from_device(desc: &DeviceDescriptor) -> (r: Result<UsbClient, EndpointDiscoveryError>)
        ensures
            r == (match duplex_pair(*desc, bulk_storage_triple()) {
                Ok(pair) => Ok(
                    UsbClient {
                        read_endpoint: pair.0,
                        write_endpoint: pair.1,
                        timeout_secs: TRANSFER_TIMEOUT_SECS,
                    },
                ),
                Err(e) => Err(e),
            }),
    {
        match UsbClient::find_bulk_endpoints(desc) {
            Ok((rd, wd)) => Ok(UsbClient::new(rd, wd)),
            Err(e) => Err(e),
        }
    }

    /// The configuration to activate before the channel is used.
    pub fn configuration(&self) -> (n: u8)
        ensures
            n == self.read_endpoint.0.config,
    {
        self.read_endpoint.0.config
    }

    /// The interface to claim before the channel is used.
    pub fn interface(&self) -> (n: u8)
        ensures
            n == self.read_endpoint.0.iface,
    {
        self.read_endpoint.0.iface
    }

    /// The transfer that pulls up to `length` bytes.
    pub fn pull_request(&self, length: usize) -> (t: BulkTransfer)
        ensures
            t == (BulkTransfer {
                address: self.read_endpoint.0.address,
                length,
                timeout_secs: self.timeout_secs,
            }),
    {
        BulkTransfer {
            address: self.read_endpoint.0.address,
            length,
            timeout_secs: self.timeout_secs,
        }
    }

    /// The transfer that pushes `length` bytes.
    pub fn push_request(&self, length: usize) -> (t: BulkTransfer)
        ensures
            t == (BulkTransfer {
                address: self.write_endpoint.0.address,
                length,
                timeout_secs: self.timeout_secs,
            }),
    {
        BulkTransfer {
            address: self.write_endpoint.0.address,
            length,
            timeout_secs: self.timeout_secs,
        }
    }

    /// The staging area for one pull into `sink`: as many zero bytes as
    /// the sink advertises capacity.
    pub fn stage_in(&self, sink: &VecNewtype) -> (staged: Vec<u8>)
        ensures
            staged@ == Seq::new(sink.spec_capacity() as nat, |i: int| 0u8),
    {
        let n: usize = sink.capacity();
        let mut staged: Vec<u8> = Vec::new();
        let mut j: usize = 0;
        while j < n
            invariant
                j <= n,
                staged@ == Seq::new(j as nat, |i: int| 0u8),
            decreases n - j,
        {
            staged.push(0u8);
            j = j + 1;
            assert(staged@ =~= Seq::new(j as nat, |i: int| 0u8));
        }
        staged
    }

    /// Completes an inbound transfer. `staged` is the staging area after
    /// the pull and `pulled` what the pull reported. On success the bytes
    /// received are appended to `sink` in order and the count is returned;
    /// on failure `sink` is left as it was.
    pub fn in_transfer(
        &self,
        staged: &Vec<u8>,
        pulled: Result<usize, TransportError>,
        sink: &mut VecNewtype,
    ) -> (r: Result<usize, TransferError>)
        ensures
            final(sink).spec_capacity() == old(sink).spec_capacity(),
            r == (match pulled {
                Ok(n) => Ok(n),
                Err(cause) => Err(TransferError { direction: Direction::In, cause }),
            }),
            final(sink)@ == (match pulled {
                Ok(n) => old(sink)@ + received(staged@, n as int),
                Err(_) => old(sink)@,
            }),
    {
        match pulled {
            Err(cause) => Err(TransferError { direction: Direction::In, cause }),
            Ok(n) => {
                let take: usize = if n < staged.len() {
                    n
                } else {
                    staged.len()
                };
                let mut j: usize = 0;
                while j < take
                    invariant
                        j <= take,
                        take <= staged@.len(),
                        sink.spec_capacity() == old(sink).spec_capacity(),
                        sink@ == old(sink)@ + staged@.subrange(0, j as int),
                    decreases take - j,
                {
                    let _ = sink.push_byte(staged[j]);
                    j = j + 1;
                    assert(sink@ =~= old(sink)@ + staged@.subrange(0, j as int));
                }
                assert(staged@.subrange(0, take as int) =~= received(staged@, n as int));
                Ok(n)
            },
        }
    }

    /// The bytes of one push: everything in `source`, front first. The
    /// source is drained.
    pub fn stage_out(&self, source: &mut VecNewtype) -> (staged: Vec<u8>)
        ensures
            staged@ == old(source)@,
            final(source)@ == Seq::<u8>::empty(),
            final(source).spec_capacity() == old(source).spec_capacity(),
    {
        let mut staged: Vec<u8> = Vec::new();
        while source.size() > 0
            invariant
                source.spec_capacity() == old(source).spec_capacity(),
                staged@ + source@ == old(source)@,
            decreases source@.len(),
        {
            let ghost rest = source@;
            let ghost had = staged@;
            match source.pull_byte() {
                Ok(b) => {
                    staged.push(b);
                    assert(staged@ + source@ =~= had + rest);
                },
                Err(_) => {},
            }
        }
        assert(staged@ =~= staged@ + source@);
        assert(source@ =~= Seq::<u8>::empty());
        staged
    }

    /// Completes an outbound transfer: the count that the push reported,
    /// or its failure.
    pub fn out_transfer(&self, pushed: Result<usize, TransportError>) -> (r: Result<
        usize,
        TransferError,
    >)
        ensures
            r == (match pushed {
                Ok(n) => Ok(n),
                Err(cause) => Err(TransferError { direction: Direction::Out, cause }),
            }),
    {
        match pushed {
            Ok(n) => Ok(n),
            Err(cause) => Err(TransferError { direction: Direction::Out, cause }),
        }
    }
}

} // verus!
