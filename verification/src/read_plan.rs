//! How a read of many bytes is cut into reads of one packet each, and how
//! what the packets return is put together again.

use vstd::prelude::*;
use crate::error::{first_error, lemma_first_error_stable, ReaderError};

verus! {

/// The number of bytes read when the caller names none.
pub const DEFAULT_READ_LENGTH: u16 = 16;

/// The largest number of bytes asked of the card in one command, when the
/// caller names none.
pub const DEFAULT_PACKET_SIZE: u16 = 16;

/// The number of bytes by which block numbers advance in a long read, when the
/// caller names none.
pub const DEFAULT_READ_BLOCK_SIZE: u16 = 4;

/// A read of `length` bytes that starts at `start_block`.
#[derive(Clone, Copy, Debug, PartialEq, Eq, Structural)]
pub struct ReadRequest {
    pub start_block: u16,
    pub length: u16,
    pub block_size: u16,
    pub packet_size: u16,
}

/// One command's worth of a read: `length` bytes at `block`.
#[derive(Clone, Copy, Debug, PartialEq, Eq, Structural)]
pub struct ReadFragment {
    pub block: u16,
    pub length: u16,
}

impl ReadRequest {
    /// Whether one command serves the whole request.
    pub open spec fn is_single(self) -> bool {
        self.length <= self.packet_size
    }

    /// Into how many fragments the request is cut: one if it fits a packet,
    /// else the number of packets that cover it, the last one possibly short.
    pub open spec fn spec_fragment_count(self) -> nat {
        if self.is_single() {
            1
        } else {
            ((self.length + self.packet_size - 1) / (self.packet_size as int)) as nat
        }
    }

    /// The block at which fragment `i` starts.
    pub open spec fn fragment_block(self, i: nat) -> int {
        if i == 0 {
            self.start_block as int
        } else {
            self.start_block + (i * self.packet_size) / (self.block_size as int)
        }
    }

    /// The number of bytes of fragment `i`: a full packet, but for the last
    /// fragment, which takes what is left.
    pub open spec fn fragment_length(self, i: nat) -> int {
        if (i + 1) * self.packet_size < self.length {
            self.packet_size as int
        } else {
            self.length - i * self.packet_size
        }
    }

    /// Whether the request can be cut at all: a request longer than a packet
    /// needs packets and blocks of at least one byte, and its last fragment
    /// must start at a block whose number fits sixteen bits.
    pub open spec fn addressable(self) -> bool {
        !self.is_single() ==> {
            &&& self.packet_size > 0
            &&& self.block_size > 0
            &&& self.fragment_block((self.spec_fragment_count() - 1) as nat) <= u16::MAX
        }
    }

    /// Fragment `i` of the request.
    pub open spec fn spec_fragment(self, i: nat) -> ReadFragment {
        ReadFragment {
            block: self.fragment_block(i) as u16,
            length: self.fragment_length(i) as u16,
        }
    }

    /// The fragments of the request, in the order of the bytes they cover.
    pub open spec fn spec_plan(self) -> Seq<ReadFragment> {
        Seq::new(self.spec_fragment_count(), |i: int| self.spec_fragment(i as nat))
    }

    /// A request for `length` bytes at `block_number`. What the caller leaves
    /// out takes its default: sixteen bytes, in packets of sixteen, with
    /// blocks of four.
    pub fn new(
        block_number: u16,
        length: Option<u16>,
        block_size: Option<u16>,
        packet_size: Option<u16>,
    ) -> (request: ReadRequest)
        ensures
            request.start_block == block_number,
            request.length == match length {
                Some(n) => n,
                None => DEFAULT_READ_LENGTH,
            },
            request.block_size == match block_size {
                Some(n) => n,
                None => DEFAULT_READ_BLOCK_SIZE,
            },
            request.packet_size == match packet_size {
                Some(n) => n,
                None => DEFAULT_PACKET_SIZE,
            },
    {
        ReadRequest {
            start_block: block_number,
            length: match length {
                Some(n) => n,
                None => DEFAULT_READ_LENGTH,
            },
            block_size: match block_size {
                Some(n) => n,
                None => DEFAULT_READ_BLOCK_SIZE,
            },
            packet_size: match packet_size {
                Some(n) => n,
                None => DEFAULT_PACKET_SIZE,
            },
        }
    }

    /// Into how many fragments the request is cut.
    pub fn fragment_count(&self) -> (count: usize)
        requires
            self.is_single() || self.packet_size > 0,
        ensures
            count == self.spec_fragment_count(),
            1 <= count <= u16::MAX,
    {
        if self.length <= self.packet_size {
            1
        } else {
            let length: u32 = self.length as u32;
            let packet: u32 = self.packet_size as u32;
            let count: u32 = (length + packet - 1) / packet;
            proof {
                lemma_packets_cover(self.length as int, self.packet_size as int);
            }
            count as usize
        }
    }

    /// Tests whether the request can be cut into fragments.
    pub fn is_addressable(&self) -> (r: bool)
        ensures
            r == self.addressable(),
    {
        if self.length <= self.packet_size {
            true
        } else if self.packet_size == 0 || self.block_size == 0 {
            false
        } else {
            let last: u32 = (self.fragment_count() - 1) as u32;
            proof {
                lemma_packets_cover(self.length as int, self.packet_size as int);
                let count = self.spec_fragment_count() as int;
                assert(last * self.packet_size < self.length) by (nonlinear_arith)
                    requires
                        last == count - 1,
                        (count - 1) * self.packet_size < self.length,
                ;
            }
            let offset: u32 = (last * (self.packet_size as u32)) / (self.block_size as u32);
            self.start_block as u32 + offset <= 0xFFFF
        }
    }

    /// Fragment `i` of the request.
    pub fn fragment(&self, i: usize) -> (fragment: ReadFragment)
        requires
            self.addressable(),
            i < self.spec_fragment_count(),
        ensures
            fragment == self.spec_fragment(i as nat),
            fragment.block == self.fragment_block(i as nat),
            fragment.length == self.fragment_length(i as nat),
    {
        if self.length <= self.packet_size {
            assert((i + 1) * self.packet_size >= self.length) by (nonlinear_arith)
                requires
                    i == 0,
                    self.packet_size >= self.length,
            ;
            assert(i * self.packet_size == 0) by (nonlinear_arith)
                requires
                    i == 0,
            ;
            ReadFragment { block: self.start_block, length: self.length }
        } else {
            proof {
                lemma_packets_cover(self.length as int, self.packet_size as int);
                lemma_fragment_bounds(*self, i as nat);
                lemma_blocks_ascend(
                    *self,
                    i as nat,
                    (self.spec_fragment_count() - 1) as nat,
                );
            }
            let index: u32 = i as u32;
            let packet: u32 = self.packet_size as u32;
            let length: u32 = self.length as u32;
            let offset: u32 = index * packet;
            let block: u32 = self.start_block as u32 + offset / (self.block_size as u32);
            let size: u32 = if offset + packet < length {
                packet
            } else {
                length - offset
            };
            assert((i + 1) * self.packet_size == i * self.packet_size + self.packet_size)
                by (nonlinear_arith);
            ReadFragment { block: block as u16, length: size as u16 }
        }
    }

    /// Cuts the request into its fragments, in the order of the bytes they
    /// cover.
    pub fn plan(&self) -> (fragments: Vec<ReadFragment>)
        requires
            self.addressable(),
        ensures
            fragments@ == self.spec_plan(),
    {
        let count = self.fragment_count();
        let mut fragments: Vec<ReadFragment> = Vec::new();
        let mut i: usize = 0;
        while i < count
            invariant
                self.addressable(),
                count == self.spec_fragment_count(),
                i <= count,
                fragments@.len() == i,
                forall|j: int| 0 <= j < i ==> fragments@[j] == self.spec_fragment(j as nat),
            decreases count - i,
        {
            fragments.push(self.fragment(i));
            i += 1;
        }
        assert(fragments@ =~= self.spec_plan());
        fragments
    }
}

/// With packets of `packet` bytes, `count = ceil(length / packet)` packets
/// cover `length` bytes and one packet fewer does not.
pub proof fn lemma_packets_cover(length: int, packet: int)
    requires
        0 < packet < length,
    ensures
        ({
            let count = (length + packet - 1) / packet;
            &&& 2 <= count <= length
            &&& (count - 1) * packet < length <= count * packet
        }),
{
    let count = (length + packet - 1) / packet;
    vstd::arithmetic::div_mod::lemma_fundamental_div_mod(length + packet - 1, packet);
    vstd::arithmetic::div_mod::lemma_mod_bound(length + packet - 1, packet);
    let rest = (length + packet - 1) % packet;
    assert(length + packet - 1 == packet * count + rest);
    assert((count - 1) * packet == packet * count - packet) by (nonlinear_arith);
    assert(count * packet == packet * count) by (nonlinear_arith);
    assert(count >= 2) by (nonlinear_arith)
        requires
            packet * count + rest == length + packet - 1,
            0 <= rest < packet,
            length > packet,
            packet > 0,
    ;
    assert(count <= length) by (nonlinear_arith)
        requires
            packet * count <= length + packet - 1,
            packet >= 1,
            count >= 2,
            length > packet,
    ;
}

/// In a request longer than a packet, every fragment starts inside the
/// request and holds between one byte and a packet.
pub proof fn lemma_fragment_bounds(request: ReadRequest, i: nat)
    requires
        !request.is_single(),
        request.packet_size > 0,
        i < request.spec_fragment_count(),
    ensures
        0 <= i * request.packet_size < request.length,
        1 <= request.fragment_length(i) <= request.packet_size,
        i + 1 < request.spec_fragment_count() ==> request.fragment_length(i)
            == request.packet_size,
        i + 1 == request.spec_fragment_count() ==> request.fragment_length(i) == request.length
            - i * request.packet_size,
{
    let packet = request.packet_size as int;
    let length = request.length as int;
    let count = request.spec_fragment_count() as int;
    lemma_packets_cover(length, packet);
    assert(i * packet <= (count - 1) * packet) by (nonlinear_arith)
        requires
            0 <= i <= count - 1,
            packet > 0,
    ;
    assert(0 <= i * packet) by (nonlinear_arith)
        requires
            0 <= i,
            packet > 0,
    ;
    assert((i + 1) * packet == i * packet + packet) by (nonlinear_arith);
    if i + 1 < count {
        assert((i + 1) * packet <= (count - 1) * packet) by (nonlinear_arith)
            requires
                i + 1 <= count - 1,
                packet > 0,
        ;
    } else {
        assert((i + 1) * packet == count * packet);
    }
}

/// No fragment is cut again: every fragment fits a packet, so that, taken as
/// a request of its own, it is served by one command.
pub proof fn lemma_fragment_is_single(request: ReadRequest, i: nat)
    requires
        request.is_single() || request.packet_size > 0,
        i < request.spec_fragment_count(),
    ensures
        0 <= request.fragment_length(i) <= request.packet_size,
        (ReadRequest {
            start_block: request.spec_fragment(i).block,
            length: request.spec_fragment(i).length,
            block_size: request.block_size,
            packet_size: request.packet_size,
        }).spec_fragment_count() == 1,
{
    if request.is_single() {
        assert(i * request.packet_size == 0) by (nonlinear_arith)
            requires
                i == 0,
        ;
        assert((i + 1) * request.packet_size == request.packet_size) by (nonlinear_arith)
            requires
                i == 0,
        ;
    } else {
        lemma_fragment_bounds(request, i);
    }
}

/// Where a packet holds a whole number of blocks, every fragment starts at
/// the block that follows the blocks of the fragments before it.
pub proof fn lemma_aligned_packets_address_blocks(request: ReadRequest, i: nat)
    requires
        request.block_size > 0,
        request.packet_size % request.block_size == 0,
    ensures
        request.fragment_block(i) == request.start_block + i * ((request.packet_size as int)
            / (request.block_size as int)),
{
    let packet = request.packet_size as int;
    let block = request.block_size as int;
    let per_packet = packet / block;
    vstd::arithmetic::div_mod::lemma_fundamental_div_mod(packet, block);
    assert(i * packet == block * (i * per_packet)) by (nonlinear_arith)
        requires
            packet == block * per_packet,
    ;
    vstd::arithmetic::div_mod::lemma_div_multiples_vanish(i * per_packet, block);
    assert(0 * per_packet == 0) by (nonlinear_arith);
}

/// Later fragments start at later (or the same) blocks.
pub proof fn lemma_blocks_ascend(request: ReadRequest, i: nat, j: nat)
    requires
        request.block_size > 0,
        i <= j,
    ensures
        request.start_block <= request.fragment_block(i) <= request.fragment_block(j),
{
    let packet = request.packet_size as int;
    let block = request.block_size as int;
    assert(0 <= i * packet <= j * packet) by (nonlinear_arith)
        requires
            0 <= i <= j,
            0 <= packet,
    ;
    vstd::arithmetic::div_mod::lemma_div_is_ordered(i * packet, j * packet, block);
    vstd::arithmetic::div_mod::lemma_div_is_ordered(0, i * packet, block);
    assert(0int / block == 0) by (nonlinear_arith)
        requires
            block > 0,
    ;
}

/// The bytes of the successful results, one after the other in the order of
/// the results.
pub open spec fn joined(results: Seq<Result<Vec<u8>, ReaderError>>) -> Seq<u8>
    decreases results.len(),
{
    if results.len() == 0 {
        Seq::empty()
    } else {
        joined(results.drop_last()) + match results.last() {
            Ok(data) => data@,
            Err(_) => Seq::empty(),
        }
    }
}

/// Puts together what the fragments of a read returned. `results` holds the
/// outcome of each fragment, in the order of the plan. If a fragment failed,
/// the failure of the earliest such fragment is the outcome of the read;
/// otherwise the read returns the bytes of all fragments in plan order.
pub fn assemble_read(results: &Vec<Result<Vec<u8>, ReaderError>>) -> (r: Result<
    Vec<u8>,
    ReaderError,
>)
    ensures
        match r {
            Ok(data) => first_error(results@) is None && data@ == joined(results@),
            Err(e) => first_error(results@) == Some(e@),
        },
{
    let mut data: Vec<u8> = Vec::new();
    let mut i: usize = 0;
    while i < results.len()
        invariant
            i <= results@.len(),
            first_error(results@.take(i as int)) is None,
            data@ == joined(results@.take(i as int)),
        decreases results@.len() - i,
    {
        assert(results@.take(i + 1).drop_last() =~= results@.take(i as int));
        assert(results@.take(i + 1).last() == results@[i as int]);
        match &results[i] {
            Ok(part) => {
                let mut k: usize = 0;
                let ghost before = data@;
                while k < part.len()
                    invariant
                        k <= part@.len(),
                        data@ == before + part@.subrange(0, k as int),
                    decreases part@.len() - k,
                {
                    data.push(part[k]);
                    k += 1;
                    assert(data@ =~= before + part@.subrange(0, k as int));
                }
                assert(part@.subrange(0, k as int) =~= part@);
            },
            Err(e) => {
                proof {
                    lemma_first_error_stable(results@, i + 1);
                }
                return Err(e.duplicate());
            },
        }
        i += 1;
    }
    assert(results@.take(i as int) =~= results@);
    Ok(data)
}

/// The number of bytes that the first `upto` fragments of a request cover.
pub open spec fn covered(request: ReadRequest, upto: nat) -> int {
    if upto * request.packet_size < request.length {
        upto * request.packet_size
    } else {
        request.length as int
    }
}

/// Whether `results` is what the fragments of `request` return when the card
/// holds `source` from the first block of the request on: fragment `i`
/// succeeds with the bytes of `source` that it covers.
pub open spec fn reads_of(
    request: ReadRequest,
    source: Seq<u8>,
    results: Seq<Result<Vec<u8>, ReaderError>>,
) -> bool {
    &&& results.len() == request.spec_fragment_count()
    &&& forall|i: int|
        0 <= i < results.len() ==> ((#[trigger] results[i]) matches Ok(part) && part@
            == source.subrange(covered(request, i as nat), covered(request, (i + 1) as nat)))
}

/// The fragments of a request cover its bytes without gap or overlap:
/// fragment `i` holds the bytes from `covered(i)` up to `covered(i + 1)`, the
/// first starts at zero and the last ends at the length of the request.
pub proof fn lemma_fragments_tile(request: ReadRequest, i: nat)
    requires
        request.is_single() || request.packet_size > 0,
        i < request.spec_fragment_count(),
    ensures
        covered(request, 0) == 0,
        covered(request, request.spec_fragment_count()) == request.length,
        0 <= covered(request, i) <= covered(request, i + 1) <= request.length,
        covered(request, i + 1) - covered(request, i) == request.fragment_length(i),
{
    let packet = request.packet_size as int;
    let length = request.length as int;
    let count = request.spec_fragment_count() as int;
    assert(0 * packet == 0) by (nonlinear_arith);
    assert((i + 1) * packet == i * packet + packet) by (nonlinear_arith);
    if request.is_single() {
        assert(1 * packet == packet) by (nonlinear_arith);
    } else {
        lemma_packets_cover(length, packet);
        lemma_fragment_bounds(request, i);
    }
}

/// Reassembly keeps the order of the bytes: if every fragment returns the
/// bytes of `source` that it covers, the read returns the first `length`
/// bytes of `source`, with no failure.
pub proof fn lemma_reassembly_preserves_order(
    request: ReadRequest,
    source: Seq<u8>,
    results: Seq<Result<Vec<u8>, ReaderError>>,
)
    requires
        request.is_single() || request.packet_size > 0,
        request.length <= source.len(),
        reads_of(request, source, results),
    ensures
        first_error(results) is None,
        joined(results) == source.take(request.length as int),
{
    lemma_reassembly_prefix(request, source, results, results.len() as nat);
    assert(results.take(results.len() as int) =~= results);
    if !request.is_single() {
        lemma_packets_cover(request.length as int, request.packet_size as int);
    }
    lemma_fragments_tile(request, 0);
}

proof fn lemma_reassembly_prefix(
    request: ReadRequest,
    source: Seq<u8>,
    results: Seq<Result<Vec<u8>, ReaderError>>,
    upto: nat,
)
    requires
        request.is_single() || request.packet_size > 0,
        request.length <= source.len(),
        reads_of(request, source, results),
        upto <= results.len(),
    ensures
        first_error(results.take(upto as int)) is None,
        joined(results.take(upto as int)) == source.take(covered(request, upto)),
    decreases upto,
{
    if !request.is_single() {
        lemma_packets_cover(request.length as int, request.packet_size as int);
    }
    lemma_fragments_tile(request, 0);
    if upto == 0 {
        assert(joined(results.take(0)) =~= source.take(0));
    } else {
        let before = (upto - 1) as nat;
        lemma_reassembly_prefix(request, source, results, before);
        lemma_fragments_tile(request, before);
        assert(results.take(upto as int).drop_last() =~= results.take(before as int));
        assert(results.take(upto as int).last() == results[before as int]);
        assert(source.take(covered(request, before)) + source.subrange(
            covered(request, before),
            covered(request, upto),
        ) =~= source.take(covered(request, upto)));
    }
}

} // verus!
