//! SSDV packets and packet formats.
//!
//! A packet format is described by a flat [`Parameters`] record of byte
//! offsets and lengths; a [`Packet`] is a raw byte buffer of the packet
//! length, read and written through typed accessors that obey the record.
//! The header fields follow the standard SSDV layout from the image id
//! offset on: image id (1 byte), packet id (2 bytes big-endian), then either
//! width and height (systematic packets) or the number of systematic packets
//! (FEC packets, 2 bytes big-endian), flags, and the data payload. The last
//! four bytes of every packet hold a big-endian CRC-32.

use vstd::prelude::*;
use crate::crc::{crc32_range, crc32_spec};

verus! {

/// Flag bit marking the last systematic packet of an image.
pub const FLAG_EOI: u8 = 0x04;

/// Flag bit marking a FEC (parity) packet.
pub const FLAG_FEC: u8 = 0x40;

/// An SSDV packet format: lengths, field offsets, fixed bytes and the CRC-32
/// initial value.
#[derive(Debug, Clone)]
pub struct Parameters {
    /// Total packet length in bytes.
    pub packet_len: usize,
    /// Length of the data payload in bytes.
    pub data_len: usize,
    /// Offset of the byte range covered by the CRC-32.
    pub crc_data_offset: usize,
    /// Length of the byte range covered by the CRC-32.
    pub crc_data_len: usize,
    /// Offset of the callsign field; 0 when the format has none.
    pub callsign_offset: usize,
    /// Length of the callsign field; 0 when the format has none.
    pub callsign_len: usize,
    /// Offset of the image id field, where the standard header layout starts.
    pub image_id_offset: usize,
    /// Initial value of the CRC-32 computation.
    pub crc_init_value: u32,
    /// Bytes with fixed values, written verbatim on every emitted packet.
    pub fixed_bytes: Vec<(usize, u8)>,
}

impl Parameters {
    /// Well-formedness of a format: the header, data and CRC fields fit the
    /// packet exactly, the data length is even (it is processed as 16-bit
    /// words), and every field range lies inside the packet.
    pub open spec fn wf(self) -> bool {
        &&& self.image_id_offset + 6 + self.data_len + 4 == self.packet_len
        &&& self.data_len % 2 == 0
        &&& self.data_len >= 2
        &&& self.crc_data_offset + self.crc_data_len <= self.packet_len - 4
        &&& self.callsign_offset + self.callsign_len <= self.image_id_offset
        &&& forall|i: int|
            0 <= i < self.fixed_bytes@.len() ==> (#[trigger] self.fixed_bytes@[i]).0
                < self.image_id_offset
    }
}

/// An SSDV packet: a raw byte buffer of the packet length of its format.
#[derive(Debug, Clone, Eq, PartialEq)]
pub struct Packet {
    /// The raw packet bytes.
    pub bytes: Vec<u8>,
}

/// The packet id stored in a byte sequence: big-endian 16-bit integer at
/// offsets i+1 and i+2, where i is the image id offset.
pub open spec fn spec_packet_id(bytes: Seq<u8>, p: Parameters) -> u16 {
    ((bytes[p.image_id_offset + 1] as int) * 256 + (bytes[p.image_id_offset + 2] as int)) as u16
}

/// The flags byte stored in a byte sequence.
pub open spec fn spec_flags(bytes: Seq<u8>, p: Parameters) -> u8 {
    bytes[p.image_id_offset + 5]
}

/// Whether the EOI flag is set.
pub open spec fn spec_is_eoi(bytes: Seq<u8>, p: Parameters) -> bool {
    spec_flags(bytes, p) & FLAG_EOI != 0
}

/// Whether the FEC flag is set.
pub open spec fn spec_is_fec(bytes: Seq<u8>, p: Parameters) -> bool {
    spec_flags(bytes, p) & FLAG_FEC != 0
}

/// The data word at word position r: big-endian 16-bit integer at offsets
/// i+6+2r and i+6+2r+1.
pub open spec fn spec_data_word(bytes: Seq<u8>, p: Parameters, r: int) -> u16 {
    ((bytes[p.image_id_offset + 6 + 2 * r] as int) * 256 + (bytes[p.image_id_offset + 6 + 2 * r
        + 1] as int)) as u16
}

/// The stored CRC-32: big-endian 32-bit integer in the last four bytes.
pub open spec fn spec_stored_crc32(bytes: Seq<u8>, p: Parameters) -> u32 {
    (((bytes[p.packet_len - 4] as int) * 0x1000000) + ((bytes[p.packet_len - 3] as int) * 0x10000)
        + ((bytes[p.packet_len - 2] as int) * 0x100) + (bytes[p.packet_len - 1] as int)) as u32
}

/// The CRC-32 computed over the format's CRC range with its initial value.
pub open spec fn spec_computed_crc32(bytes: Seq<u8>, p: Parameters) -> u32 {
    crc32_spec(
        bytes.subrange(p.crc_data_offset as int, p.crc_data_offset + p.crc_data_len),
        p.crc_init_value,
    )
}

/// Whether the stored CRC-32 equals the computed one.
pub open spec fn spec_crc32_is_valid(bytes: Seq<u8>, p: Parameters) -> bool {
    spec_stored_crc32(bytes, p) == spec_computed_crc32(bytes, p)
}

impl Packet {
    /// Well-formedness of a packet for a format: the buffer has exactly the
    /// packet length.
    pub open spec fn wf(self, p: Parameters) -> bool {
        self.bytes@.len() == p.packet_len
    }

    /// A packet of the given format with every byte zero.
    pub fn new_zeroed(p: &Parameters) -> (r: Packet)
        ensures
            r.wf(*p),
            forall|i: int| 0 <= i < p.packet_len ==> r.bytes@[i] == 0u8,
    {
        let mut bytes: Vec<u8> = Vec::new();
        let mut i: usize = 0;
        while i < p.packet_len
            invariant
                bytes@.len() == i,
                i <= p.packet_len,
                forall|j: int| 0 <= j < i ==> bytes@[j] == 0u8,
            decreases p.packet_len - i,
        {
            bytes.push(0);
            i = i + 1;
        }
        Packet { bytes }
    }

    /// A packet holding a copy of the given bytes; rejects a buffer whose
    /// length is not the packet length of the format.
    pub fn new_from_slice(slice: &[u8], p: &Parameters) -> (r: Option<Packet>)
        ensures
            (r is Some) <==> slice@.len() == p.packet_len,
            r is Some ==> (r->Some_0).bytes@ == slice@ && (r->Some_0).wf(*p),
    {
        if slice.len() == p.packet_len {
            let mut bytes: Vec<u8> = Vec::new();
            let mut i: usize = 0;
            while i < slice.len()
                invariant
                    bytes@.len() == i,
                    i <= slice@.len(),
                    forall|j: int| 0 <= j < i ==> bytes@[j] == slice@[j],
                decreases slice@.len() - i,
            {
                bytes.push(slice[i]);
                i = i + 1;
            }
            proof {
                assert(bytes@ =~= slice@);
            }
            Some(Packet { bytes })
        } else {
            None
        }
    }

    /// A copy of this packet with the same bytes.
    pub fn duplicate(&self) -> (r: Packet)
        ensures
            r.bytes@ == self.bytes@,
    {
        let mut bytes: Vec<u8> = Vec::new();
        let mut i: usize = 0;
        while i < self.bytes.len()
            invariant
                bytes@.len() == i,
                i <= self.bytes@.len(),
                forall|j: int| 0 <= j < i ==> bytes@[j] == self.bytes@[j],
            decreases self.bytes@.len() - i,
        {
            bytes.push(self.bytes[i]);
            i = i + 1;
        }
        proof {
            assert(bytes@ =~= self.bytes@);
        }
        Packet { bytes }
    }

    /// The image id field.
    pub fn image_id(&self, p: &Parameters) -> (r: u8)
        requires
            p.wf(),
            self.wf(*p),
        ensures
            r == self.bytes@[p.image_id_offset as int],
    {
        self.bytes[p.image_id_offset]
    }

    /// Sets the image id field.
    pub fn set_image_id(&mut self, p: &Parameters, image_id: u8)
        requires
            p.wf(),
            old(self).wf(*p),
        ensures
            final(self).bytes@ == old(self).bytes@.update(p.image_id_offset as int, image_id),
    {
        self.bytes.set(p.image_id_offset, image_id);
    }

    /// The packet id field, big-endian.
    pub fn packet_id(&self, p: &Parameters) -> (r: u16)
        requires
            p.wf(),
            self.wf(*p),
        ensures
            r == spec_packet_id(self.bytes@, *p),
    {
        (self.bytes[p.image_id_offset + 1] as u16) * 256 + (self.bytes[p.image_id_offset
            + 2] as u16)
    }

    /// Sets the packet id field, big-endian.
    pub fn set_packet_id(&mut self, p: &Parameters, packet_id: u16)
        requires
            p.wf(),
            old(self).wf(*p),
        ensures
            final(self).bytes@ == old(self).bytes@.update(
                p.image_id_offset + 1,
                (packet_id / 256) as u8,
            ).update(p.image_id_offset + 2, (packet_id % 256) as u8),
            spec_packet_id(final(self).bytes@, *p) == packet_id,
            final(self).wf(*p),
    {
        self.bytes.set(p.image_id_offset + 1, (packet_id / 256) as u8);
        self.bytes.set(p.image_id_offset + 2, (packet_id % 256) as u8);
    }

    /// The flags field.
    pub fn flags(&self, p: &Parameters) -> (r: u8)
        requires
            p.wf(),
            self.wf(*p),
        ensures
            r == spec_flags(self.bytes@, *p),
    {
        self.bytes[p.image_id_offset + 5]
    }

    /// Sets the flags field.
    pub fn set_flags(&mut self, p: &Parameters, flags: u8)
        requires
            p.wf(),
            old(self).wf(*p),
        ensures
            final(self).bytes@ == old(self).bytes@.update(p.image_id_offset + 5, flags),
            spec_flags(final(self).bytes@, *p) == flags,
            final(self).wf(*p),
    {
        self.bytes.set(p.image_id_offset + 5, flags);
    }

    /// Whether the EOI flag is set.
    pub fn is_eoi(&self, p: &Parameters) -> (r: bool)
        requires
            p.wf(),
            self.wf(*p),
        ensures
            r == spec_is_eoi(self.bytes@, *p),
    {
        self.flags(p) & FLAG_EOI != 0
    }

    /// Sets the EOI flag, leaving the other flag bits alone.
    pub fn set_eoi(&mut self, p: &Parameters, eoi: bool)
        requires
            p.wf(),
            old(self).wf(*p),
        ensures
            final(self).bytes@ == old(self).bytes@.update(
                p.image_id_offset + 5,
                (spec_flags(old(self).bytes@, *p) & !FLAG_EOI) | (if eoi {
                    FLAG_EOI
                } else {
                    0
                }),
            ),
            final(self).wf(*p),
    {
        let f = self.flags(p);
        self.set_flags(p, (f & !FLAG_EOI) | (if eoi { FLAG_EOI } else { 0 }));
    }

    /// Whether the FEC flag is set.
    pub fn is_fec_packet(&self, p: &Parameters) -> (r: bool)
        requires
            p.wf(),
            self.wf(*p),
        ensures
            r == spec_is_fec(self.bytes@, *p),
    {
        self.flags(p) & FLAG_FEC != 0
    }

    /// Sets the FEC flag, leaving the other flag bits alone.
    pub fn set_fec_packet(&mut self, p: &Parameters, fec: bool)
        requires
            p.wf(),
            old(self).wf(*p),
        ensures
            final(self).bytes@ == old(self).bytes@.update(
                p.image_id_offset + 5,
                (spec_flags(old(self).bytes@, *p) & !FLAG_FEC) | (if fec {
                    FLAG_FEC
                } else {
                    0
                }),
            ),
            final(self).wf(*p),
    {
        let f = self.flags(p);
        self.set_flags(p, (f & !FLAG_FEC) | (if fec { FLAG_FEC } else { 0 }));
    }

    /// The width field, present only on systematic packets.
    pub fn width(&self, p: &Parameters) -> (r: Option<u8>)
        requires
            p.wf(),
            self.wf(*p),
        ensures
            (r is Some) <==> !spec_is_fec(self.bytes@, *p),
            r is Some ==> r->Some_0 == self.bytes@[p.image_id_offset + 3],
    {
        if self.is_fec_packet(p) {
            None
        } else {
            Some(self.bytes[p.image_id_offset + 3])
        }
    }

    /// Sets the width field. Meaningful only on systematic packets.
    pub fn set_width(&mut self, p: &Parameters, width: u8)
        requires
            p.wf(),
            old(self).wf(*p),
        ensures
            final(self).bytes@ == old(self).bytes@.update(p.image_id_offset + 3, width),
            final(self).wf(*p),
    {
        self.bytes.set(p.image_id_offset + 3, width);
    }

    /// The height field, present only on systematic packets.
    pub fn height(&self, p: &Parameters) -> (r: Option<u8>)
        requires
            p.wf(),
            self.wf(*p),
        ensures
            (r is Some) <==> !spec_is_fec(self.bytes@, *p),
            r is Some ==> r->Some_0 == self.bytes@[p.image_id_offset + 4],
    {
        if self.is_fec_packet(p) {
            None
        } else {
            Some(self.bytes[p.image_id_offset + 4])
        }
    }

    /// Sets the height field. Meaningful only on systematic packets.
    pub fn set_height(&mut self, p: &Parameters, height: u8)
        requires
            p.wf(),
            old(self).wf(*p),
        ensures
            final(self).bytes@ == old(self).bytes@.update(p.image_id_offset + 4, height),
            final(self).wf(*p),
    {
        self.bytes.set(p.image_id_offset + 4, height);
    }

    /// The number-of-systematic-packets field, present only on FEC packets,
    /// big-endian in the bytes that otherwise hold width and height.
    pub fn number_systematic_packets(&self, p: &Parameters) -> (r: Option<u16>)
        requires
            p.wf(),
            self.wf(*p),
        ensures
            (r is Some) <==> spec_is_fec(self.bytes@, *p),
            r is Some ==> r->Some_0 == ((self.bytes@[p.image_id_offset + 3] as int) * 256 + (
            self.bytes@[p.image_id_offset + 4] as int)) as u16,
    {
        if self.is_fec_packet(p) {
            Some(
                (self.bytes[p.image_id_offset + 3] as u16) * 256 + (self.bytes[p.image_id_offset
                    + 4] as u16),
            )
        } else {
            None
        }
    }

    /// Sets the number-of-systematic-packets field, big-endian. Meaningful
    /// only on FEC packets.
    pub fn set_number_systematic_packets(&mut self, p: &Parameters, num: u16)
        requires
            p.wf(),
            old(self).wf(*p),
        ensures
            final(self).bytes@ == old(self).bytes@.update(p.image_id_offset + 3, (num / 256) as u8).update(
                p.image_id_offset + 4,
                (num % 256) as u8,
            ),
            final(self).wf(*p),
    {
        self.bytes.set(p.image_id_offset + 3, (num / 256) as u8);
        self.bytes.set(p.image_id_offset + 4, (num % 256) as u8);
    }

    /// The data word at word position r, big-endian.
    pub fn data_word(&self, p: &Parameters, r: usize) -> (w: u16)
        requires
            p.wf(),
            self.wf(*p),
            2 * r + 1 < p.data_len,
        ensures
            w == spec_data_word(self.bytes@, *p, r as int),
    {
        (self.bytes[p.image_id_offset + 6 + 2 * r] as u16) * 256 + (self.bytes[p.image_id_offset
            + 6 + 2 * r + 1] as u16)
    }

    /// Sets the data word at word position r, big-endian.
    pub fn set_data_word(&mut self, p: &Parameters, r: usize, w: u16)
        requires
            p.wf(),
            old(self).wf(*p),
            2 * r + 1 < p.data_len,
        ensures
            final(self).bytes@ == old(self).bytes@.update(
                p.image_id_offset + 6 + 2 * (r as int),
                (w / 256) as u8,
            ).update(p.image_id_offset + 6 + 2 * (r as int) + 1, (w % 256) as u8),
            spec_data_word(final(self).bytes@, *p, r as int) == w,
            final(self).wf(*p),
    {
        self.bytes.set(p.image_id_offset + 6 + 2 * r, (w / 256) as u8);
        self.bytes.set(p.image_id_offset + 6 + 2 * r + 1, (w % 256) as u8);
    }

    /// The stored CRC-32, big-endian in the last four bytes.
    pub fn crc32(&self, p: &Parameters) -> (r: u32)
        requires
            p.wf(),
            self.wf(*p),
        ensures
            r == spec_stored_crc32(self.bytes@, *p),
    {
        (self.bytes[p.packet_len - 4] as u32) * 0x1000000 + (self.bytes[p.packet_len
            - 3] as u32) * 0x10000 + (self.bytes[p.packet_len - 2] as u32) * 0x100
            + (self.bytes[p.packet_len - 1] as u32)
    }

    /// Stores a CRC-32, big-endian in the last four bytes.
    pub fn set_crc32(&mut self, p: &Parameters, crc: u32)
        requires
            p.wf(),
            old(self).wf(*p),
        ensures
            final(self).wf(*p),
            spec_stored_crc32(final(self).bytes@, *p) == crc,
            forall|i: int|
                0 <= i < p.packet_len - 4 ==> final(self).bytes@[i] == old(self).bytes@[i],
    {
        self.bytes.set(p.packet_len - 4, (crc / 0x1000000) as u8);
        self.bytes.set(p.packet_len - 3, ((crc / 0x10000) % 0x100) as u8);
        self.bytes.set(p.packet_len - 2, ((crc / 0x100) % 0x100) as u8);
        self.bytes.set(p.packet_len - 1, (crc % 0x100) as u8);
        proof {
            assert(spec_stored_crc32(self.bytes@, *p) == crc) by {
                assert((crc / 0x1000000) * 0x1000000 + ((crc / 0x10000) % 0x100) * 0x10000 + ((crc
                    / 0x100) % 0x100) * 0x100 + (crc % 0x100) == crc) by (bit_vector);
            }
        }
    }

    /// The CRC-32 computed over the format's CRC range with its initial
    /// value.
    pub fn computed_crc32(&self, p: &Parameters) -> (r: u32)
        requires
            p.wf(),
            self.wf(*p),
        ensures
            r == spec_computed_crc32(self.bytes@, *p),
    {
        crc32_range(
            &self.bytes,
            p.crc_data_offset,
            p.crc_data_offset + p.crc_data_len,
            p.crc_init_value,
        )
    }

    /// Whether the stored CRC-32 equals the computed one.
    pub fn crc32_is_valid(&self, p: &Parameters) -> (r: bool)
        requires
            p.wf(),
            self.wf(*p),
        ensures
            r == spec_crc32_is_valid(self.bytes@, *p),
    {
        self.computed_crc32(p) == self.crc32(p)
    }

    /// Computes the CRC-32 of the packet contents and stores it in the CRC
    /// field.
    pub fn update_crc32(&mut self, p: &Parameters)
        requires
            p.wf(),
            old(self).wf(*p),
        ensures
            final(self).wf(*p),
            spec_stored_crc32(final(self).bytes@, *p) == spec_computed_crc32(old(self).bytes@, *p),
            forall|i: int|
                0 <= i < p.packet_len - 4 ==> final(self).bytes@[i] == old(self).bytes@[i],
    {
        let crc = self.computed_crc32(p);
        self.set_crc32(p, crc);
    }

    /// Writes every fixed byte of the format into the packet, in order.
    pub fn set_fixed_fields(&mut self, p: &Parameters)
        requires
            p.wf(),
            old(self).wf(*p),
        ensures
            final(self).wf(*p),
            final(self).bytes@ == spec_apply_fixed(
                old(self).bytes@,
                p.fixed_bytes@.map_values(|e: (usize, u8)| (e.0 as int, e.1)),
            ),
    {
        let ghost fixed = p.fixed_bytes@.map_values(|e: (usize, u8)| (e.0 as int, e.1));
        let mut i: usize = 0;
        while i < p.fixed_bytes.len()
            invariant
                p.wf(),
                self.wf(*p),
                i <= p.fixed_bytes@.len(),
                fixed == p.fixed_bytes@.map_values(|e: (usize, u8)| (e.0 as int, e.1)),
                self.bytes@ == spec_apply_fixed(old(self).bytes@, fixed.take(i as int)),
            decreases p.fixed_bytes@.len() - i,
        {
            let (off, val) = p.fixed_bytes[i];
            assert(p.fixed_bytes@[i as int].0 < p.packet_len);
            self.bytes.set(off, val);
            proof {
                assert(fixed.take((i + 1) as int).drop_last() =~= fixed.take(i as int));
            }
            i = i + 1;
        }
        proof {
            assert(fixed.take(fixed.len() as int) =~= fixed);
        }
    }

    /// Copies the callsign field from another packet of the same format.
    pub fn copy_callsign_from(&mut self, p: &Parameters, other: &Packet)
        requires
            p.wf(),
            old(self).wf(*p),
            other.wf(*p),
        ensures
            final(self).wf(*p),
            forall|i: int|
                p.callsign_offset <= i < p.callsign_offset + p.callsign_len ==> final(self).bytes@[i]
                    == other.bytes@[i],
            forall|i: int|
                0 <= i < p.packet_len && !(p.callsign_offset <= i < p.callsign_offset
                    + p.callsign_len) ==> final(self).bytes@[i] == old(self).bytes@[i],
    {
        let mut i: usize = p.callsign_offset;
        while i < p.callsign_offset + p.callsign_len
            invariant
                p.wf(),
                self.wf(*p),
                other.wf(*p),
                p.callsign_offset <= i <= p.callsign_offset + p.callsign_len,
                forall|j: int|
                    p.callsign_offset <= j < i ==> self.bytes@[j] == other.bytes@[j],
                forall|j: int|
                    0 <= j < p.packet_len && !(p.callsign_offset <= j < i) ==> self.bytes@[j]
                        == old(self).bytes@[j],
            decreases p.callsign_offset + p.callsign_len - i,
        {
            let b = other.bytes[i];
            self.bytes.set(i, b);
            i = i + 1;
        }
    }
}

/// An all-zero byte sequence of the given length: the state of a freshly
/// allocated packet buffer.
pub open spec fn spec_zeroed_bytes(n: int) -> Seq<u8> {
    Seq::new(n as nat, |i: int| 0u8)
}

/// The fixed bytes of a format as (offset, value) pairs over mathematical
/// integers, in the order they are written.
pub open spec fn spec_fixed_list(p: Parameters) -> Seq<(int, u8)> {
    p.fixed_bytes@.map_values(|e: (usize, u8)| (e.0 as int, e.1))
}

/// A byte sequence with a list of fixed (offset, value) pairs applied in
/// order: later entries win on a repeated offset.
pub open spec fn spec_apply_fixed(bytes: Seq<u8>, fixed: Seq<(int, u8)>) -> Seq<u8>
    decreases fixed.len(),
{
    if fixed.len() == 0 {
        bytes
    } else {
        spec_apply_fixed(bytes, fixed.drop_last()).update(fixed.last().0, fixed.last().1)
    }
}

/// The parameters of the standard 256-byte no-FEC SSDV packet format: sync
/// byte 0x55 and packet type 0x67 as fixed bytes, a 4-byte callsign, and the
/// standard CRC-32 over everything after the sync byte.
pub fn no_fec_parameters() -> (r: Parameters)
    ensures
        r.wf(),
        r.packet_len == 256,
        r.data_len == 240,
        r.crc_data_offset == 1,
        r.crc_data_len == 251,
        r.callsign_offset == 2,
        r.callsign_len == 4,
        r.image_id_offset == 6,
        r.crc_init_value == 0xFFFFFFFFu32,
        r.fixed_bytes@.len() == 2,
        r.fixed_bytes@[0] == ((0usize, 0x55u8)),
        r.fixed_bytes@[1] == ((1usize, 0x67u8)),
{
    let mut fixed_bytes: Vec<(usize, u8)> = Vec::new();
    fixed_bytes.push((0, 0x55));
    fixed_bytes.push((1, 0x67));
    Parameters {
        packet_len: 256,
        data_len: 240,
        crc_data_offset: 1,
        crc_data_len: 251,
        callsign_offset: 2,
        callsign_len: 4,
        image_id_offset: 6,
        crc_init_value: 0xFFFFFFFF,
        fixed_bytes,
    }
}

/// The parameters of the 218-byte Longjiang-2 SSDV packet format: no sync
/// byte, packet type or callsign, and the DSLWP CRC-32 variant over the whole
/// packet but the CRC itself.
pub fn longjiang2_parameters() -> (r: Parameters)
    ensures
        r.wf(),
        r.packet_len == 218,
        r.data_len == 208,
        r.crc_data_offset == 0,
        r.crc_data_len == 214,
        r.callsign_offset == 0,
        r.callsign_len == 0,
        r.image_id_offset == 0,
        r.crc_init_value == crate::crc::CRC32_DSLWP_MAGIC_VALUE,
        r.fixed_bytes@.len() == 0,
{
    Parameters {
        packet_len: 218,
        data_len: 208,
        crc_data_offset: 0,
        crc_data_len: 214,
        callsign_offset: 0,
        callsign_len: 0,
        image_id_offset: 0,
        crc_init_value: crate::crc::CRC32_DSLWP_MAGIC_VALUE,
        fixed_bytes: Vec::new(),
    }
}

} // verus!
