//! The FEC encoder and decoder.
//!
//! The encoder holds the k systematic packets of an SSDV image, transformed
//! in place from data values to Lagrange-weighted values, and generates the
//! packet for any 16-bit packet id: ids below k reproduce the systematic
//! packets, higher ids evaluate the Lagrange interpolation polynomial of the
//! image data at a fresh point of GF(2^16). The decoder takes any set of
//! received packets, drops bad checksums and duplicates, and rebuilds the k
//! systematic packets, interpolating the missing ones from the survivors.

use vstd::prelude::*;
use crate::gf64k::{
    GF64K, gf64k_add, gf64k_mul, gf64k_div, gf64k_from_u16, gf64k_to_u16,
};
use crate::gf256::GF256;
use crate::ssdv::{
    Packet, Parameters, spec_packet_id, spec_flags, spec_is_eoi, spec_is_fec, spec_data_word,
    spec_crc32_is_valid, spec_apply_fixed, spec_zeroed_bytes, spec_fixed_list, FLAG_EOI, FLAG_FEC,
};
use crate::gf64k::{
    lemma_gf64k_u16_roundtrip, lemma_gf64k_mul_nonzero, lemma_gf64k_mul_by_inverse,
    lemma_gf64k_div_mul,
};

verus! {

/// Error produced by the FEC encoder.
#[derive(Debug, Copy, Clone, Eq, PartialEq, Hash, Structural)]
pub enum EncoderError {
    /// The encoder input is empty.
    EmptyInput,
    /// The encoder input is too long.
    TooLongInput,
    /// There is a non-systematic packet in the encoder input.
    NonSystematicInput,
}

/// Error produced by the FEC decoder.
#[derive(Debug, Copy, Clone, Eq, PartialEq, Hash, Structural)]
pub enum DecoderError {
    /// The EOI flag is set on a FEC packet.
    EoiOnFecPacket,
    /// The EOI flag is set on several different systematic packets.
    DuplicatedEoi,
    /// Different FEC packets declare a different number of systematic
    /// packets.
    NumSystematicMismatch,
    /// The number of systematic packets could not be determined: no EOI
    /// packet and no FEC packet survived.
    UnknownNumSystematic,
    /// The packet id carrying the EOI flag contradicts the number of
    /// systematic packets declared by the FEC packets.
    EoiFecMismatch,
    /// Fewer valid distinct packets survived than the image needs.
    NotEnoughInput,
    /// The output buffer is shorter than the image.
    OutputTooShort,
    /// A systematic packet has a packet id at or above the number of
    /// systematic packets.
    WrongSystematicId,
    /// The packets carry more than one image id.
    MultipleImageIds,
    /// The packets disagree on the flag bits outside EOI and FEC.
    InconsistentFlags,
    /// The systematic packets disagree on the image width or height.
    DimensionsMismatch,
    /// No systematic packet survived, so the image dimensions are unknown.
    NoSystematic,
}

/// The zero of GF(2^16).
pub open spec fn gf64k_zero() -> GF64K {
    GF64K(GF256(0), GF256(0))
}

/// The one of GF(2^16).
pub open spec fn gf64k_one() -> GF64K {
    GF64K(GF256(0), GF256(1))
}

/// Equal bytes are the only ones whose sum vanishes: XOR cancellation.
proof fn lemma_xor_cancel()
    by (bit_vector)
    ensures
        forall|a: u8, b: u8| ((#[trigger] (a ^ b)) == 0) == (a == b),
{
}

/// Distinct 16-bit integers map to distinct GF(2^16) elements, so their
/// difference is nonzero.
proof fn lemma_gf64k_from_u16_injective(a: u16, b: u16)
    requires
        a != b,
    ensures
        (gf64k_add(gf64k_from_u16(a), gf64k_from_u16(b))).0.0 != 0 || (gf64k_add(
            gf64k_from_u16(a),
            gf64k_from_u16(b),
        )).1.0 != 0,
{
    lemma_xor_cancel();
    assert(a / 256 != b / 256 || a % 256 != b % 256);
}

/// The partial product of the inverse Lagrange weight for evaluation point j
/// among the points 0..m: the product of (x_j - x_i) over i < m, i != j.
pub open spec fn spec_wj_inv_upto(j: u16, m: int) -> GF64K
    decreases m,
{
    if m <= 0 {
        gf64k_one()
    } else {
        let prev = spec_wj_inv_upto(j, m - 1);
        if m - 1 == j as int {
            prev
        } else {
            gf64k_mul(prev, gf64k_add(gf64k_from_u16(j), gf64k_from_u16((m - 1) as u16)))
        }
    }
}

/// The inverse Lagrange weight for evaluation point j among the points 0..k.
pub open spec fn spec_wj_inv(j: u16, k: u16) -> GF64K {
    spec_wj_inv_upto(j, k as int)
}

/// The Lagrange weight attached to an inverse weight: its reciprocal, or one
/// in the impossible case that the inverse weight vanishes.
pub open spec fn spec_weight_of(wji: GF64K) -> GF64K {
    if wji == gf64k_zero() {
        gf64k_one()
    } else {
        gf64k_div(gf64k_one(), wji)
    }
}

/// Computes the inverse Lagrange weight for evaluation point j among the
/// points 0..k.
pub fn wj_inv(j: u16, k: u16) -> (r: GF64K)
    ensures
        r == (spec_wj_inv(j, k)),
{
    let xj = GF64K::from_u16(j);
    let mut ret = GF64K::from_u16(1);
    let mut m: u16 = 0;
    while m < k
        invariant
            m <= k,
            xj == (gf64k_from_u16(j)),
            ret == (spec_wj_inv_upto(j, m as int)),
        decreases k - m,
    {
        if m != j {
            let xm = GF64K::from_u16(m);
            ret = ret.mul(xj.sub(xm));
        }
        proof {
            assert((m as int + 1 - 1) as u16 == m);
            assert(spec_wj_inv_upto(j, m as int + 1) == (if m as int == j as int {
                spec_wj_inv_upto(j, m as int)
            } else {
                gf64k_mul(
                    spec_wj_inv_upto(j, m as int),
                    gf64k_add(gf64k_from_u16(j), gf64k_from_u16(m)),
                )
            }));
        }
        m = m + 1;
    }
    ret
}

/// The reciprocal of a GF(2^16) element, or one when the element is zero.
fn weight_of(wji: GF64K) -> (r: GF64K)
    ensures
        r == (spec_weight_of(wji)),
{
    if wji.is_zero() {
        GF64K::from_u16(1)
    } else {
        GF64K::from_u16(1).div(wji)
    }
}

/// The data words of `new` are the data words of `orig` multiplied by w, and
/// every byte outside the data field is unchanged.
pub open spec fn spec_data_scaled(
    orig: Seq<u8>,
    new: Seq<u8>,
    p: Parameters,
    w: GF64K,
) -> bool {
    &&& new.len() == orig.len()
    &&& forall|r: int|
        0 <= r < p.data_len / 2 ==> spec_data_word(new, p, r) == gf64k_to_u16(
            gf64k_mul(gf64k_from_u16(#[trigger] spec_data_word(orig, p, r)), w),
        )
    &&& forall|i: int|
        0 <= i < orig.len() && !(p.image_id_offset + 6 <= i < p.image_id_offset + 6
            + p.data_len) ==> new[i] == orig[i]
}

/// Multiplies every data word of the packet by w, in place.
fn scale_packet_data(pkt: &mut Packet, p: &Parameters, w: GF64K)
    requires
        p.wf(),
        old(pkt).wf(*p),
    ensures
        final(pkt).wf(*p),
        spec_data_scaled(old(pkt).bytes@, final(pkt).bytes@, *p, w),
{
    let nwords = p.data_len / 2;
    let mut r: usize = 0;
    while r < nwords
        invariant
            p.wf(),
            pkt.wf(*p),
            r <= nwords,
            nwords == p.data_len / 2,
            pkt.bytes@.len() == old(pkt).bytes@.len(),
            forall|q: int|
                0 <= q < r ==> spec_data_word(pkt.bytes@, *p, q) == gf64k_to_u16(
                    gf64k_mul(gf64k_from_u16(#[trigger] spec_data_word(old(pkt).bytes@, *p, q)), w),
                ),
            forall|q: int|
                r <= q < nwords ==> spec_data_word(pkt.bytes@, *p, q) == spec_data_word(
                    old(pkt).bytes@,
                    *p,
                    q,
                ),
            forall|i: int|
                0 <= i < old(pkt).bytes@.len() && !(p.image_id_offset + 6 <= i < p.image_id_offset
                    + 6 + p.data_len) ==> pkt.bytes@[i] == old(pkt).bytes@[i],
        decreases nwords - r,
    {
        let y = pkt.data_word(p, r);
        let scaled = GF64K::from_u16(y).mul(w);
        pkt.set_data_word(p, r, scaled.to_u16());
        r = r + 1;
    }
}

/// SSDV FEC encoder.
///
/// Holds the systematic packets of one image, with their data transformed to
/// Lagrange-weighted values, and generates any packet of the image by id.
#[derive(Debug)]
pub struct Encoder {
    /// The systematic packets, with Lagrange-weighted data words.
    pub packets: Vec<Packet>,
    /// The packet format.
    pub params: Parameters,
}

impl Encoder {
    /// Well-formedness: a valid format, between 1 and 65535 packets, each of
    /// the packet length.
    pub open spec fn wf(self) -> bool {
        &&& self.params.wf()
        &&& 1 <= self.packets@.len() <= 0xFFFF
        &&& forall|i: int|
            0 <= i < self.packets@.len() ==> (#[trigger] self.packets@[i]).wf(self.params)
    }

    /// The number of systematic packets of the image.
    pub open spec fn spec_num_systematic(self) -> u16 {
        self.packets@.len() as u16
    }

    /// Creates an encoder for the image formed by the given systematic
    /// packets, which must be in ascending id order and without repetitions.
    /// The packet data is transformed in place into Lagrange-weighted values:
    /// the buffer no longer holds a valid SSDV image afterwards.
    ///
    /// Fails with `EmptyInput` on an empty slice, `TooLongInput` on more than
    /// 65535 packets, and `NonSystematicInput` when the first packet has the
    /// FEC flag set (only the first packet is checked).
    pub fn new(systematic_packets: Vec<Packet>, params: Parameters) -> (r: Result<
        Encoder,
        EncoderError,
    >)
        requires
            params.wf(),
            forall|i: int|
                0 <= i < systematic_packets@.len() ==> (#[trigger] systematic_packets@[i]).wf(
                    params,
                ),
        ensures
            (r == Result::<Encoder, EncoderError>::Err(EncoderError::EmptyInput)) <==> (
            systematic_packets@.len() == 0),
            (r == Result::<Encoder, EncoderError>::Err(EncoderError::TooLongInput)) <==> (
            systematic_packets@.len() > 0xFFFF),
            (r == Result::<Encoder, EncoderError>::Err(EncoderError::NonSystematicInput)) <==> (1
                <= systematic_packets@.len() <= 0xFFFF && spec_is_fec(
                systematic_packets@[0].bytes@,
                params,
            )),
            r is Ok ==> {
                let enc = r->Ok_0;
                &&& enc.wf()
                &&& enc.params == params
                &&& enc.packets@.len() == systematic_packets@.len()
                &&& forall|j: int|
                    0 <= j < systematic_packets@.len() ==> spec_data_scaled(
                        (#[trigger] systematic_packets@[j]).bytes@,
                        enc.packets@[j].bytes@,
                        params,
                        spec_weight_of(
                            spec_wj_inv(j as u16, systematic_packets@.len() as u16),
                        ),
                    )
            },
    {
        if systematic_packets.len() == 0 {
            return Err(EncoderError::EmptyInput);
        }
        if systematic_packets.len() > 0xFFFF {
            return Err(EncoderError::TooLongInput);
        }
        if systematic_packets[0].is_fec_packet(&params) {
            return Err(EncoderError::NonSystematicInput);
        }
        let mut encoder = Encoder { packets: systematic_packets, params };
        encoder.values_to_lagrange();
        Ok(encoder)
    }

    /// Replaces every data word y_j of packet j by w_j * y_j, where w_j is
    /// the Lagrange weight of evaluation point j among the points 0..k. This
    /// lets every FEC packet be computed with one pass over the buffer.
    fn values_to_lagrange(&mut self)
        requires
            old(self).wf(),
        ensures
            final(self).wf(),
            final(self).params == old(self).params,
            final(self).packets@.len() == old(self).packets@.len(),
            forall|j: int|
                0 <= j < old(self).packets@.len() ==> spec_data_scaled(
                    (#[trigger] old(self).packets@[j]).bytes@,
                    final(self).packets@[j].bytes@,
                    old(self).params,
                    spec_weight_of(
                        spec_wj_inv(j as u16, old(self).packets@.len() as u16),
                    ),
                ),
    {
        let k = self.num_systematic();
        let ghost params = self.params;
        let mut j: usize = 0;
        while j < self.packets.len()
            invariant
                self.params == params,
                self.wf(),
                j <= self.packets@.len(),
                k == self.packets@.len() as u16,
                self.packets@.len() == old(self).packets@.len(),
                forall|i: int|
                    j <= i < self.packets@.len() ==> self.packets@[i] == old(self).packets@[i],
                forall|i: int|
                    0 <= i < j ==> spec_data_scaled(
                        (#[trigger] old(self).packets@[i]).bytes@,
                        self.packets@[i].bytes@,
                        params,
                        spec_weight_of(spec_wj_inv(i as u16, k)),
                    ),
            decreases self.packets@.len() - j,
        {
            let wji = wj_inv(j as u16, k);
            let wj = weight_of(wji);
            let mut pkt = self.packets[j].duplicate();
            scale_packet_data(&mut pkt, &self.params, wj);
            self.packets.set(j, pkt);
            j = j + 1;
        }
    }

    /// The number of systematic packets of the image.
    pub fn num_systematic(&self) -> (r: u16)
        requires
            self.wf(),
        ensures
            r == self.spec_num_systematic(),
    {
        self.packets.len() as u16
    }

    /// The image id, taken from the first packet.
    pub fn image_id(&self) -> (r: u8)
        requires
            self.wf(),
        ensures
            r == self.packets@[0].bytes@[self.params.image_id_offset as int],
    {
        self.packets[0].image_id(&self.params)
    }

    /// The image width, taken from the first packet.
    pub fn image_width(&self) -> (r: u8)
        requires
            self.wf(),
            !spec_is_fec(self.packets@[0].bytes@, self.params),
        ensures
            r == self.packets@[0].bytes@[self.params.image_id_offset + 3],
    {
        let w = self.packets[0].width(&self.params);
        match w {
            Some(x) => x,
            None => 0,
        }
    }

    /// The image height, taken from the first packet.
    pub fn image_height(&self) -> (r: u8)
        requires
            self.wf(),
            !spec_is_fec(self.packets@[0].bytes@, self.params),
        ensures
            r == self.packets@[0].bytes@[self.params.image_id_offset + 4],
    {
        let h = self.packets[0].height(&self.params);
        match h {
            Some(x) => x,
            None => 0,
        }
    }

    /// The flags byte, taken from the first packet.
    pub fn flags(&self) -> (r: u8)
        requires
            self.wf(),
        ensures
            r == spec_flags(self.packets@[0].bytes@, self.params),
    {
        self.packets[0].flags(&self.params)
    }

    /// Generates the packet with the given packet id into `output`.
    ///
    /// An id below the number of systematic packets reproduces the
    /// corresponding systematic packet; a higher id produces a FEC packet.
    pub fn encode(&self, packet_id: u16, output: &mut Packet)
        requires
            self.wf(),
            old(output).wf(self.params),
        ensures
            final(output).wf(self.params),
            spec_packet_id(final(output).bytes@, self.params) == packet_id,
            final(output).bytes@[self.params.image_id_offset as int]
                == self.packets@[0].bytes@[self.params.image_id_offset as int],
            spec_flags(final(output).bytes@, self.params) == spec_encoded_flags(
                spec_flags(self.packets@[0].bytes@, self.params),
                packet_id,
                self.spec_num_systematic(),
            ),
            spec_is_fec(final(output).bytes@, self.params) == (packet_id
                >= self.spec_num_systematic()),
            spec_is_eoi(final(output).bytes@, self.params) == (packet_id as int
                == self.spec_num_systematic() - 1),
            (packet_id >= self.spec_num_systematic()) ==> final(output).bytes@[
                self.params.image_id_offset + 3] == self.spec_num_systematic() / 256
                && final(output).bytes@[self.params.image_id_offset + 4]
                == self.spec_num_systematic() % 256,
            (packet_id < self.spec_num_systematic()) ==> final(output).bytes@[
                self.params.image_id_offset + 3] == self.packets@[0].bytes@[
                self.params.image_id_offset + 3] && final(output).bytes@[
                self.params.image_id_offset + 4] == self.packets@[0].bytes@[
                self.params.image_id_offset + 4],
            forall|i: int|
                self.params.callsign_offset <= i < self.params.callsign_offset
                    + self.params.callsign_len ==> final(output).bytes@[i]
                    == self.packets@[0].bytes@[i],
            forall|i: int|
                0 <= i < self.params.image_id_offset && !(self.params.callsign_offset <= i
                    < self.params.callsign_offset + self.params.callsign_len) ==> final(output).bytes@[i]
                    == spec_apply_fixed(old(output).bytes@, spec_fixed_list(self.params))[i],
            spec_crc32_is_valid(final(output).bytes@, self.params),
            (packet_id < self.spec_num_systematic()) ==> forall|r: int|
                0 <= r < self.params.data_len / 2 ==> spec_data_word(
                    final(output).bytes@,
                    self.params,
                    r,
                ) == gf64k_to_u16(
                    gf64k_mul(
                        gf64k_from_u16(
                            #[trigger] spec_data_word(
                                self.packets@[packet_id as int].bytes@,
                                self.params,
                                r,
                            ),
                        ),
                        spec_wj_inv(packet_id, self.spec_num_systematic()),
                    ),
                ),
            (packet_id >= self.spec_num_systematic()) ==> forall|r: int|
                0 <= r < self.params.data_len / 2 ==> spec_data_word(
                    final(output).bytes@,
                    self.params,
                    r,
                ) == #[trigger] spec_fec_word(
                    self.packets@,
                    self.params,
                    gf64k_from_u16(packet_id),
                    r,
                    self.spec_num_systematic() as int,
                ),
    {
        self.encode_header(packet_id, output);
        if output.is_fec_packet(&self.params) {
            self.encode_fec_data(packet_id, output);
        } else {
            self.encode_systematic_data(packet_id, output);
        }
        let ghost pre = output.bytes@;
        output.update_crc32(&self.params);
        proof {
            assert(output.bytes@.subrange(
                self.params.crc_data_offset as int,
                self.params.crc_data_offset + self.params.crc_data_len,
            ) =~= pre.subrange(
                self.params.crc_data_offset as int,
                self.params.crc_data_offset + self.params.crc_data_len,
            ));
        }
    }

    /// Writes the header of the packet with the given id: fixed bytes,
    /// callsign, image id, packet id, dimensions or packet count, and flags.
    fn encode_header(&self, packet_id: u16, output: &mut Packet)
        requires
            self.wf(),
            old(output).wf(self.params),
        ensures
            final(output).wf(self.params),
            spec_packet_id(final(output).bytes@, self.params) == packet_id,
            final(output).bytes@[self.params.image_id_offset as int]
                == self.packets@[0].bytes@[self.params.image_id_offset as int],
            spec_flags(final(output).bytes@, self.params) == spec_encoded_flags(
                spec_flags(self.packets@[0].bytes@, self.params),
                packet_id,
                self.spec_num_systematic(),
            ),
            spec_is_fec(final(output).bytes@, self.params) == (packet_id
                >= self.spec_num_systematic()),
            spec_is_eoi(final(output).bytes@, self.params) == (packet_id as int
                == self.spec_num_systematic() - 1),
            (packet_id >= self.spec_num_systematic()) ==> final(output).bytes@[
                self.params.image_id_offset + 3] == self.spec_num_systematic() / 256
                && final(output).bytes@[self.params.image_id_offset + 4]
                == self.spec_num_systematic() % 256,
            (packet_id < self.spec_num_systematic()) ==> final(output).bytes@[
                self.params.image_id_offset + 3] == self.packets@[0].bytes@[
                self.params.image_id_offset + 3] && final(output).bytes@[
                self.params.image_id_offset + 4] == self.packets@[0].bytes@[
                self.params.image_id_offset + 4],
            forall|i: int|
                self.params.callsign_offset <= i < self.params.callsign_offset
                    + self.params.callsign_len ==> final(output).bytes@[i]
                    == self.packets@[0].bytes@[i],
            forall|i: int|
                self.params.image_id_offset + 6 <= i < self.params.packet_len ==> final(output).bytes@[i]
                    == old(output).bytes@[i],
            forall|i: int|
                0 <= i < self.params.image_id_offset && !(self.params.callsign_offset <= i
                    < self.params.callsign_offset + self.params.callsign_len) ==> final(output).bytes@[i]
                    == spec_apply_fixed(old(output).bytes@, spec_fixed_list(self.params))[i],
    {
        let p = &self.params;
        output.set_fixed_fields(p);
        proof {
            let fixedm = spec_fixed_list(self.params);
            assert forall|m: int|
                0 <= m < fixedm.len() implies 0 <= (#[trigger] fixedm[m]).0
                < self.params.image_id_offset by {
                assert(fixedm[m] == ((self.params.fixed_bytes@[m].0 as int,
                self.params.fixed_bytes@[m].1)));
            }
            lemma_apply_fixed_high(
                old(output).bytes@,
                fixedm,
                self.params.image_id_offset as int,
            );
        }
        let first = self.packets[0].duplicate();
        output.copy_callsign_from(p, &first);
        let iid = self.image_id();
        output.set_image_id(p, iid);
        output.set_packet_id(p, packet_id);
        let k = self.num_systematic();
        let is_fec = packet_id >= k;
        if is_fec {
            output.set_number_systematic_packets(p, k);
        } else {
            let w = self.image_width_byte();
            output.set_width(p, w);
            let h = self.image_height_byte();
            output.set_height(p, h);
        }
        let f = self.flags();
        output.set_flags(p, f);
        output.set_eoi(p, packet_id == k - 1);
        output.set_fec_packet(p, is_fec);
        proof {
            lemma_flag_bits();
            broadcast use vstd::seq_lib::group_seq_properties;

        }
    }

    /// The byte at the width position of the first packet.
    fn image_width_byte(&self) -> (r: u8)
        requires
            self.wf(),
        ensures
            r == self.packets@[0].bytes@[self.params.image_id_offset + 3],
    {
        let p = &self.params;
        let pkt = &self.packets[0];
        pkt.bytes[p.image_id_offset + 3]
    }

    /// The byte at the height position of the first packet.
    fn image_height_byte(&self) -> (r: u8)
        requires
            self.wf(),
        ensures
            r == self.packets@[0].bytes@[self.params.image_id_offset + 4],
    {
        let p = &self.params;
        let pkt = &self.packets[0];
        pkt.bytes[p.image_id_offset + 4]
    }

    /// Writes the data of the systematic packet with the given id: every word
    /// of the stored Lagrange-weighted packet multiplied by the inverse
    /// weight, undoing the transformation of `values_to_lagrange`.
    fn encode_systematic_data(&self, packet_id: u16, output: &mut Packet)
        requires
            self.wf(),
            old(output).wf(self.params),
            packet_id < self.spec_num_systematic(),
        ensures
            final(output).wf(self.params),
            forall|r: int|
                0 <= r < self.params.data_len / 2 ==> spec_data_word(
                    final(output).bytes@,
                    self.params,
                    r,
                ) == gf64k_to_u16(
                    gf64k_mul(
                        gf64k_from_u16(
                            #[trigger] spec_data_word(
                                self.packets@[packet_id as int].bytes@,
                                self.params,
                                r,
                            ),
                        ),
                        spec_wj_inv(packet_id, self.spec_num_systematic()),
                    ),
                ),
            forall|i: int|
                0 <= i < old(output).bytes@.len() && !(self.params.image_id_offset + 6 <= i
                    < self.params.image_id_offset + 6 + self.params.data_len) ==> final(output).bytes@[i] == old(output).bytes@[i],
    {
        let p = &self.params;
        let wjinv = wj_inv(packet_id, self.num_systematic());
        let nwords = p.data_len / 2;
        let mut r: usize = 0;
        while r < nwords
            invariant
                self.wf(),
                *p == self.params,
                output.wf(self.params),
                packet_id < self.spec_num_systematic(),
                r <= nwords,
                nwords == self.params.data_len / 2,
                wjinv == (spec_wj_inv(packet_id, self.spec_num_systematic())),
                output.bytes@.len() == old(output).bytes@.len(),
                forall|q: int|
                    0 <= q < r ==> spec_data_word(output.bytes@, self.params, q) == gf64k_to_u16(
                        gf64k_mul(
                            gf64k_from_u16(
                                #[trigger] spec_data_word(
                                    self.packets@[packet_id as int].bytes@,
                                    self.params,
                                    q,
                                ),
                            ),
                            wjinv,
                        ),
                    ),
                forall|i: int|
                    0 <= i < old(output).bytes@.len() && !(self.params.image_id_offset + 6 <= i
                        < self.params.image_id_offset + 6 + self.params.data_len) ==> output.bytes@[
                        i] == old(output).bytes@[i],
            decreases nwords - r,
        {
            let pkt = &self.packets[packet_id as usize];
            let wj_yj = pkt.data_word(p, r);
            let yj = GF64K::from_u16(wj_yj).mul(wjinv);
            output.set_data_word(p, r, yj.to_u16());
            r = r + 1;
        }
    }

    /// Writes the data of the FEC packet with the given id: the Lagrange
    /// interpolation polynomial of the image data evaluated at the point of
    /// GF(2^16) attached to the id.
    fn encode_fec_data(&self, packet_id: u16, output: &mut Packet)
        requires
            self.wf(),
            old(output).wf(self.params),
            packet_id >= self.spec_num_systematic(),
        ensures
            final(output).wf(self.params),
            forall|r: int|
                0 <= r < self.params.data_len / 2 ==> spec_data_word(
                    final(output).bytes@,
                    self.params,
                    r,
                ) == #[trigger] spec_fec_word(
                    self.packets@,
                    self.params,
                    gf64k_from_u16(packet_id),
                    r,
                    self.spec_num_systematic() as int,
                ),
            forall|i: int|
                0 <= i < old(output).bytes@.len() && !(self.params.image_id_offset + 6 <= i
                    < self.params.image_id_offset + 6 + self.params.data_len) ==> final(output).bytes@[i] == old(output).bytes@[i],
    {
        let p = &self.params;
        let x = GF64K::from_u16(packet_id);
        let k = self.num_systematic();
        // Compute l(x), the product of (x - x_j) over the evaluation points.
        let mut lx = GF64K::from_u16(1);
        let mut j: u16 = 0;
        while j < k
            invariant
                self.wf(),
                k == self.spec_num_systematic(),
                j <= k,
                x == (gf64k_from_u16(packet_id)),
                lx == (spec_lx_upto(x, j as int)),
            decreases k - j,
        {
            let xj = GF64K::from_u16(j);
            lx = lx.mul(x.sub(xj));
            j = j + 1;
        }
        let ghost pkts_bytes = self.packets@.map_values(|pk: Packet| pk.bytes@);
        let nwords = p.data_len / 2;
        let mut r: usize = 0;
        while r < nwords
            invariant
                self.wf(),
                *p == self.params,
                output.wf(self.params),
                packet_id >= self.spec_num_systematic(),
                k == self.spec_num_systematic(),
                r <= nwords,
                nwords == self.params.data_len / 2,
                x == (gf64k_from_u16(packet_id)),
                lx == (spec_lx_upto(x, k as int)),
                pkts_bytes == self.packets@.map_values(|pk: Packet| pk.bytes@),
                output.bytes@.len() == old(output).bytes@.len(),
                forall|q: int|
                    0 <= q < r ==> spec_data_word(output.bytes@, self.params, q) == gf64k_to_u16(
                        gf64k_mul(
                            lx,
                            #[trigger] spec_fec_sum_upto(pkts_bytes, self.params, x, q, k as int),
                        ),
                    ),
                forall|i: int|
                    0 <= i < old(output).bytes@.len() && !(self.params.image_id_offset + 6 <= i
                        < self.params.image_id_offset + 6 + self.params.data_len) ==> output.bytes@[
                        i] == old(output).bytes@[i],
            decreases nwords - r,
        {
            let mut sum = GF64K::from_u16(0);
            let mut j: u16 = 0;
            while j < k
                invariant
                    self.wf(),
                    *p == self.params,
                    packet_id >= self.spec_num_systematic(),
                    k == self.spec_num_systematic(),
                    j <= k,
                    r < nwords,
                    nwords == self.params.data_len / 2,
                    x == (gf64k_from_u16(packet_id)),
                    pkts_bytes == self.packets@.map_values(|pk: Packet| pk.bytes@),
                    sum == (spec_fec_sum_upto(pkts_bytes, self.params, x, r as int, j as int)),
                decreases k - j,
            {
                let pkt = &self.packets[j as usize];
                let wj_yj = GF64K::from_u16(pkt.data_word(&self.params, r));
                let xj = GF64K::from_u16(j);
                let d = x.sub(xj);
                proof {
                    lemma_gf64k_from_u16_injective(packet_id, j);
                }
                let term = if d.is_zero() {
                    GF64K::from_u16(0)
                } else {
                    wj_yj.div(d)
                };
                sum = sum.add(term);
                j = j + 1;
            }
            let result = lx.mul(sum);
            let ghost prev_bytes = output.bytes@;
            output.set_data_word(p, r, result.to_u16());
            proof {
                assert forall|q: int|
                    0 <= q < r implies spec_data_word(output.bytes@, self.params, q)
                    == spec_data_word(prev_bytes, self.params, q) by {
                }
                assert(sum == (spec_fec_sum_upto(pkts_bytes, self.params, x, r as int, k as int)));
                assert(spec_data_word(output.bytes@, self.params, r as int) == gf64k_to_u16(
                    gf64k_mul(lx, spec_fec_sum_upto(pkts_bytes, self.params, x, r as int, k as int)),
                ));
                assert(spec_data_word(output.bytes@, self.params, r as int)
                    == spec_fec_word(self.packets@, self.params, x, r as int, k as int));
            }
            r = r + 1;
        }
    }
}

/// The data word of a FEC packet at word position r: the Lagrange
/// interpolation polynomial of the stored packets' weighted words at
/// position r, evaluated at the point x outside the evaluation set.
pub open spec fn spec_fec_word(
    packets: Seq<Packet>,
    p: Parameters,
    x: GF64K,
    r: int,
    k: int,
) -> u16 {
    gf64k_to_u16(
        gf64k_mul(
            spec_lx_upto(x, k),
            spec_fec_sum_upto(packets.map_values(|pk: Packet| pk.bytes@), p, x, r, k),
        ),
    )
}

/// Applying fixed bytes below a bound leaves the length and the bytes at
/// and above the bound unchanged.
proof fn lemma_apply_fixed_high(bytes: Seq<u8>, fixed: Seq<(int, u8)>, lo: int)
    requires
        lo <= bytes.len(),
        forall|m: int| 0 <= m < fixed.len() ==> 0 <= (#[trigger] fixed[m]).0 < lo,
    ensures
        spec_apply_fixed(bytes, fixed).len() == bytes.len(),
        forall|i: int|
            lo <= i < bytes.len() ==> spec_apply_fixed(bytes, fixed)[i] == bytes[i],
    decreases fixed.len(),
{
    if fixed.len() > 0 {
        assert(fixed.drop_last().len() == fixed.len() - 1);
        lemma_apply_fixed_high(bytes, fixed.drop_last(), lo);
    }
}

/// The flags byte of an encoded packet: the flags of the first systematic
/// packet, with the EOI bit set exactly when the id is the last systematic
/// one and the FEC bit set exactly when the id is at or past the number of
/// systematic packets.
pub open spec fn spec_encoded_flags(flags0: u8, packet_id: u16, k: u16) -> u8 {
    let with_eoi = (flags0 & !FLAG_EOI) | (if packet_id as int == k - 1 {
        FLAG_EOI
    } else {
        0
    });
    (with_eoi & !FLAG_FEC) | (if packet_id >= k {
        FLAG_FEC
    } else {
        0
    })
}

/// The partial product of l(x): the product of (x - x_j) over the evaluation
/// points j in 0..m.
pub open spec fn spec_lx_upto(x: GF64K, m: int) -> GF64K
    decreases m,
{
    if m <= 0 {
        gf64k_one()
    } else {
        gf64k_mul(spec_lx_upto(x, m - 1), gf64k_add(x, gf64k_from_u16((m - 1) as u16)))
    }
}

/// The partial sum of the Lagrange evaluation at x: the sum over j in 0..m
/// of the stored word of packet j at position r, divided by (x - x_j); a
/// vanishing denominator contributes zero.
pub open spec fn spec_fec_sum_upto(
    pkts: Seq<Seq<u8>>,
    p: Parameters,
    x: GF64K,
    r: int,
    m: int,
) -> GF64K
    decreases m,
{
    if m <= 0 {
        gf64k_zero()
    } else {
        let d = gf64k_add(x, gf64k_from_u16((m - 1) as u16));
        let term = if d == gf64k_zero() {
            gf64k_zero()
        } else {
            gf64k_div(gf64k_from_u16(spec_data_word(pkts[m - 1], p, r)), d)
        };
        gf64k_add(spec_fec_sum_upto(pkts, p, x, r, m - 1), term)
    }
}

/// The survivors of a received packet list: packets with a valid CRC whose
/// packet id differs from the id of every earlier survivor (first wins).
pub open spec fn spec_sanitize(pkts: Seq<Seq<u8>>, p: Parameters) -> Seq<Seq<u8>>
    decreases pkts.len(),
{
    if pkts.len() == 0 {
        Seq::empty()
    } else {
        let prev = spec_sanitize(pkts.drop_last(), p);
        let last = pkts.last();
        if spec_crc32_is_valid(last, p) && (forall|i: int|
            0 <= i < prev.len() ==> spec_packet_id(#[trigger] prev[i], p) != spec_packet_id(
                last,
                p,
            )) {
            prev.push(last)
        } else {
            prev
        }
    }
}

/// The forward scan of the survivors that determines the number of
/// systematic packets: collects the id of the EOI packet and the common
/// packet count declared by the FEC packets, failing on an EOI flag on a FEC
/// packet, a second EOI packet, or FEC packets that disagree.
pub open spec fn spec_scan_num(sv: Seq<Seq<u8>>, p: Parameters) -> Result<
    (Option<u16>, Option<u16>),
    DecoderError,
>
    decreases sv.len(),
{
    if sv.len() == 0 {
        Ok((None, None))
    } else {
        match spec_scan_num(sv.drop_last(), p) {
            Err(e) => Err(e),
            Ok((id_eoi, from_fec)) => {
                let last = sv.last();
                if spec_is_eoi(last, p) && spec_is_fec(last, p) {
                    Err(DecoderError::EoiOnFecPacket)
                } else if spec_is_eoi(last, p) && id_eoi is Some {
                    Err(DecoderError::DuplicatedEoi)
                } else {
                    let id_eoi2 = if spec_is_eoi(last, p) {
                        Some(spec_packet_id(last, p))
                    } else {
                        id_eoi
                    };
                    if spec_is_fec(last, p) {
                        let declared = ((last[p.image_id_offset + 3] as int) * 256 + (last[
                            p.image_id_offset + 4] as int)) as u16;
                        if from_fec is Some && from_fec->Some_0 != declared {
                            Err(DecoderError::NumSystematicMismatch)
                        } else {
                            Ok((id_eoi2, Some(declared)))
                        }
                    } else {
                        Ok((id_eoi2, from_fec))
                    }
                }
            },
        }
    }
}

/// The number of systematic packets resolved from the id of the EOI packet
/// and the count declared by the FEC packets. An EOI id of 0xFFFF stands for
/// a count of 0x10000, which no 16-bit count can hold; it resolves to 0, so
/// the EOI survivor itself, a systematic packet with an id at or above that
/// count, is rejected as a wrong systematic id.
pub open spec fn spec_resolve_num(id_eoi: Option<u16>, from_fec: Option<u16>) -> Result<
    u16,
    DecoderError,
> {
    match (id_eoi, from_fec) {
        (None, None) => Err(DecoderError::UnknownNumSystematic),
        (Some(e), None) => Ok((if e == 0xFFFF {
            0
        } else {
            e + 1
        }) as u16),
        (None, Some(f)) => Ok(f),
        (Some(e), Some(f)) => if e != 0xFFFF && e + 1 == f {
            Ok(f)
        } else {
            Err(DecoderError::EoiFecMismatch)
        },
    }
}

/// Every systematic survivor has a packet id below the number of systematic
/// packets.
pub open spec fn spec_ids_ok(sv: Seq<Seq<u8>>, p: Parameters, k: u16) -> bool {
    forall|i: int|
        0 <= i < sv.len() && !spec_is_fec(#[trigger] sv[i], p) ==> spec_packet_id(sv[i], p) < k
}

/// The flag bits outside EOI and FEC.
pub open spec fn spec_masked_flags(f: u8) -> u8 {
    f & !(FLAG_EOI | FLAG_FEC)
}

/// The forward scan that checks that every survivor carries the image id of
/// the first survivor and the same flag bits outside EOI and FEC.
pub open spec fn spec_check_common(sv: Seq<Seq<u8>>, p: Parameters, whole: Seq<Seq<u8>>) -> Result<
    (),
    DecoderError,
>
    decreases sv.len(),
{
    if sv.len() == 0 {
        Ok(())
    } else {
        match spec_check_common(sv.drop_last(), p, whole) {
            Err(e) => Err(e),
            Ok(()) => {
                let last = sv.last();
                if last[p.image_id_offset as int] != whole[0][p.image_id_offset as int] {
                    Err(DecoderError::MultipleImageIds)
                } else if spec_masked_flags(spec_flags(last, p)) != spec_masked_flags(
                    spec_flags(whole[0], p),
                ) {
                    Err(DecoderError::InconsistentFlags)
                } else {
                    Ok(())
                }
            },
        }
    }
}

/// The forward scan that collects the image width and height from the
/// systematic survivors, failing when two of them disagree.
pub open spec fn spec_scan_dims(sv: Seq<Seq<u8>>, p: Parameters) -> Result<
    Option<(u8, u8)>,
    DecoderError,
>
    decreases sv.len(),
{
    if sv.len() == 0 {
        Ok(None)
    } else {
        match spec_scan_dims(sv.drop_last(), p) {
            Err(e) => Err(e),
            Ok(dims) => {
                let last = sv.last();
                if spec_is_fec(last, p) {
                    Ok(dims)
                } else {
                    let w = last[p.image_id_offset + 3];
                    let h = last[p.image_id_offset + 4];
                    match dims {
                        Some((w0, h0)) => if w0 != w || h0 != h {
                            Err(DecoderError::DimensionsMismatch)
                        } else {
                            Ok(dims)
                        },
                        None => Ok(Some((w, h))),
                    }
                }
            },
        }
    }
}

/// The whole validation pipeline of the decoder, from the received packets
/// to the number of systematic packets, or the first error in the order the
/// decoder checks: the EOI/FEC scan, the input and output sizes, the
/// systematic ids, the common header fields, and the image dimensions.
pub open spec fn spec_decode_check(pkts: Seq<Seq<u8>>, p: Parameters, output_len: int) -> Result<
    u16,
    DecoderError,
> {
    let sv = spec_sanitize(pkts, p);
    match spec_scan_num(sv, p) {
        Err(e) => Err(e),
        Ok((id_eoi, from_fec)) => match spec_resolve_num(id_eoi, from_fec) {
            Err(e) => Err(e),
            Ok(k) => if sv.len() == 0 || sv.len() < k as int {
                Err(DecoderError::NotEnoughInput)
            } else if output_len < k as int {
                Err(DecoderError::OutputTooShort)
            } else if !spec_ids_ok(sv, p, k) {
                Err(DecoderError::WrongSystematicId)
            } else {
                match spec_check_common(sv, p, sv) {
                    Err(e) => Err(e),
                    Ok(()) => match spec_scan_dims(sv, p) {
                        Err(e) => Err(e),
                        Ok(_) => if spec_scan_dims(sv, p) == Result::<
                            Option<(u8, u8)>,
                            DecoderError,
                        >::Ok(Option::<(u8, u8)>::None) {
                            Err(DecoderError::NoSystematic)
                        } else {
                            Ok(k)
                        },
                    },
                }
            },
        },
    }
}

/// Drops the received packets with a wrong CRC-32, then the later duplicates
/// of each surviving packet id (first wins).
fn sanitize(input: &Vec<Packet>, p: &Parameters) -> (sv: Vec<Packet>)
    requires
        p.wf(),
        forall|i: int| 0 <= i < input@.len() ==> (#[trigger] input@[i]).wf(*p),
    ensures
        sv@.map_values(|pk: Packet| pk.bytes@) == spec_sanitize(
            input@.map_values(|pk: Packet| pk.bytes@),
            *p,
        ),
        forall|i: int| 0 <= i < sv@.len() ==> (#[trigger] sv@[i]).wf(*p),
{
    let ghost all = input@.map_values(|pk: Packet| pk.bytes@);
    let mut sv: Vec<Packet> = Vec::new();
    let mut i: usize = 0;
    while i < input.len()
        invariant
            p.wf(),
            i <= input@.len(),
            all == input@.map_values(|pk: Packet| pk.bytes@),
            forall|m: int| 0 <= m < input@.len() ==> (#[trigger] input@[m]).wf(*p),
            forall|m: int| 0 <= m < sv@.len() ==> (#[trigger] sv@[m]).wf(*p),
            sv@.map_values(|pk: Packet| pk.bytes@) == spec_sanitize(all.take(i as int), *p),
        decreases input@.len() - i,
    {
        let pkt = &input[i];
        proof {
            assert(all.take((i + 1) as int).drop_last() =~= all.take(i as int));
            assert(all.take((i + 1) as int).last() == input@[i as int].bytes@);
        }
        if pkt.crc32_is_valid(p) {
            let id = pkt.packet_id(p);
            let ghost prev = spec_sanitize(all.take(i as int), *p);
            let mut dup = false;
            let mut j: usize = 0;
            while j < sv.len()
                invariant
                    p.wf(),
                    j <= sv@.len(),
                    pkt.wf(*p),
                    forall|m: int| 0 <= m < sv@.len() ==> (#[trigger] sv@[m]).wf(*p),
                    id == spec_packet_id(pkt.bytes@, *p),
                    prev == sv@.map_values(|pk: Packet| pk.bytes@),
                    dup == !(forall|m: int|
                        0 <= m < j ==> spec_packet_id(#[trigger] prev[m], *p) != id),
                decreases sv@.len() - j,
            {
                proof {
                    assert(prev[j as int] == sv@[j as int].bytes@);
                }
                if sv[j].packet_id(p) == id {
                    dup = true;
                }
                j = j + 1;
            }
            if !dup {
                sv.push(pkt.duplicate());
            }
        }
        proof {
            assert(sv@.map_values(|pk: Packet| pk.bytes@) =~= spec_sanitize(
                all.take((i + 1) as int),
                *p,
            ));
        }
        i = i + 1;
    }
    proof {
        assert(all.take(input@.len() as int) =~= all);
    }
    sv
}

/// Determines the number of systematic packets from the EOI packet id or the
/// count declared by the FEC packets.
fn find_num_systematic(sv: &Vec<Packet>, p: &Parameters) -> (r: Result<u16, DecoderError>)
    requires
        p.wf(),
        forall|i: int| 0 <= i < sv@.len() ==> (#[trigger] sv@[i]).wf(*p),
    ensures
        r == (match spec_scan_num(sv@.map_values(|pk: Packet| pk.bytes@), *p) {
            Err(e) => Result::<u16, DecoderError>::Err(e),
            Ok((id_eoi, from_fec)) => spec_resolve_num(id_eoi, from_fec),
        }),
{
    let ghost all = sv@.map_values(|pk: Packet| pk.bytes@);
    let mut id_eoi: Option<u16> = None;
    let mut from_fec: Option<u16> = None;
    let mut i: usize = 0;
    while i < sv.len()
        invariant
            p.wf(),
            i <= sv@.len(),
            all == sv@.map_values(|pk: Packet| pk.bytes@),
            forall|m: int| 0 <= m < sv@.len() ==> (#[trigger] sv@[m]).wf(*p),
            spec_scan_num(all.take(i as int), *p) == Result::<
                (Option<u16>, Option<u16>),
                DecoderError,
            >::Ok((id_eoi, from_fec)),
        decreases sv@.len() - i,
    {
        let pkt = &sv[i];
        proof {
            assert(all.take((i + 1) as int).drop_last() =~= all.take(i as int));
            assert(all.take((i + 1) as int).last() == sv@[i as int].bytes@);
        }
        if pkt.is_eoi(p) {
            if pkt.is_fec_packet(p) {
                proof {
                    lemma_scan_num_err_persists(all, *p, (i + 1) as int);
                }
                return Err(DecoderError::EoiOnFecPacket);
            }
            if id_eoi.is_some() {
                proof {
                    lemma_scan_num_err_persists(all, *p, (i + 1) as int);
                }
                return Err(DecoderError::DuplicatedEoi);
            }
            id_eoi = Some(pkt.packet_id(p));
        }
        match pkt.number_systematic_packets(p) {
            Some(declared) => {
                match from_fec {
                    Some(existing) => {
                        if existing != declared {
                            proof {
                                lemma_scan_num_err_persists(all, *p, (i + 1) as int);
                            }
                            return Err(DecoderError::NumSystematicMismatch);
                        }
                    },
                    None => (),
                }
                from_fec = Some(declared);
            },
            None => (),
        }
        i = i + 1;
    }
    proof {
        assert(all.take(sv@.len() as int) =~= all);
    }
    match (id_eoi, from_fec) {
        (None, None) => Err(DecoderError::UnknownNumSystematic),
        (Some(e), None) => Ok(if e == 0xFFFF {
            0
        } else {
            e + 1
        }),
        (None, Some(f)) => Ok(f),
        (Some(e), Some(f)) => {
            if e != 0xFFFF && e + 1 == f {
                Ok(f)
            } else {
                Err(DecoderError::EoiFecMismatch)
            }
        },
    }
}

/// Checks that every systematic survivor has a packet id below k.
fn check_systematic_ids(sv: &Vec<Packet>, p: &Parameters, k: u16) -> (r: bool)
    requires
        p.wf(),
        forall|i: int| 0 <= i < sv@.len() ==> (#[trigger] sv@[i]).wf(*p),
    ensures
        r == spec_ids_ok(sv@.map_values(|pk: Packet| pk.bytes@), *p, k),
{
    let ghost all = sv@.map_values(|pk: Packet| pk.bytes@);
    let mut i: usize = 0;
    while i < sv.len()
        invariant
            p.wf(),
            i <= sv@.len(),
            all == sv@.map_values(|pk: Packet| pk.bytes@),
            forall|m: int| 0 <= m < sv@.len() ==> (#[trigger] sv@[m]).wf(*p),
            forall|m: int|
                0 <= m < i && !spec_is_fec(#[trigger] all[m], *p) ==> spec_packet_id(all[m], *p)
                    < k,
        decreases sv@.len() - i,
    {
        let pkt = &sv[i];
        proof {
            assert(all[i as int] == sv@[i as int].bytes@);
        }
        if !pkt.is_fec_packet(p) && pkt.packet_id(p) >= k {
            return false;
        }
        i = i + 1;
    }
    true
}

/// Checks that every survivor carries the image id of the first survivor and
/// the same flag bits outside EOI and FEC.
fn check_common_fields(sv: &Vec<Packet>, p: &Parameters) -> (r: Result<(), DecoderError>)
    requires
        p.wf(),
        sv@.len() > 0,
        forall|i: int| 0 <= i < sv@.len() ==> (#[trigger] sv@[i]).wf(*p),
    ensures
        r == spec_check_common(
            sv@.map_values(|pk: Packet| pk.bytes@),
            *p,
            sv@.map_values(|pk: Packet| pk.bytes@),
        ),
{
    let ghost all = sv@.map_values(|pk: Packet| pk.bytes@);
    let image_id = sv[0].image_id(p);
    let flags = mask_flags(sv[0].flags(p));
    let mut i: usize = 0;
    while i < sv.len()
        invariant
            p.wf(),
            i <= sv@.len(),
            sv@.len() > 0,
            all == sv@.map_values(|pk: Packet| pk.bytes@),
            forall|m: int| 0 <= m < sv@.len() ==> (#[trigger] sv@[m]).wf(*p),
            image_id == all[0][p.image_id_offset as int],
            flags == spec_masked_flags(spec_flags(all[0], *p)),
            spec_check_common(all.take(i as int), *p, all) == Result::<(), DecoderError>::Ok(()),
        decreases sv@.len() - i,
    {
        let pkt = &sv[i];
        proof {
            assert(all.take((i + 1) as int).drop_last() =~= all.take(i as int));
            assert(all.take((i + 1) as int).last() == sv@[i as int].bytes@);
        }
        if pkt.image_id(p) != image_id {
            proof {
                lemma_check_common_err_persists(all, *p, all, (i + 1) as int);
            }
            return Err(DecoderError::MultipleImageIds);
        }
        if mask_flags(pkt.flags(p)) != flags {
            proof {
                lemma_check_common_err_persists(all, *p, all, (i + 1) as int);
            }
            return Err(DecoderError::InconsistentFlags);
        }
        i = i + 1;
    }
    proof {
        assert(all.take(sv@.len() as int) =~= all);
    }
    Ok(())
}

/// Removes the EOI and FEC bits from a flags byte.
fn mask_flags(f: u8) -> (r: u8)
    ensures
        r == spec_masked_flags(f),
{
    f & !(FLAG_EOI | FLAG_FEC)
}

/// Collects the image width and height from the systematic survivors,
/// failing when two of them disagree.
fn find_image_dimensions(sv: &Vec<Packet>, p: &Parameters) -> (r: Result<
    Option<(u8, u8)>,
    DecoderError,
>)
    requires
        p.wf(),
        forall|i: int| 0 <= i < sv@.len() ==> (#[trigger] sv@[i]).wf(*p),
    ensures
        r == spec_scan_dims(sv@.map_values(|pk: Packet| pk.bytes@), *p),
{
    let ghost all = sv@.map_values(|pk: Packet| pk.bytes@);
    let mut dims: Option<(u8, u8)> = None;
    let mut i: usize = 0;
    while i < sv.len()
        invariant
            p.wf(),
            i <= sv@.len(),
            all == sv@.map_values(|pk: Packet| pk.bytes@),
            forall|m: int| 0 <= m < sv@.len() ==> (#[trigger] sv@[m]).wf(*p),
            spec_scan_dims(all.take(i as int), *p) == Result::<
                Option<(u8, u8)>,
                DecoderError,
            >::Ok(dims),
        decreases sv@.len() - i,
    {
        let pkt = &sv[i];
        proof {
            assert(all.take((i + 1) as int).drop_last() =~= all.take(i as int));
            assert(all.take((i + 1) as int).last() == sv@[i as int].bytes@);
        }
        match pkt.width(p) {
            Some(width) => {
                let height = match pkt.height(p) {
                    Some(h) => h,
                    None => 0,
                };
                match dims {
                    Some((w0, h0)) => {
                        if w0 != width || h0 != height {
                            proof {
                                lemma_scan_dims_err_persists(all, *p, (i + 1) as int);
                            }
                            return Err(DecoderError::DimensionsMismatch);
                        }
                    },
                    None => {
                        dims = Some((width, height));
                    },
                }
            },
            None => (),
        }
        i = i + 1;
    }
    proof {
        assert(all.take(sv@.len() as int) =~= all);
    }
    Ok(dims)
}

/// Copies every surviving systematic packet verbatim into the output slot
/// given by its packet id.
fn copy_systematic(sv: &Vec<Packet>, output: &mut Vec<Packet>, p: &Parameters, k: u16)
    requires
        p.wf(),
        forall|i: int| 0 <= i < sv@.len() ==> (#[trigger] sv@[i]).wf(*p),
        forall|i: int| 0 <= i < old(output)@.len() ==> (#[trigger] old(output)@[i]).wf(*p),
        k as int <= old(output)@.len(),
        forall|m2: int|
            0 <= m2 < sv@.len() && !spec_is_fec((#[trigger] sv@[m2]).bytes@, *p)
                ==> spec_packet_id(sv@[m2].bytes@, *p) < k,
        forall|j1: int, j2: int|
            0 <= j1 < j2 < sv@.len() ==> spec_packet_id((#[trigger] sv@[j1]).bytes@, *p)
                != spec_packet_id((#[trigger] sv@[j2]).bytes@, *p),
    ensures
        final(output)@.len() == old(output)@.len(),
        forall|i: int| 0 <= i < final(output)@.len() ==> (#[trigger] final(output)@[i]).wf(*p),
        forall|j: int|
            0 <= j < sv@.len() && !spec_is_fec((#[trigger] sv@[j]).bytes@, *p) ==> final(output)@[spec_packet_id(sv@[j].bytes@, *p) as int].bytes@ == sv@[j].bytes@,
        forall|i: int|
            0 <= i < old(output)@.len() && !(exists|j: int|
                0 <= j < sv@.len() && !spec_is_fec((#[trigger] sv@[j]).bytes@, *p)
                    && spec_packet_id(sv@[j].bytes@, *p) == i) ==> final(output)@[i] == old(
                output,
            )@[i],
{
    let mut j: usize = 0;
    while j < sv.len()
        invariant
            p.wf(),
            j <= sv@.len(),
            forall|i: int| 0 <= i < sv@.len() ==> (#[trigger] sv@[i]).wf(*p),
            forall|i: int| 0 <= i < output@.len() ==> (#[trigger] output@[i]).wf(*p),
            output@.len() == old(output)@.len(),
            k as int <= output@.len(),
            forall|m2: int|
                0 <= m2 < sv@.len() && !spec_is_fec((#[trigger] sv@[m2]).bytes@, *p)
                    ==> spec_packet_id(sv@[m2].bytes@, *p) < k,
            forall|j1: int, j2: int|
                0 <= j1 < j2 < sv@.len() ==> spec_packet_id((#[trigger] sv@[j1]).bytes@, *p)
                    != spec_packet_id((#[trigger] sv@[j2]).bytes@, *p),
            forall|m: int|
                0 <= m < j && !spec_is_fec((#[trigger] sv@[m]).bytes@, *p) ==> output@[
                    spec_packet_id(sv@[m].bytes@, *p) as int].bytes@ == sv@[m].bytes@,
            forall|i: int|
                0 <= i < old(output)@.len() && !(exists|m: int|
                    0 <= m < j && !spec_is_fec((#[trigger] sv@[m]).bytes@, *p) && spec_packet_id(
                        sv@[m].bytes@,
                        *p,
                    ) == i) ==> output@[i] == old(output)@[i],
        decreases sv@.len() - j,
    {
        let pkt = &sv[j];
        if !pkt.is_fec_packet(p) {
            let id = pkt.packet_id(p);
            proof {
                let svm = sv@.map_values(|pk: Packet| pk.bytes@);
                assert(svm[j as int] == sv@[j as int].bytes@);
                assert(spec_packet_id(sv@[j as int].bytes@, *p) < k);
            }
            output.set(id as usize, pkt.duplicate());
        }
        j = j + 1;
    }
}

/// The partial product of the inverse Lagrange weight for the j-th of the
/// given evaluation points: the product of (x_{ids[j]} - x_{ids[i]}) over
/// i < m, i != j.
pub open spec fn spec_wj_inv_ids_upto(ids: Seq<u16>, j: int, m: int) -> GF64K
    decreases m,
{
    if m <= 0 {
        gf64k_one()
    } else {
        let prev = spec_wj_inv_ids_upto(ids, j, m - 1);
        if m - 1 == j {
            prev
        } else {
            gf64k_mul(
                prev,
                gf64k_add(gf64k_from_u16(ids[j]), gf64k_from_u16(ids[m - 1])),
            )
        }
    }
}

/// The inverse Lagrange weight for the j-th of the given evaluation points.
pub open spec fn spec_wj_inv_ids(ids: Seq<u16>, j: int) -> GF64K {
    spec_wj_inv_ids_upto(ids, j, ids.len() as int)
}

/// Computes the inverse Lagrange weight for the j-th of the given evaluation
/// points. Unlike the encoder's points, these are the packet ids of the
/// surviving packets, which need not be sequential.
fn wj_inv_ids(ids: &Vec<u16>, j: usize) -> (r: GF64K)
    requires
        j < ids@.len(),
    ensures
        r == (spec_wj_inv_ids(ids@, j as int)),
{
    let xj = GF64K::from_u16(ids[j]);
    let mut ret = GF64K::from_u16(1);
    let mut m: usize = 0;
    while m < ids.len()
        invariant
            m <= ids@.len(),
            j < ids@.len(),
            xj == (gf64k_from_u16(ids@[j as int])),
            ret == (spec_wj_inv_ids_upto(ids@, j as int, m as int)),
        decreases ids@.len() - m,
    {
        if m != j {
            let xm = GF64K::from_u16(ids[m]);
            ret = ret.mul(xj.sub(xm));
        }
        m = m + 1;
    }
    ret
}

/// The inverse Lagrange weight of a point among the points 0..m is nonzero:
/// it is a product of differences of distinct elements of GF(2^16).
pub proof fn lemma_wj_inv_upto_nonzero(j: u16, m: int)
    requires
        0 <= m <= 0x10000,
    ensures
        (spec_wj_inv_upto(j, m)).0.0 != 0 || (spec_wj_inv_upto(j, m)).1.0 != 0,
    decreases m,
{
    if m > 0 {
        lemma_wj_inv_upto_nonzero(j, m - 1);
        if m - 1 != j as int {
            assert(j != (m - 1) as u16);
            lemma_gf64k_from_u16_injective(j, (m - 1) as u16);
            lemma_gf64k_mul_nonzero(
                spec_wj_inv_upto(j, m - 1),
                gf64k_add(gf64k_from_u16(j), gf64k_from_u16((m - 1) as u16)),
            );
        }
    }
}

/// Re-encoding a systematic packet undoes the Lagrange weighting word by
/// word: a data word multiplied by the weight of its evaluation point among
/// the points 0..k, and then by the inverse weight, is the original word.
pub proof fn lemma_systematic_word_round_trip(y: GF64K, j: u16, k: u16)
    requires
        j < k,
    ensures
        (gf64k_mul(gf64k_mul(y, spec_weight_of(spec_wj_inv(j, k))), spec_wj_inv(j, k))) == y,
{
    let wji = spec_wj_inv(j, k);
    lemma_wj_inv_upto_nonzero(j, k as int);
    assert(wji != gf64k_zero());
    lemma_gf64k_mul_by_inverse(y, wji);
    assert(spec_weight_of(wji) == gf64k_div(gf64k_one(), wji));
    assert(gf64k_mul(y, spec_weight_of(wji)) == gf64k_div(y, wji));
    lemma_gf64k_div_mul(y, wji);
}

/// The partial product of l(x) over the given evaluation points: the
/// product of (x - x_{ids[j]}) for j below m.
pub open spec fn spec_lx_ids_upto(ids: Seq<u16>, x: GF64K, m: int) -> GF64K
    decreases m,
{
    if m <= 0 {
        gf64k_one()
    } else {
        gf64k_mul(spec_lx_ids_upto(ids, x, m - 1), gf64k_add(x, gf64k_from_u16(ids[m - 1])))
    }
}

/// The partial Lagrange sum at x over the given survivors: the sum for j
/// below m of w_j y_j / (x - x_{ids[j]}), where y_j is the data word of
/// survivor j at position r and w_j its Lagrange weight; a vanishing
/// denominator contributes zero.
pub open spec fn spec_interp_sum_upto(
    svb: Seq<Seq<u8>>,
    ids: Seq<u16>,
    p: Parameters,
    x: GF64K,
    r: int,
    m: int,
) -> GF64K
    decreases m,
{
    if m <= 0 {
        gf64k_zero()
    } else {
        let d = gf64k_add(x, gf64k_from_u16(ids[m - 1]));
        let w = spec_weight_of(spec_wj_inv_ids(ids, m - 1));
        let y = gf64k_from_u16(spec_data_word(svb[m - 1], p, r));
        let term = if d == gf64k_zero() {
            gf64k_zero()
        } else {
            gf64k_div(gf64k_mul(y, w), d)
        };
        gf64k_add(spec_interp_sum_upto(svb, ids, p, x, r, m - 1), term)
    }
}

/// The evaluation points used to rebuild an image: the packet ids of the
/// first k survivors.
pub open spec fn spec_survivor_ids(svb: Seq<Seq<u8>>, p: Parameters, k: int) -> Seq<u16> {
    Seq::new(k as nat, |j: int| spec_packet_id(svb[j], p))
}

/// The data word at position r of the rebuilt packet with id i: the Lagrange
/// interpolation polynomial of the first k survivors' data words, evaluated
/// at the point of GF(2^16) attached to i.
pub open spec fn spec_rebuilt_word(svb: Seq<Seq<u8>>, p: Parameters, k: int, i: int, r: int) -> u16 {
    let ids = spec_survivor_ids(svb, p, k);
    let x = gf64k_from_u16(i as u16);
    gf64k_to_u16(
        gf64k_mul(spec_lx_ids_upto(ids, x, k), spec_interp_sum_upto(svb, ids, p, x, r, k)),
    )
}

/// The flags byte of a rebuilt packet: the common masked flags with the EOI
/// bit set exactly on the last systematic packet and the FEC bit clear.
pub open spec fn spec_rebuilt_flags(masked: u8, eoi: bool) -> u8 {
    let with_eoi = (masked & !FLAG_EOI) | (if eoi {
        FLAG_EOI
    } else {
        0
    });
    (with_eoi & !FLAG_FEC) | 0
}

/// Everything the decoder promises of a rebuilt output slot: the standard
/// header built from the common fields, the fixed bytes of the format over
/// an otherwise zeroed buffer, the Lagrange-interpolated data words, and a
/// fresh checksum.
pub open spec fn spec_rebuilt_packet(
    ob: Seq<u8>,
    svb: Seq<Seq<u8>>,
    p: Parameters,
    k: int,
    i: int,
    image_id: u8,
    masked_flags: u8,
    dims: (u8, u8),
) -> bool {
    &&& ob.len() == p.packet_len
    &&& spec_packet_id(ob, p) == i
    &&& spec_crc32_is_valid(ob, p)
    &&& spec_is_eoi(ob, p) == (i == k - 1)
    &&& !spec_is_fec(ob, p)
    &&& ob[p.image_id_offset as int] == image_id
    &&& ob[p.image_id_offset + 3] == dims.0
    &&& ob[p.image_id_offset + 4] == dims.1
    &&& spec_flags(ob, p) == spec_rebuilt_flags(masked_flags, i == k - 1)
    &&& forall|c: int|
        p.callsign_offset <= c < p.callsign_offset + p.callsign_len ==> ob[c] == svb[0][c]
    &&& forall|c: int|
        0 <= c < p.image_id_offset && !(p.callsign_offset <= c < p.callsign_offset
            + p.callsign_len) ==> ob[c] == spec_apply_fixed(
            spec_zeroed_bytes(p.packet_len as int),
            spec_fixed_list(p),
        )[c]
    &&& forall|r: int|
        0 <= r < p.data_len / 2 ==> #[trigger] spec_data_word(ob, p, r) == spec_rebuilt_word(
            svb,
            p,
            k,
            i,
            r,
        )
}

/// Applying the same fixed bytes to two buffers of one length that agree at
/// a position leaves them agreeing there.
proof fn lemma_apply_fixed_pointwise(a: Seq<u8>, b: Seq<u8>, fixed: Seq<(int, u8)>, i: int)
    requires
        a.len() == b.len(),
        0 <= i < a.len(),
        a[i] == b[i],
        forall|m: int| 0 <= m < fixed.len() ==> 0 <= (#[trigger] fixed[m]).0 < a.len(),
    ensures
        spec_apply_fixed(a, fixed).len() == a.len(),
        spec_apply_fixed(b, fixed).len() == b.len(),
        spec_apply_fixed(a, fixed)[i] == spec_apply_fixed(b, fixed)[i],
    decreases fixed.len(),
{
    if fixed.len() > 0 {
        assert(fixed.drop_last().len() == fixed.len() - 1);
        lemma_apply_fixed_pointwise(a, b, fixed.drop_last(), i);
    }
}

/// The survivors of a sanitized packet list carry pairwise distinct packet
/// ids: a packet whose id repeats an earlier survivor's is dropped.
proof fn lemma_sanitize_distinct(pkts: Seq<Seq<u8>>, p: Parameters)
    ensures
        forall|j1: int, j2: int|
            0 <= j1 < j2 < spec_sanitize(pkts, p).len() ==> spec_packet_id(
                #[trigger] spec_sanitize(pkts, p)[j1],
                p,
            ) != spec_packet_id(#[trigger] spec_sanitize(pkts, p)[j2], p),
    decreases pkts.len(),
{
    if pkts.len() > 0 {
        lemma_sanitize_distinct(pkts.drop_last(), p);
        let prev = spec_sanitize(pkts.drop_last(), p);
        let s = spec_sanitize(pkts, p);
        assert forall|j1: int, j2: int|
            0 <= j1 < j2 < s.len() implies spec_packet_id(#[trigger] s[j1], p)
            != spec_packet_id(#[trigger] s[j2], p) by {
            if j2 < prev.len() {
                assert(s[j1] == prev[j1]);
                assert(s[j2] == prev[j2]);
            } else {
                assert(s[j1] == prev[j1]);
                assert(s[j2] == pkts.last());
            }
        }
    }
}

/// Rebuilds every systematic packet that no survivor provides, by Lagrange
/// interpolation over the first k survivors, and writes it into its output
/// slot. The survivors' data is transformed to Lagrange-weighted values
/// first; the header is filled from the common fields and the CRC-32 is
/// computed last.
fn interpolate_missing(
    sv: &Vec<Packet>,
    output: &mut Vec<Packet>,
    p: &Parameters,
    k: u16,
    image_id: u8,
    masked_flags: u8,
    dims: (u8, u8),
)
    requires
        p.wf(),
        sv@.len() > 0,
        k as int <= sv@.len(),
        forall|i: int| 0 <= i < sv@.len() ==> (#[trigger] sv@[i]).wf(*p),
        forall|i: int| 0 <= i < old(output)@.len() ==> (#[trigger] old(output)@[i]).wf(*p),
        k as int <= old(output)@.len(),
    ensures
        final(output)@.len() == old(output)@.len(),
        forall|i: int| 0 <= i < final(output)@.len() ==> (#[trigger] final(output)@[i]).wf(*p),
        forall|i: int|
            0 <= i < old(output)@.len() && (i >= k as int || (exists|j: int|
                0 <= j < sv@.len() && !spec_is_fec((#[trigger] sv@[j]).bytes@, *p)
                    && spec_packet_id(sv@[j].bytes@, *p) == i)) ==> final(output)@[i] == old(
                output,
            )@[i],
        forall|i: int|
            0 <= i < k as int && !(exists|j: int|
                0 <= j < sv@.len() && !spec_is_fec((#[trigger] sv@[j]).bytes@, *p)
                    && spec_packet_id(sv@[j].bytes@, *p) == i) ==> spec_rebuilt_packet(
                (#[trigger] final(output)@[i]).bytes@,
                sv@.map_values(|pk: Packet| pk.bytes@),
                *p,
                k as int,
                i,
                image_id,
                masked_flags,
                dims,
            ),
{
    let ghost svb = sv@.map_values(|pk: Packet| pk.bytes@);
    let ghost idsg = spec_survivor_ids(svb, *p, k as int);
    // Collect the evaluation points: the ids of the first k survivors.
    let mut ids: Vec<u16> = Vec::new();
    let mut j: usize = 0;
    while j < k as usize
        invariant
            p.wf(),
            j <= k as int,
            k as int <= sv@.len(),
            forall|i: int| 0 <= i < sv@.len() ==> (#[trigger] sv@[i]).wf(*p),
            ids@.len() == j,
            forall|j2: int|
                0 <= j2 < j ==> #[trigger] ids@[j2] == spec_packet_id(sv@[j2].bytes@, *p),
        decreases k as int - j,
    {
        ids.push(sv[j].packet_id(p));
        j = j + 1;
    }
    proof {
        assert forall|j2: int| 0 <= j2 < k as int implies idsg[j2] == ids@[j2] by {
            assert(svb[j2] == sv@[j2].bytes@);
        }
        assert(ids@ =~= idsg);
    }
    // Transform the first k survivors to Lagrange-weighted values.
    let mut scaled: Vec<Packet> = Vec::new();
    j = 0;
    while j < k as usize
        invariant
            p.wf(),
            j <= k as int,
            k as int <= sv@.len(),
            ids@.len() == k as int,
            ids@ == idsg,
            forall|i: int| 0 <= i < sv@.len() ==> (#[trigger] sv@[i]).wf(*p),
            scaled@.len() == j,
            forall|i: int| 0 <= i < scaled@.len() ==> (#[trigger] scaled@[i]).wf(*p),
            forall|j2: int|
                0 <= j2 < j ==> spec_data_scaled(
                    sv@[j2].bytes@,
                    (#[trigger] scaled@[j2]).bytes@,
                    *p,
                    spec_weight_of(spec_wj_inv_ids(ids@, j2)),
                ),
        decreases k as int - j,
    {
        let wji = wj_inv_ids(&ids, j);
        let w = weight_of(wji);
        let mut pk = sv[j].duplicate();
        scale_packet_data(&mut pk, p, w);
        scaled.push(pk);
        j = j + 1;
    }
    // Interpolate each missing systematic packet.
    let mut i: usize = 0;
    while i < k as usize
        invariant
            p.wf(),
            i <= k as int,
            sv@.len() > 0,
            k as int <= sv@.len(),
            k as int <= old(output)@.len(),
            ids@.len() == k as int,
            ids@ == idsg,
            idsg == spec_survivor_ids(svb, *p, k as int),
            svb == sv@.map_values(|pk: Packet| pk.bytes@),
            scaled@.len() == k as int,
            forall|m: int| 0 <= m < sv@.len() ==> (#[trigger] sv@[m]).wf(*p),
            forall|m: int| 0 <= m < scaled@.len() ==> (#[trigger] scaled@[m]).wf(*p),
            forall|j2: int|
                0 <= j2 < k as int ==> spec_data_scaled(
                    sv@[j2].bytes@,
                    (#[trigger] scaled@[j2]).bytes@,
                    *p,
                    spec_weight_of(spec_wj_inv_ids(ids@, j2)),
                ),
            output@.len() == old(output)@.len(),
            forall|m: int| 0 <= m < output@.len() ==> (#[trigger] output@[m]).wf(*p),
            forall|m: int|
                0 <= m < output@.len() && (m >= i as int || (exists|j2: int|
                    0 <= j2 < sv@.len() && !spec_is_fec((#[trigger] sv@[j2]).bytes@, *p)
                        && spec_packet_id(sv@[j2].bytes@, *p) == m)) ==> output@[m] == old(
                    output,
                )@[m],
            forall|m: int|
                0 <= m < i as int && !(exists|j2: int|
                    0 <= j2 < sv@.len() && !spec_is_fec((#[trigger] sv@[j2]).bytes@, *p)
                        && spec_packet_id(sv@[j2].bytes@, *p) == m) ==> spec_rebuilt_packet(
                    (#[trigger] output@[m]).bytes@,
                    svb,
                    *p,
                    k as int,
                    m,
                    image_id,
                    masked_flags,
                    dims,
                ),
        decreases k as int - i,
    {
        // Is the packet with id i already provided by a survivor?
        let mut present = false;
        let mut j2: usize = 0;
        while j2 < sv.len()
            invariant
                p.wf(),
                j2 <= sv@.len(),
                i < k as int,
                forall|m: int| 0 <= m < sv@.len() ==> (#[trigger] sv@[m]).wf(*p),
                present == (exists|m: int|
                    0 <= m < j2 && !spec_is_fec((#[trigger] sv@[m]).bytes@, *p)
                        && spec_packet_id(sv@[m].bytes@, *p) == i as int),
            decreases sv@.len() - j2,
        {
            let pkt = &sv[j2];
            if !pkt.is_fec_packet(p) && pkt.packet_id(p) == i as u16 {
                present = true;
            }
            j2 = j2 + 1;
        }
        if !present {
            let mut pkt = Packet::new_zeroed(p);
            // Compute l(x), the product of (x - x_j) over the survivor ids.
            let x = GF64K::from_u16(i as u16);
            let mut lx = GF64K::from_u16(1);
            let mut j3: usize = 0;
            while j3 < k as usize
                invariant
                    ids@.len() == k as int,
                    j3 <= k as int,
                    x == (gf64k_from_u16(i as u16)),
                    lx == (spec_lx_ids_upto(ids@, x, j3 as int)),
                decreases k as int - j3,
            {
                let xj = GF64K::from_u16(ids[j3]);
                lx = lx.mul(x.sub(xj));
                j3 = j3 + 1;
            }
            // Each output word is l(x) times the sum of the weighted words
            // divided by (x - x_j); a survivor at the point x itself cannot
            // occur here, so the guarded branch never fires on sane input.
            let nwords = p.data_len / 2;
            let mut r: usize = 0;
            while r < nwords
                invariant
                    p.wf(),
                    pkt.wf(*p),
                    r <= nwords,
                    i < k as int,
                    nwords == p.data_len / 2,
                    ids@.len() == k as int,
                    k as int <= sv@.len(),
                    scaled@.len() == k as int,
                    forall|m: int| 0 <= m < sv@.len() ==> (#[trigger] sv@[m]).wf(*p),
                    forall|m: int| 0 <= m < scaled@.len() ==> (#[trigger] scaled@[m]).wf(*p),
                    forall|j5: int|
                        0 <= j5 < k as int ==> spec_data_scaled(
                            sv@[j5].bytes@,
                            (#[trigger] scaled@[j5]).bytes@,
                            *p,
                            spec_weight_of(spec_wj_inv_ids(ids@, j5)),
                        ),
                    svb == sv@.map_values(|pk: Packet| pk.bytes@),
                    x == (gf64k_from_u16(i as u16)),
                    lx == (spec_lx_ids_upto(ids@, x, k as int)),
                    forall|c: int|
                        0 <= c < p.packet_len && !(p.image_id_offset + 6 <= c < p.image_id_offset
                            + 6 + p.data_len) ==> pkt.bytes@[c] == 0u8,
                    forall|q: int|
                        0 <= q < r ==> spec_data_word(pkt.bytes@, *p, q) == gf64k_to_u16(
                            gf64k_mul(
                                lx,
                                #[trigger] spec_interp_sum_upto(svb, ids@, *p, x, q, k as int),
                            ),
                        ),
                decreases nwords - r,
            {
                let mut sum = GF64K::from_u16(0);
                let mut j4: usize = 0;
                while j4 < k as usize
                    invariant
                        p.wf(),
                        j4 <= k as int,
                        i < k as int,
                        r < nwords,
                        nwords == p.data_len / 2,
                        ids@.len() == k as int,
                        k as int <= sv@.len(),
                        scaled@.len() == k as int,
                        forall|m: int| 0 <= m < sv@.len() ==> (#[trigger] sv@[m]).wf(*p),
                        forall|m: int| 0 <= m < scaled@.len() ==> (#[trigger] scaled@[m]).wf(*p),
                        forall|j5: int|
                            0 <= j5 < k as int ==> spec_data_scaled(
                                sv@[j5].bytes@,
                                (#[trigger] scaled@[j5]).bytes@,
                                *p,
                                spec_weight_of(spec_wj_inv_ids(ids@, j5)),
                            ),
                        svb == sv@.map_values(|pk: Packet| pk.bytes@),
                        x == (gf64k_from_u16(i as u16)),
                        sum == (spec_interp_sum_upto(svb, ids@, *p, x, r as int, j4 as int)),
                    decreases k as int - j4,
                {
                    let wj_yj = GF64K::from_u16(scaled[j4].data_word(p, r));
                    let xj = GF64K::from_u16(ids[j4]);
                    let d = x.sub(xj);
                    proof {
                        // The stored word of the scaled survivor is its
                        // original word times the Lagrange weight.
                        assert(svb[j4 as int] == sv@[j4 as int].bytes@);
                        lemma_gf64k_u16_roundtrip(
                            gf64k_mul(
                                gf64k_from_u16(spec_data_word(sv@[j4 as int].bytes@, *p, r as int)),
                                spec_weight_of(spec_wj_inv_ids(ids@, j4 as int)),
                            ),
                        );
                    }
                    let term = if d.is_zero() {
                        GF64K::from_u16(0)
                    } else {
                        wj_yj.div(d)
                    };
                    sum = sum.add(term);
                    j4 = j4 + 1;
                }
                let result = lx.mul(sum);
                let ghost prev_bytes = pkt.bytes@;
                pkt.set_data_word(p, r, result.to_u16());
                proof {
                    assert forall|q: int|
                        0 <= q < r implies spec_data_word(pkt.bytes@, *p, q) == spec_data_word(
                        prev_bytes,
                        *p,
                        q,
                    ) by {
                    }
                }
                r = r + 1;
            }
            // Fill the header and the checksum.
            let ghost data_done = pkt.bytes@;
            pkt.set_fixed_fields(p);
            proof {
                let fixedm = spec_fixed_list(*p);
                assert forall|m: int|
                    0 <= m < fixedm.len() implies 0 <= (#[trigger] fixedm[m]).0
                    < p.image_id_offset by {
                    assert(fixedm[m] == ((p.fixed_bytes@[m].0 as int, p.fixed_bytes@[m].1)));
                }
                lemma_apply_fixed_high(data_done, fixedm, p.image_id_offset as int);
                assert forall|c: int|
                    0 <= c < p.image_id_offset implies spec_apply_fixed(data_done, fixedm)[c]
                    == spec_apply_fixed(
                    spec_zeroed_bytes(p.packet_len as int),
                    fixedm,
                )[c] by {
                    assert(spec_zeroed_bytes(p.packet_len as int)[c] == 0u8);
                    lemma_apply_fixed_pointwise(
                        data_done,
                        spec_zeroed_bytes(p.packet_len as int),
                        fixedm,
                        c,
                    );
                }
            }
            pkt.copy_callsign_from(p, &sv[0]);
            pkt.set_image_id(p, image_id);
            pkt.set_packet_id(p, i as u16);
            pkt.set_width(p, dims.0);
            pkt.set_height(p, dims.1);
            pkt.set_flags(p, masked_flags);
            pkt.set_eoi(p, i + 1 == k as usize);
            pkt.set_fec_packet(p, false);
            let ghost pre = pkt.bytes@;
            pkt.update_crc32(p);
            proof {
                lemma_flag_bits();
                assert(pkt.bytes@.subrange(
                    p.crc_data_offset as int,
                    p.crc_data_offset + p.crc_data_len,
                ) =~= pre.subrange(
                    p.crc_data_offset as int,
                    p.crc_data_offset + p.crc_data_len,
                ));
                assert(svb[0] == sv@[0].bytes@);
                // The header writes leave the data words alone.
                assert forall|q: int|
                    0 <= q < p.data_len / 2 implies #[trigger] spec_data_word(pkt.bytes@, *p, q)
                    == spec_data_word(data_done, *p, q) by {
                }
                assert(spec_rebuilt_packet(
                    pkt.bytes@,
                    svb,
                    *p,
                    k as int,
                    i as int,
                    image_id,
                    masked_flags,
                    dims,
                ));
            }
            output.set(i, pkt);
        }
        i = i + 1;
    }
}

/// A failed EOI/FEC scan of a prefix is the result for the whole list: the
/// scan propagates the first error.
proof fn lemma_scan_num_err_persists(all: Seq<Seq<u8>>, p: Parameters, n: int)
    requires
        0 <= n <= all.len(),
        spec_scan_num(all.take(n), p) is Err,
    ensures
        spec_scan_num(all, p) == spec_scan_num(all.take(n), p),
    decreases all.len() - n,
{
    if n == all.len() {
        assert(all.take(n) =~= all);
    } else {
        assert(all.take(n + 1).drop_last() =~= all.take(n));
        assert(spec_scan_num(all.take(n + 1), p) == spec_scan_num(all.take(n), p));
        lemma_scan_num_err_persists(all, p, n + 1);
    }
}

/// A failed common-field check of a prefix is the result for the whole list.
proof fn lemma_check_common_err_persists(
    all: Seq<Seq<u8>>,
    p: Parameters,
    whole: Seq<Seq<u8>>,
    n: int,
)
    requires
        0 <= n <= all.len(),
        spec_check_common(all.take(n), p, whole) is Err,
    ensures
        spec_check_common(all, p, whole) == spec_check_common(all.take(n), p, whole),
    decreases all.len() - n,
{
    if n == all.len() {
        assert(all.take(n) =~= all);
    } else {
        assert(all.take(n + 1).drop_last() =~= all.take(n));
        assert(spec_check_common(all.take(n + 1), p, whole) == spec_check_common(
            all.take(n),
            p,
            whole,
        ));
        lemma_check_common_err_persists(all, p, whole, n + 1);
    }
}

/// A failed dimension scan of a prefix is the result for the whole list.
proof fn lemma_scan_dims_err_persists(all: Seq<Seq<u8>>, p: Parameters, n: int)
    requires
        0 <= n <= all.len(),
        spec_scan_dims(all.take(n), p) is Err,
    ensures
        spec_scan_dims(all, p) == spec_scan_dims(all.take(n), p),
    decreases all.len() - n,
{
    if n == all.len() {
        assert(all.take(n) =~= all);
    } else {
        assert(all.take(n + 1).drop_last() =~= all.take(n));
        assert(spec_scan_dims(all.take(n + 1), p) == spec_scan_dims(all.take(n), p));
        lemma_scan_dims_err_persists(all, p, n + 1);
    }
}

/// SSDV FEC decoder.
///
/// The decoder is stateless: the whole work happens in [`Decoder::decode`].
/// The struct only exists to give that function a home.
#[derive(Debug)]
pub struct Decoder {}

impl Decoder {
    /// Decodes a list of received SSDV packets into the original image.
    ///
    /// The received packets may be out of order and may include duplicates,
    /// corrupted packets and extra FEC packets. Packets with a wrong CRC-32
    /// are dropped, then duplicates by packet id (the first occurrence
    /// wins). The number k of systematic packets is taken from the EOI
    /// packet or the FEC packets; the survivors are checked for consistency,
    /// and the k systematic packets are written to the first k slots of
    /// `output`: surviving systematic packets verbatim, the rest rebuilt by
    /// Lagrange interpolation from the first k survivors. On success the
    /// number of decoded packets k is returned; on failure the output buffer
    /// is left unchanged.
    pub fn decode(input: &Vec<Packet>, output: &mut Vec<Packet>, params: &Parameters) -> (r:
        Result<usize, DecoderError>)
        requires
            params.wf(),
            forall|i: int|
                0 <= i < input@.len() ==> (#[trigger] input@[i]).wf(*params),
            forall|i: int|
                0 <= i < old(output)@.len() ==> (#[trigger] old(output)@[i]).wf(*params),
        ensures
            final(output)@.len() == old(output)@.len(),
            forall|i: int|
                0 <= i < final(output)@.len() ==> (#[trigger] final(output)@[i]).wf(*params),
            ({
                let chk = spec_decode_check(
                    input@.map_values(|pk: Packet| pk.bytes@),
                    *params,
                    old(output)@.len() as int,
                );
                &&& (r is Err) == (chk is Err)
                &&& (r is Err ==> r->Err_0 == chk->Err_0)
                &&& (r is Ok ==> r->Ok_0 as int == chk->Ok_0 as int)
            }),
            r is Ok ==> {
                let sv = spec_sanitize(input@.map_values(|pk: Packet| pk.bytes@), *params);
                let k = r->Ok_0 as int;
                &&& k <= final(output)@.len()
                &&& forall|i: int|
                    0 <= i < k ==> spec_packet_id(
                        (#[trigger] final(output)@[i]).bytes@,
                        *params,
                    ) == i
                &&& forall|j: int|
                    0 <= j < sv.len() && !spec_is_fec(#[trigger] sv[j], *params) ==> final(output)@[spec_packet_id(sv[j], *params) as int].bytes@ == sv[j]
                &&& forall|i: int|
                    0 <= i < k && !(exists|j: int|
                        0 <= j < sv.len() && !spec_is_fec(#[trigger] sv[j], *params)
                            && spec_packet_id(sv[j], *params) == i) ==> spec_rebuilt_packet(
                        (#[trigger] final(output)@[i]).bytes@,
                        sv,
                        *params,
                        k,
                        i,
                        sv[0][params.image_id_offset as int],
                        spec_masked_flags(spec_flags(sv[0], *params)),
                        (((spec_scan_dims(sv, *params))->Ok_0)->Some_0),
                    )
            },
            r is Err ==> final(output)@ == old(output)@,
    {
        let ghost pkts_bytes = input@.map_values(|pk: Packet| pk.bytes@);
        let survivors = sanitize(input, params);
        let k_res = find_num_systematic(&survivors, params);
        let k: u16 = match k_res {
            Ok(k) => k,
            Err(e) => {
                return Err(e);
            },
        };
        if survivors.len() == 0 || survivors.len() < k as usize {
            return Err(DecoderError::NotEnoughInput);
        }
        if output.len() < k as usize {
            return Err(DecoderError::OutputTooShort);
        }
        if !check_systematic_ids(&survivors, params, k) {
            return Err(DecoderError::WrongSystematicId);
        }
        match check_common_fields(&survivors, params) {
            Ok(()) => (),
            Err(e) => {
                return Err(e);
            },
        }
        let dims = match find_image_dimensions(&survivors, params) {
            Ok(Some(d)) => d,
            Ok(None) => {
                return Err(DecoderError::NoSystematic);
            },
            Err(e) => {
                return Err(e);
            },
        };
        proof {
            lemma_sanitize_distinct(pkts_bytes, *params);
            let svm = survivors@.map_values(|pk: Packet| pk.bytes@);
            assert forall|m2: int|
                0 <= m2 < survivors@.len() && !spec_is_fec(
                    (#[trigger] survivors@[m2]).bytes@,
                    *params,
                ) implies spec_packet_id(survivors@[m2].bytes@, *params) < k by {
                assert(svm[m2] == survivors@[m2].bytes@);
            }
            assert forall|j1: int, j2: int|
                0 <= j1 < j2 < survivors@.len() implies spec_packet_id(
                (#[trigger] survivors@[j1]).bytes@,
                *params,
            ) != spec_packet_id((#[trigger] survivors@[j2]).bytes@, *params) by {
                let sv = spec_sanitize(pkts_bytes, *params);
                assert(sv[j1] == survivors@[j1].bytes@);
                assert(sv[j2] == survivors@[j2].bytes@);
            }
        }
        let image_id = survivors[0].image_id(params);
        let masked = mask_flags(survivors[0].flags(params));
        copy_systematic(&survivors, output, params, k);
        interpolate_missing(&survivors, output, params, k, image_id, masked, dims);
        proof {
            let svb = spec_sanitize(pkts_bytes, *params);
            assert(svb.len() == survivors@.len());
            assert forall|j: int|
                0 <= j < survivors@.len() implies svb[j] == (#[trigger] survivors@[j]).bytes@ by {
            }
            assert forall|j: int|
                0 <= j < survivors@.len() implies (#[trigger] svb[j]) == survivors@[j].bytes@ by {
            }
            // The common fields handed to the rebuild are the spec's own.
            assert(survivors@.map_values(|pk: Packet| pk.bytes@) =~= svb);
            assert(svb[0] == survivors@[0].bytes@);
            assert(image_id == svb[0][params.image_id_offset as int]);
            assert(masked == spec_masked_flags(spec_flags(svb[0], *params)));
            assert(dims == ((((spec_scan_dims(svb, *params)))->Ok_0)->Some_0));
        }
        Ok(k as usize)
    }
}

/// How the EOI and FEC bits behave under the flag updates of the encoder and
/// decoder, and that the other bits are left alone.
proof fn lemma_flag_bits()
    by (bit_vector)
    ensures
        forall|f: u8| (((#[trigger] (f & !0x04u8)) | 0x04u8) & 0x04u8) != 0,
        forall|f: u8| ((f & !0x04u8) | 0u8) & 0x04u8 == 0,
        forall|f: u8| (((#[trigger] (f & !0x40u8)) | 0x40u8) & 0x40u8) != 0,
        forall|f: u8| ((f & !0x40u8) | 0u8) & 0x40u8 == 0,
        forall|f: u8, b: u8|
            b == 0x04u8 || b == 0u8 ==> ((#[trigger] ((f & !0x04u8) | b)) & 0x40u8) == (f
                & 0x40u8),
        forall|f: u8, b: u8|
            b == 0x40u8 || b == 0u8 ==> ((#[trigger] ((f & !0x40u8) | b)) & 0x04u8) == (f
                & 0x04u8),
{
}

} // verus!
