use ssdv_fec::crc::{crc32, crc32_dslwp};
use ssdv_fec::fec::{Decoder, DecoderError, Encoder, EncoderError};
use ssdv_fec::ssdv::{longjiang2_parameters, no_fec_parameters, Packet, Parameters};

fn make_image(p: &Parameters, k: u16) -> Vec<Packet> {
    let mut image = Vec::new();
    for i in 0..k {
        let mut pkt = Packet::new_zeroed(p);
        pkt.set_image_id(p, 7);
        pkt.set_packet_id(p, i);
        pkt.set_flags(p, 0);
        pkt.set_width(p, 32);
        pkt.set_height(p, 24);
        pkt.set_eoi(p, i + 1 == k);
        for r in 0..p.data_len / 2 {
            let w = (i as usize * 31 + r * 7 + 1) as u16;
            pkt.set_data_word(p, r, w);
        }
        pkt.update_crc32(p);
        image.push(pkt);
    }
    image
}

#[test]
fn crc32_known_value() {
    assert_eq!(crc32(b"123456789"), 0xCBF43926);
    assert_eq!(crc32(b""), 0);
    // The DSLWP variant differs from the standard one by its initial value.
    assert_ne!(crc32_dslwp(b"123456789"), crc32(b"123456789"));
}

#[test]
fn synthetic_image_has_valid_crcs() {
    let p = longjiang2_parameters();
    for pkt in make_image(&p, 4) {
        assert!(pkt.crc32_is_valid(&p));
        assert_eq!(pkt.crc32(&p), pkt.computed_crc32(&p));
    }
}

#[test]
fn encode_systematic_reproduces_input() {
    let p = longjiang2_parameters();
    let image = make_image(&p, 5);
    let encoder = Encoder::new(image.clone(), p.clone()).unwrap();
    let mut out = Packet::new_zeroed(&p);
    for i in 0..5u16 {
        encoder.encode(i, &mut out);
        assert_eq!(out, image[i as usize], "systematic packet {i} differs");
    }
}

#[test]
fn encode_decode_one_in_every_n() {
    let p = longjiang2_parameters();
    let k: u16 = 6;
    let image = make_image(&p, k);
    let encoder = Encoder::new(image.clone(), p.clone()).unwrap();
    for step in 1..=10u16 {
        let mut received = Vec::new();
        let mut out = Packet::new_zeroed(&p);
        for i in 0..k {
            encoder.encode(i * step, &mut out);
            received.push(out.clone());
        }
        let mut output = vec![Packet::new_zeroed(&p); k as usize];
        let n = Decoder::decode(&received, &mut output, &p).unwrap();
        assert_eq!(n, k as usize);
        for i in 0..k as usize {
            assert_eq!(output[i], image[i], "packet {i} differs at step {step}");
        }
    }
}

#[test]
fn decode_input_permutation_same_output() {
    let p = longjiang2_parameters();
    let k: u16 = 4;
    let image = make_image(&p, k);
    let encoder = Encoder::new(image.clone(), p.clone()).unwrap();
    let mut received = Vec::new();
    let mut out = Packet::new_zeroed(&p);
    for i in 0..k {
        encoder.encode(2 * i, &mut out);
        received.push(out.clone());
    }
    let mut output1 = vec![Packet::new_zeroed(&p); k as usize];
    Decoder::decode(&received, &mut output1, &p).unwrap();
    received.reverse();
    let mut output2 = vec![Packet::new_zeroed(&p); k as usize];
    Decoder::decode(&received, &mut output2, &p).unwrap();
    assert_eq!(output1, output2);
}

#[test]
fn decode_duplicate_packet_same_output() {
    let p = longjiang2_parameters();
    let k: u16 = 3;
    let image = make_image(&p, k);
    let encoder = Encoder::new(image.clone(), p.clone()).unwrap();
    let mut received = Vec::new();
    let mut out = Packet::new_zeroed(&p);
    for i in 0..k {
        encoder.encode(i + 1, &mut out);
        received.push(out.clone());
    }
    let mut output1 = vec![Packet::new_zeroed(&p); k as usize];
    Decoder::decode(&received, &mut output1, &p).unwrap();
    received.insert(1, received[0].clone());
    let mut output2 = vec![Packet::new_zeroed(&p); k as usize];
    Decoder::decode(&received, &mut output2, &p).unwrap();
    assert_eq!(output1, output2);
}

#[test]
fn decode_drops_corrupted_packet() {
    let p = longjiang2_parameters();
    let k: u16 = 3;
    let image = make_image(&p, k);
    let encoder = Encoder::new(image.clone(), p.clone()).unwrap();
    let mut received = Vec::new();
    let mut out = Packet::new_zeroed(&p);
    // One spare packet beyond k, so one corrupted packet can be afforded.
    for i in 0..k + 1 {
        encoder.encode(i, &mut out);
        received.push(out.clone());
    }
    // Flip a data byte of the first packet: its CRC no longer matches.
    received[0].bytes[10] ^= 0xFF;
    assert!(!received[0].crc32_is_valid(&p));
    let mut output = vec![Packet::new_zeroed(&p); k as usize];
    let n = Decoder::decode(&received, &mut output, &p).unwrap();
    assert_eq!(n, k as usize);
    for i in 0..k as usize {
        assert_eq!(output[i], image[i]);
    }
}

#[test]
fn decode_not_enough_input() {
    let p = longjiang2_parameters();
    let k: u16 = 4;
    let image = make_image(&p, k);
    // Keep only the last packet (which carries EOI, so k is known) and one
    // more: two distinct valid packets for an image of four.
    let received = vec![image[0].clone(), image[k as usize - 1].clone()];
    let mut output = vec![Packet::new_zeroed(&p); k as usize];
    assert_eq!(
        Decoder::decode(&received, &mut output, &p),
        Err(DecoderError::NotEnoughInput)
    );
}

#[test]
fn single_packet_image_roundtrip() {
    let p = longjiang2_parameters();
    let image = make_image(&p, 1);
    let encoder = Encoder::new(image.clone(), p.clone()).unwrap();
    let mut out = Packet::new_zeroed(&p);
    encoder.encode(0, &mut out);
    assert_eq!(out, image[0]);
    let received = vec![out];
    let mut output = vec![Packet::new_zeroed(&p)];
    let n = Decoder::decode(&received, &mut output, &p).unwrap();
    assert_eq!(n, 1);
    assert_eq!(output[0], image[0]);
}

#[test]
fn fec_packets_with_mismatched_count() {
    let p = longjiang2_parameters();
    let mut a = Packet::new_zeroed(&p);
    a.set_image_id(&p, 7);
    a.set_packet_id(&p, 2);
    a.set_flags(&p, 0);
    a.set_fec_packet(&p, true);
    a.set_number_systematic_packets(&p, 2);
    a.update_crc32(&p);
    let mut b = Packet::new_zeroed(&p);
    b.set_image_id(&p, 7);
    b.set_packet_id(&p, 3);
    b.set_flags(&p, 0);
    b.set_fec_packet(&p, true);
    b.set_number_systematic_packets(&p, 3);
    b.update_crc32(&p);
    let received = vec![a, b];
    let mut output = vec![Packet::new_zeroed(&p); 4];
    assert_eq!(
        Decoder::decode(&received, &mut output, &p),
        Err(DecoderError::NumSystematicMismatch)
    );
}

#[test]
fn eoi_on_fec_packet_is_rejected() {
    let p = longjiang2_parameters();
    let mut a = Packet::new_zeroed(&p);
    a.set_image_id(&p, 7);
    a.set_packet_id(&p, 5);
    a.set_flags(&p, 0);
    a.set_fec_packet(&p, true);
    a.set_eoi(&p, true);
    a.set_number_systematic_packets(&p, 2);
    a.update_crc32(&p);
    let received = vec![a];
    let mut output = vec![Packet::new_zeroed(&p); 4];
    assert_eq!(
        Decoder::decode(&received, &mut output, &p),
        Err(DecoderError::EoiOnFecPacket)
    );
}

#[test]
fn encoder_rejects_bad_input() {
    let p = longjiang2_parameters();
    assert_eq!(
        Encoder::new(Vec::new(), p.clone()).err(),
        Some(EncoderError::EmptyInput)
    );
    let mut fec_first = make_image(&p, 2);
    fec_first[0].set_fec_packet(&p, true);
    assert_eq!(
        Encoder::new(fec_first, p.clone()).err(),
        Some(EncoderError::NonSystematicInput)
    );
}

#[test]
fn no_fec_format_roundtrip() {
    let p = no_fec_parameters();
    let k: u16 = 3;
    let mut image = Vec::new();
    for i in 0..k {
        let mut pkt = Packet::new_zeroed(&p);
        pkt.set_fixed_fields(&p);
        pkt.bytes[2] = b'T';
        pkt.bytes[3] = b'E';
        pkt.bytes[4] = b'S';
        pkt.bytes[5] = b'T';
        pkt.set_image_id(&p, 3);
        pkt.set_packet_id(&p, i);
        pkt.set_flags(&p, 0);
        pkt.set_width(&p, 8);
        pkt.set_height(&p, 8);
        pkt.set_eoi(&p, i + 1 == k);
        for r in 0..p.data_len / 2 {
            pkt.set_data_word(&p, r, (i * 100 + r as u16) ^ 0x55AA);
        }
        pkt.update_crc32(&p);
        image.push(pkt);
    }
    let encoder = Encoder::new(image.clone(), p.clone()).unwrap();
    let mut received = Vec::new();
    let mut out = Packet::new_zeroed(&p);
    // One systematic packet (for the dimensions) and two FEC packets
    // (which declare the packet count).
    for id in [1, k, k + 1] {
        encoder.encode(id, &mut out);
        received.push(out.clone());
    }
    let mut output = vec![Packet::new_zeroed(&p); k as usize];
    let n = Decoder::decode(&received, &mut output, &p).unwrap();
    assert_eq!(n, k as usize);
    for i in 0..k as usize {
        assert_eq!(output[i], image[i], "packet {i} differs");
    }
}
