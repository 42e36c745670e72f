//! A systematic erasure FEC codec for SSDV images.
//!
//! An SSDV image is a sequence of k fixed-size packets. The encoder turns it
//! into up to 2^16 distinct packets, identified by a 16-bit packet id, such
//! that any k distinct received packets suffice to reconstruct the image.
//! Packets with ids below k are the original "systematic" packets; the rest
//! are parity ("FEC") packets, evaluations of the Lagrange interpolation
//! polynomial of the image data over GF(2^16).

pub mod crc;
pub mod gf256;
pub mod gf256_laws;
pub mod gf64k;
pub mod fec;
pub mod ssdv;
