//! Trusted boundary to the byte transport: reading a chunk from any
//! `std::io::Read` source and writing to any `std::io::Write` sink. What the
//! bytes mean is decided elsewhere; these wrappers state only what holds of
//! every outcome of the call.

use vstd::prelude::*;

verus! {

#[verifier::external_type_specification]
#[verifier::external_body]
pub struct ExIoError(std::io::Error);

/// Relies on `std::io::Read::read`: it reads at most `max` bytes, an empty
/// result meaning end of data, and reports errors unchanged. Which bytes
/// arrive depends on the source, so nothing more is promised.
#[verifier::external_body]
pub fn read_chunk<R: std::io::Read>(src: &mut R, max: usize) -> (r: Result<Vec<u8>, std::io::Error>)
    ensures
        r matches Ok(v) ==> v@.len() <= max,
{
    let mut buf = vec![0u8; max];
    match src.read(&mut buf) {
        Ok(n) => {
            buf.truncate(n);
            Ok(buf)
        }
        Err(e) => Err(e),
    }
}

/// Relies on `std::io::Write::write_all`: on success the whole buffer was
/// handed to the sink; errors come back unchanged.
#[verifier::external_body]
pub fn write_sink<W: std::io::Write>(w: &mut W, buf: &[u8]) -> (r: Result<(), std::io::Error>) {
    w.write_all(buf)
}

/// Relies on `std::io::Write::flush`: errors come back unchanged.
#[verifier::external_body]
pub fn flush_sink<W: std::io::Write>(w: &mut W) -> (r: Result<(), std::io::Error>) {
    w.flush()
}

} // verus!
