use vstd::prelude::*;
use vstd::utf8::encode_utf8;

verus! {

/// Wi-Fi credentials as entered on the setup page and kept in flash.
#[derive(Debug)]
pub struct WifiCredentials {
    pub ssid: String,
    pub password: String,
}

/// Capacity, in bytes, of the SSID field of the Wi-Fi client configuration.
pub const SSID_CAPACITY: usize = 32;

/// Capacity, in bytes, of the password field of the Wi-Fi client
/// configuration.
pub const PASSWORD_CAPACITY: usize = 64;

/// Whether the credentials fit the Wi-Fi client configuration: the UTF-8
/// encoding of the SSID takes at most `SSID_CAPACITY` bytes and that of the
/// password at most `PASSWORD_CAPACITY` bytes.
pub fn credentials_fit(creds: &WifiCredentials) -> (res: bool)
    ensures
        res == (encode_utf8(creds.ssid@).len() <= SSID_CAPACITY
            && encode_utf8(creds.password@).len() <= PASSWORD_CAPACITY),
{
    creds.ssid.as_str().as_bytes().len() <= SSID_CAPACITY
        && creds.password.as_str().as_bytes().len() <= PASSWORD_CAPACITY
}

/// Size of the buffer into which the stored credential blob is read back.
pub const CREDS_BUFFER_LEN: usize = 512;

/// The length field written beside a credential blob of `n` bytes: the
/// field is 16 bits wide, so the length is kept modulo 2^16.
pub open spec fn length_field(n: nat) -> u16 {
    (n % 0x10000) as u16
}

/// The credential bytes read back: the first `len` bytes of the blob
/// buffer, where a missing length field counts as 0.
pub open spec fn stored_bytes(len: Option<u16>, buf: Seq<u8>) -> Seq<u8> {
    buf.take(len.unwrap_or(0) as int)
}

/// The length field keeps every length below 2^16 as it is, and lengths
/// that differ by a multiple of 2^16 get the same field.
pub proof fn lemma_length_field(n: nat, m: nat)
    ensures
        n < 0x10000 ==> length_field(n) == n,
        length_field(n + 0x10000 * m) == length_field(n),
        length_field(n) + 0x10000 * (n / 0x10000) == n,
{
    assert((n + 0x10000 * m) % 0x10000 == n % 0x10000) by (nonlinear_arith);
    assert(n % 0x10000 + 0x10000 * (n / 0x10000) == n) by (nonlinear_arith);
}

/// The bytes read back are empty without a stored length, whatever the
/// buffer holds; with a stored length `l` (within the buffer) they are the
/// first `l` bytes of the buffer.
pub proof fn lemma_stored_bytes(len: Option<u16>, buf: Seq<u8>)
    requires
        len.unwrap_or(0) <= buf.len(),
    ensures
        len is None ==> stored_bytes(len, buf).len() == 0,
        len matches Some(l) ==> stored_bytes(len, buf).len() == l
            && forall|i: int| 0 <= i < l ==> stored_bytes(len, buf)[i] == buf[i],
        len matches Some(l) ==> stored_bytes(len, buf) + buf.skip(l as int) == buf,
{
    if let Some(l) = len {
        assert(stored_bytes(len, buf) + buf.skip(l as int) =~= buf);
    }
}

/// The length field to store beside a serialized credential blob of
/// `blob_len` bytes.
pub fn credentials_length_field(blob_len: usize) -> (res: u16)
    ensures
        res == length_field(blob_len as nat),
        blob_len < 0x10000 ==> res == blob_len,
        res + 0x10000 * (blob_len / 0x10000) == blob_len,
{
    let r = blob_len as u16;
    assert(r == blob_len % 0x10000) by (bit_vector)
        requires
            r == blob_len as u16,
    ;
    r
}

/// The serialized credentials held in `buf` (the blob read back from
/// flash) according to the stored length field `len`.
pub fn stored_credentials(len: Option<u16>, buf: &[u8]) -> (res: Vec<u8>)
    requires
        len.unwrap_or(0) <= buf@.len(),
    ensures
        res@ == stored_bytes(len, buf@),
        len is None ==> res@.len() == 0,
        len matches Some(l) ==> res@.len() == l && forall|i: int| 0 <= i < l ==> res@[i] == buf@[i],
{
    let n: u16 = match len {
        Some(l) => l,
        None => 0,
    };
    let n = n as usize;
    let mut out: Vec<u8> = Vec::new();
    let mut i: usize = 0;
    while i < n
        invariant
            n <= buf@.len(),
            i <= n,
            out@ == buf@.take(i as int),
        decreases n - i,
    {
        out.push(buf[i]);
        i = i + 1;
        assert(out@ =~= buf@.take(i as int));
    }
    out
}

/// Reading the credentials back gives what was written: when a blob of at
/// most `CREDS_BUFFER_LEN` bytes is stored with its length field, and the
/// read buffer starts with that blob, the bytes read back are the blob.
pub proof fn lemma_credentials_round_trip(blob: Seq<u8>, buf: Seq<u8>)
    requires
        blob.len() <= CREDS_BUFFER_LEN,
        buf.len() == CREDS_BUFFER_LEN,
        buf.take(blob.len() as int) == blob,
    ensures
        stored_bytes(Some(length_field(blob.len())), buf) == blob,
{
    assert(length_field(blob.len()) == blob.len());
}

} // verus!
