use vstd::prelude::*;

use crate::errors::DlError;

verus! {

/// The encryption method a key reference names.
#[derive(Clone, Copy, Debug, PartialEq, Eq, Structural)]
pub enum KeyType {
    Plain,
    Aes128,
    SampleAes,
}

/// The decryption key in effect for a segment: the method, the optional
/// initialization-vector string of the playlist, and the fetched key bytes
/// (empty when no decryption is needed).
#[derive(Debug)]
pub struct Key {
    pub ty: KeyType,
    pub iv: Option<Vec<u8>>,
    pub content: Vec<u8>,
}

/// The mathematical shape of a `Key`.
#[verifier::ext_equal]
pub struct KeyModel {
    pub ty: KeyType,
    pub iv: Option<Seq<u8>>,
    pub content: Seq<u8>,
}

pub open spec fn opt_bytes_view(o: Option<Vec<u8>>) -> Option<Seq<u8>> {
    match o {
        Some(v) => Some(v@),
        None => None,
    }
}

impl View for Key {
    type V = KeyModel;

    open spec fn view(&self) -> KeyModel {
        KeyModel { ty: self.ty, iv: opt_bytes_view(self.iv), content: self.content@ }
    }
}

/// The key in effect before any key reference has been seen: no decryption.
pub open spec fn default_key_model() -> KeyModel {
    KeyModel { ty: KeyType::Plain, iv: None, content: Seq::empty() }
}

impl Default for Key {
    /// A no-op key: segments are taken as they come.
    fn default() -> (r: Key)
        ensures
            r@ == default_key_model(),
    {
        Key { ty: KeyType::Plain, iv: None, content: Vec::new() }
    }
}

/// The method string `NONE`.
pub open spec fn method_none_bytes() -> Seq<u8> {
    seq![78u8, 79u8, 78u8, 69u8]
}

/// The method string `AES-128`.
pub open spec fn method_aes_bytes() -> Seq<u8> {
    seq![65u8, 69u8, 83u8, 45u8, 49u8, 50u8, 56u8]
}

/// Is `m` the method string `NONE`?
pub fn is_method_none(m: &[u8]) -> (r: bool)
    ensures
        r == (m@ == method_none_bytes()),
{
    let r = m.len() == 4 && m[0] == 78 && m[1] == 79 && m[2] == 78 && m[3] == 69;
    proof {
        assert(r == (m@ =~= method_none_bytes()));
    }
    r
}

/// Is `m` the method string `AES-128`?
pub fn is_method_aes(m: &[u8]) -> (r: bool)
    ensures
        r == (m@ == method_aes_bytes()),
{
    let r = m.len() == 7 && m[0] == 65 && m[1] == 69 && m[2] == 83 && m[3] == 45 && m[4] == 49
        && m[5] == 50 && m[6] == 56;
    proof {
        assert(r == (m@ =~= method_aes_bytes()));
    }
    r
}

fn clone_opt_bytes(o: &Option<Vec<u8>>) -> (r: Option<Vec<u8>>)
    ensures
        opt_bytes_view(r) == opt_bytes_view(*o),
{
    match o {
        Some(v) => Some(vstd::slice::slice_to_vec(v.as_slice())),
        None => None,
    }
}

impl Key {
    /// A copy of this key, taken at dispatch time so that a task keeps the
    /// key that was in effect for its segment whatever is resolved later.
    pub fn snapshot(&self) -> (r: Key)
        ensures
            r@ == self@,
    {
        Key {
            ty: self.ty,
            iv: clone_opt_bytes(&self.iv),
            content: vstd::slice::slice_to_vec(self.content.as_slice()),
        }
    }

    /// Builds the key a key reference resolves to. `NONE` turns decryption
    /// off; `AES-128` takes the bytes fetched from the reference's URI; any
    /// other method is an unsupported configuration, fatal for the run.
    pub fn from_key(method: &Vec<u8>, iv: &Option<Vec<u8>>, fetched: Option<Vec<u8>>) -> (r: Result<
        Key,
        DlError,
    >)
        requires
            method@ == method_aes_bytes() ==> fetched is Some,
        ensures
            method@ == method_none_bytes() ==> r is Ok && r->Ok_0@ == (KeyModel {
                ty: KeyType::Plain,
                iv: opt_bytes_view(*iv),
                content: Seq::empty(),
            }),
            method@ == method_aes_bytes() ==> r is Ok && r->Ok_0@ == (KeyModel {
                ty: KeyType::Aes128,
                iv: opt_bytes_view(*iv),
                content: fetched->0@,
            }),
            r is Err <==> method@ != method_none_bytes() && method@ != method_aes_bytes(),
            r is Err ==> r->Err_0 == DlError::UnsupportedKeyMethod,
    {
        if is_method_none(method.as_slice()) {
            Ok(Key { ty: KeyType::Plain, iv: clone_opt_bytes(iv), content: Vec::new() })
        } else if is_method_aes(method.as_slice()) {
            let content = match fetched {
                Some(v) => v,
                None => Vec::new(),
            };
            Ok(Key { ty: KeyType::Aes128, iv: clone_opt_bytes(iv), content })
        } else {
            Err(DlError::UnsupportedKeyMethod)
        }
    }

    /// A segment is decrypted only when a real method is in effect.
    pub fn needs_decryption(&self) -> (r: bool)
        ensures
            r == !(self.ty is Plain),
    {
        !matches!(self.ty, KeyType::Plain)
    }

    /// Decrypts one segment's bytes with this key: the first 16 bytes are
    /// the IV, the rest is decrypted in CBC mode, and the PKCS#7 tail is
    /// stripped. `None` exactly when the data is not well-formed ciphertext
    /// for this key, so the result is a function of the key and the data.
    #[verifier::loop_isolation(false)]
    pub fn decode(&self, data: &[u8]) -> (r: Option<Vec<u8>>)
        requires
            self.content@.len() == 16,
        ensures
            opt_bytes_view(r) == decode_spec(self.content@, data@),
    {
        let n = data.len();
        if n < 16 || (n - 16) % 16 != 0 {
            return None;
        }
        if n == 16 {
            return Some(Vec::new());
        }
        let iv = vstd::slice::slice_subrange(data, 0, 16);
        let ct = vstd::slice::slice_subrange(data, 16, n);
        let mut raw = aes_cbc_decrypt_blocks(self.content.as_slice(), iv, ct);
        let len = raw.len();
        let pad_byte = raw[len - 1];
        if pad_byte > 16 {
            return None;
        }
        let pad = pad_byte as usize;
        let mut j = len - pad;
        while j < len
            invariant
                len == raw@.len(),
                raw@.len() >= 16,
                pad_byte == raw@.last(),
                pad == raw@.last(),
                pad <= 16,
                len - pad <= j <= len,
                forall|k: int| len - pad <= k < j ==> raw@[k] == raw@.last(),
            decreases len - j,
        {
            if raw[j] != pad_byte {
                proof {
                    let w = j as int;
                    assert(raw@.len() - raw@.last() <= w < raw@.len() && raw@[w] != raw@.last());
                    assert(!pkcs_pad_ok(raw@));
                }
                return None;
            }
            j = j + 1;
        }
        proof {
            assert(pkcs_pad_ok(raw@));
        }
        raw.truncate(len - pad);
        proof {
            assert(raw@ =~= pkcs_strip(aes_cbc_blocks_of(
                self.content@,
                data@.subrange(0, 16),
                data@.subrange(16, data@.len() as int),
            )));
        }
        Some(raw)
    }
}

/// A raw decryption whose PKCS#7 tail can be stripped as the stream reader
/// strips it: the last byte names the pad length, it fits in one block and
/// in the data, and the tail it names repeats that byte.
pub open spec fn pkcs_pad_ok(raw: Seq<u8>) -> bool {
    &&& raw.len() >= 16
    &&& raw.last() <= 16
    &&& forall|k: int| raw.len() - raw.last() <= k < raw.len() ==> raw[k] == raw.last()
}

/// The raw decryption with its PKCS#7 tail removed.
pub open spec fn pkcs_strip(raw: Seq<u8>) -> Seq<u8> {
    raw.subrange(0, raw.len() - raw.last())
}

/// What decoding yields for every key and every input: too little data or a
/// partial block is malformed; an IV alone decodes to nothing; otherwise the
/// blocks after the IV are decrypted and the result stands or falls with its
/// PKCS#7 tail. A total function of the key and the data, so equal inputs
/// always decode alike.
pub open spec fn decode_spec(key: Seq<u8>, data: Seq<u8>) -> Option<Seq<u8>> {
    if data.len() < 16 || (data.len() - 16) % 16 != 0 {
        None
    } else if data.len() == 16 {
        Some(Seq::empty())
    } else {
        let raw = aes_cbc_blocks_of(
            key,
            data.subrange(0, 16),
            data.subrange(16, data.len() as int),
        );
        if pkcs_pad_ok(raw) {
            Some(pkcs_strip(raw))
        } else {
            None
        }
    }
}

/// What AES-128-CBC block decryption of `ct` under `key` with `iv` yields,
/// with no padding interpretation: a function of exactly these arguments.
pub uninterp spec fn aes_cbc_blocks_of(key: Seq<u8>, iv: Seq<u8>, ct: Seq<u8>) -> Seq<u8>;

/// Relies on crypto::aes::cbc_decryptor with crypto::blockmodes::NoPadding:
/// one `decrypt` call over the whole input decrypts block for block, writing
/// exactly as many bytes as it reads. With full blocks and no padding mode
/// its error states (a partial final block, a rejected pad) cannot arise, so
/// the call returns the plaintext for every input the `requires` admits; the
/// AES key schedule aborts on a key that is not 16 bytes, which the
/// `requires` leaves out. The result depends on the arguments alone.
#[verifier::external_body]
fn aes_cbc_decrypt_blocks(key: &[u8], iv: &[u8], ct: &[u8]) -> (r: Vec<u8>)
    requires
        key@.len() == 16,
        iv@.len() == 16,
        ct@.len() % 16 == 0,
    ensures
        r@ == aes_cbc_blocks_of(key@, iv@, ct@),
        r@.len() == ct@.len(),
{
    let mut decryptor = crypto::aes::cbc_decryptor(
        crypto::aes::KeySize::KeySize128,
        key,
        iv,
        crypto::blockmodes::NoPadding,
    );
    let mut out = vec![0u8; ct.len()];
    let mut input = crypto::buffer::RefReadBuffer::new(ct);
    let mut output = crypto::buffer::RefWriteBuffer::new(&mut out);
    decryptor.decrypt(&mut input, &mut output, true).expect("full blocks always decrypt");
    out
}

} // verus!
