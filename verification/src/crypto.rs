//! Password encryption for the authentication portal: a key derived from the
//! user name, PKCS#7 padding, DES in ECB mode and lower-case hex output.

use des::cipher::{BlockEncrypt, KeyInit};
use hex::ToHex;
use vstd::prelude::*;
use vstd::utf8::is_char_boundary;
use vstd::slice::slice_to_vec;
use vstd::string::*;

verus! {

broadcast use vstd::string::group_string_axioms;

/// Size in bytes of a DES block and of a DES key.
pub const BLOCK_SIZE: usize = 8;

// ---------------------------------------------------------------------------
// Key derivation

/// The bytes appended to every key derivation: the ASCII text `12345678`.
pub open spec fn key_suffix() -> Seq<u8> {
    seq![0x31u8, 0x32u8, 0x33u8, 0x34u8, 0x35u8, 0x36u8, 0x37u8, 0x38u8]
}

/// The last four bytes of the user name, or the whole name when it is shorter.
pub open spec fn key_tail(name: Seq<u8>) -> Seq<u8> {
    if name.len() >= 4 {
        name.skip(name.len() - 4)
    } else {
        name
    }
}

/// The byte string the key is cut from: tail, whole name, then `12345678`.
pub open spec fn key_material(name: Seq<u8>) -> Seq<u8> {
    key_tail(name) + name + key_suffix()
}

/// The DES key derived from the UTF-8 bytes of a user name.
pub open spec fn derived_key(name: Seq<u8>) -> Seq<u8> {
    key_material(name).take(8)
}

/// Cutting the last four bytes off the name falls on a character boundary
/// (always so for names shorter than four bytes).
pub open spec fn key_tail_on_boundary(name: Seq<u8>) -> bool {
    name.len() < 4 || is_char_boundary(name, name.len() - 4)
}

/// Derives the 8-byte DES key from a user name: the first eight bytes of
/// (last four bytes of the name) + (the name) + `12345678`.
pub fn make_key(username: &str) -> (key: [u8; 8])
    requires
        key_tail_on_boundary(username.spec_bytes()),
    ensures
        key@ == derived_key(username.spec_bytes()),
{
    let bytes = username.as_bytes();
    let ghost name = username.spec_bytes();
    let len = bytes.len();
    let start: usize = if len >= 4 { len - 4 } else { 0 };

    let mut material: Vec<u8> = Vec::with_capacity(32);
    let mut i: usize = start;
    while i < len
        invariant
            bytes@ == name,
            len == name.len(),
            start <= i <= len,
            material@ == name.subrange(start as int, i as int),
        decreases len - i,
    {
        material.push(bytes[i]);
        i = i + 1;
        assert(material@ =~= name.subrange(start as int, i as int));
    }
    assert(material@ =~= key_tail(name));
    let mut j: usize = 0;
    while j < len
        invariant
            bytes@ == name,
            len == name.len(),
            j <= len,
            material@ == key_tail(name) + name.take(j as int),
        decreases len - j,
    {
        material.push(bytes[j]);
        j = j + 1;
        assert(material@ =~= key_tail(name) + name.take(j as int));
    }
    assert(name.take(len as int) =~= name);
    let suffix: [u8; 8] = [0x31u8, 0x32u8, 0x33u8, 0x34u8, 0x35u8, 0x36u8, 0x37u8, 0x38u8];
    let mut k: usize = 0;
    while k < 8
        invariant
            suffix@ == key_suffix(),
            k <= 8,
            material@ == key_tail(name) + name + key_suffix().take(k as int),
        decreases 8 - k,
    {
        material.push(suffix[k]);
        k = k + 1;
        assert(material@ =~= key_tail(name) + name + key_suffix().take(k as int));
    }
    assert(key_suffix().take(8) =~= key_suffix());
    assert(material@ == key_material(name));

    let mut key: [u8; 8] = [0u8; 8];
    let n: usize = if material.len() < BLOCK_SIZE { material.len() } else { BLOCK_SIZE };
    let mut m: usize = 0;
    while m < n
        invariant
            n == 8,
            material@ == key_material(name),
            m <= n,
            forall|t: int| 0 <= t < m ==> key@[t] == material@[t],
        decreases n - m,
    {
        key[m] = material[m];
        m = m + 1;
    }
    assert(key@ =~= derived_key(name));
    key
}

// ---------------------------------------------------------------------------
// PKCS#7 padding

/// Number of padding bytes PKCS#7 appends to a message of `len` bytes.
pub open spec fn pkcs7_pad_len(len: nat) -> nat {
    (8 - len % 8) as nat
}

/// `data` followed by `pkcs7_pad_len(data.len())` copies of that length.
pub open spec fn pkcs7_padded(data: Seq<u8>) -> Seq<u8> {
    let p = pkcs7_pad_len(data.len());
    data + Seq::new(p, |i: int| p as u8)
}

/// Appends PKCS#7 padding for 8-byte blocks.
pub fn pkcs7_pad(data: Vec<u8>) -> (padded: Vec<u8>)
    ensures
        padded@ == pkcs7_padded(data@),
        padded@.len() % 8 == 0,
        data@.len() < padded@.len() <= data@.len() + 8,
{
    let mut data = data;
    let ghost orig = data@;
    let pad_len: usize = BLOCK_SIZE - (data.len() % BLOCK_SIZE);
    let byte: u8 = pad_len as u8;
    let mut i: usize = 0;
    while i < pad_len
        invariant
            1 <= pad_len <= 8,
            pad_len == pkcs7_pad_len(orig.len()),
            byte == pad_len,
            i <= pad_len,
            data@ == orig + Seq::new(i as nat, |k: int| pad_len as u8),
        decreases pad_len - i,
    {
        data.push(byte);
        i = i + 1;
        assert(data@ =~= orig + Seq::new(i as nat, |k: int| pad_len as u8));
    }
    data
}

/// Padding can always be taken off again: the last byte of a padded message
/// names how many bytes were added, and dropping them gives the message back.
pub proof fn pkcs7_padding_is_removable(data: Seq<u8>)
    ensures
        ({
            let padded = pkcs7_padded(data);
            let p = padded.last() as int;
            &&& 1 <= p <= 8
            &&& p <= padded.len()
            &&& padded.len() % 8 == 0
            &&& padded.len() == data.len() + p
            &&& forall|i: int| padded.len() - p <= i < padded.len() ==> padded[i] == p
            &&& padded.take(padded.len() - p) == data
        }),
{
    let padded = pkcs7_padded(data);
    let p = pkcs7_pad_len(data.len());
    assert(padded.last() == p as u8);
    assert(padded.take(padded.len() - p) =~= data);
}

// ---------------------------------------------------------------------------
// DES in ECB mode

/// Declares the `des` crate's `Des` block cipher; Verus sees nothing inside it.
#[verifier::external_type_specification]
#[verifier::external_body]
pub struct ExDes(des::Des);

/// What the `des` crate's `Des` cipher, keyed with `key`, makes of one 8-byte
/// block.
pub uninterp spec fn des_encrypt_block(key: Seq<u8>, block: Seq<u8>) -> Seq<u8>;

/// A DES cipher together with the key it was made from. Only
/// `DesCipher::new` builds one, so `key` is always the cipher's own key.
pub struct DesCipher {
    inner: des::Des,
    key: [u8; 8],
}

impl DesCipher {
    /// The key the cipher was made with.
    pub closed spec fn key(&self) -> Seq<u8> {
        self.key@
    }

    /// Calls `des::Des::new_from_slice` (`KeyInit`) on the 8-byte key and keeps
    /// the key beside the cipher. The call fails only on a key whose length is
    /// not 8, which an `[u8; 8]` cannot be.
    #[verifier::external_body]
    pub(crate) fn new(key: [u8; 8]) -> (cipher: DesCipher)
        ensures
            cipher.key() == key@,
    {
        DesCipher { inner: des::Des::new_from_slice(&key).expect("DES 密钥必须为 8 字节"), key }
    }

    /// Calls `BlockEncrypt::encrypt_block` of `des::Des` on one block. Claimed:
    /// the result is `des_encrypt_block` of the cipher's key and the block, a
    /// function of those two alone.
    #[verifier::external_body]
    pub(crate) fn encrypt_block(&self, block: [u8; 8]) -> (out: [u8; 8])
        ensures
            out@ == des_encrypt_block(self.key(), block@),
    {
        let mut buf = des::cipher::generic_array::GenericArray::from(block);
        self.inner.encrypt_block(&mut buf);
        buf.into()
    }
}

/// DES in ECB mode over the whole 8-byte blocks of `data`; a trailing partial
/// block is left as it is.
pub open spec fn des_ecb(key: Seq<u8>, data: Seq<u8>) -> Seq<u8>
    decreases data.len(),
{
    if data.len() < 8 {
        data
    } else {
        des_encrypt_block(key, data.take(8)) + des_ecb(key, data.skip(8))
    }
}

/// Encrypts every whole 8-byte block of `data`, in order, keeping a trailing
/// partial block as it is.
fn encrypt_blocks(cipher: &DesCipher, data: &[u8]) -> (out: Vec<u8>)
    ensures
        out@ == des_ecb(cipher.key(), data@),
        data@.len() % 8 == 0 ==> out@.len() == data@.len(),
        forall|j: int|
            0 <= j <= data@.len() / 8 ==> #[trigger] out@.take(8 * j) == des_ecb(
                cipher.key(),
                data@.take(8 * j),
            ),
{
    let len = data.len();
    let ghost key = cipher.key();
    let mut out: Vec<u8> = Vec::with_capacity(len);
    let mut pos: usize = 0;
    assert(data@.skip(0) =~= data@);
    while len - pos >= BLOCK_SIZE
        invariant
            len == data@.len(),
            key == cipher.key(),
            pos <= len,
            pos % 8 == 0,
            out@.len() == pos,
            des_ecb(key, data@) == out@ + des_ecb(key, data@.skip(pos as int)),
            forall|j: int|
                0 <= j <= pos / 8 ==> #[trigger] out@.take(8 * j) == des_ecb(key, data@.take(8 * j)),
        decreases len - pos,
    {
        let mut block: [u8; 8] = [0u8; 8];
        let mut k: usize = 0;
        while k < BLOCK_SIZE
            invariant
                len == data@.len(),
                pos + 8 <= len,
                k <= 8,
                forall|t: int| 0 <= t < k ==> block@[t] == data@[pos + t],
            decreases 8 - k,
        {
            block[k] = data[pos + k];
            k = k + 1;
        }
        let ghost rest = data@.skip(pos as int);
        assert(block@ =~= rest.take(8));
        assert(rest.skip(8) =~= data@.skip(pos + 8));
        let enc = cipher.encrypt_block(block);
        let mut t: usize = 0;
        let ghost before = out@;
        while t < BLOCK_SIZE
            invariant
                t <= 8,
                out@ == before + enc@.take(t as int),
            decreases 8 - t,
        {
            out.push(enc[t]);
            t = t + 1;
            assert(out@ =~= before + enc@.take(t as int));
        }
        assert(enc@.take(8) =~= enc@);
        assert(out@ =~= before + enc@);
        assert(des_ecb(key, rest) == enc@ + des_ecb(key, data@.skip(pos + 8)));
        assert(des_ecb(key, data@) == out@ + des_ecb(key, data@.skip(pos + 8)));
        proof {
            let first = data@.take(pos as int);
            let blk = data@.subrange(pos as int, pos + 8);
            assert(first + blk =~= data@.take(pos + 8));
            des_ecb_blockwise(key, first, blk);
            assert(blk =~= rest.take(8));
            assert(blk.take(8) =~= blk);
            assert(blk.skip(8) =~= Seq::<u8>::empty());
            assert(blk.len() == 8);
            assert(des_ecb(key, blk.skip(8)) =~= Seq::<u8>::empty());
            assert(des_ecb(key, blk) == des_encrypt_block(key, blk.take(8)) + des_ecb(key, blk.skip(8)));
            assert(enc@ == des_encrypt_block(key, blk));
            assert(des_ecb(key, blk) =~= enc@);
            assert(before.take(8 * (pos / 8)) == des_ecb(key, data@.take(8 * (pos / 8))));
            assert(before.take(pos as int) =~= before);
            assert(before == des_ecb(key, first));
            assert forall|j: int| 0 <= j <= (pos + 8) / 8 implies #[trigger] out@.take(8 * j)
                == des_ecb(key, data@.take(8 * j)) by {
                if j <= pos / 8 {
                    assert(out@.take(8 * j) =~= before.take(8 * j));
                } else {
                    assert(out@.take(8 * j) =~= out@);
                }
            }
        }
        pos = pos + BLOCK_SIZE;
    }
    let ghost tail = data@.skip(pos as int);
    let ghost before = out@;
    let mut r: usize = pos;
    while r < len
        invariant
            len == data@.len(),
            pos <= r <= len,
            out@ == before + data@.subrange(pos as int, r as int),
        decreases len - r,
    {
        out.push(data[r]);
        r = r + 1;
        assert(out@ =~= before + data@.subrange(pos as int, r as int));
    }
    assert(data@.subrange(pos as int, len as int) =~= tail);
    assert forall|j: int| 0 <= j <= len / 8 implies #[trigger] out@.take(8 * j) == des_ecb(
        key,
        data@.take(8 * j),
    ) by {
        assert(out@.take(8 * j) =~= before.take(8 * j));
    }
    out
}

// ---------------------------------------------------------------------------
// Hex output

/// The lower-case hex digit for a value below 16.
pub open spec fn hex_digit(n: u8) -> char {
    if n < 10 {
        (48 + n) as char
    } else {
        (87 + n) as char
    }
}

/// Lower-case hex encoding, two digits per byte, high nibble first.
pub open spec fn hex_lower(bytes: Seq<u8>) -> Seq<char>
    decreases bytes.len(),
{
    if bytes.len() == 0 {
        seq![]
    } else {
        seq![hex_digit(bytes[0] / 16), hex_digit(bytes[0] % 16)] + hex_lower(bytes.drop_first())
    }
}

/// Every byte becomes exactly two hex digits.
pub proof fn hex_lower_len(bytes: Seq<u8>)
    ensures
        hex_lower(bytes).len() == 2 * bytes.len(),
    decreases bytes.len(),
{
    if bytes.len() > 0 {
        hex_lower_len(bytes.drop_first());
    }
}

/// The hex text of joined bytes is the joined hex texts.
pub proof fn hex_lower_concat(a: Seq<u8>, b: Seq<u8>)
    ensures
        hex_lower(a + b) == hex_lower(a) + hex_lower(b),
    decreases a.len(),
{
    if a.len() == 0 {
        assert(a + b =~= b);
        assert(hex_lower(a) + hex_lower(b) =~= hex_lower(b));
    } else {
        assert((a + b).drop_first() =~= a.drop_first() + b);
        hex_lower_concat(a.drop_first(), b);
        assert(hex_lower(a + b) =~= hex_lower(a) + hex_lower(b));
    }
}

/// The first `2 * m` hex digits encode the first `m` bytes.
pub proof fn hex_lower_take(bytes: Seq<u8>, m: int)
    requires
        0 <= m <= bytes.len(),
    ensures
        hex_lower(bytes).take(2 * m) == hex_lower(bytes.take(m)),
{
    assert(bytes =~= bytes.take(m) + bytes.skip(m));
    hex_lower_concat(bytes.take(m), bytes.skip(m));
    hex_lower_len(bytes.take(m));
    assert(hex_lower(bytes).take(2 * m) =~= hex_lower(bytes.take(m)));
}

/// Calls `hex::ToHex::encode_hex` into a `String`. Claimed: two lower-case hex
/// digits per byte, high nibble first, as the crate's `HEX_CHARS_LOWER` table
/// gives them.
#[verifier::external_body]
fn hex_encode(bytes: &[u8]) -> (text: String)
    ensures
        text@ == hex_lower(bytes@),
{
    bytes.encode_hex()
}

/// Writes the encrypted bytes as the lower-case hex text the portal expects.
pub fn encode_ciphertext(ciphertext: &[u8]) -> (text: String)
    ensures
        text@ == hex_lower(ciphertext@),
        text@.len() == 2 * ciphertext@.len(),
{
    proof {
        hex_lower_len(ciphertext@);
    }
    hex_encode(ciphertext)
}

// ---------------------------------------------------------------------------
// Password encryption

/// What the portal receives as the password: the hex text of the DES-ECB
/// encryption, under the key derived from the user name, of the PKCS#7-padded
/// UTF-8 bytes of the password.
pub open spec fn encrypted_password(name: Seq<u8>, password: Seq<u8>) -> Seq<char> {
    hex_lower(des_ecb(derived_key(name), pkcs7_padded(password)))
}

/// Encrypts a password the way the authentication portal expects it.
pub fn encrypt_password(username: &str, password: &str) -> (encrypted: String)
    requires
        key_tail_on_boundary(username.spec_bytes()),
    ensures
        encrypted@ == encrypted_password(username.spec_bytes(), password.spec_bytes()),
        encrypted@.len() == 16 * (password.spec_bytes().len() / 8 + 1),
        forall|j: int|
            0 <= j && 8 * j <= password.spec_bytes().len() ==> #[trigger] encrypted@.take(16 * j)
                == hex_lower(
                des_ecb(derived_key(username.spec_bytes()), password.spec_bytes().take(8 * j)),
            ),
{
    let key = make_key(username);
    let des = DesCipher::new(key);
    let buf = pkcs7_pad(slice_to_vec(password.as_bytes()));
    let ciphertext = encrypt_blocks(&des, buf.as_slice());
    let encrypted = encode_ciphertext(ciphertext.as_slice());
    proof {
        let pw = password.spec_bytes();
        assert forall|j: int| 0 <= j && 8 * j <= pw.len() implies #[trigger] encrypted@.take(16 * j)
            == hex_lower(des_ecb(derived_key(username.spec_bytes()), pw.take(8 * j))) by {
            assert(j <= buf@.len() / 8);
            assert(ciphertext@.take(8 * j) == des_ecb(des.key(), buf@.take(8 * j)));
            hex_lower_take(ciphertext@, 8 * j);
            assert(buf@.take(8 * j) =~= pw.take(8 * j));
        }
    }
    encrypted
}

// ---------------------------------------------------------------------------
// Laws

/// The key is always 8 bytes. For a name of at least four bytes it is the
/// name's last four bytes followed by its first four; a shorter name is
/// repeated and the rest filled from `12345678`.
pub proof fn derived_key_shape(name: Seq<u8>)
    ensures
        derived_key(name).len() == 8,
        name.len() >= 4 ==> derived_key(name) == name.skip(name.len() - 4) + name.take(4),
        name.len() < 4 ==> derived_key(name) == (name + name + seq![
            0x31u8,
            0x32u8,
            0x33u8,
            0x34u8,
            0x35u8,
            0x36u8,
            0x37u8,
            0x38u8,
        ]).take(8),
{
    if name.len() >= 4 {
        assert(derived_key(name) =~= name.skip(name.len() - 4) + name.take(4));
    }
}

/// DES-ECB encrypts block by block: the ciphertext of a message made of
/// whole blocks followed by more is the ciphertext of each part, joined.
pub proof fn des_ecb_blockwise(key: Seq<u8>, first: Seq<u8>, rest: Seq<u8>)
    requires
        first.len() % 8 == 0,
    ensures
        des_ecb(key, first + rest) == des_ecb(key, first) + des_ecb(key, rest),
    decreases first.len(),
{
    if first.len() == 0 {
        assert(first + rest =~= rest);
        assert(des_ecb(key, first) =~= Seq::<u8>::empty());
        assert(des_ecb(key, first) + des_ecb(key, rest) =~= des_ecb(key, rest));
    } else {
        let whole = first + rest;
        assert(whole.take(8) =~= first.take(8));
        assert(whole.skip(8) =~= first.skip(8) + rest);
        des_ecb_blockwise(key, first.skip(8), rest);
        assert(des_ecb(key, whole) =~= des_ecb(key, first) + des_ecb(key, rest));
    }
}

/// The hex text holds only the digits `0`-`9` and `a`-`f`.
pub proof fn hex_lower_digits(bytes: Seq<u8>)
    ensures
        forall|i: int|
            0 <= i < hex_lower(bytes).len() ==> {
                let c = #[trigger] hex_lower(bytes)[i];
                ('0' <= c <= '9') || ('a' <= c <= 'f')
            },
    decreases bytes.len(),
{
    if bytes.len() > 0 {
        hex_lower_digits(bytes.drop_first());
        let hi = hex_digit(bytes[0] / 16);
        let lo = hex_digit(bytes[0] % 16);
        assert(('0' <= hi <= '9') || ('a' <= hi <= 'f'));
        assert(('0' <= lo <= '9') || ('a' <= lo <= 'f'));
        let rest = hex_lower(bytes.drop_first());
        assert forall|i: int| 0 <= i < hex_lower(bytes).len() implies {
            let c = #[trigger] hex_lower(bytes)[i];
            ('0' <= c <= '9') || ('a' <= c <= 'f')
        } by {
            if i >= 2 {
                assert(hex_lower(bytes)[i] == rest[i - 2]);
            }
        }
    }
}

/// ECB has no chaining: passwords that agree on their first `j` whole blocks
/// are encrypted to texts that begin alike, with the hex of those blocks'
/// encryption; the rest depends only on the remaining bytes.
pub proof fn leading_blocks_encrypt_alike(name: Seq<u8>, p1: Seq<u8>, p2: Seq<u8>, j: int)
    requires
        0 <= j,
        8 * j <= p1.len(),
        8 * j <= p2.len(),
        p1.take(8 * j) == p2.take(8 * j),
    ensures
        ({
            let key = derived_key(name);
            let head = hex_lower(des_ecb(key, p1.take(8 * j)));
            &&& encrypted_password(name, p1) == head + hex_lower(
                des_ecb(key, pkcs7_padded(p1).skip(8 * j)),
            )
            &&& encrypted_password(name, p2) == head + hex_lower(
                des_ecb(key, pkcs7_padded(p2).skip(8 * j)),
            )
        }),
{
    let key = derived_key(name);
    let a1 = pkcs7_padded(p1);
    let a2 = pkcs7_padded(p2);
    assert(a1.take(8 * j) =~= p1.take(8 * j));
    assert(a2.take(8 * j) =~= p2.take(8 * j));
    assert(a1 =~= a1.take(8 * j) + a1.skip(8 * j));
    assert(a2 =~= a2.take(8 * j) + a2.skip(8 * j));
    des_ecb_blockwise(key, a1.take(8 * j), a1.skip(8 * j));
    des_ecb_blockwise(key, a2.take(8 * j), a2.skip(8 * j));
    hex_lower_concat(des_ecb(key, a1.take(8 * j)), des_ecb(key, a1.skip(8 * j)));
    hex_lower_concat(des_ecb(key, a2.take(8 * j)), des_ecb(key, a2.skip(8 * j)));
}

/// The user name counts only through the key derived from it: names with the
/// same derived key encrypt every password alike.
pub proof fn username_counts_only_through_key(n1: Seq<u8>, n2: Seq<u8>, password: Seq<u8>)
    requires
        derived_key(n1) == derived_key(n2),
    ensures
        encrypted_password(n1, password) == encrypted_password(n2, password),
{
}

/// A single block is encrypted as that block, under the key: DES-ECB passes
/// every whole block through the cipher, whatever its bytes.
pub proof fn des_ecb_encrypts_each_block(key: Seq<u8>, block: Seq<u8>)
    requires
        block.len() == 8,
    ensures
        des_ecb(key, block) == des_encrypt_block(key, block),
{
    assert(block.take(8) =~= block);
    assert(block.skip(8) =~= Seq::<u8>::empty());
    assert(des_ecb(key, block.skip(8)) =~= Seq::<u8>::empty());
    assert(des_ecb(key, block) =~= des_encrypt_block(key, block));
}

/// A password shorter than a block is sent as the hex of one DES block: the
/// password followed by `8 - len` bytes of value `8 - len`, encrypted under
/// the derived key.
pub proof fn short_password_is_one_encrypted_block(name: Seq<u8>, password: Seq<u8>)
    requires
        password.len() < 8,
    ensures
        encrypted_password(name, password) == hex_lower(
            des_encrypt_block(
                derived_key(name),
                password + Seq::new(
                    (8 - password.len()) as nat,
                    |i: int| (8 - password.len()) as u8,
                ),
            ),
        ),
{
    let padded = pkcs7_padded(password);
    assert(padded =~= password + Seq::new(
        (8 - password.len()) as nat,
        |i: int| (8 - password.len()) as u8,
    ));
    des_ecb_encrypts_each_block(derived_key(name), padded);
}

/// Each byte becomes two characters, its high nibble then its low nibble,
/// each written `0`-`9` for values below ten and `a`-`f` above.
pub proof fn hex_lower_encodes_nibbles(bytes: Seq<u8>)
    ensures
        hex_lower(bytes).len() == 2 * bytes.len(),
        forall|i: int|
            0 <= i < bytes.len() ==> {
                let hi = #[trigger] hex_lower(bytes)[2 * i];
                let lo = hex_lower(bytes)[2 * i + 1];
                let h = bytes[i] / 16;
                let l = bytes[i] % 16;
                &&& (h < 10 ==> hi as int == '0' as int + h)
                &&& (h >= 10 ==> hi as int == 'a' as int + h - 10)
                &&& (l < 10 ==> lo as int == '0' as int + l)
                &&& (l >= 10 ==> lo as int == 'a' as int + l - 10)
            },
    decreases bytes.len(),
{
    hex_lower_len(bytes);
    if bytes.len() > 0 {
        let rest = bytes.drop_first();
        hex_lower_encodes_nibbles(rest);
        assert forall|i: int| 0 <= i < bytes.len() implies {
            let hi = #[trigger] hex_lower(bytes)[2 * i];
            let lo = hex_lower(bytes)[2 * i + 1];
            let h = bytes[i] / 16;
            let l = bytes[i] % 16;
            &&& (h < 10 ==> hi as int == '0' as int + h)
            &&& (h >= 10 ==> hi as int == 'a' as int + h - 10)
            &&& (l < 10 ==> lo as int == '0' as int + l)
            &&& (l >= 10 ==> lo as int == 'a' as int + l - 10)
        } by {
            if i > 0 {
                assert(hex_lower(bytes)[2 * i] == hex_lower(rest)[2 * (i - 1)]);
                assert(hex_lower(bytes)[2 * i + 1] == hex_lower(rest)[2 * (i - 1) + 1]);
                assert(rest[i - 1] == bytes[i]);
            }
        }
    }
}

} // verus!
