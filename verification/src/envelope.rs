//! The wire envelope of the controller protocol: length-prefixed frames under DES in ECB mode,
//! carried as Base64 text.

use base64::engine::general_purpose::STANDARD;
use base64::Engine;
use cipher::block_padding::NoPadding;
use cipher::{BlockDecryptMut, BlockEncryptMut, KeyInit};
use des::Des;
use ecb::{Decryptor, Encryptor};
use vstd::arithmetic::power::{lemma_pow0, lemma_pow1, lemma_pow_adds, lemma_pow_increases, pow};
use vstd::prelude::*;
use vstd::slice::*;
use vstd::string::*;
use vstd::utf8::encode_utf8;

use crate::text::{decimal, join, number_text};

verus! {

/// The bytes of a frame in front of its payload: one for the kind, eight for the length.
pub const HEADER_LEN: usize = 9;

/// The block size of the cipher.
pub const BLOCK_LEN: usize = 8;

/// What the standard Base64 engine writes for `data`.
pub uninterp spec fn base64_text(data: Seq<u8>) -> Seq<char>;

/// What the standard Base64 engine reads from `text`: the data, or the text of its error.
pub uninterp spec fn base64_data(text: Seq<char>) -> Result<Seq<u8>, Seq<char>>;

/// What the encryptor of DES makes of one block under `key`.
pub uninterp spec fn des_block(key: Seq<u8>, block: Seq<u8>) -> Seq<u8>;

/// What the decryptor of DES recovers from one block under `key`.
pub uninterp spec fn des_block_inverse(key: Seq<u8>, block: Seq<u8>) -> Seq<u8>;

/// The block of whole blocks that position `i` lies in.
pub open spec fn block_of(data: Seq<u8>, i: int) -> Seq<u8> {
    data.subrange(i / 8 * 8, i / 8 * 8 + 8)
}

/// What DES in ECB mode makes of whole blocks under `key`: each block by itself.
pub open spec fn des_encrypted(key: Seq<u8>, data: Seq<u8>) -> Seq<u8> {
    Seq::new(data.len(), |i: int| des_block(key, block_of(data, i))[i % 8])
}

/// What DES in ECB mode recovers from whole blocks under `key`: each block by itself.
pub open spec fn des_decrypted(key: Seq<u8>, data: Seq<u8>) -> Seq<u8> {
    Seq::new(data.len(), |i: int| des_block_inverse(key, block_of(data, i))[i % 8])
}

/// How many characters Base64 with padding takes for `len` bytes.
pub open spec fn base64_len(len: nat) -> nat {
    (len + 2) / 3 * 4
}

/// `base64::Engine::encode` of the standard engine.
///
/// It returns the standard encoding of `data`, and the same engine decodes that text back to
/// `data`. It panics where the text would be larger than memory can hold, which the
/// precondition rules out.
#[verifier::external_body]
fn base64_encode(data: &[u8]) -> (text: String)
    requires
        base64_len(data@.len()) <= isize::MAX,
    ensures
        text@ == base64_text(data@),
        base64_data(text@) is Ok,
        base64_data(text@)->Ok_0 == data@,
{
    STANDARD.encode(data)
}

/// `base64::Engine::decode` of the standard engine.
///
/// Both the data and the text of the error are functions of the text alone.
#[verifier::external_body]
fn base64_decode(text: &str) -> (data: Result<Vec<u8>, String>)
    ensures
        match data {
            Ok(bytes) => base64_data(text@) == Ok::<Seq<u8>, Seq<char>>(bytes@),
            Err(error) => base64_data(text@) == Err::<Seq<u8>, Seq<char>>(error@),
        },
{
    STANDARD.decode(text.as_bytes()).map_err(|error| error.to_string())
}

/// `cipher::BlockEncryptMut::encrypt_padded_vec_mut` of `ecb::Encryptor<des::Des>`, unpadded.
///
/// On whole blocks it returns as many bytes as it got. Each block is encrypted by itself, a
/// function of the key and the block, and the decryptor under the same key recovers the data. It
/// allocates one block more than the data, and panics on a partial block; the precondition rules
/// both out.
#[verifier::external_body]
fn des_encrypt(key: &[u8; 8], data: &[u8]) -> (cipher_text: Vec<u8>)
    requires
        data@.len() % 8 == 0,
        data@.len() + 8 <= isize::MAX,
    ensures
        cipher_text@.len() == data@.len(),
        forall|i: int|
            0 <= i < data@.len() ==> #[trigger] cipher_text@[i] == des_block(
                key@,
                block_of(data@, i),
            )[i % 8],
        des_decrypted(key@, cipher_text@) == data@,
{
    Encryptor::<Des>::new(key.into()).encrypt_padded_vec_mut::<NoPadding>(data)
}

/// `cipher::BlockDecryptMut::decrypt_padded_vec_mut` of `ecb::Decryptor<des::Des>`, unpadded.
///
/// On whole blocks it succeeds and returns as many bytes as it got. Each block is decrypted by
/// itself, a function of the key and the block, and the encryptor under the same key makes the
/// data of it again.
#[verifier::external_body]
fn des_decrypt(key: &[u8; 8], data: &[u8]) -> (plain: Result<Vec<u8>, String>)
    requires
        data@.len() % 8 == 0,
    ensures
        plain is Ok,
        plain->Ok_0@.len() == data@.len(),
        forall|i: int|
            0 <= i < data@.len() ==> #[trigger] plain->Ok_0@[i] == des_block_inverse(
                key@,
                block_of(data@, i),
            )[i % 8],
        des_encrypted(key@, plain->Ok_0@) == data@,
{
    Decryptor::<Des>::new(key.into()).decrypt_padded_vec_mut::<NoPadding>(data).map_err(
        |error| error.to_string())
}

/// The cipher key that `raw` stands for: its first eight bytes, filled up with zeros.
pub open spec fn des_key(raw: Seq<char>) -> Seq<u8> {
    let bytes = encode_utf8(raw);
    Seq::new(
        8,
        |i: int|
            if i < bytes.len() {
                bytes[i]
            } else {
                0u8
            },
    )
}

/// How many zeros bring `len` bytes to whole blocks.
pub open spec fn padding_len(len: nat) -> nat {
    if len % 8 == 0 {
        0
    } else {
        (8 - len % 8) as nat
    }
}

/// `plain` with zeros behind it, up to whole blocks.
pub open spec fn padded(plain: Seq<u8>) -> Seq<u8> {
    plain + Seq::new(padding_len(plain.len()), |i: int| 0u8)
}

/// The cipher text of `plain` under the raw key.
pub open spec fn encrypted(plain: Seq<u8>, raw_key: Seq<char>) -> Seq<u8> {
    des_encrypted(des_key(raw_key), padded(plain))
}

/// The plain text of `cipher_text` under the raw key, or why there is none.
pub open spec fn decrypted(cipher_text: Seq<u8>, raw_key: Seq<char>) -> Result<
    Seq<u8>,
    Seq<char>,
> {
    if cipher_text.len() % 8 != 0 {
        Err("DES cipher text length must be aligned to 8 bytes"@)
    } else {
        Ok(des_decrypted(des_key(raw_key), cipher_text))
    }
}

/// The low `len` base-256 digits of `n`, most significant first.
pub open spec fn be_bytes(n: nat, len: nat) -> Seq<u8>
    decreases len,
{
    if len == 0 {
        Seq::empty()
    } else {
        be_bytes(n / 256, (len - 1) as nat).push((n % 256) as u8)
    }
}

/// The number whose base-256 digits are `bytes`, most significant first.
pub open spec fn be_value(bytes: Seq<u8>) -> nat
    decreases bytes.len(),
{
    if bytes.len() == 0 {
        0
    } else {
        256 * be_value(bytes.drop_last()) + bytes.last() as nat
    }
}

/// A frame: the kind of the message, the length of its payload, the payload.
pub open spec fn frame(kind: u8, payload: Seq<u8>) -> Seq<u8> {
    seq![kind] + be_bytes(payload.len(), 8) + payload
}

/// Whether a payload of this length can be framed, encrypted and encoded in memory.
pub open spec fn fits_frame(payload_len: nat) -> bool {
    let framed = payload_len + HEADER_LEN as nat;
    base64_len(framed + padding_len(framed)) <= isize::MAX
}

/// The text that carries `payload` as a message of the given kind.
pub open spec fn packed(kind: u8, payload: Seq<u8>, raw_key: Seq<char>) -> Seq<char> {
    base64_text(encrypted(frame(kind, payload), raw_key))
}

/// A message from the controller whose payload is still encoded.
pub enum IncomingFrame {
    LoginResp(Vec<u8>),
    SyncClientConfigure(Vec<u8>),
    ReplyWakeUp(Vec<u8>),
    ShutDown,
}

/// The model of [`IncomingFrame`].
pub enum FrameModel {
    LoginResp(Seq<u8>),
    SyncClientConfigure(Seq<u8>),
    ReplyWakeUp(Seq<u8>),
    ShutDown,
}

impl View for IncomingFrame {
    type V = FrameModel;

    open spec fn view(&self) -> FrameModel {
        match self {
            IncomingFrame::LoginResp(payload) => FrameModel::LoginResp(payload@),
            IncomingFrame::SyncClientConfigure(payload) => FrameModel::SyncClientConfigure(
                payload@,
            ),
            IncomingFrame::ReplyWakeUp(payload) => FrameModel::ReplyWakeUp(payload@),
            IncomingFrame::ShutDown => FrameModel::ShutDown,
        }
    }
}

/// The message that a kind and a payload make, or why they make none.
pub open spec fn message_of(kind: u8, payload: Seq<u8>) -> Result<FrameModel, Seq<char>> {
    if kind == 0x31 {
        Ok(FrameModel::LoginResp(payload))
    } else if kind == 0x32 {
        Ok(FrameModel::SyncClientConfigure(payload))
    } else if kind == 0x33 {
        Ok(FrameModel::ReplyWakeUp(payload))
    } else if kind == 0x34 {
        Ok(FrameModel::ShutDown)
    } else {
        Err("未知的 Lucky 消息类型: "@ + decimal(kind as int))
    }
}

/// The kind and the payload in a decrypted frame, or why there are none.
pub open spec fn frame_parts(plain: Seq<u8>) -> Result<(u8, Seq<u8>), Seq<char>> {
    let declared = be_value(plain.subrange(1, 9));
    if plain.len() <= 9 {
        Err("解密后的消息长度过短"@)
    } else if declared > i64::MAX {
        Err("json length must not be negative"@)
    } else if plain.len() < 9 + declared {
        Err(
            "decrypted payload too short: declared json length "@ + decimal(declared as int)
                + ", actual "@ + decimal(plain.len() - 9),
        )
    } else {
        Ok((plain[0], plain.subrange(9, 9 + declared as int)))
    }
}

/// The message in a decrypted frame, or why there is none.
pub open spec fn opened(plain: Seq<u8>) -> Result<FrameModel, Seq<char>> {
    match frame_parts(plain) {
        Err(error) => Err(error),
        Ok((kind, payload)) => message_of(kind, payload),
    }
}

/// The plain text that a text carries under the raw key, or why there is none.
pub open spec fn unsealed(text: Seq<char>, raw_key: Seq<char>) -> Result<Seq<u8>, Seq<char>> {
    match base64_data(text) {
        Err(error) => Err(error),
        Ok(cipher_text) => decrypted(cipher_text, raw_key),
    }
}

/// The message that a text carries under the raw key, or why there is none.
#[verifier::opaque]
pub open spec fn unpacked(text: Seq<char>, raw_key: Seq<char>) -> Result<FrameModel, Seq<char>> {
    match unsealed(text, raw_key) {
        Err(error) => Err(error),
        Ok(plain) => opened(plain),
    }
}

/// A result with the text of its error taken by its view.
pub open spec fn frame_result(r: Result<IncomingFrame, String>) -> Result<FrameModel, Seq<char>> {
    match r {
        Ok(message) => Ok(message@),
        Err(error) => Err(error@),
    }
}

proof fn lemma_be_bytes(n: nat, len: nat)
    ensures
        be_bytes(n, len).len() == len,
        n < pow(256, len) ==> be_value(be_bytes(n, len)) == n,
    decreases len,
{
    if len == 0 {
        lemma_pow0(256);
    } else {
        let shorter = (len - 1) as nat;
        lemma_be_bytes(n / 256, shorter);
        lemma_pow_adds(256, shorter, 1);
        lemma_pow1(256);
        assert(be_bytes(n, len).drop_last() == be_bytes(n / 256, shorter));
    }
}

proof fn lemma_be_value_bound(bytes: Seq<u8>)
    ensures
        be_value(bytes) < pow(256, bytes.len()),
    decreases bytes.len(),
{
    if bytes.len() == 0 {
        lemma_pow0(256);
    } else {
        let shorter = (bytes.len() - 1) as nat;
        lemma_be_value_bound(bytes.drop_last());
        lemma_pow_adds(256, shorter, 1);
        lemma_pow1(256);
    }
}

proof fn lemma_pow_256_8()
    ensures
        pow(256, 8) == 0x1_0000_0000_0000_0000,
{
    reveal_with_fuel(pow, 9);
}

/// A frame gives back its kind and its payload, whatever follows it, unless it is empty and
/// nothing follows.
pub proof fn law_what_follows_a_frame_is_ignored(kind: u8, payload: Seq<u8>, rest: Seq<u8>)
    requires
        payload.len() <= i64::MAX,
        payload.len() + rest.len() > 0,
    ensures
        frame_parts(frame(kind, payload) + rest) == Ok::<(u8, Seq<u8>), Seq<char>>((kind, payload)),
{
    let plain = frame(kind, payload) + rest;
    lemma_be_bytes(payload.len(), 8);
    lemma_pow_256_8();
    assert(plain.subrange(1, 9) == be_bytes(payload.len(), 8));
    assert(plain.subrange(9, 9 + payload.len() as int) == payload);
}

/// A frame filled up to whole blocks gives back its kind and its payload.
pub proof fn law_reading_gives_back_the_frame(kind: u8, payload: Seq<u8>)
    requires
        payload.len() <= i64::MAX,
    ensures
        frame_parts(padded(frame(kind, payload))) == Ok::<(u8, Seq<u8>), Seq<char>>(
            (kind, payload),
        ),
{
    lemma_be_bytes(payload.len(), 8);
    law_what_follows_a_frame_is_ignored(
        kind,
        payload,
        Seq::new(padding_len(frame(kind, payload).len()), |i: int| 0u8),
    );
}

/// Blocks are encrypted by themselves: the cipher text of whole blocks and what follows them is
/// the cipher text of the blocks, and behind it that of what follows.
pub proof fn law_blocks_are_encrypted_by_themselves(
    blocks: Seq<u8>,
    rest: Seq<u8>,
    raw_key: Seq<char>,
)
    requires
        blocks.len() % 8 == 0,
    ensures
        encrypted(blocks + rest, raw_key) == encrypted(blocks, raw_key) + encrypted(rest, raw_key),
{
    let key = des_key(raw_key);
    assert(padding_len((blocks + rest).len()) == padding_len(rest.len()));
    assert(padded(blocks) == blocks);
    assert(padded(blocks + rest) == blocks + padded(rest));
    lemma_blocks(key, blocks, padded(rest));
}

/// The cipher text of whole blocks is that of a head of them, and behind it that of the others.
proof fn lemma_blocks(key: Seq<u8>, head: Seq<u8>, tail: Seq<u8>)
    requires
        head.len() % 8 == 0,
        tail.len() % 8 == 0,
    ensures
        des_encrypted(key, head + tail) == des_encrypted(key, head) + des_encrypted(key, tail),
{
    let all = head + tail;
    let joined = des_encrypted(key, head) + des_encrypted(key, tail);
    assert forall|i: int| 0 <= i < all.len() implies des_encrypted(key, all)[i] == joined[i] by {
        if i < head.len() {
            assert(block_of(all, i) == block_of(head, i));
        } else {
            let j = i - head.len();
            assert(i / 8 * 8 == j / 8 * 8 + head.len());
            assert(block_of(all, i) == block_of(tail, j));
        }
    }
    assert(des_encrypted(key, all) == joined);
}

/// Two raw keys that agree in their first eight bytes are one key to the cipher.
pub proof fn law_key_is_its_first_eight_bytes(a: Seq<char>, b: Seq<char>)
    requires
        encode_utf8(a).len() >= 8,
        encode_utf8(b).len() >= 8,
        encode_utf8(a).take(8) == encode_utf8(b).take(8),
    ensures
        des_key(a) == des_key(b),
{
    assert forall|i: int| 0 <= i < 8 implies des_key(a)[i] == des_key(b)[i] by {
        assert(encode_utf8(a).take(8)[i] == encode_utf8(a)[i]);
        assert(encode_utf8(b).take(8)[i] == encode_utf8(b)[i]);
    }
}

/// The cipher key that `raw` stands for.
pub fn normalize_des_key(raw: &str) -> (key: [u8; 8])
    ensures
        key@ == des_key(raw@),
{
    let bytes = raw.as_bytes();
    let mut key = [0u8; 8];
    let mut i: usize = 0;
    while i < 8 && i < bytes.len()
        invariant
            bytes@ == encode_utf8(raw@),
            i <= 8,
            i <= bytes@.len(),
            key@.len() == 8,
            forall|j: int| 0 <= j < i ==> key@[j] == bytes@[j],
            forall|j: int| i <= j < 8 ==> key@[j] == 0,
        decreases 8 - i,
    {
        key[i] = bytes[i];
        i = i + 1;
    }
    key
}

/// Encrypts `plain` under the raw key, zeros filling up its last block.
///
/// The decryption under the same key gives `plain` back, with those zeros.
#[verifier::rlimit(40)]
#[verifier::spinoff_prover]
pub fn encrypt_message(plain: &[u8], key: &str) -> (r: Result<Vec<u8>, String>)
    requires
        plain@.len() + padding_len(plain@.len()) + BLOCK_LEN <= isize::MAX,
    ensures
        r is Ok,
        r->Ok_0@ == encrypted(plain@, key@),
        r->Ok_0@.len() == plain@.len() + padding_len(plain@.len()),
        decrypted(r->Ok_0@, key@) is Ok,
        decrypted(r->Ok_0@, key@)->Ok_0 == padded(plain@),
{
    let normalized = normalize_des_key(key);
    let mut whole = slice_to_vec(plain);
    while whole.len() % 8 != 0
        invariant
            plain@.len() + padding_len(plain@.len()) + BLOCK_LEN <= isize::MAX,
            plain@.len() <= whole@.len() <= plain@.len() + padding_len(plain@.len()),
            whole@ == plain@ + Seq::new((whole@.len() - plain@.len()) as nat, |i: int| 0u8),
        decreases plain@.len() + padding_len(plain@.len()) - whole@.len(),
    {
        whole.push(0);
        assert(whole@ == plain@ + Seq::new((whole@.len() - plain@.len()) as nat, |i: int| 0u8));
    }
    assert(whole@ == padded(plain@));
    let cipher_text = des_encrypt(&normalized, whole.as_slice());
    assert(cipher_text@ == des_encrypted(normalized@, whole@));
    Ok(cipher_text)
}

/// Decrypts whole blocks under the raw key.
///
/// The encryption under the same key gives the cipher text back.
pub fn decrypt_message(cipher_text: &[u8], key: &str) -> (r: Result<Vec<u8>, String>)
    ensures
        r is Err <==> cipher_text@.len() % 8 != 0,
        match r {
            Ok(plain) => {
                &&& decrypted(cipher_text@, key@) == Ok::<Seq<u8>, Seq<char>>(plain@)
                &&& plain@.len() == cipher_text@.len()
                &&& encrypted(plain@, key@) == cipher_text@
            },
            Err(error) => decrypted(cipher_text@, key@) == Err::<Seq<u8>, Seq<char>>(error@),
        },
{
    if cipher_text.len() % 8 != 0 {
        return Err("DES cipher text length must be aligned to 8 bytes".to_owned());
    }
    let normalized = normalize_des_key(key);
    let plain = des_decrypt(&normalized, cipher_text);
    proof {
        assert(plain->Ok_0@ == des_decrypted(normalized@, cipher_text@));
        assert(padded(plain->Ok_0@) == plain->Ok_0@);
    }
    plain
}

/// Appends the low `len` base-256 digits of `n`.
fn push_be_bytes(out: &mut Vec<u8>, n: u64, len: usize)
    ensures
        final(out)@ == old(out)@ + be_bytes(n as nat, len as nat),
    decreases len,
{
    if len > 0 {
        push_be_bytes(out, n / 256, len - 1);
        out.push((n % 256) as u8);
        assert(out@ == old(out)@ + be_bytes(n as nat, len as nat));
    }
}

/// Reads the `len` base-256 digits that start at `from`.
fn read_be_value(bytes: &[u8], from: usize, len: usize) -> (n: u64)
    requires
        len <= 8,
        from + len <= bytes@.len(),
    ensures
        n == be_value(bytes@.subrange(from as int, from + len)),
    decreases len,
{
    if len == 0 {
        return 0;
    }
    let high: u64 = read_be_value(bytes, from, len - 1);
    proof {
        let digits = bytes@.subrange(from as int, from + len);
        assert(digits.drop_last() == bytes@.subrange(from as int, from + len - 1));
        lemma_be_value_bound(digits);
        lemma_pow_256_8();
        lemma_pow_increases(256, len as nat, 8);
        assert(from + len <= bytes.len());
    }
    high * 256 + bytes[from + (len - 1)] as u64
}

/// Whether a payload of this length can be framed, encrypted and encoded in memory.
pub fn payload_fits(len: usize) -> (r: bool)
    ensures
        r == fits_frame(len as nat),
{
    let framed: u128 = len as u128 + 9;
    let rest: u128 = framed % 8;
    let whole: u128 = if rest == 0 {
        framed
    } else {
        framed + (8 - rest)
    };
    (whole + 2) / 3 * 4 <= isize::MAX as u128
}

/// Packs an encoded payload into the text of one message.
///
/// Under the same key the text gives back the kind and the payload, whatever they are; where the
/// kind is one that the agent receives, unpacking gives back the message.
pub fn pack_message(message_type: u8, payload: &[u8], key: &str) -> (r: Result<String, String>)
    requires
        fits_frame(payload@.len()),
    ensures
        r is Ok,
        r->Ok_0@ == packed(message_type, payload@, key@),
        unsealed(r->Ok_0@, key@) == Ok::<Seq<u8>, Seq<char>>(padded(frame(message_type, payload@))),
        frame_parts(unsealed(r->Ok_0@, key@)->Ok_0) == Ok::<(u8, Seq<u8>), Seq<char>>(
            (message_type, payload@),
        ),
        unpacked(r->Ok_0@, key@) == message_of(message_type, payload@),
{
    proof {
        reveal(unpacked);
    }
    let mut buffer: Vec<u8> = Vec::new();
    buffer.push(message_type);
    push_be_bytes(&mut buffer, payload.len() as u64, 8);
    buffer.extend_from_slice(payload);
    proof {
        lemma_be_bytes(payload@.len(), 8);
        assert(buffer@ == frame(message_type, payload@));
        law_reading_gives_back_the_frame(message_type, payload@);
    }
    match encrypt_message(buffer.as_slice(), key) {
        Ok(cipher_text) => Ok(base64_encode(cipher_text.as_slice())),
        Err(error) => Err(error),
    }
}

/// The message in a decrypted frame.
pub fn open_frame(plain: &[u8]) -> (r: Result<IncomingFrame, String>)
    ensures
        frame_result(r) == opened(plain@),
{
    if plain.len() <= 9 {
        return Err("解密后的消息长度过短".to_owned());
    }
    let kind: u8 = plain[0];
    let declared: u64 = read_be_value(plain, 1, 8);
    if declared > i64::MAX as u64 {
        return Err("json length must not be negative".to_owned());
    }
    let carried: usize = plain.len() - 9;
    if (carried as u64) < declared {
        let mut error = join(
            "decrypted payload too short: declared json length ",
            number_text(declared as i128).as_str(),
        );
        error.append(", actual ");
        error.append(number_text(carried as i128).as_str());
        return Err(error);
    }
    let payload = slice_to_vec(slice_subrange(plain, 9, 9 + declared as usize));
    if kind == 0x31 {
        Ok(IncomingFrame::LoginResp(payload))
    } else if kind == 0x32 {
        Ok(IncomingFrame::SyncClientConfigure(payload))
    } else if kind == 0x33 {
        Ok(IncomingFrame::ReplyWakeUp(payload))
    } else if kind == 0x34 {
        Ok(IncomingFrame::ShutDown)
    } else {
        Err(join("未知的 Lucky 消息类型: ", number_text(kind as i128).as_str()))
    }
}

/// Unpacks the text of one message.
pub fn unpack_message(raw_text: &str, key: &str) -> (r: Result<IncomingFrame, String>)
    ensures
        frame_result(r) == unpacked(raw_text@, key@),
{
    proof {
        reveal(unpacked);
    }
    let cipher_text = match base64_decode(raw_text) {
        Ok(data) => data,
        Err(error) => return Err(error),
    };
    let plain = match decrypt_message(cipher_text.as_slice(), key) {
        Ok(plain) => plain,
        Err(error) => return Err(error),
    };
    open_frame(plain.as_slice())
}

proof fn lemma_digits_of_value(bytes: Seq<u8>)
    ensures
        be_bytes(be_value(bytes), bytes.len()) == bytes,
    decreases bytes.len(),
{
    if bytes.len() > 0 {
        let front = bytes.drop_last();
        lemma_digits_of_value(front);
        assert(be_value(bytes) / 256 == be_value(front));
        assert(be_value(bytes) % 256 == bytes.last() as nat);
        assert(front.push(bytes.last()) == bytes);
    }
}

/// A frame is the kind, eight bytes that give the length of the payload, most significant first,
/// and the payload.
pub proof fn law_a_frame_gives_its_length(kind: u8, payload: Seq<u8>)
    requires
        payload.len() <= i64::MAX,
    ensures
        frame(kind, payload).len() == 9 + payload.len(),
        frame(kind, payload)[0] == kind,
        frame(kind, payload).skip(9) == payload,
        ({
            let f = frame(kind, payload);
            payload.len() == 0x100_0000_0000_0000 * f[1] + 0x1_0000_0000_0000 * f[2]
                + 0x100_0000_0000 * f[3] + 0x1_0000_0000 * f[4] + 0x100_0000 * f[5] + 0x1_0000
                * f[6] + 0x100 * f[7] + f[8]
        }),
{
    let f = frame(kind, payload);
    let length = be_bytes(payload.len(), 8);
    lemma_be_bytes(payload.len(), 8);
    lemma_pow_256_8();
    assert(f.skip(9) == payload);
    let l7 = length.drop_last();
    let l6 = l7.drop_last();
    let l5 = l6.drop_last();
    let l4 = l5.drop_last();
    let l3 = l4.drop_last();
    let l2 = l3.drop_last();
    let l1 = l2.drop_last();
    let l0 = l1.drop_last();
    assert(be_value(l0) == 0);
    assert(be_value(l1) == 256 * be_value(l0) + f[1] as nat);
    assert(be_value(l2) == 256 * be_value(l1) + f[2] as nat);
    assert(be_value(l3) == 256 * be_value(l2) + f[3] as nat);
    assert(be_value(l4) == 256 * be_value(l3) + f[4] as nat);
    assert(be_value(l5) == 256 * be_value(l4) + f[5] as nat);
    assert(be_value(l6) == 256 * be_value(l5) + f[6] as nat);
    assert(be_value(l7) == 256 * be_value(l6) + f[7] as nat);
    assert(be_value(length) == 256 * be_value(l7) + f[8] as nat);
}

/// Nothing is read but frames: what gives a kind and a payload begins with the frame of these two,
/// and it is refused exactly if it begins with no frame or is no longer than a header.
pub proof fn law_only_frames_are_read(plain: Seq<u8>)
    ensures
        frame_parts(plain) matches Ok((kind, payload)) ==> {
            &&& payload.len() <= i64::MAX
            &&& frame(kind, payload).len() <= plain.len()
            &&& plain.take(frame(kind, payload).len() as int) == frame(kind, payload)
            &&& plain.len() > 9
        },
        frame_parts(plain) is Err ==> plain.len() <= 9 || forall|kind: u8, payload: Seq<u8>|
            #![trigger frame(kind, payload)]
            payload.len() <= i64::MAX && frame(kind, payload).len() <= plain.len() ==> plain.take(
                frame(kind, payload).len() as int,
            ) != frame(kind, payload),
{
    if plain.len() > 9 {
        let length = plain.subrange(1, 9);
        lemma_digits_of_value(length);
        if let Ok((kind, payload)) = frame_parts(plain) {
            assert(plain.take(9 + payload.len() as int) == frame(kind, payload));
        } else {
            assert forall|kind: u8, payload: Seq<u8>|
                #![trigger frame(kind, payload)]
                payload.len() <= i64::MAX && frame(kind, payload).len()
                    <= plain.len() implies plain.take(frame(kind, payload).len() as int) != frame(
                kind,
                payload,
            ) by {
                let n = frame(kind, payload).len() as int;
                if plain.take(n) == frame(kind, payload) {
                    lemma_be_bytes(payload.len(), 8);
                    let rest = plain.skip(n);
                    assert(plain == frame(kind, payload) + rest);
                    law_what_follows_a_frame_is_ignored(kind, payload, rest);
                }
            }
        }
    }
}

/// Padding adds zeros behind a text, as few as bring it to whole blocks.
pub proof fn law_padding_fills_up_the_last_block(plain: Seq<u8>)
    ensures
        padded(plain).len() % 8 == 0,
        plain.len() <= padded(plain).len() < plain.len() + 8,
        padded(plain).take(plain.len() as int) == plain,
        forall|i: int| plain.len() <= i < padded(plain).len() ==> #[trigger] padded(plain)[i] == 0,
{
    assert(padded(plain).take(plain.len() as int) == plain);
}

/// A key shorter than a block is filled up with zeros, and of a longer one the first eight bytes
/// count.
pub proof fn law_a_key_is_one_block(raw: Seq<char>)
    ensures
        des_key(raw).len() == 8,
        encode_utf8(raw).len() >= 8 ==> des_key(raw) == encode_utf8(raw).take(8),
        encode_utf8(raw).len() < 8 ==> des_key(raw).take(encode_utf8(raw).len() as int)
            == encode_utf8(raw),
        forall|i: int| encode_utf8(raw).len() <= i < 8 ==> #[trigger] des_key(raw)[i] == 0,
{
    let bytes = encode_utf8(raw);
    if bytes.len() >= 8 {
        assert(des_key(raw) == bytes.take(8));
    } else {
        assert(des_key(raw).take(bytes.len() as int) == bytes);
    }
}

/// The digits one to four are the kinds of messages that the agent takes, each with its payload;
/// any other kind is refused by its number.
pub proof fn law_four_kinds_of_messages(kind: u8, payload: Seq<u8>)
    ensures
        message_of('1' as u8, payload) == Ok::<FrameModel, Seq<char>>(
            FrameModel::LoginResp(payload),
        ),
        message_of('2' as u8, payload) == Ok::<FrameModel, Seq<char>>(
            FrameModel::SyncClientConfigure(payload),
        ),
        message_of('3' as u8, payload) == Ok::<FrameModel, Seq<char>>(
            FrameModel::ReplyWakeUp(payload),
        ),
        message_of('4' as u8, payload) == Ok::<FrameModel, Seq<char>>(FrameModel::ShutDown),
        message_of(kind, payload) is Ok <==> '1' as u8 <= kind <= '4' as u8,
        message_of(kind, payload) is Err ==> message_of(kind, payload)->Err_0
            == "未知的 Lucky 消息类型: "@ + decimal(kind as int),
{
}

/// A text is unpacked by decoding it, decrypting it under the key and reading the frame; what goes
/// wrong first is the error.
pub proof fn law_unpacking_goes_step_by_step(text: Seq<char>, raw_key: Seq<char>)
    ensures
        base64_data(text) matches Err(error) ==> unpacked(text, raw_key) == Err::<
            FrameModel,
            Seq<char>,
        >(error),
        base64_data(text) matches Ok(cipher_text) ==> {
            let plain = des_decrypted(des_key(raw_key), cipher_text);
            &&& cipher_text.len() % 8 != 0 ==> unpacked(text, raw_key) == Err::<
                FrameModel,
                Seq<char>,
            >("DES cipher text length must be aligned to 8 bytes"@)
            &&& cipher_text.len() % 8 == 0 && frame_parts(plain) is Err ==> unpacked(text, raw_key)
                == Err::<FrameModel, Seq<char>>(frame_parts(plain)->Err_0)
            &&& cipher_text.len() % 8 == 0 && frame_parts(plain) is Ok ==> unpacked(text, raw_key)
                == message_of(frame_parts(plain)->Ok_0.0, frame_parts(plain)->Ok_0.1)
        },
{
    reveal(unpacked);
}

/// A frame that is refused says why: it is no longer than a header, its length is negative as a
/// signed number, or the payload is shorter than announced.
pub proof fn law_refused_frames_say_why(plain: Seq<u8>)
    ensures
        plain.len() <= 9 ==> frame_parts(plain) == Err::<(u8, Seq<u8>), Seq<char>>(
            "解密后的消息长度过短"@,
        ),
        plain.len() > 9 && plain[1] >= 128 ==> frame_parts(plain) == Err::<
            (u8, Seq<u8>),
            Seq<char>,
        >("json length must not be negative"@),
        plain.len() > 9 && plain[1] < 128 ==> {
            let announced = be_value(plain.subrange(1, 9));
            frame_parts(plain) == if plain.len() - 9 < announced {
                Err::<(u8, Seq<u8>), Seq<char>>(
                    "decrypted payload too short: declared json length "@ + decimal(
                        announced as int,
                    ) + ", actual "@ + decimal(plain.len() - 9),
                )
            } else {
                Ok((plain[0], plain.subrange(9, 9 + announced as int)))
            }
        },
{
    if plain.len() > 9 {
        lemma_first_digit(plain.subrange(1, 9));
    }
}

/// Eight digits stand for a number of 63 bits exactly if the first is below 128.
proof fn lemma_first_digit(length: Seq<u8>)
    requires
        length.len() == 8,
    ensures
        length[0] >= 128 <==> be_value(length) > i64::MAX,
{
    let l7 = length.drop_last();
    let l6 = l7.drop_last();
    let l5 = l6.drop_last();
    let l4 = l5.drop_last();
    let l3 = l4.drop_last();
    let l2 = l3.drop_last();
    let l1 = l2.drop_last();
    let l0 = l1.drop_last();
    assert(be_value(l0) == 0);
    assert(be_value(l1) == 256 * be_value(l0) + length[0] as nat);
    assert(be_value(l2) == 256 * be_value(l1) + length[1] as nat);
    assert(be_value(l3) == 256 * be_value(l2) + length[2] as nat);
    assert(be_value(l4) == 256 * be_value(l3) + length[3] as nat);
    assert(be_value(l5) == 256 * be_value(l4) + length[4] as nat);
    assert(be_value(l6) == 256 * be_value(l5) + length[5] as nat);
    assert(be_value(l7) == 256 * be_value(l6) + length[6] as nat);
    assert(be_value(length) == 256 * be_value(l7) + length[7] as nat);
}

/// A payload fits exactly if the text of its whole blocks fits memory: four characters for each
/// three bytes or part of them. A payload of half the memory fits.
pub proof fn law_a_payload_fits_unless_memory_is_too_small(len: nat, blocks: nat, triples: nat)
    requires
        8 * blocks >= len + 9,
        8 * blocks < len + 17,
        3 * triples >= 8 * blocks,
        3 * triples < 8 * blocks + 3,
    ensures
        fits_frame(len) <==> 4 * triples <= isize::MAX,
        len + 100 <= isize::MAX / 2 ==> fits_frame(len),
{
}

/// A message that came in, or the error in place of it, is modelled as it is.
pub proof fn law_the_model_of_a_frame_is_faithful(
    payload: Vec<u8>,
    result: Result<IncomingFrame, String>,
)
    ensures
        IncomingFrame::LoginResp(payload)@ == FrameModel::LoginResp(payload@),
        IncomingFrame::SyncClientConfigure(payload)@ == FrameModel::SyncClientConfigure(payload@),
        IncomingFrame::ReplyWakeUp(payload)@ == FrameModel::ReplyWakeUp(payload@),
        IncomingFrame::ShutDown@ == FrameModel::ShutDown,
        result matches Ok(message) ==> frame_result(result) == Ok::<FrameModel, Seq<char>>(
            message@,
        ),
        result matches Err(error) ==> frame_result(result) == Err::<FrameModel, Seq<char>>(error@),
{
}

} // verus!
