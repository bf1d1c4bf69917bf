//! The messages that hand the key over: one OSC parameter per key slot,
//! whose value is the key byte masked by the byte of the key's SHA-256
//! digest at that slot, scaled to the range the avatar reads.
use vstd::prelude::*;
use vstd::utf8::encode_utf8;
use sha2::Digest;

use crate::options::Options;
use crate::text::{decimal, lemma_decimal_injective, lemma_parse_decimal, parse_unsigned, push_decimal};

verus! {

/// Number of bytes in a SHA-256 digest, and so the number of key slots
/// that can be masked.
pub const DIGEST_LEN: usize = 32;

/// The avatar parameter that holds key slot `index`.
pub open spec fn parameter_name(index: nat) -> Seq<char> {
    "SHELL_PROTECTOR_saved_key"@ + decimal(index)
}

/// The OSC address of key slot `index`.
pub open spec fn address_name(index: nat) -> Seq<char> {
    "/avatar/parameters/"@ + parameter_name(index)
}

/// The SHA-256 digest of `data`.
pub uninterp spec fn sha256(data: Seq<u8>) -> Seq<u8>;

/// Calls `sha2::Sha256::digest` (through `sha2::Digest::digest`). Claims that
/// the result is the SHA-256 digest of `data` and is 32 bytes long, the
/// output size of `Sha256`.
#[verifier::external_body]
fn sha256_digest(data: &[u8]) -> (res: Vec<u8>)
    ensures
        res@ == sha256(data@),
        res@.len() == DIGEST_LEN,
{
    sha2::Sha256::digest(data).to_vec()
}

/// The masked byte of key slot `index`: the key byte there (0 past the end
/// of the key) XOR the digest byte there.
pub open spec fn key_byte(index: int, password: Seq<u8>, hash: Seq<u8>) -> u8 {
    (if index < password.len() {
        password[index]
    } else {
        0u8
    }) ^ hash[index]
}

/// For a masked byte `b`, the OSC value before negation, in ten-thousandths:
/// `1 - b / 128` times 10000, rounded half away from zero. The product is
/// `(128 - b) * 625 / 8`, so the rounding works on that fraction.
pub open spec fn scaled_level(b: u8) -> int {
    let k = (128 - b) * 625;
    if k >= 0 {
        (k + 4) / 8
    } else {
        -((-k + 4) / 8)
    }
}

/// One message of a round: the parameter's OSC address and its level. The
/// float sent is the level divided by 10000, negated.
pub struct KeyMessage {
    pub address: String,
    pub scaled_level: i32,
}

impl View for KeyMessage {
    type V = (Seq<char>, int);

    open spec fn view(&self) -> (Seq<char>, int) {
        (self.address@, self.scaled_level as int)
    }
}

/// The message of key slot `index` for a key and its digest.
pub open spec fn key_message(index: nat, password: Seq<u8>, hash: Seq<u8>) -> (Seq<char>, int) {
    (address_name(index), scaled_level(key_byte(index as int, password, hash)))
}

/// What one pass of the sending loop does.
pub enum SendRound {
    /// No socket is open: the loop ends.
    Stop,
    /// Send these messages, in order, then wait. When `hash_exhausted`, the
    /// settings ask for more slots than the digest has: the messages cover
    /// the slots that have a digest byte, and sending fails after them.
    Send { messages: Vec<KeyMessage>, hash_exhausted: bool },
}

/// The avatar parameter name for key slot `index`.
pub fn get_parameter_name(index: usize) -> (res: String)
    ensures
        res@ == parameter_name(index as nat),
        res@.take(25) == "SHELL_PROTECTOR_saved_key"@,
        parse_unsigned(res@.skip(25), usize::MAX as nat) == Some(index as nat),
{
    proof {
        lemma_parameter_name_encodes_index(index as nat, usize::MAX as nat);
    }
    let mut name = "SHELL_PROTECTOR_saved_key".to_owned();
    push_decimal(&mut name, index as u64);
    name
}

/// The OSC address for key slot `index`.
pub fn get_osc_address_name(index: usize) -> (res: String)
    ensures
        res@ == address_name(index as nat),
        res@.take(44) == "/avatar/parameters/"@ + "SHELL_PROTECTOR_saved_key"@,
        parse_unsigned(res@.skip(44), usize::MAX as nat) == Some(index as nat),
{
    proof {
        lemma_address_name_encodes_index(index as nat, usize::MAX as nat);
    }
    let mut address = "/avatar/parameters/".to_owned();
    let name = get_parameter_name(index);
    address.append(name.as_str());
    address
}

/// The level for masked byte `b`.
pub fn scaled_level_of(b: u8) -> (res: i32)
    ensures
        res == scaled_level(b),
        b <= 128 ==> -64 < 128 * res - 10000 * (128 - b) <= 64,
        b > 128 ==> -64 <= 128 * res - 10000 * (128 - b) < 64,
{
    proof {
        lemma_scaled_level_rounds(b);
    }
    if b <= 128 {
        let k: i32 = (128 - b as i32) * 625;
        (k + 4) / 8
    } else {
        let k: i32 = (b as i32 - 128) * 625;
        -((k + 4) / 8)
    }
}

/// The message for key slot `index`, given the key bytes and their digest.
pub fn get_osc_message(index: usize, password: &[u8], hash: &[u8]) -> (res: KeyMessage)
    requires
        index < hash.len(),
    ensures
        res@ == key_message(index as nat, password@, hash@),
{
    let key = if index < password.len() {
        password[index]
    } else {
        0u8
    };
    let value = key ^ hash[index];
    KeyMessage { address: get_osc_address_name(index), scaled_level: scaled_level_of(value) }
}

/// The messages for the first `count` key slots.
pub fn key_messages(password: &[u8], hash: &[u8], count: usize) -> (res: Vec<KeyMessage>)
    requires
        count <= hash.len(),
    ensures
        res.len() == count,
        forall|i: int| 0 <= i < count ==> #[trigger] res[i]@ == key_message(i as nat, password@, hash@),
{
    let mut messages: Vec<KeyMessage> = Vec::new();
    for i in 0..count
        invariant
            count <= hash.len(),
            messages.len() == i,
            forall|j: int| 0 <= j < i ==> #[trigger] messages[j]@ == key_message(j as nat, password@, hash@),
    {
        messages.push(get_osc_message(i, password, hash));
    }
    messages
}

/// One pass of the sending loop, given whether a socket is open and the
/// current settings: stop when no socket is open, else the messages for the
/// key slots of the settings, masked by the digest of the key's UTF-8 bytes.
pub fn send_round(socket_open: bool, options: &Options) -> (res: SendRound)
    ensures
        !socket_open ==> res is Stop,
        socket_open ==> match res {
            SendRound::Stop => false,
            SendRound::Send { messages, hash_exhausted } => {
                let bytes = encode_utf8(options.password@);
                &&& hash_exhausted == (options.password_length > DIGEST_LEN)
                &&& messages.len() == if hash_exhausted {
                    DIGEST_LEN
                } else {
                    options.password_length
                }
                &&& forall|i: int|
                    0 <= i < messages.len() ==> #[trigger] messages[i]@ == key_message(
                        i as nat,
                        bytes,
                        sha256(bytes),
                    )
            },
        },
{
    if !socket_open {
        return SendRound::Stop;
    }
    let password = options.password.as_str().as_bytes();
    let hash = sha256_digest(password);
    let hash_exhausted = options.password_length > DIGEST_LEN;
    let count = if hash_exhausted {
        DIGEST_LEN
    } else {
        options.password_length
    };
    let messages = key_messages(password, hash.as_slice(), count);
    SendRound::Send { messages, hash_exhausted }
}

/// Masking can be undone: XOR-ing the masked byte of a slot with the digest
/// byte of that slot gives back the key byte there, or 0 past the key's end.
pub proof fn lemma_unmask(index: int, password: Seq<u8>, hash: Seq<u8>)
    ensures
        key_byte(index, password, hash) ^ hash[index] == if index < password.len() {
            password[index]
        } else {
            0u8
        },
{
    let k: u8 = if index < password.len() {
        password[index]
    } else {
        0u8
    };
    let h: u8 = hash[index];
    assert((k ^ h) ^ h == k) by (bit_vector);
}

/// The level is `(1 - b / 128) * 10000` rounded to the nearest integer,
/// halves away from zero: `128 * level` lies within 64 of
/// `10000 * (128 - b)`, above it only for a non-negative value and below it
/// only for a negative one. At most one integer meets this, so it pins the
/// level of every byte.
pub proof fn lemma_scaled_level_rounds(b: u8)
    ensures
        b <= 128 ==> -64 < 128 * scaled_level(b) - 10000 * (128 - b) <= 64,
        b > 128 ==> -64 <= 128 * scaled_level(b) - 10000 * (128 - b) < 64,
{
    let k = (128 - b) * 625;
    if k >= 0 {
        let l = (k + 4) / 8;
        assert(8 * l <= k + 4 && k + 4 < 8 * l + 8);
    } else {
        let m = (-k + 4) / 8;
        assert(8 * m <= -k + 4 && -k + 4 < 8 * m + 8);
    }
}

/// The level falls as the masked byte grows: a larger byte always gives a
/// smaller level.
pub proof fn lemma_scaled_level_decreasing(a: u8, b: u8)
    requires
        a < b,
    ensures
        scaled_level(a) > scaled_level(b),
{
    let ka = (128 - a) * 625;
    let kb = (128 - b) * 625;
    assert(ka >= kb + 625);
    if kb >= 0 {
        assert((ka + 4) / 8 > (kb + 4) / 8);
    } else if ka >= 0 {
        assert((ka + 4) / 8 >= 0);
        assert((-kb + 4) / 8 > 0);
    } else {
        assert((-kb + 4) / 8 > (-ka + 4) / 8);
    }
}

/// Distinct masked bytes give distinct levels, so the receiver can tell
/// every byte value apart.
pub proof fn lemma_scaled_level_injective(a: u8, b: u8)
    requires
        scaled_level(a) == scaled_level(b),
    ensures
        a == b,
{
    if a < b {
        lemma_scaled_level_decreasing(a, b);
    } else if b < a {
        lemma_scaled_level_decreasing(b, a);
    }
}

/// The parameter name of a slot is the fixed 25-character prefix followed
/// by text that parses back to the slot's index.
pub proof fn lemma_parameter_name_encodes_index(index: nat, max: nat)
    requires
        index <= max,
    ensures
        parameter_name(index).len() > 25,
        parameter_name(index).take(25) == "SHELL_PROTECTOR_saved_key"@,
        parse_unsigned(parameter_name(index).skip(25), max) == Some(index),
{
    reveal_strlit("SHELL_PROTECTOR_saved_key");
    let p = "SHELL_PROTECTOR_saved_key"@;
    assert(p.len() == 25);
    lemma_parse_decimal(index, max);
    crate::text::lemma_decimal_digits(index);
    assert(parameter_name(index).take(25) =~= p);
    assert(parameter_name(index).skip(25) =~= decimal(index));
}

/// The OSC address of a slot is the fixed 44-character path prefix followed
/// by text that parses back to the slot's index.
pub proof fn lemma_address_name_encodes_index(index: nat, max: nat)
    requires
        index <= max,
    ensures
        address_name(index).take(44) == "/avatar/parameters/"@ + "SHELL_PROTECTOR_saved_key"@,
        parse_unsigned(address_name(index).skip(44), max) == Some(index),
{
    reveal_strlit("SHELL_PROTECTOR_saved_key");
    reveal_strlit("/avatar/parameters/");
    let p = "/avatar/parameters/"@ + "SHELL_PROTECTOR_saved_key"@;
    assert(p.len() == 44);
    lemma_parse_decimal(index, max);
    assert(address_name(index) =~= p + decimal(index));
    assert(address_name(index).take(44) =~= p);
    assert(address_name(index).skip(44) =~= decimal(index));
}

/// Every key slot has an address of its own.
pub proof fn lemma_address_name_injective(i: nat, j: nat)
    requires
        address_name(i) == address_name(j),
    ensures
        i == j,
{
    let p = "/avatar/parameters/"@ + "SHELL_PROTECTOR_saved_key"@;
    assert(address_name(i) =~= p + decimal(i));
    assert(address_name(j) =~= p + decimal(j));
    assert((p + decimal(i)).subrange(p.len() as int, (p + decimal(i)).len() as int) =~= decimal(i));
    assert((p + decimal(j)).subrange(p.len() as int, (p + decimal(j)).len() as int) =~= decimal(j));
    lemma_decimal_injective(i, j);
}

/// What is sent determines the key: any byte whose level is the level sent
/// for slot `index`, XOR-ed with the digest byte of that slot, is the key
/// byte there (0 past the key's end).
pub proof fn lemma_key_recoverable(index: nat, password: Seq<u8>, hash: Seq<u8>, b: u8)
    requires
        index < hash.len(),
        scaled_level(b) == key_message(index, password, hash).1,
    ensures
        b ^ hash[index as int] == if index < password.len() {
            password[index as int]
        } else {
            0u8
        },
{
    lemma_scaled_level_injective(b, key_byte(index as int, password, hash));
    lemma_unmask(index as int, password, hash);
}

} // verus!
