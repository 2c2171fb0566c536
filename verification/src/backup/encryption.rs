//! Encryption of backup payloads.
//!
//! A payload is sealed with AES-256-GCM under a 256-bit key and a 96-bit
//! nonce drawn fresh for every sealing.  A sealed segment is the nonce
//! followed by the cipher's output, so a segment describes itself:
//! `segment = nonce || AEAD(plaintext)`.  Long payloads are cut into chunks of
//! `CHUNK_SIZE` bytes and every chunk becomes a segment of its own.

use aes_gcm::aead::{Aead, KeyInit};
use crate::random::os_random;
use aes_gcm::{Aes256Gcm, Nonce};
use vstd::prelude::*;
use vstd::slice::*;

verus! {

/// Bytes in a nonce (96 bits).
pub const NONCE_SIZE: usize = 12;

/// Bytes in the authentication tag that ends the cipher's output.
pub const TAG_SIZE: usize = 16;

/// Bytes in a key (256 bits).
pub const KEY_SIZE: usize = 32;

/// Payloads shorter than this are sealed by one cipher call.
pub const SMALL_INPUT: usize = 1024;

/// Plaintext bytes per chunk of a long payload.  Sealing and opening both
/// derive their boundaries from this one constant.
pub const CHUNK_SIZE: usize = 65536;

/// Bytes in the segment of a full chunk: the nonce, the chunk and the tag.
/// Sealing makes segments of this length (the last one may be shorter), and
/// opening takes the data apart at the same boundaries.
pub const SEGMENT_SIZE: usize = CHUNK_SIZE + NONCE_SIZE + TAG_SIZE;

/// The longest plaintext the cipher accepts (2^36 bytes).
pub const PLAINTEXT_LIMIT: u64 = 0x10_0000_0000;

/// Why sealing or opening failed.
#[derive(Debug, Clone, Copy, PartialEq, Eq, Structural)]
pub enum EncryptionError {
    /// The key is not `KEY_SIZE` bytes long.
    KeyLength,
    /// The data is too short to hold a nonce.
    TooShort,
    /// The cipher refused: the plaintext is over its limit, or the data is
    /// not what was sealed under this key and nonce.
    Cipher,
    /// The operating system gave no random bytes.
    RandomSource,
}

/// What AES-256-GCM makes of `plaintext` under `key` and `nonce`, without
/// associated data: the encrypted bytes followed by the tag.
pub uninterp spec fn aes256_gcm_seal(key: Seq<u8>, nonce: Seq<u8>, plaintext: Seq<u8>) -> Seq<u8>;

/// What AES-256-GCM recovers from `sealed` under `key` and `nonce`, without
/// associated data; `None` where it rejects the input.
pub uninterp spec fn aes256_gcm_open(key: Seq<u8>, nonce: Seq<u8>, sealed: Seq<u8>) -> Option<
    Seq<u8>,
>;

/// `Aes256Gcm::new_from_slice` followed by `Aead::encrypt`.
///
/// The cipher refuses plaintexts over `PLAINTEXT_LIMIT` bytes and nothing
/// else.  Its output is a function of key, nonce and plaintext, and is
/// `TAG_SIZE` bytes longer than the plaintext.
#[verifier::external_body]
fn aead_seal(key: &[u8], nonce: &[u8], plaintext: &[u8]) -> (r: Option<Vec<u8>>)
    requires
        key@.len() == KEY_SIZE,
        nonce@.len() == NONCE_SIZE,
    ensures
        r is Some <==> plaintext@.len() <= PLAINTEXT_LIMIT,
        r matches Some(c) ==> c@ == aes256_gcm_seal(key@, nonce@, plaintext@) && c@.len()
            == plaintext@.len() + TAG_SIZE,
{
    let cipher = Aes256Gcm::new_from_slice(key).ok()?;
    cipher.encrypt(Nonce::from_slice(nonce), plaintext).ok()
}

/// `Aes256Gcm::new_from_slice` followed by `Aead::decrypt`.
///
/// The result is a function of key, nonce and input.  An accepted input is
/// `TAG_SIZE` bytes longer than what comes out, and whatever `Aead::encrypt`
/// made of a plaintext under the same key and nonce is accepted and gives
/// that plaintext back.
#[verifier::external_body]
fn aead_open(key: &[u8], nonce: &[u8], sealed: &[u8]) -> (r: Option<Vec<u8>>)
    requires
        key@.len() == KEY_SIZE,
        nonce@.len() == NONCE_SIZE,
    ensures
        r matches Some(p) ==> aes256_gcm_open(key@, nonce@, sealed@) == Some(p@) && p@.len()
            + TAG_SIZE == sealed@.len(),
        r is None ==> aes256_gcm_open(key@, nonce@, sealed@) is None,
        r matches Some(p) ==> forall|plain: Seq<u8>|
            plain.len() <= PLAINTEXT_LIMIT && sealed@ == #[trigger] aes256_gcm_seal(
                key@,
                nonce@,
                plain,
            ) ==> p@ == plain,
        r is None ==> forall|plain: Seq<u8>|
            plain.len() <= PLAINTEXT_LIMIT ==> sealed@ != #[trigger] aes256_gcm_seal(
                key@,
                nonce@,
                plain,
            ),
{
    let cipher = Aes256Gcm::new_from_slice(key).ok()?;
    cipher.decrypt(Nonce::from_slice(nonce), sealed).ok()
}

/// The nonce that the random source gave: `drawn` is what was asked of the
/// source, and the nonce holds exactly its bytes.  `None` where the source
/// gave nothing, or not `NONCE_SIZE` bytes.
fn random_nonce(drawn: Option<Vec<u8>>) -> (r: Option<[u8; 12]>)
    ensures
        r is Some <==> (drawn matches Some(bytes) && bytes@.len() == NONCE_SIZE),
        r matches Some(nonce) ==> (drawn matches Some(bytes) && nonce@ == bytes@),
{
    match drawn {
        None => None,
        Some(bytes) => {
            if bytes.len() != NONCE_SIZE {
                return None;
            }
            let mut nonce = [0u8; 12];
            let mut i: usize = 0;
            while i < NONCE_SIZE
                invariant
                    i <= NONCE_SIZE,
                    bytes@.len() == NONCE_SIZE,
                    forall|j: int| 0 <= j < i ==> nonce@[j] == bytes@[j],
                decreases NONCE_SIZE - i,
            {
                nonce[i] = bytes[i];
                i += 1;
            }
            assert(nonce@ =~= bytes@);
            Some(nonce)
        },
    }
}

/// The key that the random source gave: `drawn` is what was asked of the
/// source, and the key holds exactly its bytes.  `None` where the source gave
/// nothing, or not `KEY_SIZE` bytes.
fn random_key(drawn: Option<Vec<u8>>) -> (r: Option<[u8; 32]>)
    ensures
        r is Some <==> (drawn matches Some(bytes) && bytes@.len() == KEY_SIZE),
        r matches Some(key) ==> (drawn matches Some(bytes) && key@ == bytes@),
{
    match drawn {
        None => None,
        Some(bytes) => {
            if bytes.len() != KEY_SIZE {
                return None;
            }
            let mut key = [0u8; 32];
            let mut i: usize = 0;
            while i < KEY_SIZE
                invariant
                    i <= KEY_SIZE,
                    bytes@.len() == KEY_SIZE,
                    forall|j: int| 0 <= j < i ==> key@[j] == bytes@[j],
                decreases KEY_SIZE - i,
            {
                key[i] = bytes[i];
                i += 1;
            }
            assert(key@ =~= bytes@);
            Some(key)
        },
    }
}

/// A result over byte vectors, seen as a result over byte sequences.
pub open spec fn seen(r: Result<Vec<u8>, EncryptionError>) -> Result<Seq<u8>, EncryptionError> {
    match r {
        Ok(v) => Ok(v@),
        Err(e) => Err(e),
    }
}

/// The segment that holds `plaintext` sealed under `key` and `nonce`.
pub open spec fn sealed_segment(key: Seq<u8>, nonce: Seq<u8>, plaintext: Seq<u8>) -> Seq<u8> {
    nonce + aes256_gcm_seal(key, nonce, plaintext)
}

/// What sealing one segment gives, errors included.
pub open spec fn seal_segment(key: Seq<u8>, nonce: Seq<u8>, plaintext: Seq<u8>) -> Result<
    Seq<u8>,
    EncryptionError,
> {
    if key.len() != KEY_SIZE {
        Err(EncryptionError::KeyLength)
    } else if plaintext.len() > PLAINTEXT_LIMIT {
        Err(EncryptionError::Cipher)
    } else {
        Ok(sealed_segment(key, nonce, plaintext))
    }
}

/// What opening one segment gives, errors included.
pub open spec fn open_segment(key: Seq<u8>, data: Seq<u8>) -> Result<Seq<u8>, EncryptionError> {
    if data.len() < NONCE_SIZE {
        Err(EncryptionError::TooShort)
    } else if key.len() != KEY_SIZE {
        Err(EncryptionError::KeyLength)
    } else {
        match aes256_gcm_open(key, data.take(NONCE_SIZE as int), data.skip(NONCE_SIZE as int)) {
            Some(p) => Ok(p),
            None => Err(EncryptionError::Cipher),
        }
    }
}

/// Puts the nonce in front of the cipher's output.
pub fn frame_segment(nonce: &[u8], body: &[u8]) -> (r: Vec<u8>)
    ensures
        r@ == nonce@ + body@,
{
    let mut out = slice_to_vec(nonce);
    out.extend_from_slice(body);
    out
}

/// Seals `data` under `key` with the given nonce.
pub fn encrypt_with_nonce(data: &[u8], key: &[u8], nonce: &[u8; 12]) -> (r: Result<
    Vec<u8>,
    EncryptionError,
>)
    ensures
        seen(r) == seal_segment(key@, nonce@, data@),
        r matches Ok(c) ==> c@.len() == data@.len() + NONCE_SIZE + TAG_SIZE,
{
    if key.len() != KEY_SIZE {
        return Err(EncryptionError::KeyLength);
    }
    match aead_seal(key, nonce.as_slice(), data) {
        None => Err(EncryptionError::Cipher),
        Some(body) => Ok(frame_segment(nonce.as_slice(), body.as_slice())),
    }
}

/// Seals `data` under `key` with a fresh random nonce.
///
/// Whatever nonce was drawn, the result is the segment for that nonce and is
/// `NONCE_SIZE + TAG_SIZE` bytes longer than `data`, so it never equals
/// `data`.
pub fn encrypt_data(data: &[u8], key: &[u8]) -> (r: Result<Vec<u8>, EncryptionError>)
    ensures
        (match r {
            Ok(c) => {
                &&& key@.len() == KEY_SIZE
                &&& data@.len() <= PLAINTEXT_LIMIT
                &&& c@.len() == data@.len() + NONCE_SIZE + TAG_SIZE
                &&& c@ != data@
                &&& exists|nonce: Seq<u8>|
                    nonce.len() == NONCE_SIZE && c@ == #[trigger] sealed_segment(
                        key@,
                        nonce,
                        data@,
                    )
            },
            Err(EncryptionError::KeyLength) => key@.len() != KEY_SIZE,
            Err(EncryptionError::Cipher) => key@.len() == KEY_SIZE && data@.len()
                > PLAINTEXT_LIMIT,
            Err(EncryptionError::RandomSource) => true,
            Err(EncryptionError::TooShort) => false,
        }),
{
    match random_nonce(os_random(NONCE_SIZE)) {
        None => Err(EncryptionError::RandomSource),
        Some(nonce) => {
            let r = encrypt_with_nonce(data, key, &nonce);
            proof {
                if r is Ok {
                    assert(r->Ok_0@ == sealed_segment(key@, nonce@, data@));
                }
            }
            r
        },
    }
}

/// Opens one segment: splits off the nonce and has the cipher check and
/// decrypt the rest.
///
/// The last clause is the round trip: a segment that sealing made of a
/// plaintext under this key, with whatever nonce, opens to that plaintext.
pub fn decrypt_data(encrypted: &[u8], key: &[u8]) -> (r: Result<Vec<u8>, EncryptionError>)
    ensures
        seen(r) == open_segment(key@, encrypted@),
        r matches Ok(p) ==> p@.len() + NONCE_SIZE + TAG_SIZE == encrypted@.len(),
        forall|nonce: Seq<u8>, plain: Seq<u8>|
            nonce.len() == NONCE_SIZE && seal_segment(key@, nonce, plain) == Ok::<
                Seq<u8>,
                EncryptionError,
            >(encrypted@) ==> #[trigger] sealed_segment(key@, nonce, plain) == encrypted@ && seen(r)
                == Ok::<Seq<u8>, EncryptionError>(plain),
{
    if encrypted.len() < NONCE_SIZE {
        return Err(EncryptionError::TooShort);
    }
    let (nonce, body) = encrypted.split_at(NONCE_SIZE);
    if key.len() != KEY_SIZE {
        return Err(EncryptionError::KeyLength);
    }
    assert(nonce@ == encrypted@.take(NONCE_SIZE as int));
    assert(body@ == encrypted@.skip(NONCE_SIZE as int));
    let opened = aead_open(key, nonce, body);
    assert forall|n: Seq<u8>, plain: Seq<u8>|
        n.len() == NONCE_SIZE && seal_segment(key@, n, plain) == Ok::<Seq<u8>, EncryptionError>(
            encrypted@,
        ) implies #[trigger] sealed_segment(key@, n, plain) == encrypted@ && (opened matches Some(p)
        && p@ == plain) by {
        let sealed = aes256_gcm_seal(key@, n, plain);
        assert(encrypted@ == n + sealed);
        assert(encrypted@.take(NONCE_SIZE as int) =~= n);
        assert(encrypted@.skip(NONCE_SIZE as int) =~= sealed);
    }
    match opened {
        Some(plain) => Ok(plain),
        None => Err(EncryptionError::Cipher),
    }
}

/// A list of `count` nonces, each of `NONCE_SIZE` bytes.
pub open spec fn nonces_fit(nonces: Seq<Seq<u8>>, count: nat) -> bool {
    &&& nonces.len() == count
    &&& forall|i: int| 0 <= i < nonces.len() ==> (#[trigger] nonces[i]).len() == NONCE_SIZE
}

/// Segments that a payload of `len` bytes is sealed into: one per started
/// chunk, and one for an empty payload.
pub open spec fn segments_needed(len: nat) -> nat
    decreases len,
{
    if len <= CHUNK_SIZE {
        1
    } else {
        1 + segments_needed((len - CHUNK_SIZE) as nat)
    }
}

/// The sealed form of a payload: its chunks of `CHUNK_SIZE` bytes (the last
/// one may be shorter), each sealed into a segment with the nonce of the same
/// index, one segment after another.
pub open spec fn seal_chunks(key: Seq<u8>, nonces: Seq<Seq<u8>>, data: Seq<u8>) -> Seq<u8>
    decreases data.len(),
{
    if data.len() <= CHUNK_SIZE {
        sealed_segment(key, nonces[0], data)
    } else {
        sealed_segment(key, nonces[0], data.take(CHUNK_SIZE as int)) + seal_chunks(
            key,
            nonces.skip(1),
            data.skip(CHUNK_SIZE as int),
        )
    }
}

/// Two opened parts in a row; the first failure wins.
pub open spec fn join_opened(
    a: Result<Seq<u8>, EncryptionError>,
    b: Result<Seq<u8>, EncryptionError>,
) -> Result<Seq<u8>, EncryptionError> {
    match a {
        Err(e) => Err(e),
        Ok(x) => match b {
            Err(e) => Err(e),
            Ok(y) => Ok(x + y),
        },
    }
}

/// Every segment of the sealed form of a payload is as long as its chunk,
/// the nonce and the tag.
pub open spec fn segments_sized(key: Seq<u8>, nonces: Seq<Seq<u8>>, data: Seq<u8>) -> bool
    decreases data.len(),
{
    if data.len() <= CHUNK_SIZE {
        sealed_segment(key, nonces[0], data).len() == data.len() + NONCE_SIZE + TAG_SIZE
    } else {
        &&& sealed_segment(key, nonces[0], data.take(CHUNK_SIZE as int)).len() == SEGMENT_SIZE
        &&& segments_sized(key, nonces.skip(1), data.skip(CHUNK_SIZE as int))
    }
}

/// What opening a sealed payload gives: the data is taken `SEGMENT_SIZE`
/// bytes at a time (the last piece may be shorter), every piece is opened as
/// one segment, and the plaintexts are put in a row.  The first piece that
/// fails decides the error.
pub open spec fn open_chunks(key: Seq<u8>, data: Seq<u8>) -> Result<Seq<u8>, EncryptionError>
    decreases data.len(),
{
    if data.len() <= SEGMENT_SIZE {
        open_segment(key, data)
    } else {
        join_opened(
            open_segment(key, data.take(SEGMENT_SIZE as int)),
            open_chunks(key, data.skip(SEGMENT_SIZE as int)),
        )
    }
}

/// Opening the segment gives back whatever was sealed into it under the
/// key, with whatever nonce.
pub open spec fn opens_faithfully(key: Seq<u8>, piece: Seq<u8>) -> bool {
    forall|nonce: Seq<u8>, plain: Seq<u8>|
        key.len() == KEY_SIZE && nonce.len() == NONCE_SIZE && plain.len() <= PLAINTEXT_LIMIT
            && piece == #[trigger] sealed_segment(key, nonce, plain) ==> open_segment(key, piece)
            == Ok::<Seq<u8>, EncryptionError>(plain)
}

/// Every piece that the walk over the data opens is opened faithfully, up
/// to the first piece that fails.
pub open spec fn walk_faithful(key: Seq<u8>, data: Seq<u8>) -> bool
    decreases data.len(),
{
    if data.len() <= SEGMENT_SIZE {
        opens_faithfully(key, data)
    } else {
        &&& opens_faithfully(key, data.take(SEGMENT_SIZE as int))
        &&& open_segment(key, data.take(SEGMENT_SIZE as int)) is Ok ==> walk_faithful(
            key,
            data.skip(SEGMENT_SIZE as int),
        )
    }
}

/// What `encrypt` promises of its output for a payload: it is the sealed
/// form of the payload for some nonces, one per segment, and every segment
/// has its full length.
pub open spec fn encrypts_to(key: Seq<u8>, plain: Seq<u8>, out: Seq<u8>) -> bool {
    &&& out.len() == plain.len() + segments_needed(plain.len()) * (NONCE_SIZE + TAG_SIZE)
    &&& exists|nonces: Seq<Seq<u8>>|
        nonces_fit(nonces, segments_needed(plain.len())) && segments_sized(key, nonces, plain)
            && out == #[trigger] seal_chunks(key, nonces, plain)
}

/// What `decrypt` promises of its result for sealed data: it is what the
/// walk in steps of `SEGMENT_SIZE` gives, and every piece that the walk
/// opened gave back what was sealed into it.
pub open spec fn decrypts_to(
    key: Seq<u8>,
    data: Seq<u8>,
    r: Result<Seq<u8>, EncryptionError>,
) -> bool {
    &&& r == open_chunks(key, data)
    &&& walk_faithful(key, data)
}

/// Sealing a payload whose last chunk is `tail` adds one segment to the
/// sealed form of what came before.
pub proof fn lemma_seal_chunks_append(
    key: Seq<u8>,
    nonces: Seq<Seq<u8>>,
    nonce: Seq<u8>,
    head: Seq<u8>,
    tail: Seq<u8>,
)
    requires
        head.len() > 0,
        head.len() % (CHUNK_SIZE as nat) == 0,
        0 < tail.len() <= CHUNK_SIZE,
        nonces.len() == segments_needed(head.len()),
    ensures
        seal_chunks(key, nonces.push(nonce), head + tail) == seal_chunks(key, nonces, head)
            + sealed_segment(key, nonce, tail),
        segments_needed((head + tail).len()) == segments_needed(head.len()) + 1,
        segments_sized(key, nonces, head) && sealed_segment(key, nonce, tail).len() == tail.len()
            + NONCE_SIZE + TAG_SIZE ==> segments_sized(key, nonces.push(nonce), head + tail),
    decreases head.len(),
{
    let whole = head + tail;
    let more = nonces.push(nonce);
    reveal_with_fuel(seal_chunks, 2);
    reveal_with_fuel(segments_needed, 2);
    reveal_with_fuel(segments_sized, 2);
    assert(more[0] == nonces[0]);
    if head.len() == CHUNK_SIZE {
        assert(whole.take(CHUNK_SIZE as int) =~= head);
        assert(whole.skip(CHUNK_SIZE as int) =~= tail);
        assert(more.skip(1)[0] == nonce);
        assert(segments_needed(tail.len()) == 1);
    } else {
        let rest = head.skip(CHUNK_SIZE as int);
        assert(whole.take(CHUNK_SIZE as int) =~= head.take(CHUNK_SIZE as int));
        assert(whole.skip(CHUNK_SIZE as int) =~= rest + tail);
        assert(more.skip(1) =~= nonces.skip(1).push(nonce));
        lemma_seal_chunks_append(key, nonces.skip(1), nonce, rest, tail);
        assert(seal_chunks(key, more, whole) =~= seal_chunks(key, nonces, head) + sealed_segment(
            key,
            nonce,
            tail,
        ));
    }
}

/// True for a length that is made of whole steps of `SEGMENT_SIZE` bytes.
pub open spec fn whole_steps(n: nat) -> bool
    decreases n,
{
    n == 0 || (n >= SEGMENT_SIZE && whole_steps((n - SEGMENT_SIZE) as nat))
}

/// Opening data that falls into a head of whole steps and a tail opens the
/// two one after the other.
pub proof fn lemma_open_chunks_split(key: Seq<u8>, head: Seq<u8>, tail: Seq<u8>)
    requires
        head.len() > 0,
        whole_steps(head.len()),
        tail.len() > 0,
    ensures
        open_chunks(key, head + tail) == join_opened(
            open_chunks(key, head),
            open_chunks(key, tail),
        ),
    decreases head.len(),
{
    let whole = head + tail;
    reveal_with_fuel(open_chunks, 2);
    if head.len() == SEGMENT_SIZE {
        assert(whole.take(SEGMENT_SIZE as int) =~= head);
        assert(whole.skip(SEGMENT_SIZE as int) =~= tail);
    } else {
        let rest = head.skip(SEGMENT_SIZE as int);
        assert(whole.take(SEGMENT_SIZE as int) =~= head.take(SEGMENT_SIZE as int));
        assert(whole.skip(SEGMENT_SIZE as int) =~= rest + tail);
        lemma_open_chunks_split(key, rest, tail);
        let first = open_segment(key, head.take(SEGMENT_SIZE as int));
        let mid = open_chunks(key, rest);
        let last = open_chunks(key, tail);
        if first is Ok && mid is Ok && last is Ok {
            assert(first->Ok_0 + (mid->Ok_0 + last->Ok_0) =~= (first->Ok_0 + mid->Ok_0)
                + last->Ok_0);
        }
    }
}

/// The walk over data that falls into a head of whole steps and a tail is
/// faithful exactly when it is on the head and, where the head opens, on
/// the tail.
pub proof fn lemma_walk_faithful_split(key: Seq<u8>, head: Seq<u8>, tail: Seq<u8>)
    requires
        head.len() > 0,
        whole_steps(head.len()),
        tail.len() > 0,
    ensures
        walk_faithful(key, head + tail) == (walk_faithful(key, head) && (open_chunks(key, head)
            is Ok ==> walk_faithful(key, tail))),
    decreases head.len(),
{
    let whole = head + tail;
    reveal_with_fuel(open_chunks, 2);
    reveal_with_fuel(walk_faithful, 2);
    if head.len() == SEGMENT_SIZE {
        assert(whole.take(SEGMENT_SIZE as int) =~= head);
        assert(whole.skip(SEGMENT_SIZE as int) =~= tail);
    } else {
        let rest = head.skip(SEGMENT_SIZE as int);
        assert(whole.take(SEGMENT_SIZE as int) =~= head.take(SEGMENT_SIZE as int));
        assert(whole.skip(SEGMENT_SIZE as int) =~= rest + tail);
        lemma_walk_faithful_split(key, rest, tail);
    }
}

/// The walk opens the sealed form of a payload to the payload, where it is
/// faithful on it.
pub proof fn lemma_walk_opens_sealed(key: Seq<u8>, nonces: Seq<Seq<u8>>, plain: Seq<u8>)
    requires
        key.len() == KEY_SIZE,
        nonces_fit(nonces, segments_needed(plain.len())),
        segments_sized(key, nonces, plain),
        walk_faithful(key, seal_chunks(key, nonces, plain)),
    ensures
        open_chunks(key, seal_chunks(key, nonces, plain)) == Ok::<Seq<u8>, EncryptionError>(
            plain,
        ),
    decreases plain.len(),
{
    let sealed = seal_chunks(key, nonces, plain);
    reveal_with_fuel(seal_chunks, 2);
    reveal_with_fuel(segments_sized, 2);
    reveal_with_fuel(segments_needed, 2);
    assert(nonces[0].len() == NONCE_SIZE);
    if plain.len() <= CHUNK_SIZE {
        assert(sealed == sealed_segment(key, nonces[0], plain));
    } else {
        let chunk = plain.take(CHUNK_SIZE as int);
        let rest = plain.skip(CHUNK_SIZE as int);
        let first = sealed_segment(key, nonces[0], chunk);
        let later = seal_chunks(key, nonces.skip(1), rest);
        assert(nonces.skip(1)[0] == nonces[1]);
        assert(later.len() > 0);
        assert(sealed.take(SEGMENT_SIZE as int) =~= first);
        assert(sealed.skip(SEGMENT_SIZE as int) =~= later);
        assert(open_segment(key, first) == Ok::<Seq<u8>, EncryptionError>(chunk));
        assert(nonces_fit(nonces.skip(1), segments_needed(rest.len())));
        lemma_walk_opens_sealed(key, nonces.skip(1), rest);
        assert(chunk + rest =~= plain);
    }
}

/// What `decrypt_data` says of a piece of at most one step makes the walk
/// over the piece faithful, and its result the result of the walk.
proof fn lemma_piece_opened(key: Seq<u8>, piece: Seq<u8>, r: Result<Seq<u8>, EncryptionError>)
    requires
        piece.len() <= SEGMENT_SIZE,
        r == open_segment(key, piece),
        forall|nonce: Seq<u8>, plain: Seq<u8>|
            nonce.len() == NONCE_SIZE && seal_segment(key, nonce, plain) == Ok::<
                Seq<u8>,
                EncryptionError,
            >(piece) ==> #[trigger] sealed_segment(key, nonce, plain) == piece && r == Ok::<
                Seq<u8>,
                EncryptionError,
            >(plain),
    ensures
        opens_faithfully(key, piece),
        walk_faithful(key, piece),
        open_chunks(key, piece) == r,
{
    assert forall|nonce: Seq<u8>, plain: Seq<u8>|
        key.len() == KEY_SIZE && nonce.len() == NONCE_SIZE && plain.len() <= PLAINTEXT_LIMIT
            && piece == #[trigger] sealed_segment(key, nonce, plain) implies open_segment(
        key,
        piece,
    ) == Ok::<Seq<u8>, EncryptionError>(plain) by {
        assert(seal_segment(key, nonce, plain) == Ok::<Seq<u8>, EncryptionError>(piece));
    }
}

/// The round trip of the authenticated provider: what `encrypt` made of a
/// payload, of whatever length, `decrypt` gives back, and the sealed form
/// differs from the payload.
pub proof fn lemma_decrypt_inverts_encrypt(
    key: Seq<u8>,
    plain: Seq<u8>,
    sealed: Seq<u8>,
    opened: Result<Seq<u8>, EncryptionError>,
)
    requires
        key.len() == KEY_SIZE,
        encrypts_to(key, plain, sealed),
        decrypts_to(key, sealed, opened),
    ensures
        opened == Ok::<Seq<u8>, EncryptionError>(plain),
        sealed != plain,
{
    let nonces = choose|nonces: Seq<Seq<u8>>|
        nonces_fit(nonces, segments_needed(plain.len())) && segments_sized(key, nonces, plain)
            && sealed == #[trigger] seal_chunks(key, nonces, plain);
    lemma_walk_opens_sealed(key, nonces, plain);
    reveal_with_fuel(segments_needed, 2);
    assert(segments_needed(plain.len()) >= 1);
    assert(sealed.len() > plain.len()) by (nonlinear_arith)
        requires
            sealed.len() == plain.len() + segments_needed(plain.len()) * (NONCE_SIZE + TAG_SIZE),
            segments_needed(plain.len()) >= 1,
            NONCE_SIZE + TAG_SIZE == 28,
    ;
}

/// The two operations of an encryption provider.
pub trait EncryptionProvider {
    /// What `encrypt` may make of a payload.
    spec fn seals(&self, plain: Seq<u8>, out: Seq<u8>) -> bool;

    /// What `decrypt` makes of data.
    spec fn opens(&self, data: Seq<u8>, r: Result<Seq<u8>, EncryptionError>) -> bool;

    /// Turns a payload into what is stored.  It fails only where no random
    /// bytes could be had.
    fn encrypt(&self, data: &[u8]) -> (r: Result<Vec<u8>, EncryptionError>)
        ensures
            r matches Ok(c) ==> self.seals(data@, c@),
            r matches Err(e) ==> e == EncryptionError::RandomSource,
    ;

    /// Turns what was stored back into the payload.
    fn decrypt(&self, data: &[u8]) -> (r: Result<Vec<u8>, EncryptionError>)
        ensures
            self.opens(data@, seen(r)),
    ;
}

/// The provider for backups that are stored as they are.
#[derive(Debug, Clone, Copy)]
pub struct NoOpEncryption;

impl EncryptionProvider for NoOpEncryption {
    open spec fn seals(&self, plain: Seq<u8>, out: Seq<u8>) -> bool {
        out == plain
    }

    open spec fn opens(&self, data: Seq<u8>, r: Result<Seq<u8>, EncryptionError>) -> bool {
        r == Ok::<Seq<u8>, EncryptionError>(data)
    }

    fn encrypt(&self, data: &[u8]) -> (r: Result<Vec<u8>, EncryptionError>)
        ensures
            r is Ok,
    {
        Ok(slice_to_vec(data))
    }

    fn decrypt(&self, data: &[u8]) -> (r: Result<Vec<u8>, EncryptionError>) {
        Ok(slice_to_vec(data))
    }
}

/// The provider that seals payloads with AES-256-GCM.
#[derive(Debug, Clone)]
pub struct AesGcmEncryption {
    key: [u8; 32],
}

impl AesGcmEncryption {
    /// The key of this provider.
    pub closed spec fn key(&self) -> Seq<u8> {
        self.key@
    }

    /// The key of a provider has `KEY_SIZE` bytes.
    pub proof fn lemma_key_size(self)
        ensures
            self.key().len() == KEY_SIZE,
    {
    }

    /// A provider for the given key.
    pub fn new(key: [u8; 32]) -> (r: Self)
        ensures
            r.key() == key@,
    {
        Self { key }
    }

    /// A fresh random key, or `RandomSource` where the operating system gave
    /// no random bytes.
    pub fn generate_key() -> (r: Result<[u8; 32], EncryptionError>)
        ensures
            r matches Err(e) ==> e == EncryptionError::RandomSource,
    {
        match random_key(os_random(KEY_SIZE)) {
            Some(key) => Ok(key),
            None => Err(EncryptionError::RandomSource),
        }
    }

    /// A provider for a key read from a key file, which holds the raw key and
    /// nothing else.
    pub fn from_key_bytes(bytes: &[u8]) -> (r: Result<Self, EncryptionError>)
        ensures
            match r {
                Ok(p) => bytes@.len() == KEY_SIZE && p.key() == bytes@,
                Err(e) => bytes@.len() != KEY_SIZE && e == EncryptionError::KeyLength,
            },
    {
        if bytes.len() != KEY_SIZE {
            return Err(EncryptionError::KeyLength);
        }
        let mut key = [0u8; 32];
        let mut i: usize = 0;
        while i < KEY_SIZE
            invariant
                i <= KEY_SIZE,
                bytes@.len() == KEY_SIZE,
                forall|j: int| 0 <= j < i ==> key@[j] == bytes@[j],
            decreases KEY_SIZE - i,
        {
            key[i] = bytes[i];
            i += 1;
        }
        assert(key@ =~= bytes@);
        Ok(Self { key })
    }

    /// The raw key, as a key file holds it.
    pub fn key_bytes(&self) -> (r: Vec<u8>)
        ensures
            r@ == self.key(),
            r@.len() == KEY_SIZE,
    {
        slice_to_vec(self.key.as_slice())
    }
}

impl EncryptionProvider for AesGcmEncryption {
    open spec fn seals(&self, plain: Seq<u8>, out: Seq<u8>) -> bool {
        encrypts_to(self.key(), plain, out)
    }

    open spec fn opens(&self, data: Seq<u8>, r: Result<Seq<u8>, EncryptionError>) -> bool {
        decrypts_to(self.key(), data, r)
    }

    fn encrypt(&self, data: &[u8]) -> (r: Result<Vec<u8>, EncryptionError>) {
        let key = self.key.as_slice();
        if data.len() < SMALL_INPUT {
            let r = encrypt_data(data, key);
            proof {
                if r is Ok {
                    let nonce = choose|nonce: Seq<u8>|
                        nonce.len() == NONCE_SIZE && r->Ok_0@ == #[trigger] sealed_segment(
                            key@,
                            nonce,
                            data@,
                        );
                    assert(nonces_fit(seq![nonce], 1));
                    assert(seq![nonce][0] == nonce);
                    assert(r->Ok_0@ == seal_chunks(key@, seq![nonce], data@));
                    assert(segments_sized(key@, seq![nonce], data@));
                }
            }
            return r;
        }
        let mut out: Vec<u8> = Vec::new();
        let mut pos: usize = 0;
        let ghost mut nonces: Seq<Seq<u8>> = Seq::empty();
        while pos < data.len()
            invariant
                key@ == self.key(),
                key@.len() == KEY_SIZE,
                data@.len() >= SMALL_INPUT,
                pos <= data@.len(),
                pos < data@.len() ==> pos % CHUNK_SIZE == 0,
                pos == 0 ==> out@.len() == 0 && nonces.len() == 0,
                pos > 0 ==> nonces_fit(nonces, segments_needed(pos as nat)) && out@ == seal_chunks(
                    key@,
                    nonces,
                    data@.take(pos as int),
                ) && out@.len() == pos + nonces.len() * (NONCE_SIZE + TAG_SIZE),
                pos > 0 ==> segments_sized(key@, nonces, data@.take(pos as int)),
            decreases data@.len() - pos,
        {
            let end = if data.len() - pos > CHUNK_SIZE {
                pos + CHUNK_SIZE
            } else {
                data.len()
            };
            let chunk = slice_subrange(data, pos, end);
            match encrypt_data(chunk, key) {
                Err(e) => {
                    return Err(EncryptionError::RandomSource);
                },
                Ok(segment) => {
                    proof {
                        let nonce = choose|nonce: Seq<u8>|
                            nonce.len() == NONCE_SIZE && segment@ == #[trigger] sealed_segment(
                                key@,
                                nonce,
                                chunk@,
                            );
                        assert(data@.take(end as int) =~= data@.take(pos as int) + chunk@);
                        if pos == 0 {
                            assert(data@.take(end as int) =~= chunk@);
                            assert(out@ + segment@ =~= segment@);
                            assert(seq![nonce][0] == nonce);
                            assert(nonces_fit(seq![nonce], 1));
                            assert(segments_sized(key@, seq![nonce], chunk@));
                            nonces = seq![nonce];
                        } else {
                            lemma_seal_chunks_append(
                                key@,
                                nonces,
                                nonce,
                                data@.take(pos as int),
                                chunk@,
                            );
                            nonces = nonces.push(nonce);
                        }
                    }
                    out.extend_from_slice(segment.as_slice());
                },
            }
            pos = end;
        }
        proof {
            assert(data@.take(pos as int) =~= data@);
        }
        Ok(out)
    }

    fn decrypt(&self, data: &[u8]) -> (r: Result<Vec<u8>, EncryptionError>) {
        let key = self.key.as_slice();
        if data.len() < SMALL_INPUT + NONCE_SIZE {
            let r = decrypt_data(data, key);
            proof {
                lemma_piece_opened(key@, data@, seen(r));
            }
            return r;
        }
        let mut out: Vec<u8> = Vec::new();
        let mut pos: usize = 0;
        while pos < data.len()
            invariant
                key@ == self.key(),
                key@.len() == KEY_SIZE,
                data@.len() >= SMALL_INPUT + NONCE_SIZE,
                pos <= data@.len(),
                pos < data@.len() ==> whole_steps(pos as nat),
                pos == 0 ==> out@.len() == 0,
                pos > 0 ==> open_chunks(key@, data@.take(pos as int)) == Ok::<
                    Seq<u8>,
                    EncryptionError,
                >(out@),
                pos > 0 ==> walk_faithful(key@, data@.take(pos as int)),
            decreases data@.len() - pos,
        {
            let end = if data.len() - pos > SEGMENT_SIZE {
                pos + SEGMENT_SIZE
            } else {
                data.len()
            };
            let piece = slice_subrange(data, pos, end);
            let ghost rest = data@.skip(pos as int);
            let opened = decrypt_data(piece, key);
            proof {
                reveal_with_fuel(open_chunks, 2);
                reveal_with_fuel(walk_faithful, 2);
                reveal_with_fuel(whole_steps, 2);
                if end < data@.len() {
                    assert(whole_steps(end as nat));
                }
                lemma_piece_opened(key@, piece@, seen(opened));
                assert(data@ =~= data@.take(pos as int) + rest);
                assert(data@.take(end as int) =~= data@.take(pos as int) + piece@);
                if rest.len() <= SEGMENT_SIZE {
                    assert(rest =~= piece@);
                } else {
                    assert(rest.take(SEGMENT_SIZE as int) =~= piece@);
                }
                if pos > 0 {
                    lemma_open_chunks_split(key@, data@.take(pos as int), rest);
                    lemma_open_chunks_split(key@, data@.take(pos as int), piece@);
                    lemma_walk_faithful_split(key@, data@.take(pos as int), rest);
                    lemma_walk_faithful_split(key@, data@.take(pos as int), piece@);
                } else {
                    assert(rest =~= data@);
                    assert(data@.take(end as int) =~= piece@);
                }
            }
            match opened {
                Err(e) => {
                    proof {
                        assert(open_chunks(key@, rest) == Err::<Seq<u8>, EncryptionError>(e));
                        assert(walk_faithful(key@, rest));
                        assert(open_chunks(key@, data@) == Err::<Seq<u8>, EncryptionError>(e));
                        assert(walk_faithful(key@, data@));
                    }
                    return Err(e);
                },
                Ok(plain) => {
                    let ghost before = out@;
                    out.extend_from_slice(plain.as_slice());
                    proof {
                        let upto = data@.take(end as int);
                        assert(out@ == before + plain@);
                        assert(open_chunks(key@, piece@) == Ok::<Seq<u8>, EncryptionError>(
                            plain@,
                        ));
                        if pos == 0 {
                            assert(out@ =~= plain@);
                            assert(upto == piece@);
                        } else {
                            assert(upto == data@.take(pos as int) + piece@);
                        }
                        assert(open_chunks(key@, upto) == Ok::<Seq<u8>, EncryptionError>(out@));
                        assert(walk_faithful(key@, upto));
                    }
                },
            }
            pos = end;
        }
        proof {
            assert(data@.take(pos as int) =~= data@);
        }
        Ok(out)
    }
}

} // verus!
