//! Authenticated encryption of media packets.
//!
//! A packet is framed as `header ++ tag ++ ciphertext ++ suffix`, where
//! the nonce strategy decides the suffix: nothing for the header-derived
//! nonce, the full 24 random bytes for the suffixed nonce, and a 4-byte
//! big-endian counter for the lite nonce.  The cipher itself is the
//! outside secretbox primitive, reached through trusted wrappers; all
//! framing around it is verified.

use vstd::prelude::*;
use vstd::string::StringSliceAdditionalSpecFns;

use crypto_secretbox::aead::AeadInPlace;
use crypto_secretbox::{Key, KeyInit, Nonce, Tag, XSalsa20Poly1305};
use rand::RngCore;

use crate::constants::{MAX_RTP_PACKET_SIZE, NONCE_SIZE, RTP_HEADER_LEN, TAG_SIZE};
use crate::wire::{append_bytes, be32, bytes_eq, copy_range, push_be32};
use crate::DiscordError;

verus! {

/// The nonce strategy negotiated with the signaling peer.
#[derive(Copy, Clone, Debug, PartialEq, Eq, Structural)]
pub enum EncryptionMode {
    /// Nonce derived from the packet header, zero-padded.
    Normal,
    /// Fresh 24 random bytes, appended after the ciphertext.
    Suffix,
    /// A 4-byte wrapping counter, appended after the ciphertext.
    Lite,
}

/// The wire spelling of each nonce strategy.
pub open spec fn wire_name_spec(mode: EncryptionMode) -> Seq<u8> {
    match mode {
        EncryptionMode::Normal => "xsalsa20_poly1305".spec_bytes(),
        EncryptionMode::Suffix => "xsalsa20_poly1305_suffix".spec_bytes(),
        EncryptionMode::Lite => "xsalsa20_poly1305_lite".spec_bytes(),
    }
}

/// How many bytes the strategy appends after the ciphertext.
pub open spec fn suffix_len_spec(mode: EncryptionMode) -> int {
    match mode {
        EncryptionMode::Normal => 0,
        EncryptionMode::Suffix => 24,
        EncryptionMode::Lite => 4,
    }
}

/// How many bytes of the nonce actually vary between packets.
pub open spec fn entropy_spec(mode: EncryptionMode) -> int {
    match mode {
        EncryptionMode::Normal => 4,
        EncryptionMode::Suffix => 24,
        EncryptionMode::Lite => 4,
    }
}

/// The strategy named by a wire spelling, if any.
pub open spec fn parse_mode_spec(s: Seq<u8>) -> Option<EncryptionMode> {
    if s == wire_name_spec(EncryptionMode::Normal) {
        Some(EncryptionMode::Normal)
    } else if s == wire_name_spec(EncryptionMode::Suffix) {
        Some(EncryptionMode::Suffix)
    } else if s == wire_name_spec(EncryptionMode::Lite) {
        Some(EncryptionMode::Lite)
    } else {
        None
    }
}

impl EncryptionMode {
    /// The name of this strategy as spelled on the wire.
    pub fn name(&self) -> (r: &'static str)
        ensures
            r.spec_bytes() == wire_name_spec(*self),
    {
        match self {
            EncryptionMode::Normal => "xsalsa20_poly1305",
            EncryptionMode::Suffix => "xsalsa20_poly1305_suffix",
            EncryptionMode::Lite => "xsalsa20_poly1305_lite",
        }
    }

    /// Bytes this strategy appends after the ciphertext.
    pub fn suffix_len(&self) -> (r: usize)
        ensures
            r == suffix_len_spec(*self),
    {
        match self {
            EncryptionMode::Normal => 0,
            EncryptionMode::Suffix => 24,
            EncryptionMode::Lite => 4,
        }
    }

    /// Bytes of the nonce that actually vary between packets.
    pub fn effective_nonce_entropy(&self) -> (r: usize)
        ensures
            r == entropy_spec(*self),
    {
        match self {
            EncryptionMode::Normal => 4,
            EncryptionMode::Suffix => 24,
            EncryptionMode::Lite => 4,
        }
    }

    /// Reads a strategy from its wire spelling.
    pub fn from_wire_name(s: &[u8]) -> (r: Option<EncryptionMode>)
        ensures
            r == parse_mode_spec(s@),
    {
        if bytes_eq(s, "xsalsa20_poly1305".as_bytes()) {
            Some(EncryptionMode::Normal)
        } else if bytes_eq(s, "xsalsa20_poly1305_suffix".as_bytes()) {
            Some(EncryptionMode::Suffix)
        } else if bytes_eq(s, "xsalsa20_poly1305_lite".as_bytes()) {
            Some(EncryptionMode::Lite)
        } else {
            None
        }
    }
}

/// The suffixed nonce carries strictly more entropy than the other two
/// strategies, which rank equal.
pub proof fn lemma_nonce_entropy_ranking()
    ensures
        entropy_spec(EncryptionMode::Suffix) > entropy_spec(EncryptionMode::Normal),
        entropy_spec(EncryptionMode::Normal) == entropy_spec(EncryptionMode::Lite),
{
}

/// The strategy chosen from a list of advertised wire spellings: the
/// parseable entry of highest entropy, the later of two equals.
pub open spec fn select_mode_spec(names: Seq<Seq<u8>>) -> Option<EncryptionMode>
    decreases names.len(),
{
    if names.len() == 0 {
        None
    } else {
        let prior = select_mode_spec(names.drop_last());
        match parse_mode_spec(names.last()) {
            Some(m) => match prior {
                None => Some(m),
                Some(b) => if entropy_spec(m) >= entropy_spec(b) {
                    Some(m)
                } else {
                    Some(b)
                },
            },
            None => prior,
        }
    }
}

/// Picks the advertised nonce strategy of highest entropy.
///
/// Entries that parse to no known strategy are ignored; between equal
/// entropies the later entry wins, so the choice is deterministic in
/// the advertised order.
pub fn select_mode(names: &Vec<Vec<u8>>) -> (r: Option<EncryptionMode>)
    ensures
        r == select_mode_spec(names.deep_view()),
{
    let ghost vs = names.deep_view();
    let mut best: Option<EncryptionMode> = None;
    let n = names.len();
    let mut i: usize = 0;
    while i < n
        invariant
            n == names@.len(),
            vs == names.deep_view(),
            0 <= i <= n,
            best == select_mode_spec(vs.subrange(0, i as int)),
        decreases n - i,
    {
        proof {
            assert(vs[i as int] == names@[i as int]@);
            assert(vs.subrange(0, i + 1).drop_last() =~= vs.subrange(0, i as int));
            assert(vs.subrange(0, i + 1).last() == vs[i as int]);
        }
        match EncryptionMode::from_wire_name(names[i].as_slice()) {
            Some(m) => {
                best = match best {
                    None => Some(m),
                    Some(b) => {
                        if m.effective_nonce_entropy() >= b.effective_nonce_entropy() {
                            Some(m)
                        } else {
                            Some(b)
                        }
                    },
                };
            },
            None => {},
        }
        i += 1;
    }
    proof {
        assert(vs.subrange(0, n as int) =~= vs);
    }
    best
}

/// Whatever the selection returns parses from one of the advertised
/// entries and ranks at least as high as every other parseable entry.
pub proof fn lemma_select_mode_max(names: Seq<Seq<u8>>)
    ensures
        select_mode_spec(names) matches Some(m) ==> {
            &&& exists|i: int| 0 <= i < names.len() && parse_mode_spec(#[trigger] names[i]) == Some(m)
            &&& forall|i: int|
                0 <= i < names.len() && parse_mode_spec(#[trigger] names[i]) is Some
                    ==> entropy_spec(parse_mode_spec(names[i]).unwrap()) <= entropy_spec(m)
        },
        select_mode_spec(names) is None ==> forall|i: int|
            0 <= i < names.len() ==> parse_mode_spec(#[trigger] names[i]) is None,
    decreases names.len(),
{
    if names.len() > 0 {
        lemma_select_mode_max(names.drop_last());
        assert(forall|i: int|
            0 <= i < names.len() - 1 ==> names.drop_last()[i] == #[trigger] names[i]);
        assert(names.last() == names[names.len() - 1]);
    }
}

/// Sealing of a message under the secretbox cipher: the 16-byte tag,
/// then ciphertext of the message's length.  A function of key, nonce
/// and message alone.
pub uninterp spec fn xsalsa_seal(key: Seq<u8>, nonce: Seq<u8>, plaintext: Seq<u8>) -> Seq<u8>;

/// Opening of a sealed message under the secretbox cipher: the message
/// back when the tag authenticates, nothing otherwise.
pub uninterp spec fn xsalsa_open(key: Seq<u8>, nonce: Seq<u8>, sealed: Seq<u8>) -> Option<Seq<u8>>;

/// Relies on the secretbox cipher's detached in-place encryption: with
/// empty associated data it never fails, the ciphertext is as long as
/// the message, the result depends on key, nonce and message alone, and
/// detached in-place decryption under the same key and nonce gives the
/// message back.
#[verifier::external_body]
fn xsalsa_seal_bytes(key: &[u8], nonce: &[u8], plaintext: &[u8]) -> (r: Vec<u8>)
    requires
        key@.len() == 32,
        nonce@.len() == NONCE_SIZE,
    ensures
        r@ == xsalsa_seal(key@, nonce@, plaintext@),
        r@.len() == TAG_SIZE + plaintext@.len(),
        xsalsa_open(key@, nonce@, r@) == Some(plaintext@),
{
    let cipher = XSalsa20Poly1305::new(Key::from_slice(key));
    let mut buffer = plaintext.to_vec();
    let tag = cipher
        .encrypt_in_place_detached(Nonce::from_slice(nonce), &[], &mut buffer)
        .expect("no associated data, so sealing cannot fail");
    let mut out = tag.to_vec();
    out.append(&mut buffer);
    out
}

/// Relies on the secretbox cipher's detached in-place decryption: it
/// authenticates the leading 16-byte tag against the ciphertext and
/// returns the message exactly when the tag matches.
#[verifier::external_body]
fn xsalsa_open_bytes(key: &[u8], nonce: &[u8], sealed: &[u8]) -> (r: Result<Vec<u8>, ()>)
    requires
        key@.len() == 32,
        nonce@.len() == NONCE_SIZE,
        sealed@.len() >= TAG_SIZE,
    ensures
        match r {
            Ok(p) => xsalsa_open(key@, nonce@, sealed@) == Some(p@) && p@.len() + TAG_SIZE
                == sealed@.len(),
            Err(_) => xsalsa_open(key@, nonce@, sealed@) is None,
        },
{
    let cipher = XSalsa20Poly1305::new(Key::from_slice(key));
    let (tag, ciphertext) = sealed.split_at(TAG_SIZE);
    let mut buffer = ciphertext.to_vec();
    let outcome = cipher.decrypt_in_place_detached(
        Nonce::from_slice(nonce),
        &[],
        &mut buffer,
        Tag::from_slice(tag),
    );
    match outcome {
        Ok(()) => Ok(buffer),
        Err(_) => Err(()),
    }
}

/// Relies on the thread-local random generator's fill_bytes: 24 fresh
/// bytes; nothing is assumed of their values.
#[verifier::external_body]
fn random_nonce_bytes() -> (r: Vec<u8>)
    ensures
        r@.len() == NONCE_SIZE,
{
    let mut bytes = vec![0u8; NONCE_SIZE];
    rand::thread_rng().fill_bytes(&mut bytes);
    bytes
}

/// Relies on rand::random: an arbitrary 32-bit value; nothing is
/// assumed of it.
#[verifier::external_body]
pub(crate) fn random_u32() -> u32 {
    rand::random()
}

/// `s` zero-padded on the right to `n` bytes.
pub open spec fn zero_pad(s: Seq<u8>, n: int) -> Seq<u8>
    recommends
        s.len() <= n,
{
    s + Seq::new((n - s.len()) as nat, |i: int| 0u8)
}

/// The full 24-byte nonce a packet is sealed under, reconstructed from
/// the wire bytes per strategy: the zero-padded header, the trailing 24
/// bytes, or the zero-padded trailing 4 counter bytes.
pub open spec fn wire_nonce_spec(mode: EncryptionMode, packet: Seq<u8>, header_len: int) -> Seq<
    u8,
> {
    match mode {
        EncryptionMode::Normal => zero_pad(packet.subrange(0, header_len), 24),
        EncryptionMode::Suffix => packet.subrange(packet.len() - 24, packet.len() as int),
        EncryptionMode::Lite => zero_pad(
            packet.subrange(packet.len() - 4, packet.len() as int),
            24,
        ),
    }
}

/// What decrypting a wire packet yields: the sealed body between the
/// header and the nonce suffix, opened under the reconstructed nonce.
/// Packets too short for tag and suffix yield nothing.
pub open spec fn decrypt_wire_spec(
    mode: EncryptionMode,
    key: Seq<u8>,
    packet: Seq<u8>,
    header_len: int,
) -> Option<Seq<u8>> {
    if packet.len() < header_len + TAG_SIZE + suffix_len_spec(mode) {
        None
    } else {
        let sealed = packet.subrange(header_len, packet.len() - suffix_len_spec(mode));
        xsalsa_open(key, wire_nonce_spec(mode, packet, header_len), sealed)
    }
}

/// Outbound cipher state: the key, the nonce strategy, and the wrapping
/// counter used by the lite strategy.
pub struct VoiceEncryption {
    key: Vec<u8>,
    mode: EncryptionMode,
    lite_counter: u32,
}

impl VoiceEncryption {
    /// A 32-byte key is installed.
    pub closed spec fn wf(&self) -> bool {
        self.key@.len() == 32
    }

    /// The installed key.
    pub closed spec fn key_view(&self) -> Seq<u8> {
        self.key@
    }

    /// The installed nonce strategy.
    pub closed spec fn mode_spec(&self) -> EncryptionMode {
        self.mode
    }

    /// The counter the lite strategy will stamp on the next packet.
    pub closed spec fn lite_counter_spec(&self) -> u32 {
        self.lite_counter
    }

    /// Installs a fresh outbound cipher; the lite counter starts at an
    /// arbitrary value.
    pub fn new(mode: EncryptionMode, key: Vec<u8>) -> (r: Self)
        requires
            key@.len() == 32,
        ensures
            r.wf(),
            r.mode_spec() == mode,
            r.key_view() == key@,
    {
        VoiceEncryption { key, mode, lite_counter: random_u32() }
    }

    /// Seals one packet for the wire.
    ///
    /// The result is the clear header, the tag and ciphertext of the
    /// payload, and the strategy's nonce suffix; it decrypts back to
    /// the payload under the same key and strategy.
    pub fn encrypt_packet(&mut self, header: &Vec<u8>, payload: &Vec<u8>) -> (r: Vec<u8>)
        requires
            old(self).wf(),
            header@.len() == RTP_HEADER_LEN,
            payload@.len() <= MAX_RTP_PACKET_SIZE,
        ensures
            final(self).wf(),
            final(self).key_view() == old(self).key_view(),
            final(self).mode_spec() == old(self).mode_spec(),
            r@.len() == header@.len() + TAG_SIZE + payload@.len() + suffix_len_spec(
                old(self).mode_spec(),
            ),
            r@.subrange(0, header@.len() as int) == header@,
            decrypt_wire_spec(
                old(self).mode_spec(),
                old(self).key_view(),
                r@,
                header@.len() as int,
            ) == Some(payload@),
            old(self).mode_spec() == EncryptionMode::Normal ==> r@ == header@ + xsalsa_seal(
                old(self).key_view(),
                zero_pad(header@, 24),
                payload@,
            ),
            old(self).mode_spec() == EncryptionMode::Lite ==> r@ == header@ + xsalsa_seal(
                old(self).key_view(),
                zero_pad(be32(old(self).lite_counter_spec()), 24),
                payload@,
            ) + be32(old(self).lite_counter_spec()),
            old(self).mode_spec() == EncryptionMode::Lite ==> final(self).lite_counter_spec()
                == old(self).lite_counter_spec().wrapping_add(1),
            old(self).mode_spec() != EncryptionMode::Lite ==> final(self).lite_counter_spec()
                == old(self).lite_counter_spec(),
            old(self).mode_spec() == EncryptionMode::Suffix ==> exists|n: Seq<u8>|
                n.len() == 24 && r@ == header@ + #[trigger] xsalsa_seal(
                    old(self).key_view(),
                    n,
                    payload@,
                ) + n,
    {
        let ghost key_view = self.key@;
        let mode = self.mode;
        let mut nonce: Vec<u8>;
        match mode {
            EncryptionMode::Normal => {
                nonce = Vec::new();
                append_bytes(&mut nonce, header.as_slice());
                let mut i: usize = 0;
                while i < 12
                    invariant
                        nonce@.len() == RTP_HEADER_LEN + i,
                        0 <= i <= 12,
                        nonce@.subrange(0, RTP_HEADER_LEN as int) == header@,
                        forall|j: int| RTP_HEADER_LEN <= j < nonce@.len() ==> nonce@[j] == 0u8,
                    decreases 12 - i,
                {
                    nonce.push(0);
                    assert(nonce@.subrange(0, RTP_HEADER_LEN as int) =~= header@);
                    i += 1;
                }
                proof {
                    assert(nonce@ =~= zero_pad(header@, 24));
                }
            },
            EncryptionMode::Suffix => {
                nonce = random_nonce_bytes();
            },
            EncryptionMode::Lite => {
                nonce = Vec::new();
                push_be32(&mut nonce, self.lite_counter);
                let mut i: usize = 0;
                while i < 20
                    invariant
                        nonce@.len() == 4 + i,
                        0 <= i <= 20,
                        nonce@.subrange(0, 4) == be32(old(self).lite_counter_spec()),
                        forall|j: int| 4 <= j < nonce@.len() ==> nonce@[j] == 0u8,
                    decreases 20 - i,
                {
                    nonce.push(0);
                    assert(nonce@.subrange(0, 4) =~= be32(old(self).lite_counter_spec()));
                    i += 1;
                }
                proof {
                    assert(nonce@ =~= zero_pad(be32(old(self).lite_counter_spec()), 24));
                }
                self.lite_counter = self.lite_counter.wrapping_add(1);
            },
        }
        let sealed = xsalsa_seal_bytes(self.key.as_slice(), nonce.as_slice(), payload.as_slice());
        let mut out: Vec<u8> = Vec::new();
        append_bytes(&mut out, header.as_slice());
        append_bytes(&mut out, sealed.as_slice());
        match mode {
            EncryptionMode::Normal => {},
            EncryptionMode::Suffix => {
                append_bytes(&mut out, nonce.as_slice());
            },
            EncryptionMode::Lite => {
                let suffix = copy_range(nonce.as_slice(), 0, 4);
                append_bytes(&mut out, suffix.as_slice());
                proof {
                    assert(nonce@.subrange(0, 4) =~= be32(old(self).lite_counter_spec()));
                }
            },
        }
        proof {
            let hl = header@.len() as int;
            let sfx = suffix_len_spec(mode);
            assert(out@.subrange(0, hl) =~= header@);
            assert(out@.subrange(hl, out@.len() - sfx) =~= sealed@);
            match mode {
                EncryptionMode::Normal => {
                    assert(wire_nonce_spec(mode, out@, hl) =~= nonce@);
                },
                EncryptionMode::Suffix => {
                    assert(out@.subrange(out@.len() - 24, out@.len() as int) =~= nonce@);
                },
                EncryptionMode::Lite => {
                    assert(out@.subrange(out@.len() - 4, out@.len() as int) =~= be32(
                        old(self).lite_counter,
                    ));
                    assert(wire_nonce_spec(mode, out@, hl) =~= nonce@);
                },
            }
        }
        out
    }
}

/// Inbound cipher state: the key and the nonce strategy.
pub struct VoiceDecryption {
    key: Vec<u8>,
    mode: EncryptionMode,
}

impl VoiceDecryption {
    /// A 32-byte key is installed.
    pub closed spec fn wf(&self) -> bool {
        self.key@.len() == 32
    }

    /// The installed key.
    pub closed spec fn key_view(&self) -> Seq<u8> {
        self.key@
    }

    /// The installed nonce strategy.
    pub closed spec fn mode_spec(&self) -> EncryptionMode {
        self.mode
    }

    /// Installs a fresh inbound cipher.
    pub fn new(mode: EncryptionMode, key: Vec<u8>) -> (r: Self)
        requires
            key@.len() == 32,
        ensures
            r.wf(),
            r.mode_spec() == mode,
            r.key_view() == key@,
    {
        VoiceDecryption { key, mode }
    }

    /// The shortest packet that can carry a header, a tag and the
    /// strategy's nonce suffix.
    pub fn min_packet_length(&self) -> (r: usize)
        ensures
            r == RTP_HEADER_LEN + TAG_SIZE + suffix_len_spec(self.mode_spec()),
    {
        RTP_HEADER_LEN + TAG_SIZE + self.mode.suffix_len()
    }

    /// Opens one wire packet whose clear header is `header_len` bytes.
    ///
    /// Returns the authenticated payload, or an error exactly when the
    /// packet is too short for tag and suffix or fails to authenticate.
    pub fn decrypt_packet(&self, packet: &Vec<u8>, header_len: usize) -> (r: Result<
        Vec<u8>,
        DiscordError,
    >)
        requires
            self.wf(),
            header_len <= 24,
        ensures
            match r {
                Ok(p) => decrypt_wire_spec(self.mode_spec(), self.key_view(), packet@, header_len as int)
                    == Some(p@) && packet@.len() == header_len + TAG_SIZE + p@.len()
                    + suffix_len_spec(self.mode_spec()),
                Err(_) => decrypt_wire_spec(
                    self.mode_spec(),
                    self.key_view(),
                    packet@,
                    header_len as int,
                ) is None,
            },
    {
        let suffix = self.mode.suffix_len();
        if packet.len() < header_len + TAG_SIZE + suffix {
            return Err(DiscordError::InternalError { cause: "packet too short".to_owned() });
        }
        let len = packet.len();
        let mut nonce: Vec<u8>;
        match self.mode {
            EncryptionMode::Normal => {
                nonce = copy_range(packet.as_slice(), 0, header_len);
                while nonce.len() < NONCE_SIZE
                    invariant
                        header_len <= nonce@.len() <= NONCE_SIZE,
                        nonce@.subrange(0, header_len as int) == packet@.subrange(
                            0,
                            header_len as int,
                        ),
                        forall|j: int| header_len <= j < nonce@.len() ==> nonce@[j] == 0u8,
                    decreases NONCE_SIZE - nonce@.len(),
                {
                    nonce.push(0);
                    assert(nonce@.subrange(0, header_len as int) =~= packet@.subrange(
                        0,
                        header_len as int,
                    ));
                }
                proof {
                    assert(nonce@ =~= wire_nonce_spec(self.mode, packet@, header_len as int));
                }
            },
            EncryptionMode::Suffix => {
                nonce = copy_range(packet.as_slice(), len - 24, len);
            },
            EncryptionMode::Lite => {
                nonce = copy_range(packet.as_slice(), len - 4, len);
                while nonce.len() < NONCE_SIZE
                    invariant
                        4 <= nonce@.len() <= NONCE_SIZE,
                        packet@.len() == len,
                        len >= 20,
                        nonce@.subrange(0, 4) == packet@.subrange(len - 4, len as int),
                        forall|j: int| 4 <= j < nonce@.len() ==> nonce@[j] == 0u8,
                    decreases NONCE_SIZE - nonce@.len(),
                {
                    nonce.push(0);
                    assert(nonce@.subrange(0, 4) =~= packet@.subrange(len - 4, len as int));
                }
                proof {
                    assert(nonce@ =~= wire_nonce_spec(self.mode, packet@, header_len as int));
                }
            },
        }
        let sealed = copy_range(packet.as_slice(), header_len, len - suffix);
        match xsalsa_open_bytes(self.key.as_slice(), nonce.as_slice(), sealed.as_slice()) {
            Ok(p) => Ok(p),
            Err(_) => Err(
                DiscordError::InternalError { cause: "packet failed to authenticate".to_owned() },
            ),
        }
    }
}

} // verus!
