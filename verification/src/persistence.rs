//! The persisted form of the daemon state and its on-disk byte layout.
//!
//! ```text
//! +-------+---+--------+--------------------+--------+--------------------+
//! | "AD"  | 1 | armed  | next_fire_unix_ms  | sound? | sound bytes        |
//! | 2 B   | 1 | 1 B    | tag(1) + i64 le    | tag(1) | u16 le len + bytes |
//! +-------+---+--------+--------------------+--------+--------------------+
//! ```
//!
//! Decoding also accepts the unprefixed body (the layout written before the
//! magic/version prefix existed). A body shorter than the layout requires
//! is reported corrupted; bytes after the sound id are ignored.

use vstd::prelude::*;
use vstd::utf8::*;

use crate::text::{concat, decimal, format_decimal};

verus! {

/// First magic byte (`'A'`).
pub const SCHEMA_MAGIC_0: u8 = 0x41;

/// Second magic byte (`'D'`).
pub const SCHEMA_MAGIC_1: u8 = 0x44;

/// The body layout version written by [`encode_state`].
pub const SCHEMA_VERSION: u8 = 1;

/// Longest sound id, in UTF-8 bytes, that the layout can hold.
pub const MAX_SOUND_BYTES: usize = 65535;

/// What the daemon keeps on disk between runs.
#[derive(Debug, Clone)]
pub struct PersistedState {
    pub armed: bool,
    pub next_fire_unix_ms: Option<i64>,
    pub current_sound: Option<String>,
}

/// The mathematical content of a [`PersistedState`].
#[verifier::ext_equal]
pub struct PersistedView {
    pub armed: bool,
    pub next_fire_unix_ms: Option<i64>,
    pub current_sound: Option<Seq<char>>,
}

/// The view of an optional string.
pub open spec fn opt_str_view(s: Option<String>) -> Option<Seq<char>> {
    match s {
        Some(s) => Some(s@),
        None => None,
    }
}

impl View for PersistedState {
    type V = PersistedView;

    open spec fn view(&self) -> PersistedView {
        PersistedView {
            armed: self.armed,
            next_fire_unix_ms: self.next_fire_unix_ms,
            current_sound: opt_str_view(self.current_sound),
        }
    }
}

/// The disarmed state with nothing scheduled and no sound.
pub open spec fn default_view() -> PersistedView {
    PersistedView { armed: false, next_fire_unix_ms: None, current_sound: None }
}

impl Default for PersistedState {
    fn default() -> (s: PersistedState)
        ensures
            s@ == default_view(),
    {
        PersistedState { armed: false, next_fire_unix_ms: None, current_sound: None }
    }
}

/// Errors raised by the persistence layer.
#[derive(Debug)]
pub enum PersistenceError {
    /// I/O error around the database file.
    Io(String),
    /// Failed to open or create the database file.
    Database(String),
    /// Failed to begin a read or write transaction.
    Txn(String),
    /// Failed to open the state table inside a transaction.
    Table(String),
    /// Failed to commit a write transaction.
    Commit(String),
    /// Failed to read a value from the state table.
    Read(String),
    /// The stored payload could not be decoded.
    Corrupted(String),
}

impl PersistenceError {
    /// The human-readable message of this error.
    pub fn to_string(&self) -> (s: String)
        ensures
            s@ == self.message(),
    {
        match self {
            PersistenceError::Io(m) => concat("i/o error: ", m.as_str()),
            PersistenceError::Database(m) => concat("database open/create error: ", m.as_str()),
            PersistenceError::Txn(m) => concat("database transaction error: ", m.as_str()),
            PersistenceError::Table(m) => concat("database table error: ", m.as_str()),
            PersistenceError::Commit(m) => concat("database commit error: ", m.as_str()),
            PersistenceError::Read(m) => concat("database read error: ", m.as_str()),
            PersistenceError::Corrupted(m) => concat("persistence corrupted: ", m.as_str()),
        }
    }

    /// The message that [`PersistenceError::to_string`] returns.
    pub open spec fn message(&self) -> Seq<char> {
        match self {
            PersistenceError::Io(m) => "i/o error: "@ + m@,
            PersistenceError::Database(m) => "database open/create error: "@ + m@,
            PersistenceError::Txn(m) => "database transaction error: "@ + m@,
            PersistenceError::Table(m) => "database table error: "@ + m@,
            PersistenceError::Commit(m) => "database commit error: "@ + m@,
            PersistenceError::Read(m) => "database read error: "@ + m@,
            PersistenceError::Corrupted(m) => "persistence corrupted: "@ + m@,
        }
    }
}

/// Whether the daemon missed a fire while it was down.
#[derive(Debug, Clone, Copy, PartialEq, Eq, Structural)]
pub struct StartupRecovery {
    pub missed_while_down: bool,
}

/// Whether a record armed for its fire time should already have fired at
/// wall-clock time `now_ms`.
pub open spec fn missed_fire(p: PersistedView, now_ms: i64) -> bool {
    p.armed && match p.next_fire_unix_ms {
        Some(t) => t <= now_ms,
        None => false,
    }
}

/// Decides whether an alarm that was armed for `state.next_fire_unix_ms`
/// should already have fired at wall-clock time `now_ms`.
pub fn evaluate_recovery(state: &PersistedState, now_ms: i64) -> (r: StartupRecovery)
    ensures
        r.missed_while_down == missed_fire(state@, now_ms),
{
    let missed_while_down = state.armed && match state.next_fire_unix_ms {
        Some(t) => t <= now_ms,
        None => false,
    };
    StartupRecovery { missed_while_down }
}

// ---------------------------------------------------------------------------
// Fixed-width little-endian integers
// ---------------------------------------------------------------------------

/// The eight little-endian bytes of `x`.
pub open spec fn le_bytes_u64(x: u64) -> Seq<u8> {
    seq![
        x as u8,
        (x >> 8u64) as u8,
        (x >> 16u64) as u8,
        (x >> 24u64) as u8,
        (x >> 32u64) as u8,
        (x >> 40u64) as u8,
        (x >> 48u64) as u8,
        (x >> 56u64) as u8,
    ]
}

/// The `u64` whose little-endian bytes are `b[at..at + 8]`.
pub open spec fn le_u64_at(b: Seq<u8>, at: int) -> u64 {
    (b[at] as u64) | ((b[at + 1] as u64) << 8u64) | ((b[at + 2] as u64) << 16u64) | ((b[at
        + 3] as u64) << 24u64) | ((b[at + 4] as u64) << 32u64) | ((b[at + 5] as u64) << 40u64)
        | ((b[at + 6] as u64) << 48u64) | ((b[at + 7] as u64) << 56u64)
}

/// The two little-endian bytes of `x`.
pub open spec fn le_bytes_u16(x: u16) -> Seq<u8> {
    seq![x as u8, (x >> 8u16) as u8]
}

/// The `u16` whose little-endian bytes are `b[at..at + 2]`.
pub open spec fn le_u16_at(b: Seq<u8>, at: int) -> u16 {
    (b[at] as u16) | ((b[at + 1] as u16) << 8u16)
}

proof fn lemma_u64_le_round_trip(x: u64)
    ensures
        le_u64_at(le_bytes_u64(x), 0) == x,
{
    let b = le_bytes_u64(x);
    assert(b[0] == x as u8 && b[1] == (x >> 8u64) as u8 && b[2] == (x >> 16u64) as u8 && b[3]
        == (x >> 24u64) as u8 && b[4] == (x >> 32u64) as u8 && b[5] == (x >> 40u64) as u8 && b[6]
        == (x >> 48u64) as u8 && b[7] == (x >> 56u64) as u8);
    assert(x == ((x as u8) as u64) | ((((x >> 8u64) as u8) as u64) << 8u64) | ((((x >> 16u64)
        as u8) as u64) << 16u64) | ((((x >> 24u64) as u8) as u64) << 24u64) | ((((x >> 32u64)
        as u8) as u64) << 32u64) | ((((x >> 40u64) as u8) as u64) << 40u64) | ((((x >> 48u64)
        as u8) as u64) << 48u64) | ((((x >> 56u64) as u8) as u64) << 56u64)) by (bit_vector);
}

proof fn lemma_u16_le_round_trip(x: u16)
    ensures
        le_u16_at(le_bytes_u16(x), 0) == x,
{
    let b = le_bytes_u16(x);
    assert(b[0] == x as u8 && b[1] == (x >> 8u16) as u8);
    assert(x == ((x as u8) as u16) | ((((x >> 8u16) as u8) as u16) << 8u16)) by (bit_vector);
}

proof fn lemma_i64_u64_round_trip(v: i64)
    ensures
        ((v as u64) as i64) == v,
{
    assert(((v as u64) as i64) == v) by (bit_vector);
}

fn push_u64_le(out: &mut Vec<u8>, x: u64)
    ensures
        final(out)@ == old(out)@ + le_bytes_u64(x),
{
    out.push(x as u8);
    out.push((x >> 8) as u8);
    out.push((x >> 16) as u8);
    out.push((x >> 24) as u8);
    out.push((x >> 32) as u8);
    out.push((x >> 40) as u8);
    out.push((x >> 48) as u8);
    out.push((x >> 56) as u8);
    assert(out@ =~= old(out)@ + le_bytes_u64(x));
}

fn read_u64_le(b: &[u8], at: usize) -> (r: u64)
    requires
        at + 8 <= b@.len(),
    ensures
        r == le_u64_at(b@, at as int),
{
    (b[at] as u64) | ((b[at + 1] as u64) << 8) | ((b[at + 2] as u64) << 16) | ((b[at + 3] as u64)
        << 24) | ((b[at + 4] as u64) << 32) | ((b[at + 5] as u64) << 40) | ((b[at + 6] as u64)
        << 48) | ((b[at + 7] as u64) << 56)
}

fn read_u16_le(b: &[u8], at: usize) -> (r: u16)
    requires
        at + 2 <= b@.len(),
    ensures
        r == le_u16_at(b@, at as int),
{
    (b[at] as u16) | ((b[at + 1] as u16) << 8)
}

// ---------------------------------------------------------------------------
// Encoding
// ---------------------------------------------------------------------------

/// The bytes written for the optional fire timestamp.
pub open spec fn encode_next_fire(next: Option<i64>) -> Seq<u8> {
    match next {
        Some(t) => seq![1u8] + le_bytes_u64(t as u64),
        None => seq![0u8],
    }
}

/// How many bytes of a sound id's UTF-8 encoding are stored.
pub open spec fn stored_sound_len(chars: Seq<char>) -> nat {
    let n = encode_utf8(chars).len();
    if n > MAX_SOUND_BYTES {
        MAX_SOUND_BYTES as nat
    } else {
        n
    }
}

/// The bytes written for the optional sound id: its UTF-8 encoding, cut at
/// [`MAX_SOUND_BYTES`].
pub open spec fn encode_sound(sound: Option<Seq<char>>) -> Seq<u8> {
    match sound {
        Some(c) => seq![1u8] + le_bytes_u16(stored_sound_len(c) as u16) + encode_utf8(c).take(
            stored_sound_len(c) as int,
        ),
        None => seq![0u8],
    }
}

/// The version-1 body for `v`.
pub open spec fn encode_body(v: PersistedView) -> Seq<u8> {
    seq![if v.armed { 1u8 } else { 0u8 }] + encode_next_fire(v.next_fire_unix_ms) + encode_sound(
        v.current_sound,
    )
}

/// The full versioned payload for `v`.
pub open spec fn encoded_state(v: PersistedView) -> Seq<u8> {
    seq![SCHEMA_MAGIC_0, SCHEMA_MAGIC_1, SCHEMA_VERSION] + encode_body(v)
}

/// Serializes `state` with the magic/version prefix.
pub fn encode_state(state: &PersistedState) -> (out: Vec<u8>)
    ensures
        out@ == encoded_state(state@),
{
    let mut out: Vec<u8> = Vec::with_capacity(64);
    out.push(SCHEMA_MAGIC_0);
    out.push(SCHEMA_MAGIC_1);
    out.push(SCHEMA_VERSION);
    encode_body_v1(state, &mut out);
    assert(out@ =~= encoded_state(state@));
    out
}

/// Appends the version-1 body for `state` to `out`.
pub fn encode_body_v1(state: &PersistedState, out: &mut Vec<u8>)
    ensures
        final(out)@ == old(out)@ + encode_body(state@),
{
    out.push(if state.armed { 1u8 } else { 0u8 });
    match state.next_fire_unix_ms {
        Some(v) => {
            out.push(1);
            push_u64_le(out, v as u64);
        },
        None => out.push(0),
    }
    let ghost mid = out@;
    match &state.current_sound {
        Some(s) => {
            let bytes = s.as_str().as_bytes();
            let n: usize = if bytes.len() > MAX_SOUND_BYTES {
                MAX_SOUND_BYTES
            } else {
                bytes.len()
            };
            let len = n as u16;
            out.push(1);
            out.push(len as u8);
            out.push((len >> 8) as u8);
            let ghost head = out@;
            let mut i: usize = 0;
            while i < n
                invariant
                    n <= bytes@.len(),
                    i <= n,
                    out@ == head + bytes@.take(i as int),
                decreases n - i,
            {
                out.push(bytes[i]);
                i = i + 1;
                assert(out@ =~= head + bytes@.take(i as int));
            }
            assert(mid + encode_sound(opt_str_view(state.current_sound)) =~= out@);
        },
        None => {
            out.push(0);
        },
    }
    assert(out@ =~= old(out)@ + encode_body(state@));
}


// ---------------------------------------------------------------------------
// Decoding
// ---------------------------------------------------------------------------

/// Name for the text that the `Display` of `String::from_utf8`'s error shows
/// for the invalid UTF-8 input `bytes`.
pub uninterp spec fn utf8_error_text(bytes: Seq<u8>) -> Seq<char>;

/// Calls `String::from_utf8`. Trusted: it succeeds exactly when `bytes` is
/// valid UTF-8, and then holds the characters that `bytes` encodes; on
/// failure the error's `Display` text is returned, named `utf8_error_text`.
#[verifier::external_body]
fn string_from_utf8(bytes: Vec<u8>) -> (r: Result<String, String>)
    ensures
        match r {
            Ok(s) => valid_utf8(bytes@) && s@ == decode_utf8(bytes@),
            Err(m) => !valid_utf8(bytes@) && m@ == utf8_error_text(bytes@),
        },
{
    match String::from_utf8(bytes) {
        Ok(s) => Ok(s),
        Err(e) => Err(e.to_string()),
    }
}

/// Decodes the optional sound id whose tag byte sits at `b[at]`; a body
/// that ends before the tag is corrupted. Bytes after the sound id are
/// ignored.
pub open spec fn decode_sound_at(b: Seq<u8>, at: int) -> Result<Option<Seq<char>>, Seq<char>> {
    if at >= b.len() {
        Err("missing sound tag"@)
    } else if b[at] == 0 {
        Ok(None)
    } else if b[at] == 1 {
        if b.len() - (at + 1) < 2 {
            Err("missing sound length bytes"@)
        } else if b.len() - (at + 3) < le_u16_at(b, at + 1) {
            Err("missing sound body bytes"@)
        } else {
            let body = b.subrange(at + 3, at + 3 + le_u16_at(b, at + 1));
            if valid_utf8(body) {
                Ok(Some(decode_utf8(body)))
            } else {
                Err("sound id utf8: "@ + utf8_error_text(body))
            }
        }
    } else {
        Err("unknown sound tag: "@ + decimal(b[at] as nat))
    }
}

/// Attaches the fields decoded before the sound id to the sound result.
pub open spec fn with_sound(
    armed: bool,
    next: Option<i64>,
    sound: Result<Option<Seq<char>>, Seq<char>>,
) -> Result<PersistedView, Seq<char>> {
    match sound {
        Ok(s) => Ok(PersistedView { armed, next_fire_unix_ms: next, current_sound: s }),
        Err(m) => Err(m),
    }
}

/// Decodes a version-1 body that starts at `b[start]`. A body shorter than
/// the layout requires (one that ends before the armed byte, the next-fire
/// tag, the next-fire bytes or the sound tag) is corrupted.
pub open spec fn decode_body_at(b: Seq<u8>, start: int) -> Result<PersistedView, Seq<char>> {
    if b.len() <= start {
        Err("missing armed byte"@)
    } else if b.len() == start + 1 {
        Err("missing next_fire tag"@)
    } else if b[start + 1] == 0 {
        with_sound(b[start] != 0, None, decode_sound_at(b, start + 2))
    } else if b[start + 1] == 1 {
        if b.len() - (start + 2) < 8 {
            Err("missing next_fire bytes"@)
        } else {
            with_sound(
                b[start] != 0,
                Some(le_u64_at(b, start + 2) as i64),
                decode_sound_at(b, start + 10),
            )
        }
    } else {
        Err("unknown next_fire tag: "@ + decimal(b[start + 1] as nat))
    }
}

/// Whether `b` starts with the magic/version prefix's two magic bytes (and
/// holds a version byte).
pub open spec fn has_magic(b: Seq<u8>) -> bool {
    b.len() >= 3 && b[0] == SCHEMA_MAGIC_0 && b[1] == SCHEMA_MAGIC_1
}

/// Decodes a stored payload: versioned when it carries the magic, the bare
/// body otherwise.
pub open spec fn decode_payload(b: Seq<u8>) -> Result<PersistedView, Seq<char>> {
    if has_magic(b) {
        if b[2] == SCHEMA_VERSION {
            decode_body_at(b, 3)
        } else {
            Err("unsupported schema version "@ + decimal(b[2] as nat))
        }
    } else {
        decode_body_at(b, 0)
    }
}

/// Whether the executable decode result `r` is what `spec` describes: the
/// same state, or `Corrupted` with the same message.
pub open spec fn decoded_as(
    r: Result<PersistedState, PersistenceError>,
    spec: Result<PersistedView, Seq<char>>,
) -> bool {
    match spec {
        Ok(v) => r matches Ok(s) && s@ == v,
        Err(m) => r matches Err(PersistenceError::Corrupted(e)) && e@ == m,
    }
}

fn corrupted(msg: &str) -> (e: PersistenceError)
    ensures
        e matches PersistenceError::Corrupted(m) && m@ == msg@,
{
    PersistenceError::Corrupted(String::from_str(msg))
}

fn corrupted_with_number(msg: &str, n: u8) -> (e: PersistenceError)
    ensures
        e matches PersistenceError::Corrupted(m) && m@ == msg@ + decimal(n as nat),
{
    let num = format_decimal(n as u64);
    PersistenceError::Corrupted(concat(msg, num.as_str()))
}

fn decode_sound_from(b: &[u8], at: usize) -> (r: Result<Option<String>, PersistenceError>)
    ensures
        match decode_sound_at(b@, at as int) {
            Ok(s) => r matches Ok(x) && opt_str_view(x) == s,
            Err(m) => r matches Err(PersistenceError::Corrupted(e)) && e@ == m,
        },
{
    if at >= b.len() {
        proof {
            reveal_strlit("missing sound tag");
        }
        return Err(corrupted("missing sound tag"));
    }
    if b[at] == 0 {
        return Ok(None);
    }
    if b[at] != 1 {
        proof {
            reveal_strlit("unknown sound tag: ");
        }
        return Err(corrupted_with_number("unknown sound tag: ", b[at]));
    }
    if b.len() - (at + 1) < 2 {
        proof {
            reveal_strlit("missing sound length bytes");
        }
        return Err(corrupted("missing sound length bytes"));
    }
    let len = read_u16_le(b, at + 1) as usize;
    if b.len() - (at + 3) < len {
        proof {
            reveal_strlit("missing sound body bytes");
        }
        return Err(corrupted("missing sound body bytes"));
    }
    let start = at + 3;
    let mut body: Vec<u8> = Vec::with_capacity(len);
    let mut i: usize = 0;
    while i < len
        invariant
            start + len <= b.len(),
            i <= len,
            body@ == b@.subrange(start as int, start + i),
        decreases len - i,
    {
        body.push(b[start + i]);
        i = i + 1;
        assert(body@ =~= b@.subrange(start as int, start + i));
    }
    let ghost body_bytes = body@;
    match string_from_utf8(body) {
        Ok(s) => Ok(Some(s)),
        Err(m) => {
            proof {
                reveal_strlit("sound id utf8: ");
            }
            assert(m@ == utf8_error_text(body_bytes));
            Err(PersistenceError::Corrupted(concat("sound id utf8: ", m.as_str())))
        },
    }
}

fn decode_body_from(b: &[u8], start: usize) -> (r: Result<PersistedState, PersistenceError>)
    ensures
        decoded_as(r, decode_body_at(b@, start as int)),
{
    if b.len() <= start {
        proof {
            reveal_strlit("missing armed byte");
        }
        return Err(corrupted("missing armed byte"));
    }
    let armed = b[start] != 0;
    if b.len() == start + 1 {
        proof {
            reveal_strlit("missing next_fire tag");
        }
        return Err(corrupted("missing next_fire tag"));
    }
    let tag = b[start + 1];
    let (next_fire_unix_ms, sound_at) = if tag == 0 {
        (None, start + 2)
    } else if tag == 1 {
        if b.len() - (start + 2) < 8 {
            proof {
                reveal_strlit("missing next_fire bytes");
            }
            return Err(corrupted("missing next_fire bytes"));
        }
        (Some(read_u64_le(b, start + 2) as i64), start + 10)
    } else {
        proof {
            reveal_strlit("unknown next_fire tag: ");
        }
        return Err(corrupted_with_number("unknown next_fire tag: ", tag));
    };
    match decode_sound_from(b, sound_at) {
        Ok(current_sound) => Ok(PersistedState { armed, next_fire_unix_ms, current_sound }),
        Err(e) => Err(e),
    }
}

/// Decodes a version-1 body with no magic/version prefix.
pub fn decode_body_v1(bytes: &[u8]) -> (r: Result<PersistedState, PersistenceError>)
    ensures
        decoded_as(r, decode_body_at(bytes@, 0)),
{
    decode_body_from(bytes, 0)
}

/// Decodes a stored payload. A payload that starts with the magic must carry
/// version 1; one without it is read as a bare body.
pub fn decode_state(bytes: &[u8]) -> (r: Result<PersistedState, PersistenceError>)
    ensures
        decoded_as(r, decode_payload(bytes@)),
{
    if bytes.len() >= 3 && bytes[0] == SCHEMA_MAGIC_0 && bytes[1] == SCHEMA_MAGIC_1 {
        let version = bytes[2];
        if version == SCHEMA_VERSION {
            decode_body_from(bytes, 3)
        } else {
            proof {
                reveal_strlit("unsupported schema version ");
            }
            Err(corrupted_with_number("unsupported schema version ", version))
        }
    } else {
        decode_body_from(bytes, 0)
    }
}


// ---------------------------------------------------------------------------
// Laws
// ---------------------------------------------------------------------------

/// Whether every sound id byte fits the layout's 16-bit length field.
pub open spec fn sound_fits(v: PersistedView) -> bool {
    match v.current_sound {
        Some(c) => encode_utf8(c).len() <= MAX_SOUND_BYTES,
        None => true,
    }
}

proof fn lemma_le_u64_in_payload(b: Seq<u8>, at: int, x: u64)
    requires
        0 <= at,
        at + 8 <= b.len(),
        b.subrange(at, at + 8) == le_bytes_u64(x),
    ensures
        le_u64_at(b, at) == x,
{
    let e = le_bytes_u64(x);
    assert(b[at] == e[0] && b[at + 1] == e[1] && b[at + 2] == e[2] && b[at + 3] == e[3] && b[at
        + 4] == e[4] && b[at + 5] == e[5] && b[at + 6] == e[6] && b[at + 7] == e[7]) by {
        assert(b.subrange(at, at + 8)[0] == b[at]);
        assert(b.subrange(at, at + 8)[1] == b[at + 1]);
        assert(b.subrange(at, at + 8)[2] == b[at + 2]);
        assert(b.subrange(at, at + 8)[3] == b[at + 3]);
        assert(b.subrange(at, at + 8)[4] == b[at + 4]);
        assert(b.subrange(at, at + 8)[5] == b[at + 5]);
        assert(b.subrange(at, at + 8)[6] == b[at + 6]);
        assert(b.subrange(at, at + 8)[7] == b[at + 7]);
    }
    lemma_u64_le_round_trip(x);
}

proof fn lemma_sound_round_trip(b: Seq<u8>, at: int, sound: Option<Seq<char>>)
    requires
        0 <= at <= b.len(),
        b.subrange(at, b.len() as int) == encode_sound(sound),
        match sound {
            Some(c) => encode_utf8(c).len() <= MAX_SOUND_BYTES,
            None => true,
        },
    ensures
        decode_sound_at(b, at) == Ok::<Option<Seq<char>>, Seq<char>>(sound),
{
    let tail = b.subrange(at, b.len() as int);
    assert(encode_sound(sound).len() >= 3 || encode_sound(sound) =~= seq![0u8]);
    assert(tail.len() == b.len() - at);
    assert(at < b.len());
    assert(tail[0] == b[at]);
    match sound {
        None => {},
        Some(c) => {
            let e = encode_utf8(c);
            let n = e.len();
            assert(stored_sound_len(c) == n);
            let lb = le_bytes_u16(n as u16);
            assert(tail[1] == b[at + 1] && tail[2] == b[at + 2]);
            assert(tail[1] == lb[0] && tail[2] == lb[1]);
            lemma_u16_le_round_trip(n as u16);
            assert(le_u16_at(b, at + 1) == n as u16);
            assert(e.take(n as int) =~= e);
            assert(b.subrange(at + 3, at + 3 + n) =~= e) by {
                assert forall|k: int| 0 <= k < n implies b.subrange(at + 3, at + 3 + n)[k]
                    == e[k] by {
                    assert(tail[3 + k] == b[at + 3 + k]);
                }
            }
            vstd::utf8::encode_utf8_valid_utf8(c);
            vstd::utf8::encode_utf8_decode_utf8(c);
        },
    }
}

proof fn lemma_body_round_trip_at(b: Seq<u8>, start: int, v: PersistedView)
    requires
        sound_fits(v),
        0 <= start <= b.len(),
        b.subrange(start, b.len() as int) == encode_body(v),
    ensures
        decode_body_at(b, start) == Ok::<PersistedView, Seq<char>>(v),
{
    let body = encode_body(v);
    assert(encode_next_fire(v.next_fire_unix_ms).len() >= 1);
    assert(encode_sound(v.current_sound).len() >= 1);
    assert(body.len() >= 3);
    assert(b.len() - start == body.len());
    assert(b.subrange(start, b.len() as int)[0] == b[start]);
    assert(b.subrange(start, b.len() as int)[1] == b[start + 1]);
    assert(b[start] == body[0]);
    assert(b[start] == if v.armed { 1u8 } else { 0u8 });
    assert(b[start + 1] == body[1]);
    match v.next_fire_unix_ms {
        None => {
            assert(b[start + 1] == 0u8);
            assert(b.subrange(start + 2, b.len() as int) =~= body.subrange(2, body.len() as int));
            assert(body.subrange(2, body.len() as int) =~= encode_sound(v.current_sound));
            lemma_sound_round_trip(b, start + 2, v.current_sound);
        },
        Some(t) => {
            assert(b[start + 1] == 1u8);
            assert(b.subrange(start + 2, start + 10) =~= body.subrange(2, 10));
            assert(body.subrange(2, 10) =~= le_bytes_u64(t as u64));
            lemma_le_u64_in_payload(b, start + 2, t as u64);
            lemma_i64_u64_round_trip(t);
            assert(b.subrange(start + 10, b.len() as int) =~= body.subrange(10, body.len() as int));
            assert(body.subrange(10, body.len() as int) =~= encode_sound(v.current_sound));
            lemma_sound_round_trip(b, start + 10, v.current_sound);
        },
    }
    assert(decode_body_at(b, start) =~= Ok::<PersistedView, Seq<char>>(v));
}

/// Law: a bare body written by [`encode_body_v1`] is read back unchanged by
/// [`decode_body_v1`], and [`decode_state`] accepts it too as a payload
/// without the magic prefix, for every state whose sound id fits the 16-bit
/// length field.
pub proof fn lemma_body_round_trip(v: PersistedView)
    requires
        sound_fits(v),
    ensures
        decode_body_at(encode_body(v), 0) == Ok::<PersistedView, Seq<char>>(v),
        decode_payload(encode_body(v)) == Ok::<PersistedView, Seq<char>>(v),
{
    let b = encode_body(v);
    assert(b.subrange(0, b.len() as int) =~= b);
    lemma_body_round_trip_at(b, 0, v);
    assert(!has_magic(b));
}

/// Law: what [`encode_state`] writes, [`decode_state`] reads back unchanged,
/// for every state whose sound id fits the 16-bit length field.
pub proof fn lemma_payload_round_trip(v: PersistedView)
    requires
        sound_fits(v),
    ensures
        decode_payload(encoded_state(v)) == Ok::<PersistedView, Seq<char>>(v),
{
    let b = encoded_state(v);
    assert(has_magic(b));
    assert(b[2] == SCHEMA_VERSION);
    assert(b.subrange(3, b.len() as int) =~= encode_body(v));
    lemma_body_round_trip_at(b, 3, v);
}

} // verus!
