use crate::message::{
    put, FieldMap, Message, MessageError, MotionDataContainer, ObjectType, RpcCallContainer, Value,
};
use crate::player::{CharacterType, DataWrapper, PlayerState};
use std::collections::HashMap;
use vstd::prelude::*;
use vstd::slice::slice_subrange;
use vstd::std_specs::iter::IteratorSpec;
use vstd::string::StringSliceAdditionalSpecFns;
use vstd::utf8::{decode_utf8, encode_utf8, valid_utf8};

verus! {

broadcast use vstd::std_specs::hash::group_hash_axioms;

/// The largest datagram either side reads.
pub const MAX_DATAGRAM: usize = 1024;

/// A parser's verdict on a byte string: the value read and the bytes that
/// follow it, or nothing.
pub type Parsed<T> = Option<(T, Seq<u8>)>;

// ---------------------------------------------------------------------
// Fixed-width integers, little-endian
// ---------------------------------------------------------------------
/// The number whose base-256 digits, least significant first, are the first
/// four of `b`.
#[verifier::opaque]
pub open spec fn le_value_4(b: Seq<u8>) -> int {
    b[0] + 0x100 * b[1] + 0x1_0000 * b[2] + 0x100_0000 * b[3]
}

/// The number whose base-256 digits, least significant first, are the first
/// eight of `b`.
#[verifier::opaque]
pub open spec fn le_value_8(b: Seq<u8>) -> int {
    le_value_4(b) + 0x1_0000_0000 * le_value_4(b.skip(4))
}

/// A `u32` is its four base-256 digits, least significant first.
pub open spec fn parse_u32(b: Seq<u8>) -> Parsed<u32> {
    if b.len() >= 4 {
        Some((le_value_4(b) as u32, b.skip(4)))
    } else {
        None
    }
}

/// A `u64` is its eight base-256 digits, least significant first.
pub open spec fn parse_u64(b: Seq<u8>) -> Parsed<u64> {
    if b.len() >= 8 {
        Some((le_value_8(b) as u64, b.skip(8)))
    } else {
        None
    }
}

/// The unsigned integer with the same 32 bits as `v`, in two's complement.
pub open spec fn unsigned_of(v: i32) -> u32 {
    if v >= 0 {
        v as u32
    } else {
        (v + 0x1_0000_0000) as u32
    }
}

/// The signed integer with the same 32 bits as `u`, in two's complement.
pub open spec fn signed_of(u: u32) -> i32 {
    if u < 0x8000_0000 {
        u as i32
    } else {
        (u - 0x1_0000_0000) as i32
    }
}

/// A signed integer travels as the unsigned integer with the same 32 bits.
pub open spec fn parse_i32(b: Seq<u8>) -> Parsed<i32> {
    match parse_u32(b) {
        Some((u, rest)) => Some((signed_of(u), rest)),
        None => None,
    }
}

/// A boolean is one byte, 0 or 1.
pub open spec fn parse_bool(b: Seq<u8>) -> Parsed<bool> {
    if b.len() >= 1 && b[0] == 0 {
        Some((false, b.skip(1)))
    } else if b.len() >= 1 && b[0] == 1 {
        Some((true, b.skip(1)))
    } else {
        None
    }
}

/// Text is its length in bytes, as a `u64`, and then its UTF-8 bytes.
pub open spec fn parse_text(b: Seq<u8>) -> Parsed<Seq<char>> {
    match parse_u64(b) {
        Some((n, rest)) => if n <= rest.len() && valid_utf8(rest.take(n as int)) {
            Some((decode_utf8(rest.take(n as int)), rest.skip(n as int)))
        } else {
            None
        },
        None => None,
    }
}

#[verifier::opaque]
pub open spec fn u32_bytes(v: u32) -> Seq<u8> {
    seq![
        (v % 0x100) as u8,
        (v / 0x100 % 0x100) as u8,
        (v / 0x1_0000 % 0x100) as u8,
        (v / 0x100_0000 % 0x100) as u8,
    ]
}

#[verifier::opaque]
pub open spec fn u64_bytes(v: u64) -> Seq<u8> {
    u32_bytes((v % 0x1_0000_0000) as u32) + u32_bytes((v / 0x1_0000_0000) as u32)
}

pub open spec fn i32_bytes(v: i32) -> Seq<u8> {
    u32_bytes(unsigned_of(v))
}

pub open spec fn bool_bytes(v: bool) -> Seq<u8> {
    seq![if v { 1u8 } else { 0u8 }]
}

pub open spec fn text_bytes(s: Seq<char>) -> Seq<u8> {
    u64_bytes(encode_utf8(s).len() as u64) + encode_utf8(s)
}

/// Four base-256 digits make a number that fits a `u32`.
pub proof fn lemma_le_value_4_fits(b: Seq<u8>)
    requires
        b.len() >= 4,
    ensures
        0 <= le_value_4(b) <= u32::MAX,
{
    reveal(le_value_4);
}

pub proof fn lemma_u32_frames(v: u32, rest: Seq<u8>)
    ensures
        u32_bytes(v).len() == 4,
        le_value_4(u32_bytes(v) + rest) == v,
        parse_u32(u32_bytes(v) + rest) == Some((v, rest)),
{
    reveal(u32_bytes);
    reveal(le_value_4);
    let b = u32_bytes(v) + rest;
    assert(b[0] == u32_bytes(v)[0] && b[1] == u32_bytes(v)[1] && b[2] == u32_bytes(v)[2] && b[3]
        == u32_bytes(v)[3]);
    assert(le_value_4(b) == v);
    assert(b.skip(4) =~= rest);
}

pub proof fn lemma_u64_frames(v: u64, rest: Seq<u8>)
    ensures
        u64_bytes(v).len() == 8,
        parse_u64(u64_bytes(v) + rest) == Some((v, rest)),
{
    reveal(u64_bytes);
    reveal(le_value_8);
    let low = (v % 0x1_0000_0000) as u32;
    let high = (v / 0x1_0000_0000) as u32;
    let b = u64_bytes(v) + rest;
    assert(b =~= u32_bytes(low) + (u32_bytes(high) + rest));
    lemma_u32_frames(low, u32_bytes(high) + rest);
    lemma_u32_frames(high, rest);
    assert(b.skip(4) =~= u32_bytes(high) + rest);
    assert(le_value_8(b) == low + 0x1_0000_0000 * high);
    assert(low + 0x1_0000_0000 * high == v);
    assert(b.skip(8) =~= rest);
}

pub proof fn lemma_i32_frames(v: i32, rest: Seq<u8>)
    ensures
        i32_bytes(v).len() == 4,
        parse_i32(i32_bytes(v) + rest) == Some((v, rest)),
{
    lemma_u32_frames(unsigned_of(v), rest);
}

pub proof fn lemma_bool_frames(v: bool, rest: Seq<u8>)
    ensures
        bool_bytes(v).len() == 1,
        parse_bool(bool_bytes(v) + rest) == Some((v, rest)),
{
    let b = bool_bytes(v) + rest;
    assert(b.skip(1) =~= rest);
}

pub proof fn lemma_text_frames(s: Seq<char>, rest: Seq<u8>)
    requires
        encode_utf8(s).len() <= u64::MAX,
    ensures
        text_bytes(s).len() == 8 + encode_utf8(s).len(),
        parse_text(text_bytes(s) + rest) == Some((s, rest)),
{
    let body = encode_utf8(s);
    let n = body.len() as u64;
    lemma_u64_frames(n, body + rest);
    vstd::utf8::encode_utf8_valid_utf8(s);
    vstd::utf8::encode_utf8_decode_utf8(s);
    let b = text_bytes(s) + rest;
    assert(b =~= u64_bytes(n) + (body + rest));
    assert((body + rest).take(n as int) =~= body);
    assert((body + rest).skip(n as int) =~= rest);
}

// ---------------------------------------------------------------------
// Enumerations: the variant's index as a `u32`
// ---------------------------------------------------------------------
pub open spec fn state_tag(s: PlayerState) -> u32 {
    match s {
        PlayerState::Idle => 0,
        PlayerState::Running => 1,
        PlayerState::Jumping => 2,
        PlayerState::Attack1 => 3,
        PlayerState::Attack2 => 4,
        PlayerState::Death => 5,
    }
}

pub open spec fn state_of_tag(t: u32) -> Option<PlayerState> {
    if t == 0 {
        Some(PlayerState::Idle)
    } else if t == 1 {
        Some(PlayerState::Running)
    } else if t == 2 {
        Some(PlayerState::Jumping)
    } else if t == 3 {
        Some(PlayerState::Attack1)
    } else if t == 4 {
        Some(PlayerState::Attack2)
    } else if t == 5 {
        Some(PlayerState::Death)
    } else {
        None
    }
}

pub open spec fn character_tag(c: CharacterType) -> u32 {
    match c {
        CharacterType::Witcher => 0,
        CharacterType::Witch => 1,
    }
}

pub open spec fn character_of_tag(t: u32) -> Option<CharacterType> {
    if t == 0 {
        Some(CharacterType::Witcher)
    } else if t == 1 {
        Some(CharacterType::Witch)
    } else {
        None
    }
}

pub open spec fn parse_state(b: Seq<u8>) -> Parsed<PlayerState> {
    match parse_u32(b) {
        Some((t, rest)) => match state_of_tag(t) {
            Some(s) => Some((s, rest)),
            None => None,
        },
        None => None,
    }
}

pub open spec fn parse_character(b: Seq<u8>) -> Parsed<CharacterType> {
    match parse_u32(b) {
        Some((t, rest)) => match character_of_tag(t) {
            Some(c) => Some((c, rest)),
            None => None,
        },
        None => None,
    }
}

// ---------------------------------------------------------------------
// Records: the fields in order
// ---------------------------------------------------------------------
/// Two `u32`s, one after the other.
pub open spec fn parse_pair(b: Seq<u8>) -> Parsed<(u32, u32)> {
    match parse_u32(b) {
        Some((x, r1)) => match parse_u32(r1) {
            Some((y, r2)) => Some(((x, y), r2)),
            None => None,
        },
        None => None,
    }
}

pub open spec fn pair_bytes(p: (u32, u32)) -> Seq<u8> {
    u32_bytes(p.0) + u32_bytes(p.1)
}

/// The state, the owner and the object id of an entity snapshot.
pub open spec fn parse_entity_head(b: Seq<u8>) -> Parsed<(PlayerState, i32, i32, CharacterType)> {
    match parse_state(b) {
        Some((state, r1)) => match parse_i32(r1) {
            Some((owner, r2)) => match parse_i32(r2) {
                Some((object, r3)) => match parse_character(r3) {
                    Some((character, r4)) => Some(((state, owner, object, character), r4)),
                    None => None,
                },
                None => None,
            },
            None => None,
        },
        None => None,
    }
}

pub open spec fn parse_entity(b: Seq<u8>) -> Parsed<DataWrapper> {
    match parse_entity_head(b) {
        Some((head, r1)) => match parse_pair(r1) {
            Some((position, r2)) => match parse_pair(r2) {
                Some((speed, r3)) => match parse_bool(r3) {
                    Some((facing, r4)) => Some(
                        (
                            DataWrapper {
                                state: head.0,
                                owner_id: head.1,
                                object_id: head.2,
                                character_type: head.3,
                                position_data: position,
                                speed_data: speed,
                                facing_right: facing,
                            },
                            r4,
                        ),
                    ),
                    None => None,
                },
                None => None,
            },
            None => None,
        },
        None => None,
    }
}

pub open spec fn entity_bytes(w: DataWrapper) -> Seq<u8> {
    u32_bytes(state_tag(w.state)) + i32_bytes(w.owner_id) + i32_bytes(w.object_id) + u32_bytes(
        character_tag(w.character_type),
    ) + pair_bytes(w.position_data) + pair_bytes(w.speed_data) + bool_bytes(w.facing_right)
}

pub open spec fn parse_motion(b: Seq<u8>) -> Parsed<MotionDataContainer> {
    match parse_pair(b) {
        Some((position, r1)) => match parse_pair(r1) {
            Some((speed, r2)) => match parse_state(r2) {
                Some((state, r3)) => match parse_bool(r3) {
                    Some((facing, r4)) => Some(
                        (
                            MotionDataContainer {
                                x: position.0,
                                y: position.1,
                                x_speed: speed.0,
                                y_speed: speed.1,
                                animation_state: state,
                                facing_right: facing,
                            },
                            r4,
                        ),
                    ),
                    None => None,
                },
                None => None,
            },
            None => None,
        },
        None => None,
    }
}

pub open spec fn motion_bytes(m: MotionDataContainer) -> Seq<u8> {
    pair_bytes((m.x, m.y)) + pair_bytes((m.x_speed, m.y_speed)) + u32_bytes(
        state_tag(m.animation_state),
    ) + bool_bytes(m.facing_right)
}

pub proof fn lemma_state_frames(s: PlayerState, rest: Seq<u8>)
    ensures
        parse_state(u32_bytes(state_tag(s)) + rest) == Some((s, rest)),
        u32_bytes(state_tag(s)).len() == 4,
{
    lemma_u32_frames(state_tag(s), rest);
}

pub proof fn lemma_character_frames(c: CharacterType, rest: Seq<u8>)
    ensures
        parse_character(u32_bytes(character_tag(c)) + rest) == Some((c, rest)),
        u32_bytes(character_tag(c)).len() == 4,
{
    lemma_u32_frames(character_tag(c), rest);
}

pub proof fn lemma_pair_frames(p: (u32, u32), rest: Seq<u8>)
    ensures
        parse_pair(pair_bytes(p) + rest) == Some((p, rest)),
        pair_bytes(p).len() == 8,
{
    lemma_u32_frames(p.0, u32_bytes(p.1) + rest);
    lemma_u32_frames(p.1, rest);
    assert(pair_bytes(p) + rest =~= u32_bytes(p.0) + (u32_bytes(p.1) + rest));
}

pub proof fn lemma_entity_frames(w: DataWrapper, rest: Seq<u8>)
    ensures
        parse_entity(entity_bytes(w) + rest) == Some((w, rest)),
        entity_bytes(w).len() == 33,
{
    let t7 = bool_bytes(w.facing_right) + rest;
    let t6 = pair_bytes(w.speed_data) + t7;
    let t5 = pair_bytes(w.position_data) + t6;
    let t4 = u32_bytes(character_tag(w.character_type)) + t5;
    let t3 = i32_bytes(w.object_id) + t4;
    let t2 = i32_bytes(w.owner_id) + t3;
    let t1 = u32_bytes(state_tag(w.state)) + t2;
    lemma_state_frames(w.state, t2);
    lemma_i32_frames(w.owner_id, t3);
    lemma_i32_frames(w.object_id, t4);
    lemma_character_frames(w.character_type, t5);
    lemma_pair_frames(w.position_data, t6);
    lemma_pair_frames(w.speed_data, t7);
    lemma_bool_frames(w.facing_right, rest);
    assert(entity_bytes(w) + rest =~= t1);
}

pub proof fn lemma_motion_frames(m: MotionDataContainer, rest: Seq<u8>)
    ensures
        parse_motion(motion_bytes(m) + rest) == Some((m, rest)),
        motion_bytes(m).len() == 21,
{
    let t4 = bool_bytes(m.facing_right) + rest;
    let t3 = u32_bytes(state_tag(m.animation_state)) + t4;
    let t2 = pair_bytes((m.x_speed, m.y_speed)) + t3;
    let t1 = pair_bytes((m.x, m.y)) + t2;
    lemma_pair_frames((m.x, m.y), t2);
    lemma_pair_frames((m.x_speed, m.y_speed), t3);
    lemma_state_frames(m.animation_state, t4);
    lemma_bool_frames(m.facing_right, rest);
    assert(motion_bytes(m) + rest =~= t1);
}

// ---------------------------------------------------------------------
// Collections: a `u64` count, then the items
// ---------------------------------------------------------------------
/// Reads `n` entities with their ids and adds them to `acc`; a later entry
/// for an id replaces an earlier one.
pub open spec fn parse_entries(b: Seq<u8>, n: nat, acc: Map<i32, DataWrapper>) -> Parsed<
    Map<i32, DataWrapper>,
>
    decreases n,
{
    if n == 0 {
        Some((acc, b))
    } else {
        match parse_i32(b) {
            Some((id, r1)) => match parse_entity(r1) {
                Some((w, r2)) => parse_entries(r2, (n - 1) as nat, acc.insert(id, w)),
                None => None,
            },
            None => None,
        }
    }
}

pub open spec fn parse_entity_map(b: Seq<u8>) -> Parsed<Map<i32, DataWrapper>> {
    match parse_u64(b) {
        Some((n, rest)) => parse_entries(rest, n as nat, Map::empty()),
        None => None,
    }
}

/// A typed value is the index of its variant, as a `u32`, and then what the
/// variant holds.
pub open spec fn parse_value(b: Seq<u8>) -> Parsed<Value>
    decreases b.len(), 0nat,
{
    match parse_u32(b) {
        None => None,
        Some((tag, r)) => if tag == 0 {
            match parse_text(r) {
                Some((s, rest)) => Some((Value::Text(s), rest)),
                None => None,
            }
        } else if tag == 1 {
            match parse_i32(r) {
                Some((i, rest)) => Some((Value::Int(i), rest)),
                None => None,
            }
        } else if tag == 2 {
            match parse_entity_map(r) {
                Some((m, rest)) => Some((Value::EntityMap(m), rest)),
                None => None,
            }
        } else if tag == 3 {
            match parse_entity(r) {
                Some((w, rest)) => Some((Value::Entity(w), rest)),
                None => None,
            }
        } else if tag == 4 {
            match parse_motion(r) {
                Some((m, rest)) => Some((Value::Motion(m), rest)),
                None => None,
            }
        } else if tag == 5 {
            match parse_text(r) {
                Some((name, r2)) => match parse_u64(r2) {
                    Some((n, r3)) => if r3.len() < b.len() {
                        match parse_values(r3, n as nat, Seq::empty()) {
                            Some((params, rest)) => Some((Value::Rpc(name, params), rest)),
                            None => None,
                        }
                    } else {
                        None
                    },
                    None => None,
                },
                None => None,
            }
        } else if tag == 6 {
            match parse_state(r) {
                Some((s, rest)) => Some((Value::Animation(s), rest)),
                None => None,
            }
        } else {
            None
        },
    }
}

/// Reads `n` typed values and appends them to `acc`.
pub open spec fn parse_values(b: Seq<u8>, n: nat, acc: Seq<Value>) -> Parsed<Seq<Value>>
    decreases b.len(), n + 1,
{
    if n == 0 {
        Some((acc, b))
    } else {
        match parse_value(b) {
            Some((v, rest)) => if rest.len() <= b.len() {
                parse_values(rest, (n - 1) as nat, acc.push(v))
            } else {
                None
            },
            None => None,
        }
    }
}

/// Reads `n` named fields and stores them in `acc`, one after the other.
pub open spec fn parse_fields(b: Seq<u8>, n: nat, acc: Seq<(Seq<char>, Value)>) -> Parsed<
    Seq<(Seq<char>, Value)>,
>
    decreases n,
{
    if n == 0 {
        Some((acc, b))
    } else {
        match parse_text(b) {
            Some((key, r1)) => match parse_value(r1) {
                Some((v, r2)) => parse_fields(r2, (n - 1) as nat, put(acc, key, v)),
                None => None,
            },
            None => None,
        }
    }
}

/// A message is its target, the number of its fields, and the fields, each
/// as its name and its value. Bytes after the last field are ignored.
pub open spec fn parse_message(b: Seq<u8>) -> Option<(i32, Seq<(Seq<char>, Value)>)> {
    match parse_i32(b) {
        Some((target, r1)) => match parse_u64(r1) {
            Some((n, r2)) => match parse_fields(r2, n as nat, Seq::empty()) {
                Some((items, rest)) => Some((target, items)),
                None => None,
            },
            None => None,
        },
        None => None,
    }
}

// ---------------------------------------------------------------------
// Reading
// ---------------------------------------------------------------------
/// Why a datagram is not a message.
#[derive(Clone, Copy, Debug, PartialEq, Eq, Structural)]
pub enum DecodeError {
    /// The bytes end too early, or hold a variant index, a boolean or text
    /// that the format does not have.
    Malformed,
}

/// Whether a reader that was at `pos` in `bytes` and answered `got` said
/// what `parsed`, the parser's verdict on the bytes from `pos` on, says:
/// the same value and the place where the rest begins, or nothing.
pub open spec fn agrees<T>(bytes: Seq<u8>, pos: usize, got: Option<(T, usize)>, parsed: Parsed<T>)
    -> bool {
    match parsed {
        Some((v, rest)) => got matches Some((x, next)) && x == v && pos <= next <= bytes.len()
            && rest == bytes.skip(next as int),
        None => got is None,
    }
}

/// `String::from_utf8` of std: the text that the bytes are the UTF-8 encoding
/// of, and nothing where they are not valid UTF-8.
#[verifier::external_body]
fn text_from_utf8(bytes: Vec<u8>) -> (text: Option<String>)
    ensures
        match text {
            Some(t) => valid_utf8(bytes@) && t@ == decode_utf8(bytes@),
            None => !valid_utf8(bytes@),
        },
{
    String::from_utf8(bytes).ok()
}

fn take_u32(bytes: &[u8], pos: usize) -> (got: Option<(u32, usize)>)
    requires
        pos <= bytes@.len(),
    ensures
        agrees(bytes@, pos, got, parse_u32(bytes@.skip(pos as int))),
{
    if bytes.len() - pos < 4 {
        return None;
    }
    let b0 = bytes[pos] as u32;
    let b1 = bytes[pos + 1] as u32;
    let b2 = bytes[pos + 2] as u32;
    let b3 = bytes[pos + 3] as u32;
    let v = b0 + 0x100 * b1 + 0x1_0000 * b2 + 0x100_0000 * b3;
    proof {
        reveal(le_value_4);
        let b = bytes@.skip(pos as int);
        assert(b[0] == bytes@[pos as int] && b[1] == bytes@[pos + 1] && b[2] == bytes@[pos + 2]
            && b[3] == bytes@[pos + 3]);
        assert(b.skip(4) =~= bytes@.skip(pos + 4));
    }
    Some((v, pos + 4))
}

fn take_u64(bytes: &[u8], pos: usize) -> (got: Option<(u64, usize)>)
    requires
        pos <= bytes@.len(),
    ensures
        agrees(bytes@, pos, got, parse_u64(bytes@.skip(pos as int))),
{
    if bytes.len() - pos < 8 {
        return None;
    }
    let (low, middle) = match take_u32(bytes, pos) {
        Some(r) => r,
        None => { return None; },
    };
    let (high, next) = match take_u32(bytes, middle) {
        Some(r) => r,
        None => { return None; },
    };
    proof {
        reveal(le_value_8);
        let b = bytes@.skip(pos as int);
        assert(b.skip(4) =~= bytes@.skip(pos + 4));
        assert(b.skip(8) =~= bytes@.skip(pos + 8));
        assert(b.skip(4).skip(4) =~= b.skip(8));
        lemma_le_value_4_fits(b);
        lemma_le_value_4_fits(b.skip(4));
    }
    Some(((low as u64) + 0x1_0000_0000 * (high as u64), next))
}

fn take_i32(bytes: &[u8], pos: usize) -> (got: Option<(i32, usize)>)
    requires
        pos <= bytes@.len(),
    ensures
        agrees(bytes@, pos, got, parse_i32(bytes@.skip(pos as int))),
{
    match take_u32(bytes, pos) {
        Some((u, next)) => {
            let v = if u < 0x8000_0000 {
                u as i32
            } else {
                ((u as i64) - 0x1_0000_0000) as i32
            };
            Some((v, next))
        },
        None => None,
    }
}

fn take_bool(bytes: &[u8], pos: usize) -> (got: Option<(bool, usize)>)
    requires
        pos <= bytes@.len(),
    ensures
        agrees(bytes@, pos, got, parse_bool(bytes@.skip(pos as int))),
{
    if bytes.len() - pos < 1 {
        return None;
    }
    let byte = bytes[pos];
    proof {
        reveal(le_value_4);
        let b = bytes@.skip(pos as int);
        assert(b[0] == bytes@[pos as int]);
        assert(b.skip(1) =~= bytes@.skip(pos + 1));
    }
    if byte == 0 {
        Some((false, pos + 1))
    } else if byte == 1 {
        Some((true, pos + 1))
    } else {
        None
    }
}

fn take_text(bytes: &[u8], pos: usize) -> (got: Option<(String, usize)>)
    requires
        pos <= bytes@.len(),
    ensures
        match parse_text(bytes@.skip(pos as int)) {
            Some((v, rest)) => got matches Some((x, next)) && x@ == v && pos <= next <= bytes@.len()
                && rest == bytes@.skip(next as int),
            None => got is None,
        },
{
    let (n, start) = match take_u64(bytes, pos) {
        Some(r) => r,
        None => { return None; },
    };
    if n > (bytes.len() - start) as u64 {
        return None;
    }
    let len = n as usize;
    let body = vstd::slice::slice_to_vec(slice_subrange(bytes, start, start + len));
    proof {
        let rest = bytes@.skip(start as int);
        assert(rest.take(n as int) =~= bytes@.subrange(start as int, start + len));
        assert(rest.skip(n as int) =~= bytes@.skip(start + len));
    }
    match text_from_utf8(body) {
        Some(text) => Some((text, start + len)),
        None => None,
    }
}

fn take_state(bytes: &[u8], pos: usize) -> (got: Option<(PlayerState, usize)>)
    requires
        pos <= bytes@.len(),
    ensures
        agrees(bytes@, pos, got, parse_state(bytes@.skip(pos as int))),
{
    let (tag, next) = match take_u32(bytes, pos) {
        Some(r) => r,
        None => { return None; },
    };
    let state = if tag == 0 {
        PlayerState::Idle
    } else if tag == 1 {
        PlayerState::Running
    } else if tag == 2 {
        PlayerState::Jumping
    } else if tag == 3 {
        PlayerState::Attack1
    } else if tag == 4 {
        PlayerState::Attack2
    } else if tag == 5 {
        PlayerState::Death
    } else {
        return None;
    };
    Some((state, next))
}

fn take_character(bytes: &[u8], pos: usize) -> (got: Option<(CharacterType, usize)>)
    requires
        pos <= bytes@.len(),
    ensures
        agrees(bytes@, pos, got, parse_character(bytes@.skip(pos as int))),
{
    let (tag, next) = match take_u32(bytes, pos) {
        Some(r) => r,
        None => { return None; },
    };
    let character = if tag == 0 {
        CharacterType::Witcher
    } else if tag == 1 {
        CharacterType::Witch
    } else {
        return None;
    };
    Some((character, next))
}

fn take_pair(bytes: &[u8], pos: usize) -> (got: Option<((u32, u32), usize)>)
    requires
        pos <= bytes@.len(),
    ensures
        agrees(bytes@, pos, got, parse_pair(bytes@.skip(pos as int))),
{
    let (x, c1) = match take_u32(bytes, pos) {
        Some(r) => r,
        None => { return None; },
    };
    let (y, c2) = match take_u32(bytes, c1) {
        Some(r) => r,
        None => { return None; },
    };
    Some(((x, y), c2))
}

fn take_entity(bytes: &[u8], pos: usize) -> (got: Option<(DataWrapper, usize)>)
    requires
        pos <= bytes@.len(),
    ensures
        agrees(bytes@, pos, got, parse_entity(bytes@.skip(pos as int))),
{
    let (state, c1) = match take_state(bytes, pos) {
        Some(r) => r,
        None => { return None; },
    };
    let (owner_id, c2) = match take_i32(bytes, c1) {
        Some(r) => r,
        None => { return None; },
    };
    let (object_id, c3) = match take_i32(bytes, c2) {
        Some(r) => r,
        None => { return None; },
    };
    let (character_type, c4) = match take_character(bytes, c3) {
        Some(r) => r,
        None => { return None; },
    };
    let (position_data, c5) = match take_pair(bytes, c4) {
        Some(r) => r,
        None => { return None; },
    };
    let (speed_data, c6) = match take_pair(bytes, c5) {
        Some(r) => r,
        None => { return None; },
    };
    let (facing_right, c7) = match take_bool(bytes, c6) {
        Some(r) => r,
        None => { return None; },
    };
    Some(
        (
            DataWrapper {
                state,
                owner_id,
                object_id,
                character_type,
                position_data,
                speed_data,
                facing_right,
            },
            c7,
        ),
    )
}

fn take_motion(bytes: &[u8], pos: usize) -> (got: Option<(MotionDataContainer, usize)>)
    requires
        pos <= bytes@.len(),
    ensures
        agrees(bytes@, pos, got, parse_motion(bytes@.skip(pos as int))),
{
    let (position, c1) = match take_pair(bytes, pos) {
        Some(r) => r,
        None => { return None; },
    };
    let (speed, c2) = match take_pair(bytes, c1) {
        Some(r) => r,
        None => { return None; },
    };
    let (animation_state, c3) = match take_state(bytes, c2) {
        Some(r) => r,
        None => { return None; },
    };
    let (facing_right, c4) = match take_bool(bytes, c3) {
        Some(r) => r,
        None => { return None; },
    };
    Some(
        (
            MotionDataContainer {
                x: position.0,
                y: position.1,
                x_speed: speed.0,
                y_speed: speed.1,
                animation_state,
                facing_right,
            },
            c4,
        ),
    )
}

fn take_entity_map(bytes: &[u8], pos: usize) -> (got: Option<(HashMap<i32, DataWrapper>, usize)>)
    requires
        pos <= bytes@.len(),
    ensures
        match parse_entity_map(bytes@.skip(pos as int)) {
            Some((v, rest)) => got matches Some((x, next)) && x@ == v && pos <= next <= bytes@.len()
                && rest == bytes@.skip(next as int),
            None => got is None,
        },
{
    let (n, start) = match take_u64(bytes, pos) {
        Some(r) => r,
        None => { return None; },
    };
    let mut map: HashMap<i32, DataWrapper> = HashMap::new();
    let mut at: usize = start;
    let mut left: u64 = n;
    while left > 0
        invariant
            pos <= start <= at <= bytes@.len(),
            parse_entity_map(bytes@.skip(pos as int)) == parse_entries(
                bytes@.skip(start as int),
                n as nat,
                Map::empty(),
            ),
            parse_entries(bytes@.skip(start as int), n as nat, Map::empty()) == parse_entries(
                bytes@.skip(at as int),
                left as nat,
                map@,
            ),
        decreases left,
    {
        let (id, c1) = match take_i32(bytes, at) {
            Some(r) => r,
            None => { return None; },
        };
        let (w, c2) = match take_entity(bytes, c1) {
            Some(r) => r,
            None => { return None; },
        };
        map.insert(id, w);
        at = c2;
        left = left - 1;
    }
    Some((map, at))
}

/// Whether a reader of typed values that was at `pos` in `bytes` and
/// answered `got` said what `parsed` says.
pub open spec fn agrees_value(
    bytes: Seq<u8>,
    pos: usize,
    got: Option<(ObjectType, usize)>,
    parsed: Parsed<Value>,
) -> bool {
    match parsed {
        Some((v, rest)) => got matches Some((x, next)) && x@ == v && pos <= next <= bytes.len()
            && rest == bytes.skip(next as int),
        None => got is None,
    }
}

fn take_value(bytes: &[u8], pos: usize) -> (got: Option<(ObjectType, usize)>)
    requires
        pos <= bytes@.len(),
    ensures
        agrees_value(bytes@, pos, got, parse_value(bytes@.skip(pos as int))),
    decreases bytes@.len() - pos, 0nat,
{
    let (tag, c1) = match take_u32(bytes, pos) {
        Some(r) => r,
        None => { return None; },
    };
    if tag == 0 {
        match take_text(bytes, c1) {
            Some((s, next)) => Some((ObjectType::StringMsg(s), next)),
            None => None,
        }
    } else if tag == 1 {
        match take_i32(bytes, c1) {
            Some((i, next)) => Some((ObjectType::Integer(i), next)),
            None => None,
        }
    } else if tag == 2 {
        match take_entity_map(bytes, c1) {
            Some((m, next)) => Some((ObjectType::PlayerMap(m), next)),
            None => None,
        }
    } else if tag == 3 {
        match take_entity(bytes, c1) {
            Some((w, next)) => Some((ObjectType::Player(w), next)),
            None => None,
        }
    } else if tag == 4 {
        match take_motion(bytes, c1) {
            Some((m, next)) => Some((ObjectType::MotionData(m), next)),
            None => None,
        }
    } else if tag == 5 {
        let (function_name, c2) = match take_text(bytes, c1) {
            Some(r) => r,
            None => { return None; },
        };
        let (n, c3) = match take_u64(bytes, c2) {
            Some(r) => r,
            None => { return None; },
        };
        match take_values(bytes, c3, n) {
            Some((params, next)) => Some(
                (ObjectType::RpcCall(RpcCallContainer { function_name, params }), next),
            ),
            None => None,
        }
    } else if tag == 6 {
        match take_state(bytes, c1) {
            Some((s, next)) => Some((ObjectType::AnimationState(s), next)),
            None => None,
        }
    } else {
        None
    }
}

fn take_values(bytes: &[u8], pos: usize, n: u64) -> (got: Option<(Vec<ObjectType>, usize)>)
    requires
        pos <= bytes@.len(),
    ensures
        match parse_values(bytes@.skip(pos as int), n as nat, Seq::empty()) {
            Some((v, rest)) => got matches Some((x, next)) && crate::message::values_of(x@) == v
                && pos <= next <= bytes@.len() && rest == bytes@.skip(next as int),
            None => got is None,
        },
    decreases bytes@.len() - pos, 1nat,
{
    let mut params: Vec<ObjectType> = Vec::new();
    let mut at: usize = pos;
    let mut left: u64 = n;
    while left > 0
        invariant
            pos <= at <= bytes@.len(),
            parse_values(bytes@.skip(pos as int), n as nat, Seq::empty()) == parse_values(
                bytes@.skip(at as int),
                left as nat,
                crate::message::values_of(params@),
            ),
        decreases left,
    {
        let ghost before = params@;
        let (v, next) = match take_value(bytes, at) {
            Some(r) => r,
            None => { return None; },
        };
        params.push(v);
        proof {
            assert(params@.drop_last() =~= before);
        }
        at = next;
        left = left - 1;
    }
    Some((params, at))
}

fn take_fields(bytes: &[u8], pos: usize, n: u64) -> (got: Option<FieldMap>)
    requires
        pos <= bytes@.len(),
    ensures
        match parse_fields(bytes@.skip(pos as int), n as nat, Seq::empty()) {
            Some((v, rest)) => got matches Some(x) && x.items() == v,
            None => got is None,
        },
{
    let mut fields = FieldMap::new();
    let mut at: usize = pos;
    let mut left: u64 = n;
    while left > 0
        invariant
            pos <= at <= bytes@.len(),
            parse_fields(bytes@.skip(pos as int), n as nat, Seq::empty()) == parse_fields(
                bytes@.skip(at as int),
                left as nat,
                fields.items(),
            ),
        decreases left,
    {
        let (key, c1) = match take_text(bytes, at) {
            Some(r) => r,
            None => { return None; },
        };
        let (v, c2) = match take_value(bytes, c1) {
            Some(r) => r,
            None => { return None; },
        };
        fields.insert(key, v);
        at = c2;
        left = left - 1;
    }
    Some(fields)
}

/// The message that a datagram holds.
///
/// The datagram is read as the target, the number of fields and the fields;
/// a name that comes twice keeps its first place and its last value. Bytes
/// after the last field are ignored. Anything that does not read this way is
/// refused whole.
pub fn decode(bytes: &[u8]) -> (r: Result<Message, DecodeError>)
    ensures
        match parse_message(bytes@) {
            Some((target, items)) => r matches Ok(m) && m.target() == target && m.items() == items,
            None => r == Err::<Message, DecodeError>(DecodeError::Malformed),
        },
{
    assert(bytes@.skip(0) =~= bytes@);
    let (target, c1) = match take_i32(bytes, 0) {
        Some(r) => r,
        None => { return Err(DecodeError::Malformed); },
    };
    let (n, c2) = match take_u64(bytes, c1) {
        Some(r) => r,
        None => { return Err(DecodeError::Malformed); },
    };
    match take_fields(bytes, c2, n) {
        Some(fields) => match Message::new(target, fields) {
            Ok(m) => Ok(m),
            Err(_) => Err(DecodeError::Malformed),
        },
        None => Err(DecodeError::Malformed),
    }
}

// ---------------------------------------------------------------------
// Writing
// ---------------------------------------------------------------------
fn put_bytes(out: &mut Vec<u8>, bytes: &[u8])
    ensures
        final(out)@ == old(out)@ + bytes@,
{
    let mut i: usize = 0;
    while i < bytes.len()
        invariant
            i <= bytes@.len(),
            out@ == old(out)@ + bytes@.take(i as int),
        decreases bytes@.len() - i,
    {
        out.push(bytes[i]);
        i += 1;
        assert(out@ =~= old(out)@ + bytes@.take(i as int));
    }
    assert(bytes@.take(i as int) =~= bytes@);
}

fn put_u32(out: &mut Vec<u8>, v: u32)
    ensures
        final(out)@ == old(out)@ + u32_bytes(v),
        final(out)@.len() == old(out)@.len() + 4,
{
    out.push((v % 0x100) as u8);
    out.push((v / 0x100 % 0x100) as u8);
    out.push((v / 0x1_0000 % 0x100) as u8);
    out.push((v / 0x100_0000 % 0x100) as u8);
    proof {
        reveal(u32_bytes);
    }
    assert(out@ =~= old(out)@ + u32_bytes(v));
}

fn put_u64(out: &mut Vec<u8>, v: u64)
    ensures
        final(out)@ == old(out)@ + u64_bytes(v),
        final(out)@.len() == old(out)@.len() + 8,
{
    put_u32(out, (v % 0x1_0000_0000) as u32);
    put_u32(out, (v / 0x1_0000_0000) as u32);
    proof {
        reveal(u64_bytes);
    }
    assert(out@ =~= old(out)@ + u64_bytes(v));
}

fn put_i32(out: &mut Vec<u8>, v: i32)
    ensures
        final(out)@ == old(out)@ + i32_bytes(v),
        final(out)@.len() == old(out)@.len() + 4,
{
    let u = if v >= 0 {
        v as u32
    } else {
        ((v as i64) + 0x1_0000_0000) as u32
    };
    put_u32(out, u);
}

fn put_bool(out: &mut Vec<u8>, v: bool)
    ensures
        final(out)@ == old(out)@ + bool_bytes(v),
{
    out.push(if v { 1u8 } else { 0u8 });
    assert(out@ =~= old(out)@ + bool_bytes(v));
}

fn put_text(out: &mut Vec<u8>, s: &str)
    ensures
        final(out)@ == old(out)@ + text_bytes(s@),
        encode_utf8(s@).len() <= usize::MAX,
        final(out)@.len() == old(out)@.len() + text_size(s@),
{
    let bytes = s.as_bytes();
    put_u64(out, bytes.len() as u64);
    put_bytes(out, bytes);
    assert(out@ =~= old(out)@ + text_bytes(s@));
}

fn put_state(out: &mut Vec<u8>, s: PlayerState)
    ensures
        final(out)@ == old(out)@ + u32_bytes(state_tag(s)),
        final(out)@.len() == old(out)@.len() + 4,
{
    let tag: u32 = match s {
        PlayerState::Idle => 0,
        PlayerState::Running => 1,
        PlayerState::Jumping => 2,
        PlayerState::Attack1 => 3,
        PlayerState::Attack2 => 4,
        PlayerState::Death => 5,
    };
    put_u32(out, tag);
}

fn put_character(out: &mut Vec<u8>, c: CharacterType)
    ensures
        final(out)@ == old(out)@ + u32_bytes(character_tag(c)),
{
    let tag: u32 = match c {
        CharacterType::Witcher => 0,
        CharacterType::Witch => 1,
    };
    put_u32(out, tag);
}

fn put_pair(out: &mut Vec<u8>, p: (u32, u32))
    ensures
        final(out)@ == old(out)@ + pair_bytes(p),
{
    put_u32(out, p.0);
    put_u32(out, p.1);
    assert(out@ =~= old(out)@ + pair_bytes(p));
}

fn put_entity(out: &mut Vec<u8>, w: &DataWrapper)
    ensures
        final(out)@ == old(out)@ + entity_bytes(*w),
        final(out)@.len() == old(out)@.len() + 33,
{
    proof {
        lemma_entity_frames(*w, Seq::empty());
    }
    put_state(out, w.state);
    put_i32(out, w.owner_id);
    put_i32(out, w.object_id);
    put_character(out, w.character_type);
    put_pair(out, w.position_data);
    put_pair(out, w.speed_data);
    put_bool(out, w.facing_right);
    assert(out@ =~= old(out)@ + entity_bytes(*w));
}

fn put_motion(out: &mut Vec<u8>, m: &MotionDataContainer)
    ensures
        final(out)@ == old(out)@ + motion_bytes(*m),
        final(out)@.len() == old(out)@.len() + 21,
{
    proof {
        lemma_motion_frames(*m, Seq::empty());
    }
    put_pair(out, (m.x, m.y));
    put_pair(out, (m.x_speed, m.y_speed));
    put_state(out, m.animation_state);
    put_bool(out, m.facing_right);
    assert(out@ =~= old(out)@ + motion_bytes(*m));
}

/// The number of bytes that text takes on the wire.
pub open spec fn text_size(s: Seq<char>) -> nat {
    8 + encode_utf8(s).len()
}

/// The number of bytes that a typed value takes on the wire.
pub open spec fn value_size(v: Value) -> nat
    decreases v,
{
    match v {
        Value::Text(s) => 4 + text_size(s),
        Value::Int(_) => 8,
        Value::EntityMap(m) => 12 + 37 * m.dom().len(),
        Value::Entity(_) => 37,
        Value::Motion(_) => 25,
        Value::Rpc(name, params) => 12 + text_size(name) + values_size(params),
        Value::Animation(_) => 8,
    }
}

/// The number of bytes that typed values take on the wire, one after the
/// other.
pub open spec fn values_size(vs: Seq<Value>) -> nat
    decreases vs,
{
    if vs.len() == 0 {
        0
    } else {
        values_size(vs.drop_last()) + value_size(vs.last())
    }
}

/// The number of bytes that named fields take on the wire, one after the
/// other.
pub open spec fn fields_size(items: Seq<(Seq<char>, Value)>) -> nat
    decreases items.len(),
{
    if items.len() == 0 {
        0
    } else {
        fields_size(items.drop_last()) + text_size(items.last().0) + value_size(items.last().1)
    }
}

/// The number of bytes that a message with these fields takes on the wire.
pub open spec fn message_size(items: Seq<(Seq<char>, Value)>) -> nat {
    12 + fields_size(items)
}

/// Whether `enc`, whatever follows it, reads as the typed value `v` and
/// leaves what follows.
pub open spec fn value_frames(enc: Seq<u8>, v: Value) -> bool {
    forall|rest: Seq<u8>| #[trigger] parse_value(enc + rest) == Some((v, rest))
}

/// Whether `enc`, whatever follows it, reads as the typed values `vs`, one
/// after the other, and leaves what follows.
pub open spec fn values_frame(enc: Seq<u8>, vs: Seq<Value>) -> bool {
    forall|rest: Seq<u8>, n: nat, acc: Seq<Value>|
        n >= vs.len() ==> #[trigger] parse_values(enc + rest, n, acc) == parse_values(
            rest,
            (n - vs.len()) as nat,
            acc + vs,
        )
}

/// `acc` with the entities of `m` under `ids` added, one after the other.
pub open spec fn insert_all(
    acc: Map<i32, DataWrapper>,
    ids: Seq<i32>,
    m: Map<i32, DataWrapper>,
) -> Map<i32, DataWrapper>
    decreases ids.len(),
{
    if ids.len() == 0 {
        acc
    } else {
        insert_all(acc, ids.drop_last(), m).insert(ids.last(), m[ids.last()])
    }
}

/// Whether `enc`, whatever follows it, reads as the entities of `m` under
/// `ids`, one after the other, and leaves what follows.
pub open spec fn entries_frame(enc: Seq<u8>, ids: Seq<i32>, m: Map<i32, DataWrapper>) -> bool {
    forall|rest: Seq<u8>, n: nat, acc: Map<i32, DataWrapper>|
        n >= ids.len() ==> #[trigger] parse_entries(enc + rest, n, acc) == parse_entries(
            rest,
            (n - ids.len()) as nat,
            insert_all(acc, ids, m),
        )
}

/// `acc` with the fields `items` stored, one after the other.
pub open spec fn put_all(acc: Seq<(Seq<char>, Value)>, items: Seq<(Seq<char>, Value)>) -> Seq<
    (Seq<char>, Value),
>
    decreases items.len(),
{
    if items.len() == 0 {
        acc
    } else {
        put(put_all(acc, items.drop_last()), items.last().0, items.last().1)
    }
}

/// Whether `enc`, whatever follows it, reads as the fields `items`, one
/// after the other, and leaves what follows.
pub open spec fn fields_frame(enc: Seq<u8>, items: Seq<(Seq<char>, Value)>) -> bool {
    forall|rest: Seq<u8>, n: nat, acc: Seq<(Seq<char>, Value)>|
        n >= items.len() ==> #[trigger] parse_fields(enc + rest, n, acc) == parse_fields(
            rest,
            (n - items.len()) as nat,
            put_all(acc, items),
        )
}

proof fn lemma_values_start()
    ensures
        values_frame(Seq::empty(), Seq::empty()),
{
    assert forall|rest: Seq<u8>, n: nat, acc: Seq<Value>| n >= 0 implies #[trigger] parse_values(
        Seq::<u8>::empty() + rest,
        n,
        acc,
    ) == parse_values(rest, (n - 0) as nat, acc + Seq::<Value>::empty()) by {
        assert(Seq::<u8>::empty() + rest =~= rest);
        assert(acc + Seq::<Value>::empty() =~= acc);
    }
}

proof fn lemma_values_step(buf: Seq<u8>, vs: Seq<Value>, e: Seq<u8>, v: Value)
    requires
        values_frame(buf, vs),
        value_frames(e, v),
    ensures
        values_frame(buf + e, vs.push(v)),
{
    assert forall|rest: Seq<u8>, n: nat, acc: Seq<Value>| n >= vs.push(v).len() implies
        #[trigger] parse_values((buf + e) + rest, n, acc) == parse_values(
        rest,
        (n - vs.push(v).len()) as nat,
        acc + vs.push(v),
    ) by {
        assert((buf + e) + rest =~= buf + (e + rest));
        assert(parse_values(buf + (e + rest), n, acc) == parse_values(
            e + rest,
            (n - vs.len()) as nat,
            acc + vs,
        ));
        assert(parse_value(e + rest) == Some((v, rest)));
        assert((acc + vs).push(v) =~= acc + vs.push(v));
    }
}

proof fn lemma_entries_start(m: Map<i32, DataWrapper>)
    ensures
        entries_frame(Seq::empty(), Seq::empty(), m),
{
    assert forall|rest: Seq<u8>, n: nat, acc: Map<i32, DataWrapper>| n >= 0 implies
        #[trigger] parse_entries(Seq::<u8>::empty() + rest, n, acc) == parse_entries(
        rest,
        (n - 0) as nat,
        insert_all(acc, Seq::<i32>::empty(), m),
    ) by {
        assert(Seq::<u8>::empty() + rest =~= rest);
    }
}

proof fn lemma_entries_step(buf: Seq<u8>, ids: Seq<i32>, m: Map<i32, DataWrapper>, id: i32)
    requires
        entries_frame(buf, ids, m),
    ensures
        entries_frame(buf + (i32_bytes(id) + entity_bytes(m[id])), ids.push(id), m),
{
    let e = i32_bytes(id) + entity_bytes(m[id]);
    assert forall|rest: Seq<u8>, n: nat, acc: Map<i32, DataWrapper>| n >= ids.push(id).len() implies
        #[trigger] parse_entries((buf + e) + rest, n, acc) == parse_entries(
        rest,
        (n - ids.push(id).len()) as nat,
        insert_all(acc, ids.push(id), m),
    ) by {
        assert((buf + e) + rest =~= buf + (e + rest));
        assert(parse_entries(buf + (e + rest), n, acc) == parse_entries(
            e + rest,
            (n - ids.len()) as nat,
            insert_all(acc, ids, m),
        ));
        assert(e + rest =~= i32_bytes(id) + (entity_bytes(m[id]) + rest));
        lemma_i32_frames(id, entity_bytes(m[id]) + rest);
        lemma_entity_frames(m[id], rest);
        assert(ids.push(id).drop_last() =~= ids);
    }
}

proof fn lemma_fields_start()
    ensures
        fields_frame(Seq::empty(), Seq::empty()),
{
    assert forall|rest: Seq<u8>, n: nat, acc: Seq<(Seq<char>, Value)>| n >= 0 implies
        #[trigger] parse_fields(Seq::<u8>::empty() + rest, n, acc) == parse_fields(
        rest,
        (n - 0) as nat,
        put_all(acc, Seq::<(Seq<char>, Value)>::empty()),
    ) by {
        assert(Seq::<u8>::empty() + rest =~= rest);
    }
}

proof fn lemma_fields_step(
    buf: Seq<u8>,
    items: Seq<(Seq<char>, Value)>,
    key: Seq<char>,
    e: Seq<u8>,
    v: Value,
)
    requires
        fields_frame(buf, items),
        value_frames(e, v),
        encode_utf8(key).len() <= u64::MAX,
    ensures
        fields_frame(buf + (text_bytes(key) + e), items.push((key, v))),
{
    let item = text_bytes(key) + e;
    let more = items.push((key, v));
    assert forall|rest: Seq<u8>, n: nat, acc: Seq<(Seq<char>, Value)>| n >= more.len() implies
        #[trigger] parse_fields((buf + item) + rest, n, acc) == parse_fields(
        rest,
        (n - more.len()) as nat,
        put_all(acc, more),
    ) by {
        assert((buf + item) + rest =~= buf + (item + rest));
        assert(parse_fields(buf + (item + rest), n, acc) == parse_fields(
            item + rest,
            (n - items.len()) as nat,
            put_all(acc, items),
        ));
        assert(item + rest =~= text_bytes(key) + (e + rest));
        lemma_text_frames(key, e + rest);
        assert(parse_value(e + rest) == Some((v, rest)));
        assert(more.drop_last() =~= items);
    }
}

/// Adding the entities of a map under all of its ids, each once, to the
/// empty map gives the map.
proof fn lemma_insert_all_covers(acc: Map<i32, DataWrapper>, ids: Seq<i32>, m: Map<i32, DataWrapper>)
    ensures
        forall|k: i32|
            #[trigger] insert_all(acc, ids, m).contains_key(k) <==> (acc.contains_key(k)
                || ids.contains(k)),
        forall|k: i32| ids.contains(k) ==> #[trigger] insert_all(acc, ids, m)[k] == m[k],
    decreases ids.len(),
{
    let all = insert_all(acc, ids, m);
    if ids.len() > 0 {
        let front = ids.drop_last();
        let last = ids.last();
        lemma_insert_all_covers(acc, front, m);
        let before = insert_all(acc, front, m);
        assert(all == before.insert(last, m[last]));
        assert forall|k: i32| ids.contains(k) <==> (front.contains(k) || k == last) by {
            if ids.contains(k) {
                let i = choose|i: int| 0 <= i < ids.len() && ids[i] == k;
                if i < ids.len() - 1 {
                    assert(front[i] == k);
                }
            }
            if front.contains(k) {
                let i = choose|i: int| 0 <= i < front.len() && front[i] == k;
                assert(ids[i] == k);
            }
            if k == last {
                assert(ids[ids.len() - 1] == k);
            }
        }
        assert forall|k: i32| #[trigger] all.contains_key(k) <==> (acc.contains_key(k)
            || ids.contains(k)) by {
            assert(before.contains_key(k) <==> (acc.contains_key(k) || front.contains(k)));
        }
        assert forall|k: i32| ids.contains(k) implies #[trigger] all[k] == m[k] by {
            if k != last {
                assert(front.contains(k));
                assert(before[k] == m[k]);
            }
        }
    } else {
        assert forall|k: i32| !ids.contains(k) by {
            if ids.contains(k) {
                let i = choose|i: int| 0 <= i < ids.len() && ids[i] == k;
            }
        }
    }
}

/// Storing fields with distinct names, one after the other, into no fields
/// gives those fields in their order.
proof fn lemma_put_all_distinct(items: Seq<(Seq<char>, Value)>)
    requires
        crate::message::distinct_keys(items),
    ensures
        put_all(Seq::empty(), items) == items,
    decreases items.len(),
{
    if items.len() > 0 {
        let front = items.drop_last();
        lemma_put_all_distinct(front);
        assert forall|j: int| 0 <= j < front.len() implies front[j].0 != items.last().0 by {
            assert(front[j] == items[j]);
        }
        crate::message::lemma_put_absent(front, items.last().0, items.last().1);
        assert(front.push(items.last()) =~= items);
    } else {
        assert(items =~= Seq::empty());
    }
}

/// The ids of a map, each once, in the order in which the map hands them
/// out.
pub fn map_keys<V>(m: &HashMap<i32, V>) -> (keys: Vec<i32>)
    ensures
        keys@.no_duplicates(),
        keys@.to_set() == m@.dom(),
        keys@.len() == m@.dom().len(),
{
    let mut keys: Vec<i32> = Vec::new();
    for k in it: m.keys()
        invariant
            keys@.len() == it.index(),
            forall|j: int| 0 <= j < keys@.len() ==> keys@[j] == *it.seq()[j],
    {
        keys.push(*k);
    }
    proof {
        let s = m.keys().remaining();
        assert(keys@ =~= s.unref());
    }
    keys
}

fn entity_map_to_bytes(m: &HashMap<i32, DataWrapper>) -> (out: Vec<u8>)
    ensures
        forall|rest: Seq<u8>| #[trigger] parse_entity_map(out@ + rest) == Some((m@, rest)),
        out@.len() == 8 + 37 * m@.dom().len(),
{
    let keys = map_keys(m);
    let mut body: Vec<u8> = Vec::new();
    let mut i: usize = 0;
    proof {
        lemma_entries_start(m@);
        assert(keys@.take(0) =~= Seq::empty());
    }
    while i < keys.len()
        invariant
            i <= keys@.len(),
            keys@.to_set() == m@.dom(),
            entries_frame(body@, keys@.take(i as int), m@),
            body@.len() == 37 * i,
        decreases keys@.len() - i,
    {
        let id = keys[i];
        proof {
            assert(keys@.contains(id));
            assert(keys@.to_set().contains(id));
            lemma_entries_step(body@, keys@.take(i as int), m@, id);
            assert(keys@.take(i as int).push(id) =~= keys@.take(i + 1));
        }
        let ghost before = body@;
        match m.get(&id) {
            Some(w) => {
                put_i32(&mut body, id);
                put_entity(&mut body, w);
            },
            None => {},
        }
        assert(body@ =~= before + (i32_bytes(id) + entity_bytes(m@[id])));
        i += 1;
    }
    let mut out: Vec<u8> = Vec::new();
    put_u64(&mut out, keys.len() as u64);
    put_bytes(&mut out, body.as_slice());
    proof {
        let n = keys@.len() as u64;
        assert(keys@.take(i as int) =~= keys@);
        lemma_insert_all_covers(Map::empty(), keys@, m@);
        assert(insert_all(Map::empty(), keys@, m@) =~= m@) by {
            assert forall|k: i32| insert_all(Map::empty(), keys@, m@).contains_key(k)
                <==> m@.contains_key(k) by {
                assert(keys@.contains(k) <==> keys@.to_set().contains(k));
            }
        }
        assert forall|rest: Seq<u8>| #[trigger]
            parse_entity_map(out@ + rest) == Some((m@, rest)) by {
            assert(out@ + rest =~= u64_bytes(n) + (body@ + rest));
            lemma_u64_frames(n, body@ + rest);
            assert(parse_entries(body@ + rest, n as nat, Map::empty()) == parse_entries(
                rest,
                0,
                insert_all(Map::empty(), keys@, m@),
            ));
        }
    }
    out
}

proof fn lemma_text_value(out: Seq<u8>, s: Seq<char>)
    requires
        out == u32_bytes(0) + text_bytes(s),
        encode_utf8(s).len() <= u64::MAX,
    ensures
        value_frames(out, Value::Text(s)),
{
    assert forall|rest: Seq<u8>| #[trigger] parse_value(out + rest) == Some(
        (Value::Text(s), rest),
    ) by {
        assert(out + rest =~= u32_bytes(0) + (text_bytes(s) + rest));
        lemma_u32_frames(0, text_bytes(s) + rest);
        lemma_text_frames(s, rest);
    }
}

proof fn lemma_int_value(out: Seq<u8>, i: i32)
    requires
        out == u32_bytes(1) + i32_bytes(i),
    ensures
        value_frames(out, Value::Int(i)),
{
    assert forall|rest: Seq<u8>| #[trigger] parse_value(out + rest) == Some(
        (Value::Int(i), rest),
    ) by {
        assert(out + rest =~= u32_bytes(1) + (i32_bytes(i) + rest));
        lemma_u32_frames(1, i32_bytes(i) + rest);
        lemma_i32_frames(i, rest);
    }
}

proof fn lemma_entity_map_value(out: Seq<u8>, body: Seq<u8>, m: Map<i32, DataWrapper>)
    requires
        out == u32_bytes(2) + body,
        forall|rest: Seq<u8>| #[trigger] parse_entity_map(body + rest) == Some((m, rest)),
    ensures
        value_frames(out, Value::EntityMap(m)),
{
    assert forall|rest: Seq<u8>| #[trigger] parse_value(out + rest) == Some(
        (Value::EntityMap(m), rest),
    ) by {
        assert(out + rest =~= u32_bytes(2) + (body + rest));
        lemma_u32_frames(2, body + rest);
        assert(parse_entity_map(body + rest) == Some((m, rest)));
    }
}

proof fn lemma_entity_value(out: Seq<u8>, w: DataWrapper)
    requires
        out == u32_bytes(3) + entity_bytes(w),
    ensures
        value_frames(out, Value::Entity(w)),
{
    assert forall|rest: Seq<u8>| #[trigger] parse_value(out + rest) == Some(
        (Value::Entity(w), rest),
    ) by {
        assert(out + rest =~= u32_bytes(3) + (entity_bytes(w) + rest));
        lemma_u32_frames(3, entity_bytes(w) + rest);
        lemma_entity_frames(w, rest);
    }
}

proof fn lemma_motion_value(out: Seq<u8>, m: MotionDataContainer)
    requires
        out == u32_bytes(4) + motion_bytes(m),
    ensures
        value_frames(out, Value::Motion(m)),
{
    assert forall|rest: Seq<u8>| #[trigger] parse_value(out + rest) == Some(
        (Value::Motion(m), rest),
    ) by {
        assert(out + rest =~= u32_bytes(4) + (motion_bytes(m) + rest));
        lemma_u32_frames(4, motion_bytes(m) + rest);
        lemma_motion_frames(m, rest);
    }
}

proof fn lemma_rpc_value(out: Seq<u8>, name: Seq<char>, body: Seq<u8>, vs: Seq<Value>)
    requires
        vs.len() <= u64::MAX,
        encode_utf8(name).len() <= u64::MAX,
        out == u32_bytes(5) + text_bytes(name) + u64_bytes(vs.len() as u64) + body,
        values_frame(body, vs),
    ensures
        value_frames(out, Value::Rpc(name, vs)),
{
    let n = vs.len() as u64;
    assert forall|rest: Seq<u8>| #[trigger] parse_value(out + rest) == Some(
        (Value::Rpc(name, vs), rest),
    ) by {
        let t3 = body + rest;
        let t2 = u64_bytes(n) + t3;
        let t1 = text_bytes(name) + t2;
        assert(out + rest =~= u32_bytes(5) + t1);
        lemma_u32_frames(5, t1);
        lemma_text_frames(name, t2);
        lemma_u64_frames(n, t3);
        assert(parse_values(body + rest, n as nat, Seq::empty()) == parse_values(
            rest,
            0,
            Seq::<Value>::empty() + vs,
        ));
        assert(Seq::<Value>::empty() + vs =~= vs);
    }
}

proof fn lemma_animation_value(out: Seq<u8>, s: PlayerState)
    requires
        out == u32_bytes(6) + u32_bytes(state_tag(s)),
    ensures
        value_frames(out, Value::Animation(s)),
{
    assert forall|rest: Seq<u8>| #[trigger] parse_value(out + rest) == Some(
        (Value::Animation(s), rest),
    ) by {
        assert(out + rest =~= u32_bytes(6) + (u32_bytes(state_tag(s)) + rest));
        lemma_u32_frames(6, u32_bytes(state_tag(s)) + rest);
        lemma_state_frames(s, rest);
    }
}

/// The bytes of a typed value: whatever follows them, they read as the
/// value and leave what follows.
pub fn value_to_bytes(v: &ObjectType) -> (out: Vec<u8>)
    ensures
        value_frames(out@, v@),
        out@.len() == value_size(v@),
    decreases v,
{
    let mut out: Vec<u8> = Vec::new();
    match v {
        ObjectType::StringMsg(s) => {
            put_u32(&mut out, 0);
            put_text(&mut out, s.as_str());
            proof {
                assert(out@ =~= u32_bytes(0) + text_bytes(s@));
                lemma_text_value(out@, s@);
            }
        },
        ObjectType::Integer(i) => {
            put_u32(&mut out, 1);
            put_i32(&mut out, *i);
            proof {
                assert(out@ =~= u32_bytes(1) + i32_bytes(*i));
                lemma_int_value(out@, *i);
            }
        },
        ObjectType::PlayerMap(m) => {
            put_u32(&mut out, 2);
            let body = entity_map_to_bytes(m);
            put_bytes(&mut out, body.as_slice());
            proof {
                assert(out@ =~= u32_bytes(2) + body@);
                lemma_entity_map_value(out@, body@, m@);
            }
        },
        ObjectType::Player(w) => {
            put_u32(&mut out, 3);
            put_entity(&mut out, w);
            proof {
                assert(out@ =~= u32_bytes(3) + entity_bytes(*w));
                lemma_entity_value(out@, *w);
            }
        },
        ObjectType::MotionData(m) => {
            put_u32(&mut out, 4);
            put_motion(&mut out, m);
            proof {
                assert(out@ =~= u32_bytes(4) + motion_bytes(*m));
                lemma_motion_value(out@, *m);
            }
        },
        ObjectType::RpcCall(c) => {
            put_u32(&mut out, 5);
            put_text(&mut out, c.function_name.as_str());
            put_u64(&mut out, c.params.len() as u64);
            let body = values_to_bytes(&c.params);
            put_bytes(&mut out, body.as_slice());
            proof {
                let vs = crate::message::values_of(c.params@);
                crate::message::lemma_values_of(c.params@);
                lemma_rpc_value(out@, c.function_name@, body@, vs);
            }
        },
        ObjectType::AnimationState(s) => {
            put_u32(&mut out, 6);
            put_state(&mut out, *s);
            proof {
                assert(out@ =~= u32_bytes(6) + u32_bytes(state_tag(*s)));
                lemma_animation_value(out@, *s);
            }
        },
    }
    out
}

fn values_to_bytes(params: &Vec<ObjectType>) -> (out: Vec<u8>)
    ensures
        values_frame(out@, crate::message::values_of(params@)),
        out@.len() == values_size(crate::message::values_of(params@)),
    decreases params,
{
    let mut out: Vec<u8> = Vec::new();
    let mut i: usize = 0;
    proof {
        lemma_values_start();
        assert(params@.take(0) =~= Seq::empty());
    }
    while i < params.len()
        invariant
            i <= params@.len(),
            values_frame(out@, crate::message::values_of(params@.take(i as int))),
            out@.len() == values_size(crate::message::values_of(params@.take(i as int))),
        decreases params@.len() - i,
    {
        let item = value_to_bytes(&params[i]);
        proof {
            lemma_values_step(
                out@,
                crate::message::values_of(params@.take(i as int)),
                item@,
                params@[i as int]@,
            );
            assert(params@.take(i + 1).drop_last() =~= params@.take(i as int));
            let front = crate::message::values_of(params@.take(i as int));
            let more = crate::message::values_of(params@.take(i + 1));
            assert(more == front.push(params@[i as int]@));
            assert(more.drop_last() =~= front);
        }
        put_bytes(&mut out, item.as_slice());
        i += 1;
    }
    assert(params@.take(i as int) =~= params@);
    out
}

fn fields_to_bytes(fields: &FieldMap) -> (out: Vec<u8>)
    ensures
        fields_frame(out@, fields.items()),
        out@.len() == fields_size(fields.items()),
{
    let mut out: Vec<u8> = Vec::new();
    let mut i: usize = 0;
    let n = fields.len();
    proof {
        lemma_fields_start();
        assert(fields.items().take(0) =~= Seq::empty());
    }
    while i < n
        invariant
            i <= n == fields.items().len(),
            fields_frame(out@, fields.items().take(i as int)),
            out@.len() == fields_size(fields.items().take(i as int)),
        decreases n - i,
    {
        let ghost before = out@;
        let key = fields.key_at(i);
        let item = value_to_bytes(fields.value_at(i));
        put_text(&mut out, key);
        put_bytes(&mut out, item.as_slice());
        proof {
            let entry = fields.items()[i as int];
            lemma_fields_step(before, fields.items().take(i as int), entry.0, item@, entry.1);
            assert(out@ =~= before + (text_bytes(entry.0) + item@));
            assert(fields.items().take(i as int).push(entry) =~= fields.items().take(i + 1));
            assert(fields.items().take(i + 1).drop_last() =~= fields.items().take(i as int));
        }
        i += 1;
    }
    assert(fields.items().take(i as int) =~= fields.items());
    out
}

/// Whether `bytes` are a message with the target `target` and the fields
/// `items` as it travels: they take `message_size` bytes, and whatever
/// follows them they read as the target and as the fields stored one after
/// the other.
pub open spec fn is_encoding_of(bytes: Seq<u8>, target: i32, items: Seq<(Seq<char>, Value)>)
    -> bool {
    &&& bytes.len() == message_size(items)
    &&& forall|rest: Seq<u8>| #[trigger]
        parse_message(bytes + rest) == Some((target, put_all(Seq::empty(), items)))
}

/// The bytes of a message: the target, the number of fields and the fields
/// in their order, each as its name and its value.
pub fn encode(message: &Message) -> (out: Vec<u8>)
    ensures
        is_encoding_of(out@, message.target(), message.items()),
        message.wf() ==> parse_message(out@) == Some((message.target(), message.items())),
{
    let fields = message.get_message_map();
    let mut out: Vec<u8> = Vec::new();
    put_i32(&mut out, message.get_target());
    put_u64(&mut out, fields.len() as u64);
    let body = fields_to_bytes(fields);
    put_bytes(&mut out, body.as_slice());
    proof {
        let n = fields.items().len() as u64;
        let target = message.target();
        let items = message.items();
        assert forall|rest: Seq<u8>| #[trigger]
            parse_message(out@ + rest) == Some((target, put_all(Seq::empty(), items))) by {
            let t2 = body@ + rest;
            let t1 = u64_bytes(n) + t2;
            assert(out@ + rest =~= i32_bytes(target) + t1);
            lemma_i32_frames(target, t1);
            lemma_u64_frames(n, t2);
            assert(parse_fields(body@ + rest, n as nat, Seq::empty()) == parse_fields(
                rest,
                0,
                put_all(Seq::empty(), items),
            ));
        }
        assert(out@ + Seq::<u8>::empty() =~= out@);
        if message.wf() {
            lemma_put_all_distinct(items);
        }
    }
    out
}

/// The bytes of a message, where they fit one datagram.
pub fn encode_datagram(message: &Message) -> (r: Result<Vec<u8>, MessageError>)
    ensures
        match r {
            Ok(out) => message_size(message.items()) <= MAX_DATAGRAM && is_encoding_of(
                out@,
                message.target(),
                message.items(),
            ),
            Err(e) => e == MessageError::Oversized && message_size(message.items())
                > MAX_DATAGRAM,
        },
{
    let out = encode(message);
    if out.len() > MAX_DATAGRAM {
        Err(MessageError::Oversized)
    } else {
        Ok(out)
    }
}

/// A message in which no name occurs twice, written and read back, comes
/// back as it was: the same target and the same fields, name for name and
/// value for value, in the same order. Bytes that follow the message change
/// nothing.
pub proof fn lemma_round_trip(
    target: i32,
    items: Seq<(Seq<char>, Value)>,
    bytes: Seq<u8>,
    rest: Seq<u8>,
)
    requires
        crate::message::distinct_keys(items),
        is_encoding_of(bytes, target, items),
    ensures
        parse_message(bytes + rest) == Some((target, items)),
        parse_message(bytes) == Some((target, items)),
{
    lemma_put_all_distinct(items);
    assert(bytes + Seq::<u8>::empty() =~= bytes);
}

} // verus!
