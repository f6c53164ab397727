//! The protocol codec: the exact byte layout of every message, encoders
//! whose output is pinned to that layout, and an inbound decoder that
//! accepts precisely the well-formed encodings. A decode failure is
//! non-fatal: the caller drops the packet and keeps the connection.

use vstd::prelude::*;

use crate::color::Rgb;
use crate::errors::DecodeError;
use crate::events::{GameEvent, GameEventV};
use crate::geom::Pos;
use crate::leaderboard::{entries_view, LbEntryV, LeaderboardEntry};
use crate::snake::{valid_name, Snake, SnakeV};
use crate::types::{
    valid_client_msg, valid_server_msg, valid_wire_snake, ClientMessage, ClientMessageV,
    ServerMessage, ServerMessageV, WsClientPacket, WsServerPacket,
};
use crate::wire::{
    from_le, get_le, le_bytes, lemma_from_le_bound, lemma_le_bytes_len, lemma_pow256_values,
    pow256, put_le,
};

verus! {

/// The bytes of an ASCII character sequence, one byte per character.
pub open spec fn ascii_bytes(s: Seq<char>) -> Seq<u8> {
    Seq::new(s.len(), |i: int| s[i] as u8)
}

/// A length-prefixed ASCII name: one length byte, then the characters.
pub open spec fn enc_name(s: Seq<char>) -> Seq<u8> {
    seq![s.len() as u8] + ascii_bytes(s)
}

/// The tag byte that starts an inbound message's encoding.
pub open spec fn client_tag(m: ClientMessageV) -> u8 {
    match m {
        ClientMessageV::JoinGame { .. } => 0,
        ClientMessageV::LeaveGame => 1,
        ClientMessageV::MoveSnake { .. } => 2,
        ClientMessageV::Pong => 3,
        ClientMessageV::FoodEat => 4,
    }
}

/// The exact encoding of an inbound message.
pub open spec fn enc_client_msg(m: ClientMessageV) -> Seq<u8> {
    match m {
        ClientMessageV::JoinGame { name: None } => seq![0u8, 0u8],
        ClientMessageV::JoinGame { name: Some(s) } => seq![0u8, 1u8] + enc_name(s),
        ClientMessageV::LeaveGame => seq![1u8],
        ClientMessageV::MoveSnake { dir_x, dir_y } => seq![2u8] + le_bytes(dir_x as u64 as int, 8)
            + le_bytes(dir_y as u64 as int, 8),
        ClientMessageV::Pong => seq![3u8],
        ClientMessageV::FoodEat => seq![4u8],
    }
}

/// The layout facts of a join-with-name encoding that the decoder's
/// completeness argument leans on.
pub open spec fn enc_join_some_shape(s: Seq<char>) -> bool {
    let e = enc_client_msg((ClientMessageV::JoinGame { name: Some(s) }));
    e.len() == 3 + s.len() && e[1] == 1 && e[2] == s.len() as u8 && s.len() <= 255 && (forall|j: int| #![trigger s[j]] 0 <= j < s.len() ==> e[3 + j] == (s[j] as u8) && ((s[j] as u8) < 128))
}

/// What every well-formed inbound encoding looks like, variant by variant.
proof fn lemma_client_enc_shape(m: ClientMessageV)
    requires
        valid_client_msg(m),
    ensures
        enc_client_msg(m).len() >= 1,
        enc_client_msg(m)[0] == client_tag(m),
        client_tag(m) <= 4,
        m matches ClientMessageV::JoinGame { name: None } ==> enc_client_msg(m).len() == 2
            && enc_client_msg(m)[1] == 0,
        (m matches ClientMessageV::JoinGame { name: Some(s) } ==> enc_join_some_shape(s)),
        m matches ClientMessageV::LeaveGame ==> enc_client_msg(m).len() == 1,
        m matches ClientMessageV::MoveSnake { .. } ==> enc_client_msg(m).len() == 17,
        m matches ClientMessageV::Pong ==> enc_client_msg(m).len() == 1,
        m matches ClientMessageV::FoodEat ==> enc_client_msg(m).len() == 1,
{
    match m {
        ClientMessageV::JoinGame { name: Some(s) } => {
            assert(enc_client_msg(m) =~= seq![0u8, 1u8, s.len() as u8] + ascii_bytes(s));
            assert forall|j: int| 0 <= j < s.len() implies enc_client_msg(m)[3 + j] == (s[j] as u8)
                && (((#[trigger] s[j]) as u8) < 128) by {
                assert(ascii_bytes(s)[j] == s[j] as u8);
                assert('\0' <= s[j] <= '\u{7f}');
            }
        },
        ClientMessageV::MoveSnake { dir_x, dir_y } => {
            lemma_le_bytes_len(dir_x as u64 as int, 8);
            lemma_le_bytes_len(dir_y as u64 as int, 8);
        },
        _ => {},
    }
}

/// Encoding inverts decoding: an `n`-byte string is the encoding of the
/// value it denotes.
proof fn lemma_from_le_le_bytes(bytes: Seq<u8>)
    ensures
        le_bytes(from_le(bytes), bytes.len()) == bytes,
    decreases bytes.len(),
{
    if bytes.len() > 0 {
        let b0 = bytes[0];
        let rest = from_le(bytes.drop_first());
        lemma_from_le_bound(bytes.drop_first());
        assert((b0 + 256 * rest) % 256 == b0 && (b0 + 256 * rest) / 256 == rest)
            by (nonlinear_arith)
            requires
                0 <= b0 < 256 && rest >= 0,
        ;
        lemma_from_le_le_bytes(bytes.drop_first());
        assert(le_bytes(from_le(bytes), bytes.len()) =~= bytes);
    }
}

/// No two carryable inbound messages share an encoding.
pub proof fn lemma_client_enc_injective(a: ClientMessageV, b: ClientMessageV)
    requires
        valid_client_msg(a),
        valid_client_msg(b),
        enc_client_msg(a) == enc_client_msg(b),
    ensures
        a == b,
{
    lemma_client_enc_shape(a);
    lemma_client_enc_shape(b);
    let ea = enc_client_msg(a);
    let eb = enc_client_msg(b);
    assert(ea[0] == eb[0]);
    match a {
        ClientMessageV::JoinGame { name: na } => {
            match b {
                ClientMessageV::JoinGame { name: nb } => {
                    match na {
                        Some(sa) => {
                            match nb {
                                Some(sb) => {
                                    assert(sa.len() == sb.len()) by {
                                        assert(ea.len() == 3 + sa.len());
                                        assert(eb.len() == 3 + sb.len());
                                    }
                                    assert forall|j: int| 0 <= j < sa.len() implies sa[j]
                                        == #[trigger] sb[j] by {
                                        assert(ea[3 + j] == (sa[j] as u8));
                                        assert(eb[3 + j] == (sb[j] as u8));
                                        assert('\0' <= sa[j] <= '\u{7f}');
                                        assert('\0' <= sb[j] <= '\u{7f}');
                                        assert((sa[j] as u8) as char == sa[j]);
                                        assert((sb[j] as u8) as char == sb[j]);
                                    }
                                    assert(sa =~= sb);
                                },
                                None => {
                                    assert(ea[1] == 1 && eb[1] == 0);
                                },
                            }
                        },
                        None => {
                            match nb {
                                Some(_) => {
                                    assert(ea[1] == 0 && eb[1] == 1);
                                },
                                None => {},
                            }
                        },
                    }
                },
                _ => {},
            }
        },
        ClientMessageV::MoveSnake { dir_x: xa, dir_y: ya } => {
            match b {
                ClientMessageV::MoveSnake { dir_x: xb, dir_y: yb } => {
                    lemma_le_bytes_len(xa as u64 as int, 8);
                    lemma_le_bytes_len(ya as u64 as int, 8);
                    lemma_le_bytes_len(xb as u64 as int, 8);
                    lemma_le_bytes_len(yb as u64 as int, 8);
                    assert(le_bytes(xa as u64 as int, 8) =~= le_bytes(xb as u64 as int, 8)) by {
                        assert forall|j: int|
                            0 <= j < 8 implies (#[trigger] le_bytes(xa as u64 as int, 8)[j]) == le_bytes(
                            xb as u64 as int,
                            8,
                        )[j] by {
                            assert(ea[1 + j] == le_bytes(xa as u64 as int, 8)[j]);
                            assert(eb[1 + j] == le_bytes(xb as u64 as int, 8)[j]);
                        }
                    }
                    assert(le_bytes(ya as u64 as int, 8) =~= le_bytes(yb as u64 as int, 8)) by {
                        assert forall|j: int|
                            0 <= j < 8 implies (#[trigger] le_bytes(ya as u64 as int, 8)[j]) == le_bytes(
                            yb as u64 as int,
                            8,
                        )[j] by {
                            assert(ea[9 + j] == le_bytes(ya as u64 as int, 8)[j]);
                            assert(eb[9 + j] == le_bytes(yb as u64 as int, 8)[j]);
                        }
                    }
                    proof_pow_hint();
                    crate::wire::lemma_le_bytes_injective(
                        xa as u64 as int,
                        xb as u64 as int,
                        8,
                    );
                    crate::wire::lemma_le_bytes_injective(
                        ya as u64 as int,
                        yb as u64 as int,
                        8,
                    );
                    assert(xa as u64 == xb as u64);
                    assert(ya as u64 == yb as u64);
                    lemma_i64_u64_cast(xa, xb);
                    lemma_i64_u64_cast(ya, yb);
                },
                _ => {},
            }
        },
        _ => {},
    }
}

/// Two signed values with the same two's-complement form are equal.
proof fn lemma_i64_u64_cast(a: i64, b: i64)
    requires
        a as u64 == b as u64,
    ensures
        a == b,
{
    assert(a as u64 == b as u64 ==> a == b) by (bit_vector);
}

/// The widths the injectivity argument needs.
proof fn proof_pow_hint()
    ensures
        pow256(8) == 0x1_0000_0000_0000_0000,
{
    lemma_pow256_values();
}

/// Relies on `String::from_utf8`: ASCII bytes are valid UTF-8 and decode
/// to the characters with the same code points.
#[verifier::external_body]
fn string_from_ascii(bytes: Vec<u8>) -> (r: String)
    requires
        forall|i: int| 0 <= i < bytes@.len() ==> bytes@[i] < 128,
    ensures
        r@ == Seq::new(bytes@.len(), |i: int| bytes@[i] as char),
{
    String::from_utf8(bytes).unwrap_or_default()
}

/// Append a length-prefixed ASCII name to the buffer.
fn put_name(out: &mut Vec<u8>, s: &String)
    requires
        valid_name(s@),
    ensures
        final(out)@ == old(out)@ + enc_name(s@),
{
    let sl = s.as_str();
    proof {
        vstd::string::is_ascii_spec_bytes(sl);
    }
    let bytes = sl.as_bytes();
    out.push(bytes.len() as u8);
    let ghost mid = out@;
    let mut i: usize = 0;
    while i < bytes.len()
        invariant
            i <= bytes@.len(),
            bytes@ == ascii_bytes(s@),
            out@ == mid + ascii_bytes(s@).take(i as int),
        decreases bytes@.len() - i,
    {
        out.push(bytes[i]);
        proof {
            assert(out@ =~= mid + ascii_bytes(s@).take(i + 1));
        }
        i = i + 1;
    }
    proof {
        assert(ascii_bytes(s@).take(ascii_bytes(s@).len() as int) =~= ascii_bytes(s@));
        assert(out@ =~= old(out)@ + enc_name(s@));
    }
}

/// Append the eight-byte two's-complement form of a signed value.
fn put_i64(out: &mut Vec<u8>, v: i64)
    ensures
        final(out)@ == old(out)@ + le_bytes(v as u64 as int, 8),
{
    proof {
        lemma_pow256_values();
    }
    let u: u64 = #[verifier::truncate] (v as u64);
    put_le(out, u as u128, 8);
}

/// Read the eight-byte two's-complement value at `pos`.
fn get_i64(buf: &Vec<u8>, pos: usize) -> (r: i64)
    requires
        pos + 8 <= buf@.len(),
    ensures
        r as u64 as int == from_le(buf@.subrange(pos as int, pos + 8)),
{
    proof {
        lemma_pow256_values();
        lemma_from_le_bound(buf@.subrange(pos as int, pos + 8));
    }
    let u: u64 = get_le(buf, pos, 8) as u64;
    proof {
        assert(((u as i64) as u64) == u) by (bit_vector);
    }
    let r: i64 = #[verifier::truncate] (u as i64);
    r
}

/// The exact bytes of an inbound packet.
pub fn encode_client_packet(p: &WsClientPacket) -> (r: Vec<u8>)
    requires
        valid_client_msg(p@),
    ensures
        r@ == enc_client_msg(p@),
{
    let mut out: Vec<u8> = Vec::new();
    match &p.message {
        ClientMessage::JoinGame { name } => {
            out.push(0);
            match name {
                Some(s) => {
                    out.push(1);
                    put_name(&mut out, s);
                    proof {
                        assert(out@ =~= enc_client_msg(p@));
                    }
                },
                None => {
                    out.push(0);
                    proof {
                        assert(out@ =~= enc_client_msg(p@));
                    }
                },
            }
        },
        ClientMessage::LeaveGame => {
            out.push(1);
            proof {
                assert(out@ =~= enc_client_msg(p@));
            }
        },
        ClientMessage::MoveSnake { dir_x, dir_y } => {
            out.push(2);
            put_i64(&mut out, *dir_x);
            put_i64(&mut out, *dir_y);
            proof {
                assert(out@ =~= enc_client_msg(p@));
            }
        },
        ClientMessage::Pong => {
            out.push(3);
            proof {
                assert(out@ =~= enc_client_msg(p@));
            }
        },
        ClientMessage::FoodEat => {
            out.push(4);
            proof {
                assert(out@ =~= enc_client_msg(p@));
            }
        },
    }
    out
}

/// Decode one inbound packet. Succeeds exactly on the well-formed
/// encodings: a returned packet's encoding is the whole input, and an
/// error means no carryable message encodes to the input.
pub fn decode_client_packet(buf: &Vec<u8>) -> (r: Result<WsClientPacket, DecodeError>)
    ensures
        r matches Ok(p) ==> valid_client_msg(p@) && buf@ == enc_client_msg(p@),
        r is Err ==> !(exists|m: ClientMessageV| valid_client_msg(m) && buf@ == enc_client_msg(m)),
{
    if buf.len() == 0 {
        proof {
            assert forall|m: ClientMessageV| valid_client_msg(m) implies buf@ != enc_client_msg(
                m,
            ) by {
                lemma_client_enc_shape(m);
            }
        }
        return Err(DecodeError::Truncated);
    }
    let tag = buf[0];
    if tag == 0 {
        if buf.len() < 2 {
            proof {
                assert forall|m: ClientMessageV| valid_client_msg(m) implies buf@
                    != enc_client_msg(m) by {
                    lemma_client_enc_shape(m);
                }
            }
            return Err(DecodeError::Truncated);
        }
        let flag = buf[1];
        if flag == 0 {
            if buf.len() == 2 {
                let p = WsClientPacket { message: ClientMessage::JoinGame { name: None } };
                proof {
                    assert(buf@ =~= enc_client_msg(p@));
                }
                Ok(p)
            } else {
                proof {
                    assert forall|m: ClientMessageV| valid_client_msg(m) implies buf@
                        != enc_client_msg(m) by {
                        lemma_client_enc_shape(m);
                    }
                }
                Err(DecodeError::BadPayload)
            }
        } else if flag == 1 {
            if buf.len() < 3 {
                proof {
                    assert forall|m: ClientMessageV| valid_client_msg(m) implies buf@
                        != enc_client_msg(m) by {
                        lemma_client_enc_shape(m);
                    }
                }
                return Err(DecodeError::Truncated);
            }
            let len = buf[2] as usize;
            if buf.len() != 3 + len {
                proof {
                    assert forall|m: ClientMessageV| valid_client_msg(m) implies buf@
                        != enc_client_msg(m) by {
                        lemma_client_enc_shape(m);
                    }
                }
                return Err(DecodeError::BadPayload);
            }
            let mut bytes: Vec<u8> = Vec::new();
            let mut j: usize = 0;
            while j < len
                invariant
                    j <= len,
                    len <= 255,
                    buf@.len() == 3 + len,
                    buf@[0] == 0,
                    buf@[1] == 1,
                    buf@[2] == len as u8,
                    bytes@.len() == j,
                    forall|t: int| 0 <= t < j ==> bytes@[t] == buf@[3 + t] && bytes@[t] < 128,
                decreases len - j,
            {
                let b = buf[3 + j];
                if b >= 128 {
                    proof {
                        assert forall|m: ClientMessageV| valid_client_msg(m) implies buf@
                            != enc_client_msg(m) by {
                            lemma_client_enc_shape(m);
                            if buf@ == enc_client_msg(m) {
                                match m {
                                    ClientMessageV::JoinGame { name: Some(s) } => {
                                        assert(enc_join_some_shape(s));
                                        assert(buf@.len() == 3 + s.len());
                                        assert(s.len() == len);
                                        assert(0 <= j < s.len());
                                        assert(buf@[3 + j] == (s[j as int] as u8));
                                        assert((s[j as int] as u8) < 128);
                                        assert(b >= 128);
                                        assert(false);
                                    },
                                    ClientMessageV::MoveSnake { .. } => {
                                        assert(buf@[0] == client_tag(m));
                                        assert(false);
                                    },
                                    _ => {
                                        assert(enc_client_msg(m).len() <= 2);
                                        assert(false);
                                    },
                                }
                            }
                        }
                    }
                    return Err(DecodeError::BadPayload);
                }
                bytes.push(b);
                j = j + 1;
            }
            let ghost byte_seq = bytes@;
            let name = string_from_ascii(bytes);
            let p = WsClientPacket { message: ClientMessage::JoinGame { name: Some(name) } };
            proof {
                assert(name@ == Seq::new(byte_seq.len(), |i: int| byte_seq[i] as char));
                assert forall|i: int| 0 <= i < name@.len() implies '\0' <= #[trigger] name@[i]
                    <= '\u{7f}' by {
                    assert(name@[i] == byte_seq[i] as char);
                    assert(byte_seq[i] < 128);
                }
                assert(valid_name(name@));
                assert(valid_client_msg(p@));
                assert(ascii_bytes(name@) =~= byte_seq) by {
                    assert forall|i: int| 0 <= i < name@.len() implies ascii_bytes(name@)[i]
                        == byte_seq[i] by {
                        assert(name@[i] == byte_seq[i] as char);
                        assert((byte_seq[i] as char) as u8 == byte_seq[i]);
                    }
                }
                assert(buf@ =~= enc_client_msg(p@));
            }
            Ok(p)
        } else {
            proof {
                assert forall|m: ClientMessageV| valid_client_msg(m) implies buf@
                    != enc_client_msg(m) by {
                    lemma_client_enc_shape(m);
                }
            }
            Err(DecodeError::BadPayload)
        }
    } else if tag == 1 || tag == 3 || tag == 4 {
        if buf.len() == 1 {
            let p = if tag == 1 {
                WsClientPacket { message: ClientMessage::LeaveGame }
            } else if tag == 3 {
                WsClientPacket { message: ClientMessage::Pong }
            } else {
                WsClientPacket { message: ClientMessage::FoodEat }
            };
            proof {
                assert(buf@ =~= enc_client_msg(p@));
            }
            Ok(p)
        } else {
            proof {
                assert forall|m: ClientMessageV| valid_client_msg(m) implies buf@
                    != enc_client_msg(m) by {
                    lemma_client_enc_shape(m);
                }
            }
            Err(DecodeError::BadPayload)
        }
    } else if tag == 2 {
        if buf.len() != 17 {
            proof {
                assert forall|m: ClientMessageV| valid_client_msg(m) implies buf@
                    != enc_client_msg(m) by {
                    lemma_client_enc_shape(m);
                }
            }
            return Err(DecodeError::Truncated);
        }
        let dir_x = get_i64(buf, 1);
        let dir_y = get_i64(buf, 9);
        let p = WsClientPacket { message: ClientMessage::MoveSnake { dir_x, dir_y } };
        proof {
            lemma_from_le_le_bytes(buf@.subrange(1, 9));
            lemma_from_le_le_bytes(buf@.subrange(9, 17));
            assert(le_bytes(dir_x as u64 as int, 8) == buf@.subrange(1, 9));
            assert(le_bytes(dir_y as u64 as int, 8) == buf@.subrange(9, 17));
            assert(buf@ =~= seq![2u8] + buf@.subrange(1, 9) + buf@.subrange(9, 17));
            assert(buf@ =~= enc_client_msg(p@));
        }
        Ok(p)
    } else {
        proof {
            assert forall|m: ClientMessageV| valid_client_msg(m) implies buf@ != enc_client_msg(
                m,
            ) by {
                lemma_client_enc_shape(m);
            }
        }
        Err(DecodeError::UnknownTag(tag))
    }
}


/// The exact encoding of a point: two eight-byte coordinates.
pub open spec fn enc_pos(p: Pos) -> Seq<u8> {
    le_bytes(p.x as u64 as int, 8) + le_bytes(p.y as u64 as int, 8)
}

/// The exact encoding of a color: three channel bytes.
pub open spec fn enc_rgb(c: Rgb) -> Seq<u8> {
    seq![c.0, c.1, c.2]
}

/// The concatenated encodings of a point list.
pub open spec fn enc_pos_list(ps: Seq<Pos>) -> Seq<u8>
    decreases ps.len(),
{
    if ps.len() == 0 {
        Seq::<u8>::empty()
    } else {
        enc_pos_list(ps.drop_last()) + enc_pos(ps.last())
    }
}

/// The exact encoding of a full snake record.
pub open spec fn enc_snake(s: SnakeV) -> Seq<u8> {
    le_bytes(s.id as int, 16) + enc_name(s.name) + enc_pos(s.position) + le_bytes(
        s.dir_x as u64 as int,
        8,
    ) + le_bytes(s.dir_y as u64 as int, 8) + le_bytes(s.speed as u64 as int, 8) + le_bytes(
        s.body.len() as int,
        4,
    ) + enc_pos_list(s.body) + le_bytes(s.length as u32 as int, 4) + seq![
        if s.is_dead {
            1u8
        } else {
            0u8
        },
    ] + le_bytes(s.score as u32 as int, 4) + seq![
        if s.is_bot {
            1u8
        } else {
            0u8
        },
    ] + enc_rgb(s.color)
}

/// The exact encoding of one leaderboard row.
pub open spec fn enc_entry(e: LbEntryV) -> Seq<u8> {
    le_bytes(e.id as int, 16) + enc_name(e.name) + le_bytes(e.score as u32 as int, 4)
}

/// The concatenated encodings of a row list.
pub open spec fn enc_entry_list(es: Seq<LbEntryV>) -> Seq<u8>
    decreases es.len(),
{
    if es.len() == 0 {
        Seq::<u8>::empty()
    } else {
        enc_entry_list(es.drop_last()) + enc_entry(es.last())
    }
}

/// The tag byte that starts an outbound message's encoding.
pub open spec fn server_tag(m: ServerMessageV) -> u8 {
    match m {
        ServerMessageV::PlayerInit { .. } => 0,
        ServerMessageV::PlayerJoined { .. } => 1,
        ServerMessageV::PlayerLeft { .. } => 2,
        ServerMessageV::SnakeDied { .. } => 3,
        ServerMessageV::UpdateSnake { .. } => 4,
        ServerMessageV::IncreasePlayerLength { .. } => 5,
        ServerMessageV::DecreasePlayerLength { .. } => 6,
        ServerMessageV::UpdateLeaderboard { .. } => 7,
        ServerMessageV::UpdateMinimap { .. } => 8,
        ServerMessageV::FoodSpawned { .. } => 9,
        ServerMessageV::FoodEaten { .. } => 10,
    }
}

/// The exact encoding of an outbound message.
pub open spec fn enc_server_msg(m: ServerMessageV) -> Seq<u8> {
    seq![server_tag(m)] + (match m {
        ServerMessageV::PlayerInit { snake } => enc_snake(snake),
        ServerMessageV::PlayerJoined { snake } => enc_snake(snake),
        ServerMessageV::PlayerLeft { id } => le_bytes(id as int, 16),
        ServerMessageV::SnakeDied { id } => le_bytes(id as int, 16),
        ServerMessageV::UpdateSnake { snake } => enc_snake(snake),
        ServerMessageV::IncreasePlayerLength { id, amount } => le_bytes(id as int, 16) + le_bytes(
            amount as int,
            4,
        ),
        ServerMessageV::DecreasePlayerLength { id, amount } => le_bytes(id as int, 16) + le_bytes(
            amount as int,
            4,
        ),
        ServerMessageV::UpdateLeaderboard { entries } => le_bytes(entries.len() as u32 as int, 4)
            + enc_entry_list(entries),
        ServerMessageV::UpdateMinimap { positions } => le_bytes(positions.len() as u32 as int, 4)
            + enc_pos_list(positions),
        ServerMessageV::FoodSpawned { positions, color } => enc_rgb(color) + le_bytes(
            positions.len() as u32 as int,
            4,
        ) + enc_pos_list(positions),
        ServerMessageV::FoodEaten { position } => enc_pos(position),
    })
}

/// Append a four-byte count or counter.
fn put_u32(out: &mut Vec<u8>, v: u32)
    ensures
        final(out)@ == old(out)@ + le_bytes(v as int, 4),
{
    proof {
        lemma_pow256_values();
    }
    put_le(out, v as u128, 4);
}

/// Append a sixteen-byte identifier.
fn put_u128(out: &mut Vec<u8>, v: u128)
    ensures
        final(out)@ == old(out)@ + le_bytes(v as int, 16),
{
    proof {
        lemma_pow256_values();
    }
    put_le(out, v, 16);
}

/// Append a point.
fn put_pos(out: &mut Vec<u8>, p: Pos)
    ensures
        final(out)@ == old(out)@ + enc_pos(p),
{
    put_i64(out, p.x);
    put_i64(out, p.y);
    proof {
        assert(out@ =~= old(out)@ + enc_pos(p));
    }
}

/// Append a color.
fn put_rgb(out: &mut Vec<u8>, c: Rgb)
    ensures
        final(out)@ == old(out)@ + enc_rgb(c),
{
    out.push(c.0);
    out.push(c.1);
    out.push(c.2);
    proof {
        assert(out@ =~= old(out)@ + enc_rgb(c));
    }
}

/// Append every point of a list, in order.
fn put_pos_list(out: &mut Vec<u8>, ps: &Vec<Pos>)
    ensures
        final(out)@ == old(out)@ + enc_pos_list(ps@),
{
    let mut i: usize = 0;
    while i < ps.len()
        invariant
            i <= ps@.len(),
            out@ == old(out)@ + enc_pos_list(ps@.take(i as int)),
        decreases ps@.len() - i,
    {
        put_pos(out, ps[i]);
        proof {
            assert(ps@.take(i + 1).drop_last() =~= ps@.take(i as int));
            assert(ps@.take(i + 1).last() == ps@[i as int]);
            assert(out@ =~= old(out)@ + enc_pos_list(ps@.take(i + 1)));
        }
        i = i + 1;
    }
    proof {
        assert(ps@.take(ps@.len() as int) =~= ps@);
    }
}

/// Append a full snake record.
#[verifier::rlimit(100)]
fn put_snake(out: &mut Vec<u8>, s: &Snake)
    requires
        valid_wire_snake(s@),
    ensures
        final(out)@ == old(out)@ + enc_snake(s@),
{
    put_u128(out, s.id);
    put_name(out, &s.name);
    put_pos(out, s.position);
    put_i64(out, s.dir_x);
    put_i64(out, s.dir_y);
    put_i64(out, s.speed);
    put_u32(out, s.body.len() as u32);
    put_pos_list(out, &s.body);
    put_u32(out, s.length);
    out.push(if s.is_dead { 1 } else { 0 });
    put_u32(out, s.score);
    out.push(if s.is_bot { 1 } else { 0 });
    put_rgb(out, s.color);
    proof {
        assert(out@ =~= old(out)@ + enc_snake(s@));
    }
}

/// Append one leaderboard row.
fn put_entry(out: &mut Vec<u8>, e: &LeaderboardEntry)
    requires
        valid_name(e@.name),
    ensures
        final(out)@ == old(out)@ + enc_entry(e@),
{
    put_u128(out, e.id);
    put_name(out, &e.name);
    put_u32(out, e.score);
    proof {
        assert(out@ =~= old(out)@ + enc_entry(e@));
    }
}

/// Append every leaderboard row, in rank order.
fn put_entry_list(out: &mut Vec<u8>, es: &Vec<LeaderboardEntry>)
    requires
        forall|i: int| 0 <= i < es@.len() ==> valid_name((#[trigger] es@[i]@).name),
    ensures
        final(out)@ == old(out)@ + enc_entry_list(entries_view(es@)),
{
    let mut i: usize = 0;
    while i < es.len()
        invariant
            i <= es@.len(),
            forall|k: int| 0 <= k < es@.len() ==> valid_name((#[trigger] es@[k]@).name),
            out@ == old(out)@ + enc_entry_list(entries_view(es@).take(i as int)),
        decreases es@.len() - i,
    {
        put_entry(out, &es[i]);
        proof {
            assert(entries_view(es@).take(i + 1).drop_last() =~= entries_view(es@).take(i as int));
            assert(entries_view(es@).take(i + 1).last() == es@[i as int]@);
            assert(out@ =~= old(out)@ + enc_entry_list(entries_view(es@).take(i + 1)));
        }
        i = i + 1;
    }
    proof {
        assert(entries_view(es@).take(entries_view(es@).len() as int) =~= entries_view(es@));
    }
}

/// The exact bytes of an outbound packet.
pub fn encode_server_packet(p: &WsServerPacket) -> (r: Vec<u8>)
    requires
        valid_server_msg(p@),
    ensures
        r@ == enc_server_msg(p@),
{
    let mut out: Vec<u8> = Vec::new();
    match &p.message {
        ServerMessage::PlayerInit { snake } => {
            out.push(0);
            put_snake(&mut out, snake);
        },
        ServerMessage::PlayerJoined { snake } => {
            out.push(1);
            put_snake(&mut out, snake);
        },
        ServerMessage::PlayerLeft { id } => {
            out.push(2);
            put_u128(&mut out, *id);
        },
        ServerMessage::SnakeDied { id } => {
            out.push(3);
            put_u128(&mut out, *id);
        },
        ServerMessage::UpdateSnake { snake } => {
            out.push(4);
            put_snake(&mut out, snake);
        },
        ServerMessage::IncreasePlayerLength { id, amount } => {
            out.push(5);
            put_u128(&mut out, *id);
            put_u32(&mut out, *amount);
        },
        ServerMessage::DecreasePlayerLength { id, amount } => {
            out.push(6);
            put_u128(&mut out, *id);
            put_u32(&mut out, *amount);
        },
        ServerMessage::UpdateLeaderboard { entries } => {
            out.push(7);
            put_u32(&mut out, entries.len() as u32);
            proof {
                assert forall|i: int| 0 <= i < entries@.len() implies valid_name(
                    (#[trigger] entries@[i]@).name,
                ) by {
                    assert(entries_view(entries@)[i] == entries@[i]@);
                }
            }
            put_entry_list(&mut out, entries);
        },
        ServerMessage::UpdateMinimap { positions } => {
            out.push(8);
            put_u32(&mut out, positions.len() as u32);
            put_pos_list(&mut out, positions);
        },
        ServerMessage::FoodSpawned { positions, color } => {
            out.push(9);
            put_rgb(&mut out, *color);
            put_u32(&mut out, positions.len() as u32);
            put_pos_list(&mut out, positions);
        },
        ServerMessage::FoodEaten { position } => {
            out.push(10);
            put_pos(&mut out, *position);
        },
    }
    proof {
        assert(out@ =~= enc_server_msg(p@));
    }
    out
}

/// The outbound message a domain event maps to.
pub open spec fn message_of_event(e: GameEventV) -> ServerMessageV {
    match e {
        GameEventV::SnakeMoved { snake } => ServerMessageV::UpdateSnake { snake },
        GameEventV::FoodEaten { position } => ServerMessageV::FoodEaten { position },
        GameEventV::SnakeDied { id } => ServerMessageV::SnakeDied { id },
        GameEventV::FoodSpawned { positions, color } => ServerMessageV::FoodSpawned {
            positions,
            color,
        },
        GameEventV::LeaderboardChanged { entries } => ServerMessageV::UpdateLeaderboard { entries },
    }
}

/// The event can be carried by the codec once mapped to its message.
pub open spec fn valid_event(e: GameEventV) -> bool {
    valid_server_msg(message_of_event(e))
}

/// An exact copy of a row list.
fn clone_entries(v: &Vec<LeaderboardEntry>) -> (r: Vec<LeaderboardEntry>)
    ensures
        entries_view(r@) == entries_view(v@),
{
    let mut r: Vec<LeaderboardEntry> = Vec::new();
    let mut i: usize = 0;
    while i < v.len()
        invariant
            i <= v@.len(),
            r@.len() == i,
            forall|k: int| 0 <= k < i ==> r@[k]@ == (#[trigger] v@[k]@),
        decreases v@.len() - i,
    {
        r.push(v[i].clone());
        i = i + 1;
    }
    proof {
        assert(entries_view(r@) =~= entries_view(v@));
    }
    r
}

/// Map a domain event to the outbound packet that carries it.
pub fn packet_of_event(e: &GameEvent) -> (p: WsServerPacket)
    ensures
        p@ == message_of_event(e@),
{
    let message = match e {
        GameEvent::SnakeMoved { snake } => ServerMessage::UpdateSnake { snake: snake.clone() },
        GameEvent::FoodEaten { position } => ServerMessage::FoodEaten { position: *position },
        GameEvent::SnakeDied { id } => ServerMessage::SnakeDied { id: *id },
        GameEvent::FoodSpawned { positions, color } => ServerMessage::FoodSpawned {
            positions: crate::geom::clone_positions(positions),
            color: *color,
        },
        GameEvent::LeaderboardChanged { entries } => ServerMessage::UpdateLeaderboard {
            entries: clone_entries(entries),
        },
    };
    WsServerPacket { message }
}

/// Encode the packet that carries a domain event, after checking that the
/// codec can carry it: names must be ASCII within the length prefix and
/// lists must fit their count prefix. Events produced by the world always
/// pass; the check absorbs anything else defensively.
pub fn encode_event(e: &GameEvent) -> (r: Option<Vec<u8>>)
    ensures
        r matches Some(bytes) ==> valid_event(e@) && bytes@ == enc_server_msg(
            message_of_event(e@),
        ),
        r is None ==> !valid_event(e@),
{
    let p = packet_of_event(e);
    let ok = match &p.message {
        ServerMessage::UpdateSnake { snake } => snake_encodable(snake),
        ServerMessage::UpdateLeaderboard { entries } => entries_encodable(entries),
        ServerMessage::FoodSpawned { positions, .. } => positions.len() <= (u32::MAX as usize),
        _ => true,
    };
    if ok {
        Some(encode_server_packet(&p))
    } else {
        None
    }
}

/// The name fits the wire layout, checked at run time.
fn name_encodable(s: &String) -> (r: bool)
    ensures
        r == valid_name(s@),
{
    let sl = s.as_str();
    if !sl.is_ascii() {
        return false;
    }
    proof {
        vstd::string::is_ascii_spec_bytes(sl);
    }
    sl.as_bytes().len() <= crate::constants::MAX_NAME_LEN
}

/// The snake record fits the wire layout, checked at run time.
fn snake_encodable(s: &Snake) -> (r: bool)
    ensures
        r == valid_wire_snake(s@),
{
    name_encodable(&s.name) && s.body.len() <= (u32::MAX as usize)
}

/// Every row fits the wire layout, checked at run time.
fn entries_encodable(es: &Vec<LeaderboardEntry>) -> (r: bool)
    ensures
        r == (entries_view(es@).len() <= u32::MAX && (forall|i: int|
            0 <= i < entries_view(es@).len() ==> valid_name(
                (#[trigger] entries_view(es@)[i]).name,
            ))),
{
    if es.len() > (u32::MAX as usize) {
        return false;
    }
    let mut i: usize = 0;
    while i < es.len()
        invariant
            i <= es@.len(),
            es@.len() <= u32::MAX,
            forall|k: int| 0 <= k < i ==> valid_name((#[trigger] es@[k]@).name),
        decreases es@.len() - i,
    {
        let e = &es[i];
        if !name_encodable(&e.name) {
            proof {
                assert(entries_view(es@)[i as int] == es@[i as int]@);
                assert(!valid_name(entries_view(es@)[i as int].name));
            }
            return false;
        }
        i = i + 1;
    }
    proof {
        assert forall|k: int| 0 <= k < entries_view(es@).len() implies valid_name(
            (#[trigger] entries_view(es@)[k]).name,
        ) by {
            assert(entries_view(es@)[k] == es@[k]@);
        }
    }
    true
}

} // verus!
