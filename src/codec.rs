//! Fixed-size, tag-prefixed binary framing of the protocol's opcodes.
use vstd::prelude::*;

verus! {

/// Tag byte of a `Welcome` frame.
pub const TAG_WELCOME: u8 = 0;

/// Tag byte of a `Move` frame.
pub const TAG_MOVE: u8 = 1;

/// Tag byte of a `Disconnect` frame.
pub const TAG_DISCONNECT: u8 = 2;

/// One protocol message.
#[derive(Clone, Copy, Debug, PartialEq, Eq, Structural)]
pub enum Opcode {
    /// Server to client: announces the identity assigned to the connection.
    Welcome { id: u32 },
    /// Either direction: reports a peer's position.
    Move { x: i32, y: i32, id: u32 },
    /// Either direction: announces a peer's departure.
    Disconnect { id: u32 },
}

/// Why a byte sequence is not a frame.
#[derive(Clone, Copy, Debug, PartialEq, Eq, Structural)]
pub enum DecodeError {
    /// The first byte names no opcode.
    UnknownTag,
    /// The sequence is not as long as its tag requires.
    LengthMismatch,
}

/// The four little-endian bytes of `v`.
pub open spec fn le_u32(v: u32) -> Seq<u8> {
    seq![v as u8, (v >> 8u32) as u8, (v >> 16u32) as u8, (v >> 24u32) as u8]
}

/// The four little-endian bytes of `v`, in two's complement.
pub open spec fn le_i32(v: i32) -> Seq<u8> {
    le_u32(v as u32)
}

/// The `u32` whose little-endian bytes are `b0 b1 b2 b3`.
pub open spec fn u32_of_le(b0: u8, b1: u8, b2: u8, b3: u8) -> u32 {
    (b0 as u32) | ((b1 as u32) << 8u32) | ((b2 as u32) << 16u32) | ((b3 as u32) << 24u32)
}

/// The `u32` held in `b[at..at + 4]`, little-endian.
pub open spec fn u32_at(b: Seq<u8>, at: int) -> u32 {
    u32_of_le(b[at], b[at + 1], b[at + 2], b[at + 3])
}

/// The `i32` held in `b[at..at + 4]`, little-endian two's complement.
pub open spec fn i32_at(b: Seq<u8>, at: int) -> i32 {
    u32_at(b, at) as i32
}

/// The whole length of a frame that starts with `tag`, tag byte included.
pub open spec fn frame_len_of(tag: u8) -> Option<nat> {
    if tag == TAG_WELCOME || tag == TAG_DISCONNECT {
        Some(5)
    } else if tag == TAG_MOVE {
        Some(13)
    } else {
        None
    }
}

/// The bytes on the wire for `o`: its tag, then its fields little-endian in
/// declaration order.
pub open spec fn encode(o: Opcode) -> Seq<u8> {
    match o {
        Opcode::Welcome { id } => seq![TAG_WELCOME] + le_u32(id),
        Opcode::Move { x, y, id } => seq![TAG_MOVE] + le_i32(x) + le_i32(y) + le_u32(id),
        Opcode::Disconnect { id } => seq![TAG_DISCONNECT] + le_u32(id),
    }
}

/// What a non-empty byte sequence means as one frame.
pub open spec fn decode(b: Seq<u8>) -> Result<Opcode, DecodeError>
    recommends
        b.len() > 0,
{
    match frame_len_of(b[0]) {
        None => Err(DecodeError::UnknownTag),
        Some(n) => if b.len() != n {
            Err(DecodeError::LengthMismatch)
        } else if b[0] == TAG_WELCOME {
            Ok(Opcode::Welcome { id: u32_at(b, 1) })
        } else if b[0] == TAG_MOVE {
            Ok(Opcode::Move { x: i32_at(b, 1), y: i32_at(b, 5), id: u32_at(b, 9) })
        } else {
            Ok(Opcode::Disconnect { id: u32_at(b, 1) })
        },
    }
}

/// Appends the four little-endian bytes of `v`.
fn put_u32(out: &mut Vec<u8>, v: u32)
    ensures
        final(out)@ == old(out)@ + le_u32(v),
{
    out.push(#[verifier::truncate] (v as u8));
    out.push(#[verifier::truncate] ((v >> 8u32) as u8));
    out.push(#[verifier::truncate] ((v >> 16u32) as u8));
    out.push(#[verifier::truncate] ((v >> 24u32) as u8));
    assert(final(out)@ =~= old(out)@ + le_u32(v));
}

/// Reads the little-endian `u32` at `b[at..at + 4]`.
fn get_u32(b: &[u8], at: usize) -> (r: u32)
    requires
        at + 4 <= b@.len(),
    ensures
        r == u32_at(b@, at as int),
{
    (b[at] as u32) | ((b[at + 1] as u32) << 8u32) | ((b[at + 2] as u32) << 16u32) | ((b[at + 3]
        as u32) << 24u32)
}

impl Opcode {
    /// The frame for this opcode, as it goes on the wire.
    pub fn asbytes(&self) -> (r: Vec<u8>)
        ensures
            r@ == encode(*self),
    {
        let mut bytes: Vec<u8> = Vec::new();
        match *self {
            Opcode::Welcome { id } => {
                bytes.push(TAG_WELCOME);
                put_u32(&mut bytes, id);
            },
            Opcode::Move { x, y, id } => {
                bytes.push(TAG_MOVE);
                put_u32(&mut bytes, #[verifier::truncate] (x as u32));
                put_u32(&mut bytes, #[verifier::truncate] (y as u32));
                put_u32(&mut bytes, id);
            },
            Opcode::Disconnect { id } => {
                bytes.push(TAG_DISCONNECT);
                put_u32(&mut bytes, id);
            },
        }
        assert(bytes@ =~= encode(*self));
        bytes
    }

    /// Reads one whole frame. The first byte selects the opcode; the
    /// sequence must then be exactly as long as that opcode's frame.
    pub fn from_bytes(bytes: &[u8]) -> (r: Result<Opcode, DecodeError>)
        requires
            bytes@.len() > 0,
        ensures
            r == decode(bytes@),
    {
        let len = match Opcode::frame_len(bytes[0]) {
            None => {
                return Err(DecodeError::UnknownTag);
            },
            Some(n) => n,
        };
        if bytes.len() != len {
            return Err(DecodeError::LengthMismatch);
        }
        if bytes[0] == TAG_WELCOME {
            Ok(Opcode::Welcome { id: get_u32(bytes, 1) })
        } else if bytes[0] == TAG_MOVE {
            let x = #[verifier::truncate] (get_u32(bytes, 1) as i32);
            let y = #[verifier::truncate] (get_u32(bytes, 5) as i32);
            Ok(Opcode::Move { x, y, id: get_u32(bytes, 9) })
        } else {
            Ok(Opcode::Disconnect { id: get_u32(bytes, 1) })
        }
    }

    /// Reads one frame that arrived as its tag byte and then the bytes after
    /// it, as a reader takes it off a stream.
    pub fn from_frame(tag: u8, rest: &[u8]) -> (r: Result<Opcode, DecodeError>)
        requires
            rest@.len() < usize::MAX,
        ensures
            r == decode(seq![tag] + rest@),
    {
        let mut bytes: Vec<u8> = Vec::new();
        bytes.push(tag);
        let mut i: usize = 0;
        while i < rest.len()
            invariant
                0 <= i <= rest@.len(),
                bytes@ == seq![tag] + rest@.take(i as int),
            decreases rest@.len() - i,
        {
            bytes.push(rest[i]);
            i += 1;
            assert(bytes@ =~= seq![tag] + rest@.take(i as int));
        }
        assert(rest@.take(rest@.len() as int) =~= rest@);
        Opcode::from_bytes(bytes.as_slice())
    }

    /// The whole length of a frame whose first byte is `tag`, or `None` when
    /// `tag` names no opcode. A reader takes the tag byte, then this many
    /// bytes less one, then hands the lot to `from_bytes`.
    pub fn frame_len(tag: u8) -> (r: Option<usize>)
        ensures
            r matches Some(n) ==> frame_len_of(tag) == Some(n as nat),
            r is None <==> frame_len_of(tag) is None,
    {
        if tag == TAG_WELCOME || tag == TAG_DISCONNECT {
            Some(5)
        } else if tag == TAG_MOVE {
            Some(13)
        } else {
            None
        }
    }
}

proof fn lemma_u32_bytes(v: u32)
    ensures
        u32_of_le(v as u8, (v >> 8u32) as u8, (v >> 16u32) as u8, (v >> 24u32) as u8) == v,
{
    assert(((v as u8) as u32) | ((((v >> 8u32) as u8) as u32) << 8u32) | ((((v >> 16u32) as u8)
        as u32) << 16u32) | ((((v >> 24u32) as u8) as u32) << 24u32) == v) by (bit_vector);
}

proof fn lemma_bytes_u32(b0: u8, b1: u8, b2: u8, b3: u8)
    ensures
        le_u32(u32_of_le(b0, b1, b2, b3)) == seq![b0, b1, b2, b3],
{
    let v = u32_of_le(b0, b1, b2, b3);
    assert(v as u8 == b0 && (v >> 8u32) as u8 == b1 && (v >> 16u32) as u8 == b2 && (v >> 24u32)
        as u8 == b3) by (bit_vector)
        requires
            v == (b0 as u32) | ((b1 as u32) << 8u32) | ((b2 as u32) << 16u32) | ((b3 as u32)
                << 24u32),
    ;
    assert(le_u32(v) =~= seq![b0, b1, b2, b3]);
}

proof fn lemma_i32_u32(x: i32, u: u32)
    ensures
        (x as u32) as i32 == x,
        (u as i32) as u32 == u,
{
    assert((x as u32) as i32 == x) by (bit_vector);
    assert((u as i32) as u32 == u) by (bit_vector);
}

/// Decoding the encoding of any opcode gives that opcode back.
pub proof fn lemma_decode_encode(o: Opcode)
    ensures
        encode(o).len() > 0,
        decode(encode(o)) == Ok::<Opcode, DecodeError>(o),
{
    let b = encode(o);
    match o {
        Opcode::Welcome { id } => {
            lemma_u32_bytes(id);
            assert(b[1] == id as u8);
        },
        Opcode::Move { x, y, id } => {
            lemma_u32_bytes(x as u32);
            lemma_u32_bytes(y as u32);
            lemma_u32_bytes(id);
            lemma_i32_u32(x, 0);
            lemma_i32_u32(y, 0);
            assert(u32_at(b, 1) == x as u32);
            assert(u32_at(b, 5) == y as u32);
            assert(u32_at(b, 9) == id);
        },
        Opcode::Disconnect { id } => {
            lemma_u32_bytes(id);
            assert(b[1] == id as u8);
        },
    }
}

/// A byte sequence that decodes to an opcode is exactly that opcode's
/// encoding: every frame has one reading and one spelling.
pub proof fn lemma_encode_decode(b: Seq<u8>)
    requires
        b.len() > 0,
        decode(b) is Ok,
    ensures
        encode(decode(b)->Ok_0) == b,
{
    let o = decode(b)->Ok_0;
    match o {
        Opcode::Move { x, y, id } => {
            lemma_bytes_u32(b[1], b[2], b[3], b[4]);
            lemma_bytes_u32(b[5], b[6], b[7], b[8]);
            lemma_bytes_u32(b[9], b[10], b[11], b[12]);
            lemma_i32_u32(0, u32_at(b, 1));
            lemma_i32_u32(0, u32_at(b, 5));
            assert(encode(o) =~= b);
        },
        _ => {
            lemma_bytes_u32(b[1], b[2], b[3], b[4]);
            assert(encode(o) =~= b);
        },
    }
}

/// A sequence whose first byte names no opcode is refused as such, and one
/// whose tag is known but whose length is not that tag's is refused for its
/// length.
pub proof fn lemma_decode_rejects(b: Seq<u8>)
    requires
        b.len() > 0,
    ensures
        frame_len_of(b[0]) is None <==> decode(b) == Err::<Opcode, DecodeError>(
            DecodeError::UnknownTag,
        ),
        b[0] != TAG_WELCOME && b[0] != TAG_MOVE && b[0] != TAG_DISCONNECT ==> decode(b) == Err::<
            Opcode,
            DecodeError,
        >(DecodeError::UnknownTag),
        frame_len_of(b[0]) matches Some(n) && b.len() != n ==> decode(b) == Err::<
            Opcode,
            DecodeError,
        >(DecodeError::LengthMismatch),
{
}

} // verus!
