//! Identifiers of interactive controls: a tagged binary frame of the payload,
//! written in the unpadded URL-safe base64 alphabet.
//!
//! The frame is `bincode`'s standard layout of the payload: the variant index
//! as a variable-length integer, then the name's length as one, then the
//! name's UTF-8 bytes. A variable-length integer below 251 is one byte; a larger
//! one is a marker byte (251, 252, 253) and the value in 2, 4 or 8 bytes, little
//! endian.
use base64::engine::general_purpose::URL_SAFE_NO_PAD;
use base64::Engine;
use vstd::arithmetic::power::pow;
use vstd::prelude::*;
use vstd::utf8::{decode_utf8, encode_utf8, valid_utf8};

verus! {

/// The payload of a control's identifier.
#[derive(Debug)]
pub enum CustomId {
    /// The button that shows the full text of the card of this name.
    ButtonClowcardInfo(String),
}

impl CustomId {
    /// The card name that the identifier carries.
    pub open spec fn name(&self) -> Seq<char> {
        match self {
            CustomId::ButtonClowcardInfo(n) => n@,
        }
    }
}

/// The `n` low bytes of `x`, least significant first.
pub open spec fn le_bytes(x: nat, n: nat) -> Seq<u8>
    decreases n,
{
    if n == 0 {
        seq![]
    } else {
        seq![(x % 256) as u8] + le_bytes(x / 256, (n - 1) as nat)
    }
}

/// The number that bytes, least significant first, stand for.
pub open spec fn le_value(b: Seq<u8>) -> nat
    decreases b.len(),
{
    if b.len() == 0 {
        0
    } else {
        b[0] as nat + 256 * le_value(b.drop_first())
    }
}

/// `bincode`'s variable-length integer.
pub open spec fn varint(x: nat) -> Seq<u8> {
    if x < 251 {
        seq![x as u8]
    } else if x <= 0xffff {
        seq![251u8] + le_bytes(x, 2)
    } else if x <= 0xffff_ffff {
        seq![252u8] + le_bytes(x, 4)
    } else {
        seq![253u8] + le_bytes(x, 8)
    }
}

/// The frame of a card name.
pub open spec fn frame(name: Seq<char>) -> Seq<u8> {
    seq![0u8] + varint(encode_utf8(name).len()) + encode_utf8(name)
}

/// The width of the value after a variable-length integer's first byte, and
/// the smallest value that this width is used for.
pub open spec fn varint_width(first: u8) -> (nat, nat) {
    if first == 251 {
        (2, 251)
    } else if first == 252 {
        (4, 0x1_0000)
    } else {
        (8, 0x1_0000_0000)
    }
}

/// Reads the name back from a frame: `None` unless `b` is the frame of a name.
pub open spec fn unframe(b: Seq<u8>) -> Option<Seq<char>> {
    if b.len() < 2 || b[0] != 0 || b[1] > 253 {
        None
    } else {
        let (w, lo) = if b[1] < 251 {
            (0nat, 0nat)
        } else {
            varint_width(b[1])
        };
        let len = if b[1] < 251 {
            b[1] as nat
        } else {
            le_value(b.subrange(2, 2 + w as int))
        };
        if b.len() < 2 + w || len < lo || b.len() != 2 + w + len || !valid_utf8(b.skip(2 + w as int)) {
            None
        } else {
            Some(decode_utf8(b.skip(2 + w as int)))
        }
    }
}

/// The base64 text, URL-safe alphabet without padding, that `URL_SAFE_NO_PAD`
/// encodes the bytes `b` to.
pub uninterp spec fn base64_url_of(b: Seq<u8>) -> Seq<char>;

/// The token of a card name.
pub open spec fn token_of(name: Seq<char>) -> Seq<char> {
    base64_url_of(frame(name))
}

/// Relies on `base64`'s `Engine::encode` with `URL_SAFE_NO_PAD`: the text is a
/// function of the bytes alone.
#[verifier::external_body]
fn base64_encode(b: &Vec<u8>) -> (r: String)
    ensures
        r@ == base64_url_of(b@),
{
    URL_SAFE_NO_PAD.encode(b)
}

/// Relies on `base64`'s `Engine::decode` with `URL_SAFE_NO_PAD`: it inverts
/// `encode`, and since the engine rejects padding and stray trailing bits, the
/// text it accepts is the encoding of the bytes it returns.
#[verifier::external_body]
fn base64_decode(s: &str) -> (r: Option<Vec<u8>>)
    ensures
        forall|b: Seq<u8>| s@ == base64_url_of(b) ==> r is Some && r->0@ == b,
        r is Some ==> s@ == base64_url_of(r->0@),
{
    URL_SAFE_NO_PAD.decode(s).ok()
}

/// Relies on `String::from_utf8`: it succeeds exactly on valid UTF-8 and then
/// holds the characters that the bytes encode.
#[verifier::external_body]
fn string_from_utf8(b: Vec<u8>) -> (r: Option<String>)
    ensures
        r is Some <==> valid_utf8(b@),
        r matches Some(s) ==> s@ == decode_utf8(b@),
{
    String::from_utf8(b).ok()
}

proof fn lemma_le_bytes_len(x: nat, n: nat)
    ensures
        le_bytes(x, n).len() == n,
    decreases n,
{
    if n > 0 {
        lemma_le_bytes_len(x / 256, (n - 1) as nat);
    }
}

proof fn lemma_le_round_trip(x: nat, n: nat)
    requires
        x < pow(256, n),
    ensures
        le_value(le_bytes(x, n)) == x,
    decreases n,
{
    if n == 0 {
        reveal(pow);
    } else {
        reveal(pow);
        let q = x / 256;
        assert(q < pow(256, (n - 1) as nat)) by (nonlinear_arith)
            requires
                x < 256 * pow(256, (n - 1) as nat),
                q == x / 256,
        ;
        lemma_le_round_trip(q, (n - 1) as nat);
        let s = le_bytes(x, n);
        assert(s.drop_first() =~= le_bytes(q, (n - 1) as nat));
    }
}

proof fn lemma_le_value_bound(b: Seq<u8>)
    ensures
        le_value(b) < pow(256, b.len()),
    decreases b.len(),
{
    reveal(pow);
    if b.len() > 0 {
        lemma_le_value_bound(b.drop_first());
        let r = le_value(b.drop_first());
        let p = pow(256, (b.len() - 1) as nat);
        assert(b[0] as nat + 256 * r < 256 * p) by (nonlinear_arith)
            requires
                r < p,
                b[0] < 256,
        ;
    }
}

proof fn lemma_le_canonical(b: Seq<u8>)
    ensures
        le_bytes(le_value(b), b.len()) == b,
    decreases b.len(),
{
    if b.len() > 0 {
        let v = le_value(b);
        let r = le_value(b.drop_first());
        lemma_le_canonical(b.drop_first());
        assert(v % 256 == b[0] as nat && v / 256 == r) by (nonlinear_arith)
            requires
                v == b[0] as nat + 256 * r,
                b[0] < 256,
        ;
        assert(le_bytes(v, b.len()) =~= b);
    }
}

proof fn lemma_pow_256()
    ensures
        pow(256, 2) == 0x1_0000,
        pow(256, 4) == 0x1_0000_0000,
        pow(256, 8) == 0x1_0000_0000_0000_0000,
{
    reveal_with_fuel(pow, 9);
}

/// The frame of a name reads back as that name.
pub proof fn lemma_unframe_frame(name: Seq<char>)
    requires
        encode_utf8(name).len() <= usize::MAX,
    ensures
        unframe(frame(name)) == Some(name),
{
    let u = encode_utf8(name);
    let x = u.len();
    let b = frame(name);
    lemma_pow_256();
    vstd::utf8::encode_utf8_valid_utf8(name);
    vstd::utf8::encode_utf8_decode_utf8(name);
    if x < 251 {
        assert(b.skip(2) =~= u);
    } else {
        let w = varint_width(b[1]).0;
        lemma_le_bytes_len(x, w);
        lemma_le_round_trip(x, w);
        assert(b.subrange(2, 2 + w as int) =~= le_bytes(x, w));
        assert(b.skip(2 + w as int) =~= u);
    }
}

/// Only the frame of a name reads back as that name.
pub proof fn lemma_frame_unframe(b: Seq<u8>)
    requires
        unframe(b) is Some,
    ensures
        frame(unframe(b)->0) == b,
{
    let (w, lo) = if b[1] < 251 {
        (0nat, 0nat)
    } else {
        varint_width(b[1])
    };
    let rest = b.skip(2 + w as int);
    vstd::utf8::decode_utf8_encode_utf8(rest);
    let name = decode_utf8(rest);
    assert(encode_utf8(name) == rest);
    lemma_pow_256();
    if b[1] >= 251 {
        let vb = b.subrange(2, 2 + w as int);
        lemma_le_value_bound(vb);
        lemma_le_canonical(vb);
        assert(b =~= seq![0u8] + (seq![b[1]] + vb) + rest);
    } else {
        assert(b =~= seq![0u8] + seq![b[1]] + rest);
    }
}

/// Appends the `n` low bytes of `x`, least significant first.
fn push_le(out: &mut Vec<u8>, x: u64, n: usize)
    ensures
        final(out)@ == old(out)@ + le_bytes(x as nat, n as nat),
{
    let mut cur = x;
    let mut i: usize = 0;
    while i < n
        invariant
            0 <= i <= n,
            old(out)@ + le_bytes(x as nat, n as nat) == out@ + le_bytes(cur as nat, (n - i) as nat),
        decreases n - i,
    {
        let ghost before = out@;
        out.push((cur % 256) as u8);
        assert(le_bytes(cur as nat, (n - i) as nat) == seq![(cur % 256) as u8] + le_bytes(
            (cur / 256) as nat,
            (n - i - 1) as nat,
        ));
        assert(before + le_bytes(cur as nat, (n - i) as nat) =~= out@ + le_bytes(
            (cur / 256) as nat,
            (n - i - 1) as nat,
        ));
        cur = cur / 256;
        i = i + 1;
    }
}

/// Reads `n` bytes from `start`, least significant first.
fn read_le(b: &Vec<u8>, start: usize, n: usize) -> (r: u64)
    requires
        start + n <= b.len(),
        n <= 8,
    ensures
        r == le_value(b@.subrange(start as int, start + n)),
{
    let mut v: u64 = 0;
    let mut j: usize = n;
    while j > 0
        invariant
            0 <= j <= n <= 8,
            start + n <= b.len(),
            v == le_value(b@.subrange(start + j, start + n)),
        decreases j,
    {
        j = j - 1;
        let ghost sub = b@.subrange(start + j, start + n);
        assert(sub.drop_first() =~= b@.subrange(start + j + 1, start + n));
        proof {
            lemma_le_value_bound(sub);
            lemma_pow_256();
            vstd::arithmetic::power::lemma_pow_increases(256, sub.len(), 8);
        }
        v = v * 256 + b[start + j] as u64;
    }
    v
}

impl CustomId {
    /// The token that identifies a control carrying this payload.
    pub fn to_token(&self) -> (r: String)
        ensures
            r@ == token_of(self.name()),
    {
        let CustomId::ButtonClowcardInfo(name) = self;
        let bytes = name.as_str().as_bytes();
        let n = bytes.len();
        let mut out: Vec<u8> = Vec::new();
        out.push(0u8);
        if n < 251 {
            out.push(n as u8);
        } else if n <= 0xffff {
            out.push(251u8);
            push_le(&mut out, n as u64, 2);
        } else if n <= 0xffff_ffff {
            out.push(252u8);
            push_le(&mut out, n as u64, 4);
        } else {
            out.push(253u8);
            push_le(&mut out, n as u64, 8);
        }
        let ghost head = out@;
        assert(head =~= seq![0u8] + varint(bytes@.len()));
        let mut i: usize = 0;
        while i < n
            invariant
                n == bytes@.len(),
                0 <= i <= n,
                out@ == head + bytes@.take(i as int),
            decreases n - i,
        {
            out.push(bytes[i]);
            assert(bytes@.take(i + 1) =~= bytes@.take(i as int).push(bytes@[i as int]));
            i = i + 1;
        }
        assert(bytes@.take(n as int) =~= bytes@);
        base64_encode(&out)
    }

    /// Reads a token back: the payload whose token it is, or `None` when it is
    /// the token of no payload.
    pub fn from_token(token: &str) -> (r: Option<CustomId>)
        ensures
            forall|name: Seq<char>|
                token@ == token_of(name) && encode_utf8(name).len() <= usize::MAX ==> (r matches Some(id)
                    && id.name() == name),
            r matches Some(id) ==> token@ == token_of(id.name()),
    {
        proof {
            assert forall|name: Seq<char>|
                #[trigger] token_of(name) == token@ && encode_utf8(name).len()
                    <= usize::MAX implies unframe(frame(name)) == Some(name) by {
                lemma_unframe_frame(name);
            }
        }
        let bytes = match base64_decode(token) {
            Some(b) => b,
            None => return None,
        };
        let r = Self::unframe_bytes(&bytes);
        proof {
            if r is Some {
                lemma_frame_unframe(bytes@);
            }
        }
        r
    }

    /// Reads a frame back into its payload.
    fn unframe_bytes(b: &Vec<u8>) -> (r: Option<CustomId>)
        ensures
            match unframe(b@) {
                Some(name) => r matches Some(id) && id.name() == name,
                None => r is None,
            },
    {
        if b.len() < 2 || b[0] != 0 || b[1] > 253 {
            return None;
        }
        let first = b[1];
        let (w, lo): (usize, u64) = if first < 251 {
            (0, 0)
        } else if first == 251 {
            (2, 251)
        } else if first == 252 {
            (4, 0x1_0000)
        } else {
            (8, 0x1_0000_0000)
        };
        if b.len() < 2 + w {
            return None;
        }
        let len: u64 = if first < 251 {
            first as u64
        } else {
            read_le(b, 2, w)
        };
        if len < lo || (b.len() - 2 - w) as u64 != len {
            return None;
        }
        let mut rest: Vec<u8> = Vec::new();
        let mut i: usize = 2 + w;
        while i < b.len()
            invariant
                2 + w <= i <= b.len(),
                rest@ == b@.subrange(2 + w, i as int),
            decreases b.len() - i,
        {
            rest.push(b[i]);
            assert(b@.subrange(2 + w, i + 1) =~= b@.subrange(2 + w, i as int).push(b@[i as int]));
            i = i + 1;
        }
        assert(rest@ =~= b@.skip(2 + w as int));
        match string_from_utf8(rest) {
            Some(name) => Some(CustomId::ButtonClowcardInfo(name)),
            None => None,
        }
    }
}

/// A payload's token reads back as that payload.
pub proof fn lemma_token_round_trip(name: Seq<char>)
    requires
        encode_utf8(name).len() <= usize::MAX,
    ensures
        unframe(frame(name)) == Some(name),
        forall|b: Seq<u8>| unframe(b) == Some(name) ==> b == frame(name),
{
    lemma_unframe_frame(name);
    assert forall|b: Seq<u8>| unframe(b) == Some(name) implies b == frame(name) by {
        lemma_frame_unframe(b);
    }
}

} // verus!
