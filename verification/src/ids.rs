//! The identities of remotes: a digest of what the remote is and of values that
//! differ from draw to draw.

use sha2::{Digest, Sha256};
use vstd::prelude::*;
use vstd::string::*;
use vstd::utf8::encode_utf8;

verus! {

/// The identity of a remote.
#[derive(Debug, PartialEq, Eq, Hash)]
pub struct InstanceId(pub String);

impl View for InstanceId {
    type V = Seq<char>;

    open spec fn view(&self) -> Seq<char> {
        self.0@
    }
}

impl Clone for InstanceId {
    fn clone(&self) -> (r: Self)
        ensures
            r == *self,
    {
        InstanceId(self.0.clone())
    }
}

impl InstanceId {
    /// The identity as text.
    pub fn as_str(&self) -> (r: &str)
        ensures
            r@ == self@,
    {
        self.0.as_str()
    }
}

/// What makes one draw of an identity differ from another: the process, the
/// nanoseconds since the Unix epoch, and a number that grows with each draw.
#[derive(Debug, Clone, Copy, PartialEq, Eq, Structural)]
pub struct IdDraw {
    pub process: u32,
    pub nanos: u128,
    pub nonce: u64,
}

/// The SHA-256 digest of a sequence of bytes.
pub uninterp spec fn sha256(data: Seq<u8>) -> Seq<u8>;

/// `sha2::Sha256::digest`: the digest is a function of the bytes alone, and is
/// 32 bytes long.
#[verifier::external_body]
fn sha256_digest(data: &[u8]) -> (r: Vec<u8>)
    ensures
        r@ == sha256(data@),
        r@.len() == 32,
{
    Sha256::digest(data).to_vec()
}

/// The `len` low bytes of `n`, the lowest first.
pub open spec fn little_endian(n: nat, len: nat) -> Seq<u8>
    decreases len,
{
    if len == 0 {
        seq![]
    } else {
        seq![(n % 256) as u8] + little_endian(n / 256, (len - 1) as nat)
    }
}

fn push_little_endian(out: &mut Vec<u8>, n: u128, len: usize)
    ensures
        final(out)@ == old(out)@ + little_endian(n as nat, len as nat),
    decreases len,
{
    if len > 0 {
        out.push((n % 256) as u8);
        push_little_endian(out, n / 256, len - 1);
    }
    assert(out@ =~= old(out)@ + little_endian(n as nat, len as nat));
}

fn push_bytes(out: &mut Vec<u8>, bytes: &[u8])
    ensures
        final(out)@ == old(out)@ + bytes@,
{
    let ghost start = out@;
    let mut i: usize = 0;
    assert(start + bytes@.take(0) =~= start);
    while i < bytes.len()
        invariant
            i <= bytes@.len(),
            out@ == start + bytes@.take(i as int),
        decreases bytes@.len() - i,
    {
        out.push(bytes[i]);
        i += 1;
        assert(out@ =~= start + bytes@.take(i as int));
    }
    assert(bytes@.take(i as int) =~= bytes@);
}

/// The bytes that an identity is the digest of: the target and the session,
/// each closed by a zero byte, then the draw.
pub open spec fn id_material(
    target: Seq<char>,
    session: Option<Seq<char>>,
    draw: IdDraw,
) -> Seq<u8> {
    let session = match session {
        Some(s) => s,
        None => seq![],
    };
    encode_utf8(target) + seq![0u8] + encode_utf8(session) + seq![0u8] + little_endian(
        draw.process as nat,
        4,
    ) + little_endian(draw.nanos as nat, 16) + little_endian(draw.nonce as nat, 8)
}

/// The lower-case hexadecimal digit of a number below sixteen.
pub open spec fn hex_char(d: nat) -> char {
    if d < 10 {
        (0x30 + d) as char
    } else {
        (0x57 + d) as char
    }
}

/// Bytes in lower-case hexadecimal, two digits each.
pub open spec fn hex_text(bytes: Seq<u8>) -> Seq<char>
    decreases bytes.len(),
{
    if bytes.len() == 0 {
        seq![]
    } else {
        hex_text(bytes.drop_last()).push(hex_char((bytes.last() / 16) as nat)).push(
            hex_char((bytes.last() % 16) as nat),
        )
    }
}

/// Whether a character is a lower-case hexadecimal digit.
pub open spec fn is_hex_digit(c: char) -> bool {
    let n = c as u32;
    0x30 <= n <= 0x39 || 0x61 <= n <= 0x66
}

/// Whether a text is the mark of a remote and sixteen lower-case hexadecimal
/// digits.
pub open spec fn is_remote_id(id: Seq<char>) -> bool {
    &&& id.len() == 23
    &&& id.take(7) == "remote-"@
    &&& forall|i: int| 7 <= i < 23 ==> is_hex_digit(#[trigger] id[i])
}

/// The identity that a draw gives: a mark, and the first eight bytes of the
/// digest in hexadecimal.
pub open spec fn drawn_id(
    target: Seq<char>,
    session: Option<Seq<char>>,
    draw: IdDraw,
) -> Seq<char> {
    "remote-"@ + hex_text(sha256(id_material(target, session, draw)).take(8))
}

fn hex_digit(d: u8) -> (r: &'static str)
    requires
        d < 16,
    ensures
        r@ == seq![hex_char(d as nat)],
{
    proof {
        reveal_strlit("0");
        reveal_strlit("1");
        reveal_strlit("2");
        reveal_strlit("3");
        reveal_strlit("4");
        reveal_strlit("5");
        reveal_strlit("6");
        reveal_strlit("7");
        reveal_strlit("8");
        reveal_strlit("9");
        reveal_strlit("a");
        reveal_strlit("b");
        reveal_strlit("c");
        reveal_strlit("d");
        reveal_strlit("e");
        reveal_strlit("f");
    }
    let r: &'static str = match d {
        0 => "0",
        1 => "1",
        2 => "2",
        3 => "3",
        4 => "4",
        5 => "5",
        6 => "6",
        7 => "7",
        8 => "8",
        9 => "9",
        10 => "a",
        11 => "b",
        12 => "c",
        13 => "d",
        14 => "e",
        _ => "f",
    };
    assert(r@ =~= seq![hex_char(d as nat)]);
    r
}

/// The first `len` bytes in lower-case hexadecimal.
pub fn hex_string(bytes: &[u8], len: usize) -> (r: String)
    requires
        len <= bytes@.len(),
    ensures
        r@ == hex_text(bytes@.take(len as int)),
{
    let mut r = String::new();
    let mut i: usize = 0;
    while i < len
        invariant
            i <= len <= bytes@.len(),
            r@ == hex_text(bytes@.take(i as int)),
        decreases len - i,
    {
        let ghost before = r@;
        r.append(hex_digit(bytes[i] / 16));
        r.append(hex_digit(bytes[i] % 16));
        proof {
            assert(bytes@.take(i + 1).drop_last() =~= bytes@.take(i as int));
            assert(bytes@.take(i + 1).last() == bytes@[i as int]);
            assert(r@ =~= before.push(hex_char((bytes@[i as int] / 16) as nat)).push(
                hex_char((bytes@[i as int] % 16) as nat),
            ));
        }
        i += 1;
    }
    r
}

/// The identity that a digest gives.
pub fn id_from_digest(digest: &[u8]) -> (r: InstanceId)
    requires
        digest@.len() >= 8,
    ensures
        r@ == "remote-"@ + hex_text(digest@.take(8)),
        is_remote_id(r@),
{
    proof {
        law_id_shape(digest@);
    }
    InstanceId("remote-".to_string().concat(hex_string(digest, 8).as_str()))
}

/// The identity that a draw gives a remote.
pub fn draw_id(target: &str, session: Option<&str>, draw: IdDraw) -> (r: InstanceId)
    ensures
        r@ == drawn_id(
            target@,
            match session {
                Some(s) => Some(s@),
                None => None,
            },
            draw,
        ),
        is_remote_id(r@),
{
    let mut material: Vec<u8> = Vec::new();
    push_bytes(&mut material, target.as_bytes());
    material.push(0);
    let ghost text: Option<Seq<char>> = match session {
        Some(s) => Some(s@),
        None => None,
    };
    match session {
        Some(session) => {
            push_bytes(&mut material, session.as_bytes());
        },
        None => {
            assert(encode_utf8(Seq::<char>::empty()) =~= Seq::<u8>::empty());
        },
    }
    material.push(0);
    push_little_endian(&mut material, draw.process as u128, 4);
    push_little_endian(&mut material, draw.nanos, 16);
    push_little_endian(&mut material, draw.nonce as u128, 8);
    assert(material@ =~= id_material(target@, text, draw));
    id_from_digest(sha256_digest(material.as_slice()).as_slice())
}

proof fn lemma_hex_text(bytes: Seq<u8>)
    ensures
        hex_text(bytes).len() == 2 * bytes.len(),
        forall|i: int| 0 <= i < 2 * bytes.len() ==> is_hex_digit(#[trigger] hex_text(bytes)[i]),
    decreases bytes.len(),
{
    if bytes.len() > 0 {
        lemma_hex_text(bytes.drop_last());
        let front = hex_text(bytes.drop_last());
        assert forall|i: int| 0 <= i < 2 * bytes.len() implies is_hex_digit(
            #[trigger] hex_text(bytes)[i],
        ) by {
            if i < front.len() {
                assert(hex_text(bytes)[i] == front[i]);
            }
        }
    }
}

/// An identity is the mark and sixteen lower-case hexadecimal digits, whatever
/// the digest.
pub proof fn law_id_shape(digest: Seq<u8>)
    requires
        digest.len() >= 8,
    ensures
        is_remote_id("remote-"@ + hex_text(digest.take(8))),
{
    reveal_strlit("remote-");
    let digits = hex_text(digest.take(8));
    let id = "remote-"@ + digits;
    lemma_hex_text(digest.take(8));
    assert(id.take(7) =~= "remote-"@);
    assert forall|i: int| 7 <= i < 23 implies is_hex_digit(#[trigger] id[i]) by {
        assert(id[i] == digits[i - 7]);
    }
}

proof fn lemma_little_endian_len(n: nat, len: nat)
    ensures
        little_endian(n, len).len() == len,
    decreases len,
{
    if len > 0 {
        lemma_little_endian_len(n / 256, (len - 1) as nat);
    }
}

proof fn lemma_little_endian_injective(a: nat, b: nat, len: nat)
    requires
        little_endian(a, len) == little_endian(b, len),
        a < vstd::arithmetic::power::pow(256, len),
        b < vstd::arithmetic::power::pow(256, len),
    ensures
        a == b,
    decreases len,
{
    reveal(vstd::arithmetic::power::pow);
    if len > 0 {
        let x = little_endian(a, len);
        let y = little_endian(b, len);
        assert(x[0] == (a % 256) as u8);
        assert(y[0] == (b % 256) as u8);
        assert(a % 256 == b % 256);
        assert(x.skip(1) =~= little_endian(a / 256, (len - 1) as nat));
        assert(y.skip(1) =~= little_endian(b / 256, (len - 1) as nat));
        let rest = vstd::arithmetic::power::pow(256, (len - 1) as nat);
        assert(vstd::arithmetic::power::pow(256, len) == 256 * rest);
        assert(a / 256 < rest && b / 256 < rest);
        lemma_little_endian_injective(a / 256, b / 256, (len - 1) as nat);
    }
}

proof fn lemma_draw_bytes_injective(a: IdDraw, b: IdDraw)
    requires
        little_endian(a.process as nat, 4) == little_endian(b.process as nat, 4),
        little_endian(a.nanos as nat, 16) == little_endian(b.nanos as nat, 16),
        little_endian(a.nonce as nat, 8) == little_endian(b.nonce as nat, 8),
    ensures
        a == b,
{
    reveal_with_fuel(vstd::arithmetic::power::pow, 17);
    assert(vstd::arithmetic::power::pow(256, 4) == 0x1_0000_0000);
    assert(vstd::arithmetic::power::pow(256, 8) == 0x1_0000_0000_0000_0000);
    assert(vstd::arithmetic::power::pow(256, 16) == 0x1_0000_0000_0000_0000_0000_0000_0000_0000);
    lemma_little_endian_injective(a.process as nat, b.process as nat, 4);
    lemma_little_endian_injective(a.nanos as nat, b.nanos as nat, 16);
    lemma_little_endian_injective(a.nonce as nat, b.nonce as nat, 8);
}

proof fn lemma_encode_injective(a: Seq<char>, b: Seq<char>)
    requires
        encode_utf8(a) == encode_utf8(b),
    ensures
        a == b,
{
    vstd::utf8::encode_utf8_decode_utf8(a);
    vstd::utf8::encode_utf8_decode_utf8(b);
}

/// One draw for two targets, or for two sessions of one target, is the digest of
/// different bytes.
pub proof fn law_remotes_differ(
    target: Seq<char>,
    other_target: Seq<char>,
    session: Seq<char>,
    other_session: Seq<char>,
    draw: IdDraw,
)
    ensures
        target != other_target ==> id_material(target, Some(session), draw) != id_material(
            other_target,
            Some(session),
            draw,
        ),
        session != other_session ==> id_material(target, Some(session), draw) != id_material(
            target,
            Some(other_session),
            draw,
        ),
        id_material(target, None, draw) == id_material(target, Some(seq![]), draw),
{
    let x = id_material(target, Some(session), draw);
    let y = id_material(other_target, Some(session), draw);
    let z = id_material(target, Some(other_session), draw);
    let a = encode_utf8(target).len() as int;
    let b = encode_utf8(session).len() as int;
    lemma_little_endian_len(draw.process as nat, 4);
    lemma_little_endian_len(draw.nanos as nat, 16);
    lemma_little_endian_len(draw.nonce as nat, 8);
    assert(x.len() == a + b + 30);
    assert(y.len() == encode_utf8(other_target).len() + b + 30);
    assert(z.len() == a + encode_utf8(other_session).len() + 30);
    if x == y {
        assert(encode_utf8(other_target).len() == a);
        assert(x.take(a) =~= encode_utf8(target));
        assert(y.take(a) =~= encode_utf8(other_target));
        lemma_encode_injective(target, other_target);
    }
    if x == z {
        assert(encode_utf8(other_session).len() == b);
        assert(x.subrange(a + 1, a + 1 + b) =~= encode_utf8(session));
        assert(z.subrange(a + 1, a + 1 + b) =~= encode_utf8(other_session));
        lemma_encode_injective(session, other_session);
    }
}

proof fn lemma_little_endian_byte(n: nat, len: nat, i: nat)
    requires
        i < len,
    ensures
        little_endian(n, len).len() == len,
        little_endian(n, len)[i as int] as int == (n as int
            / vstd::arithmetic::power::pow(256, i)) % 256,
    decreases len,
{
    lemma_little_endian_len(n, len);
    reveal(vstd::arithmetic::power::pow);
    if i == 0 {
        assert(vstd::arithmetic::power::pow(256, 0) == 1);
        assert(n as int / 1 == n);
    } else {
        let before = (i - 1) as nat;
        lemma_little_endian_byte(n / 256, (len - 1) as nat, before);
        vstd::arithmetic::power::lemma_pow_positive(256, before);
        let rest = vstd::arithmetic::power::pow(256, before);
        vstd::arithmetic::div_mod::lemma_div_denominator(n as int, 256, rest);
        assert(vstd::arithmetic::power::pow(256, i) == 256 * rest);
        assert(little_endian(n, len)[i as int] == little_endian(n / 256, (len - 1) as nat)[i - 1]);
    }
}

/// The bytes that an identity is drawn from are the target and the session in
/// UTF-8, each closed by a zero byte, and then the process in four bytes, the time
/// in sixteen, and the number of the draw in eight, the lowest byte first.
pub proof fn law_material_is_laid_out(
    target: Seq<char>,
    session: Seq<char>,
    draw: IdDraw,
    i: nat,
)
    ensures
        ({
            let material = id_material(target, Some(session), draw);
            let a = encode_utf8(target).len() as int;
            let b = a + 1 + encode_utf8(session).len();
            let power = vstd::arithmetic::power::pow(256, i);
            &&& material.len() == b + 29
            &&& material.take(a) == encode_utf8(target)
            &&& material[a] == 0
            &&& material.subrange(a + 1, b) == encode_utf8(session)
            &&& material[b] == 0
            &&& i < 4 ==> material[b + 1 + i] as int == (draw.process as int / power) % 256
            &&& i < 16 ==> material[b + 5 + i] as int == (draw.nanos as int / power) % 256
            &&& i < 8 ==> material[b + 21 + i] as int == (draw.nonce as int / power) % 256
        }),
{
    let material = id_material(target, Some(session), draw);
    let a = encode_utf8(target).len() as int;
    let b = a + 1 + encode_utf8(session).len();
    lemma_little_endian_len(draw.process as nat, 4);
    lemma_little_endian_len(draw.nanos as nat, 16);
    lemma_little_endian_len(draw.nonce as nat, 8);
    assert(material.take(a) =~= encode_utf8(target));
    assert(material.subrange(a + 1, b) =~= encode_utf8(session));
    if i < 4 {
        lemma_little_endian_byte(draw.process as nat, 4, i);
        assert(material[b + 1 + i] == little_endian(draw.process as nat, 4)[i as int]);
    }
    if i < 16 {
        lemma_little_endian_byte(draw.nanos as nat, 16, i);
        assert(material[b + 5 + i] == little_endian(draw.nanos as nat, 16)[i as int]);
    }
    if i < 8 {
        lemma_little_endian_byte(draw.nonce as nat, 8, i);
        assert(material[b + 21 + i] == little_endian(draw.nonce as nat, 8)[i as int]);
    }
}

/// The number that a lower-case hexadecimal digit stands for.
pub open spec fn hex_value(c: char) -> int {
    if c as int <= 0x39 {
        c as int - 0x30
    } else {
        c as int - 0x57
    }
}

proof fn lemma_hex_pairs(bytes: Seq<u8>, i: int)
    requires
        0 <= i < bytes.len(),
    ensures
        hex_text(bytes).len() == 2 * bytes.len(),
        16 * hex_value(hex_text(bytes)[2 * i]) + hex_value(hex_text(bytes)[2 * i + 1]) == bytes[i],
    decreases bytes.len(),
{
    lemma_hex_text(bytes);
    let front = bytes.drop_last();
    lemma_hex_text(front);
    let text = hex_text(bytes);
    if i < front.len() {
        lemma_hex_pairs(front, i);
        assert(text[2 * i] == hex_text(front)[2 * i]);
        assert(text[2 * i + 1] == hex_text(front)[2 * i + 1]);
    } else {
        let last = bytes.last();
        assert(text[2 * i] == hex_char((last / 16) as nat));
        assert(text[2 * i + 1] == hex_char((last % 16) as nat));
    }
}

/// The digits of an identity, in pairs, are the first eight bytes of the digest of
/// the remote and the draw, in their order.
pub proof fn law_ids_show_the_digest(
    target: Seq<char>,
    session: Option<Seq<char>>,
    draw: IdDraw,
    i: int,
)
    requires
        0 <= i < 8,
        sha256(id_material(target, session, draw)).len() >= 8,
    ensures
        ({
            let id = drawn_id(target, session, draw);
            &&& is_remote_id(id)
            &&& 16 * hex_value(id[7 + 2 * i]) + hex_value(id[8 + 2 * i]) == sha256(
                id_material(target, session, draw),
            )[i]
        }),
{
    let digest = sha256(id_material(target, session, draw));
    let id = drawn_id(target, session, draw);
    let digits = hex_text(digest.take(8));
    law_id_shape(digest);
    lemma_hex_pairs(digest.take(8), i);
    reveal_strlit("remote-");
    assert(id[7 + 2 * i] == digits[2 * i]);
    assert(id[8 + 2 * i] == digits[2 * i + 1]);
}

/// Two draws for one remote that differ in process, time or number are digests
/// of different bytes.
pub proof fn law_draws_differ(
    target: Seq<char>,
    session: Option<Seq<char>>,
    a: IdDraw,
    b: IdDraw,
)
    requires
        a != b,
    ensures
        id_material(target, session, a) != id_material(target, session, b),
{
    let x = id_material(target, session, a);
    let y = id_material(target, session, b);
    if x == y {
        lemma_little_endian_len(a.process as nat, 4);
        lemma_little_endian_len(b.process as nat, 4);
        lemma_little_endian_len(a.nanos as nat, 16);
        lemma_little_endian_len(b.nanos as nat, 16);
        lemma_little_endian_len(a.nonce as nat, 8);
        lemma_little_endian_len(b.nonce as nat, 8);
        let n = x.len();
        assert(x.subrange(n - 8, n as int) =~= little_endian(a.nonce as nat, 8));
        assert(y.subrange(n - 8, n as int) =~= little_endian(b.nonce as nat, 8));
        assert(x.subrange(n - 24, n - 8) =~= little_endian(a.nanos as nat, 16));
        assert(y.subrange(n - 24, n - 8) =~= little_endian(b.nanos as nat, 16));
        assert(x.subrange(n - 28, n - 24) =~= little_endian(a.process as nat, 4));
        assert(y.subrange(n - 28, n - 24) =~= little_endian(b.process as nat, 4));
        lemma_draw_bytes_injective(a, b);
    }
}

} // verus!
