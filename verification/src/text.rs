//! Text helpers shared by the other modules: comparison, trimming, quoting and
//! decimal rendering.

use vstd::prelude::*;
use vstd::string::*;
use vstd::utf8::*;

verus! {

/// The characters with the Unicode property `White_Space`.
pub open spec fn is_white_space(c: char) -> bool {
    let n = c as u32;
    ||| 0x9 <= n <= 0xd
    ||| n == 0x20
    ||| n == 0x85
    ||| n == 0xa0
    ||| n == 0x1680
    ||| 0x2000 <= n <= 0x200a
    ||| n == 0x2028
    ||| n == 0x2029
    ||| n == 0x202f
    ||| n == 0x205f
    ||| n == 0x3000
}

/// `s` without the white space at its front.
pub open spec fn trimmed_front(s: Seq<char>) -> Seq<char>
    decreases s.len(),
{
    if s.len() > 0 && is_white_space(s[0]) {
        trimmed_front(s.drop_first())
    } else {
        s
    }
}

/// `s` without the white space at its back.
pub open spec fn trimmed_back(s: Seq<char>) -> Seq<char>
    decreases s.len(),
{
    if s.len() > 0 && is_white_space(s.last()) {
        trimmed_back(s.drop_last())
    } else {
        s
    }
}

/// `s` without the white space at either end.
pub open spec fn trimmed(s: Seq<char>) -> Seq<char> {
    trimmed_back(trimmed_front(s))
}

/// `str::trim` of the standard library: the slice without its leading and
/// trailing characters that have the Unicode property `White_Space`.
pub assume_specification[ str::trim ](s: &str) -> (r: &str)
    ensures
        r@ == trimmed(s@),
;

proof fn lemma_trimmed_front(s: Seq<char>)
    ensures
        trimmed_front(s).len() > 0 ==> !is_white_space(trimmed_front(s)[0]),
    decreases s.len(),
{
    if s.len() > 0 && is_white_space(s[0]) {
        lemma_trimmed_front(s.drop_first());
    }
}

proof fn lemma_trimmed_back(s: Seq<char>)
    ensures
        trimmed_back(s).len() <= s.len(),
        trimmed_back(s).len() > 0 ==> trimmed_back(s)[0] == s[0] && !is_white_space(
            trimmed_back(s).last(),
        ),
    decreases s.len(),
{
    if s.len() > 0 && is_white_space(s.last()) {
        lemma_trimmed_back(s.drop_last());
    }
}

/// A trimmed text has no white space at its ends, and trimming it again changes
/// nothing.
pub proof fn law_trimmed_twice(s: Seq<char>)
    ensures
        trimmed(trimmed(s)) == trimmed(s),
        trimmed(s).len() > 0 ==> !is_white_space(trimmed(s)[0]) && !is_white_space(
            trimmed(s).last(),
        ),
{
    lemma_trimmed_front(s);
    lemma_trimmed_back(trimmed_front(s));
}

/// Whether a text is white space throughout.
pub open spec fn is_blank(s: Seq<char>) -> bool {
    forall|i: int| 0 <= i < s.len() ==> is_white_space(#[trigger] s[i])
}

proof fn lemma_blank_front(front: Seq<char>, s: Seq<char>)
    requires
        is_blank(front),
    ensures
        trimmed_front(front + s) == trimmed_front(s),
    decreases front.len(),
{
    if front.len() > 0 {
        assert((front + s)[0] == front[0]);
        assert((front + s).drop_first() =~= front.drop_first() + s);
        assert forall|i: int| 0 <= i < front.drop_first().len() implies is_white_space(
            #[trigger] front.drop_first()[i],
        ) by {
            assert(front.drop_first()[i] == front[i + 1]);
        }
        lemma_blank_front(front.drop_first(), s);
    } else {
        assert(front + s =~= s);
    }
}

proof fn lemma_blank_back(s: Seq<char>, back: Seq<char>)
    requires
        is_blank(back),
    ensures
        trimmed_back(s + back) == trimmed_back(s),
    decreases back.len(),
{
    if back.len() > 0 {
        assert((s + back).last() == back[back.len() - 1]);
        assert((s + back).drop_last() =~= s + back.drop_last());
        assert forall|i: int| 0 <= i < back.drop_last().len() implies is_white_space(
            #[trigger] back.drop_last()[i],
        ) by {
            assert(back.drop_last()[i] == back[i]);
        }
        lemma_blank_back(s, back.drop_last());
    } else {
        assert(s + back =~= s);
    }
}

/// The front is trimmed without regard to what follows, unless nothing is left.
proof fn lemma_front_of_joined(s: Seq<char>, back: Seq<char>)
    ensures
        trimmed_front(s + back) == if trimmed_front(s).len() == 0 {
            trimmed_front(back)
        } else {
            trimmed_front(s) + back
        },
    decreases s.len(),
{
    if s.len() == 0 {
        assert(s + back =~= back);
    } else {
        assert((s + back)[0] == s[0]);
        if is_white_space(s[0]) {
            assert((s + back).drop_first() =~= s.drop_first() + back);
            lemma_front_of_joined(s.drop_first(), back);
        }
    }
}

/// White space around a text makes no difference to what is left of it when it
/// is trimmed.
pub proof fn law_white_space_around_is_trimmed(front: Seq<char>, s: Seq<char>, back: Seq<char>)
    requires
        is_blank(front),
        is_blank(back),
    ensures
        trimmed(front + s + back) == trimmed(s),
{
    assert(front + s + back =~= front + (s + back));
    lemma_blank_front(front, s + back);
    lemma_front_of_joined(s, back);
    if trimmed_front(s).len() == 0 {
        lemma_blank_front(back, Seq::empty());
        assert(back + Seq::<char>::empty() =~= back);
        assert(trimmed_front(s) =~= trimmed_front(back));
    } else {
        lemma_blank_back(trimmed_front(s), back);
    }
}

/// What the standard library's `Debug` of a string slice writes for `s`: the
/// text in double quotes, with escapes.
pub uninterp spec fn debug_text(s: Seq<char>) -> Seq<char>;

/// `<str as Debug>::fmt` of the standard library, through `format!`: the text
/// that `{:?}` writes is a function of the characters alone.
#[verifier::external_body]
pub(crate) fn debug_quoted(s: &str) -> (r: String)
    ensures
        r@ == debug_text(s@),
{
    format!("{s:?}")
}

/// The characters of `s`, one by one.
pub fn text_chars(s: &str) -> (r: Vec<char>)
    ensures
        r@ == s@,
{
    let mut r: Vec<char> = Vec::new();
    for c in it: s.chars()
        invariant
            it.seq() == s@,
            r@ == s@.take(it.index()),
    {
        r.push(c);
    }
    assert(s@.take(s@.len() as int) =~= s@);
    r
}

proof fn lemma_encode_injective(a: Seq<char>, b: Seq<char>)
    requires
        encode_utf8(a) == encode_utf8(b),
    ensures
        a == b,
{
    encode_utf8_decode_utf8(a);
    encode_utf8_decode_utf8(b);
}

/// Whether two slices hold the same text.
pub fn same_text(a: &str, b: &str) -> (r: bool)
    ensures
        r == (a@ == b@),
{
    let x: &[u8] = a.as_bytes();
    let y: &[u8] = b.as_bytes();
    if x.len() != y.len() {
        return false;
    }
    let mut i: usize = 0;
    while i < x.len()
        invariant
            x@ == encode_utf8(a@),
            y@ == encode_utf8(b@),
            x@.len() == y@.len(),
            i <= x@.len(),
            forall|j: int| 0 <= j < i ==> x@[j] == y@[j],
        decreases x@.len() - i,
    {
        if x[i] != y[i] {
            return false;
        }
        i += 1;
    }
    proof {
        assert(x@ =~= y@);
        lemma_encode_injective(a@, b@);
    }
    true
}

/// The character of a decimal digit.
pub open spec fn digit_char(d: nat) -> char {
    (0x30 + d) as char
}

/// `n` in decimal, without leading zeros.
pub open spec fn decimal_text(n: nat) -> Seq<char>
    decreases n,
{
    if n < 10 {
        seq![digit_char(n)]
    } else {
        decimal_text(n / 10).push(digit_char(n % 10))
    }
}

fn digit_text(d: u64) -> (r: &'static str)
    requires
        d < 10,
    ensures
        r@ == seq![digit_char(d as nat)],
{
    proof {
        reveal_strlit("0");
        reveal_strlit("1");
        reveal_strlit("2");
        reveal_strlit("3");
        reveal_strlit("4");
        reveal_strlit("5");
        reveal_strlit("6");
        reveal_strlit("7");
        reveal_strlit("8");
        reveal_strlit("9");
    }
    let r: &'static str = match d {
        0 => "0",
        1 => "1",
        2 => "2",
        3 => "3",
        4 => "4",
        5 => "5",
        6 => "6",
        7 => "7",
        8 => "8",
        _ => "9",
    };
    assert(r@ =~= seq![digit_char(d as nat)]);
    r
}

/// A number in decimal.
pub fn decimal_string(n: u64) -> (r: String)
    ensures
        r@ == decimal_text(n as nat),
    decreases n,
{
    if n < 10 {
        digit_text(n).to_string()
    } else {
        let mut r = decimal_string(n / 10);
        r.append(digit_text(n % 10));
        assert(r@ =~= decimal_text(n as nat));
        r
    }
}

/// The number that decimal digits stand for.
pub open spec fn decimal_value(digits: Seq<char>) -> nat
    decreases digits.len(),
{
    if digits.len() == 0 {
        0
    } else {
        10 * decimal_value(digits.drop_last()) + (digits.last() as int - 0x30) as nat
    }
}

/// A number in decimal is made of digits, starts with a zero only where it is
/// zero, and reads back as the number.
pub proof fn law_decimals_read_back(n: nat)
    ensures
        ({
            let digits = decimal_text(n);
            &&& digits.len() > 0
            &&& decimal_value(digits) == n
            &&& forall|i: int|
                0 <= i < digits.len() ==> 0x30 <= (#[trigger] digits[i]) as int <= 0x39
            &&& digits[0] as int == 0x30 ==> n == 0
            &&& n > 0 ==> digits[0] as int > 0x30
        }),
    decreases n,
{
    let digits = decimal_text(n);
    if n < 10 {
        assert(digits =~= seq![digit_char(n)]);
        assert(digits.drop_last() =~= Seq::<char>::empty());
        assert(decimal_value(digits.drop_last()) == 0);
        assert(digits.last() as int == 0x30 + n);
    } else {
        law_decimals_read_back(n / 10);
        let front = decimal_text(n / 10);
        assert(digits.drop_last() =~= front);
        assert(digits.last() as int == 0x30 + n % 10);
        assert(digits[0] == front[0]);
        assert forall|i: int| 0 <= i < digits.len() implies 0x30 <= (#[trigger] digits[i]) as int
            <= 0x39 by {
            if i < front.len() {
                assert(digits[i] == front[i]);
            }
        }
    }
}

proof fn lemma_front_is_blank(s: Seq<char>)
    ensures
        ({
            let cut = s.len() - trimmed_front(s).len();
            &&& 0 <= cut <= s.len()
            &&& is_blank(s.take(cut))
            &&& s.skip(cut) == trimmed_front(s)
        }),
    decreases s.len(),
{
    let cut = s.len() - trimmed_front(s).len();
    if s.len() > 0 && is_white_space(s[0]) {
        let rest = s.drop_first();
        lemma_front_is_blank(rest);
        assert forall|i: int| 0 <= i < cut implies is_white_space(#[trigger] s.take(cut)[i]) by {
            if i > 0 {
                assert(rest.take(cut - 1)[i - 1] == s[i]);
            }
        }
        assert(s.skip(cut) =~= rest.skip(cut - 1));
    } else {
        assert(s.skip(0) =~= s);
    }
}

proof fn lemma_back_is_blank(s: Seq<char>)
    ensures
        ({
            let left = trimmed_back(s).len() as int;
            &&& left <= s.len()
            &&& is_blank(s.skip(left))
            &&& s.take(left) == trimmed_back(s)
        }),
    decreases s.len(),
{
    let left = trimmed_back(s).len() as int;
    if s.len() > 0 && is_white_space(s.last()) {
        let front = s.drop_last();
        lemma_back_is_blank(front);
        assert forall|i: int| 0 <= i < s.len() - left implies is_white_space(
            #[trigger] s.skip(left)[i],
        ) by {
            if left + i < front.len() {
                assert(front.skip(left)[i] == s[left + i]);
            }
        }
        assert(s.take(left) =~= front.take(left));
    } else {
        assert(s.take(left) =~= s);
    }
}

/// Trimming takes nothing away but white space, and that from the ends alone.
pub proof fn law_trimming_takes_white_space_alone(s: Seq<char>)
    ensures
        exists|front: Seq<char>, back: Seq<char>|
            is_blank(front) && is_blank(back) && s == #[trigger] (front + trimmed(s) + back),
{
    lemma_front_is_blank(s);
    let rest = trimmed_front(s);
    lemma_back_is_blank(rest);
    let front = s.take(s.len() - rest.len());
    let back = rest.skip(trimmed(s).len() as int);
    assert(s =~= front + trimmed(s) + back) by {
        assert(s =~= front + rest);
        assert(rest =~= trimmed(s) + back);
    }
}

} // verus!
