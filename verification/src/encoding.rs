//! Base64 as the store uses it to turn a graph's id into a file name.

use base64::Engine;
use vstd::prelude::*;

verus! {

/// The character that stands for the 6-bit group `v` in the standard
/// alphabet: `A`-`Z`, `a`-`z`, `0`-`9`, `+`, `/`.
pub open spec fn sextet_char(v: nat) -> char {
    if v < 26 {
        (65 + v) as char
    } else if v < 52 {
        (71 + v) as char
    } else if v < 62 {
        (v - 4) as char
    } else if v == 62 {
        '+'
    } else {
        '/'
    }
}

/// Whether `c` belongs to the standard alphabet.
pub open spec fn is_sextet_char(c: char) -> bool {
    ||| 'A' <= c <= 'Z'
    ||| 'a' <= c <= 'z'
    ||| '0' <= c <= '9'
    ||| c == '+'
    ||| c == '/'
}

/// The base64 encoding of `bytes` with the standard alphabet and padding:
/// each group of three bytes gives four characters, and a last group of one
/// or two bytes is filled up with `=`.
pub open spec fn base64(bytes: Seq<u8>) -> Seq<char>
    decreases bytes.len(),
{
    if bytes.len() == 0 {
        Seq::empty()
    } else if bytes.len() == 1 {
        seq![
            sextet_char(bytes[0] as nat / 4),
            sextet_char(bytes[0] as nat % 4 * 16),
            '=',
            '=',
        ]
    } else if bytes.len() == 2 {
        seq![
            sextet_char(bytes[0] as nat / 4),
            sextet_char(bytes[0] as nat % 4 * 16 + bytes[1] as nat / 16),
            sextet_char(bytes[1] as nat % 16 * 4),
            '=',
        ]
    } else {
        seq![
            sextet_char(bytes[0] as nat / 4),
            sextet_char(bytes[0] as nat % 4 * 16 + bytes[1] as nat / 16),
            sextet_char(bytes[1] as nat % 16 * 4 + bytes[2] as nat / 64),
            sextet_char(bytes[2] as nat % 64),
        ] + base64(bytes.skip(3))
    }
}

/// `Engine::encode` of the base64 crate, on its engine `STANDARD`: the
/// encoding of RFC 4648 with the standard alphabet, padded with `=`. The
/// length computation inside cannot overflow, since no slice is longer than
/// `isize::MAX` bytes.
#[verifier::external_body]
pub(crate) fn encode_standard(input: &[u8]) -> (text: String)
    ensures
        text@ == base64(input@),
{
    base64::engine::general_purpose::STANDARD.encode(input)
}

/// A character of the standard alphabet is no padding.
pub proof fn lemma_sextet_char(v: nat)
    requires
        v < 64,
    ensures
        is_sextet_char(sextet_char(v)),
        sextet_char(v) != '=',
{
}

/// Different 6-bit groups have different characters.
pub proof fn lemma_sextet_injective(u: nat, v: nat)
    requires
        u < 64,
        v < 64,
        sextet_char(u) == sextet_char(v),
    ensures
        u == v,
{
}

/// Every three bytes, a last incomplete group too, give four characters.
pub proof fn lemma_base64_len(bytes: Seq<u8>)
    ensures
        base64(bytes).len() == 4 * ((bytes.len() + 2) / 3),
    decreases bytes.len(),
{
    if bytes.len() >= 3 {
        lemma_base64_len(bytes.skip(3));
    }
}

/// An encoding holds characters of the standard alphabet and `=` only, and
/// no `=` where the bytes come in whole groups of three.
pub proof fn lemma_base64_chars(bytes: Seq<u8>, i: int)
    requires
        0 <= i < base64(bytes).len(),
    ensures
        is_sextet_char(base64(bytes)[i]) || base64(bytes)[i] == '=',
        bytes.len() % 3 == 0 ==> is_sextet_char(base64(bytes)[i]),
    decreases bytes.len(),
{
    if bytes.len() >= 3 {
        if i >= 4 {
            lemma_base64_chars(bytes.skip(3), i - 4);
        }
    }
}

/// Different byte strings have different encodings.
pub proof fn lemma_base64_injective(a: Seq<u8>, b: Seq<u8>)
    requires
        base64(a) == base64(b),
    ensures
        a == b,
    decreases a.len(),
{
    lemma_base64_len(a);
    lemma_base64_len(b);
    let x = base64(a);
    let y = base64(b);
    if a.len() == 0 {
        assert(b.len() == 0);
        assert(a =~= b);
    } else {
        assert(b.len() > 0);
        assert(x[0] == y[0] && x[1] == y[1] && x[2] == y[2] && x[3] == y[3]);
        if a.len() == 1 {
            assert(b.len() == 1);
            lemma_sextet_injective(a[0] as nat / 4, b[0] as nat / 4);
            lemma_sextet_injective(a[0] as nat % 4 * 16, b[0] as nat % 4 * 16);
            assert(a =~= b);
        } else if a.len() == 2 {
            assert(b.len() == 2);
            lemma_sextet_injective(a[0] as nat / 4, b[0] as nat / 4);
            lemma_sextet_injective(
                a[0] as nat % 4 * 16 + a[1] as nat / 16,
                b[0] as nat % 4 * 16 + b[1] as nat / 16,
            );
            lemma_sextet_injective(a[1] as nat % 16 * 4, b[1] as nat % 16 * 4);
            assert(a =~= b);
        } else {
            assert(b.len() >= 3) by {
                lemma_sextet_char(a[2] as nat % 64);
            }
            lemma_sextet_injective(a[0] as nat / 4, b[0] as nat / 4);
            lemma_sextet_injective(
                a[0] as nat % 4 * 16 + a[1] as nat / 16,
                b[0] as nat % 4 * 16 + b[1] as nat / 16,
            );
            lemma_sextet_injective(
                a[1] as nat % 16 * 4 + a[2] as nat / 64,
                b[1] as nat % 16 * 4 + b[2] as nat / 64,
            );
            lemma_sextet_injective(a[2] as nat % 64, b[2] as nat % 64);
            assert(a[0] == b[0] && a[1] == b[1] && a[2] == b[2]);
            assert(base64(a.skip(3)) =~= x.skip(4));
            assert(base64(b.skip(3)) =~= y.skip(4));
            lemma_base64_injective(a.skip(3), b.skip(3));
            assert(a =~= b) by {
                assert forall|i: int| 0 <= i < a.len() implies a[i] == b[i] by {
                    if i >= 3 {
                        assert(a[i] == a.skip(3)[i - 3]);
                        assert(b[i] == b.skip(3)[i - 3]);
                    }
                }
                assert(a.skip(3).len() == b.skip(3).len());
            }
        }
    }
}

} // verus!
