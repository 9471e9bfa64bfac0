//! ASCII text utilities: decimal parsing and rendering, verified against
//! spec-level definitions, plus the trusted string-building primitives.

use vstd::prelude::*;

verus! {

/// `c` is an ASCII decimal digit.
pub open spec fn is_digit(c: char) -> bool {
    48 <= c as int && c as int <= 57
}

/// Numeric value of a digit character.
pub open spec fn digit_val(c: char) -> nat
    recommends
        is_digit(c),
{
    (c as int - 48) as nat
}

/// Every character of `s` is an ASCII decimal digit.
pub open spec fn all_digits(s: Seq<char>) -> bool {
    forall|i: int| 0 <= i < s.len() ==> is_digit(#[trigger] s[i])
}

/// The number denoted by a sequence of digit characters, most significant
/// digit first. The empty sequence denotes zero.
pub open spec fn decimal_val(s: Seq<char>) -> nat
    decreases s.len(),
{
    if s.len() == 0 {
        0
    } else {
        decimal_val(s.drop_last()) * 10 + digit_val(s.last())
    }
}

/// The decimal digit bytes of `n`, most significant first, no leading zeros
/// (a single `b'0'` for zero).
pub open spec fn decimal_bytes(n: nat) -> Seq<u8>
    decreases n,
{
    if n < 10 {
        seq![(n + 48) as u8]
    } else {
        decimal_bytes(n / 10).push((n % 10 + 48) as u8)
    }
}

/// The decimal digit characters of `n`, most significant first.
pub open spec fn decimal_seq(n: nat) -> Seq<char> {
    decimal_bytes(n).map(|i: int, b: u8| b as char)
}

/// Relies on `String::push_str` from alloc: the result is the left piece
/// followed by the right piece.
#[verifier::external_body]
pub fn concat_strs(a: &str, b: &str) -> (r: String)
    ensures
        r@ == a@ + b@,
{
    let mut s = a.to_owned();
    s.push_str(b);
    s
}

/// Relies on `String::from_utf8` from alloc: bytes below 128 are one-byte
/// UTF-8 sequences, so the resulting characters are the bytes themselves.
#[verifier::external_body]
pub fn ascii_to_string(v: Vec<u8>) -> (r: String)
    requires
        forall|i: int| 0 <= i < v@.len() ==> #[trigger] v@[i] < 128,
    ensures
        r@.len() == v@.len(),
        forall|i: int| 0 <= i < v@.len() ==> #[trigger] r@[i] == v@[i] as char,
{
    String::from_utf8(v).unwrap_or_default()
}

/// Taking one more character multiplies the value by ten and adds a digit,
/// so the value of a prefix never exceeds the value of the whole.
pub proof fn lemma_decimal_val_take_le(s: Seq<char>, j: int)
    requires
        0 <= j <= s.len(),
    ensures
        decimal_val(s.take(j)) <= decimal_val(s),
    decreases s.len() - j,
{
    if j == s.len() {
        assert(s.take(j) =~= s);
    } else {
        assert(s.take(j + 1).drop_last() =~= s.take(j));
        assert(decimal_val(s.take(j + 1)) == decimal_val(s.take(j)) * 10 + digit_val(
            s.take(j + 1).last(),
        ));
        lemma_decimal_val_take_le(s, j + 1);
    }
}

/// Parse an unsigned decimal number. Returns the denoted value exactly when
/// the string is non-empty, all digits, and the value fits in `u64`.
pub fn parse_decimal(s: &str) -> (r: Option<u64>)
    ensures
        match r {
            Some(v) => s@.len() > 0 && all_digits(s@) && v == decimal_val(s@),
            None => !(s@.len() > 0 && all_digits(s@) && decimal_val(s@) <= u64::MAX),
        },
{
    let n = s.unicode_len();
    if n == 0 {
        return None;
    }
    let mut acc: u64 = 0;
    let mut i: usize = 0;
    while i < n
        invariant
            0 <= i <= n,
            n == s@.len(),
            all_digits(s@.take(i as int)),
            acc == decimal_val(s@.take(i as int)),
        decreases n - i,
    {
        let c = s.get_char(i);
        let cu = c as u32;
        if cu < 48 || cu > 57 {
            assert(!is_digit(s@[i as int]));
            return None;
        }
        let d = (cu - 48) as u64;
        let limit = (u64::MAX - d) / 10;
        if acc > limit {
            proof {
                assert(acc * 10 + d > u64::MAX) by (nonlinear_arith)
                    requires
                        acc > (u64::MAX - d) / 10,
                        d <= u64::MAX,
                ;
                assert(s@.take(i + 1).drop_last() =~= s@.take(i as int));
                assert(decimal_val(s@.take(i + 1)) == acc * 10 + digit_val(s@[i as int]));
                if all_digits(s@) {
                    lemma_decimal_val_take_le(s@, i + 1);
                }
            }
            return None;
        }
        proof {
            assert(acc * 10 + d <= u64::MAX) by (nonlinear_arith)
                requires
                    acc <= (u64::MAX - d) / 10,
                    d <= u64::MAX,
            ;
            assert(s@.take(i + 1).drop_last() =~= s@.take(i as int));
        }
        acc = acc * 10 + d;
        i = i + 1;
    }
    proof {
        assert(s@.take(n as int) =~= s@);
    }
    Some(acc)
}

/// Append the decimal digit bytes of `n` to `out`.
fn push_decimal(n: u64, out: &mut Vec<u8>)
    ensures
        final(out)@ == old(out)@ + decimal_bytes(n as nat),
    decreases n,
{
    if n < 10 {
        out.push((n + 48) as u8);
        assert(out@ =~= old(out)@ + decimal_bytes(n as nat));
    } else {
        push_decimal(n / 10, out);
        out.push((n % 10 + 48) as u8);
        assert(out@ =~= old(out)@ + decimal_bytes(n as nat));
    }
}

/// Every byte produced by `decimal_bytes` is an ASCII digit.
pub proof fn lemma_decimal_bytes_ascii(n: nat)
    ensures
        forall|i: int|
            0 <= i < decimal_bytes(n).len() ==> 48 <= #[trigger] decimal_bytes(n)[i] <= 57,
    decreases n,
{
    if n >= 10 {
        lemma_decimal_bytes_ascii(n / 10);
        assert forall|i: int| 0 <= i < decimal_bytes(n).len() implies 48 <= #[trigger] decimal_bytes(
            n,
        )[i] <= 57 by {
            if i < decimal_bytes(n / 10).len() {
                assert(decimal_bytes(n)[i] == decimal_bytes(n / 10)[i]);
            } else {
                assert(decimal_bytes(n)[i] == (n % 10 + 48) as u8);
            }
        }
    }
}

/// Rendering produces at least one character, all of them digits.
pub proof fn lemma_decimal_seq_digits(n: nat)
    ensures
        decimal_seq(n).len() > 0,
        all_digits(decimal_seq(n)),
{
    lemma_decimal_bytes_ascii(n);
    assert forall|i: int| 0 <= i < decimal_seq(n).len() implies is_digit(
        #[trigger] decimal_seq(n)[i],
    ) by {
        assert(decimal_seq(n)[i] == decimal_bytes(n)[i] as char);
    }
}

/// Rendering and reading back are inverse: the digit sequence of `n` denotes
/// `n`.
pub proof fn lemma_decimal_seq_value(n: nat)
    ensures
        decimal_val(decimal_seq(n)) == n,
    decreases n,
{
    lemma_decimal_bytes_ascii(n);
    assert(decimal_val(Seq::<char>::empty()) == 0);
    if n < 10 {
        let c = ((n + 48) as u8) as char;
        assert(c as int == n + 48);
        assert(decimal_seq(n) =~= seq![c]);
        assert(seq![c].drop_last() =~= Seq::<char>::empty());
        assert(decimal_val(seq![c]) == digit_val(c));
    } else {
        lemma_decimal_seq_value(n / 10);
        lemma_decimal_bytes_ascii(n / 10);
        let c = ((n % 10 + 48) as u8) as char;
        assert(c as int == n % 10 + 48);
        assert(decimal_seq(n) =~= decimal_seq(n / 10).push(c));
        assert(decimal_seq(n / 10).push(c).drop_last() =~= decimal_seq(n / 10));
        assert(decimal_val(decimal_seq(n / 10).push(c)) == decimal_val(decimal_seq(n / 10)) * 10
            + digit_val(c));
        assert(n / 10 * 10 + n % 10 == n) by (nonlinear_arith);
    }
}

/// Render `n` in decimal.
pub fn render_decimal(n: u64) -> (r: String)
    ensures
        r@ == decimal_seq(n as nat),
{
    let mut out: Vec<u8> = Vec::new();
    push_decimal(n, &mut out);
    proof {
        lemma_decimal_bytes_ascii(n as nat);
        assert(out@ =~= decimal_bytes(n as nat));
    }
    let r = ascii_to_string(out);
    proof {
        assert(r@ =~= decimal_seq(n as nat));
    }
    r
}

} // verus!
