//! The decimal literals that the module writes into the fields of a reply.
//!
//! A field is text such as `+04.123` or `-9.9999`. The grammar accepted here
//! is the one of a decimal floating-point literal:
//!
//! ```text
//! Literal  ::= Sign? Number
//! Number   ::= Mantissa Exponent?
//! Mantissa ::= Digit+ | Digit+ '.' Digit* | Digit* '.' Digit+
//! Exponent ::= ('e' | 'E') Sign? Digit+
//! Sign     ::= '+' | '-'
//! Digit    ::= '0' ..= '9'
//! ```
//!
//! No blank may stand before, inside or after a literal. The words `inf`,
//! `infinity` and `nan`, with or without a sign, are no literals here: none of
//! them has the seven characters of a field.
use vstd::prelude::*;

verus! {

/// The decimal point, `.`.
pub const POINT: u8 = 0x2e;

/// The plus sign, `+`.
pub const PLUS: u8 = 0x2b;

/// The minus sign, `-`.
pub const MINUS: u8 = 0x2d;

/// The digit `0`; the other digits follow it in order.
pub const ZERO: u8 = 0x30;

/// The digit `9`.
pub const NINE: u8 = 0x39;

/// The lower-case exponent mark, `e`.
pub const LOWER_E: u8 = 0x65;

/// The upper-case exponent mark, `E`.
pub const UPPER_E: u8 = 0x45;

/// `Digit`: one of `0` to `9`.
pub open spec fn is_digit(b: u8) -> bool {
    ZERO <= b <= NINE
}

/// `Sign`: `+` or `-`.
pub open spec fn is_sign(b: u8) -> bool {
    b == PLUS || b == MINUS
}

/// The mark that opens an exponent: `e` or `E`.
pub open spec fn is_exp_mark(b: u8) -> bool {
    b == LOWER_E || b == UPPER_E
}

/// `Digit*`: every byte of `s` is a digit.
pub open spec fn all_digits(s: Seq<u8>) -> bool {
    forall|i: int| 0 <= i < s.len() ==> is_digit(#[trigger] s[i])
}

/// `s` is digits, a point at index `k`, and digits, with at least one digit
/// on one side of the point.
pub open spec fn point_at(s: Seq<u8>, k: int) -> bool {
    &&& 0 <= k < s.len()
    &&& s.len() >= 2
    &&& s[k] == POINT
    &&& all_digits(s.take(k))
    &&& all_digits(s.skip(k + 1))
}

/// `Mantissa`: digits alone, or digits around one point.
pub open spec fn is_mantissa(s: Seq<u8>) -> bool {
    ||| s.len() >= 1 && all_digits(s)
    ||| exists|k: int| point_at(s, k)
}

/// `Exponent`: the mark, an optional sign, and at least one digit.
pub open spec fn is_exponent(s: Seq<u8>) -> bool {
    &&& s.len() >= 2
    &&& is_exp_mark(s[0])
    &&& if is_sign(s[1]) {
        s.len() >= 3 && all_digits(s.skip(2))
    } else {
        all_digits(s.skip(1))
    }
}

/// `s` is a mantissa of `k` bytes followed by an exponent.
pub open spec fn exponent_at(s: Seq<u8>, k: int) -> bool {
    &&& 0 < k < s.len()
    &&& is_mantissa(s.take(k))
    &&& is_exponent(s.skip(k))
}

/// `Number`: a mantissa, with or without an exponent behind it.
pub open spec fn is_number(s: Seq<u8>) -> bool {
    ||| is_mantissa(s)
    ||| exists|k: int| exponent_at(s, k)
}

/// `Literal`: a number, with or without a sign before it.
pub open spec fn is_decimal(s: Seq<u8>) -> bool {
    &&& s.len() >= 1
    &&& if is_sign(s[0]) {
        is_number(s.skip(1))
    } else {
        is_number(s)
    }
}

/// The bytes of `s` from `a` up to `b` are digits.
spec fn digits_between(s: Seq<u8>, a: int, b: int) -> bool {
    forall|i: int| a <= i < b ==> is_digit(#[trigger] s[i])
}

/// `b` is where the run of digits that begins at `a` ends.
spec fn run_ends(s: Seq<u8>, a: int, b: int) -> bool {
    &&& 0 <= a <= b <= s.len()
    &&& digits_between(s, a, b)
    &&& (b == s.len() || !is_digit(s[b]))
}

/// A run of digits ends in one place only.
proof fn lemma_run_unique(s: Seq<u8>, a: int, b: int, c: int)
    requires
        run_ends(s, a, b),
        0 <= a <= c <= s.len(),
        digits_between(s, a, c),
        c == s.len() || !is_digit(s[c]),
    ensures
        b == c,
{
}

/// A piece of `s` is all digits exactly when `s` holds digits there.
proof fn lemma_digits_of_piece(s: Seq<u8>, a: int, b: int)
    requires
        0 <= a <= b <= s.len(),
    ensures
        all_digits(s.subrange(a, b)) <==> digits_between(s, a, b),
{
    let piece = s.subrange(a, b);
    if all_digits(piece) {
        assert forall|i: int| a <= i < b implies is_digit(#[trigger] s[i]) by {
            assert(piece[i - a] == s[i]);
        }
    }
    if digits_between(s, a, b) {
        assert forall|i: int| 0 <= i < piece.len() implies is_digit(#[trigger] piece[i]) by {}
    }
}

/// Where the digits that begin at `from` end.
fn digits_end(s: &[u8], from: usize) -> (to: usize)
    requires
        from <= s@.len(),
    ensures
        run_ends(s@, from as int, to as int),
{
    let mut to: usize = from;
    while to < s.len() && ZERO <= s[to] && s[to] <= NINE
        invariant
            from <= to <= s@.len(),
            digits_between(s@, from as int, to as int),
        decreases s@.len() - to,
    {
        to = to + 1;
    }
    to
}

/// What the scan of a number finds in `s`: the digits before the point end at
/// `p`, the mantissa ends at `q`, and `ok` says whether `s` is a number.
spec fn scanned(s: Seq<u8>, p: int, q: int, ok: bool) -> bool {
    &&& run_ends(s, 0, p)
    &&& if p < s.len() && s[p] == POINT {
        run_ends(s, p + 1, q)
    } else {
        q == p
    }
    &&& ok == {
        &&& q >= 1
        &&& !(q == 1 && p == 0 && s[0] == POINT)
        &&& (q == s.len() || is_exponent(s.skip(q)))
    }
}

/// A scan that finds a number has found the pieces of one.
proof fn lemma_scan_sound(s: Seq<u8>, p: int, q: int)
    requires
        scanned(s, p, q, true),
    ensures
        is_number(s),
{
    let m = s.take(q);
    if p < s.len() && s[p] == POINT {
        lemma_digits_of_piece(s, 0, p);
        lemma_digits_of_piece(s, p + 1, q);
        assert(point_at(m, p));
    } else {
        lemma_digits_of_piece(s, 0, q);
    }
    if q == s.len() {
        assert(m =~= s);
    } else {
        assert(exponent_at(s, q));
    }
}

/// The mantissa `s.take(k)` ends where the scan of `s` says it ends,
/// when a byte that is neither digit nor point follows it or `s` ends there.
proof fn lemma_mantissa_end(s: Seq<u8>, k: int, p: int, q: int)
    requires
        0 <= k <= s.len(),
        is_mantissa(s.take(k)),
        k == s.len() || (!is_digit(s[k]) && s[k] != POINT),
        run_ends(s, 0, p),
        if p < s.len() && s[p] == POINT {
            run_ends(s, p + 1, q)
        } else {
            q == p
        },
    ensures
        q == k,
        q >= 1,
        !(q == 1 && p == 0 && s[0] == POINT),
{
    let m = s.take(k);
    if m.len() >= 1 && all_digits(m) {
        lemma_digits_of_piece(s, 0, k);
        lemma_run_unique(s, 0, p, k);
    } else {
        let j = choose|j: int| point_at(m, j);
        assert(m.take(j) =~= s.subrange(0, j));
        assert(m.skip(j + 1) =~= s.subrange(j + 1, k));
        lemma_digits_of_piece(s, 0, j);
        lemma_digits_of_piece(s, j + 1, k);
        lemma_run_unique(s, 0, p, j);
        lemma_run_unique(s, j + 1, q, k);
    }
}

/// A scan that finds no number has missed none.
proof fn lemma_scan_complete(s: Seq<u8>, p: int, q: int)
    requires
        scanned(s, p, q, false),
    ensures
        !is_number(s),
{
    if is_mantissa(s) {
        assert(s.take(s.len() as int) =~= s);
        lemma_mantissa_end(s, s.len() as int, p, q);
    }
    if exists|k: int| exponent_at(s, k) {
        let k = choose|k: int| exponent_at(s, k);
        lemma_mantissa_end(s, k, p, q);
    }
}

/// Whether `s` is a number: a mantissa with or without an exponent.
fn scan_number(s: &[u8]) -> (ok: bool)
    ensures
        ok == is_number(s@),
{
    let n = s.len();
    let p = digits_end(s, 0);
    let q = if p < n && s[p] == POINT {
        digits_end(s, p + 1)
    } else {
        p
    };
    let ok = if q == 0 || (q == 1 && s[0] == POINT) {
        false
    } else if q == n {
        true
    } else {
        scan_exponent(&s[q..n])
    };
    proof {
        if ok {
            lemma_scan_sound(s@, p as int, q as int);
        } else {
            lemma_scan_complete(s@, p as int, q as int);
        }
    }
    ok
}

/// Whether `s` is an exponent: the mark, an optional sign, digits.
fn scan_exponent(s: &[u8]) -> (ok: bool)
    ensures
        ok == is_exponent(s@),
{
    let n = s.len();
    if n < 2 || !(s[0] == LOWER_E || s[0] == UPPER_E) {
        return false;
    }
    let from: usize = if s[1] == PLUS || s[1] == MINUS {
        2
    } else {
        1
    };
    let to = digits_end(s, from);
    proof {
        lemma_digits_of_piece(s@, from as int, n as int);
    }
    from < n && to == n
}

/// Whether `s` is a decimal literal.
pub fn is_decimal_literal(s: &[u8]) -> (ok: bool)
    ensures
        ok == is_decimal(s@),
{
    let n = s.len();
    if n == 0 {
        return false;
    }
    if s[0] == PLUS || s[0] == MINUS {
        scan_number(&s[1..n])
    } else {
        scan_number(s)
    }
}

/// Every byte of a decimal literal is an ASCII character: a digit, a sign,
/// the point or an exponent mark.
pub proof fn lemma_literal_is_ascii(s: Seq<u8>, i: int)
    requires
        is_decimal(s),
        0 <= i < s.len(),
    ensures
        is_digit(s[i]) || is_sign(s[i]) || s[i] == POINT || is_exp_mark(s[i]),
        s[i] <= 0x7f,
{
    let signed = is_sign(s[0]);
    let n = if signed {
        s.skip(1)
    } else {
        s
    };
    let at = if signed {
        i - 1
    } else {
        i
    };
    if at >= 0 {
        lemma_number_bytes(n, at);
    }
}

/// Every byte of a number is a digit, a sign, the point or an exponent mark.
proof fn lemma_number_bytes(s: Seq<u8>, i: int)
    requires
        is_number(s),
        0 <= i < s.len(),
    ensures
        is_digit(s[i]) || is_sign(s[i]) || s[i] == POINT || is_exp_mark(s[i]),
{
    if is_mantissa(s) {
        lemma_mantissa_bytes(s, i);
    } else {
        let k = choose|k: int| exponent_at(s, k);
        if i < k {
            lemma_mantissa_bytes(s.take(k), i);
        } else {
            let e = s.skip(k);
            let at = i - k;
            if is_sign(e[1]) {
                if at >= 2 {
                    assert(e.skip(2)[at - 2] == e[at]);
                }
            } else {
                if at >= 1 {
                    assert(e.skip(1)[at - 1] == e[at]);
                }
            }
        }
    }
}

/// Every byte of a mantissa is a digit or the point.
proof fn lemma_mantissa_bytes(s: Seq<u8>, i: int)
    requires
        is_mantissa(s),
        0 <= i < s.len(),
    ensures
        is_digit(s[i]) || s[i] == POINT,
{
    if !(s.len() >= 1 && all_digits(s)) {
        let k = choose|k: int| point_at(s, k);
        if i < k {
            assert(s.take(k)[i] == s[i]);
        } else if i > k {
            assert(s.skip(k + 1)[i - k - 1] == s[i]);
        }
    }
}

} // verus!
