//! Recognition of decimal numbers in text: unsigned 16-bit integers and
//! floating-point literals, with the rules of Rust's standard `FromStr`.
use vstd::prelude::*;

verus! {

/// Why a text is not an unsigned integer.
#[derive(Clone, Copy, Debug, PartialEq, Eq, Structural)]
pub enum IntErrorKind {
    /// The text is empty.
    Empty,
    /// The text holds a character that is not a decimal digit.
    InvalidDigit,
    /// The number does not fit the integer type.
    PosOverflow,
}

/// A text that is not an unsigned integer.
#[derive(Clone, Copy, Debug, PartialEq, Eq, Structural)]
pub struct ParseIntError {
    pub kind: IntErrorKind,
}

/// Why a text is not a floating-point literal.
#[derive(Clone, Copy, Debug, PartialEq, Eq, Structural)]
pub enum FloatErrorKind {
    /// The text is empty.
    Empty,
    /// The text is not in the literal grammar.
    Invalid,
}

/// A text that is not a floating-point literal.
#[derive(Clone, Copy, Debug, PartialEq, Eq, Structural)]
pub struct ParseFloatError {
    pub kind: FloatErrorKind,
}

/// Whether `c` is an ASCII decimal digit.
pub open spec fn is_digit(c: char) -> bool {
    '0' <= c && c <= '9'
}

/// The value of decimal digit `c`.
pub open spec fn digit_value(c: char) -> nat {
    (c as u32 - '0' as u32) as nat
}

/// Reading digits `ds` after a prefix worth `acc`, as for `u16`: the first
/// character that is not a digit is an error; so is a value past 65535.
pub open spec fn digits_value(ds: Seq<char>, acc: nat) -> Result<nat, IntErrorKind>
    decreases ds.len(),
{
    if ds.len() == 0 {
        Ok(acc)
    } else if !is_digit(ds[0]) {
        Err(IntErrorKind::InvalidDigit)
    } else if acc * 10 + digit_value(ds[0]) > u16::MAX {
        Err(IntErrorKind::PosOverflow)
    } else {
        digits_value(ds.drop_first(), acc * 10 + digit_value(ds[0]))
    }
}

/// The value of text `s` as a `u16`: an optional `+` and decimal digits.
pub open spec fn spec_parse_u16(s: Seq<char>) -> Result<u16, IntErrorKind> {
    if s.len() == 0 {
        Err(IntErrorKind::Empty)
    } else if s.len() == 1 && (s[0] == '+' || s[0] == '-') {
        Err(IntErrorKind::InvalidDigit)
    } else {
        let ds = if s[0] == '+' {
            s.drop_first()
        } else {
            s
        };
        match digits_value(ds, 0) {
            Ok(v) => Ok(v as u16),
            Err(e) => Err(e),
        }
    }
}

proof fn lemma_digits_value_bound(ds: Seq<char>, acc: nat)
    requires
        acc <= u16::MAX,
    ensures
        digits_value(ds, acc) matches Ok(v) ==> v <= u16::MAX,
    decreases ds.len(),
{
    if ds.len() > 0 && is_digit(ds[0]) && acc * 10 + digit_value(ds[0]) <= u16::MAX {
        lemma_digits_value_bound(ds.drop_first(), acc * 10 + digit_value(ds[0]));
    }
}

/// Parses `s` as a `u16`: an optional `+` sign followed by decimal digits.
pub fn parse_u16(s: &[char]) -> (r: Result<u16, ParseIntError>)
    ensures
        match r {
            Ok(v) => spec_parse_u16(s@) == Ok::<u16, IntErrorKind>(v),
            Err(e) => spec_parse_u16(s@) == Err::<u16, IntErrorKind>(e.kind),
        },
{
    if s.len() == 0 {
        return Err(ParseIntError { kind: IntErrorKind::Empty });
    }
    if s.len() == 1 && (s[0] == '+' || s[0] == '-') {
        return Err(ParseIntError { kind: IntErrorKind::InvalidDigit });
    }
    let start: usize = if s[0] == '+' { 1 } else { 0 };
    let ghost ds = if s@[0] == '+' { s@.drop_first() } else { s@ };
    let mut acc: u32 = 0;
    let mut i: usize = start;
    assert(s@.skip(start as int) =~= ds);
    while i < s.len()
        invariant
            start <= i <= s@.len(),
            acc <= u16::MAX,
            s@.len() > 0,
            !(s@.len() == 1 && (s@[0] == '+' || s@[0] == '-')),
            ds == (if s@[0] == '+' { s@.drop_first() } else { s@ }),
            digits_value(ds, 0) == digits_value(s@.skip(i as int), acc as nat),
        decreases s@.len() - i,
    {
        let c = s[i];
        assert(s@.skip(i as int)[0] == c);
        if !('0' <= c && c <= '9') {
            assert(digits_value(s@.skip(i as int), acc as nat) == Err::<nat, IntErrorKind>(IntErrorKind::InvalidDigit));
            return Err(ParseIntError { kind: IntErrorKind::InvalidDigit });
        }
        let d = (c as u32) - ('0' as u32);
        assert(d == digit_value(c));
        let next = acc * 10 + d;
        if next > 65535 {
            assert(digits_value(s@.skip(i as int), acc as nat) == Err::<nat, IntErrorKind>(IntErrorKind::PosOverflow));
            return Err(ParseIntError { kind: IntErrorKind::PosOverflow });
        }
        assert(s@.skip(i as int).drop_first() =~= s@.skip(i + 1));
        acc = next;
        i = i + 1;
    }
    proof { lemma_digits_value_bound(ds, 0); }
    Ok(acc as u16)
}

/// `c` in lower case, for ASCII letters.
pub open spec fn lower(c: char) -> char {
    if 'A' <= c && c <= 'Z' {
        ((c as u32) + 32) as char
    } else {
        c
    }
}

/// Whether `s` spells `word` (lower case) ignoring ASCII case.
pub open spec fn spells(s: Seq<char>, word: Seq<char>) -> bool {
    s.len() == word.len() && forall|i: int| 0 <= i < s.len() ==> lower(#[trigger] s[i]) == word[i]
}

/// Whether `c` is a sign.
pub open spec fn is_sign(c: char) -> bool {
    c == '+' || c == '-'
}

/// Whether `c` opens an exponent.
pub open spec fn is_exp_mark(c: char) -> bool {
    c == 'e' || c == 'E'
}

/// Digits with at most one `.` and at least one digit.
pub open spec fn mantissa_ok(m: Seq<char>) -> bool {
    &&& forall|i: int| 0 <= i < m.len() ==> is_digit(#[trigger] m[i]) || m[i] == '.'
    &&& forall|i: int, j: int| 0 <= i < j < m.len() ==> !(#[trigger] m[i] == '.' && #[trigger] m[j] == '.')
    &&& exists|i: int| 0 <= i < m.len() && is_digit(#[trigger] m[i])
}

/// `x` without a leading sign.
pub open spec fn unsigned_part(x: Seq<char>) -> Seq<char> {
    if x.len() > 0 && is_sign(x[0]) {
        x.drop_first()
    } else {
        x
    }
}

/// Every character of `ds` is a decimal digit.
pub open spec fn all_digits(ds: Seq<char>) -> bool {
    forall|i: int| 0 <= i < ds.len() ==> is_digit(#[trigger] ds[i])
}

/// An optional sign followed by one or more digits.
pub open spec fn exponent_ok(x: Seq<char>) -> bool {
    unsigned_part(x).len() > 0 && all_digits(unsigned_part(x))
}

/// A decimal number: a mantissa and, after the first `e`, an exponent.
pub open spec fn number_ok(b: Seq<char>) -> bool {
    ||| (forall|i: int| 0 <= i < b.len() ==> !is_exp_mark(#[trigger] b[i])) && mantissa_ok(b)
    ||| exists|p: int|
        0 <= p < b.len() && is_exp_mark(#[trigger] b[p]) && (forall|i: int|
            0 <= i < p ==> !is_exp_mark(#[trigger] b[i])) && mantissa_ok(b.take(p)) && exponent_ok(
            b.skip(p + 1),
        )
}

/// Whether `s` is in the grammar of Rust's floating-point literals, read
/// without regard to ASCII case:
/// `Sign? ( "inf" | "infinity" | "nan" | Number )`, where
/// `Number ::= ( Digit+ | Digit+ "." Digit* | Digit* "." Digit+ ) Exp?` and
/// `Exp ::= "e" Sign? Digit+`.
pub open spec fn is_float_literal(s: Seq<char>) -> bool {
    let b = if s.len() > 0 && is_sign(s[0]) {
        s.drop_first()
    } else {
        s
    };
    ||| spells(b, seq!['i', 'n', 'f'])
    ||| spells(b, seq!['i', 'n', 'f', 'i', 'n', 'i', 't', 'y'])
    ||| spells(b, seq!['n', 'a', 'n'])
    ||| number_ok(b)
}

fn lower_eq(c: char, w: char) -> (r: bool)
    requires
        'a' <= w <= 'z',
    ensures
        r == (lower(c) == w),
{
    c == w || (c as u32) + 32 == (w as u32)
}

fn spells_word(b: &[char], from: usize, word: &[char]) -> (r: bool)
    requires
        from <= b@.len(),
        forall|j: int| 0 <= j < word@.len() ==> 'a' <= #[trigger] word@[j] <= 'z',
    ensures
        r == spells(b@.skip(from as int), word@),
{
    if b.len() - from != word.len() {
        return false;
    }
    let mut i: usize = 0;
    while i < word.len()
        invariant
            from <= b@.len(),
            b@.len() - from == word@.len(),
            b@.len() <= usize::MAX,
            i <= word@.len(),
            forall|j: int| 0 <= j < word@.len() ==> 'a' <= #[trigger] word@[j] <= 'z',
            forall|j: int| 0 <= j < i ==> lower(#[trigger] b@.skip(from as int)[j]) == word@[j],
        decreases word@.len() - i,
    {
        if !lower_eq(b[from + i], word[i]) {
            assert(b@.skip(from as int)[i as int] == b@[from + i]);
            return false;
        }
        assert(b@.skip(from as int)[i as int] == b@[from + i]);
        i = i + 1;
    }
    true
}

fn mantissa_check(b: &[char], from: usize, to: usize) -> (r: bool)
    requires
        from <= to <= b@.len(),
    ensures
        r == mantissa_ok(b@.subrange(from as int, to as int)),
{
    let ghost m = b@.subrange(from as int, to as int);
    let mut dots: usize = 0;
    let mut digits: bool = false;
    let mut i: usize = from;
    let ghost mut dot_at: int = -1;
    while i < to
        invariant
            from <= i <= to <= b@.len(),
            m == b@.subrange(from as int, to as int),
            forall|k: int| 0 <= k < i - from ==> is_digit(#[trigger] m[k]) || m[k] == '.',
            dots <= 1,
            dots == 0 ==> forall|k: int| 0 <= k < i - from ==> #[trigger] m[k] != '.',
            dots == 1 ==> 0 <= dot_at < i - from && m[dot_at] == '.' && forall|k: int|
                0 <= k < i - from && k != dot_at ==> #[trigger] m[k] != '.',
            digits == exists|k: int| 0 <= k < i - from && is_digit(#[trigger] m[k]),
        decreases to - i,
    {
        let c = b[i];
        assert(m[i - from] == c);
        if c == '.' {
            if dots == 1 {
                proof {
                    let k = (i - from) as int;
                    assert(m[dot_at] == '.' && m[k] == '.');
                    assert(dot_at < k);
                    assert(!mantissa_ok(m));
                }
                return false;
            }
            dots = 1;
            proof { dot_at = i - from; }
        } else if '0' <= c && c <= '9' {
            digits = true;
        } else {
            return false;
        }
        i = i + 1;
    }
    digits
}

fn exponent_check(b: &[char], from: usize) -> (r: bool)
    requires
        from <= b@.len(),
    ensures
        r == exponent_ok(b@.skip(from as int)),
{
    let ghost x = b@.skip(from as int);
    let mut i = from;
    if i < b.len() && (b[i] == '+' || b[i] == '-') {
        i = i + 1;
    }
    let ghost ds = unsigned_part(x);
    assert(x.len() > 0 ==> x[0] == b@[from as int]);
    assert(ds =~= b@.skip(i as int));
    if i == b.len() {
        assert(ds.len() == 0);
        return false;
    }
    let start = i;
    while i < b.len()
        invariant
            start <= i <= b@.len(),
            ds == b@.skip(start as int),
            ds.len() > 0,
            ds == unsigned_part(b@.skip(from as int)),
            forall|k: int| 0 <= k < i - start ==> is_digit(#[trigger] ds[k]),
        decreases b@.len() - i,
    {
        assert(ds[i - start] == b@[i as int]);
        if !('0' <= b[i] && b[i] <= '9') {
            return false;
        }
        i = i + 1;
    }
    true
}

/// Checks that `s` is a floating-point literal, as Rust's `f32::from_str`
/// accepts it.
pub fn check_float_literal(s: &[char]) -> (r: Result<(), ParseFloatError>)
    ensures
        r is Ok <==> is_float_literal(s@),
        r matches Err(e) ==> (e.kind == FloatErrorKind::Empty <==> s@.len() == 0),
{
    if s.len() == 0 {
        return Err(ParseFloatError { kind: FloatErrorKind::Empty });
    }
    let from: usize = if s[0] == '+' || s[0] == '-' { 1 } else { 0 };
    let ghost b = if s@.len() > 0 && is_sign(s@[0]) { s@.drop_first() } else { s@ };
    assert(b =~= s@.skip(from as int));
    let inf: [char; 3] = ['i', 'n', 'f'];
    let infinity: [char; 8] = ['i', 'n', 'f', 'i', 'n', 'i', 't', 'y'];
    let nan: [char; 3] = ['n', 'a', 'n'];
    assert(inf@ =~= seq!['i', 'n', 'f']);
    assert(infinity@ =~= seq!['i', 'n', 'f', 'i', 'n', 'i', 't', 'y']);
    assert(nan@ =~= seq!['n', 'a', 'n']);
    if spells_word(s, from, &inf) || spells_word(s, from, &infinity) || spells_word(s, from, &nan) {
        return Ok(());
    }
    // find the first exponent mark
    let mut p = from;
    while p < s.len() && !(s[p] == 'e' || s[p] == 'E')
        invariant
            from <= p <= s@.len(),
            forall|k: int| from <= k < p ==> !is_exp_mark(#[trigger] s@[k]),
        decreases s@.len() - p,
    {
        p = p + 1;
    }
    let ok = if p == s.len() {
        let m = mantissa_check(s, from, p);
        proof {
            assert(s@.subrange(from as int, p as int) =~= b);
            assert forall|i: int| 0 <= i < b.len() implies !is_exp_mark(#[trigger] b[i]) by {
                assert(b[i] == s@[from + i]);
            }
            if number_ok(b) && !m {
                let q = choose|q: int| 0 <= q < b.len() && is_exp_mark(#[trigger] b[q]) && (forall|i: int|
                    0 <= i < q ==> !is_exp_mark(#[trigger] b[i])) && mantissa_ok(b.take(q)) && exponent_ok(b.skip(q + 1));
                assert(false);
            }
        }
        m
    } else {
        let m = mantissa_check(s, from, p);
        let x = exponent_check(s, p + 1);
        proof {
            let q = p - from;
            assert(b[q] == s@[p as int]);
            assert(s@.subrange(from as int, p as int) =~= b.take(q));
            assert(s@.skip(p + 1) =~= b.skip(q + 1));
            assert forall|i: int| 0 <= i < q implies !is_exp_mark(#[trigger] b[i]) by {
                assert(b[i] == s@[from + i]);
            }
            if number_ok(b) {
                if forall|i: int| 0 <= i < b.len() ==> !is_exp_mark(#[trigger] b[i]) {
                    assert(!is_exp_mark(b[q]));
                }
                let q2 = choose|q2: int| 0 <= q2 < b.len() && is_exp_mark(#[trigger] b[q2]) && (forall|i: int|
                    0 <= i < q2 ==> !is_exp_mark(#[trigger] b[i])) && mantissa_ok(b.take(q2)) && exponent_ok(b.skip(q2 + 1));
                if q2 < q {
                    assert(!is_exp_mark(b[q2]));
                }
                if q2 > q {
                    assert(!is_exp_mark(b[q]));
                }
                assert(q2 == q);
            }
        }
        m && x
    };
    if ok {
        Ok(())
    } else {
        Err(ParseFloatError { kind: FloatErrorKind::Invalid })
    }
}

} // verus!
