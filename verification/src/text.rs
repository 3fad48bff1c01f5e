//! Character-level text handling: reading the characters of a string,
//! splitting text into lines and lines into whitespace-separated tokens.
use vstd::prelude::*;

verus! {

/// Whether `c` has the Unicode `White_Space` property.
pub open spec fn is_ws(c: char) -> bool {
    let u = c as u32;
    ||| (0x9 <= u && u <= 0xd)
    ||| u == 0x20
    ||| u == 0x85
    ||| u == 0xa0
    ||| u == 0x1680
    ||| (0x2000 <= u && u <= 0x200a)
    ||| u == 0x2028
    ||| u == 0x2029
    ||| u == 0x202f
    ||| u == 0x205f
    ||| u == 0x3000
}

/// Whether `c` has the Unicode `White_Space` property.
pub fn is_whitespace(c: char) -> (b: bool)
    ensures
        b == is_ws(c),
{
    let u = c as u32;
    (0x9 <= u && u <= 0xd) || u == 0x20 || u == 0x85 || u == 0xa0 || u == 0x1680 || (0x2000 <= u
        && u <= 0x200a) || u == 0x2028 || u == 0x2029 || u == 0x202f || u == 0x205f || u == 0x3000
}

/// The tokens of `s` from position `i` on, given the token `cur` being read
/// and the tokens `acc` already read.
pub open spec fn tokens_from(s: Seq<char>, i: int, cur: Seq<char>, acc: Seq<Seq<char>>) -> Seq<Seq<char>>
    decreases s.len() - i,
{
    if i >= s.len() {
        if cur.len() > 0 {
            acc.push(cur)
        } else {
            acc
        }
    } else if is_ws(s[i]) {
        tokens_from(s, i + 1, Seq::empty(), if cur.len() > 0 { acc.push(cur) } else { acc })
    } else {
        tokens_from(s, i + 1, cur.push(s[i]), acc)
    }
}

/// The maximal runs of non-whitespace characters of `s`, in order.
pub open spec fn tokens(s: Seq<char>) -> Seq<Seq<char>> {
    tokens_from(s, 0, Seq::empty(), Seq::empty())
}

/// The pieces of `s` from position `i` on, given the piece `cur` being read
/// and the pieces `acc` already read.
pub open spec fn pieces_from(s: Seq<char>, i: int, cur: Seq<char>, acc: Seq<Seq<char>>) -> Seq<Seq<char>>
    decreases s.len() - i,
{
    if i >= s.len() {
        acc.push(cur)
    } else if s[i] == '\n' {
        pieces_from(s, i + 1, Seq::empty(), acc.push(cur))
    } else {
        pieces_from(s, i + 1, cur.push(s[i]), acc)
    }
}

/// The pieces of `s` between line feeds; one more than the line feeds.
pub open spec fn split_lines(s: Seq<char>) -> Seq<Seq<char>> {
    pieces_from(s, 0, Seq::empty(), Seq::empty())
}

/// The character sequences held by `v`.
pub open spec fn rows(v: Seq<Vec<char>>) -> Seq<Seq<char>> {
    Seq::new(v.len(), |i: int| v[i]@)
}

/// The characters of `s`, in order.
pub fn chars_of(s: &str) -> (r: Vec<char>)
    ensures
        r@ == s@,
{
    broadcast use vstd::string::group_string_axioms;
    let mut r: Vec<char> = Vec::new();
    let mut it = s.chars();
    proof { vstd::string::axiom_spec_iter(s); }
    loop
        invariant
            r@ + vstd::std_specs::iter::IteratorSpec::remaining(&it) == s@,
            vstd::std_specs::iter::IteratorSpec::obeys_prophetic_iter_laws(&it),
        decreases s@.len() - r@.len(),
    {
        let ghost before = vstd::std_specs::iter::IteratorSpec::remaining(&it);
        match it.next() {
            Some(c) => {
                r.push(c);
                assert(r@ + vstd::std_specs::iter::IteratorSpec::remaining(&it) =~= s@) by {
                    assert(before =~= seq![c] + vstd::std_specs::iter::IteratorSpec::remaining(&it));
                }
            },
            None => {
                assert(vstd::std_specs::iter::IteratorSpec::remaining(&it).len() == 0);
                assert(r@ =~= s@);
                return r;
            },
        }
    }
}

/// The tokens of `line`.
pub fn tokenize(line: &[char]) -> (r: Vec<Vec<char>>)
    ensures
        rows(r@) == tokens(line@),
        r@.len() == tokens(line@).len(),
        forall|j: int| 0 <= j < r@.len() ==> #[trigger] r@[j]@ == tokens(line@)[j],
{
    let mut acc: Vec<Vec<char>> = Vec::new();
    let mut cur: Vec<char> = Vec::new();
    let ghost acc_spec: Seq<Seq<char>> = Seq::empty();
    let mut i: usize = 0;
    while i < line.len()
        invariant
            i <= line@.len(),
            acc@.len() == acc_spec.len(),
            forall|j: int| 0 <= j < acc@.len() ==> #[trigger] acc@[j]@ == acc_spec[j],
            tokens(line@) == tokens_from(line@, i as int, cur@, acc_spec),
        decreases line@.len() - i,
    {
        let c = line[i];
        if is_whitespace(c) {
            if cur.len() > 0 {
                proof { acc_spec = acc_spec.push(cur@); }
                acc.push(cur);
                cur = Vec::new();
                assert(cur@ =~= Seq::<char>::empty());
            } else {
                assert(cur@ =~= Seq::<char>::empty());
            }
        } else {
            cur.push(c);
        }
        i = i + 1;
    }
    if cur.len() > 0 {
        proof { acc_spec = acc_spec.push(cur@); }
        acc.push(cur);
    }
    assert(rows(acc@) =~= tokens(line@));
    acc
}

/// The pieces of `text` between line feeds.
pub fn lines_of(text: &[char]) -> (r: Vec<Vec<char>>)
    ensures
        rows(r@) == split_lines(text@),
        r@.len() == split_lines(text@).len(),
        forall|j: int| 0 <= j < r@.len() ==> #[trigger] r@[j]@ == split_lines(text@)[j],
{
    let mut acc: Vec<Vec<char>> = Vec::new();
    let mut cur: Vec<char> = Vec::new();
    let ghost acc_spec: Seq<Seq<char>> = Seq::empty();
    let mut i: usize = 0;
    while i < text.len()
        invariant
            i <= text@.len(),
            acc@.len() == acc_spec.len(),
            forall|j: int| 0 <= j < acc@.len() ==> #[trigger] acc@[j]@ == acc_spec[j],
            split_lines(text@) == pieces_from(text@, i as int, cur@, acc_spec),
        decreases text@.len() - i,
    {
        let c = text[i];
        if c == '\n' {
            proof { acc_spec = acc_spec.push(cur@); }
            acc.push(cur);
            cur = Vec::new();
            assert(cur@ =~= Seq::<char>::empty());
        } else {
            cur.push(c);
        }
        i = i + 1;
    }
    proof { acc_spec = acc_spec.push(cur@); }
    acc.push(cur);
    assert(rows(acc@) =~= split_lines(text@));
    acc
}

/// `s` followed by `c`.
#[verifier::external_body]
pub(crate) fn string_push(s: &mut String, c: char)
    ensures
        final(s)@ == old(s)@.push(c),
{
    s.push(c)
}

/// The string made of the characters of `cs`.
pub fn string_from_chars(cs: &[char]) -> (r: String)
    ensures
        r@ == cs@,
{
    let mut r = String::new();
    let mut i: usize = 0;
    while i < cs.len()
        invariant
            i <= cs@.len(),
            r@ == cs@.take(i as int),
        decreases cs@.len() - i,
    {
        string_push(&mut r, cs[i]);
        assert(r@ =~= cs@.take(i + 1));
        i = i + 1;
    }
    assert(cs@.take(cs@.len() as int) =~= cs@);
    r
}

/// Whether two strings hold the same characters.
pub fn str_equal(a: &str, b: &str) -> (r: bool)
    ensures
        r == (a@ == b@),
{
    let n = a.unicode_len();
    let m = b.unicode_len();
    if n != m {
        return false;
    }
    let mut i: usize = 0;
    while i < n
        invariant
            n == a@.len(),
            m == b@.len(),
            n == m,
            i <= n,
            forall|j: int| 0 <= j < i ==> a@[j] == b@[j],
        decreases n - i,
    {
        if a.get_char(i) != b.get_char(i) {
            return false;
        }
        i = i + 1;
    }
    assert(a@ =~= b@);
    true
}

} // verus!
