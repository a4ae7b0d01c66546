//! Character-level helpers: conversions between `String` and `Vec<char>`,
//! decimal formatting and lexicographic comparison.
use vstd::prelude::*;
use vstd::std_specs::iter::IteratorSpec;

verus! {

/// The characters of `s`, in order.
pub fn chars_of(s: &str) -> (r: Vec<char>)
    ensures
        r@ == s@,
{
    broadcast use vstd::string::axiom_spec_iter, vstd::string::next_postcondition;

    let mut it = s.chars();
    let mut r: Vec<char> = Vec::new();
    loop
        invariant
            it.obeys_prophetic_iter_laws(),
            it.decrease() is Some,
            r@ + it.remaining() == s@,
        ensures
            r@ == s@,
        decreases it.decrease()->0,
    {
        match it.next() {
            Some(c) => {
                r.push(c);
            },
            None => {
                assert(r@ =~= s@);
                break;
            },
        }
    }
    r
}

/// Relies on `FromIterator<char>` for `String`: the string of these characters, in order.
#[verifier::external_body]
pub(crate) fn string_of(v: &Vec<char>) -> (r: String)
    ensures
        r@ == v@,
{
    v.iter().collect()
}

/// Appends every character of `s` to `out`.
pub fn push_all(out: &mut Vec<char>, s: &Vec<char>)
    ensures
        final(out)@ == old(out)@ + s@,
{
    let mut i: usize = 0;
    while i < s.len()
        invariant
            i <= s@.len(),
            out@ == old(out)@ + s@.subrange(0, i as int),
        decreases s@.len() - i,
    {
        out.push(s[i]);
        i = i + 1;
        assert(s@.subrange(0, i as int) =~= s@.subrange(0, i - 1) + seq![s@[i - 1]]);
    }
    assert(s@.subrange(0, s@.len() as int) =~= s@);
}

/// The character of the decimal digit `d`.
pub open spec fn digit_char(d: nat) -> char {
    ((d % 10) + 48) as char
}

/// The decimal notation of `n`, without leading zeros.
pub open spec fn decimal(n: nat) -> Seq<char>
    decreases n,
{
    if n < 10 {
        seq![digit_char(n)]
    } else {
        decimal(n / 10) + seq![digit_char(n % 10)]
    }
}

/// Appends the decimal notation of `n` to `out`.
pub fn push_decimal(out: &mut Vec<char>, n: usize)
    ensures
        final(out)@ == old(out)@ + decimal(n as nat),
    decreases n,
{
    if n >= 10 {
        push_decimal(out, n / 10);
    }
    let d: u8 = (n % 10) as u8;
    out.push((d + 48) as char);
    assert(final(out)@ =~= old(out)@ + decimal(n as nat)) by {
        assert(((n % 10) as nat) % 10 == (n as nat) % 10);
    }
}

/// `a` comes strictly before `b` when both are compared from position `i` on,
/// character by character, a proper prefix coming first.
pub open spec fn lex_lt_from(a: Seq<char>, b: Seq<char>, i: int) -> bool
    decreases a.len() - i,
{
    if i < 0 || i >= b.len() {
        false
    } else if i >= a.len() {
        true
    } else if a[i] != b[i] {
        a[i] < b[i]
    } else {
        lex_lt_from(a, b, i + 1)
    }
}

/// Lexicographic order of character sequences by code point, as `str`'s `Ord` compares.
pub open spec fn lex_lt(a: Seq<char>, b: Seq<char>) -> bool {
    lex_lt_from(a, b, 0)
}

proof fn lemma_lex_total_from(a: Seq<char>, b: Seq<char>, i: int)
    requires
        0 <= i,
        forall|k: int| 0 <= k < i && k < a.len() && k < b.len() ==> a[k] == b[k],
        i <= a.len() && i <= b.len(),
    ensures
        lex_lt_from(a, b, i) || lex_lt_from(b, a, i) || a =~= b,
    decreases a.len() - i,
{
    if i >= a.len() && i >= b.len() {
        assert(a.len() == b.len());
        assert forall|k: int| 0 <= k < a.len() implies a[k] == b[k] by {}
    } else if i >= a.len() {
        assert(lex_lt_from(a, b, i));
    } else if i >= b.len() {
        assert(lex_lt_from(b, a, i));
    } else if a[i] != b[i] {
        assert(a[i] < b[i] || b[i] < a[i]);
    } else {
        lemma_lex_total_from(a, b, i + 1);
    }
}

/// Two sequences are equal or one comes strictly before the other.
pub proof fn lemma_lex_total(a: Seq<char>, b: Seq<char>)
    ensures
        lex_lt(a, b) || lex_lt(b, a) || a == b,
{
    lemma_lex_total_from(a, b, 0);
}

/// Whether `a` comes strictly before `b` in lexicographic order.
pub fn lex_less(a: &Vec<char>, b: &Vec<char>) -> (r: bool)
    ensures
        r == lex_lt(a@, b@),
{
    let mut i: usize = 0;
    while i < a.len() && i < b.len() && a[i] == b[i]
        invariant
            i <= a@.len(),
            i <= b@.len(),
            lex_lt(a@, b@) == lex_lt_from(a@, b@, i as int),
        decreases a@.len() - i,
    {
        i = i + 1;
    }
    if i >= b.len() {
        false
    } else if i >= a.len() {
        true
    } else {
        a[i] < b[i]
    }
}

} // verus!
