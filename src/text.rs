use vstd::prelude::*;
use vstd::string::StrSliceExecFns;
use vstd::string::StringExecFns;

verus! {

/// Whether `s` begins with `p`.
pub open spec fn seq_starts_with(s: Seq<char>, p: Seq<char>) -> bool {
    p.len() <= s.len() && s.subrange(0, p.len() as int) == p
}

/// Whether `s` begins with `p`.
pub fn starts_with(s: &str, p: &str) -> (r: bool)
    ensures
        r == seq_starts_with(s@, p@),
{
    let n = s.unicode_len();
    let m = p.unicode_len();
    if m > n {
        return false;
    }
    let mut i: usize = 0;
    while i < m
        invariant
            i <= m <= n,
            n == s@.len(),
            m == p@.len(),
            forall|k: int| 0 <= k < i ==> s@[k] == p@[k],
        decreases m - i,
    {
        if s.get_char(i) != p.get_char(i) {
            assert(s@.subrange(0, m as int)[i as int] != p@[i as int]);
            return false;
        }
        i = i + 1;
    }
    assert(s@.subrange(0, m as int) =~= p@);
    true
}

/// Whether two texts are the same.
pub fn same_text(a: &str, b: &str) -> (r: bool)
    ensures
        r == (a@ == b@),
{
    if a.unicode_len() != b.unicode_len() {
        return false;
    }
    let r = starts_with(a, b);
    assert(a@.subrange(0, b@.len() as int) =~= a@);
    r
}

/// Relies on String::push, which appends a character to the string.
#[verifier::external_body]
pub(crate) fn push_char(s: &mut String, c: char)
    ensures
        final(s)@ == old(s)@.push(c),
{
    s.push(c)
}

/// The digit characters, by value.
pub open spec fn digits() -> Seq<char> {
    "0123456789"@
}

/// The decimal numeral of `n`.
pub open spec fn decimal(n: nat) -> Seq<char>
    decreases n,
{
    if n < 10 {
        seq![digits()[n as int]]
    } else {
        decimal(n / 10).push(digits()[(n % 10) as int])
    }
}

/// The decimal numeral of `n`.
pub fn decimal_text(n: usize) -> (r: String)
    ensures
        r@ == decimal(n as nat),
    decreases n,
{
    proof {
        reveal_strlit("0123456789");
    }
    if n < 10 {
        let mut r = String::new();
        push_char(&mut r, "0123456789".get_char(n));
        r
    } else {
        let mut r = decimal_text(n / 10);
        push_char(&mut r, "0123456789".get_char(n % 10));
        r
    }
}

/// `s` with each occurrence of `p`, from the left and without overlap,
/// replaced by `r`.
pub open spec fn replace_all(s: Seq<char>, p: Seq<char>, r: Seq<char>) -> Seq<char>
    decreases s.len(),
{
    if s.len() == 0 || p.len() == 0 {
        s
    } else if seq_starts_with(s, p) {
        r + replace_all(s.subrange(p.len() as int, s.len() as int), p, r)
    } else {
        seq![s[0]] + replace_all(s.drop_first(), p, r)
    }
}

/// The characters of `s`.
pub fn chars_of(s: &str) -> (r: Vec<char>)
    ensures
        r@ == s@,
{
    let n = s.unicode_len();
    let mut r: Vec<char> = Vec::new();
    let mut i: usize = 0;
    while i < n
        invariant
            i <= n,
            n == s@.len(),
            r@ == s@.subrange(0, i as int),
        decreases n - i,
    {
        r.push(s.get_char(i));
        i = i + 1;
        assert(r@ =~= s@.subrange(0, i as int));
    }
    assert(s@.subrange(0, n as int) =~= s@);
    r
}

/// Whether `p` stands in `cs` at `i`.
fn matches_at(cs: &Vec<char>, i: usize, p: &Vec<char>) -> (r: bool)
    requires
        i <= cs@.len(),
    ensures
        r == seq_starts_with(cs@.subrange(i as int, cs@.len() as int), p@),
{
    let ghost rest = cs@.subrange(i as int, cs@.len() as int);
    if p.len() > cs.len() - i {
        return false;
    }
    let mut k: usize = 0;
    while k < p.len()
        invariant
            k <= p@.len(),
            i + p@.len() <= cs@.len(),
            cs@.len() <= usize::MAX,
            rest == cs@.subrange(i as int, cs@.len() as int),
            forall|j: int| 0 <= j < k ==> cs@[i + j] == p@[j],
        decreases p@.len() - k,
    {
        if cs[i + k] != p[k] {
            assert(rest.subrange(0, p@.len() as int)[k as int] != p@[k as int]);
            return false;
        }
        k = k + 1;
    }
    assert(rest.subrange(0, p@.len() as int) =~= p@);
    true
}

proof fn lemma_replace_step(s: Seq<char>, i: int, p: Seq<char>, r: Seq<char>)
    requires
        0 <= i < s.len(),
        p.len() > 0,
    ensures
        replace_all(s.subrange(i, s.len() as int), p, r) == if seq_starts_with(
            s.subrange(i, s.len() as int),
            p,
        ) {
            r + replace_all(s.subrange(i + p.len(), s.len() as int), p, r)
        } else {
            seq![s[i]] + replace_all(s.subrange(i + 1, s.len() as int), p, r)
        },
{
    let rest = s.subrange(i, s.len() as int);
    assert(rest.drop_first() =~= s.subrange(i + 1, s.len() as int));
    if seq_starts_with(rest, p) {
        assert(rest.subrange(p.len() as int, rest.len() as int) =~= s.subrange(
            i + p.len(),
            s.len() as int,
        ));
    }
}

/// `s` with each occurrence of `p`, from the left and without overlap,
/// replaced by `r`.
pub fn replace_text(s: &str, p: &str, r: &str) -> (out: String)
    ensures
        out@ == replace_all(s@, p@, r@),
{
    let cs = chars_of(s);
    let ps = chars_of(p);
    if ps.len() == 0 {
        return s.to_owned();
    }
    let n = cs.len();
    let mut out = String::new();
    let mut i: usize = 0;
    assert(cs@.subrange(0, n as int) =~= s@);
    while i < n
        invariant
            i <= n,
            n == s@.len(),
            cs@ == s@,
            ps@ == p@,
            p@.len() > 0,
            out@ + replace_all(cs@.subrange(i as int, n as int), p@, r@) == replace_all(s@, p@, r@),
        decreases n - i,
    {
        proof {
            lemma_replace_step(cs@, i as int, p@, r@);
        }
        if matches_at(&cs, i, &ps) {
            let ghost before = out@;
            out.append(r);
            assert(before + (r@ + replace_all(cs@.subrange(i + p@.len(), n as int), p@, r@)) =~= out@
                + replace_all(cs@.subrange(i + p@.len(), n as int), p@, r@));
            i = i + ps.len();
        } else {
            let ghost before = out@;
            push_char(&mut out, cs[i]);
            assert(before + (seq![cs@[i as int]] + replace_all(cs@.subrange(i + 1, n as int), p@, r@))
                =~= out@ + replace_all(cs@.subrange(i + 1, n as int), p@, r@));
            i = i + 1;
        }
    }
    assert(cs@.subrange(n as int, n as int) =~= Seq::<char>::empty());
    assert(out@ + Seq::<char>::empty() =~= out@);
    out
}

} // verus!
