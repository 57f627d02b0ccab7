//! Character-level helpers: turning text into characters, literal
//! replace-all, and filling a reprompt template.
use vstd::prelude::*;

verus! {

/// Every occurrence of `pat` in `s`, scanned from the left and without
/// overlaps, replaced by `rep`.
pub open spec fn replace_all(s: Seq<char>, pat: Seq<char>, rep: Seq<char>) -> Seq<char>
    decreases s.len(),
{
    if pat.len() == 0 || s.len() < pat.len() {
        s
    } else if s.take(pat.len() as int) == pat {
        rep + replace_all(s.skip(pat.len() as int), pat, rep)
    } else {
        seq![s[0]] + replace_all(s.skip(1), pat, rep)
    }
}

/// Whether `pat` occurs in `s` at position `i`.
pub open spec fn occurs(s: Seq<char>, pat: Seq<char>, i: int) -> bool {
    0 <= i && i + pat.len() <= s.len() && s.subrange(i, i + pat.len()) == pat
}

/// Text in which `pat` does not occur is left as it is.
pub proof fn lemma_replace_absent(s: Seq<char>, pat: Seq<char>, rep: Seq<char>)
    requires
        forall|i: int| !occurs(s, pat, i),
    ensures
        replace_all(s, pat, rep) == s,
    decreases s.len(),
{
    if pat.len() > 0 && s.len() >= pat.len() {
        assert(s.take(pat.len() as int) != pat) by {
            assert(!occurs(s, pat, 0));
            assert(s.take(pat.len() as int) =~= s.subrange(0, pat.len() as int));
        }
        assert forall|i: int| !occurs(s.skip(1), pat, i) by {
            if occurs(s.skip(1), pat, i) {
                assert(s.skip(1).subrange(i, i + pat.len()) =~= s.subrange(i + 1, i + 1 + pat.len()));
                assert(occurs(s, pat, i + 1));
            }
        }
        lemma_replace_absent(s.skip(1), pat, rep);
        assert(seq![s[0]] + s.skip(1) =~= s);
    }
}

/// Every occurrence is replaced: where the first occurrence of `pat` in
/// `a + pat + b` is the one after `a`, `a` is kept, that occurrence becomes
/// `rep`, and the replacement goes on in `b`.
pub proof fn lemma_replace_first(a: Seq<char>, pat: Seq<char>, b: Seq<char>, rep: Seq<char>)
    requires
        pat.len() > 0,
        forall|i: int| 0 <= i < a.len() ==> !occurs(a + pat + b, pat, i),
    ensures
        replace_all(a + pat + b, pat, rep) == a + rep + replace_all(b, pat, rep),
    decreases a.len(),
{
    let s = a + pat + b;
    if a.len() == 0 {
        assert(s.take(pat.len() as int) =~= pat);
        assert(s.skip(pat.len() as int) =~= b);
        assert(a + rep =~= rep);
    } else {
        assert(s.take(pat.len() as int) != pat) by {
            assert(!occurs(s, pat, 0));
            assert(s.take(pat.len() as int) =~= s.subrange(0, pat.len() as int));
        }
        let a1 = a.skip(1);
        assert(s.skip(1) =~= a1 + pat + b);
        assert forall|i: int| 0 <= i < a1.len() implies !occurs(a1 + pat + b, pat, i) by {
            assert(!occurs(s, pat, i + 1));
            if i + pat.len() <= (a1 + pat + b).len() {
                assert((a1 + pat + b).subrange(i, i + pat.len()) =~= s.subrange(i + 1, i + 1 + pat.len()));
            }
        }
        lemma_replace_first(a1, pat, b, rep);
        assert(seq![a[0]] + (a1 + rep + replace_all(b, pat, rep)) =~= a + rep + replace_all(b, pat, rep));
    }
}

/// The characters of `s`, in order.
pub fn chars_of(s: &str) -> (r: Vec<char>)
    ensures
        r@ == s@,
{
    let mut r: Vec<char> = Vec::new();
    for c in it: s.chars()
        invariant
            it.seq() == s@,
            r@ == it.seq().take(it.index() as int),
    {
        r.push(c);
    }
    r
}

/// Whether `pat` occurs in `cs` at position `i`.
fn occurs_at(cs: &Vec<char>, pat: &Vec<char>, i: usize) -> (r: bool)
    requires
        i <= cs.len(),
    ensures
        r == (i + pat.len() <= cs.len() && cs@.subrange(i as int, i + pat.len()) == pat@),
{
    if pat.len() > cs.len() - i {
        return false;
    }
    let mut j: usize = 0;
    while j < pat.len()
        invariant
            i + pat.len() <= cs.len(),
            j <= pat.len(),
            forall|k: int| 0 <= k < j ==> cs@[i + k] == pat@[k],
        decreases pat.len() - j,
    {
        if cs[i + j] != pat[j] {
            assert(cs@.subrange(i as int, i + pat.len())[j as int] != pat@[j as int]);
            return false;
        }
        j = j + 1;
    }
    assert(cs@.subrange(i as int, i + pat.len()) =~= pat@);
    true
}

/// `s` with every occurrence of `pat` replaced by `rep`, scanning from the
/// left without overlaps (an empty `pat` leaves `s` as it is).
pub fn replace_all_str(s: &str, pat: &str, rep: &str) -> (r: String)
    ensures
        r@ == replace_all(s@, pat@, rep@),
{
    let cs = chars_of(s);
    let pc = chars_of(pat);
    let n = cs.len();
    let mut out = String::new();
    if pc.len() == 0 {
        out.append(s);
        return out;
    }
    let mut start: usize = 0;
    let mut i: usize = 0;
    assert(s@.skip(0) =~= s@);
    assert(out@ + s@.subrange(0, 0) =~= Seq::<char>::empty());
    while i < n
        invariant
            cs@ == s@,
            pc@ == pat@,
            n == cs.len(),
            pc.len() > 0,
            start <= i <= n,
            out@ + s@.subrange(start as int, i as int) + replace_all(s@.skip(i as int), pat@, rep@)
                == replace_all(s@, pat@, rep@),
        decreases n - i,
    {
        let ghost tail = s@.skip(i as int);
        let m = pc.len();
        if occurs_at(&cs, &pc, i) {
            assert(tail.take(m as int) =~= s@.subrange(i as int, i + m));
            assert(tail.skip(m as int) =~= s@.skip(i + m));
            let piece = s.substring_char(start, i);
            out.append(piece);
            out.append(rep);
            i = i + m;
            start = i;
            assert(s@.subrange(start as int, i as int) =~= Seq::<char>::empty());
            assert(out@ + s@.subrange(start as int, i as int) + replace_all(s@.skip(i as int), pat@, rep@)
                =~= replace_all(s@, pat@, rep@));
        } else {
            assert(tail.len() >= m ==> tail.take(m as int) =~= s@.subrange(i as int, i + m));
            assert(tail.skip(1) =~= s@.skip(i + 1));
            assert(replace_all(tail, pat@, rep@) =~= seq![s@[i as int]] + replace_all(s@.skip(i + 1), pat@, rep@));
            assert(s@.subrange(start as int, i + 1) =~= s@.subrange(start as int, i as int) + seq![s@[i as int]]);
            i = i + 1;
        }
    }
    assert(s@.skip(n as int) =~= Seq::<char>::empty());
    let piece = s.substring_char(start, n);
    out.append(piece);
    out
}

/// The placeholder that stands for the retrieved text in a template.
pub const RETRIEVED_MARK: &'static str = "_RETRIEVED_";

/// The placeholder that stands for the query in a template.
pub const QUERY_MARK: &'static str = "_QUERY_";

/// `template` with every `_RETRIEVED_` replaced by `retrieved`, and then
/// every `_QUERY_` replaced by `query`.
pub open spec fn filled(template: Seq<char>, retrieved: Seq<char>, query: Seq<char>) -> Seq<char> {
    replace_all(replace_all(template, RETRIEVED_MARK@, retrieved), QUERY_MARK@, query)
}

/// Fills a reprompt template: every `_RETRIEVED_` becomes `retrieved`, then
/// every `_QUERY_` becomes `query`. Text without placeholders is kept as it
/// is.
pub fn fill_template(template: &str, retrieved: &str, query: &str) -> (r: String)
    ensures
        r@ == filled(template@, retrieved@, query@),
{
    let first = replace_all_str(template, RETRIEVED_MARK, retrieved);
    replace_all_str(first.as_str(), QUERY_MARK, query)
}

} // verus!
