//! Which files of a phase directory are rule scripts, and the order in which
//! they run: ascending by name.

use vstd::prelude::*;
use vstd::string::*;

verus! {

broadcast use vstd::seq_lib::to_multiset_insert, vstd::seq_lib::to_multiset_build;

/// Lexicographic order on character sequences (a prefix comes first).
pub open spec fn text_le(a: Seq<char>, b: Seq<char>) -> bool
    decreases a.len(),
{
    if a.len() == 0 {
        true
    } else if b.len() == 0 {
        false
    } else if a[0] != b[0] {
        a[0] < b[0]
    } else {
        text_le(a.drop_first(), b.drop_first())
    }
}

pub proof fn lemma_text_le_total(a: Seq<char>, b: Seq<char>)
    ensures
        text_le(a, b) || text_le(b, a),
    decreases a.len(),
{
    if a.len() > 0 && b.len() > 0 && a[0] == b[0] {
        lemma_text_le_total(a.drop_first(), b.drop_first());
    }
}

pub proof fn lemma_text_le_transitive(a: Seq<char>, b: Seq<char>, c: Seq<char>)
    requires
        text_le(a, b),
        text_le(b, c),
    ensures
        text_le(a, c),
    decreases a.len(),
{
    if a.len() > 0 && b.len() > 0 && c.len() > 0 && a[0] == b[0] && b[0] == c[0] {
        lemma_text_le_transitive(a.drop_first(), b.drop_first(), c.drop_first());
    }
}

pub open spec fn ascending_names(s: Seq<String>) -> bool {
    forall|i: int, j: int| 0 <= i < j < s.len() ==> text_le(#[trigger] s[i]@, #[trigger] s[j]@)
}

/// A rule script is a file whose extension is `rhai`: the name ends in
/// `.rhai` and has something before that dot.
pub open spec fn is_rule_script(name: Seq<char>) -> bool {
    name.len() > 5 && name.skip(name.len() - 5) == ".rhai"@
}

/// `a` sorts no later than `b`.
fn name_le(a: &str, b: &str) -> (r: bool)
    ensures
        r == text_le(a@, b@),
{
    let n = a.unicode_len();
    let m = b.unicode_len();
    let mut i: usize = 0;
    assert(a@.skip(0) =~= a@);
    assert(b@.skip(0) =~= b@);
    while i < n && i < m
        invariant
            n == a@.len(),
            m == b@.len(),
            i <= n,
            i <= m,
            text_le(a@, b@) == text_le(a@.skip(i as int), b@.skip(i as int)),
        decreases n - i,
    {
        let x = a.get_char(i);
        let y = b.get_char(i);
        assert(a@.skip(i as int)[0] == x);
        assert(b@.skip(i as int)[0] == y);
        if x != y {
            return x < y;
        }
        assert(a@.skip(i as int).drop_first() =~= a@.skip(i + 1));
        assert(b@.skip(i as int).drop_first() =~= b@.skip(i + 1));
        i += 1;
    }
    i == n
}

fn is_rule_script_name(name: &str) -> (r: bool)
    ensures
        r == is_rule_script(name@),
{
    proof {
        reveal_strlit(".rhai");
    }
    let n = name.unicode_len();
    if n <= 5 {
        return false;
    }
    let tail = name.substring_char(n - 5, n);
    assert(tail@ =~= name@.skip(n - 5));
    crate::text::text_eq(tail, ".rhai")
}

/// The rule scripts among `names`, in the order they run: ascending by name.
pub fn rule_script_order(names: Vec<String>) -> (r: Vec<String>)
    ensures
        ascending_names(r@),
        r@.to_multiset() == names@.filter(|s: String| is_rule_script(s@)).to_multiset(),
{
    let ghost all = names@;
    let n = names.len();
    let mut rest = names;
    let mut out: Vec<String> = Vec::new();
    let mut i: usize = 0;
    assert(all.take(0).filter(|s: String| is_rule_script(s@)) =~= out@);
    while i < n
        invariant
            n == all.len(),
            i <= n,
            rest@ == all.subrange(i as int, n as int),
            ascending_names(out@),
            out@.to_multiset() == all.take(i as int).filter(|s: String| is_rule_script(s@)).to_multiset(),
        decreases n - i,
    {
        let e = rest.remove(0);
        proof {
            assert(all.take(i + 1) =~= all.take(i as int).push(e));
            all.take(i as int).lemma_filter_push(e, |s: String| is_rule_script(s@));
        }
        if is_rule_script_name(e.as_str()) {
            let mut j: usize = 0;
            while j < out.len() && name_le(out[j].as_str(), e.as_str())
                invariant
                    j <= out.len(),
                    forall|k: int| 0 <= k < j ==> text_le(#[trigger] out@[k]@, e@),
                decreases out.len() - j,
            {
                j += 1;
            }
            let ghost before = out@;
            proof {
                if j < before.len() {
                    lemma_text_le_total(before[j as int]@, e@);
                }
            }
            out.insert(j, e);
            proof {
                assert forall|a: int, b: int| 0 <= a < b < out@.len() implies
                    text_le(#[trigger] out@[a]@, #[trigger] out@[b]@) by {
                    if a < j && b == j {
                    } else if a == j && b > j {
                        assert(out@[b] == before[b - 1]);
                        if b - 1 > j {
                            lemma_text_le_transitive(e@, before[j as int]@, before[b - 1]@);
                        }
                    } else if a < j && b > j {
                        assert(out@[b] == before[b - 1]);
                    } else if a > j {
                        assert(out@[a] == before[a - 1]);
                        assert(out@[b] == before[b - 1]);
                    }
                }
            }
        }
        i += 1;
        assert(rest@ =~= all.subrange(i as int, n as int));
    }
    assert(all.take(n as int) =~= all);
    out
}

} // verus!
