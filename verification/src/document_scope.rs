//! Which projects a document listing has to be checked against: each
//! project once, in the order the documents name them.

use vstd::prelude::*;

verus! {

/// The values of `s`, each kept at its first occurrence.
pub open spec fn first_occurrences(s: Seq<u32>) -> Seq<u32>
    decreases s.len(),
{
    if s.len() == 0 {
        Seq::empty()
    } else {
        let rest = first_occurrences(s.drop_last());
        if rest.contains(s.last()) {
            rest
        } else {
            rest.push(s.last())
        }
    }
}

/// Whether no value occurs twice in `s`.
pub open spec fn all_distinct(s: Seq<u32>) -> bool {
    forall|i: int, j: int| 0 <= i < j < s.len() ==> s[i] != s[j]
}

/// Keeping first occurrences drops nothing and adds nothing.
pub proof fn lemma_first_occurrences_same_values(s: Seq<u32>, v: u32)
    ensures
        first_occurrences(s).contains(v) <==> s.contains(v),
    decreases s.len(),
{
    if s.len() > 0 {
        lemma_first_occurrences_same_values(s.drop_last(), v);
        if s.drop_last().contains(v) {
            let k = choose|k: int| 0 <= k < s.drop_last().len() && s.drop_last()[k] == v;
            assert(s[k] == v);
        }
        if s.contains(v) && v != s.last() {
            let k = choose|k: int| 0 <= k < s.len() && s[k] == v;
            assert(s.drop_last()[k] == v);
        }
        let rest = first_occurrences(s.drop_last());
        if !rest.contains(s.last()) {
            assert(rest.push(s.last())[rest.len() as int] == s.last());
            if rest.contains(v) {
                let k = choose|k: int| 0 <= k < rest.len() && rest[k] == v;
                assert(rest.push(s.last())[k] == v);
            }
            if rest.push(s.last()).contains(v) && v != s.last() {
                let k = choose|k: int| 0 <= k < rest.len() + 1 && rest.push(s.last())[k] == v;
                assert(rest[k] == v);
            }
        }
        assert(s[s.len() - 1] == s.last());
    }
}

/// Keeping first occurrences leaves no value twice.
pub proof fn lemma_first_occurrences_distinct(s: Seq<u32>)
    ensures
        all_distinct(first_occurrences(s)),
    decreases s.len(),
{
    if s.len() > 0 {
        lemma_first_occurrences_distinct(s.drop_last());
        let rest = first_occurrences(s.drop_last());
        if !rest.contains(s.last()) {
            let r = rest.push(s.last());
            assert forall|i: int, j: int| 0 <= i < j < r.len() implies r[i] != r[j] by {
                if j == rest.len() {
                    if r[i] == r[j] {
                        assert(rest[i] == s.last());
                    }
                }
            }
        }
    }
}

/// The projects named by `project_ids`, each once, in the order of their
/// first occurrence.
pub fn projects_to_check(project_ids: &Vec<u32>) -> (r: Vec<u32>)
    ensures
        r@ == first_occurrences(project_ids@),
        all_distinct(r@),
        forall|v: u32| r@.contains(v) <==> project_ids@.contains(v),
{
    let mut out: Vec<u32> = Vec::new();
    let mut i: usize = 0;
    while i < project_ids.len()
        invariant
            i <= project_ids.len(),
            out@ == first_occurrences(project_ids@.take(i as int)),
        decreases project_ids.len() - i,
    {
        let v = project_ids[i];
        let mut seen = false;
        let mut k: usize = 0;
        while k < out.len()
            invariant
                k <= out.len(),
                seen <==> out@.take(k as int).contains(v),
            decreases out.len() - k,
        {
            proof {
                let before = out@.take(k as int);
                let after = out@.take(k + 1);
                if seen {
                    let w = choose|w: int| 0 <= w < before.len() && before[w] == v;
                    assert(after[w] == v);
                }
                if after.contains(v) && out@[k as int] != v {
                    let w = choose|w: int| 0 <= w < after.len() && after[w] == v;
                    assert(before[w] == v);
                }
                assert(after[k as int] == out@[k as int]);
            }
            if out[k] == v {
                seen = true;
            }
            k += 1;
        }
        assert(out@.take(out.len() as int) =~= out@);
        assert(project_ids@.take(i + 1).drop_last() =~= project_ids@.take(i as int));
        assert(project_ids@.take(i + 1).last() == v);
        if !seen {
            out.push(v);
        }
        i += 1;
    }
    assert(project_ids@.take(project_ids.len() as int) =~= project_ids@);
    proof {
        lemma_first_occurrences_distinct(project_ids@);
        assert forall|v: u32| out@.contains(v) <==> project_ids@.contains(v) by {
            lemma_first_occurrences_same_values(project_ids@, v);
        }
    }
    out
}

} // verus!
