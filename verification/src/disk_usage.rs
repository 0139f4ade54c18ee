//! Summaries of disk usage: totals, and the projects that use the most.

use vstd::prelude::*;
use vstd::relations::injective_on;
use vstd::set_lib::{lemma_int_range, lemma_map_size, lemma_subset_equality, set_int_range};

verus! {

/// The disk usage of one project, in bytes, by feature.
#[derive(Debug, Clone, Copy, PartialEq, Eq)]
pub struct ProjectDiskUsage {
    pub project_id: u32,
    pub issue: i64,
    pub wiki: i64,
    pub document: i64,
    pub file: i64,
    pub subversion: i64,
    pub git: i64,
    pub git_lfs: i64,
}

/// The total usage of a project: all its features added up.
pub open spec fn project_total(d: ProjectDiskUsage) -> int {
    d.issue + d.wiki + d.document + d.file + d.subversion + d.git + d.git_lfs
}

/// Whether a project's total fits in an `i64`, as the sum is computed.
pub open spec fn total_fits(d: ProjectDiskUsage) -> bool {
    &&& i64::MIN <= d.issue + d.wiki <= i64::MAX
    &&& i64::MIN <= d.issue + d.wiki + d.document <= i64::MAX
    &&& i64::MIN <= d.issue + d.wiki + d.document + d.file <= i64::MAX
    &&& i64::MIN <= d.issue + d.wiki + d.document + d.file + d.subversion <= i64::MAX
    &&& i64::MIN <= d.issue + d.wiki + d.document + d.file + d.subversion + d.git <= i64::MAX
    &&& i64::MIN <= project_total(d) <= i64::MAX
}

impl ProjectDiskUsage {
    /// The total usage of the project.
    pub fn total(&self) -> (r: i64)
        requires
            total_fits(*self),
        ensures
            r == project_total(*self),
    {
        self.issue + self.wiki + self.document + self.file + self.subversion + self.git
            + self.git_lfs
    }
}

/// Whether entry `j` comes before entry `i` when entries are ordered by
/// usage, largest first, equal usages keeping their order.
pub open spec fn outranks(s: Seq<(u32, i64)>, j: int, i: int) -> bool {
    s[j].1 > s[i].1 || (s[j].1 == s[i].1 && j < i)
}

/// How many of the first `n` entries come before entry `i`.
pub open spec fn rank_upto(s: Seq<(u32, i64)>, i: int, n: int) -> nat
    decreases n,
{
    if n <= 0 {
        0
    } else {
        rank_upto(s, i, n - 1) + if outranks(s, n - 1, i) { 1nat } else { 0nat }
    }
}

/// The position of entry `i` once the entries are ordered by usage.
pub open spec fn rank(s: Seq<(u32, i64)>, i: int) -> nat {
    rank_upto(s, i, s.len() as int)
}

/// `r` is `s` ordered by usage, largest first, equal usages keeping their
/// order (a stable sort): every entry sits at its rank.
pub open spec fn ordered_by_usage(s: Seq<(u32, i64)>, r: Seq<(u32, i64)>) -> bool {
    &&& r.len() == s.len()
    &&& forall|i: int| 0 <= i < s.len() ==> r[rank(s, i) as int] == #[trigger] s[i]
}

/// No entry comes before itself, so a rank stays below the count.
proof fn lemma_rank_bound(s: Seq<(u32, i64)>, i: int, n: int)
    requires
        0 <= i < n <= s.len(),
    ensures
        rank_upto(s, i, n) <= n - 1,
    decreases n,
{
    if n - 1 > i {
        lemma_rank_bound(s, i, n - 1);
    } else {
        lemma_rank_at_most(s, i, n - 1);
    }
}

/// At most `n` of the first `n` entries come before any entry.
proof fn lemma_rank_at_most(s: Seq<(u32, i64)>, i: int, n: int)
    ensures
        rank_upto(s, i, n) <= if n < 0 { 0 } else { n },
    decreases n,
{
    if n > 0 {
        lemma_rank_at_most(s, i, n - 1);
    }
}

/// When entry `a` comes before entry `b`, everything before `a` is before
/// `b` too, and `a` is: so `b` ranks later.
proof fn lemma_rank_ordered(s: Seq<(u32, i64)>, a: int, b: int, n: int)
    requires
        0 <= a < s.len(),
        0 <= b < s.len(),
        outranks(s, a, b),
        0 <= n <= s.len(),
    ensures
        rank_upto(s, b, n) >= rank_upto(s, a, n) + if a < n { 1nat } else { 0nat },
    decreases n,
{
    if n > 0 {
        lemma_rank_ordered(s, a, b, n - 1);
    }
}

/// Different entries have different ranks.
proof fn lemma_rank_injective(s: Seq<(u32, i64)>, a: int, b: int)
    requires
        0 <= a < s.len(),
        0 <= b < s.len(),
        a != b,
    ensures
        rank(s, a) != rank(s, b),
{
    if outranks(s, a, b) {
        lemma_rank_ordered(s, a, b, s.len() as int);
    } else {
        lemma_rank_ordered(s, b, a, s.len() as int);
    }
}

/// Every position of the ordering is taken: the ranks of the entries are
/// exactly the positions `0 .. s.len()`.
proof fn lemma_rank_onto(s: Seq<(u32, i64)>, k: int)
    requires
        0 <= k < s.len(),
    ensures
        exists|i: int| 0 <= i < s.len() && #[trigger] rank(s, i) == k,
{
    let n = s.len() as int;
    let positions = set_int_range(0, n);
    let f = |i: int| rank(s, i) as int;
    let taken = positions.map(f);
    lemma_int_range(0, n);
    assert(injective_on(f, positions)) by {
        assert forall|a: int, b: int|
            positions.contains(a) && positions.contains(b) && f(a) == f(b) implies a == b by {
            if a != b {
                lemma_rank_injective(s, a, b);
            }
        }
    }
    lemma_map_size(positions, taken, f);
    assert(taken.subset_of(positions)) by {
        assert forall|p: int| taken.contains(p) implies positions.contains(p) by {
            let i = choose|i: int| positions.contains(i) && f(i) == p;
            lemma_rank_bound(s, i, n);
        }
    }
    lemma_subset_equality(taken, positions);
    assert(positions.contains(k));
    assert(taken.contains(k));
    let i = choose|i: int| positions.contains(i) && f(i) == k;
    assert(rank(s, i) == k);
}

/// Ordering by usage puts larger usages first: along the ordered entries
/// usage never grows.
pub proof fn law_usage_order_is_descending(s: Seq<(u32, i64)>, r: Seq<(u32, i64)>, p: int, q: int)
    requires
        ordered_by_usage(s, r),
        0 <= p < q < r.len(),
    ensures
        r[p].1 >= r[q].1,
{
    lemma_rank_onto(s, p);
    lemma_rank_onto(s, q);
    let i = choose|i: int| 0 <= i < s.len() && #[trigger] rank(s, i) == p;
    let j = choose|j: int| 0 <= j < s.len() && #[trigger] rank(s, j) == q;
    assert(r[p] == s[i]);
    assert(r[q] == s[j]);
    if s[i].1 < s[j].1 {
        lemma_rank_ordered(s, j, i, s.len() as int);
    }
}

/// Ordering by usage is stable: of two entries with the same usage, the one
/// given first comes first.
pub proof fn law_usage_order_is_stable(s: Seq<(u32, i64)>, i: int, j: int)
    requires
        0 <= i < j < s.len(),
        s[i].1 == s[j].1,
    ensures
        rank(s, i) < rank(s, j),
{
    lemma_rank_ordered(s, i, j, s.len() as int);
}

/// Ordering by usage loses no entry: every ordered entry is one of the
/// entries given.
pub proof fn law_usage_order_keeps_entries(s: Seq<(u32, i64)>, r: Seq<(u32, i64)>, p: int)
    requires
        ordered_by_usage(s, r),
        0 <= p < r.len(),
    ensures
        s.contains(r[p]),
{
    lemma_rank_onto(s, p);
    let i = choose|i: int| 0 <= i < s.len() && #[trigger] rank(s, i) == p;
    assert(r[p] == s[i]);
}

/// The rank of entry `i`.
fn rank_of(s: &Vec<(u32, i64)>, i: usize) -> (r: usize)
    requires
        i < s.len(),
    ensures
        r == rank(s@, i as int),
{
    let mut count: usize = 0;
    let mut j: usize = 0;
    while j < s.len()
        invariant
            i < s.len(),
            j <= s.len(),
            count == rank_upto(s@, i as int, j as int),
            count <= j,
        decreases s.len() - j,
    {
        if s[j].1 > s[i].1 || (s[j].1 == s[i].1 && j < i) {
            count += 1;
        }
        j += 1;
    }
    count
}

/// The entries ordered by usage, largest first, equal usages keeping their
/// order.
pub fn order_by_usage(s: &Vec<(u32, i64)>) -> (r: Vec<(u32, i64)>)
    ensures
        ordered_by_usage(s@, r@),
{
    let n = s.len();
    let mut r: Vec<(u32, i64)> = Vec::new();
    let mut k: usize = 0;
    while k < n
        invariant
            k <= n == s.len(),
            r.len() == k,
        decreases n - k,
    {
        r.push((0, 0));
        k += 1;
    }
    let mut i: usize = 0;
    while i < n
        invariant
            i <= n == s.len(),
            r.len() == n,
            forall|j: int| 0 <= j < i ==> #[trigger] rank(s@, j) < n,
            forall|j: int| 0 <= j < i ==> r@[rank(s@, j) as int] == #[trigger] s@[j],
        decreases n - i,
    {
        let pos = rank_of(s, i);
        proof {
            lemma_rank_bound(s@, i as int, n as int);
            assert forall|j: int| 0 <= j < i implies rank(s@, j) != pos by {
                lemma_rank_injective(s@, j, i as int);
            }
        }
        let ghost before = r@;
        r.set(pos, s[i]);
        assert forall|j: int| 0 <= j <= i implies r@[rank(s@, j) as int] == #[trigger] s@[j] by {
            if j < i {
                assert(before[rank(s@, j) as int] == s@[j]);
            }
        }
        i += 1;
    }
    r
}

/// Each project's id with its total usage, in the order given.
pub open spec fn usage_totals(details: Seq<ProjectDiskUsage>) -> Seq<(u32, i64)> {
    details.map_values(|d: ProjectDiskUsage| (d.project_id, project_total(d) as i64))
}

/// The projects that use the most disk, at most `limit` of them, largest
/// first, each with its total.
pub fn top_project_usages(details: &Vec<ProjectDiskUsage>, limit: usize) -> (r: Vec<(u32, i64)>)
    requires
        forall|i: int| 0 <= i < details.len() ==> total_fits(#[trigger] details@[i]),
    ensures
        exists|ordered: Seq<(u32, i64)>|
            #[trigger] ordered_by_usage(usage_totals(details@), ordered) && r@ == ordered.take(
                if limit < details.len() { limit as int } else { details.len() as int },
            ),
        r.len() == if limit < details.len() { limit as int } else { details.len() as int },
        forall|p: int, q: int| 0 <= p < q < r.len() ==> #[trigger] r@[p].1 >= #[trigger] r@[q].1,
{
    let ghost totals = usage_totals(details@);
    let mut usages: Vec<(u32, i64)> = Vec::new();
    let mut i: usize = 0;
    while i < details.len()
        invariant
            i <= details.len(),
            forall|j: int| 0 <= j < details.len() ==> total_fits(#[trigger] details@[j]),
            totals == usage_totals(details@),
            usages@ == totals.take(i as int),
        decreases details.len() - i,
    {
        let d = &details[i];
        usages.push((d.project_id, d.total()));
        assert(usages@ =~= totals.take(i + 1));
        i += 1;
    }
    assert(usages@ =~= totals);
    let ordered = order_by_usage(&usages);
    let count = if limit < details.len() { limit } else { details.len() };
    let mut top: Vec<(u32, i64)> = Vec::new();
    let mut k: usize = 0;
    while k < count
        invariant
            k <= count <= ordered.len() == details.len(),
            top@ == ordered@.take(k as int),
        decreases count - k,
    {
        top.push(ordered[k]);
        assert(top@ =~= ordered@.take(k + 1));
        k += 1;
    }
    assert forall|p: int, q: int| 0 <= p < q < top.len() implies #[trigger] top@[p].1 >= #[trigger] top@[q].1 by {
        law_usage_order_is_descending(usages@, ordered@, p, q);
    }
    top
}

/// The usage of the space, in bytes, by feature.
#[derive(Debug, Clone, Copy, PartialEq, Eq)]
pub struct SpaceDiskUsage {
    pub capacity: i64,
    pub issue: i64,
    pub wiki: i64,
    pub file: i64,
    pub subversion: i64,
    pub git: i64,
    pub git_lfs: i64,
}

/// The space's used total as the summary shows it: issues, wiki, files,
/// Subversion, Git and Git LFS.
pub open spec fn space_used(u: SpaceDiskUsage) -> int {
    u.issue + u.wiki + u.file + u.subversion + u.git + u.git_lfs
}

/// Whether the used total fits in an `i64`, as it is computed.
pub open spec fn space_used_fits(u: SpaceDiskUsage) -> bool {
    &&& i64::MIN <= u.issue + u.wiki <= i64::MAX
    &&& i64::MIN <= u.issue + u.wiki + u.file <= i64::MAX
    &&& i64::MIN <= u.issue + u.wiki + u.file + u.subversion <= i64::MAX
    &&& i64::MIN <= u.issue + u.wiki + u.file + u.subversion + u.git <= i64::MAX
    &&& i64::MIN <= space_used(u) <= i64::MAX
}

impl SpaceDiskUsage {
    /// The used total.
    pub fn total_used(&self) -> (r: i64)
        requires
            space_used_fits(*self),
        ensures
            r == space_used(*self),
    {
        self.issue + self.wiki + self.file + self.subversion + self.git + self.git_lfs
    }
}

} // verus!
