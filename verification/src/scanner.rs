//! Scan bookkeeping: what a walk of a project found, per rule, and how the
//! answers of git are turned into coverage states.
//!
//! The walk itself, the size measurement and the calls to git are disk and
//! process work; they hand their findings to the functions here.

use vstd::prelude::*;
use crate::catalog::Rule;
use crate::seqs::{sum_of, count_if, keep_if, lemma_keep_if_push, lemma_sum_of_push, lemma_sum_of_update, lemma_sum_of_nonneg, lemma_count_if_take};
use crate::text::{views, str_eq, contains_str, push_char, starts_with, starts_with_spec, trim, trim_spec, trim_end_char, trim_end_char_spec, dedup_spec, insert_unique, split_spec, split_on, chars_of, is_char, strip_both};

verus! {

/// One location on disk that a rule recognised.
#[derive(Clone, Debug)]
pub struct Occurrence {
    pub path: String,
    pub rel: String,
    pub size: u64,
    pub files: u64,
    pub is_dir: bool,
    pub ignored: bool,
    pub is_tracked: bool,
}

pub struct OccurrenceView {
    pub path: Seq<char>,
    pub rel: Seq<char>,
    pub size: u64,
    pub files: u64,
    pub is_dir: bool,
    pub ignored: bool,
    pub is_tracked: bool,
}

impl View for Occurrence {
    type V = OccurrenceView;

    open spec fn view(&self) -> OccurrenceView {
        OccurrenceView {
            path: self.path@,
            rel: self.rel@,
            size: self.size,
            files: self.files,
            is_dir: self.is_dir,
            ignored: self.ignored,
            is_tracked: self.is_tracked,
        }
    }
}

/// Every occurrence of one rule in a project.
#[derive(Clone, Debug)]
pub struct Bucket {
    pub rule: Rule,
    pub size: u64,
    pub files: u64,
    pub occurrences: Vec<Occurrence>,
    pub ignore_status: String,
    pub tracked_count: usize,
}

pub struct BucketView {
    pub rule: Rule,
    pub size: u64,
    pub files: u64,
    pub occurrences: Seq<OccurrenceView>,
    pub ignore_status: Seq<char>,
    pub tracked_count: usize,
}

pub open spec fn occurrence_views(v: Seq<Occurrence>) -> Seq<OccurrenceView> {
    v.map_values(|o: Occurrence| o@)
}

impl View for Bucket {
    type V = BucketView;

    open spec fn view(&self) -> BucketView {
        BucketView {
            rule: self.rule,
            size: self.size,
            files: self.files,
            occurrences: occurrence_views(self.occurrences@),
            ignore_status: self.ignore_status@,
            tracked_count: self.tracked_count,
        }
    }
}

pub open spec fn bucket_views(v: Seq<Bucket>) -> Seq<BucketView> {
    v.map_values(|b: Bucket| b@)
}

/// What the walk of one project found.
#[derive(Clone, Debug)]
pub struct ProjectScan {
    pub buckets: Vec<Bucket>,
    pub total_size: u64,
    pub total_files: u64,
    pub git_size: u64,
}

pub struct ProjectScanView {
    pub buckets: Seq<BucketView>,
    pub total_size: u64,
    pub total_files: u64,
    pub git_size: u64,
}

impl View for ProjectScan {
    type V = ProjectScanView;

    open spec fn view(&self) -> ProjectScanView {
        ProjectScanView {
            buckets: bucket_views(self.buckets@),
            total_size: self.total_size,
            total_files: self.total_files,
            git_size: self.git_size,
        }
    }
}

pub open spec fn occ_size(o: OccurrenceView) -> int {
    o.size as int
}

pub open spec fn occ_files(o: OccurrenceView) -> int {
    o.files as int
}

pub open spec fn bucket_size(b: BucketView) -> int {
    b.size as int
}

pub open spec fn bucket_files(b: BucketView) -> int {
    b.files as int
}

/// A bucket's totals are those of its occurrences, and it holds at least one.
pub open spec fn bucket_wf(b: BucketView) -> bool {
    &&& b.occurrences.len() >= 1
    &&& b.size as int == sum_of(b.occurrences, |o: OccurrenceView| occ_size(o))
    &&& b.files as int == sum_of(b.occurrences, |o: OccurrenceView| occ_files(o))
}

/// Index of the first bucket for the rule `id`, or -1.
pub open spec fn bucket_index(buckets: Seq<BucketView>, id: Seq<char>, k: int) -> int
    decreases buckets.len() - k,
{
    if k < 0 || k >= buckets.len() {
        -1
    } else if buckets[k].rule.id@ == id {
        k
    } else {
        bucket_index(buckets, id, k + 1)
    }
}

impl ProjectScanView {
    /// Sum of the buckets' sizes: what deleting every artifact would free.
    pub open spec fn artifact_size(self) -> int {
        sum_of(self.buckets, |b: BucketView| bucket_size(b))
    }

    pub open spec fn artifact_files(self) -> int {
        sum_of(self.buckets, |b: BucketView| bucket_files(b))
    }

    /// One bucket per rule, each consistent with its occurrences, and the
    /// artifacts counted inside the project's totals.
    pub open spec fn wf(self) -> bool {
        &&& forall|i: int| 0 <= i < self.buckets.len() ==> bucket_wf(#[trigger] self.buckets[i])
        &&& forall|i: int, j: int| 0 <= i < j < self.buckets.len()
            ==> #[trigger] self.buckets[i].rule.id@ != #[trigger] self.buckets[j].rule.id@
        &&& self.artifact_size() <= self.total_size
        &&& self.artifact_files() <= self.total_files
    }
}

impl ProjectScan {
    /// An empty scan.
    pub fn new() -> (r: ProjectScan)
        ensures
            r@.wf(),
            r@.buckets.len() == 0,
            r@.total_size == 0,
            r@.total_files == 0,
            r@.git_size == 0,
    {
        let r = ProjectScan { buckets: Vec::new(), total_size: 0, total_files: 0, git_size: 0 };
        assert(r@.buckets =~= Seq::<BucketView>::empty());
        r
    }

    /// A `.git` directory of `size` bytes in `count` files: counted in the
    /// totals, and as the repository's size when it sits at the project root.
    pub fn record_git_dir(&mut self, size: u64, count: u64, at_root: bool)
        requires
            old(self)@.wf(),
            old(self).total_size + size <= u64::MAX,
            old(self).total_files + count <= u64::MAX,
        ensures
            final(self)@.wf(),
            final(self)@.buckets == old(self)@.buckets,
            final(self).total_size == old(self).total_size + size,
            final(self).total_files == old(self).total_files + count,
            final(self).git_size == if at_root { size } else { old(self).git_size },
    {
        self.total_size = self.total_size + size;
        self.total_files = self.total_files + count;
        if at_root {
            self.git_size = size;
        }
    }

    /// A file that no rule claims: counted in the totals only.
    pub fn record_plain_file(&mut self, size: u64)
        requires
            old(self)@.wf(),
            old(self).total_size + size <= u64::MAX,
            old(self).total_files + 1 <= u64::MAX,
        ensures
            final(self)@.wf(),
            final(self)@.buckets == old(self)@.buckets,
            final(self).total_size == old(self).total_size + size,
            final(self).total_files == old(self).total_files + 1,
            final(self).git_size == old(self).git_size,
    {
        self.total_size = self.total_size + size;
        self.total_files = self.total_files + 1;
    }

    /// An entry that `rule` recognised: counted in the totals and added to the
    /// rule's bucket, which is created, last, on its first occurrence.
    pub fn record_artifact(&mut self, rule: Rule, path: String, rel: String, size: u64,
        files: u64, is_dir: bool)
        requires
            old(self)@.wf(),
            old(self).total_size + size <= u64::MAX,
            old(self).total_files + files <= u64::MAX,
        ensures
            final(self)@.wf(),
            final(self).total_size == old(self).total_size + size,
            final(self).total_files == old(self).total_files + files,
            final(self).git_size == old(self).git_size,
            ({
                let occ = OccurrenceView {
                    path: path@, rel: rel@, size, files, is_dir, ignored: false, is_tracked: false,
                };
                let old_b = old(self)@.buckets;
                let k = bucket_index(old_b, rule.id@, 0);
                if k >= 0 {
                    final(self)@.buckets == old_b.update(k, BucketView {
                        size: (old_b[k].size + size) as u64,
                        files: (old_b[k].files + files) as u64,
                        occurrences: old_b[k].occurrences.push(occ),
                        ..old_b[k]
                    })
                } else {
                    final(self)@.buckets == old_b.push(BucketView {
                        rule,
                        size,
                        files,
                        occurrences: seq![occ],
                        ignore_status: "na"@,
                        tracked_count: 0,
                    })
                }
            }),
    {
        let ghost old_v = self@;
        let occ = Occurrence { path, rel, size, files, is_dir, ignored: false, is_tracked: false };
        let ghost occ_v = occ@;
        let mut k: usize = 0;
        while k < self.buckets.len()
            invariant
                self@ == old_v,
                k <= self.buckets@.len(),
                bucket_index(old_v.buckets, rule.id@, 0) == bucket_index(old_v.buckets, rule.id@, k as int),
            ensures
                self@ == old_v,
                k <= self.buckets@.len(),
                bucket_index(old_v.buckets, rule.id@, 0) == if k < self.buckets@.len() { k as int } else { -1 },
            decreases self.buckets@.len() - k,
        {
            if str_eq(self.buckets[k].rule.id, rule.id) {
                break;
            }
            k = k + 1;
        }
        proof {
            lemma_sum_of_nonneg(old_v.buckets, |b: BucketView| bucket_size(b));
            lemma_sum_of_nonneg(old_v.buckets, |b: BucketView| bucket_files(b));
        }
        self.total_size = self.total_size + size;
        self.total_files = self.total_files + files;
        if k < self.buckets.len() {
            proof {
                assert(old_v.buckets[k as int].size <= old_v.artifact_size()) by {
                    lemma_bucket_le_sum(old_v.buckets, k as int, |b: BucketView| bucket_size(b));
                }
                assert(old_v.buckets[k as int].files <= old_v.artifact_files()) by {
                    lemma_bucket_le_sum(old_v.buckets, k as int, |b: BucketView| bucket_files(b));
                }
            }
            let bucket = &mut self.buckets[k];
            bucket.size = bucket.size + size;
            bucket.files = bucket.files + files;
            bucket.occurrences.push(occ);
            proof {
                let nb = self@.buckets[k as int];
                let ob = old_v.buckets[k as int];
                assert(nb.occurrences =~= ob.occurrences.push(occ_v));
                lemma_sum_of_push(ob.occurrences, occ_v, |o: OccurrenceView| occ_size(o));
                lemma_sum_of_push(ob.occurrences, occ_v, |o: OccurrenceView| occ_files(o));
                assert(self@.buckets =~= old_v.buckets.update(k as int, nb));
                lemma_sum_of_update(old_v.buckets, k as int, nb, |b: BucketView| bucket_size(b));
                lemma_sum_of_update(old_v.buckets, k as int, nb, |b: BucketView| bucket_files(b));
            }
        } else {
            let mut occurrences = Vec::new();
            occurrences.push(occ);
            let bucket = Bucket {
                rule,
                size,
                files,
                occurrences,
                ignore_status: crate::text::from_literal("na"),
                tracked_count: 0,
            };
            let ghost nb = bucket@;
            self.buckets.push(bucket);
            proof {
                assert(nb.occurrences =~= seq![occ_v]);
                assert(seq![occ_v] =~= Seq::<OccurrenceView>::empty().push(occ_v));
                lemma_sum_of_push(Seq::<OccurrenceView>::empty(), occ_v, |o: OccurrenceView| occ_size(o));
                lemma_sum_of_push(Seq::<OccurrenceView>::empty(), occ_v, |o: OccurrenceView| occ_files(o));
                assert(self@.buckets =~= old_v.buckets.push(nb));
                lemma_sum_of_push(old_v.buckets, nb, |b: BucketView| bucket_size(b));
                lemma_sum_of_push(old_v.buckets, nb, |b: BucketView| bucket_files(b));
                lemma_bucket_index_absent(old_v.buckets, rule.id@, 0);
            }
        }
    }
}

proof fn lemma_bucket_le_sum(s: Seq<BucketView>, k: int, f: spec_fn(BucketView) -> int)
    requires
        0 <= k < s.len(),
        forall|i: int| 0 <= i < s.len() ==> f(#[trigger] s[i]) >= 0,
    ensures
        f(s[k]) <= sum_of(s, f),
    decreases s.len(),
{
    if k < s.len() - 1 {
        lemma_bucket_le_sum(s.drop_last(), k, f);
    } else {
        lemma_sum_of_nonneg(s.drop_last(), f);
    }
}

proof fn lemma_bucket_index_absent(s: Seq<BucketView>, id: Seq<char>, k: int)
    requires
        0 <= k,
        bucket_index(s, id, k) == -1,
    ensures
        forall|i: int| k <= i < s.len() ==> s[i].rule.id@ != id,
    decreases s.len() - k,
{
    if k < s.len() {
        lemma_bucket_index_absent(s, id, k + 1);
    }
}

} // verus!

verus! {

/// `.gitignore` coverage state of an artifact with `total` occurrences, of
/// which `ignored` are covered by a pattern and `in_index` hold files that
/// git already tracks.
///
/// Git never reports a tracked path as ignored: while it sits in the index,
/// a pattern has no effect, hence a state of its own.
pub open spec fn ignore_state(ignored: int, in_index: int, total: int) -> &'static str {
    if total == 0 {
        "na"
    } else if ignored == 0 && in_index > 0 {
        "tracked"
    } else if ignored == 0 {
        "none"
    } else if ignored == total {
        "all"
    } else {
        "partial"
    }
}

/// Law: an artifact with no occurrence has no coverage state (`na`);
/// otherwise it is `all` exactly when every occurrence is ignored, whatever
/// git tracks; `partial` exactly when some but not all are; and, when none
/// is, `tracked` if some occurrence is in the index and `none` if not.
pub proof fn lemma_ignore_state_meaning(ignored: int, in_index: int, total: int)
    ensures
        total == 0 ==> ignore_state(ignored, in_index, total)@ == "na"@,
        total != 0 ==> (ignore_state(ignored, in_index, total)@ == "all"@ <==> ignored == total),
        total != 0 ==> (ignore_state(ignored, in_index, total)@ == "partial"@
            <==> (ignored != 0 && ignored != total)),
        total != 0 ==> (ignore_state(ignored, in_index, total)@ == "tracked"@
            <==> (ignored == 0 && in_index > 0)),
        total != 0 ==> (ignore_state(ignored, in_index, total)@ == "none"@
            <==> (ignored == 0 && in_index <= 0)),
{
    reveal_strlit("na");
    reveal_strlit("all");
    reveal_strlit("partial");
    reveal_strlit("tracked");
    reveal_strlit("none");
    assert("na"@.len() == 2 && "all"@.len() == 3 && "none"@.len() == 4);
    assert("partial"@.len() == 7 && "tracked"@.len() == 7);
    assert("partial"@[0] != "tracked"@[0]);
}

/// Coverage state: `na` with no occurrence, `tracked` when none is ignored
/// but some are in the index, `none`, `all`, or `partial`.
pub fn ignore_status(ignored: usize, in_index: usize, total: usize) -> (r: &'static str)
    ensures
        r == ignore_state(ignored as int, in_index as int, total as int),
{
    if total == 0 {
        "na"
    } else if ignored == 0 && in_index > 0 {
        "tracked"
    } else if ignored == 0 {
        "none"
    } else if ignored == total {
        "all"
    } else {
        "partial"
    }
}

/// The relative paths of all occurrences, bucket after bucket.
pub open spec fn all_rels(buckets: Seq<BucketView>) -> Seq<Seq<char>>
    decreases buckets.len(),
{
    if buckets.len() == 0 {
        Seq::empty()
    } else {
        all_rels(buckets.drop_last()) + buckets.last().occurrences.map_values(|o: OccurrenceView| o.rel)
    }
}

/// The relative paths to ask git about, in bucket and occurrence order.
pub fn artifact_rels(buckets: &Vec<Bucket>) -> (r: Vec<String>)
    ensures
        views(r@) == all_rels(bucket_views(buckets@)),
{
    let mut r: Vec<String> = Vec::new();
    let mut i: usize = 0;
    while i < buckets.len()
        invariant
            i <= buckets@.len(),
            views(r@) == all_rels(bucket_views(buckets@).take(i as int)),
        decreases buckets@.len() - i,
    {
        let occurrences = &buckets[i].occurrences;
        let ghost before = views(r@);
        let mut j: usize = 0;
        while j < occurrences.len()
            invariant
                i < buckets@.len(),
                occurrences == &buckets@[i as int].occurrences,
                j <= occurrences@.len(),
                views(r@) == before + occurrence_views(occurrences@).take(j as int).map_values(
                    |o: OccurrenceView| o.rel),
            decreases occurrences@.len() - j,
        {
            let ghost prev = r@;
            r.push(occurrences[j].rel.clone());
            proof {
                let ov = occurrence_views(occurrences@);
                assert(views(r@) =~= views(prev).push(ov[j as int].rel));
                assert(ov.take(j + 1).map_values(|o: OccurrenceView| o.rel) =~= ov.take(j as int).map_values(
                    |o: OccurrenceView| o.rel).push(ov[j as int].rel));
                assert(views(r@) =~= before + ov.take(j + 1).map_values(|o: OccurrenceView| o.rel));
            }
            j = j + 1;
        }
        proof {
            let bs = bucket_views(buckets@);
            assert(bs.take(i + 1).drop_last() =~= bs.take(i as int));
            assert(occurrence_views(occurrences@).take(j as int) =~= occurrence_views(occurrences@));
            assert(views(r@) =~= all_rels(bs.take(i + 1)));
        }
        i = i + 1;
    }
    proof {
        assert(bucket_views(buckets@).take(i as int) =~= bucket_views(buckets@));
    }
    r
}

/// An occurrence with the answers of git: ignored when `check-ignore` named
/// its path, tracked when `ls-files` found files under it.
pub open spec fn annotate_occurrence(o: OccurrenceView, ignored: Seq<Seq<char>>,
    in_index: Seq<Seq<char>>) -> OccurrenceView {
    OccurrenceView { ignored: ignored.contains(o.rel), is_tracked: in_index.contains(o.rel), ..o }
}

pub open spec fn is_ignored(o: OccurrenceView) -> bool {
    o.ignored
}

pub open spec fn in_git_index(o: OccurrenceView) -> bool {
    o.is_tracked
}

/// A bucket with its occurrences annotated and its state derived from them.
pub open spec fn annotate_bucket(b: BucketView, ignored: Seq<Seq<char>>, in_index: Seq<Seq<char>>) -> BucketView {
    let occ = b.occurrences.map_values(|o: OccurrenceView| annotate_occurrence(o, ignored, in_index));
    let n_ignored = count_if(occ, |o: OccurrenceView| is_ignored(o));
    let n_tracked = count_if(occ, |o: OccurrenceView| in_git_index(o));
    BucketView {
        occurrences: occ,
        ignore_status: ignore_state(n_ignored as int, n_tracked as int, occ.len() as int)@,
        tracked_count: n_tracked as usize,
        ..b
    }
}

fn annotate_one(bucket: &mut Bucket, ignored: &Vec<String>, in_index: &Vec<String>)
    ensures
        final(bucket)@ == annotate_bucket(old(bucket)@, views(ignored@), views(in_index@)),
{
    let ghost old_b = bucket@;
    let ghost target = annotate_bucket(old_b, views(ignored@), views(in_index@)).occurrences;
    let mut n_ignored: usize = 0;
    let mut n_tracked: usize = 0;
    let mut j: usize = 0;
    while j < bucket.occurrences.len()
        invariant
            old_b == old(bucket)@,
            target == annotate_bucket(old_b, views(ignored@), views(in_index@)).occurrences,
            bucket.occurrences@.len() == old_b.occurrences.len(),
            j <= bucket.occurrences@.len(),
            bucket.rule == old_b.rule,
            bucket.size == old_b.size,
            bucket.files == old_b.files,
            bucket.ignore_status@ == old_b.ignore_status,
            bucket.tracked_count == old_b.tracked_count,
            forall|x: int| 0 <= x < j ==> #[trigger] occurrence_views(bucket.occurrences@)[x] == target[x],
            forall|x: int| j <= x < bucket.occurrences@.len() ==> #[trigger] occurrence_views(bucket.occurrences@)[x] == old_b.occurrences[x],
            n_ignored == count_if(target.take(j as int), |o: OccurrenceView| is_ignored(o)),
            n_tracked == count_if(target.take(j as int), |o: OccurrenceView| in_git_index(o)),
            n_ignored <= j,
            n_tracked <= j,
        decreases bucket.occurrences@.len() - j,
    {
        let ghost prev = occurrence_views(bucket.occurrences@);
        assert(prev[j as int] == old_b.occurrences[j as int]);
        assert(target[j as int] == annotate_occurrence(old_b.occurrences[j as int], views(ignored@), views(in_index@)));
        let occurrence = &mut bucket.occurrences[j];
        let now_ignored = contains_str(ignored, occurrence.rel.as_str());
        let now_tracked = contains_str(in_index, occurrence.rel.as_str());
        occurrence.ignored = now_ignored;
        occurrence.is_tracked = now_tracked;
        if now_ignored {
            n_ignored = n_ignored + 1;
        }
        if now_tracked {
            n_tracked = n_tracked + 1;
        }
        proof {
            assert(occurrence_views(bucket.occurrences@)[j as int] == target[j as int]);
            assert(occurrence_views(bucket.occurrences@) =~= prev.update(j as int, target[j as int]));
            lemma_count_if_take(target, j as int, |o: OccurrenceView| is_ignored(o));
            lemma_count_if_take(target, j as int, |o: OccurrenceView| in_git_index(o));
        }
        j = j + 1;
    }
    let total = bucket.occurrences.len();
    proof {
        assert(target.take(j as int) =~= target);
        assert(occurrence_views(bucket.occurrences@) =~= target);
    }
    bucket.ignore_status = crate::text::from_literal(ignore_status(n_ignored, n_tracked, total));
    bucket.tracked_count = n_tracked;
}

/// Every bucket annotated, unless there is no occurrence at all, in which
/// case git was not asked and nothing changes.
pub open spec fn annotate_all(buckets: Seq<BucketView>, ignored: Seq<Seq<char>>, in_index: Seq<Seq<char>>) -> Seq<BucketView> {
    if all_rels(buckets).len() == 0 {
        buckets
    } else {
        buckets.map_values(|b: BucketView| annotate_bucket(b, ignored, in_index))
    }
}

/// Annotating with git's answers keeps a scan well formed: sizes, counts
/// and rules stay as they were, only the coverage flags and states change.
pub proof fn lemma_annotate_keeps_wf(scan: ProjectScanView, ignored: Seq<Seq<char>>, in_index: Seq<Seq<char>>)
    requires
        scan.wf(),
    ensures
        (ProjectScanView { buckets: annotate_all(scan.buckets, ignored, in_index), ..scan }).wf(),
{
    let bs = scan.buckets;
    let nb = annotate_all(bs, ignored, in_index);
    let after = ProjectScanView { buckets: nb, ..scan };
    if all_rels(bs).len() != 0 {
        let g = |b: BucketView| annotate_bucket(b, ignored, in_index);
        assert forall|i: int| 0 <= i < nb.len() implies bucket_wf(#[trigger] nb[i]) by {
            let b = bs[i];
            assert(bucket_wf(b));
            let ga = |o: OccurrenceView| annotate_occurrence(o, ignored, in_index);
            crate::seqs::lemma_sum_map(b.occurrences, ga, |o: OccurrenceView| occ_size(o),
                |o: OccurrenceView| occ_size(o));
            crate::seqs::lemma_sum_map(b.occurrences, ga, |o: OccurrenceView| occ_files(o),
                |o: OccurrenceView| occ_files(o));
        }
        assert forall|i: int, j: int| 0 <= i < j < nb.len() implies #[trigger] nb[i].rule.id@ != #[trigger] nb[j].rule.id@ by {
            assert(bs[i].rule.id@ != bs[j].rule.id@);
        }
        crate::seqs::lemma_sum_map(bs, g, |b: BucketView| bucket_size(b), |b: BucketView| bucket_size(b));
        crate::seqs::lemma_sum_map(bs, g, |b: BucketView| bucket_files(b), |b: BucketView| bucket_files(b));
        assert(after.artifact_size() == scan.artifact_size());
        assert(after.artifact_files() == scan.artifact_files());
    } else {
        assert(after == scan);
    }
}

/// Records the `.gitignore` coverage of every occurrence, given the paths
/// that `git check-ignore` reported and those that `git ls-files` found in
/// the index.
pub fn annotate_git(buckets: &mut Vec<Bucket>, ignored: &Vec<String>, in_index: &Vec<String>)
    ensures
        bucket_views(final(buckets)@) == annotate_all(bucket_views(old(buckets)@), views(ignored@), views(in_index@)),
{
    let rels = artifact_rels(buckets);
    if rels.len() == 0 {
        return;
    }
    let ghost old_b = bucket_views(buckets@);
    let mut i: usize = 0;
    while i < buckets.len()
        invariant
            old_b == bucket_views(old(buckets)@),
            all_rels(old_b).len() != 0,
            buckets@.len() == old_b.len(),
            i <= buckets@.len(),
            forall|x: int| 0 <= x < i ==> #[trigger] bucket_views(buckets@)[x]
                == annotate_bucket(old_b[x], views(ignored@), views(in_index@)),
            forall|x: int| i <= x < buckets@.len() ==> #[trigger] bucket_views(buckets@)[x] == old_b[x],
        decreases buckets@.len() - i,
    {
        let ghost prev = bucket_views(buckets@);
        assert(prev[i as int] == old_b[i as int]);
        annotate_one(&mut buckets[i], ignored, in_index);
        proof {
            assert(bucket_views(buckets@) =~= prev.update(i as int,
                annotate_bucket(old_b[i as int], views(ignored@), views(in_index@))));
        }
        i = i + 1;
    }
    proof {
        assert(bucket_views(buckets@) =~= annotate_all(old_b, views(ignored@), views(in_index@)));
    }
}

} // verus!

verus! {

/// Occurrences of one artifact sent to the client at most; the rest is only
/// counted.
pub const MAX_OCCURRENCES_SENT: usize = 150;

} // verus!

verus! {

/// What deleting a path did.
#[derive(Clone, Debug)]
pub struct DeleteOutcome {
    pub ok: bool,
    pub freed: u64,
    pub kept_size: u64,
    pub kept_files: u64,
    pub error: String,
}

impl DeleteOutcome {
    /// Nothing went wrong, nothing counted yet.
    pub fn success() -> (r: DeleteOutcome)
        ensures
            r.ok,
            r.freed == 0,
            r.kept_size == 0,
            r.kept_files == 0,
            r.error@ == Seq::<char>::empty(),
    {
        DeleteOutcome { ok: true, freed: 0, kept_size: 0, kept_files: 0, error: String::new() }
    }

    /// The deletion failed with `error`.
    pub fn failure(error: String) -> (r: DeleteOutcome)
        ensures
            !r.ok,
            r.freed == 0,
            r.kept_size == 0,
            r.kept_files == 0,
            r.error == error,
    {
        DeleteOutcome { ok: false, freed: 0, kept_size: 0, kept_files: 0, error }
    }
}

/// Some keep pattern matches the file name.
pub open spec fn matches_keep_spec(name: Seq<char>, keep: Seq<Seq<char>>) -> bool {
    exists|i: int| 0 <= i < keep.len() && crate::catalog::wildcard(#[trigger] keep[i], name)
}

/// Whether a file named `name` is to be preserved.
pub fn matches_keep(name: &str, keep: &Vec<String>) -> (r: bool)
    ensures
        r == matches_keep_spec(name@, views(keep@)),
{
    let mut i: usize = 0;
    while i < keep.len()
        invariant
            i <= keep@.len(),
            forall|x: int| 0 <= x < i ==> !crate::catalog::wildcard(#[trigger] views(keep@)[x], name@),
        decreases keep@.len() - i,
    {
        if crate::catalog::wildcard_match(keep[i].as_str(), name) {
            assert(crate::catalog::wildcard(views(keep@)[i as int], name@));
            return true;
        }
        i = i + 1;
    }
    false
}

/// How a path is to be deleted.
#[derive(PartialEq, Eq, Structural, Debug, Clone, Copy)]
pub enum DeletePlan {
    /// Nothing on disk: already a success.
    AlreadyGone,
    /// A file whose name matches a keep pattern: left in place.
    KeepFile,
    /// A file to remove.
    RemoveFile,
    /// A directory to empty file by file, keeping the matching files and
    /// the directories that lead to them.
    EmptyTree,
    /// A directory to remove whole.
    RemoveTree,
}

pub open spec fn delete_plan_spec(exists: bool, is_dir: bool, name: Seq<char>, keep: Seq<Seq<char>>) -> DeletePlan {
    if !exists {
        DeletePlan::AlreadyGone
    } else if !is_dir {
        if keep.len() > 0 && matches_keep_spec(name, keep) {
            DeletePlan::KeepFile
        } else {
            DeletePlan::RemoveFile
        }
    } else if keep.len() > 0 {
        DeletePlan::EmptyTree
    } else {
        DeletePlan::RemoveTree
    }
}

/// Decides how to delete a path given what the disk says of it: `keep`
/// preserves files whose name matches one of the patterns.
pub fn delete_plan(exists: bool, is_dir: bool, name: &str, keep: &Vec<String>) -> (r: DeletePlan)
    ensures
        r == delete_plan_spec(exists, is_dir, name@, views(keep@)),
{
    if !exists {
        DeletePlan::AlreadyGone
    } else if !is_dir {
        if keep.len() > 0 && matches_keep(name, keep) {
            DeletePlan::KeepFile
        } else {
            DeletePlan::RemoveFile
        }
    } else if keep.len() > 0 {
        DeletePlan::EmptyTree
    } else {
        DeletePlan::RemoveTree
    }
}

/// A kept file of `size` bytes.
pub fn kept_file_outcome(size: u64) -> (r: DeleteOutcome)
    ensures
        r.ok && r.freed == 0 && r.kept_size == size && r.kept_files == 1 && r.error@.len() == 0,
{
    let mut outcome = DeleteOutcome::success();
    outcome.kept_size = size;
    outcome.kept_files = 1;
    outcome
}

/// A file removal: `size` freed when it went through, refused otherwise.
pub fn file_removal_outcome(removed: bool, size: u64) -> (r: DeleteOutcome)
    ensures
        r.ok == removed,
        r.freed == if removed { size } else { 0 },
        r.kept_size == 0 && r.kept_files == 0,
        r.error@ == if removed { Seq::<char>::empty() } else { "deletion refused"@ },
{
    if removed {
        let mut outcome = DeleteOutcome::success();
        outcome.freed = size;
        outcome
    } else {
        DeleteOutcome::failure(crate::text::from_literal("deletion refused"))
    }
}

/// An emptied tree: a failure only when the directory is still there
/// without any kept file to explain it.
pub fn emptied_tree_outcome(freed: u64, kept_size: u64, kept_files: u64, still_exists: bool) -> (r: DeleteOutcome)
    ensures
        r.ok == !(still_exists && kept_files == 0),
        r.freed == freed && r.kept_size == kept_size && r.kept_files == kept_files,
        r.error@ == if r.ok { Seq::<char>::empty() } else { "incomplete deletion"@ },
{
    let mut outcome = DeleteOutcome::success();
    outcome.freed = freed;
    outcome.kept_size = kept_size;
    outcome.kept_files = kept_files;
    if still_exists && kept_files == 0 {
        outcome.ok = false;
        outcome.error = crate::text::from_literal("incomplete deletion");
    }
    outcome
}

/// A whole-tree removal of a directory that measured `size` bytes.
pub fn removed_tree_outcome(result: Result<(), String>, size: u64) -> (r: DeleteOutcome)
    ensures
        r.ok == result is Ok,
        r.freed == if result is Ok { size } else { 0 },
        r.kept_size == 0 && r.kept_files == 0,
        result matches Err(e) ==> r.error == e,
        result is Ok ==> r.error@.len() == 0,
{
    match result {
        Ok(()) => {
            let mut outcome = DeleteOutcome::success();
            outcome.freed = size;
            outcome
        },
        Err(error) => DeleteOutcome::failure(error),
    }
}

} // verus!

verus! {

/// Paths handed to one git invocation at most.
pub const GIT_BATCH: usize = 1500;

/// The `k`-th batch of `s`.
pub open spec fn batch_spec(s: Seq<Seq<char>>, k: int) -> Seq<Seq<char>> {
    let start = k * GIT_BATCH;
    let end = if start + GIT_BATCH <= s.len() { start + GIT_BATCH } else { s.len() as int };
    s.subrange(start, end)
}

/// Consecutive batches of at most `GIT_BATCH` paths covering `rel_paths`.
pub fn batches(rel_paths: &Vec<String>) -> (r: Vec<Vec<String>>)
    ensures
        r@.len() * GIT_BATCH >= rel_paths@.len(),
        (r@.len() - 1) * GIT_BATCH < rel_paths@.len() || r@.len() == 0,
        forall|k: int| 0 <= k < r@.len() ==> views((#[trigger] r@[k])@) == batch_spec(views(rel_paths@), k),
{
    let ghost s = views(rel_paths@);
    let mut r: Vec<Vec<String>> = Vec::new();
    let mut start: usize = 0;
    while start < rel_paths.len()
        invariant
            s == views(rel_paths@),
            start <= r@.len() * GIT_BATCH,
            start < rel_paths@.len() ==> start == r@.len() * GIT_BATCH,
            r@.len() * GIT_BATCH >= rel_paths@.len() ==> start == rel_paths@.len(),
            start <= rel_paths@.len(),
            r@.len() == 0 || (r@.len() - 1) * GIT_BATCH < rel_paths@.len(),
            forall|k: int| 0 <= k < r@.len() ==> views((#[trigger] r@[k])@) == batch_spec(s, k),
        decreases rel_paths@.len() - start,
    {
        let end = if rel_paths.len() - start >= GIT_BATCH { start + GIT_BATCH } else { rel_paths.len() };
        let mut chunk: Vec<String> = Vec::new();
        let mut i: usize = start;
        while i < end
            invariant
                s == views(rel_paths@),
                start <= i <= end,
                end <= rel_paths@.len(),
                views(chunk@) == s.subrange(start as int, i as int),
            decreases end - i,
        {
            let ghost prev = chunk@;
            chunk.push(rel_paths[i].clone());
            assert(views(chunk@) =~= views(prev).push(s[i as int]));
            assert(s.subrange(start as int, i + 1) =~= s.subrange(start as int, i as int).push(s[i as int]));
            i = i + 1;
        }
        let ghost k = r@.len() as int;
        assert(views(chunk@) == batch_spec(s, k));
        r.push(chunk);
        assert(views(r@[k]@) == batch_spec(s, k));
        start = end;
    }
    r
}

/// The bytes fed to `git check-ignore -z --stdin`: each path in UTF-8
/// followed by a NUL byte.
pub open spec fn ignore_payload_spec(rels: Seq<Seq<char>>) -> Seq<u8>
    decreases rels.len(),
{
    if rels.len() == 0 {
        Seq::empty()
    } else {
        ignore_payload_spec(rels.drop_last()) + vstd::utf8::encode_utf8(rels.last()) + seq![0u8]
    }
}

/// The standard input of `git check-ignore` for a batch of paths.
pub fn ignore_payload(chunk: &Vec<String>) -> (r: Vec<u8>)
    ensures
        r@ == ignore_payload_spec(views(chunk@)),
{
    let ghost s = views(chunk@);
    let mut payload: Vec<u8> = Vec::new();
    let mut i: usize = 0;
    while i < chunk.len()
        invariant
            s == views(chunk@),
            i <= chunk@.len(),
            payload@ == ignore_payload_spec(s.take(i as int)),
        decreases chunk@.len() - i,
    {
        let bytes = chunk[i].as_str().as_bytes();
        let ghost before = payload@;
        let mut b: usize = 0;
        while b < bytes.len()
            invariant
                b <= bytes@.len(),
                payload@ == before + bytes@.take(b as int),
            decreases bytes@.len() - b,
        {
            payload.push(bytes[b]);
            assert(bytes@.take(b + 1) =~= bytes@.take(b as int).push(bytes@[b as int]));
            b = b + 1;
        }
        payload.push(0u8);
        proof {
            assert(bytes@.take(b as int) =~= bytes@);
            assert(s.take(i + 1).drop_last() =~= s.take(i as int));
            assert(s.take(i + 1).last() == chunk@[i as int]@);
            assert(payload@ =~= ignore_payload_spec(s.take(i + 1)));
        }
        i = i + 1;
    }
    proof {
        assert(s.take(i as int) =~= s);
    }
    payload
}

/// The pieces of `s` between NUL bytes, as `split(|b| *b == 0)` yields them.
pub open spec fn split_nul_spec(s: Seq<u8>) -> Seq<Seq<u8>>
    decreases s.len(),
{
    if s.len() == 0 {
        seq![Seq::empty()]
    } else {
        let parts = split_nul_spec(s.drop_last());
        if s.last() == 0 {
            parts.push(Seq::empty())
        } else {
            parts.update(parts.len() - 1, parts.last().push(s.last()))
        }
    }
}

pub open spec fn non_empty_bytes() -> spec_fn(Seq<u8>) -> bool {
    |b: Seq<u8>| b.len() > 0
}

/// The entries of a NUL-separated git output, decoded.
pub open spec fn nul_entries(out: Seq<u8>) -> Seq<Seq<char>> {
    keep_if(split_nul_spec(out), non_empty_bytes()).map_values(|b: Seq<u8>| crate::text::utf8_lossy(b))
}

fn split_nul(out: &Vec<u8>) -> (r: Vec<Vec<u8>>)
    ensures
        r@.map_values(|v: Vec<u8>| v@) == split_nul_spec(out@),
{
    let mut parts: Vec<Vec<u8>> = Vec::new();
    parts.push(Vec::new());
    let mut i: usize = 0;
    proof {
        assert(out@.take(0) =~= Seq::<u8>::empty());
        assert(parts@.map_values(|v: Vec<u8>| v@) =~= seq![Seq::<u8>::empty()]);
    }
    while i < out.len()
        invariant
            i <= out@.len(),
            parts@.len() >= 1,
            parts@.map_values(|v: Vec<u8>| v@) == split_nul_spec(out@.take(i as int)),
        decreases out@.len() - i,
    {
        let ghost before = parts@.map_values(|v: Vec<u8>| v@);
        let byte = out[i];
        proof {
            assert(out@.take(i + 1).drop_last() =~= out@.take(i as int));
            assert(out@.take(i + 1).last() == byte);
        }
        if byte == 0 {
            parts.push(Vec::new());
            proof {
                assert(parts@.map_values(|v: Vec<u8>| v@) =~= before.push(Seq::empty()));
            }
        } else {
            let last = parts.len() - 1;
            let piece = &mut parts[last];
            piece.push(byte);
            proof {
                assert(parts@.map_values(|v: Vec<u8>| v@) =~= before.update(before.len() - 1, before.last().push(byte)));
            }
        }
        i = i + 1;
    }
    proof {
        assert(out@.take(i as int) =~= out@);
    }
    parts
}

/// The decoded non-empty entries of a NUL-separated output.
pub fn nul_fields(out: &Vec<u8>) -> (r: Vec<String>)
    ensures
        views(r@) == nul_entries(out@),
{
    let parts = split_nul(out);
    let ghost pv = parts@.map_values(|v: Vec<u8>| v@);
    let mut r: Vec<String> = Vec::new();
    let mut i: usize = 0;
    proof {
        assert(pv.take(0) =~= Seq::<Seq<u8>>::empty());
    }
    while i < parts.len()
        invariant
            pv == parts@.map_values(|v: Vec<u8>| v@),
            i <= parts@.len(),
            views(r@) == keep_if(pv.take(i as int), non_empty_bytes()).map_values(|b: Seq<u8>| crate::text::utf8_lossy(b)),
        decreases parts@.len() - i,
    {
        proof {
            assert(pv.take(i + 1) =~= pv.take(i as int).push(pv[i as int]));
            lemma_keep_if_push(pv.take(i as int), pv[i as int], non_empty_bytes());
        }
        if parts[i].len() > 0 {
            let ghost prev = r@;
            r.push(crate::text::from_utf8_lossy(parts[i].as_slice()));
            proof {
                let kept = keep_if(pv.take(i as int), non_empty_bytes());
                assert(views(r@) =~= views(prev).push(crate::text::utf8_lossy(pv[i as int])));
                assert(kept.push(pv[i as int]).map_values(|b: Seq<u8>| crate::text::utf8_lossy(b)) =~= kept.map_values(
                    |b: Seq<u8>| crate::text::utf8_lossy(b)).push(crate::text::utf8_lossy(pv[i as int])));
            }
        }
        i = i + 1;
    }
    proof {
        assert(pv.take(i as int) =~= pv);
    }
    r
}

/// All entries of several outputs, in order.
pub open spec fn all_nul_entries(outs: Seq<Seq<u8>>) -> Seq<Seq<char>>
    decreases outs.len(),
{
    if outs.len() == 0 {
        Seq::empty()
    } else {
        all_nul_entries(outs.drop_last()) + nul_entries(outs.last())
    }
}

proof fn lemma_dedup_push(s: Seq<Seq<char>>, x: Seq<char>)
    ensures
        dedup_spec(s.push(x)) == if dedup_spec(s).contains(x) { dedup_spec(s) } else { dedup_spec(s).push(x) },
{
    assert(s.push(x).drop_last() =~= s);
}

/// The paths covered by a `.gitignore`: the entries that `git check-ignore
/// -z` printed for each batch, each path once.
pub fn git_ignored_set(outputs: &Vec<Vec<u8>>) -> (r: Vec<String>)
    ensures
        views(r@) == dedup_spec(all_nul_entries(outputs@.map_values(|v: Vec<u8>| v@))),
{
    let ghost ov = outputs@.map_values(|v: Vec<u8>| v@);
    let mut set: Vec<String> = Vec::new();
    let mut k: usize = 0;
    proof {
        assert(ov.take(0) =~= Seq::<Seq<u8>>::empty());
        assert(views(set@) =~= dedup_spec(Seq::<Seq<char>>::empty()));
    }
    while k < outputs.len()
        invariant
            ov == outputs@.map_values(|v: Vec<u8>| v@),
            k <= outputs@.len(),
            views(set@) == dedup_spec(all_nul_entries(ov.take(k as int))),
        decreases outputs@.len() - k,
    {
        let fields = nul_fields(&outputs[k]);
        let ghost base = all_nul_entries(ov.take(k as int));
        let ghost fv = views(fields@);
        let mut j: usize = 0;
        proof {
            assert(base + fv.take(0) =~= base);
        }
        while j < fields.len()
            invariant
                fv == views(fields@),
                j <= fields@.len(),
                views(set@) == dedup_spec(base + fv.take(j as int)),
            decreases fields@.len() - j,
        {
            proof {
                assert(base + fv.take(j + 1) =~= (base + fv.take(j as int)).push(fv[j as int]));
                lemma_dedup_push(base + fv.take(j as int), fv[j as int]);
            }
            insert_unique(&mut set, fields[j].clone());
            j = j + 1;
        }
        proof {
            assert(fv.take(j as int) =~= fv);
            assert(ov.take(k + 1).drop_last() =~= ov.take(k as int));
            assert(ov.take(k + 1).last() == outputs@[k as int]@);
        }
        k = k + 1;
    }
    proof {
        assert(ov.take(k as int) =~= ov);
    }
    set
}

/// The batch candidates under which `git ls-files` found a tracked file: a
/// found path equal to the candidate, or below it.
pub open spec fn tracked_candidates(chunk: Seq<Seq<char>>, found: Seq<Seq<char>>) -> Seq<Seq<char>> {
    keep_if(chunk, tracked_in(found))
}

/// A found path equals the candidate or lies below it.
pub open spec fn tracked_by(found: Seq<Seq<char>>, c: Seq<char>) -> bool {
    exists|i: int| 0 <= i < found.len() && (found[i] == c
        || starts_with_spec(#[trigger] found[i], trim_end_char_spec(c, '/').push('/')))
}

pub open spec fn tracked_in(found: Seq<Seq<char>>) -> spec_fn(Seq<char>) -> bool {
    |c: Seq<char>| tracked_by(found, c)
}

/// The tracked candidates of each batch whose `ls-files` succeeded and found
/// something, batch after batch.
pub open spec fn all_tracked(chunks: Seq<Seq<Seq<char>>>, results: Seq<(bool, Seq<u8>)>) -> Seq<Seq<char>>
    decreases chunks.len(),
{
    if chunks.len() == 0 {
        Seq::empty()
    } else {
        let prev = all_tracked(chunks.drop_last(), results.drop_last());
        let res = results.last();
        if res.0 && nul_entries(res.1).len() > 0 {
            prev + tracked_candidates(chunks.last(), nul_entries(res.1))
        } else {
            prev
        }
    }
}

fn is_tracked_candidate(found: &Vec<String>, candidate: &str) -> (r: bool)
    ensures
        r == tracked_by(views(found@), candidate@),
{
    let mut prefix = trim_end_char(candidate, '/');
    push_char(&mut prefix, '/');
    let mut i: usize = 0;
    while i < found.len()
        invariant
            prefix@ == trim_end_char_spec(candidate@, '/').push('/'),
            i <= found@.len(),
            forall|x: int| 0 <= x < i ==> !(views(found@)[x] == candidate@
                || starts_with_spec(#[trigger] views(found@)[x], prefix@)),
        decreases found@.len() - i,
    {
        if str_eq(found[i].as_str(), candidate) || starts_with(found[i].as_str(), prefix.as_str()) {
            assert(views(found@)[i as int] == found@[i as int]@);
            return true;
        }
        i = i + 1;
    }
    false
}

/// The paths holding at least one file tracked by git, each once, given
/// the batches and, for each, whether `git ls-files -z -- <batch>`
/// succeeded and what it printed.
pub fn git_tracked_set(chunks: &Vec<Vec<String>>, results: &Vec<(bool, Vec<u8>)>) -> (r: Vec<String>)
    requires
        chunks@.len() == results@.len(),
    ensures
        views(r@) == dedup_spec(all_tracked(chunks@.map_values(|c: Vec<String>| views(c@)),
            results@.map_values(|x: (bool, Vec<u8>)| (x.0, x.1@)))),
{
    let ghost cv = chunks@.map_values(|c: Vec<String>| views(c@));
    let ghost rv = results@.map_values(|x: (bool, Vec<u8>)| (x.0, x.1@));
    let mut set: Vec<String> = Vec::new();
    let mut k: usize = 0;
    proof {
        assert(cv.take(0) =~= Seq::<Seq<Seq<char>>>::empty());
        assert(views(set@) =~= dedup_spec(Seq::<Seq<char>>::empty()));
    }
    while k < chunks.len()
        invariant
            cv == chunks@.map_values(|c: Vec<String>| views(c@)),
            rv == results@.map_values(|x: (bool, Vec<u8>)| (x.0, x.1@)),
            chunks@.len() == results@.len(),
            k <= chunks@.len(),
            views(set@) == dedup_spec(all_tracked(cv.take(k as int), rv.take(k as int))),
        decreases chunks@.len() - k,
    {
        let ghost base = all_tracked(cv.take(k as int), rv.take(k as int));
        proof {
            assert(cv.take(k + 1).drop_last() =~= cv.take(k as int));
            assert(rv.take(k + 1).drop_last() =~= rv.take(k as int));
            assert(cv.take(k + 1).last() == cv[k as int]);
            assert(rv.take(k + 1).last() == rv[k as int]);
        }
        let ok = results[k].0;
        if ok {
            let found = nul_fields(&results[k].1);
            if found.len() > 0 {
                let chunk = &chunks[k];
                let ghost fv = views(found@);
                let ghost chv = views(chunk@);
                let ghost pred = tracked_in(fv);
                let mut j: usize = 0;
                proof {
                    assert(chv.take(0) =~= Seq::<Seq<char>>::empty());
                    assert(base + keep_if(chv.take(0), pred) =~= base);
                }
                while j < chunk.len()
                    invariant
                        fv == views(found@),
                        chv == views(chunk@),
                        pred == tracked_in(fv),
                        j <= chunk@.len(),
                        views(set@) == dedup_spec(base + keep_if(chv.take(j as int), pred)),
                    decreases chunk@.len() - j,
                {
                    proof {
                        assert(chv.take(j + 1) =~= chv.take(j as int).push(chv[j as int]));
                        lemma_keep_if_push(chv.take(j as int), chv[j as int], pred);
                    }
                    if is_tracked_candidate(&found, chunk[j].as_str()) {
                        proof {
                            assert(pred(chv[j as int]));
                            assert(base + keep_if(chv.take(j as int), pred).push(chv[j as int]) =~= (base + keep_if(
                                chv.take(j as int), pred)).push(chv[j as int]));
                            lemma_dedup_push(base + keep_if(chv.take(j as int), pred), chv[j as int]);
                        }
                        insert_unique(&mut set, chunk[j].clone());
                    } else {
                        proof {
                            assert(!pred(chv[j as int]));
                        }
                    }
                    j = j + 1;
                }
                proof {
                    assert(chv.take(j as int) =~= chv);
                    assert(chv == cv[k as int]);
                    assert(fv == nul_entries(rv[k as int].1));
                }
            }
        }
        k = k + 1;
    }
    proof {
        assert(cv.take(k as int) =~= cv);
        assert(rv.take(k as int) =~= rv);
    }
    set
}

/// The current branch from `git rev-parse --abbrev-ref HEAD`: its trimmed
/// output when it succeeded, empty otherwise.
pub fn git_branch(ok: bool, out: &Vec<u8>) -> (r: String)
    ensures
        r@ == if ok { trim_spec(crate::text::utf8_lossy(out@)) } else { Seq::empty() },
{
    if ok {
        let text = crate::text::from_utf8_lossy(out.as_slice());
        trim(text.as_str())
    } else {
        String::new()
    }
}

/// What a `git gc` did to a repository.
#[derive(Clone, Debug)]
pub struct GcOutcome {
    pub ok: bool,
    pub before: u64,
    pub after: u64,
    pub freed: u64,
    pub error: String,
}

/// The outcome of `git gc` given the size of `.git` before and after, and
/// how git exited: the bytes freed never go below zero, and the error is
/// kept only on failure.
pub fn git_gc(before: u64, ok: bool, error: String, after: u64) -> (r: GcOutcome)
    ensures
        r.ok == ok,
        r.before == before,
        r.after == after,
        r.freed == if before >= after { before - after } else { 0 },
        r.error@ == if ok { Seq::<char>::empty() } else { error@ },
{
    GcOutcome {
        ok,
        before,
        after,
        freed: if before >= after { before - after } else { 0 },
        error: if ok { String::new() } else { error },
    }
}

} // verus!

verus! {

/// The text of `.gitignore` lines that hold something: every line, trimmed.
/// (A last empty line, which `str::lines` would not yield, cannot matter:
/// only patterns that are not blank once trimmed are compared.)
pub open spec fn existing_patterns(current: Seq<char>) -> Seq<Seq<char>> {
    split_spec(current, seq!['\n']).map_values(|line: Seq<char>| trim_spec(line))
}

pub open spec fn is_missing(existing: Seq<Seq<char>>) -> spec_fn(Seq<char>) -> bool {
    |p: Seq<char>| trim_spec(p).len() > 0 && !existing.contains(trim_spec(p))
}

/// The patterns to add to a `.gitignore` whose text is `current`: those
/// that are not blank and whose trimmed form is no trimmed line of the file,
/// in the order given.
pub open spec fn missing_patterns(current: Seq<char>, patterns: Seq<Seq<char>>) -> Seq<Seq<char>> {
    keep_if(patterns, is_missing(existing_patterns(current)))
}

/// The patterns of `patterns` that the `.gitignore` text `current` lacks.
pub fn gitignore_missing(current: &str, patterns: &Vec<String>) -> (r: Vec<String>)
    ensures
        views(r@) == missing_patterns(current@, views(patterns@)),
{
    let lines = split_on(current, &['\n']);
    proof {
        assert(seq!['\n'] =~= (['\n'])@);
    }
    let mut existing: Vec<String> = Vec::new();
    let mut i: usize = 0;
    let ghost lv = views(lines@);
    while i < lines.len()
        invariant
            lv == views(lines@),
            i <= lines@.len(),
            views(existing@) == lv.take(i as int).map_values(|line: Seq<char>| trim_spec(line)),
        decreases lines@.len() - i,
    {
        let ghost prev = existing@;
        existing.push(trim(lines[i].as_str()));
        proof {
            assert(views(existing@) =~= views(prev).push(trim_spec(lv[i as int])));
            assert(lv.take(i + 1).map_values(|line: Seq<char>| trim_spec(line)) =~= lv.take(i as int).map_values(
                |line: Seq<char>| trim_spec(line)).push(trim_spec(lv[i as int])));
        }
        i = i + 1;
    }
    proof {
        assert(lv.take(i as int) =~= lv);
    }
    let ghost ev = views(existing@);
    let ghost pv = views(patterns@);
    let mut missing: Vec<String> = Vec::new();
    let mut k: usize = 0;
    proof {
        assert(pv.take(0) =~= Seq::<Seq<char>>::empty());
    }
    while k < patterns.len()
        invariant
            ev == views(existing@),
            ev == existing_patterns(current@),
            pv == views(patterns@),
            k <= patterns@.len(),
            views(missing@) == keep_if(pv.take(k as int), is_missing(ev)),
        decreases patterns@.len() - k,
    {
        proof {
            assert(pv.take(k + 1) =~= pv.take(k as int).push(pv[k as int]));
            lemma_keep_if_push(pv.take(k as int), pv[k as int], is_missing(ev));
        }
        let t = trim(patterns[k].as_str());
        if !t.as_str().is_empty() && !contains_str(&existing, t.as_str()) {
            let ghost prev = missing@;
            missing.push(patterns[k].clone());
            proof {
                assert(views(missing@) =~= views(prev).push(pv[k as int]));
            }
        }
        k = k + 1;
    }
    proof {
        assert(pv.take(k as int) =~= pv);
    }
    missing
}

/// The patterns, each followed by a newline.
pub open spec fn pattern_lines(missing: Seq<Seq<char>>) -> Seq<char>
    decreases missing.len(),
{
    if missing.len() == 0 {
        Seq::empty()
    } else {
        pattern_lines(missing.drop_last()) + missing.last() + seq!['\n']
    }
}

/// The section appended to a `.gitignore` whose text is `current`: a
/// newline first if the file does not end with one, a blank line, the
/// dated `# ferrite` header, then one pattern per line.
pub open spec fn gitignore_block_spec(current: Seq<char>, date: Seq<char>, missing: Seq<Seq<char>>) -> Seq<char> {
    (if current.len() > 0 && current.last() != '\n' { seq!['\n'] } else { Seq::empty() })
        + seq!['\n'] + "# ferrite "@ + date + seq!['\n'] + pattern_lines(missing)
}

/// The text to append to a `.gitignore` to add the `missing` patterns under
/// a section dated `date`.
pub fn gitignore_block(current: &str, date: &str, missing: &Vec<String>) -> (r: String)
    ensures
        r@ == gitignore_block_spec(current@, date@, views(missing@)),
{
    let v = chars_of(current);
    let mut block = String::new();
    if v.len() > 0 && v[v.len() - 1] != '\n' {
        push_char(&mut block, '\n');
    }
    push_char(&mut block, '\n');
    crate::text::push_str(&mut block, "# ferrite ");
    crate::text::push_str(&mut block, date);
    push_char(&mut block, '\n');
    let ghost head = block@;
    proof {
        reveal_strlit("# ferrite ");
        assert(head =~= (if current@.len() > 0 && current@.last() != '\n' { seq!['\n'] } else { Seq::empty() })
            + seq!['\n'] + "# ferrite "@ + date@ + seq!['\n']);
    }
    let ghost mv = views(missing@);
    let mut i: usize = 0;
    proof {
        assert(mv.take(0) =~= Seq::<Seq<char>>::empty());
        assert(block@ =~= head + pattern_lines(mv.take(0)));
    }
    while i < missing.len()
        invariant
            mv == views(missing@),
            i <= missing@.len(),
            block@ == head + pattern_lines(mv.take(i as int)),
        decreases missing@.len() - i,
    {
        crate::text::push_str(&mut block, missing[i].as_str());
        push_char(&mut block, '\n');
        proof {
            assert(mv.take(i + 1).drop_last() =~= mv.take(i as int));
            assert(mv.take(i + 1).last() == mv[i as int]);
            assert(block@ =~= head + pattern_lines(mv.take(i + 1)));
        }
        i = i + 1;
    }
    proof {
        assert(mv.take(i as int) =~= mv);
    }
    block
}

/// `x` is kept by `keep_if` when it satisfies the filter.
proof fn lemma_keep_if_contains<T>(s: Seq<T>, f: spec_fn(T) -> bool, x: T)
    requires
        s.contains(x),
        f(x),
    ensures
        keep_if(s, f).contains(x),
    decreases s.len(),
{
    if s.last() == x {
        assert(keep_if(s, f) == keep_if(s.drop_last(), f).push(x));
        assert(keep_if(s, f).last() == x);
    } else {
        let i = choose|i: int| 0 <= i < s.len() && s[i] == x;
        assert(s.drop_last()[i] == x);
        lemma_keep_if_contains(s.drop_last(), f, x);
        let k = keep_if(s.drop_last(), f);
        let j = choose|j: int| 0 <= j < k.len() && k[j] == x;
        if f(s.last()) {
            assert(keep_if(s, f)[j] == x);
        }
    }
}

/// What `keep_if` keeps comes from the sequence and satisfies the filter.
proof fn lemma_keep_if_from<T>(s: Seq<T>, f: spec_fn(T) -> bool, i: int)
    requires
        0 <= i < keep_if(s, f).len(),
    ensures
        s.contains(keep_if(s, f)[i]),
        f(keep_if(s, f)[i]),
    decreases s.len(),
{
    let k = keep_if(s.drop_last(), f);
    if f(s.last()) && i == k.len() {
        assert(keep_if(s, f)[i] == s.last());
        assert(s[s.len() - 1] == s.last());
    } else {
        assert(keep_if(s, f)[i] == k[i]);
        lemma_keep_if_from(s.drop_last(), f, i);
        let j = choose|j: int| 0 <= j < s.drop_last().len() && s.drop_last()[j] == k[i];
        assert(s[j] == k[i]);
    }
}

/// Nothing is kept when nothing satisfies the filter.
proof fn lemma_keep_if_none<T>(s: Seq<T>, f: spec_fn(T) -> bool)
    requires
        forall|i: int| 0 <= i < s.len() ==> !f(#[trigger] s[i]),
    ensures
        keep_if(s, f) == Seq::<T>::empty(),
    decreases s.len(),
{
    if s.len() > 0 {
        lemma_keep_if_none(s.drop_last(), f);
        assert(!f(s[s.len() - 1]));
    }
}

/// Every line of `text` is still a line once the block is appended, since
/// the block opens a new line.
proof fn lemma_lines_kept(text: Seq<char>, block: Seq<char>, line: Seq<char>)
    requires
        block.len() > 0,
        block[0] == '\n',
        split_spec(text, seq!['\n']).contains(line),
    ensures
        split_spec(text + block, seq!['\n']).contains(line),
{
    let seps = seq!['\n'];
    assert(seps[0] == block[0]);
    assert(seps.contains(block[0]));
    crate::text::lemma_split_concat(text, block, seps);
    crate::text::lemma_split_leading_sep(block, seps);
    crate::text::lemma_split_nonempty(text, seps);
    let st = split_spec(text, seps);
    let i = choose|i: int| 0 <= i < st.len() && st[i] == line;
    let whole = split_spec(text + block, seps);
    if i < st.len() - 1 {
        assert(whole[i] == line);
    } else {
        assert(st.last() + Seq::<char>::empty() =~= st.last());
        assert(whole[st.len() - 1] == line);
    }
}

/// Each of the `lines` is a line of the text made of `head`, which ends a
/// line, followed by the lines themselves.
proof fn lemma_pattern_lines_present(head: Seq<char>, lines: Seq<Seq<char>>)
    requires
        head.len() > 0,
        head.last() == '\n',
        forall|i: int| 0 <= i < lines.len() ==> (#[trigger] lines[i]).len() > 0 && !lines[i].contains('\n'),
    ensures
        (head + pattern_lines(lines)).len() > 0,
        (head + pattern_lines(lines)).last() == '\n',
        forall|i: int| 0 <= i < lines.len() ==> split_spec(head + pattern_lines(lines), seq!['\n']).contains(
            #[trigger] lines[i],
        ),
    decreases lines.len(),
{
    let seps = seq!['\n'];
    if lines.len() == 0 {
        assert(head + pattern_lines(lines) =~= head);
    } else {
        let rest = lines.drop_last();
        let last = lines.last();
        lemma_pattern_lines_present(head, rest);
        let y = head + pattern_lines(rest);
        let tail = last + seq!['\n'];
        assert(head + pattern_lines(lines) =~= y + tail);
        crate::text::lemma_split_concat(y, tail, seps);
        crate::text::lemma_split_concat(last, seq!['\n'], seps);
        crate::text::lemma_split_no_sep(last, seps);
        crate::text::lemma_split_nonempty(y, seps);
        assert(y.drop_last().push(y.last()) =~= y);
        let sy = split_spec(y, seps);
        assert(sy.last() == Seq::<char>::empty());
        assert(seps[0] == '\n');
        assert(seq!['\n'].drop_last() =~= Seq::<char>::empty());
        assert(seq!['\n'].last() == '\n');
        assert(split_spec(Seq::<char>::empty(), seps) =~= seq![Seq::<char>::empty()]);
        assert(split_spec(seq!['\n'], seps) =~= seq![Seq::<char>::empty(), Seq::<char>::empty()]);
        let st = split_spec(tail, seps);
        assert(st[0] =~= last);
        let whole = split_spec(y + tail, seps);
        assert(Seq::<char>::empty() + last =~= last);
        assert(whole[sy.len() - 1] == last);
        assert forall|i: int| 0 <= i < lines.len() implies whole.contains(#[trigger] lines[i]) by {
            if i < lines.len() - 1 {
                assert(rest[i] == lines[i]);
                let j = choose|j: int| 0 <= j < sy.len() && sy[j] == rest[i];
                assert(j != sy.len() - 1);
                assert(whole[j] == lines[i]);
            } else {
                assert(whole[sy.len() - 1] == lines[i]);
            }
        }
    }
}

/// Appending the block that `gitignore_block` writes for the patterns a
/// `.gitignore` lacks leaves none of them lacking: every pattern, once
/// appended or already present, is a line of the new file.
pub proof fn lemma_gitignore_fix_complete(current: Seq<char>, date: Seq<char>, patterns: Seq<Seq<char>>)
    requires
        forall|i: int| 0 <= i < patterns.len() ==> !(#[trigger] patterns[i]).contains('\n'),
    ensures
        missing_patterns(
            current + gitignore_block_spec(current, date, missing_patterns(current, patterns)),
            patterns,
        ) == Seq::<Seq<char>>::empty(),
{
    let seps = seq!['\n'];
    let m = missing_patterns(current, patterns);
    let block = gitignore_block_spec(current, date, m);
    let new_text = current + block;
    let pre = if current.len() > 0 && current.last() != '\n' { seq!['\n'] } else { Seq::<char>::empty() };
    let head = current + pre + seq!['\n'] + "# ferrite "@ + date + seq!['\n'];
    assert(new_text =~= head + pattern_lines(m));
    assert(block[0] == '\n');
    let old_lines = existing_patterns(current);
    let new_lines = existing_patterns(new_text);
    assert forall|i: int| 0 <= i < m.len() implies (#[trigger] m[i]).len() > 0 && !m[i].contains('\n') by {
        lemma_keep_if_from(patterns, is_missing(old_lines), i);
        let j = choose|j: int| 0 <= j < patterns.len() && patterns[j] == m[i];
        assert(trim_spec(m[i]).len() > 0);
        if m[i].len() == 0 {
            assert(trim_spec(m[i]).len() == 0);
        }
    }
    lemma_pattern_lines_present(head, m);
    assert forall|i: int| 0 <= i < patterns.len() implies !is_missing(new_lines)(#[trigger] patterns[i]) by {
        let p = patterns[i];
        if trim_spec(p).len() > 0 {
            if is_missing(old_lines)(p) {
                lemma_keep_if_contains(patterns, is_missing(old_lines), p);
                let k = choose|k: int| 0 <= k < m.len() && m[k] == p;
                assert(split_spec(new_text, seps).contains(m[k]));
                let j = choose|j: int| 0 <= j < split_spec(new_text, seps).len() && split_spec(new_text, seps)[j] == p;
                assert(new_lines[j] == trim_spec(p));
            } else {
                let j = choose|j: int| 0 <= j < old_lines.len() && old_lines[j] == trim_spec(p);
                let line = split_spec(current, seps)[j];
                assert(split_spec(current, seps).contains(line));
                lemma_lines_kept(current, block, line);
                let k = choose|k: int| 0 <= k < split_spec(new_text, seps).len() && split_spec(new_text, seps)[k] == line;
                assert(new_lines[k] == trim_spec(p));
            }
        }
    }
    lemma_keep_if_none(patterns, is_missing(new_lines));
}

/// `text` without the `\\?\` prefix that `canonicalize` puts on Windows
/// paths: it reads badly in the interface and some tools reject it.
pub open spec fn strip_verbatim_spec(text: Seq<char>) -> Seq<char> {
    let prefix = seq!['\\', '\\', '?', '\\'];
    if starts_with_spec(text, prefix) { text.subrange(4, text.len() as int) } else { text }
}

pub fn strip_verbatim(text: &str) -> (r: String)
    ensures
        r@ == strip_verbatim_spec(text@),
{
    proof {
        reveal_strlit("\\\\?\\");
        assert("\\\\?\\"@ =~= seq!['\\', '\\', '?', '\\']);
    }
    if starts_with(text, "\\\\?\\") {
        crate::text::substring(text, 4, chars_of(text).len())
    } else {
        crate::text::from_literal(text)
    }
}

/// The Windows form of a path that lifts the historical 260 character
/// limit: unchanged when already verbatim, `\\?\UNC\` for a share, `\\?\`
/// in front otherwise.
pub open spec fn long_path_spec(text: Seq<char>) -> Seq<char> {
    if starts_with_spec(text, seq!['\\', '\\', '?', '\\']) {
        text
    } else if starts_with_spec(text, seq!['\\', '\\']) {
        seq!['\\', '\\', '?', '\\', 'U', 'N', 'C', '\\'] + text.subrange(2, text.len() as int)
    } else {
        seq!['\\', '\\', '?', '\\'] + text
    }
}

pub fn long_path(text: &str) -> (r: String)
    ensures
        r@ == long_path_spec(text@),
{
    proof {
        reveal_strlit("\\\\?\\");
        reveal_strlit("\\\\");
        reveal_strlit("\\\\?\\UNC\\");
        assert("\\\\?\\"@ =~= seq!['\\', '\\', '?', '\\']);
        assert("\\\\"@ =~= seq!['\\', '\\']);
        assert("\\\\?\\UNC\\"@ =~= seq!['\\', '\\', '?', '\\', 'U', 'N', 'C', '\\']);
    }
    if starts_with(text, "\\\\?\\") {
        return crate::text::from_literal(text);
    }
    if starts_with(text, "\\\\") {
        let rest = crate::text::substring(text, 2, chars_of(text).len());
        let mut r = crate::text::from_literal("\\\\?\\UNC\\");
        crate::text::push_str(&mut r, rest.as_str());
        return r;
    }
    let mut r = crate::text::from_literal("\\\\?\\");
    crate::text::push_str(&mut r, text);
    r
}

/// A raw workspace path as typed: trimmed, stripped of surrounding double
/// then single quotes, and with a leading `~` replaced by the home
/// directory when one is known.
pub open spec fn path_input_spec(raw: Seq<char>, home: Option<Seq<char>>) -> Seq<char> {
    let t = strip_both(strip_both(trim_spec(raw), is_char('"')), is_char('\''));
    if t.len() > 0 && t[0] == '~' {
        match home {
            Some(h) => h + t.subrange(1, t.len() as int),
            None => t,
        }
    } else {
        t
    }
}

/// The path a user typed, before the disk resolves it.
pub fn path_input(raw: &str, home: Option<String>) -> (r: String)
    ensures
        r@ == path_input_spec(raw@, match home { Some(h) => Some(h@), None => None }),
{
    let a = trim(raw);
    let b = crate::text::trim_matches_char(a.as_str(), '"');
    let t = crate::text::trim_matches_char(b.as_str(), '\'');
    let v = chars_of(t.as_str());
    if v.len() > 0 && v[0] == '~' {
        match home {
            Some(h) => {
                let rest = crate::text::substring(t.as_str(), 1, v.len());
                let mut r = h;
                crate::text::push_str(&mut r, rest.as_str());
                r
            },
            None => t,
        }
    } else {
        t
    }
}

/// Directory names never searched for projects.
pub open spec fn skip_dir_names() -> Seq<Seq<char>> {
    seq![".git"@, "node_modules"@, "$RECYCLE.BIN"@, "System Volume Information"@]
}

/// Whether discovery looks inside an entry at all: a real directory that is
/// not one of the skipped names.
pub fn worth_listing(name: &str, is_dir: bool, is_symlink: bool) -> (r: bool)
    ensures
        r == (is_dir && !is_symlink && !skip_dir_names().contains(name@)),
{
    if !is_dir || is_symlink {
        return false;
    }
    let skip = vec![".git", "node_modules", "$RECYCLE.BIN", "System Volume Information"];
    assert(crate::text::strs(skip@) =~= skip_dir_names());
    let mut i: usize = 0;
    while i < skip.len()
        invariant
            crate::text::strs(skip@) == skip_dir_names(),
            i <= skip@.len(),
            forall|x: int| 0 <= x < i ==> #[trigger] skip_dir_names()[x] != name@,
        decreases skip@.len() - i,
    {
        if str_eq(skip[i], name) {
            assert(skip_dir_names()[i as int] == name@);
            return false;
        }
        i = i + 1;
    }
    true
}

/// What discovery does with a listed directory.
#[derive(PartialEq, Eq, Structural, Debug, Clone, Copy)]
pub enum DiscoverStep {
    /// Nothing: unreadable, or too deep to search further.
    Skip,
    /// A project, not searched deeper for nested projects.
    Project,
    /// Not a project: searched one level deeper.
    Descend,
}

/// The step for a directory at `depth` whose entries are `names` (`None`
/// when it could not be read), in a search `max_depth` levels deep.
pub fn discover_step(names: Option<&Vec<String>>, depth: usize, max_depth: usize) -> (r: DiscoverStep)
    ensures
        r == match names {
            None => DiscoverStep::Skip,
            Some(n) => if crate::catalog::looks_like_project_spec(views(n@)) {
                DiscoverStep::Project
            } else if depth + 1 < max_depth {
                DiscoverStep::Descend
            } else {
                DiscoverStep::Skip
            },
        },
{
    match names {
        None => DiscoverStep::Skip,
        Some(n) => {
            if crate::catalog::looks_like_project(n) {
                DiscoverStep::Project
            } else if depth < max_depth && max_depth - depth > 1 {
                DiscoverStep::Descend
            } else {
                DiscoverStep::Skip
            }
        },
    }
}

/// What the scan of a project does with one entry of a directory.
#[derive(Debug, Clone, Copy)]
pub enum EntryStep {
    /// A symbolic link: never followed nor counted.
    Skip,
    /// A `.git` directory: measured into the totals.
    GitDir,
    /// An artifact the rule recognised: measured, recorded, not descended.
    Artifact(Rule),
    /// A directory no rule claims: walked.
    Descend,
    /// A file no rule claims: counted in the totals.
    PlainFile,
}

pub open spec fn entry_step_spec(rules: Seq<Rule>, name: Seq<char>, is_dir: bool, is_symlink: bool,
    parent: Seq<char>, siblings: Seq<Seq<char>>) -> EntryStep {
    if is_symlink {
        EntryStep::Skip
    } else if is_dir && name == ".git"@ {
        EntryStep::GitDir
    } else {
        match crate::catalog::first_rule(rules, name, is_dir, parent, siblings, 0) {
            Some(rule) => EntryStep::Artifact(rule),
            None => if is_dir { EntryStep::Descend } else { EntryStep::PlainFile },
        }
    }
}

/// Classifies an entry named `name` of a directory named `parent` that also
/// holds `siblings`.
pub fn entry_step(rules: &[Rule], name: &str, is_dir: bool, is_symlink: bool, parent: &str,
    siblings: &Vec<String>) -> (r: EntryStep)
    ensures
        r == entry_step_spec(rules@, name@, is_dir, is_symlink, parent@, views(siblings@)),
{
    if is_symlink {
        EntryStep::Skip
    } else if is_dir && str_eq(name, ".git") {
        EntryStep::GitDir
    } else {
        match crate::catalog::find_rule(rules, name, is_dir, parent, siblings) {
            Some(rule) => EntryStep::Artifact(rule),
            None => if is_dir { EntryStep::Descend } else { EntryStep::PlainFile },
        }
    }
}

/// A relative path with `/` separators, as reported to the client and to git.
pub fn slash_path(rel: &str) -> (r: String)
    ensures
        r@ == crate::text::replace_char_spec(rel@, '\\', '/'),
{
    crate::text::replace_char(rel, '\\', '/')
}

} // verus!
