//! Shapes scan results for the client, and keeps them in step with what was
//! deleted since.

use vstd::prelude::*;
use crate::catalog::{display_name, display_label};
use crate::scanner::{
    occ_size, occ_files, bucket_size, bucket_files, bucket_wf, ProjectScanView,
    Occurrence, OccurrenceView, Bucket, BucketView, ProjectScan, bucket_views, occurrence_views,
    MAX_OCCURRENCES_SENT,
};
use crate::seqs::{
    lemma_sort_desc_all,
    sum_of, keep_if, sort_desc, lemma_insert_desc_at, lemma_sort_desc_len, lemma_sum_sort_desc,
    lemma_sum_take_le, lemma_sum_of_take, lemma_sum_of_push, lemma_sum_of_nonneg,
    lemma_keep_if_push, lemma_sum_keep_if_split, lemma_sum_keep_if_le, lemma_sum_map,
};
use crate::text::{views, from_literal, str_eq, contains_str};

verus! {

#[derive(Clone, Debug)]
pub struct OccurrenceReport {
    pub rel: String,
    pub size: u64,
    pub files: u64,
    pub is_dir: bool,
    pub ignored: bool,
    pub is_tracked: bool,
}

pub struct OccurrenceReportView {
    pub rel: Seq<char>,
    pub size: u64,
    pub files: u64,
    pub is_dir: bool,
    pub ignored: bool,
    pub is_tracked: bool,
}

impl View for OccurrenceReport {
    type V = OccurrenceReportView;

    open spec fn view(&self) -> OccurrenceReportView {
        OccurrenceReportView {
            rel: self.rel@,
            size: self.size,
            files: self.files,
            is_dir: self.is_dir,
            ignored: self.ignored,
            is_tracked: self.is_tracked,
        }
    }
}

pub open spec fn occurrence_report_views(v: Seq<OccurrenceReport>) -> Seq<OccurrenceReportView> {
    v.map_values(|o: OccurrenceReport| o@)
}

#[derive(Clone, Debug)]
pub struct ItemReport {
    pub rule_id: String,
    pub name: String,
    pub category: String,
    pub risk: String,
    pub restore: String,
    pub ignore_pattern: String,
    pub ignore_status: String,
    pub tracked_count: usize,
    pub size: u64,
    pub files: u64,
    pub count: usize,
    pub occurrences: Vec<OccurrenceReport>,
    pub truncated: usize,
}

pub struct ItemReportView {
    pub rule_id: Seq<char>,
    pub name: Seq<char>,
    pub category: Seq<char>,
    pub risk: Seq<char>,
    pub restore: Seq<char>,
    pub ignore_pattern: Seq<char>,
    pub ignore_status: Seq<char>,
    pub tracked_count: usize,
    pub size: u64,
    pub files: u64,
    pub count: usize,
    pub occurrences: Seq<OccurrenceReportView>,
    pub truncated: usize,
}

impl View for ItemReport {
    type V = ItemReportView;

    open spec fn view(&self) -> ItemReportView {
        ItemReportView {
            rule_id: self.rule_id@,
            name: self.name@,
            category: self.category@,
            risk: self.risk@,
            restore: self.restore@,
            ignore_pattern: self.ignore_pattern@,
            ignore_status: self.ignore_status@,
            tracked_count: self.tracked_count,
            size: self.size,
            files: self.files,
            count: self.count,
            occurrences: occurrence_report_views(self.occurrences@),
            truncated: self.truncated,
        }
    }
}

pub open spec fn item_views(v: Seq<ItemReport>) -> Seq<ItemReportView> {
    v.map_values(|i: ItemReport| i@)
}

#[derive(Clone, Debug)]
pub struct ProjectReport {
    pub id: usize,
    pub name: String,
    pub path: String,
    pub is_git: bool,
    pub branch: String,
    pub git_size: u64,
    pub total_size: u64,
    pub total_files: u64,
    pub reclaimable_size: u64,
    pub reclaimable_files: u64,
    pub items: Vec<ItemReport>,
}

pub struct ProjectReportView {
    pub id: usize,
    pub name: Seq<char>,
    pub path: Seq<char>,
    pub is_git: bool,
    pub branch: Seq<char>,
    pub git_size: u64,
    pub total_size: u64,
    pub total_files: u64,
    pub reclaimable_size: u64,
    pub reclaimable_files: u64,
    pub items: Seq<ItemReportView>,
}

impl View for ProjectReport {
    type V = ProjectReportView;

    open spec fn view(&self) -> ProjectReportView {
        ProjectReportView {
            id: self.id,
            name: self.name@,
            path: self.path@,
            is_git: self.is_git,
            branch: self.branch@,
            git_size: self.git_size,
            total_size: self.total_size,
            total_files: self.total_files,
            reclaimable_size: self.reclaimable_size,
            reclaimable_files: self.reclaimable_files,
            items: item_views(self.items@),
        }
    }
}

pub open spec fn rep_size(o: OccurrenceReportView) -> int {
    o.size as int
}

pub open spec fn rep_files(o: OccurrenceReportView) -> int {
    o.files as int
}

pub open spec fn item_size(i: ItemReportView) -> int {
    i.size as int
}

pub open spec fn item_files(i: ItemReportView) -> int {
    i.files as int
}

/// The occurrences an item lists weigh no more than the item itself.
pub open spec fn item_wf(i: ItemReportView) -> bool {
    &&& sum_of(i.occurrences, |o: OccurrenceReportView| rep_size(o)) <= i.size
    &&& sum_of(i.occurrences, |o: OccurrenceReportView| rep_files(o)) <= i.files
}

impl ProjectReportView {
    pub open spec fn items_size(self) -> int {
        sum_of(self.items, |i: ItemReportView| item_size(i))
    }

    pub open spec fn items_files(self) -> int {
        sum_of(self.items, |i: ItemReportView| item_files(i))
    }

    /// The reclaimable totals are the sums over the items, and every item is
    /// consistent with the occurrences it lists.
    pub open spec fn wf(self) -> bool {
        &&& forall|i: int| 0 <= i < self.items.len() ==> item_wf(#[trigger] self.items[i])
        &&& self.reclaimable_size == self.items_size()
        &&& self.reclaimable_files == self.items_files()
    }
}

/// One rule's `rel -> absolute path` entries.
#[derive(Clone, Debug)]
pub struct IndexEntry {
    pub rel: String,
    pub path: String,
}

#[derive(Clone, Debug)]
pub struct RuleIndex {
    pub rule_id: String,
    pub entries: Vec<IndexEntry>,
}

/// A project's `rule id -> (rel -> absolute path)` table.
///
/// It is the source of authority for deletion: only the paths it holds can
/// be deleted, which makes a forged selection inert.
#[derive(Clone, Debug)]
pub struct ProjectIndex {
    pub rules: Vec<RuleIndex>,
}

pub type PathTableView = Seq<(Seq<char>, Seq<char>)>;

pub open spec fn entry_views(v: Seq<IndexEntry>) -> PathTableView {
    v.map_values(|e: IndexEntry| (e.rel@, e.path@))
}

impl View for RuleIndex {
    type V = (Seq<char>, PathTableView);

    open spec fn view(&self) -> (Seq<char>, PathTableView) {
        (self.rule_id@, entry_views(self.entries@))
    }
}

impl View for ProjectIndex {
    type V = Seq<(Seq<char>, PathTableView)>;

    open spec fn view(&self) -> Seq<(Seq<char>, PathTableView)> {
        self.rules@.map_values(|r: RuleIndex| r@)
    }
}

/// Position of the first entry whose key is `k`, or -1.
pub open spec fn key_index<V>(t: Seq<(Seq<char>, V)>, k: Seq<char>, from: int) -> int
    decreases t.len() - from,
{
    if from < 0 || from >= t.len() {
        -1
    } else if t[from].0 == k {
        from
    } else {
        key_index(t, k, from + 1)
    }
}

pub proof fn lemma_key_index_found<V>(t: Seq<(Seq<char>, V)>, k: Seq<char>, from: int)
    requires
        key_index(t, k, from) >= 0,
    ensures
        0 <= key_index(t, k, from) < t.len(),
        t[key_index(t, k, from)].0 == k,
        forall|x: int| from <= x < key_index(t, k, from) ==> t[x].0 != k,
    decreases t.len() - from,
{
    if from >= 0 && from < t.len() && t[from].0 != k {
        lemma_key_index_found(t, k, from + 1);
    }
}

/// The table with `k` mapped to `v`: in place when the key is present,
/// appended otherwise.
pub open spec fn table_insert(t: PathTableView, k: Seq<char>, v: Seq<char>) -> PathTableView {
    let i = key_index(t, k, 0);
    if i >= 0 {
        t.update(i, (k, v))
    } else {
        t.push((k, v))
    }
}

/// `t` with each occurrence's `rel -> path` inserted in turn, so that a
/// later occurrence of a rel overwrites the path of an earlier one.
pub open spec fn table_insert_all(t: PathTableView, occ: Seq<OccurrenceView>) -> PathTableView
    decreases occ.len(),
{
    if occ.len() == 0 {
        t
    } else {
        table_insert(table_insert_all(t, occ.drop_last()), occ.last().rel, occ.last().path)
    }
}

/// The index of a scan. A rule id gets its table where it is first met;
/// every bucket of that rule then inserts its occurrences into that table.
pub open spec fn index_of(buckets: Seq<BucketView>) -> Seq<(Seq<char>, PathTableView)>
    decreases buckets.len(),
{
    if buckets.len() == 0 {
        Seq::empty()
    } else {
        let prev = index_of(buckets.drop_last());
        let b = buckets.last();
        let k = key_index(prev, b.rule.id@, 0);
        if k >= 0 {
            prev.update(k, (b.rule.id@, table_insert_all(prev[k].1, b.occurrences)))
        } else {
            prev.push((b.rule.id@, table_insert_all(Seq::empty(), b.occurrences)))
        }
    }
}

/// No key occurs twice.
pub open spec fn keys_unique<V>(t: Seq<(Seq<char>, V)>) -> bool {
    forall|i: int, j: int| 0 <= i < j < t.len() ==> t[i].0 != t[j].0
}

/// The occurrences of every bucket of rule `id`, in scan order.
pub open spec fn rule_occurrences(buckets: Seq<BucketView>, id: Seq<char>) -> Seq<OccurrenceView>
    decreases buckets.len(),
{
    if buckets.len() == 0 {
        Seq::empty()
    } else {
        let prev = rule_occurrences(buckets.drop_last(), id);
        if buckets.last().rule.id@ == id {
            prev + buckets.last().occurrences
        } else {
            prev
        }
    }
}

/// Some bucket has rule `id`.
pub open spec fn bucket_with_id(buckets: Seq<BucketView>, id: Seq<char>) -> bool {
    exists|i: int| 0 <= i < buckets.len() && (#[trigger] buckets[i]).rule.id@ == id
}

/// Some occurrence of a bucket of rule `id` has the rel and the path of
/// `entry`.
pub open spec fn occurrence_at(buckets: Seq<BucketView>, id: Seq<char>, entry: (Seq<char>, Seq<char>)) -> bool {
    exists|i: int, m: int|
        0 <= i < buckets.len() && 0 <= m < buckets[i].occurrences.len()
        && buckets[i].rule.id@ == id
        && (#[trigger] buckets[i].occurrences[m]).rel == entry.0
        && buckets[i].occurrences[m].path == entry.1
}

/// Some occurrence in `occ` has the rel and the path of `entry`.
spec fn entry_from(occ: Seq<OccurrenceView>, entry: (Seq<char>, Seq<char>)) -> bool {
    exists|j: int| 0 <= j < occ.len() && (#[trigger] occ[j]).rel == entry.0 && occ[j].path == entry.1
}

/// `key_index` is -1 exactly when no position from `from` on holds the key.
pub proof fn lemma_key_index_absent<V>(t: Seq<(Seq<char>, V)>, k: Seq<char>, from: int)
    requires
        0 <= from,
    ensures
        key_index(t, k, from) >= -1,
        key_index(t, k, from) < 0 <==> forall|x: int| from <= x < t.len() ==> (#[trigger] t[x]).0 != k,
    decreases t.len() - from,
{
    if from < t.len() && t[from].0 != k {
        lemma_key_index_absent(t, k, from + 1);
    }
}

/// A table that keeps the keys of another where they were finds every key
/// that the other finds.
proof fn lemma_key_index_grow<V, W>(t: Seq<(Seq<char>, V)>, u: Seq<(Seq<char>, W)>, k: Seq<char>)
    requires
        t.len() <= u.len(),
        forall|x: int| 0 <= x < t.len() ==> (#[trigger] t[x]).0 == u[x].0,
        key_index(t, k, 0) >= 0,
    ensures
        key_index(u, k, 0) >= 0,
{
    lemma_key_index_found(t, k, 0);
    let q = key_index(t, k, 0);
    assert(u[q].0 == k);
    lemma_key_index_absent(u, k, 0);
}

/// `key_index` reads the keys alone.
proof fn lemma_key_index_keys<V, W>(t: Seq<(Seq<char>, V)>, u: Seq<(Seq<char>, W)>, k: Seq<char>)
    requires
        t.len() == u.len(),
        forall|x: int| 0 <= x < t.len() ==> (#[trigger] t[x]).0 == u[x].0,
    ensures
        key_index(t, k, 0) == key_index(u, k, 0),
{
    lemma_key_index_absent(t, k, 0);
    lemma_key_index_absent(u, k, 0);
    if key_index(t, k, 0) >= 0 {
        lemma_key_index_found(t, k, 0);
        assert(u[key_index(t, k, 0)].0 == k);
    }
    if key_index(u, k, 0) >= 0 {
        lemma_key_index_found(u, k, 0);
        assert(t[key_index(u, k, 0)].0 == k);
    }
}

/// Inserting occurrences into a table keeps its keys where they are, makes
/// the rel of every occurrence a key, never doubles a key, and leaves each
/// entry either as it was or holding an occurrence's rel and path.
proof fn lemma_table_insert_all(t: PathTableView, occ: Seq<OccurrenceView>)
    ensures
        t.len() <= table_insert_all(t, occ).len(),
        forall|e: int| 0 <= e < t.len() ==> (#[trigger] t[e]).0 == table_insert_all(t, occ)[e].0,
        forall|j: int| 0 <= j < occ.len() ==> key_index(table_insert_all(t, occ), (#[trigger] occ[j]).rel, 0) >= 0,
        forall|e: int| 0 <= e < table_insert_all(t, occ).len() ==>
            (e < t.len() && #[trigger] table_insert_all(t, occ)[e] == t[e])
            || entry_from(occ, table_insert_all(t, occ)[e]),
        keys_unique(t) ==> keys_unique(table_insert_all(t, occ)),
    decreases occ.len(),
{
    if occ.len() > 0 {
        let p = occ.drop_last();
        let prev = table_insert_all(t, p);
        lemma_table_insert_all(t, p);
        let r = occ.last().rel;
        let v = occ.last().path;
        let tt = table_insert_all(t, occ);
        assert(tt == table_insert(prev, r, v));
        lemma_key_index_absent(prev, r, 0);
        let i = key_index(prev, r, 0);
        if i >= 0 {
            lemma_key_index_found(prev, r, 0);
        }
        assert forall|e: int| 0 <= e < prev.len() implies (#[trigger] prev[e]).0 == tt[e].0 by {}
        assert forall|j: int| 0 <= j < occ.len() implies key_index(tt, (#[trigger] occ[j]).rel, 0) >= 0 by {
            if j < p.len() {
                assert(occ[j] == p[j]);
                lemma_key_index_grow(prev, tt, p[j].rel);
            } else {
                lemma_key_index_absent(tt, r, 0);
                if i >= 0 {
                    assert(tt[i].0 == r);
                } else {
                    assert(tt[prev.len() as int].0 == r);
                }
            }
        }
        assert forall|e: int| 0 <= e < tt.len() implies
            (e < t.len() && #[trigger] tt[e] == t[e]) || entry_from(occ, tt[e]) by {
            if (i >= 0 && e == i) || (i < 0 && e == prev.len()) {
                assert(tt[e] == (r, v));
                assert(occ[occ.len() - 1].rel == r);
            } else {
                assert(tt[e] == prev[e]);
                if !(e < t.len() && prev[e] == t[e]) {
                    assert(entry_from(p, prev[e]));
                    let j = choose|j: int| 0 <= j < p.len() && (#[trigger] p[j]).rel == prev[e].0 && p[j].path == prev[e].1;
                    assert(occ[j] == p[j]);
                }
            }
        }
        if keys_unique(t) {
            assert forall|a: int, b: int| 0 <= a < b < tt.len() implies tt[a].0 != tt[b].0 by {
                if i < 0 && b == prev.len() {
                    assert(prev[a].0 != r);
                }
            }
        }
    }
}

/// Inserting `a` and then `b` is inserting `a + b`.
proof fn lemma_table_insert_all_concat(t: PathTableView, a: Seq<OccurrenceView>, b: Seq<OccurrenceView>)
    ensures
        table_insert_all(t, a + b) == table_insert_all(table_insert_all(t, a), b),
    decreases b.len(),
{
    if b.len() == 0 {
        assert(a + b =~= a);
    } else {
        lemma_table_insert_all_concat(t, a, b.drop_last());
        assert((a + b).drop_last() =~= a + b.drop_last());
        assert((a + b).last() == b.last());
    }
}

proof fn lemma_rule_occurrences_none(bs: Seq<BucketView>, id: Seq<char>)
    requires
        forall|i: int| 0 <= i < bs.len() ==> (#[trigger] bs[i]).rule.id@ != id,
    ensures
        rule_occurrences(bs, id) =~= Seq::<OccurrenceView>::empty(),
    decreases bs.len(),
{
    if bs.len() > 0 {
        let p = bs.drop_last();
        assert forall|i: int| 0 <= i < p.len() implies (#[trigger] p[i]).rule.id@ != id by {
            assert(p[i] == bs[i]);
        }
        lemma_rule_occurrences_none(p, id);
        assert(bs[bs.len() - 1].rule.id@ != id);
    }
}

/// `o` is an occurrence of a bucket of rule `id`.
spec fn occurrence_in(bs: Seq<BucketView>, id: Seq<char>, o: OccurrenceView) -> bool {
    exists|i: int, m: int|
        0 <= i < bs.len() && 0 <= m < bs[i].occurrences.len() && bs[i].rule.id@ == id
        && #[trigger] bs[i].occurrences[m] == o
}

/// The occurrences gathered for a rule id are exactly those of the buckets
/// of that rule.
proof fn lemma_rule_occurrences_members(bs: Seq<BucketView>, id: Seq<char>)
    ensures
        forall|j: int| 0 <= j < rule_occurrences(bs, id).len()
            ==> occurrence_in(bs, id, #[trigger] rule_occurrences(bs, id)[j]),
        forall|i: int, m: int| 0 <= i < bs.len() && 0 <= m < bs[i].occurrences.len() && bs[i].rule.id@ == id
            ==> rule_occurrences(bs, id).contains(#[trigger] bs[i].occurrences[m]),
    decreases bs.len(),
{
    if bs.len() > 0 {
        let p = bs.drop_last();
        let last = bs.len() - 1;
        lemma_rule_occurrences_members(p, id);
        let prev = rule_occurrences(p, id);
        let ro = rule_occurrences(bs, id);
        assert forall|j: int| 0 <= j < ro.len() implies occurrence_in(bs, id, #[trigger] ro[j]) by {
            if j < prev.len() {
                assert(ro[j] == prev[j]);
                assert(occurrence_in(p, id, prev[j]));
                let (i, m) = choose|i: int, m: int|
                    0 <= i < p.len() && 0 <= m < p[i].occurrences.len() && p[i].rule.id@ == id
                    && #[trigger] p[i].occurrences[m] == prev[j];
                assert(bs[i] == p[i]);
                assert(bs[i].occurrences[m] == ro[j]);
            } else {
                assert(bs[last].rule.id@ == id);
                assert(ro[j] == bs[last].occurrences[j - prev.len()]);
            }
        }
        assert forall|i: int, m: int| 0 <= i < bs.len() && 0 <= m < bs[i].occurrences.len() && bs[i].rule.id@ == id
            implies ro.contains(#[trigger] bs[i].occurrences[m]) by {
            if i < p.len() {
                assert(bs[i] == p[i]);
                assert(prev.contains(p[i].occurrences[m]));
                let j = choose|j: int| 0 <= j < prev.len() && prev[j] == p[i].occurrences[m];
                assert(ro[j] == prev[j]);
            } else {
                assert(ro[prev.len() + m] == bs[last].occurrences[m]);
            }
        }
    }
}

/// The shape of the index: one table per rule id met, each filled by the
/// occurrences of every bucket of that rule, in scan order.
proof fn lemma_index_of(bs: Seq<BucketView>)
    ensures
        keys_unique(index_of(bs)),
        forall|x: int| 0 <= x < index_of(bs).len() ==> bucket_with_id(bs, (#[trigger] index_of(bs)[x]).0),
        forall|x: int| 0 <= x < index_of(bs).len() ==> (#[trigger] index_of(bs)[x]).1
            == table_insert_all(Seq::empty(), rule_occurrences(bs, index_of(bs)[x].0)),
        forall|i: int| 0 <= i < bs.len() ==> key_index(index_of(bs), (#[trigger] bs[i]).rule.id@, 0) >= 0,
    decreases bs.len(),
{
    if bs.len() > 0 {
        let p = bs.drop_last();
        let last = bs.len() - 1;
        lemma_index_of(p);
        let prev = index_of(p);
        let b = bs[last];
        let id = b.rule.id@;
        let idx = index_of(bs);
        lemma_key_index_absent(prev, id, 0);
        let k = key_index(prev, id, 0);
        assert(rule_occurrences(bs, id) == rule_occurrences(p, id) + b.occurrences);
        assert forall|x: int| 0 <= x < prev.len() && (#[trigger] prev[x]).0 != id implies
            rule_occurrences(bs, prev[x].0) == rule_occurrences(p, prev[x].0) by {}
        assert forall|x: int| 0 <= x < prev.len() implies bucket_with_id(bs, (#[trigger] prev[x]).0) by {
            assert(bucket_with_id(p, prev[x].0));
            let i = choose|i: int| 0 <= i < p.len() && (#[trigger] p[i]).rule.id@ == prev[x].0;
            assert(bs[i] == p[i]);
        }
        if k >= 0 {
            lemma_key_index_found(prev, id, 0);
            lemma_table_insert_all_concat(Seq::empty(), rule_occurrences(p, id), b.occurrences);
            assert(idx == prev.update(k, (id, table_insert_all(prev[k].1, b.occurrences))));
            assert forall|x: int| 0 <= x < idx.len() implies bucket_with_id(bs, (#[trigger] idx[x]).0) by {
                assert(idx[x].0 == prev[x].0);
            }
            assert forall|x: int| 0 <= x < idx.len() implies (#[trigger] idx[x]).1
                == table_insert_all(Seq::empty(), rule_occurrences(bs, idx[x].0)) by {
                if x != k {
                    assert(prev[x].0 != prev[k].0);
                }
            }
            assert forall|i: int| 0 <= i < bs.len() implies key_index(idx, (#[trigger] bs[i]).rule.id@, 0) >= 0 by {
                lemma_key_index_keys(idx, prev, bs[i].rule.id@);
                if i < p.len() {
                    assert(bs[i] == p[i]);
                }
            }
        } else {
            assert forall|i: int| 0 <= i < p.len() implies (#[trigger] p[i]).rule.id@ != id by {
                if p[i].rule.id@ == id {
                    assert(key_index(prev, p[i].rule.id@, 0) >= 0);
                }
            }
            lemma_rule_occurrences_none(p, id);
            assert(rule_occurrences(bs, id) =~= b.occurrences);
            assert(idx == prev.push((id, table_insert_all(Seq::empty(), b.occurrences))));
            assert forall|x: int| 0 <= x < idx.len() implies bucket_with_id(bs, (#[trigger] idx[x]).0) by {
                if x == prev.len() {
                    assert(bs[last].rule.id@ == idx[x].0);
                } else {
                    assert(idx[x] == prev[x]);
                }
            }
            assert forall|x: int| 0 <= x < idx.len() implies (#[trigger] idx[x]).1
                == table_insert_all(Seq::empty(), rule_occurrences(bs, idx[x].0)) by {
                if x < prev.len() {
                    assert(idx[x] == prev[x]);
                }
            }
            assert forall|i: int| 0 <= i < bs.len() implies key_index(idx, (#[trigger] bs[i]).rule.id@, 0) >= 0 by {
                if i < p.len() {
                    assert(bs[i] == p[i]);
                    assert forall|x: int| 0 <= x < prev.len() implies (#[trigger] prev[x]).0 == idx[x].0 by {}
                    lemma_key_index_grow(prev, idx, p[i].rule.id@);
                } else {
                    lemma_key_index_absent(idx, id, 0);
                    assert(idx[prev.len() as int].0 == id);
                }
            }
            assert forall|a: int, c: int| 0 <= a < c < idx.len() implies idx[a].0 != idx[c].0 by {
                if c == prev.len() {
                    assert(prev[a].0 != id);
                }
            }
        }
    }
}

/// The index that `build` returns holds what the scan found and nothing
/// else: one table for each rule id of the scan's buckets, and none for
/// another id; in the table of a rule, the rel of every occurrence of every
/// bucket of that rule, none twice; and every entry of a table holds the rel
/// and the path of an occurrence of a bucket of that rule.
pub proof fn lemma_index_holds_scan(bs: Seq<BucketView>)
    ensures
        keys_unique(index_of(bs)),
        forall|i: int| 0 <= i < bs.len() ==> key_index(index_of(bs), (#[trigger] bs[i]).rule.id@, 0) >= 0,
        forall|x: int| 0 <= x < index_of(bs).len() ==> bucket_with_id(bs, (#[trigger] index_of(bs)[x]).0),
        forall|x: int| 0 <= x < index_of(bs).len() ==> keys_unique((#[trigger] index_of(bs)[x]).1),
        forall|i: int, m: int| 0 <= i < bs.len() && 0 <= m < bs[i].occurrences.len() ==>
            key_index(index_of(bs)[key_index(index_of(bs), bs[i].rule.id@, 0)].1,
                (#[trigger] bs[i].occurrences[m]).rel, 0) >= 0,
        forall|x: int, e: int| 0 <= x < index_of(bs).len() && 0 <= e < index_of(bs)[x].1.len() ==>
            occurrence_at(bs, index_of(bs)[x].0, #[trigger] index_of(bs)[x].1[e]),
{
    let idx = index_of(bs);
    lemma_index_of(bs);
    assert forall|x: int| 0 <= x < idx.len() implies keys_unique((#[trigger] idx[x]).1) by {
        lemma_table_insert_all(Seq::empty(), rule_occurrences(bs, idx[x].0));
    }
    assert forall|i: int, m: int| 0 <= i < bs.len() && 0 <= m < bs[i].occurrences.len() implies
        key_index(idx[key_index(idx, bs[i].rule.id@, 0)].1, (#[trigger] bs[i].occurrences[m]).rel, 0) >= 0 by {
        let id = bs[i].rule.id@;
        assert(key_index(idx, bs[i].rule.id@, 0) >= 0);
        lemma_key_index_found(idx, id, 0);
        let x = key_index(idx, id, 0);
        let ro = rule_occurrences(bs, id);
        lemma_rule_occurrences_members(bs, id);
        assert(ro.contains(bs[i].occurrences[m]));
        let j = choose|j: int| 0 <= j < ro.len() && ro[j] == bs[i].occurrences[m];
        lemma_table_insert_all(Seq::empty(), ro);
        assert(key_index(table_insert_all(Seq::empty(), ro), ro[j].rel, 0) >= 0);
    }
    assert forall|x: int, e: int| 0 <= x < idx.len() && 0 <= e < idx[x].1.len() implies
        occurrence_at(bs, idx[x].0, #[trigger] idx[x].1[e]) by {
        let id = idx[x].0;
        let ro = rule_occurrences(bs, id);
        lemma_table_insert_all(Seq::empty(), ro);
        lemma_rule_occurrences_members(bs, id);
        let t = idx[x].1;
        assert(t == table_insert_all(Seq::empty(), ro));
        assert(entry_from(ro, t[e]));
        let j = choose|j: int| 0 <= j < ro.len() && (#[trigger] ro[j]).rel == t[e].0 && ro[j].path == t[e].1;
        assert(occurrence_in(bs, id, ro[j]));
        let (i, m) = choose|i: int, m: int|
            0 <= i < bs.len() && 0 <= m < bs[i].occurrences.len() && bs[i].rule.id@ == id
            && #[trigger] bs[i].occurrences[m] == ro[j];
        assert(bs[i].occurrences[m].rel == t[e].0);
    }
}

/// Where no other occurrence of the same rule shares its rel, the entry of
/// an occurrence in the index holds the occurrence's path.
pub proof fn lemma_index_path(bs: Seq<BucketView>, i: int, m: int)
    requires
        0 <= i < bs.len(),
        0 <= m < bs[i].occurrences.len(),
        forall|i2: int, m2: int| 0 <= i2 < bs.len() && 0 <= m2 < bs[i2].occurrences.len()
            && bs[i2].rule.id@ == bs[i].rule.id@ && (i2 != i || m2 != m)
            ==> (#[trigger] bs[i2].occurrences[m2]).rel != bs[i].occurrences[m].rel,
    ensures
        ({
            let idx = index_of(bs);
            let t = idx[key_index(idx, bs[i].rule.id@, 0)].1;
            t[key_index(t, bs[i].occurrences[m].rel, 0)].1 == bs[i].occurrences[m].path
        }),
{
    let idx = index_of(bs);
    let id = bs[i].rule.id@;
    let o = bs[i].occurrences[m];
    lemma_index_holds_scan(bs);
    assert(key_index(idx, id, 0) >= 0);
    lemma_key_index_found(idx, id, 0);
    let x = key_index(idx, id, 0);
    let t = idx[x].1;
    assert(key_index(t, o.rel, 0) >= 0);
    lemma_key_index_found(t, o.rel, 0);
    let e = key_index(t, o.rel, 0);
    assert(occurrence_at(bs, idx[x].0, t[e]));
    let (i2, m2) = choose|i2: int, m2: int|
        0 <= i2 < bs.len() && 0 <= m2 < bs[i2].occurrences.len()
        && bs[i2].rule.id@ == idx[x].0
        && (#[trigger] bs[i2].occurrences[m2]).rel == t[e].0
        && bs[i2].occurrences[m2].path == t[e].1;
    assert(i2 == i && m2 == m);
}

pub open spec fn by_bucket_size() -> spec_fn(BucketView) -> int {
    |b: BucketView| b.size as int
}

pub open spec fn by_occurrence_size() -> spec_fn(OccurrenceView) -> int {
    |o: OccurrenceView| o.size as int
}

pub open spec fn occurrence_report(o: OccurrenceView) -> OccurrenceReportView {
    OccurrenceReportView {
        rel: o.rel,
        size: o.size,
        files: o.files,
        is_dir: o.is_dir,
        ignored: o.ignored,
        is_tracked: o.is_tracked,
    }
}

/// The item of a bucket: the rule's description, the bucket's totals, and
/// its largest occurrences first, at most `MAX_OCCURRENCES_SENT` of them.
/// Outside git the coverage state is `na`.
pub open spec fn item_of(b: BucketView, is_git: bool) -> ItemReportView {
    let n = b.occurrences.len();
    let sent = if n > MAX_OCCURRENCES_SENT { MAX_OCCURRENCES_SENT as int } else { n as int };
    ItemReportView {
        rule_id: b.rule.id@,
        name: display_label(b.rule),
        category: b.rule.cat@,
        risk: b.rule.risk@,
        restore: b.rule.restore@,
        ignore_pattern: b.rule.ignore@,
        ignore_status: if is_git { b.ignore_status } else { "na"@ },
        tracked_count: b.tracked_count,
        size: b.size,
        files: b.files,
        count: n as usize,
        occurrences: sort_desc(b.occurrences, by_occurrence_size()).take(sent).map_values(
            |o: OccurrenceView| occurrence_report(o)),
        truncated: if n > MAX_OCCURRENCES_SENT { (n - MAX_OCCURRENCES_SENT) as usize } else { 0 },
    }
}

/// The report of a scan: artifacts largest first.
pub open spec fn report_of(name: Seq<char>, path: Seq<char>, is_git: bool, branch: Seq<char>,
    scan: crate::scanner::ProjectScanView, id: usize) -> ProjectReportView {
    ProjectReportView {
        id,
        name,
        path,
        is_git,
        branch: if is_git { branch } else { Seq::empty() },
        git_size: scan.git_size,
        total_size: scan.total_size,
        total_files: scan.total_files,
        reclaimable_size: scan.artifact_size() as u64,
        reclaimable_files: scan.artifact_files() as u64,
        items: sort_desc(scan.buckets, by_bucket_size()).map_values(|b: BucketView| item_of(b, is_git)),
    }
}

/// The report lists every artifact of the scan once, largest first, and
/// within each artifact the occurrences it sends, largest first too.
pub proof fn lemma_report_largest_first(name: Seq<char>, path: Seq<char>, is_git: bool, branch: Seq<char>,
    scan: crate::scanner::ProjectScanView, id: usize)
    ensures
        ({
            let items = report_of(name, path, is_git, branch, scan, id).items;
            &&& forall|i: int, j: int| 0 <= i < j < items.len() ==> (#[trigger] items[i]).size >= (#[trigger] items[j]).size
            &&& forall|k: int, i: int, j: int| 0 <= k < items.len() && 0 <= i < j < items[k].occurrences.len()
                ==> (#[trigger] items[k].occurrences[i]).size >= (#[trigger] items[k].occurrences[j]).size
        }),
        sort_desc(scan.buckets, by_bucket_size()).to_multiset() =~= scan.buckets.to_multiset(),
{
    let sorted = sort_desc(scan.buckets, by_bucket_size());
    crate::seqs::lemma_sort_desc_sorted(scan.buckets, by_bucket_size());
    crate::seqs::lemma_sort_desc_len(scan.buckets, by_bucket_size());
    let items = report_of(name, path, is_git, branch, scan, id).items;
    assert forall|i: int, j: int| 0 <= i < j < items.len() implies (#[trigger] items[i]).size >= (#[trigger] items[j]).size by {
        assert(items[i] == item_of(sorted[i], is_git));
        assert(items[j] == item_of(sorted[j], is_git));
        assert(by_bucket_size()(sorted[i]) >= by_bucket_size()(sorted[j]));
    }
    assert forall|k: int, i: int, j: int| 0 <= k < items.len() && 0 <= i < j < items[k].occurrences.len()
        implies (#[trigger] items[k].occurrences[i]).size >= (#[trigger] items[k].occurrences[j]).size by {
        let b = sorted[k];
        assert(items[k] == item_of(b, is_git));
        let occ = sort_desc(b.occurrences, by_occurrence_size());
        crate::seqs::lemma_sort_desc_sorted(b.occurrences, by_occurrence_size());
        crate::seqs::lemma_sort_desc_len(b.occurrences, by_occurrence_size());
        assert(items[k].occurrences[i] == occurrence_report(occ[i]));
        assert(items[k].occurrences[j] == occurrence_report(occ[j]));
        assert(by_occurrence_size()(occ[i]) >= by_occurrence_size()(occ[j]));
    }
}

fn sort_buckets(v: Vec<Bucket>) -> (r: Vec<Bucket>)
    ensures
        bucket_views(r@) == sort_desc(bucket_views(v@), by_bucket_size()),
{
    let ghost orig = bucket_views(v@);
    let ghost key = by_bucket_size();
    let mut rest = v;
    let mut out: Vec<Bucket> = Vec::new();
    let ghost mut i: int = 0;
    proof {
        assert(orig.take(0) =~= Seq::<BucketView>::empty());
        assert(orig.skip(0) =~= orig);
    }
    while rest.len() > 0
        invariant
            key == by_bucket_size(),
            0 <= i <= orig.len(),
            bucket_views(out@) == sort_desc(orig.take(i), key),
            bucket_views(rest@) == orig.skip(i),
        decreases rest@.len(),
    {
        let ghost before = bucket_views(out@);
        let ghost rest_v = bucket_views(rest@);
        let ghost rest_old = rest@;
        assert(rest_v.len() == rest@.len());
        assert(i < orig.len());
        let x = rest.remove(0);
        proof {
            assert(rest@ == rest_old.remove(0));
            assert(x@ == rest_v[0]);
            assert forall|k: int| 0 <= k < rest@.len() implies #[trigger] bucket_views(rest@)[k] == orig.skip(i + 1)[k] by {
                assert(rest@[k] == rest_old[k + 1]);
                assert(rest_v[k + 1] == orig.skip(i)[k + 1]);
            }
            assert(bucket_views(rest@) =~= orig.skip(i + 1));
        }
        let mut pos: usize = 0;
        while pos < out.len() && out[pos].size >= x.size
            invariant
                pos <= out@.len(),
                before == bucket_views(out@),
                forall|j: int| 0 <= j < pos ==> key(#[trigger] before[j]) >= key(x@),
                key == by_bucket_size(),
            decreases out@.len() - pos,
        {
            pos = pos + 1;
        }
        let ghost xv = x@;
        out.insert(pos, x);
        proof {
            lemma_insert_desc_at(before, xv, key, pos as int);
            assert(bucket_views(out@) =~= before.insert(pos as int, xv));
            assert(orig.take(i + 1).drop_last() =~= orig.take(i));
            assert(orig.take(i + 1).last() == xv);
            i = i + 1;
        }
    }
    proof {
        assert(orig.skip(i).len() == 0);
        assert(orig.take(i) =~= orig);
    }
    out
}

fn sort_occurrences(v: Vec<Occurrence>) -> (r: Vec<Occurrence>)
    ensures
        occurrence_views(r@) == sort_desc(occurrence_views(v@), by_occurrence_size()),
{
    let ghost orig = occurrence_views(v@);
    let ghost key = by_occurrence_size();
    let mut rest = v;
    let mut out: Vec<Occurrence> = Vec::new();
    let ghost mut i: int = 0;
    proof {
        assert(orig.take(0) =~= Seq::<OccurrenceView>::empty());
        assert(orig.skip(0) =~= orig);
    }
    while rest.len() > 0
        invariant
            key == by_occurrence_size(),
            0 <= i <= orig.len(),
            occurrence_views(out@) == sort_desc(orig.take(i), key),
            occurrence_views(rest@) == orig.skip(i),
        decreases rest@.len(),
    {
        let ghost before = occurrence_views(out@);
        let ghost rest_v = occurrence_views(rest@);
        let ghost rest_old = rest@;
        assert(rest_v.len() == rest@.len());
        assert(i < orig.len());
        let x = rest.remove(0);
        proof {
            assert(rest@ == rest_old.remove(0));
            assert(x@ == rest_v[0]);
            assert forall|k: int| 0 <= k < rest@.len() implies #[trigger] occurrence_views(rest@)[k] == orig.skip(i + 1)[k] by {
                assert(rest@[k] == rest_old[k + 1]);
                assert(rest_v[k + 1] == orig.skip(i)[k + 1]);
            }
            assert(occurrence_views(rest@) =~= orig.skip(i + 1));
        }
        let mut pos: usize = 0;
        while pos < out.len() && out[pos].size >= x.size
            invariant
                pos <= out@.len(),
                before == occurrence_views(out@),
                forall|j: int| 0 <= j < pos ==> key(#[trigger] before[j]) >= key(x@),
                key == by_occurrence_size(),
            decreases out@.len() - pos,
        {
            pos = pos + 1;
        }
        let ghost xv = x@;
        out.insert(pos, x);
        proof {
            lemma_insert_desc_at(before, xv, key, pos as int);
            assert(occurrence_views(out@) =~= before.insert(pos as int, xv));
            assert(orig.take(i + 1).drop_last() =~= orig.take(i));
            assert(orig.take(i + 1).last() == xv);
            i = i + 1;
        }
    }
    proof {
        assert(orig.skip(i).len() == 0);
        assert(orig.take(i) =~= orig);
    }
    out
}

fn make_item(b: Bucket, is_git: bool) -> (r: ItemReport)
    ensures
        r@ == item_of(b@, is_git),
        bucket_wf(b@) ==> item_wf(r@),
{
    let ghost bv = b@;
    let Bucket { rule, size, files, occurrences, ignore_status, tracked_count } = b;
    let total = occurrences.len();
    let sorted = sort_occurrences(occurrences);
    let ghost sv = occurrence_views(sorted@);
    proof {
        lemma_sort_desc_len(bv.occurrences, by_occurrence_size());
    }
    let sent = if total > MAX_OCCURRENCES_SENT { MAX_OCCURRENCES_SENT } else { total };
    let mut reports: Vec<OccurrenceReport> = Vec::new();
    let mut k: usize = 0;
    while k < sent
        invariant
            sv == occurrence_views(sorted@),
            sent <= sorted@.len(),
            k <= sent,
            occurrence_report_views(reports@) == sv.take(k as int).map_values(
                |o: OccurrenceView| occurrence_report(o)),
        decreases sent - k,
    {
        let o = &sorted[k];
        let report = OccurrenceReport {
            rel: o.rel.clone(),
            size: o.size,
            files: o.files,
            is_dir: o.is_dir,
            ignored: o.ignored,
            is_tracked: o.is_tracked,
        };
        let ghost prev = reports@;
        reports.push(report);
        proof {
            assert(sv[k as int] == o@);
            assert(occurrence_report_views(reports@) =~= occurrence_report_views(prev).push(
                occurrence_report(sv[k as int])));
            assert(sv.take(k + 1).map_values(|o: OccurrenceView| occurrence_report(o)) =~= sv.take(
                k as int).map_values(|o: OccurrenceView| occurrence_report(o)).push(occurrence_report(sv[k as int])));
        }
        k = k + 1;
    }
    proof {
        let taken = sv.take(sent as int);
        lemma_sum_map(taken, |o: OccurrenceView| occurrence_report(o), |o: OccurrenceReportView| rep_size(o),
            |o: OccurrenceView| occ_size(o));
        lemma_sum_map(taken, |o: OccurrenceView| occurrence_report(o), |o: OccurrenceReportView| rep_files(o),
            |o: OccurrenceView| occ_files(o));
        lemma_sum_take_le(sv, sent as int, |o: OccurrenceView| occ_size(o));
        lemma_sum_take_le(sv, sent as int, |o: OccurrenceView| occ_files(o));
        lemma_sum_sort_desc(bv.occurrences, by_occurrence_size(), |o: OccurrenceView| occ_size(o));
        lemma_sum_sort_desc(bv.occurrences, by_occurrence_size(), |o: OccurrenceView| occ_files(o));
    }
    let status = if is_git { ignore_status } else { from_literal("na") };
    ItemReport {
        rule_id: from_literal(rule.id),
        name: display_name(&rule),
        category: from_literal(rule.cat),
        risk: from_literal(rule.risk),
        restore: from_literal(rule.restore),
        ignore_pattern: from_literal(rule.ignore),
        ignore_status: status,
        tracked_count,
        size,
        files,
        count: total,
        occurrences: reports,
        truncated: if total > MAX_OCCURRENCES_SENT { total - MAX_OCCURRENCES_SENT } else { 0 },
    }
}

/// Position of the table of `rule_id`, or the number of tables.
pub(crate) fn rule_position(rules: &Vec<RuleIndex>, rule_id: &str) -> (r: usize)
    ensures
        r <= rules@.len(),
        key_index(rules@.map_values(|x: RuleIndex| x@), rule_id@, 0) == if r < rules@.len() { r as int } else { -1 },
{
    let ghost v = rules@.map_values(|x: RuleIndex| x@);
    let mut i: usize = 0;
    while i < rules.len()
        invariant
            v == rules@.map_values(|x: RuleIndex| x@),
            i <= rules@.len(),
            key_index(v, rule_id@, 0) == key_index(v, rule_id@, i as int),
        decreases rules@.len() - i,
    {
        if str_eq(rules[i].rule_id.as_str(), rule_id) {
            return i;
        }
        i = i + 1;
    }
    i
}

/// Position of the entry of `rel`, or the number of entries.
pub(crate) fn rel_position(entries: &Vec<IndexEntry>, rel: &str) -> (r: usize)
    ensures
        r <= entries@.len(),
        key_index(entry_views(entries@), rel@, 0) == if r < entries@.len() { r as int } else { -1 },
{
    let ghost v = entry_views(entries@);
    let mut i: usize = 0;
    while i < entries.len()
        invariant
            v == entry_views(entries@),
            i <= entries@.len(),
            key_index(v, rel@, 0) == key_index(v, rel@, i as int),
        decreases entries@.len() - i,
    {
        if str_eq(entries[i].rel.as_str(), rel) {
            return i;
        }
        i = i + 1;
    }
    i
}

/// Inserts each occurrence's `rel -> path` into `table`, in order.
fn insert_occurrences(table: &mut Vec<IndexEntry>, occurrences: &Vec<Occurrence>)
    ensures
        entry_views(final(table)@) == table_insert_all(entry_views(old(table)@), occurrence_views(occurrences@)),
{
    let ghost t0 = entry_views(table@);
    let ghost ov = occurrence_views(occurrences@);
    let mut j: usize = 0;
    proof {
        assert(ov.take(0) =~= Seq::<OccurrenceView>::empty());
    }
    while j < occurrences.len()
        invariant
            ov == occurrence_views(occurrences@),
            j <= occurrences@.len(),
            entry_views(table@) == table_insert_all(t0, ov.take(j as int)),
        decreases occurrences@.len() - j,
    {
        let o = &occurrences[j];
        let ghost t = entry_views(table@);
        let k = rel_position(table, o.rel.as_str());
        if k < table.len() {
            proof {
                lemma_key_index_found(t, o.rel@, 0);
            }
            let entry = &mut table[k];
            entry.path = o.path.clone();
            proof {
                assert(entry_views(table@) =~= t.update(k as int, (o.rel@, o.path@)));
            }
        } else {
            table.push(IndexEntry { rel: o.rel.clone(), path: o.path.clone() });
            proof {
                assert(entry_views(table@) =~= t.push((o.rel@, o.path@)));
            }
        }
        proof {
            assert(ov.take(j + 1).drop_last() =~= ov.take(j as int));
            assert(ov.take(j + 1).last() == o@);
        }
        j = j + 1;
    }
    proof {
        assert(ov.take(j as int) =~= ov);
    }
}

/// Builds the client report of a scanned project and the index of the
/// paths that a later deletion may touch.
///
/// Artifacts come largest first, so the interface leads with what actually
/// costs space; within an artifact, occurrences too.
pub fn build(name: String, path: String, is_git: bool, branch: String, scan: ProjectScan,
    id: usize) -> (r: (ProjectReport, ProjectIndex))
    requires
        scan@.artifact_size() <= u64::MAX,
        scan@.artifact_files() <= u64::MAX,
    ensures
        r.0@ == report_of(name@, path@, is_git, branch@, scan@, id),
        r.0@.reclaimable_size == r.0@.items_size(),
        r.0@.reclaimable_files == r.0@.items_files(),
        scan@.wf() ==> r.0@.wf(),
        r.1@ == index_of(scan@.buckets),
        keys_unique(r.1@),
        forall|x: int| 0 <= x < r.1@.len() ==> keys_unique(#[trigger] r.1@[x].1),
{
    let ghost sc = scan@;
    let ghost bs = sc.buckets;
    let mut rules: Vec<RuleIndex> = Vec::new();
    let mut reclaimable_size: u64 = 0;
    let mut reclaimable_files: u64 = 0;
    let mut i: usize = 0;
    proof {
        lemma_sum_of_nonneg(bs, |b: BucketView| bucket_size(b));
        lemma_sum_of_nonneg(bs, |b: BucketView| bucket_files(b));
    }
    while i < scan.buckets.len()
        invariant
            sc == scan@,
            bs == sc.buckets,
            sc.artifact_size() <= u64::MAX,
            sc.artifact_files() <= u64::MAX,
            i <= bs.len(),
            rules@.map_values(|r: RuleIndex| r@) == index_of(bs.take(i as int)),
            reclaimable_size == sum_of(bs.take(i as int), |b: BucketView| bucket_size(b)),
            reclaimable_files == sum_of(bs.take(i as int), |b: BucketView| bucket_files(b)),
        decreases bs.len() - i,
    {
        let bucket = &scan.buckets[i];
        assert(bucket@ == bs[i as int]);
        let ghost prev = rules@.map_values(|r: RuleIndex| r@);
        let ghost id = bs[i as int].rule.id@;
        let ghost occ = bs[i as int].occurrences;
        let k = rule_position(&rules, bucket.rule.id);
        if k < rules.len() {
            proof {
                lemma_key_index_found(prev, id, 0);
            }
            insert_occurrences(&mut rules[k].entries, &bucket.occurrences);
            proof {
                assert(rules@.map_values(|r: RuleIndex| r@) =~= prev.update(k as int,
                    (id, table_insert_all(prev[k as int].1, occ))));
            }
        } else {
            let mut entries: Vec<IndexEntry> = Vec::new();
            proof {
                assert(entry_views(entries@) =~= Seq::<(Seq<char>, Seq<char>)>::empty());
            }
            insert_occurrences(&mut entries, &bucket.occurrences);
            rules.push(RuleIndex { rule_id: from_literal(bucket.rule.id), entries });
            proof {
                assert(rules@.map_values(|r: RuleIndex| r@) =~= prev.push(
                    (id, table_insert_all(Seq::empty(), occ))));
            }
        }
        proof {
            assert(bs.take(i + 1).drop_last() =~= bs.take(i as int));
            assert(bs.take(i + 1).last() == bs[i as int]);
            lemma_sum_of_take(bs, i as int, |b: BucketView| bucket_size(b));
            lemma_sum_of_take(bs, i as int, |b: BucketView| bucket_files(b));
            lemma_sum_take_le(bs, i + 1, |b: BucketView| bucket_size(b));
            lemma_sum_take_le(bs, i + 1, |b: BucketView| bucket_files(b));
            assert(rules@.map_values(|r: RuleIndex| r@) == index_of(bs.take(i + 1)));
        }
        reclaimable_size = reclaimable_size + bucket.size;
        reclaimable_files = reclaimable_files + bucket.files;
        i = i + 1;
    }
    proof {
        assert(bs.take(i as int) =~= bs);
    }
    let index = ProjectIndex { rules };
    proof {
        lemma_index_holds_scan(bs);
    }
    let ProjectScan { buckets, total_size, total_files, git_size } = scan;
    let sorted = sort_buckets(buckets);
    let ghost sorted_v = bucket_views(sorted@);
    let ghost target = sorted_v.map_values(|b: BucketView| item_of(b, is_git));
    proof {
        lemma_sort_desc_len(bs, by_bucket_size());
        assert(sorted_v.skip(0) =~= sorted_v);
    }
    let mut rest = sorted;
    let mut items: Vec<ItemReport> = Vec::new();
    let ghost mut k: int = 0;
    while rest.len() > 0
        invariant
            sorted_v == sort_desc(bs, by_bucket_size()),
            target == sorted_v.map_values(|b: BucketView| item_of(b, is_git)),
            sc == scan@,
            bs == sc.buckets,
            sc.wf() ==> forall|x: int| 0 <= x < bs.len() ==> bucket_wf(#[trigger] bs[x]),
            sorted_v.len() == bs.len(),
            0 <= k <= sorted_v.len(),
            bucket_views(rest@) == sorted_v.skip(k),
            item_views(items@) == target.take(k),
            sc.wf() ==> forall|x: int| 0 <= x < items@.len() ==> item_wf(#[trigger] item_views(items@)[x]),
        decreases rest@.len(),
    {
        let ghost rest_old = rest@;
        assert(bucket_views(rest_old).len() == rest_old.len());
        let b = rest.remove(0);
        proof {
            assert(rest@ == rest_old.remove(0));
            assert(bucket_views(rest_old)[0] == sorted_v.skip(k)[0]);
            assert(b@ == sorted_v[k]);
            if sc.wf() {
                let p = |b: BucketView| bucket_wf(b);
                assert forall|x: int| 0 <= x < bs.len() implies #[trigger] p(bs[x]) by {
                    assert(bucket_wf(bs[x]));
                }
                lemma_sort_desc_all(bs, by_bucket_size(), p);
                assert(p(sorted_v[k]));
            }
            assert(bucket_views(rest@) =~= sorted_v.skip(k + 1)) by {
                assert forall|y: int| 0 <= y < rest@.len() implies #[trigger] bucket_views(rest@)[y] == sorted_v.skip(k + 1)[y] by {
                    assert(rest@[y] == rest_old[y + 1]);
                    assert(bucket_views(rest_old)[y + 1] == sorted_v.skip(k)[y + 1]);
                    assert(sorted_v.skip(k)[y + 1] == sorted_v[k + y + 1]);
                }
            }
        }
        let item = make_item(b, is_git);
        let ghost prev = items@;
        items.push(item);
        proof {
            assert(item_views(items@) =~= item_views(prev).push(target[k]));
            assert(target.take(k + 1) =~= target.take(k).push(target[k]));
            assert(item_views(items@) =~= target.take(k + 1));
            k = k + 1;
        }
    }
    proof {
        assert(target.take(k) =~= target);
        lemma_sum_map(sorted_v, |b: BucketView| item_of(b, is_git), |i: ItemReportView| item_size(i),
            |b: BucketView| bucket_size(b));
        lemma_sum_map(sorted_v, |b: BucketView| item_of(b, is_git), |i: ItemReportView| item_files(i),
            |b: BucketView| bucket_files(b));
        lemma_sum_sort_desc(bs, by_bucket_size(), |b: BucketView| bucket_size(b));
        lemma_sum_sort_desc(bs, by_bucket_size(), |b: BucketView| bucket_files(b));
    }
    let report = ProjectReport {
        id,
        name,
        path,
        is_git,
        branch: if is_git { branch } else { String::new() },
        git_size,
        total_size,
        total_files,
        reclaimable_size,
        reclaimable_files,
        items,
    };
    (report, index)
}

/// A removal as the clean handler reports it: rule id, relative path and
/// the bytes freed.
pub type RemovalView = (Seq<char>, Seq<char>, u64);

pub open spec fn removal_views(s: Seq<(String, String, u64)>) -> Seq<RemovalView> {
    s.map_values(|r: (String, String, u64)| (r.0@, r.1@, r.2))
}

pub open spec fn removal_size(r: RemovalView) -> int {
    r.2 as int
}

pub open spec fn of_rule(rule_id: Seq<char>) -> spec_fn(RemovalView) -> bool {
    |r: RemovalView| r.0 == rule_id
}

pub open spec fn removal_rel() -> spec_fn(RemovalView) -> Seq<char> {
    |r: RemovalView| r.1
}

pub open spec fn listed_in(rels: Seq<Seq<char>>) -> spec_fn(OccurrenceReportView) -> bool {
    |o: OccurrenceReportView| rels.contains(o.rel)
}

pub open spec fn not_listed_in(rels: Seq<Seq<char>>) -> spec_fn(OccurrenceReportView) -> bool {
    |o: OccurrenceReportView| !rels.contains(o.rel)
}

/// The removals that concern the rule `rule_id`, in order.
pub open spec fn removals_for(removed: Seq<RemovalView>, rule_id: Seq<char>) -> Seq<RemovalView> {
    keep_if(removed, of_rule(rule_id))
}

pub open spec fn sat_sub(a: int, b: int) -> int {
    if a >= b { a - b } else { 0 }
}

/// The items left once the removals are applied: each pruned, those whose
/// count drops to zero gone.
pub open spec fn remaining_items(p: ProjectReportView, removed: Seq<RemovalView>) -> Seq<ItemReportView> {
    keep_if(p.items.map_values(pruned_by(removed)), still_listed())
}

/// The occurrences of `item` that the removals of its rule name.
pub open spec fn removed_here(item: ItemReportView, removed: Seq<RemovalView>) -> Seq<OccurrenceReportView> {
    keep_if(item.occurrences, listed_in(removals_for(removed, item.rule_id).map_values(removal_rel())))
}

/// The totals of the occurrences removed from `item` fit in 64 bits.
pub open spec fn removed_here_fits(item: ItemReportView, removed: Seq<RemovalView>) -> bool {
    &&& sum_of(removed_here(item, removed), |o: OccurrenceReportView| rep_size(o)) <= u64::MAX
    &&& sum_of(removed_here(item, removed), |o: OccurrenceReportView| rep_files(o)) <= u64::MAX
}

/// An item once the removals of its rule are applied: the occurrences
/// removed leave the list, their size and files leave the totals, and the
/// count drops by the number of removals (all saturating at zero).
pub open spec fn prune_item(item: ItemReportView, removed: Seq<RemovalView>) -> ItemReportView {
    let gone = removals_for(removed, item.rule_id);
    let rels = gone.map_values(removal_rel());
    if gone.len() == 0 {
        item
    } else {
        let here = keep_if(item.occurrences, listed_in(rels));
        ItemReportView {
            size: sat_sub(item.size as int, sum_of(here, |o: OccurrenceReportView| rep_size(o))) as u64,
            files: sat_sub(item.files as int, sum_of(here, |o: OccurrenceReportView| rep_files(o))) as u64,
            count: sat_sub(item.count as int, gone.len() as int) as usize,
            occurrences: keep_if(item.occurrences, not_listed_in(rels)),
            ..item
        }
    }
}

pub open spec fn still_listed() -> spec_fn(ItemReportView) -> bool {
    |i: ItemReportView| i.count > 0
}

pub open spec fn pruned_by(removed: Seq<RemovalView>) -> spec_fn(ItemReportView) -> ItemReportView {
    |i: ItemReportView| prune_item(i, removed)
}

/// The report once `removed` is applied: items pruned, those left without
/// occurrence dropped, reclaimable totals recomputed from the items, and the
/// freed bytes taken from the project's total.
pub open spec fn after_removals(p: ProjectReportView, removed: Seq<RemovalView>) -> ProjectReportView {
    let items = remaining_items(p, removed);
    ProjectReportView {
        items,
        reclaimable_size: sum_of(items, |i: ItemReportView| item_size(i)) as u64,
        reclaimable_files: sum_of(items, |i: ItemReportView| item_files(i)) as u64,
        total_size: sat_sub(p.total_size as int, sum_of(removed, |r: RemovalView| removal_size(r))) as u64,
        ..p
    }
}

fn prune(item: &mut ItemReport, removed: &[(String, String, u64)])
    requires
        removed_here_fits(old(item)@, removal_views(removed@)),
    ensures
        final(item)@ == prune_item(old(item)@, removal_views(removed@)),
        item_wf(old(item)@) ==> item_wf(final(item)@),
        final(item).size <= old(item).size,
        final(item).files <= old(item).files,
{
    let ghost iv = item@;
    let ghost rv = removal_views(removed@);
    let ghost gone_all = removals_for(rv, iv.rule_id);
    let mut rels: Vec<String> = Vec::new();
    let mut gone: usize = 0;
    let mut r: usize = 0;
    while r < removed.len()
        invariant
            iv == item@,
            rv == removal_views(removed@),
            r <= removed@.len(),
            views(rels@) == removals_for(rv.take(r as int), iv.rule_id).map_values(removal_rel()),
            gone as int == removals_for(rv.take(r as int), iv.rule_id).len(),
            gone <= r,
        decreases removed@.len() - r,
    {
        let ghost before = removals_for(rv.take(r as int), iv.rule_id);
        proof {
            assert(rv.take(r + 1) =~= rv.take(r as int).push(rv[r as int]));
            lemma_keep_if_push(rv.take(r as int), rv[r as int], of_rule(iv.rule_id));
        }
        if str_eq(removed[r].0.as_str(), item.rule_id.as_str()) {
            let ghost prev = rels@;
            rels.push(removed[r].1.clone());
            proof {
                assert(views(rels@) =~= views(prev).push(rv[r as int].1));
                assert(before.push(rv[r as int]).map_values(removal_rel()) =~= before.map_values(
                    removal_rel()).push(rv[r as int].1));
            }
            gone = gone + 1;
        }
        r = r + 1;
    }
    proof {
        assert(rv.take(r as int) =~= rv);
    }
    if gone == 0 {
        return;
    }
    let ghost rels_v = gone_all.map_values(removal_rel());
    let ghost occ = iv.occurrences;
    let ghost here_p = listed_in(rels_v);
    let ghost kept_p = not_listed_in(rels_v);
    let mut old_occ: Vec<OccurrenceReport> = Vec::new();
    std::mem::swap(&mut old_occ, &mut item.occurrences);
    let mut kept: Vec<OccurrenceReport> = Vec::new();
    let mut here_size: u64 = 0;
    let mut here_files: u64 = 0;
    let ghost mut k: int = 0;
    proof {
        assert(occ.skip(0) =~= occ);
        assert(occ.take(0) =~= Seq::<OccurrenceReportView>::empty());
        assert(keep_if(occ, here_p) == removed_here(iv, rv));
    }
    while old_occ.len() > 0
        invariant
            occ == iv.occurrences,
            views(rels@) == rels_v,
            here_p == listed_in(rels_v),
            kept_p == not_listed_in(rels_v),
            0 <= k <= occ.len(),
            occurrence_report_views(old_occ@) == occ.skip(k),
            occurrence_report_views(kept@) == keep_if(occ.take(k), kept_p),
            here_size == sum_of(keep_if(occ.take(k), here_p), |o: OccurrenceReportView| rep_size(o)),
            here_files == sum_of(keep_if(occ.take(k), here_p), |o: OccurrenceReportView| rep_files(o)),
            sum_of(keep_if(occ, here_p), |o: OccurrenceReportView| rep_size(o)) <= u64::MAX,
            sum_of(keep_if(occ, here_p), |o: OccurrenceReportView| rep_files(o)) <= u64::MAX,
        decreases old_occ@.len(),
    {
        let ghost old_v = old_occ@;
        assert(occurrence_report_views(old_v).len() == old_v.len());
        let o = old_occ.remove(0);
        proof {
            assert(old_occ@ == old_v.remove(0));
            assert(occurrence_report_views(old_v)[0] == occ.skip(k)[0]);
            assert(o@ == occ[k]);
            assert forall|y: int| 0 <= y < old_occ@.len() implies #[trigger] occurrence_report_views(old_occ@)[y] == occ.skip(k + 1)[y] by {
                assert(old_occ@[y] == old_v[y + 1]);
                assert(occurrence_report_views(old_v)[y + 1] == occ.skip(k)[y + 1]);
            }
            assert(occurrence_report_views(old_occ@) =~= occ.skip(k + 1));
            assert(occ.take(k + 1) =~= occ.take(k).push(occ[k]));
            lemma_keep_if_push(occ.take(k), occ[k], here_p);
            lemma_keep_if_push(occ.take(k), occ[k], kept_p);
            lemma_sum_take_prefix_keep(occ, k, here_p);
        }
        if contains_str(&rels, o.rel.as_str()) {
            proof {
                lemma_sum_of_push(keep_if(occ.take(k), here_p), occ[k], |o: OccurrenceReportView| rep_size(o));
                lemma_sum_of_push(keep_if(occ.take(k), here_p), occ[k], |o: OccurrenceReportView| rep_files(o));
            }
            here_size = here_size + o.size;
            here_files = here_files + o.files;
        } else {
            let ghost prev = kept@;
            kept.push(o);
            proof {
                assert(occurrence_report_views(kept@) =~= occurrence_report_views(prev).push(occ[k]));
            }
        }
        proof {
            k = k + 1;
        }
    }
    proof {
        assert(occ.take(k) =~= occ);
        lemma_sum_keep_if_split(occ, here_p, kept_p, |o: OccurrenceReportView| rep_size(o));
        lemma_sum_keep_if_split(occ, here_p, kept_p, |o: OccurrenceReportView| rep_files(o));
        lemma_sum_keep_if_le(occ, here_p, |o: OccurrenceReportView| rep_size(o));
        lemma_sum_keep_if_le(occ, here_p, |o: OccurrenceReportView| rep_files(o));
        lemma_sum_keep_if_le(occ, kept_p, |o: OccurrenceReportView| rep_size(o));
        lemma_sum_keep_if_le(occ, kept_p, |o: OccurrenceReportView| rep_files(o));
    }
    item.occurrences = kept;
    item.size = if item.size >= here_size { item.size - here_size } else { 0 };
    item.files = if item.files >= here_files { item.files - here_files } else { 0 };
    item.count = if item.count >= gone { item.count - gone } else { 0 };
}

/// The prefix of what a filter keeps is bounded by the whole.
proof fn lemma_sum_take_prefix_keep(s: Seq<OccurrenceReportView>, k: int, p: spec_fn(OccurrenceReportView) -> bool)
    requires
        0 <= k < s.len(),
    ensures
        sum_of(keep_if(s.take(k + 1), p), |o: OccurrenceReportView| rep_size(o))
            <= sum_of(keep_if(s, p), |o: OccurrenceReportView| rep_size(o)),
        sum_of(keep_if(s.take(k + 1), p), |o: OccurrenceReportView| rep_files(o))
            <= sum_of(keep_if(s, p), |o: OccurrenceReportView| rep_files(o)),
    decreases s.len() - k,
{
    if k + 1 < s.len() {
        lemma_sum_take_prefix_keep(s, k + 1, p);
        assert(s.take(k + 2) =~= s.take(k + 1).push(s[k + 1]));
        lemma_keep_if_push(s.take(k + 1), s[k + 1], p);
        lemma_sum_of_push(keep_if(s.take(k + 1), p), s[k + 1], |o: OccurrenceReportView| rep_size(o));
        lemma_sum_of_push(keep_if(s.take(k + 1), p), s[k + 1], |o: OccurrenceReportView| rep_files(o));
    } else {
        assert(s.take(k + 1) =~= s);
    }
}

/// In a consistent report, every total that applying removals computes
/// fits in 64 bits.
pub proof fn lemma_removals_fit(p: ProjectReportView, removed: Seq<RemovalView>)
    requires
        p.wf(),
    ensures
        forall|i: int| 0 <= i < p.items.len() ==> removed_here_fits(#[trigger] p.items[i], removed),
        sum_of(remaining_items(p, removed), |i: ItemReportView| item_size(i)) <= u64::MAX,
        sum_of(remaining_items(p, removed), |i: ItemReportView| item_files(i)) <= u64::MAX,
{
    assert forall|i: int| 0 <= i < p.items.len() implies removed_here_fits(#[trigger] p.items[i], removed) by {
        let item = p.items[i];
        assert(item_wf(item));
        let here_p = listed_in(removals_for(removed, item.rule_id).map_values(removal_rel()));
        lemma_sum_keep_if_le(item.occurrences, here_p, |o: OccurrenceReportView| rep_size(o));
        lemma_sum_keep_if_le(item.occurrences, here_p, |o: OccurrenceReportView| rep_files(o));
    }
    assert forall|x: ItemReportView| #[trigger] item_size(pruned_by(removed)(x)) <= item_size(x) by {
        lemma_sum_of_nonneg(removed_here(x, removed), |o: OccurrenceReportView| rep_size(o));
    }
    assert forall|x: ItemReportView| #[trigger] item_files(pruned_by(removed)(x)) <= item_files(x) by {
        lemma_sum_of_nonneg(removed_here(x, removed), |o: OccurrenceReportView| rep_files(o));
    }
    crate::seqs::lemma_sum_keep_if_map_le(p.items, pruned_by(removed), still_listed(), |i: ItemReportView| item_size(i));
    crate::seqs::lemma_sum_keep_if_map_le(p.items, pruned_by(removed), still_listed(), |i: ItemReportView| item_files(i));
}

/// An item once removals that name the paths `rels`, `n` of them, are
/// applied to it.
pub open spec fn pruned_with(item: ItemReportView, rels: Seq<Seq<char>>, n: int) -> ItemReportView {
    let here = keep_if(item.occurrences, listed_in(rels));
    ItemReportView {
        size: sat_sub(item.size as int, sum_of(here, |o: OccurrenceReportView| rep_size(o))) as u64,
        files: sat_sub(item.files as int, sum_of(here, |o: OccurrenceReportView| rep_files(o))) as u64,
        count: sat_sub(item.count as int, n) as usize,
        occurrences: keep_if(item.occurrences, not_listed_in(rels)),
        ..item
    }
}

pub open spec fn gone_rels(removed: Seq<RemovalView>, rule_id: Seq<char>) -> Seq<Seq<char>> {
    removals_for(removed, rule_id).map_values(removal_rel())
}

proof fn lemma_prune_item_with(item: ItemReportView, removed: Seq<RemovalView>)
    ensures
        prune_item(item, removed) == pruned_with(item, gone_rels(removed, item.rule_id),
            removals_for(removed, item.rule_id).len() as int),
{
    let rels = gone_rels(removed, item.rule_id);
    if removals_for(removed, item.rule_id).len() == 0 {
        let occ = item.occurrences;
        assert(rels =~= Seq::<Seq<char>>::empty());
        assert forall|i: int| 0 <= i < occ.len() implies #[trigger] not_listed_in(rels)(occ[i]) by {}
        crate::seqs::lemma_keep_if_all(occ, not_listed_in(rels));
        lemma_sum_keep_if_split(occ, listed_in(rels), not_listed_in(rels), |o: OccurrenceReportView| rep_size(o));
        lemma_sum_keep_if_split(occ, listed_in(rels), not_listed_in(rels), |o: OccurrenceReportView| rep_files(o));
        assert(pruned_with(item, rels, 0) =~= item);
    }
}

proof fn lemma_contains_concat(a: Seq<Seq<char>>, b: Seq<Seq<char>>, e: Seq<char>)
    ensures
        (a + b).contains(e) == (a.contains(e) || b.contains(e)),
{
    if (a + b).contains(e) {
        let i = choose|i: int| 0 <= i < (a + b).len() && (a + b)[i] == e;
        if i >= a.len() {
            assert(b[i - a.len()] == e);
        }
    }
    if a.contains(e) {
        let i = choose|i: int| 0 <= i < a.len() && a[i] == e;
        assert((a + b)[i] == e);
    }
    if b.contains(e) {
        let i = choose|i: int| 0 <= i < b.len() && b[i] == e;
        assert((a + b)[a.len() + i] == e);
    }
}

proof fn lemma_pruned_with_twice(item: ItemReportView, r1: Seq<Seq<char>>, n1: int, r2: Seq<Seq<char>>, n2: int)
    requires
        0 <= n1,
        0 <= n2,
    ensures
        pruned_with(pruned_with(item, r1, n1), r2, n2) == pruned_with(item, r1 + r2, n1 + n2),
{
    let occ = item.occurrences;
    let r12 = r1 + r2;
    assert forall|o: OccurrenceReportView| #[trigger] not_listed_in(r12)(o) == (not_listed_in(r1)(o) && not_listed_in(r2)(o)) by {
        lemma_contains_concat(r1, r2, o.rel);
    }
    assert forall|o: OccurrenceReportView| #[trigger] listed_in(r12)(o) == (listed_in(r1)(o) || listed_in(r2)(o)) by {
        lemma_contains_concat(r1, r2, o.rel);
    }
    crate::seqs::lemma_keep_if_keep_if(occ, not_listed_in(r1), not_listed_in(r2), not_listed_in(r12));
    crate::seqs::lemma_sum_keep_if_either(occ, listed_in(r1), not_listed_in(r1), listed_in(r2), listed_in(r12),
        |o: OccurrenceReportView| rep_size(o));
    crate::seqs::lemma_sum_keep_if_either(occ, listed_in(r1), not_listed_in(r1), listed_in(r2), listed_in(r12),
        |o: OccurrenceReportView| rep_files(o));
    lemma_sum_of_nonneg(keep_if(occ, listed_in(r1)), |o: OccurrenceReportView| rep_size(o));
    lemma_sum_of_nonneg(keep_if(occ, listed_in(r1)), |o: OccurrenceReportView| rep_files(o));
    lemma_sum_of_nonneg(keep_if(keep_if(occ, not_listed_in(r1)), listed_in(r2)), |o: OccurrenceReportView| rep_size(o));
    lemma_sum_of_nonneg(keep_if(keep_if(occ, not_listed_in(r1)), listed_in(r2)), |o: OccurrenceReportView| rep_files(o));
    assert(pruned_with(pruned_with(item, r1, n1), r2, n2) =~= pruned_with(item, r12, n1 + n2));
}

/// Applying two lists of removals one after the other is applying them at
/// once: the report reached is the same.
pub proof fn lemma_removals_compose(p: ProjectReportView, r1: Seq<RemovalView>, r2: Seq<RemovalView>)
    ensures
        after_removals(after_removals(p, r1), r2) == after_removals(p, r1 + r2),
{
    let g1 = pruned_by(r1);
    let g2 = pruned_by(r2);
    let g = pruned_by(r1 + r2);
    assert forall|x: ItemReportView| #[trigger] g(x) == g2(g1(x)) by {
        let id = x.rule_id;
        lemma_prune_item_with(x, r1);
        lemma_prune_item_with(g1(x), r2);
        lemma_prune_item_with(x, r1 + r2);
        crate::seqs::lemma_keep_if_concat(r1, r2, of_rule(id));
        assert(removals_for(r1 + r2, id).map_values(removal_rel()) =~= removals_for(r1, id).map_values(removal_rel())
            + removals_for(r2, id).map_values(removal_rel()));
        lemma_pruned_with_twice(x, gone_rels(r1, id), removals_for(r1, id).len() as int, gone_rels(r2, id),
            removals_for(r2, id).len() as int);
    }
    assert forall|y: ItemReportView| still_listed()(#[trigger] g2(y)) implies still_listed()(y) by {}
    crate::seqs::lemma_keep_map_twice(p.items, g1, g2, g, still_listed());
    crate::seqs::lemma_sum_of_concat(r1, r2, |r: RemovalView| removal_size(r));
    lemma_sum_of_nonneg(r1, |r: RemovalView| removal_size(r));
    lemma_sum_of_nonneg(r2, |r: RemovalView| removal_size(r));
    assert(after_removals(after_removals(p, r1), r2) =~= after_removals(p, r1 + r2));
}

/// Applying no removal to a consistent report whose items all count some
/// occurrence leaves it as it is.
pub proof fn lemma_no_removals(p: ProjectReportView)
    requires
        p.wf(),
        forall|i: int| 0 <= i < p.items.len() ==> (#[trigger] p.items[i]).count > 0,
    ensures
        after_removals(p, Seq::empty()) == p,
{
    let none = Seq::<RemovalView>::empty();
    assert forall|x: ItemReportView| #[trigger] pruned_by(none)(x) == x by {
        assert(removals_for(none, x.rule_id) =~= Seq::<RemovalView>::empty());
    }
    assert(p.items.map_values(pruned_by(none)) =~= p.items);
    crate::seqs::lemma_keep_if_all(p.items, still_listed());
    assert(after_removals(p, none) =~= p);
}

impl ProjectReport {
    /// Drops the occurrences that were actually removed, so the client stays
    /// in sync without running a full scan again. Each removal is the rule
    /// id, the relative path and the bytes freed.
    pub fn apply_removals(&mut self, removed: &[(String, String, u64)])
        requires
            sum_of(removal_views(removed@), |r: RemovalView| removal_size(r)) <= u64::MAX,
            forall|i: int| 0 <= i < old(self)@.items.len()
                ==> removed_here_fits(#[trigger] old(self)@.items[i], removal_views(removed@)),
            sum_of(remaining_items(old(self)@, removal_views(removed@)), |i: ItemReportView| item_size(i)) <= u64::MAX,
            sum_of(remaining_items(old(self)@, removal_views(removed@)), |i: ItemReportView| item_files(i)) <= u64::MAX,
        ensures
            final(self)@ == after_removals(old(self)@, removal_views(removed@)),
            old(self)@.wf() ==> final(self)@.wf(),
    {
        let ghost pv = self@;
        let ghost rv = removal_views(removed@);
        let mut freed: u64 = 0;
        let mut r: usize = 0;
        proof {
            lemma_sum_of_nonneg(rv, |x: RemovalView| removal_size(x));
        }
        while r < removed.len()
            invariant
                rv == removal_views(removed@),
                r <= removed@.len(),
                freed == sum_of(rv.take(r as int), |x: RemovalView| removal_size(x)),
                sum_of(rv, |x: RemovalView| removal_size(x)) <= u64::MAX,
            decreases removed@.len() - r,
        {
            proof {
                lemma_sum_of_take(rv, r as int, |x: RemovalView| removal_size(x));
                lemma_sum_take_le(rv, r + 1, |x: RemovalView| removal_size(x));
            }
            freed = freed + removed[r].2;
            r = r + 1;
        }
        proof {
            assert(rv.take(r as int) =~= rv);
        }
        let ghost mapped = pv.items.map_values(pruned_by(rv));
        let mut old_items: Vec<ItemReport> = Vec::new();
        std::mem::swap(&mut old_items, &mut self.items);
        let mut items: Vec<ItemReport> = Vec::new();
        let mut size_sum: u64 = 0;
        let mut files_sum: u64 = 0;
        let ghost mut k: int = 0;
        proof {
            assert(pv.items.skip(0) =~= pv.items);
            assert(mapped.take(0) =~= Seq::<ItemReportView>::empty());
            assert(pv.items.take(0) =~= Seq::<ItemReportView>::empty());
            lemma_sum_of_nonneg(pv.items, |i: ItemReportView| item_size(i));
            lemma_sum_of_nonneg(pv.items, |i: ItemReportView| item_files(i));
        }
        while old_items.len() > 0
            invariant
                pv == old(self)@,
                rv == removal_views(removed@),
                forall|i: int| 0 <= i < pv.items.len() ==> removed_here_fits(#[trigger] pv.items[i], rv),
                sum_of(keep_if(mapped, still_listed()), |i: ItemReportView| item_size(i)) <= u64::MAX,
                sum_of(keep_if(mapped, still_listed()), |i: ItemReportView| item_files(i)) <= u64::MAX,
                mapped == pv.items.map_values(pruned_by(rv)),
                0 <= k <= pv.items.len(),
                item_views(old_items@) == pv.items.skip(k),
                item_views(items@) == keep_if(mapped.take(k), still_listed()),
                pv.wf() ==> forall|x: int| 0 <= x < items@.len() ==> item_wf(#[trigger] item_views(items@)[x]),
                size_sum == sum_of(item_views(items@), |i: ItemReportView| item_size(i)),
                files_sum == sum_of(item_views(items@), |i: ItemReportView| item_files(i)),
            decreases old_items@.len(),
        {
            let ghost old_v = old_items@;
            assert(item_views(old_v).len() == old_v.len());
            let mut item = old_items.remove(0);
            proof {
                assert(old_items@ == old_v.remove(0));
                assert(item_views(old_v)[0] == pv.items.skip(k)[0]);
                assert(item@ == pv.items[k]);
                assert(removed_here_fits(pv.items[k], rv));
                assert forall|y: int| 0 <= y < old_items@.len() implies #[trigger] item_views(old_items@)[y] == pv.items.skip(k + 1)[y] by {
                    assert(old_items@[y] == old_v[y + 1]);
                    assert(item_views(old_v)[y + 1] == pv.items.skip(k)[y + 1]);
                }
                assert(item_views(old_items@) =~= pv.items.skip(k + 1));
                assert(mapped.take(k + 1) =~= mapped.take(k).push(mapped[k]));
                lemma_keep_if_push(mapped.take(k), mapped[k], still_listed());
                crate::seqs::lemma_sum_keep_if_take_le(mapped, k + 1, still_listed(), |i: ItemReportView| item_size(i));
                crate::seqs::lemma_sum_keep_if_take_le(mapped, k + 1, still_listed(), |i: ItemReportView| item_files(i));
            }
            prune(&mut item, removed);
            proof {
                assert(item@ == mapped[k]);
            }
            if item.count > 0 {
                let ghost prev = items@;
                proof {
                    lemma_sum_of_push(item_views(prev), mapped[k], |i: ItemReportView| item_size(i));
                    lemma_sum_of_push(item_views(prev), mapped[k], |i: ItemReportView| item_files(i));
                    assert(keep_if(mapped.take(k + 1), still_listed()) == item_views(prev).push(mapped[k]));
                }
                size_sum = size_sum + item.size;
                files_sum = files_sum + item.files;
                items.push(item);
                proof {
                    assert(item_views(items@) =~= item_views(prev).push(mapped[k]));
                    lemma_sum_of_push(item_views(prev), mapped[k], |i: ItemReportView| item_size(i));
                    lemma_sum_of_push(item_views(prev), mapped[k], |i: ItemReportView| item_files(i));
                }
            }
            proof {
                k = k + 1;
            }
        }
        proof {
            assert(mapped.take(k) =~= mapped);
        }
        self.items = items;
        self.reclaimable_size = size_sum;
        self.reclaimable_files = files_sum;
        self.total_size = if self.total_size >= freed { self.total_size - freed } else { 0 };
    }
}

} // verus!
