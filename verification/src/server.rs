//! Decisions of the local server: which paths a selection may delete, how
//! the results of a clean or a `.gitignore` update flow back into a job, and
//! which handler a request goes to.
//!
//! The HTTP plumbing, the threads and the disk and git work stay outside;
//! they feed these functions plain values.

use vstd::prelude::*;
use crate::report::{
    RemovalView, after_removals, removal_views, removal_size,
    ProjectReport, ProjectReportView, ProjectIndex, RuleIndex, IndexEntry, PathTableView,
    key_index, lemma_key_index_found, item_views, entry_views, rule_position, rel_position,
};
use crate::seqs::{keep_if, lemma_keep_if_push, sort_asc, lemma_insert_asc_at, count_if, lemma_count_if_take};
use crate::catalog::{Rule, first_with_id, rule_by_id};
use crate::report::{ItemReport, ItemReportView, OccurrenceReportView, occurrence_report_views, item_wf};
use crate::scanner::{GcOutcome, ignore_state, ignore_status};
use crate::text::{
    lower, to_lowercase, chars_of, push_char, split_spec, split_on, starts_with_spec, views,
    str_eq, contains_str, from_literal, lex_lt, str_lt, trim, trim_spec, starts_with, ends_with, ends_with_spec,
    substring, strip_prefix_all, strip_suffix_all, trim_start_matches, trim_end_matches, first_pos, lemma_first_pos,
};

verus! {

/// A scan job: its workspace, progress, and what it found so far.
#[derive(Clone, Debug)]
pub struct Job {
    pub id: String,
    pub workspace: String,
    pub status: String,
    pub total: usize,
    pub done: usize,
    pub current: String,
    pub projects: Vec<ProjectReport>,
    pub index: Vec<(usize, ProjectIndex)>,
    pub error: String,
}

pub type IndexView = Seq<(Seq<char>, PathTableView)>;

pub struct JobView {
    pub workspace: Seq<char>,
    pub status: Seq<char>,
    pub projects: Seq<ProjectReportView>,
    pub index: Seq<(usize, IndexView)>,
}

pub open spec fn project_views(v: Seq<ProjectReport>) -> Seq<ProjectReportView> {
    v.map_values(|p: ProjectReport| p@)
}

pub open spec fn job_index_views(v: Seq<(usize, ProjectIndex)>) -> Seq<(usize, IndexView)> {
    v.map_values(|e: (usize, ProjectIndex)| (e.0, e.1@))
}

impl View for Job {
    type V = JobView;

    open spec fn view(&self) -> JobView {
        JobView {
            workspace: self.workspace@,
            status: self.status@,
            projects: project_views(self.projects@),
            index: job_index_views(self.index@),
        }
    }
}

/// A job in one of these states no longer changes.
pub open spec fn is_final_status(status: Seq<char>) -> bool {
    status == "done"@ || status == "cancelled"@ || status == "error"@
}

impl Job {
    /// The scan is over: done, cancelled or failed.
    pub fn finished(&self) -> (r: bool)
        ensures
            r == is_final_status(self.status@),
    {
        str_eq(self.status.as_str(), "done") || str_eq(self.status.as_str(), "cancelled")
            || str_eq(self.status.as_str(), "error")
    }
}

/// Position of the first entry keyed by `id`, or -1.
pub open spec fn id_index<T>(s: Seq<(usize, T)>, id: usize, from: int) -> int
    decreases s.len() - from,
{
    if from < 0 || from >= s.len() {
        -1
    } else if s[from].0 == id {
        from
    } else {
        id_index(s, id, from + 1)
    }
}

pub proof fn lemma_id_index_found<T>(s: Seq<(usize, T)>, id: usize, from: int)
    requires
        id_index(s, id, from) >= 0,
    ensures
        0 <= id_index(s, id, from) < s.len(),
        s[id_index(s, id, from)].0 == id,
    decreases s.len() - from,
{
    if from >= 0 && from < s.len() && s[from].0 != id {
        lemma_id_index_found(s, id, from + 1);
    }
}

/// Position of the first project report with the given id, or -1.
pub open spec fn project_position(projects: Seq<ProjectReportView>, id: usize, from: int) -> int
    decreases projects.len() - from,
{
    if from < 0 || from >= projects.len() {
        -1
    } else if projects[from].id == id {
        from
    } else {
        project_position(projects, id, from + 1)
    }
}

pub proof fn lemma_project_position_found(projects: Seq<ProjectReportView>, id: usize, from: int)
    requires
        project_position(projects, id, from) >= 0,
    ensures
        0 <= project_position(projects, id, from) < projects.len(),
        projects[project_position(projects, id, from)].id == id,
    decreases projects.len() - from,
{
    if from >= 0 && from < projects.len() && projects[from].id != id {
        lemma_project_position_found(projects, id, from + 1);
    }
}

/// A path as compared by the safety check: lowercased, with `/` turned
/// into `\`.
pub open spec fn normalize_spec(p: Seq<char>) -> Seq<char> {
    lower(p).map_values(|c: char| if c == '/' { '\\' } else { c })
}

/// A deletion target is safe when it lies strictly inside the workspace, is
/// neither the workspace nor the project root, and has no `.git` component.
pub open spec fn safe_target(target: Seq<char>, workspace: Seq<char>, project: Seq<char>) -> bool {
    let t = normalize_spec(target);
    let w = normalize_spec(workspace);
    let p = normalize_spec(project);
    &&& starts_with_spec(t, w.push('\\'))
    &&& t != w
    &&& t != p
    &&& !split_spec(t, seq!['\\']).contains(".git"@)
}

fn normalize(p: &str) -> (r: String)
    ensures
        r@ == normalize_spec(p@),
{
    let lowered = to_lowercase(p);
    let v = chars_of(lowered.as_str());
    let mut r = String::new();
    let mut i: usize = 0;
    while i < v.len()
        invariant
            v@ == lower(p@),
            i <= v@.len(),
            r@ == v@.take(i as int).map_values(|c: char| if c == '/' { '\\' } else { c }),
        decreases v@.len() - i,
    {
        let c = v[i];
        push_char(&mut r, if c == '/' { '\\' } else { c });
        assert(v@.take(i + 1) =~= v@.take(i as int).push(c));
        assert(v@.take(i + 1).map_values(|c: char| if c == '/' { '\\' } else { c }) =~= v@.take(
            i as int).map_values(|c: char| if c == '/' { '\\' } else { c }).push(if c == '/' { '\\' } else { c }));
        i = i + 1;
    }
    assert(v@.take(i as int) =~= v@);
    r
}

/// Refuses anything outside the scanned workspace, the workspace root, a
/// project root, and any path with a `.git` component.
pub fn is_safe_target(target: &str, workspace: &str, project: &str) -> (r: bool)
    ensures
        r == safe_target(target@, workspace@, project@),
{
    let t = normalize(target);
    let w = normalize(workspace);
    let p = normalize(project);
    let mut prefix = w.clone();
    push_char(&mut prefix, '\\');
    if !crate::text::starts_with(t.as_str(), prefix.as_str()) {
        return false;
    }
    if t == w || t == p {
        return false;
    }
    let parts = split_on(t.as_str(), &['\\']);
    proof {
        assert(seq!['\\'] =~= (['\\'])@);
    }
    !contains_str(&parts, ".git")
}

/// A client's pick: a project, a rule, and optionally the relative paths
/// wanted (all of the rule's paths otherwise).
#[derive(Clone, Debug)]
pub struct Selection {
    pub project: Option<usize>,
    pub rule_id: Option<String>,
    pub rels: Option<Vec<String>>,
}

pub struct SelectionView {
    pub project: Option<usize>,
    pub rule_id: Option<Seq<char>>,
    pub rels: Option<Seq<Seq<char>>>,
}

impl View for Selection {
    type V = SelectionView;

    open spec fn view(&self) -> SelectionView {
        SelectionView {
            project: self.project,
            rule_id: match self.rule_id {
                Some(r) => Some(r@),
                None => None,
            },
            rels: match self.rels {
                Some(v) => Some(views(v@)),
                None => None,
            },
        }
    }
}

pub open spec fn selection_views(v: Seq<Selection>) -> Seq<SelectionView> {
    v.map_values(|s: Selection| s@)
}

/// A verified deletion target.
#[derive(Clone, Debug)]
pub struct Target {
    pub project: usize,
    pub rule_id: String,
    pub rel: String,
    pub path: String,
}

pub struct TargetView {
    pub project: usize,
    pub rule_id: Seq<char>,
    pub rel: Seq<char>,
    pub path: Seq<char>,
}

impl View for Target {
    type V = TargetView;

    open spec fn view(&self) -> TargetView {
        TargetView { project: self.project, rule_id: self.rule_id@, rel: self.rel@, path: self.path@ }
    }
}

pub open spec fn target_views(v: Seq<Target>) -> Seq<TargetView> {
    v.map_values(|t: Target| t@)
}

pub open spec fn known_rel(known: PathTableView) -> spec_fn(Seq<char>) -> bool {
    |rel: Seq<char>| key_index(known, rel, 0) >= 0
}

/// The relative paths a selection asks for: those listed that the index
/// knows, in the order given, or every path of the rule.
pub open spec fn wanted_rels(rels: Option<Seq<Seq<char>>>, known: PathTableView) -> Seq<Seq<char>> {
    match rels {
        Some(list) => keep_if(list, known_rel(known)),
        None => known.map_values(|e: (Seq<char>, Seq<char>)| e.0),
    }
}

/// The targets for `rels`: each path the index holds for the rel, kept when
/// it passes the safety check.
pub open spec fn targets_from(rels: Seq<Seq<char>>, known: PathTableView, project: usize,
    rule_id: Seq<char>, workspace: Seq<char>, project_path: Seq<char>) -> Seq<TargetView>
    decreases rels.len(),
{
    if rels.len() == 0 {
        Seq::empty()
    } else {
        let prev = targets_from(rels.drop_last(), known, project, rule_id, workspace, project_path);
        let rel = rels.last();
        let k = key_index(known, rel, 0);
        if k >= 0 && safe_target(known[k].1, workspace, project_path) {
            prev.push(TargetView { project, rule_id, rel, path: known[k].1 })
        } else {
            prev
        }
    }
}

/// The index table of a rule of a project, when both exist.
pub open spec fn known_paths(job: JobView, project: usize, rule_id: Seq<char>) -> Option<PathTableView> {
    let pi = id_index(job.index, project, 0);
    if pi < 0 {
        None
    } else {
        let rules = job.index[pi].1;
        let ri = key_index(rules, rule_id, 0);
        if ri < 0 {
            None
        } else {
            Some(rules[ri].1)
        }
    }
}

/// The targets of one selection entry: nothing unless it names a project
/// and a rule that the index knows and a project of the job.
pub open spec fn selection_targets(job: JobView, sel: SelectionView) -> Seq<TargetView> {
    match (sel.project, sel.rule_id) {
        (Some(project), Some(rule_id)) => match known_paths(job, project, rule_id) {
            Some(known) => {
                let pp = project_position(job.projects, project, 0);
                if pp < 0 {
                    Seq::empty()
                } else {
                    targets_from(wanted_rels(sel.rels, known), known, project, rule_id,
                        job.workspace, job.projects[pp].path)
                }
            },
            None => Seq::empty(),
        },
        _ => Seq::empty(),
    }
}

/// The targets of all selection entries, in order.
pub open spec fn resolve_spec(job: JobView, sels: Seq<SelectionView>) -> Seq<TargetView>
    decreases sels.len(),
{
    if sels.len() == 0 {
        Seq::empty()
    } else {
        resolve_spec(job, sels.drop_last()) + selection_targets(job, sels.last())
    }
}

/// The one target a relative path may give: the path the index holds for
/// it, when there is one and it passes the safety check.
pub open spec fn target_step(rel: Seq<char>, known: PathTableView, project: usize, rule_id: Seq<char>,
    workspace: Seq<char>, project_path: Seq<char>) -> Seq<TargetView> {
    let k = key_index(known, rel, 0);
    if k >= 0 && safe_target(known[k].1, workspace, project_path) {
        seq![TargetView { project, rule_id, rel, path: known[k].1 }]
    } else {
        Seq::empty()
    }
}

proof fn lemma_targets_from_push(rels: Seq<Seq<char>>, rel: Seq<char>, known: PathTableView, project: usize,
    rule_id: Seq<char>, workspace: Seq<char>, project_path: Seq<char>)
    ensures
        targets_from(rels.push(rel), known, project, rule_id, workspace, project_path)
            == targets_from(rels, known, project, rule_id, workspace, project_path)
                + target_step(rel, known, project, rule_id, workspace, project_path),
{
    assert(rels.push(rel).drop_last() =~= rels);
    let prev = targets_from(rels, known, project, rule_id, workspace, project_path);
    let k = key_index(known, rel, 0);
    if k >= 0 && safe_target(known[k].1, workspace, project_path) {
        assert(prev.push(TargetView { project, rule_id, rel, path: known[k].1 }) =~= prev + seq![
            TargetView { project, rule_id, rel, path: known[k].1 }]);
    } else {
        assert(prev =~= prev + Seq::<TargetView>::empty());
    }
}

fn index_position(index: &Vec<(usize, ProjectIndex)>, id: usize) -> (r: usize)
    ensures
        r <= index@.len(),
        id_index(job_index_views(index@), id, 0) == if r < index@.len() { r as int } else { -1 },
{
    let ghost v = job_index_views(index@);
    let mut i: usize = 0;
    while i < index.len()
        invariant
            v == job_index_views(index@),
            i <= index@.len(),
            id_index(v, id, 0) == id_index(v, id, i as int),
        decreases index@.len() - i,
    {
        if index[i].0 == id {
            return i;
        }
        i = i + 1;
    }
    i
}

fn project_slot(projects: &Vec<ProjectReport>, id: usize) -> (r: usize)
    ensures
        r <= projects@.len(),
        project_position(project_views(projects@), id, 0) == if r < projects@.len() { r as int } else { -1 },
{
    let ghost v = project_views(projects@);
    let mut i: usize = 0;
    while i < projects.len()
        invariant
            v == project_views(projects@),
            i <= projects@.len(),
            project_position(v, id, 0) == project_position(v, id, i as int),
        decreases projects@.len() - i,
    {
        if projects[i].id == id {
            return i;
        }
        i = i + 1;
    }
    i
}

fn push_target(known: &Vec<IndexEntry>, rel: &str, project: usize, rule_id: &str, workspace: &str,
    project_path: &str, targets: &mut Vec<Target>)
    ensures
        target_views(final(targets)@) == target_views(old(targets)@) + target_step(rel@,
            entry_views(known@), project, rule_id@, workspace@, project_path@),
{
    let k = rel_position(known, rel);
    let ghost kv = entry_views(known@);
    if k < known.len() && is_safe_target(known[k].path.as_str(), workspace, project_path) {
        let ghost prev = target_views(targets@);
        targets.push(Target {
            project,
            rule_id: from_literal(rule_id),
            rel: from_literal(rel),
            path: known[k].path.clone(),
        });
        proof {
            assert(kv[k as int].1 == known@[k as int].path@);
            assert(target_views(targets@) =~= prev + target_step(rel@, kv, project, rule_id@, workspace@,
                project_path@));
        }
    } else {
        proof {
            if k < known.len() {
                assert(kv[k as int].1 == known@[k as int].path@);
            }
            assert(target_views(targets@) =~= target_views(targets@) + Seq::<TargetView>::empty());
        }
    }
}

fn add_selection_targets(job: &Job, entry: &Selection, targets: &mut Vec<Target>)
    ensures
        target_views(final(targets)@) == target_views(old(targets)@) + selection_targets(job@, entry@),
{
    let ghost jv = job@;
    let ghost start = target_views(targets@);
    proof {
        assert(start =~= start + Seq::<TargetView>::empty());
    }
    let project = match entry.project {
        Some(p) => p,
        None => return,
    };
    let rule_id = match &entry.rule_id {
        Some(r) => r,
        None => return,
    };
    let pi = index_position(&job.index, project);
    if pi >= job.index.len() {
        return;
    }
    let rules = &job.index[pi].1.rules;
    assert(jv.index[pi as int].1 == rules@.map_values(|x: RuleIndex| x@));
    let ri = rule_position(rules, rule_id.as_str());
    if ri >= rules.len() {
        return;
    }
    let known = &rules[ri].entries;
    let ghost kv = entry_views(known@);
    assert(known_paths(jv, project, rule_id@) == Some(kv));
    let pp = project_slot(&job.projects, project);
    if pp >= job.projects.len() {
        return;
    }
    let project_path = job.projects[pp].path.as_str();
    assert(jv.projects[pp as int].path == project_path@);
    match &entry.rels {
        Some(list) => {
            let ghost lv = views(list@);
            let mut j: usize = 0;
            proof {
                assert(keep_if(lv.take(0), known_rel(kv)) =~= Seq::<Seq<char>>::empty());
                assert(targets_from(Seq::<Seq<char>>::empty(), kv, project, rule_id@, jv.workspace,
                    project_path@) == Seq::<TargetView>::empty());
            }
            while j < list.len()
                invariant
                    lv == views(list@),
                    kv == entry_views(known@),
                    jv == job@,
                    j <= list@.len(),
                    target_views(targets@) == start + targets_from(keep_if(lv.take(j as int), known_rel(kv)),
                        kv, project, rule_id@, jv.workspace, project_path@),
                decreases list@.len() - j,
            {
                let rel = list[j].as_str();
                let k = rel_position(known, rel);
                proof {
                    assert(lv.take(j + 1) =~= lv.take(j as int).push(lv[j as int]));
                    lemma_keep_if_push(lv.take(j as int), lv[j as int], known_rel(kv));
                }
                if k < known.len() {
                    let ghost before = target_views(targets@);
                    push_target(known, rel, project, rule_id.as_str(), job.workspace.as_str(), project_path, targets);
                    proof {
                        lemma_targets_from_push(keep_if(lv.take(j as int), known_rel(kv)), lv[j as int], kv,
                            project, rule_id@, jv.workspace, project_path@);
                        assert(target_views(targets@) =~= start + targets_from(keep_if(lv.take(j + 1), known_rel(kv)),
                            kv, project, rule_id@, jv.workspace, project_path@));
                    }
                }
                j = j + 1;
            }
            proof {
                assert(lv.take(j as int) =~= lv);
            }
        },
        None => {
            let ghost keys = kv.map_values(|e: (Seq<char>, Seq<char>)| e.0);
            let mut j: usize = 0;
            proof {
                assert(keys.take(0) =~= Seq::<Seq<char>>::empty());
            }
            while j < known.len()
                invariant
                    kv == entry_views(known@),
                    keys == kv.map_values(|e: (Seq<char>, Seq<char>)| e.0),
                    jv == job@,
                    j <= known@.len(),
                    target_views(targets@) == start + targets_from(keys.take(j as int), kv, project, rule_id@,
                        jv.workspace, project_path@),
                decreases known@.len() - j,
            {
                let rel = known[j].rel.as_str();
                push_target(known, rel, project, rule_id.as_str(), job.workspace.as_str(), project_path, targets);
                proof {
                    assert(keys[j as int] == rel@);
                    assert(keys.take(j + 1) =~= keys.take(j as int).push(keys[j as int]));
                    lemma_targets_from_push(keys.take(j as int), keys[j as int], kv, project, rule_id@,
                        jv.workspace, project_path@);
                    assert(target_views(targets@) =~= start + targets_from(keys.take(j + 1), kv, project,
                        rule_id@, jv.workspace, project_path@));
                }
                j = j + 1;
            }
            proof {
                assert(keys.take(j as int) =~= keys);
            }
        },
    }
}

/// Turns the client selection into verified absolute paths.
///
/// Only paths produced by the current scan are accepted, so a forged
/// selection cannot reach an arbitrary file on disk.
pub fn resolve_selection(job: &Job, selections: &Vec<Selection>) -> (r: Vec<Target>)
    ensures
        target_views(r@) == resolve_spec(job@, selection_views(selections@)),
{
    let ghost sv = selection_views(selections@);
    let mut targets: Vec<Target> = Vec::new();
    let mut s: usize = 0;
    proof {
        assert(sv.take(0) =~= Seq::<SelectionView>::empty());
        assert(target_views(targets@) =~= Seq::<TargetView>::empty());
    }
    while s < selections.len()
        invariant
            sv == selection_views(selections@),
            s <= selections@.len(),
            target_views(targets@) == resolve_spec(job@, sv.take(s as int)),
        decreases selections@.len() - s,
    {
        add_selection_targets(job, &selections[s], &mut targets);
        proof {
            assert(sv.take(s + 1).drop_last() =~= sv.take(s as int));
            assert(sv.take(s + 1).last() == selections@[s as int]@);
        }
        s = s + 1;
    }
    proof {
        assert(sv.take(s as int) =~= sv);
    }
    targets
}

/// A target the job allows: the path the index holds for its project, rule
/// and relative path, inside the workspace, neither the workspace nor the
/// project root, and outside any `.git`.
pub open spec fn target_allowed(job: JobView, t: TargetView) -> bool {
    &&& known_paths(job, t.project, t.rule_id) matches Some(known)
    &&& key_index(known, t.rel, 0) >= 0
    &&& known[key_index(known, t.rel, 0)].1 == t.path
    &&& project_position(job.projects, t.project, 0) >= 0
    &&& safe_target(t.path, job.workspace, job.projects[project_position(job.projects, t.project, 0)].path)
}

proof fn lemma_targets_from_allowed(job: JobView, rels: Seq<Seq<char>>, known: PathTableView, project: usize,
    rule_id: Seq<char>)
    requires
        known_paths(job, project, rule_id) == Some(known),
        project_position(job.projects, project, 0) >= 0,
    ensures
        forall|i: int| 0 <= i < targets_from(rels, known, project, rule_id, job.workspace,
            job.projects[project_position(job.projects, project, 0)].path).len()
            ==> target_allowed(job, #[trigger] targets_from(rels, known, project, rule_id, job.workspace,
                job.projects[project_position(job.projects, project, 0)].path)[i]),
    decreases rels.len(),
{
    lemma_project_position_found(job.projects, project, 0);
    if rels.len() > 0 {
        lemma_targets_from_allowed(job, rels.drop_last(), known, project, rule_id);
        let pp = job.projects[project_position(job.projects, project, 0)].path;
        let prev = targets_from(rels.drop_last(), known, project, rule_id, job.workspace, pp);
        let cur = targets_from(rels, known, project, rule_id, job.workspace, pp);
        assert forall|i: int| 0 <= i < cur.len() implies target_allowed(job, #[trigger] cur[i]) by {
            if i < prev.len() {
                assert(cur[i] == prev[i]);
            }
        }
    }
}

/// Law: whatever the client sends, every resolved target is a path of the
/// scan index for its project, rule and relative path, and passes the
/// safety check against the job's workspace and that project's root.
pub proof fn lemma_resolved_targets_allowed(job: JobView, sels: Seq<SelectionView>)
    ensures
        forall|i: int| 0 <= i < resolve_spec(job, sels).len()
            ==> target_allowed(job, #[trigger] resolve_spec(job, sels)[i]),
    decreases sels.len(),
{
    if sels.len() > 0 {
        lemma_resolved_targets_allowed(job, sels.drop_last());
        let sel = sels.last();
        let prev = resolve_spec(job, sels.drop_last());
        let last = selection_targets(job, sel);
        match (sel.project, sel.rule_id) {
            (Some(project), Some(rule_id)) => match known_paths(job, project, rule_id) {
                Some(known) => {
                    if project_position(job.projects, project, 0) >= 0 {
                        lemma_targets_from_allowed(job, wanted_rels(sel.rels, known), known, project, rule_id);
                    }
                },
                None => {},
            },
            _ => {},
        }
        assert forall|i: int| 0 <= i < resolve_spec(job, sels).len()
            implies target_allowed(job, #[trigger] resolve_spec(job, sels)[i]) by {
            if i >= prev.len() {
                assert(resolve_spec(job, sels)[i] == last[i - prev.len()]);
            } else {
                assert(resolve_spec(job, sels)[i] == prev[i]);
            }
        }
    }
}

/// The bookkeeping of a clean request once the targets were processed.
#[derive(Clone, Debug)]
pub struct CleanSummary {
    /// Targets whose deletion succeeded: project, rule id, relative path and
    /// bytes freed.
    pub removed: Vec<(usize, String, String, u64)>,
    /// Targets whose deletion failed: project, relative path and error.
    pub failures: Vec<(usize, String, String)>,
    pub freed: u64,
    pub kept_size: u64,
    pub kept_files: u64,
    /// The successful removals whose path is gone from disk. One that kept
    /// files is still there and must stay in the report, or it could never
    /// be reviewed or emptied again.
    pub fully_removed: Vec<(usize, String, String, u64)>,
}

pub type RemovedView = (usize, Seq<char>, Seq<char>, u64);

pub open spec fn removed_views(v: Seq<(usize, String, String, u64)>) -> Seq<RemovedView> {
    v.map_values(|e: (usize, String, String, u64)| (e.0, e.1@, e.2@, e.3))
}

pub open spec fn failure_views(v: Seq<(usize, String, String)>) -> Seq<(usize, Seq<char>, Seq<char>)> {
    v.map_values(|e: (usize, String, String)| (e.0, e.1@, e.2@))
}

pub struct OutcomeView {
    pub ok: bool,
    pub freed: u64,
    pub kept_size: u64,
    pub kept_files: u64,
    pub error: Seq<char>,
}

pub open spec fn outcome_views(v: Seq<crate::scanner::DeleteOutcome>) -> Seq<OutcomeView> {
    v.map_values(|o: crate::scanner::DeleteOutcome| OutcomeView {
        ok: o.ok,
        freed: o.freed,
        kept_size: o.kept_size,
        kept_files: o.kept_files,
        error: o.error@,
    })
}

pub open spec fn same_target(a: TargetView, b: TargetView) -> bool {
    a.project == b.project && a.rule_id == b.rule_id && a.rel == b.rel
}

/// The first target, from `from` on, with the same project, rule and path
/// as target `i`.
pub open spec fn first_same(tv: Seq<TargetView>, i: int, from: int) -> int
    decreases tv.len() - from,
{
    if from < 0 || from >= tv.len() {
        -1
    } else if same_target(tv[from], tv[i]) {
        from
    } else {
        first_same(tv, i, from + 1)
    }
}

proof fn lemma_first_same_bounds(tv: Seq<TargetView>, i: int, from: int)
    requires
        0 <= from <= i < tv.len(),
    ensures
        from <= first_same(tv, i, from) <= i,
    decreases i - from,
{
    if from < i && !same_target(tv[from], tv[i]) {
        lemma_first_same_bounds(tv, i, from + 1);
    }
}

/// The successful removals among the first `n` targets.
pub open spec fn removed_list(tv: Seq<TargetView>, ov: Seq<OutcomeView>, n: int) -> Seq<RemovedView>
    decreases n,
{
    if n <= 0 {
        Seq::empty()
    } else {
        let prev = removed_list(tv, ov, n - 1);
        if ov[n - 1].ok {
            prev.push((tv[n - 1].project, tv[n - 1].rule_id, tv[n - 1].rel, ov[n - 1].freed))
        } else {
            prev
        }
    }
}

/// The failures among the first `n` targets.
pub open spec fn failure_list(tv: Seq<TargetView>, ov: Seq<OutcomeView>, n: int) -> Seq<(usize, Seq<char>, Seq<char>)>
    decreases n,
{
    if n <= 0 {
        Seq::empty()
    } else {
        let prev = failure_list(tv, ov, n - 1);
        if !ov[n - 1].ok {
            prev.push((tv[n - 1].project, tv[n - 1].rel, ov[n - 1].error))
        } else {
            prev
        }
    }
}

/// The successful removals among the first `n` targets whose path, as the
/// first target with the same project, rule and path shows it, is gone.
pub open spec fn gone_list(tv: Seq<TargetView>, ov: Seq<OutcomeView>, still: Seq<bool>, n: int) -> Seq<RemovedView>
    decreases n,
{
    if n <= 0 {
        Seq::empty()
    } else {
        let prev = gone_list(tv, ov, still, n - 1);
        if ov[n - 1].ok && !still[first_same(tv, n - 1, 0)] {
            prev.push((tv[n - 1].project, tv[n - 1].rule_id, tv[n - 1].rel, ov[n - 1].freed))
        } else {
            prev
        }
    }
}

pub open spec fn sum_freed(ov: Seq<OutcomeView>) -> int {
    crate::seqs::sum_of(ov, |o: OutcomeView| o.freed as int)
}

pub open spec fn sum_kept_size(ov: Seq<OutcomeView>) -> int {
    crate::seqs::sum_of(ov, |o: OutcomeView| o.kept_size as int)
}

pub open spec fn sum_kept_files(ov: Seq<OutcomeView>) -> int {
    crate::seqs::sum_of(ov, |o: OutcomeView| o.kept_files as int)
}

fn first_same_target(targets: &Vec<Target>, i: usize) -> (r: usize)
    requires
        i < targets@.len(),
    ensures
        r as int == first_same(target_views(targets@), i as int, 0),
        r <= i,
{
    let ghost tv = target_views(targets@);
    proof {
        lemma_first_same_bounds(tv, i as int, 0);
    }
    let mut j: usize = 0;
    while j < i
        invariant
            tv == target_views(targets@),
            i < targets@.len(),
            j <= i,
            first_same(tv, i as int, 0) == first_same(tv, i as int, j as int),
        decreases i - j,
    {
        if targets[j].project == targets[i].project && targets[j].rule_id == targets[i].rule_id
            && targets[j].rel == targets[i].rel {
            return j;
        }
        j = j + 1;
    }
    j
}

/// Gathers what a clean did: the outcome of each target's deletion, and
/// whether its path is still on disk afterwards.
pub fn summarize_clean(targets: &Vec<Target>, outcomes: &Vec<crate::scanner::DeleteOutcome>,
    still_there: &Vec<bool>) -> (r: CleanSummary)
    requires
        outcomes@.len() == targets@.len(),
        still_there@.len() == targets@.len(),
        sum_freed(outcome_views(outcomes@)) <= u64::MAX,
        sum_kept_size(outcome_views(outcomes@)) <= u64::MAX,
        sum_kept_files(outcome_views(outcomes@)) <= u64::MAX,
    ensures
        ({
            let tv = target_views(targets@);
            let ov = outcome_views(outcomes@);
            &&& removed_views(r.removed@) == removed_list(tv, ov, tv.len() as int)
            &&& failure_views(r.failures@) == failure_list(tv, ov, tv.len() as int)
            &&& r.freed == sum_freed(ov)
            &&& r.kept_size == sum_kept_size(ov)
            &&& r.kept_files == sum_kept_files(ov)
            &&& removed_views(r.fully_removed@) == gone_list(tv, ov, still_there@, tv.len() as int)
        }),
{
    let ghost tv = target_views(targets@);
    let ghost ov = outcome_views(outcomes@);
    let mut removed: Vec<(usize, String, String, u64)> = Vec::new();
    let mut failures: Vec<(usize, String, String)> = Vec::new();
    let mut fully_removed: Vec<(usize, String, String, u64)> = Vec::new();
    let mut freed: u64 = 0;
    let mut kept_size: u64 = 0;
    let mut kept_files: u64 = 0;
    let mut i: usize = 0;
    proof {
        crate::seqs::lemma_sum_of_nonneg(ov, |o: OutcomeView| o.freed as int);
        crate::seqs::lemma_sum_of_nonneg(ov, |o: OutcomeView| o.kept_size as int);
        crate::seqs::lemma_sum_of_nonneg(ov, |o: OutcomeView| o.kept_files as int);
    }
    while i < targets.len()
        invariant
            tv == target_views(targets@),
            ov == outcome_views(outcomes@),
            outcomes@.len() == targets@.len(),
            still_there@.len() == targets@.len(),
            sum_freed(ov) <= u64::MAX,
            sum_kept_size(ov) <= u64::MAX,
            sum_kept_files(ov) <= u64::MAX,
            i <= targets@.len(),
            removed_views(removed@) == removed_list(tv, ov, i as int),
            failure_views(failures@) == failure_list(tv, ov, i as int),
            removed_views(fully_removed@) == gone_list(tv, ov, still_there@, i as int),
            freed == crate::seqs::sum_of(ov.take(i as int), |o: OutcomeView| o.freed as int),
            kept_size == crate::seqs::sum_of(ov.take(i as int), |o: OutcomeView| o.kept_size as int),
            kept_files == crate::seqs::sum_of(ov.take(i as int), |o: OutcomeView| o.kept_files as int),
        decreases targets@.len() - i,
    {
        let outcome = &outcomes[i];
        let target = &targets[i];
        proof {
            crate::seqs::lemma_sum_of_take(ov, i as int, |o: OutcomeView| o.freed as int);
            crate::seqs::lemma_sum_of_take(ov, i as int, |o: OutcomeView| o.kept_size as int);
            crate::seqs::lemma_sum_of_take(ov, i as int, |o: OutcomeView| o.kept_files as int);
            crate::seqs::lemma_sum_take_le(ov, i + 1, |o: OutcomeView| o.freed as int);
            crate::seqs::lemma_sum_take_le(ov, i + 1, |o: OutcomeView| o.kept_size as int);
            crate::seqs::lemma_sum_take_le(ov, i + 1, |o: OutcomeView| o.kept_files as int);
        }
        freed = freed + outcome.freed;
        kept_size = kept_size + outcome.kept_size;
        kept_files = kept_files + outcome.kept_files;
        if outcome.ok {
            let ghost prev = removed@;
            removed.push((target.project, target.rule_id.clone(), target.rel.clone(), outcome.freed));
            proof {
                assert(removed_views(removed@) =~= removed_views(prev).push(
                    (tv[i as int].project, tv[i as int].rule_id, tv[i as int].rel, ov[i as int].freed)));
            }
            let f = first_same_target(targets, i);
            if !still_there[f] {
                let ghost prev_f = fully_removed@;
                fully_removed.push((target.project, target.rule_id.clone(), target.rel.clone(), outcome.freed));
                proof {
                    assert(removed_views(fully_removed@) =~= removed_views(prev_f).push(
                        (tv[i as int].project, tv[i as int].rule_id, tv[i as int].rel, ov[i as int].freed)));
                }
            }
        } else {
            let ghost prev = failures@;
            failures.push((target.project, target.rel.clone(), outcome.error.clone()));
            proof {
                assert(failure_views(failures@) =~= failure_views(prev).push(
                    (tv[i as int].project, tv[i as int].rel, ov[i as int].error)));
            }
        }
        i = i + 1;
    }
    proof {
        assert(ov.take(i as int) =~= ov);
    }
    CleanSummary { removed, failures, freed, kept_size, kept_files, fully_removed }
}

impl JobView {
    /// Every project report is consistent.
    pub open spec fn wf(self) -> bool {
        forall|i: int| 0 <= i < self.projects.len() ==> (#[trigger] self.projects[i]).wf()
    }
}

impl Job {
    /// A job that starts by discovering the projects of `workspace`.
    pub fn new(id: String, workspace: String) -> (r: Job)
        ensures
            r@.wf(),
            r.id == id,
            r.workspace == workspace,
            r.status@ == "discovering"@,
            r.total == 0,
            r.done == 0,
            r.current@.len() == 0,
            r.projects@.len() == 0,
            r.index@.len() == 0,
            r.error@.len() == 0,
    {
        let r = Job {
            id,
            workspace,
            status: from_literal("discovering"),
            total: 0,
            done: 0,
            current: String::new(),
            projects: Vec::new(),
            index: Vec::new(),
            error: String::new(),
        };
        assert(r@.projects =~= Seq::<ProjectReportView>::empty());
        r
    }

    /// Discovery found `total` projects: the scan of each begins.
    pub fn begin_scanning(&mut self, total: usize)
        requires
            old(self)@.wf(),
        ensures
            final(self)@ == (JobView { status: "scanning"@, ..old(self)@ }),
            final(self)@.wf(),
            final(self).total == total,
            final(self).done == old(self).done,
            final(self).id == old(self).id,
            final(self).current == old(self).current,
            final(self).error == old(self).error,
    {
        self.total = total;
        self.status = from_literal("scanning");
    }

    /// The project being scanned is named `name` (empty once all are).
    pub fn set_current(&mut self, name: String)
        requires
            old(self)@.wf(),
        ensures
            final(self)@ == old(self)@,
            final(self)@.wf(),
            final(self).current == name,
            final(self).total == old(self).total,
            final(self).done == old(self).done,
            final(self).id == old(self).id,
            final(self).error == old(self).error,
    {
        self.current = name;
    }

    /// The project at `position` of the discovery is scanned: its report
    /// and its index join the job, and `position + 1` projects are done.
    pub fn add_project(&mut self, report: ProjectReport, index: ProjectIndex, position: usize)
        requires
            old(self)@.wf(),
            report@.wf(),
            position < usize::MAX,
        ensures
            final(self)@ == (JobView {
                projects: old(self)@.projects.push(report@),
                index: old(self)@.index.push((position, index@)),
                ..old(self)@
            }),
            final(self)@.wf(),
            final(self).done == position + 1,
            final(self).total == old(self).total,
            final(self).id == old(self).id,
            final(self).current == old(self).current,
            final(self).error == old(self).error,
    {
        let ghost rv = report@;
        let ghost iv = index@;
        self.projects.push(report);
        self.index.push((position, index));
        self.done = position + 1;
        assert(project_views(self.projects@) =~= old(self)@.projects.push(rv));
        assert(job_index_views(self.index@) =~= old(self)@.index.push((position, iv)));
    }

    /// The scan ended with `status`: `done`, or `cancelled`.
    pub fn finish(&mut self, status: &str)
        requires
            old(self)@.wf(),
        ensures
            final(self)@ == (JobView { status: status@, ..old(self)@ }),
            final(self)@.wf(),
            final(self).total == old(self).total,
            final(self).done == old(self).done,
            final(self).id == old(self).id,
            final(self).current == old(self).current,
            final(self).error == old(self).error,
    {
        self.status = from_literal(status);
    }
}

/// The removals grouped by project, projects in order of first appearance.
pub open spec fn group_removals(s: Seq<RemovedView>) -> Seq<(usize, Seq<RemovalView>)>
    decreases s.len(),
{
    if s.len() == 0 {
        Seq::empty()
    } else {
        let groups = group_removals(s.drop_last());
        let e = s.last();
        let gi = id_index(groups, e.0, 0);
        if gi >= 0 {
            groups.update(gi, (e.0, groups[gi].1.push((e.1, e.2, e.3))))
        } else {
            groups.push((e.0, seq![(e.1, e.2, e.3)]))
        }
    }
}

/// The table without the entry for `rel`.
pub open spec fn table_remove(t: PathTableView, rel: Seq<char>) -> PathTableView {
    let k = key_index(t, rel, 0);
    if k >= 0 {
        t.remove(k)
    } else {
        t
    }
}

/// A project's index with each removed path taken out of its rule's table.
pub open spec fn rules_remove(rules: IndexView, entries: Seq<RemovalView>) -> IndexView
    decreases entries.len(),
{
    if entries.len() == 0 {
        rules
    } else {
        let prev = rules_remove(rules, entries.drop_last());
        let e = entries.last();
        let ri = key_index(prev, e.0, 0);
        if ri >= 0 {
            prev.update(ri, (e.0, table_remove(prev[ri].1, e.1)))
        } else {
            prev
        }
    }
}

/// One project's removals applied: its index loses the paths, its report
/// the occurrences.
pub open spec fn apply_group(job: JobView, g: (usize, Seq<RemovalView>)) -> JobView {
    let pi = id_index(job.index, g.0, 0);
    let pp = project_position(job.projects, g.0, 0);
    JobView {
        index: if pi >= 0 { job.index.update(pi, (g.0, rules_remove(job.index[pi].1, g.1))) } else { job.index },
        projects: if pp >= 0 { job.projects.update(pp, after_removals(job.projects[pp], g.1)) } else { job.projects },
        ..job
    }
}

pub open spec fn apply_groups(job: JobView, groups: Seq<(usize, Seq<RemovalView>)>) -> JobView
    decreases groups.len(),
{
    if groups.len() == 0 {
        job
    } else {
        apply_group(apply_groups(job, groups.drop_last()), groups.last())
    }
}

pub open spec fn removed_size_sum(s: Seq<RemovedView>) -> int {
    crate::seqs::sum_of(s, |e: RemovedView| e.3 as int)
}

pub open spec fn group_size(g: Seq<RemovalView>) -> int {
    crate::seqs::sum_of(g, |r: RemovalView| removal_size(r))
}

proof fn lemma_group_sums(s: Seq<RemovedView>)
    ensures
        forall|i: int| 0 <= i < group_removals(s).len() ==> 0 <= #[trigger] group_size(group_removals(s)[i].1) <= removed_size_sum(s),
    decreases s.len(),
{
    if s.len() > 0 {
        lemma_group_sums(s.drop_last());
        let groups = group_removals(s.drop_last());
        let e = s.last();
        let entry: RemovalView = (e.1, e.2, e.3);
        crate::seqs::lemma_sum_of_push(s.drop_last(), e, |e: RemovedView| e.3 as int);
        assert(s.drop_last().push(e) =~= s);
        crate::seqs::lemma_sum_of_nonneg(s.drop_last(), |e: RemovedView| e.3 as int);
        let gi = id_index(groups, e.0, 0);
        if gi >= 0 {
            lemma_id_index_found(groups, e.0, 0);
            crate::seqs::lemma_sum_of_push(groups[gi].1, entry, |r: RemovalView| removal_size(r));
            assert(group_size(groups[gi].1) <= removed_size_sum(s.drop_last()));
            assert(0 <= group_size(groups[gi].1));
            assert(removal_size(entry) == e.3);
            assert(group_size(groups[gi].1.push(entry)) <= removed_size_sum(s));
        } else {
            crate::seqs::lemma_sum_of_push(Seq::<RemovalView>::empty(), entry, |r: RemovalView| removal_size(r));
            assert(seq![entry] =~= Seq::<RemovalView>::empty().push(entry));
        }
        let cur = group_removals(s);
        assert forall|i: int| 0 <= i < cur.len() implies 0 <= #[trigger] group_size(cur[i].1) <= removed_size_sum(s) by {
            if gi < 0 && i == groups.len() {
                assert(cur[i].1 == seq![entry]);
            } else if i != gi {
                assert(cur[i] == groups[i]);
                assert(group_size(groups[i].1) <= removed_size_sum(s.drop_last()));
            }
        }
    }
}

fn group_position(groups: &Vec<(usize, Vec<(String, String, u64)>)>, id: usize) -> (r: usize)
    ensures
        r <= groups@.len(),
        id_index(groups@.map_values(|g: (usize, Vec<(String, String, u64)>)| (g.0, removal_views(g.1@))), id, 0)
            == if r < groups@.len() { r as int } else { -1 },
{
    let ghost v = groups@.map_values(|g: (usize, Vec<(String, String, u64)>)| (g.0, removal_views(g.1@)));
    let mut i: usize = 0;
    while i < groups.len()
        invariant
            v == groups@.map_values(|g: (usize, Vec<(String, String, u64)>)| (g.0, removal_views(g.1@))),
            i <= groups@.len(),
            id_index(v, id, 0) == id_index(v, id, i as int),
        decreases groups@.len() - i,
    {
        if groups[i].0 == id {
            return i;
        }
        i = i + 1;
    }
    i
}

fn group_by_project(removed: &Vec<(usize, String, String, u64)>) -> (r: Vec<(usize, Vec<(String, String, u64)>)>)
    ensures
        r@.map_values(|g: (usize, Vec<(String, String, u64)>)| (g.0, removal_views(g.1@)))
            == group_removals(removed_views(removed@)),
{
    let ghost rv = removed_views(removed@);
    let mut groups: Vec<(usize, Vec<(String, String, u64)>)> = Vec::new();
    let mut i: usize = 0;
    proof {
        assert(rv.take(0) =~= Seq::<RemovedView>::empty());
        assert(groups@.map_values(|g: (usize, Vec<(String, String, u64)>)| (g.0, removal_views(g.1@)))
            =~= Seq::<(usize, Seq<RemovalView>)>::empty());
    }
    while i < removed.len()
        invariant
            rv == removed_views(removed@),
            i <= removed@.len(),
            groups@.map_values(|g: (usize, Vec<(String, String, u64)>)| (g.0, removal_views(g.1@)))
                == group_removals(rv.take(i as int)),
        decreases removed@.len() - i,
    {
        let e = &removed[i];
        let ghost gv = groups@.map_values(|g: (usize, Vec<(String, String, u64)>)| (g.0, removal_views(g.1@)));
        let ghost entry: RemovalView = (e.1@, e.2@, e.3);
        proof {
            assert(rv.take(i + 1).drop_last() =~= rv.take(i as int));
            assert(rv.take(i + 1).last() == rv[i as int]);
        }
        let gi = group_position(&groups, e.0);
        if gi < groups.len() {
            proof {
                lemma_id_index_found(gv, e.0, 0);
            }
            let group = &mut groups[gi];
            group.1.push((e.1.clone(), e.2.clone(), e.3));
            proof {
                assert(removal_views(groups@[gi as int].1@) =~= gv[gi as int].1.push(entry));
                assert(groups@.map_values(|g: (usize, Vec<(String, String, u64)>)| (g.0, removal_views(g.1@)))
                    =~= gv.update(gi as int, (e.0, gv[gi as int].1.push(entry))));
            }
        } else {
            let mut list: Vec<(String, String, u64)> = Vec::new();
            list.push((e.1.clone(), e.2.clone(), e.3));
            groups.push((e.0, list));
            proof {
                assert(removal_views(list@) =~= seq![entry]);
                assert(groups@.map_values(|g: (usize, Vec<(String, String, u64)>)| (g.0, removal_views(g.1@)))
                    =~= gv.push((e.0, seq![entry])));
            }
        }
        i = i + 1;
    }
    proof {
        assert(rv.take(i as int) =~= rv);
    }
    groups
}

fn remove_from_rules(rules: &mut Vec<RuleIndex>, entries: &Vec<(String, String, u64)>)
    ensures
        final(rules)@.map_values(|x: RuleIndex| x@) == rules_remove(old(rules)@.map_values(|x: RuleIndex| x@),
            removal_views(entries@)),
{
    let ghost start = rules@.map_values(|x: RuleIndex| x@);
    let ghost ev = removal_views(entries@);
    let mut i: usize = 0;
    proof {
        assert(ev.take(0) =~= Seq::<RemovalView>::empty());
    }
    while i < entries.len()
        invariant
            start == old(rules)@.map_values(|x: RuleIndex| x@),
            ev == removal_views(entries@),
            i <= entries@.len(),
            rules@.map_values(|x: RuleIndex| x@) == rules_remove(start, ev.take(i as int)),
        decreases entries@.len() - i,
    {
        let ghost cur = rules@.map_values(|x: RuleIndex| x@);
        proof {
            assert(ev.take(i + 1).drop_last() =~= ev.take(i as int));
            assert(ev.take(i + 1).last() == ev[i as int]);
        }
        let ri = rule_position(rules, entries[i].0.as_str());
        if ri < rules.len() {
            let table = &mut rules[ri];
            let k = rel_position(&table.entries, entries[i].1.as_str());
            let ghost tv = entry_views(table.entries@);
            if k < table.entries.len() {
                table.entries.remove(k);
                proof {
                    assert(entry_views(table.entries@) =~= tv.remove(k as int));
                }
            }
            proof {
                lemma_key_index_found(cur, entries@[i as int].0@, 0);
                assert(rules@.map_values(|x: RuleIndex| x@) =~= cur.update(ri as int, (ev[i as int].0,
                    table_remove(cur[ri as int].1, ev[i as int].1))));
            }
        }
        i = i + 1;
    }
    proof {
        assert(ev.take(i as int) =~= ev);
    }
}

/// Takes what a clean fully removed out of the job: out of the index, so
/// those paths can no longer be selected, and out of the reports, so the
/// client stays in sync.
pub fn apply_clean(job: &mut Job, fully_removed: &Vec<(usize, String, String, u64)>)
    requires
        old(job)@.wf(),
        removed_size_sum(removed_views(fully_removed@)) <= u64::MAX,
    ensures
        final(job)@ == apply_groups(old(job)@, group_removals(removed_views(fully_removed@))),
        final(job)@.wf(),
        final(job).id == old(job).id,
        final(job).total == old(job).total,
        final(job).done == old(job).done,
        final(job).current == old(job).current,
        final(job).error == old(job).error,
{
    let groups = group_by_project(fully_removed);
    let ghost gv = group_removals(removed_views(fully_removed@));
    proof {
        lemma_group_sums(removed_views(fully_removed@));
    }
    let mut g: usize = 0;
    proof {
        assert(gv.take(0) =~= Seq::<(usize, Seq<RemovalView>)>::empty());
    }
    while g < groups.len()
        invariant
            gv == groups@.map_values(|g: (usize, Vec<(String, String, u64)>)| (g.0, removal_views(g.1@))),
            forall|i: int| 0 <= i < gv.len() ==> #[trigger] group_size(gv[i].1) <= u64::MAX,
            g <= groups@.len(),
            job@ == apply_groups(old(job)@, gv.take(g as int)),
            job@.wf(),
            job.id == old(job).id,
            job.total == old(job).total,
            job.done == old(job).done,
            job.current == old(job).current,
            job.error == old(job).error,
        decreases groups@.len() - g,
    {
        let ghost before = job@;
        let project = groups[g].0;
        let entries = &groups[g].1;
        assert(gv[g as int] == (project, removal_views(entries@)));
        assert(group_size(gv[g as int].1) <= u64::MAX);
        let pi = index_position(&job.index, project);
        if pi < job.index.len() {
            proof {
                lemma_id_index_found(before.index, project, 0);
            }
            let slot = &mut job.index[pi];
            remove_from_rules(&mut slot.1.rules, entries);
            proof {
                assert(job_index_views(job.index@) =~= before.index.update(pi as int, (project,
                    rules_remove(before.index[pi as int].1, removal_views(entries@)))));
            }
        }
        let ghost mid = job@;
        assert(mid.projects == before.projects);
        let pp = project_slot(&job.projects, project);
        if pp < job.projects.len() {
            assert(mid.projects[pp as int].wf());
            proof {
                crate::report::lemma_removals_fit(mid.projects[pp as int], removal_views(entries@));
            }
            let report = &mut job.projects[pp];
            report.apply_removals(entries.as_slice());
            proof {
                assert(project_views(job.projects@) =~= mid.projects.update(pp as int,
                    after_removals(mid.projects[pp as int], removal_views(entries@))));
            }
        }
        proof {
            assert(gv.take(g + 1).drop_last() =~= gv.take(g as int));
            assert(gv.take(g + 1).last() == gv[g as int]);
            assert(job@ =~= apply_group(before, gv[g as int]));
            assert forall|i: int| 0 <= i < job@.projects.len() implies (#[trigger] job@.projects[i]).wf() by {
                if !(pp < mid.projects.len() && i == pp) {
                    assert(job@.projects[i] == mid.projects[i]);
                }
            }
        }
        g = g + 1;
    }
    proof {
        assert(gv.take(g as int) =~= gv);
    }
}

pub open spec fn str_less() -> spec_fn(Seq<char>, Seq<char>) -> bool {
    |a: Seq<char>, b: Seq<char>| lex_lt(a, b)
}

/// The strings sorted, as `sort` on strings orders them.
pub fn sort_strings(v: Vec<String>) -> (r: Vec<String>)
    ensures
        views(r@) == sort_asc(views(v@), str_less()),
{
    let ghost orig = views(v@);
    let mut out: Vec<String> = Vec::new();
    let mut i: usize = 0;
    proof {
        assert(orig.take(0) =~= Seq::<Seq<char>>::empty());
    }
    while i < v.len()
        invariant
            orig == views(v@),
            i <= v@.len(),
            views(out@) == sort_asc(orig.take(i as int), str_less()),
        decreases v@.len() - i,
    {
        let x = v[i].clone();
        let ghost before = views(out@);
        let mut pos: usize = 0;
        let mut found = false;
        while !found && pos < out.len()
            invariant
                pos <= out@.len(),
                before == views(out@),
                x@ == orig[i as int],
                forall|j: int| 0 <= j < pos ==> !str_less()(x@, #[trigger] before[j]),
                found ==> pos < out@.len() && str_less()(x@, before[pos as int]),
            decreases out@.len() - pos, (if found { 0int } else { 1int }),
        {
            let lt = str_lt(x.as_str(), out[pos].as_str());
            if lt {
                found = true;
            } else {
                pos = pos + 1;
            }
        }
        let ghost xv = x@;
        out.insert(pos, x);
        proof {
            lemma_insert_asc_at(before, xv, str_less(), pos as int);
            assert(views(out@) =~= before.insert(pos as int, xv));
            assert(orig.take(i + 1).drop_last() =~= orig.take(i as int));
            assert(orig.take(i + 1).last() == xv);
        }
        i = i + 1;
    }
    proof {
        assert(orig.take(i as int) =~= orig);
    }
    out
}

/// A plan with `pattern` added to the project's list, once.
pub open spec fn plan_insert(plan: Seq<(usize, Seq<Seq<char>>)>, project: usize, pattern: Seq<char>) -> Seq<(usize, Seq<Seq<char>>)> {
    let gi = id_index(plan, project, 0);
    if gi >= 0 {
        if plan[gi].1.contains(pattern) {
            plan
        } else {
            plan.update(gi, (project, plan[gi].1.push(pattern)))
        }
    } else {
        plan.push((project, seq![pattern]))
    }
}

/// The `.gitignore` patterns wanted per project, projects in order of first
/// appearance: for each entry naming a project and a known rule, that
/// rule's pattern, each pattern once per project.
pub open spec fn plan_spec(rules: Seq<Rule>, sels: Seq<SelectionView>) -> Seq<(usize, Seq<Seq<char>>)>
    decreases sels.len(),
{
    if sels.len() == 0 {
        Seq::empty()
    } else {
        let prev = plan_spec(rules, sels.drop_last());
        let sel = sels.last();
        match (sel.project, sel.rule_id) {
            (Some(project), Some(rule_id)) => match first_with_id(rules, rule_id, 0) {
                Some(rule) => plan_insert(prev, project, rule.ignore@),
                None => prev,
            },
            _ => prev,
        }
    }
}

pub open spec fn plan_views(v: Seq<(usize, Vec<String>)>) -> Seq<(usize, Seq<Seq<char>>)> {
    v.map_values(|g: (usize, Vec<String>)| (g.0, views(g.1@)))
}

fn plan_position(plan: &Vec<(usize, Vec<String>)>, id: usize) -> (r: usize)
    ensures
        r <= plan@.len(),
        id_index(plan_views(plan@), id, 0) == if r < plan@.len() { r as int } else { -1 },
{
    let ghost v = plan_views(plan@);
    let mut i: usize = 0;
    while i < plan.len()
        invariant
            v == plan_views(plan@),
            i <= plan@.len(),
            id_index(v, id, 0) == id_index(v, id, i as int),
        decreases plan@.len() - i,
    {
        if plan[i].0 == id {
            return i;
        }
        i = i + 1;
    }
    i
}

/// The patterns to add to each project's `.gitignore`, sorted per project.
pub fn gitignore_plan(rules: &[Rule], selections: &Vec<Selection>) -> (r: Vec<(usize, Vec<String>)>)
    ensures
        plan_views(r@) == plan_spec(rules@, selection_views(selections@)).map_values(
            |g: (usize, Seq<Seq<char>>)| (g.0, sort_asc(g.1, str_less()))),
{
    let ghost sv = selection_views(selections@);
    let mut plan: Vec<(usize, Vec<String>)> = Vec::new();
    let mut s: usize = 0;
    proof {
        assert(sv.take(0) =~= Seq::<SelectionView>::empty());
        assert(plan_views(plan@) =~= Seq::<(usize, Seq<Seq<char>>)>::empty());
    }
    while s < selections.len()
        invariant
            sv == selection_views(selections@),
            s <= selections@.len(),
            plan_views(plan@) == plan_spec(rules@, sv.take(s as int)),
        decreases selections@.len() - s,
    {
        let ghost before = plan_views(plan@);
        proof {
            assert(sv.take(s + 1).drop_last() =~= sv.take(s as int));
            assert(sv.take(s + 1).last() == sv[s as int]);
        }
        let entry = &selections[s];
        match (entry.project, &entry.rule_id) {
            (Some(project), Some(rule_id)) => {
                match rule_by_id(rules, rule_id.as_str()) {
                    Some(rule) => {
                        let gi = plan_position(&plan, project);
                        if gi < plan.len() {
                            proof {
                                lemma_id_index_found(before, project, 0);
                            }
                            let group = &mut plan[gi];
                            if !contains_str(&group.1, rule.ignore) {
                                let ghost g_prev = group.1@;
                                group.1.push(from_literal(rule.ignore));
                                proof {
                                    assert(views(group.1@) =~= views(g_prev).push(rule.ignore@));
                                    assert(plan_views(plan@) =~= before.update(gi as int, (project, before[gi as int].1.push(rule.ignore@))));
                                }
                            }
                        } else {
                            let mut list: Vec<String> = Vec::new();
                            list.push(from_literal(rule.ignore));
                            plan.push((project, list));
                            proof {
                                assert(views(list@) =~= seq![rule.ignore@]);
                                assert(plan_views(plan@) =~= before.push((project, seq![rule.ignore@])));
                            }
                        }
                    },
                    None => {},
                }
            },
            _ => {},
        }
        s = s + 1;
    }
    proof {
        assert(sv.take(s as int) =~= sv);
    }
    let ghost unsorted = plan_views(plan@);
    let mut sorted: Vec<(usize, Vec<String>)> = Vec::new();
    let mut rest = plan;
    let ghost mut k: int = 0;
    proof {
        assert(unsorted.skip(0) =~= unsorted);
    }
    while rest.len() > 0
        invariant
            0 <= k <= unsorted.len(),
            plan_views(rest@) == unsorted.skip(k),
            plan_views(sorted@) == unsorted.take(k).map_values(|g: (usize, Seq<Seq<char>>)| (g.0, sort_asc(g.1, str_less()))),
        decreases rest@.len(),
    {
        let ghost rest_old = rest@;
        assert(plan_views(rest_old).len() == rest_old.len());
        let (project, patterns) = rest.remove(0);
        proof {
            assert(rest@ == rest_old.remove(0));
            assert(plan_views(rest_old)[0] == unsorted.skip(k)[0]);
            assert forall|y: int| 0 <= y < rest@.len() implies #[trigger] plan_views(rest@)[y] == unsorted.skip(k + 1)[y] by {
                assert(rest@[y] == rest_old[y + 1]);
                assert(plan_views(rest_old)[y + 1] == unsorted.skip(k)[y + 1]);
            }
            assert(plan_views(rest@) =~= unsorted.skip(k + 1));
        }
        let ghost g = unsorted[k];
        let ordered = sort_strings(patterns);
        let ghost prev = sorted@;
        sorted.push((project, ordered));
        proof {
            assert(plan_views(sorted@) =~= plan_views(prev).push((g.0, sort_asc(g.1, str_less()))));
            assert(unsorted.take(k + 1) =~= unsorted.take(k).push(g));
            assert(unsorted.take(k + 1).map_values(|g: (usize, Seq<Seq<char>>)| (g.0, sort_asc(g.1, str_less())))
                =~= unsorted.take(k).map_values(|g: (usize, Seq<Seq<char>>)| (g.0, sort_asc(g.1, str_less()))).push(
                (g.0, sort_asc(g.1, str_less()))));
            k = k + 1;
        }
    }
    proof {
        assert(unsorted.take(k) =~= unsorted);
    }
    sorted
}

/// Counters of a `.gitignore` update: patterns added, repositories touched,
/// projects skipped for not being repositories.
#[derive(Clone, Debug)]
pub struct GitignoreTally {
    pub added: usize,
    pub repos: usize,
    pub skipped: usize,
}

impl GitignoreTally {
    pub fn new() -> (r: GitignoreTally)
        ensures
            r.added == 0 && r.repos == 0 && r.skipped == 0,
    {
        GitignoreTally { added: 0, repos: 0, skipped: 0 }
    }

    /// A project outside git: skipped and reported.
    pub fn skip(&mut self)
        requires
            old(self).skipped < usize::MAX,
        ensures
            final(self).skipped == old(self).skipped + 1,
            final(self).added == old(self).added,
            final(self).repos == old(self).repos,
    {
        self.skipped = self.skipped + 1;
    }

    /// A repository whose `.gitignore` received `count` patterns; it counts
    /// as touched only when some were added.
    pub fn record(&mut self, count: usize)
        requires
            old(self).added + count <= usize::MAX,
            old(self).repos < usize::MAX,
        ensures
            final(self).added == old(self).added + count,
            final(self).repos == old(self).repos + if count > 0 { 1int } else { 0int },
            final(self).skipped == old(self).skipped,
    {
        if count > 0 {
            self.added = self.added + count;
            self.repos = self.repos + 1;
        }
    }
}

/// Why a request is refused.
#[derive(PartialEq, Eq, Structural, Debug, Clone, Copy)]
pub enum Refusal {
    /// No job has the identifier given.
    JobNotFound,
    /// The selection names nothing that may be touched.
    InvalidSelection,
    /// The project is not a git repository.
    NotGit,
}

impl Refusal {
    /// The HTTP status of the answer.
    pub fn status(self) -> (r: u16)
        ensures
            r == (if self == Refusal::JobNotFound { 404u16 } else { 400u16 }),
    {
        match self {
            Refusal::JobNotFound => 404,
            Refusal::InvalidSelection => 400,
            Refusal::NotGit => 400,
        }
    }

    /// The catalogue key of the message that explains it.
    pub fn key(self) -> (r: &'static str)
        ensures
            r == (match self {
                Refusal::JobNotFound => "error.job_not_found",
                Refusal::InvalidSelection => "error.invalid_selection",
                Refusal::NotGit => "error.not_git",
            }),
    {
        match self {
            Refusal::JobNotFound => "error.job_not_found",
            Refusal::InvalidSelection => "error.invalid_selection",
            Refusal::NotGit => "error.not_git",
        }
    }
}

/// The targets of a clean request, refused when the selection resolves to
/// nothing.
pub fn clean_targets(job: &Job, selections: &Vec<Selection>) -> (r: Result<Vec<Target>, Refusal>)
    ensures
        match r {
            Ok(targets) => target_views(targets@) == resolve_spec(job@, selection_views(selections@))
                && targets@.len() > 0,
            Err(e) => e == Refusal::InvalidSelection && resolve_spec(job@, selection_views(selections@)).len() == 0,
        },
{
    let targets = resolve_selection(job, selections);
    if targets.len() == 0 {
        Err(Refusal::InvalidSelection)
    } else {
        Ok(targets)
    }
}

/// The repository path of a `git gc` request: refused when the job has no
/// project `id`, or when that project is not a git repository.
pub fn gc_target(job: &Job, id: usize) -> (r: Result<String, Refusal>)
    ensures
        match r {
            Ok(path) => project_target_spec(job@, id) == Some((path@, true)),
            Err(e) => (e == Refusal::InvalidSelection && project_target_spec(job@, id) is None)
                || (e == Refusal::NotGit && project_target_spec(job@, id) is Some
                    && !project_target_spec(job@, id).unwrap().1),
        },
{
    match project_target(job, id) {
        Some((path, is_git)) => if is_git {
            Ok(path)
        } else {
            Err(Refusal::NotGit)
        },
        None => Err(Refusal::InvalidSelection),
    }
}

/// The path and git status of the project `id`, if the job has it.
pub open spec fn project_target_spec(job: JobView, id: usize) -> Option<(Seq<char>, bool)> {
    let pp = project_position(job.projects, id, 0);
    if pp >= 0 {
        Some((job.projects[pp].path, job.projects[pp].is_git))
    } else {
        None
    }
}

pub fn project_target(job: &Job, id: usize) -> (r: Option<(String, bool)>)
    ensures
        match r {
            Some(t) => project_target_spec(job@, id) == Some((t.0@, t.1)),
            None => project_target_spec(job@, id) is None,
        },
{
    let pp = project_slot(&job.projects, id);
    if pp < job.projects.len() {
        Some((job.projects[pp].path.clone(), job.projects[pp].is_git))
    } else {
        None
    }
}

/// Every relative path a project's index holds, rule after rule.
pub open spec fn flat_keys(rules: IndexView) -> Seq<Seq<char>>
    decreases rules.len(),
{
    if rules.len() == 0 {
        Seq::empty()
    } else {
        flat_keys(rules.drop_last()) + rules.last().1.map_values(|e: (Seq<char>, Seq<char>)| e.0)
    }
}

/// The index tables of a project, empty when the job has none.
pub open spec fn project_rules(job: JobView, id: usize) -> IndexView {
    let pi = id_index(job.index, id, 0);
    if pi >= 0 {
        job.index[pi].1
    } else {
        Seq::empty()
    }
}

/// The relative paths to ask `git check-ignore` about after a `.gitignore`
/// changed.
pub fn indexed_rels(job: &Job, id: usize) -> (r: Vec<String>)
    ensures
        views(r@) == flat_keys(project_rules(job@, id)),
{
    let mut out: Vec<String> = Vec::new();
    let pi = index_position(&job.index, id);
    if pi >= job.index.len() {
        proof {
            assert(views(out@) =~= flat_keys(Seq::<(Seq<char>, PathTableView)>::empty()));
        }
        return out;
    }
    let rules = &job.index[pi].1.rules;
    let ghost rv = rules@.map_values(|x: RuleIndex| x@);
    assert(rv == project_rules(job@, id));
    let mut i: usize = 0;
    proof {
        assert(rv.take(0) =~= Seq::<(Seq<char>, PathTableView)>::empty());
        assert(views(out@) =~= flat_keys(rv.take(0)));
    }
    while i < rules.len()
        invariant
            rv == rules@.map_values(|x: RuleIndex| x@),
            i <= rules@.len(),
            views(out@) == flat_keys(rv.take(i as int)),
        decreases rules@.len() - i,
    {
        let entries = &rules[i].entries;
        let ghost base = views(out@);
        let ghost ev = entry_views(entries@);
        let mut j: usize = 0;
        proof {
            assert(ev.take(0).map_values(|e: (Seq<char>, Seq<char>)| e.0) =~= Seq::<Seq<char>>::empty());
            assert(views(out@) =~= base + ev.take(0).map_values(|e: (Seq<char>, Seq<char>)| e.0));
        }
        while j < entries.len()
            invariant
                ev == entry_views(entries@),
                j <= entries@.len(),
                views(out@) == base + ev.take(j as int).map_values(|e: (Seq<char>, Seq<char>)| e.0),
            decreases entries@.len() - j,
        {
            let ghost prev = out@;
            out.push(entries[j].rel.clone());
            proof {
                assert(views(out@) =~= views(prev).push(ev[j as int].0));
                assert(ev.take(j + 1).map_values(|e: (Seq<char>, Seq<char>)| e.0) =~= ev.take(j as int).map_values(
                    |e: (Seq<char>, Seq<char>)| e.0).push(ev[j as int].0));
            }
            j = j + 1;
        }
        proof {
            assert(ev.take(j as int) =~= ev);
            assert(rv[i as int] == rules@[i as int]@);
            assert(rv.take(i + 1).drop_last() =~= rv.take(i as int));
            assert(rv.take(i + 1).last() == rv[i as int]);
        }
        i = i + 1;
    }
    proof {
        assert(rv.take(i as int) =~= rv);
    }
    out
}

/// The relative paths the index holds for a rule.
pub open spec fn rule_rels(rules: IndexView, rule_id: Seq<char>) -> Seq<Seq<char>> {
    let ri = key_index(rules, rule_id, 0);
    if ri >= 0 {
        rules[ri].1.map_values(|e: (Seq<char>, Seq<char>)| e.0)
    } else {
        Seq::empty()
    }
}

pub open spec fn in_set(set: Seq<Seq<char>>) -> spec_fn(Seq<char>) -> bool {
    |r: Seq<char>| set.contains(r)
}

pub open spec fn refresh_occurrence(o: OccurrenceReportView, ignored: Seq<Seq<char>>) -> OccurrenceReportView {
    OccurrenceReportView { ignored: ignored.contains(o.rel), ..o }
}

/// An item after a `.gitignore` change: its state recomputed from the
/// indexed paths of its rule that git now reports ignored (with the tracked
/// count of the scan), and each listed occurrence's flag refreshed.
pub open spec fn refresh_item(item: ItemReportView, rules: IndexView, ignored: Seq<Seq<char>>) -> ItemReportView {
    let rels = rule_rels(rules, item.rule_id);
    ItemReportView {
        ignore_status: ignore_state(count_if(rels, in_set(ignored)) as int, item.tracked_count as int,
            rels.len() as int)@,
        occurrences: item.occurrences.map_values(|o: OccurrenceReportView| refresh_occurrence(o, ignored)),
        ..item
    }
}

/// The job after refreshing project `id` with the paths git reports
/// ignored; unchanged when the project's index holds no path.
pub open spec fn refresh_job(job: JobView, id: usize, ignored: Seq<Seq<char>>) -> JobView {
    let rules = project_rules(job, id);
    let pp = project_position(job.projects, id, 0);
    if flat_keys(rules).len() == 0 || pp < 0 {
        job
    } else {
        JobView {
            projects: job.projects.update(pp, ProjectReportView {
                items: job.projects[pp].items.map_values(|i: ItemReportView| refresh_item(i, rules, ignored)),
                ..job.projects[pp]
            }),
            ..job
        }
    }
}

/// The states reported back to the client: rule id and new state, per item.
pub open spec fn refresh_statuses(job: JobView, id: usize, ignored: Seq<Seq<char>>) -> Seq<(Seq<char>, Seq<char>)> {
    let rules = project_rules(job, id);
    let pp = project_position(job.projects, id, 0);
    if flat_keys(rules).len() == 0 || pp < 0 {
        Seq::empty()
    } else {
        job.projects[pp].items.map_values(|i: ItemReportView| (i.rule_id, refresh_item(i, rules, ignored).ignore_status))
    }
}

proof fn lemma_refresh_sums(occ: Seq<OccurrenceReportView>, ignored: Seq<Seq<char>>)
    ensures
        crate::seqs::sum_of(occ.map_values(|o: OccurrenceReportView| refresh_occurrence(o, ignored)),
            |o: OccurrenceReportView| crate::report::rep_size(o)) == crate::seqs::sum_of(occ,
            |o: OccurrenceReportView| crate::report::rep_size(o)),
        crate::seqs::sum_of(occ.map_values(|o: OccurrenceReportView| refresh_occurrence(o, ignored)),
            |o: OccurrenceReportView| crate::report::rep_files(o)) == crate::seqs::sum_of(occ,
            |o: OccurrenceReportView| crate::report::rep_files(o)),
{
    crate::seqs::lemma_sum_map(occ, |o: OccurrenceReportView| refresh_occurrence(o, ignored),
        |o: OccurrenceReportView| crate::report::rep_size(o), |o: OccurrenceReportView| crate::report::rep_size(o));
    crate::seqs::lemma_sum_map(occ, |o: OccurrenceReportView| refresh_occurrence(o, ignored),
        |o: OccurrenceReportView| crate::report::rep_files(o), |o: OccurrenceReportView| crate::report::rep_files(o));
}

fn refresh_one(item: &mut ItemReport, rules: &Vec<RuleIndex>, ignored: &Vec<String>) -> (status: String)
    requires
        item_wf(old(item)@),
    ensures
        final(item)@ == refresh_item(old(item)@, rules@.map_values(|x: RuleIndex| x@), views(ignored@)),
        status@ == final(item)@.ignore_status,
        item_wf(final(item)@),
{
    let ghost rv = rules@.map_values(|x: RuleIndex| x@);
    let ghost iv = item@;
    let ghost target = refresh_item(iv, rv, views(ignored@));
    let ri = rule_position(rules, item.rule_id.as_str());
    let mut hits: usize = 0;
    let mut total: usize = 0;
    if ri < rules.len() {
        let entries = &rules[ri].entries;
        let ghost keys = entry_views(entries@).map_values(|e: (Seq<char>, Seq<char>)| e.0);
        assert(rv[ri as int] == rules@[ri as int]@);
        assert(keys == rule_rels(rv, iv.rule_id));
        let mut j: usize = 0;
        while j < entries.len()
            invariant
                keys == entry_views(entries@).map_values(|e: (Seq<char>, Seq<char>)| e.0),
                j <= entries@.len(),
                hits == count_if(keys.take(j as int), in_set(views(ignored@))),
                hits <= j,
            decreases entries@.len() - j,
        {
            proof {
                lemma_count_if_take(keys, j as int, in_set(views(ignored@)));
                assert(keys[j as int] == entries@[j as int].rel@);
            }
            if contains_str(ignored, entries[j].rel.as_str()) {
                hits = hits + 1;
            }
            j = j + 1;
        }
        proof {
            assert(keys.take(j as int) =~= keys);
        }
        total = entries.len();
    } else {
        proof {
            assert(rule_rels(rv, iv.rule_id) =~= Seq::<Seq<char>>::empty());
        }
    }
    let status = ignore_status(hits, item.tracked_count, total);
    item.ignore_status = from_literal(status);
    let ghost occ = iv.occurrences;
    let mut k: usize = 0;
    while k < item.occurrences.len()
        invariant
            occ == iv.occurrences,
            item.occurrences@.len() == occ.len(),
            k <= occ.len(),
            item.rule_id@ == iv.rule_id,
            item.name@ == iv.name,
            item.category@ == iv.category,
            item.risk@ == iv.risk,
            item.restore@ == iv.restore,
            item.ignore_pattern@ == iv.ignore_pattern,
            item.ignore_status@ == target.ignore_status,
            item.tracked_count == iv.tracked_count,
            item.size == iv.size,
            item.files == iv.files,
            item.count == iv.count,
            item.truncated == iv.truncated,
            forall|x: int| 0 <= x < k ==> #[trigger] occurrence_report_views(item.occurrences@)[x]
                == refresh_occurrence(occ[x], views(ignored@)),
            forall|x: int| k <= x < occ.len() ==> #[trigger] occurrence_report_views(item.occurrences@)[x] == occ[x],
        decreases occ.len() - k,
    {
        let ghost prev = occurrence_report_views(item.occurrences@);
        assert(prev[k as int] == occ[k as int]);
        let o = &mut item.occurrences[k];
        o.ignored = contains_str(ignored, o.rel.as_str());
        proof {
            assert(occurrence_report_views(item.occurrences@) =~= prev.update(k as int,
                refresh_occurrence(occ[k as int], views(ignored@))));
        }
        k = k + 1;
    }
    proof {
        assert(occurrence_report_views(item.occurrences@) =~= target.occurrences);
        lemma_refresh_sums(occ, views(ignored@));
    }
    from_literal(status)
}

/// Recomputes a project's `.gitignore` coverage after writing the file,
/// given the indexed paths that `git check-ignore` now reports. Returns the
/// new state of each item.
pub fn refresh_ignore_status(job: &mut Job, id: usize, ignored: &Vec<String>) -> (r: Vec<(String, String)>)
    requires
        old(job)@.wf(),
    ensures
        final(job)@ == refresh_job(old(job)@, id, views(ignored@)),
        final(job)@.wf(),
        final(job).id == old(job).id,
        final(job).total == old(job).total,
        final(job).done == old(job).done,
        final(job).current == old(job).current,
        final(job).error == old(job).error,
        r@.map_values(|e: (String, String)| (e.0@, e.1@)) == refresh_statuses(old(job)@, id, views(ignored@)),
{
    let ghost jv = job@;
    let mut statuses: Vec<(String, String)> = Vec::new();
    let rels = indexed_rels(job, id);
    if rels.len() == 0 {
        proof {
            assert(statuses@.map_values(|e: (String, String)| (e.0@, e.1@)) =~= Seq::<(Seq<char>, Seq<char>)>::empty());
        }
        return statuses;
    }
    let pp = project_slot(&job.projects, id);
    if pp >= job.projects.len() {
        proof {
            assert(statuses@.map_values(|e: (String, String)| (e.0@, e.1@)) =~= Seq::<(Seq<char>, Seq<char>)>::empty());
        }
        return statuses;
    }
    let pi = index_position(&job.index, id);
    let empty_rules: Vec<RuleIndex> = Vec::new();
    let rules: &Vec<RuleIndex> = if pi < job.index.len() { &job.index[pi].1.rules } else { &empty_rules };
    let ghost rv = rules@.map_values(|x: RuleIndex| x@);
    proof {
        if pi >= job.index.len() {
            assert(rv =~= Seq::<(Seq<char>, PathTableView)>::empty());
        }
        assert(rv == project_rules(jv, id));
    }
    let ghost pv = jv.projects[pp as int];
    assert(pv.wf());
    let ghost items = pv.items;
    let project = &mut job.projects[pp];
    let mut k: usize = 0;
    while k < project.items.len()
        invariant
            items == pv.items,
            rv == rules@.map_values(|x: RuleIndex| x@),
            project.items@.len() == items.len(),
            k <= items.len(),
            project@ == (ProjectReportView { items: project@.items, ..pv }),
            forall|x: int| 0 <= x < items.len() ==> item_wf(#[trigger] items[x]),
            forall|x: int| 0 <= x < k ==> #[trigger] crate::report::item_views(project.items@)[x]
                == refresh_item(items[x], rv, views(ignored@)),
            forall|x: int| k <= x < items.len() ==> #[trigger] crate::report::item_views(project.items@)[x] == items[x],
            statuses@.map_values(|e: (String, String)| (e.0@, e.1@)) == items.take(k as int).map_values(
                |i: ItemReportView| (i.rule_id, refresh_item(i, rv, views(ignored@)).ignore_status)),
        decreases items.len() - k,
    {
        let ghost prev = crate::report::item_views(project.items@);
        assert(prev[k as int] == items[k as int]);
        let rule_id = project.items[k].rule_id.clone();
        assert(rule_id@ == items[k as int].rule_id);
        let ghost prev_items = project.items@;
        assert(prev_items[k as int]@ == items[k as int]);
        assert(rules@.map_values(|x: RuleIndex| x@) == rv);
        let status = refresh_one(&mut project.items[k], rules, ignored);
        assert(project.items@[k as int]@ == refresh_item(items[k as int], rv, views(ignored@)));
        assert(project.items@ == prev_items.update(k as int, project.items@[k as int]));
        assert(status@ == refresh_item(items[k as int], rv, views(ignored@)).ignore_status);
        let ghost prev_s = statuses@;
        statuses.push((rule_id, status));
        proof {
            assert(crate::report::item_views(project.items@) =~= prev.update(k as int,
                refresh_item(items[k as int], rv, views(ignored@))));
            assert(statuses@.map_values(|e: (String, String)| (e.0@, e.1@)) =~= prev_s.map_values(
                |e: (String, String)| (e.0@, e.1@)).push((items[k as int].rule_id,
                refresh_item(items[k as int], rv, views(ignored@)).ignore_status)));
            assert(items.take(k + 1) =~= items.take(k as int).push(items[k as int]));
        }
        k = k + 1;
    }
    proof {
        assert(items.take(k as int) =~= items);
    }
    proof {
        let new_items = items.map_values(|i: ItemReportView| refresh_item(i, rv, views(ignored@)));
        assert(crate::report::item_views(job.projects@[pp as int].items@) =~= new_items);
        assert(project_views(job.projects@) =~= jv.projects.update(pp as int, ProjectReportView { items: new_items, ..pv }));
        assert forall|x: int| 0 <= x < new_items.len() implies crate::report::item_wf(#[trigger] new_items[x]) by {
            lemma_refresh_sums(items[x].occurrences, views(ignored@));
        }
        crate::seqs::lemma_sum_map(items, |i: ItemReportView| refresh_item(i, rv, views(ignored@)),
            |i: ItemReportView| crate::report::item_size(i), |i: ItemReportView| crate::report::item_size(i));
        crate::seqs::lemma_sum_map(items, |i: ItemReportView| refresh_item(i, rv, views(ignored@)),
            |i: ItemReportView| crate::report::item_files(i), |i: ItemReportView| crate::report::item_files(i));
        assert forall|x: int| 0 <= x < job@.projects.len() implies (#[trigger] job@.projects[x]).wf() by {
            if x != pp {
                assert(job@.projects[x] == jv.projects[x]);
            }
        }
    }
    statuses
}

/// The job after a `git gc` of project `id`: on success, the project's
/// repository size is the new one and its total loses the bytes freed.
pub open spec fn gc_job(job: JobView, id: usize, ok: bool, after: u64, freed: u64) -> JobView {
    let pp = project_position(job.projects, id, 0);
    if !ok || pp < 0 {
        job
    } else {
        JobView {
            projects: job.projects.update(pp, ProjectReportView {
                git_size: after,
                total_size: (if job.projects[pp].total_size >= freed { job.projects[pp].total_size - freed } else { 0 }) as u64,
                ..job.projects[pp]
            }),
            ..job
        }
    }
}

pub fn apply_gc(job: &mut Job, id: usize, outcome: &GcOutcome)
    requires
        old(job)@.wf(),
    ensures
        final(job)@ == gc_job(old(job)@, id, outcome.ok, outcome.after, outcome.freed),
        final(job)@.wf(),
        final(job).id == old(job).id,
        final(job).total == old(job).total,
        final(job).done == old(job).done,
        final(job).current == old(job).current,
        final(job).error == old(job).error,
{
    if !outcome.ok {
        return;
    }
    let ghost jv = job@;
    let pp = project_slot(&job.projects, id);
    if pp < job.projects.len() {
        let project = &mut job.projects[pp];
        project.git_size = outcome.after;
        project.total_size = if project.total_size >= outcome.freed { project.total_size - outcome.freed } else { 0 };
        proof {
            assert(project_views(job.projects@) =~= gc_job(jv, id, outcome.ok, outcome.after, outcome.freed).projects);
            assert forall|x: int| 0 <= x < job@.projects.len() implies (#[trigger] job@.projects[x]).wf() by {
                if x != pp {
                    assert(job@.projects[x] == jv.projects[x]);
                }
            }
        }
    }
}

/// The handler a request goes to.
#[derive(PartialEq, Eq, Structural, Debug, Clone, Copy)]
pub enum Route {
    Index,
    Stylesheet,
    Script,
    Icon32,
    Icon180,
    Languages,
    PickFolder,
    Catalog,
    StartScan,
    CancelScan,
    ScanStatus,
    Clean,
    Gitignore,
    GitGc,
    NotFound,
}

/// The routing table: method and path to handler, tried in order.
pub open spec fn route_spec(is_post: bool, p: Seq<char>) -> Route {
    if !is_post && p == "/"@ {
        Route::Index
    } else if !is_post && p == "/static/style.css"@ {
        Route::Stylesheet
    } else if !is_post && p == "/static/app.js"@ {
        Route::Script
    } else if !is_post && (p == "/favicon.ico"@ || p == "/static/icon-32.png"@) {
        Route::Icon32
    } else if !is_post && p == "/static/icon-180.png"@ {
        Route::Icon180
    } else if !is_post && p == "/api/languages"@ {
        Route::Languages
    } else if !is_post && p == "/api/pick-folder"@ {
        Route::PickFolder
    } else if !is_post && starts_with_spec(p, "/api/i18n/"@) {
        Route::Catalog
    } else if is_post && p == "/api/scan"@ {
        Route::StartScan
    } else if is_post && starts_with_spec(p, "/api/scan/"@) && ends_with_spec(p, "/cancel"@) {
        Route::CancelScan
    } else if !is_post && starts_with_spec(p, "/api/scan/"@) {
        Route::ScanStatus
    } else if is_post && p == "/api/clean"@ {
        Route::Clean
    } else if is_post && p == "/api/gitignore"@ {
        Route::Gitignore
    } else if is_post && p == "/api/gitgc"@ {
        Route::GitGc
    } else {
        Route::NotFound
    }
}

/// What the path hands the handler: the language after `/api/i18n/`, or the
/// job id of a scan route; nothing otherwise.
pub open spec fn route_arg_spec(is_post: bool, p: Seq<char>) -> Seq<char> {
    match route_spec(is_post, p) {
        Route::Catalog => p.skip("/api/i18n/"@.len() as int),
        Route::CancelScan => strip_suffix_all(strip_prefix_all(p, "/api/scan/"@), "/cancel"@),
        Route::ScanStatus => strip_prefix_all(p, "/api/scan/"@),
        _ => Seq::empty(),
    }
}

/// A string that differs from `pre` at a position of `pre` does not start
/// with it.
proof fn lemma_differs_from_prefix(s: Seq<char>, pre: Seq<char>, k: int)
    requires
        0 <= k < pre.len(),
        k < s.len() ==> s[k] != pre[k],
    ensures
        !starts_with_spec(s, pre),
{
    if starts_with_spec(s, pre) {
        assert(s.subrange(0, pre.len() as int)[k] == s[k]);
    }
}

/// Law: the routing table. Each handler is reached by exactly one method and
/// the paths listed for it: the page and its assets, the language list, the
/// folder picker and a language's catalogue by GET; starting a scan,
/// cleaning, `.gitignore` and `git gc` by POST; a scan's status by GET and
/// its cancellation by POST under `/api/scan/`. Everything else is not found.
pub proof fn lemma_route_table(is_post: bool, p: Seq<char>)
    ensures
        route_spec(is_post, p) == Route::Index <==> (!is_post && p == "/"@),
        route_spec(is_post, p) == Route::Stylesheet <==> (!is_post && p == "/static/style.css"@),
        route_spec(is_post, p) == Route::Script <==> (!is_post && p == "/static/app.js"@),
        route_spec(is_post, p) == Route::Icon32
            <==> (!is_post && (p == "/favicon.ico"@ || p == "/static/icon-32.png"@)),
        route_spec(is_post, p) == Route::Icon180 <==> (!is_post && p == "/static/icon-180.png"@),
        route_spec(is_post, p) == Route::Languages <==> (!is_post && p == "/api/languages"@),
        route_spec(is_post, p) == Route::PickFolder <==> (!is_post && p == "/api/pick-folder"@),
        route_spec(is_post, p) == Route::Catalog <==> (!is_post && starts_with_spec(p, "/api/i18n/"@)),
        route_spec(is_post, p) == Route::StartScan <==> (is_post && p == "/api/scan"@),
        route_spec(is_post, p) == Route::CancelScan
            <==> (is_post && starts_with_spec(p, "/api/scan/"@) && ends_with_spec(p, "/cancel"@)),
        route_spec(is_post, p) == Route::ScanStatus <==> (!is_post && starts_with_spec(p, "/api/scan/"@)),
        route_spec(is_post, p) == Route::Clean <==> (is_post && p == "/api/clean"@),
        route_spec(is_post, p) == Route::Gitignore <==> (is_post && p == "/api/gitignore"@),
        route_spec(is_post, p) == Route::GitGc <==> (is_post && p == "/api/gitgc"@),
{
    reveal_strlit("/");
    reveal_strlit("/static/style.css");
    reveal_strlit("/static/app.js");
    reveal_strlit("/favicon.ico");
    reveal_strlit("/static/icon-32.png");
    reveal_strlit("/static/icon-180.png");
    reveal_strlit("/api/languages");
    reveal_strlit("/api/pick-folder");
    reveal_strlit("/api/i18n/");
    reveal_strlit("/api/scan");
    reveal_strlit("/api/scan/");
    reveal_strlit("/cancel");
    reveal_strlit("/api/clean");
    reveal_strlit("/api/gitignore");
    reveal_strlit("/api/gitgc");
    let i18n = "/api/i18n/"@;
    let scan = "/api/scan/"@;
    assert(i18n.len() == 10 && scan.len() == 10);
    assert("/"@.len() == 1);
    assert("/static/style.css"@.len() == 17);
    assert("/static/app.js"@.len() == 14);
    assert("/favicon.ico"@.len() == 12);
    assert("/static/icon-32.png"@.len() == 19);
    assert("/static/icon-180.png"@.len() == 20);
    assert("/api/languages"@.len() == 14);
    assert("/api/pick-folder"@.len() == 16);
    assert("/api/scan"@.len() == 9);
    assert("/api/clean"@.len() == 10);
    assert("/api/gitignore"@.len() == 14);
    assert("/api/gitgc"@.len() == 10);
    assert("/static/app.js"@[1] != "/api/languages"@[1]);
    assert("/static/app.js"@[1] != "/api/gitignore"@[1]);
    assert("/api/languages"@[5] != "/api/gitignore"@[5]);
    assert("/api/clean"@[5] != "/api/gitgc"@[5]);
    // No path of a fixed GET route starts with a prefix of the later GET routes.
    lemma_differs_from_prefix("/"@, i18n, 1);
    lemma_differs_from_prefix("/static/style.css"@, i18n, 1);
    lemma_differs_from_prefix("/static/app.js"@, i18n, 1);
    lemma_differs_from_prefix("/favicon.ico"@, i18n, 1);
    lemma_differs_from_prefix("/static/icon-32.png"@, i18n, 1);
    lemma_differs_from_prefix("/static/icon-180.png"@, i18n, 1);
    lemma_differs_from_prefix("/api/languages"@, i18n, 5);
    lemma_differs_from_prefix("/api/pick-folder"@, i18n, 5);
    lemma_differs_from_prefix("/"@, scan, 1);
    lemma_differs_from_prefix("/static/style.css"@, scan, 1);
    lemma_differs_from_prefix("/static/app.js"@, scan, 1);
    lemma_differs_from_prefix("/favicon.ico"@, scan, 1);
    lemma_differs_from_prefix("/static/icon-32.png"@, scan, 1);
    lemma_differs_from_prefix("/static/icon-180.png"@, scan, 1);
    lemma_differs_from_prefix("/api/languages"@, scan, 5);
    lemma_differs_from_prefix("/api/pick-folder"@, scan, 5);
    // Nor does a fixed POST path start with the prefix of cancellation.
    lemma_differs_from_prefix("/api/clean"@, scan, 5);
    lemma_differs_from_prefix("/api/gitignore"@, scan, 5);
    lemma_differs_from_prefix("/api/gitgc"@, scan, 5);
    // A path under the catalogue prefix is not under the scan prefix.
    if starts_with_spec(p, i18n) {
        assert(p[5] == p.subrange(0, 10)[5]);
        lemma_differs_from_prefix(p, scan, 5);
    }
}

/// Law: the catalogue route hands over what follows `/api/i18n/`.
pub proof fn lemma_route_catalog_language(lang: Seq<char>)
    ensures
        route_spec(false, "/api/i18n/"@ + lang) == Route::Catalog,
        route_arg_spec(false, "/api/i18n/"@ + lang) == lang,
{
    let p = "/api/i18n/"@ + lang;
    lemma_route_table(false, p);
    assert(p.subrange(0, "/api/i18n/"@.len() as int) =~= "/api/i18n/"@);
    assert(p.skip("/api/i18n/"@.len() as int) =~= lang);
}

/// Routes a request by method and path.
pub fn route(is_post: bool, path: &str) -> (r: (Route, String))
    ensures
        r.0 == route_spec(is_post, path@),
        r.1@ == route_arg_spec(is_post, path@),
{
    let kind = if !is_post && str_eq(path, "/") {
        Route::Index
    } else if !is_post && str_eq(path, "/static/style.css") {
        Route::Stylesheet
    } else if !is_post && str_eq(path, "/static/app.js") {
        Route::Script
    } else if !is_post && (str_eq(path, "/favicon.ico") || str_eq(path, "/static/icon-32.png")) {
        Route::Icon32
    } else if !is_post && str_eq(path, "/static/icon-180.png") {
        Route::Icon180
    } else if !is_post && str_eq(path, "/api/languages") {
        Route::Languages
    } else if !is_post && str_eq(path, "/api/pick-folder") {
        Route::PickFolder
    } else if !is_post && starts_with(path, "/api/i18n/") {
        Route::Catalog
    } else if is_post && str_eq(path, "/api/scan") {
        Route::StartScan
    } else if is_post && starts_with(path, "/api/scan/") && ends_with(path, "/cancel") {
        Route::CancelScan
    } else if !is_post && starts_with(path, "/api/scan/") {
        Route::ScanStatus
    } else if is_post && str_eq(path, "/api/clean") {
        Route::Clean
    } else if is_post && str_eq(path, "/api/gitignore") {
        Route::Gitignore
    } else if is_post && str_eq(path, "/api/gitgc") {
        Route::GitGc
    } else {
        Route::NotFound
    };
    let arg = match kind {
        Route::Catalog => {
            proof {
                reveal_strlit("/api/i18n/");
            }
            let n = chars_of(path).len();
            substring(path, 10, n)
        },
        Route::CancelScan => {
            let id = trim_start_matches(path, "/api/scan/");
            trim_end_matches(id.as_str(), "/cancel")
        },
        Route::ScanStatus => trim_start_matches(path, "/api/scan/"),
        _ => String::new(),
    };
    proof {
        if kind == Route::Catalog {
            assert(arg@ =~= path@.skip("/api/i18n/"@.len() as int));
        }
    }
    (kind, arg)
}

/// The path of a URL: what precedes the first `?`.
pub open spec fn url_path_spec(url: Seq<char>) -> Seq<char> {
    url.take(first_pos(url, '?'))
}

/// The query of a URL: what follows the first `?`, empty without one.
pub open spec fn url_query_spec(url: Seq<char>) -> Seq<char> {
    if first_pos(url, '?') < url.len() {
        url.skip(first_pos(url, '?') + 1)
    } else {
        Seq::empty()
    }
}

/// Splits a request URL into its path and its query.
pub fn split_url(url: &str) -> (r: (String, String))
    ensures
        r.0@ == url_path_spec(url@),
        r.1@ == url_query_spec(url@),
{
    let v = chars_of(url);
    let mut i: usize = 0;
    while i < v.len() && v[i] != '?'
        invariant
            v@ == url@,
            i <= v@.len(),
            forall|x: int| 0 <= x < i ==> v@[x] != '?',
        decreases v@.len() - i,
    {
        i = i + 1;
    }
    proof {
        lemma_first_pos(url@, '?', i as int);
    }
    let path = substring(url, 0, i);
    let query = if i < v.len() { substring(url, i + 1, v.len()) } else { String::new() };
    proof {
        assert(path@ =~= url@.take(i as int));
        if i < v.len() {
            assert(query@ =~= url@.skip(i + 1));
        }
    }
    (path, query)
}

/// The value of the first `lang=` pair of a query, from pair `k` on.
pub open spec fn query_lang_from(pairs: Seq<Seq<char>>, k: int) -> Option<Seq<char>>
    decreases pairs.len() - k,
{
    if k < 0 || k >= pairs.len() {
        None
    } else if starts_with_spec(pairs[k], "lang="@) {
        Some(pairs[k].skip("lang="@.len() as int))
    } else {
        query_lang_from(pairs, k + 1)
    }
}

/// The language a query asks for with `lang=`, if any.
pub fn query_lang(query: &str) -> (r: Option<String>)
    ensures
        match r {
            Some(s) => query_lang_from(split_spec(query@, seq!['&']), 0) == Some(s@),
            None => query_lang_from(split_spec(query@, seq!['&']), 0) is None,
        },
{
    let pairs = split_on(query, &['&']);
    let ghost pv = views(pairs@);
    proof {
        assert(seq!['&'] =~= (['&'])@);
        reveal_strlit("lang=");
    }
    let mut k: usize = 0;
    while k < pairs.len()
        invariant
            pv == views(pairs@),
            pv == split_spec(query@, seq!['&']),
            "lang="@.len() == 5,
            k <= pairs@.len(),
            query_lang_from(pv, 0) == query_lang_from(pv, k as int),
        decreases pairs@.len() - k,
    {
        assert(pv[k as int] == pairs@[k as int]@);
        if starts_with(pairs[k].as_str(), "lang=") {
            let n = chars_of(pairs[k].as_str()).len();
            let value = substring(pairs[k].as_str(), 5, n);
            assert(value@ =~= pv[k as int].skip(5));
            return Some(value);
        }
        k = k + 1;
    }
    None
}

/// The search depth of a scan request: 2 by default, kept within 1 to 6.
pub open spec fn scan_depth_spec(depth: Option<u64>) -> usize {
    let d = match depth {
        Some(d) => d,
        None => 2,
    };
    if d < 1 { 1 } else if d > 6 { 6 } else { d as usize }
}

pub fn scan_depth(depth: Option<u64>) -> (r: usize)
    ensures
        r == scan_depth_spec(depth),
{
    let d = match depth {
        Some(d) => d,
        None => 2,
    };
    if d < 1 {
        1
    } else if d > 6 {
        6
    } else {
        d as usize
    }
}

/// The workspace a scan request names, trimmed; `None` when it names none
/// or only white space.
pub fn requested_workspace(raw: Option<&str>) -> (r: Option<String>)
    ensures
        ({
            let t = trim_spec(match raw { Some(s) => s@, None => Seq::empty() });
            match r {
                Some(s) => t.len() > 0 && s@ == t,
                None => t.len() == 0,
            }
        }),
{
    let text = match raw {
        Some(s) => trim(s),
        None => {
            proof {
                assert(trim_spec(Seq::<char>::empty()) =~= Seq::<char>::empty()) by {
                    assert(crate::text::lead_len(Seq::<char>::empty(), crate::text::white()) == 0);
                }
            }
            String::new()
        },
    };
    if text.as_str().is_empty() {
        None
    } else {
        Some(text)
    }
}

} // verus!
