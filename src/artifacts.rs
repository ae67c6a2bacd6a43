//! Resolution of a project's four artifacts across the direct layout and
//! numbered feature directories, and the preference between two roots.

use vstd::prelude::*;
use crate::model::{ArtifactStatus, FileInfo};
use crate::text::{chars_of, trim, trim_chars};

verus! {

/// What the canonical file names inside one directory lead to: the
/// constitution at the top, the one under `memory/`, and the other three.
#[derive(Debug)]
pub struct DirectProbe {
    pub constitution: Option<FileInfo>,
    pub memory_constitution: Option<FileInfo>,
    pub spec: Option<FileInfo>,
    pub plan: Option<FileInfo>,
    pub tasks: Option<FileInfo>,
}

/// Artifacts of the direct layout: the constitution at the top of the
/// directory is preferred to the one under `memory/`.
pub open spec fn direct_artifacts(p: DirectProbe) -> ArtifactStatus {
    ArtifactStatus {
        constitution: if p.constitution is Some {
            p.constitution
        } else {
            p.memory_constitution
        },
        spec: p.spec,
        plan: p.plan,
        tasks: p.tasks,
    }
}

/// Resolve the artifacts found directly inside one directory.
pub fn check_direct_artifacts(probe: DirectProbe) -> (r: ArtifactStatus)
    ensures
        r == direct_artifacts(probe),
{
    let constitution = match probe.constitution {
        Some(c) => Some(c),
        None => probe.memory_constitution,
    };
    ArtifactStatus { constitution, spec: probe.spec, plan: probe.plan, tasks: probe.tasks }
}

/// Check if an artifact set has any artifact.
pub fn has_any_artifact(status: &ArtifactStatus) -> (r: bool)
    ensures
        r == status.any_present(),
{
    status.constitution.is_some() || status.spec.is_some() || status.plan.is_some()
        || status.tasks.is_some()
}

/// Whether a file's text is more than whitespace.
pub open spec fn content_valid(content: Seq<char>) -> bool {
    trim(content).len() > 0
}

/// A file is valid when its trimmed content is not empty.
pub fn validate_content(content: &str) -> (r: bool)
    ensures
        r == content_valid(content@),
{
    let chars = chars_of(content);
    let t = trim_chars(&chars);
    t.len() > 0
}

// ----- numbered feature directories -----

pub open spec fn is_digit(c: char) -> bool {
    '0' <= c && c <= '9'
}

/// A feature directory's name: it has at least three characters and the
/// first three are decimal digits.
pub open spec fn feature_name(n: Seq<char>) -> bool {
    n.len() >= 3 && forall|i: int| 0 <= i < 3 ==> is_digit(#[trigger] n[i])
}

/// Whether a directory name marks a numbered feature directory.
pub fn is_feature_dir_name(name: &str) -> (r: bool)
    ensures
        r == feature_name(name@),
{
    let chars = chars_of(name);
    if chars.len() < 3 {
        return false;
    }
    let mut i: usize = 0;
    while i < 3
        invariant
            chars@ == name@,
            i <= 3 <= chars.len(),
            forall|j: int| 0 <= j < i ==> is_digit(#[trigger] chars@[j]),
        decreases 3 - i,
    {
        if !('0' <= chars[i] && chars[i] <= '9') {
            return false;
        }
        i += 1;
    }
    true
}

/// One subdirectory: its name, whether it is a directory, and the artifacts
/// found directly inside it.
#[derive(Debug)]
pub struct FeatureDir {
    pub name: String,
    pub is_dir: bool,
    pub artifacts: ArtifactStatus,
}

/// Which of the three per-feature artifacts is meant.
#[derive(Debug, Clone, Copy, PartialEq, Eq, Structural)]
pub enum Slot {
    Spec,
    Plan,
    Tasks,
}

pub open spec fn slot_of(a: ArtifactStatus, which: Slot) -> Option<FileInfo> {
    match which {
        Slot::Spec => a.spec,
        Slot::Plan => a.plan,
        Slot::Tasks => a.tasks,
    }
}

fn slot_ref(a: &ArtifactStatus, which: Slot) -> (r: &Option<FileInfo>)
    ensures
        *r == slot_of(*a, which),
{
    match which {
        Slot::Spec => &a.spec,
        Slot::Plan => &a.plan,
        Slot::Tasks => &a.tasks,
    }
}

/// Strict lexicographic order of names, character by character.
pub open spec fn lex_lt(a: Seq<char>, b: Seq<char>) -> bool
    decreases a.len(),
{
    if a.len() == 0 {
        b.len() > 0
    } else if b.len() == 0 {
        false
    } else if a[0] != b[0] {
        (a[0] as int) < (b[0] as int)
    } else {
        lex_lt(a.subrange(1, a.len() as int), b.subrange(1, b.len() as int))
    }
}

pub proof fn lemma_lex_asym(a: Seq<char>, b: Seq<char>)
    requires
        lex_lt(a, b),
    ensures
        !lex_lt(b, a),
        a != b,
    decreases a.len(),
{
    if a.len() > 0 && b.len() > 0 && a[0] == b[0] {
        lemma_lex_asym(a.subrange(1, a.len() as int), b.subrange(1, b.len() as int));
    }
}

pub proof fn lemma_lex_trans(a: Seq<char>, b: Seq<char>, c: Seq<char>)
    requires
        lex_lt(a, b),
        lex_lt(b, c),
    ensures
        lex_lt(a, c),
    decreases a.len(),
{
    if a.len() > 0 && b.len() > 0 && c.len() > 0 && a[0] == b[0] && b[0] == c[0] {
        lemma_lex_trans(
            a.subrange(1, a.len() as int),
            b.subrange(1, b.len() as int),
            c.subrange(1, c.len() as int),
        );
    }
}

pub proof fn lemma_lex_total(a: Seq<char>, b: Seq<char>)
    requires
        a != b,
    ensures
        lex_lt(a, b) || lex_lt(b, a),
    decreases a.len(),
{
    if a.len() > 0 && b.len() > 0 && a[0] == b[0] {
        let ta = a.subrange(1, a.len() as int);
        let tb = b.subrange(1, b.len() as int);
        if ta == tb {
            assert(ta.len() == a.len() - 1);
            assert(tb.len() == b.len() - 1);
            assert(a.len() == b.len());
            assert(a =~= b) by {
                assert forall|i: int| 0 <= i < a.len() implies a[i] == b[i] by {
                    if i > 0 {
                        assert(a[i] == ta[i - 1]);
                        assert(b[i] == tb[i - 1]);
                    }
                }
            }
        }
        lemma_lex_total(ta, tb);
    } else if a.len() == 0 && b.len() == 0 {
        assert(a =~= b);
    } else if a.len() > 0 && b.len() > 0 {
        assert((a[0] as int) != (b[0] as int));
    }
}

/// Whether `a` comes before `b` in lexicographic order.
pub fn lex_less(a: &Vec<char>, b: &Vec<char>) -> (r: bool)
    ensures
        r == lex_lt(a@, b@),
{
    let mut i: usize = 0;
    assert(a@.subrange(0, a@.len() as int) =~= a@);
    assert(b@.subrange(0, b@.len() as int) =~= b@);
    while i < a.len() && i < b.len() && a[i] == b[i]
        invariant
            i <= a.len(),
            i <= b.len(),
            lex_lt(a@, b@) == lex_lt(
                a@.subrange(i as int, a@.len() as int),
                b@.subrange(i as int, b@.len() as int),
            ),
        decreases a.len() - i,
    {
        let ghost sa = a@.subrange(i as int, a@.len() as int);
        let ghost sb = b@.subrange(i as int, b@.len() as int);
        assert(sa.subrange(1, sa.len() as int) =~= a@.subrange(i + 1, a@.len() as int));
        assert(sb.subrange(1, sb.len() as int) =~= b@.subrange(i + 1, b@.len() as int));
        i += 1;
    }
    if i == a.len() {
        i < b.len()
    } else if i == b.len() {
        false
    } else {
        let ghost sa = a@.subrange(i as int, a@.len() as int);
        let ghost sb = b@.subrange(i as int, b@.len() as int);
        assert(sa[0] == a@[i as int] && sb[0] == b@[i as int]);
        a[i] < b[i]
    }
}

/// Entry `k` is a numbered feature directory holding the artifact `which`.
pub open spec fn candidate(dirs: Seq<FeatureDir>, k: int, which: Slot) -> bool {
    0 <= k < dirs.len() && dirs[k].is_dir && feature_name(dirs[k].name@) && slot_of(
        dirs[k].artifacts,
        which,
    ) is Some
}

/// Entry `j` is older than entry `k`: its name sorts first, or the names are
/// equal and `j` was listed first.
pub open spec fn precedes(dirs: Seq<FeatureDir>, j: int, k: int) -> bool {
    lex_lt(dirs[j].name@, dirs[k].name@) || (dirs[j].name@ == dirs[k].name@ && j < k)
}

/// Entry `k` is the newest of the feature directories holding `which`.
pub open spec fn is_newest(dirs: Seq<FeatureDir>, k: int, which: Slot) -> bool {
    candidate(dirs, k, which) && forall|j: int|
        #![trigger candidate(dirs, j, which)]
        candidate(dirs, j, which) && j != k ==> precedes(dirs, j, k)
}

/// The artifact `which` of the newest feature directory that holds one.
pub open spec fn newest(dirs: Seq<FeatureDir>, which: Slot) -> Option<FileInfo> {
    if exists|k: int| is_newest(dirs, k, which) {
        slot_of(dirs[choose|k: int| is_newest(dirs, k, which)].artifacts, which)
    } else {
        None
    }
}

proof fn lemma_precedes_trans(dirs: Seq<FeatureDir>, a: int, b: int, c: int)
    requires
        precedes(dirs, a, b),
        precedes(dirs, b, c),
    ensures
        precedes(dirs, a, c),
{
    if lex_lt(dirs[a].name@, dirs[b].name@) && lex_lt(dirs[b].name@, dirs[c].name@) {
        lemma_lex_trans(dirs[a].name@, dirs[b].name@, dirs[c].name@);
    }
}

proof fn lemma_newest_unique(dirs: Seq<FeatureDir>, k1: int, k2: int, which: Slot)
    requires
        is_newest(dirs, k1, which),
        is_newest(dirs, k2, which),
    ensures
        k1 == k2,
{
    if k1 != k2 {
        assert(candidate(dirs, k1, which));
        assert(candidate(dirs, k2, which));
        assert(precedes(dirs, k1, k2));
        assert(precedes(dirs, k2, k1));
        if lex_lt(dirs[k1].name@, dirs[k2].name@) {
            lemma_lex_asym(dirs[k1].name@, dirs[k2].name@);
        } else if lex_lt(dirs[k2].name@, dirs[k1].name@) {
            lemma_lex_asym(dirs[k2].name@, dirs[k1].name@);
        }
    }
}

proof fn lemma_newest_is(dirs: Seq<FeatureDir>, k: int, which: Slot)
    requires
        is_newest(dirs, k, which),
    ensures
        newest(dirs, which) == slot_of(dirs[k].artifacts, which),
{
    let c = choose|k: int| is_newest(dirs, k, which);
    lemma_newest_unique(dirs, c, k, which);
}

/// Index of the newest numbered feature directory holding `which`.
fn newest_index(dirs: &Vec<FeatureDir>, which: Slot) -> (r: Option<usize>)
    ensures
        r matches Some(k) ==> is_newest(dirs@, k as int, which),
        r is None ==> forall|j: int| !candidate(dirs@, j, which),
{
    let mut best: Option<usize> = None;
    let mut i: usize = 0;
    while i < dirs.len()
        invariant
            i <= dirs.len(),
            best is None ==> forall|j: int| 0 <= j < i ==> !candidate(dirs@, j, which),
            best matches Some(k) ==> k < i && candidate(dirs@, k as int, which) && forall|j: int|
                #![trigger candidate(dirs@, j, which)]
                0 <= j < i && candidate(dirs@, j, which) && j != k ==> precedes(dirs@, j, k as int),
        decreases dirs.len() - i,
    {
        let d = &dirs[i];
        if d.is_dir && is_feature_dir_name(d.name.as_str()) && slot_ref(&d.artifacts, which).is_some() {
            assert(candidate(dirs@, i as int, which));
            match best {
                None => {
                    best = Some(i);
                },
                Some(k) => {
                    let name_i = chars_of(d.name.as_str());
                    let name_k = chars_of(dirs[k].name.as_str());
                    if !lex_less(&name_i, &name_k) {
                        proof {
                            let ni = dirs@[i as int].name@;
                            let nk = dirs@[k as int].name@;
                            if ni != nk {
                                lemma_lex_total(ni, nk);
                            }
                            assert(precedes(dirs@, k as int, i as int));
                            assert forall|j: int|
                                #![trigger candidate(dirs@, j, which)]
                                0 <= j < i + 1 && candidate(dirs@, j, which) && j != i implies precedes(
                                dirs@,
                                j,
                                i as int,
                            ) by {
                                if j != k {
                                    lemma_precedes_trans(dirs@, j, k as int, i as int);
                                }
                            }
                        }
                        best = Some(i);
                    }
                },
            }
        }
        i += 1;
    }
    proof {
        assert forall|j: int| best is None implies !candidate(dirs@, j, which) by {
            if 0 <= j < i {
            }
        }
    }
    best
}

fn copy_file(o: &Option<FileInfo>) -> (r: Option<FileInfo>)
    ensures
        r == *o,
{
    match o {
        Some(f) => Some(f.clone()),
        None => None,
    }
}

fn newest_slot(dirs: &Vec<FeatureDir>, which: Slot) -> (r: Option<FileInfo>)
    ensures
        r == newest(dirs@, which),
{
    match newest_index(dirs, which) {
        Some(k) => {
            proof {
                lemma_newest_is(dirs@, k as int, which);
            }
            copy_file(slot_ref(&dirs[k].artifacts, which))
        },
        None => None,
    }
}

/// The artifacts gathered from the feature directories, with the
/// constitution found beside the root.
pub open spec fn aggregated(dirs: Seq<FeatureDir>, root_constitution: Option<FileInfo>) -> ArtifactStatus {
    ArtifactStatus {
        constitution: root_constitution,
        spec: newest(dirs, Slot::Spec),
        plan: newest(dirs, Slot::Plan),
        tasks: newest(dirs, Slot::Tasks),
    }
}

/// The artifacts of one candidate root: the direct layout when it has any
/// artifact, the feature directories otherwise.
pub open spec fn resolved(
    direct: ArtifactStatus,
    dirs: Seq<FeatureDir>,
    root_constitution: Option<FileInfo>,
) -> ArtifactStatus {
    if direct.any_present() {
        direct
    } else {
        aggregated(dirs, root_constitution)
    }
}

/// Resolve the artifacts of one root directory. `direct` is what its direct
/// layout holds; `dirs` are its subdirectories; `root_constitution` is the
/// constitution kept in the memory directory beside the root, if any.
pub fn parse_artifacts(
    direct: ArtifactStatus,
    dirs: &Vec<FeatureDir>,
    root_constitution: Option<FileInfo>,
) -> (r: ArtifactStatus)
    ensures
        r == resolved(direct, dirs@, root_constitution),
{
    if has_any_artifact(&direct) {
        return direct;
    }
    let spec = newest_slot(dirs, Slot::Spec);
    let plan = newest_slot(dirs, Slot::Plan);
    let tasks = newest_slot(dirs, Slot::Tasks);
    ArtifactStatus { constitution: root_constitution, spec, plan, tasks }
}

/// The visible root is used when it yields any artifact; otherwise the hidden
/// root's artifacts are.
pub open spec fn preferred_root(visible: ArtifactStatus, hidden: ArtifactStatus) -> ArtifactStatus {
    if visible.any_present() {
        visible
    } else {
        hidden
    }
}

/// Choose between the artifacts of the visible and the hidden root.
pub fn select_artifacts(visible: ArtifactStatus, hidden: ArtifactStatus) -> (r: ArtifactStatus)
    ensures
        r == preferred_root(visible, hidden),
{
    if has_any_artifact(&visible) {
        visible
    } else {
        hidden
    }
}

/// Whenever the direct layout of a root holds any artifact, it is the
/// result, whatever the feature directories hold.
pub proof fn lemma_direct_layout_wins(
    direct: ArtifactStatus,
    dirs: Seq<FeatureDir>,
    root_constitution: Option<FileInfo>,
)
    requires
        direct.any_present(),
    ensures
        resolved(direct, dirs, root_constitution) == direct,
{
}

/// Among numbered feature directories that hold an artifact, the one whose
/// name sorts last supplies it, when the direct layout is empty.
pub proof fn lemma_latest_feature_wins(
    direct: ArtifactStatus,
    dirs: Seq<FeatureDir>,
    root_constitution: Option<FileInfo>,
    k: int,
    which: Slot,
)
    requires
        !direct.any_present(),
        candidate(dirs, k, which),
        forall|j: int|
            #![trigger candidate(dirs, j, which)]
            candidate(dirs, j, which) && j != k ==> lex_lt(dirs[j].name@, dirs[k].name@),
    ensures
        slot_of(resolved(direct, dirs, root_constitution), which) == slot_of(dirs[k].artifacts, which),
{
    assert(is_newest(dirs, k, which));
    lemma_newest_is(dirs, k, which);
}

} // verus!
