//! Per-root project metadata, keyed by project identifier, and the
//! freshness rule of the status cache.

use vstd::prelude::*;
use crate::model::AutomationLevel;
use crate::portfolio::PortfolioStatus;
use crate::text::{chars_of, starts_with};

verus! {

// ----- keyed entries -----

/// The value stored under `key`: the first entry with that key wins.
pub open spec fn lookup<V>(e: Seq<(String, V)>, key: Seq<char>) -> Option<V>
    decreases e.len(),
{
    if e.len() == 0 {
        None
    } else if e[0].0@ == key {
        Some(e[0].1)
    } else {
        lookup(e.subrange(1, e.len() as int), key)
    }
}

proof fn lemma_lookup_at<V>(e: Seq<(String, V)>, key: Seq<char>, i: int)
    requires
        0 <= i < e.len(),
        e[i].0@ == key,
        forall|j: int| 0 <= j < i ==> e[j].0@ != key,
    ensures
        lookup(e, key) == Some(e[i].1),
    decreases i,
{
    if i > 0 {
        let t = e.subrange(1, e.len() as int);
        assert forall|j: int| 0 <= j < i - 1 implies t[j].0@ != key by {
            assert(t[j] == e[j + 1]);
        }
        lemma_lookup_at(t, key, i - 1);
    }
}

proof fn lemma_lookup_none<V>(e: Seq<(String, V)>, key: Seq<char>)
    requires
        forall|j: int| 0 <= j < e.len() ==> e[j].0@ != key,
    ensures
        lookup(e, key) is None,
    decreases e.len(),
{
    if e.len() > 0 {
        let t = e.subrange(1, e.len() as int);
        assert forall|j: int| 0 <= j < t.len() implies t[j].0@ != key by {
            assert(t[j] == e[j + 1]);
        }
        lemma_lookup_none(t, key);
    }
}

proof fn lemma_lookup_update<V>(e: Seq<(String, V)>, i: int, v: V, key: Seq<char>)
    requires
        0 <= i < e.len(),
        forall|j: int| 0 <= j < i ==> e[j].0@ != e[i].0@,
    ensures
        lookup(e.update(i, (e[i].0, v)), key) == if key == e[i].0@ {
            Some(v)
        } else {
            lookup(e, key)
        },
    decreases i,
{
    let u = e.update(i, (e[i].0, v));
    if i > 0 {
        let t = e.subrange(1, e.len() as int);
        assert forall|j: int| 0 <= j < i - 1 implies (#[trigger] t[j]).0@ != t[i - 1].0@ by {
            assert(t[j] == e[j + 1]);
        }
        lemma_lookup_update(t, i - 1, v, key);
        assert(u.subrange(1, u.len() as int) =~= t.update(i - 1, (t[i - 1].0, v)));
        assert(u[0] == e[0]);
        assert(e[0].0@ != e[i].0@);
    } else {
        assert(u.subrange(1, u.len() as int) =~= e.subrange(1, e.len() as int));
    }
}

proof fn lemma_lookup_push<V>(e: Seq<(String, V)>, k: String, v: V, key: Seq<char>)
    ensures
        lookup(e, key) is Some ==> lookup(e.push((k, v)), key) == lookup(e, key),
        lookup(e, key) is None && key == k@ ==> lookup(e.push((k, v)), key) == Some(v),
        lookup(e, key) is None && key != k@ ==> lookup(e.push((k, v)), key) is None,
    decreases e.len(),
{
    let p = e.push((k, v));
    if e.len() > 0 {
        let t = e.subrange(1, e.len() as int);
        assert(p.subrange(1, p.len() as int) =~= t.push((k, v)));
        assert(p[0] == e[0]);
        lemma_lookup_push(t, k, v, key);
    } else {
        assert(p.subrange(1, p.len() as int) =~= Seq::<(String, V)>::empty());
        assert(p[0] == (k, v));
        assert(lookup(Seq::<(String, V)>::empty(), key) is None);
    }
}

/// Index of the first entry with key `key`, if any.
fn find_key<V>(e: &Vec<(String, V)>, key: &String) -> (r: Option<usize>)
    ensures
        r matches Some(i) ==> i < e@.len() && e@[i as int].0@ == key@ && forall|j: int|
            0 <= j < i ==> e@[j].0@ != key@,
        r is None ==> forall|j: int| 0 <= j < e@.len() ==> e@[j].0@ != key@,
        r matches Some(i) ==> lookup(e@, key@) == Some(e@[i as int].1),
        r is None ==> lookup(e@, key@) is None,
{
    let mut i: usize = 0;
    while i < e.len()
        invariant
            i <= e@.len(),
            forall|j: int| 0 <= j < i ==> e@[j].0@ != key@,
        decreases e.len() - i,
    {
        if e[i].0 == *key {
            proof {
                lemma_lookup_at(e@, key@, i as int);
            }
            return Some(i);
        }
        i += 1;
    }
    proof {
        lemma_lookup_none(e@, key@);
    }
    None
}

/// No two entries share a key.
pub open spec fn keys_unique<V>(e: Seq<(String, V)>) -> bool {
    forall|i: int, j: int| 0 <= i < j < e.len() ==> (#[trigger] e[i]).0@ != (#[trigger] e[j]).0@
}

proof fn lemma_unique_update<V>(e: Seq<(String, V)>, i: int, v: V)
    requires
        keys_unique(e),
        0 <= i < e.len(),
    ensures
        keys_unique(e.update(i, (e[i].0, v))),
{
    let u = e.update(i, (e[i].0, v));
    assert forall|a: int, b: int| 0 <= a < b < u.len() implies (#[trigger] u[a]).0@ != (
    #[trigger] u[b]).0@ by {
        assert(u[a].0 == e[a].0);
        assert(u[b].0 == e[b].0);
    }
}

proof fn lemma_unique_push<V>(e: Seq<(String, V)>, k: String, v: V)
    requires
        keys_unique(e),
        forall|j: int| 0 <= j < e.len() ==> e[j].0@ != k@,
    ensures
        keys_unique(e.push((k, v))),
{
    let u = e.push((k, v));
    assert forall|a: int, b: int| 0 <= a < b < u.len() implies (#[trigger] u[a]).0@ != (
    #[trigger] u[b]).0@ by {
        assert(u[a] == e[a]);
        if b < e.len() {
            assert(u[b] == e[b]);
        }
    }
}

/// Store `value` under `key`: the first entry with that key is replaced, or
/// a new entry is added at the end.
pub fn upsert<V>(e: &mut Vec<(String, V)>, key: String, value: V)
    ensures
        lookup(final(e)@, key@) == Some(value),
        forall|k: Seq<char>| k != key@ ==> lookup(final(e)@, k) == lookup(old(e)@, k),
        keys_unique(old(e)@) ==> keys_unique(final(e)@),
{
    match find_key(e, &key) {
        Some(i) => {
            let ghost old_e = e@;
            let k = e[i].0.clone();
            e.set(i, (k, value));
            proof {
                assert(e@ == old_e.update(i as int, (old_e[i as int].0, value)));
                if keys_unique(old_e) {
                    lemma_unique_update(old_e, i as int, value);
                }
                lemma_lookup_update(old_e, i as int, value, key@);
                assert forall|k: Seq<char>| k != key@ implies #[trigger] lookup(e@, k) == lookup(
                    old_e,
                    k,
                ) by {
                    lemma_lookup_update(old_e, i as int, value, k);
                }
            }
        },
        None => {
            let ghost old_e = e@;
            let ghost key_view = key@;
            e.push((key, value));
            proof {
                assert(e@ == old_e.push(e@.last()));
                if keys_unique(old_e) {
                    lemma_unique_push(old_e, e@.last().0, value);
                }
                lemma_lookup_push(old_e, e@.last().0, value, key_view);
                assert forall|k: Seq<char>| k != key_view implies #[trigger] lookup(e@, k)
                    == lookup(old_e, k) by {
                    lemma_lookup_push(old_e, e@.last().0, value, k);
                }
            }
        },
    }
}

// ----- project metadata -----

/// What is recorded about one project by hand.
#[derive(Debug)]
pub struct ProjectMeta {
    pub impact: Option<u8>,
    pub approved_by_human: bool,
    pub custom_commands: Vec<(String, String)>,
    pub agent_command: Option<String>,
    pub automation_level: Option<AutomationLevel>,
    pub auto_approve: Vec<String>,
}

impl ProjectMeta {
    /// Each custom command name appears once.
    pub open spec fn wf(self) -> bool {
        keys_unique(self.custom_commands@)
    }

    /// Nothing recorded.
    pub open spec fn is_blank(self) -> bool {
        self.impact is None && !self.approved_by_human && self.custom_commands@.len() == 0
            && self.agent_command is None && self.automation_level is None
            && self.auto_approve@.len() == 0
    }
}

impl Default for ProjectMeta {
    fn default() -> (r: ProjectMeta)
        ensures
            r.is_blank(),
            r.wf(),
    {
        ProjectMeta {
            impact: None,
            approved_by_human: false,
            custom_commands: Vec::new(),
            agent_command: None,
            automation_level: None,
            auto_approve: Vec::new(),
        }
    }
}

/// The metadata of every project under one root, keyed by project
/// identifier.
#[derive(Debug)]
pub struct ProjectMetaStore {
    pub version: String,
    pub projects: Vec<(String, ProjectMeta)>,
}

impl ProjectMetaStore {
    /// Each project identifier appears once, and each project's metadata is
    /// well formed.
    pub open spec fn wf(self) -> bool {
        entries_wf(self.projects@)
    }
}

/// Identifiers appear once and every entry's metadata is well formed.
pub open spec fn entries_wf(e: Seq<(String, ProjectMeta)>) -> bool {
    &&& keys_unique(e)
    &&& forall|i: int| 0 <= i < e.len() ==> (#[trigger] e[i]).1.wf()
}

proof fn lemma_entries_update(e: Seq<(String, ProjectMeta)>, i: int, m: ProjectMeta)
    requires
        entries_wf(e),
        0 <= i < e.len(),
        m.wf(),
    ensures
        entries_wf(e.update(i, (e[i].0, m))),
{
    lemma_unique_update(e, i, m);
    let u = e.update(i, (e[i].0, m));
    assert forall|j: int| 0 <= j < u.len() implies (#[trigger] u[j]).1.wf() by {
        if j != i {
            assert(u[j] == e[j]);
        }
    }
}

impl Default for ProjectMetaStore {
    fn default() -> (r: ProjectMetaStore)
        ensures
            r.wf(),
            r.version@ == "1.0.0"@,
            r.projects@.len() == 0,
    {
        ProjectMetaStore { version: String::from_str("1.0.0"), projects: Vec::new() }
    }
}

/// Why a metadata value could not be set.
#[derive(Debug, PartialEq, Eq)]
pub enum MetaError {
    UnknownKey { key: String },
    InvalidNumber { value: String },
    InvalidBool { value: String },
}

pub open spec fn is_ascii_digit(c: char) -> bool {
    '0' <= c && c <= '9'
}

/// The number written by the decimal digits `d`.
pub open spec fn digits_value(d: Seq<char>) -> nat
    decreases d.len(),
{
    if d.len() == 0 {
        0
    } else {
        digits_value(d.drop_last()) * 10 + ((d.last() as int) - ('0' as int)) as nat
    }
}

/// `s` without one leading `+`.
pub open spec fn unsigned_part(s: Seq<char>) -> Seq<char> {
    if s.len() > 0 && s[0] == '+' {
        s.subrange(1, s.len() as int)
    } else {
        s
    }
}

pub open spec fn all_digits(d: Seq<char>) -> bool {
    forall|i: int| 0 <= i < d.len() ==> is_ascii_digit(#[trigger] d[i])
}

/// What `str::parse::<u8>` accepts: an optional `+`, then one or more ASCII
/// digits whose value is at most 255.
pub open spec fn parsed_u8(s: Seq<char>) -> Option<u8> {
    let d = unsigned_part(s);
    if d.len() > 0 && all_digits(d) && digits_value(d) <= 255 {
        Some(digits_value(d) as u8)
    } else {
        None
    }
}

proof fn lemma_digits_grow(d: Seq<char>, n: int)
    requires
        0 <= n <= d.len(),
        forall|i: int| 0 <= i < d.len() ==> is_ascii_digit(#[trigger] d[i]),
    ensures
        digits_value(d.subrange(0, n)) <= digits_value(d),
    decreases d.len() - n,
{
    if n < d.len() {
        lemma_digits_grow(d, n + 1);
        assert(d.subrange(0, n + 1).drop_last() =~= d.subrange(0, n));
    } else {
        assert(d.subrange(0, n) =~= d);
    }
}

/// Parse a decimal `u8` as `str::parse::<u8>` does.
pub fn parse_u8(s: &str) -> (r: Option<u8>)
    ensures
        r == parsed_u8(s@),
{
    let chars = chars_of(s);
    let start: usize = if chars.len() > 0 && chars[0] == '+' {
        1
    } else {
        0
    };
    let ghost d = if chars@.len() > 0 && chars@[0] == '+' {
        chars@.subrange(1, chars@.len() as int)
    } else {
        chars@
    };
    assert(d =~= chars@.subrange(start as int, chars@.len() as int));
    if start == chars.len() {
        assert(d.len() == 0);
        return None;
    }
    let mut value: u32 = 0;
    let mut i: usize = start;
    while i < chars.len()
        invariant
            chars@ == s@,
            start <= i <= chars.len(),
            d == chars@.subrange(start as int, chars@.len() as int),
            d == unsigned_part(s@),
            d.len() > 0,
            forall|j: int| start <= j < i ==> is_ascii_digit(#[trigger] chars@[j]),
            value == digits_value(chars@.subrange(start as int, i as int)),
            value <= 255,
        decreases chars.len() - i,
    {
        let c = chars[i];
        if !('0' <= c && c <= '9') {
            assert(d[i - start] == chars@[i as int]);
            assert(!is_ascii_digit(d[i - start]));
            return None;
        }
        assert(chars@.subrange(start as int, i + 1).drop_last() =~= chars@.subrange(
            start as int,
            i as int,
        ));
        value = value * 10 + (c as u32 - '0' as u32);
        i += 1;
        if value > 255 {
            proof {
                if all_digits(d) {
                    lemma_digits_grow(d, i - start);
                    assert(d.subrange(0, i - start) =~= chars@.subrange(start as int, i as int));
                }
            }
            return None;
        }
    }
    assert(chars@.subrange(start as int, i as int) =~= d);
    Some(value as u8)
}

/// What `str::parse::<bool>` accepts: exactly `true` or `false`.
pub open spec fn parsed_bool(s: Seq<char>) -> Option<bool> {
    if s == "true"@ {
        Some(true)
    } else if s == "false"@ {
        Some(false)
    } else {
        None
    }
}

fn text_is(s: &Vec<char>, p: &str) -> (r: bool)
    ensures
        r == (s@ == p@),
{
    let m = p.unicode_len();
    if s.len() != m {
        return false;
    }
    let r = crate::text::occurs_at_exec(s, p, 0);
    assert(s@.subrange(0, m as int) =~= s@);
    r
}

/// Parse a boolean as `str::parse::<bool>` does.
pub fn parse_bool(s: &str) -> (r: Option<bool>)
    ensures
        r == parsed_bool(s@),
{
    let chars = chars_of(s);
    if text_is(&chars, "true") {
        Some(true)
    } else if text_is(&chars, "false") {
        Some(false)
    } else {
        None
    }
}

/// The key that a custom command `name` is set through.
pub open spec fn command_key_prefix() -> Seq<char> {
    "command."@
}

/// `a` and `b` agree on every field but those that `keep` leaves out:
/// 0 impact, 1 approval, 2 agent command, 3 custom commands; any other value
/// leaves none out.
pub open spec fn same_fields_but(a: ProjectMeta, b: ProjectMeta, keep: int) -> bool {
    &&& (keep != 0 ==> a.impact == b.impact)
    &&& (keep != 1 ==> a.approved_by_human == b.approved_by_human)
    &&& (keep != 2 ==> a.agent_command == b.agent_command)
    &&& (keep != 3 ==> a.custom_commands@ == b.custom_commands@)
    &&& a.automation_level == b.automation_level
    &&& a.auto_approve@ == b.auto_approve@
}

/// How setting `key` to `value` turns `m0` into `m1` with result `r`.
pub open spec fn setting_applied(
    m0: ProjectMeta,
    m1: ProjectMeta,
    key: Seq<char>,
    value: Seq<char>,
    r: Result<(), MetaError>,
) -> bool {
    if key == "impact"@ {
        match parsed_u8(value) {
            Some(n) => r is Ok && m1.impact == Some(n) && same_fields_but(m0, m1, 0),
            None => (r matches Err(MetaError::InvalidNumber { value: v }) && v@ == value)
                && same_fields_but(m0, m1, -1),
        }
    } else if key == "approved_by_human"@ {
        match parsed_bool(value) {
            Some(b) => r is Ok && m1.approved_by_human == b && same_fields_but(m0, m1, 1),
            None => (r matches Err(MetaError::InvalidBool { value: v }) && v@ == value)
                && same_fields_but(m0, m1, -1),
        }
    } else if key == "agent_command"@ {
        r is Ok && (m1.agent_command matches Some(c) && c@ == value) && same_fields_but(m0, m1, 2)
    } else if starts_with(key, command_key_prefix()) {
        let name = key.subrange(command_key_prefix().len() as int, key.len() as int);
        &&& r is Ok
        &&& lookup(m1.custom_commands@, name) matches Some(c) && c@ == value
        &&& forall|k: Seq<char>|
            k != name ==> #[trigger] lookup(m1.custom_commands@, k) == lookup(
                m0.custom_commands@,
                k,
            )
        &&& same_fields_but(m0, m1, 3)
    } else {
        (r matches Err(MetaError::UnknownKey { key: k }) && k@ == key) && same_fields_but(
            m0,
            m1,
            -1,
        )
    }
}

/// Apply one setting to the metadata of a project.
fn apply_setting(meta: &mut ProjectMeta, key: &str, value: String) -> (r: Result<(), MetaError>)
    ensures
        setting_applied(*old(meta), *final(meta), key@, value@, r),
        old(meta).wf() ==> final(meta).wf(),
{
    let k = chars_of(key);
    if text_is(&k, "impact") {
        match parse_u8(value.as_str()) {
            Some(n) => {
                meta.impact = Some(n);
                Ok(())
            },
            None => Err(MetaError::InvalidNumber { value }),
        }
    } else if text_is(&k, "approved_by_human") {
        match parse_bool(value.as_str()) {
            Some(b) => {
                meta.approved_by_human = b;
                Ok(())
            },
            None => Err(MetaError::InvalidBool { value }),
        }
    } else if text_is(&k, "agent_command") {
        meta.agent_command = Some(value);
        Ok(())
    } else if crate::text::starts_with_exec(&k, "command.") {
        let m = "command.".unicode_len();
        let name = String::from_str(key.substring_char(m, k.len()));
        upsert(&mut meta.custom_commands, name, value);
        Ok(())
    } else {
        Err(MetaError::UnknownKey { key: String::from_str(key) })
    }
}

impl ProjectMetaStore {
    /// Get metadata for a specific project.
    pub fn get_project(&self, project_id: &str) -> (r: Option<&ProjectMeta>)
        ensures
            r matches Some(m) ==> lookup(self.projects@, project_id@) == Some(*m),
            r is None ==> lookup(self.projects@, project_id@) is None,
    {
        let key = String::from_str(project_id);
        match find_key(&self.projects, &key) {
            Some(i) => Some(&self.projects[i].1),
            None => None,
        }
    }

    /// Index of the entry of `project_id`, added blank at the end if absent.
    fn entry_index(&mut self, project_id: &str) -> (i: usize)
        ensures
            final(self).version == old(self).version,
            i < final(self).projects@.len(),
            final(self).projects@[i as int].0@ == project_id@,
            forall|j: int| 0 <= j < i ==> final(self).projects@[j].0@ != project_id@,
            lookup(old(self).projects@, project_id@) matches Some(m) ==> final(self).projects@[i as int].1 == m,
            lookup(old(self).projects@, project_id@) is None ==> final(self).projects@[i as int].1.is_blank(),
            forall|j: int| 0 <= j < old(self).projects@.len() ==> final(self).projects@[j] == old(self).projects@[j],
            old(self).wf() ==> final(self).wf(),
            forall|k: Seq<char>|
                k != project_id@ ==> #[trigger] lookup(final(self).projects@, k) == lookup(
                    old(self).projects@,
                    k,
                ),
    {
        let key = String::from_str(project_id);
        match find_key(&self.projects, &key) {
            Some(i) => i,
            None => {
                let ghost old_e = self.projects@;
                self.projects.push((key, ProjectMeta::default()));
                proof {
                    let e = self.projects@;
                    assert(e == old_e.push(e.last()));
                    if keys_unique(old_e) {
                        lemma_unique_push(old_e, e.last().0, e.last().1);
                    }
                    assert forall|j: int| 0 <= j < e.len() && (forall|a: int| 0 <= a < old_e.len() ==> (#[trigger] old_e[a]).1.wf())
                        implies (#[trigger] e[j]).1.wf() by {
                        if j < old_e.len() {
                            assert(e[j] == old_e[j]);
                        }
                    }
                    assert forall|k: Seq<char>| k != project_id@ implies #[trigger] lookup(
                        self.projects@,
                        k,
                    ) == lookup(old_e, k) by {
                        lemma_lookup_push(old_e, e.last().0, e.last().1, k);
                    }
                }
                self.projects.len() - 1
            },
        }
    }

    /// Get the metadata of a project for change, adding blank metadata for
    /// it first if it has none.
    pub fn get_project_mut(&mut self, project_id: &str) -> (r: &mut ProjectMeta)
        ensures
            lookup(old(self).projects@, project_id@) matches Some(m) ==> *r == m,
            lookup(old(self).projects@, project_id@) is None ==> r.is_blank(),
            lookup(final(self).projects@, project_id@) == Some(*final(r)),
            forall|k: Seq<char>|
                k != project_id@ ==> #[trigger] lookup(final(self).projects@, k) == lookup(
                    old(self).projects@,
                    k,
                ),
            final(self).version == old(self).version,
            old(self).wf() ==> r.wf(),
            old(self).wf() && final(r).wf() ==> final(self).wf(),
    {
        let i = self.entry_index(project_id);
        let ghost mid = self.projects@;
        let r = &mut self.projects[i].1;
        proof {
            if entries_wf(mid) {
                assert(mid[i as int].1.wf());
                if final(r).wf() {
                    lemma_entries_update(mid, i as int, *final(r));
                }
            }
            lemma_lookup_update(mid, i as int, *final(r), project_id@);
            assert forall|k: Seq<char>| k != project_id@ implies #[trigger] lookup(
                mid.update(i as int, (mid[i as int].0, *final(r))),
                k,
            ) == lookup(mid, k) by {
                lemma_lookup_update(mid, i as int, *final(r), k);
            }
        }
        r
    }

    /// Set a value for a project: `impact` takes a number, `approved_by_human`
    /// a boolean, `agent_command` any text, and `command.<name>` stores a
    /// custom command under `<name>`; any other key is refused. The project
    /// gets an entry in any case.
    pub fn set_value(&mut self, project_id: &str, key: &str, value: String) -> (r: Result<(), MetaError>)
        ensures
            final(self).version == old(self).version,
            old(self).wf() ==> final(self).wf(),
            lookup(final(self).projects@, project_id@) matches Some(m1) && match lookup(
                old(self).projects@,
                project_id@,
            ) {
                Some(m0) => setting_applied(m0, m1, key@, value@, r),
                None => exists|m0: ProjectMeta| m0.is_blank() && setting_applied(m0, m1, key@, value@, r),
            },
            forall|k: Seq<char>|
                k != project_id@ ==> #[trigger] lookup(final(self).projects@, k) == lookup(
                    old(self).projects@,
                    k,
                ),
    {
        let meta = self.get_project_mut(project_id);
        let ghost m0 = *meta;
        let r = apply_setting(meta, key, value);
        proof {
            assert(setting_applied(m0, *meta, key@, value@, r));
        }
        r
    }
}

// ----- the status cache -----

/// A cached snapshot stays fresh for five minutes.
pub const CACHE_FRESH_SECONDS: i64 = 300;

/// A snapshot written at `written` is still fresh at `now`.
pub open spec fn fresh(written: i64, now: i64) -> bool {
    now - written < CACHE_FRESH_SECONDS
}

/// Whether a snapshot written at `written` may still be used at `now`.
pub fn is_fresh(written: i64, now: i64) -> (r: bool)
    ensures
        r == fresh(written, now),
{
    (now as i128) - (written as i128) < CACHE_FRESH_SECONDS as i128
}

/// A snapshot written at time `t` is used for any query from `t` until five
/// minutes later, and never from then on.
pub proof fn lemma_cache_window(t: i64, now: i64)
    ensures
        t <= now < t + CACHE_FRESH_SECONDS ==> fresh(t, now),
        now >= t + CACHE_FRESH_SECONDS ==> !fresh(t, now),
{
}

/// The last portfolio snapshot with the time it was written, in seconds
/// since the Unix epoch.
#[derive(Debug)]
pub struct StatusCache {
    pub last_updated: i64,
    pub data: PortfolioStatus,
}

impl StatusCache {
    /// The cache if it is still fresh at `now`.
    pub fn fresh_at(self, now: i64) -> (r: Option<StatusCache>)
        ensures
            r is Some <==> fresh(self.last_updated, now),
            r matches Some(c) ==> c == self,
    {
        if is_fresh(self.last_updated, now) {
            Some(self)
        } else {
            None
        }
    }
}

} // verus!
