//! Small text pieces of the portfolio report.

use vstd::prelude::*;
use vstd::string::*;
use vstd::utf8::{encode_utf8, is_char_boundary};
use crate::model::HumanRequirement;
use crate::portfolio::Project;

verus! {

/// The name under which a requirement is shown.
pub open spec fn requirement_text(r: HumanRequirement) -> Seq<char> {
    match r {
        HumanRequirement::Review => "Review"@,
        HumanRequirement::Input => "Input"@,
        HumanRequirement::Fix => "Fix"@,
        HumanRequirement::Test => "Test"@,
        HumanRequirement::Deploy => "Deploy"@,
        HumanRequirement::Decision => "Decision"@,
    }
}

/// The name of a requirement.
pub fn requirement_name(r: &HumanRequirement) -> (s: &'static str)
    ensures
        s@ == requirement_text(*r),
{
    match r {
        HumanRequirement::Review => "Review",
        HumanRequirement::Input => "Input",
        HumanRequirement::Fix => "Fix",
        HumanRequirement::Test => "Test",
        HumanRequirement::Deploy => "Deploy",
        HumanRequirement::Decision => "Decision",
    }
}

/// The names of `reqs` joined by `", "`.
pub open spec fn joined_requirements(reqs: Seq<HumanRequirement>) -> Seq<char>
    decreases reqs.len(),
{
    if reqs.len() == 0 {
        Seq::empty()
    } else if reqs.len() == 1 {
        requirement_text(reqs[0])
    } else {
        joined_requirements(reqs.drop_last()) + ", "@ + requirement_text(reqs.last())
    }
}

/// List requirements by name, separated by commas.
pub fn format_requirements(reqs: &[HumanRequirement]) -> (r: String)
    ensures
        r@ == joined_requirements(reqs@),
{
    let mut out = String::new();
    let mut k: usize = 0;
    while k < reqs.len()
        invariant
            k <= reqs@.len(),
            out@ == joined_requirements(reqs@.take(k as int)),
        decreases reqs.len() - k,
    {
        assert(reqs@.take(k + 1).drop_last() =~= reqs@.take(k as int));
        if k > 0 {
            out.append(", ");
        }
        out.append(requirement_name(&reqs[k]));
        proof {
            if k == 0 {
                assert(out@ =~= requirement_text(reqs@[0]));
            }
        }
        k += 1;
    }
    assert(reqs@.take(k as int) =~= reqs@);
    out
}

/// Shorten `s` to at most `max_len` bytes: a longer text keeps its first
/// `max_len - 3` bytes followed by `...`.
pub fn truncate(s: &str, max_len: usize) -> (r: String)
    requires
        encode_utf8(s@).len() <= max_len || (max_len >= 3 && is_char_boundary(
            encode_utf8(s@),
            max_len - 3,
        )),
    ensures
        encode_utf8(s@).len() <= max_len ==> r@ == s@,
        encode_utf8(s@).len() > max_len ==> exists|head: Seq<char>|
            encode_utf8(head) == encode_utf8(s@).subrange(0, max_len - 3) && r@ == head + "..."@,
{
    if s.as_bytes().len() <= max_len {
        String::from_str(s)
    } else {
        let (head, _) = s.split_at(max_len - 3);
        let r = String::from_str(head).concat("...");
        proof {
            assert(head.spec_bytes() == encode_utf8(head@));
            assert(encode_utf8(head@) == encode_utf8(s@).subrange(0, max_len - 3));
            assert(r@ == head@ + "..."@);
        }
        r
    }
}

/// Project `a` is listed before project `b`: its priority is higher, or
/// equal and it came first.
pub open spec fn listed_before(ps: Seq<Project>, a: int, b: int) -> bool {
    ps[a].priority > ps[b].priority || (ps[a].priority == ps[b].priority && a < b)
}

/// `order` lists each index of `ps` once, highest priority first, keeping
/// order in which they were listed among equal priorities.
pub open spec fn is_priority_order(ps: Seq<Project>, order: Seq<usize>) -> bool {
    &&& order.len() == ps.len()
    &&& forall|i: int| 0 <= i < order.len() ==> #[trigger] order[i] < ps.len()
    &&& forall|i: int, j: int| 0 <= i < j < order.len() ==> order[i] != order[j]
    &&& forall|i: int, j: int|
        0 <= i < j < order.len() ==> listed_before(ps, #[trigger] order[i] as int, #[trigger] order[j] as int)
}

/// Indices of the projects from highest to lowest priority; projects of
/// equal priority keep their order.
pub fn priority_order(projects: &Vec<Project>) -> (r: Vec<usize>)
    ensures
        is_priority_order(projects@, r@),
{
    let ghost ps = projects@;
    let mut order: Vec<usize> = Vec::new();
    let mut k: usize = 0;
    while k < projects.len()
        invariant
            ps == projects@,
            k <= ps.len(),
            order@.len() == k,
            forall|i: int| 0 <= i < order@.len() ==> #[trigger] order@[i] < k,
            forall|i: int, j: int| 0 <= i < j < order@.len() ==> order@[i] != order@[j],
            forall|i: int, j: int|
                0 <= i < j < order@.len() ==> listed_before(ps, #[trigger] order@[i] as int, #[trigger] order@[j] as int),
        decreases ps.len() - k,
    {
        let pk = projects[k].priority;
        let mut pos: usize = 0;
        while pos < order.len() && projects[order[pos]].priority >= pk
            invariant
                ps == projects@,
                k < ps.len(),
                pk == ps[k as int].priority,
                pos <= order@.len(),
                forall|i: int| 0 <= i < order@.len() ==> #[trigger] order@[i] < k,
                forall|i: int| 0 <= i < pos ==> ps[#[trigger] order@[i] as int].priority >= pk,
            decreases order@.len() - pos,
        {
            pos += 1;
        }
        let ghost old_order = order@;
        proof {
            assert forall|i: int| pos <= i < old_order.len() implies ps[#[trigger] old_order[i] as int].priority
                < pk by {
                if i > pos {
                    assert(listed_before(ps, old_order[pos as int] as int, old_order[i] as int));
                }
            }
        }
        order.insert(pos, k);
        proof {
            let o = order@;
            assert(o == old_order.insert(pos as int, k));
            assert forall|i: int| 0 <= i < o.len() implies #[trigger] o[i] < k + 1 by {
                if i < pos {
                    assert(o[i] == old_order[i]);
                } else if i > pos {
                    assert(o[i] == old_order[i - 1]);
                }
            }
            assert forall|i: int, j: int| 0 <= i < j < o.len() implies o[i] != o[j] by {
                if i < pos {
                    assert(o[i] == old_order[i]);
                }
                if i > pos {
                    assert(o[i] == old_order[i - 1]);
                }
                if j < pos {
                    assert(o[j] == old_order[j]);
                }
                if j > pos {
                    assert(o[j] == old_order[j - 1]);
                }
            }
            assert forall|i: int, j: int| 0 <= i < j < o.len() implies listed_before(
                ps,
                #[trigger] o[i] as int,
                #[trigger] o[j] as int,
            ) by {
                if i < pos {
                    assert(o[i] == old_order[i]);
                }
                if i > pos {
                    assert(o[i] == old_order[i - 1]);
                }
                if j < pos {
                    assert(o[j] == old_order[j]);
                }
                if j > pos {
                    assert(o[j] == old_order[j - 1]);
                }
            }
        }
        k += 1;
    }
    order
}

} // verus!
