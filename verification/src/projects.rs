//! The project list: adding, deleting, choosing the project being worked
//! on, and the names and labels shown for them.

use vstd::prelude::*;
use vstd::string::*;
use crate::text::{is_blank, is_blank_text, decimal, decimal_text};

verus! {

/// Where a project stands.
#[derive(Clone, Copy, Debug, PartialEq, Eq, Structural)]
pub enum ProjectStatus {
    Planned,
    InProgress,
    Completed,
}

/// A project that focus sessions can be spent on.
#[derive(Clone, Debug)]
pub struct Project {
    pub id: String,
    pub name: String,
    pub status: ProjectStatus,
    /// Estimated effort, in hours.
    pub eta_hours: u32,
    /// Progress, in percent.
    pub progress: u32,
}

/// A lowercase hexadecimal digit.
pub open spec fn is_lower_hex(c: char) -> bool {
    ('0' <= c && c <= '9') || ('a' <= c && c <= 'f')
}

/// The text of a random (version 4) UUID in its hyphenated lowercase form,
/// like `67e55044-10b1-426f-9247-bb680e5fe0c8`.
pub open spec fn is_uuid_v4_text(s: Seq<char>) -> bool {
    &&& s.len() == 36
    &&& forall|i: int| 0 <= i < 36 ==> if i == 8 || i == 13 || i == 18 || i == 23 {
        #[trigger] s[i] == '-'
    } else {
        is_lower_hex(s[i])
    }
    &&& s[14] == '4'
    &&& (s[19] == '8' || s[19] == '9' || s[19] == 'a' || s[19] == 'b')
}

/// A fresh project id: `uuid::Uuid::new_v4()` written with `to_string`.
/// Trusted: the uuid crate sets the version nibble to 4 and the variant bits
/// to `10`, and writes a `Uuid` as 32 lowercase hex digits grouped 8-4-4-4-12
/// with hyphens. Which id comes out is random and is not stated; the call
/// panics only if the system's random source fails.
#[verifier::external_body]
fn random_project_id() -> (id: String)
    ensures
        is_uuid_v4_text(id@),
{
    uuid::Uuid::new_v4().to_string()
}

/// The project to add: planned, with no progress.
pub open spec fn new_project(id: String, name: String, eta_hours: u32) -> Project {
    Project { id, name, status: ProjectStatus::Planned, eta_hours, progress: 0 }
}

/// Adds a project with the given id, unless its name is blank (empty once
/// trimmed), in which case nothing is added. The name is kept as typed.
pub fn add_project(list: &mut Vec<Project>, id: String, name: String, eta_hours: u32) -> (added: bool)
    ensures
        added == !is_blank_text(name@),
        added ==> final(list)@ == old(list)@.push(new_project(id, name, eta_hours)),
        added ==> final(list)@.last().id == id && final(list)@.last().name == name,
        added ==> final(list)@.last().status == ProjectStatus::Planned && final(list)@.last().progress == 0,
        added ==> final(list)@.last().eta_hours == eta_hours,
        !added ==> final(list)@ == old(list)@,
{
    if is_blank(name.as_str()) {
        return false;
    }
    list.push(Project { id, name, status: ProjectStatus::Planned, eta_hours, progress: 0 });
    true
}

/// Creates a project from the form: a blank name adds nothing; otherwise a
/// planned project with a fresh random id and no progress goes at the end.
pub fn create_project(list: &mut Vec<Project>, name: String, eta_hours: u32) -> (added: bool)
    ensures
        added == !is_blank_text(name@),
        !added ==> final(list)@ == old(list)@,
        added ==> {
            &&& final(list)@.len() == old(list)@.len() + 1
            &&& final(list)@.take(old(list)@.len() as int) == old(list)@
            &&& final(list)@.last().name == name
            &&& final(list)@.last().status == ProjectStatus::Planned
            &&& final(list)@.last().eta_hours == eta_hours
            &&& final(list)@.last().progress == 0
            &&& is_uuid_v4_text(final(list)@.last().id@)
        },
{
    if is_blank(name.as_str()) {
        return false;
    }
    let id = random_project_id();
    let added = add_project(list, id, name, eta_hours);
    assert(list@.take(old(list)@.len() as int) =~= old(list)@);
    added
}

/// The projects that survive deleting `id`.
pub open spec fn keeps(id: Seq<char>) -> spec_fn(Project) -> bool {
    |p: Project| p.id@ != id
}

/// Whether the chosen project is the one with the given id.
pub open spec fn is_chosen(active: Option<String>, id: Seq<char>) -> bool {
    active is Some && active->0@ == id
}

fn is_chosen_id(active: &Option<String>, id: &String) -> (b: bool)
    ensures
        b == is_chosen(*active, id@),
{
    match active {
        Some(a) => *a == *id,
        None => false,
    }
}

/// Deletes every project with the given id, keeping the others in order; if
/// the deleted project was the one being worked on, none is any more.
pub fn delete_project(list: &mut Vec<Project>, active: &mut Option<String>, id: &String)
    ensures
        final(list)@ == old(list)@.filter(keeps(id@)),
        forall|j: int| 0 <= j < final(list)@.len() ==> (#[trigger] final(list)@[j]).id@ != id@,
        forall|j: int| 0 <= j < old(list)@.len() && (#[trigger] old(list)@[j]).id@ != id@
            ==> final(list)@.contains(old(list)@[j]),
        *final(active) == if is_chosen(*old(active), id@) { None } else { *old(active) },
{
    let ghost orig = list@;
    let ghost mut k: int = 0;
    let mut i: usize = 0;
    proof {
        reveal(Seq::filter);
        assert(orig.take(0) =~= Seq::<Project>::empty());
        assert(list@.take(0) =~= Seq::<Project>::empty());
        assert(list@.skip(0) =~= orig.skip(0));
    }
    while i < list.len()
        invariant
            0 <= k <= orig.len(),
            i <= list@.len(),
            list@.take(i as int) == orig.take(k).filter(keeps(id@)),
            list@.skip(i as int) == orig.skip(k),
        decreases list@.len() - i,
    {
        proof {
            reveal(Seq::filter);
            assert(list@.skip(i as int).len() > 0);
            assert(k < orig.len());
            assert(orig.skip(k)[0] == orig[k]);
            assert(list@.skip(i as int)[0] == list@[i as int]);
            assert(orig.take(k + 1).drop_last() =~= orig.take(k));
            assert(orig.take(k + 1).last() == orig[k]);
        }
        if list[i].id == *id {
            let ghost before = list@;
            list.remove(i);
            proof {
                assert(list@.take(i as int) =~= before.take(i as int));
                assert(list@.skip(i as int) =~= before.skip(i + 1));
                assert(before.skip(i + 1) =~= before.skip(i as int).drop_first());
                assert(orig.skip(k + 1) =~= orig.skip(k).drop_first());
                k = k + 1;
            }
        } else {
            proof {
                assert(list@.take(i + 1) =~= list@.take(i as int).push(list@[i as int]));
                assert(list@.skip(i + 1) =~= list@.skip(i as int).drop_first());
                assert(orig.skip(k + 1) =~= orig.skip(k).drop_first());
                k = k + 1;
            }
            i = i + 1;
        }
    }
    proof {
        assert(list@.skip(i as int).len() == 0);
        assert(orig.take(k) =~= orig);
        assert(list@.take(i as int) =~= list@);
        assert forall|j: int| 0 <= j < list@.len() implies (#[trigger] list@[j]).id@ != id@ by {
            orig.lemma_filter_pred(keeps(id@), j);
        }
        assert forall|j: int| 0 <= j < orig.len() && (#[trigger] orig[j]).id@ != id@ implies list@.contains(orig[j]) by {
            orig.lemma_filter_contains(keeps(id@), j);
        }
    }
    if is_chosen_id(active, id) {
        *active = None;
    }
}

/// Makes the project with the given id the one being worked on.
pub fn set_active_project(active: &mut Option<String>, id: &String)
    ensures
        is_chosen(*final(active), id@),
{
    *active = Some(id.clone());
}

/// Leaves no project chosen.
pub fn clear_active_project(active: &mut Option<String>)
    ensures
        *final(active) == None::<String>,
{
    *active = None;
}

/// The name of the first project with the given id, if any.
pub open spec fn name_of(list: Seq<Project>, id: Seq<char>) -> Option<Seq<char>>
    decreases list.len(),
{
    if list.len() == 0 {
        None
    } else if list[0].id@ == id {
        Some(list[0].name@)
    } else {
        name_of(list.drop_first(), id)
    }
}

/// The name of the chosen project, if one is chosen and still listed.
pub open spec fn chosen_name(list: Seq<Project>, active: Option<String>) -> Option<Seq<char>> {
    match active {
        Some(id) => name_of(list, id@),
        None => None,
    }
}

fn name_in(list: &Vec<Project>, id: &String) -> (r: Option<String>)
    ensures
        r is Some == name_of(list@, id@) is Some,
        r is Some ==> r->0@ == name_of(list@, id@)->0,
{
    let n = list.len();
    let mut i: usize = 0;
    assert(list@.subrange(0, n as int) =~= list@);
    while i < n
        invariant
            n == list@.len(),
            i <= n,
            name_of(list@, id@) == name_of(list@.subrange(i as int, n as int), id@),
        decreases n - i,
    {
        assert(list@.subrange(i as int, n as int)[0] == list@[i as int]);
        if list[i].id == *id {
            return Some(list[i].name.clone());
        }
        assert(list@.subrange(i as int, n as int).drop_first() =~= list@.subrange(i + 1, n as int));
        i = i + 1;
    }
    None
}

/// The name of the chosen project, if one is chosen and still listed.
pub fn active_project_name(list: &Vec<Project>, active: &Option<String>) -> (r: Option<String>)
    ensures
        r is Some == chosen_name(list@, *active) is Some,
        r is Some ==> r->0@ == chosen_name(list@, *active)->0,
{
    match active {
        None => None,
        Some(id) => name_in(list, id),
    }
}

/// What the footer shows as the current task: the chosen project's name, or
/// `None`.
pub fn current_task_label(list: &Vec<Project>, active: &Option<String>) -> (l: String)
    ensures
        l@ == match chosen_name(list@, *active) {
            Some(n) => n,
            None => "None"@,
        },
{
    match active_project_name(list, active) {
        Some(n) => n,
        None => String::from_str("None"),
    }
}

/// The heading of the timer: `Rest & Recover` during a break, else the
/// chosen project's name, or `Deep Work` when none is chosen.
pub fn focus_task_title(is_focus: bool, list: &Vec<Project>, active: &Option<String>) -> (l: String)
    ensures
        l@ == if !is_focus {
            "Rest & Recover"@
        } else {
            match chosen_name(list@, *active) {
                Some(n) => n,
                None => "Deep Work"@,
            }
        },
{
    if !is_focus {
        return String::from_str("Rest & Recover");
    }
    match active_project_name(list, active) {
        Some(n) => n,
        None => String::from_str("Deep Work"),
    }
}

/// The tag shown for a status.
pub fn status_label(status: ProjectStatus) -> (l: &'static str)
    ensures
        l@ == match status {
            ProjectStatus::Planned => "PLANNED"@,
            ProjectStatus::InProgress => "IN PROGRESS"@,
            ProjectStatus::Completed => "COMPLETED"@,
        },
{
    match status {
        ProjectStatus::Planned => "PLANNED",
        ProjectStatus::InProgress => "IN PROGRESS",
        ProjectStatus::Completed => "COMPLETED",
    }
}

/// The effort shown on a card: `12h effort`.
pub fn effort_label(eta_hours: u32) -> (l: String)
    ensures
        l@ == decimal_text(eta_hours as nat) + "h effort"@,
{
    let mut l = decimal(eta_hours as u64);
    l.append("h effort");
    l
}

/// Deleting a project that was just added, under an id that no other
/// project has, gives back the list as it was.
pub proof fn lemma_delete_undoes_add(list: Seq<Project>, p: Project)
    requires
        forall|j: int| 0 <= j < list.len() ==> (#[trigger] list[j]).id@ != p.id@,
    ensures
        list.push(p).filter(keeps(p.id@)) == list,
{
    reveal(Seq::filter);
    assert(list.push(p).drop_last() =~= list);
    lemma_filter_keeps_all(list, p.id@);
}

proof fn lemma_filter_keeps_all(list: Seq<Project>, id: Seq<char>)
    requires
        forall|j: int| 0 <= j < list.len() ==> (#[trigger] list[j]).id@ != id,
    ensures
        list.filter(keeps(id)) == list,
    decreases list.len(),
{
    reveal(Seq::filter);
    if list.len() > 0 {
        lemma_filter_keeps_all(list.drop_last(), id);
        assert(list.drop_last().push(list.last()) =~= list);
    }
}

} // verus!
