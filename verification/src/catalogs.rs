//! Projects and tasks: their names, which of them a list shows, and the
//! protection of the built-in task.
use vstd::prelude::*;

use crate::error::{
    conflict, conflict_failure, fails_as, not_found_failure, unprocessable,
    unprocessable_failure, AppError, AppResult,
};
use crate::models::{NamedRow, ProjectRow};
use crate::system_task::{is_reserved, is_reserved_task_name};
use crate::task_color::{normalized_color, parse_hex_color};
use crate::text::{str_equals, trim, trimmed};

verus! {

/// Longest name of a project or task, in bytes.
pub const MAX_NAME_BYTES: usize = 120;

/// Why a name is refused, if it is: empty or longer than 120 bytes once
/// trimmed, or reserved for the built-in task.
pub open spec fn name_failure(name: Seq<char>) -> Option<(int, Seq<char>)> {
    let t = trimmed(name);
    if t.len() == 0 || vstd::utf8::encode_utf8(t).len() > 120 {
        Some(unprocessable_failure("Name muss zwischen 1 und 120 Zeichen haben"@))
    } else if is_reserved(t) {
        Some(unprocessable_failure("Name ist reserviert"@))
    } else {
        None
    }
}

/// The name of a project or task, trimmed.
pub fn validate_name(name: &str) -> (r: AppResult<String>)
    ensures
        fails_as(r, name_failure(name@)),
        r matches Ok(s) ==> s@ == trimmed(name@),
{
    let t = trim(name);
    if t.is_empty() || t.as_bytes().len() > MAX_NAME_BYTES {
        return Err(unprocessable("Name muss zwischen 1 und 120 Zeichen haben"));
    }
    if is_reserved_task_name(t) {
        return Err(unprocessable("Name ist reserviert"));
    }
    Ok(String::from_str(t))
}

/// The built-in task cannot be renamed or archived.
pub fn reject_system_mutation(task: &NamedRow) -> (r: AppResult<()>)
    ensures
        fails_as(
            r,
            if task.is_system {
                Some(conflict_failure("interner Task kann nicht verändert werden"@))
            } else {
                None
            },
        ),
{
    if task.is_system {
        return Err(conflict("interner Task kann nicht verändert werden"));
    }
    Ok(())
}

/// Why a task cannot be deleted, if it cannot: it is not the user's, or it is
/// the built-in task.
pub open spec fn delete_task_failure(task: Option<NamedRow>) -> Option<(int, Seq<char>)> {
    match task {
        None => Some(not_found_failure()),
        Some(t) => if t.is_system {
            Some(conflict_failure("interner Task kann nicht gelöscht werden"@))
        } else {
            None
        },
    }
}

/// A task may be deleted (its entries then move to the built-in task);
/// `task` is the user's task of the id, if any.
pub fn check_task_deletion(task: &Option<NamedRow>) -> (r: AppResult<()>)
    ensures
        fails_as(r, delete_task_failure(*task)),
{
    match task {
        None => Err(AppError::NotFound),
        Some(t) => {
            if t.is_system {
                return Err(conflict("interner Task kann nicht gelöscht werden"));
            }
            Ok(())
        },
    }
}

/// Why a task cannot be renamed to `name`, if it cannot.
pub open spec fn rename_failure(task: Option<NamedRow>, name: Seq<char>) -> Option<(int, Seq<char>)> {
    match task {
        None => Some(not_found_failure()),
        Some(t) => if t.is_system {
            Some(conflict_failure("interner Task kann nicht verändert werden"@))
        } else {
            name_failure(name)
        },
    }
}

/// The new name of a task, trimmed, when the task may take it.
pub fn plan_rename(task: &Option<NamedRow>, name: &str) -> (r: AppResult<String>)
    ensures
        fails_as(r, rename_failure(*task, name@)),
        r matches Ok(s) ==> s@ == trimmed(name@),
{
    match task {
        None => Err(AppError::NotFound),
        Some(t) => {
            reject_system_mutation(t)?;
            validate_name(name)
        },
    }
}

/// Why a task cannot be archived or restored, if it cannot.
pub open spec fn archive_failure(task: Option<NamedRow>) -> Option<(int, Seq<char>)> {
    match task {
        None => Some(not_found_failure()),
        Some(t) => if t.is_system {
            Some(conflict_failure("interner Task kann nicht verändert werden"@))
        } else {
            None
        },
    }
}

/// A task may be archived or restored.
pub fn check_task_archiving(task: &Option<NamedRow>) -> (r: AppResult<()>)
    ensures
        fails_as(r, archive_failure(*task)),
{
    match task {
        None => Err(AppError::NotFound),
        Some(t) => reject_system_mutation(t),
    }
}

/// Why a task cannot take the colour `color`, if it cannot.
pub open spec fn color_failure(task: Option<NamedRow>, color: Seq<char>) -> Option<(int, Seq<char>)> {
    match task {
        None => Some(not_found_failure()),
        Some(_) => if normalized_color(color) is None {
            Some(unprocessable_failure("Farbe muss im Format #RRGGBB angegeben werden"@))
        } else {
            None
        },
    }
}

/// The colour a task takes, in lower case.
pub fn plan_task_color(task: &Option<NamedRow>, color: &str) -> (r: AppResult<String>)
    ensures
        fails_as(r, color_failure(*task, color@)),
        r matches Ok(s) ==> Some(s@) == normalized_color(color@),
{
    if task.is_none() {
        return Err(AppError::NotFound);
    }
    match parse_hex_color(color) {
        Ok(c) => Ok(c),
        Err(e) => Err(unprocessable(e.message())),
    }
}

/// A task shows in a list unless it is archived or built in and the list
/// leaves those out.
pub open spec fn task_visible(task: NamedRow, include_archived: bool, include_system: bool) -> bool {
    (include_archived || !task.archived) && (include_system || !task.is_system)
}

/// The tasks a list shows, in their order.
pub open spec fn visible_tasks(
    rows: Seq<NamedRow>,
    include_archived: bool,
    include_system: bool,
) -> Seq<NamedRow>
    decreases rows.len(),
{
    if rows.len() == 0 {
        Seq::empty()
    } else {
        let prefix = visible_tasks(rows.drop_last(), include_archived, include_system);
        if task_visible(rows.last(), include_archived, include_system) {
            prefix.push(rows.last())
        } else {
            prefix
        }
    }
}

/// Keeps the tasks a list shows: archived ones only when asked for, the built-in
/// one only when asked for.
pub fn filter_tasks(rows: Vec<NamedRow>, include_archived: bool, include_system: bool) -> (r: Vec<
    NamedRow,
>)
    ensures
        r@ == visible_tasks(rows@, include_archived, include_system),
{
    let mut out: Vec<NamedRow> = Vec::new();
    let mut i: usize = 0;
    while i < rows.len()
        invariant
            i <= rows@.len(),
            out@ == visible_tasks(rows@.take(i as int), include_archived, include_system),
        decreases rows@.len() - i,
    {
        proof {
            assert(rows@.take(i + 1).drop_last() == rows@.take(i as int));
            assert(rows@.take(i + 1).last() == rows@[i as int]);
        }
        let row = &rows[i];
        if (include_archived || !row.archived) && (include_system || !row.is_system) {
            out.push(row.clone());
        }
        i += 1;
    }
    proof {
        assert(rows@.take(rows@.len() as int) == rows@);
    }
    out
}

/// The projects a list shows, in their order: archived ones only when asked for.
pub open spec fn visible_projects(rows: Seq<ProjectRow>, include_archived: bool) -> Seq<ProjectRow>
    decreases rows.len(),
{
    if rows.len() == 0 {
        Seq::empty()
    } else {
        let prefix = visible_projects(rows.drop_last(), include_archived);
        if include_archived || !rows.last().archived {
            prefix.push(rows.last())
        } else {
            prefix
        }
    }
}

/// Keeps the projects a list shows.
pub fn filter_projects(rows: Vec<ProjectRow>, include_archived: bool) -> (r: Vec<ProjectRow>)
    ensures
        r@ == visible_projects(rows@, include_archived),
{
    let mut out: Vec<ProjectRow> = Vec::new();
    let mut i: usize = 0;
    while i < rows.len()
        invariant
            i <= rows@.len(),
            out@ == visible_projects(rows@.take(i as int), include_archived),
        decreases rows@.len() - i,
    {
        proof {
            assert(rows@.take(i + 1).drop_last() == rows@.take(i as int));
            assert(rows@.take(i + 1).last() == rows@[i as int]);
        }
        if include_archived || !rows[i].archived {
            out.push(rows[i].clone());
        }
        i += 1;
    }
    proof {
        assert(rows@.take(rows@.len() as int) == rows@);
    }
    out
}

/// The tasks every user starts with, in order.
pub open spec fn default_task_names() -> Seq<Seq<char>> {
    seq![
        "Meeting"@,
        "E-Mail"@,
        "Coding"@,
        "Termin"@,
        "Feature"@,
        "Qualitätssicherung"@,
        "Wartung"@,
    ]
}

/// The tasks every user starts with.
pub fn default_tasks() -> (r: Vec<&'static str>)
    ensures
        r@.len() == default_task_names().len(),
        forall|i: int| 0 <= i < r@.len() ==> (#[trigger] r@[i])@ == default_task_names()[i],
{
    let mut r: Vec<&'static str> = Vec::new();
    r.push("Meeting");
    r.push("E-Mail");
    r.push("Coding");
    r.push("Termin");
    r.push("Feature");
    r.push("Qualitätssicherung");
    r.push("Wartung");
    r
}

/// The default task names a user lacks, in order.
pub open spec fn missing_names(defaults: Seq<Seq<char>>, existing: Seq<Seq<char>>) -> Seq<Seq<char>>
    decreases defaults.len(),
{
    if defaults.len() == 0 {
        Seq::empty()
    } else {
        let prefix = missing_names(defaults.drop_last(), existing);
        if existing.contains(defaults.last()) {
            prefix
        } else {
            prefix.push(defaults.last())
        }
    }
}

/// The names of a list of stored names.
pub open spec fn names_of(rows: Seq<String>) -> Seq<Seq<char>> {
    rows.map_values(|s: String| s@)
}

fn contains_name(names: &[String], name: &str) -> (r: bool)
    ensures
        r == names_of(names@).contains(name@),
{
    let mut i: usize = 0;
    while i < names.len()
        invariant
            i <= names@.len(),
            forall|j: int| 0 <= j < i ==> (#[trigger] names@[j])@ != name@,
        decreases names@.len() - i,
    {
        if str_equals(names[i].as_str(), name) {
            assert(names_of(names@)[i as int] == name@);
            return true;
        }
        i += 1;
    }
    proof {
        if names_of(names@).contains(name@) {
            let k = choose|k: int| 0 <= k < names_of(names@).len() && names_of(names@)[k] == name@;
            assert(names@[k]@ == name@);
        }
    }
    false
}

/// The default tasks a user lacks, given the names of the user's tasks: seeding
/// adds exactly these, so it never makes a name twice.
pub fn missing_default_tasks(existing: &[String]) -> (r: Vec<&'static str>)
    ensures
        r@.map_values(|s: &str| s@) == missing_names(default_task_names(), names_of(existing@)),
{
    let defaults = default_tasks();
    let mut out: Vec<&'static str> = Vec::new();
    let mut i: usize = 0;
    while i < defaults.len()
        invariant
            i <= defaults@.len(),
            defaults@.len() == default_task_names().len(),
            forall|k: int| 0 <= k < defaults@.len() ==> (#[trigger] defaults@[k])@ == default_task_names()[k],
            out@.map_values(|s: &str| s@) == missing_names(
                default_task_names().take(i as int),
                names_of(existing@),
            ),
        decreases defaults@.len() - i,
    {
        proof {
            assert(default_task_names().take(i + 1).drop_last() == default_task_names().take(
                i as int,
            ));
            assert(default_task_names().take(i + 1).last() == default_task_names()[i as int]);
        }
        let name = defaults[i];
        if !contains_name(existing, name) {
            out.push(name);
            proof {
                assert(out@.map_values(|s: &str| s@) == out@.drop_last().map_values(|s: &str| s@).push(name@));
            }
        }
        i += 1;
    }
    proof {
        assert(default_task_names().take(default_task_names().len() as int) == default_task_names());
    }
    out
}

proof fn lemma_missing_covers(defaults: Seq<Seq<char>>, existing: Seq<Seq<char>>, x: Seq<char>)
    requires
        defaults.contains(x),
    ensures
        existing.contains(x) || missing_names(defaults, existing).contains(x),
    decreases defaults.len(),
{
    if defaults.last() != x {
        let k = choose|k: int| 0 <= k < defaults.len() && defaults[k] == x;
        assert(defaults.drop_last()[k] == x);
        lemma_missing_covers(defaults.drop_last(), existing, x);
        if missing_names(defaults.drop_last(), existing).contains(x) {
            let j = choose|j: int|
                0 <= j < missing_names(defaults.drop_last(), existing).len() && missing_names(
                    defaults.drop_last(),
                    existing,
                )[j] == x;
            if !existing.contains(defaults.last()) {
                assert(missing_names(defaults, existing)[j] == x);
            }
        }
    } else if !existing.contains(x) {
        assert(missing_names(defaults, existing).last() == x);
    }
}

proof fn lemma_none_missing(defaults: Seq<Seq<char>>, existing: Seq<Seq<char>>)
    requires
        forall|i: int| 0 <= i < defaults.len() ==> existing.contains(#[trigger] defaults[i]),
    ensures
        missing_names(defaults, existing).len() == 0,
    decreases defaults.len(),
{
    if defaults.len() > 0 {
        assert(existing.contains(defaults[defaults.len() - 1]));
        lemma_none_missing(defaults.drop_last(), existing);
    }
}

/// Seeding the default tasks twice adds nothing the second time: after the
/// missing names are added, none is missing.
pub proof fn law_seeding_is_idempotent(existing: Seq<Seq<char>>)
    ensures
        missing_names(
            default_task_names(),
            existing + missing_names(default_task_names(), existing),
        ).len() == 0,
{
    let d = default_task_names();
    let added = missing_names(d, existing);
    let all = existing + added;
    assert forall|i: int| 0 <= i < d.len() implies all.contains(#[trigger] d[i]) by {
        assert(d.contains(d[i]));
        lemma_missing_covers(d, existing, d[i]);
        if existing.contains(d[i]) {
            let k = choose|k: int| 0 <= k < existing.len() && existing[k] == d[i];
            assert(all[k] == d[i]);
        } else {
            let k = choose|k: int| 0 <= k < added.len() && added[k] == d[i];
            assert(all[existing.len() + k] == d[i]);
        }
    }
    lemma_none_missing(d, all);
}

/// How often a name occurs in a list of names.
pub open spec fn occurrences(names: Seq<Seq<char>>, x: Seq<char>) -> nat
    decreases names.len(),
{
    if names.len() == 0 {
        0
    } else {
        occurrences(names.drop_last(), x) + if names.last() == x {
            1nat
        } else {
            0nat
        }
    }
}

proof fn lemma_occurrences_concat(a: Seq<Seq<char>>, b: Seq<Seq<char>>, x: Seq<char>)
    ensures
        occurrences(a + b, x) == occurrences(a, x) + occurrences(b, x),
    decreases b.len(),
{
    if b.len() == 0 {
        assert(a + b =~= a);
    } else {
        assert((a + b).drop_last() =~= a + b.drop_last());
        assert((a + b).last() == b.last());
        lemma_occurrences_concat(a, b.drop_last(), x);
    }
}

proof fn lemma_occurrences_zero(names: Seq<Seq<char>>, x: Seq<char>)
    ensures
        (occurrences(names, x) == 0) <==> !names.contains(x),
    decreases names.len(),
{
    if names.len() > 0 {
        let prefix = names.drop_last();
        lemma_occurrences_zero(prefix, x);
        if prefix.contains(x) {
            let k = choose|k: int| 0 <= k < prefix.len() && prefix[k] == x;
            assert(names[k] == x);
        }
        if names.contains(x) && names.last() != x {
            let k = choose|k: int| 0 <= k < names.len() && names[k] == x;
            assert(k != names.len() - 1);
            assert(prefix[k] == x);
        }
        if names.last() == x {
            assert(names[names.len() - 1] == x);
        }
    }
}

proof fn lemma_occurrences_distinct(names: Seq<Seq<char>>, x: Seq<char>)
    requires
        names.no_duplicates(),
        names.contains(x),
    ensures
        occurrences(names, x) == 1,
    decreases names.len(),
{
    let prefix = names.drop_last();
    assert(prefix.no_duplicates()) by {
        assert forall|i: int, j: int| 0 <= i < prefix.len() && 0 <= j < prefix.len() && i != j
            implies prefix[i] != prefix[j] by {
            assert(prefix[i] == names[i] && prefix[j] == names[j]);
        }
    }
    if names.last() == x {
        if prefix.contains(x) {
            let k = choose|k: int| 0 <= k < prefix.len() && prefix[k] == x;
            assert(names[k] == names[names.len() - 1]);
        }
        lemma_occurrences_zero(prefix, x);
    } else {
        let k = choose|k: int| 0 <= k < names.len() && names[k] == x;
        assert(k != names.len() - 1);
        assert(prefix[k] == x);
        lemma_occurrences_distinct(prefix, x);
    }
}

proof fn lemma_occurrences_missing(defaults: Seq<Seq<char>>, existing: Seq<Seq<char>>, x: Seq<char>)
    ensures
        occurrences(missing_names(defaults, existing), x) == if existing.contains(x) {
            0
        } else {
            occurrences(defaults, x)
        },
    decreases defaults.len(),
{
    if defaults.len() > 0 {
        lemma_occurrences_missing(defaults.drop_last(), existing, x);
        let prefix = missing_names(defaults.drop_last(), existing);
        if !existing.contains(defaults.last()) {
            assert(prefix.push(defaults.last()).drop_last() == prefix);
        }
    }
}

proof fn lemma_default_names_distinct()
    ensures
        default_task_names().no_duplicates(),
{
    reveal_strlit("Meeting");
    reveal_strlit("E-Mail");
    reveal_strlit("Coding");
    reveal_strlit("Termin");
    reveal_strlit("Feature");
    reveal_strlit("Qualitätssicherung");
    reveal_strlit("Wartung");
    let d = default_task_names();
    assert forall|i: int, j: int| 0 <= i < d.len() && 0 <= j < d.len() && i != j implies d[i]
        != d[j] by {
        assert(d[i][0] != d[j][0]);
    }
}

/// Seeding leaves each default task exactly once: when the user has no
/// default name twice, the user's names with the missing ones added hold every
/// default name once.
pub proof fn law_seeding_leaves_each_default_once(existing: Seq<Seq<char>>)
    requires
        forall|x: Seq<char>|
            default_task_names().contains(x) ==> #[trigger] occurrences(existing, x) <= 1,
    ensures
        forall|x: Seq<char>|
            default_task_names().contains(x) ==> #[trigger] occurrences(
                existing + missing_names(default_task_names(), existing),
                x,
            ) == 1,
{
    let d = default_task_names();
    lemma_default_names_distinct();
    assert forall|x: Seq<char>| d.contains(x) implies #[trigger] occurrences(
        existing + missing_names(d, existing),
        x,
    ) == 1 by {
        lemma_occurrences_concat(existing, missing_names(d, existing), x);
        lemma_occurrences_missing(d, existing, x);
        lemma_occurrences_zero(existing, x);
        lemma_occurrences_distinct(d, x);
        assert(occurrences(existing, x) <= 1);
    }
}

/// A task list shows no task that the list leaves out: no archived task unless
/// asked for, no built-in task unless asked for.
pub proof fn law_listed_tasks_are_visible(
    rows: Seq<NamedRow>,
    include_archived: bool,
    include_system: bool,
)
    ensures
        forall|i: int|
            0 <= i < visible_tasks(rows, include_archived, include_system).len() ==> task_visible(
                #[trigger] visible_tasks(rows, include_archived, include_system)[i],
                include_archived,
                include_system,
            ),
    decreases rows.len(),
{
    if rows.len() > 0 {
        law_listed_tasks_are_visible(rows.drop_last(), include_archived, include_system);
        let prefix = visible_tasks(rows.drop_last(), include_archived, include_system);
        let all = visible_tasks(rows, include_archived, include_system);
        assert forall|i: int| 0 <= i < all.len() implies task_visible(
            #[trigger] all[i],
            include_archived,
            include_system,
        ) by {
            if i < prefix.len() {
                assert(all[i] == prefix[i]);
            }
        }
    }
}

/// A project list holds exactly the projects that are not archived (all of
/// them when archived ones are asked for), in their order.
pub proof fn law_project_list_is_exact(rows: Seq<ProjectRow>, include_archived: bool)
    ensures
        visible_projects(rows, include_archived) == rows.filter(
            |p: ProjectRow| include_archived || !p.archived,
        ),
    decreases rows.len(),
{
    reveal(Seq::filter);
    if rows.len() > 0 {
        law_project_list_is_exact(rows.drop_last(), include_archived);
    }
}

/// A task list holds exactly the tasks that are neither archived nor built in,
/// each unless asked for, in their order.
pub proof fn law_task_list_is_exact(rows: Seq<NamedRow>, include_archived: bool, include_system: bool)
    ensures
        visible_tasks(rows, include_archived, include_system) == rows.filter(
            |t: NamedRow| (include_archived || !t.archived) && (include_system || !t.is_system),
        ),
    decreases rows.len(),
{
    reveal(Seq::filter);
    if rows.len() > 0 {
        law_task_list_is_exact(rows.drop_last(), include_archived, include_system);
    }
}

} // verus!
