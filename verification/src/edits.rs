//! The edits of permissions, menus and scripts: what a create writes,
//! what an update patch changes, when an update relinks a permission's
//! menus and APIs, how a menu sync tells updates from inserts, and how a
//! script's version follows its source.

use vstd::prelude::*;
use crate::menu_codes::{module_name, module_to_str, menu_type_name, switch_name, switch_to_str, type_to_str};
use crate::script_codes::{language_name, language_to_str};
use crate::errors::{status_error, StatusError};
use crate::text::{lemma_marks_bound, lemma_marks_set, lemma_marks_zero, marks};

verus! {

/// The view of an optional text.
pub open spec fn opt_view(s: Option<String>) -> Option<Seq<char>> {
    match s {
        Some(t) => Some(t@),
        None => None,
    }
}

/// An optional field after a patch: the patch's value when given.
pub open spec fn patched(old: Option<String>, p: Option<String>) -> Option<Seq<char>> {
    match p {
        Some(v) => Some(v@),
        None => opt_view(old),
    }
}

fn copy_opt(s: &Option<String>) -> (r: Option<String>)
    ensures
        opt_view(r) == opt_view(*s),
{
    match s {
        Some(t) => Some(t.clone()),
        None => None,
    }
}

/// The stored fields of a permission.
pub struct PermissionFields {
    pub name: String,
    pub code: String,
    pub description: Option<String>,
    pub group_id: Option<u32>,
    pub status: Option<String>,
    pub created_by: Option<u32>,
    pub updated_by: Option<u32>,
}

/// A permission create or update request's data.
pub struct PermissionPatch {
    pub name: Option<String>,
    pub code: Option<String>,
    pub description: Option<String>,
    pub group_id: Option<u32>,
    pub status: Option<i32>,
    pub menu_ids: Vec<u32>,
    pub api_ids: Vec<u32>,
}

/// A new permission: name and code empty when absent, switched `ON`,
/// created by the operator.
pub fn new_permission(p: &PermissionPatch, operator_id: u32) -> (r: PermissionFields)
    ensures
        r.name@ == (match p.name {
            Some(v) => v@,
            None => Seq::empty(),
        }),
        r.code@ == (match p.code {
            Some(v) => v@,
            None => Seq::empty(),
        }),
        opt_view(r.description) == opt_view(p.description),
        r.group_id == p.group_id,
        opt_view(r.status) == Some("ON"@),
        r.created_by == Some(operator_id),
        r.updated_by is None,
{
    PermissionFields {
        name: match &p.name {
            Some(v) => v.clone(),
            None => String::new(),
        },
        code: match &p.code {
            Some(v) => v.clone(),
            None => String::new(),
        },
        description: copy_opt(&p.description),
        group_id: p.group_id,
        status: Some("ON".to_owned()),
        created_by: Some(operator_id),
        updated_by: None,
    }
}

/// Applies a permission update: each given field replaces the stored
/// one, the status by its switch name (0 is `OFF`); the operator is
/// recorded as the updater.
pub fn apply_permission_patch(row: &mut PermissionFields, p: &PermissionPatch, operator_id: u32)
    ensures
        final(row).name@ == (match p.name {
            Some(v) => v@,
            None => old(row).name@,
        }),
        final(row).code@ == (match p.code {
            Some(v) => v@,
            None => old(row).code@,
        }),
        opt_view(final(row).description) == patched(old(row).description, p.description),
        final(row).group_id == (match p.group_id {
            Some(v) => Some(v),
            None => old(row).group_id,
        }),
        opt_view(final(row).status) == (match p.status {
            Some(v) => Some(switch_name(v)),
            None => opt_view(old(row).status),
        }),
        final(row).created_by == old(row).created_by,
        final(row).updated_by == Some(operator_id),
{
    match &p.name {
        Some(v) => row.name = v.clone(),
        None => {},
    }
    match &p.code {
        Some(v) => row.code = v.clone(),
        None => {},
    }
    match &p.description {
        Some(v) => row.description = Some(v.clone()),
        None => {},
    }
    match p.group_id {
        Some(v) => row.group_id = Some(v),
        None => {},
    }
    match p.status {
        Some(v) => row.status = Some(switch_to_str(v)),
        None => {},
    }
    row.updated_by = Some(operator_id);
}

/// What an update does to a permission's links of one kind.
pub enum LinkChange {
    /// The links stay.
    Keep,
    /// The links are replaced by links to these ids.
    Replace(Vec<u32>),
}

/// An empty id list keeps the links; a non-empty one replaces them.
pub fn link_change(ids: &Vec<u32>) -> (r: LinkChange)
    ensures
        ids@.len() == 0 ==> r is Keep,
        ids@.len() > 0 ==> (r matches LinkChange::Replace(v) && v@ == ids@),
{
    if ids.len() == 0 {
        LinkChange::Keep
    } else {
        LinkChange::Replace(ids.clone())
    }
}

/// The stored fields of a menu.
pub struct MenuFields {
    pub path: Option<String>,
    pub redirect: Option<String>,
    pub alias: Option<String>,
    pub name: String,
    pub component: Option<String>,
    pub kind: Option<String>,
    pub status: Option<String>,
    pub module: Option<String>,
    pub parent_id: Option<u32>,
    /// The display metadata, as JSON text.
    pub meta: Option<String>,
    pub created_by: Option<u32>,
    pub updated_by: Option<u32>,
}

/// A menu create, update or sync item.
pub struct MenuPatch {
    pub id: Option<u32>,
    pub path: Option<String>,
    pub redirect: Option<String>,
    pub alias: Option<String>,
    pub name: Option<String>,
    pub component: Option<String>,
    pub kind: Option<i32>,
    pub status: Option<i32>,
    pub module: Option<i32>,
    pub parent_id: Option<u32>,
    /// The display metadata, as JSON text.
    pub meta: Option<String>,
}

/// The menu fields a patch leaves, given the fields before it.
pub open spec fn menu_patched(old: MenuFields, p: MenuPatch, new: MenuFields) -> bool {
    &&& opt_view(new.path) == patched(old.path, p.path)
    &&& opt_view(new.redirect) == patched(old.redirect, p.redirect)
    &&& opt_view(new.alias) == patched(old.alias, p.alias)
    &&& new.name@ == (match p.name {
        Some(v) => v@,
        None => old.name@,
    })
    &&& opt_view(new.component) == patched(old.component, p.component)
    &&& opt_view(new.kind) == (match p.kind {
        Some(v) => Some(menu_type_name(v)),
        None => opt_view(old.kind),
    })
    &&& opt_view(new.status) == (match p.status {
        Some(v) => Some(switch_name(v)),
        None => opt_view(old.status),
    })
    &&& opt_view(new.module) == (match p.module {
        Some(v) => Some(module_name(v)),
        None => opt_view(old.module),
    })
    &&& new.parent_id == (match p.parent_id {
        Some(v) => if v == 0 {
            None
        } else {
            Some(v)
        },
        None => old.parent_id,
    })
    &&& opt_view(new.meta) == patched(old.meta, p.meta)
    &&& new.created_by == old.created_by
}

/// Applies a menu patch: each given field replaces the stored one (type,
/// status and module by their stored names, parent 0 as none); the
/// operator is recorded as the updater.
pub fn apply_menu_patch(row: &mut MenuFields, p: &MenuPatch, operator_id: u32)
    ensures
        menu_patched(*old(row), *p, *final(row)),
        final(row).updated_by == Some(operator_id),
{
    match &p.path {
        Some(v) => row.path = Some(v.clone()),
        None => {},
    }
    match &p.redirect {
        Some(v) => row.redirect = Some(v.clone()),
        None => {},
    }
    match &p.alias {
        Some(v) => row.alias = Some(v.clone()),
        None => {},
    }
    match &p.name {
        Some(v) => row.name = v.clone(),
        None => {},
    }
    match &p.component {
        Some(v) => row.component = Some(v.clone()),
        None => {},
    }
    match p.kind {
        Some(v) => row.kind = Some(type_to_str(v)),
        None => {},
    }
    match p.status {
        Some(v) => row.status = Some(switch_to_str(v)),
        None => {},
    }
    match p.module {
        Some(v) => row.module = Some(module_to_str(v)),
        None => {},
    }
    match p.parent_id {
        Some(v) => row.parent_id = if v == 0 {
            None
        } else {
            Some(v)
        },
        None => {},
    }
    match &p.meta {
        Some(v) => row.meta = Some(v.clone()),
        None => {},
    }
    row.updated_by = Some(operator_id);
}

/// Menu `d` is at most `n` parent links below menu `id` (`id` itself at
/// none), over the stored (id, parent) rows.
pub open spec fn within_links(rows: Seq<(u32, Option<u32>)>, id: u32, n: nat, d: u32) -> bool
    decreases n,
{
    if n == 0 {
        d == id
    } else {
        within_links(rows, id, (n - 1) as nat, d) || exists|i: int|
            0 <= i < rows.len() && rows[i].0 == d && (rows[i].1 matches Some(p) && within_links(
                rows,
                id,
                (n - 1) as nat,
                p,
            ))
    }
}

/// Menu `d` lies in the subtree of menu `id`: a chain of parent links
/// leads from it up to `id`.
pub open spec fn in_subtree(rows: Seq<(u32, Option<u32>)>, id: u32, d: u32) -> bool {
    exists|n: nat| #[trigger] within_links(rows, id, n, d)
}

/// The menus collected so far: `id` and every marked row's menu.
pub open spec fn collected(rows: Seq<(u32, Option<u32>)>, taken: Seq<bool>, id: u32, d: u32) -> bool {
    d == id || exists|k: int| 0 <= k < rows.len() && taken[k] && rows[k].0 == d
}

fn is_collected(rows: &Vec<(u32, Option<u32>)>, taken: &Vec<bool>, id: u32, d: u32) -> (r: bool)
    requires
        taken@.len() == rows@.len(),
    ensures
        r == collected(rows@, taken@, id, d),
{
    if d == id {
        return true;
    }
    let mut k: usize = 0;
    while k < rows.len()
        invariant
            k <= rows.len(),
            taken@.len() == rows@.len(),
            forall|j: int| 0 <= j < k ==> !(taken@[j] && rows@[j].0 == d),
        decreases rows.len() - k,
    {
        if taken[k] && rows[k].0 == d {
            return true;
        }
        k += 1;
    }
    false
}

/// Row `j` may be collected: its menu is not `id` and its parent is
/// collected.
pub open spec fn eligible(rows: Seq<(u32, Option<u32>)>, taken: Seq<bool>, id: u32, j: int) -> bool {
    rows[j].0 != id && (rows[j].1 matches Some(p) && collected(rows, taken, id, p))
}

proof fn lemma_closed_contains_subtree(
    rows: Seq<(u32, Option<u32>)>,
    taken: Seq<bool>,
    id: u32,
    n: nat,
    d: u32,
)
    requires
        taken.len() == rows.len(),
        forall|j: int| 0 <= j < rows.len() ==> #[trigger] taken[j] || !eligible(rows, taken, id, j),
        within_links(rows, id, n, d),
    ensures
        collected(rows, taken, id, d),
    decreases n,
{
    if n > 0 {
        if within_links(rows, id, (n - 1) as nat, d) {
            lemma_closed_contains_subtree(rows, taken, id, (n - 1) as nat, d);
        } else {
            let i = choose|i: int|
                0 <= i < rows.len() && rows[i].0 == d && (rows[i].1 matches Some(p) && within_links(
                    rows,
                    id,
                    (n - 1) as nat,
                    p,
                ));
            let p = rows[i].1->0;
            lemma_closed_contains_subtree(rows, taken, id, (n - 1) as nat, p);
            if d != id {
                assert(taken[i] || !eligible(rows, taken, id, i));
            }
        }
    }
}

/// The menus a deletion of menu `id` removes with it: its whole subtree,
/// every menu from which a chain of parent links leads up to `id`. The
/// menu's permission links and the menu itself go after them.
pub fn menu_descendants(id: u32, rows: &Vec<(u32, Option<u32>)>) -> (r: Vec<u32>)
    ensures
        forall|d: u32| #[trigger] r@.contains(d) <==> (d != id && in_subtree(rows@, id, d)),
{
    let n = rows.len();
    let mut taken: Vec<bool> = Vec::new();
    let mut i: usize = 0;
    while i < n
        invariant
            i <= n,
            n == rows.len(),
            taken@.len() == i,
            forall|j: int| 0 <= j < i ==> !taken@[j],
        decreases n - i,
    {
        taken.push(false);
        i += 1;
    }
    let mut count: usize = 0;
    proof {
        assert(marks(taken@) == 0) by {
            lemma_marks_zero(taken@);
        }
        assert(within_links(rows@, id, 0, id));
    }
    loop
        invariant
            n == rows.len(),
            taken@.len() == n,
            count == marks(taken@),
            forall|j: int|
                0 <= j < n && #[trigger] taken@[j] ==> rows@[j].0 != id && in_subtree(
                    rows@,
                    id,
                    rows@[j].0,
                ),
        ensures
            taken@.len() == n,
            forall|j: int|
                0 <= j < n && #[trigger] taken@[j] ==> rows@[j].0 != id && in_subtree(
                    rows@,
                    id,
                    rows@[j].0,
                ),
            forall|k: int| 0 <= k < n ==> #[trigger] taken@[k] || !eligible(rows@, taken@, id, k),
        decreases n - count,
    {
        proof {
            lemma_marks_bound(taken@);
        }
        let ghost start = taken@;
        let mut changed = false;
        let mut j: usize = 0;
        while j < n
            invariant
                n == rows.len(),
                j <= n,
                taken@.len() == n,
                count == marks(taken@),
                start.len() == n,
                changed ==> count > marks(start),
                !changed ==> taken@ == start,
                !changed ==> forall|k: int| 0 <= k < j ==> #[trigger] taken@[k] || !eligible(rows@, taken@, id, k),
                forall|k: int|
                    0 <= k < n && #[trigger] taken@[k] ==> rows@[k].0 != id && in_subtree(
                        rows@,
                        id,
                        rows@[k].0,
                    ),
            decreases n - j,
        {
            proof {
                lemma_marks_bound(taken@);
            }
            if !taken[j] && rows[j].0 != id {
                let parent = rows[j].1;
                match parent {
                    Some(p) => {
                        if is_collected(rows, &taken, id, p) {
                            proof {
                                if p == id {
                                    assert(within_links(rows@, id, 0, p));
                                } else {
                                    let k = choose|k: int| 0 <= k < rows@.len() && taken@[k] && rows@[k].0 == p;
                                    assert(in_subtree(rows@, id, rows@[k].0));
                                }
                                let m = choose|m: nat| #[trigger] within_links(rows@, id, m, p);
                                assert(within_links(rows@, id, m + 1, rows@[j as int].0));
                                lemma_marks_set(taken@, j as int);
                                lemma_marks_bound(taken@.update(j as int, true));
                            }
                            taken.set(j, true);
                            count = count + 1;
                            changed = true;
                        }
                    },
                    None => {},
                }
            }
            j += 1;
        }
        proof {
            lemma_marks_bound(taken@);
        }
        if !changed {
            break;
        }
    }
    let mut out: Vec<u32> = Vec::new();
    let mut k: usize = 0;
    while k < n
        invariant
            n == rows.len(),
            k <= n,
            taken@.len() == n,
            forall|d: u32| #[trigger] out@.contains(d) <==> exists|x: int| 0 <= x < k && taken@[x] && rows@[x].0 == d,
        decreases n - k,
    {
        let ghost before = out@;
        if taken[k] {
            out.push(rows[k].0);
        }
        proof {
            assert forall|d: u32| #[trigger] out@.contains(d) <==> exists|x: int|
                0 <= x < k + 1 && taken@[x] && rows@[x].0 == d by {
                if taken@[k as int] {
                    assert(out@ == before.push(rows@[k as int].0));
                    if before.contains(d) {
                        let y = choose|y: int| 0 <= y < before.len() && before[y] == d;
                        assert(out@[y] == d);
                    }
                    if out@.contains(d) && d != rows@[k as int].0 {
                        let y = choose|y: int| 0 <= y < out@.len() && out@[y] == d;
                        assert(before[y] == d);
                    }
                    if d == rows@[k as int].0 {
                        assert(out@[before.len() as int] == d);
                    }
                }
            }
        }
        k += 1;
    }
    proof {
        assert forall|d: u32| #[trigger] out@.contains(d) <==> (d != id && in_subtree(rows@, id, d)) by {
            if d != id && in_subtree(rows@, id, d) {
                let m = choose|m: nat| #[trigger] within_links(rows@, id, m, d);
                lemma_closed_contains_subtree(rows@, taken@, id, m, d);
            }
        }
    }
    out
}


/// The menu a deletion names: the request must name it by id; otherwise
/// `BAD_REQUEST` (`query_by required`).
pub fn menu_delete_target(id: Option<u32>) -> (r: Result<u32, StatusError>)
    ensures
        id is Some ==> r == Ok::<u32, StatusError>(id->0),
        id is None ==> (r matches Err(e) && e.reason@ == "BAD_REQUEST"@ && e.message@
            == "query_by required"@),
{
    match id {
        Some(v) => Ok(v),
        None => Err(status_error("BAD_REQUEST", "query_by required")),
    }
}

/// A menu a sync inserts: the patch applied to an empty row named by the
/// patch (empty when absent), switched `ON` unless the patch gives a
/// status, created by the operator.
pub fn new_menu(p: &MenuPatch, operator_id: u32) -> (r: MenuFields)
    ensures
        opt_view(r.path) == opt_view(p.path),
        opt_view(r.redirect) == opt_view(p.redirect),
        opt_view(r.alias) == opt_view(p.alias),
        r.name@ == (match p.name {
            Some(v) => v@,
            None => Seq::empty(),
        }),
        opt_view(r.component) == opt_view(p.component),
        opt_view(r.kind) == (match p.kind {
            Some(v) => Some(menu_type_name(v)),
            None => None,
        }),
        opt_view(r.status) == (match p.status {
            Some(v) => Some(switch_name(v)),
            None => Some("ON"@),
        }),
        opt_view(r.module) == (match p.module {
            Some(v) => Some(module_name(v)),
            None => None,
        }),
        r.parent_id == (match p.parent_id {
            Some(v) => if v == 0 {
                None
            } else {
                Some(v)
            },
            None => None,
        }),
        opt_view(r.meta) == opt_view(p.meta),
        r.created_by == Some(operator_id),
        r.updated_by is None,
{
    let mut row = MenuFields {
        path: None,
        redirect: None,
        alias: None,
        name: match &p.name {
            Some(v) => v.clone(),
            None => String::new(),
        },
        component: None,
        kind: None,
        status: None,
        module: None,
        parent_id: None,
        meta: None,
        created_by: Some(operator_id),
        updated_by: None,
    };
    apply_menu_patch(&mut row, p, operator_id);
    row.updated_by = None;
    if row.status.is_none() {
        row.status = Some("ON".to_owned());
    }
    row
}

/// How a sync item is applied: an item with a positive id updates that
/// menu (when it exists); any other is inserted.
pub fn sync_target(id: Option<u32>) -> (r: Option<u32>)
    ensures
        r == (match id {
            Some(v) => if v > 0 {
                Some(v)
            } else {
                None
            },
            None => None,
        }),
{
    match id {
        Some(v) => if v > 0 {
            Some(v)
        } else {
            None
        },
        None => None,
    }
}

/// The stored fields of a script.
pub struct ScriptFields {
    pub name: String,
    pub language: Option<String>,
    pub hook_point: Option<String>,
    pub source: Option<String>,
    pub priority: Option<i32>,
    pub description: Option<String>,
    pub critical: Option<bool>,
    pub version: Option<i32>,
    pub is_enabled: Option<bool>,
    pub created_by: Option<u32>,
    pub updated_by: Option<u32>,
}

/// A script create or update request's data.
pub struct ScriptPatch {
    pub name: Option<String>,
    pub language: Option<i32>,
    pub hook_point: Option<String>,
    pub source: Option<String>,
    pub priority: Option<i32>,
    pub description: Option<String>,
    pub critical: Option<bool>,
    pub is_enabled: Option<bool>,
}

/// A new script: version 1; the language `LUA` unless given; priority 0,
/// not critical and enabled unless given; the name empty when absent.
pub fn new_script(p: &ScriptPatch, operator_id: u32) -> (r: ScriptFields)
    ensures
        r.name@ == (match p.name {
            Some(v) => v@,
            None => Seq::empty(),
        }),
        opt_view(r.language) == Some(language_name(
            match p.language {
                Some(v) => v,
                None => 0,
            },
        )),
        opt_view(r.hook_point) == opt_view(p.hook_point),
        opt_view(r.source) == opt_view(p.source),
        r.priority == (match p.priority {
            Some(v) => Some(v),
            None => Some(0i32),
        }),
        opt_view(r.description) == opt_view(p.description),
        r.critical == (match p.critical {
            Some(v) => Some(v),
            None => Some(false),
        }),
        r.version == Some(1i32),
        r.is_enabled == (match p.is_enabled {
            Some(v) => Some(v),
            None => Some(true),
        }),
        r.created_by == Some(operator_id),
        r.updated_by is None,
{
    ScriptFields {
        name: match &p.name {
            Some(v) => v.clone(),
            None => String::new(),
        },
        language: Some(
            language_to_str(
                match p.language {
                    Some(v) => v,
                    None => 0,
                },
            ),
        ),
        hook_point: copy_opt(&p.hook_point),
        source: copy_opt(&p.source),
        priority: match p.priority {
            Some(v) => Some(v),
            None => Some(0),
        },
        description: copy_opt(&p.description),
        critical: match p.critical {
            Some(v) => Some(v),
            None => Some(false),
        },
        version: Some(1),
        is_enabled: match p.is_enabled {
            Some(v) => Some(v),
            None => Some(true),
        },
        created_by: Some(operator_id),
        updated_by: None,
    }
}

/// The version after an update: a new source bumps it by one (an unset
/// version counting as 1); otherwise it stays.
pub open spec fn bumped_version(old: Option<i32>, source_given: bool) -> Option<i32> {
    if source_given {
        Some(
            (match old {
                Some(v) => v,
                None => 1,
            } + 1) as i32,
        )
    } else {
        old
    }
}

/// Applies a script update: name, source, description, priority, the
/// enabled flag and the hook point replace the stored ones when given; a
/// new source bumps the version; the operator is recorded as the
/// updater.
pub fn apply_script_patch(row: &mut ScriptFields, p: &ScriptPatch, operator_id: u32)
    requires
        p.source is Some ==> (match old(row).version {
            Some(v) => v,
            None => 1,
        }) < i32::MAX,
    ensures
        final(row).name@ == (match p.name {
            Some(v) => v@,
            None => old(row).name@,
        }),
        opt_view(final(row).source) == patched(old(row).source, p.source),
        opt_view(final(row).description) == patched(old(row).description, p.description),
        final(row).priority == (match p.priority {
            Some(v) => Some(v),
            None => old(row).priority,
        }),
        final(row).is_enabled == (match p.is_enabled {
            Some(v) => Some(v),
            None => old(row).is_enabled,
        }),
        opt_view(final(row).hook_point) == patched(old(row).hook_point, p.hook_point),
        opt_view(final(row).language) == opt_view(old(row).language),
        final(row).critical == old(row).critical,
        final(row).version == bumped_version(old(row).version, p.source is Some),
        final(row).created_by == old(row).created_by,
        final(row).updated_by == Some(operator_id),
{
    let mut bump = false;
    match &p.name {
        Some(v) => row.name = v.clone(),
        None => {},
    }
    match &p.source {
        Some(v) => {
            row.source = Some(v.clone());
            bump = true;
        },
        None => {},
    }
    match &p.description {
        Some(v) => row.description = Some(v.clone()),
        None => {},
    }
    match p.priority {
        Some(v) => row.priority = Some(v),
        None => {},
    }
    match p.is_enabled {
        Some(v) => row.is_enabled = Some(v),
        None => {},
    }
    match &p.hook_point {
        Some(v) => row.hook_point = Some(v.clone()),
        None => {},
    }
    if bump {
        let current = match row.version {
            Some(v) => v,
            None => 1,
        };
        row.version = Some(current + 1);
    }
    row.updated_by = Some(operator_id);
}

/// The entity hooks a script can attach to.
pub fn hook_points() -> (r: Vec<String>)
    ensures
        r@.map_values(|s: String| s@) == seq![
            "user.before_create"@,
            "user.after_create"@,
            "user.before_update"@,
            "user.after_update"@,
            "tenant.before_create"@,
            "tenant.after_create"@,
            "role.before_update"@,
            "role.after_update"@,
            "internal_message.after_create"@,
            "notification_channel.after_update"@,
        ],
{
    let mut v: Vec<String> = Vec::new();
    v.push("user.before_create".to_owned());
    v.push("user.after_create".to_owned());
    v.push("user.before_update".to_owned());
    v.push("user.after_update".to_owned());
    v.push("tenant.before_create".to_owned());
    v.push("tenant.after_create".to_owned());
    v.push("role.before_update".to_owned());
    v.push("role.after_update".to_owned());
    v.push("internal_message.after_create".to_owned());
    v.push("notification_channel.after_update".to_owned());
    assert(v@.map_values(|s: String| s@) =~= seq![
        "user.before_create"@,
        "user.after_create"@,
        "user.before_update"@,
        "user.after_update"@,
        "tenant.before_create"@,
        "tenant.after_create"@,
        "role.before_update"@,
        "role.after_update"@,
        "internal_message.after_create"@,
        "notification_channel.after_update"@,
    ]);
    v
}

} // verus!
