//! The permission rebuild plan: from the enabled menus (ascending id) and
//! enabled APIs, which permission groups and permissions to create, with
//! which codes, groups and links. Ids of created permissions run from 1,
//! menus first.

use vstd::prelude::*;
use std::collections::BTreeMap;
use crate::compare::opt_text;
use crate::permission::{api_code, api_code_spec, menu_code, menu_code_spec, path_segments, segments};
use crate::text::{
    chars_lt, chars_of, concat, dec, decimal, is_prefix, lex_lt, push_chars, starts_with, str_eq,
    string_of,
};

verus! {

/// An enabled menu, as the rebuild reads it.
pub struct MenuRow {
    pub id: u32,
    pub parent_id: Option<u32>,
    pub path: Option<String>,
    pub name: String,
    pub menu_type: Option<String>,
}

/// An enabled API route, as the rebuild reads it.
pub struct ApiRow {
    pub id: u32,
    pub method: Option<String>,
    pub path: Option<String>,
}

/// The group a CATALOG menu creates.
pub struct GroupPlan {
    pub name: String,
    pub module: String,
    pub path: String,
}

/// The permission a menu yields; a CATALOG menu first creates its group,
/// registered under the menu's code.
pub struct MenuPlan {
    pub perm_id: u32,
    pub menu_id: u32,
    pub name: String,
    pub code: String,
    pub new_group: Option<GroupPlan>,
    /// The code of the group the permission joins (the group registered
    /// last under that code), if any.
    pub group: Option<String>,
}

/// The permission an API route yields, and the permission the route is
/// linked to (a matching menu permission, else its own, which then joins
/// the uncategorized group).
pub struct ApiPlan {
    pub perm_id: u32,
    pub api_id: u32,
    pub code: String,
    pub link_perm_id: u32,
    pub uncategorized: bool,
}

/// The group that gathers the API permissions matching no menu:
/// `Uncategorized`, module `sys`, path `/`.
pub open spec fn uncategorized_group_is(g: GroupPlan) -> bool {
    g.name@ == "Uncategorized"@ && g.module@ == "sys"@ && g.path@ == "/"@
}

/// The characters of an optional text, empty when absent.
pub open spec fn text_or_empty(s: Option<String>) -> Seq<char> {
    match s {
        Some(t) => t@,
        None => seq![],
    }
}

/// The index of the last of the first `i` menus with id `id`, or -1.
pub open spec fn last_index_of_id(m: Seq<MenuRow>, i: int, id: u32) -> int
    decreases i,
{
    if i <= 0 {
        -1
    } else if m[i - 1].id == id {
        i - 1
    } else {
        last_index_of_id(m, i - 1, id)
    }
}

pub proof fn lemma_last_index_range(m: Seq<MenuRow>, i: int, id: u32)
    requires
        0 <= i <= m.len(),
    ensures
        -1 <= last_index_of_id(m, i, id) < i,
        last_index_of_id(m, i, id) >= 0 ==> m[last_index_of_id(m, i, id)].id == id,
        last_index_of_id(m, i, id) < 0 ==> forall|j: int| 0 <= j < i ==> m[j].id != id,
    decreases i,
{
    if i > 0 && m[i - 1].id != id {
        lemma_last_index_range(m, i - 1, id);
    }
}

/// The full path of menu `i`: its parent's full path (the parent found
/// among the menus before it), then its own path.
pub open spec fn full_path_at(m: Seq<MenuRow>, i: int) -> Seq<char>
    decreases i,
{
    if i < 0 || i >= m.len() {
        seq![]
    } else {
        let parent = match m[i].parent_id {
            Some(pid) => {
                let j = last_index_of_id(m, i, pid);
                if 0 <= j < i {
                    full_path_at(m, j)
                } else {
                    seq![]
                }
            },
            None => seq![],
        };
        parent + text_or_empty(m[i].path)
    }
}

/// Menu `i` yields a permission (its full path is non-empty).
pub open spec fn kept(m: Seq<MenuRow>, i: int) -> bool {
    full_path_at(m, i).len() > 0
}

/// The code of menu `i`.
pub open spec fn code_at(m: Seq<MenuRow>, i: int) -> Seq<char> {
    menu_code_spec(full_path_at(m, i), m[i].name@, text_or_empty(m[i].menu_type))
}

/// Menu `i` creates a group.
pub open spec fn catalog_at(m: Seq<MenuRow>, i: int) -> bool {
    kept(m, i) && text_or_empty(m[i].menu_type) == "CATALOG"@
}

/// The codes of the groups the first `n` menus create, in order.
pub open spec fn catalog_codes(m: Seq<MenuRow>, n: int) -> Seq<Seq<char>>
    decreases n,
{
    if n <= 0 {
        seq![]
    } else if catalog_at(m, n - 1) {
        catalog_codes(m, n - 1).push(code_at(m, n - 1))
    } else {
        catalog_codes(m, n - 1)
    }
}

/// The number of permissions the first `n` menus yield.
pub open spec fn kept_count(m: Seq<MenuRow>, n: int) -> nat
    decreases n,
{
    if n <= 0 {
        0
    } else {
        kept_count(m, n - 1) + if kept(m, n - 1) {
            1nat
        } else {
            0nat
        }
    }
}

/// The lexicographically least code (only among the prefixes of `full`
/// when `only_prefix`), if any.
pub open spec fn min_code(codes: Seq<Seq<char>>, full: Seq<char>, only_prefix: bool) -> Option<Seq<char>>
    decreases codes.len(),
{
    if codes.len() == 0 {
        None
    } else {
        let r = min_code(codes.drop_last(), full, only_prefix);
        let c = codes.last();
        if !only_prefix || is_prefix(c, full) {
            match r {
                None => Some(c),
                Some(x) => if lex_lt(c, x) {
                    Some(c)
                } else {
                    Some(x)
                },
            }
        } else {
            r
        }
    }
}

/// The group a menu permission joins: for a path with a `/`, the least
/// group code that prefixes the path; otherwise (or when none does) the
/// least group code.
pub open spec fn resolve_group(codes: Seq<Seq<char>>, full: Seq<char>) -> Option<Seq<char>> {
    if full.contains('/') {
        match min_code(codes, full, true) {
            Some(c) => Some(c),
            None => min_code(codes, full, false),
        }
    } else {
        min_code(codes, full, false)
    }
}

/// The module a CATALOG group belongs to: the second path segment, `sys`
/// when there is none.
pub open spec fn group_module(full: Seq<char>) -> Seq<char> {
    if path_segments(full).len() > 1 {
        path_segments(full)[1]
    } else {
        "sys"@
    }
}

/// The index of the last `c` in `s`, or -1.
pub open spec fn last_index_of_char(s: Seq<char>, c: char) -> int
    decreases s.len(),
{
    if s.len() == 0 {
        -1
    } else if s.last() == c {
        s.len() - 1
    } else {
        last_index_of_char(s.drop_last(), c)
    }
}

/// The part of `s` before its last `c`, or all of `s` when it has none.
pub open spec fn before_last(s: Seq<char>, c: char) -> Seq<char> {
    let k = last_index_of_char(s, c);
    if k >= 0 {
        s.take(k)
    } else {
        s
    }
}

/// An API code matches a menu permission when either the code or the
/// menu code without its action prefixes the other.
pub open spec fn api_matches(m: Seq<MenuRow>, i: int, code: Seq<char>) -> bool {
    kept(m, i) && (is_prefix(before_last(code_at(m, i), ':'), code) || is_prefix(
        code,
        before_last(code_at(m, i), ':'),
    ))
}

/// The first menu from index `k` on whose permission an API code matches.
pub open spec fn first_match(m: Seq<MenuRow>, code: Seq<char>, k: int) -> Option<int>
    decreases m.len() - k,
{
    if k < 0 || k >= m.len() {
        None
    } else if api_matches(m, k, code) {
        Some(k)
    } else {
        first_match(m, code, k + 1)
    }
}

/// API route `j` yields a permission (it has a method and a path).
pub open spec fn api_kept(a: Seq<ApiRow>, j: int) -> bool {
    a[j].method is Some && a[j].path is Some
}

/// The number of permissions the first `n` API routes yield.
pub open spec fn api_count(a: Seq<ApiRow>, n: int) -> nat
    decreases n,
{
    if n <= 0 {
        0
    } else {
        api_count(a, n - 1) + if api_kept(a, n - 1) {
            1nat
        } else {
            0nat
        }
    }
}

/// The code of API route `j`.
pub open spec fn api_code_at(a: Seq<ApiRow>, j: int) -> Seq<char> {
    api_code_spec(text_or_empty(a[j].method), text_or_empty(a[j].path))
}

/// What the plan of menu `i` holds.
pub open spec fn menu_plan_is(m: Seq<MenuRow>, i: int, p: Option<MenuPlan>) -> bool {
    if !kept(m, i) {
        p is None
    } else {
        match p {
            None => false,
            Some(q) => {
                &&& q.perm_id == kept_count(m, i) + 1
                &&& q.menu_id == m[i].id
                &&& q.name@ == m[i].name@
                &&& q.code@ == code_at(m, i)
                &&& (match q.new_group {
                    Some(g) => catalog_at(m, i) && g.name@ == m[i].name@ && g.module@
                        == group_module(full_path_at(m, i)) && g.path@ == seq!['/'] + dec(
                        m[i].id as nat,
                    ) + seq!['/'],
                    None => !catalog_at(m, i),
                })
                &&& opt_text(q.group) == resolve_group(
                    catalog_codes(m, i + 1),
                    full_path_at(m, i),
                )
            },
        }
    }
}

/// What the plan of API route `j` holds.
pub open spec fn api_plan_is(m: Seq<MenuRow>, a: Seq<ApiRow>, j: int, p: Option<ApiPlan>) -> bool {
    if !api_kept(a, j) {
        p is None
    } else {
        match p {
            None => false,
            Some(q) => {
                let own = kept_count(m, m.len() as int) + api_count(a, j) + 1;
                &&& q.perm_id == own
                &&& q.api_id == a[j].id
                &&& q.code@ == api_code_at(a, j)
                &&& match first_match(m, api_code_at(a, j), 0) {
                    Some(i) => q.link_perm_id == kept_count(m, i) + 1 && !q.uncategorized,
                    None => q.link_perm_id == own && q.uncategorized,
                }
            },
        }
    }
}

/// Some of the first `n` API routes yields a permission that matches no
/// menu permission.
pub open spec fn has_unmatched(m: Seq<MenuRow>, a: Seq<ApiRow>, n: int) -> bool
    decreases n,
{
    if n <= 0 {
        false
    } else {
        has_unmatched(m, a, n - 1) || (api_kept(a, n - 1) && first_match(
            m,
            api_code_at(a, n - 1),
            0,
        ) is None)
    }
}

/// The character views of a list of strings.
pub open spec fn views(v: Seq<String>) -> Seq<Seq<char>> {
    v.map_values(|s: String| s@)
}

proof fn lemma_kept_count_bound(m: Seq<MenuRow>, n: int)
    requires
        0 <= n,
    ensures
        kept_count(m, n) <= n,
    decreases n,
{
    if n > 0 {
        lemma_kept_count_bound(m, n - 1);
    }
}

proof fn lemma_api_count_bound(a: Seq<ApiRow>, n: int)
    requires
        0 <= n,
    ensures
        api_count(a, n) <= n,
    decreases n,
{
    if n > 0 {
        lemma_api_count_bound(a, n - 1);
    }
}

/// The characters of an optional text.
fn text_chars(s: &Option<String>) -> (r: String)
    ensures
        r@ == text_or_empty(*s),
{
    match s {
        Some(t) => t.clone(),
        None => String::new(),
    }
}

/// The full path of every menu. Each menu's row index is kept by id as
/// the walk goes, so a parent is the last earlier menu with its id.
fn full_paths(menus: &Vec<MenuRow>) -> (r: Vec<Vec<char>>)
    ensures
        r@.len() == menus@.len(),
        forall|i: int| 0 <= i < menus@.len() ==> #[trigger] r@[i]@ == full_path_at(menus@, i),
{
    broadcast use vstd::std_specs::btree::group_btree_axioms;

    let mut out: Vec<Vec<char>> = Vec::new();
    let mut index_by_id: BTreeMap<u32, usize> = BTreeMap::new();
    let mut i: usize = 0;
    while i < menus.len()
        invariant
            i <= menus.len(),
            out@.len() == i,
            forall|k: int| 0 <= k < i ==> #[trigger] out@[k]@ == full_path_at(menus@, k),
            forall|id: u32|
                #[trigger] index_by_id@.contains_key(id) <==> last_index_of_id(menus@, i as int, id)
                    >= 0,
            forall|id: u32|
                index_by_id@.contains_key(id) ==> #[trigger] index_by_id@[id] as int
                    == last_index_of_id(menus@, i as int, id),
        decreases menus.len() - i,
    {
        let own = text_chars(&menus[i].path);
        let own_chars = chars_of(own.as_str());
        let full: Vec<char> = match menus[i].parent_id {
            Some(pid) => {
                proof {
                    lemma_last_index_range(menus@, i as int, pid);
                }
                match index_by_id.get(&pid) {
                    Some(j) => concat(out[*j].as_slice(), own_chars.as_slice()),
                    None => own_chars,
                }
            },
            None => own_chars,
        };
        proof {
            assert(seq![] + own@ =~= own@);
        }
        out.push(full);
        index_by_id.insert(menus[i].id, i);
        i += 1;
    }
    out
}

/// Whether `c` occurs in `s`.
fn has_char(s: &[char], c: char) -> (r: bool)
    ensures
        r == s@.contains(c),
{
    let mut i: usize = 0;
    while i < s.len()
        invariant
            i <= s.len(),
            forall|k: int| 0 <= k < i ==> s@[k] != c,
        decreases s.len() - i,
    {
        if s[i] == c {
            return true;
        }
        i += 1;
    }
    false
}

/// The part of `s` before its last `c`, or all of `s`.
fn before_last_chars(s: &[char], c: char) -> (r: Vec<char>)
    ensures
        r@ == before_last(s@, c),
{
    let mut k: usize = s.len();
    assert(s@.take(k as int) =~= s@);
    while k > 0 && s[k - 1] != c
        invariant
            k <= s.len(),
            last_index_of_char(s@, c) == last_index_of_char(s@.take(k as int), c),
        decreases k,
    {
        assert(s@.take(k as int).drop_last() =~= s@.take(k - 1));
        k -= 1;
    }
    let mut out: Vec<char> = Vec::new();
    if k == 0 {
        push_chars(&mut out, s);
        return out;
    }
    let mut i: usize = 0;
    while i < k - 1
        invariant
            0 < k <= s.len(),
            i <= k - 1,
            out@ =~= s@.take(i as int),
        decreases k - 1 - i,
    {
        out.push(s[i]);
        i += 1;
    }
    out
}

/// The least code (among the prefixes of `full` when `only_prefix`).
fn least_code(codes: &Vec<String>, full: &[char], only_prefix: bool) -> (r: Option<String>)
    ensures
        opt_text(r) == min_code(views(codes@), full@, only_prefix),
{
    let ghost all = views(codes@);
    let mut best: Option<String> = None;
    let mut k: usize = 0;
    assert(all.take(0) =~= Seq::<Seq<char>>::empty());
    while k < codes.len()
        invariant
            k <= codes.len(),
            all == views(codes@),
            opt_text(best) == min_code(all.take(k as int), full@, only_prefix),
        decreases codes.len() - k,
    {
        assert(all.take(k + 1).drop_last() =~= all.take(k as int));
        assert(all.take(k + 1).last() == codes@[k as int]@);
        let c = chars_of(codes[k].as_str());
        let ok = !only_prefix || starts_with(full, c.as_slice());
        if ok {
            let replace = match &best {
                None => true,
                Some(x) => {
                    let xc = chars_of(x.as_str());
                    chars_lt(c.as_slice(), xc.as_slice())
                },
            };
            if replace {
                best = Some(codes[k].clone());
            }
        }
        k += 1;
    }
    assert(all.take(codes.len() as int) =~= all);
    best
}

/// The permission of the first menu an API code matches.
fn find_match(
    menus: &Vec<MenuRow>,
    links: &Vec<Option<(Vec<char>, u32)>>,
    code: &[char],
) -> (r: Option<u32>)
    requires
        links@.len() == menus@.len(),
        forall|k: int|
            0 <= k < menus@.len() ==> match #[trigger] links@[k] {
                Some(l) => kept(menus@, k) && l.0@ == before_last(code_at(menus@, k), ':') && l.1
                    == kept_count(menus@, k) + 1,
                None => !kept(menus@, k),
            },
    ensures
        match first_match(menus@, code@, 0) {
            Some(i) => r is Some && r->0 == kept_count(menus@, i) + 1,
            None => r is None,
        },
{
    let mut k: usize = 0;
    while k < links.len()
        invariant
            k <= links.len(),
            links@.len() == menus@.len(),
            forall|k: int|
                0 <= k < menus@.len() ==> match #[trigger] links@[k] {
                    Some(l) => kept(menus@, k) && l.0@ == before_last(code_at(menus@, k), ':')
                        && l.1 == kept_count(menus@, k) + 1,
                    None => !kept(menus@, k),
                },
            first_match(menus@, code@, 0) == first_match(menus@, code@, k as int),
        decreases links.len() - k,
    {
        match &links[k] {
            Some(l) => {
                if starts_with(code, l.0.as_slice()) || starts_with(l.0.as_slice(), code) {
                    return Some(l.1);
                }
            },
            None => {},
        }
        k += 1;
    }
    None
}

/// Plans the permission rebuild: for each enabled menu (read in ascending
/// id order), the permission and the group it yields; for each enabled API
/// route, its permission and the permission it is linked to; and, when a
/// route matches no menu permission, the uncategorized group its
/// permission joins. Permission ids run from 1, menus first, in input
/// order.
pub fn plan_permission_sync(menus: &Vec<MenuRow>, apis: &Vec<ApiRow>) -> (r: (
    Vec<Option<MenuPlan>>,
    Vec<Option<ApiPlan>>,
    Option<GroupPlan>,
))
    requires
        menus@.len() + apis@.len() < u32::MAX,
    ensures
        r.0@.len() == menus@.len(),
        forall|i: int| 0 <= i < menus@.len() ==> menu_plan_is(menus@, i, #[trigger] r.0@[i]),
        r.1@.len() == apis@.len(),
        forall|j: int|
            0 <= j < apis@.len() ==> api_plan_is(menus@, apis@, j, #[trigger] r.1@[j]),
        match r.2 {
            Some(g) => has_unmatched(menus@, apis@, apis@.len() as int) && uncategorized_group_is(g),
            None => !has_unmatched(menus@, apis@, apis@.len() as int),
        },
{
    let ghost m = menus@;
    let paths = full_paths(menus);
    let mut codes: Vec<String> = Vec::new();
    let mut plans: Vec<Option<MenuPlan>> = Vec::new();
    let mut links: Vec<Option<(Vec<char>, u32)>> = Vec::new();
    let mut next: u32 = 1;
    let mut i: usize = 0;
    assert(views(codes@) =~= catalog_codes(m, 0));
    while i < menus.len()
        invariant
            m == menus@,
            i <= menus.len(),
            menus@.len() + apis@.len() < u32::MAX,
            paths@.len() == m.len(),
            forall|k: int| 0 <= k < m.len() ==> #[trigger] paths@[k]@ == full_path_at(m, k),
            plans@.len() == i,
            links@.len() == i,
            next == kept_count(m, i as int) + 1,
            views(codes@) == catalog_codes(m, i as int),
            forall|k: int| 0 <= k < i ==> menu_plan_is(m, k, #[trigger] plans@[k]),
            forall|k: int|
                0 <= k < i ==> match #[trigger] links@[k] {
                    Some(l) => kept(m, k) && l.0@ == before_last(code_at(m, k), ':') && l.1
                        == kept_count(m, k) + 1,
                    None => !kept(m, k),
                },
        decreases menus.len() - i,
    {
        proof {
            lemma_kept_count_bound(m, i as int);
        }
        let full = &paths[i];
        if full.len() == 0 {
            plans.push(None);
            links.push(None);
            assert(views(codes@) =~= catalog_codes(m, i + 1));
            i += 1;
            continue;
        }
        let full_text = string_of(full.as_slice());
        let ty = text_chars(&menus[i].menu_type);
        let code = menu_code(full_text.as_str(), menus[i].name.as_str(), ty.as_str());
        let is_catalog = str_eq(ty.as_str(), "CATALOG");
        let new_group = if is_catalog {
            let segs = segments(full_text.as_str());
            let module: String = if segs.len() > 1 {
                string_of(segs[1].as_slice())
            } else {
                "sys".to_owned()
            };
            let mut gp: Vec<char> = Vec::new();
            gp.push('/');
            let digits = decimal(menus[i].id as u64);
            push_chars(&mut gp, digits.as_slice());
            gp.push('/');
            codes.push(code.clone());
            Some(GroupPlan { name: menus[i].name.clone(), module, path: string_of(gp.as_slice()) })
        } else {
            None
        };
        assert(views(codes@) =~= catalog_codes(m, i + 1));
        let group = if has_char(full.as_slice(), '/') {
            match least_code(&codes, full.as_slice(), true) {
                Some(g) => Some(g),
                None => least_code(&codes, full.as_slice(), false),
            }
        } else {
            least_code(&codes, full.as_slice(), false)
        };
        let code_chars = chars_of(code.as_str());
        let base = before_last_chars(code_chars.as_slice(), ':');
        links.push(Some((base, next)));
        plans.push(
            Some(
                MenuPlan {
                    perm_id: next,
                    menu_id: menus[i].id,
                    name: menus[i].name.clone(),
                    code,
                    new_group,
                    group,
                },
            ),
        );
        proof {
            let ghost q = plans@[i as int];
            assert(q is Some);
            let ghost qq = q->0;
            assert(match qq.new_group {
                Some(g) => catalog_at(m, i as int) && g.name@ == m[i as int].name@ && g.module@
                    == group_module(full_path_at(m, i as int)) && g.path@ == seq!['/'] + dec(
                    m[i as int].id as nat,
                ) + seq!['/'],
                None => !catalog_at(m, i as int),
            });
            assert(menu_plan_is(m, i as int, q));
        }
        next = next + 1;
        i += 1;
    }
    let mut any_unmatched = false;
    let mut api_plans: Vec<Option<ApiPlan>> = Vec::new();
    let mut j: usize = 0;
    proof {
        lemma_kept_count_bound(m, m.len() as int);
    }
    while j < apis.len()
        invariant
            m == menus@,
            i == menus.len(),
            menus@.len() + apis@.len() < u32::MAX,
            j <= apis.len(),
            api_plans@.len() == j,
            next == kept_count(m, m.len() as int) + api_count(apis@, j as int) + 1,
            kept_count(m, m.len() as int) <= m.len(),
            any_unmatched == has_unmatched(m, apis@, j as int),
            links@.len() == m.len(),
            forall|k: int|
                0 <= k < m.len() ==> match #[trigger] links@[k] {
                    Some(l) => kept(m, k) && l.0@ == before_last(code_at(m, k), ':') && l.1
                        == kept_count(m, k) + 1,
                    None => !kept(m, k),
                },
            forall|k: int| 0 <= k < j ==> api_plan_is(m, apis@, k, #[trigger] api_plans@[k]),
        decreases apis.len() - j,
    {
        proof {
            lemma_api_count_bound(apis@, j as int);
        }
        match (&apis[j].method, &apis[j].path) {
            (Some(method), Some(path)) => {
                let code = api_code(method.as_str(), path.as_str());
                let code_chars = chars_of(code.as_str());
                let matched = find_match(menus, &links, code_chars.as_slice());
                let (link, uncategorized) = match matched {
                    Some(p) => (p, false),
                    None => (next, true),
                };
                if uncategorized {
                    any_unmatched = true;
                }
                api_plans.push(
                    Some(
                        ApiPlan {
                            perm_id: next,
                            api_id: apis[j].id,
                            code,
                            link_perm_id: link,
                            uncategorized,
                        },
                    ),
                );
                next = next + 1;
            },
            _ => {
                api_plans.push(None);
            },
        }
        j += 1;
    }
    let group = if any_unmatched {
        Some(
            GroupPlan {
                name: "Uncategorized".to_owned(),
                module: "sys".to_owned(),
                path: "/".to_owned(),
            },
        )
    } else {
        None
    };
    (plans, api_plans, group)
}

} // verus!
