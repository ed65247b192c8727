//! Permission code derivation: menu paths and API routes become
//! `resource:action` codes (the first path segment dropped, parameter
//! segments skipped, resources singularized).

use vstd::prelude::*;
use crate::text::{
    chars_eq, chars_of, contains, contains_chars, ends_with, is_suffix, push_chars, split_chars,
    split_on, str_eq, string_of, to_lower_case, unicode_lower,
};

verus! {

/// The naive English singular: `-ies` becomes `-y`, a trailing `s` is
/// dropped (unless it is the whole word).
pub open spec fn singular(w: Seq<char>) -> Seq<char> {
    if w.len() >= 3 && w.subrange(w.len() - 3, w.len() as int) == seq!['i', 'e', 's'] {
        w.subrange(0, w.len() - 3).push('y')
    } else if w.len() > 1 && w.last() == 's' {
        w.drop_last()
    } else {
        w
    }
}

fn singular_chars(w: &[char]) -> (r: Vec<char>)
    ensures
        r@ == singular(w@),
{
    let n = w.len();
    let mut out: Vec<char> = Vec::new();
    if n >= 3 && w[n - 3] == 'i' && w[n - 2] == 'e' && w[n - 1] == 's' {
        assert(w@.subrange(n - 3, n as int) =~= seq!['i', 'e', 's']);
        let mut i: usize = 0;
        while i < n - 3
            invariant
                n == w.len(),
                n >= 3,
                i <= n - 3,
                out@ =~= w@.subrange(0, i as int),
            decreases n - 3 - i,
        {
            out.push(w[i]);
            i += 1;
        }
        out.push('y');
        return out;
    }
    proof {
        if n >= 3 && w@.subrange(n - 3, n as int) == seq!['i', 'e', 's'] {
            assert(w@.subrange(n - 3, n as int)[0] == w@[n - 3]);
            assert(w@.subrange(n - 3, n as int)[1] == w@[n - 2]);
            assert(w@.subrange(n - 3, n as int)[2] == w@[n - 1]);
        }
    }
    let keep: usize = if n > 1 && w[n - 1] == 's' {
        n - 1
    } else {
        n
    };
    let mut i: usize = 0;
    while i < keep
        invariant
            keep <= w.len(),
            i <= keep,
            out@ =~= w@.subrange(0, i as int),
        decreases keep - i,
    {
        out.push(w[i]);
        i += 1;
    }
    assert(w@.subrange(0, w.len() as int) =~= w@);
    out
}

/// The singular of an English plural (`users` → `user`, `categories` →
/// `category`).
pub fn singularize(word: &str) -> (r: String)
    ensures
        r@ == singular(word@),
{
    string_of(singular_chars(chars_of(word).as_slice()).as_slice())
}

/// The action a BUTTON menu's title names: the first keyword the
/// lower-cased title contains decides; `act` when none does.
pub open spec fn button_action_spec(title: Seq<char>) -> Seq<char> {
    let t = unicode_lower(title);
    if contains(t, "新增"@) || contains(t, "创建"@) || contains(t, "添加"@) || contains(t, "add"@)
        || contains(t, "create"@) {
        "create"@
    } else if contains(t, "编辑"@) || contains(t, "修改"@) || contains(t, "edit"@) || contains(
        t,
        "update"@,
    ) {
        "edit"@
    } else if contains(t, "删除"@) || contains(t, "delete"@) || contains(t, "remove"@) {
        "delete"@
    } else if contains(t, "导入"@) || contains(t, "import"@) {
        "import"@
    } else if contains(t, "导出"@) || contains(t, "export"@) {
        "export"@
    } else {
        "act"@
    }
}

/// The action keyword of a BUTTON menu title.
pub fn button_action(title: &str) -> (r: &'static str)
    ensures
        r@ == button_action_spec(title@),
{
    let ts = to_lower_case(title);
    let t = chars_of(ts.as_str());
    let has = |k: &str| -> (b: bool)
        ensures
            b == contains(t@, k@),
        { contains_chars(t.as_slice(), chars_of(k).as_slice()) };
    if has("新增") || has("创建") || has("添加") || has("add") || has("create") {
        "create"
    } else if has("编辑") || has("修改") || has("edit") || has("update") {
        "edit"
    } else if has("删除") || has("delete") || has("remove") {
        "delete"
    } else if has("导入") || has("import") {
        "import"
    } else if has("导出") || has("export") {
        "export"
    } else {
        "act"
    }
}

/// The non-empty pieces, in order.
pub open spec fn non_empty_pieces(p: Seq<Seq<char>>) -> Seq<Seq<char>>
    decreases p.len(),
{
    if p.len() == 0 {
        seq![]
    } else {
        let r = non_empty_pieces(p.drop_last());
        if p.last().len() > 0 {
            r.push(p.last())
        } else {
            r
        }
    }
}

/// The non-empty `/`-separated segments of a path.
pub open spec fn path_segments(path: Seq<char>) -> Seq<Seq<char>> {
    non_empty_pieces(split_on(path, '/'))
}

pub(crate) fn segments(path: &str) -> (r: Vec<Vec<char>>)
    ensures
        r@.len() == path_segments(path@).len(),
        forall|i: int| 0 <= i < r@.len() ==> #[trigger] r@[i]@ == path_segments(path@)[i],
{
    let c = chars_of(path);
    let parts = split_chars(c.as_slice(), '/');
    let ghost p = split_on(c@, '/');
    let mut out: Vec<Vec<char>> = Vec::new();
    let mut i: usize = 0;
    while i < parts.len()
        invariant
            i <= parts.len(),
            parts@.len() == p.len(),
            forall|j: int| 0 <= j < parts@.len() ==> #[trigger] parts@[j]@ == p[j],
            out@.len() == non_empty_pieces(p.subrange(0, i as int)).len(),
            forall|j: int|
                0 <= j < out@.len() ==> #[trigger] out@[j]@ == non_empty_pieces(
                    p.subrange(0, i as int),
                )[j],
        decreases parts.len() - i,
    {
        assert(p.subrange(0, i + 1).drop_last() =~= p.subrange(0, i as int));
        assert(p.subrange(0, i + 1).last() == p[i as int]);
        if parts[i].len() > 0 {
            let piece = parts[i].clone();
            out.push(piece);
        }
        i += 1;
    }
    assert(p.subrange(0, parts.len() as int) =~= p);
    out
}

/// The code parts of menu path segments: parameter segments (`:x`)
/// skipped, the rest singularized.
pub open spec fn menu_parts(s: Seq<Seq<char>>) -> Seq<Seq<char>>
    decreases s.len(),
{
    if s.len() == 0 {
        seq![]
    } else {
        let r = menu_parts(s.drop_last());
        if s.last().len() > 0 && s.last()[0] == ':' {
            r
        } else {
            r.push(singular(s.last()))
        }
    }
}

/// The parts joined with `sep` between them.
pub open spec fn join_with(s: Seq<Seq<char>>, sep: char) -> Seq<char>
    decreases s.len(),
{
    if s.len() == 0 {
        seq![]
    } else if s.len() == 1 {
        s[0]
    } else {
        join_with(s.drop_last(), sep) + seq![sep] + s.last()
    }
}

/// The action suffix of a menu type.
pub open spec fn menu_suffix(menu_type: Seq<char>, title: Seq<char>) -> Seq<char> {
    if menu_type == "CATALOG"@ {
        "dir"@
    } else if menu_type == "MENU"@ || menu_type == "EMBEDDED"@ {
        "view"@
    } else if menu_type == "LINK"@ {
        "jump"@
    } else if menu_type == "BUTTON"@ {
        button_action_spec(title)
    } else {
        "view"@
    }
}

/// The permission code of a menu: its path's segments after the first,
/// parameters skipped and singularized, joined by `:`, then `:` and the
/// menu type's action.
pub open spec fn menu_code_spec(path: Seq<char>, title: Seq<char>, menu_type: Seq<char>) -> Seq<char> {
    let segs = path_segments(path);
    let rest = if segs.len() > 0 {
        segs.drop_first()
    } else {
        seq![]
    };
    let code = join_with(menu_parts(rest), ':');
    (if code.len() > 0 {
        code.push(':')
    } else {
        code
    }) + menu_suffix(menu_type, title)
}

fn menu_suffix_text(menu_type: &str, title: &str) -> (r: &'static str)
    ensures
        r@ == menu_suffix(menu_type@, title@),
{
    if str_eq(menu_type, "CATALOG") {
        "dir"
    } else if str_eq(menu_type, "MENU") || str_eq(menu_type, "EMBEDDED") {
        "view"
    } else if str_eq(menu_type, "LINK") {
        "jump"
    } else if str_eq(menu_type, "BUTTON") {
        button_action(title)
    } else {
        "view"
    }
}

/// The permission code of a menu (path, title, type).
pub fn menu_code(path: &str, title: &str, menu_type: &str) -> (r: String)
    ensures
        r@ == menu_code_spec(path@, title@, menu_type@),
{
    let segs = segments(path);
    let ghost all = path_segments(path@);
    let ghost rest = if all.len() > 0 {
        all.drop_first()
    } else {
        seq![]
    };
    let mut parts: Vec<Vec<char>> = Vec::new();
    let mut i: usize = 1;
    proof {
        if all.len() > 0 {
            assert(rest.subrange(0, 0) =~= Seq::<Seq<char>>::empty());
        }
    }
    while i < segs.len()
        invariant
            1 <= i,
            i <= segs.len() || segs.len() == 0,
            segs@.len() == all.len(),
            forall|j: int| 0 <= j < segs@.len() ==> #[trigger] segs@[j]@ == all[j],
            all.len() > 0 ==> rest == all.drop_first(),
            all.len() == 0 ==> parts@.len() == 0,
            all.len() > 0 ==> parts@.len() == menu_parts(rest.subrange(0, i - 1)).len(),
            all.len() > 0 ==> forall|j: int|
                0 <= j < parts@.len() ==> #[trigger] parts@[j]@ == menu_parts(
                    rest.subrange(0, i - 1),
                )[j],
        decreases segs.len() - i,
    {
        let ghost pre = rest.subrange(0, i - 1);
        assert(rest.subrange(0, i as int).drop_last() =~= pre);
        assert(rest.subrange(0, i as int).last() == all[i as int]);
        let seg = &segs[i];
        if seg.len() > 0 && seg[0] == ':' {
        } else {
            let sg = singular_chars(seg.as_slice());
            parts.push(sg);
        }
        i += 1;
    }
    let ghost mp = menu_parts(rest);
    proof {
        if all.len() > 0 {
            assert(i == segs.len());
            assert(rest.subrange(0, i - 1) =~= rest);
        } else {
            assert(mp =~= Seq::<Seq<char>>::empty());
        }
    }
    assert(parts@.len() == mp.len());
    let mut code: Vec<char> = Vec::new();
    let mut k: usize = 0;
    while k < parts.len()
        invariant
            k <= parts.len(),
            parts@.len() == mp.len(),
            forall|j: int| 0 <= j < parts@.len() ==> #[trigger] parts@[j]@ == mp[j],
            code@ =~= join_with(mp.subrange(0, k as int), ':'),
        decreases parts.len() - k,
    {
        assert(mp.subrange(0, k + 1).drop_last() =~= mp.subrange(0, k as int));
        if k > 0 {
            code.push(':');
        }
        push_chars(&mut code, parts[k].as_slice());
        k += 1;
    }
    assert(mp.subrange(0, mp.len() as int) =~= mp);
    if code.len() > 0 {
        code.push(':');
    }
    let suffix = menu_suffix_text(menu_type, title);
    push_chars(&mut code, chars_of(suffix).as_slice());
    string_of(code.as_slice())
}

/// The resource segments of an API path: after the version prefix (two
/// segments), parameter segments (`{x}`, `:x`) skipped.
pub open spec fn api_parts(s: Seq<Seq<char>>) -> Seq<Seq<char>>
    decreases s.len(),
{
    if s.len() == 0 {
        seq![]
    } else {
        let r = api_parts(s.drop_last());
        if s.last().len() > 0 && (s.last()[0] == '{' || s.last()[0] == ':') {
            r
        } else {
            r.push(s.last())
        }
    }
}

/// The action an API method performs; a `GET` of a `/list` path views.
pub open spec fn api_action(method: Seq<char>, path: Seq<char>) -> Seq<char> {
    if is_suffix("/list"@, path) && method == "GET"@ {
        "view"@
    } else if method == "GET"@ {
        "view"@
    } else if method == "POST"@ {
        "create"@
    } else if method == "PUT"@ || method == "PATCH"@ {
        "edit"@
    } else if method == "DELETE"@ {
        "delete"@
    } else {
        "view"@
    }
}

/// The permission code of an API route: its first resource segment,
/// singularized, then `:` and the method's action; the action alone when
/// the route has no resource segment.
pub open spec fn api_code_spec(method: Seq<char>, path: Seq<char>) -> Seq<char> {
    let segs = path_segments(path);
    let rest = if segs.len() > 2 {
        segs.subrange(2, segs.len() as int)
    } else {
        seq![]
    };
    let kept = api_parts(rest);
    let resource = if kept.len() > 0 {
        singular(kept[0])
    } else {
        seq![]
    };
    if resource.len() == 0 {
        api_action(method, path)
    } else {
        resource + seq![':'] + api_action(method, path)
    }
}

proof fn lemma_api_parts_first(s: Seq<Seq<char>>, i: int)
    requires
        0 <= i <= s.len(),
        forall|j: int| 0 <= j < i ==> s[j].len() > 0 && (s[j][0] == '{' || s[j][0] == ':'),
    ensures
        api_parts(s.subrange(0, i)).len() == 0,
    decreases i,
{
    if i > 0 {
        assert(s.subrange(0, i).drop_last() =~= s.subrange(0, i - 1));
        lemma_api_parts_first(s, i - 1);
    } else {
        assert(s.subrange(0, 0) =~= Seq::<Seq<char>>::empty());
    }
}

proof fn lemma_api_parts_prefix(s: Seq<Seq<char>>, i: int)
    requires
        0 <= i < s.len(),
        api_parts(s.subrange(0, i)).len() == 0,
        !(s[i].len() > 0 && (s[i][0] == '{' || s[i][0] == ':')),
    ensures
        api_parts(s).len() > 0,
        api_parts(s)[0] == s[i],
    decreases s.len() - i,
{
    if i == s.len() - 1 {
        assert(s.drop_last() =~= s.subrange(0, i));
    } else {
        assert(s.drop_last().subrange(0, i) =~= s.subrange(0, i));
        lemma_api_parts_prefix(s.drop_last(), i);
    }
}

proof fn lemma_api_parts_none(s: Seq<Seq<char>>)
    requires
        forall|j: int| 0 <= j < s.len() ==> s[j].len() > 0 && (s[j][0] == '{' || s[j][0] == ':'),
    ensures
        api_parts(s).len() == 0,
{
    lemma_api_parts_first(s, s.len() as int);
    assert(s.subrange(0, s.len() as int) =~= s);
}

fn api_action_text(method: &str, path: &str) -> (r: &'static str)
    ensures
        r@ == api_action(method@, path@),
{
    let p = chars_of(path);
    if ends_with(p.as_slice(), chars_of("/list").as_slice()) && str_eq(method, "GET") {
        "view"
    } else if str_eq(method, "GET") {
        "view"
    } else if str_eq(method, "POST") {
        "create"
    } else if str_eq(method, "PUT") || str_eq(method, "PATCH") {
        "edit"
    } else if str_eq(method, "DELETE") {
        "delete"
    } else {
        "view"
    }
}

/// The permission code of an API route (method, path).
pub fn api_code(method: &str, path: &str) -> (r: String)
    ensures
        r@ == api_code_spec(method@, path@),
{
    let segs = segments(path);
    let ghost all = path_segments(path@);
    let ghost rest = if all.len() > 2 {
        all.subrange(2, all.len() as int)
    } else {
        seq![]
    };
    let mut i: usize = 2;
    while i < segs.len() && segs[i].len() > 0 && (segs[i][0] == '{' || segs[i][0] == ':')
        invariant
            2 <= i,
            i <= segs.len() || segs.len() <= 2,
            segs@.len() == all.len(),
            forall|j: int| 0 <= j < segs@.len() ==> #[trigger] segs@[j]@ == all[j],
            all.len() > 2 ==> rest == all.subrange(2, all.len() as int),
            forall|j: int|
                2 <= j < i ==> (#[trigger] all[j]).len() > 0 && (all[j][0] == '{' || all[j][0]
                    == ':'),
        decreases segs.len() - i,
    {
        i += 1;
    }
    let found: Option<usize> = if i < segs.len() {
        Some(i)
    } else {
        None
    };
    let action = api_action_text(method, path);
    let resource: Vec<char> = match found {
        Some(idx) => {
            proof {
                assert forall|j: int| 0 <= j < idx - 2 implies rest[j].len() > 0 && (rest[j][0] == '{' || rest[j][0] == ':') by {
                    assert(rest[j] == all[j + 2]);
                }
                lemma_api_parts_first(rest, idx - 2);
                assert(rest[idx - 2] == all[idx as int]);
                lemma_api_parts_prefix(rest, idx - 2);
            }
            singular_chars(segs[idx].as_slice())
        },
        None => {
            proof {
                if all.len() > 2 {
                    assert(i == segs.len());
                    assert forall|j: int| 0 <= j < rest.len() implies rest[j].len() > 0 && (rest[j][0] == '{' || rest[j][0] == ':') by {
                        assert(rest[j] == all[j + 2]);
                    }
                    lemma_api_parts_none(rest);
                } else {
                    assert(api_parts(rest) =~= Seq::<Seq<char>>::empty());
                }
            }
            Vec::new()
        },
    };
    if resource.len() == 0 {
        return string_of(chars_of(action).as_slice());
    }
    let mut out = resource;
    out.push(':');
    push_chars(&mut out, chars_of(action).as_slice());
    string_of(out.as_slice())
}


/// A code names `action`: it is the action alone, or ends in `:` and the
/// action.
pub open spec fn names_action(code: Seq<char>, action: Seq<char>) -> bool {
    code == action || is_suffix(seq![':'] + action, code)
}

/// The API code of a route names its method's action, and the resource
/// part does not depend on the method: a `PUT` and a `PATCH` of the same
/// path derive the same code, ending in `edit`; `POST` creates, `DELETE`
/// deletes and `GET` views.
pub proof fn lemma_api_code_actions(path: Seq<char>)
    ensures
        api_code_spec("PATCH"@, path) == api_code_spec("PUT"@, path),
        names_action(api_code_spec("PUT"@, path), "edit"@),
        names_action(api_code_spec("PATCH"@, path), "edit"@),
        names_action(api_code_spec("POST"@, path), "create"@),
        names_action(api_code_spec("DELETE"@, path), "delete"@),
        names_action(api_code_spec("GET"@, path), "view"@),
        forall|m: Seq<char>|
            m != "POST"@ && m != "PUT"@ && m != "PATCH"@ && m != "DELETE"@ ==> #[trigger] names_action(
                api_code_spec(m, path),
                "view"@,
            ),
{
    reveal_strlit("GET");
    reveal_strlit("POST");
    reveal_strlit("PUT");
    reveal_strlit("PATCH");
    reveal_strlit("DELETE");
    assert("GET"@[0] == 'G' && "DELETE"@[0] == 'D');
    assert("POST"@[0] == 'P' && "POST"@[1] == 'O');
    assert("PUT"@[0] == 'P' && "PUT"@[1] == 'U');
    assert("PATCH"@[0] == 'P' && "PATCH"@[1] == 'A');
    lemma_action_suffix(path, "PUT"@, "edit"@);
    lemma_action_suffix(path, "PATCH"@, "edit"@);
    lemma_action_suffix(path, "POST"@, "create"@);
    lemma_action_suffix(path, "DELETE"@, "delete"@);
    lemma_action_suffix(path, "GET"@, "view"@);
    assert forall|m: Seq<char>|
        m != "POST"@ && m != "PUT"@ && m != "PATCH"@ && m != "DELETE"@ implies #[trigger] names_action(
            api_code_spec(m, path),
            "view"@,
        ) by {
        lemma_action_suffix(path, m, "view"@);
    }
}

proof fn lemma_action_suffix(path: Seq<char>, method: Seq<char>, action: Seq<char>)
    requires
        api_action(method, path) == action,
    ensures
        names_action(api_code_spec(method, path), action),
{
    let c = api_code_spec(method, path);
    if c != action {
        assert(c.subrange(c.len() - (action.len() + 1), c.len() as int) =~= seq![':'] + action);
    }
}

} // verus!
