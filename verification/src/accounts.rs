//! Accounts: what a login identifier is looked up by, how the lookup
//! resolves to a username, the fields of a new user, and the password
//! history kept in a credential's extra information.

use vstd::prelude::*;
use crate::json::{get, has_key, entry_value, JsonValue};
use crate::text::{chars_of, str_eq};

verus! {

/// The fields of a new user.
pub struct NewUser<'a> {
    pub username: &'a str,
    pub nickname: Option<&'a str>,
    pub realname: Option<&'a str>,
    pub email: Option<&'a str>,
    pub mobile: Option<&'a str>,
    pub gender: Option<&'a str>,
    pub remark: Option<&'a str>,
    pub status: &'a str,
}

/// What a login identifier is looked up by.
pub enum IdentifierLookup {
    /// The identifier is the username itself.
    Verbatim,
    /// The identifier is an email address.
    ByEmail,
    /// The identifier is a mobile number.
    ByMobile,
}

/// A non-empty run of ASCII digits.
pub open spec fn all_ascii_digits(s: Seq<char>) -> bool {
    forall|i: int| 0 <= i < s.len() ==> '0' <= #[trigger] s[i] <= '9'
}

/// What a login identifier is looked up by: an empty one is taken as it
/// is; one with `@` is an email; one of digits only is a mobile number;
/// anything else is a username.
pub fn identifier_lookup(input: &str) -> (r: IdentifierLookup)
    ensures
        input@.len() == 0 ==> r is Verbatim,
        input@.len() > 0 && input@.contains('@') ==> r is ByEmail,
        input@.len() > 0 && !input@.contains('@') && all_ascii_digits(input@) ==> r is ByMobile,
        input@.len() > 0 && !input@.contains('@') && !all_ascii_digits(input@) ==> r is Verbatim,
{
    let c = chars_of(input);
    if c.len() == 0 {
        return IdentifierLookup::Verbatim;
    }
    let mut at = false;
    let mut digits = true;
    let mut i: usize = 0;
    while i < c.len()
        invariant
            i <= c@.len(),
            c@ == input@,
            at == exists|j: int| 0 <= j < i && c@[j] == '@',
            digits == forall|j: int| 0 <= j < i ==> '0' <= #[trigger] c@[j] <= '9',
        decreases c@.len() - i,
    {
        if c[i] == '@' {
            at = true;
        }
        if !('0' <= c[i] && c[i] <= '9') {
            digits = false;
        }
        i += 1;
    }
    proof {
        if at {
            let j = choose|j: int| 0 <= j < i && c@[j] == '@';
            assert(input@.contains('@') == (exists|k: int| 0 <= k < input@.len() && input@[k] == '@'));
        }
    }
    if at {
        IdentifierLookup::ByEmail
    } else if digits {
        IdentifierLookup::ByMobile
    } else {
        IdentifierLookup::Verbatim
    }
}

/// The username an email lookup resolves to: the found user's, else the
/// identifier itself.
pub fn resolve_by_email(input: &str, found: Option<String>) -> (r: String)
    ensures
        r@ == (match found {
            Some(u) => u@,
            None => input@,
        }),
{
    match found {
        Some(u) => u,
        None => input.to_owned(),
    }
}

/// The username a mobile lookup resolves to: more than one match is
/// ambiguous; one match gives its username; none gives the identifier.
pub fn resolve_by_mobile(input: &str, found: &Vec<String>) -> (r: Result<String, String>)
    ensures
        found@.len() > 1 ==> (r matches Err(e) && e@ == "ambiguous account identifier"@),
        found@.len() == 1 ==> (r matches Ok(u) && u@ == found@[0]@),
        found@.len() == 0 ==> (r matches Ok(u) && u@ == input@),
{
    if found.len() > 1 {
        Err("ambiguous account identifier".to_owned())
    } else if found.len() == 1 {
        Ok(found[0].clone())
    } else {
        Ok(input.to_owned())
    }
}

/// The strings of a JSON array made of strings only.
pub open spec fn string_items(items: Seq<JsonValue>) -> Option<Seq<Seq<char>>>
    decreases items.len(),
{
    if items.len() == 0 {
        Some(seq![])
    } else {
        match (string_items(items.drop_last()), items.last()) {
            (Some(p), JsonValue::String(s)) => Some(p.push(s@)),
            _ => None,
        }
    }
}

/// The password history a credential's extra information holds: its
/// `password_history` member when that is an array of strings, else none.
pub open spec fn history_of(extra: Option<JsonValue>) -> Seq<Seq<char>> {
    match extra {
        Some(JsonValue::Object(e)) => if has_key(e@, "password_history"@) {
            match entry_value(e@, "password_history"@) {
                JsonValue::Array(items) => match string_items(items@) {
                    Some(h) => h,
                    None => seq![],
                },
                _ => seq![],
            }
        } else {
            seq![]
        },
        _ => seq![],
    }
}

/// The views of a list of strings.
pub open spec fn texts(v: Seq<String>) -> Seq<Seq<char>> {
    v.map_values(|s: String| s@)
}

fn strings_of(items: &Vec<JsonValue>) -> (r: Option<Vec<String>>)
    ensures
        match r {
            Some(v) => string_items(items@) == Some(texts(v@)),
            None => string_items(items@) is None,
        },
{
    let mut out: Vec<String> = Vec::new();
    let mut i: usize = 0;
    assert(items@.take(0) =~= Seq::<JsonValue>::empty());
    while i < items.len()
        invariant
            i <= items@.len(),
            string_items(items@.take(i as int)) == Some(texts(out@)),
        decreases items@.len() - i,
    {
        assert(items@.take(i + 1).drop_last() =~= items@.take(i as int));
        match &items[i] {
            JsonValue::String(s) => {
                out.push(s.clone());
                assert(texts(out@) =~= texts(out@.drop_last()).push(s@));
            },
            _ => {
                proof {
                    lemma_string_items_prefix(items@, i as int + 1);
                }
                return None;
            },
        }
        i += 1;
    }
    assert(items@.take(items@.len() as int) =~= items@);
    Some(out)
}

proof fn lemma_string_items_prefix(items: Seq<JsonValue>, n: int)
    requires
        0 <= n <= items.len(),
        string_items(items.take(n)) is None,
    ensures
        string_items(items) is None,
    decreases items.len() - n,
{
    if n < items.len() {
        assert(items.take(n + 1).drop_last() =~= items.take(n));
        lemma_string_items_prefix(items, n + 1);
    } else {
        assert(items.take(n) =~= items);
    }
}

/// The password history a credential's extra information holds.
pub fn read_history(extra: Option<&JsonValue>) -> (r: Vec<String>)
    ensures
        texts(r@) == history_of(match extra {
            Some(v) => Some(*v),
            None => None,
        }),
{
    match extra {
        Some(JsonValue::Object(e)) => match get(e, "password_history") {
            Some(JsonValue::Array(items)) => match strings_of(items) {
                Some(h) => h,
                None => Vec::new(),
            },
            _ => Vec::new(),
        },
        _ => Vec::new(),
    }
}

/// The history after a password change: the old hash appended, then only
/// the last `keep` kept.
pub open spec fn appended_history(history: Seq<Seq<char>>, old_hash: Seq<char>, keep: nat) -> Seq<
    Seq<char>,
> {
    let h = history.push(old_hash);
    if h.len() > keep {
        h.skip(h.len() - keep)
    } else {
        h
    }
}

/// The extra information after a password change: `password_history`
/// holding the old hash appended to the history, only the last `keep`
/// kept.
pub fn write_history(old_hash: &str, history: Vec<String>, keep: usize) -> (r: JsonValue)
    ensures
        r matches JsonValue::Object(e) && e@.len() == 1 && e@[0].0@ == "password_history"@ && (
        e@[0].1 matches JsonValue::Array(items) && string_items(items@) == Some(
            appended_history(texts(history@), old_hash@, keep as nat),
        )),
{
    let mut h = history;
    h.push(old_hash.to_owned());
    let ghost all = texts(h@);
    let cut: usize = if h.len() > keep {
        h.len() - keep
    } else {
        0
    };
    let mut items: Vec<JsonValue> = Vec::new();
    let mut i: usize = cut;
    assert(all.subrange(cut as int, cut as int) =~= Seq::<Seq<char>>::empty());
    while i < h.len()
        invariant
            cut <= i <= h@.len(),
            all == texts(h@),
            string_items(items@) == Some(all.subrange(cut as int, i as int)),
        decreases h@.len() - i,
    {
        let ghost before = items@;
        items.push(JsonValue::String(h[i].clone()));
        assert(items@.drop_last() =~= before);
        assert(all.subrange(cut as int, i + 1) =~= all.subrange(cut as int, i as int).push(all[i as int]));
        i += 1;
    }
    proof {
        assert(texts(history@).push(old_hash@) =~= all);
        if all.len() > keep {
            assert(all.subrange(cut as int, all.len() as int) =~= all.skip(all.len() - keep));
        } else {
            assert(all.subrange(0, all.len() as int) =~= all);
        }
    }
    let mut e: Vec<(String, JsonValue)> = Vec::new();
    e.push(("password_history".to_owned(), JsonValue::Array(items)));
    JsonValue::Object(e)
}

/// A written history reads back as the old hash appended to the earlier
/// history, only the last `keep` kept — never more than `keep` hashes,
/// the newest last.
pub proof fn lemma_history_roundtrip(history: Seq<Seq<char>>, old_hash: Seq<char>, keep: nat, doc: JsonValue)
    requires
        doc matches JsonValue::Object(e) && e@.len() == 1 && e@[0].0@ == "password_history"@ && (
        e@[0].1 matches JsonValue::Array(items) && string_items(items@) == Some(
            appended_history(history, old_hash, keep),
        )),
    ensures
        history_of(Some(doc)) == appended_history(history, old_hash, keep),
        history_of(Some(doc)).len() <= keep,
        keep > 0 ==> history_of(Some(doc)).last() == old_hash,
{
    let e = doc->Object_0@;
    assert(e.drop_last() =~= Seq::<(String, JsonValue)>::empty());
    assert(crate::json::key_index(e, "password_history"@) == 0);
}

} // verus!
