//! The cache monitor's reading of a Redis `INFO` reply: every
//! `key:value` line that is not a `#` heading, key and value trimmed.

use vstd::prelude::*;
use crate::files::{first_index, lemma_first_index};
use crate::text::{chars_of, split_chars, split_on, string_of, trim, trimmed, lemma_split_nonempty};

verus! {

/// A line without the carriage return ending it.
pub open spec fn strip_cr(l: Seq<char>) -> Seq<char> {
    if l.len() > 0 && l.last() == '\r' {
        l.drop_last()
    } else {
        l
    }
}

/// The lines of a text as `str::lines` yields them: split at `\n` (a
/// `\r` before it dropped), a final empty line not counted.
pub open spec fn text_lines(s: Seq<char>) -> Seq<Seq<char>> {
    let p = split_on(s, '\n');
    let body = p.drop_last().map_values(|l: Seq<char>| strip_cr(l));
    if p.last().len() > 0 {
        body.push(p.last())
    } else {
        body
    }
}

/// A line of the reply that carries a field: it holds a `:` and is no
/// `#` heading.
pub open spec fn is_field_line(l: Seq<char>) -> bool {
    l.contains(':') && !(l.len() > 0 && l[0] == '#')
}

/// The field of a line: the trimmed text before its first `:` and the
/// trimmed text after it.
pub open spec fn field_of(l: Seq<char>) -> (Seq<char>, Seq<char>) {
    let i = first_index(l, ':');
    (trim(l.take(i)), trim(l.skip(i + 1)))
}

/// The fields of the lines, in order.
pub open spec fn fields_of(lines: Seq<Seq<char>>) -> Seq<(Seq<char>, Seq<char>)>
    decreases lines.len(),
{
    if lines.len() == 0 {
        seq![]
    } else if is_field_line(lines.last()) {
        fields_of(lines.drop_last()).push(field_of(lines.last()))
    } else {
        fields_of(lines.drop_last())
    }
}

fn line_field(l: &Vec<char>) -> (r: Option<(String, String)>)
    ensures
        match r {
            Some((k, v)) => is_field_line(l@) && (k@, v@) == field_of(l@),
            None => !is_field_line(l@),
        },
{
    let mut i: usize = 0;
    while i < l.len() && l[i] != ':'
        invariant
            i <= l@.len(),
            forall|j: int| 0 <= j < i ==> l@[j] != ':',
        decreases l@.len() - i,
    {
        i += 1;
    }
    if i == l.len() {
        assert(!l@.contains(':'));
        return None;
    }
    if l[0] == '#' {
        return None;
    }
    proof {
        lemma_first_index(l@, ':');
        let f = first_index(l@, ':');
        if f >= 0 && f != i {
            if f < i {
                assert(l@[f] == ':');
            }
        }
        assert(f == i);
    }
    let mut key: Vec<char> = Vec::new();
    let mut k: usize = 0;
    while k < i
        invariant
            k <= i < l@.len(),
            key@ =~= l@.take(k as int),
        decreases i - k,
    {
        key.push(l[k]);
        k += 1;
    }
    let mut value: Vec<char> = Vec::new();
    let mut m: usize = i + 1;
    while m < l.len()
        invariant
            i + 1 <= m <= l@.len(),
            value@ =~= l@.subrange(i + 1, m as int),
        decreases l@.len() - m,
    {
        value.push(l[m]);
        m += 1;
    }
    assert(value@ =~= l@.skip(i + 1));
    let kt = trimmed(key.as_slice());
    let vt = trimmed(value.as_slice());
    Some((string_of(kt.as_slice()), string_of(vt.as_slice())))
}

/// The fields of an `INFO` reply, in line order.
pub fn info_entries(info: &str) -> (r: Vec<(String, String)>)
    ensures
        r@.map_values(|e: (String, String)| (e.0@, e.1@)) == fields_of(text_lines(info@)),
{
    let c = chars_of(info);
    let pieces = split_chars(c.as_slice(), '\n');
    proof {
        lemma_split_nonempty(c@, '\n');
    }
    let ghost p = split_on(info@, '\n');
    let ghost body = p.drop_last().map_values(|l: Seq<char>| strip_cr(l));
    let mut out: Vec<(String, String)> = Vec::new();
    let mut i: usize = 0;
    let n = pieces.len() - 1;
    assert(body.take(0) =~= Seq::<Seq<char>>::empty());
    while i < n
        invariant
            n + 1 == pieces@.len(),
            i <= n,
            pieces@.len() == p.len(),
            forall|j: int| 0 <= j < pieces@.len() ==> #[trigger] pieces@[j]@ == p[j],
            body == p.drop_last().map_values(|l: Seq<char>| strip_cr(l)),
            out@.map_values(|e: (String, String)| (e.0@, e.1@)) == fields_of(body.take(i as int)),
        decreases n - i,
    {
        let raw = &pieces[i];
        let mut line: Vec<char> = Vec::new();
        let len = raw.len();
        let keep = if len > 0 && raw[len - 1] == '\r' {
            len - 1
        } else {
            len
        };
        let mut k: usize = 0;
        while k < keep
            invariant
                k <= keep <= raw@.len(),
                line@ =~= raw@.take(k as int),
            decreases keep - k,
        {
            line.push(raw[k]);
            k += 1;
        }
        assert(line@ == strip_cr(p[i as int])) by {
            assert(raw@ == p[i as int]);
            if len > 0 && raw@[len - 1] == '\r' {
                assert(raw@.take(keep as int) =~= raw@.drop_last());
            } else {
                assert(raw@.take(keep as int) =~= raw@);
            }
        }
        assert(body.take(i + 1).drop_last() =~= body.take(i as int));
        assert(body[i as int] == strip_cr(p[i as int]));
        let ghost before = out@.map_values(|e: (String, String)| (e.0@, e.1@));
        match line_field(&line) {
            Some(f) => {
                out.push(f);
                assert(out@.map_values(|e: (String, String)| (e.0@, e.1@)) =~= before.push(
                    field_of(line@),
                ));
            },
            None => {},
        }
        i += 1;
    }
    assert(body.take(n as int) =~= body);
    let last = &pieces[n];
    assert(last@ == p.last());
    if last.len() > 0 {
        let ghost before = out@.map_values(|e: (String, String)| (e.0@, e.1@));
        assert(text_lines(info@) == body.push(p.last()));
        assert(text_lines(info@).drop_last() =~= body);
        match line_field(last) {
            Some(f) => {
                out.push(f);
                assert(out@.map_values(|e: (String, String)| (e.0@, e.1@)) =~= before.push(
                    field_of(last@),
                ));
            },
            None => {},
        }
    }
    out
}

/// The database size a monitor reports: negative answers count as none.
pub fn db_size(reply: i64) -> (r: u64)
    ensures
        r == (if reply < 0 {
            0
        } else {
            reply
        }),
{
    if reply < 0 {
        0
    } else {
        reply as u64
    }
}

} // verus!
