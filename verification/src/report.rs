//! The replay report: one record per case, and the summary — the verdict
//! histogram in verdict order, every failed case's detail line, and the
//! count of pending cases.

use vstd::prelude::*;
use crate::compare::{kind_name, kind_text, verdict_name, verdict_text, Kind, Verdict};
use crate::corpus::Case;
use crate::probe::{ProbeResult, Side};
use crate::text::{
    chars_lt, chars_of, dec, decimal, lemma_lex_irreflexive, lemma_lex_total,
    increasing, lemma_lex_transitive, lex_lt, push_chars, push_str, str_eq, string_of,
};

verus! {

/// One report record. Body bytes are never echoed; a failed case's
/// detail carries the divergence evidence.
pub struct Entry {
    pub id: String,
    pub class: String,
    pub kind: String,
    pub verdict: String,
    pub go: Side,
    pub rust: Side,
    pub detail: Option<String>,
}

/// How often `v` occurs in `vs`.
pub open spec fn occurrences(vs: Seq<Seq<char>>, v: Seq<char>) -> nat
    decreases vs.len(),
{
    if vs.len() == 0 {
        0
    } else {
        occurrences(vs.drop_last(), v) + if vs.last() == v {
            1nat
        } else {
            0nat
        }
    }
}

/// `h` is the histogram of `vs`: its keys strictly increasing, each
/// counted as often as it occurs, and every value of `vs` among them.
pub open spec fn is_histogram(vs: Seq<Seq<char>>, h: Seq<(Seq<char>, nat)>) -> bool {
    &&& forall|i: int, j: int| 0 <= i < j < h.len() ==> lex_lt(h[i].0, h[j].0)
    &&& forall|i: int| 0 <= i < h.len() ==> (#[trigger] h[i]).1 == occurrences(vs, h[i].0)
    &&& forall|i: int| 0 <= i < h.len() ==> (#[trigger] h[i]).1 > 0
    &&& forall|k: int|
        #![trigger vs[k]]
        0 <= k < vs.len() ==> exists|i: int| #![trigger h[i]] 0 <= i < h.len() && h[i].0 == vs[k]
}

/// The verdicts of a list of records.
pub open spec fn verdicts(es: Seq<Entry>) -> Seq<Seq<char>> {
    es.map_values(|e: Entry| e.verdict@)
}

/// The view of a histogram.
pub open spec fn hist_view(h: Seq<(String, usize)>) -> Seq<(Seq<char>, nat)> {
    h.map_values(|e: (String, usize)| (e.0@, e.1 as nat))
}

proof fn lemma_occurrences_push(vs: Seq<Seq<char>>, v: Seq<char>, x: Seq<char>)
    ensures
        occurrences(vs.push(v), x) == occurrences(vs, x) + if v == x {
            1nat
        } else {
            0nat
        },
{
    assert(vs.push(v).drop_last() =~= vs);
}

proof fn lemma_occurrences_member(vs: Seq<Seq<char>>, x: Seq<char>)
    ensures
        occurrences(vs, x) > 0 <==> exists|k: int| 0 <= k < vs.len() && vs[k] == x,
    decreases vs.len(),
{
    if vs.len() > 0 {
        let p = vs.drop_last();
        lemma_occurrences_member(p, x);
        if occurrences(p, x) > 0 {
            let k = choose|k: int| 0 <= k < p.len() && p[k] == x;
            assert(vs[k] == p[k]);
        }
        if exists|k: int| 0 <= k < vs.len() && vs[k] == x {
            let k = choose|k: int| 0 <= k < vs.len() && vs[k] == x;
            if k < vs.len() - 1 {
                assert(p[k] == vs[k]);
            }
        }
    }
}

/// Two strictly increasing lists holding the same elements are equal.
proof fn lemma_increasing_same(a: Seq<Seq<char>>, b: Seq<Seq<char>>)
    requires
        increasing(a),
        increasing(b),
        forall|i: int| 0 <= i < a.len() ==> b.contains(#[trigger] a[i]),
        forall|j: int| 0 <= j < b.len() ==> a.contains(#[trigger] b[j]),
    ensures
        a == b,
    decreases a.len() + b.len(),
{
    if a.len() == 0 {
        if b.len() > 0 {
            assert(a.contains(b[0]));
        }
        assert(a =~= b);
    } else if b.len() == 0 {
        assert(b.contains(a[0]));
    } else {
        assert(b.contains(a[0]));
        assert(a.contains(b[0]));
        let j = choose|j: int| 0 <= j < b.len() && b[j] == a[0];
        let i = choose|i: int| 0 <= i < a.len() && a[i] == b[0];
        if j > 0 {
            assert(lex_lt(b[0], b[j]));
            if i > 0 {
                assert(lex_lt(a[0], a[i]));
                lemma_lex_transitive(a[0], b[0], a[0]);
            }
            lemma_lex_irreflexive(a[0]);
        }
        assert(a[0] == b[0]);
        let a2 = a.drop_first();
        let b2 = b.drop_first();
        assert forall|x: int| 0 <= x < a2.len() implies b2.contains(#[trigger] a2[x]) by {
            assert(a2[x] == a[x + 1]);
            assert(b.contains(a[x + 1]));
            let y = choose|y: int| 0 <= y < b.len() && b[y] == a[x + 1];
            assert(lex_lt(a[0], a[x + 1]));
            if y == 0 {
                lemma_lex_irreflexive(a[0]);
            }
            assert(b2[y - 1] == b[y]);
        }
        assert forall|y: int| 0 <= y < b2.len() implies a2.contains(#[trigger] b2[y]) by {
            assert(b2[y] == b[y + 1]);
            assert(a.contains(b[y + 1]));
            let x = choose|x: int| 0 <= x < a.len() && a[x] == b[y + 1];
            assert(lex_lt(b[0], b[y + 1]));
            if x == 0 {
                lemma_lex_irreflexive(b[0]);
            }
            assert(a2[x - 1] == a[x]);
        }
        lemma_increasing_same(a2, b2);
        assert(a =~= seq![a[0]] + a2);
        assert(b =~= seq![b[0]] + b2);
    }
}

/// The keys of a histogram.
pub open spec fn hist_keys(h: Seq<(Seq<char>, nat)>) -> Seq<Seq<char>> {
    h.map_values(|e: (Seq<char>, nat)| e.0)
}

/// The histogram of a list of verdicts is unique: two histograms of the
/// same verdicts are equal.
#[verifier::spinoff_prover]
pub proof fn lemma_histogram_unique(vs: Seq<Seq<char>>, h: Seq<(Seq<char>, nat)>, g: Seq<(Seq<char>, nat)>)
    requires
        is_histogram(vs, h),
        is_histogram(vs, g),
    ensures
        h == g,
{
    let hk = hist_keys(h);
    let gk = hist_keys(g);
    assert forall|i: int| 0 <= i < hk.len() implies gk.contains(#[trigger] hk[i]) by {
        lemma_occurrences_member(vs, h[i].0);
        assert(h[i].1 > 0);
        let k = choose|k: int| 0 <= k < vs.len() && vs[k] == h[i].0;
        let j = choose|j: int| #![trigger g[j]] 0 <= j < g.len() && g[j].0 == vs[k];
        assert(gk[j] == g[j].0);
    }
    assert forall|j: int| 0 <= j < gk.len() implies hk.contains(#[trigger] gk[j]) by {
        lemma_occurrences_member(vs, g[j].0);
        assert(g[j].1 > 0);
        let k = choose|k: int| 0 <= k < vs.len() && vs[k] == g[j].0;
        let i = choose|i: int| #![trigger h[i]] 0 <= i < h.len() && h[i].0 == vs[k];
        assert(hk[i] == h[i].0);
    }
    assert(increasing(hk)) by {
        assert forall|i: int, j: int| 0 <= i < j < hk.len() implies lex_lt(hk[i], hk[j]) by {
            assert(hk[i] == h[i].0 && hk[j] == h[j].0);
        }
    }
    assert(increasing(gk)) by {
        assert forall|i: int, j: int| 0 <= i < j < gk.len() implies lex_lt(gk[i], gk[j]) by {
            assert(gk[i] == g[i].0 && gk[j] == g[j].0);
        }
    }
    lemma_increasing_same(hk, gk);
    assert(h.len() == hk.len() && g.len() == gk.len());
    assert forall|i: int| 0 <= i < h.len() implies h[i] == g[i] by {
        assert(hk[i] == gk[i]);
        assert(h[i].1 == occurrences(vs, h[i].0));
        assert(g[i].1 == occurrences(vs, g[i].0));
    }
    assert(h =~= g);
}

/// The verdict histogram of the records: the distinct verdicts in
/// increasing order, each with its count.
pub fn verdict_histogram(entries: &Vec<Entry>) -> (r: Vec<(String, usize)>)
    ensures
        is_histogram(verdicts(entries@), hist_view(r@)),
{
    let ghost vs = verdicts(entries@);
    let mut h: Vec<(String, usize)> = Vec::new();
    let mut k: usize = 0;
    assert(vs.take(0) =~= Seq::<Seq<char>>::empty());
    while k < entries.len()
        invariant
            k <= entries.len(),
            vs == verdicts(entries@),
            is_histogram(vs.take(k as int), hist_view(h@)),
            forall|i: int| 0 <= i < h@.len() ==> (#[trigger] h@[i]).1 <= k,
        decreases entries.len() - k,
    {
        let ghost pre = vs.take(k as int);
        let ghost hv = hist_view(h@);
        assert(vs.take(k + 1) =~= pre.push(vs[k as int]));
        let v = chars_of(entries[k].verdict.as_str());
        assert(v@ == vs[k as int]);
        let mut i: usize = 0;
        while i < h.len() && chars_lt(chars_of(h[i].0.as_str()).as_slice(), v.as_slice())
            invariant
                i <= h@.len(),
                hv == hist_view(h@),
                forall|t: int| 0 <= t < i ==> lex_lt(hv[t].0, v@),
            decreases h@.len() - i,
        {
            i += 1;
        }
        let found = i < h.len() && str_eq(h[i].0.as_str(), entries[k].verdict.as_str());
        proof {

        }
        if found {
            let c = h[i].1;
            let key = h[i].0.clone();
            h.set(i, (key, c + 1));
            proof {
                let nv = hist_view(h@);
                assert forall|t: int| 0 <= t < nv.len() && t != i implies nv[t] == hv[t] by {}
                assert forall|t: int| 0 <= t < nv.len() implies (#[trigger] nv[t]).1 == occurrences(
                    pre.push(v@),
                    nv[t].0,
                ) by {
                    lemma_occurrences_push(pre, v@, nv[t].0);
                    if t != i {
                        if t < i {
                            assert(lex_lt(hv[t].0, hv[i as int].0));
                        } else {
                            assert(lex_lt(hv[i as int].0, hv[t].0));
                        }
                        lemma_lex_irreflexive(v@);
                    }
                }
                let np = pre.push(v@);
                assert forall|q: int|
                    #![trigger np[q]]
                    0 <= q < np.len() implies exists|t: int|
                    #![trigger nv[t]]
                    0 <= t < nv.len() && nv[t].0 == np[q] by {
                    if q < pre.len() {
                        let t = choose|t: int| 0 <= t < hv.len() && hv[t].0 == pre[q];
                        assert(nv[t].0 == hv[t].0);
                    } else {
                        assert(nv[i as int].0 == v@);
                    }
                }
                assert forall|a: int, b: int| 0 <= a < b < nv.len() implies lex_lt(nv[a].0, nv[b].0) by {
                    assert(nv[a].0 == hv[a].0 && nv[b].0 == hv[b].0);
                }
                assert forall|t: int| 0 <= t < nv.len() implies (#[trigger] nv[t]).1 > 0 by {
                    if t != i {
                        assert(nv[t] == hv[t]);
                    }
                }
                assert(is_histogram(np, nv));
            }
        } else {
            let ghost old_h = h@;
            h.insert(i, (entries[k].verdict.clone(), 1));
            proof {
                let nv = hist_view(h@);
                assert(v@ == entries@[k as int].verdict@);
                // The new key sorts strictly between its neighbours.
                if i < hv.len() {
                    lemma_lex_total(hv[i as int].0, v@);
                }
                assert forall|t: int| 0 <= t < nv.len() implies #[trigger] nv[t] == (if t < i {
                    hv[t]
                } else if t == i {
                    (v@, 1nat)
                } else {
                    hv[t - 1]
                }) by {}
                assert forall|a: int, b: int| 0 <= a < b < nv.len() implies lex_lt(nv[a].0, nv[b].0) by {
                    if a < i && b == i {
                    } else if a < i && b > i {
                        if b - 1 > i {
                            assert(lex_lt(hv[i as int].0, hv[b - 1].0));
                            lemma_lex_transitive(v@, hv[i as int].0, hv[b - 1].0);
                        }
                        lemma_lex_transitive(hv[a].0, v@, hv[b - 1].0);
                    } else if a == i {
                        if b - 1 > i {
                            assert(lex_lt(hv[i as int].0, hv[b - 1].0));
                            lemma_lex_transitive(v@, hv[i as int].0, hv[b - 1].0);
                        }
                    } else {
                    }
                }
                // The verdict was not counted before.
                assert(occurrences(pre, v@) == 0) by {
                    lemma_occurrences_member(pre, v@);
                    if occurrences(pre, v@) > 0 {
                        let q = choose|q: int| 0 <= q < pre.len() && pre[q] == v@;
                        let t = choose|t: int| 0 <= t < hv.len() && hv[t].0 == pre[q];
                        if t < i {
                            lemma_lex_irreflexive(v@);
                        } else if t > i {
                            assert(lex_lt(hv[i as int].0, hv[t].0));
                            lemma_lex_total(hv[i as int].0, v@);
                            lemma_lex_total(v@, hv[t].0);
                            lemma_lex_transitive(v@, hv[i as int].0, hv[t].0);
                            lemma_lex_irreflexive(v@);
                        } else {
                            lemma_lex_irreflexive(v@);
                        }
                    }
                }
                assert forall|t: int| 0 <= t < nv.len() implies (#[trigger] nv[t]).1 == occurrences(
                    pre.push(v@),
                    nv[t].0,
                ) by {
                    lemma_occurrences_push(pre, v@, nv[t].0);
                    if t != i {
                        let o = if t < i {
                            t
                        } else {
                            t - 1
                        };
                        if nv[t].0 == v@ {
                            if o < i {
                                lemma_lex_irreflexive(v@);
                            } else {
                                if o > i {
                                    assert(lex_lt(hv[i as int].0, hv[o].0));
                                    lemma_lex_transitive(v@, hv[i as int].0, hv[o].0);
                                }
                                lemma_lex_irreflexive(v@);
                            }
                        }
                    }
                }
                let np = pre.push(v@);
                assert forall|q: int|
                    #![trigger np[q]]
                    0 <= q < np.len() implies exists|t: int|
                    #![trigger nv[t]]
                    0 <= t < nv.len() && nv[t].0 == np[q] by {
                    if q < pre.len() {
                        let t = choose|t: int| 0 <= t < hv.len() && hv[t].0 == pre[q];
                        if t < i {
                            assert(nv[t].0 == hv[t].0);
                        } else {
                            assert(nv[t + 1].0 == hv[t].0);
                        }
                    } else {
                        assert(nv[i as int].0 == v@);
                    }
                }
            }
        }
        k += 1;
    }
    assert(vs.take(entries.len() as int) =~= vs);
    h
}

/// Each entry of a count table as text.
pub open spec fn hist_lines(h: Seq<(Seq<char>, nat)>) -> Seq<Seq<char>> {
    h.map_values(|e: (Seq<char>, nat)| e.0 + ": "@ + dec(e.1))
}

/// The detail line of a failed case: `id [class] detail`.
pub open spec fn fail_line(e: Entry) -> Seq<char> {
    e.id@ + " ["@ + e.class@ + "] "@ + match e.detail {
        Some(d) => d@,
        None => Seq::empty(),
    }
}

/// The detail lines of the failed cases, in order.
pub open spec fn fail_lines(es: Seq<Entry>) -> Seq<Seq<char>>
    decreases es.len(),
{
    if es.len() == 0 {
        seq![]
    } else if es.last().verdict@ == "Fail"@ {
        fail_lines(es.drop_last()).push(fail_line(es.last()))
    } else {
        fail_lines(es.drop_last())
    }
}

/// The summary: the heading, the histogram, the failed cases (when any)
/// under a heading with their count, and the count of pending cases
/// (when any).
pub open spec fn summary_text(es: Seq<Entry>, h: Seq<(Seq<char>, nat)>) -> Seq<Seq<char>> {
    let fails = fail_lines(es);
    let pending = occurrences(verdicts(es), "Pending"@);
    seq!["=== differential summary ==="@] + hist_lines(h) + (if fails.len() > 0 {
        seq!["--- FAIL details ("@ + dec(fails.len()) + ") ---"@] + fails
    } else {
        seq![]
    }) + (if pending > 0 {
        seq!["--- pending (recorded, unasserted; Rust side is stubs): "@ + dec(pending) + " ---"@]
    } else {
        seq![]
    })
}

/// The views of a list of strings.
pub open spec fn line_views(v: Seq<String>) -> Seq<Seq<char>> {
    v.map_values(|s: String| s@)
}

fn push_line(out: &mut Vec<String>, v: &Vec<char>)
    ensures
        line_views(final(out)@) == line_views(old(out)@).push(v@),
{
    out.push(string_of(v.as_slice()));
    assert(line_views(out@) =~= line_views(old(out)@).push(v@));
}

/// The summary lines of a report.
pub fn summary_lines(entries: &Vec<Entry>) -> (r: Vec<String>)
    ensures
        exists|h: Seq<(Seq<char>, nat)>|
            is_histogram(verdicts(entries@), h) && line_views(r@) == summary_text(entries@, h),
{
    let h = verdict_histogram(entries);
    let ghost hv = hist_view(h@);
    let mut out: Vec<String> = Vec::new();
    push_line(&mut out, &chars_of("=== differential summary ==="));
    let mut i: usize = 0;
    while i < h.len()
        invariant
            i <= h@.len(),
            hv == hist_view(h@),
            line_views(out@) == seq!["=== differential summary ==="@] + hist_lines(hv.take(i as int)),
        decreases h@.len() - i,
    {
        let mut line = chars_of(h[i].0.as_str());
        push_str(&mut line, ": ");
        push_chars(&mut line, decimal(h[i].1 as u64).as_slice());
        push_line(&mut out, &line);
        assert(hist_lines(hv.take(i + 1)) =~= hist_lines(hv.take(i as int)).push(
            hv[i as int].0 + ": "@ + dec(hv[i as int].1),
        ));
        i += 1;
    }
    assert(hv.take(h@.len() as int) =~= hv);
    // The failed cases and the pending count.
    let mut fails: Vec<Vec<char>> = Vec::new();
    let mut pending: usize = 0;
    let mut k: usize = 0;
    let ghost vs = verdicts(entries@);
    assert(entries@.take(0) =~= Seq::<Entry>::empty());
    assert(vs.take(0) =~= Seq::<Seq<char>>::empty());
    while k < entries.len()
        invariant
            k <= entries.len(),
            vs == verdicts(entries@),
            fails@.map_values(|f: Vec<char>| f@) == fail_lines(entries@.take(k as int)),
            pending == occurrences(vs.take(k as int), "Pending"@),
            pending <= k,
        decreases entries.len() - k,
    {
        let e = &entries[k];
        assert(entries@.take(k + 1).drop_last() =~= entries@.take(k as int));
        assert(vs.take(k + 1).drop_last() =~= vs.take(k as int));
        assert(vs[k as int] == e.verdict@);
        if str_eq(e.verdict.as_str(), "Fail") {
            let mut line = chars_of(e.id.as_str());
            push_str(&mut line, " [");
            push_str(&mut line, e.class.as_str());
            push_str(&mut line, "] ");
            match &e.detail {
                Some(d) => push_str(&mut line, d.as_str()),
                None => {},
            }
            let ghost before = fails@.map_values(|f: Vec<char>| f@);
            fails.push(line);
            assert(fails@.map_values(|f: Vec<char>| f@) =~= before.push(fail_line(*e)));
        }
        if str_eq(e.verdict.as_str(), "Pending") {
            pending = pending + 1;
        }
        k += 1;
    }
    assert(entries@.take(entries.len() as int) =~= entries@);
    assert(vs.take(entries.len() as int) =~= vs);
    let ghost fl = fail_lines(entries@);
    let ghost head = line_views(out@);
    if fails.len() > 0 {
        let mut line = chars_of("--- FAIL details (");
        push_chars(&mut line, decimal(fails.len() as u64).as_slice());
        push_str(&mut line, ") ---");
        push_line(&mut out, &line);
        let mut j: usize = 0;
        while j < fails.len()
            invariant
                j <= fails@.len(),
                fails@.map_values(|f: Vec<char>| f@) == fl,
                line_views(out@) == head.push("--- FAIL details ("@ + dec(fl.len()) + ") ---"@) + fl.take(
                    j as int,
                ),
            decreases fails@.len() - j,
        {
            assert(fl[j as int] == fails@[j as int]@);
            push_line(&mut out, &fails[j]);
            assert(fl.take(j + 1) =~= fl.take(j as int).push(fl[j as int]));
            j += 1;
        }
        assert(fl.take(fails@.len() as int) =~= fl);
    }
    let ghost mid = line_views(out@);
    if pending > 0 {
        let mut line = chars_of("--- pending (recorded, unasserted; Rust side is stubs): ");
        push_chars(&mut line, decimal(pending as u64).as_slice());
        push_str(&mut line, " ---");
        push_line(&mut out, &line);
    }
    proof {
        let st = summary_text(entries@, hv);
        if fl.len() > 0 {
            assert(mid =~= head + (seq!["--- FAIL details ("@ + dec(fl.len()) + ") ---"@] + fl));
        } else {
            assert(mid =~= head + Seq::<Seq<char>>::empty());
        }
        assert(line_views(out@) =~= st);
    }
    out
}

/// The record of a judged case: its id, class and kind, the verdict,
/// each side's projection, and the detail.
pub fn entry_of(case: &Case, verdict: Verdict, detail: Option<String>, go: &ProbeResult, rust: &ProbeResult) -> (r: Entry)
    ensures
        r.id@ == case.id@,
        r.class@ == case.class@,
        r.kind@ == kind_text(case.kind),
        r.verdict@ == verdict_text(verdict),
        r.go.reachable == go.reachable && r.go.status == go.status,
        r.rust.reachable == rust.reachable && r.rust.status == rust.status,
        r.detail == detail,
{
    Entry {
        id: case.id.clone(),
        class: case.class.clone(),
        kind: kind_name(case.kind).to_owned(),
        verdict: verdict_name(verdict).to_owned(),
        go: Side::of(go),
        rust: Side::of(rust),
        detail,
    }
}

/// The exit status of a run: 2 when a backend never came up, else 0.
pub fn run_exit_code(go_up: bool, rust_up: bool) -> (r: i32)
    ensures
        r == (if go_up && rust_up {
            0i32
        } else {
            2i32
        }),
{
    if go_up && rust_up {
        0
    } else {
        2
    }
}

/// The runner's settings.
pub struct Args {
    pub go: String,
    pub rust: String,
    pub corpus_dir: String,
    pub exemptions: String,
    pub out: String,
    pub wait: u64,
}

/// How long the runner waits for a backend by default, in seconds.
pub const DEFAULT_WAIT_SECS: u64 = 180;

/// The settings after `flag value` pairs from `i` on: each known flag
/// sets its setting (a `--wait` that does not parse as seconds waits the
/// default); `None` on an unknown flag or a flag without a value.
pub open spec fn args_after(argv: Seq<String>, i: int, a: (Seq<char>, Seq<char>, Seq<char>, Seq<char>, Seq<char>, u64)) -> Option<(Seq<char>, Seq<char>, Seq<char>, Seq<char>, Seq<char>, u64)>
    decreases argv.len() - i,
{
    if i >= argv.len() {
        Some(a)
    } else if i + 1 >= argv.len() {
        None
    } else {
        let f = argv[i]@;
        let v = argv[i + 1]@;
        if f == "--go"@ {
            args_after(argv, i + 2, (v, a.1, a.2, a.3, a.4, a.5))
        } else if f == "--rust"@ {
            args_after(argv, i + 2, (a.0, v, a.2, a.3, a.4, a.5))
        } else if f == "--corpus"@ {
            args_after(argv, i + 2, (a.0, a.1, v, a.3, a.4, a.5))
        } else if f == "--exemptions"@ {
            args_after(argv, i + 2, (a.0, a.1, a.2, v, a.4, a.5))
        } else if f == "--out"@ {
            args_after(argv, i + 2, (a.0, a.1, a.2, a.3, v, a.5))
        } else if f == "--wait"@ {
            args_after(
                argv,
                i + 2,
                (
                    a.0,
                    a.1,
                    a.2,
                    a.3,
                    a.4,
                    match crate::text::parse_unsigned(v, u64::MAX as nat) {
                        Some(n) => n as u64,
                        None => DEFAULT_WAIT_SECS,
                    },
                ),
            )
        } else {
            None
        }
    }
}

/// The settings of a command line (the program name excluded): `None`
/// when it is to be refused with the usage text — an unknown flag, a
/// flag without a value, or no `--go` or `--rust` backend.
pub open spec fn args_of(argv: Seq<String>) -> Option<(Seq<char>, Seq<char>, Seq<char>, Seq<char>, Seq<char>, u64)> {
    match args_after(
        argv,
        0,
        (Seq::empty(), Seq::empty(), "testbed/corpus"@, "testbed/exemptions.json"@, "testbed/reports/report.jsonl"@, DEFAULT_WAIT_SECS),
    ) {
        Some(a) => if a.0.len() > 0 && a.1.len() > 0 {
            Some(a)
        } else {
            None
        },
        None => None,
    }
}

/// The view of the runner's settings.
pub open spec fn args_view(a: Args) -> (Seq<char>, Seq<char>, Seq<char>, Seq<char>, Seq<char>, u64) {
    (a.go@, a.rust@, a.corpus_dir@, a.exemptions@, a.out@, a.wait)
}

/// Reads the command line (the program name excluded) into the runner's
/// settings; `None` when the usage text is due.
pub fn parse_args(argv: &Vec<String>) -> (r: Option<Args>)
    ensures
        match r {
            Some(a) => args_of(argv@) == Some(args_view(a)),
            None => args_of(argv@) is None,
        },
{
    let mut a = Args {
        go: String::new(),
        rust: String::new(),
        corpus_dir: "testbed/corpus".to_owned(),
        exemptions: "testbed/exemptions.json".to_owned(),
        out: "testbed/reports/report.jsonl".to_owned(),
        wait: DEFAULT_WAIT_SECS,
    };
    let ghost start = args_view(a);
    assert(start == (
        Seq::<char>::empty(),
        Seq::<char>::empty(),
        "testbed/corpus"@,
        "testbed/exemptions.json"@,
        "testbed/reports/report.jsonl"@,
        DEFAULT_WAIT_SECS,
    ));
    let mut i: usize = 0;
    while i < argv.len()
        invariant
            i <= argv@.len(),
            args_after(argv@, 0, start) == args_after(argv@, i as int, args_view(a)),
            start == (
                Seq::<char>::empty(),
                Seq::<char>::empty(),
                "testbed/corpus"@,
                "testbed/exemptions.json"@,
                "testbed/reports/report.jsonl"@,
                DEFAULT_WAIT_SECS,
            ),
        decreases argv@.len() - i,
    {
        if i + 1 >= argv.len() {
            return None;
        }
        let f = argv[i].as_str();
        let v = argv[i + 1].clone();
        if str_eq(f, "--go") {
            a.go = v;
        } else if str_eq(f, "--rust") {
            a.rust = v;
        } else if str_eq(f, "--corpus") {
            a.corpus_dir = v;
        } else if str_eq(f, "--exemptions") {
            a.exemptions = v;
        } else if str_eq(f, "--out") {
            a.out = v;
        } else if str_eq(f, "--wait") {
            a.wait = match crate::text::parse_unsigned_chars(chars_of(v.as_str()).as_slice(), u64::MAX) {
                Some(n) => n,
                None => DEFAULT_WAIT_SECS,
            };
        } else {
            return None;
        }
        i += 2;
    }
    if chars_of(a.go.as_str()).len() == 0 || chars_of(a.rust.as_str()).len() == 0 {
        return None;
    }
    Some(a)
}

/// The response headers a CORS case captures.
pub fn cors_header_names() -> (r: Vec<String>)
    ensures
        r@.map_values(|s: String| s@) == seq![
            "access-control-allow-origin"@,
            "access-control-allow-methods"@,
            "access-control-allow-credentials"@,
        ],
{
    let mut v: Vec<String> = Vec::new();
    v.push("access-control-allow-origin".to_owned());
    v.push("access-control-allow-methods".to_owned());
    v.push("access-control-allow-credentials".to_owned());
    assert(v@.map_values(|s: String| s@) =~= seq![
        "access-control-allow-origin"@,
        "access-control-allow-methods"@,
        "access-control-allow-credentials"@,
    ]);
    v
}

/// Whether a case captures the CORS response headers: only CORS cases do.
pub fn captures_cors(kind: Kind) -> (r: bool)
    ensures
        r == (kind is Cors),
{
    match kind {
        Kind::Cors => true,
        _ => false,
    }
}

} // verus!
