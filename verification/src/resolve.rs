//! The finalization step of the generated program, as verified model
//! functions: collecting concurrently-completed interpolation results into
//! enqueue order, and substituting them for the placeholder-marker
//! occurrences of the accumulated output, left to right.

use crate::text::{find_from, lemma_find_some, spec_find};
use vstd::prelude::*;

verus! {

/// Substitution from `pos` on, with the next result at `r_idx`: each
/// occurrence of `marker`, left to right, is replaced by the next collected
/// result; occurrences beyond the supplied results are left as they stand.
pub open spec fn spec_substitute_from(
    s: Seq<char>,
    marker: Seq<char>,
    results: Seq<Seq<char>>,
    pos: int,
    r_idx: int,
) -> Seq<char>
    decreases s.len() - pos,
    via spec_substitute_from_dec
{
    if marker.len() <= 0 || pos < 0 || pos > s.len() {
        Seq::empty()
    } else {
        match spec_find(s, marker, pos) {
            None => s.skip(pos),
            Some(i) => if r_idx < 0 || r_idx >= results.len() {
                s.skip(pos)
            } else {
                s.subrange(pos, i) + results[r_idx] + spec_substitute_from(
                    s,
                    marker,
                    results,
                    i + marker.len(),
                    r_idx + 1,
                )
            },
        }
    }
}

#[via_fn]
proof fn spec_substitute_from_dec(
    s: Seq<char>,
    marker: Seq<char>,
    results: Seq<Seq<char>>,
    pos: int,
    r_idx: int,
) {
    if !(marker.len() <= 0 || pos < 0 || pos > s.len()) {
        if let Some(i) = spec_find(s, marker, pos) {
            lemma_find_some(s, marker, pos, i);
        }
    }
}

/// The finalize step's substitution: the i-th occurrence of `marker` in `s`,
/// counted left to right, is replaced by `results[i]`.
pub open spec fn spec_substitute(s: Seq<char>, marker: Seq<char>, results: Seq<Seq<char>>) -> Seq<
    char,
> {
    spec_substitute_from(s, marker, results, 0, 0)
}

/// The character sequences a vector of strings stands for.
pub open spec fn strings_view(rs: Seq<String>) -> Seq<Seq<char>> {
    rs.map_values(|x: String| x@)
}

/// The completion events a vector of index/value pairs stands for.
pub open spec fn completions_view(cs: Seq<(usize, String)>) -> Seq<(int, Seq<char>)> {
    cs.map_values(|c: (usize, String)| (c.0 as int, c.1@))
}

/// The enqueue-ordered result array built by folding completion events in
/// completion order: the value completed for enqueue index `j` lands in slot
/// `j`, whatever the order of arrival; slots never completed stay empty.
pub open spec fn spec_collect(n: int, cs: Seq<(int, Seq<char>)>) -> Seq<Seq<char>>
    decreases cs.len(),
{
    if cs.len() == 0 {
        Seq::new(
            if n >= 0 {
                n as nat
            } else {
                0
            },
            |i: int| Seq::empty(),
        )
    } else {
        let prevv = spec_collect(n, cs.drop_last());
        let c = cs.last();
        if 0 <= c.0 < n {
            prevv.update(c.0, c.1)
        } else {
            prevv
        }
    }
}

/// Some completion event delivers enqueue index `j`.
pub open spec fn has_completion(cs: Seq<(int, Seq<char>)>, j: int) -> bool {
    exists|k: int| 0 <= k < cs.len() && (#[trigger] cs[k]).0 == j
}

proof fn lemma_collect_len(n: int, cs: Seq<(int, Seq<char>)>)
    requires
        n >= 0,
    ensures
        spec_collect(n, cs).len() == n,
    decreases cs.len(),
{
    if cs.len() > 0 {
        lemma_collect_len(n, cs.drop_last());
    }
}

proof fn lemma_collect_slots(n: int, cs: Seq<(int, Seq<char>)>, results: Seq<Seq<char>>)
    requires
        n == results.len(),
        forall|k: int|
            0 <= k < cs.len() ==> 0 <= (#[trigger] cs[k]).0 < n && cs[k].1 == results[cs[k].0],
    ensures
        spec_collect(n, cs).len() == n,
        forall|j: int|
            0 <= j < n ==> spec_collect(n, cs)[j] == (if has_completion(cs, j) {
                results[j]
            } else {
                Seq::<char>::empty()
            }),
    decreases cs.len(),
{
    lemma_collect_len(n, cs);
    if cs.len() == 0 {
    } else {
        let prefix = cs.drop_last();
        lemma_collect_slots(n, prefix, results);
        let c = cs.last();
        assert(c == cs[cs.len() - 1]);
        assert forall|j: int| 0 <= j < n implies spec_collect(n, cs)[j] == (if has_completion(
            cs,
            j,
        ) {
            results[j]
        } else {
            Seq::<char>::empty()
        }) by {
            if j == c.0 {
                assert(cs[cs.len() - 1].0 == j);
                assert(has_completion(cs, j));
            } else {
                assert(spec_collect(n, cs)[j] == spec_collect(n, prefix)[j]);
                if has_completion(cs, j) {
                    let k = choose|k: int| 0 <= k < cs.len() && (#[trigger] cs[k]).0 == j;
                    assert(k < cs.len() - 1);
                    assert(prefix[k] == cs[k]);
                    assert(has_completion(prefix, j));
                } else {
                    if has_completion(prefix, j) {
                        let k2 = choose|k2: int|
                            0 <= k2 < prefix.len() && (#[trigger] prefix[k2]).0 == j;
                        assert(cs[k2].0 == j);
                        assert(has_completion(cs, j));
                    }
                }
            }
        }
    }
}

/// Placeholder-substitution ordering: with the interpolation results of a
/// program enqueued in source order, handing their completion events to the
/// collection step in any order — reverse order included — still yields the
/// enqueue-ordered result array, so the finalize step substitutes result `i`
/// at the position of the `i`-th placeholder occurrence, independent of
/// completion time.
pub proof fn lemma_substitution_completion_order_irrelevant(
    acc: Seq<char>,
    marker: Seq<char>,
    results: Seq<Seq<char>>,
    cs: Seq<(int, Seq<char>)>,
)
    requires
        forall|k: int|
            0 <= k < cs.len() ==> 0 <= (#[trigger] cs[k]).0 < results.len() && cs[k].1
                == results[cs[k].0],
        forall|j: int| 0 <= j < results.len() ==> #[trigger] has_completion(cs, j),
    ensures
        spec_collect(results.len() as int, cs) == results,
        spec_substitute(acc, marker, spec_collect(results.len() as int, cs)) == spec_substitute(
            acc,
            marker,
            results,
        ),
{
    lemma_collect_slots(results.len() as int, cs, results);
    assert(spec_collect(results.len() as int, cs) =~= results);
}

/// Builds the enqueue-ordered result array of `n` slots from completion
/// events `(enqueue index, value)` in arrival order: each event's value lands
/// in its enqueue slot; slots never completed stay empty.
pub fn collect_results(n: usize, completions: &Vec<(usize, String)>) -> (r: Vec<String>)
    ensures
        r@.len() == n,
        strings_view(r@) == spec_collect(n as int, completions_view(completions@)),
{
    let mut r: Vec<String> = Vec::new();
    let mut i: usize = 0;
    while i < n
        invariant
            i <= n,
            r@.len() == i,
            forall|k: int| 0 <= k < i ==> (#[trigger] r@[k])@ == Seq::<char>::empty(),
        decreases n - i,
    {
        r.push(String::new());
        i = i + 1;
    }
    let mut k: usize = 0;
    proof {
        assert(completions_view(completions@).take(0) =~= Seq::<(int, Seq<char>)>::empty());
        assert(strings_view(r@) =~= spec_collect(
            n as int,
            completions_view(completions@).take(0),
        ));
    }
    while k < completions.len()
        invariant
            k <= completions@.len(),
            r@.len() == n,
            strings_view(r@) == spec_collect(n as int, completions_view(completions@).take(k as int)),
        decreases completions@.len() - k,
    {
        let ghost cview = completions_view(completions@);
        proof {
            assert(cview.take(k + 1).drop_last() =~= cview.take(k as int));
            assert(cview.take(k + 1).last() == cview[k as int]);
        }
        let idx: usize = completions[k].0;
        if idx < n {
            let val = completions[k].1.clone();
            let ghost rsnap = r@;
            r[idx] = val;
            proof {
                assert(strings_view(r@) =~= strings_view(rsnap).update(idx as int, val@));
            }
        }
        k = k + 1;
    }
    proof {
        assert(completions_view(completions@).take(completions@.len() as int) =~= completions_view(
            completions@,
        ));
    }
    r
}

/// Runs the finalize step's substitution: replaces the `i`-th occurrence of
/// `marker` in `acc`, counted left to right, by `results[i]`; occurrences
/// beyond the supplied results are left unchanged.
pub fn substitute_placeholders(acc: &str, marker: &str, results: &Vec<String>) -> (r: String)
    requires
        marker@.len() >= 1,
    ensures
        r@ == spec_substitute(acc@, marker@, strings_view(results@)),
{
    let slen: usize = acc.unicode_len();
    let mlen: usize = marker.unicode_len();
    let ghost rv = strings_view(results@);
    let mut out = String::new();
    let mut pos: usize = 0;
    let mut ridx: usize = 0;
    proof {
        assert(out@ + spec_substitute_from(acc@, marker@, rv, 0, 0) =~= spec_substitute(
            acc@,
            marker@,
            rv,
        ));
    }
    loop
        invariant
            pos <= slen,
            ridx <= results@.len(),
            slen == acc@.len(),
            mlen == marker@.len(),
            mlen >= 1,
            rv == strings_view(results@),
            spec_substitute(acc@, marker@, rv) == out@ + spec_substitute_from(
                acc@,
                marker@,
                rv,
                pos as int,
                ridx as int,
            ),
        decreases slen - pos,
    {
        match find_from(acc, marker, pos) {
            None => {
                let tail = acc.substring_char(pos, slen);
                out.append(tail);
                proof {
                    assert(tail@ =~= acc@.skip(pos as int));
                }
                return out;
            },
            Some(i) => {
                proof {
                    lemma_find_some(acc@, marker@, pos as int, i as int);
                }
                if ridx >= results.len() {
                    let tail = acc.substring_char(pos, slen);
                    out.append(tail);
                    proof {
                        assert(tail@ =~= acc@.skip(pos as int));
                    }
                    return out;
                }
                let ghost out0 = out@;
                let piece = acc.substring_char(pos, i);
                out.append(piece);
                out.append(results[ridx].as_str());
                proof {
                    assert(rv[ridx as int] == results@[ridx as int]@);
                    assert(out@ =~= out0 + (acc@.subrange(pos as int, i as int) + rv[ridx as int]));
                    assert(out0 + (acc@.subrange(pos as int, i as int) + rv[ridx as int]
                        + spec_substitute_from(
                        acc@,
                        marker@,
                        rv,
                        i + mlen,
                        ridx + 1,
                    )) =~= out@ + spec_substitute_from(acc@, marker@, rv, i + mlen, ridx + 1));
                }
                pos = i + mlen;
                ridx = ridx + 1;
            },
        }
    }
}

} // verus!
