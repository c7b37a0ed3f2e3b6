use vstd::prelude::*;
use crate::pipeline::LossResult;

verus! {

/// The champions of a run's loss results, in input order.
pub open spec fn spec_champions(results: Seq<LossResult>) -> Seq<i32> {
    results.map_values(|l: LossResult| l.champion)
}

/// The distinct elements of `s` not already in `seen`, each at its first
/// occurrence, in order.
pub open spec fn spec_distinct_from(s: Seq<i32>, seen: Seq<i32>) -> Seq<i32>
    decreases s.len(),
{
    if s.len() == 0 {
        Seq::empty()
    } else if seen.contains(s[0]) {
        spec_distinct_from(s.skip(1), seen)
    } else {
        seq![s[0]] + spec_distinct_from(s.skip(1), seen.push(s[0]))
    }
}

/// The distinct elements of `s`, each at its first occurrence, in order.
pub open spec fn spec_distinct(s: Seq<i32>) -> Seq<i32> {
    spec_distinct_from(s, Seq::empty())
}

/// Whether `v@` holds `x`.
fn vec_contains(v: &Vec<i32>, x: i32) -> (r: bool)
    ensures
        r == v@.contains(x),
{
    let mut j: usize = 0;
    while j < v.len()
        invariant
            j <= v@.len(),
            forall|m: int| 0 <= m < j ==> v@[m] != x,
        decreases v@.len() - j,
    {
        if v[j] == x {
            assert(v@[j as int] == x);
            return true;
        }
        j += 1;
    }
    assert(forall|m: int| 0 <= m < v@.len() ==> v@[m] != x);
    false
}

/// Reduces a run's loss results to the champions lost on, one entry per
/// distinct champion, in first-loss order.
pub fn distinct_champions(results: &Vec<LossResult>) -> (r: Vec<i32>)
    ensures
        r@ == spec_distinct(spec_champions(results@)),
{
    let ghost s = spec_champions(results@);
    let mut out: Vec<i32> = Vec::new();
    let mut k: usize = 0;
    assert(s.skip(0) =~= s);
    assert(out@ =~= Seq::<i32>::empty());
    while k < results.len()
        invariant
            0 <= k <= results@.len(),
            s == spec_champions(results@),
            spec_distinct(s) == out@ + spec_distinct_from(s.skip(k as int), out@),
        decreases results@.len() - k,
    {
        let ghost rest = s.skip(k as int);
        let ghost out_before = out@;
        assert(rest[0] == s[k as int]);
        assert(s[k as int] == results@[k as int].champion);
        let c = results[k].champion;
        if !vec_contains(&out, c) {
            out.push(c);
            proof {
                assert(rest.skip(1) =~= s.skip(k as int + 1));
                assert(out@ =~= out_before.push(c));
                assert(out@ + spec_distinct_from(s.skip(k as int + 1), out@)
                    =~= out_before + spec_distinct_from(rest, out_before));
            }
        } else {
            proof {
                assert(rest.skip(1) =~= s.skip(k as int + 1));
            }
        }
        k += 1;
    }
    assert(s.skip(s.len() as int) =~= Seq::<i32>::empty());
    assert(out@ =~= out@ + Seq::<i32>::empty());
    out
}

/// The display name a champion key resolves to, when it names a known
/// champion.
pub uninterp spec fn champion_name_of(id: i32) -> Option<Seq<char>>;

/// Relies on riven's `Champion::name`: the `en_US` display name for a
/// champion key, `None` for a key naming no known champion; the answer
/// depends on the key alone.
#[verifier::external_body]
fn champion_name(id: i32) -> (r: Option<String>)
    ensures
        r is Some <==> champion_name_of(id) is Some,
        r matches Some(s) ==> champion_name_of(id) matches Some(n) && s@ == n,
{
    riven::consts::Champion(id).name().map(|n| n.to_owned())
}

/// How a champion key is reported: its display name, or the placeholder
/// when the key resolves to no known champion.
pub open spec fn spec_rendered_name(id: i32) -> Seq<char> {
    match champion_name_of(id) {
        Some(n) => n,
        None => "UNKNOWN"@,
    }
}

/// Renders one champion key for the report.
pub fn render_champion_name(id: i32) -> (r: String)
    ensures
        r@ == spec_rendered_name(id),
{
    match champion_name(id) {
        Some(n) => n,
        None => "UNKNOWN".to_owned(),
    }
}

/// Renders a list of champion keys for the report, one line's text per key,
/// in order.
pub fn render_champion_names(ids: &Vec<i32>) -> (r: Vec<String>)
    ensures
        r@.len() == ids@.len(),
        forall|i: int| 0 <= i < ids@.len() ==> r@[i]@ == spec_rendered_name(ids@[i]),
{
    let mut out: Vec<String> = Vec::new();
    let mut k: usize = 0;
    while k < ids.len()
        invariant
            0 <= k <= ids@.len(),
            out@.len() == k,
            forall|i: int| 0 <= i < k ==> out@[i]@ == spec_rendered_name(ids@[i]),
        decreases ids@.len() - k,
    {
        out.push(render_champion_name(ids[k]));
        k += 1;
    }
    out
}

/// The distinct reduction keeps exactly the elements of its input (beyond
/// `seen`), and never repeats one.
proof fn lemma_distinct_from_sound(s: Seq<i32>, seen: Seq<i32>)
    ensures
        forall|x: i32| #[trigger] spec_distinct_from(s, seen).contains(x)
            <==> (s.contains(x) && !seen.contains(x)),
        forall|i: int, j: int| 0 <= i < j < spec_distinct_from(s, seen).len()
            ==> spec_distinct_from(s, seen)[i] != spec_distinct_from(s, seen)[j],
    decreases s.len(),
{
    let d = spec_distinct_from(s, seen);
    if s.len() == 0 {
        assert(forall|x: i32| !s.contains(x));
    } else if seen.contains(s[0]) {
        lemma_distinct_from_sound(s.skip(1), seen);
        assert(d == spec_distinct_from(s.skip(1), seen));
        assert forall|x: i32| #[trigger] d.contains(x) implies s.contains(x) && !seen.contains(x) by {
            assert(spec_distinct_from(s.skip(1), seen).contains(x));
            assert(s.skip(1).contains(x));
            let w = choose|w: int| 0 <= w < s.skip(1).len() && s.skip(1)[w] == x;
            assert(s[w + 1] == x);
        }
        assert forall|x: i32| s.contains(x) && !seen.contains(x) implies #[trigger] d.contains(x) by {
            let w = choose|w: int| 0 <= w < s.len() && s[w] == x;
            assert(w != 0);
            assert(s.skip(1)[w - 1] == x);
            assert(s.skip(1).contains(x));
            assert(spec_distinct_from(s.skip(1), seen).contains(x));
        }
    } else {
        lemma_distinct_from_sound(s.skip(1), seen.push(s[0]));
        let dtail = spec_distinct_from(s.skip(1), seen.push(s[0]));
        assert(d == seq![s[0]] + dtail);
        assert(d[0] == s[0]);
        assert forall|x: i32| #[trigger] d.contains(x) implies s.contains(x) && !seen.contains(x) by {
            let w = choose|w: int| 0 <= w < d.len() && d[w] == x;
            if w == 0 {
                assert(s[0] == x);
            } else {
                assert(dtail[w - 1] == x);
                assert(dtail.contains(x));
                assert(s.skip(1).contains(x));
                let v = choose|v: int| 0 <= v < s.skip(1).len() && s.skip(1)[v] == x;
                assert(s[v + 1] == x);
                assert(!seen.push(s[0]).contains(x));
                assert(seen.push(s[0])[seen.len() as int] == s[0]);
                assert forall|y: i32| seen.contains(y) implies seen.push(s[0]).contains(y) by {
                    let u = choose|u: int| 0 <= u < seen.len() && seen[u] == y;
                    assert(seen.push(s[0])[u] == y);
                }
            }
        }
        assert forall|x: i32| s.contains(x) && !seen.contains(x) implies #[trigger] d.contains(x) by {
            if x == s[0] {
                assert(d[0] == x);
            } else {
                let w = choose|w: int| 0 <= w < s.len() && s[w] == x;
                assert(w != 0);
                assert(s.skip(1)[w - 1] == x);
                assert(s.skip(1).contains(x));
                assert forall|u: int| 0 <= u < seen.push(s[0]).len() implies seen.push(s[0])[u] != x by {
                    if u < seen.len() {
                        assert(seen[u] != x);
                    }
                }
                assert(!seen.push(s[0]).contains(x));
                assert(dtail.contains(x));
                let v = choose|v: int| 0 <= v < dtail.len() && dtail[v] == x;
                assert(d[v + 1] == x);
            }
        }
        assert forall|i: int, j: int| 0 <= i < j < d.len() implies d[i] != d[j] by {
            if i == 0 {
                assert(d[j] == dtail[j - 1]);
                assert(dtail.contains(dtail[j - 1]));
                assert(!seen.push(s[0]).contains(d[j]));
                assert(seen.push(s[0])[seen.len() as int] == s[0]);
            } else {
                assert(d[i] == dtail[i - 1] && d[j] == dtail[j - 1]);
            }
        }
    }
}

/// Distinct-champion reduction law: the reduction names a champion exactly
/// when some loss names it, and names none twice.
pub proof fn lemma_distinct_champions_law(results: Seq<LossResult>)
    ensures
        forall|x: i32| #[trigger] spec_distinct(spec_champions(results)).contains(x)
            <==> spec_champions(results).contains(x),
        forall|i: int, j: int| 0 <= i < j < spec_distinct(spec_champions(results)).len()
            ==> spec_distinct(spec_champions(results))[i] != spec_distinct(spec_champions(results))[j],
{
    lemma_distinct_from_sound(spec_champions(results), Seq::empty());
}

} // verus!
