//! The page aggregator: bodies of a multi-page resource concatenated in
//! page-number order, whatever order the fetches completed in.

use vstd::prelude::*;

verus! {

/// Bodies concatenated in sequence order.
pub open spec fn concat_bodies(bodies: Seq<Seq<char>>) -> Seq<char>
    decreases bodies.len(),
{
    if bodies.len() == 0 {
        Seq::empty()
    } else {
        concat_bodies(bodies.drop_last()) + bodies.last()
    }
}

/// Every part's index lies below the part count.
pub open spec fn indices_in_range(parts: Seq<(usize, Seq<char>)>) -> bool {
    forall|k: int| 0 <= k < parts.len() ==> (#[trigger] parts[k]).0 < parts.len()
}

/// No two parts carry the same index.
pub open spec fn distinct_indices(parts: Seq<(usize, Seq<char>)>) -> bool {
    forall|k1: int, k2: int|
        0 <= k1 < k2 < parts.len() ==> (#[trigger] parts[k1]).0 != (#[trigger] parts[k2]).0
}

/// Some part carries index `j`.
pub open spec fn index_present(parts: Seq<(usize, Seq<char>)>, j: int) -> bool {
    exists|k: int| 0 <= k < parts.len() && (#[trigger] parts[k]).0 == j
}

/// Every position below the part count is some part's index.
pub open spec fn covers_all(parts: Seq<(usize, Seq<char>)>) -> bool {
    forall|j: int| 0 <= j < parts.len() ==> #[trigger] index_present(parts, j)
}

/// The assembled document holds each part's body at the part's own index.
pub open spec fn assembles(parts: Seq<(usize, Seq<char>)>, r: Seq<Seq<char>>) -> bool {
    &&& r.len() == parts.len()
    &&& forall|k: int|
        0 <= k < parts.len() ==> (#[trigger] parts[k]).0 < r.len() && r[parts[k].0 as int]
            == parts[k].1
}

/// Appends the remaining page bodies, in plan order, to the first page's
/// body; with an empty plan the first page's body is returned unchanged.
pub fn concat_pages(first: &str, rest: &Vec<String>) -> (r: String)
    ensures
        r@ == first@ + concat_bodies(rest.deep_view()),
{
    let mut acc = String::from_str(first);
    let n = rest.len();
    proof {
        assert(rest.deep_view().take(0) =~= Seq::<Seq<char>>::empty());
        assert(acc@ =~= first@ + concat_bodies(rest.deep_view().take(0)));
    }
    let mut i: usize = 0;
    while i < n
        invariant
            0 <= i <= n,
            n == rest.len(),
            rest.deep_view().len() == n,
            acc@ == first@ + concat_bodies(rest.deep_view().take(i as int)),
        decreases n - i,
    {
        let body = &rest[i];
        acc.append(body.as_str());
        proof {
            let dv = rest.deep_view();
            assert(dv.take(i as int + 1).drop_last() =~= dv.take(i as int));
            assert(dv.take(i as int + 1).last() == dv[i as int]);
            assert(dv[i as int] == rest@[i as int]@);
            assert(acc@ =~= first@ + concat_bodies(dv.take(i as int + 1)));
        }
        i = i + 1;
    }
    proof {
        assert(rest.deep_view().take(n as int) =~= rest.deep_view());
    }
    acc
}

/// The empty plan aggregates to the first page's body unchanged.
pub proof fn lemma_concat_pages_empty(first: Seq<char>)
    ensures
        first + concat_bodies(Seq::<Seq<char>>::empty()) == first,
{
    assert(first + concat_bodies(Seq::<Seq<char>>::empty()) =~= first);
}

/// Reorders fetched parts into page order. Each part is a page position
/// paired with that page's body, delivered in any completion order; the
/// result holds the bodies by position. `None` when the indices are not
/// exactly the positions `0` to `parts.len() - 1`.
pub fn assemble_by_index(parts: &Vec<(usize, String)>) -> (r: Option<Vec<String>>)
    ensures
        r is Some <==> (indices_in_range(parts.deep_view()) && distinct_indices(parts.deep_view())
            && covers_all(parts.deep_view())),
        r matches Some(v) ==> assembles(parts.deep_view(), v.deep_view()),
{
    let ghost pd = parts.deep_view();
    let n = parts.len();
    proof {
        assert(pd.len() == n);
    }
    let mut k: usize = 0;
    while k < n
        invariant
            0 <= k <= n,
            n == parts.len(),
            pd == parts.deep_view(),
            pd.len() == n,
            forall|a: int| 0 <= a < k ==> (#[trigger] pd[a]).0 < n,
        decreases n - k,
    {
        proof {
            assert(pd[k as int].0 == parts@[k as int].0);
        }
        if parts[k].0 >= n {
            assert(!indices_in_range(pd));
            return None;
        }
        k = k + 1;
    }
    assert(indices_in_range(pd));
    let mut k1: usize = 0;
    while k1 < n
        invariant
            0 <= k1 <= n,
            n == parts.len(),
            pd == parts.deep_view(),
            pd.len() == n,
            indices_in_range(pd),
            forall|a: int, b: int| 0 <= a < k1 && a < b < n ==> (#[trigger] pd[a]).0 != (
            #[trigger] pd[b]).0,
        decreases n - k1,
    {
        let mut k2: usize = k1 + 1;
        while k2 < n
            invariant
                0 <= k1 < k2 <= n,
                n == parts.len(),
                pd == parts.deep_view(),
                pd.len() == n,
                forall|b: int| k1 < b < k2 ==> (#[trigger] pd[b]).0 != pd[k1 as int].0,
            decreases n - k2,
        {
            proof {
                assert(pd[k1 as int].0 == parts@[k1 as int].0);
                assert(pd[k2 as int].0 == parts@[k2 as int].0);
            }
            if parts[k1].0 == parts[k2].0 {
                assert(!distinct_indices(pd));
                return None;
            }
            k2 = k2 + 1;
        }
        k1 = k1 + 1;
    }
    assert(distinct_indices(pd));
    let mut out: Vec<String> = Vec::new();
    let mut j: usize = 0;
    while j < n
        invariant
            0 <= j <= n,
            n == parts.len(),
            pd == parts.deep_view(),
            pd.len() == n,
            indices_in_range(pd),
            distinct_indices(pd),
            out.deep_view().len() == j,
            forall|b: int| 0 <= b < j ==> #[trigger] index_present(pd, b),
            forall|a: int|
                0 <= a < n && (#[trigger] pd[a]).0 < j ==> out.deep_view()[pd[a].0 as int]
                    == pd[a].1,
        decreases n - j,
    {
        let mut k: usize = 0;
        let mut found: Option<String> = None;
        while k < n && found.is_none()
            invariant
                0 <= k <= n,
                n == parts.len(),
                pd == parts.deep_view(),
                pd.len() == n,
                found is None ==> forall|a: int| 0 <= a < k ==> (#[trigger] pd[a]).0 != j,
                found matches Some(b) ==> exists|a: int|
                    0 <= a < n && (#[trigger] pd[a]).0 == j && pd[a].1 == b@,
            decreases n - k,
        {
            proof {
                assert(pd[k as int].0 == parts@[k as int].0);
                assert(pd[k as int].1 == parts@[k as int].1@);
            }
            if parts[k].0 == j {
                found = Some(parts[k].1.clone());
            }
            k = k + 1;
        }
        match found {
            None => {
                assert(!covers_all(pd)) by {
                    assert(forall|a: int| 0 <= a < n ==> (#[trigger] pd[a]).0 != j);
                    assert(!index_present(pd, j as int));
                }
                return None;
            },
            Some(b) => {
                out.push(b);
                proof {
                    assert(index_present(pd, j as int));
                    let od = out.deep_view();
                    assert(od.len() == j + 1);
                    assert forall|a: int|
                        0 <= a < n && (#[trigger] pd[a]).0 < j + 1 implies od[pd[a].0 as int]
                        == pd[a].1 by {
                        if pd[a].0 == j {
                            let w = choose|w: int|
                                0 <= w < n && (#[trigger] pd[w]).0 == j && pd[w].1 == b@;
                            if a != w {
                                assert(pd[a].0 != pd[w].0);
                            }
                        }
                    }
                }
            },
        }
        j = j + 1;
    }
    assert(covers_all(pd));
    assert(assembles(pd, out.deep_view()));
    Some(out)
}

/// Aggregation order is an invariant of the parts, not of their arrival:
/// two part lists that hold the same position-body pairs assemble to the
/// same document, whatever order the underlying fetches completed in.
pub proof fn lemma_assembly_order_independent(
    ps1: Seq<(usize, Seq<char>)>,
    ps2: Seq<(usize, Seq<char>)>,
    r1: Seq<Seq<char>>,
    r2: Seq<Seq<char>>,
)
    requires
        ps1.len() == ps2.len(),
        covers_all(ps1),
        forall|x: (usize, Seq<char>)| ps1.contains(x) ==> ps2.contains(x),
        assembles(ps1, r1),
        assembles(ps2, r2),
    ensures
        r1 == r2,
{
    assert forall|j: int| 0 <= j < r1.len() implies r1[j] == r2[j] by {
        assert(index_present(ps1, j));
        let k1 = choose|k: int| 0 <= k < ps1.len() && (#[trigger] ps1[k]).0 == j;
        let x = ps1[k1];
        assert(ps1.contains(x));
        assert(ps2.contains(x));
        let k2 = choose|k: int| 0 <= k < ps2.len() && ps2[k] == x;
        assert(r2[x.0 as int] == x.1);
        assert(r1[j] == ps1[k1].1);
    }
    assert(r1 =~= r2);
}

} // verus!
