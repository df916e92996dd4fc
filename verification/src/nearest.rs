//! Why the closest-hit scan finds the nearest hit.
//!
//! A *responder* is anything that answers a query as a function of the upper bound:
//! a single surface or actor, a list of them, a node of a tree. Its answer is a hit
//! together with whatever identifies what was hit. The scan asks responders one
//! after another and hands each the parameter of the nearest hit so far as its bound.
//! This is sound for responders that are *faithful*: their hit lies strictly below
//! the bound they were given, and a bound that is moved without crossing the hit
//! does not change the answer. The laws here show that a scan over faithful
//! responders is again faithful and answers with a nearest one of their answers.
use vstd::prelude::*;
use crate::float::{is_number, lemma_numbers_total, Float};
use crate::hit::HitModel;

verus! {

/// The bound that is in force after an answer: the parameter of its hit, or the
/// bound before it if there was none.
pub open spec fn bound_after<T: Float, X>(found: Option<(X, HitModel<T>)>, bound: T) -> T {
    match found {
        Some((_, hit)) => hit.t,
        None => bound,
    }
}

/// The later answer if there is one, else the earlier.
pub open spec fn latest<T: Float, X>(
    earlier: Option<(X, HitModel<T>)>,
    later: Option<(X, HitModel<T>)>,
) -> Option<(X, HitModel<T>)> {
    match later {
        Some(_) => later,
        None => earlier,
    }
}

/// An answer as a function of the upper bound of the query.
pub type Responder<T, X> = spec_fn(T) -> Option<(X, HitModel<T>)>;

/// The responder's hit, if it has one, lies strictly below the bound `b` and its
/// parameter is a number.
pub open spec fn respects<T: Float, X>(
    f: Responder<T, X>,
    b: T,
) -> bool {
    f(b) matches Some((_, hit)) ==> is_number(hit.t) && hit.t.lt_spec(b)
}

/// If the responder's hit under the bound `b` also lies strictly below the bound
/// `c`, the responder gives the same answer under `c`.
pub open spec fn keeps<T: Float, X>(
    f: Responder<T, X>,
    b: T,
    c: T,
) -> bool {
    (f(b) matches Some((_, hit)) && hit.t.lt_spec(c)) ==> f(c) == f(b)
}

/// A responder is faithful if, for bounds that are numbers, its hit lies strictly
/// below the bound and does not depend on the bound as long as it lies below it.
pub open spec fn faithful<T: Float, X>(f: Responder<T, X>) -> bool {
    &&& forall|b: T| is_number(b) ==> #[trigger] respects(f, b)
    &&& forall|b: T, c: T| is_number(b) && is_number(c) ==> #[trigger] keeps(f, b, c)
}

/// The closest-hit scan over a list of responders from position `start` on.
pub open spec fn scan<T: Float, X>(
    responders: Seq<Responder<T, X>>,
    start: int,
    bound: T,
    best: Option<(X, HitModel<T>)>,
) -> Option<(X, HitModel<T>)>
    decreases responders.len() - start,
{
    if start < 0 || start >= responders.len() {
        best
    } else {
        let found = responders[start](bound);
        scan(responders, start + 1, bound_after(found, bound), latest(best, found))
    }
}

/// The scan over the responders from position `start` on, as a responder.
pub open spec fn scan_responder<T: Float, X>(
    responders: Seq<Responder<T, X>>,
    start: int,
) -> Responder<T, X> {
    |bound: T| scan(responders, start, bound, None)
}

/// All responders of a list are faithful.
pub open spec fn all_faithful<T: Float, X>(
    responders: Seq<Responder<T, X>>,
) -> bool {
    forall|i: int| 0 <= i < responders.len() ==> faithful(#[trigger] responders[i])
}

/// A faithful responder that has a hit under `b` has none under a bound `c` that
/// the hit does not lie strictly below.
pub proof fn lemma_cut<T: Float, X>(f: Responder<T, X>, b: T, c: T)
    requires
        faithful(f),
        is_number(b),
        is_number(c),
        f(b) matches Some((_, hit)) && !hit.t.lt_spec(c),
    ensures
        f(c).is_none(),
{
    if let Some((_, other)) = f(c) {
        let hit = f(b).unwrap().1;
        assert(respects(f, b));
        assert(respects(f, c));
        assert(keeps(f, c, b));
        // other.t < c <= hit.t < b, so the answer under c is also the answer under b
        lemma_numbers_total(hit.t, c);
        T::order_laws(other.t, c, hit.t);
        T::order_laws(other.t, hit.t, b);
        T::order_laws(hit.t, hit.t, hit.t);
    }
}

/// The scan keeps the best answer it was given unless it finds a hit itself.
pub proof fn lemma_scan_best<T: Float, X>(
    responders: Seq<Responder<T, X>>,
    start: int,
    bound: T,
    best: Option<(X, HitModel<T>)>,
)
    ensures
        scan(responders, start, bound, best) == latest(
            best,
            scan(responders, start, bound, None),
        ),
    decreases responders.len() - start,
{
    if 0 <= start < responders.len() {
        let found = responders[start](bound);
        lemma_scan_best(responders, start + 1, bound_after(found, bound), latest(best, found));
        lemma_scan_best(responders, start + 1, bound_after(found, bound), latest(None, found));
    }
}

/// One step of the scan: the answer of the first responder, then the scan over the
/// rest under the bound that this answer leaves.
pub proof fn lemma_scan_step<T: Float, X>(
    responders: Seq<Responder<T, X>>,
    start: int,
    bound: T,
)
    requires
        0 <= start < responders.len(),
    ensures
        scan(responders, start, bound, None) == latest(
            responders[start](bound),
            scan(
                responders,
                start + 1,
                bound_after(responders[start](bound), bound),
                None,
            ),
        ),
{
    let found = responders[start](bound);
    lemma_scan_best(responders, start + 1, bound_after(found, bound), latest(None, found));
}

/// The hit of a scan over faithful responders lies strictly below the bound.
pub proof fn lemma_scan_respects<T: Float, X>(
    responders: Seq<Responder<T, X>>,
    start: int,
    bound: T,
)
    requires
        all_faithful(responders),
        is_number(bound),
        0 <= start,
    ensures
        respects(scan_responder(responders, start), bound),
    decreases responders.len() - start,
{
    if start < responders.len() {
        let found = responders[start](bound);
        lemma_scan_step(responders, start, bound);
        assert(faithful(responders[start]));
        assert(respects(responders[start], bound));
        let next = bound_after(found, bound);
        lemma_scan_respects(responders, start + 1, next);
        assert(respects(scan_responder(responders, start + 1), next));
        if let Some((_, hit)) = found {
            if let Some((_, later)) = scan(responders, start + 1, next, None) {
                T::order_laws(later.t, hit.t, bound);
            }
        }
    }
}

/// A scan over faithful responders gives the same answer under two bounds if its
/// hit under the first lies strictly below the second.
pub proof fn lemma_scan_keeps<T: Float, X>(
    responders: Seq<Responder<T, X>>,
    start: int,
    b: T,
    c: T,
)
    requires
        all_faithful(responders),
        is_number(b),
        is_number(c),
        0 <= start,
    ensures
        keeps(scan_responder(responders, start), b, c),
    decreases responders.len() - start,
{
    let whole = scan_responder(responders, start);
    if start < responders.len() {
        if let Some((_, result)) = whole(b) {
            if result.t.lt_spec(c) {
                let f = responders[start];
                assert(faithful(f));
                assert(respects(f, b));
                assert(respects(f, c));
                lemma_scan_step(responders, start, b);
                lemma_scan_step(responders, start, c);
                let rest = scan_responder(responders, start + 1);
                match f(b) {
                    Some((_, first)) => {
                        if first.t.lt_spec(c) {
                            assert(keeps(f, b, c));
                        } else {
                            // the first responder's hit is cut off by c; the result
                            // lies below c, so it comes from the rest
                            lemma_cut(f, b, c);
                            T::order_laws(first.t, first.t, first.t);
                            assert(rest(first.t) == whole(b));
                            lemma_scan_keeps(responders, start + 1, first.t, c);
                            assert(keeps(rest, first.t, c));
                        }
                    },
                    None => {
                        lemma_scan_respects(responders, start + 1, b);
                        assert(respects(rest, b));
                        match f(c) {
                            Some((_, other)) => {
                                // other.t is not below b, else f would answer under b
                                assert(keeps(f, c, b));
                                lemma_numbers_total(other.t, b);
                                T::order_laws(result.t, b, other.t);
                                lemma_scan_keeps(responders, start + 1, b, other.t);
                                assert(keeps(rest, b, other.t));
                            },
                            None => {
                                lemma_scan_keeps(responders, start + 1, b, c);
                                assert(keeps(rest, b, c));
                            },
                        }
                    },
                }
            }
        }
    }
}

/// A scan over faithful responders is a faithful responder.
pub proof fn lemma_scan_faithful<T: Float, X>(
    responders: Seq<Responder<T, X>>,
    start: int,
)
    requires
        all_faithful(responders),
        0 <= start,
    ensures
        faithful(scan_responder(responders, start)),
{
    let whole = scan_responder(responders, start);
    assert forall|b: T| is_number(b) implies #[trigger] respects(whole, b) by {
        lemma_scan_respects(responders, start, b);
    }
    assert forall|b: T, c: T| is_number(b) && is_number(c) implies #[trigger] keeps(
        whole,
        b,
        c,
    ) by {
        lemma_scan_keeps(responders, start, b, c);
    }
}

/// The answer of a scan over faithful responders is the answer that one of the
/// responders gives under the bound of the scan.
pub proof fn lemma_scan_source<T: Float, X>(
    responders: Seq<Responder<T, X>>,
    start: int,
    bound: T,
) -> (k: int)
    requires
        all_faithful(responders),
        is_number(bound),
        0 <= start,
        scan(responders, start, bound, None).is_some(),
    ensures
        start <= k < responders.len(),
        responders[k](bound) == scan(responders, start, bound, None),
    decreases responders.len() - start,
{
    let f = responders[start];
    assert(faithful(f));
    assert(respects(f, bound));
    lemma_scan_step(responders, start, bound);
    match f(bound) {
        Some((_, first)) => {
            if scan(responders, start + 1, first.t, None).is_some() {
                let k = lemma_scan_source(responders, start + 1, first.t);
                lemma_scan_respects(responders, start + 1, first.t);
                assert(respects(scan_responder(responders, start + 1), first.t));
                let later = responders[k](first.t).unwrap().1;
                assert(faithful(responders[k]));
                assert(keeps(responders[k], first.t, bound));
                T::order_laws(later.t, first.t, bound);
                k
            } else {
                start
            }
        },
        None => lemma_scan_source(responders, start + 1, bound),
    }
}

/// No responder of a scan over faithful responders has a hit strictly nearer than
/// the hit of the scan, and if any responder has a hit, so has the scan.
pub proof fn lemma_scan_nearest<T: Float, X>(
    responders: Seq<Responder<T, X>>,
    start: int,
    bound: T,
    k: int,
)
    requires
        all_faithful(responders),
        is_number(bound),
        0 <= start <= k < responders.len(),
        responders[k](bound).is_some(),
    ensures
        scan(responders, start, bound, None) matches Some((_, hit)) && !responders[k](
            bound,
        ).unwrap().1.t.lt_spec(hit.t),
    decreases responders.len() - start,
{
    let f = responders[start];
    let other = responders[k](bound).unwrap().1;
    assert(faithful(f));
    assert(respects(f, bound));
    assert(faithful(responders[k]));
    assert(respects(responders[k], bound));
    lemma_scan_step(responders, start, bound);
    let rest = scan_responder(responders, start + 1);
    match f(bound) {
        Some((_, first)) => {
            lemma_scan_respects(responders, start + 1, first.t);
            assert(respects(rest, first.t));
            if k == start {
                if let Some((_, later)) = rest(first.t) {
                    T::order_laws(later.t, first.t, later.t);
                    T::order_laws(later.t, later.t, later.t);
                } else {
                    T::order_laws(first.t, first.t, first.t);
                }
            } else if other.t.lt_spec(first.t) {
                assert(keeps(responders[k], bound, first.t));
                lemma_scan_nearest(responders, start + 1, first.t, k);
            } else {
                if let Some((_, later)) = rest(first.t) {
                    T::order_laws(other.t, later.t, first.t);
                }
            }
        },
        None => {
            lemma_scan_nearest(responders, start + 1, bound, k);
        },
    }
}

} // verus!
