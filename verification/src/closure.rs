//! The type-closure resolver: given a catalog of type-alias declarations and
//! a set of root type identifiers, compute the transitive set of identifiers
//! reachable through the catalog.
//!
//! The algorithm is an explicit worklist with a visited set.  Its contract
//! characterizes the result exactly: an identifier is in the closure if and
//! only if a reference chain from a root leads to it.  Roots are always
//! included, even when the catalog has no declaration for them; cycles among
//! aliases are harmless, because an identifier already in the result is never
//! expanded again.

use vstd::prelude::*;
use vstd::seq_lib::seq_to_set_is_finite;
use vstd::set_lib::lemma_len_subset;
use crate::ast::{collect_refs, names_view, refs_of, TypeAliasDecl};

verus! {

/// What the catalog answers for `id`: the first declaration with that
/// identifier, if any.
pub open spec fn catalog_lookup(decls: Seq<TypeAliasDecl>, id: Seq<char>) -> Option<TypeAliasDecl>
    decreases decls.len(),
{
    if decls.len() == 0 {
        None
    } else if decls[0].id@ == id {
        Some(decls[0])
    } else {
        catalog_lookup(decls.drop_first(), id)
    }
}

/// One step of the reference graph: the catalog declares `a`, and the
/// right-hand side of that declaration references `b`.
pub open spec fn ref_step(decls: Seq<TypeAliasDecl>, a: Seq<char>, b: Seq<char>) -> bool {
    match catalog_lookup(decls, a) {
        Some(d) => refs_of(d.rhs).contains(b),
        None => false,
    }
}

/// A reference chain: it starts at a root and each link is a `ref_step`.
pub open spec fn chain_ok(
    decls: Seq<TypeAliasDecl>,
    roots: Seq<Seq<char>>,
    p: Seq<Seq<char>>,
) -> bool {
    &&& p.len() >= 1
    &&& roots.contains(p[0])
    &&& forall|k: int| 0 <= k < p.len() - 1 ==> ref_step(decls, #[trigger] p[k], p[k + 1])
}

/// An identifier is reachable when some reference chain from a root ends at
/// it.
pub open spec fn reaches(decls: Seq<TypeAliasDecl>, roots: Seq<Seq<char>>, id: Seq<char>) -> bool {
    exists|p: Seq<Seq<char>>| chain_ok(decls, roots, p) && p.last() == id
}

/// The closure: exactly the reachable identifiers.
pub open spec fn closure_set(decls: Seq<TypeAliasDecl>, roots: Seq<Seq<char>>) -> Set<Seq<char>> {
    Set::new(|id: Seq<char>| reaches(decls, roots, id))
}

/// Every root reaches itself, by the one-element chain.
pub proof fn lemma_root_reaches(decls: Seq<TypeAliasDecl>, roots: Seq<Seq<char>>, id: Seq<char>)
    requires
        roots.contains(id),
    ensures
        reaches(decls, roots, id),
{
    let p = seq![id];
    assert(chain_ok(decls, roots, p) && p.last() == id);
}

/// Reachability extends along one reference step.
pub proof fn lemma_reaches_step(
    decls: Seq<TypeAliasDecl>,
    roots: Seq<Seq<char>>,
    a: Seq<char>,
    b: Seq<char>,
)
    requires
        reaches(decls, roots, a),
        ref_step(decls, a, b),
    ensures
        reaches(decls, roots, b),
{
    let p = choose|p: Seq<Seq<char>>| chain_ok(decls, roots, p) && p.last() == a;
    let q = p.push(b);
    assert(q[0] == p[0]);
    assert forall|k: int| 0 <= k < q.len() - 1 implies ref_step(decls, #[trigger] q[k], q[k + 1]) by {
        if k < p.len() - 1 {
            assert(q[k] == p[k] && q[k + 1] == p[k + 1]);
        } else {
            assert(q[k] == p.last() && q[k + 1] == b);
        }
    }
    assert(chain_ok(decls, roots, q) && q.last() == b);
}

/// Whether the references of `x`'s declaration (if the catalog has one) all
/// land inside `ids`.
pub open spec fn ref_targets_in(decls: Seq<TypeAliasDecl>, x: Seq<char>, ids: Seq<Seq<char>>) -> bool {
    match catalog_lookup(decls, x) {
        Some(d) => forall|j: int|
            0 <= j < refs_of(d.rhs).len() ==> ids.contains(#[trigger] refs_of(d.rhs)[j]),
        None => true,
    }
}

/// A set of identifiers is closed under the catalog when the references of
/// each member's declaration stay inside it.
pub open spec fn closed_under_catalog(decls: Seq<TypeAliasDecl>, ids: Seq<Seq<char>>) -> bool {
    forall|k: int| 0 <= k < ids.len() ==> ref_targets_in(decls, #[trigger] ids[k], ids)
}

/// In a closed set containing the roots, every chain stays inside the set.
proof fn lemma_chain_in_closed(
    decls: Seq<TypeAliasDecl>,
    roots: Seq<Seq<char>>,
    ids: Seq<Seq<char>>,
    p: Seq<Seq<char>>,
)
    requires
        chain_ok(decls, roots, p),
        forall|r: Seq<char>| roots.contains(r) ==> ids.contains(r),
        closed_under_catalog(decls, ids),
    ensures
        ids.contains(p.last()),
    decreases p.len(),
{
    if p.len() == 1 {
        assert(ids.contains(p[0]));
    } else {
        let q = p.drop_last();
        assert(q[0] == p[0]);
        assert forall|k: int| 0 <= k < q.len() - 1 implies ref_step(decls, #[trigger] q[k], q[k + 1]) by {
            assert(q[k] == p[k] && q[k + 1] == p[k + 1]);
        }
        lemma_chain_in_closed(decls, roots, ids, q);
        let a = p[p.len() - 2];
        let b = p.last();
        assert(q.last() == a);
        assert(ref_step(decls, a, b));
        let i = choose|i: int| 0 <= i < ids.len() && ids[i] == a;
        assert(ref_targets_in(decls, ids[i], ids));
        let d = catalog_lookup(decls, a)->Some_0;
        let j = choose|j: int| 0 <= j < refs_of(d.rhs).len() && refs_of(d.rhs)[j] == b;
        assert(ids.contains(refs_of(d.rhs)[j]));
    }
}

/// A closed set containing the roots contains everything reachable.
pub proof fn lemma_closed_contains_reachable(
    decls: Seq<TypeAliasDecl>,
    roots: Seq<Seq<char>>,
    ids: Seq<Seq<char>>,
    id: Seq<char>,
)
    requires
        reaches(decls, roots, id),
        forall|r: Seq<char>| roots.contains(r) ==> ids.contains(r),
        closed_under_catalog(decls, ids),
    ensures
        ids.contains(id),
{
    let p = choose|p: Seq<Seq<char>>| chain_ok(decls, roots, p) && p.last() == id;
    lemma_chain_in_closed(decls, roots, ids, p);
}

/// All identifiers referenced anywhere in the catalog, in order.
pub open spec fn catalog_refs_seq(decls: Seq<TypeAliasDecl>) -> Seq<Seq<char>>
    decreases decls.len(),
{
    if decls.len() == 0 {
        seq![]
    } else {
        refs_of(decls[0].rhs) + catalog_refs_seq(decls.drop_first())
    }
}

/// What a successful lookup references is referenced somewhere in the
/// catalog.
proof fn lemma_lookup_refs_in_catalog(decls: Seq<TypeAliasDecl>, x: Seq<char>, b: Seq<char>)
    requires
        catalog_lookup(decls, x) is Some,
        refs_of(catalog_lookup(decls, x)->Some_0.rhs).contains(b),
    ensures
        catalog_refs_seq(decls).contains(b),
    decreases decls.len(),
{
    if decls.len() == 0 {
    } else if decls[0].id@ == x {
        let rs = refs_of(decls[0].rhs);
        let j = choose|j: int| 0 <= j < rs.len() && rs[j] == b;
        assert(catalog_refs_seq(decls)[j] == b);
    } else {
        lemma_lookup_refs_in_catalog(decls.drop_first(), x, b);
        let tailrefs = catalog_refs_seq(decls.drop_first());
        let j = choose|j: int| 0 <= j < tailrefs.len() && tailrefs[j] == b;
        assert(catalog_refs_seq(decls)[refs_of(decls[0].rhs).len() + j] == b);
    }
}

/// Does the vector contain this identifier?
pub(crate) fn contains_name(v: &Vec<String>, x: &String) -> (r: bool)
    ensures
        r == names_view(v@).contains(x@),
{
    let mut i: usize = 0;
    while i < v.len()
        invariant
            0 <= i <= v@.len(),
            forall|j: int| 0 <= j < i ==> names_view(v@)[j] != x@,
        decreases v@.len() - i,
    {
        if v[i].eq(x) {
            proof {
                assert(names_view(v@)[i as int] == x@);
            }
            return true;
        }
        i = i + 1;
    }
    proof {
        assert forall|j: int| 0 <= j < names_view(v@).len() implies names_view(v@)[j] != x@ by {}
    }
    false
}

/// The first declaration of `id` in the catalog, if any.
pub(crate) fn lookup_decl<'a>(decls: &'a Vec<TypeAliasDecl>, id: &String) -> (r: Option<
    &'a TypeAliasDecl,
>)
    ensures
        match r {
            Some(d) => catalog_lookup(decls@, id@) == Some(*d),
            None => catalog_lookup(decls@, id@) is None,
        },
{
    let mut i: usize = 0;
    proof {
        assert(decls@.skip(0) =~= decls@);
    }
    while i < decls.len()
        invariant
            0 <= i <= decls@.len(),
            catalog_lookup(decls@, id@) == catalog_lookup(decls@.skip(i as int), id@),
            forall|j: int| 0 <= j < i ==> (#[trigger] decls@[j]).id@ != id@,
        decreases decls@.len() - i,
    {
        proof {
            assert(decls@.skip(i as int)[0] == decls@[i as int]);
            assert(decls@.skip(i as int).drop_first() =~= decls@.skip(i + 1));
        }
        if decls[i].id.eq(id) {
            return Some(&decls[i]);
        }
        i = i + 1;
    }
    proof {
        assert(decls@.skip(decls@.len() as int) =~= Seq::<TypeAliasDecl>::empty());
    }
    None
}

/// Clone a vector of identifiers.
pub(crate) fn clone_names(v: &Vec<String>) -> (r: Vec<String>)
    ensures
        r@ == v@,
{
    let mut out: Vec<String> = Vec::new();
    let mut i: usize = 0;
    while i < v.len()
        invariant
            0 <= i <= v@.len(),
            out@ == v@.take(i as int),
        decreases v@.len() - i,
    {
        out.push(v[i].clone());
        proof {
            assert(out@ =~= v@.take(i + 1));
        }
        i = i + 1;
    }
    proof {
        assert(v@.take(v@.len() as int) =~= v@);
    }
    out
}

/// Compute the closure of `roots` through the catalog `decls`.
///
/// The result lists each reachable identifier exactly once: it contains
/// every root (whether or not the catalog declares it), and an identifier is
/// in the result if and only if a reference chain from a root leads to it.
#[verifier::rlimit(60)]
pub fn find_closure(decls: &Vec<TypeAliasDecl>, roots: &Vec<String>) -> (r: Vec<String>)
    ensures
        names_view(r@).no_duplicates(),
        names_view(r@).to_set() == closure_set(decls@, names_view(roots@)),
        forall|j: int|
            0 <= j < roots@.len() ==> names_view(r@).contains(#[trigger] names_view(roots@)[j]),
{
    broadcast use seq_to_set_is_finite;

    let ghost declsv = decls@;
    let ghost rootsv = names_view(roots@);
    let ghost univ = (rootsv + catalog_refs_seq(declsv)).to_set();
    proof {
        seq_to_set_is_finite::<Seq<char>>(rootsv + catalog_refs_seq(declsv));
        assert(univ.finite());
    }
    let mut result: Vec<String> = Vec::new();
    let mut work: Vec<String> = clone_names(roots);
    proof {
        assert forall|j: int| 0 <= j < names_view(work@).len() implies reaches(
            declsv,
            rootsv,
            #[trigger] names_view(work@)[j],
        ) by {
            assert(rootsv.contains(names_view(work@)[j]));
            lemma_root_reaches(declsv, rootsv, names_view(work@)[j]);
        }
        assert forall|j: int| 0 <= j < names_view(work@).len() implies univ.contains(
            #[trigger] names_view(work@)[j],
        ) by {
            assert((rootsv + catalog_refs_seq(declsv))[j] == names_view(work@)[j]);
        }
    }
    while work.len() > 0
        invariant
            declsv == decls@,
            rootsv == names_view(roots@),
            univ == (rootsv + catalog_refs_seq(declsv)).to_set(),
            univ.finite(),
            names_view(result@).no_duplicates(),
            // soundness: everything recorded or queued is reachable
            forall|j: int|
                0 <= j < names_view(result@).len() ==> reaches(
                    declsv,
                    rootsv,
                    #[trigger] names_view(result@)[j],
                ),
            forall|j: int|
                0 <= j < names_view(work@).len() ==> reaches(
                    declsv,
                    rootsv,
                    #[trigger] names_view(work@)[j],
                ),
            // every root is recorded or still queued
            forall|r: Seq<char>|
                rootsv.contains(r) ==> names_view(result@).contains(r) || names_view(
                    work@,
                ).contains(r),
            // the recorded set is closed up to what is still queued
            forall|k: int|
                0 <= k < names_view(result@).len() ==> ref_targets_in_two(
                    declsv,
                    #[trigger] names_view(result@)[k],
                    names_view(result@),
                    names_view(work@),
                ),
            // the recorded set stays inside the finite universe
            forall|j: int|
                0 <= j < names_view(result@).len() ==> univ.contains(
                    #[trigger] names_view(result@)[j],
                ),
            forall|j: int|
                0 <= j < names_view(work@).len() ==> univ.contains(#[trigger] names_view(work@)[j]),
            result@.len() <= univ.len(),
        decreases univ.len() - result@.len(), work@.len(),
    {
        let ghost oldwork = work@;
        let next = work.pop().unwrap();
        let ghost workv0 = names_view(work@);
        proof {
            assert(oldwork =~= work@.push(next));
            assert(names_view(oldwork) =~= workv0.push(next@));
            assert(names_view(oldwork)[names_view(oldwork).len() - 1] == next@);
            assert(univ.contains(next@));
            assert(reaches(declsv, rootsv, next@));
            assert forall|j: int| 0 <= j < names_view(work@).len() implies reaches(
                declsv,
                rootsv,
                #[trigger] names_view(work@)[j],
            ) && univ.contains(names_view(work@)[j]) by {
                assert(names_view(oldwork)[j] == names_view(work@)[j]);
            }
        }
        if !contains_name(&result, &next) {
            let ghost result0 = names_view(result@);
            result.push(next.clone());
            proof {
                assert(names_view(result@) =~= result0.push(next@));
                names_view(result@).unique_seq_to_set();
                assert forall|y: Seq<char>|
                    names_view(result@).to_set().contains(y) implies univ.contains(y) by {
                    let j = choose|j: int|
                        0 <= j < names_view(result@).len() && names_view(result@)[j] == y;
                    assert(univ.contains(names_view(result@)[j]));
                }
                assert(names_view(result@).to_set().subset_of(univ));
                lemma_len_subset(names_view(result@).to_set(), univ);
                assert(result@.len() == names_view(result@).len());
                assert(result@.len() <= univ.len());
            }
            let looked = lookup_decl(decls, &next);
            match looked {
                None => {
                    proof {
                        assert(catalog_lookup(decls@, next@) is None);
                        assert forall|y: Seq<char>| #[trigger] result0.contains(y) implies names_view(
                            result@,
                        ).contains(y) by {
                            let j = choose|j: int| 0 <= j < result0.len() && result0[j] == y;
                            assert(names_view(result@)[j] == y);
                        }
                        assert forall|y: Seq<char>| #[trigger] workv0.push(next@).contains(y) implies names_view(
                            result@,
                        ).contains(y) || names_view(work@).contains(y) by {
                            let j = choose|j: int|
                                0 <= j < workv0.push(next@).len() && workv0.push(next@)[j] == y;
                            if j < workv0.len() {
                                assert(names_view(work@)[j] == y);
                            } else {
                                assert(names_view(result@)[result0.len() as int] == next@);
                            }
                        }
                        assert forall|k: int|
                            0 <= k < names_view(result@).len() implies ref_targets_in_two(
                            declsv,
                            #[trigger] names_view(result@)[k],
                            names_view(result@),
                            names_view(work@),
                        ) by {
                            if k < result0.len() {
                                lemma_targets_monotone(
                                    declsv,
                                    names_view(result@)[k],
                                    result0,
                                    workv0.push(next@),
                                    names_view(result@),
                                    names_view(work@),
                                );
                            } else {
                                assert(names_view(result@)[k] == next@);
                                assert(catalog_lookup(declsv, next@) is None);
                            }
                        }
                    }
                },
                Some(d) => {
                    proof {
                        assert(catalog_lookup(decls@, next@) == Some(*d));
                    }
                    let mut refs = collect_refs(&d.rhs);
                    let ghost work1 = names_view(work@);
                    work.append(&mut refs);
                    proof {
                        assert(names_view(work@) =~= work1 + refs_of(d.rhs));
                        assert forall|j: int|
                            0 <= j < names_view(work@).len() implies reaches(
                            declsv,
                            rootsv,
                            #[trigger] names_view(work@)[j],
                        ) && univ.contains(names_view(work@)[j]) by {
                            if j < work1.len() {
                                assert(names_view(work@)[j] == work1[j]);
                                assert(work1[j] == workv0[j]);
                                assert(names_view(oldwork)[j] == workv0[j]);
                            } else {
                                let b = refs_of(d.rhs)[j - work1.len()];
                                assert(refs_of(d.rhs).contains(b));
                                assert(ref_step(declsv, next@, b));
                                lemma_reaches_step(declsv, rootsv, next@, b);
                                lemma_lookup_refs_in_catalog(declsv, next@, b);
                                let jj = choose|jj: int|
                                    0 <= jj < catalog_refs_seq(declsv).len()
                                        && catalog_refs_seq(declsv)[jj] == b;
                                assert((rootsv + catalog_refs_seq(declsv))[rootsv.len() + jj]
                                    == b);
                                assert((rootsv + catalog_refs_seq(declsv)).contains(b));
                            }
                        }
                        assert forall|y: Seq<char>| #[trigger] result0.contains(y) implies names_view(
                            result@,
                        ).contains(y) by {
                            let j = choose|j: int| 0 <= j < result0.len() && result0[j] == y;
                            assert(names_view(result@)[j] == y);
                        }
                        assert forall|y: Seq<char>| #[trigger] workv0.push(next@).contains(y) implies names_view(
                            result@,
                        ).contains(y) || names_view(work@).contains(y) by {
                            let j = choose|j: int|
                                0 <= j < workv0.push(next@).len() && workv0.push(next@)[j] == y;
                            if j < workv0.len() {
                                assert(names_view(work@)[j] == work1[j]);
                                assert(names_view(work@)[j] == y);
                            } else {
                                assert(names_view(result@)[result0.len() as int] == next@);
                            }
                        }
                        assert forall|k: int|
                            0 <= k < names_view(result@).len() implies ref_targets_in_two(
                            declsv,
                            #[trigger] names_view(result@)[k],
                            names_view(result@),
                            names_view(work@),
                        ) by {
                            if names_view(result@)[k] == next@ {
                                assert forall|j: int|
                                    0 <= j < refs_of(d.rhs).len() implies names_view(
                                    result@,
                                ).contains(#[trigger] refs_of(d.rhs)[j]) || names_view(
                                    work@,
                                ).contains(refs_of(d.rhs)[j]) by {
                                    assert(names_view(work@)[work1.len() + j] == refs_of(
                                        d.rhs,
                                    )[j]);
                                }
                            } else {
                                lemma_targets_monotone(
                                    declsv,
                                    names_view(result@)[k],
                                    result0,
                                    workv0.push(next@),
                                    names_view(result@),
                                    names_view(work@),
                                );
                            }
                        }
                    }
                },
            }
        } else {
            proof {
                assert forall|y: Seq<char>| #[trigger] workv0.push(next@).contains(y) implies names_view(
                    result@,
                ).contains(y) || names_view(work@).contains(y) by {
                    let j = choose|j: int|
                        0 <= j < workv0.push(next@).len() && workv0.push(next@)[j] == y;
                    if j < workv0.len() {
                        assert(names_view(work@)[j] == y);
                    }
                }
                assert forall|k: int|
                    0 <= k < names_view(result@).len() implies ref_targets_in_two(
                    declsv,
                    #[trigger] names_view(result@)[k],
                    names_view(result@),
                    names_view(work@),
                ) by {
                    lemma_targets_monotone(
                        declsv,
                        names_view(result@)[k],
                        names_view(result@),
                        workv0.push(next@),
                        names_view(result@),
                        names_view(work@),
                    );
                }
            }
        }
    }
    proof {
        let rv = names_view(result@);
        assert(work@.len() == 0);
        assert(names_view(work@) =~= Seq::<Seq<char>>::empty());
        // queue empty: the recorded set is closed outright
        assert forall|k: int| 0 <= k < rv.len() implies ref_targets_in(declsv, #[trigger] rv[k], rv) by {
            assert(ref_targets_in_two(declsv, rv[k], rv, names_view(work@)));
        }
        assert forall|r: Seq<char>| rootsv.contains(r) implies rv.contains(r) by {}
        assert forall|id: Seq<char>| rv.to_set().contains(id) implies closure_set(
            declsv,
            rootsv,
        ).contains(id) by {
            let j = choose|j: int| 0 <= j < rv.len() && rv[j] == id;
        }
        assert forall|id: Seq<char>| closure_set(declsv, rootsv).contains(id) implies rv.to_set().contains(
            id,
        ) by {
            lemma_closed_contains_reachable(declsv, rootsv, rv, id);
        }
        assert(rv.to_set() =~= closure_set(declsv, rootsv));
        assert forall|j: int| 0 <= j < rootsv.len() implies rv.contains(#[trigger] rootsv[j]) by {}
    }
    result
}

/// Like `ref_targets_in`, but the targets may land in either of two places
/// (the recorded set or the queue).
pub open spec fn ref_targets_in_two(
    decls: Seq<TypeAliasDecl>,
    x: Seq<char>,
    a: Seq<Seq<char>>,
    b: Seq<Seq<char>>,
) -> bool {
    match catalog_lookup(decls, x) {
        Some(d) => forall|j: int|
            0 <= j < refs_of(d.rhs).len() ==> a.contains(#[trigger] refs_of(d.rhs)[j])
                || b.contains(refs_of(d.rhs)[j]),
        None => true,
    }
}

/// `ref_targets_in_two` survives replacing the two places by places that
/// contain everything they did, except possibly one element that moved from
/// the second place into the first.
proof fn lemma_targets_monotone(
    decls: Seq<TypeAliasDecl>,
    x: Seq<char>,
    a0: Seq<Seq<char>>,
    b0: Seq<Seq<char>>,
    a1: Seq<Seq<char>>,
    b1: Seq<Seq<char>>,
)
    requires
        ref_targets_in_two(decls, x, a0, b0),
        forall|y: Seq<char>| a0.contains(y) ==> a1.contains(y),
        forall|y: Seq<char>| b0.contains(y) ==> a1.contains(y) || b1.contains(y),
    ensures
        ref_targets_in_two(decls, x, a1, b1),
{
}

/// Computing the closure twice from the same catalog and the same roots
/// gives the same set: the closure is a function of its inputs (and the
/// computation always terminates, cycles included).
pub proof fn lemma_closure_idempotent(
    decls: Seq<TypeAliasDecl>,
    roots: Seq<Seq<char>>,
    s1: Set<Seq<char>>,
    s2: Set<Seq<char>>,
)
    requires
        s1 == closure_set(decls, roots),
        s2 == closure_set(decls, roots),
    ensures
        s1 == s2,
{
}

/// The closure always includes every root, even one the catalog does not
/// declare.
pub proof fn lemma_closure_contains_roots(
    decls: Seq<TypeAliasDecl>,
    roots: Seq<Seq<char>>,
    id: Seq<char>,
)
    requires
        roots.contains(id),
    ensures
        closure_set(decls, roots).contains(id),
{
    lemma_root_reaches(decls, roots, id);
}

} // verus!
