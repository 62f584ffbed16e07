//! Binding every secret of a struct in one step.

use vstd::prelude::*;

use crate::error::BindError;
use crate::source::SourceRegistry;

verus! {

/// Implemented by structs that contain one or more [`Secret`](crate::secret::Secret)
/// fields.
///
/// An implementation binds each secret field and reports every failure, not
/// only the first; [`collect_errors`] turns the outcomes of the single binds
/// into that answer.
pub trait Bindable: Sized {
    /// What binding does for this type: `after` and `res` are a state and an
    /// answer that binding `self` with `registry` may end in. An implementation
    /// that does not say more admits every outcome.
    open spec fn binds_to(&self, registry: &SourceRegistry, after: Self, res: Result<(), Vec<BindError>>) -> bool {
        true
    }

    /// Binds all secret fields using sources from `registry`, collecting
    /// every error rather than stopping at the first failure: an `Err` holds
    /// at least one error.
    fn bind_secrets(&mut self, registry: &SourceRegistry) -> (res: Result<(), Vec<BindError>>)
        ensures
            old(self).binds_to(registry, *final(self), res),
            res matches Err(errors) ==> errors@.len() > 0,
    ;
}

/// Binds all secrets in `target` using `registry`: the answer and the final
/// state are those of [`Bindable::bind_secrets`].
pub fn bind_all<T: Bindable>(target: &mut T, registry: &SourceRegistry) -> (res: Result<(), Vec<BindError>>)
    ensures
        old(target).binds_to(registry, *final(target), res),
        res matches Err(errors) ==> errors@.len() > 0,
{
    target.bind_secrets(registry)
}

/// The errors among `results`, in order.
pub open spec fn errors_of(results: Seq<Result<(), BindError>>) -> Seq<BindError>
    decreases results.len(),
{
    if results.len() == 0 {
        Seq::empty()
    } else {
        let earlier = errors_of(results.drop_last());
        match results.last() {
            Ok(()) => earlier,
            Err(e) => earlier.push(e),
        }
    }
}

/// The errors of binding several secrets are exactly the failures among the
/// single outcomes, in the order in which they came: keeping the `Err`
/// outcomes and taking their errors gives `errors_of`, so there are as many
/// errors as failed binds and none is dropped, and there are none only when
/// every bind succeeded.
pub proof fn law_errors_are_the_failures(results: Seq<Result<(), BindError>>)
    ensures
        errors_of(results) == results.filter(|r: Result<(), BindError>| r is Err).map_values(
            |r: Result<(), BindError>| r->Err_0,
        ),
        errors_of(results).len() == results.filter(|r: Result<(), BindError>| r is Err).len(),
        errors_of(results).len() == 0 <==> forall|i: int| 0 <= i < results.len() ==> results[i] is Ok,
    decreases results.len(),
{
    if results.len() > 0 {
        let t = results.drop_last();
        law_errors_are_the_failures(t);
        if results.last() is Ok {
            assert(errors_of(results).len() == 0 ==> forall|i: int|
                0 <= i < results.len() ==> results[i] is Ok) by {
                if errors_of(results).len() == 0 {
                    assert forall|i: int| 0 <= i < results.len() implies results[i] is Ok by {
                        if i < t.len() {
                            assert(results[i] == t[i]);
                        }
                    }
                }
            }
            assert((forall|i: int| 0 <= i < results.len() ==> results[i] is Ok) ==> errors_of(results).len()
                == 0) by {
                if forall|i: int| 0 <= i < results.len() ==> results[i] is Ok {
                    assert forall|i: int| 0 <= i < t.len() implies t[i] is Ok by {
                        assert(results[i] == t[i]);
                    }
                }
            }
        } else {
            assert(!(results[results.len() - 1] is Ok));
        }
        let p = |r: Result<(), BindError>| r is Err;
        let f = |r: Result<(), BindError>| r->Err_0;
        let all = results.filter(p);
        let earlier = t.filter(p);
        reveal(Seq::filter);
        if results.last() is Err {
            assert(all == earlier.push(results.last()));
            assert(all.map_values(f) =~= earlier.map_values(f).push(f(results.last())));
        } else {
            assert(all == earlier);
        }
    }
}

/// Binding one more secret adds its error, if it failed, after the errors
/// so far, and adds nothing if it succeeded.
pub proof fn law_errors_of_one_more(results: Seq<Result<(), BindError>>, next: Result<(), BindError>)
    ensures
        errors_of(results.push(next)) == match next {
            Ok(()) => errors_of(results),
            Err(e) => errors_of(results).push(e),
        },
        errors_of(results.push(next)).len() == errors_of(results).len() + (if next is Err { 1int } else { 0int }),
{
    assert(results.push(next).drop_last() =~= results);
}

/// The answer of binding several secrets whose single outcomes are
/// `results`: `Ok` when all succeeded, else every error in order.
pub fn collect_errors(results: Vec<Result<(), BindError>>) -> (res: Result<(), Vec<BindError>>)
    ensures
        match res {
            Ok(()) => errors_of(results@).len() == 0,
            Err(errors) => errors@ == errors_of(results@) && errors@.len() > 0,
        },
        res is Ok <==> forall|i: int| 0 <= i < results@.len() ==> results@[i] is Ok,
{
    let ghost all = results@;
    let total = results.len();
    let mut rest = results;
    let mut errors: Vec<BindError> = Vec::new();
    let mut k: usize = 0;
    while rest.len() > 0
        invariant
            k <= all.len(),
            all.len() == total,
            rest@ == all.skip(k as int),
            errors@ == errors_of(all.take(k as int)),
        decreases rest.len(),
    {
        let r = rest.remove(0);
        proof {
            assert(all.take(k + 1).drop_last() =~= all.take(k as int));
            assert(all.take(k + 1).last() == r);
        }
        match r {
            Ok(()) => {},
            Err(e) => {
                errors.push(e);
            },
        }
        assert(rest@ =~= all.skip(k + 1));
        k = k + 1;
    }
    assert(all.take(k as int) =~= all);
    proof {
        law_errors_are_the_failures(all);
    }
    if errors.len() == 0 {
        Ok(())
    } else {
        Err(errors)
    }
}

} // verus!
