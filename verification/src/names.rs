//! The compile-time context: the names in scope, innermost first.

use vstd::prelude::*;

verus! {

/// `im::Vector`, a persistent sequence; its contents are not visible here.
#[verifier::external_type_specification]
#[verifier::external_body]
#[verifier::reject_recursive_types(A)]
pub struct ExVector<A>(im::Vector<A>);

/// The names that a context holds, innermost first, each as its characters.
pub uninterp spec fn bound_names(names: im::Vector<&String>) -> Seq<Seq<char>>;

/// The position of the innermost binding of `x`, if `x` is bound at all.
pub open spec fn first_index(names: Seq<Seq<char>>, x: Seq<char>) -> Option<int>
    decreases names.len(),
{
    if names.len() == 0 {
        None
    } else if names[0] == x {
        Some(0)
    } else {
        match first_index(names.drop_first(), x) {
            Some(i) => Some(i + 1),
            None => None,
        }
    }
}

/// `first_index` finds a position that holds `x` and that no earlier
/// occurrence of `x` precedes; it finds none only where `x` does not occur.
pub proof fn lemma_first_index(names: Seq<Seq<char>>, x: Seq<char>)
    ensures
        match first_index(names, x) {
            Some(i) => 0 <= i < names.len() && names[i] == x && forall|j: int|
                0 <= j < i ==> names[j] != x,
            None => forall|j: int| 0 <= j < names.len() ==> names[j] != x,
        },
    decreases names.len(),
{
    if names.len() > 0 && names[0] != x {
        let rest = names.drop_first();
        lemma_first_index(rest, x);
        match first_index(rest, x) {
            Some(i) => {
                assert forall|j: int| 0 <= j < i + 1 implies names[j] != x by {
                    if j > 0 {
                        assert(names[j] == rest[j - 1]);
                    }
                }
            },
            None => {
                assert forall|j: int| 0 <= j < names.len() implies names[j] != x by {
                    if j > 0 {
                        assert(names[j] == rest[j - 1]);
                    }
                }
            },
        }
    }
}

/// `im::Vector::new`: a context with no name in scope.
#[verifier::external_body]
pub(crate) fn empty_names<'a>() -> (r: im::Vector<&'a String>)
    ensures
        bound_names(r) == Seq::<Seq<char>>::empty(),
{
    im::Vector::new()
}

/// `im::Vector::clone`: the copy holds the same names.
#[verifier::external_body]
pub(crate) fn copy_names<'a>(names: &im::Vector<&'a String>) -> (r: im::Vector<&'a String>)
    ensures
        bound_names(r) == bound_names(*names),
{
    names.clone()
}

/// `im::Vector::len`: the number of names in scope.
#[verifier::external_body]
pub(crate) fn count_names(names: &im::Vector<&String>) -> (n: usize)
    ensures
        n == bound_names(*names).len(),
{
    names.len()
}

/// `im::Vector::push_front`: `x` becomes the innermost name. The outside
/// function stops the program when the length would pass `usize::MAX`, so
/// that case is left out.
#[verifier::external_body]
pub(crate) fn bind_name<'a>(names: &mut im::Vector<&'a String>, x: &'a String)
    requires
        bound_names(*old(names)).len() < usize::MAX,
    ensures
        bound_names(*final(names)) == seq![x@] + bound_names(*old(names)),
{
    names.push_front(x)
}

/// `im::Vector::index_of`: the first position whose name equals `x`, or
/// `None` where no position holds it.
#[verifier::external_body]
pub(crate) fn find_name<'a>(names: &im::Vector<&'a String>, x: &'a String) -> (r: Option<usize>)
    ensures
        match r {
            Some(i) => i < bound_names(*names).len() && bound_names(*names)[i as int] == x@
                && forall|j: int| 0 <= j < i ==> bound_names(*names)[j] != x@,
            None => forall|j: int| 0 <= j < bound_names(*names).len() ==> bound_names(*names)[j]
                != x@,
        },
{
    names.index_of(&x)
}

/// Resolves `x` to the position of its innermost binding.
pub fn resolve<'a>(names: &im::Vector<&'a String>, x: &'a String) -> (r: Option<usize>)
    ensures
        match r {
            Some(i) => first_index(bound_names(*names), x@) == Some(i as int),
            None => first_index(bound_names(*names), x@) is None,
        },
{
    let r = find_name(names, x);
    proof {
        lemma_first_index(bound_names(*names), x@);
    }
    r
}

} // verus!
