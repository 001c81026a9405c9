//! Functions of several parameters, written as nested functions of one.

use crate::ast::Term;
use std::rc::Rc;
use vstd::prelude::*;

verus! {

impl Term {
    /// This term is `body` under one anonymous function per parameter, the
    /// first parameter outermost: each has the empty name for itself and
    /// the parameter's name for its argument.
    pub open spec fn is_lambda(self, params: Seq<String>, body: Term) -> bool
        decreases params.len(),
    {
        if params.len() == 0 {
            self == body
        } else {
            match self {
                Term::Fun(f, x, m) => f@ == Seq::<char>::empty() && x == params[0] && m.is_lambda(
                    params.drop_first(),
                    body,
                ),
                _ => false,
            }
        }
    }

    /// The function of the given parameters with the given body.
    pub fn lambda(params: &Vec<String>, body: Term) -> (t: Term)
        ensures
            t.is_lambda(params@, body),
    {
        let mut t = body;
        let mut i: usize = params.len();
        while i > 0
            invariant
                i <= params@.len(),
                t.is_lambda(params@.subrange(i as int, params@.len() as int), body),
            decreases i,
        {
            i = i - 1;
            proof {
                let tail = params@.subrange(i as int, params@.len() as int);
                assert(tail.drop_first() =~= params@.subrange(i + 1, params@.len() as int));
            }
            t = Term::Fun(String::new(), params[i].clone(), Rc::new(t));
        }
        proof {
            assert(params@.subrange(0, params@.len() as int) =~= params@);
        }
        t
    }
}

} // verus!
