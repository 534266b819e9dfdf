//! Lexical scope environments.
use crate::runtime::interner::Symbol;
use vstd::prelude::*;

verus! {

/// A lexical scope: the set of names that are bound in it, those of the
/// enclosing scopes included.
///
/// A nested scope starts with every name of its parent and may bind more;
/// what it binds never reaches the parent.
pub struct Env {
    names: Vec<Symbol>,
}

impl View for Env {
    type V = Set<Symbol>;

    closed spec fn view(&self) -> Set<Symbol> {
        Set::new(|x: Symbol| self.names@.contains(x))
    }
}

impl Env {
    /// Creates a scope nested in `parent`, or a root scope when there is
    /// no parent.
    pub fn new(parent: Option<&Env>) -> (e: Env)
        ensures
            e@ == (match parent {
                Some(p) => p@,
                None => Set::<Symbol>::empty(),
            }),
    {
        let mut names: Vec<Symbol> = Vec::new();
        match parent {
            None => {
                assert(Set::new(|x: Symbol| names@.contains(x)) =~= Set::<Symbol>::empty());
            },
            Some(p) => {
                let n = p.names.len();
                let mut i: usize = 0;
                while i < n
                    invariant
                        n == p.names@.len(),
                        i <= n,
                        names@ == p.names@.take(i as int),
                    decreases n - i,
                {
                    names.push(p.names[i]);
                    i = i + 1;
                    assert(names@ =~= p.names@.take(i as int));
                }
                assert(names@ =~= p.names@);
            },
        }
        Env { names }
    }

    /// Binds `name` in this scope.
    pub fn bind(&mut self, name: Symbol)
        ensures
            final(self)@ == old(self)@.insert(name),
    {
        let ghost before = self.names@;
        self.names.push(name);
        assert forall|x: Symbol| self.names@.contains(x) <==> (before.contains(x) || x == name) by {
            if before.contains(x) {
                let k = choose|k: int| 0 <= k < before.len() && before[k] == x;
                assert(self.names@[k] == x);
            }
            if x == name {
                assert(self.names@[before.len() as int] == x);
            }
            if self.names@.contains(x) {
                let k = choose|k: int| 0 <= k < self.names@.len() && self.names@[k] == x;
                if k < before.len() {
                    assert(before[k] == x);
                }
            }
        }
        assert(before == old(self).names@);
        assert(self@ =~= old(self)@.insert(name)) by {
            assert forall|x: Symbol| #[trigger] self@.contains(x) == old(self)@.insert(name).contains(x) by {
                assert(self@.contains(x) == self.names@.contains(x));
                assert(old(self)@.contains(x) == before.contains(x));
            }
        }
    }

    /// Looks `name` up in this scope and its enclosing scopes: `Some` when
    /// it is bound.
    pub fn find(&self, name: Symbol) -> (r: Option<()>)
        ensures
            r is Some <==> self@.contains(name),
    {
        let n = self.names.len();
        let mut i: usize = 0;
        while i < n
            invariant
                n == self.names@.len(),
                i <= n,
                forall|k: int| 0 <= k < i ==> self.names@[k] != name,
            decreases n - i,
        {
            if self.names[i] == name {
                assert(self.names@.contains(name));
                return Some(());
            }
            i = i + 1;
        }
        None
    }
}

} // verus!
