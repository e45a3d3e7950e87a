//! A stack of lexical scopes.
//!
//! A scope maps names to values and is either nested, in which case a
//! lookup that misses goes on in the scope below, or detached, in which case
//! the lookup stops there. Blocks enter nested scopes; calls enter detached
//! ones, so a callee never sees the locals of its caller.

use crate::text::same_text;
use vstd::prelude::*;
use vstd::string::*;

verus! {

/// The mathematical model of one scope.
pub struct ScopeView<T> {
    /// Whether a lookup that misses here goes on in the scope below
    pub nested: bool,
    /// The bindings of this scope
    pub vars: Map<Seq<char>, T>,
}

/// An empty scope.
pub open spec fn empty_scope<T>(nested: bool) -> ScopeView<T> {
    ScopeView { nested, vars: Map::empty() }
}

/// The scope `scope` with `name` bound to `value`.
pub open spec fn bind<T>(scope: ScopeView<T>, name: Seq<char>, value: T) -> ScopeView<T> {
    ScopeView { nested: scope.nested, vars: scope.vars.insert(name, value) }
}

/// The index of the scope in which a lookup of `name` ends, among the
/// first `n` scopes of the stack, the last of them being the top: the
/// topmost scope that binds the name, provided that every scope above it is
/// nested.
pub open spec fn holder_below<T>(scopes: Seq<ScopeView<T>>, n: nat, name: Seq<char>) -> Option<
    int,
>
    decreases n,
{
    if n == 0 || n > scopes.len() {
        None
    } else if scopes[n - 1].vars.contains_key(name) {
        Some(n - 1)
    } else if scopes[n - 1].nested {
        holder_below(scopes, (n - 1) as nat, name)
    } else {
        None
    }
}

/// The index of the scope in which a lookup of `name` from the top of the
/// stack ends, if it finds the name.
pub open spec fn holder<T>(scopes: Seq<ScopeView<T>>, name: Seq<char>) -> Option<int> {
    holder_below(scopes, scopes.len(), name)
}

/// The value that `name` has, seen from the top of the stack.
pub open spec fn lookup<T>(scopes: Seq<ScopeView<T>>, name: Seq<char>) -> Option<T> {
    match holder(scopes, name) {
        Some(i) => Some(scopes[i].vars[name]),
        None => None,
    }
}

/// The stack after `name`, where a lookup finds it, was given `value`;
/// unchanged where no lookup finds it.
pub open spec fn assign<T>(scopes: Seq<ScopeView<T>>, name: Seq<char>, value: T) -> Seq<
    ScopeView<T>,
> {
    match holder(scopes, name) {
        Some(i) => scopes.update(i, bind(scopes[i], name, value)),
        None => scopes,
    }
}

/// The stack after `name` was bound to `value` in its top scope.
pub open spec fn declare<T>(scopes: Seq<ScopeView<T>>, name: Seq<char>, value: T) -> Seq<
    ScopeView<T>,
>
    recommends
        scopes.len() > 0,
{
    scopes.update(scopes.len() - 1, bind(scopes.last(), name, value))
}

/// One scope: its bindings in the order in which the names first appeared.
/// No name occurs twice.
///
/// The names stand in a vector that is searched from its start. A hash map
/// keyed by strings would do the same work, but `vstd` has no model of the
/// hashing of strings, so nothing could be proved of what such a map holds.
#[derive(Debug)]
struct Scope<T> {
    nested: bool,
    names: Vec<String>,
    values: Vec<T>,
}

impl<T> Scope<T> {
    #[verifier::type_invariant]
    spec fn distinct(&self) -> bool {
        &&& self.names.len() == self.values.len()
        &&& forall|i: int, j: int|
            0 <= i < j < self.names.len() ==> self.names[i]@ != self.names[j]@
    }

    spec fn binds(&self, i: int, name: Seq<char>) -> bool {
        0 <= i < self.names.len() && self.names[i]@ == name
    }

    closed spec fn view(&self) -> ScopeView<T> {
        ScopeView {
            nested: self.nested,
            vars: Map::new(
                |name: Seq<char>| exists|i: int| self.binds(i, name),
                |name: Seq<char>| self.values[choose|i: int| self.binds(i, name)],
            ),
        }
    }

    fn new(nested: bool) -> (r: Self)
        ensures
            r@ == empty_scope::<T>(nested),
    {
        let r = Scope { nested, names: Vec::new(), values: Vec::new() };
        assert(r@.vars =~= Map::empty());
        r
    }

    /// Where `name` stands among the names of this scope.
    fn position(&self, name: &str) -> (r: Option<usize>)
        ensures
            match r {
                Some(i) => self.binds(i as int, name@),
                None => forall|i: int| !self.binds(i, name@),
            },
    {
        let mut i: usize = 0;
        while i < self.names.len()
            invariant
                i <= self.names.len(),
                forall|j: int| 0 <= j < i ==> self.names[j]@ != name@,
            decreases self.names.len() - i,
        {
            if same_text(self.names[i].as_str(), name) {
                return Some(i);
            }
            i += 1;
        }
        None
    }

    /// The value bound to `name` in this very scope.
    fn get(&self, name: &str) -> (r: Option<&T>)
        ensures
            match r {
                Some(v) => self@.vars.contains_key(name@) && self@.vars[name@] == *v,
                None => !self@.vars.contains_key(name@),
            },
    {
        proof {
            use_type_invariant(self);
        }
        match self.position(name) {
            Some(i) => Some(&self.values[i]),
            None => None,
        }
    }

    /// Binds `name` to `value`, in place of an earlier binding of the name
    /// if there is one.
    fn insert(&mut self, name: &str, value: T)
        ensures
            final(self)@ == bind(old(self)@, name@, value),
    {
        proof {
            use_type_invariant(&*self);
        }
        let found = self.position(name);
        let mut taken = Scope::new(false);
        core::mem::swap(self, &mut taken);
        let Scope { nested, mut names, mut values } = taken;
        match found {
            Some(i) => {
                values[i] = value;
            },
            None => {
                names.push(String::from_str(name));
                values.push(value);
            },
        }
        proof {
            assert forall|i: int, j: int| 0 <= i < j < names.len() implies names[i]@
                != names[j]@ by {
                if j == old(self).names.len() {
                    assert(!old(self).binds(i, name@));
                }
            }
        }
        *self = Scope { nested, names, values };
        proof {
            let at = match found {
                Some(i) => i as int,
                None => old(self).names.len() as int,
            };
            assert(final(self).binds(at, name@));
            assert forall|k: Seq<char>, j: int| final(self).binds(j, k) == (old(self).binds(
                j,
                k,
            ) || (j == at && k == name@)) by {}
            assert(final(self)@.vars =~= old(self)@.vars.insert(name@, value));
        }
    }
}

/// The stack of scopes. Its model is the sequence of its scopes' models,
/// the last one being the top.
#[derive(Debug)]
pub struct Scopes<T> {
    scopes: Vec<Scope<T>>,
}

impl<T> View for Scopes<T> {
    type V = Seq<ScopeView<T>>;

    closed spec fn view(&self) -> Seq<ScopeView<T>> {
        Seq::new(self.scopes@.len(), |i: int| self.scopes@[i]@)
    }
}

impl<T> Scopes<T> {
    /// A stack without any scope.
    pub fn new() -> (r: Self)
        ensures
            r@ == Seq::<ScopeView<T>>::empty(),
    {
        Scopes { scopes: Vec::new() }
    }

    /// Pushes an empty scope, nested or detached.
    pub fn enter(&mut self, nested: bool)
        ensures
            final(self)@ == old(self)@.push(empty_scope::<T>(nested)),
    {
        self.scopes.push(Scope::new(nested));
    }

    /// Pops the top scope. On a stack without a scope nothing happens.
    pub fn exit(&mut self)
        ensures
            final(self)@ == if old(self)@.len() > 0 {
                old(self)@.drop_last()
            } else {
                old(self)@
            },
    {
        let _ = self.scopes.pop();
    }

    /// The number of scopes on the stack.
    pub fn depth(&self) -> (r: usize)
        ensures
            r == self@.len(),
    {
        self.scopes.len()
    }

    /// The value of a variable: that of the topmost scope that binds the
    /// name, where every scope above it is nested.
    pub fn get(&self, name: &str) -> (r: Option<&T>)
        ensures
            match r {
                Some(v) => lookup(self@, name@) == Some(*v),
                None => lookup(self@, name@) is None,
            },
    {
        let mut i: usize = self.scopes.len();
        while i > 0
            invariant
                i <= self.scopes.len(),
                holder(self@, name@) == holder_below(self@, i as nat, name@),
            decreases i,
        {
            i -= 1;
            let found = self.scopes[i].get(name);
            if found.is_some() {
                return found;
            }
            if !self.scopes[i].nested {
                return None;
            }
        }
        None
    }

    /// Gives a new value to a variable that a lookup finds, in the scope
    /// where the lookup finds it. Returns whether there was such a variable;
    /// if not, nothing changes.
    pub fn set(&mut self, name: &str, value: T) -> (r: bool)
        ensures
            r == holder(old(self)@, name@).is_some(),
            final(self)@ == assign(old(self)@, name@, value),
    {
        let mut i: usize = self.scopes.len();
        while i > 0
            invariant
                i <= self.scopes.len(),
                *self == *old(self),
                holder(self@, name@) == holder_below(self@, i as nat, name@),
            decreases i,
        {
            i -= 1;
            if self.scopes[i].get(name).is_some() {
                self.scopes[i].insert(name, value);
                return true;
            }
            if !self.scopes[i].nested {
                return false;
            }
        }
        false
    }

    /// Binds a new variable in the top scope, shadowing any variable of the
    /// same name in a scope below.
    pub fn create(&mut self, name: &str, value: T)
        requires
            old(self)@.len() > 0,
        ensures
            final(self)@ == declare(old(self)@, name@, value),
    {
        let top = self.scopes.len() - 1;
        self.scopes[top].insert(name, value);
    }
}

} // verus!
