use vstd::prelude::*;
use vstd::std_specs::cmp::PartialEqSpecImpl;
use vstd::std_specs::cmp::PartialOrdSpecImpl;
use vstd::std_specs::cmp::PartialEqSpec;
use vstd::std_specs::cmp::PartialOrdSpec;
use vstd::std_specs::cmp::OrdSpec;

verus! {

/// A value derived from a reference to a source, kept together with that source.
///
/// The source is moved to the heap and leaked, so a `&'static mut` reference to it
/// can be handed to the function that builds the derived value (the referent). The
/// referent can therefore borrow from the source for as long as the `Bound` (or any
/// value it is later mapped into) lives, and the `Bound` itself carries no lifetime
/// parameter, so it can be stored and passed around freely.
///
/// The source's memory is never given back: it stays alive and valid for the rest
/// of the program, which is what makes every operation here safe, including
/// mutable access to the referent.
///
/// In specifications a `Bound` is described by two parts: `referent()`, the
/// derived value it holds, and `source()`, the value the source was handed over
/// with, before the binding function ran (that function, or the referent later,
/// may change the source through its reference; `source()` does not follow that).
pub struct Bound<G, L> {
    derived: G,
    source: Ghost<L>,
}

/// Moves a boxed value out of reach of any destructor and returns a reference to it
/// that lives for the rest of the program (`Box::leak`).
/// Trusted: the returned reference points at the value that was in the box.
#[verifier::external_body]
fn leak_box<L: 'static>(boxed: Box<L>) -> (leaked: &'static mut L)
    ensures
        *leaked == *boxed,
{
    Box::leak(boxed)
}

/// The referent of whichever bound a fallible operation produced, as a `Result`.
pub open spec fn referent_outcome<G, E, L>(res: Result<Bound<G, L>, Bound<E, L>>) -> Result<G, E> {
    match res {
        Ok(b) => Ok(b.referent()),
        Err(b) => Err(b.referent()),
    }
}

/// The source of whichever bound a fallible operation produced.
pub open spec fn source_of<G, E, L>(res: Result<Bound<G, L>, Bound<E, L>>) -> L {
    match res {
        Ok(b) => b.source(),
        Err(b) => b.source(),
    }
}

/// `out` is what `func` gives on what `a` and `b` dereference to (through their own
/// `Deref::deref`).
pub open spec fn on_targets<T: ?Sized, T2: ?Sized, G, G2, R, F>(a: G, b: G2, func: F, out: R) -> bool where
    G: core::ops::Deref<Target = T>,
    G2: core::ops::Deref<Target = T2>,
    F: FnOnce(&T, &T2) -> R,
 {
    exists|x: &T, y: &T2|
        #[trigger] call_ensures(G::deref, (&a,), x) && #[trigger] call_ensures(G2::deref, (&b,), y)
            && call_ensures(func, (x, y), out)
}

/// `G`'s own `Deref::deref` gives one reference for each value: two calls on
/// equal values give the same target.
pub open spec fn derefs_uniquely<G: core::ops::Deref>() -> bool {
    forall|g: G, x: &G::Target, y: &G::Target|
        #[trigger] call_ensures(G::deref, (&g,), x) && #[trigger] call_ensures(G::deref, (&g,), y)
            ==> x == y
}

/// What `G`'s own `Deref::deref` gives on `g` (one such reference, where there
/// are several).
pub open spec fn target_of<G: core::ops::Deref>(g: &G) -> &G::Target {
    choose|x: &G::Target| call_ensures(G::deref, (g,), x)
}

/// The equality of `A` against `B` follows its specification (`eq_spec`).
pub open spec fn eq_is_lawful<A: ?Sized + PartialEqSpec<B>, B: ?Sized>() -> bool {
    A::obeys_eq_spec()
}

/// What the equality of `A` against `B` specifies for `x` and `y`.
pub open spec fn specified_eq<A: ?Sized + PartialEqSpec<B>, B: ?Sized>(x: &A, y: &B) -> bool {
    A::eq_spec(x, y)
}

/// The partial order of `A` against `B` follows its specification
/// (`partial_cmp_spec`).
pub open spec fn partial_order_is_lawful<A: ?Sized + PartialOrdSpec<B>, B: ?Sized>() -> bool {
    A::obeys_partial_cmp_spec()
}

/// What the partial order of `A` against `B` specifies for `x` and `y`.
pub open spec fn specified_order<A: ?Sized + PartialOrdSpec<B>, B: ?Sized>(x: &A, y: &B) -> Option<
    core::cmp::Ordering,
> {
    A::partial_cmp_spec(x, y)
}

impl<G, L> Bound<G, L> {
    /// The derived value held by this bound.
    pub closed spec fn referent(self) -> G {
        self.derived
    }

    /// The value the source was handed over with, before the binding function ran.
    /// Later changes made to the source through its reference are not reflected.
    pub closed spec fn source(self) -> L {
        self.source@
    }

    /// A bound is nothing more than its referent and its source: two bounds that
    /// agree on both are the same. With the contracts of `decompose` and `map`,
    /// this gives that taking the referent out and binding it back to the same
    /// source yields the bound one started from.
    pub proof fn lemma_determined_by_parts(self, other: Self)
        requires
            self.referent() == other.referent(),
            self.source() == other.source(),
        ensures
            self == other,
    {
    }

    /// Takes the referent out, leaving the source bound to an empty referent.
    pub fn decompose(self) -> (parts: (G, Bound<(), L>))
        ensures
            parts.0 == self.referent(),
            parts.1.source() == self.source(),
    {
        (self.derived, Bound { derived: (), source: self.source })
    }

    /// Access the wrapped struct.
    pub fn wrapped(&self) -> (referent: &G)
        ensures
            *referent == self.referent(),
    {
        &self.derived
    }

    /// Modify the wrapped struct; the source stays bound.
    pub fn wrapped_mut(&mut self) -> (referent: &mut G)
        ensures
            *referent == old(self).referent(),
            final(self).referent() == *final(referent),
            final(self).source() == old(self).source(),
    {
        &mut self.derived
    }
}

impl<G, L: 'static> Bound<G, L> {
    /// Bind data to a referent built by `func` from a reference to the data.
    pub fn new<F: FnOnce(&'static mut L) -> G>(source: L, func: F) -> (bound: Self)
        requires
            forall|r: &'static mut L| *r == source ==> call_requires(func, (r,)),
        ensures
            exists|r: &'static mut L| *r == source && call_ensures(func, (r,), bound.referent()),
            bound.source() == source,
    {
        let source_ref = leak_box(Box::new(source));
        let derived = func(source_ref);
        Bound { derived, source: Ghost(source) }
    }

    /// Bind data to a referent or to a referent error, whichever `func` gives.
    pub fn try_new<E, F: FnOnce(&'static mut L) -> Result<G, E>>(source: L, func: F) -> (res:
        Result<Self, Bound<E, L>>)
        requires
            forall|r: &'static mut L| *r == source ==> call_requires(func, (r,)),
        ensures
            exists|r: &'static mut L|
                *r == source && call_ensures(func, (r,), referent_outcome(res)),
            source_of(res) == source,
    {
        let source_ref = leak_box(Box::new(source));
        match func(source_ref) {
            Ok(derived) => Ok(Bound { derived, source: Ghost(source) }),
            Err(e) => Err(Bound { derived: e, source: Ghost(source) }),
        }
    }

    /// Replace the referent by what `func` makes of it; the source stays bound.
    pub fn map<G2, F: FnOnce(G) -> G2>(self, func: F) -> (bound: Bound<G2, L>)
        requires
            call_requires(func, (self.referent(),)),
        ensures
            call_ensures(func, (self.referent(),), bound.referent()),
            bound.source() == self.source(),
    {
        let (derived, binding) = self.decompose();
        let new = func(derived);
        Bound { derived: new, source: binding.source }
    }

    /// Replace the referent or produce a referent error; either way the source
    /// stays bound.
    pub fn try_map<G2, E, F: FnOnce(G) -> Result<G2, E>>(self, func: F) -> (res: Result<
        Bound<G2, L>,
        Bound<E, L>,
    >)
        requires
            call_requires(func, (self.referent(),)),
        ensures
            call_ensures(func, (self.referent(),), referent_outcome(res)),
            source_of(res) == self.source(),
    {
        let (derived, binding) = self.decompose();
        match func(derived) {
            Ok(new) => Ok(Bound { derived: new, source: binding.source }),
            Err(e) => Err(Bound { derived: e, source: binding.source }),
        }
    }
}

impl<G, L: 'static> Bound<G, L> {
    /// Binding with a function that always succeeds gives what `new` gives: if
    /// `ok_func` returns `Ok` of what `func` returns, and `func` gives one result
    /// for each value of the source, then `try_new(source, ok_func)` is `Ok` of
    /// the bound `new(source, func)`.
    pub proof fn lemma_try_new_always_ok_is_new<E, F, F2>(
        source: L,
        func: F,
        ok_func: F2,
        bound: Self,
        res: Result<Self, Bound<E, L>>,
    ) where F: FnOnce(&'static mut L) -> G, F2: FnOnce(&'static mut L) -> Result<G, E>
        requires
            forall|r1: &'static mut L, r2: &'static mut L, g1: G, g2: G|
                *r1 == *r2 && #[trigger] call_ensures(func, (r1,), g1) && #[trigger] call_ensures(
                    func,
                    (r2,),
                    g2,
                ) ==> g1 == g2,
            forall|r: &'static mut L, out: Result<G, E>|
                #[trigger] call_ensures(ok_func, (r,), out) ==> exists|g: G|
                    out == Ok::<G, E>(g) && #[trigger] call_ensures(func, (r,), g),
            exists|r: &'static mut L| *r == source && call_ensures(func, (r,), bound.referent()),
            bound.source() == source,
            exists|r: &'static mut L| *r == source && call_ensures(ok_func, (r,), referent_outcome(res)),
            source_of(res) == source,
        ensures
            res == Ok::<Self, Bound<E, L>>(bound),
    {
        let r1 = choose|r: &'static mut L| *r == source && call_ensures(func, (r,), bound.referent());
        let r2 = choose|r: &'static mut L| *r == source && call_ensures(ok_func, (r,), referent_outcome(res));
        let g = choose|g: G| referent_outcome(res) == Ok::<G, E>(g) && call_ensures(func, (r2,), g);
        assert(g == bound.referent());
        match res {
            Ok(b) => {
                b.lemma_determined_by_parts(bound);
            },
            Err(b) => {},
        }
    }

    /// Mapping twice is mapping once by the composition: if `both` returns what
    /// `then` gives on what `first` gives, and `first` and `then` each give one
    /// result per argument, then `self.map(first).map(then)` is `self.map(both)`.
    pub proof fn lemma_map_composes<G2, G3, F, H, FH>(
        self,
        first: F,
        then: H,
        both: FH,
        mid: Bound<G2, L>,
        twice: Bound<G3, L>,
        once: Bound<G3, L>,
    ) where F: FnOnce(G) -> G2, H: FnOnce(G2) -> G3, FH: FnOnce(G) -> G3
        requires
            forall|g: G, a: G2, b: G2|
                #[trigger] call_ensures(first, (g,), a) && #[trigger] call_ensures(first, (g,), b)
                    ==> a == b,
            forall|g: G2, a: G3, b: G3|
                #[trigger] call_ensures(then, (g,), a) && #[trigger] call_ensures(then, (g,), b)
                    ==> a == b,
            forall|g: G, z: G3|
                #[trigger] call_ensures(both, (g,), z) ==> exists|y: G2|
                    #[trigger] call_ensures(first, (g,), y) && call_ensures(then, (y,), z),
            call_ensures(first, (self.referent(),), mid.referent()),
            mid.source() == self.source(),
            call_ensures(then, (mid.referent(),), twice.referent()),
            twice.source() == mid.source(),
            call_ensures(both, (self.referent(),), once.referent()),
            once.source() == self.source(),
        ensures
            twice == once,
    {
        let y = choose|y: G2|
            call_ensures(first, (self.referent(),), y) && call_ensures(then, (y,), once.referent());
        assert(y == mid.referent());
        assert(twice.referent() == once.referent());
        twice.lemma_determined_by_parts(once);
    }

    /// Mapping with a function that always succeeds gives what `map` gives: if
    /// `ok_func` returns `Ok` of what `func` returns, and `func` gives one result
    /// per argument, then `self.try_map(ok_func)` is `Ok` of `self.map(func)`.
    pub proof fn lemma_try_map_always_ok_is_map<G2, E, F, F2>(
        self,
        func: F,
        ok_func: F2,
        mapped: Bound<G2, L>,
        res: Result<Bound<G2, L>, Bound<E, L>>,
    ) where F: FnOnce(G) -> G2, F2: FnOnce(G) -> Result<G2, E>
        requires
            forall|g: G, a: G2, b: G2|
                #[trigger] call_ensures(func, (g,), a) && #[trigger] call_ensures(func, (g,), b)
                    ==> a == b,
            forall|g: G, out: Result<G2, E>|
                #[trigger] call_ensures(ok_func, (g,), out) ==> exists|y: G2|
                    out == Ok::<G2, E>(y) && #[trigger] call_ensures(func, (g,), y),
            call_ensures(func, (self.referent(),), mapped.referent()),
            mapped.source() == self.source(),
            call_ensures(ok_func, (self.referent(),), referent_outcome(res)),
            source_of(res) == self.source(),
        ensures
            res == Ok::<Bound<G2, L>, Bound<E, L>>(mapped),
    {
        let y = choose|y: G2|
            referent_outcome(res) == Ok::<G2, E>(y) && call_ensures(func, (self.referent(),), y);
        assert(y == mapped.referent());
        match res {
            Ok(b) => {
                b.lemma_determined_by_parts(mapped);
            },
            Err(b) => {},
        }
    }
}

impl<T: ?Sized, G: core::ops::Deref<Target = T>, L> core::ops::Deref for Bound<G, L> {
    type Target = T;

    /// Dereferences the referent: the result is one that the referent's own
    /// `Deref::deref` gives on it.
    fn deref(&self) -> (r: &T)
        ensures
            call_ensures(G::deref, (&self.referent(),), r),
    {
        self.wrapped().deref()
    }
}

impl<T: ?Sized, G: core::ops::DerefMut<Target = T>, L> core::ops::DerefMut for Bound<G, L> {
    /// Mutably dereferences the referent: the result is one that the referent's own
    /// `DerefMut::deref_mut` gives on a mutable borrow of it, the referent ends up
    /// as that borrow leaves it, and the source stays bound.
    fn deref_mut(&mut self) -> (r: &mut T)
        ensures
            exists|m: &mut G|
                *m == old(self).referent() && *final(m) == final(self).referent() && call_ensures(
                    G::deref_mut,
                    (m,),
                    r,
                ),
            final(self).source() == old(self).source(),
    {
        self.wrapped_mut().deref_mut()
    }
}

impl<T: ?Sized, G: AsRef<T>, L> AsRef<T> for Bound<G, L> {
    /// Forwards to the referent's `AsRef::as_ref`. Trusted: nothing is claimed of
    /// the result, which is whatever the referent's impl returns.
    #[verifier::external_body]
    fn as_ref(&self) -> &T {
        self.derived.as_ref()
    }
}

/// Calls `AsMut::as_mut` on a value (std's trait, the value's own impl).
/// Trusted: nothing is claimed of the result or of how the value changes.
#[verifier::external_body]
fn as_mut_of<T: ?Sized, G: AsMut<T>>(value: &mut G) -> &mut T {
    value.as_mut()
}

impl<T: ?Sized, G: AsMut<T>, L> AsMut<T> for Bound<G, L> {
    /// Forwards to the referent's `AsMut::as_mut`; the source stays bound.
    fn as_mut(&mut self) -> (r: &mut T)
        ensures
            final(self).source() == old(self).source(),
    {
        as_mut_of(self.wrapped_mut())
    }
}

impl<G, L, G2, L2> PartialEq<Bound<G2, L2>> for Bound<G, L> where
    G: core::ops::Deref,
    G2: core::ops::Deref,
    G::Target: PartialEq<G2::Target>,
 {
    /// Compares the dereferenced referents with their own `PartialEq::eq`: the
    /// result is what the target type's `eq` gives on what the two referents
    /// dereference to.
    fn eq(&self, other: &Bound<G2, L2>) -> (equal: bool)
        ensures
            on_targets(self.referent(), other.referent(), <G::Target as PartialEq<G2::Target>>::eq, equal),
    {
        let x = self.wrapped().deref();
        let y = other.wrapped().deref();
        x.eq(y)
    }

    /// Compares the dereferenced referents with their own `PartialEq::ne`: the
    /// result is what the target type's `ne` gives on what the two referents
    /// dereference to.
    fn ne(&self, other: &Bound<G2, L2>) -> (unequal: bool)
        ensures
            on_targets(self.referent(), other.referent(), <G::Target as PartialEq<G2::Target>>::ne, unequal),
    {
        let x = self.wrapped().deref();
        let y = other.wrapped().deref();
        x.ne(y)
    }
}

impl<G, L, G2, L2> PartialEqSpecImpl<Bound<G2, L2>> for Bound<G, L> where
    G: core::ops::Deref,
    G2: core::ops::Deref,
    G::Target: PartialEq<G2::Target>,
 {
    /// Bounds compare lawfully when their targets do and each side dereferences
    /// to one target.
    open spec fn obeys_eq_spec() -> bool {
        &&& eq_is_lawful::<G::Target, G2::Target>()
        &&& derefs_uniquely::<G>()
        &&& derefs_uniquely::<G2>()
    }

    /// Two bounds are equal when what their referents dereference to is.
    open spec fn eq_spec(&self, other: &Bound<G2, L2>) -> bool {
        specified_eq::<G::Target, G2::Target>(target_of(&self.referent()), target_of(&other.referent()))
    }
}

impl<G, L> Eq for Bound<G, L> where G: core::ops::Deref, G::Target: Eq {

}

impl<G, L> core::hash::Hash for Bound<G, L> where G: core::ops::Deref, G::Target: core::hash::Hash {
    /// Hashes the dereferenced referent with its own `Hash::hash`.
    /// Trusted: nothing is claimed of what it feeds the hasher.
    #[verifier::external_body]
    fn hash<H: core::hash::Hasher>(&self, state: &mut H) {
        self.derived.deref().hash(state)
    }
}

impl<G, L, G2, L2> PartialOrd<Bound<G2, L2>> for Bound<G, L> where
    G: core::ops::Deref,
    G2: core::ops::Deref,
    G::Target: PartialOrd<G2::Target>,
 {
    /// Orders by the dereferenced referents' own `PartialOrd::partial_cmp`: the
    /// result is what the target type's `partial_cmp` gives on what the two
    /// referents dereference to.
    fn partial_cmp(&self, other: &Bound<G2, L2>) -> (order: Option<core::cmp::Ordering>)
        ensures
            on_targets(self.referent(), other.referent(), <G::Target>::partial_cmp, order),
    {
        let x = self.wrapped().deref();
        let y = other.wrapped().deref();
        x.partial_cmp(y)
    }
}

impl<G, L, G2, L2> PartialOrdSpecImpl<Bound<G2, L2>> for Bound<G, L> where
    G: core::ops::Deref,
    G2: core::ops::Deref,
    G::Target: PartialOrd<G2::Target>,
 {
    /// Bounds order lawfully when their targets do and each side dereferences to
    /// one target.
    open spec fn obeys_partial_cmp_spec() -> bool {
        &&& partial_order_is_lawful::<G::Target, G2::Target>()
        &&& derefs_uniquely::<G>()
        &&& derefs_uniquely::<G2>()
    }

    /// Two bounds order as what their referents dereference to.
    open spec fn partial_cmp_spec(&self, other: &Bound<G2, L2>) -> Option<core::cmp::Ordering> {
        specified_order::<G::Target, G2::Target>(target_of(&self.referent()), target_of(&other.referent()))
    }
}

impl<G, L> Ord for Bound<G, L> where G: core::ops::Deref, G::Target: Ord {
    /// Orders by the dereferenced referents' own `Ord::cmp`.
    /// Trusted: the result is what the target type's `cmp` gives on what the two
    /// referents dereference to.
    #[verifier::external_body]
    fn cmp(&self, other: &Self) -> (order: core::cmp::Ordering)
        ensures
            on_targets(self.referent(), other.referent(), <G::Target>::cmp, order),
    {
        self.derived.deref().cmp(other.derived.deref())
    }
}

/// The total order of `A` follows its specification (`cmp_spec`).
pub open spec fn total_order_is_lawful<A: ?Sized + OrdSpec>() -> bool {
    A::obeys_cmp_spec()
}

/// What the total order of `A` specifies for `x` and `y`.
pub open spec fn specified_total_order<A: ?Sized + OrdSpec>(x: &A, y: &A) -> core::cmp::Ordering {
    A::cmp_spec(x, y)
}

/// The ordering seen from the other side.
pub open spec fn reversed(order: core::cmp::Ordering) -> core::cmp::Ordering {
    match order {
        core::cmp::Ordering::Less => core::cmp::Ordering::Greater,
        core::cmp::Ordering::Equal => core::cmp::Ordering::Equal,
        core::cmp::Ordering::Greater => core::cmp::Ordering::Less,
    }
}

/// Equality of bounds is equality of their targets, and `!=` is its negation:
/// where the targets compare lawfully and each side dereferences to one target,
/// `a == b` is what the targets' equality specifies for what `a` and `b`
/// dereference to, and `a != b` is the opposite of `a == b`.
pub proof fn lemma_eq_follows_targets<G, L, G2, L2>(
    a: Bound<G, L>,
    b: Bound<G2, L2>,
    equal: bool,
    unequal: bool,
) where G: core::ops::Deref, G2: core::ops::Deref, G::Target: PartialEq<G2::Target>
    requires
        eq_is_lawful::<G::Target, G2::Target>(),
        derefs_uniquely::<G>(),
        derefs_uniquely::<G2>(),
        on_targets(a.referent(), b.referent(), <G::Target as PartialEq<G2::Target>>::eq, equal),
        on_targets(a.referent(), b.referent(), <G::Target as PartialEq<G2::Target>>::ne, unequal),
    ensures
        equal == specified_eq::<G::Target, G2::Target>(target_of(&a.referent()), target_of(&b.referent())),
        unequal == !equal,
{
    let (x1, y1) = choose|x: &G::Target, y: &G2::Target|
        call_ensures(G::deref, (&a.referent(),), x) && call_ensures(G2::deref, (&b.referent(),), y)
            && call_ensures(<G::Target as PartialEq<G2::Target>>::eq, (x, y), equal);
    let (x2, y2) = choose|x: &G::Target, y: &G2::Target|
        call_ensures(G::deref, (&a.referent(),), x) && call_ensures(G2::deref, (&b.referent(),), y)
            && call_ensures(<G::Target as PartialEq<G2::Target>>::ne, (x, y), unequal);
    assert(x1 == x2 && x1 == target_of(&a.referent()));
    assert(y1 == y2 && y1 == target_of(&b.referent()));
}

/// The partial order of bounds is that of their targets, and is antisymmetric
/// where theirs is: where the targets order lawfully and each side dereferences
/// to one target, `a.partial_cmp(&b)` is what the targets' order specifies for
/// what `a` and `b` dereference to, and `a < b` exactly when `b > a`.
pub proof fn lemma_partial_order_follows_targets<G, L>(
    a: Bound<G, L>,
    b: Bound<G, L>,
    forward: Option<core::cmp::Ordering>,
    backward: Option<core::cmp::Ordering>,
) where G: core::ops::Deref, G::Target: PartialOrd
    requires
        partial_order_is_lawful::<G::Target, G::Target>(),
        derefs_uniquely::<G>(),
        forall|x: &G::Target, y: &G::Target|
            #[trigger] specified_order::<G::Target, G::Target>(x, y) == Some(core::cmp::Ordering::Less)
                <==> #[trigger] specified_order::<G::Target, G::Target>(y, x) == Some(
                core::cmp::Ordering::Greater,
            ),
        on_targets(a.referent(), b.referent(), <G::Target>::partial_cmp, forward),
        on_targets(b.referent(), a.referent(), <G::Target>::partial_cmp, backward),
    ensures
        forward == specified_order::<G::Target, G::Target>(target_of(&a.referent()), target_of(&b.referent())),
        backward == specified_order::<G::Target, G::Target>(target_of(&b.referent()), target_of(&a.referent())),
        forward == Some(core::cmp::Ordering::Less) <==> backward == Some(core::cmp::Ordering::Greater),
{
    let (x1, y1) = choose|x: &G::Target, y: &G::Target|
        call_ensures(G::deref, (&a.referent(),), x) && call_ensures(G::deref, (&b.referent(),), y)
            && call_ensures(<G::Target>::partial_cmp, (x, y), forward);
    let (x2, y2) = choose|x: &G::Target, y: &G::Target|
        call_ensures(G::deref, (&b.referent(),), x) && call_ensures(G::deref, (&a.referent(),), y)
            && call_ensures(<G::Target>::partial_cmp, (x, y), backward);
    assert(x1 == y2 && x1 == target_of(&a.referent()));
    assert(y1 == x2 && y1 == target_of(&b.referent()));
    assert(specified_order::<G::Target, G::Target>(x1, y1) == Some(core::cmp::Ordering::Less)
        <==> specified_order::<G::Target, G::Target>(y1, x1) == Some(core::cmp::Ordering::Greater));
}

/// The total order of bounds is that of their targets: where the targets order
/// lawfully, each side dereferences to one target, and the targets' order is
/// reflexive and antisymmetric, `a.cmp(&b)` is what it specifies for what `a` and
/// `b` dereference to, `b.cmp(&a)` is its reverse, and two bounds whose targets
/// are equal compare `Equal`.
pub proof fn lemma_total_order_follows_targets<G, L>(
    a: Bound<G, L>,
    b: Bound<G, L>,
    forward: core::cmp::Ordering,
    backward: core::cmp::Ordering,
) where G: core::ops::Deref, G::Target: Ord
    requires
        total_order_is_lawful::<G::Target>(),
        derefs_uniquely::<G>(),
        forall|x: &G::Target| #[trigger] specified_total_order::<G::Target>(x, x) == core::cmp::Ordering::Equal,
        forall|x: &G::Target, y: &G::Target|
            #[trigger] specified_total_order::<G::Target>(x, y) == reversed(
                specified_total_order::<G::Target>(y, x),
            ),
        on_targets(a.referent(), b.referent(), <G::Target>::cmp, forward),
        on_targets(b.referent(), a.referent(), <G::Target>::cmp, backward),
    ensures
        forward == specified_total_order::<G::Target>(target_of(&a.referent()), target_of(&b.referent())),
        backward == reversed(forward),
        target_of(&a.referent()) == target_of(&b.referent()) ==> forward == core::cmp::Ordering::Equal,
{
    let (x1, y1) = choose|x: &G::Target, y: &G::Target|
        call_ensures(G::deref, (&a.referent(),), x) && call_ensures(G::deref, (&b.referent(),), y)
            && call_ensures(<G::Target>::cmp, (x, y), forward);
    let (x2, y2) = choose|x: &G::Target, y: &G::Target|
        call_ensures(G::deref, (&b.referent(),), x) && call_ensures(G::deref, (&a.referent(),), y)
            && call_ensures(<G::Target>::cmp, (x, y), backward);
    assert(x1 == y2 && x1 == target_of(&a.referent()));
    assert(y1 == x2 && y1 == target_of(&b.referent()));
    assert(specified_total_order::<G::Target>(y1, x1) == reversed(
        specified_total_order::<G::Target>(x1, y1),
    ));
    assert(specified_total_order::<G::Target>(x1, x1) == core::cmp::Ordering::Equal);
}

/// Declares std's `fmt::Formatter` so the `Debug` impl below can name it; opaque.
#[verifier::external_type_specification]
#[verifier::external_body]
pub struct ExFormatter<'a>(core::fmt::Formatter<'a>);

/// Declares std's `fmt::Error` so the `Debug` impl below can name it; opaque.
#[verifier::external_type_specification]
#[verifier::external_body]
pub struct ExFmtError(core::fmt::Error);

impl<G: core::fmt::Debug, L> core::fmt::Debug for Bound<G, L> {
    /// Writes `Bound(..)` around the referent's own `Debug` output.
    /// Trusted: nothing is claimed of what it writes.
    #[verifier::external_body]
    fn fmt(&self, f: &mut core::fmt::Formatter<'_>) -> core::fmt::Result {
        f.debug_tuple("Bound").field(&self.derived).finish()
    }
}

} // verus!
