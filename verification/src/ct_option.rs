//! `CtOption`: the constant-time analogue of `Option`.
use crate::choice::Choice;
use crate::traits::{CtAssign, CtEq, CtSelect};
use vstd::prelude::*;

verus! {

/// Equivalent of [`Option`] but predicated on a [`Choice`] with combinators that always perform
/// the same sequence of instructions regardless of the value of `is_some`.
///
/// Unlike [`Option`], [`CtOption`] always contains a value, and combinators use the contained
/// value unconditionally.
#[derive(Clone, Copy, Debug)]
pub struct CtOption<T> {
    value: T,
    is_some: Choice,
}

impl<T> CtOption<T> {
    /// The contained value, present whether or not the option is "some".
    pub closed spec fn spec_value(self) -> T {
        self.value
    }

    /// Whether the option is the equivalent of a `Some`.
    pub closed spec fn spec_is_some(self) -> bool {
        self.is_some@
    }

    /// The `Option` this value stands for.
    pub open spec fn spec_option(self) -> Option<T> {
        if self.spec_is_some() {
            Some(self.spec_value())
        } else {
            None
        }
    }

    /// Construct a new [`CtOption`], with a [`Choice`] parameter `is_some` as a stand-in for
    /// `Some` or `None` enum variants of a typical [`Option`] type.
    pub fn new(value: T, is_some: Choice) -> (r: CtOption<T>)
        ensures
            r.spec_value() == value,
            r.spec_is_some() == is_some@,
    {
        Self { value, is_some }
    }

    /// Construct a new [`CtOption`] where `self.is_some()` is truthy.
    pub fn some(value: T) -> (r: CtOption<T>)
        ensures
            r.spec_value() == value,
            r.spec_is_some(),
    {
        Self::new(value, Choice::new(1))
    }

    /// Construct a new [`CtOption`] with the [`Default`] value, and where `self.is_some()` is
    /// falsy.
    pub fn none() -> (r: CtOption<T>) where T: Default
        ensures
            !r.spec_is_some(),
            call_ensures(T::default, (), r.spec_value()),
    {
        Self::new(T::default(), Choice::new(0))
    }

    /// Convert from a `&CtOption<T>` to `CtOption<&T>`.
    pub fn as_ref(&self) -> (r: CtOption<&T>)
        ensures
            *r.spec_value() == self.spec_value(),
            r.spec_is_some() == self.spec_is_some(),
    {
        CtOption { value: &self.value, is_some: self.is_some }
    }

    /// Convert from a `&mut CtOption<T>` to `CtOption<&mut T>`.
    pub fn as_mut(&mut self) -> (r: CtOption<&mut T>)
        ensures
            *r.spec_value() == old(self).spec_value(),
            r.spec_is_some() == old(self).spec_is_some(),
            final(self).spec_is_some() == old(self).spec_is_some(),
            final(self).spec_value() == *final(r.spec_value()),
    {
        CtOption { value: &mut self.value, is_some: self.is_some }
    }

    /// Convert from `&CtOption<T>` to `CtOption<&T::Target>`, for types which impl the
    /// [`Deref`](core::ops::Deref) trait.
    pub fn as_deref(&self) -> (r: CtOption<&T::Target>) where T: core::ops::Deref
        ensures
            r.spec_is_some() == self.spec_is_some(),
    {
        CtOption { value: self.value.deref(), is_some: self.is_some }
    }

    /// Return the contained value, consuming the `self` value.
    ///
    /// The option must be the equivalent of a `Some`.
    pub fn expect(self, msg: &str) -> (r: T)
        requires
            self.spec_is_some(),
        ensures
            r == self.spec_value(),
    {
        self.value
    }

    /// Return the contained value of a `Copy` type; the option must be the equivalent of a
    /// `Some`.
    pub fn expect_copied(self, msg: &str) -> (r: T) where T: Copy
        requires
            self.spec_is_some(),
        ensures
            r == self.spec_value(),
    {
        *self.expect_ref(msg)
    }

    /// Borrow the contained value; the option must be the equivalent of a `Some`.
    pub fn expect_ref(&self, msg: &str) -> (r: &T)
        requires
            self.spec_is_some(),
        ensures
            *r == self.spec_value(),
    {
        self.as_inner_unchecked()
    }

    /// Inserts `value` into the [`CtOption`], then returns a mutable reference to it.
    pub fn insert(&mut self, value: T) -> (r: &mut T)
        ensures
            *r == value,
            final(self).spec_is_some(),
            final(self).spec_value() == *final(r),
    {
        self.value = value;
        self.is_some = Choice::new(1);
        &mut self.value
    }

    /// Conditionally inserts `value` into the [`CtOption`] if the given condition holds.
    pub fn insert_if(&mut self, value: &T, condition: Choice) where T: CtAssign
        ensures
            final(self).spec_value() == (if condition@ { *value } else { old(self).spec_value() }),
            final(self).spec_is_some() == (condition@ || old(self).spec_is_some()),
    {
        self.value.ct_assign(value, condition);
        self.is_some.ct_assign(&Choice::new(1), condition);
    }

    /// Convert the [`CtOption`] wrapper into an [`Option`].
    pub fn into_option(self) -> (r: Option<T>)
        ensures
            r == self.spec_option(),
    {
        if self.is_some.to_bool() {
            Some(self.value)
        } else {
            None
        }
    }

    /// Convert the [`CtOption`] wrapper into an [`Option`] for `Copy` types.
    pub fn into_option_copied(self) -> (r: Option<T>) where T: Copy
        ensures
            r == self.spec_option(),
    {
        if self.is_some.to_bool_vartime() {
            Some(self.value)
        } else {
            None
        }
    }

    /// Returns the truthy choice if the option is the equivalent of a `Some`.
    pub fn is_some(&self) -> (r: Choice)
        ensures
            r@ == self.spec_is_some(),
    {
        self.is_some
    }

    /// Returns the truthy choice if the option is the equivalent of a `None`.
    pub fn is_none(&self) -> (r: Choice)
        ensures
            r@ == !self.spec_is_some(),
    {
        self.is_some.not()
    }

    /// Returns `optb` if `self.is_some()` is truthy, otherwise an option whose `is_some()` is
    /// falsy (still holding `optb`'s value).
    pub fn and<U>(self, optb: CtOption<U>) -> (r: CtOption<U>)
        ensures
            r.spec_value() == optb.spec_value(),
            r.spec_is_some() == (self.spec_is_some() && optb.spec_is_some()),
    {
        let mut optb = optb;
        optb.is_some = optb.is_some.and(self.is_some);
        optb
    }

    /// Calls the provided callback with the wrapped inner value (unconditionally), and returns
    /// its result with `is_some` additionally requiring `self.is_some()`.
    pub fn and_then<U, F>(self, f: F) -> (r: CtOption<U>) where F: FnOnce(T) -> CtOption<U>
        requires
            f.requires((self.spec_value(),)),
        ensures
            exists|ret: CtOption<U>|
                {
                    &&& #[trigger] f.ensures((self.spec_value(),), ret)
                    &&& r.spec_value() == ret.spec_value()
                    &&& r.spec_is_some() == (ret.spec_is_some() && self.spec_is_some())
                },
    {
        let mut ret = f(self.value);
        let ghost called = ret;
        ret.is_some = ret.is_some.and(self.is_some);
        ret
    }

    /// Obtain a reference to the inner value without first checking `self.is_some()`.
    pub fn as_inner_unchecked(&self) -> (r: &T)
        ensures
            *r == self.spec_value(),
    {
        &self.value
    }

    /// Calls the provided predicate with the wrapped inner value, and makes the option
    /// "none" if the predicate returns the falsy choice.
    pub fn filter<P>(self, predicate: P) -> (r: Self) where P: FnOnce(&T) -> Choice
        requires
            predicate.requires((&self.spec_value(),)),
        ensures
            r.spec_value() == self.spec_value(),
            exists|c: Choice|
                {
                    &&& #[trigger] predicate.ensures((&self.spec_value(),), c)
                    &&& r.spec_is_some() == (self.spec_is_some() && c@)
                },
    {
        let mut s = self;
        let c = predicate(&s.value);
        s.is_some = s.is_some.and(c);
        s
    }

    /// Apply an additional [`Choice`] requirement to `is_some`.
    pub fn filter_by(self, is_some: Choice) -> (r: Self)
        ensures
            r.spec_value() == self.spec_value(),
            r.spec_is_some() == (self.spec_is_some() && is_some@),
    {
        let mut s = self;
        s.is_some = s.is_some.and(is_some);
        s
    }

    /// Maps a `CtOption<T>` to a `CtOption<U>` by unconditionally applying a function to the
    /// contained value, keeping `self.is_some()`.
    pub fn map<U, F>(self, f: F) -> (r: CtOption<U>) where F: FnOnce(T) -> U
        requires
            f.requires((self.spec_value(),)),
        ensures
            f.ensures((self.spec_value(),), r.spec_value()),
            r.spec_is_some() == self.spec_is_some(),
    {
        CtOption::new(f(self.value), self.is_some)
    }

    /// Maps a `CtOption<T>` to a `U` value, eagerly evaluating the provided function, and
    /// returning the supplied `default` when `self.is_some()` is falsy.
    pub fn map_or<U, F>(self, default: U, f: F) -> (r: U) where U: CtSelect, F: FnOnce(T) -> U
        requires
            f.requires((self.spec_value(),)),
        ensures
            self.spec_is_some() ==> f.ensures((self.spec_value(),), r),
            !self.spec_is_some() ==> r == default,
    {
        self.map(f).unwrap_or(default)
    }

    /// Like [`CtOption::map_or`], with `U::default()` as the default.
    pub fn map_or_default<U, F>(self, f: F) -> (r: U) where U: CtSelect + Default, F: FnOnce(
        T,
    ) -> U
        requires
            f.requires((self.spec_value(),)),
        ensures
            self.spec_is_some() ==> f.ensures((self.spec_value(),), r),
            !self.spec_is_some() ==> call_ensures(U::default, (), r),
    {
        self.map_or(U::default(), f)
    }

    /// Transforms a `CtOption<T>` into a `Result<T, E>`: `Ok(value)` when "some", `Err(err)`
    /// otherwise.
    pub fn ok_or<E>(self, err: E) -> (r: Result<T, E>)
        ensures
            r == (if self.spec_is_some() {
                Ok::<T, E>(self.spec_value())
            } else {
                Err::<T, E>(err)
            }),
    {
        match self.into_option() {
            Some(v) => Ok(v),
            None => Err(err),
        }
    }

    /// Transforms a `CtOption<T>` into a `Result<T, E>`, calling `err` unconditionally.
    pub fn ok_or_else<E, F>(self, err: F) -> (r: Result<T, E>) where F: FnOnce() -> E
        requires
            err.requires(()),
        ensures
            self.spec_is_some() ==> r == Ok::<T, E>(self.spec_value()),
            !self.spec_is_some() ==> (exists|e: E|
                #[trigger] err.ensures((), e) && r == Err::<T, E>(e)),
    {
        let e = err();
        self.ok_or(e)
    }

    /// Returns `self` if `self.is_some()` is truthy, otherwise returns `optb`.
    pub fn or(self, optb: CtOption<T>) -> (r: CtOption<T>) where T: CtSelect
        ensures
            r.spec_value() == (if self.spec_is_some() {
                self.spec_value()
            } else {
                optb.spec_value()
            }),
            r.spec_is_some() == (self.spec_is_some() || optb.spec_is_some()),
    {
        CtOption {
            value: self.value.ct_select(&optb.value, self.is_none()),
            is_some: self.is_some.or(optb.is_some),
        }
    }

    /// Obtain a copy of the inner value without first checking `self.is_some()`.
    pub fn to_inner_unchecked(self) -> (r: T) where T: Copy
        ensures
            r == self.spec_value(),
    {
        self.value
    }

    /// Return the contained value; the option must be the equivalent of a `Some`.
    pub fn unwrap(self) -> (r: T)
        requires
            self.spec_is_some(),
        ensures
            r == self.spec_value(),
    {
        self.value
    }

    /// Return the contained value when `self.is_some()` is truthy, or the given default.
    pub fn unwrap_or(self, default: T) -> (r: T) where T: CtSelect
        ensures
            r == (if self.spec_is_some() { self.spec_value() } else { default }),
    {
        default.ct_select(&self.value, self.is_some)
    }

    /// Return the contained value when `self.is_some()` is truthy, or `T::default()`.
    pub fn unwrap_or_default(self) -> (r: T) where T: CtSelect + Default
        ensures
            self.spec_is_some() ==> r == self.spec_value(),
            !self.spec_is_some() ==> call_ensures(T::default, (), r),
    {
        self.unwrap_or(T::default())
    }

    /// Returns a "some" option with the value of whichever of `self` and `optb` is "some" when
    /// exactly one of them is, and a "none" option otherwise.
    pub fn xor(self, optb: CtOption<T>) -> (r: CtOption<T>) where T: CtSelect
        ensures
            r.spec_value() == (if self.spec_is_some() {
                self.spec_value()
            } else {
                optb.spec_value()
            }),
            r.spec_is_some() == (self.spec_is_some() != optb.spec_is_some()),
    {
        CtOption {
            value: self.value.ct_select(&optb.value, self.is_none()),
            is_some: self.is_some.xor(optb.is_some),
        }
    }

    /// Zips `self` with another [`CtOption`]: "some" exactly when both are.
    pub fn zip<U>(self, other: CtOption<U>) -> (r: CtOption<(T, U)>)
        ensures
            r.spec_value() == (self.spec_value(), other.spec_value()),
            r.spec_is_some() == (self.spec_is_some() && other.spec_is_some()),
    {
        CtOption { value: (self.value, other.value), is_some: self.is_some.and(other.is_some) }
    }

    /// Zips `self` and another `CtOption` with function `f`.
    pub fn zip_with<U, F, R>(self, other: CtOption<U>, f: F) -> (r: CtOption<R>) where
        F: FnOnce(T, U) -> R,

        requires
            f.requires((self.spec_value(), other.spec_value())),
        ensures
            f.ensures((self.spec_value(), other.spec_value()), r.spec_value()),
            r.spec_is_some() == (self.spec_is_some() && other.spec_is_some()),
    {
        let z = self.zip(other);
        let (a, b) = z.value;
        CtOption::new(f(a, b), z.is_some)
    }
}

impl<'a, T> CtOption<&'a T> {
    /// Maps a `CtOption<&T>` to `CtOption<T>` by copying the contents of the option.
    pub fn copied(self) -> (r: CtOption<T>) where T: Copy
        ensures
            r.spec_value() == *self.spec_value(),
            r.spec_is_some() == self.spec_is_some(),
    {
        CtOption { value: *self.value, is_some: self.is_some }
    }

    /// Maps a `CtOption<&T>` to `CtOption<T>` by cloning the contents of the option.
    pub fn cloned(self) -> (r: CtOption<T>) where T: Clone
        ensures
            cloned::<T>(*self.spec_value(), r.spec_value()),
            r.spec_is_some() == self.spec_is_some(),
    {
        CtOption { value: self.value.clone(), is_some: self.is_some }
    }
}

impl<T: CtAssign> CtAssign for CtOption<T> {
    fn ct_assign(&mut self, other: &Self, choice: Choice) {
        self.value.ct_assign(&other.value, choice);
        self.is_some.ct_assign(&other.is_some, choice);
    }
}

impl<T: CtEq> CtEq for CtOption<T> {
    /// Two options are equal when both are "none", or both are "some" with equal values.
    open spec fn ct_eq_spec(&self, other: &CtOption<T>) -> bool {
        (self.spec_is_some() && other.spec_is_some() && self.spec_value().ct_eq_spec(
            &other.spec_value(),
        )) || (!self.spec_is_some() && !other.spec_is_some())
    }

    fn ct_eq(&self, other: &CtOption<T>) -> (r: Choice) {
        self.is_some.and(other.is_some).and(self.value.ct_eq(&other.value)).or(
            self.is_none().and(other.is_none()),
        )
    }
}

impl<T: CtSelect> CtSelect for CtOption<T> {
    fn ct_select(&self, other: &Self, choice: Choice) -> (r: Self) {
        Self {
            value: self.value.ct_select(&other.value, choice),
            is_some: self.is_some.ct_select(&other.is_some, choice),
        }
    }
}

impl<T: Default> Default for CtOption<T> {
    fn default() -> (r: Self)
        ensures
            !r.spec_is_some(),
    {
        Self::none()
    }
}


/// `ct_eq` on options of `u64` is truthy exactly when both are "none", or both are "some"
/// holding the same number.
pub proof fn lemma_ct_eq_options(a: CtOption<u64>, b: CtOption<u64>, r: Choice)
    requires
        call_ensures(<CtOption<u64> as CtEq>::ct_eq, (&a, &b), r),
    ensures
        r@ <==> (a.spec_is_some() && b.spec_is_some() && a.spec_value() == b.spec_value()) || (
        !a.spec_is_some() && !b.spec_is_some()),
{
}

} // verus!
