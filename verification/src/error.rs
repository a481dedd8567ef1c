use vstd::prelude::*;
use vstd::std_specs::convert::{FromSpecImpl, IntoSpec};

verus! {

/// An error context consisting of a boxed value, so that errors stay small. The box is
/// only paid for when an error actually occurs.
#[derive(Debug)]
pub struct ErrorContext<T>(pub Box<T>);

impl<T> ErrorContext<T> {
    pub fn new(inner: T) -> (c: Self)
        ensures
            *c.0 == inner,
    {
        Self(Box::new(inner))
    }
}

/// A boxed string as error context.
pub type StringContext = ErrorContext<String>;

impl From<String> for StringContext {
    fn from(value: String) -> (r: Self) {
        ErrorContext::new(value)
    }
}

impl FromSpecImpl<String> for StringContext {
    open spec fn obeys_from_spec() -> bool {
        true
    }

    open spec fn from_spec(v: String) -> Self {
        ErrorContext(Box::new(v))
    }
}

impl<'a> From<&'a str> for StringContext {
    fn from(value: &'a str) -> (r: Self)
        ensures
            (*r.0)@ == value@,
    {
        ErrorContext::new(String::from_str(value))
    }
}

/// A copy of a text has no spec form here: what `from` gives is stated on its impl above.
impl<'a> FromSpecImpl<&'a str> for StringContext {
    open spec fn obeys_from_spec() -> bool {
        false
    }

    open spec fn from_spec(v: &'a str) -> Self {
        vstd::pervasive::arbitrary()
    }
}

/// A boxed message together with the error that caused it.
#[derive(Debug)]
pub struct ContextSource<E>(pub Box<(String, E)>);

impl<E> ContextSource<E> {
    pub fn new<S: Into<String>>(message: S, source: E) -> (c: Self)
        ensures
            (*c.0).1 == source,
            S::obeys_into_spec() ==> (*c.0).0 == message.into_spec(),
    {
        Self(Box::new((message.into(), source)))
    }
}

/// Wraps an error with a message.
pub trait ErrorWithContext: Sized {
    fn with_context<S: Into<String>>(self, context: S) -> (c: ContextSource<Self>)
        ensures
            (*c.0).1 == self,
            S::obeys_into_spec() ==> (*c.0).0 == context.into_spec(),
    {
        ContextSource::new(context, self)
    }
}

impl<T> ErrorWithContext for T {

}

/// Wraps the error of a result with a message.
pub trait WrapErrorWithContext<T, E> {
    fn map_err_with_context<S: Into<String>>(self, message: S) -> Result<T, ContextSource<E>>;
}

impl<T, E> WrapErrorWithContext<T, E> for Result<T, E> {
    fn map_err_with_context<S: Into<String>>(self, message: S) -> (r: Result<T, ContextSource<E>>)
        ensures
            self matches Ok(v) ==> r == Ok::<T, ContextSource<E>>(v),
            self matches Err(e) ==> (r matches Err(c) && (*c.0).1 == e && (S::obeys_into_spec()
                ==> (*c.0).0 == message.into_spec())),
    {
        match self {
            Ok(v) => Ok(v),
            Err(e) => Err(ContextSource::new(message, e)),
        }
    }
}

/// A string context holding `s`.
pub fn string_context(s: String) -> (c: StringContext)
    ensures
        (*c.0)@ == s@,
{
    ErrorContext::new(s)
}

/// A string context holding a copy of `s`.
pub fn str_context(s: &str) -> (c: StringContext)
    ensures
        (*c.0)@ == s@,
{
    ErrorContext::new(String::from_str(s))
}

} // verus!
