//! Optional-string conversions for string-like inputs.
use vstd::prelude::*;

verus! {

/// The text of an optional string.
pub open spec fn opt_view(o: Option<String>) -> Option<Seq<char>> {
    match o {
        Some(s) => Some(s@),
        None => None,
    }
}

/// A value that converts into an optional string: a `&str` or a `String`
/// gives its text, an `Option<String>` gives itself.
pub trait IntoOpStr: Sized {
    /// The optional text that the conversion gives.
    spec fn op_str_view(&self) -> Option<Seq<char>>;

    /// Converts the value into an optional string.
    fn into_op_str(self) -> (r: Option<String>)
        ensures
            opt_view(r) == self.op_str_view(),
    ;
}

impl IntoOpStr for &str {
    open spec fn op_str_view(&self) -> Option<Seq<char>> {
        Some((*self)@)
    }

    fn into_op_str(self) -> (r: Option<String>) {
        Some(self.to_owned())
    }
}

impl IntoOpStr for String {
    open spec fn op_str_view(&self) -> Option<Seq<char>> {
        Some(self@)
    }

    fn into_op_str(self) -> (r: Option<String>) {
        Some(self)
    }
}

impl IntoOpStr for Option<String> {
    open spec fn op_str_view(&self) -> Option<Seq<char>> {
        opt_view(*self)
    }

    fn into_op_str(self) -> (r: Option<String>) {
        self
    }
}

/// Converts any [`IntoOpStr`] value into an optional string.
pub fn _convert<T: IntoOpStr>(value: T) -> (r: Option<String>)
    ensures
        opt_view(r) == value.op_str_view(),
{
    value.into_op_str()
}

} // verus!
