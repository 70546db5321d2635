//! The unknown-field policy and how it is named.
use crate::error::ProjzstError;
use crate::string_utils::IntoOpStr;
use vstd::prelude::*;
use vstd::string::StrSliceExecFns;

verus! {

/// How decoding treats keys of the encoded record that the schema does not
/// declare.
#[derive(Clone, Copy, Debug, PartialEq, Eq, Structural)]
pub enum IgnoreUnknown {
    /// Drop them silently.
    On,
    /// Fail, listing them.
    Off,
    /// Keep them under `extra.ignored`.
    Export,
}

impl Default for IgnoreUnknown {
    fn default() -> (r: Self)
        ensures
            r == IgnoreUnknown::On,
    {
        IgnoreUnknown::On
    }
}

/// What lowercasing a text gives.
pub uninterp spec fn lower_of(s: Seq<char>) -> Seq<char>;

/// Relies on str::to_lowercase: the lowercase form of the text.
#[verifier::external_body]
fn lowercase(s: &str) -> (r: String)
    ensures
        r@ == lower_of(s@),
{
    s.to_lowercase()
}

/// The policy that a lowercase token names.
pub open spec fn policy_named(t: Seq<char>) -> Option<IgnoreUnknown> {
    if t == "on"@ || t == "true"@ || t == "yes"@ || t == "1"@ {
        Some(IgnoreUnknown::On)
    } else if t == "off"@ || t == "false"@ || t == "no"@ || t == "0"@ {
        Some(IgnoreUnknown::Off)
    } else if t == "export"@ || t == "extra"@ {
        Some(IgnoreUnknown::Export)
    } else {
        None
    }
}

/// Reading a lowercase token: its policy, or the error for an unknown token.
pub open spec fn policy_result(t: Seq<char>) -> Result<IgnoreUnknown, ProjzstError> {
    match policy_named(t) {
        Some(p) => Ok(p),
        None => Err(ProjzstError::InvalidIgnoreUnknownParam),
    }
}

/// The text of an optional token, empty when absent.
pub open spec fn text_or_empty(o: Option<Seq<char>>) -> Seq<char> {
    match o {
        Some(t) => t,
        None => Seq::empty(),
    }
}

/// Whether two texts are the same.
pub fn text_eq(a: &str, b: &str) -> (r: bool)
    ensures
        r == (a@ == b@),
{
    let n = a.unicode_len();
    if n != b.unicode_len() {
        return false;
    }
    let mut i: usize = 0;
    while i < n
        invariant
            n == a@.len() == b@.len(),
            i <= n,
            forall|j: int| 0 <= j < i ==> a@[j] == b@[j],
        decreases n - i,
    {
        if a.get_char(i) != b.get_char(i) {
            return false;
        }
        i = i + 1;
    }
    assert(a@ =~= b@);
    true
}

impl IgnoreUnknown {
    /// Reads a policy from a lowercase token: `on`, `true`, `yes`, `1`;
    /// `off`, `false`, `no`, `0`; `export`, `extra`.
    pub fn from_lowercase(t: &str) -> (r: Result<Self, ProjzstError>)
        ensures
            r == policy_result(t@),
    {
        if text_eq(t, "on") || text_eq(t, "true") || text_eq(t, "yes") || text_eq(t, "1") {
            Ok(IgnoreUnknown::On)
        } else if text_eq(t, "off") || text_eq(t, "false") || text_eq(t, "no") || text_eq(t, "0") {
            Ok(IgnoreUnknown::Off)
        } else if text_eq(t, "export") || text_eq(t, "extra") {
            Ok(IgnoreUnknown::Export)
        } else {
            Err(ProjzstError::InvalidIgnoreUnknownParam)
        }
    }

    /// Reads a policy from a token in any case; an absent token is empty and
    /// names no policy.
    pub fn from_str<I: IntoOpStr>(s: I) -> (r: Result<Self, ProjzstError>)
        ensures
            r == policy_result(lower_of(text_or_empty(s.op_str_view()))),
    {
        let token = match s.into_op_str() {
            Some(t) => t,
            None => String::new(),
        };
        let lower = lowercase(token.as_str());
        Self::from_lowercase(lower.as_str())
    }
}

} // verus!
