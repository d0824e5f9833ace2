//! A validated newtype for email addresses: a string is accepted exactly
//! when it contains both an `@` and a `.`, and every value of the type
//! satisfies that check.

use vstd::prelude::*;
use vstd::string::StrSliceExecFns;

verus! {

/// When a character sequence counts as a valid email address.
pub open spec fn is_valid_email(s: Seq<char>) -> bool {
    s.contains('@') && s.contains('.')
}

/// Whether the string contains the character.
fn contains_char(s: &str, c: char) -> (r: bool)
    ensures
        r == s@.contains(c),
{
    let n: usize = s.unicode_len();
    let mut i: usize = 0;
    while i < n
        invariant
            i <= n,
            n == s@.len(),
            forall|j: int| 0 <= j < i ==> s@[j] != c,
        decreases n - i,
    {
        if s.get_char(i) == c {
            assert(s@[i as int] == c);
            return true;
        }
        i = i + 1;
    }
    false
}

/// A string that holds a validated email address.
#[derive(Debug, PartialEq)]
pub struct EmailString(String);

impl View for EmailString {
    type V = Seq<char>;

    closed spec fn view(&self) -> Seq<char> {
        self.0@
    }
}

impl EmailString {
    #[verifier::type_invariant]
    spec fn wf(&self) -> bool {
        is_valid_email(self@)
    }

    /// Validate and wrap an address: accepted exactly when it contains
    /// both an `@` and a `.`, rejected otherwise with a message.
    pub fn try_from(value: &str) -> (r: Result<EmailString, &'static str>)
        ensures
            r is Ok <==> is_valid_email(value@),
            r matches Ok(e) ==> e@ == value@,
            r matches Err(m) ==> m@ == "Invalid email format"@,
    {
        if contains_char(value, '@') && contains_char(value, '.') {
            Ok(EmailString(value.to_owned()))
        } else {
            Err("Invalid email format")
        }
    }

    /// The validated address as a string slice. Every value of the type
    /// passed validation, so the slice contains both an `@` and a `.`.
    pub fn as_str(&self) -> (r: &str)
        ensures
            r@ == self@,
            is_valid_email(self@),
    {
        proof {
            use_type_invariant(self);
        }
        self.0.as_str()
    }
}

} // verus!
