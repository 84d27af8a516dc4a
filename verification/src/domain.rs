//! Subscriber-facing domain values and their validation rules.

use vstd::prelude::*;
use vstd::string::StrSliceExecFns;

verus! {

/// The validity rule for subscriber email addresses: some `@` stands strictly
/// inside the string, so both the local part and the domain are non-empty.
pub open spec fn email_valid(s: Seq<char>) -> bool {
    exists|i: int| 0 < i < s.len() - 1 && s[i] == '@'
}

/// A validated subscriber email address.
pub struct SubscriberEmail {
    email: String,
}

impl View for SubscriberEmail {
    type V = Seq<char>;

    closed spec fn view(&self) -> Seq<char> {
        self.email@
    }
}

impl SubscriberEmail {
    /// Validates an address; the rejected input is handed back as the error.
    pub fn parse(s: String) -> (r: Result<SubscriberEmail, String>)
        ensures
            email_valid(s@) ==> (r matches Ok(e) && e@ == s@),
            !email_valid(s@) ==> (r matches Err(m) && m@ == s@),
    {
        let n = s.as_str().unicode_len();
        if n < 3 {
            return Err(s);
        }
        let mut i: usize = 1;
        while i < n - 1
            invariant
                1 <= i <= n - 1,
                n == s@.len(),
                forall|j: int| 1 <= j < i ==> s@[j] != '@',
            decreases n - i,
        {
            if s.as_str().get_char(i) == '@' {
                return Ok(SubscriberEmail { email: s });
            }
            i = i + 1;
        }
        Err(s)
    }

    pub fn as_str(&self) -> (r: &str)
        ensures
            r@ == self@,
    {
        self.email.as_str()
    }
}

/// A character that may not appear in a subscriber name.
pub open spec fn name_forbidden_char(c: char) -> bool {
    c == '/' || c == '(' || c == ')' || c == '"' || c == '<' || c == '>' || c == '\\' || c == '{'
        || c == '}'
}

/// The validity rule for subscriber names: non-empty, at most 256
/// characters, and free of the forbidden characters.
pub open spec fn name_valid(s: Seq<char>) -> bool {
    1 <= s.len() <= 256 && forall|i: int| 0 <= i < s.len() ==> !name_forbidden_char(s[i])
}

/// A validated subscriber name.
pub struct SubscriberName {
    name: String,
}

impl View for SubscriberName {
    type V = Seq<char>;

    closed spec fn view(&self) -> Seq<char> {
        self.name@
    }
}

impl SubscriberName {
    /// Validates a name; the rejected input is handed back as the error.
    pub fn parse(s: String) -> (r: Result<SubscriberName, String>)
        ensures
            name_valid(s@) ==> (r matches Ok(n) && n@ == s@),
            !name_valid(s@) ==> (r matches Err(m) && m@ == s@),
    {
        let n = s.as_str().unicode_len();
        if n == 0 || n > 256 {
            return Err(s);
        }
        let mut i: usize = 0;
        while i < n
            invariant
                i <= n,
                n == s@.len(),
                forall|j: int| 0 <= j < i ==> !name_forbidden_char(s@[j]),
            decreases n - i,
        {
            let c = s.as_str().get_char(i);
            if c == '/' || c == '(' || c == ')' || c == '"' || c == '<' || c == '>' || c == '\\'
                || c == '{' || c == '}' {
                return Err(s);
            }
            i = i + 1;
        }
        Ok(SubscriberName { name: s })
    }

    pub fn as_str(&self) -> (r: &str)
        ensures
            r@ == self@,
    {
        self.name.as_str()
    }
}

/// Checks the email rule without keeping the value: the worker's defence
/// against stale or corrupt stored addresses.
pub fn email_is_valid(s: &str) -> (r: bool)
    ensures
        r == email_valid(s@),
{
    let n = s.unicode_len();
    if n < 3 {
        return false;
    }
    let mut i: usize = 1;
    while i < n - 1
        invariant
            1 <= i <= n - 1,
            n == s@.len(),
            forall|j: int| 1 <= j < i ==> s@[j] != '@',
        decreases n - i,
    {
        if s.get_char(i) == '@' {
            return true;
        }
        i = i + 1;
    }
    false
}

} // verus!
