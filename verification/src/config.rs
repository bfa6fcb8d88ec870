//! The runtime environment a deployment names.

use vstd::prelude::*;

verus! {

/// The runtime environment of a deployment.
#[derive(Clone, Copy, PartialEq, Eq, Structural)]
pub enum Environment {
    Local,
    Production,
}

/// The word `local` in any letter case.
pub open spec fn is_word_local(s: Seq<char>) -> bool {
    &&& s.len() == 5
    &&& (s[0] == 'l' || s[0] == 'L')
    &&& (s[1] == 'o' || s[1] == 'O')
    &&& (s[2] == 'c' || s[2] == 'C')
    &&& (s[3] == 'a' || s[3] == 'A')
    &&& (s[4] == 'l' || s[4] == 'L')
}

/// The word `production` in any letter case.
pub open spec fn is_word_production(s: Seq<char>) -> bool {
    &&& s.len() == 10
    &&& (s[0] == 'p' || s[0] == 'P')
    &&& (s[1] == 'r' || s[1] == 'R')
    &&& (s[2] == 'o' || s[2] == 'O')
    &&& (s[3] == 'd' || s[3] == 'D')
    &&& (s[4] == 'u' || s[4] == 'U')
    &&& (s[5] == 'c' || s[5] == 'C')
    &&& (s[6] == 't' || s[6] == 'T')
    &&& (s[7] == 'i' || s[7] == 'I')
    &&& (s[8] == 'o' || s[8] == 'O')
    &&& (s[9] == 'n' || s[9] == 'N')
}

impl Environment {
    /// The canonical name of this environment.
    pub fn as_str(&self) -> (r: &'static str)
        ensures
            *self is Local ==> r@ == "local"@,
            *self is Production ==> r@ == "production"@,
    {
        match self {
            Environment::Local => "local",
            Environment::Production => "production",
        }
    }

    /// Parse an environment name, ignoring letter case. Any other name
    /// is rejected with a message that repeats it.
    pub fn from_name(s: &str) -> (r: Result<Environment, String>)
        ensures
            is_word_local(s@) ==> (r matches Ok(e) && e is Local),
            is_word_production(s@) ==> (r matches Ok(e) && e is Production),
            !is_word_local(s@) && !is_word_production(s@) ==> (r matches Err(m) && m@ == s@
                + " is not a supported environment. Use either `local` or `production`."@),
    {
        let n = s.unicode_len();
        if n == 5 {
            let ok = (s.get_char(0) == 'l' || s.get_char(0) == 'L') && (s.get_char(1) == 'o'
                || s.get_char(1) == 'O') && (s.get_char(2) == 'c' || s.get_char(2) == 'C') && (
            s.get_char(3) == 'a' || s.get_char(3) == 'A') && (s.get_char(4) == 'l' || s.get_char(4)
                == 'L');
            if ok {
                return Ok(Environment::Local);
            }
        }
        if n == 10 {
            let ok = (s.get_char(0) == 'p' || s.get_char(0) == 'P') && (s.get_char(1) == 'r'
                || s.get_char(1) == 'R') && (s.get_char(2) == 'o' || s.get_char(2) == 'O') && (
            s.get_char(3) == 'd' || s.get_char(3) == 'D') && (s.get_char(4) == 'u' || s.get_char(4)
                == 'U') && (s.get_char(5) == 'c' || s.get_char(5) == 'C') && (s.get_char(6) == 't'
                || s.get_char(6) == 'T') && (s.get_char(7) == 'i' || s.get_char(7) == 'I') && (
            s.get_char(8) == 'o' || s.get_char(8) == 'O') && (s.get_char(9) == 'n' || s.get_char(9)
                == 'N');
            if ok {
                return Ok(Environment::Production);
            }
        }
        let mut m = s.to_owned();
        m.append(" is not a supported environment. Use either `local` or `production`.");
        Err(m)
    }
}

} // verus!
