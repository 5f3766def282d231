//! Colored status messages for the serial test harness: ANSI green and
//! red wrappers around a static message.  The serial port itself is a
//! hardware collaborator; only the rendered text is modeled here.

use vstd::prelude::*;

use vstd::string::StringExecFns;

verus! {

/// A message rendered in ANSI green.
pub struct Green(pub &'static str);

/// A message rendered in ANSI red.
pub struct Red(pub &'static str);

impl Green {
    /// The message between the ANSI green prefix and the reset suffix.
    pub fn render(&self) -> (r: String)
        ensures
            r@ == "\x1B[32m"@ + self.0@ + "\x1B[0m"@,
    {
        let mut s = String::from_str("\x1B[32m");
        s.append(self.0);
        s.append("\x1B[0m");
        s
    }
}

impl Red {
    /// The message between the ANSI red prefix and the reset suffix.
    pub fn render(&self) -> (r: String)
        ensures
            r@ == "\x1B[31m"@ + self.0@ + "\x1B[0m"@,
    {
        let mut s = String::from_str("\x1B[31m");
        s.append(self.0);
        s.append("\x1B[0m");
        s
    }
}

} // verus!
