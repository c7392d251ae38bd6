//! The commands whose answer is a fixed text.
use vstd::prelude::*;
use vstd::string::*;

verus! {

/// Answer of the greeting command.
pub const HELLO_TEXT: &'static str = ", CCSF CS Club!";

/// Answer of the command that starts a test event.
pub const PARTYTIME_TEXT: &'static str = "/create title:dev_event datetime:in 5 seconds description:test dev event duration:1 hour channel:#bot-spam";

/// Answer of the diagnostic command.
pub const BIBOT_TEXT: &'static str = "Foo";

/// Responds with a greeting.
pub fn hello() -> (r: String)
    ensures
        r@ == HELLO_TEXT@,
{
    String::from_str(HELLO_TEXT)
}

/// The command line that creates a test event lasting one hour.
pub fn partytime() -> (r: String)
    ensures
        r@ == PARTYTIME_TEXT@,
{
    String::from_str(PARTYTIME_TEXT)
}

/// Diagnostic answer.
pub fn bibot() -> (r: String)
    ensures
        r@ == BIBOT_TEXT@,
{
    String::from_str(BIBOT_TEXT)
}

} // verus!
