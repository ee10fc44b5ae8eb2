//! The text shown when no command is given.

use vstd::prelude::*;
use vstd::string::StringExecFns;

verus! {

/// The usage block for a program with the given name, version and one-line
/// description. It has three lines, each ended by a line feed: the name and
/// the version with a space between them, the description with a full stop
/// behind it, and the invocation syntax.
pub open spec fn usage_of(name: Seq<char>, version: Seq<char>, description: Seq<char>) -> Seq<
    char,
> {
    name + " "@ + version + "\n"@ + description + ".\nUsage: "@ + name + " [command]\n"@
}

/// Builds the usage block.
pub fn usage(name: &str, version: &str, description: &str) -> (text: String)
    ensures
        text@ == usage_of(name@, version@, description@),
{
    let mut text = String::from_str(name);
    text.append(" ");
    text.append(version);
    text.append("\n");
    text.append(description);
    text.append(".\nUsage: ");
    text.append(name);
    text.append(" [command]\n");
    text
}

} // verus!
