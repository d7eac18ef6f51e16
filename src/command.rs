use vstd::prelude::*;
use crate::text::{split_words, string_views, words_of};

verus! {

/// Where a command may be run.
#[derive(Clone, Copy, Debug, PartialEq, Eq, Structural)]
pub enum WLocation {
    Client,
    Server,
    Both,
}

/// Two locations are compatible when they are equal or one of them is `Both`.
pub open spec fn compatible(a: WLocation, b: WLocation) -> bool {
    a == b || a == WLocation::Both || b == WLocation::Both
}

impl WLocation {
    /// Check if location are compatible between two location.
    pub fn is_compatible(&self, other: &WLocation) -> (r: bool)
        ensures
            r == compatible(*self, *other),
    {
        if *self == *other {
            true
        } else if *self == WLocation::Both || *other == WLocation::Both {
            true
        } else {
            false
        }
    }
}

/// Compatibility is symmetric, `Both` is compatible with every location, and the
/// two concrete locations are not compatible with each other.
pub proof fn lemma_compatible_laws(a: WLocation, b: WLocation)
    ensures
        compatible(a, b) == compatible(b, a),
        compatible(WLocation::Both, a),
        compatible(a, WLocation::Both),
        compatible(a, a),
        !compatible(WLocation::Client, WLocation::Server),
{
}

/// A command candidate: the text to execute (`vi src/command.rs`), a description
/// for people (`edit file "src/command.rs"`), and where it may run.
#[derive(Clone)]
pub struct WCommand {
    command: String,
    desc: String,
    loc: WLocation,
}

/// What a candidate holds: command text, description, location.
pub type CommandView = (Seq<char>, Seq<char>, WLocation);

impl View for WCommand {
    type V = CommandView;

    closed spec fn view(&self) -> CommandView {
        (self.command@, self.desc@, self.loc)
    }
}

/// The views of a list of candidates.
pub open spec fn command_views(v: Seq<WCommand>) -> Seq<CommandView> {
    v.map_values(|c: WCommand| c@)
}

impl WCommand {
    pub fn new(command: String, desc: String, loc: WLocation) -> (r: WCommand)
        ensures
            r@ == (command@, desc@, loc),
    {
        WCommand { command, desc, loc }
    }

    pub fn command(&self) -> (r: &str)
        ensures
            r@ == self@.0,
    {
        self.command.as_str()
    }

    pub fn desc(&self) -> (r: &str)
        ensures
            r@ == self@.1,
    {
        self.desc.as_str()
    }

    pub fn location(&self) -> (r: &WLocation)
        ensures
            *r == self@.2,
    {
        &self.loc
    }

    /// The program name followed by its arguments: the words of the command text.
    /// An empty result means there is no program to run.
    pub fn argv(&self) -> (r: Vec<String>)
        ensures
            string_views(r@) == words_of(self@.0),
    {
        split_words(self.command.as_str())
    }
}

} // verus!
