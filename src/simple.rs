use vstd::prelude::*;
use crate::text::{concat_from, concat_words, owned, push_char, same_text, split_words, string_views, words_of};

verus! {

/// A command without a location: the text to execute (`vi src/command.rs`) and a
/// description (`edit file "src/command.rs"`).
pub struct WCommand {
    command: String,
    desc: String,
}

impl View for WCommand {
    type V = (Seq<char>, Seq<char>);

    closed spec fn view(&self) -> (Seq<char>, Seq<char>) {
        (self.command@, self.desc@)
    }
}

impl WCommand {
    pub fn new(command: String, desc: String) -> (r: WCommand)
        ensures
            r@ == (command@, desc@),
    {
        WCommand { command, desc }
    }

    pub fn desc(&self) -> (r: &str)
        ensures
            r@ == self@.1,
    {
        self.desc.as_str()
    }

    /// The program name followed by its arguments: the words of the command text.
    pub fn argv(&self) -> (r: Vec<String>)
        ensures
            string_views(r@) == words_of(self@.0),
    {
        split_words(self.command.as_str())
    }
}

/// The duckduckgo search for `search`, opened in firefox.
pub open spec fn search_view(search: Seq<char>) -> (Seq<char>, Seq<char>) {
    ("firefox https://duckduckgo.com/?q="@ + search, "search for "@ + search)
}

/// The commands for a request: none for an empty one; otherwise one search, for
/// the words after a leading `search`, or for the first word, a space and the
/// other words. The words after the first are put together without spaces.
pub open spec fn parsed_commands(command: Seq<char>) -> Seq<(Seq<char>, Seq<char>)> {
    let ws = words_of(command);
    let rest = concat_words(ws.subrange(1, ws.len() as int));
    if ws.len() == 0 {
        Seq::empty()
    } else if ws[0] == "search"@ {
        seq![search_view(rest)]
    } else {
        seq![search_view(ws[0] + seq![' '] + rest)]
    }
}

/// Parse one command and return wydy commands.
pub fn parse_command(command: String) -> (r: Vec<WCommand>)
    ensures
        r@.map_values(|c: WCommand| c@) == parsed_commands(command@),
{
    let words = split_words(command.as_str());
    let ghost ws = words_of(command@);
    let mut result: Vec<WCommand> = Vec::new();
    if words.len() > 0 {
        assert(ws[0] == words@[0]@);
        let rest = concat_from(&words, 1);
        assert(rest@ == concat_words(ws.subrange(1, ws.len() as int)));
        if same_text(words[0].as_str(), "search") {
            result.push(web_search(rest));
            assert(result@.map_values(|c: WCommand| c@) =~= parsed_commands(command@));
        } else {
            let mut search = owned(words[0].as_str());
            push_char(&mut search, ' ');
            search.append(rest.as_str());
            assert(search@ =~= ws[0] + seq![' '] + rest@);
            result.push(web_search(search));
            assert(result@.map_values(|c: WCommand| c@) =~= parsed_commands(command@));
        }
    } else {
        assert(result@.map_values(|c: WCommand| c@) =~= parsed_commands(command@));
    }
    result
}

fn web_search(search: String) -> (r: WCommand)
    ensures
        r@ == search_view(search@),
{
    let mut command = owned("firefox https://duckduckgo.com/?q=");
    command.append(search.as_str());
    let mut desc = owned("search for ");
    desc.append(search.as_str());
    WCommand::new(command, desc)
}

} // verus!
