use vstd::prelude::*;
use crate::command::{command_views, CommandView, WCommand, WLocation};
use crate::text::{
    ends_with, has_prefix, has_suffix, join_words, lower_of, lowercase, owned, push_char,
    same_text, split_words, starts_with, string_views, words_of, encode_spaces,
    encode_spaces_spec,
};

verus! {

/// The keyword that a tokenizer finds at the head of a request.
#[derive(Clone, Copy, Debug, PartialEq, Eq, Structural)]
pub enum WKeyword {
    Search,
    Open,
    Add,
    Edit,
    Delete,
    Run,
    NoKeyword,
}

/// A tokenized request: its keyword and the rest of its text.
pub type WCPResult = (WKeyword, String);

pub open spec fn duckduckgo_prefix() -> Seq<char> {
    "https://duckduckgo.com/?q="@
}

pub open spec fn google_prefix() -> Seq<char> {
    "https://google.com/#q="@
}

/// The search link for an engine name; any name but `google` searches on
/// duckduckgo.
pub open spec fn engine_link(name: Seq<char>, search: Seq<char>) -> Seq<char> {
    if name == "google"@ {
        google_prefix() + search
    } else {
        duckduckgo_prefix() + search
    }
}

/// With the name of the search engine and the search to do, it returns a link to
/// the search on the search engine.
pub fn search_engine_link(name: &str, search: &str) -> (r: String)
    ensures
        r@ == engine_link(name@, search@),
{
    let mut link = if same_text(name, "google") {
        owned("https://google.com/#q=")
    } else {
        owned("https://duckduckgo.com/?q=")
    };
    link.append(search);
    link
}

/// The search engine names that have a link template of their own.
pub open spec fn known_engine(name: Seq<char>) -> bool {
    name == "duckduckgo"@ || name == "google"@
}

/// Whether a search engine name is known; any other name searches on duckduckgo,
/// and a caller may warn of it.
pub fn is_known_engine(name: &str) -> (r: bool)
    ensures
        r == known_engine(name@),
{
    same_text(name, "duckduckgo") || same_text(name, "google")
}

/// `browser` followed by a space and `target`.
pub open spec fn launch(browser: Seq<char>, target: Seq<char>) -> Seq<char> {
    browser + seq![' '] + target
}

/// The candidate that opens the request text as a URL.
pub open spec fn open_candidate(content: Seq<char>, browser: Seq<char>) -> CommandView {
    (
        launch(browser, encode_spaces_spec(content)),
        "opening url "@ + content,
        WLocation::Both,
    )
}

/// The candidate that searches for the request text.
pub open spec fn search_candidate(
    content: Seq<char>,
    browser: Seq<char>,
    engine: Seq<char>,
) -> CommandView {
    (
        launch(browser, engine_link(engine, encode_spaces_spec(content))),
        "search for "@ + content,
        WLocation::Both,
    )
}

/// What the web resolver adds: for `Search` and `NoKeyword` an open candidate where
/// the encoded text is URL-shaped, then always a search candidate; for `Open`
/// only the open candidate, where the text is URL-shaped; nothing otherwise.
pub open spec fn web_candidates(
    keyword: WKeyword,
    content: Seq<char>,
    browser: Seq<char>,
    engine: Seq<char>,
    url_shaped: bool,
) -> Seq<CommandView> {
    let open = if url_shaped {
        seq![open_candidate(content, browser)]
    } else {
        Seq::empty()
    };
    match keyword {
        WKeyword::Search | WKeyword::NoKeyword => open + seq![search_candidate(content, browser, engine)],
        WKeyword::Open => open,
        _ => Seq::empty(),
    }
}

fn launch_line(browser: &str, target: &str) -> (r: String)
    ensures
        r@ == launch(browser@, target@),
{
    let mut line = owned(browser);
    push_char(&mut line, ' ');
    line.append(target);
    line
}

fn open_url(content: &str, search: &str, browser: &str) -> (r: WCommand)
    requires
        search@ == encode_spaces_spec(content@),
    ensures
        r@ == open_candidate(content@, browser@),
{
    let mut desc = owned("opening url ");
    desc.append(content);
    WCommand::new(launch_line(browser, search), desc, WLocation::Both)
}

/// Add to the list a link or a search for the request text. `url_shaped` tells
/// whether the text, with its spaces encoded (`encode_spaces`), looks like a URL.
pub fn web_search_cmd(
    command_list: &mut Vec<WCommand>,
    parse_result: &WCPResult,
    browser: &str,
    search_engine: &str,
    url_shaped: bool,
)
    ensures
        command_views(final(command_list)@) == command_views(old(command_list)@) + web_candidates(
            parse_result.0,
            parse_result.1@,
            browser@,
            search_engine@,
            url_shaped,
        ),
{
    let ghost before = command_list@;
    let keyword = parse_result.0;
    let content = parse_result.1.as_str();
    let search = encode_spaces(content);
    match keyword {
        WKeyword::Search | WKeyword::NoKeyword => {
            if url_shaped {
                command_list.push(open_url(content, search.as_str(), browser));
            }
            let link = search_engine_link(search_engine, search.as_str());
            let mut desc = owned("search for ");
            desc.append(content);
            command_list.push(
                WCommand::new(launch_line(browser, link.as_str()), desc, WLocation::Both),
            );
        },
        WKeyword::Open => {
            if url_shaped {
                command_list.push(open_url(content, search.as_str(), browser));
            }
        },
        _ => {},
    }
    assert(command_views(command_list@) =~= command_views(before) + web_candidates(
        keyword,
        content@,
        browser@,
        search_engine@,
        url_shaped,
    ));
}

/// The names found in each directory of the search path, directory by directory.
pub open spec fn listing_views(dirs: Seq<Vec<String>>) -> Seq<Seq<Seq<char>>> {
    dirs.map_values(|d: Vec<String>| string_views(d@))
}

/// The first word of the request is `run`, in any case: it is skipped.
pub open spec fn skips_run(content: Seq<char>) -> bool {
    words_of(content).len() > 0 && lower_of(words_of(content)[0]) == "run"@
}

/// The index of the word that names the program.
pub open spec fn program_index(content: Seq<char>) -> int {
    if skips_run(content) {
        1
    } else {
        0
    }
}

/// The index of the first argument word.
pub open spec fn args_index(content: Seq<char>) -> int {
    let ws = words_of(content);
    if program_index(content) < ws.len() {
        program_index(content) + 1
    } else {
        ws.len() as int
    }
}

/// The lower-cased program name looked for in the search path, with `.exe` added
/// where the platform needs it. Where no word names a program, the whole text
/// lower-cased stands for it.
pub open spec fn program_target(content: Seq<char>, exe_suffix: bool) -> Seq<char> {
    let ws = words_of(content);
    let base = if program_index(content) < ws.len() {
        lower_of(ws[program_index(content)])
    } else {
        lower_of(content)
    };
    if exe_suffix && !has_suffix(base, ".exe"@) {
        base + ".exe"@
    } else {
        base
    }
}

/// The entry at (`a`, `b`) comes before the one at (`i`, `j`) in scan order.
pub open spec fn scanned_before(
    dirs: Seq<Seq<Seq<char>>>,
    a: int,
    b: int,
    i: int,
    j: int,
) -> bool {
    (0 <= a < i && 0 <= b < dirs[a].len()) || (a == i && 0 <= b < j)
}

/// The entry at (`i`, `j`) matches `target` when lower-cased, and no entry before
/// it does: directories in search-path order, entries in listing order.
pub open spec fn is_first_match(dirs: Seq<Seq<Seq<char>>>, target: Seq<char>, i: int, j: int) -> bool {
    &&& 0 <= i < dirs.len()
    &&& 0 <= j < dirs[i].len()
    &&& lower_of(dirs[i][j]) == target
    &&& forall|a: int, b: int|
        #![trigger dirs[a][b]]
        scanned_before(dirs, a, b, i, j) ==> lower_of(dirs[a][b]) != target
}

/// The command line rebuilt from the matched name and the argument words.
pub open spec fn program_line(content: Seq<char>, name: Seq<char>) -> Seq<char> {
    let ws = words_of(content);
    join_words(seq![name] + ws.subrange(args_index(content), ws.len() as int))
}

/// What the path-executable resolver adds: one candidate for the first entry of
/// the search path whose lower-cased name is the target, or nothing.
pub open spec fn path_candidates(
    content: Seq<char>,
    dirs: Seq<Seq<Seq<char>>>,
    exe_suffix: bool,
) -> Seq<CommandView> {
    let t = program_target(content, exe_suffix);
    if exists|i: int, j: int| is_first_match(dirs, t, i, j) {
        let (i, j) = choose|i: int, j: int| is_first_match(dirs, t, i, j);
        let line = program_line(content, dirs[i][j]);
        seq![(line, "execute `"@ + line + "`"@, WLocation::Both)]
    } else {
        Seq::empty()
    }
}

proof fn lemma_first_match_unique(dirs: Seq<Seq<Seq<char>>>, t: Seq<char>, i: int, j: int, k: int, l: int)
    requires
        is_first_match(dirs, t, i, j),
        is_first_match(dirs, t, k, l),
    ensures
        i == k && j == l,
{
    if i < k || (i == k && j < l) {
        assert(scanned_before(dirs, i, j, k, l));
        assert(lower_of(dirs[i][j]) != t);
    } else if k < i || (i == k && l < j) {
        assert(scanned_before(dirs, k, l, i, j));
        assert(lower_of(dirs[k][l]) != t);
    }
}

/// `first`, then the words of `ws` from index `from` on, joined by single spaces.
fn join_after(first: &str, ws: &Vec<String>, from: usize) -> (r: String)
    requires
        from <= ws@.len(),
    ensures
        r@ == join_words(seq![first@] + string_views(ws@).subrange(from as int, ws@.len() as int)),
{
    let ghost v = string_views(ws@);
    let mut out = owned(first);
    let mut i: usize = from;
    assert(seq![first@] + v.subrange(from as int, from as int) =~= seq![first@]);
    while i < ws.len()
        invariant
            v == string_views(ws@),
            from <= i <= ws@.len(),
            out@ == join_words(seq![first@] + v.subrange(from as int, i as int)),
        decreases ws@.len() - i,
    {
        let ghost next = seq![first@] + v.subrange(from as int, i + 1);
        assert(next.drop_last() =~= seq![first@] + v.subrange(from as int, i as int));
        push_char(&mut out, ' ');
        out.append(ws[i].as_str());
        assert(out@ =~= join_words(next));
        i += 1;
    }
    out
}

/// The lower-cased program name to look for (see `program_target`), and the
/// index of the first argument word.
fn target_of(content: &str, words: &Vec<String>, exe_suffix: bool) -> (r: (String, usize))
    requires
        string_views(words@) == words_of(content@),
    ensures
        r.0@ == program_target(content@, exe_suffix),
        r.1 as int == args_index(content@),
{
    let ghost ws = words_of(content@);
    let skip = if words.len() > 0 {
        let first = lowercase(words[0].as_str());
        assert(ws[0] == words@[0]@);
        same_text(first.as_str(), "run")
    } else {
        false
    };
    let idx: usize = if skip { 1 } else { 0 };
    let (mut target, args) = if idx < words.len() {
        assert(ws[idx as int] == words@[idx as int]@);
        (lowercase(words[idx].as_str()), idx + 1)
    } else {
        (lowercase(content), words.len())
    };
    if exe_suffix && !ends_with(target.as_str(), ".exe") {
        target.append(".exe");
    }
    (target, args)
}

fn path_cmd(
    command_list: &mut Vec<WCommand>,
    content: &str,
    search_path: &Vec<Vec<String>>,
    exe_suffix: bool,
)
    ensures
        command_views(final(command_list)@) == command_views(old(command_list)@) + path_candidates(
            content@,
            listing_views(search_path@),
            exe_suffix,
        ),
{
    let ghost dirs = listing_views(search_path@);
    let words = split_words(content);
    let (target, args) = target_of(content, &words, exe_suffix);
    let ghost t = target@;
    let mut i: usize = 0;
    while i < search_path.len()
        invariant
            dirs == listing_views(search_path@),
            t == program_target(content@, exe_suffix),
            target@ == t,
            string_views(words@) == words_of(content@),
            args as int == args_index(content@),
            0 <= i <= search_path@.len(),
            forall|a: int, b: int|
                #![trigger dirs[a][b]]
                0 <= a < i && 0 <= b < dirs[a].len() ==> lower_of(dirs[a][b]) != t,
            *command_list == *old(command_list),
        decreases search_path@.len() - i,
    {
        let dir = &search_path[i];
        assert(dirs[i as int] == string_views(dir@));
        let mut j: usize = 0;
        while j < dir.len()
            invariant
                dirs == listing_views(search_path@),
                dirs[i as int] == string_views(dir@),
                t == program_target(content@, exe_suffix),
                target@ == t,
                string_views(words@) == words_of(content@),
                args as int == args_index(content@),
                0 <= i < search_path@.len(),
                0 <= j <= dir@.len(),
                forall|a: int, b: int|
                    #![trigger dirs[a][b]]
                    scanned_before(dirs, a, b, i as int, j as int) ==> lower_of(dirs[a][b]) != t,
                *command_list == *old(command_list),
            decreases dir@.len() - j,
        {
            let name = &dir[j];
            assert(dirs[i as int][j as int] == name@);
            assert(args <= words@.len());
            let lowered = lowercase(name.as_str());
            if same_text(lowered.as_str(), target.as_str()) {
                assert(is_first_match(dirs, t, i as int, j as int));
                let line = join_after(name.as_str(), &words, args);
                let mut desc = owned("execute `");
                desc.append(line.as_str());
                desc.append("`");
                let ghost lv = line@;
                command_list.push(WCommand::new(line, desc, WLocation::Both));
                proof {
                    let (k, l) = choose|k: int, l: int| is_first_match(dirs, t, k, l);
                    lemma_first_match_unique(dirs, t, i as int, j as int, k, l);
                    assert(lv == program_line(content@, dirs[i as int][j as int]));
                    assert(command_views(command_list@) =~= command_views(old(command_list)@)
                        + path_candidates(content@, dirs, exe_suffix));
                }
                return;
            }
            j += 1;
        }
        i += 1;
    }
    proof {
        if exists|k: int, l: int| is_first_match(dirs, t, k, l) {
            let (k, l) = choose|k: int, l: int| is_first_match(dirs, t, k, l);
            assert(lower_of(dirs[k][l]) != t);
        }
        assert(command_views(command_list@) =~= command_views(old(command_list)@) + path_candidates(
            content@,
            dirs,
            exe_suffix,
        ));
    }
}

/// Check if the request names a program of the search path, and add a candidate
/// that runs it. Only requests with the keyword `Run` or `NoKeyword` are looked up.
pub fn command_cmd(
    command_list: &mut Vec<WCommand>,
    parse_result: &WCPResult,
    search_path: &Vec<Vec<String>>,
    exe_suffix: bool,
)
    ensures
        command_views(final(command_list)@) == command_views(old(command_list)@) + program_candidates(
            parse_result.0,
            parse_result.1@,
            listing_views(search_path@),
            exe_suffix,
        ),
{
    match parse_result.0 {
        WKeyword::Run | WKeyword::NoKeyword => {
            path_cmd(command_list, parse_result.1.as_str(), search_path, exe_suffix);
        },
        _ => {
            assert(command_views(command_list@) =~= command_views(command_list@) + Seq::empty());
        },
    }
}

/// What the path-executable resolver adds for a keyword.
pub open spec fn program_candidates(
    keyword: WKeyword,
    content: Seq<char>,
    dirs: Seq<Seq<Seq<char>>>,
    exe_suffix: bool,
) -> Seq<CommandView> {
    match keyword {
        WKeyword::Run | WKeyword::NoKeyword => path_candidates(content, dirs, exe_suffix),
        _ => Seq::empty(),
    }
}

/// The script action that a request asks for.
#[derive(Clone, Copy, Debug, PartialEq, Eq, Structural)]
pub enum ScriptAction {
    Add,
    Edit,
    Delete,
    Run,
}

/// `Add` and `Delete` act on scripts only where the text begins with `script`;
/// `Edit` and `Run` always do.
pub open spec fn script_action_of(keyword: WKeyword, content: Seq<char>) -> Option<ScriptAction> {
    match keyword {
        WKeyword::Add => if has_prefix(content, "script"@) {
            Some(ScriptAction::Add)
        } else {
            None
        },
        WKeyword::Edit => Some(ScriptAction::Edit),
        WKeyword::Delete => if has_prefix(content, "script"@) {
            Some(ScriptAction::Delete)
        } else {
            None
        },
        WKeyword::Run => Some(ScriptAction::Run),
        _ => None,
    }
}

/// Decide which script action, if any, the request asks for. The script helpers
/// then make one candidate per script path for that action.
pub fn script_action(parse_result: &WCPResult) -> (r: Option<ScriptAction>)
    ensures
        r == script_action_of(parse_result.0, parse_result.1@),
{
    let script_prefix = starts_with(parse_result.1.as_str(), "script");
    match parse_result.0 {
        WKeyword::Add => if script_prefix {
            Some(ScriptAction::Add)
        } else {
            None
        },
        WKeyword::Edit => Some(ScriptAction::Edit),
        WKeyword::Delete => if script_prefix {
            Some(ScriptAction::Delete)
        } else {
            None
        },
        WKeyword::Run => Some(ScriptAction::Run),
        _ => None,
    }
}

/// What the resolution reads from its surroundings: the preferred browser and
/// search engine from the variable store, the names in each directory of the
/// search path (in search-path order), and whether programs carry an `.exe` suffix.
pub struct Context {
    pub browser: Option<String>,
    pub search_engine: Option<String>,
    pub search_path: Vec<Vec<String>>,
    pub exe_suffix: bool,
}

/// The browser to use: `firefox` unless one is set.
pub open spec fn browser_of(ctx: Context) -> Seq<char> {
    match ctx.browser {
        Some(b) => b@,
        None => "firefox"@,
    }
}

/// The search engine name: empty unless one is set.
pub open spec fn engine_of(ctx: Context) -> Seq<char> {
    match ctx.search_engine {
        Some(e) => e@,
        None => Seq::empty(),
    }
}

/// The candidates for a request, in order: the script candidates, the program of
/// the search path, then the web candidates.
pub open spec fn resolution(
    keyword: WKeyword,
    content: Seq<char>,
    ctx: Context,
    scripts: Seq<CommandView>,
    url_shaped: bool,
) -> Seq<CommandView> {
    scripts + program_candidates(keyword, content, listing_views(ctx.search_path@), ctx.exe_suffix)
        + web_candidates(keyword, content, browser_of(ctx), engine_of(ctx), url_shaped)
}

/// Parse user command and return a list of wydy commands. `scripts` holds the
/// candidates that the script helpers made for `script_action(parse_result)`, and
/// `url_shaped` whether the text, with its spaces encoded, looks like a URL.
pub fn parse_user_command(
    parse_result: &WCPResult,
    ctx: &Context,
    scripts: Vec<WCommand>,
    url_shaped: bool,
) -> (r: Vec<WCommand>)
    ensures
        command_views(r@) == resolution(
            parse_result.0,
            parse_result.1@,
            *ctx,
            command_views(scripts@),
            url_shaped,
        ),
{
    let mut command_list = scripts;
    let ghost first = command_list@;
    command_cmd(&mut command_list, parse_result, &ctx.search_path, ctx.exe_suffix);
    let browser = match &ctx.browser {
        Some(b) => b.as_str(),
        None => "firefox",
    };
    let engine = match &ctx.search_engine {
        Some(e) => e.as_str(),
        None => "",
    };
    proof {
        reveal_strlit("");
        assert(engine@ =~= engine_of(*ctx));
    }
    web_search_cmd(&mut command_list, parse_result, browser, engine, url_shaped);
    assert(command_views(command_list@) =~= resolution(
        parse_result.0,
        parse_result.1@,
        *ctx,
        command_views(first),
        url_shaped,
    ));
    command_list
}

/// The first directory of the search path wins: where one of its names matches
/// the program looked for, the single candidate runs a name of that directory,
/// the first of it that matches.
pub proof fn lemma_first_directory_wins(
    content: Seq<char>,
    dirs: Seq<Seq<Seq<char>>>,
    exe_suffix: bool,
    j: int,
)
    requires
        dirs.len() > 0,
        0 <= j < dirs[0].len(),
        lower_of(dirs[0][j]) == program_target(content, exe_suffix),
    ensures
        exists|b: int|
            0 <= b <= j && is_first_match(dirs, program_target(content, exe_suffix), 0, b)
                && path_candidates(content, dirs, exe_suffix) == seq![
                (
                    program_line(content, dirs[0][b]),
                    "execute `"@ + program_line(content, dirs[0][b]) + "`"@,
                    WLocation::Both,
                ),
            ],
{
    let t = program_target(content, exe_suffix);
    let first = choose|b: int|
        0 <= b <= j && lower_of(dirs[0][b]) == t && forall|c: int|
            0 <= c < b ==> lower_of(#[trigger] dirs[0][c]) != t;
    assert(exists|b: int|
        0 <= b <= j && lower_of(dirs[0][b]) == t && forall|c: int|
            0 <= c < b ==> lower_of(#[trigger] dirs[0][c]) != t) by {
        lemma_earliest(dirs[0], t, j);
    }
    assert(is_first_match(dirs, t, 0, first));
    let (k, l) = choose|k: int, l: int| is_first_match(dirs, t, k, l);
    lemma_first_match_unique(dirs, t, 0, first, k, l);
}

proof fn lemma_earliest(d: Seq<Seq<char>>, t: Seq<char>, j: int)
    requires
        0 <= j < d.len(),
        lower_of(d[j]) == t,
    ensures
        exists|b: int|
            0 <= b <= j && lower_of(d[b]) == t && forall|c: int|
                0 <= c < b ==> lower_of(#[trigger] d[c]) != t,
    decreases j,
{
    if exists|c: int| 0 <= c < j && lower_of(#[trigger] d[c]) == t {
        let c = choose|c: int| 0 <= c < j && lower_of(#[trigger] d[c]) == t;
        lemma_earliest(d, t, c);
    } else {
        assert(forall|c: int| 0 <= c < j ==> lower_of(#[trigger] d[c]) != t);
    }
}

/// A search engine name other than `duckduckgo` and `google` searches on
/// duckduckgo, and a request without keyword or with `Search` still gets
/// exactly one search candidate, last in the web candidates.
pub proof fn lemma_unknown_engine_falls_back(
    keyword: WKeyword,
    content: Seq<char>,
    browser: Seq<char>,
    engine: Seq<char>,
    url_shaped: bool,
)
    requires
        engine != "duckduckgo"@,
        engine != "google"@,
        keyword == WKeyword::Search || keyword == WKeyword::NoKeyword,
    ensures
        engine_link(engine, encode_spaces_spec(content)) == engine_link(
            "duckduckgo"@,
            encode_spaces_spec(content),
        ),
        web_candidates(keyword, content, browser, engine, url_shaped).last() == search_candidate(
            content,
            browser,
            "duckduckgo"@,
        ),
        web_candidates(keyword, content, browser, engine, url_shaped).len() == if url_shaped {
            2int
        } else {
            1int
        },
{
    reveal_strlit("duckduckgo");
    reveal_strlit("google");
    assert("duckduckgo"@[0] != "google"@[0]);
    let w = web_candidates(keyword, content, browser, engine, url_shaped);
    if url_shaped {
        assert(w[1] == w.last());
    }
}

} // verus!
