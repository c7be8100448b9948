//! Which processes look like the game.

use vstd::prelude::*;

use crate::platform::proc_fs;
use crate::platform::proc_fs::{has_text, trim};
use crate::text;
use crate::text::{chars_of, same_text, string_of};

verus! {

/// An entry of the kernel's process directory: its name, and what could be read in it.
#[derive(Debug)]
pub struct ProcEntry {
    pub name: String,
    /// The command's name.
    pub comm: Option<String>,
    /// The command line, whose arguments a zero byte ends.
    pub cmdline: Option<Vec<u8>>,
}

/// The text that `String::from_utf8_lossy` makes of bytes.
pub uninterp spec fn lossy_text(bytes: Seq<u8>) -> Seq<char>;

/// The text that `str::to_lowercase` makes of a text.
pub uninterp spec fn lowercase(s: Seq<char>) -> Seq<char>;

/// `String::from_utf8_lossy`: a function of the bytes, which for valid UTF-8 is the text that they
/// encode. What stands in place of invalid sequences is left unsaid.
#[verifier::external_body]
pub(crate) fn decode_lossy(bytes: &[u8]) -> (r: String)
    ensures
        r@ == lossy_text(bytes@),
        vstd::utf8::valid_utf8(bytes@) ==> r@ == vstd::utf8::decode_utf8(bytes@),
{
    String::from_utf8_lossy(bytes).into_owned()
}

/// The lower-case letter of an upper-case ASCII letter; any other character is itself.
pub open spec fn ascii_lower(c: char) -> char {
    if 'A' <= c <= 'Z' {
        (c as int + 32) as char
    } else {
        c
    }
}

/// `str::to_lowercase`: a function of the text, which lowers ASCII text letter by letter. What
/// becomes of other letters is left unsaid.
#[verifier::external_body]
pub(crate) fn to_lowercase(s: &str) -> (r: String)
    ensures
        r@ == lowercase(s@),
        vstd::utf8::is_ascii_chars(s@) ==> r@ == s@.map_values(|c: char| ascii_lower(c)),
{
    s.to_lowercase()
}

/// A command line as it is searched: decoded, with a space in place of each zero, in lower case.
pub open spec fn command_line(bytes: Seq<u8>) -> Seq<char> {
    lowercase(spaced_zeros(lossy_text(bytes)))
}

/// The text with a space in place of each zero character.
pub open spec fn spaced_zeros(s: Seq<char>) -> Seq<char> {
    s.map_values(|c: char| if c == '\u{0}' { ' ' } else { c })
}

/// The names under which the game, its launchers and its servers run.
pub open spec fn game_names() -> Seq<Seq<char>> {
    seq![
        "Minecraft.Windows.exe"@,
        "minecraft"@,
        "mcpelauncher"@,
        "minecraftlinux"@,
        "bedrock_server"@,
        "bedrock-server"@,
    ]
}

/// The names under which the game, its launchers and its servers run.
pub fn game_name_list() -> (r: Vec<String>)
    ensures
        text::views(r@) == game_names(),
{
    let r = vec![
        "Minecraft.Windows.exe".to_owned(),
        "minecraft".to_owned(),
        "mcpelauncher".to_owned(),
        "minecraftlinux".to_owned(),
        "bedrock_server".to_owned(),
        "bedrock-server".to_owned(),
    ];
    assert(text::views(r@) =~= game_names());
    r
}

/// Whether the entry is a process: its name is a number.
pub open spec fn is_process(e: ProcEntry) -> bool {
    text::all_digits(e.name@)
}

/// Whether the command's name is one of the names.
pub open spec fn comm_matches(e: ProcEntry, names: Seq<Seq<char>>) -> bool {
    e.comm matches Some(comm) && names.contains(proc_fs::trimmed(comm@))
}

/// Whether one of the names, in lower case, stands in a command line as it is searched.
pub open spec fn names_in(haystack: Seq<char>, names: Seq<Seq<char>>) -> bool {
    exists|i: int| 0 <= i < names.len() && proc_fs::contains_text(haystack, #[trigger] names[i])
}

/// Whether the command line speaks of one of the names, in any case.
pub open spec fn cmdline_matches(e: ProcEntry, names: Seq<Seq<char>>) -> bool {
    e.cmdline matches Some(bytes) && names_in(
        command_line(bytes@),
        names.map_values(|n: Seq<char>| lowercase(n)),
    )
}

/// Whether the name is a number.
fn is_number(name: &str) -> (r: bool)
    ensures
        r == text::all_digits(name@),
{
    let chars = chars_of(name);
    for i in 0..chars.len()
        invariant
            chars@ == name@,
            forall|k: int| 0 <= k < i ==> text::is_digit(#[trigger] name@[k]),
    {
        if chars[i] < '0' || chars[i] > '9' {
            assert(!text::is_digit(name@[i as int]));
            return false;
        }
    }
    true
}

/// Whether the text is one of the names.
pub fn is_one_of(s: &str, names: &Vec<String>) -> (r: bool)
    ensures
        r == text::views(names@).contains(s@),
{
    let ghost all = text::views(names@);
    for i in 0..names.len()
        invariant
            all == text::views(names@),
            forall|k: int| 0 <= k < i ==> #[trigger] all[k] != s@,
    {
        assert(all[i as int] == names@[i as int]@);
        if same_text(s, names[i].as_str()) {
            return true;
        }
    }
    false
}

/// Whether one of the names stands in the text.
pub fn mentions_any(haystack: &str, names: &Vec<String>) -> (r: bool)
    ensures
        r == names_in(haystack@, text::views(names@)),
{
    let ghost all = text::views(names@);
    for i in 0..names.len()
        invariant
            all == text::views(names@),
            forall|k: int|
                0 <= k < i ==> !proc_fs::contains_text(haystack@, #[trigger] all[k]),
    {
        assert(all[i as int] == names@[i as int]@);
        if has_text(haystack, names[i].as_str()) {
            return true;
        }
    }
    false
}

/// The text with a space in place of each zero character.
pub fn space_zeros(s: &str) -> (r: String)
    ensures
        r@ == spaced_zeros(s@),
{
    let chars = chars_of(s);
    let mut out: Vec<char> = Vec::new();
    for i in 0..chars.len()
        invariant
            chars@ == s@,
            out@ == spaced_zeros(s@.take(i as int)),
    {
        let c = if chars[i] == '\u{0}' {
            ' '
        } else {
            chars[i]
        };
        out.push(c);
        assert(spaced_zeros(s@.take(i + 1)) =~= spaced_zeros(s@.take(i as int)).push(c));
    }
    assert(s@.take(s@.len() as int) == s@);
    string_of(&out)
}

/// The names in lower case.
fn lowered(names: &Vec<String>) -> (r: Vec<String>)
    ensures
        text::views(r@) == text::views(names@).map_values(|n: Seq<char>| lowercase(n)),
{
    let mut out: Vec<String> = Vec::new();
    for i in 0..names.len()
        invariant
            out@.len() == i,
            forall|k: int| 0 <= k < i ==> (#[trigger] out@[k])@ == lowercase(names@[k]@),
    {
        out.push(to_lowercase(names[i].as_str()));
    }
    assert(text::views(out@) =~= text::views(names@).map_values(|n: Seq<char>| lowercase(n)));
    out
}

/// Whether an entry's command has one of the names.
fn entry_comm_matches(e: &ProcEntry, names: &Vec<String>) -> (r: bool)
    ensures
        r == comm_matches(*e, text::views(names@)),
{
    match &e.comm {
        Some(comm) => is_one_of(trim(comm.as_str()).as_str(), names),
        None => false,
    }
}

/// Whether an entry's command line speaks of one of the names.
fn entry_cmdline_matches(e: &ProcEntry, names: &Vec<String>) -> (r: bool)
    ensures
        r == cmdline_matches(*e, text::views(names@)),
{
    match &e.cmdline {
        Some(bytes) => {
            let decoded = decode_lossy(bytes.as_slice());
            let haystack = to_lowercase(space_zeros(decoded.as_str()).as_str());
            mentions_any(haystack.as_str(), &lowered(names))
        },
        None => false,
    }
}

/// Whether the command of some process has one of the names.
pub open spec fn some_comm(list: Seq<ProcEntry>, names: Seq<Seq<char>>) -> bool {
    exists|i: int|
        0 <= i < list.len() && is_process(#[trigger] list[i]) && comm_matches(list[i], names)
}

/// Whether the command line of some process speaks of one of the names.
pub open spec fn some_cmdline(list: Seq<ProcEntry>, names: Seq<Seq<char>>) -> bool {
    exists|i: int|
        0 <= i < list.len() && is_process(#[trigger] list[i]) && cmdline_matches(list[i], names)
}

/// Whether any process is to be seen.
pub open spec fn some_process(list: Seq<ProcEntry>) -> bool {
    exists|i: int| 0 <= i < list.len() && is_process(#[trigger] list[i])
}

/// Looks for a process by its command's name. Without a directory to read there is none.
pub fn proc_comm_matches(entries: Option<&Vec<ProcEntry>>, names: &Vec<String>) -> (r: bool)
    ensures
        r == (entries matches Some(list) && some_comm(list@, text::views(names@))),
{
    match entries {
        Some(list) => list_comm_matches(list, names),
        None => false,
    }
}

fn list_comm_matches(list: &Vec<ProcEntry>, names: &Vec<String>) -> (r: bool)
    ensures
        r == some_comm(list@, text::views(names@)),
{
    for i in 0..list.len()
        invariant
            forall|k: int|
                0 <= k < i ==> !(is_process(#[trigger] list@[k]) && comm_matches(
                    list@[k],
                    text::views(names@),
                )),
    {
        if is_number(list[i].name.as_str()) && entry_comm_matches(&list[i], names) {
            assert(is_process(list@[i as int]));
            return true;
        }
    }
    false
}

/// Looks for a process by its command line. Without a directory to read there is none.
pub fn proc_cmdline_matches(entries: Option<&Vec<ProcEntry>>, names: &Vec<String>) -> (r: bool)
    ensures
        r == (entries matches Some(list) && some_cmdline(list@, text::views(names@))),
{
    match entries {
        Some(list) => list_cmdline_matches(list, names),
        None => false,
    }
}

fn list_cmdline_matches(list: &Vec<ProcEntry>, names: &Vec<String>) -> (r: bool)
    ensures
        r == some_cmdline(list@, text::views(names@)),
{
    for i in 0..list.len()
        invariant
            forall|k: int|
                0 <= k < i ==> !(is_process(#[trigger] list@[k]) && cmdline_matches(
                    list@[k],
                    text::views(names@),
                )),
    {
        if is_number(list[i].name.as_str()) && entry_cmdline_matches(&list[i], names) {
            assert(is_process(list@[i as int]));
            return true;
        }
    }
    false
}

/// Whether a process of the list has one of the names or speaks of it; nothing where no process is
/// to be seen.
pub open spec fn visible_match(list: Seq<ProcEntry>, names: Seq<Seq<char>>) -> Option<bool> {
    if some_comm(list, names) || some_cmdline(list, names) {
        Some(true)
    } else if some_process(list) {
        Some(false)
    } else {
        None
    }
}

/// Looks for a process among those that are to be seen. Without a directory to read there are none.
pub fn proc_visible_matches(entries: Option<&Vec<ProcEntry>>, names: &Vec<String>) -> (r: Option<
    bool,
>)
    ensures
        r == match entries {
            Some(list) => visible_match(list@, text::views(names@)),
            None => None,
        },
{
    match entries {
        Some(list) => list_visible_matches(list, names),
        None => None,
    }
}

fn list_visible_matches(list: &Vec<ProcEntry>, names: &Vec<String>) -> (r: Option<bool>)
    ensures
        r == visible_match(list@, text::views(names@)),
{
    let mut any_visible = false;
    for i in 0..list.len()
        invariant
            any_visible == exists|k: int| 0 <= k < i && is_process(#[trigger] list@[k]),
            forall|k: int|
                0 <= k < i ==> !(is_process(#[trigger] list@[k]) && (comm_matches(
                    list@[k],
                    text::views(names@),
                ) || cmdline_matches(list@[k], text::views(names@)))),
    {
        if is_number(list[i].name.as_str()) {
            assert(is_process(list@[i as int]));
            any_visible = true;
            if entry_comm_matches(&list[i], names) {
                assert(some_comm(list@, text::views(names@)));
                return Some(true);
            }
            if entry_cmdline_matches(&list[i], names) {
                assert(some_cmdline(list@, text::views(names@)));
                return Some(true);
            }
        }
    }
    if any_visible {
        Some(false)
    } else {
        None
    }
}

/// The names of the game are these six and no others.
pub proof fn game_has_six_names(name: Seq<char>)
    ensures
        game_names().contains(name) <==> {
            ||| name == "Minecraft.Windows.exe"@
            ||| name == "minecraft"@
            ||| name == "mcpelauncher"@
            ||| name == "minecraftlinux"@
            ||| name == "bedrock_server"@
            ||| name == "bedrock-server"@
        },
        game_names().len() == 6,
{
    let names = game_names();
    assert(names[0] == "Minecraft.Windows.exe"@ && names[1] == "minecraft"@ && names[2]
        == "mcpelauncher"@ && names[3] == "minecraftlinux"@ && names[4] == "bedrock_server"@
        && names[5] == "bedrock-server"@);
    if names.contains(name) {
        let i = choose|i: int| 0 <= i < names.len() && names[i] == name;
        assert(i == 0 || i == 1 || i == 2 || i == 3 || i == 4 || i == 5);
    }
}

/// A command line is searched as it was decoded, in lower case, with a space for each zero and every
/// other character as it is.
pub proof fn zeros_are_searched_as_spaces(bytes: Seq<u8>, s: Seq<char>, i: int)
    ensures
        command_line(bytes) == lowercase(spaced_zeros(lossy_text(bytes))),
        spaced_zeros(s).len() == s.len(),
        0 <= i < s.len() && s[i] == '\u{0}' ==> spaced_zeros(s)[i] == ' ',
        0 <= i < s.len() && s[i] != '\u{0}' ==> spaced_zeros(s)[i] == s[i],
{
}

/// What one entry shows: nothing unless its name is made of digits only; then that a process is to be
/// seen, that its command has one of the names, if it has, without the white space around it, and
/// that its command line speaks of one, if it does.
pub proof fn entry_shows_its_process(e: ProcEntry, names: Seq<Seq<char>>)
    ensures
        ({
            let numbered = forall|i: int|
                0 <= i < e.name@.len() ==> '0' <= #[trigger] e.name@[i] <= '9';
            let named = e.comm is Some && names.contains(proc_fs::trimmed(e.comm->0@));
            let spoken_of = e.cmdline is Some && exists|i: int|
                0 <= i < names.len() && proc_fs::contains_text(
                    command_line(e.cmdline->0@),
                    lowercase(#[trigger] names[i]),
                );
            &&& some_process(seq![e]) <==> numbered
            &&& some_comm(seq![e], names) <==> numbered && named
            &&& some_cmdline(seq![e], names) <==> numbered && spoken_of
        }),
{
    let list = seq![e];
    assert(list[0] == e);
    assert(is_process(e) <==> forall|i: int|
        0 <= i < e.name@.len() ==> '0' <= #[trigger] e.name@[i] <= '9') by {
        if is_process(e) {
            assert forall|i: int| 0 <= i < e.name@.len() implies '0' <= #[trigger] e.name@[i]
                <= '9' by {
                assert(text::is_digit(e.name@[i]));
            }
        }
    }
    assert(some_process(list) <==> is_process(e));
    assert(some_comm(list, names) <==> is_process(e) && comm_matches(e, names));
    assert(some_cmdline(list, names) <==> is_process(e) && cmdline_matches(e, names));
    if e.cmdline is Some {
        let haystack = command_line(e.cmdline->0@);
        let lower = names.map_values(|n: Seq<char>| lowercase(n));
        if names_in(haystack, lower) {
            let i = choose|i: int|
                0 <= i < lower.len() && proc_fs::contains_text(haystack, #[trigger] lower[i]);
            assert(lower[i] == lowercase(names[i]));
        }
        if exists|i: int|
            0 <= i < names.len() && proc_fs::contains_text(
                haystack,
                lowercase(#[trigger] names[i]),
            ) {
            let i = choose|i: int|
                0 <= i < names.len() && proc_fs::contains_text(
                    haystack,
                    lowercase(#[trigger] names[i]),
                );
            assert(lower[i] == lowercase(names[i]));
        }
    }
}

/// A list shows what any part of it shows, and an empty list shows nothing.
pub proof fn every_entry_counts(
    first: Seq<ProcEntry>,
    others: Seq<ProcEntry>,
    names: Seq<Seq<char>>,
)
    ensures
        some_process(first + others) <==> some_process(first) || some_process(others),
        some_comm(first + others, names) <==> some_comm(first, names) || some_comm(others, names),
        some_cmdline(first + others, names) <==> some_cmdline(first, names) || some_cmdline(
            others,
            names,
        ),
        !some_process(Seq::empty()),
        !some_comm(Seq::empty(), names),
        !some_cmdline(Seq::empty(), names),
{
    let all = first + others;
    assert forall|i: int| 0 <= i < first.len() implies #[trigger] first[i] == all[i] by {}
    assert forall|i: int| 0 <= i < others.len() implies #[trigger] others[i] == all[first.len()
        + i] by {}
    assert forall|i: int| 0 <= i < all.len() implies #[trigger] all[i] == if i < first.len() {
        first[i]
    } else {
        others[i - first.len()]
    } by {}
}

/// What is said of the game where processes may be hidden: that it runs, if a process that is to be
/// seen says so; that it does not, if some are to be seen and none says so; and nothing otherwise.
pub proof fn hidden_processes_leave_it_open(list: Seq<ProcEntry>, names: Seq<Seq<char>>)
    ensures
        visible_match(list, names) == Some(true) <==> some_comm(list, names) || some_cmdline(
            list,
            names,
        ),
        visible_match(list, names) is None <==> !some_process(list),
        visible_match(list, names) == Some(false) <==> some_process(list) && !some_comm(list, names)
            && !some_cmdline(list, names),
{
}

/// The letters from `A` to `Z` are lowered to those from `a` to `z`, each to its own, and nothing
/// else changes.
pub proof fn letters_are_lowered_in_place(c: char)
    ensures
        'A' <= c <= 'Z' ==> ascii_lower(c) as int - 'a' as int == c as int - 'A' as int,
        c < 'A' || c > 'Z' ==> ascii_lower(c) == c,
{
}

} // verus!
