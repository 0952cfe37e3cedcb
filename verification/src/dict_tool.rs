//! The dictionary tool: its catalogue, its commands, and what a run reports.
use crate::numerals;
use crate::numerals::{decimal_text, parse_u64};
use crate::order;
use crate::text;
use crate::text::{chars_of, concat2, same_text, string_of, trim_range};
use vstd::prelude::*;

verus! {

/// The dictionaries that can be downloaded: name, size in bytes, description,
/// and whether it is recommended.
pub const CATALOG: [(&'static str, u64, &'static str, bool); 5] = [
    ("SKK-JISYO.L", 4_300_000, "Large dictionary", true),
    ("SKK-JISYO.jinmei", 800_000, "Personal names", false),
    ("SKK-JISYO.geo", 400_000, "Place names", false),
    ("SKK-JISYO.station", 200_000, "Station names", false),
    ("SKK-JISYO.propernoun", 300_000, "Proper nouns", false),
];

/// Where the dictionaries are.
pub const BASE_URL: &'static str = "https://raw.githubusercontent.com/skk-dev/dict/master/";

/// A dictionary that can be downloaded.
#[derive(Debug, Clone, Copy, PartialEq)]
pub struct DictEntry {
    pub name: &'static str,
    pub size_bytes: u64,
    pub description: &'static str,
    pub recommended: bool,
}

/// What a download is asked for.
#[derive(Debug, PartialEq)]
pub struct DownloadOptions {
    pub dict_names: Vec<String>,
    pub all: bool,
    pub quiet: bool,
}

/// What a download is asked for.
#[verifier::ext_equal]
pub struct OptionsModel {
    pub dict_names: Seq<Seq<char>>,
    pub all: bool,
    pub quiet: bool,
}

impl View for DownloadOptions {
    type V = OptionsModel;

    open spec fn view(&self) -> OptionsModel {
        OptionsModel {
            dict_names: order::views(self.dict_names@),
            all: self.all,
            quiet: self.quiet,
        }
    }
}

/// A command of the tool.
#[derive(Debug, PartialEq)]
pub enum Command {
    /// Tell how the tool is used.
    Usage,
    /// List the catalogue.
    List,
    /// Download dictionaries; the arguments from the third on say which.
    Download,
    /// Tell which dictionaries are there.
    Status,
    /// No command has this name.
    Unknown(String),
}

/// How the dictionaries of a download are chosen.
#[derive(Debug, PartialEq)]
pub enum Choice {
    /// These.
    Entries(Vec<DictEntry>),
    /// Ask the user.
    Ask,
}

/// What became of one dictionary.
#[derive(Debug, Clone, Copy, PartialEq, Eq, Structural)]
pub enum Outcome {
    Downloaded,
    Skipped,
    Failed,
}

/// What became of the dictionaries of a run.
#[derive(Debug, Clone, Copy, PartialEq, Eq, Structural)]
pub struct Tally {
    pub success: u32,
    pub skipped: u32,
    pub failed: u32,
}

/// The entry at a position of the catalogue.
pub open spec fn entry_at(i: int) -> DictEntry {
    DictEntry {
        name: CATALOG@[i].0,
        size_bytes: CATALOG@[i].1,
        description: CATALOG@[i].2,
        recommended: CATALOG@[i].3,
    }
}

/// Whether the catalogue has a dictionary of this name.
pub open spec fn is_known(name: Seq<char>) -> bool {
    exists|i: int| 0 <= i < CATALOG@.len() && (#[trigger] CATALOG@[i]).0@ == name
}

/// Whether `e` is the catalogue's entry of this name.
pub open spec fn is_entry(e: DictEntry, name: Seq<char>) -> bool {
    exists|i: int| 0 <= i < CATALOG@.len() && (#[trigger] CATALOG@[i]).0@ == name && e == entry_at(i)
}

/// All entries of the catalogue.
pub open spec fn all_entries() -> Seq<DictEntry> {
    Seq::new(CATALOG@.len(), |i: int| entry_at(i))
}

/// No two dictionaries of the catalogue have the same name, all names start
/// with `SKK-JISYO.`, and exactly the first one is recommended.
pub proof fn law_catalog(i: int, j: int)
    requires
        0 <= i < j < CATALOG@.len(),
    ensures
        CATALOG@[i].0@ != CATALOG@[j].0@,
        text::starts_with(CATALOG@[i].0@, "SKK-JISYO."@),
        text::starts_with(CATALOG@[j].0@, "SKK-JISYO."@),
        CATALOG@[j].3 == false,
        CATALOG@[0].3 == true,
        CATALOG@[0].0@ == "SKK-JISYO.L"@,
{
    reveal_strlit("SKK-JISYO.");
    reveal_strlit("SKK-JISYO.L");
    reveal_strlit("SKK-JISYO.jinmei");
    reveal_strlit("SKK-JISYO.geo");
    reveal_strlit("SKK-JISYO.station");
    reveal_strlit("SKK-JISYO.propernoun");
    let a = CATALOG@[i].0@;
    let b = CATALOG@[j].0@;
    assert(a[10] != b[10] || a.len() != b.len());
}

/// An entry of the catalogue.
fn entry(i: usize) -> (r: DictEntry)
    requires
        i < CATALOG@.len(),
    ensures
        r == entry_at(i as int),
{
    let row: (&'static str, u64, &'static str, bool) = CATALOG[i];
    DictEntry { name: row.0, size_bytes: row.1, description: row.2, recommended: row.3 }
}

/// All entries of the catalogue.
pub fn catalog() -> (r: Vec<DictEntry>)
    ensures
        r@ == all_entries(),
{
    let mut out: Vec<DictEntry> = Vec::new();
    let mut i: usize = 0;
    while i < CATALOG.len()
        invariant
            i <= CATALOG@.len(),
            out@ == all_entries().take(i as int),
        decreases CATALOG@.len() - i,
    {
        out.push(entry(i));
        i += 1;
        assert(all_entries().take(i as int) =~= all_entries().take(i - 1).push(entry_at(i - 1)));
    }
    assert(all_entries().take(i as int) =~= all_entries());
    out
}

/// The command of the program's arguments, of which the first is the program.
pub fn parse_command(args: &Vec<String>) -> (r: Command)
    ensures
        args@.len() < 2 ==> r is Usage,
        args@.len() >= 2 ==> {
            let name = args@[1]@;
            if name == "list"@ {
                r is List
            } else if name == "download"@ {
                r is Download
            } else if name == "status"@ {
                r is Status
            } else if name == "help"@ || name == "--help"@ || name == "-h"@ {
                r is Usage
            } else {
                r matches Command::Unknown(s) && s@ == name
            }
        },
{
    if args.len() < 2 {
        return Command::Usage;
    }
    let name = args[1].as_str();
    if same_text(name, "list") {
        Command::List
    } else if same_text(name, "download") {
        Command::Download
    } else if same_text(name, "status") {
        Command::Status
    } else if same_text(name, "help") || same_text(name, "--help") || same_text(name, "-h") {
        Command::Usage
    } else {
        Command::Unknown(name.to_string())
    }
}

/// What the arguments from position `i` on add to the options; an error for an
/// option that is not known or lacks its name.
pub open spec fn parsed_args(args: Seq<Seq<char>>, i: int, opts: OptionsModel) -> Result<
    OptionsModel,
    Seq<char>,
>
    decreases args.len() - i,
{
    if i < 0 || i >= args.len() {
        Ok(opts)
    } else if args[i] == "--all"@ {
        parsed_args(args, i + 1, OptionsModel { all: true, ..opts })
    } else if args[i] == "--quiet"@ || args[i] == "-q"@ {
        parsed_args(args, i + 1, OptionsModel { quiet: true, ..opts })
    } else if args[i] == "--dict"@ || args[i] == "-d"@ {
        if i + 1 >= args.len() {
            Err("--dict requires a dictionary name"@)
        } else {
            parsed_args(
                args,
                i + 2,
                OptionsModel { dict_names: opts.dict_names.push(args[i + 1]), ..opts },
            )
        }
    } else {
        Err("Unknown option: "@ + args[i])
    }
}

/// Nothing is asked for.
pub open spec fn no_options() -> OptionsModel {
    OptionsModel { dict_names: Seq::empty(), all: false, quiet: false }
}

/// The options of a download.
pub fn parse_download_args(args: &[String]) -> (r: Result<DownloadOptions, String>)
    ensures
        match r {
            Ok(opts) => parsed_args(order::views(args@), 0, no_options())
                == Ok::<OptionsModel, Seq<char>>(opts@),
            Err(msg) => parsed_args(order::views(args@), 0, no_options())
                == Err::<OptionsModel, Seq<char>>(msg@),
        },
{
    let ghost views = order::views(args@);
    let mut opts = DownloadOptions { dict_names: Vec::new(), all: false, quiet: false };
    assert(opts@ =~= no_options());
    let mut i: usize = 0;
    while i < args.len()
        invariant
            i <= args@.len(),
            views == order::views(args@),
            parsed_args(views, 0, no_options()) == parsed_args(views, i as int, opts@),
        decreases args@.len() - i,
    {
        let arg = args[i].as_str();
        assert(views[i as int] == arg@);
        if same_text(arg, "--all") {
            opts.all = true;
        } else if same_text(arg, "--quiet") || same_text(arg, "-q") {
            opts.quiet = true;
        } else if same_text(arg, "--dict") || same_text(arg, "-d") {
            if args.len() - i == 1 {
                return Err("--dict requires a dictionary name".to_string());
            }
            i += 1;
            let ghost before = opts@;
            assert(views[i as int] == args@[i as int]@);
            opts.dict_names.push(args[i].clone());
            assert(opts@ =~= OptionsModel {
                dict_names: before.dict_names.push(views[i as int]),
                ..before
            });
        } else {
            return Err(concat2("Unknown option: ", arg));
        }
        i += 1;
    }
    Ok(opts)
}

/// The catalogue's entry of this name.
pub fn find_dict(name: &str) -> (r: Option<DictEntry>)
    ensures
        match r {
            Some(e) => is_entry(e, name@),
            None => !is_known(name@),
        },
{
    let mut i: usize = 0;
    while i < CATALOG.len()
        invariant
            i <= CATALOG@.len(),
            forall|k: int| 0 <= k < i ==> (#[trigger] CATALOG@[k]).0@ != name@,
        decreases CATALOG@.len() - i,
    {
        let e = entry(i);
        if same_text(e.name, name) {
            assert(CATALOG@[i as int].0@ == name@);
            return Some(e);
        }
        i += 1;
    }
    None
}

/// The catalogue's entries of these names, in order; an error that names the
/// first one that the catalogue does not have.
pub fn resolve_dict_names(names: &[String]) -> (r: Result<Vec<DictEntry>, String>)
    ensures
        match r {
            Ok(es) => es@.len() == names@.len() && forall|i: int|
                0 <= i < names@.len() ==> is_entry(#[trigger] es@[i], names@[i]@),
            Err(msg) => exists|i: int|
                {
                    &&& 0 <= i < names@.len()
                    &&& !is_known((#[trigger] names@[i])@)
                    &&& forall|k: int| 0 <= k < i ==> is_known((#[trigger] names@[k])@)
                    &&& msg@ == "Unknown dictionary: "@ + names@[i]@
                },
        },
{
    let mut entries: Vec<DictEntry> = Vec::new();
    let mut i: usize = 0;
    while i < names.len()
        invariant
            i <= names@.len(),
            entries@.len() == i,
            forall|k: int| 0 <= k < i ==> is_entry(#[trigger] entries@[k], names@[k]@),
            forall|k: int| 0 <= k < i ==> is_known((#[trigger] names@[k])@),
        decreases names@.len() - i,
    {
        match find_dict(names[i].as_str()) {
            Some(e) => {
                entries.push(e);
            },
            None => {
                let msg = concat2("Unknown dictionary: ", names[i].as_str());
                assert(!is_known(names@[i as int]@));
                return Err(msg);
            },
        }
        i += 1;
    }
    Ok(entries)
}

/// The position of the first white space, or the length where there is none.
pub open spec fn word_end(s: Seq<char>) -> int
    decreases s.len(),
{
    if s.len() == 0 || text::is_white_space(s[0]) {
        0
    } else {
        1 + word_end(s.drop_first())
    }
}

/// The pieces of text between white space, none of them empty.
pub open spec fn words(s: Seq<char>) -> Seq<Seq<char>>
    decreases s.len(),
    via words_decreases
{
    if s.len() == 0 {
        Seq::empty()
    } else if text::is_white_space(s[0]) {
        words(s.drop_first())
    } else {
        seq![s.take(word_end(s))] + words(s.skip(word_end(s)))
    }
}

#[via_fn]
proof fn words_decreases(s: Seq<char>) {
    lemma_word_end(s);
}

proof fn lemma_word_end(s: Seq<char>)
    ensures
        0 <= word_end(s) <= s.len(),
        s.len() > 0 && !text::is_white_space(s[0]) ==> word_end(s) > 0,
    decreases s.len(),
{
    if s.len() > 0 && !text::is_white_space(s[0]) {
        lemma_word_end(s.drop_first());
    }
}

proof fn lemma_word_end_is(s: Seq<char>, k: int)
    requires
        0 <= k <= s.len(),
        forall|i: int| 0 <= i < k ==> !text::is_white_space(#[trigger] s[i]),
        k == s.len() || text::is_white_space(s[k]),
    ensures
        word_end(s) == k,
    decreases s.len(),
{
    if k > 0 {
        assert(!text::is_white_space(s[0]));
        let t = s.drop_first();
        assert forall|i: int| 0 <= i < k - 1 implies !text::is_white_space(#[trigger] t[i]) by {
            assert(t[i] == s[i + 1]);
        }
        lemma_word_end_is(t, k - 1);
    }
}

/// The entries that numbers choose, counted from one; an error for a word that
/// is no number, or a number that the catalogue does not have.
pub open spec fn picked(tokens: Seq<Seq<char>>) -> Result<Seq<DictEntry>, Seq<char>>
    decreases tokens.len(),
{
    if tokens.len() == 0 {
        Ok(Seq::empty())
    } else {
        match picked(tokens.drop_last()) {
            Ok(before) => match numerals::number_up_to(tokens.last(), usize::MAX as nat) {
                Some(n) => if 1 <= n <= CATALOG@.len() {
                    Ok(before.push(entry_at(n - 1)))
                } else {
                    Err("Number out of range: "@ + numerals::decimal(n))
                },
                None => Err("Invalid number: "@ + tokens.last()),
            },
            Err(msg) => Err(msg),
        }
    }
}

/// The entries that an answer chooses: none for an empty one, all for `all`,
/// those of the numbers otherwise.
pub open spec fn selection(input: Seq<char>) -> Result<Seq<DictEntry>, Seq<char>> {
    let s = text::trim(input);
    if s.len() == 0 {
        Ok(Seq::empty())
    } else if s == "all"@ {
        Ok(all_entries())
    } else {
        picked(words(s))
    }
}

proof fn lemma_picked_err(tokens: Seq<Seq<char>>, n: int)
    requires
        0 <= n <= tokens.len(),
        picked(tokens.take(n)) is Err,
    ensures
        picked(tokens) == picked(tokens.take(n)),
    decreases tokens.len() - n,
{
    if n < tokens.len() {
        assert(tokens.take(n + 1).drop_last() =~= tokens.take(n));
        lemma_picked_err(tokens, n + 1);
    } else {
        assert(tokens.take(n) =~= tokens);
    }
}

/// The entry that a number chooses.
fn pick(token: &str) -> (r: Result<DictEntry, String>)
    ensures
        match r {
            Ok(e) => numerals::number_up_to(token@, usize::MAX as nat) matches Some(n) && 1 <= n
                <= CATALOG@.len() && e == entry_at(n - 1),
            Err(msg) => match numerals::number_up_to(token@, usize::MAX as nat) {
                Some(n) => !(1 <= n <= CATALOG@.len()) && msg@ == "Number out of range: "@
                    + numerals::decimal(n),
                None => msg@ == "Invalid number: "@ + token@,
            },
        },
{
    match parse_u64(token) {
        Some(n) => {
            if n > usize::MAX as u64 {
                return Err(concat2("Invalid number: ", token));
            }
            if n < 1 || n > CATALOG.len() as u64 {
                return Err(concat2("Number out of range: ", decimal_text(n).as_str()));
            }
            Ok(entry((n - 1) as usize))
        },
        None => Err(concat2("Invalid number: ", token)),
    }
}

/// The entries that an answer chooses.
pub fn parse_selection(input: &str) -> (r: Result<Vec<DictEntry>, String>)
    ensures
        match r {
            Ok(es) => selection(input@) == Ok::<Seq<DictEntry>, Seq<char>>(es@),
            Err(msg) => selection(input@) == Err::<Seq<DictEntry>, Seq<char>>(msg@),
        },
{
    let chars = chars_of(input);
    assert(chars@.subrange(0, chars@.len() as int) =~= chars@);
    let (from, to) = trim_range(&chars, 0, chars.len());
    let mut selected: Vec<DictEntry> = Vec::new();
    if from == to {
        assert(selected@ =~= Seq::empty());
        return Ok(selected);
    }
    let ghost s = text::trim(input@);
    if same_text(string_of(&chars, from, to).as_str(), "all") {
        return Ok(catalog());
    }
    let ghost all = words(s);
    let ghost mut done: Seq<Seq<char>> = Seq::empty();
    let mut a: usize = from;
    assert(done + words(s) =~= all);
    assert(picked(done) == Ok::<Seq<DictEntry>, Seq<char>>(selected@)) by {
        assert(selected@ =~= Seq::empty());
    }
    while a < to
        invariant
            from <= a <= to <= chars@.len(),
            all == done + words(chars@.subrange(a as int, to as int)),
            all == words(s),
            picked(done) == Ok::<Seq<DictEntry>, Seq<char>>(selected@),
            s == text::trim(input@),
            s.len() > 0,
            s != "all"@,
        decreases to - a,
    {
        let ghost rest = chars@.subrange(a as int, to as int);
        if chars[a].is_whitespace() {
            assert(rest.drop_first() =~= chars@.subrange(a + 1, to as int));
            a += 1;
        } else {
            let mut b: usize = a;
            while b < to && !chars[b].is_whitespace()
                invariant
                    a <= b <= to <= chars@.len(),
                    rest == chars@.subrange(a as int, to as int),
                    forall|k: int| 0 <= k < b - a ==> !text::is_white_space(#[trigger] rest[k]),
                decreases to - b,
            {
                b += 1;
            }
            proof {
                lemma_word_end_is(rest, b - a);
                assert(a < b) by {
                    assert(rest[0] == chars@[a as int]);
                }
                assert(rest.take(b - a) =~= chars@.subrange(a as int, b as int));
                assert(rest.skip(b - a) =~= chars@.subrange(b as int, to as int));
            }
            let token = string_of(&chars, a, b);
            let ghost now = done.push(token@);
            proof {
                assert(all =~= now + words(chars@.subrange(b as int, to as int)));
                assert(now.drop_last() =~= done);
                assert(all.take(now.len() as int) =~= now);
            }
            match pick(token.as_str()) {
                Ok(e) => {
                    selected.push(e);
                },
                Err(msg) => {
                    proof {
                        lemma_picked_err(all, now.len() as int);
                    }
                    return Err(msg);
                },
            }
            proof {
                done = now;
            }
            a = b;
        }
    }
    assert(chars@.subrange(a as int, to as int) =~= Seq::empty());
    assert(done =~= all);
    Ok(selected)
}

/// The dictionaries that the options ask for: all, those that are named, or
/// those that the user chooses.
pub fn choose_entries(opts: &DownloadOptions) -> (r: Result<Choice, String>)
    ensures
        opts.all ==> (r matches Ok(Choice::Entries(es)) && es@ == all_entries()),
        !opts.all && opts.dict_names@.len() == 0 ==> (r matches Ok(c) && c is Ask),
        !opts.all && opts.dict_names@.len() > 0 ==> match r {
            Ok(Choice::Entries(es)) => es@.len() == opts.dict_names@.len() && forall|i: int|
                0 <= i < es@.len() ==> is_entry(#[trigger] es@[i], opts.dict_names@[i]@),
            Ok(Choice::Ask) => false,
            Err(msg) => exists|i: int|
                {
                    &&& 0 <= i < opts.dict_names@.len()
                    &&& !is_known((#[trigger] opts.dict_names@[i])@)
                    &&& forall|k: int| 0 <= k < i ==> is_known((#[trigger] opts.dict_names@[k])@)
                    &&& msg@ == "Unknown dictionary: "@ + opts.dict_names@[i]@
                },
        },
{
    if opts.all {
        Ok(Choice::Entries(catalog()))
    } else if opts.dict_names.len() == 0 {
        Ok(Choice::Ask)
    } else {
        match resolve_dict_names(opts.dict_names.as_slice()) {
            Ok(es) => Ok(Choice::Entries(es)),
            Err(msg) => Err(msg),
        }
    }
}

/// Where a dictionary is downloaded from.
pub fn dict_url(entry: &DictEntry) -> (r: String)
    ensures
        r@ == BASE_URL@ + entry.name@,
{
    concat2(BASE_URL, entry.name)
}

/// The name of a dictionary's file while it is being downloaded.
pub fn part_name(entry: &DictEntry) -> (r: String)
    ensures
        r@ == entry.name@ + ".part"@,
{
    concat2(entry.name, ".part")
}

/// The length that a server announces, where it is a number.
pub fn content_length(header: &str) -> (r: Option<u64>)
    ensures
        match r {
            Some(n) => numerals::number_up_to(header@, u64::MAX as nat) == Some(n as nat),
            None => numerals::number_up_to(header@, u64::MAX as nat) is None,
        },
{
    parse_u64(header)
}

/// How many outcomes are `kind`.
pub open spec fn count(outcomes: Seq<Outcome>, kind: Outcome) -> nat
    decreases outcomes.len(),
{
    if outcomes.len() == 0 {
        0
    } else {
        count(outcomes.drop_last(), kind) + if outcomes.last() == kind {
            1nat
        } else {
            0
        }
    }
}

/// What became of the dictionaries of a run.
pub fn tally(outcomes: &Vec<Outcome>) -> (r: Tally)
    requires
        outcomes@.len() <= u32::MAX,
    ensures
        r.success == count(outcomes@, Outcome::Downloaded),
        r.skipped == count(outcomes@, Outcome::Skipped),
        r.failed == count(outcomes@, Outcome::Failed),
        r.success + r.skipped + r.failed == outcomes@.len(),
{
    let mut t = Tally { success: 0, skipped: 0, failed: 0 };
    let mut i: usize = 0;
    assert(outcomes@.take(0) =~= Seq::empty());
    while i < outcomes.len()
        invariant
            i <= outcomes@.len() <= u32::MAX,
            t.success == count(outcomes@.take(i as int), Outcome::Downloaded),
            t.skipped == count(outcomes@.take(i as int), Outcome::Skipped),
            t.failed == count(outcomes@.take(i as int), Outcome::Failed),
            t.success + t.skipped + t.failed == i,
        decreases outcomes@.len() - i,
    {
        assert(outcomes@.take(i + 1).drop_last() =~= outcomes@.take(i as int));
        match outcomes[i] {
            Outcome::Downloaded => {
                t.success = t.success + 1;
            },
            Outcome::Skipped => {
                t.skipped = t.skipped + 1;
            },
            Outcome::Failed => {
                t.failed = t.failed + 1;
            },
        }
        i += 1;
    }
    assert(outcomes@.take(i as int) =~= outcomes@);
    t
}

/// The last line of a run.
pub fn summary(t: &Tally) -> (r: String)
    ensures
        r@ == "Done: "@ + numerals::decimal(t.success as nat) + " downloaded, "@
            + numerals::decimal(t.skipped as nat) + " skipped, "@ + numerals::decimal(
            t.failed as nat,
        ) + " failed"@,
{
    let mut out = concat2("Done: ", decimal_text(t.success as u64).as_str());
    out.append(" downloaded, ");
    out.append(decimal_text(t.skipped as u64).as_str());
    out.append(" skipped, ");
    out.append(decimal_text(t.failed as u64).as_str());
    out.append(" failed");
    out
}

/// The exit code of a run: one if a download failed.
pub fn exit_code(t: &Tally) -> (r: i32)
    ensures
        r == if t.failed > 0 {
            1i32
        } else {
            0i32
        },
{
    if t.failed > 0 {
        1
    } else {
        0
    }
}

/// The folder of the dictionaries by its parts, below the folder that the
/// environment names; an error where it names none.
pub fn dict_dir_parts(windows: bool, base: Option<&str>) -> (r: Result<Vec<String>, String>)
    ensures
        match base {
            Some(b) => r matches Ok(parts) && order::views(parts@) == if windows {
                seq![b@, "Koyubi"@, "dict"@]
            } else {
                seq![b@, ".config"@, "koyubi"@, "dict"@]
            },
            None => r matches Err(msg) && msg@ == if windows {
                "APPDATA environment variable not set"@
            } else {
                "HOME environment variable not set"@
            },
        },
{
    match base {
        Some(b) => {
            let mut parts: Vec<String> = Vec::new();
            parts.push(b.to_string());
            if windows {
                parts.push("Koyubi".to_string());
                parts.push("dict".to_string());
                assert(order::views(parts@) =~= seq![b@, "Koyubi"@, "dict"@]);
            } else {
                parts.push(".config".to_string());
                parts.push("koyubi".to_string());
                parts.push("dict".to_string());
                assert(order::views(parts@) =~= seq![b@, ".config"@, "koyubi"@, "dict"@]);
            }
            Ok(parts)
        },
        None => if windows {
            Err("APPDATA environment variable not set".to_string())
        } else {
            Err("HOME environment variable not set".to_string())
        },
    }
}

proof fn lemma_args_shift(
    first: Seq<Seq<char>>,
    rest: Seq<Seq<char>>,
    i: int,
    opts: OptionsModel,
)
    requires
        0 <= i,
    ensures
        parsed_args(first + rest, first.len() + i, opts) == parsed_args(rest, i, opts),
    decreases rest.len() - i,
{
    let all = first + rest;
    if i < rest.len() {
        assert(all[first.len() + i] == rest[i]);
        lemma_args_shift(first, rest, i + 1, OptionsModel { all: true, ..opts });
        lemma_args_shift(first, rest, i + 1, OptionsModel { quiet: true, ..opts });
        if i + 1 < rest.len() {
            assert(all[first.len() + i + 1] == rest[i + 1]);
            lemma_args_shift(
                first,
                rest,
                i + 2,
                OptionsModel { dict_names: opts.dict_names.push(rest[i + 1]), ..opts },
            );
        }
    }
}

/// The options of a download are read one after the other: `--all` and `--quiet`
/// or `-q` are set, `--dict` or `-d` adds the name behind it to those before, and
/// the rest is read as if it came alone. An option that lacks its name and one
/// that is not known are errors.
pub proof fn law_download_options(
    rest: Seq<Seq<char>>,
    opts: OptionsModel,
    name: Seq<char>,
    other: Seq<char>,
)
    requires
        other != "--all"@ && other != "--quiet"@ && other != "-q"@,
        other != "--dict"@ && other != "-d"@,
    ensures
        parsed_args(Seq::empty(), 0, opts) == Ok::<OptionsModel, Seq<char>>(opts),
        parsed_args(seq!["--all"@] + rest, 0, opts) == parsed_args(
            rest,
            0,
            OptionsModel { all: true, ..opts },
        ),
        parsed_args(seq!["--quiet"@] + rest, 0, opts) == parsed_args(
            rest,
            0,
            OptionsModel { quiet: true, ..opts },
        ),
        parsed_args(seq!["-q"@] + rest, 0, opts) == parsed_args(
            rest,
            0,
            OptionsModel { quiet: true, ..opts },
        ),
        parsed_args(seq!["--dict"@, name] + rest, 0, opts) == parsed_args(
            rest,
            0,
            OptionsModel { dict_names: opts.dict_names.push(name), ..opts },
        ),
        parsed_args(seq!["-d"@, name] + rest, 0, opts) == parsed_args(
            rest,
            0,
            OptionsModel { dict_names: opts.dict_names.push(name), ..opts },
        ),
        parsed_args(seq!["--dict"@], 0, opts) == Err::<OptionsModel, Seq<char>>(
            "--dict requires a dictionary name"@,
        ),
        parsed_args(seq!["-d"@], 0, opts) == Err::<OptionsModel, Seq<char>>(
            "--dict requires a dictionary name"@,
        ),
        parsed_args(seq![other] + rest, 0, opts) == Err::<OptionsModel, Seq<char>>(
            "Unknown option: "@ + other,
        ),
{
    reveal_strlit("--all");
    reveal_strlit("--quiet");
    reveal_strlit("-q");
    reveal_strlit("--dict");
    reveal_strlit("-d");
    assert("--all"@.len() == 5 && "--quiet"@.len() == 7 && "--dict"@.len() == 6);
    assert("-q"@.len() == 2 && "-q"@[1] == 'q' && "-d"@.len() == 2 && "-d"@[1] == 'd');
    let all = OptionsModel { all: true, ..opts };
    let quiet = OptionsModel { quiet: true, ..opts };
    let named = OptionsModel { dict_names: opts.dict_names.push(name), ..opts };
    lemma_args_shift(seq!["--all"@], rest, 0, all);
    lemma_args_shift(seq!["--quiet"@], rest, 0, quiet);
    lemma_args_shift(seq!["-q"@], rest, 0, quiet);
    lemma_args_shift(seq!["--dict"@, name], rest, 0, named);
    lemma_args_shift(seq!["-d"@, name], rest, 0, named);
}

proof fn lemma_words_plain(s: Seq<char>)
    requires
        s.len() > 0,
        forall|i: int| 0 <= i < s.len() ==> !text::is_white_space(#[trigger] s[i]),
    ensures
        words(s) == seq![s],
{
    lemma_word_end_is(s, s.len() as int);
    assert(s.take(s.len() as int) =~= s);
    assert(s.skip(s.len() as int) =~= Seq::empty());
    assert(words(Seq::empty()) =~= Seq::empty());
    assert(words(s) =~= seq![s]);
}

/// The pieces of two texts with white space between them are those of the first
/// and then those of the second. Text without white space is one piece, and no
/// text is none.
pub proof fn law_words(a: Seq<char>, c: char, b: Seq<char>)
    requires
        text::is_white_space(c),
    ensures
        words(a + seq![c] + b) == words(a) + words(b),
        words(Seq::empty()).len() == 0,
        a.len() > 0 && (forall|i: int|
            0 <= i < a.len() ==> !text::is_white_space(#[trigger] a[i])) ==> words(a) == seq![a],
    decreases a.len(),
{
    let all = a + seq![c] + b;
    if a.len() > 0 && (forall|i: int|
        0 <= i < a.len() ==> !text::is_white_space(#[trigger] a[i])) {
        lemma_words_plain(a);
    }
    if a.len() == 0 {
        assert(all.drop_first() =~= b);
        assert(all[0] == c);
        assert(words(a) + words(b) =~= words(b));
    } else if text::is_white_space(a[0]) {
        law_words(a.drop_first(), c, b);
        assert(all.drop_first() =~= a.drop_first() + seq![c] + b);
        assert(all[0] == a[0]);
    } else {
        let k = word_end(a);
        lemma_word_end(a);
        lemma_word_end_first(a);
        assert forall|i: int| 0 <= i < k implies !text::is_white_space(#[trigger] all[i]) by {
            assert(all[i] == a[i]);
        }
        assert(all[k] == if k < a.len() {
            a[k]
        } else {
            c
        });
        lemma_word_end_is(all, k);
        assert(all.take(k) =~= a.take(k));
        assert(all.skip(k) =~= a.skip(k) + seq![c] + b);
        law_words(a.skip(k), c, b);
        assert(all[0] == a[0]);
        assert(words(all) =~= words(a) + words(b));
    }
}

proof fn lemma_word_end_first(s: Seq<char>)
    ensures
        forall|i: int| 0 <= i < word_end(s) ==> !text::is_white_space(#[trigger] s[i]),
        word_end(s) < s.len() ==> text::is_white_space(s[word_end(s)]),
    decreases s.len(),
{
    if s.len() > 0 && !text::is_white_space(s[0]) {
        let t = s.drop_first();
        lemma_word_end(t);
        lemma_word_end_first(t);
        assert forall|i: int| 0 <= i < word_end(s) implies !text::is_white_space(
            #[trigger] s[i],
        ) by {
            if i > 0 {
                assert(s[i] == t[i - 1]);
            }
        }
        if word_end(s) < s.len() {
            assert(s[word_end(s)] == t[word_end(t)]);
        }
    }
}

/// Whether a word is the number of a dictionary of the catalogue.
pub open spec fn is_choice(token: Seq<char>) -> bool {
    numerals::number_up_to(token, usize::MAX as nat) matches Some(n) && 1 <= n <= 5
}

/// Numbers choose the dictionaries that they count in the catalogue, in the order
/// in which they come. The first word that is no such number is the error: it is
/// out of range where it is a number, and invalid otherwise.
pub proof fn law_numbers_choose(tokens: Seq<Seq<char>>)
    ensures
        match picked(tokens) {
            Ok(es) => {
                &&& es.len() == tokens.len()
                &&& forall|i: int|
                    0 <= i < tokens.len() ==> is_choice(#[trigger] tokens[i]) && es[i] == entry_at(
                        numerals::number_up_to(tokens[i], usize::MAX as nat)->0 - 1,
                    )
            },
            Err(msg) => exists|i: int|
                {
                    &&& 0 <= i < tokens.len()
                    &&& !is_choice(#[trigger] tokens[i])
                    &&& forall|k: int| 0 <= k < i ==> is_choice(#[trigger] tokens[k])
                    &&& msg == match numerals::number_up_to(tokens[i], usize::MAX as nat) {
                        Some(n) => "Number out of range: "@ + numerals::decimal(n),
                        None => "Invalid number: "@ + tokens[i],
                    }
                },
        },
    decreases tokens.len(),
{
    if tokens.len() > 0 {
        let rest = tokens.drop_last();
        law_numbers_choose(rest);
        assert forall|k: int| 0 <= k < rest.len() implies rest[k] == #[trigger] tokens[k] by {}
        assert(tokens[tokens.len() - 1] == tokens.last());
        match picked(rest) {
            Ok(es) => {
                assert forall|k: int| 0 <= k < rest.len() implies is_choice(
                    #[trigger] tokens[k],
                ) by {
                    assert(is_choice(rest[k]));
                }
                if picked(tokens) is Ok {
                    let all = picked(tokens)->Ok_0;
                    assert forall|i: int| 0 <= i < tokens.len() implies is_choice(
                        #[trigger] tokens[i],
                    ) && all[i] == entry_at(
                        numerals::number_up_to(tokens[i], usize::MAX as nat)->0 - 1,
                    ) by {
                        if i < rest.len() {
                            assert(rest[i] == tokens[i]);
                            assert(is_choice(rest[i]));
                            assert(all[i] == es[i]);
                        }
                    }
                } else {
                    let i = tokens.len() - 1;
                    assert(!is_choice(tokens[i]));
                }
            },
            Err(msg) => {
                let i = choose|i: int|
                    {
                        &&& 0 <= i < rest.len()
                        &&& !is_choice(#[trigger] rest[i])
                        &&& forall|k: int| 0 <= k < i ==> is_choice(#[trigger] rest[k])
                        &&& msg == match numerals::number_up_to(rest[i], usize::MAX as nat) {
                            Some(n) => "Number out of range: "@ + numerals::decimal(n),
                            None => "Invalid number: "@ + rest[i],
                        }
                    };
                assert(!is_choice(tokens[i]));
                assert forall|k: int| 0 <= k < i implies is_choice(#[trigger] tokens[k]) by {
                    assert(is_choice(rest[k]));
                }
            },
        }
    }
}

/// White space around an answer does not matter. An empty one chooses nothing,
/// `all` the whole catalogue in its order, and any other the dictionaries of its
/// numbers.
pub proof fn law_answers(s: Seq<char>)
    ensures
        ({
            let t = text::trim(s);
            &&& t.len() == 0 ==> (selection(s) matches Ok(es) && es.len() == 0)
            &&& t == "all"@ ==> (selection(s) matches Ok(es) && es.len() == 5 && forall|i: int|
                0 <= i < 5 ==> #[trigger] es[i] == entry_at(i))
            &&& t.len() > 0 && t != "all"@ ==> selection(s) == picked(words(t))
        }),
{
    reveal_strlit("all");
    assert("all"@.len() == 3);
}

/// An entry of the catalogue is its row.
pub proof fn law_entry(i: int)
    requires
        0 <= i < 5,
    ensures
        entry_at(i).name == CATALOG@[i].0,
        entry_at(i).size_bytes == CATALOG@[i].1,
        entry_at(i).description == CATALOG@[i].2,
        entry_at(i).recommended == CATALOG@[i].3,
        is_known(CATALOG@[i].0@),
        is_entry(entry_at(i), CATALOG@[i].0@),
{
    assert(CATALOG@[i].0@ == CATALOG@[i].0@);
}

/// One more outcome counts once for its own kind and for no other.
pub proof fn law_count(outcomes: Seq<Outcome>, last: Outcome, kind: Outcome)
    ensures
        count(Seq::empty(), kind) == 0,
        count(outcomes.push(last), kind) == count(outcomes, kind) + if last == kind {
            1int
        } else {
            0
        },
{
    assert(outcomes.push(last).drop_last() =~= outcomes);
}

/// The catalogue knows exactly its five names, and the entry of a name has that
/// name.
pub proof fn law_known(name: Seq<char>, e: DictEntry)
    ensures
        is_known(name) <==> name == "SKK-JISYO.L"@ || name == "SKK-JISYO.jinmei"@ || name
            == "SKK-JISYO.geo"@ || name == "SKK-JISYO.station"@ || name == "SKK-JISYO.propernoun"@,
        is_known(name) <==> exists|e: DictEntry| is_entry(e, name),
        is_entry(e, name) ==> e.name@ == name,
{
    assert(CATALOG@[0].0@ == "SKK-JISYO.L"@);
    assert(CATALOG@[1].0@ == "SKK-JISYO.jinmei"@);
    assert(CATALOG@[2].0@ == "SKK-JISYO.geo"@);
    assert(CATALOG@[3].0@ == "SKK-JISYO.station"@);
    assert(CATALOG@[4].0@ == "SKK-JISYO.propernoun"@);
    if is_known(name) {
        let i = choose|i: int| 0 <= i < CATALOG@.len() && (#[trigger] CATALOG@[i]).0@ == name;
        assert(is_entry(entry_at(i), name));
    }
}

} // verus!
