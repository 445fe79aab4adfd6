//! How a project is loaded: what may be asked of the preprocessor, and the command line made of
//! it.

use crate::error::{ToolError, ToolErrorView};
use crate::text::{
    ascii_alnum, begins, cat2, chars_of, is_ascii_alnum, join, join_spec, opt_string, owned,
    starts_with, texts,
};
use vstd::prelude::*;
use vstd::string::*;

verus! {

/// How a project is loaded.
#[derive(Clone, Debug, PartialEq, Eq)]
pub struct ProjectLoadOptions {
    pub include_paths: Vec<String>,
    pub isystem_paths: Vec<String>,
    pub nostdinc: bool,
    pub defines: Vec<String>,
    pub force_includes: Vec<String>,
    pub machdep: Option<String>,
    pub compilation_database: Option<String>,
}

/// How a project is loaded, as a mathematical object.
pub struct OptionsView {
    pub include_paths: Seq<Seq<char>>,
    pub isystem_paths: Seq<Seq<char>>,
    pub nostdinc: bool,
    pub defines: Seq<Seq<char>>,
    pub force_includes: Seq<Seq<char>>,
    pub machdep: Option<Seq<char>>,
    pub compilation_database: Option<Seq<char>>,
}

impl View for ProjectLoadOptions {
    type V = OptionsView;

    open spec fn view(&self) -> OptionsView {
        OptionsView {
            include_paths: texts(self.include_paths@),
            isystem_paths: texts(self.isystem_paths@),
            nostdinc: self.nostdinc,
            defines: texts(self.defines@),
            force_includes: texts(self.force_includes@),
            machdep: opt_string(self.machdep),
            compilation_database: opt_string(self.compilation_database),
        }
    }
}

impl Default for ProjectLoadOptions {
    fn default() -> (r: ProjectLoadOptions)
        ensures
            r@ == (OptionsView {
                include_paths: Seq::empty(),
                isystem_paths: Seq::empty(),
                nostdinc: false,
                defines: Seq::empty(),
                force_includes: Seq::empty(),
                machdep: None,
                compilation_database: None,
            }),
    {
        let r = ProjectLoadOptions {
            include_paths: Vec::new(),
            isystem_paths: Vec::new(),
            nostdinc: false,
            defines: Vec::new(),
            force_includes: Vec::new(),
            machdep: None,
            compilation_database: None,
        };
        assert(texts(r.include_paths@) =~= Seq::empty());
        assert(texts(r.isystem_paths@) =~= Seq::empty());
        assert(texts(r.defines@) =~= Seq::empty());
        assert(texts(r.force_includes@) =~= Seq::empty());
        r
    }
}

// ---------------------------------------------------------------------------
// What may be asked of the preprocessor
// ---------------------------------------------------------------------------

/// The characters a preprocessor entry may contain: those of identifiers, of paths, and `=`. The
/// entries are handed to a shell, and this is a list of what is allowed rather than of what is
/// not because only such a list is complete.
pub open spec fn cpp_char(c: char) -> bool {
    is_ascii_alnum(c) || c == '_' || c == '=' || c == '.' || c == '/' || c == '+' || c == '-'
}

/// The characters a preprocessor entry may contain.
pub fn is_cpp_arg_char(c: char) -> (r: bool)
    ensures
        r == cpp_char(c),
{
    ascii_alnum(c) || c == '_' || c == '=' || c == '.' || c == '/' || c == '+' || c == '-'
}

/// Whether a text holds allowed characters alone.
pub open spec fn all_cpp_chars(s: Seq<char>) -> bool {
    forall|i: int| 0 <= i < s.len() ==> cpp_char(#[trigger] s[i])
}

/// Whether a preprocessor entry can be used: not empty, not a flag, and of allowed characters.
pub open spec fn usable(entry: Seq<char>) -> bool {
    entry.len() > 0 && !begins(entry, "-"@) && all_cpp_chars(entry)
}

/// Whether every preprocessor entry can be used.
pub open spec fn all_usable(entries: Seq<Seq<char>>) -> bool {
    forall|i: int| 0 <= i < entries.len() ==> usable(#[trigger] entries[i])
}

fn entry_usable(entry: &str) -> (r: bool)
    ensures
        r == usable(entry@),
{
    if entry.is_empty() || starts_with(entry, "-") {
        return false;
    }
    let cs = chars_of(entry);
    let mut i: usize = 0;
    while i < cs.len()
        invariant
            cs@ == entry@,
            i <= cs@.len(),
            forall|k: int| 0 <= k < i ==> cpp_char(#[trigger] entry@[k]),
        decreases cs@.len() - i,
    {
        if !is_cpp_arg_char(cs[i]) {
            assert(!cpp_char(entry@[i as int]));
            return false;
        }
        i = i + 1;
    }
    true
}

/// Rejects a preprocessor entry that is empty, is a flag rather than its value, or holds a
/// character that could steer the shell it is handed to. The complaint names the field.
pub fn validate_cpp_entries(entries: &Vec<String>, complaint: &'static str) -> (r: Result<
    (),
    ToolError,
>)
    ensures
        match r {
            Ok(_) => all_usable(texts(entries@)),
            Err(e) => !all_usable(texts(entries@)) && e@ == ToolErrorView::invalid(complaint@),
        },
{
    let ghost all = texts(entries@);
    let mut i: usize = 0;
    while i < entries.len()
        invariant
            i <= entries@.len(),
            all == texts(entries@),
            forall|k: int| 0 <= k < i ==> usable(#[trigger] all[k]),
        decreases entries@.len() - i,
    {
        assert(all[i as int] == entries@[i as int]@);
        if !entry_usable(entries[i].as_str()) {
            return Err(ToolError::invalid(owned(complaint)));
        }
        i = i + 1;
    }
    Ok(())
}

/// What is said of an entry that is no directory.
pub const INCLUDE_COMPLAINT: &'static str =
    "include_paths entries must be non-empty directories of [A-Za-z0-9_./+-] without a leading dash (write \"include\", not \"-Iinclude\")";

/// What is said of an entry that is no system directory.
pub const ISYSTEM_COMPLAINT: &'static str =
    "isystem_paths entries must be non-empty directories of [A-Za-z0-9_./+-] without a leading dash (write \"libc\", not \"-isystem libc\")";

/// What is said of an entry that is no definition.
pub const DEFINE_COMPLAINT: &'static str =
    "defines entries must be non-empty NAME or NAME=VALUE of [A-Za-z0-9_=./+-] without a leading dash (write \"_Atomic=\", not \"-D_Atomic=\")";

/// What is said of an entry that is no header.
pub const FORCE_COMPLAINT: &'static str =
    "force_includes entries must be non-empty header names of [A-Za-z0-9_./+-] without a leading dash (write \"builtins.h\", not \"-include builtins.h\")";

/// What is said of a machine description that is none.
pub const MACHDEP_COMPLAINT: &'static str =
    "machdep must be a non-empty predefined name or YAML machdep file path without a leading dash (write \"gcc_x86_64\" or \"machdeps/custom\", not \"-machdep gcc_x86_64\")";

/// What is said of a compilation database that is none.
pub const DATABASE_COMPLAINT: &'static str =
    "compilation_database must be a non-empty path without a leading dash (write \"build/compile_commands.json\", not \"-json-compilation-database build\")";

/// Whether an optional argument can stand on a command line: it is not empty and no flag.
pub open spec fn plain_argument(o: Option<Seq<char>>) -> bool {
    match o {
        Some(s) => s.len() > 0 && !begins(s, "-"@),
        None => true,
    }
}

/// What options are refused with, if they are: the first complaint that holds.
pub open spec fn options_complaint(o: OptionsView) -> Option<Seq<char>> {
    if !all_usable(o.include_paths) {
        Some(INCLUDE_COMPLAINT@)
    } else if !all_usable(o.isystem_paths) {
        Some(ISYSTEM_COMPLAINT@)
    } else if !all_usable(o.defines) {
        Some(DEFINE_COMPLAINT@)
    } else if !all_usable(o.force_includes) {
        Some(FORCE_COMPLAINT@)
    } else if !plain_argument(o.machdep) {
        Some(MACHDEP_COMPLAINT@)
    } else if !plain_argument(o.compilation_database) {
        Some(DATABASE_COMPLAINT@)
    } else {
        None
    }
}

fn argument_is_plain(o: &Option<String>) -> (r: bool)
    ensures
        r == plain_argument(opt_string(*o)),
{
    match o {
        Some(s) => !s.as_str().is_empty() && !starts_with(s.as_str(), "-"),
        None => true,
    }
}

/// Refuses options that cannot be handed to Frama-C.
pub fn validate_project_options(options: &ProjectLoadOptions) -> (r: Result<(), ToolError>)
    ensures
        match r {
            Ok(_) => options_complaint(options@) is None,
            Err(e) => options_complaint(options@) is Some && e@ == ToolErrorView::invalid(
                options_complaint(options@)->0,
            ),
        },
{
    match validate_cpp_entries(&options.include_paths, INCLUDE_COMPLAINT) {
        Ok(_) => {},
        Err(e) => {
            return Err(e);
        },
    }
    match validate_cpp_entries(&options.isystem_paths, ISYSTEM_COMPLAINT) {
        Ok(_) => {},
        Err(e) => {
            return Err(e);
        },
    }
    match validate_cpp_entries(&options.defines, DEFINE_COMPLAINT) {
        Ok(_) => {},
        Err(e) => {
            return Err(e);
        },
    }
    match validate_cpp_entries(&options.force_includes, FORCE_COMPLAINT) {
        Ok(_) => {},
        Err(e) => {
            return Err(e);
        },
    }
    if !argument_is_plain(&options.machdep) {
        return Err(ToolError::invalid(owned(MACHDEP_COMPLAINT)));
    }
    if !argument_is_plain(&options.compilation_database) {
        return Err(ToolError::invalid(owned(DATABASE_COMPLAINT)));
    }
    Ok(())
}

// ---------------------------------------------------------------------------
// The command line
// ---------------------------------------------------------------------------

/// Entries with a flag before each.
pub open spec fn flagged(flag: Seq<char>, entries: Seq<Seq<char>>) -> Seq<Seq<char>> {
    entries.map_values(|e: Seq<char>| flag + e)
}

/// The flag that drops the preprocessor's own system directories, where they are dropped.
pub open spec fn nostdinc_flag(nostdinc: bool) -> Seq<Seq<char>> {
    if nostdinc {
        seq!["-nostdinc"@]
    } else {
        Seq::empty()
    }
}

/// The preprocessor flags that options imply: the search path, the system directories after it and
/// whether the preprocessor's own are dropped, then the definitions, then the headers, which are
/// preprocessed with all of that in effect.
pub open spec fn cpp_flags(o: OptionsView) -> Seq<Seq<char>> {
    flagged("-I"@, o.include_paths) + flagged("-isystem "@, o.isystem_paths) + nostdinc_flag(
        o.nostdinc,
    ) + flagged("-D"@, o.defines) + flagged("-include "@, o.force_includes)
}

/// The preprocessor flags that options imply, as one argument.
pub open spec fn cpp_args(o: OptionsView) -> Option<Seq<char>> {
    if cpp_flags(o).len() == 0 {
        None
    } else {
        Some(join_spec(cpp_flags(o), " "@))
    }
}

fn push_flagged(out: &mut Vec<String>, flag: &str, entries: &Vec<String>)
    ensures
        texts(final(out)@) == texts(old(out)@) + flagged(flag@, texts(entries@)),
{
    let ghost start = texts(out@);
    let ghost all = flagged(flag@, texts(entries@));
    let mut i: usize = 0;
    while i < entries.len()
        invariant
            i <= entries@.len(),
            all == flagged(flag@, texts(entries@)),
            texts(out@) =~= start + all.subrange(0, i as int),
        decreases entries@.len() - i,
    {
        let f = cat2(flag, entries[i].as_str());
        let ghost before = out@;
        out.push(f);
        assert(texts(out@) =~= texts(before).push(f@));
        assert(all[i as int] == f@);
        i = i + 1;
    }
    assert(all.subrange(0, i as int) =~= all);
}

/// The preprocessor flags a project's options imply, or `None` when it names none.
pub fn cpp_extra_args(options: &ProjectLoadOptions) -> (r: Option<String>)
    ensures
        opt_string(r) == cpp_args(options@),
{
    let mut flags: Vec<String> = Vec::new();
    assert(texts(flags@) =~= Seq::empty());
    push_flagged(&mut flags, "-I", &options.include_paths);
    push_flagged(&mut flags, "-isystem ", &options.isystem_paths);
    if options.nostdinc {
        let ghost before = flags@;
        flags.push(owned("-nostdinc"));
        assert(texts(flags@) =~= texts(before).push("-nostdinc"@));
    }
    push_flagged(&mut flags, "-D", &options.defines);
    push_flagged(&mut flags, "-include ", &options.force_includes);
    assert(texts(flags@) =~= cpp_flags(options@));
    assert(texts(flags@).len() == flags@.len());
    if flags.len() == 0 {
        return None;
    }
    Some(join(&flags, " "))
}

/// The arguments that options become on a command line.
pub open spec fn cli_args(o: OptionsView) -> Seq<Seq<char>> {
    (match cpp_args(o) {
        Some(a) => seq!["-cpp-extra-args="@ + a],
        None => Seq::empty(),
    }) + (match o.machdep {
        Some(m) => seq!["-machdep"@, m],
        None => Seq::empty(),
    }) + (match o.compilation_database {
        Some(d) => seq!["-compilation-db"@, d],
        None => Seq::empty(),
    })
}

/// The arguments that options become on a command line.
pub fn project_cli_args(options: &ProjectLoadOptions) -> (r: Vec<String>)
    ensures
        texts(r@) == cli_args(options@),
{
    let mut args: Vec<String> = Vec::new();
    match cpp_extra_args(options) {
        Some(a) => {
            args.push(cat2("-cpp-extra-args=", a.as_str()));
        },
        None => {},
    }
    match &options.machdep {
        Some(m) => {
            args.push(owned("-machdep"));
            args.push(owned(m.as_str()));
        },
        None => {},
    }
    match &options.compilation_database {
        Some(d) => {
            args.push(owned("-compilation-db"));
            args.push(owned(d.as_str()));
        },
        None => {},
    }
    assert(texts(args@) =~= cli_args(options@));
    args
}

// ---------------------------------------------------------------------------
// What accepted options come to
// ---------------------------------------------------------------------------

/// Whether a text holds allowed characters and spaces alone.
pub open spec fn only_cpp_chars_and_spaces(s: Seq<char>) -> bool {
    forall|i: int| 0 <= i < s.len() ==> cpp_char(#[trigger] s[i]) || s[i] == ' '
}

proof fn lemma_join_keeps_chars(parts: Seq<Seq<char>>)
    requires
        forall|i: int| 0 <= i < parts.len() ==> only_cpp_chars_and_spaces(#[trigger] parts[i]),
    ensures
        only_cpp_chars_and_spaces(join_spec(parts, " "@)),
    decreases parts.len(),
{
    reveal_strlit(" ");
    if parts.len() == 1 {
        assert(only_cpp_chars_and_spaces(parts[0]));
    } else if parts.len() > 1 {
        let p = parts.drop_last();
        assert forall|i: int| 0 <= i < p.len() implies only_cpp_chars_and_spaces(
            #[trigger] p[i],
        ) by {
            assert(p[i] == parts[i]);
        }
        lemma_join_keeps_chars(p);
        let a = join_spec(p, " "@);
        let last = parts.last();
        assert(only_cpp_chars_and_spaces(parts[parts.len() - 1]));
        let whole = a + " "@ + last;
        assert forall|i: int| 0 <= i < whole.len() implies cpp_char(#[trigger] whole[i])
            || whole[i] == ' ' by {
            if i < a.len() {
                assert(whole[i] == a[i]);
            } else if i == a.len() {
                assert(whole[i] == ' ');
            } else {
                assert(whole[i] == last[i - a.len() - 1]);
            }
        }
    }
}

/// What accepted options hand to the shell holds nothing but the allowed characters and the
/// spaces between flags.
pub proof fn law_accepted_options_are_plain(o: OptionsView)
    requires
        options_complaint(o) is None,
    ensures
        match cpp_args(o) {
            Some(a) => only_cpp_chars_and_spaces(a),
            None => true,
        },
{
    reveal_strlit("-I");
    reveal_strlit("-isystem ");
    reveal_strlit("-nostdinc");
    reveal_strlit("-D");
    reveal_strlit("-include ");
    let flags = cpp_flags(o);
    assert forall|i: int| 0 <= i < flags.len() implies only_cpp_chars_and_spaces(
        #[trigger] flags[i],
    ) by {
        let n = o.include_paths.len();
        let s = n + o.isystem_paths.len();
        let d = s + nostdinc_flag(o.nostdinc).len();
        let m = d + o.defines.len();
        let none = Seq::<char>::empty();
        let (flag, entry) = if i < n {
            ("-I"@, o.include_paths[i])
        } else if i < s {
            ("-isystem "@, o.isystem_paths[i - n])
        } else if i < d {
            ("-nostdinc"@, none)
        } else if i < m {
            ("-D"@, o.defines[i - d])
        } else {
            ("-include "@, o.force_includes[i - m])
        };
        assert(usable(entry) || entry == none);
        assert("-nostdinc"@ + none =~= "-nostdinc"@);
        assert(flags[i] == flag + entry);
        let f = flag + entry;
        assert forall|k: int| 0 <= k < f.len() implies cpp_char(#[trigger] f[k]) || f[k] == ' ' by {
            if k < flag.len() {
                assert(f[k] == flag[k]);
            } else {
                assert(f[k] == entry[k - flag.len()]);
            }
        }
    }
    lemma_join_keeps_chars(flags);
}

/// Options that name nothing for the preprocessor give it nothing.
pub proof fn law_no_entries_no_flags(o: OptionsView)
    ensures
        cpp_args(o) is None <==> o.include_paths.len() == 0 && o.isystem_paths.len() == 0
            && !o.nostdinc && o.defines.len() == 0 && o.force_includes.len() == 0,
{
}

/// The system directories reach the preprocessor one flag each, after the search path, and the
/// flag that drops its own stands after them where it was asked for.
pub proof fn law_system_directories_reach_the_preprocessor(o: OptionsView, i: int)
    ensures
        0 <= i < o.isystem_paths.len() ==> cpp_flags(o)[o.include_paths.len() + i] == "-isystem "@
            + o.isystem_paths[i],
        o.nostdinc ==> cpp_flags(o)[(o.include_paths.len() + o.isystem_paths.len()) as int]
            == "-nostdinc"@,
        0 <= i < o.include_paths.len() ==> cpp_flags(o)[i] == "-I"@ + o.include_paths[i],
{
}

/// An entry can be used where it is not empty, does not begin with a dash, and is made of letters,
/// digits and `_=./+-` alone; so a space, a quote, a semicolon and a dollar sign are refused.
pub proof fn law_entries_are_plain_words(entry: Seq<char>, i: int)
    ensures
        usable(entry) ==> entry.len() > 0 && entry[0] != '-',
        0 <= i < entry.len() && (entry[i] == ' ' || entry[i] == '"' || entry[i] == '\'' || entry[i]
            == ';' || entry[i] == '$' || entry[i] == '`' || entry[i] == '\n') ==> !usable(entry),
        !usable(Seq::empty()),
        entry.len() > 0 && entry[0] == '-' ==> !usable(entry),
        entry.len() > 0 && (forall|k: int|
            0 <= k < entry.len() ==> is_ascii_alnum(#[trigger] entry[k]) || entry[k] == '/'
                || entry[k] == '.' || entry[k] == '_') ==> usable(entry),
{
    reveal_strlit("-");
    if entry.len() > 0 && entry[0] == '-' {
        assert(entry.subrange(0, 1) =~= "-"@);
    }
    if begins(entry, "-"@) {
        assert(entry.subrange(0, 1)[0] == "-"@[0]);
        assert(entry[0] == '-');
    }
    if 0 <= i < entry.len() && all_cpp_chars(entry) {
        assert(cpp_char(entry[i]));
    }
}

/// Options are refused for the first list that holds an entry that cannot be used, with what it
/// should hold; a machine model and a database for being empty or beginning with a dash.
pub proof fn law_the_first_unusable_option_is_told(o: OptionsView, i: int)
    ensures
        0 <= i < o.include_paths.len() && !usable(o.include_paths[i]) ==> options_complaint(o) == Some(
            "include_paths entries must be non-empty directories of [A-Za-z0-9_./+-] without a leading dash (write \"include\", not \"-Iinclude\")"@,
        ),
        all_usable(o.include_paths) && 0 <= i < o.isystem_paths.len() && !usable(o.isystem_paths[i])
            ==> options_complaint(o) == Some(ISYSTEM_COMPLAINT@),
        all_usable(o.include_paths) && all_usable(o.isystem_paths) && 0 <= i < o.defines.len()
            && !usable(o.defines[i]) ==> options_complaint(o) == Some(DEFINE_COMPLAINT@),
        0 <= i < o.defines.len() && !usable(o.defines[i]) ==> options_complaint(o) is Some,
        0 <= i < o.force_includes.len() && !usable(o.force_includes[i]) ==> options_complaint(o)
            is Some,
        o.machdep == Some(Seq::<char>::empty()) ==> options_complaint(o) is Some,
        o.compilation_database == Some(Seq::<char>::empty()) ==> options_complaint(o) is Some,
        options_complaint(o) is Some ==> !all_usable(o.include_paths) || !all_usable(
            o.isystem_paths,
        ) || !all_usable(o.defines) || !all_usable(o.force_includes) || o.machdep is Some
            || o.compilation_database is Some,
{
}

/// Every define and every header that is read first reaches the preprocessor, each under its flag
/// and in order, behind what is searched.
pub proof fn law_definitions_and_headers_reach_the_preprocessor(o: OptionsView, i: int)
    ensures
        ({
            let searched = o.include_paths.len() + o.isystem_paths.len() + (if o.nostdinc {
                1int
            } else {
                0
            });
            &&& 0 <= i < o.defines.len() ==> cpp_flags(o)[searched + i] == "-D"@ + o.defines[i]
            &&& 0 <= i < o.force_includes.len() ==> cpp_flags(o)[searched + o.defines.len() + i]
                == "-include "@ + o.force_includes[i]
            &&& cpp_flags(o).len() == searched + o.defines.len() + o.force_includes.len()
        }),
{
}

/// The command line carries the preprocessor's flags as one argument, then the machine model, then
/// the database, each where there is one and nothing else.
pub proof fn law_the_command_line_carries_the_options(o: OptionsView, m: Seq<char>, d: Seq<char>)
    ensures
        cpp_flags(o).len() > 0 && o.machdep == Some(m) && o.compilation_database == Some(d)
            ==> cli_args(o) == seq![
            "-cpp-extra-args="@ + join_spec(cpp_flags(o), " "@),
            "-machdep"@,
            m,
            "-compilation-db"@,
            d,
        ],
        cpp_flags(o).len() == 0 && o.machdep == Some(m) && o.compilation_database is None
            ==> cli_args(o) == seq!["-machdep"@, m],
        cpp_flags(o).len() == 0 && o.machdep is None && o.compilation_database == Some(d)
            ==> cli_args(o) == seq!["-compilation-db"@, d],
        cpp_flags(o).len() == 0 && o.machdep is None && o.compilation_database is None ==> cli_args(
            o,
        ).len() == 0,
{
}

} // verus!
