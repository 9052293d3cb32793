//! The rules of `yascan-util`: which command was asked for, the options of
//! the HTML report command, which archive entries are rules, which files
//! an update replaces, and the order of input files.

use vstd::prelude::*;

use crate::text::{chars_of, push_char, push_range};

verus! {

/// Whether `s` holds exactly the text `lit`.
fn is_text(s: &String, lit: &str) -> (b: bool)
    ensures
        b == (s@ == lit@),
{
    *s == String::from_str(lit)
}

/// A command of `yascan-util`.
#[derive(Clone, Copy, Debug, PartialEq, Eq, Structural)]
pub enum UtilCommand {
    Update,
    Html,
    Help,
    Unknown,
}

/// The command named by the first argument: `update`, `html`, `--help` or
/// `-h`; anything else is unknown.
pub fn classify_command(arg: &String) -> (c: UtilCommand)
    ensures
        c == (if arg@ == "update"@ {
            UtilCommand::Update
        } else if arg@ == "html"@ {
            UtilCommand::Html
        } else if arg@ == "--help"@ || arg@ == "-h"@ {
            UtilCommand::Help
        } else {
            UtilCommand::Unknown
        }),
{
    if is_text(arg, "update") {
        UtilCommand::Update
    } else if is_text(arg, "html") {
        UtilCommand::Html
    } else if is_text(arg, "--help") || is_text(arg, "-h") {
        UtilCommand::Help
    } else {
        UtilCommand::Unknown
    }
}

/// The options of the `html` command.
#[derive(Debug)]
pub struct HtmlOptions {
    pub input: String,
    pub output: Option<String>,
    pub combine: bool,
    pub title: Option<String>,
    pub host: Option<String>,
}

/// What the `html` command is asked to do.
#[derive(Debug)]
pub enum HtmlCommand {
    /// Print the usage.
    Help,
    /// Generate a report.
    Generate(HtmlOptions),
}

/// Why the `html` command cannot go on.
#[derive(Debug, PartialEq, Eq)]
pub enum HtmlArgError {
    /// An option that takes a value came last; it holds the option's long name.
    MissingValue(String),
    /// An argument that is no option.
    UnknownArgument(String),
    /// No `--input` was given.
    MissingInput,
    /// The input matched no file; it holds the input.
    NoFilesFound(String),
}

/// The options read so far.
pub struct ArgsSoFar {
    pub input: Option<Seq<char>>,
    pub output: Option<Seq<char>>,
    pub combine: bool,
    pub title: Option<Seq<char>>,
    pub host: Option<Seq<char>>,
}

/// The outcome of reading the options.
pub enum ArgsOutcome {
    Help,
    Read(ArgsSoFar),
    MissingValue(Seq<char>),
    Unknown(Seq<char>),
}

/// Reading the arguments from index `i` on, left to right: `--input`/`-i`,
/// `--output`/`-o`, `--title`/`-t` and `--host`/`-h` take the next argument
/// as value (a later one replaces an earlier one), `--combine`/`-c` takes
/// none, `--help` stops with the usage, anything else stops with an error.
pub open spec fn read_args(args: Seq<String>, i: nat, st: ArgsSoFar) -> ArgsOutcome
    decreases args.len() - i,
{
    if i >= args.len() {
        ArgsOutcome::Read(st)
    } else {
        let a = args[i as int]@;
        let has_value = i + 1 < args.len();
        let value = if has_value { args[(i + 1) as int]@ } else { Seq::empty() };
        if a == "--input"@ || a == "-i"@ {
            if has_value {
                read_args(args, i + 2, ArgsSoFar { input: Some(value), ..st })
            } else {
                ArgsOutcome::MissingValue("--input"@)
            }
        } else if a == "--output"@ || a == "-o"@ {
            if has_value {
                read_args(args, i + 2, ArgsSoFar { output: Some(value), ..st })
            } else {
                ArgsOutcome::MissingValue("--output"@)
            }
        } else if a == "--combine"@ || a == "-c"@ {
            read_args(args, i + 1, ArgsSoFar { combine: true, ..st })
        } else if a == "--title"@ || a == "-t"@ {
            if has_value {
                read_args(args, i + 2, ArgsSoFar { title: Some(value), ..st })
            } else {
                ArgsOutcome::MissingValue("--title"@)
            }
        } else if a == "--host"@ || a == "-h"@ {
            if has_value {
                read_args(args, i + 2, ArgsSoFar { host: Some(value), ..st })
            } else {
                ArgsOutcome::MissingValue("--host"@)
            }
        } else if a == "--help"@ {
            ArgsOutcome::Help
        } else {
            ArgsOutcome::Unknown(a)
        }
    }
}

pub open spec fn no_args() -> ArgsSoFar {
    ArgsSoFar { input: None, output: None, combine: false, title: None, host: None }
}

pub open spec fn opt_view(o: Option<String>) -> Option<Seq<char>> {
    match o {
        Some(s) => Some(s@),
        None => None,
    }
}

/// The `html` command's outcome for `args` (see `read_args`); without
/// `--input` there is nothing to do.
pub open spec fn html_command_matches(args: Seq<String>, r: Result<HtmlCommand, HtmlArgError>) -> bool {
    match read_args(args, 0, no_args()) {
        ArgsOutcome::Help => r matches Ok(HtmlCommand::Help),
        ArgsOutcome::MissingValue(flag) => r matches Err(HtmlArgError::MissingValue(f)) && f@ == flag,
        ArgsOutcome::Unknown(a) => r matches Err(HtmlArgError::UnknownArgument(u)) && u@ == a,
        ArgsOutcome::Read(st) => match st.input {
            None => r matches Err(HtmlArgError::MissingInput),
            Some(input) => r matches Ok(HtmlCommand::Generate(o)) && o.input@ == input && opt_view(
                o.output,
            ) == st.output && o.combine == st.combine && opt_view(o.title) == st.title
                && opt_view(o.host) == st.host,
        },
    }
}

fn view_of(o: &Option<String>) -> (v: Option<String>)
    ensures
        opt_view(v) == opt_view(*o),
{
    match o {
        Some(s) => Some(s.clone()),
        None => None,
    }
}

/// Reads the arguments of the `html` command.
pub fn parse_html_args(args: &Vec<String>) -> (r: Result<HtmlCommand, HtmlArgError>)
    ensures
        html_command_matches(args@, r),
{
    let mut input: Option<String> = None;
    let mut output: Option<String> = None;
    let mut combine = false;
    let mut title: Option<String> = None;
    let mut host: Option<String> = None;
    let mut i: usize = 0;
    while i < args.len()
        invariant
            i <= args@.len() + 1,
            read_args(args@, 0, no_args()) == read_args(
                args@,
                i as nat,
                ArgsSoFar {
                    input: opt_view(input),
                    output: opt_view(output),
                    combine,
                    title: opt_view(title),
                    host: opt_view(host),
                },
            ),
        decreases args@.len() + 1 - i,
    {
        let a = &args[i];
        if is_text(a, "--input") || is_text(a, "-i") {
            if i + 1 < args.len() {
                input = Some(args[i + 1].clone());
                i = i + 2;
            } else {
                return Err(HtmlArgError::MissingValue(String::from_str("--input")));
            }
        } else if is_text(a, "--output") || is_text(a, "-o") {
            if i + 1 < args.len() {
                output = Some(args[i + 1].clone());
                i = i + 2;
            } else {
                return Err(HtmlArgError::MissingValue(String::from_str("--output")));
            }
        } else if is_text(a, "--combine") || is_text(a, "-c") {
            combine = true;
            i = i + 1;
        } else if is_text(a, "--title") || is_text(a, "-t") {
            if i + 1 < args.len() {
                title = Some(args[i + 1].clone());
                i = i + 2;
            } else {
                return Err(HtmlArgError::MissingValue(String::from_str("--title")));
            }
        } else if is_text(a, "--host") || is_text(a, "-h") {
            if i + 1 < args.len() {
                host = Some(args[i + 1].clone());
                i = i + 2;
            } else {
                return Err(HtmlArgError::MissingValue(String::from_str("--host")));
            }
        } else if is_text(a, "--help") {
            return Ok(HtmlCommand::Help);
        } else {
            return Err(HtmlArgError::UnknownArgument(a.clone()));
        }
    }
    match input {
        Some(input) => Ok(
            HtmlCommand::Generate(HtmlOptions { input, output, combine, title, host }),
        ),
        None => Err(HtmlArgError::MissingInput),
    }
}


impl HtmlArgError {
    /// The text of the error.
    pub fn message(&self) -> (s: String)
        ensures
            s@ == match self {
                HtmlArgError::MissingValue(flag) => flag@ + " requires a value"@,
                HtmlArgError::UnknownArgument(a) => "Unknown argument: "@ + a@,
                HtmlArgError::MissingInput => "--input is required"@,
                HtmlArgError::NoFilesFound(input) => "No files found matching: "@ + input@,
            },
    {
        match self {
            HtmlArgError::MissingValue(flag) => {
                let mut s = flag.clone();
                s.append(" requires a value");
                s
            },
            HtmlArgError::UnknownArgument(a) => {
                let mut s = String::from_str("Unknown argument: ");
                s.append(a.as_str());
                s
            },
            HtmlArgError::MissingInput => String::from_str("--input is required"),
            HtmlArgError::NoFilesFound(input) => {
                let mut s = String::from_str("No files found matching: ");
                s.append(input.as_str());
                s
            },
        }
    }
}

/// How the report is made.
#[derive(Debug)]
pub enum ReportMode {
    /// All files in one report written to `output`.
    Combined { output: String },
    /// One report of the single file.
    Single { output: Option<String>, title: Option<String>, host: Option<String> },
}

/// How `options` make a report of `file_count` input files: none is an
/// error; with `--combine` or more than one file, one combined report to
/// the output or `combined_report.html`; otherwise a report of the file.
pub fn plan_report(options: &HtmlOptions, file_count: usize) -> (r: Result<ReportMode, HtmlArgError>)
    ensures
        file_count == 0 ==> (r matches Err(HtmlArgError::NoFilesFound(i)) && i@ == options.input@),
        file_count > 0 && (options.combine || file_count > 1) ==> (r matches Ok(
            ReportMode::Combined { output },
        ) && output@ == (match options.output {
            Some(o) => o@,
            None => "combined_report.html"@,
        })),
        file_count == 1 && !options.combine ==> (r matches Ok(
            ReportMode::Single { output, title, host },
        ) && opt_view(output) == opt_view(options.output) && opt_view(title) == opt_view(
            options.title,
        ) && opt_view(host) == opt_view(options.host)),
{
    if file_count == 0 {
        Err(HtmlArgError::NoFilesFound(options.input.clone()))
    } else if options.combine || file_count > 1 {
        let output = match &options.output {
            Some(o) => o.clone(),
            None => String::from_str("combined_report.html"),
        };
        Ok(ReportMode::Combined { output })
    } else {
        Ok(
            ReportMode::Single {
                output: view_of(&options.output),
                title: view_of(&options.title),
                host: view_of(&options.host),
            },
        )
    }
}

/// Whether an input names several files: it holds `*`, `?` or `[`.
pub fn is_glob_pattern(pattern: &str) -> (b: bool)
    ensures
        b == (pattern@.contains('*') || pattern@.contains('?') || pattern@.contains('[')),
{
    let chars = chars_of(pattern);
    let mut i: usize = 0;
    while i < chars.len()
        invariant
            i <= chars@.len(),
            chars@ == pattern@,
            forall|k: int| 0 <= k < i ==> chars@[k] != '*' && chars@[k] != '?' && chars@[k] != '[',
        decreases chars@.len() - i,
    {
        let c = chars[i];
        if c == '*' || c == '?' || c == '[' {
            assert(pattern@[i as int] == c);
            return true;
        }
        i = i + 1;
    }
    false
}

/// `a` comes before `b` or equals it, character by character.
pub open spec fn text_le(a: Seq<char>, b: Seq<char>) -> bool
    decreases a.len(),
{
    if a.len() == 0 {
        true
    } else if b.len() == 0 {
        false
    } else if a[0] != b[0] {
        (a[0] as int) < (b[0] as int)
    } else {
        text_le(a.drop_first(), b.drop_first())
    }
}

/// Either of two texts comes first.
pub proof fn lemma_text_le_total(a: Seq<char>, b: Seq<char>)
    ensures
        text_le(a, b) || text_le(b, a),
    decreases a.len(),
{
    if a.len() > 0 && b.len() > 0 && a[0] == b[0] {
        lemma_text_le_total(a.drop_first(), b.drop_first());
    }
}

/// The order of texts is transitive.
pub proof fn lemma_text_le_transitive(a: Seq<char>, b: Seq<char>, c: Seq<char>)
    requires
        text_le(a, b),
        text_le(b, c),
    ensures
        text_le(a, c),
    decreases a.len(),
{
    if a.len() > 0 && b.len() > 0 && c.len() > 0 && a[0] == b[0] && b[0] == c[0] {
        lemma_text_le_transitive(a.drop_first(), b.drop_first(), c.drop_first());
    }
}

/// Two texts that each come before the other are equal.
pub proof fn lemma_text_le_antisymmetric(a: Seq<char>, b: Seq<char>)
    requires
        text_le(a, b),
        text_le(b, a),
    ensures
        a == b,
    decreases a.len(),
{
    if a.len() > 0 && b.len() > 0 {
        lemma_text_le_antisymmetric(a.drop_first(), b.drop_first());
        assert(a =~= seq![a[0]] + a.drop_first());
        assert(b =~= seq![b[0]] + b.drop_first());
    } else {
        assert(a.len() == 0 && b.len() == 0);
        assert(a =~= b);
    }
}

/// Every text comes before itself.
pub proof fn lemma_text_le_reflexive(a: Seq<char>)
    ensures
        text_le(a, a),
    decreases a.len(),
{
    if a.len() > 0 {
        lemma_text_le_reflexive(a.drop_first());
    }
}

pub(crate) fn text_le_exec(a: &Vec<char>, b: &Vec<char>) -> (r: bool)
    ensures
        r == text_le(a@, b@),
{
    let mut i: usize = 0;
    assert(a@.skip(0) =~= a@);
    assert(b@.skip(0) =~= b@);
    while i < a.len() && i < b.len() && a[i] == b[i]
        invariant
            i <= a@.len(),
            i <= b@.len(),
            text_le(a@, b@) == text_le(a@.skip(i as int), b@.skip(i as int)),
        decreases a@.len() - i,
    {
        assert(a@.skip(i as int).drop_first() =~= a@.skip(i + 1));
        assert(b@.skip(i as int).drop_first() =~= b@.skip(i + 1));
        i = i + 1;
    }
    if i == a.len() {
        assert(a@.skip(i as int).len() == 0);
        true
    } else if i == b.len() {
        assert(b@.skip(i as int).len() == 0);
        false
    } else {
        assert(a@.skip(i as int)[0] == a@[i as int]);
        assert(b@.skip(i as int)[0] == b@[i as int]);
        a[i] < b[i]
    }
}

/// The paths are in increasing text order.
pub open spec fn paths_sorted(s: Seq<String>) -> bool {
    forall|i: int, j: int| 0 <= i <= j < s.len() ==> text_le(s[i]@, s[j]@)
}

/// The paths in increasing text order, for a stable order of input files.
pub fn sort_paths(paths: Vec<String>) -> (sorted: Vec<String>)
    ensures
        paths_sorted(sorted@),
        sorted@.to_multiset() == paths@.to_multiset(),
{
    broadcast use vstd::seq_lib::group_to_multiset_ensures;

    let ghost all = paths@;
    let mut res: Vec<String> = Vec::new();
    let mut keys: Vec<Vec<char>> = Vec::new();
    for p in it: paths.into_iter()
        invariant
            all == it.seq(),
            keys@.len() == res@.len(),
            forall|k: int| 0 <= k < res@.len() ==> #[trigger] keys@[k]@ == res@[k]@,
            paths_sorted(res@),
            res@.to_multiset() == all.take(it.index() as int).to_multiset(),
    {
        let key = chars_of(p.as_str());
        let mut pos: usize = 0;
        while pos < res.len() && text_le_exec(&keys[pos], &key)
            invariant
                pos <= res@.len(),
                keys@.len() == res@.len(),
                forall|k: int| 0 <= k < res@.len() ==> #[trigger] keys@[k]@ == res@[k]@,
                paths_sorted(res@),
                forall|k: int| 0 <= k < pos ==> text_le(res@[k]@, p@),
                key@ == p@,
            decreases res@.len() - pos,
        {
            assert(keys@[pos as int]@ == res@[pos as int]@);
            pos = pos + 1;
        }
        let ghost before = res@;
        proof {
            vstd::seq_lib::to_multiset_insert(before, pos as int, p);
            assert(all.take(it.index() + 1) =~= all.take(it.index() as int).push(p));
            all.take(it.index() as int).to_multiset_ensures();
            if pos < before.len() {
                lemma_text_le_total(before[pos as int]@, p@);
            }
        }
        res.insert(pos, p);
        keys.insert(pos, key);
        assert forall|k: int| 0 <= k < res@.len() implies #[trigger] keys@[k]@ == res@[k]@ by {
            if k < pos {
            } else if k > pos {
            }
        }
        assert(paths_sorted(res@)) by {
            assert forall|i: int, j: int| 0 <= i <= j < res@.len() implies text_le(
                res@[i]@,
                res@[j]@,
            ) by {
                if i < pos && j > pos {
                    assert(res@[i] == before[i]);
                    assert(res@[j] == before[j - 1]);
                } else if i < pos && j < pos {
                    assert(res@[i] == before[i]);
                    assert(res@[j] == before[j]);
                } else if i < pos && j == pos {
                    assert(res@[i] == before[i]);
                } else if i > pos {
                    assert(res@[i] == before[i - 1]);
                    assert(res@[j] == before[j - 1]);
                } else if i == pos && j > pos {
                    assert(res@[j] == before[j - 1]);
                    assert(text_le(p@, before[pos as int]@));
                    lemma_text_le_transitive(p@, before[pos as int]@, before[j - 1]@);
                } else {
                    lemma_text_le_total(p@, p@);
                }
            }
        }
    }
    assert(all.take(all.len() as int) =~= all);
    res
}

/// `c` with ASCII capitals made small.
pub open spec fn ascii_lower(c: char) -> char {
    if 'A' <= c && c <= 'Z' {
        ((c as u32) + 32) as char
    } else {
        c
    }
}

/// `a` equals `b` but for the case of ASCII letters.
pub open spec fn eq_ignore_ascii_case(a: Seq<char>, b: Seq<char>) -> bool {
    a.len() == b.len() && forall|i: int| 0 <= i < a.len() ==> ascii_lower(a[i]) == ascii_lower(b[i])
}

fn lower(c: char) -> (l: char)
    ensures
        l == ascii_lower(c),
{
    if 'A' <= c && c <= 'Z' {
        let u: u32 = (c as u32) + 32;
        assert(u == (c as u32) + 32);
        char_of_ascii(u)
    } else {
        c
    }
}

fn char_of_ascii(u: u32) -> (c: char)
    requires
        u < 128,
    ensures
        c == u as char,
{
    let b: u8 = u as u8;
    b as char
}

fn eq_ignore_case(a: &Vec<char>, b: &Vec<char>) -> (r: bool)
    ensures
        r == eq_ignore_ascii_case(a@, b@),
{
    if a.len() != b.len() {
        return false;
    }
    let mut i: usize = 0;
    while i < a.len()
        invariant
            i <= a@.len() == b@.len(),
            forall|k: int| 0 <= k < i ==> ascii_lower(a@[k]) == ascii_lower(b@[k]),
        decreases a@.len() - i,
    {
        if lower(a[i]) != lower(b[i]) {
            return false;
        }
        i = i + 1;
    }
    true
}

/// Whether a file extension is that of YARA rules: `yar` or `yara`, in any
/// ASCII case.
pub fn is_yara_rule_extension(ext: &str) -> (b: bool)
    ensures
        b == (eq_ignore_ascii_case(ext@, seq!['y', 'a', 'r']) || eq_ignore_ascii_case(
            ext@,
            seq!['y', 'a', 'r', 'a'],
        )),
{
    let e = chars_of(ext);
    let mut yar: Vec<char> = Vec::new();
    yar.push('y');
    yar.push('a');
    yar.push('r');
    assert(yar@ =~= seq!['y', 'a', 'r']);
    let mut yara: Vec<char> = Vec::new();
    yara.push('y');
    yara.push('a');
    yara.push('r');
    yara.push('a');
    assert(yara@ =~= seq!['y', 'a', 'r', 'a']);
    eq_ignore_case(&e, &yar) || eq_ignore_case(&e, &yara)
}

/// Whether an archive entry is a rule file to extract: not a directory
/// (no final `/`) and named `*.yar`.
pub open spec fn is_rule_entry(name: Seq<char>) -> bool {
    &&& !(name.len() > 0 && name.last() == '/')
    &&& name.len() >= 4
    &&& name.subrange(name.len() - 4, name.len() as int) == seq!['.', 'y', 'a', 'r']
}

/// Whether an archive entry is a rule file to extract (see `is_rule_entry`).
pub fn is_yara_archive_entry(name: &str) -> (b: bool)
    ensures
        b == is_rule_entry(name@),
{
    let c = chars_of(name);
    let n = c.len();
    if n > 0 && c[n - 1] == '/' {
        return false;
    }
    if n < 4 {
        return false;
    }
    let r = c[n - 4] == '.' && c[n - 3] == 'y' && c[n - 2] == 'a' && c[n - 1] == 'r';
    assert(r ==> c@.subrange(n - 4, n as int) =~= seq!['.', 'y', 'a', 'r']);
    assert(c@.subrange(n - 4, n as int) == seq!['.', 'y', 'a', 'r'] ==> c@.subrange(
        n - 4,
        n as int,
    )[0] == '.' && c@[n - 3] == 'y' && c@[n - 2] == 'a' && c@[n - 1] == 'r');
    r
}

/// The characters after the last `/` of a name (all of it when it has
/// none).
pub open spec fn base_name(name: Seq<char>) -> Seq<char>
    decreases name.len(),
{
    if name.len() == 0 {
        name
    } else if name.last() == '/' {
        Seq::empty()
    } else {
        base_name(name.drop_last()).push(name.last())
    }
}

/// The file name under which an archive entry is extracted: what follows
/// its last `/`. For a rule entry (`is_rule_entry`), which does not end in
/// `/`, this is the last component of its path.
pub fn archive_entry_file_name(name: &str) -> (f: String)
    ensures
        f@ == base_name(name@),
{
    let c = chars_of(name);
    let n = c.len();
    let mut start = n;
    assert(c@.take(n as int) =~= c@);
    assert(c@.subrange(n as int, n as int) =~= Seq::<char>::empty());
    assert(base_name(c@) + Seq::<char>::empty() =~= base_name(c@));
    while start > 0 && c[start - 1] != '/'
        invariant
            start <= n == c@.len(),
            base_name(c@) == base_name(c@.take(start as int)) + c@.subrange(start as int, n as int),
        decreases start,
    {
        let ghost t = c@.take(start as int);
        assert(t.drop_last() =~= c@.take(start - 1));
        assert(c@.subrange(start - 1, n as int) =~= seq![t.last()] + c@.subrange(start as int, n as int));
        assert(base_name(t) == base_name(c@.take(start - 1)).push(t.last()));
        assert(base_name(c@.take(start - 1)).push(t.last()) + c@.subrange(start as int, n as int)
            =~= base_name(c@.take(start - 1)) + (seq![t.last()] + c@.subrange(start as int, n as int)));
        start = start - 1;
    }
    assert(base_name(c@.take(start as int)) =~= Seq::<char>::empty());
    let mut f = String::new();
    push_range(&mut f, &c, start, n);
    assert(f@ =~= base_name(name@));
    f
}

/// Why a single input path (no pattern) cannot be read.
pub open spec fn single_input_error(path: Seq<char>, exists: bool, is_file: bool) -> Option<Seq<char>> {
    if !exists {
        Some("File not found: "@ + path)
    } else if !is_file {
        Some("Path is not a file: "@ + path)
    } else {
        None
    }
}

/// Checks a single input path, given whether it exists and whether it is a
/// file: it must be an existing file.
pub fn check_single_input(path: &str, exists: bool, is_file: bool) -> (r: Result<(), String>)
    ensures
        match r {
            Ok(()) => single_input_error(path@, exists, is_file) is None,
            Err(msg) => single_input_error(path@, exists, is_file) == Some(msg@),
        },
{
    if !exists {
        let mut m = String::from_str("File not found: ");
        m.append(path);
        Err(m)
    } else if !is_file {
        let mut m = String::from_str("Path is not a file: ");
        m.append(path);
        Err(m)
    } else {
        Ok(())
    }
}

/// The indicator files that an update creates when they are missing, with
/// their placeholder content.
pub open spec fn default_ioc_views() -> Seq<(Seq<char>, Seq<char>)> {
    seq![
        ("hash-iocs.txt"@, "# Optional custom hash IOCs\n"@),
        ("filename-iocs.txt"@, "# Optional custom filename IOCs\n"@),
        ("c2-iocs.txt"@, "# Optional custom C2 IOCs\n"@),
        ("keywords.txt"@, "# Optional custom keyword IOCs\n"@),
    ]
}

/// The indicator files that an update creates when they are missing: file
/// name and placeholder content.
pub fn default_ioc_files() -> (files: Vec<(String, String)>)
    ensures
        files@.map_values(|f: (String, String)| (f.0@, f.1@)) == default_ioc_views(),
{
    let mut files: Vec<(String, String)> = Vec::new();
    files.push((String::from_str("hash-iocs.txt"), String::from_str("# Optional custom hash IOCs\n")));
    files.push((String::from_str("filename-iocs.txt"), String::from_str("# Optional custom filename IOCs\n")));
    files.push((String::from_str("c2-iocs.txt"), String::from_str("# Optional custom C2 IOCs\n")));
    files.push((String::from_str("keywords.txt"), String::from_str("# Optional custom keyword IOCs\n")));
    assert(files@.map_values(|f: (String, String)| (f.0@, f.1@)) =~= default_ioc_views());
    files
}

/// The default indicator files among the first `n` that are not present,
/// in order.
pub open spec fn missing_ioc_views(present: Seq<bool>, n: nat) -> Seq<(Seq<char>, Seq<char>)>
    decreases n,
{
    if n == 0 {
        Seq::empty()
    } else {
        missing_ioc_views(present, (n - 1) as nat) + (if present[n - 1] {
            Seq::empty()
        } else {
            seq![default_ioc_views()[n - 1]]
        })
    }
}

/// The default indicator files that an update writes, given which of them
/// are present (`present[i]` for the `i`-th of `default_ioc_files`): the
/// missing ones, in order, with their placeholder content; present files
/// are left as they are.
pub fn missing_ioc_files(present: &Vec<bool>) -> (files: Vec<(String, String)>)
    requires
        present@.len() == default_ioc_views().len(),
    ensures
        files@.map_values(|f: (String, String)| (f.0@, f.1@)) == missing_ioc_views(present@, 4),
{
    let defaults = default_ioc_files();
    let mut files: Vec<(String, String)> = Vec::new();
    let mut i: usize = 0;
    while i < defaults.len()
        invariant
            i <= defaults@.len() == 4,
            defaults@.map_values(|f: (String, String)| (f.0@, f.1@)) == default_ioc_views(),
            present@.len() == 4,
            files@.map_values(|f: (String, String)| (f.0@, f.1@)) == missing_ioc_views(
                present@,
                i as nat,
            ),
        decreases defaults@.len() - i,
    {
        let ghost prev = files@.map_values(|f: (String, String)| (f.0@, f.1@));
        assert((defaults@[i as int].0@, defaults@[i as int].1@) == default_ioc_views()[i as int]);
        if !present[i] {
            let name = defaults[i].0.clone();
            let body = defaults[i].1.clone();
            files.push((name, body));
            assert(files@.map_values(|f: (String, String)| (f.0@, f.1@)) =~= prev.push(
                default_ioc_views()[i as int],
            ));
            assert(missing_ioc_views(present@, (i + 1) as nat) =~= prev + seq![
                default_ioc_views()[i as int],
            ]);
        } else {
            assert(missing_ioc_views(present@, (i + 1) as nat) =~= prev + Seq::empty());
        }
        i = i + 1;
    }
    files
}

/// An update creates exactly the default indicator files that were missing:
/// each file it writes was absent (present files are left alone), each absent
/// file is written, and once they are written a further update writes none.
pub proof fn lemma_ioc_update_idempotent(present: Seq<bool>)
    requires
        present.len() == 4,
    ensures
        forall|j: int|
            0 <= j < missing_ioc_views(present, 4).len() ==> exists|i: int|
                0 <= i < 4 && !present[i] && #[trigger] missing_ioc_views(present, 4)[j]
                    == default_ioc_views()[i],
        forall|i: int|
            0 <= i < 4 && !present[i] ==> missing_ioc_views(present, 4).contains(
                #[trigger] default_ioc_views()[i],
            ),
        missing_ioc_views(
            Seq::new(
                4,
                |i: int| present[i] || missing_ioc_views(present, 4).contains(default_ioc_views()[i]),
            ),
            4,
        ).len() == 0,
{
    lemma_missing_only_absent(present, 4);
    lemma_absent_all_missing(present, 4);
    let after = Seq::new(
        4,
        |i: int| present[i] || missing_ioc_views(present, 4).contains(default_ioc_views()[i]),
    );
    assert forall|i: int| 0 <= i < after.len() implies after[i] by {
        if !present[i] {
            assert(missing_ioc_views(present, 4).contains(default_ioc_views()[i]));
        }
    }
    lemma_none_missing(after, 4);
}

proof fn lemma_absent_all_missing(present: Seq<bool>, n: nat)
    requires
        n <= present.len() == 4,
    ensures
        forall|i: int|
            0 <= i < n && !present[i] ==> missing_ioc_views(present, n).contains(
                #[trigger] default_ioc_views()[i],
            ),
    decreases n,
{
    if n > 0 {
        lemma_absent_all_missing(present, (n - 1) as nat);
        let prev = missing_ioc_views(present, (n - 1) as nat);
        let cur = missing_ioc_views(present, n);
        assert forall|i: int| 0 <= i < n && !present[i] implies cur.contains(
            #[trigger] default_ioc_views()[i],
        ) by {
            if i < n - 1 {
                let k = choose|k: int| 0 <= k < prev.len() && prev[k] == default_ioc_views()[i];
                assert(cur[k] == prev[k]);
            } else {
                assert(cur[prev.len() as int] == default_ioc_views()[n - 1]);
            }
        }
    }
}

proof fn lemma_missing_only_absent(present: Seq<bool>, n: nat)
    requires
        n <= present.len() == 4,
    ensures
        forall|j: int|
            0 <= j < missing_ioc_views(present, n).len() ==> exists|i: int|
                0 <= i < n && !present[i] && #[trigger] missing_ioc_views(present, n)[j]
                    == default_ioc_views()[i],
    decreases n,
{
    if n > 0 {
        lemma_missing_only_absent(present, (n - 1) as nat);
        let prev = missing_ioc_views(present, (n - 1) as nat);
        assert forall|j: int| 0 <= j < missing_ioc_views(present, n).len() implies exists|i: int|
            0 <= i < n && !present[i] && #[trigger] missing_ioc_views(present, n)[j]
                == default_ioc_views()[i] by {
            if j < prev.len() {
                assert(missing_ioc_views(present, n)[j] == prev[j]);
                let i = choose|i: int|
                    0 <= i < n - 1 && !present[i] && #[trigger] prev[j] == default_ioc_views()[i];
                assert(0 <= i < n && !present[i]);
            } else {
                assert(!present[n - 1]);
                assert(missing_ioc_views(present, n)[j] == default_ioc_views()[n - 1]);
            }
        }
    }
}

proof fn lemma_none_missing(present: Seq<bool>, n: nat)
    requires
        n <= present.len(),
        forall|i: int| 0 <= i < present.len() ==> present[i],
    ensures
        missing_ioc_views(present, n).len() == 0,
    decreases n,
{
    if n > 0 {
        lemma_none_missing(present, (n - 1) as nat);
    }
}

/// Whether a file that a glob pattern matched is an input: a file with the
/// extension `jsonl`.
pub fn is_jsonl_input(is_file: bool, extension: Option<&str>) -> (b: bool)
    ensures
        b == (is_file && (match extension {
            Some(e) => e@ == "jsonl"@,
            None => false,
        })),
{
    match extension {
        Some(e) => is_file && is_text(&String::from_str(e), "jsonl"),
        None => false,
    }
}

} // verus!
