//! Command-line arguments: a path to a csv file, a chunk size and a switch for parallel scanning.
use crate::text::{chars_of, owned};
use vstd::prelude::*;

verus! {

/// The chunk size used when none is given.
pub const DEFAULT_ROW_CHUNK_SIZE: usize = 1_000_000;

/// The parsed command line.
#[derive(Debug, Clone, PartialEq, Eq)]
pub struct TrueSightCsvArgs {
    /// The full path to the csv file to be inspected.
    pub file_full_path: String,
    /// The number of rows to use in a chunk.
    pub row_chunk_size: usize,
    /// Disable parallel execution (parallel is the default).
    pub disable_parallel: bool,
}

/// What went wrong while reading the command line.
#[derive(Clone, Copy, Debug, PartialEq, Eq, Structural)]
pub enum ArgsErrorKind {
    /// No path was given.
    MissingPath,
    /// `--row-chunk-size` came without a value.
    MissingValue,
    /// The chunk size is not a decimal number that fits in `usize`.
    InvalidValue,
    /// An option was given twice.
    RepeatedOption,
    /// An unknown option, or a second positional argument.
    UnexpectedArgument,
    /// Help or version output was asked for.
    InfoRequested,
}

/// An argument error, with the argument that caused it (empty where there is none).
#[derive(Debug, Clone, PartialEq, Eq)]
pub struct ArgsError {
    pub kind: ArgsErrorKind,
    pub argument: String,
}

/// Why a path was rejected.
#[derive(Clone, Copy, Debug, PartialEq, Eq, Structural)]
pub enum PathError {
    /// Nothing exists at the path.
    NotFound,
    /// Something exists at the path, but it is not a regular file.
    NotAFile,
    /// The file's extension is not `csv`.
    NotCsv,
}

/// The message that reports the error `e` on the path `path`.
pub open spec fn path_error_message(e: PathError, path: Seq<char>) -> Seq<char> {
    match e {
        PathError::NotFound => "File does not exist: "@ + path,
        PathError::NotAFile => "Path exists but is not a file: "@ + path,
        PathError::NotCsv => "File must be a csv: "@ + path,
    }
}

impl PathError {
    /// The message that reports this error on the path `path`.
    pub fn message(&self, path: &str) -> (r: String)
        ensures
            r@ == path_error_message(*self, path@),
    {
        let mut s = match self {
            PathError::NotFound => owned("File does not exist: "),
            PathError::NotAFile => owned("Path exists but is not a file: "),
            PathError::NotCsv => owned("File must be a csv: "),
        };
        s.push_str(path);
        s
    }
}

// ---- the grammar, as specification ----

pub open spec fn is_digit(c: char) -> bool {
    '0' <= c && c <= '9'
}

/// The value of a string of decimal digits.
pub open spec fn digits_value(s: Seq<char>) -> nat
    decreases s.len(),
{
    if s.len() == 0 {
        0
    } else {
        digits_value(s.drop_last()) * 10 + (s.last() as nat - '0' as nat) as nat
    }
}

/// The digits of an unsigned decimal number: an optional `+`, then at least one digit.
pub open spec fn unsigned_digits(s: Seq<char>) -> Seq<char> {
    if s.len() > 0 && s[0] == '+' {
        s.drop_first()
    } else {
        s
    }
}

/// The `usize` that `s` denotes in decimal, if any: an optional `+` followed by one or more
/// digits, whose value fits in `usize`.
pub open spec fn parse_usize_spec(s: Seq<char>) -> Option<usize> {
    let d = unsigned_digits(s);
    if d.len() > 0 && (forall|i: int| 0 <= i < d.len() ==> is_digit(#[trigger] d[i]))
        && digits_value(d) <= usize::MAX {
        Some(digits_value(d) as usize)
    } else {
        None
    }
}

pub open spec fn lit_disable_parallel() -> Seq<char> {
    seq!['-', '-', 'd', 'i', 's', 'a', 'b', 'l', 'e', '-', 'p', 'a', 'r', 'a', 'l', 'l', 'e', 'l']
}

pub open spec fn lit_row_chunk_size() -> Seq<char> {
    seq!['-', '-', 'r', 'o', 'w', '-', 'c', 'h', 'u', 'n', 'k', '-', 's', 'i', 'z', 'e']
}

/// Whether `t` asks for help or version output.
pub open spec fn is_info_flag(t: Seq<char>) -> bool {
    ||| t == seq!['-', 'h']
    ||| t == seq!['-', '-', 'h', 'e', 'l', 'p']
    ||| t == seq!['-', 'V']
    ||| t == seq!['-', '-', 'v', 'e', 'r', 's', 'i', 'o', 'n']
}

/// Whether `t` looks like an option (a dash followed by something).
pub open spec fn is_option_like(t: Seq<char>) -> bool {
    t.len() > 1 && t[0] == '-'
}

/// The state of reading the command line after some of its arguments.
pub struct ArgsProgress {
    pub path: Option<Seq<char>>,
    pub chunk: Option<usize>,
    pub disable: bool,
    pub awaiting_value: bool,
    pub only_positional: bool,
}

pub open spec fn start_progress() -> ArgsProgress {
    ArgsProgress { path: None, chunk: None, disable: false, awaiting_value: false, only_positional: false }
}

/// An error of the grammar: its kind and the argument it concerns.
pub open spec fn args_err(kind: ArgsErrorKind, argument: Seq<char>) -> Result<ArgsProgress, (ArgsErrorKind, Seq<char>)> {
    Err((kind, argument))
}

/// Takes a chunk-size value.
pub open spec fn take_chunk_value(p: ArgsProgress, v: Seq<char>) -> Result<ArgsProgress, (ArgsErrorKind, Seq<char>)> {
    match parse_usize_spec(v) {
        Some(n) => Ok(ArgsProgress { chunk: Some(n), awaiting_value: false, ..p }),
        None => args_err(ArgsErrorKind::InvalidValue, v),
    }
}

/// Takes a positional argument.
pub open spec fn take_positional(p: ArgsProgress, t: Seq<char>) -> Result<ArgsProgress, (ArgsErrorKind, Seq<char>)> {
    if p.path is None {
        Ok(ArgsProgress { path: Some(t), ..p })
    } else {
        args_err(ArgsErrorKind::UnexpectedArgument, t)
    }
}

/// Reads one argument (the program name excluded).
pub open spec fn args_step(p: ArgsProgress, t: Seq<char>) -> Result<ArgsProgress, (ArgsErrorKind, Seq<char>)> {
    let opt = lit_row_chunk_size();
    let with_eq = opt.push('=');
    if p.awaiting_value {
        if is_option_like(t) {
            args_err(ArgsErrorKind::MissingValue, opt)
        } else {
            take_chunk_value(p, t)
        }
    } else if p.only_positional {
        take_positional(p, t)
    } else if t == seq!['-', '-'] {
        Ok(ArgsProgress { only_positional: true, ..p })
    } else if t == lit_disable_parallel() {
        if p.disable {
            args_err(ArgsErrorKind::RepeatedOption, t)
        } else {
            Ok(ArgsProgress { disable: true, ..p })
        }
    } else if t == opt {
        if p.chunk is Some {
            args_err(ArgsErrorKind::RepeatedOption, opt)
        } else {
            Ok(ArgsProgress { awaiting_value: true, ..p })
        }
    } else if t.len() >= with_eq.len() && t.take(with_eq.len() as int) == with_eq {
        if p.chunk is Some {
            args_err(ArgsErrorKind::RepeatedOption, opt)
        } else {
            take_chunk_value(p, t.skip(with_eq.len() as int))
        }
    } else if is_info_flag(t) {
        args_err(ArgsErrorKind::InfoRequested, t)
    } else if is_option_like(t) {
        args_err(ArgsErrorKind::UnexpectedArgument, t)
    } else {
        take_positional(p, t)
    }
}

/// Reads the arguments `ts` from the state `p`, stopping at the first error.
pub open spec fn args_steps(p: ArgsProgress, ts: Seq<Seq<char>>) -> Result<ArgsProgress, (ArgsErrorKind, Seq<char>)>
    decreases ts.len(),
{
    if ts.len() == 0 {
        Ok(p)
    } else {
        match args_step(p, ts[0]) {
            Ok(q) => args_steps(q, ts.drop_first()),
            Err(e) => Err(e),
        }
    }
}

/// The command line `args` (program name first) read as a path, a chunk size and the
/// parallel switch; or the first error, with the argument it concerns.
pub open spec fn parse_args_spec(args: Seq<Seq<char>>) -> Result<(Seq<char>, usize, bool), (ArgsErrorKind, Seq<char>)> {
    let ts = if args.len() > 0 { args.drop_first() } else { args };
    match args_steps(start_progress(), ts) {
        Err(e) => Err(e),
        Ok(p) => if p.awaiting_value {
            Err((ArgsErrorKind::MissingValue, lit_row_chunk_size()))
        } else {
            match p.path {
                None => Err((ArgsErrorKind::MissingPath, Seq::empty())),
                Some(path) => Ok((path, match p.chunk { Some(n) => n, None => DEFAULT_ROW_CHUNK_SIZE }, p.disable)),
            }
        },
    }
}

// ---- the grammar, executable ----

fn string_of(chars: &Vec<char>, from: usize) -> (s: String)
    requires
        from <= chars@.len(),
    ensures
        s@ == chars@.skip(from as int),
{
    let mut s = String::new();
    let n = chars.len();
    let mut i = from;
    while i < n
        invariant
            from <= i <= n,
            n == chars@.len(),
            s@ == chars@.subrange(from as int, i as int),
        decreases n - i,
    {
        s.push(chars[i]);
        proof {
            assert(chars@.subrange(from as int, i + 1) =~= chars@.subrange(from as int, i as int).push(chars@[i as int]));
        }
        i = i + 1;
    }
    proof {
        assert(chars@.subrange(from as int, n as int) =~= chars@.skip(from as int));
    }
    s
}

fn chars_equal(a: &Vec<char>, b: &Vec<char>) -> (r: bool)
    ensures
        r == (a@ == b@),
{
    if a.len() != b.len() {
        return false;
    }
    let n = a.len();
    for i in 0..n
        invariant
            n == a@.len(),
            n == b@.len(),
            forall|j: int| 0 <= j < i ==> a@[j] == b@[j],
    {
        if a[i] != b[i] {
            return false;
        }
    }
    proof {
        assert(a@ =~= b@);
    }
    true
}

fn has_prefix(a: &Vec<char>, b: &Vec<char>) -> (r: bool)
    ensures
        r == (a@.len() >= b@.len() && a@.take(b@.len() as int) == b@),
{
    if a.len() < b.len() {
        return false;
    }
    let n = b.len();
    for i in 0..n
        invariant
            n == b@.len(),
            n <= a@.len(),
            forall|j: int| 0 <= j < i ==> a@[j] == b@[j],
    {
        if a[i] != b[i] {
            proof {
                assert(a@.take(n as int)[i as int] != b@[i as int]);
            }
            return false;
        }
    }
    proof {
        assert(a@.take(n as int) =~= b@);
    }
    true
}

proof fn lemma_digits_value_grows(s: Seq<char>, k: int)
    requires
        0 <= k <= s.len(),
        forall|i: int| 0 <= i < s.len() ==> is_digit(#[trigger] s[i]),
    ensures
        digits_value(s.take(k)) <= digits_value(s),
    decreases s.len() - k,
{
    if k < s.len() {
        lemma_digits_value_grows(s, k + 1);
        assert(s.take(k + 1).drop_last() =~= s.take(k));
    } else {
        assert(s.take(k) =~= s);
    }
}

/// Reads the decimal number held in `chars[from..]`.
fn parse_usize_from(chars: &Vec<char>, from: usize) -> (r: Option<usize>)
    requires
        from <= chars@.len(),
    ensures
        r == parse_usize_spec(chars@.skip(from as int)),
{
    let ghost s = chars@.skip(from as int);
    let n = chars.len();
    let mut start = from;
    if start < n && chars[start] == '+' {
        start = start + 1;
    }
    let ghost d = chars@.skip(start as int);
    proof {
        assert(d =~= unsigned_digits(s));
    }
    if start == n {
        return None;
    }
    let mut value: usize = 0;
    let mut i = start;
    while i < n
        invariant
            start <= i <= n,
            n == chars@.len(),
            start < n,
            d == chars@.skip(start as int),
            s == chars@.skip(from as int),
            d == unsigned_digits(s),
            forall|j: int| 0 <= j < i - start ==> is_digit(#[trigger] d[j]),
            value == digits_value(d.take(i - start)),
        decreases n - i,
    {
        let c = chars[i];
        proof {
            assert(d[i - start] == c);
            assert(d.take(i - start + 1).drop_last() =~= d.take(i - start));
        }
        if !('0' <= c && c <= '9') {
            proof {
                assert(!is_digit(d[i - start]));
            }
            return None;
        }
        let digit = (c as u32 - '0' as u32) as usize;
        match value.checked_mul(10) {
            Some(m) => match m.checked_add(digit) {
                Some(v) => {
                    value = v;
                },
                None => {
                    proof {
                        assert(digits_value(d.take(i - start + 1)) == value * 10 + digit);
                        if forall|q: int| 0 <= q < d.len() ==> is_digit(#[trigger] d[q]) {
                            lemma_digits_value_grows(d, i - start + 1);
                        }
                    }
                    return None;
                },
            },
            None => {
                proof {
                    assert(digits_value(d.take(i - start + 1)) == value * 10 + (c as nat - '0' as nat));
                    if forall|q: int| 0 <= q < d.len() ==> is_digit(#[trigger] d[q]) {
                        lemma_digits_value_grows(d, i - start + 1);
                    }
                }
                return None;
            },
        }
        i = i + 1;
    }
    proof {
        assert(d.take(n - start) =~= d);
    }
    Some(value)
}

/// The reading state, as the executable code holds it.
struct Progress {
    path: Option<String>,
    chunk: Option<usize>,
    disable: bool,
    awaiting_value: bool,
    only_positional: bool,
}

spec fn progress_view(p: Progress) -> ArgsProgress {
    ArgsProgress {
        path: match p.path {
            Some(s) => Some(s@),
            None => None,
        },
        chunk: p.chunk,
        disable: p.disable,
        awaiting_value: p.awaiting_value,
        only_positional: p.only_positional,
    }
}

spec fn step_agrees(p: Progress, t: Seq<char>, r: Result<Progress, ArgsError>) -> bool {
    match r {
        Ok(q) => args_step(progress_view(p), t) == Ok::<ArgsProgress, (ArgsErrorKind, Seq<char>)>(progress_view(q)),
        Err(e) => args_step(progress_view(p), t) == Err::<ArgsProgress, (ArgsErrorKind, Seq<char>)>((e.kind, e.argument@)),
    }
}

fn arg_error(kind: ArgsErrorKind, argument: &Vec<char>) -> (e: ArgsError)
    ensures
        e.kind == kind,
        e.argument@ == argument@,
{
    let s = string_of(argument, 0);
    proof {
        assert(argument@.skip(0) =~= argument@);
    }
    ArgsError { kind, argument: s }
}

fn take_value(p: Progress, v: &Vec<char>, from: usize) -> (r: Result<Progress, ArgsError>)
    requires
        from <= v@.len(),
    ensures
        match r {
            Ok(q) => take_chunk_value(progress_view(p), v@.skip(from as int)) == Ok::<ArgsProgress, (ArgsErrorKind, Seq<char>)>(progress_view(q)),
            Err(e) => take_chunk_value(progress_view(p), v@.skip(from as int)) == Err::<ArgsProgress, (ArgsErrorKind, Seq<char>)>((e.kind, e.argument@)),
        },
{
    match parse_usize_from(v, from) {
        Some(n) => Ok(Progress { chunk: Some(n), awaiting_value: false, ..p }),
        None => Err(ArgsError { kind: ArgsErrorKind::InvalidValue, argument: string_of(v, from) }),
    }
}

fn take_path(p: Progress, t: &Vec<char>) -> (r: Result<Progress, ArgsError>)
    ensures
        match r {
            Ok(q) => take_positional(progress_view(p), t@) == Ok::<ArgsProgress, (ArgsErrorKind, Seq<char>)>(progress_view(q)),
            Err(e) => take_positional(progress_view(p), t@) == Err::<ArgsProgress, (ArgsErrorKind, Seq<char>)>((e.kind, e.argument@)),
        },
{
    if p.path.is_none() {
        let path = string_of(t, 0);
        proof {
            assert(t@.skip(0) =~= t@);
        }
        Ok(Progress { path: Some(path), ..p })
    } else {
        Err(arg_error(ArgsErrorKind::UnexpectedArgument, t))
    }
}

fn step(p: Progress, token: &str) -> (r: Result<Progress, ArgsError>)
    ensures
        step_agrees(p, token@, r),
{
    let t = chars_of(token);
    let opt: Vec<char> = vec!['-', '-', 'r', 'o', 'w', '-', 'c', 'h', 'u', 'n', 'k', '-', 's', 'i', 'z', 'e'];
    let with_eq: Vec<char> = vec!['-', '-', 'r', 'o', 'w', '-', 'c', 'h', 'u', 'n', 'k', '-', 's', 'i', 'z', 'e', '='];
    let flag: Vec<char> = vec!['-', '-', 'd', 'i', 's', 'a', 'b', 'l', 'e', '-', 'p', 'a', 'r', 'a', 'l', 'l', 'e', 'l'];
    let dashes: Vec<char> = vec!['-', '-'];
    let h1: Vec<char> = vec!['-', 'h'];
    let h2: Vec<char> = vec!['-', '-', 'h', 'e', 'l', 'p'];
    let v1: Vec<char> = vec!['-', 'V'];
    let v2: Vec<char> = vec!['-', '-', 'v', 'e', 'r', 's', 'i', 'o', 'n'];
    proof {
        assert(opt@ =~= lit_row_chunk_size());
        assert(with_eq@ =~= lit_row_chunk_size().push('='));
        assert(flag@ =~= lit_disable_parallel());
        assert(dashes@ =~= seq!['-', '-']);
        assert(h1@ =~= seq!['-', 'h']);
        assert(h2@ =~= seq!['-', '-', 'h', 'e', 'l', 'p']);
        assert(v1@ =~= seq!['-', 'V']);
        assert(v2@ =~= seq!['-', '-', 'v', 'e', 'r', 's', 'i', 'o', 'n']);
    }
    let option_like = t.len() > 1 && t[0] == '-';
    if p.awaiting_value {
        if option_like {
            Err(arg_error(ArgsErrorKind::MissingValue, &opt))
        } else {
            let r = take_value(p, &t, 0);
            proof {
                assert(t@.skip(0) =~= t@);
            }
            r
        }
    } else if p.only_positional {
        take_path(p, &t)
    } else if chars_equal(&t, &dashes) {
        Ok(Progress { only_positional: true, ..p })
    } else if chars_equal(&t, &flag) {
        if p.disable {
            Err(arg_error(ArgsErrorKind::RepeatedOption, &t))
        } else {
            Ok(Progress { disable: true, ..p })
        }
    } else if chars_equal(&t, &opt) {
        if p.chunk.is_some() {
            Err(arg_error(ArgsErrorKind::RepeatedOption, &opt))
        } else {
            Ok(Progress { awaiting_value: true, ..p })
        }
    } else if has_prefix(&t, &with_eq) {
        if p.chunk.is_some() {
            Err(arg_error(ArgsErrorKind::RepeatedOption, &opt))
        } else {
            take_value(p, &t, with_eq.len())
        }
    } else if chars_equal(&t, &h1) || chars_equal(&t, &h2) || chars_equal(&t, &v1) || chars_equal(&t, &v2) {
        Err(arg_error(ArgsErrorKind::InfoRequested, &t))
    } else if option_like {
        Err(arg_error(ArgsErrorKind::UnexpectedArgument, &t))
    } else {
        take_path(p, &t)
    }
}

/// The characters of each argument.
pub open spec fn args_view(args: Seq<&str>) -> Seq<Seq<char>> {
    args.map_values(|a: &str| a@)
}

impl TrueSightCsvArgs {
    /// Reads a command line (program name first): one path; `--row-chunk-size <N>` or
    /// `--row-chunk-size=<N>` (default 1000000); `--disable-parallel`; after `--` every
    /// argument is positional. Fails on the first argument that does not fit.
    pub fn try_parse_from(args: &[&str]) -> (r: Result<TrueSightCsvArgs, ArgsError>)
        ensures
            match r {
                Ok(a) => parse_args_spec(args_view(args@)) == Ok::<(Seq<char>, usize, bool), (ArgsErrorKind, Seq<char>)>((a.file_full_path@, a.row_chunk_size, a.disable_parallel)),
                Err(e) => parse_args_spec(args_view(args@)) == Err::<(Seq<char>, usize, bool), (ArgsErrorKind, Seq<char>)>((e.kind, e.argument@)),
            },
    {
        let ghost all = args_view(args@);
        let ghost ts = if all.len() > 0 { all.drop_first() } else { all };
        let mut p = Progress { path: None, chunk: None, disable: false, awaiting_value: false, only_positional: false };
        let n = args.len();
        let mut i: usize = 1;
        proof {
            assert(progress_view(p) == start_progress());
            if n > 0 {
                assert(ts.skip(0) =~= ts);
            }
        }
        while i < n
            invariant
                1 <= i,
                n == args@.len(),
                all == args_view(args@),
                ts == (if all.len() > 0 { all.drop_first() } else { all }),
                i <= n || n == 0,
                n > 0 ==> args_steps(start_progress(), ts) == args_steps(progress_view(p), ts.skip(i - 1)),
                n == 0 ==> progress_view(p) == start_progress(),
            decreases n - i,
        {
            let ghost rest = ts.skip(i - 1);
            proof {
                assert(rest[0] == args@[i as int]@);
                assert(rest.drop_first() =~= ts.skip(i as int));
            }
            match step(p, args[i]) {
                Ok(q) => {
                    p = q;
                },
                Err(e) => {
                    proof {
                        assert(args_steps(start_progress(), ts) == Err::<ArgsProgress, (ArgsErrorKind, Seq<char>)>((e.kind, e.argument@)));
                    }
                    return Err(e);
                },
            }
            i = i + 1;
        }
        proof {
            if n > 0 {
                assert(ts.skip(i - 1) =~= Seq::<Seq<char>>::empty());
                assert(args_steps(progress_view(p), ts.skip(i - 1)) == Ok::<ArgsProgress, (ArgsErrorKind, Seq<char>)>(progress_view(p)));
            } else {
                assert(ts =~= Seq::<Seq<char>>::empty());
            }
            assert(args_steps(start_progress(), ts) == Ok::<ArgsProgress, (ArgsErrorKind, Seq<char>)>(progress_view(p)));
        }
        if p.awaiting_value {
            let opt: Vec<char> = vec!['-', '-', 'r', 'o', 'w', '-', 'c', 'h', 'u', 'n', 'k', '-', 's', 'i', 'z', 'e'];
            proof {
                assert(opt@ =~= lit_row_chunk_size());
            }
            return Err(arg_error(ArgsErrorKind::MissingValue, &opt));
        }
        match p.path {
            None => {
                let e = ArgsError { kind: ArgsErrorKind::MissingPath, argument: String::new() };
                proof {
                    assert(e.argument@ =~= Seq::<char>::empty());
                }
                Err(e)
            },
            Some(path) => {
                let row_chunk_size = match p.chunk {
                    Some(c) => c,
                    None => DEFAULT_ROW_CHUNK_SIZE,
                };
                Ok(TrueSightCsvArgs { file_full_path: path, row_chunk_size, disable_parallel: p.disable })
            },
        }
    }

    /// Whether chunks are scanned in parallel (the default).
    pub fn is_parallel_enabled(&self) -> (r: bool)
        ensures
            r == !self.disable_parallel,
    {
        !self.disable_parallel
    }

    /// Accepts the path when something exists there (`exists`), it is a regular file
    /// (`is_file`), and its extension is exactly `csv`; the checks are made in that order.
    pub fn validate_csv_path(&self, exists: bool, is_file: bool) -> (r: Result<&String, PathError>)
        ensures
            !exists ==> r == Err::<&String, PathError>(PathError::NotFound),
            exists && !is_file ==> r == Err::<&String, PathError>(PathError::NotAFile),
            exists && is_file ==> match path_extension(self.file_full_path@) {
                Some(e) => if e == seq!['c', 's', 'v'] {
                    r == Ok::<&String, PathError>(&self.file_full_path)
                } else {
                    r == Err::<&String, PathError>(PathError::NotCsv)
                },
                None => r == Err::<&String, PathError>(PathError::NotCsv),
            },
    {
        let ext = if exists && is_file {
            extension_of(self.file_full_path.as_str())
        } else {
            None
        };
        match csv_path_verdict(exists, is_file, &ext) {
            Ok(()) => Ok(&self.file_full_path),
            Err(e) => Err(e),
        }
    }
}

/// The extension of the last component of a path, as `Path::extension` computes it.
pub uninterp spec fn path_extension(p: Seq<char>) -> Option<Seq<char>>;

/// Relies on `std::path::Path::extension`: the text after the last `.` of the file name, if
/// the name has one that is not its first character. The extension of a `&str` path is
/// itself valid UTF-8, so the lossy conversion keeps it unchanged.
#[verifier::external_body]
fn extension_of(p: &str) -> (r: Option<String>)
    ensures
        match r {
            Some(e) => path_extension(p@) == Some(e@),
            None => path_extension(p@) is None,
        },
{
    match std::path::Path::new(p).extension() {
        Some(e) => Some(e.to_string_lossy().into_owned()),
        None => None,
    }
}

/// The verdict on a path from what is known of it: whether something exists there, whether
/// it is a regular file, and its extension.
pub fn csv_path_verdict(exists: bool, is_file: bool, extension: &Option<String>) -> (r: Result<(), PathError>)
    ensures
        !exists ==> r == Err::<(), PathError>(PathError::NotFound),
        exists && !is_file ==> r == Err::<(), PathError>(PathError::NotAFile),
        exists && is_file ==> match extension {
            Some(e) => if e@ == seq!['c', 's', 'v'] {
                r == Ok::<(), PathError>(())
            } else {
                r == Err::<(), PathError>(PathError::NotCsv)
            },
            None => r == Err::<(), PathError>(PathError::NotCsv),
        },
{
    if !exists {
        return Err(PathError::NotFound);
    }
    if !is_file {
        return Err(PathError::NotAFile);
    }
    match extension {
        Some(e) => {
            let c = chars_of(e.as_str());
            let csv: Vec<char> = vec!['c', 's', 'v'];
            proof {
                assert(csv@ =~= seq!['c', 's', 'v']);
            }
            if chars_equal(&c, &csv) {
                Ok(())
            } else {
                Err(PathError::NotCsv)
            }
        },
        None => Err(PathError::NotCsv),
    }
}

} // verus!
