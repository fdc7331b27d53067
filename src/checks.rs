//! Field-level pattern checks: empty, whitespace-only and null-like values.
use vstd::prelude::*;

verus! {

/// Unicode `White_Space` characters, the set that `char::is_whitespace` accepts.
pub open spec fn is_ws(c: char) -> bool {
    ||| ('\u{9}' <= c && c <= '\u{d}')
    ||| c == ' '
    ||| c == '\u{85}'
    ||| c == '\u{a0}'
    ||| c == '\u{1680}'
    ||| ('\u{2000}' <= c && c <= '\u{200a}')
    ||| c == '\u{2028}'
    ||| c == '\u{2029}'
    ||| c == '\u{202f}'
    ||| c == '\u{205f}'
    ||| c == '\u{3000}'
}

/// `s` with its leading whitespace removed.
pub open spec fn trim_start_spec(s: Seq<char>) -> Seq<char>
    decreases s.len(),
{
    if s.len() > 0 && is_ws(s[0]) {
        trim_start_spec(s.drop_first())
    } else {
        s
    }
}

/// `s` with its trailing whitespace removed.
pub open spec fn trim_end_spec(s: Seq<char>) -> Seq<char>
    decreases s.len(),
{
    if s.len() > 0 && is_ws(s.last()) {
        trim_end_spec(s.drop_last())
    } else {
        s
    }
}

/// `s` with leading and trailing whitespace removed.
pub open spec fn trim_spec(s: Seq<char>) -> Seq<char> {
    trim_end_spec(trim_start_spec(s))
}

pub open spec fn all_ws(s: Seq<char>) -> bool {
    forall|i: int| 0 <= i < s.len() ==> is_ws(#[trigger] s[i])
}

pub open spec fn is_ascii_upper(c: char) -> bool {
    'A' <= c && c <= 'Z'
}

/// Two characters are equal once ASCII letters are folded to one case.
pub open spec fn ascii_ci_char_eq(a: char, b: char) -> bool {
    ||| a == b
    ||| (is_ascii_upper(a) && b as u32 == a as u32 + 32)
    ||| (is_ascii_upper(b) && a as u32 == b as u32 + 32)
}

/// ASCII case-insensitive equality of two strings.
pub open spec fn ascii_ci_eq(a: Seq<char>, b: Seq<char>) -> bool {
    &&& a.len() == b.len()
    &&& forall|i: int| 0 <= i < a.len() ==> ascii_ci_char_eq(#[trigger] a[i], b[i])
}

/// The tokens that the null-like check recognises, in their canonical spelling.
pub open spec fn null_tokens() -> Seq<Seq<char>> {
    seq![
        seq!['N', 'U', 'L', 'L'],
        seq!['N', '/', 'A'],
        seq!['N', 'A'],
        seq!['N', 'O', 'N', 'E'],
        seq!['N', 'a', 'N'],
    ]
}

/// The empty check: the field has no characters at all.
pub open spec fn empty_spec(v: Seq<char>) -> bool {
    v.len() == 0
}

/// The whitespace-only check: the field is non-empty and consists of whitespace alone.
/// It never matches the empty field, so it is disjoint from the empty check.
pub open spec fn whitespace_only_spec(v: Seq<char>) -> bool {
    v.len() > 0 && all_ws(v)
}

/// The null-like check: the trimmed field is one of the null tokens, ignoring ASCII case.
pub open spec fn null_like_spec(v: Seq<char>) -> bool {
    exists|i: int| 0 <= i < null_tokens().len() && ascii_ci_eq(trim_spec(v), #[trigger] null_tokens()[i])
}

/// No field value is both empty and whitespace-only: the two checks never count the same
/// field.
pub proof fn law_empty_and_whitespace_disjoint(v: Seq<char>)
    ensures
        !(empty_spec(v) && whitespace_only_spec(v)),
{
}

/// The three built-in checks.
#[derive(Clone, Copy, Debug, PartialEq, Eq, Structural)]
pub enum CheckKind {
    NullLike,
    Empty,
    WhitespaceOnly,
}

/// Whether the check `k` matches the field value `v`.
pub open spec fn check_matches(k: CheckKind, v: Seq<char>) -> bool {
    match k {
        CheckKind::NullLike => null_like_spec(v),
        CheckKind::Empty => empty_spec(v),
        CheckKind::WhitespaceOnly => whitespace_only_spec(v),
    }
}

/// Relies on `str::trim`: removes leading and trailing `char::is_whitespace` characters.
#[verifier::external_body]
fn trim_str(s: &str) -> (r: &str)
    ensures
        r@ == trim_spec(s@),
{
    s.trim()
}

/// Relies on `str::eq_ignore_ascii_case`: equality after ASCII lowercasing of both sides.
#[verifier::external_body]
fn eq_ignore_ascii_case_str(a: &str, b: &str) -> (r: bool)
    ensures
        r == ascii_ci_eq(a@, b@),
{
    a.eq_ignore_ascii_case(b)
}

proof fn lemma_trim_start_empty(s: Seq<char>)
    ensures
        (trim_start_spec(s).len() == 0) == all_ws(s),
        trim_start_spec(s).len() > 0 ==> !is_ws(trim_start_spec(s)[0]),
    decreases s.len(),
{
    if s.len() > 0 && is_ws(s[0]) {
        lemma_trim_start_empty(s.drop_first());
        if all_ws(s.drop_first()) {
            assert forall|i: int| 0 <= i < s.len() implies is_ws(#[trigger] s[i]) by {
                if i > 0 {
                    assert(s[i] == s.drop_first()[i - 1]);
                }
            }
        }
        if all_ws(s) {
            assert forall|i: int| 0 <= i < s.drop_first().len() implies is_ws(
                #[trigger] s.drop_first()[i],
            ) by {
                assert(s.drop_first()[i] == s[i + 1]);
            }
        }
    } else if s.len() > 0 {
        assert(!is_ws(s[0]));
    }
}

proof fn lemma_trim_end_keeps_nonempty(s: Seq<char>)
    requires
        s.len() > 0,
        !is_ws(s[0]),
    ensures
        trim_end_spec(s).len() > 0,
    decreases s.len(),
{
    if is_ws(s.last()) {
        if s.len() == 1 {
            assert(s.last() == s[0]);
        } else {
            assert(s.drop_last()[0] == s[0]);
            lemma_trim_end_keeps_nonempty(s.drop_last());
        }
    }
}

/// The trimmed field is empty exactly when every character is whitespace.
pub proof fn lemma_trim_empty_iff_all_ws(s: Seq<char>)
    ensures
        (trim_spec(s).len() == 0) == all_ws(s),
{
    lemma_trim_start_empty(s);
    let t = trim_start_spec(s);
    if t.len() > 0 {
        lemma_trim_end_keeps_nonempty(t);
    }
}

/// A predicate over one field value, with a name and a description for reports.
pub trait PatternCheck {
    /// What the check accepts, as a predicate on the field's characters.
    spec fn matches_spec(&self, value: Seq<char>) -> bool;

    fn name(&self) -> &str;

    fn check(&self, value: &str) -> (r: bool)
        ensures
            r == self.matches_spec(value@),
    ;

    fn show_check_pattern(&self) -> &str;
}

/// Matches the empty field.
pub struct EmptyCheck;

impl EmptyCheck {
    pub fn new() -> Self {
        EmptyCheck
    }
}

impl PatternCheck for EmptyCheck {
    open spec fn matches_spec(&self, value: Seq<char>) -> bool {
        empty_spec(value)
    }

    fn name(&self) -> &str {
        "Empty"
    }

    fn check(&self, value: &str) -> (r: bool) {
        value.is_empty()
    }

    fn show_check_pattern(&self) -> &str {
        "Empty string \"\""
    }
}

/// Matches a non-empty field made of whitespace only.
pub struct WhiteSpaceOnlyCheck;

impl WhiteSpaceOnlyCheck {
    pub fn new() -> Self {
        WhiteSpaceOnlyCheck
    }
}

impl PatternCheck for WhiteSpaceOnlyCheck {
    open spec fn matches_spec(&self, value: Seq<char>) -> bool {
        whitespace_only_spec(value)
    }

    fn name(&self) -> &str {
        "WhiteSpaceOnlyCheck"
    }

    fn check(&self, value: &str) -> (r: bool) {
        let t = trim_str(value);
        proof {
            lemma_trim_empty_iff_all_ws(value@);
        }
        !value.is_empty() && t.is_empty()
    }

    fn show_check_pattern(&self) -> &str {
        "WhiteSpaceOnlyCheck string ' ' "
    }
}

/// Matches a conventional "no value" token such as `NULL` or `N/A`.
pub struct NullLikeCheck;

impl NullLikeCheck {
    /// The recognised tokens; matching ignores ASCII case and surrounding whitespace.
    pub const NULL_LIKE_VALUES: [&'static str; 5] = ["NULL", "N/A", "NA", "NONE", "NaN"];

    pub fn new() -> Self {
        NullLikeCheck
    }
}

impl PatternCheck for NullLikeCheck {
    open spec fn matches_spec(&self, value: Seq<char>) -> bool {
        null_like_spec(value)
    }

    fn name(&self) -> &str {
        "NULL_LIKE_VALUES"
    }

    fn check(&self, value: &str) -> (r: bool) {
        let t = trim_str(value);
        proof {
            reveal_strlit("NULL");
            reveal_strlit("N/A");
            reveal_strlit("NA");
            reveal_strlit("NONE");
            reveal_strlit("NaN");
            assert("NULL"@ == null_tokens()[0]);
            assert("N/A"@ == null_tokens()[1]);
            assert("NA"@ == null_tokens()[2]);
            assert("NONE"@ == null_tokens()[3]);
            assert("NaN"@ == null_tokens()[4]);
        }
        let r = eq_ignore_ascii_case_str(t, "NULL") || eq_ignore_ascii_case_str(t, "N/A")
            || eq_ignore_ascii_case_str(t, "NA") || eq_ignore_ascii_case_str(t, "NONE")
            || eq_ignore_ascii_case_str(t, "NaN");
        proof {
            if r {
            } else {
                assert forall|i: int| 0 <= i < null_tokens().len() implies !ascii_ci_eq(
                    trim_spec(value@),
                    #[trigger] null_tokens()[i],
                ) by {}
            }
        }
        r
    }

    fn show_check_pattern(&self) -> &str {
        "NULL, N/A, NA, None, NaN"
    }
}

/// Evaluates the check `kind` on one field value.
pub fn field_matches(kind: CheckKind, value: &str) -> (r: bool)
    ensures
        r == check_matches(kind, value@),
{
    match kind {
        CheckKind::NullLike => NullLikeCheck.check(value),
        CheckKind::Empty => EmptyCheck.check(value),
        CheckKind::WhitespaceOnly => WhiteSpaceOnlyCheck.check(value),
    }
}

} // verus!
