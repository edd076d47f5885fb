use vstd::prelude::*;
use crate::log::{accumulate, map_collect_result, res_view, LogResult, LogV};

verus! {

/// The text with leading and trailing white space removed, white space being
/// what `char::is_whitespace` accepts.
pub uninterp spec fn trimmed(s: Seq<char>) -> Seq<char>;

/// Relies on `str::trim`: it removes leading and trailing white space, and the
/// result depends on the characters alone.
#[verifier::external_body]
pub(crate) fn trim_str(s: &str) -> (r: &str)
    ensures
        r@ == trimmed(s@),
{
    s.trim()
}

/// The lines of a text, as `str::lines` splits it.
pub uninterp spec fn lines_of(s: Seq<char>) -> Seq<Seq<char>>;

/// Relies on `str::lines`: the lines of the text, split at line breaks, each
/// without its line terminator; the result depends on the characters alone.
#[verifier::external_body]
pub(crate) fn split_lines(s: &str) -> (r: Vec<String>)
    ensures
        r@.map_values(|l: String| l@) == lines_of(s@),
{
    s.lines().map(|l| l.to_string()).collect()
}

/// Relies on `String::push`: appends one character.
#[verifier::external_body]
pub(crate) fn push_char(s: &mut String, c: char)
    ensures
        final(s)@ == old(s)@.push(c),
{
    s.push(c)
}

/// Whether two strings hold the same characters.
pub fn str_eq(a: &str, b: &str) -> (r: bool)
    ensures
        r == (a@ == b@),
{
    let n = a.unicode_len();
    let m = b.unicode_len();
    if n != m {
        return false;
    }
    let mut i: usize = 0;
    while i < n
        invariant
            n == a@.len(),
            m == b@.len(),
            n == m,
            i <= n,
            a@.subrange(0, i as int) == b@.subrange(0, i as int),
        decreases n - i,
    {
        if a.get_char(i) != b.get_char(i) {
            return false;
        }
        proof {
            assert(a@.subrange(0, i + 1) =~= a@.subrange(0, i as int).push(a@[i as int]));
            assert(b@.subrange(0, i + 1) =~= b@.subrange(0, i as int).push(b@[i as int]));
        }
        i = i + 1;
    }
    proof {
        assert(a@ =~= a@.subrange(0, n as int));
        assert(b@ =~= b@.subrange(0, n as int));
    }
    true
}

/// Texts joined by a separator.
pub open spec fn join_sep(parts: Seq<Seq<char>>, sep: Seq<char>) -> Seq<char>
    decreases parts.len(),
{
    if parts.len() == 0 {
        seq![]
    } else if parts.len() == 1 {
        parts[0]
    } else {
        join_sep(parts.drop_last(), sep) + sep + parts.last()
    }
}

/// Joins texts with a separator.
pub fn join_with(lines: &Vec<String>, sep: &str) -> (r: String)
    ensures
        r@ == join_sep(lines@.map_values(|s: String| s@), sep@),
{
    let mut out = String::new();
    let mut i: usize = 0;
    while i < lines.len()
        invariant
            i <= lines.len(),
            out@ == join_sep(lines@.subrange(0, i as int).map_values(|s: String| s@), sep@),
        decreases lines.len() - i,
    {
        if i > 0 {
            out.append(sep);
        }
        out.append(lines[i].as_str());
        proof {
            let pre = lines@.subrange(0, i as int).map_values(|s: String| s@);
            let post = lines@.subrange(0, i + 1).map_values(|s: String| s@);
            assert(post.drop_last() =~= pre);
            if i == 0 {
                assert(out@ =~= post[0]);
            }
        }
        i = i + 1;
    }
    proof {
        assert(lines@.subrange(0, i as int) =~= lines@);
    }
    out
}

/// Each line with a prefix.
pub open spec fn prefix_each(lines: Seq<Seq<char>>, prefix: Seq<char>) -> Seq<Seq<char>> {
    lines.map_values(|l: Seq<char>| prefix + l)
}

fn prefix_lines(lines: &Vec<String>, prefix: &str) -> (r: Vec<String>)
    ensures
        r@.map_values(|s: String| s@) == prefix_each(lines@.map_values(|s: String| s@), prefix@),
{
    let mut out: Vec<String> = Vec::new();
    let mut i: usize = 0;
    while i < lines.len()
        invariant
            i <= lines.len(),
            out@.map_values(|s: String| s@) == prefix_each(lines@.subrange(0, i as int).map_values(|s: String| s@), prefix@),
        decreases lines.len() - i,
    {
        let l = String::from_str(prefix).concat(lines[i].as_str());
        proof {
            assert(out@.push(l).map_values(|s: String| s@) =~= out@.map_values(|s: String| s@).push(l@));
            assert(prefix_each(lines@.subrange(0, i + 1).map_values(|s: String| s@), prefix@)
                =~= prefix_each(lines@.subrange(0, i as int).map_values(|s: String| s@), prefix@).push(l@));
        }
        out.push(l);
        i = i + 1;
    }
    proof {
        assert(lines@.subrange(0, i as int) =~= lines@);
    }
    out
}

/// A text as a doc comment: each line of the trimmed text behind `/// `.
pub open spec fn spec_commentize(s: Seq<char>) -> Seq<char> {
    join_sep(prefix_each(lines_of(trimmed(s)), "/// "@), "\n"@)
}

pub fn commentize(s: &str) -> (r: String)
    ensures
        r@ == spec_commentize(s@),
{
    let lines = split_lines(trim_str(s));
    join_with(&prefix_lines(&lines, "/// "), "\n")
}

/// A text with each line indented by four spaces.
pub open spec fn spec_indent(s: Seq<char>) -> Seq<char> {
    join_sep(prefix_each(lines_of(s), "    "@), "\n"@)
}

pub fn indent(s: &str) -> (r: String)
    ensures
        r@ == spec_indent(s@),
{
    let lines = split_lines(s);
    join_with(&prefix_lines(&lines, "    "), "\n")
}

/// The texts of all outcomes joined by a separator, or every diagnostic.
pub open spec fn spec_map_join(rs: Seq<Result<Seq<char>, Seq<LogV>>>, sep: Seq<char>) -> Result<Seq<char>, Seq<LogV>> {
    match accumulate(rs) {
        Err(e) => Err(e),
        Ok(parts) => Ok(join_sep(parts, sep)),
    }
}

/// Joins rendered texts with a separator, accumulating every failure.
pub fn map_join(rs: Vec<LogResult<String>>, sep: &str) -> (r: LogResult<String>)
    ensures
        res_view(r) == spec_map_join(rs@.map_values(|x: LogResult<String>| res_view(x)), sep@),
{
    let parts = map_collect_result(rs)?;
    Ok(join_with(&parts, sep))
}

/// A rendered text with surrounding white space removed.
pub open spec fn spec_trim_result(r: Result<Seq<char>, Seq<LogV>>) -> Result<Seq<char>, Seq<LogV>> {
    match r {
        Ok(s) => Ok(trimmed(s)),
        Err(e) => Err(e),
    }
}

pub fn trim_result(r: LogResult<String>) -> (t: LogResult<String>)
    ensures
        res_view(t) == spec_trim_result(res_view(r)),
{
    match r {
        Ok(s) => Ok(String::from_str(trim_str(s.as_str()))),
        Err(e) => Err(e),
    }
}

} // verus!
