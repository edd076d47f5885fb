use vstd::prelude::*;

verus! {

/// A position in source text: a line (from 1) and a column (from 0).
#[derive(Clone, Copy, Debug, Default, PartialEq, Eq, Structural)]
pub struct KLineColumn {
    pub line: usize,
    pub column: usize,
}

/// The source region that a node of the model came from.
#[derive(Clone, Copy, Debug, Default, PartialEq, Eq, Structural)]
pub struct KSpan {
    pub start: KLineColumn,
    pub end: KLineColumn,
}

/// The decimal digits of a number.
pub open spec fn decimal(n: nat) -> Seq<char>
    decreases n,
{
    if n < 10 {
        seq![digit_char(n)]
    } else {
        decimal(n / 10).push(digit_char(n % 10))
    }
}

pub open spec fn digit_char(d: nat) -> char {
    (('0' as u32) + d) as char
}

/// Writes a number in decimal.
pub fn to_decimal(n: usize) -> (r: String)
    ensures
        r@ == decimal(n as nat),
    decreases n,
{
    let d = (n % 10) as u32;
    let c = char_of_digit(d);
    if n < 10 {
        let mut s = String::new();
        crate::text::push_char(&mut s, c);
        proof {
            assert(s@ =~= seq![c]);
        }
        s
    } else {
        let mut s = to_decimal(n / 10);
        crate::text::push_char(&mut s, c);
        s
    }
}

fn char_of_digit(d: u32) -> (c: char)
    requires
        d < 10,
    ensures
        c == digit_char(d as nat),
{
    if d == 0 { '0' } else if d == 1 { '1' } else if d == 2 { '2' } else if d == 3 { '3' } else if d == 4 { '4' }
    else if d == 5 { '5' } else if d == 6 { '6' } else if d == 7 { '7' } else if d == 8 { '8' } else { '9' }
}

/// The text form of a span, `line:column-line:column`.
pub open spec fn span_text(s: KSpan) -> Seq<char> {
    decimal(s.start.line as nat) + ":"@ + decimal(s.start.column as nat) + "-"@ + decimal(s.end.line as nat) + ":"@
        + decimal(s.end.column as nat)
}

impl KSpan {
    /// Writes the span as `line:column-line:column`.
    pub fn to_text(&self) -> (r: String)
        ensures
            r@ == span_text(*self),
    {
        let mut s = to_decimal(self.start.line);
        s.append(":");
        s.append(to_decimal(self.start.column).as_str());
        s.append("-");
        s.append(to_decimal(self.end.line).as_str());
        s.append(":");
        s.append(to_decimal(self.end.column).as_str());
        s
    }
}

// ----- Reading spans back -----

/// The first position of a character in a text, or -1.
pub open spec fn first_index(t: Seq<char>, c: char) -> int
    decreases t.len(),
{
    if t.len() == 0 {
        -1
    } else if first_index(t.drop_last(), c) >= 0 {
        first_index(t.drop_last(), c)
    } else if t.last() == c {
        t.len() - 1
    } else {
        -1
    }
}

pub proof fn lemma_first_index(t: Seq<char>, c: char)
    ensures
        -1 <= first_index(t, c) < t.len(),
        first_index(t, c) >= 0 ==> t[first_index(t, c)] == c,
        forall|j: int| 0 <= j < t.len() && (first_index(t, c) < 0 || j < first_index(t, c)) ==> t[j] != c,
    decreases t.len(),
{
    if t.len() > 0 {
        let p = t.drop_last();
        lemma_first_index(p, c);
        assert forall|j: int| 0 <= j < t.len() && (first_index(t, c) < 0 || j < first_index(t, c)) implies t[j] != c by {
            if j < t.len() - 1 {
                assert(t[j] == p[j]);
            }
        }
    }
}

/// The first position of `c` in `x + [c] + y` is `x.len()` when `x` has no `c`.
pub proof fn lemma_first_index_at(x: Seq<char>, c: char, y: Seq<char>)
    requires
        forall|j: int| 0 <= j < x.len() ==> x[j] != c,
    ensures
        first_index(x + seq![c] + y, c) == x.len(),
{
    let t = x + seq![c] + y;
    lemma_first_index(t, c);
    let k = first_index(t, c);
    assert(t[x.len() as int] == c);
    if k >= 0 && k < x.len() {
        assert(t[k] == x[k]);
    }
}

/// The value of a decimal numeral, if it is one and fits a `usize`.
pub open spec fn spec_parse_usize(u: Seq<char>) -> Option<usize> {
    if u.len() > 0 && (forall|i: int| 0 <= i < u.len() ==> crate::attr::is_digit(#[trigger] u[i]))
        && crate::attr::digits_value(u) <= usize::MAX {
        Some(crate::attr::digits_value(u) as usize)
    } else {
        None
    }
}

/// A position written `line:column`.
pub open spec fn spec_parse_position(u: Seq<char>) -> Option<KLineColumn> {
    let j = first_index(u, ':');
    if j < 0 {
        None
    } else {
        match (spec_parse_usize(u.subrange(0, j)), spec_parse_usize(u.subrange(j + 1, u.len() as int))) {
            (Some(line), Some(column)) => Some(KLineColumn { line, column }),
            _ => None,
        }
    }
}

/// A span written `line:column-line:column`.
pub open spec fn spec_parse_span(t: Seq<char>) -> Option<KSpan> {
    let i = first_index(t, '-');
    if i < 0 {
        None
    } else {
        match (spec_parse_position(t.subrange(0, i)), spec_parse_position(t.subrange(i + 1, t.len() as int))) {
            (Some(start), Some(end)) => Some(KSpan { start, end }),
            _ => None,
        }
    }
}

fn find_char(t: &str, c: char) -> (r: Option<usize>)
    ensures
        match r {
            Some(i) => first_index(t@, c) == i,
            None => first_index(t@, c) < 0,
        },
{
    proof {
        lemma_first_index(t@, c);
    }
    let n = t.unicode_len();
    let mut i: usize = 0;
    while i < n
        invariant
            n == t@.len(),
            i <= n,
            forall|j: int| 0 <= j < i ==> t@[j] != c,
            -1 <= first_index(t@, c) < t@.len(),
            first_index(t@, c) >= 0 ==> t@[first_index(t@, c)] == c,
            forall|j: int| 0 <= j < t@.len() && (first_index(t@, c) < 0 || j < first_index(t@, c)) ==> t@[j] != c,
        decreases n - i,
    {
        if t.get_char(i) == c {
            return Some(i);
        }
        i = i + 1;
    }
    None
}

fn parse_usize(s: &str) -> (r: Option<usize>)
    ensures
        r == spec_parse_usize(s@),
{
    let n = s.unicode_len();
    if n == 0 {
        return None;
    }
    let mut i: usize = 0;
    let mut value: usize = 0;
    let mut overflowed = false;
    let ghost mut gv: int = 0;
    while i < n
        invariant
            n == s@.len(),
            i <= n,
            forall|j: int| 0 <= j < i ==> crate::attr::is_digit(#[trigger] s@[j]),
            gv == crate::attr::digits_value(s@.subrange(0, i as int)),
            gv >= 0,
            overflowed ==> gv > usize::MAX,
            !overflowed ==> value == gv,
        decreases n - i,
    {
        let c = s.get_char(i);
        if !('0' <= c && c <= '9') {
            return None;
        }
        let d = (c as u32 - '0' as u32) as usize;
        let ghost prev = gv;
        proof {
            assert(s@.subrange(0, i + 1).drop_last() =~= s@.subrange(0, i as int));
            gv = gv * 10 + d;
        }
        if !overflowed {
            if value > (usize::MAX - d) / 10 {
                overflowed = true;
                assert(gv > usize::MAX) by (nonlinear_arith)
                    requires value > (usize::MAX - d) / 10, gv == value * 10 + d, 0 <= d <= 9;
            } else {
                assert(value * 10 + d <= usize::MAX) by (nonlinear_arith)
                    requires value <= (usize::MAX - d) / 10, 0 <= d <= 9, value >= 0;
                value = value * 10 + d;
            }
        } else {
            assert(gv > usize::MAX) by (nonlinear_arith)
                requires prev > usize::MAX, gv == prev * 10 + d, 0 <= d <= 9;
        }
        i = i + 1;
    }
    proof {
        assert(s@.subrange(0, n as int) =~= s@);
    }
    if overflowed {
        None
    } else {
        Some(value)
    }
}

fn parse_position(u: &str) -> (r: Option<KLineColumn>)
    ensures
        r == spec_parse_position(u@),
{
    let n = u.unicode_len();
    let j = match find_char(u, ':') {
        None => return None,
        Some(j) => j,
    };
    proof {
        lemma_first_index(u@, ':');
    }
    let line = parse_usize(u.substring_char(0, j));
    let column = parse_usize(u.substring_char(j + 1, n));
    match (line, column) {
        (Some(line), Some(column)) => Some(KLineColumn { line, column }),
        _ => None,
    }
}

impl KSpan {
    /// Reads a span written `line:column-line:column`.
    pub fn parse_text(t: &str) -> (r: Option<KSpan>)
        ensures
            r == spec_parse_span(t@),
    {
        let n = t.unicode_len();
        let i = match find_char(t, '-') {
            None => return None,
            Some(i) => i,
        };
        proof {
            lemma_first_index(t@, '-');
        }
        let start = parse_position(t.substring_char(0, i));
        let end = parse_position(t.substring_char(i + 1, n));
        match (start, end) {
            (Some(start), Some(end)) => Some(KSpan { start, end }),
            _ => None,
        }
    }
}

proof fn lemma_decimal(n: nat)
    ensures
        decimal(n).len() > 0,
        forall|i: int| 0 <= i < decimal(n).len() ==> crate::attr::is_digit(#[trigger] decimal(n)[i]),
        crate::attr::digits_value(decimal(n)) == n,
    decreases n,
{
    assert(digit_char(n % 10) as int - '0' as int == n % 10);
    assert(decimal(n).last() == digit_char(n % 10));
    assert(crate::attr::digits_value(decimal(n)) == crate::attr::digits_value(decimal(n).drop_last()) * 10 + (
    decimal(n).last() as int - '0' as int));
    if n < 10 {
        assert(decimal(n).drop_last() =~= seq![]);
        assert(n % 10 == n);
    } else {
        lemma_decimal(n / 10);
        let p = decimal(n / 10);
        assert(decimal(n).drop_last() =~= p);
        assert((n / 10) * 10 + n % 10 == n);
        assert forall|i: int| 0 <= i < decimal(n).len() implies crate::attr::is_digit(#[trigger] decimal(n)[i]) by {
            if i < p.len() {
                assert(decimal(n)[i] == p[i]);
            }
        }
    }
}

proof fn lemma_parse_usize_decimal(n: usize)
    ensures
        spec_parse_usize(decimal(n as nat)) == Some(n),
{
    lemma_decimal(n as nat);
}

proof fn lemma_parse_position_text(p: KLineColumn)
    ensures
        spec_parse_position(decimal(p.line as nat) + ":"@ + decimal(p.column as nat)) == Some(p),
{
    reveal_strlit(":");
    let a = decimal(p.line as nat);
    let b = decimal(p.column as nat);
    lemma_decimal(p.line as nat);
    lemma_decimal(p.column as nat);
    let u = a + ":"@ + b;
    assert(u =~= a + seq![':'] + b);
    assert forall|j: int| 0 <= j < a.len() implies a[j] != ':' by {
        assert(crate::attr::is_digit(a[j]));
    }
    lemma_first_index_at(a, ':', b);
    assert(u.subrange(0, a.len() as int) =~= a);
    assert(u.subrange(a.len() as int + 1, u.len() as int) =~= b);
    lemma_parse_usize_decimal(p.line);
    lemma_parse_usize_decimal(p.column);
}

/// Reading back the text form of a span gives the span.
pub proof fn lemma_span_text_round_trip(s: KSpan)
    ensures
        spec_parse_span(span_text(s)) == Some(s),
{
    reveal_strlit(":");
    reveal_strlit("-");
    let x = decimal(s.start.line as nat) + ":"@ + decimal(s.start.column as nat);
    let y = decimal(s.end.line as nat) + ":"@ + decimal(s.end.column as nat);
    let t = span_text(s);
    assert(t =~= x + seq!['-'] + y);
    lemma_decimal(s.start.line as nat);
    lemma_decimal(s.start.column as nat);
    let a = decimal(s.start.line as nat);
    let b = decimal(s.start.column as nat);
    assert forall|j: int| 0 <= j < x.len() implies x[j] != '-' by {
        if j < a.len() {
            assert(x[j] == a[j]);
            assert(crate::attr::is_digit(a[j]));
        } else if j > a.len() {
            assert(x[j] == b[j - a.len() - 1]);
            assert(crate::attr::is_digit(b[j - a.len() - 1]));
        }
    }
    lemma_first_index_at(x, '-', y);
    assert(t.subrange(0, x.len() as int) =~= x);
    assert(t.subrange(x.len() as int + 1, t.len() as int) =~= y);
    lemma_parse_position_text(s.start);
    lemma_parse_position_text(s.end);
}

} // verus!
