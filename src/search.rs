//! Event-query building blocks: filter operators, field resolution and
//! free-text search conditions.
use vstd::prelude::*;
use vstd::string::*;
use crate::text::{push_str, push_chars, string_from_chars, chars_of, sub_chars};
use crate::selector::{joined, escape_quotes, push_escaped_chars};

verus! {

/// The time range of an event query, as the client wrote it.
pub struct TimeRange {
    pub from: String,
    pub to: String,
}

/// Comparison of an event field with a value.
#[derive(PartialEq, Eq, Structural, Clone, Copy, Debug)]
pub enum FilterOp {
    Eq,
    Ne,
    Gt,
    Gte,
    Lt,
    Lte,
    Like,
    NotLike,
    In,
    NotIn,
}

/// The SQL operator of a filter operator (also its name in requests).
pub open spec fn operator_text(op: FilterOp) -> Seq<char> {
    match op {
        FilterOp::Eq => "="@,
        FilterOp::Ne => "!="@,
        FilterOp::Gt => ">"@,
        FilterOp::Gte => ">="@,
        FilterOp::Lt => "<"@,
        FilterOp::Lte => "<="@,
        FilterOp::Like => "LIKE"@,
        FilterOp::NotLike => "NOT LIKE"@,
        FilterOp::In => "IN"@,
        FilterOp::NotIn => "NOT IN"@,
    }
}

impl FilterOp {
    /// The SQL operator, which is also the operator's name in requests.
    pub fn operator(&self) -> (r: &'static str)
        ensures
            r@ == operator_text(*self),
    {
        match self {
            FilterOp::Eq => "=",
            FilterOp::Ne => "!=",
            FilterOp::Gt => ">",
            FilterOp::Gte => ">=",
            FilterOp::Lt => "<",
            FilterOp::Lte => "<=",
            FilterOp::Like => "LIKE",
            FilterOp::NotLike => "NOT LIKE",
            FilterOp::In => "IN",
            FilterOp::NotIn => "NOT IN",
        }
    }
}

/// A time bucket of event counts.
pub struct CountBucket {
    pub bucket: String,
    pub count: u64,
    pub error_count: u64,
}

/// A single string value read from the store.
pub struct StringValueRow {
    pub val: String,
}

/// A single count read from the store.
pub struct CountRow {
    pub count: u64,
}

/// `s` with each `.` replaced by `', '`: the quoted path segments of a
/// dotted key, once wrapped in quotes.
pub open spec fn dots_to_args(s: Seq<char>) -> Seq<char>
    decreases s.len(),
{
    if s.len() == 0 {
        seq![]
    } else {
        dots_to_args(s.drop_last()) + if s.last() == '.' {
            "', '"@
        } else {
            seq![s.last()]
        }
    }
}

/// The column expression for a user-facing event field: attributes are read
/// from the JSON attributes column by their flat dotted key, falling back to
/// the nested path when the key has dots; other fields are columns.
pub open spec fn resolved_field(field: Seq<char>) -> Seq<char> {
    let prefix = "attributes."@;
    if field.len() >= prefix.len() && field.subrange(0, prefix.len() as int) == prefix {
        let path = field.subrange(prefix.len() as int, field.len() as int);
        let flat = "JSONExtractString(attributes, '"@ + path + "')"@;
        if !path.contains('.') {
            flat
        } else {
            let nested = "JSONExtractString(attributes, '"@ + dots_to_args(path) + "')"@;
            "if("@ + flat + " != '', "@ + flat + ", "@ + nested + ")"@
        }
    } else {
        field
    }
}

/// Whether `s` starts with `prefix`.
fn starts_with(s: &Vec<char>, prefix: &str) -> (r: bool)
    ensures
        r == (s@.len() >= prefix@.len() && s@.subrange(0, prefix@.len() as int) == prefix@),
{
    let p = chars_of(prefix);
    if s.len() < p.len() {
        return false;
    }
    let mut i: usize = 0;
    while i < p.len()
        invariant
            i <= p@.len(),
            p@ == prefix@,
            s@.len() >= p@.len(),
            s@.subrange(0, i as int) == p@.subrange(0, i as int),
        decreases p@.len() - i,
    {
        if s[i] != p[i] {
            assert(s@.subrange(0, p@.len() as int)[i as int] != p@[i as int]);
            return false;
        }
        i += 1;
        assert(s@.subrange(0, i as int) =~= s@.subrange(0, i - 1).push(s@[i - 1]));
        assert(p@.subrange(0, i as int) =~= p@.subrange(0, i - 1).push(p@[i - 1]));
    }
    assert(p@.subrange(0, p@.len() as int) =~= p@);
    true
}

/// The column expression for a user-facing event field.
pub fn resolve_field(field: &str) -> (r: String)
    ensures
        r@ == resolved_field(field@),
{
    let f = chars_of(field);
    if !starts_with(&f, "attributes.") {
        return string_from_chars(&f);
    }
    let ghost prefix = "attributes."@;
    let k: usize = 11;
    assert(prefix.len() == 11) by {
        reveal_strlit("attributes.");
    }
    let ghost path = f@.subrange(11, f@.len() as int);
    let mut flat: Vec<char> = Vec::new();
    push_str(&mut flat, "JSONExtractString(attributes, '");
    push_chars(&mut flat, &f, k);
    push_str(&mut flat, "')");
    // the path's segments, quoted and separated
    let mut args: Vec<char> = Vec::new();
    let mut has_dot = false;
    let n = f.len();
    let mut i: usize = k;
    while i < n
        invariant
            k <= i <= n,
            k == 11,
            n == f@.len(),
            path == f@.subrange(11, n as int),
            args@ == dots_to_args(f@.subrange(11, i as int)),
            has_dot == f@.subrange(11, i as int).contains('.'),
        decreases n - i,
    {
        let ghost seg = f@.subrange(11, i as int + 1);
        assert(seg.drop_last() =~= f@.subrange(11, i as int));
        if f[i] == '.' {
            push_str(&mut args, "', '");
            has_dot = true;
            assert(seg[seg.len() - 1] == '.');
        } else {
            args.push(f[i]);
            assert(args@ =~= dots_to_args(seg));
            assert(seg.contains('.') == f@.subrange(11, i as int).contains('.')) by {
                if seg.contains('.') {
                    let j = choose|j: int| 0 <= j < seg.len() && seg[j] == '.';
                    assert(j < seg.len() - 1);
                    assert(f@.subrange(11, i as int)[j] == '.');
                }
                if f@.subrange(11, i as int).contains('.') {
                    let j = choose|j: int| 0 <= j < i - 11 && f@.subrange(11, i as int)[j] == '.';
                    assert(seg[j] == '.');
                }
            }
        }
        i += 1;
    }
    if !has_dot {
        assert(flat@ =~= resolved_field(field@));
        return string_from_chars(&flat);
    }
    let mut out: Vec<char> = Vec::new();
    push_str(&mut out, "if(");
    push_chars(&mut out, &flat, 0);
    push_str(&mut out, " != '', ");
    push_chars(&mut out, &flat, 0);
    push_str(&mut out, ", ");
    push_str(&mut out, "JSONExtractString(attributes, '");
    push_chars(&mut out, &args, 0);
    push_str(&mut out, "')");
    push_str(&mut out, ")");
    assert(flat@.subrange(0, flat@.len() as int) =~= flat@);
    assert(args@.subrange(0, args@.len() as int) =~= args@);
    assert(out@ =~= resolved_field(field@));
    string_from_chars(&out)
}

/// Unicode white space (the `White_Space` property), as `char::is_whitespace`
/// reports it.
pub open spec fn is_white(c: char) -> bool {
    let v = c as int;
    (9 <= v <= 13) || v == 32 || v == 0x85 || v == 0xa0 || v == 0x1680 || (0x2000 <= v <= 0x200a)
        || v == 0x2028 || v == 0x2029 || v == 0x202f || v == 0x205f || v == 0x3000
}

pub fn white(c: char) -> (r: bool)
    ensures
        r == is_white(c),
{
    let v = c as u32;
    (9 <= v && v <= 13) || v == 32 || v == 0x85 || v == 0xa0 || v == 0x1680 || (0x2000 <= v && v
        <= 0x200a) || v == 0x2028 || v == 0x2029 || v == 0x202f || v == 0x205f || v == 0x3000
}

/// The search tokens of `s` from position `i` on: words separated by white
/// space, and double-quoted phrases kept whole (an empty phrase gives no
/// token; an unclosed one runs to the end). `mode` is 0 between tokens, 1 in
/// a word begun at `start`, 2 in a phrase whose text begins at `start`.
pub open spec fn tokens_from(s: Seq<char>, i: nat, mode: nat, start: nat) -> Seq<Seq<char>>
    decreases s.len() - i, mode,
{
    if i >= s.len() {
        if mode == 1 || (mode == 2 && start < s.len()) {
            seq![s.subrange(start as int, s.len() as int)]
        } else {
            seq![]
        }
    } else if mode == 0 {
        if is_white(s[i as int]) {
            tokens_from(s, i + 1, 0, 0)
        } else if s[i as int] == '"' {
            tokens_from(s, i + 1, 2, i + 1)
        } else {
            tokens_from(s, i + 1, 1, i)
        }
    } else if mode == 1 {
        if is_white(s[i as int]) || s[i as int] == '"' {
            seq![s.subrange(start as int, i as int)] + tokens_from(s, i, 0, 0)
        } else {
            tokens_from(s, i + 1, 1, start)
        }
    } else {
        if s[i as int] == '"' {
            (if start < i { seq![s.subrange(start as int, i as int)] } else { seq![] }) + tokens_from(s, i + 1, 0, 0)
        } else {
            tokens_from(s, i + 1, 2, start)
        }
    }
}

/// The search tokens of `s`.
pub open spec fn search_tokens(s: Seq<char>) -> Seq<Seq<char>> {
    tokens_from(s, 0, 0, 0)
}

/// Splits a search string into words and double-quoted phrases.
pub fn tokenize_search(input: &str) -> (r: Vec<String>)
    ensures
        r@.map_values(|t: String| t@) == search_tokens(input@),
{
    let s = chars_of(input);
    let n = s.len();
    let mut out: Vec<String> = Vec::new();
    let mut i: usize = 0;
    let mut mode: usize = 0;
    let mut start: usize = 0;
    while i < n
        invariant
            i <= n,
            n == s@.len(),
            s@ == input@,
            mode <= 2,
            start <= i,
            mode == 1 ==> start < i,
            out@.map_values(|t: String| t@) + tokens_from(s@, i as nat, mode as nat, start as nat)
                == search_tokens(input@),
        decreases 3 * (n - i) + mode,
    {
        let ghost before = out@.map_values(|t: String| t@);
        let ghost (i0, m0, s0) = (i as nat, mode as nat, start as nat);
        let c = s[i];
        if mode == 0 {
            if white(c) {
                i += 1;
                assert(tokens_from(s@, i0, m0, s0) == tokens_from(s@, i as nat, 0, 0));
            } else if c == '"' {
                mode = 2;
                i += 1;
                start = i;
                assert(tokens_from(s@, i0, m0, s0) == tokens_from(s@, i as nat, 2, start as nat));
            } else {
                mode = 1;
                start = i;
                i += 1;
                assert(tokens_from(s@, i0, m0, s0) == tokens_from(s@, i as nat, 1, start as nat));
            }
        } else if mode == 1 {
            if white(c) || c == '"' {
                let w = sub_chars(&s, start, i);
                out.push(string_from_chars(&w));
                assert(out@.map_values(|t: String| t@) =~= before + seq![s@.subrange(start as int, i as int)]);
                let ghost rest = tokens_from(s@, i as nat, 0, 0);
                assert((before + seq![s@.subrange(start as int, i as int)]) + rest =~= before + (seq![s@.subrange(start as int, i as int)] + rest));
                mode = 0;
                start = 0;
            } else {
                i += 1;
            }
        } else {
            if c == '"' {
                if start < i {
                    let w = sub_chars(&s, start, i);
                    out.push(string_from_chars(&w));
                    assert(out@.map_values(|t: String| t@) =~= before + seq![s@.subrange(start as int, i as int)]);
                    let ghost rest = tokens_from(s@, i as nat + 1, 0, 0);
                    assert((before + seq![s@.subrange(start as int, i as int)]) + rest =~= before + (seq![s@.subrange(start as int, i as int)] + rest));
                } else {
                    assert(before + seq![] =~= before);
                    assert(seq![] + tokens_from(s@, i as nat + 1, 0, 0) =~= tokens_from(s@, i as nat + 1, 0, 0));
                }
                mode = 0;
                start = 0;
                i += 1;
            } else {
                i += 1;
            }
        }
    }
    let ghost before = out@.map_values(|t: String| t@);
    if mode == 1 || (mode == 2 && start < n) {
        let w = sub_chars(&s, start, n);
        out.push(string_from_chars(&w));
        assert(out@.map_values(|t: String| t@) =~= before + seq![s@.subrange(start as int, n as int)]);
    } else {
        assert(before + seq![] =~= before);
    }
    out
}

/// `OR`, in any letter case.
pub open spec fn is_or_word(t: Seq<char>) -> bool {
    t.len() == 2 && (t[0] == 'o' || t[0] == 'O') && (t[1] == 'r' || t[1] == 'R')
}

/// `AND`, in any letter case.
pub open spec fn is_and_word(t: Seq<char>) -> bool {
    t.len() == 3 && (t[0] == 'a' || t[0] == 'A') && (t[1] == 'n' || t[1] == 'N') && (t[2] == 'd'
        || t[2] == 'D')
}

/// The finished groups and the open group after reading `toks`: `OR` closes
/// the open group (dropping it when empty), `AND` is skipped, and any other
/// token joins the open group.
pub open spec fn group_state(toks: Seq<Seq<char>>) -> (Seq<Seq<Seq<char>>>, Seq<Seq<char>>)
    decreases toks.len(),
{
    if toks.len() == 0 {
        (seq![], seq![])
    } else {
        let (done, cur) = group_state(toks.drop_last());
        let t = toks.last();
        if is_or_word(t) {
            (if cur.len() > 0 { done.push(cur) } else { done }, seq![])
        } else if is_and_word(t) {
            (done, cur)
        } else {
            (done, cur.push(t))
        }
    }
}

/// A search as a disjunction of conjunctions of terms: the non-empty groups
/// of terms between `OR`s.
pub open spec fn search_groups(toks: Seq<Seq<char>>) -> Seq<Seq<Seq<char>>> {
    let (done, cur) = group_state(toks);
    if cur.len() > 0 { done.push(cur) } else { done }
}

fn word_is(t: &String, lower: &str, upper: &str) -> (r: bool)
    requires
        lower@.len() == upper@.len(),
    ensures
        r == (t@.len() == lower@.len() && forall|i: int| 0 <= i < t@.len() ==> #[trigger] t@[i] == lower@[i] || t@[i] == upper@[i]),
{
    let s = chars_of(t.as_str());
    let lo = chars_of(lower);
    let up = chars_of(upper);
    if s.len() != lo.len() {
        return false;
    }
    let mut i: usize = 0;
    while i < s.len()
        invariant
            i <= s@.len(),
            s@ == t@,
            lo@ == lower@,
            up@ == upper@,
            s@.len() == lo@.len(),
            lo@.len() == up@.len(),
            forall|j: int| 0 <= j < i ==> #[trigger] s@[j] == lo@[j] || s@[j] == up@[j],
        decreases s@.len() - i,
    {
        if s[i] != lo[i] && s[i] != up[i] {
            return false;
        }
        i += 1;
    }
    true
}

/// The terms of a search, grouped into a disjunction of conjunctions.
pub fn parse_search_expr(input: &str) -> (r: Vec<Vec<String>>)
    ensures
        r@.map_values(|g: Vec<String>| g@.map_values(|t: String| t@)) == search_groups(search_tokens(input@)),
{
    let toks = tokenize_search(input);
    let ghost tv = toks@.map_values(|t: String| t@);
    let n = toks.len();
    let mut done: Vec<Vec<String>> = Vec::new();
    let mut cur: Vec<String> = Vec::new();
    let mut i: usize = 0;
    while i < n
        invariant
            i <= n,
            n == toks@.len(),
            tv == toks@.map_values(|t: String| t@),
            tv == search_tokens(input@),
            (done@.map_values(|g: Vec<String>| g@.map_values(|t: String| t@)), cur@.map_values(|t: String| t@))
                == group_state(tv.subrange(0, i as int)),
        decreases n - i,
    {
        assert(tv.subrange(0, i as int + 1).drop_last() =~= tv.subrange(0, i as int));
        assert(tv.subrange(0, i as int + 1).last() == toks@[i as int]@);
        let ghost dv = done@.map_values(|g: Vec<String>| g@.map_values(|t: String| t@));
        let ghost cv = cur@.map_values(|t: String| t@);
        proof {
            reveal_strlit("or");
            reveal_strlit("OR");
            reveal_strlit("and");
            reveal_strlit("AND");
        }
        if word_is(&toks[i], "or", "OR") {
            if cur.len() > 0 {
                let mut closed: Vec<String> = Vec::new();
                std::mem::swap(&mut closed, &mut cur);
                done.push(closed);
                assert(done@.map_values(|g: Vec<String>| g@.map_values(|t: String| t@)) =~= dv.push(cv));
            }
            assert(cur@.map_values(|t: String| t@) =~= Seq::<Seq<char>>::empty());
        } else if word_is(&toks[i], "and", "AND") {
        } else {
            cur.push(toks[i].clone());
            assert(cur@.map_values(|t: String| t@) =~= cv.push(tv[i as int]));
        }
        i += 1;
    }
    assert(tv.subrange(0, n as int) =~= tv);
    let ghost dv = done@.map_values(|g: Vec<String>| g@.map_values(|t: String| t@));
    let ghost cv = cur@.map_values(|t: String| t@);
    if cur.len() > 0 {
        done.push(cur);
        assert(done@.map_values(|g: Vec<String>| g@.map_values(|t: String| t@)) =~= dv.push(cv));
    }
    done
}

/// A search term's character in a `LIKE` pattern: quotes and the `LIKE`
/// wildcards `%` and `_` are escaped, and `*` becomes `%`.
pub open spec fn like_char(c: char) -> Seq<char> {
    if c == '\'' {
        seq!['\\', '\'']
    } else if c == '%' {
        seq!['\\', '%']
    } else if c == '_' {
        seq!['\\', '_']
    } else if c == '*' {
        seq!['%']
    } else {
        seq![c]
    }
}

/// A search term as the body of a `LIKE` pattern.
pub open spec fn like_body(t: Seq<char>) -> Seq<char>
    decreases t.len(),
{
    if t.len() == 0 {
        seq![]
    } else {
        like_body(t.drop_last()) + like_char(t.last())
    }
}

/// The condition that `term` occurs in column `col` (an array column when
/// `is_array`), case-insensitively; a term with `*` matches as a pattern.
pub open spec fn column_condition(col: Seq<char>, is_array: bool, term: Seq<char>) -> Seq<char> {
    if term.contains('*') {
        let like = "%"@ + like_body(term) + "%"@;
        if is_array {
            "arrayExists(x -> x ILIKE '"@ + like + "', "@ + col + ")"@
        } else {
            col + " ILIKE '"@ + like + "'"@
        }
    } else {
        let esc = escape_quotes(term);
        if is_array {
            "arrayExists(x -> positionCaseInsensitive(x, '"@ + esc + "') > 0, "@ + col + ")"@
        } else {
            "positionCaseInsensitive("@ + col + ", '"@ + esc + "') > 0"@
        }
    }
}

/// The condition that `term` occurs in any of the columns.
pub open spec fn term_sql(term: Seq<char>, cols: Seq<(Seq<char>, bool)>) -> Seq<char> {
    "("@ + joined(cols.map_values(|c: (Seq<char>, bool)| column_condition(c.0, c.1, term)), " OR "@)
        + ")"@
}

/// The condition for a conjunction of terms.
pub open spec fn group_sql(g: Seq<Seq<char>>, cols: Seq<(Seq<char>, bool)>) -> Seq<char> {
    if g.len() == 1 {
        term_sql(g[0], cols)
    } else {
        "("@ + joined(g.map_values(|t: Seq<char>| term_sql(t, cols)), " AND "@) + ")"@
    }
}

/// The condition for a disjunction of conjunctions of terms.
pub open spec fn search_sql(groups: Seq<Seq<Seq<char>>>, cols: Seq<(Seq<char>, bool)>) -> Seq<char> {
    if groups.len() == 1 {
        group_sql(groups[0], cols)
    } else {
        "("@ + joined(groups.map_values(|g: Seq<Seq<char>>| group_sql(g, cols)), " OR "@) + ")"@
    }
}

/// The view of a list of (column, is-array) pairs.
pub open spec fn columns_view(cols: Seq<(&str, bool)>) -> Seq<(Seq<char>, bool)> {
    cols.map_values(|c: (&str, bool)| (c.0@, c.1))
}

/// The pieces joined by `sep`, in parentheses.
fn join_parenthesized(pieces: &Vec<Vec<char>>, sep: &str) -> (r: Vec<char>)
    ensures
        r@ == "("@ + joined(pieces@.map_values(|p: Vec<char>| p@), sep@) + ")"@,
{
    let ghost pv = pieces@.map_values(|p: Vec<char>| p@);
    let mut out: Vec<char> = Vec::new();
    let n = pieces.len();
    let mut i: usize = 0;
    while i < n
        invariant
            i <= n,
            n == pieces@.len(),
            pv == pieces@.map_values(|p: Vec<char>| p@),
            out@ == joined(pv.subrange(0, i as int), sep@),
        decreases n - i,
    {
        assert(pv.subrange(0, i as int + 1).drop_last() =~= pv.subrange(0, i as int));
        if i > 0 {
            push_str(&mut out, sep);
        }
        let ghost before = out@;
        push_chars(&mut out, &pieces[i], 0);
        assert(pieces@[i as int]@.subrange(0, pieces@[i as int]@.len() as int) =~= pv[i as int]);
        i += 1;
        if i == 1 {
            assert(out@ =~= joined(pv.subrange(0, 1), sep@));
        }
    }
    assert(pv.subrange(0, n as int) =~= pv);
    let mut r: Vec<char> = Vec::new();
    push_str(&mut r, "(");
    push_chars(&mut r, &out, 0);
    push_str(&mut r, ")");
    assert(out@.subrange(0, out@.len() as int) =~= out@);
    r
}

fn push_like_body(out: &mut Vec<char>, t: &Vec<char>)
    ensures
        final(out)@ == old(out)@ + like_body(t@),
{
    let ghost start = out@;
    let n = t.len();
    let mut i: usize = 0;
    while i < n
        invariant
            i <= n,
            n == t@.len(),
            out@ == start + like_body(t@.subrange(0, i as int)),
        decreases n - i,
    {
        assert(t@.subrange(0, i as int + 1).drop_last() =~= t@.subrange(0, i as int));
        let c = t[i];
        if c == '\'' {
            out.push('\\');
            out.push('\'');
        } else if c == '%' {
            out.push('\\');
            out.push('%');
        } else if c == '_' {
            out.push('\\');
            out.push('_');
        } else if c == '*' {
            out.push('%');
        } else {
            out.push(c);
        }
        i += 1;
        assert(out@ =~= start + like_body(t@.subrange(0, i as int)));
    }
    assert(t@.subrange(0, n as int) =~= t@);
}

fn has_star(t: &Vec<char>) -> (r: bool)
    ensures
        r == t@.contains('*'),
{
    let mut i: usize = 0;
    while i < t.len()
        invariant
            i <= t@.len(),
            forall|j: int| 0 <= j < i ==> t@[j] != '*',
        decreases t@.len() - i,
    {
        if t[i] == '*' {
            return true;
        }
        i += 1;
    }
    false
}

fn column_condition_chars(col: &str, is_array: bool, term: &Vec<char>) -> (r: Vec<char>)
    ensures
        r@ == column_condition(col@, is_array, term@),
{
    let mut out: Vec<char> = Vec::new();
    if has_star(term) {
        if is_array {
            push_str(&mut out, "arrayExists(x -> x ILIKE '%");
            push_like_body(&mut out, term);
            push_str(&mut out, "%', ");
            push_str(&mut out, col);
            push_str(&mut out, ")");
        } else {
            push_str(&mut out, col);
            push_str(&mut out, " ILIKE '%");
            push_like_body(&mut out, term);
            push_str(&mut out, "%'");
        }
        proof {
            reveal_strlit("arrayExists(x -> x ILIKE '%");
            reveal_strlit("arrayExists(x -> x ILIKE '");
            reveal_strlit(" ILIKE '%");
            reveal_strlit(" ILIKE '");
            reveal_strlit("%', ");
            reveal_strlit("', ");
            reveal_strlit("%'");
            reveal_strlit("'");
            reveal_strlit("%");
        }
    } else {
        if is_array {
            push_str(&mut out, "arrayExists(x -> positionCaseInsensitive(x, '");
            push_escaped_chars(&mut out, term);
            push_str(&mut out, "') > 0, ");
            push_str(&mut out, col);
            push_str(&mut out, ")");
        } else {
            push_str(&mut out, "positionCaseInsensitive(");
            push_str(&mut out, col);
            push_str(&mut out, ", '");
            push_escaped_chars(&mut out, term);
            push_str(&mut out, "') > 0");
        }
    }
    assert(out@ =~= column_condition(col@, is_array, term@));
    out
}

fn term_sql_chars(term: &Vec<char>, cols: &Vec<(&str, bool)>) -> (r: Vec<char>)
    ensures
        r@ == term_sql(term@, columns_view(cols@)),
{
    let ghost cv = columns_view(cols@);
    let mut pieces: Vec<Vec<char>> = Vec::new();
    let n = cols.len();
    let mut j: usize = 0;
    while j < n
        invariant
            j <= n,
            n == cols@.len(),
            cv == columns_view(cols@),
            pieces@.len() == j,
            forall|k: int| 0 <= k < j ==> #[trigger] pieces@[k]@ == column_condition(cv[k].0, cv[k].1, term@),
        decreases n - j,
    {
        let (col, is_array) = cols[j];
        pieces.push(column_condition_chars(col, is_array, term));
        j += 1;
    }
    assert(pieces@.map_values(|p: Vec<char>| p@) =~= cv.map_values(
        |c: (Seq<char>, bool)| column_condition(c.0, c.1, term@),
    ));
    join_parenthesized(&pieces, " OR ")
}

fn group_sql_chars(g: &Vec<String>, cols: &Vec<(&str, bool)>) -> (r: Vec<char>)
    ensures
        r@ == group_sql(g@.map_values(|t: String| t@), columns_view(cols@)),
{
    let ghost gv = g@.map_values(|t: String| t@);
    if g.len() == 1 {
        let t = chars_of(g[0].as_str());
        return term_sql_chars(&t, cols);
    }
    let mut pieces: Vec<Vec<char>> = Vec::new();
    let n = g.len();
    let mut j: usize = 0;
    while j < n
        invariant
            j <= n,
            n == g@.len(),
            gv == g@.map_values(|t: String| t@),
            pieces@.len() == j,
            forall|k: int| 0 <= k < j ==> #[trigger] pieces@[k]@ == term_sql(gv[k], columns_view(cols@)),
        decreases n - j,
    {
        let t = chars_of(g[j].as_str());
        pieces.push(term_sql_chars(&t, cols));
        j += 1;
    }
    assert(pieces@.map_values(|p: Vec<char>| p@) =~= gv.map_values(|t: Seq<char>| term_sql(t, columns_view(cols@))));
    join_parenthesized(&pieces, " AND ")
}

/// The condition for a grouped search over the given columns.
fn search_sql_string(groups: &Vec<Vec<String>>, cols: &Vec<(&str, bool)>) -> (r: String)
    ensures
        r@ == search_sql(groups@.map_values(|g: Vec<String>| g@.map_values(|t: String| t@)), columns_view(cols@)),
{
    let ghost gv = groups@.map_values(|g: Vec<String>| g@.map_values(|t: String| t@));
    if groups.len() == 1 {
        let c = group_sql_chars(&groups[0], cols);
        return string_from_chars(&c);
    }
    let mut pieces: Vec<Vec<char>> = Vec::new();
    let n = groups.len();
    let mut j: usize = 0;
    while j < n
        invariant
            j <= n,
            n == groups@.len(),
            gv == groups@.map_values(|g: Vec<String>| g@.map_values(|t: String| t@)),
            pieces@.len() == j,
            forall|k: int| 0 <= k < j ==> #[trigger] pieces@[k]@ == group_sql(gv[k], columns_view(cols@)),
        decreases n - j,
    {
        pieces.push(group_sql_chars(&groups[j], cols));
        j += 1;
    }
    assert(pieces@.map_values(|p: Vec<char>| p@) =~= gv.map_values(|g: Seq<Seq<char>>| group_sql(g, columns_view(cols@))));
    let c = join_parenthesized(&pieces, " OR ");
    string_from_chars(&c)
}

/// The columns that a span search looks in (column, is-array).
pub open spec fn span_columns() -> Seq<(Seq<char>, bool)> {
    seq![("http_path"@, false), ("attributes"@, false), ("event_names"@, true), ("event_attributes"@, true)]
}

/// The columns that a log search looks in (column, is-array).
pub open spec fn log_columns() -> Seq<(Seq<char>, bool)> {
    seq![("Body"@, false), ("toString(LogAttributes)"@, false)]
}

/// The condition of a free-text search over `cols`, or `None` when the
/// search holds no term.
pub open spec fn search_condition(search: Seq<char>, cols: Seq<(Seq<char>, bool)>) -> Option<Seq<char>> {
    let groups = search_groups(search_tokens(search));
    if groups.len() == 0 {
        None
    } else {
        Some(search_sql(groups, cols))
    }
}

/// The condition of a free-text search over span columns.
pub fn build_span_search_sql(search: &str) -> (r: Option<String>)
    ensures
        match search_condition(search@, span_columns()) {
            Some(c) => r matches Some(s) && s@ == c,
            None => r is None,
        },
{
    let groups = parse_search_expr(search);
    if groups.len() == 0 {
        return None;
    }
    let cols: Vec<(&str, bool)> = vec![
        ("http_path", false),
        ("attributes", false),
        ("event_names", true),
        ("event_attributes", true),
    ];
    assert(columns_view(cols@) =~= span_columns());
    Some(search_sql_string(&groups, &cols))
}

/// The condition of a free-text search over log columns.
pub fn build_log_search_sql(search: &str) -> (r: Option<String>)
    ensures
        match search_condition(search@, log_columns()) {
            Some(c) => r matches Some(s) && s@ == c,
            None => r is None,
        },
{
    let groups = parse_search_expr(search);
    if groups.len() == 0 {
        return None;
    }
    let cols: Vec<(&str, bool)> = vec![("Body", false), ("toString(LogAttributes)", false)];
    assert(columns_view(cols@) =~= log_columns());
    Some(search_sql_string(&groups, &cols))
}

} // verus!
