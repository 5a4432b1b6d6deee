//! A parser for the plain selector syntax `name{label="value", ...}` and
//! the parenthesised lists and groups around it.
use vstd::prelude::*;
use vstd::string::*;
use crate::search::{is_white, white};
use crate::selector::{LabelMatcher, MatchOp, MetricSelector};
use crate::text::{chars_of, push_str, string_from_chars, sub_chars};

verus! {

/// The first position from `i` on that does not hold white space.
pub open spec fn lead(s: Seq<char>, i: nat) -> nat
    decreases s.len() - i,
{
    if i < s.len() && is_white(s[i as int]) {
        lead(s, i + 1)
    } else {
        i
    }
}

/// The end of `s[lo..j]` once trailing white space is dropped.
pub open spec fn trail(s: Seq<char>, j: nat, lo: nat) -> nat
    decreases j,
{
    if j > lo && is_white(s[j - 1]) {
        trail(s, (j - 1) as nat, lo)
    } else {
        j
    }
}

/// `s` without leading and trailing white space.
pub open spec fn trimmed(s: Seq<char>) -> Seq<char> {
    let lo = lead(s, 0);
    s.subrange(lo as int, trail(s, s.len(), lo) as int)
}

proof fn lemma_lead_bound(s: Seq<char>, i: nat)
    requires
        i <= s.len(),
    ensures
        i <= lead(s, i) <= s.len(),
    decreases s.len() - i,
{
    if i < s.len() && is_white(s[i as int]) {
        lemma_lead_bound(s, i + 1);
    }
}

proof fn lemma_trail_bound(s: Seq<char>, j: nat, lo: nat)
    requires
        lo <= j,
    ensures
        lo <= trail(s, j, lo) <= j,
    decreases j,
{
    if j > lo && is_white(s[j - 1]) {
        lemma_trail_bound(s, (j - 1) as nat, lo);
    }
}

/// The bounds `lo..hi` of `s` without its surrounding white space.
fn trim_bounds(s: &Vec<char>) -> (r: (usize, usize))
    ensures
        r.0 <= r.1 <= s@.len(),
        r.0 == lead(s@, 0),
        r.1 == trail(s@, s@.len(), r.0 as nat),
{
    let n = s.len();
    let mut lo: usize = 0;
    while lo < n && white(s[lo])
        invariant
            lo <= n,
            n == s@.len(),
            lead(s@, lo as nat) == lead(s@, 0),
        decreases n - lo,
    {
        lo += 1;
    }
    let mut hi: usize = n;
    proof {
        lemma_lead_bound(s@, 0);
    }
    while hi > lo && white(s[hi - 1])
        invariant
            lo <= hi <= n,
            n == s@.len(),
            lo == lead(s@, 0),
            trail(s@, hi as nat, lo as nat) == trail(s@, n as nat, lo as nat),
        decreases hi,
    {
        hi -= 1;
    }
    (lo, hi)
}

/// The characters of `s` without surrounding white space.
pub fn trim_chars(s: &Vec<char>) -> (r: Vec<char>)
    ensures
        r@ == trimmed(s@),
{
    let (lo, hi) = trim_bounds(s);
    let mut r: Vec<char> = Vec::new();
    let mut i: usize = lo;
    while i < hi
        invariant
            lo <= i <= hi,
            hi <= s@.len(),
            r@ == s@.subrange(lo as int, i as int),
        decreases hi - i,
    {
        r.push(s[i]);
        i += 1;
        assert(r@ =~= s@.subrange(lo as int, i as int));
    }
    r
}

/// The nesting depth that the parentheses of `s` leave: opening minus
/// closing ones.
pub open spec fn depth(s: Seq<char>) -> int
    decreases s.len(),
{
    if s.len() == 0 {
        0
    } else {
        depth(s.drop_last()) + if s.last() == '(' {
            1int
        } else if s.last() == ')' {
            -1int
        } else {
            0int
        }
    }
}

/// Position `i` (at or after `open`) closes the group opened at `open`: it
/// holds the first `)` from `open` on after which the depth is back at zero.
pub open spec fn closes_at(s: Seq<char>, open: int, i: int) -> bool {
    &&& open <= i < s.len()
    &&& s[i] == ')'
    &&& depth(s.subrange(open, i + 1)) == 0
    &&& forall|j: int| open <= j < i ==> !(s[j] == ')' && #[trigger] depth(s.subrange(open, j + 1)) == 0)
}

/// The position of the parenthesis that closes the group opened at
/// `open_pos`.
pub fn find_matching_paren(input: &Vec<char>, open_pos: usize) -> (r: Result<usize, String>)
    ensures
        r matches Ok(i) ==> closes_at(input@, open_pos as int, i as int),
        r is Err ==> forall|i: int| !closes_at(input@, open_pos as int, i),
        r matches Err(e) ==> e@ == "unmatched parenthesis"@,
{
    let n = input.len();
    let mut d: i128 = 0;
    let mut i: usize = open_pos;
    if open_pos > n {
        return Err(String::from_str("unmatched parenthesis"));
    }
    assert(input@.subrange(open_pos as int, open_pos as int) =~= Seq::<char>::empty());
    while i < n
        invariant
            open_pos <= i <= n,
            n == input@.len(),
            d == depth(input@.subrange(open_pos as int, i as int)),
            -(i as int) <= d <= i,
            forall|j: int| open_pos <= j < i ==> !(input@[j] == ')' && #[trigger] depth(input@.subrange(open_pos as int, j + 1)) == 0),
        decreases n - i,
    {
        assert(input@.subrange(open_pos as int, i as int + 1).drop_last() =~= input@.subrange(open_pos as int, i as int));
        let c = input[i];
        if c == '(' {
            d = d + 1;
        } else if c == ')' {
            d = d - 1;
            if d == 0 {
                return Ok(i);
            }
        }
        i += 1;
    }
    Err(String::from_str("unmatched parenthesis"))
}

/// The text inside the parentheses that wrap `input` (after trimming).
pub open spec fn unwrapped(input: Seq<char>) -> Result<Seq<char>, Seq<char>> {
    let t = trimmed(input);
    if t.len() == 0 || t[0] != '(' {
        Err("expected '(' wrapping expression"@)
    } else if exists|i: int| closes_at(t, 0, i) {
        let i = choose|i: int| closes_at(t, 0, i);
        Ok(t.subrange(1, i))
    } else {
        Err("unmatched parenthesis"@)
    }
}

proof fn lemma_closes_unique(s: Seq<char>, open: int, i: int, k: int)
    requires
        closes_at(s, open, i),
        closes_at(s, open, k),
    ensures
        i == k,
{
    if i < k {
        assert(!(s[i] == ')' && depth(s.subrange(open, i + 1)) == 0));
    } else if k < i {
        assert(!(s[k] == ')' && depth(s.subrange(open, k + 1)) == 0));
    }
}

/// The text inside the parentheses that wrap `input`.
pub fn strip_outer_parens(input: &str) -> (r: Result<String, String>)
    ensures
        match unwrapped(input@) {
            Ok(t) => r matches Ok(s) && s@ == t,
            Err(e) => r matches Err(s) && s@ == e,
        },
{
    let all = chars_of(input);
    let t = trim_chars(&all);
    if t.len() == 0 || t[0] != '(' {
        return Err(String::from_str("expected '(' wrapping expression"));
    }
    match find_matching_paren(&t, 0) {
        Ok(end) => {
            proof {
                assert(closes_at(t@, 0, end as int));
                let i = choose|i: int| closes_at(t@, 0, i);
                lemma_closes_unique(t@, 0, i, end as int);
            }
            let mut out: Vec<char> = Vec::new();
            let mut i: usize = 1;
            while i < end
                invariant
                    1 <= i <= end,
                    end < t@.len(),
                    out@ == t@.subrange(1, i as int),
                decreases end - i,
            {
                out.push(t[i]);
                i += 1;
                assert(out@ =~= t@.subrange(1, i as int));
            }
            Ok(string_from_chars(&out))
        },
        Err(e) => Err(e),
    }
}

/// Relies on `char::is_alphanumeric`: whether `c` is alphabetic or numeric
/// in Unicode's sense.
pub uninterp spec fn alphanumeric(c: char) -> bool;

/// Relies on `char::is_alphanumeric`, which is true of ASCII letters and
/// digits.
#[verifier::external_body]
fn is_alphanumeric(c: char) -> (r: bool)
    ensures
        r == alphanumeric(c),
        ('a' <= c <= 'z') || ('A' <= c <= 'Z') || ('0' <= c <= '9') ==> r,
{
    c.is_alphanumeric()
}

/// A character of a label name.
pub open spec fn is_name_char(c: char) -> bool {
    alphanumeric(c) || c == '_' || c == '.'
}

/// A parsed matcher: name, operator, value.
pub type MatcherView = (Seq<char>, MatchOp, Seq<char>);

/// The matchers in `s` from position `i` on, read as a scanner does: `mode`
/// 0 between matchers (skipping spaces and commas), 1 in a name begun at
/// `start`, 2 before the operator, 3 before the quoted value, 4 inside the
/// value quoted by `q`, holding `acc` so far. Reading stops, with what was
/// read, at the end or at a character that cannot begin a name.
pub open spec fn scan(
    s: Seq<char>,
    i: nat,
    mode: nat,
    start: nat,
    name: Seq<char>,
    op: MatchOp,
    q: char,
    acc: Seq<char>,
) -> Result<Seq<MatcherView>, Seq<char>>
    decreases s.len() - i, 4 - mode,
{
    if mode == 0 {
        if i >= s.len() {
            Ok(seq![])
        } else if s[i as int] == ' ' || s[i as int] == ',' {
            scan(s, i + 1, 0, 0, name, op, q, acc)
        } else if is_name_char(s[i as int]) {
            scan(s, i + 1, 1, i, name, op, q, acc)
        } else {
            Ok(seq![])
        }
    } else if mode == 1 {
        if i < s.len() && is_name_char(s[i as int]) {
            scan(s, i + 1, 1, start, name, op, q, acc)
        } else if start <= i <= s.len() {
            scan(s, i, 2, 0, s.subrange(start as int, i as int), op, q, acc)
        } else {
            Ok(seq![])
        }
    } else if mode == 2 {
        if i < s.len() && s[i as int] == ' ' {
            scan(s, i + 1, 2, 0, name, op, q, acc)
        } else if i + 1 < s.len() && s[i as int] == '=' && s[i + 1int] == '~' {
            scan(s, i + 2, 3, 0, name, MatchOp::RegexMatch, q, acc)
        } else if i + 1 < s.len() && s[i as int] == '!' && s[i + 1int] == '=' {
            scan(s, i + 2, 3, 0, name, MatchOp::NotEqual, q, acc)
        } else if i + 1 < s.len() && s[i as int] == '!' && s[i + 1int] == '~' {
            scan(s, i + 2, 3, 0, name, MatchOp::RegexNotMatch, q, acc)
        } else if i < s.len() && s[i as int] == '=' {
            scan(s, i + 1, 3, 0, name, MatchOp::Equal, q, acc)
        } else {
            Err("expected operator after label '"@ + name + "'"@)
        }
    } else if mode == 3 {
        if i < s.len() && s[i as int] == ' ' {
            scan(s, i + 1, 3, 0, name, op, q, acc)
        } else if i >= s.len() {
            Err("expected quoted value"@)
        } else if s[i as int] != '"' && s[i as int] != '\'' {
            Err("expected quoted value, got '"@ + seq![s[i as int]] + "'"@)
        } else {
            scan(s, i + 1, 4, 0, name, op, s[i as int], seq![])
        }
    } else if mode == 4 {
        if i >= s.len() {
            Err("unterminated string in matcher"@)
        } else if s[i as int] == '\\' {
            if i + 1 < s.len() {
                scan(s, i + 2, 4, 0, name, op, q, acc.push(s[i + 1int]))
            } else {
                Err("unterminated string in matcher"@)
            }
        } else if s[i as int] == q {
            prepend(seq![(name, op, acc)], scan(s, i + 1, 0, 0, name, op, q, acc))
        } else {
            scan(s, i + 1, 4, 0, name, op, q, acc.push(s[i as int]))
        }
    } else {
        Ok(seq![])
    }
}

/// `r` with `p` in front of its matchers, if it holds any.
pub open spec fn prepend(p: Seq<MatcherView>, r: Result<Seq<MatcherView>, Seq<char>>) -> Result<Seq<MatcherView>, Seq<char>> {
    match r {
        Ok(x) => Ok(p + x),
        Err(e) => Err(e),
    }
}

/// The matchers of a matcher list `name="value", name2=~"regex", ...`.
pub open spec fn matchers_of(s: Seq<char>) -> Result<Seq<MatcherView>, Seq<char>> {
    scan(s, 0, 0, 0, seq![], MatchOp::Equal, ' ', seq![])
}

/// The views of parsed matchers.
pub open spec fn matchers_view(v: Seq<LabelMatcher>) -> Seq<MatcherView> {
    v.map_values(|m: LabelMatcher| (m.name@, m.op, m.value@))
}

proof fn lemma_prepend_push(p: Seq<MatcherView>, m: MatcherView, r: Result<Seq<MatcherView>, Seq<char>>)
    ensures
        prepend(p, prepend(seq![m], r)) == prepend(p.push(m), r),
{
    match r {
        Ok(x) => {
            assert(p + (seq![m] + x) =~= p.push(m) + x);
        },
        Err(_) => {},
    }
}

fn name_char(c: char) -> (r: bool)
    ensures
        r == is_name_char(c),
{
    is_alphanumeric(c) || c == '_' || c == '.'
}

/// Parses a matcher list such as `service_name="gateway", method=~"GET|POST"`.
pub fn parse_matchers(input: &Vec<char>) -> (r: Result<Vec<LabelMatcher>, String>)
    ensures
        match matchers_of(input@) {
            Ok(ms) => r matches Ok(v) && matchers_view(v@) == ms,
            Err(e) => r matches Err(x) && x@ == e,
        },
{
    let s = input;
    let n = s.len();
    let mut out: Vec<LabelMatcher> = Vec::new();
    let mut i: usize = 0;
    let mut mode: usize = 0;
    let mut start: usize = 0;
    let mut name: Vec<char> = Vec::new();
    let mut op = MatchOp::Equal;
    let mut q: char = ' ';
    let mut acc: Vec<char> = Vec::new();
    let ghost whole = matchers_of(s@);
    assert(prepend(seq![], whole) == whole) by {
        match whole {
            Ok(x) => { assert(Seq::<MatcherView>::empty() + x =~= x); },
            Err(_) => {},
        }
    }
    loop
        invariant
            i <= n,
            n == s@.len(),
            mode <= 4,
            mode == 1 ==> start <= i <= n,
            mode != 1 ==> start == 0,
            whole == matchers_of(s@),
            s@ == input@,
            whole == prepend(matchers_view(out@), scan(s@, i as nat, mode as nat, start as nat, name@, op, q, acc@)),
        decreases (n - i) * 5 + (4 - mode),
    {
        let ghost outv = matchers_view(out@);
        if mode == 0 {
            if i >= n {
                proof {
                    assert(scan(s@, i as nat, mode as nat, start as nat, name@, op, q, acc@) == Ok::<Seq<MatcherView>, Seq<char>>(seq![]));
                    assert(matchers_view(out@) + Seq::<MatcherView>::empty() =~= matchers_view(out@));
                }
                return Ok(out);
            } else if s[i] == ' ' || s[i] == ',' {
                i += 1;
                start = 0;
            } else if name_char(s[i]) {
                start = i;
                mode = 1;
                i += 1;
            } else {
                proof {
                    assert(matchers_view(out@) + Seq::<MatcherView>::empty() =~= matchers_view(out@));
                }
                return Ok(out);
            }
        } else if mode == 1 {
            if i < n && name_char(s[i]) {
                i += 1;
            } else {
                name = sub_chars(s, start, i);
                mode = 2;
                start = 0;
            }
        } else if mode == 2 {
            if i < n && s[i] == ' ' {
                i += 1;
            } else if i < n && i + 1 < n && s[i] == '=' && s[i + 1] == '~' {
                op = MatchOp::RegexMatch;
                mode = 3;
                i += 2;
            } else if i < n && i + 1 < n && s[i] == '!' && s[i + 1] == '=' {
                op = MatchOp::NotEqual;
                mode = 3;
                i += 2;
            } else if i < n && i + 1 < n && s[i] == '!' && s[i + 1] == '~' {
                op = MatchOp::RegexNotMatch;
                mode = 3;
                i += 2;
            } else if i < n && s[i] == '=' {
                op = MatchOp::Equal;
                mode = 3;
                i += 1;
            } else {
                let mut e: Vec<char> = Vec::new();
                push_str(&mut e, "expected operator after label '");
                let ghost e0 = e@;
                let mut k: usize = 0;
                while k < name.len()
                    invariant
                        k <= name@.len(),
                        e@ == e0 + name@.subrange(0, k as int),
                    decreases name@.len() - k,
                {
                    e.push(name[k]);
                    k += 1;
                    assert(e@ =~= e0 + name@.subrange(0, k as int));
                }
                assert(name@.subrange(0, name@.len() as int) =~= name@);
                push_str(&mut e, "'");
                assert(e@ =~= "expected operator after label '"@ + name@ + "'"@);
                return Err(string_from_chars(&e));
            }
        } else if mode == 3 {
            if i < n && s[i] == ' ' {
                i += 1;
            } else if i >= n {
                assert(scan(s@, i as nat, mode as nat, start as nat, name@, op, q, acc@) == Err::<Seq<MatcherView>, Seq<char>>("expected quoted value"@));
                return Err(String::from_str("expected quoted value"));
            } else if s[i] != '"' && s[i] != '\'' {
                let mut e: Vec<char> = Vec::new();
                push_str(&mut e, "expected quoted value, got '");
                e.push(s[i]);
                push_str(&mut e, "'");
                assert(e@ =~= "expected quoted value, got '"@ + seq![s@[i as int]] + "'"@);
                return Err(string_from_chars(&e));
            } else {
                q = s[i];
                acc = Vec::new();
                mode = 4;
                i += 1;
                assert(acc@ =~= Seq::<char>::empty());
            }
        } else {
            if i >= n {
                return Err(String::from_str("unterminated string in matcher"));
            } else if s[i] == '\\' {
                if i < n && i + 1 < n {
                    acc.push(s[i + 1]);
                    i += 2;
                } else {
                    return Err(String::from_str("unterminated string in matcher"));
                }
            } else if s[i] == q {
                let ghost m = (name@, op, acc@);
                proof {
                    lemma_prepend_push(outv, m, scan(s@, (i + 1) as nat, 0, 0, name@, op, q, acc@));
                }
                out.push(LabelMatcher { name: string_from_chars(&name), op, value: string_from_chars(&acc) });
                assert(matchers_view(out@) =~= outv.push(m));
                mode = 0;
                start = 0;
                i += 1;
            } else {
                acc.push(s[i]);
                i += 1;
            }
        }
    }
}


/// The first position from `i` on that holds `c`.
pub open spec fn first_from(s: Seq<char>, c: char, i: nat) -> Option<nat>
    decreases s.len() - i,
{
    if i >= s.len() {
        None
    } else if s[i as int] == c {
        Some(i)
    } else {
        first_from(s, c, i + 1)
    }
}

/// The last position before `j` that holds `c`.
pub open spec fn last_before(s: Seq<char>, c: char, j: nat) -> Option<nat>
    decreases j,
{
    if j == 0 {
        None
    } else if s[j - 1] == c {
        Some((j - 1) as nat)
    } else {
        last_before(s, c, (j - 1) as nat)
    }
}

fn find_first(s: &Vec<char>, c: char) -> (r: Option<usize>)
    ensures
        r matches Some(k) ==> first_from(s@, c, 0) == Some(k as nat) && k < s@.len() && s@[k as int] == c
            && forall|j: int| 0 <= j < k ==> s@[j] != c,
        r is None ==> first_from(s@, c, 0) is None,
{
    let mut i: usize = 0;
    while i < s.len()
        invariant
            i <= s@.len(),
            first_from(s@, c, i as nat) == first_from(s@, c, 0),
            forall|j: int| 0 <= j < i ==> s@[j] != c,
        decreases s@.len() - i,
    {
        if s[i] == c {
            return Some(i);
        }
        i += 1;
    }
    None
}

fn find_last(s: &Vec<char>, c: char) -> (r: Option<usize>)
    ensures
        r matches Some(k) ==> last_before(s@, c, s@.len()) == Some(k as nat) && k < s@.len(),
        r is None ==> last_before(s@, c, s@.len()) is None,
{
    let mut j: usize = s.len();
    while j > 0
        invariant
            j <= s@.len(),
            last_before(s@, c, j as nat) == last_before(s@, c, s@.len()),
        decreases j,
    {
        if s[j - 1] == c {
            return Some(j - 1);
        }
        j -= 1;
    }
    None
}

/// The metric name and matchers of a selector `name{matchers}` (or a bare
/// name), after trimming.
pub open spec fn selector_parts(input: Seq<char>) -> Result<(Seq<char>, Seq<MatcherView>), Seq<char>> {
    let t = trimmed(input);
    match first_from(t, '{', 0) {
        None => Ok((t, seq![])),
        Some(b) => match last_before(t, '}', t.len()) {
            Some(e) => if e > b {
                let name = trimmed(t.subrange(0, b as int));
                let inner = t.subrange(b as int + 1, e as int);
                if inner.len() == 0 {
                    Ok((name, seq![]))
                } else {
                    match matchers_of(inner) {
                        Ok(ms) => Ok((name, ms)),
                        Err(x) => Err(x),
                    }
                }
            } else {
                Err("unclosed { in selector"@)
            },
            None => Err("unclosed { in selector"@),
        },
    }
}

/// Parses a selector such as `http_requests_total{service_name="gateway"}`.
pub fn parse_selector(input: &str) -> (r: Result<MetricSelector, String>)
    ensures
        match selector_parts(input@) {
            Ok((name, ms)) => r matches Ok(sel) && sel.name@ == name && matchers_view(sel.matchers@) == ms,
            Err(e) => r matches Err(x) && x@ == e,
        },
{
    let all = chars_of(input);
    let t = trim_chars(&all);
    match find_first(&t, '{') {
        None => {
            assert(matchers_view(Seq::<LabelMatcher>::empty()) =~= Seq::<MatcherView>::empty());
            Ok(MetricSelector { name: string_from_chars(&t), matchers: Vec::new() })
        },
        Some(b) => match find_last(&t, '}') {
            Some(e) => {
                if e > b {
                    let head = sub_chars(&t, 0, b);
                    let name = trim_chars(&head);
                    let inner = sub_chars(&t, b + 1, e);
                    if inner.len() == 0 {
                        assert(matchers_view(Seq::<LabelMatcher>::empty()) =~= Seq::<MatcherView>::empty());
                        Ok(MetricSelector { name: string_from_chars(&name), matchers: Vec::new() })
                    } else {
                        match parse_matchers(&inner) {
                            Ok(ms) => Ok(MetricSelector { name: string_from_chars(&name), matchers: ms }),
                            Err(x) => Err(x),
                        }
                    }
                } else {
                    Err(String::from_str("unclosed { in selector"))
                }
            },
            None => Err(String::from_str("unclosed { in selector")),
        },
    }
}

/// `s` split at every comma.
pub open spec fn split_commas(s: Seq<char>) -> Seq<Seq<char>>
    decreases s.len(),
{
    if s.len() == 0 {
        seq![seq![]]
    } else {
        let p = split_commas(s.drop_last());
        if s.last() == ',' {
            p.push(seq![])
        } else {
            p.update(p.len() - 1, p.last().push(s.last()))
        }
    }
}

proof fn lemma_split_nonempty(s: Seq<char>)
    ensures
        split_commas(s).len() >= 1,
    decreases s.len(),
{
    if s.len() > 0 {
        lemma_split_nonempty(s.drop_last());
    }
}

/// The trimmed pieces that are not empty.
pub open spec fn kept_pieces(pieces: Seq<Seq<char>>) -> Seq<Seq<char>>
    decreases pieces.len(),
{
    if pieces.len() == 0 {
        seq![]
    } else {
        let rest = kept_pieces(pieces.drop_last());
        if trimmed(pieces.last()).len() > 0 {
            rest.push(trimmed(pieces.last()))
        } else {
            rest
        }
    }
}

/// A parenthesised label list `(a, b, ...)` at the start of `input` (after
/// trimming): the labels, and the text after the closing parenthesis.
pub open spec fn paren_list(input: Seq<char>) -> Result<(Seq<Seq<char>>, Seq<char>), Seq<char>> {
    let t = trimmed(input);
    if t.len() == 0 || t[0] != '(' {
        Err("expected '(' for label list"@)
    } else {
        match first_from(t, ')', 0) {
            Some(c) => Ok((kept_pieces(split_commas(t.subrange(1, c as int))), t.subrange(c as int + 1, t.len() as int))),
            None => Err("unclosed '(' in label list"@),
        }
    }
}

/// Parses a label list `(a, b, ...)`, returning the labels and what follows.
pub fn parse_paren_list(input: &str) -> (r: Result<(Vec<String>, String), String>)
    ensures
        match paren_list(input@) {
            Ok((labels, rest)) => r matches Ok(v) && v.0@.map_values(|l: String| l@) == labels && v.1@ == rest,
            Err(e) => r matches Err(x) && x@ == e,
        },
{
    let all = chars_of(input);
    let t = trim_chars(&all);
    if t.len() == 0 || t[0] != '(' {
        return Err(String::from_str("expected '(' for label list"));
    }
    let close = match find_first(&t, ')') {
        Some(c) => c,
        None => return Err(String::from_str("unclosed '(' in label list")),
    };
    let ghost inner = t@.subrange(1, close as int);
    let mut labels: Vec<String> = Vec::new();
    let mut cur: Vec<char> = Vec::new();
    let mut i: usize = 1;
    assert(t@.subrange(1, 1) =~= Seq::<char>::empty());
    while i < close
        invariant
            1 <= i <= close,
            close < t@.len(),
            inner == t@.subrange(1, close as int),
            split_commas(t@.subrange(1, i as int)).len() >= 1,
            cur@ == split_commas(t@.subrange(1, i as int)).last(),
            labels@.map_values(|l: String| l@) == kept_pieces(split_commas(t@.subrange(1, i as int)).drop_last()),
        decreases close - i,
    {
        let ghost p = split_commas(t@.subrange(1, i as int));
        assert(t@.subrange(1, i as int + 1).drop_last() =~= t@.subrange(1, i as int));
        if t[i] == ',' {
            let piece = trim_chars(&cur);
            if piece.len() > 0 {
                let ghost before = labels@.map_values(|l: String| l@);
                labels.push(string_from_chars(&piece));
                assert(labels@.map_values(|l: String| l@) =~= before.push(trimmed(p.last())));
            }
            assert(p.push(seq![]).drop_last() =~= p);
            assert(p.drop_last().push(p.last()) =~= p);
            cur = Vec::new();
            assert(cur@ =~= Seq::<char>::empty());
        } else {
            cur.push(t[i]);
            assert(p.update(p.len() - 1, p.last().push(t@[i as int])).drop_last() =~= p.drop_last());
        }
        i += 1;
    }
    proof {
        lemma_split_nonempty(inner);
        let p = split_commas(inner);
        assert(p.drop_last().push(p.last()) =~= p);
    }
    let piece = trim_chars(&cur);
    if piece.len() > 0 {
        labels.push(string_from_chars(&piece));
    }
    let rest = sub_chars(&t, close + 1, t.len());
    let ghost lv = labels@.map_values(|l: String| l@);
    assert(lv =~= kept_pieces(split_commas(inner)));
    Ok((labels, string_from_chars(&rest)))
}

} // verus!
