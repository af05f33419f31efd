//! Inline comments that switch rules off for one line.
//!
//! A comment `# gdlint-ignore` switches off every rule on its own line, and
//! `# gdlint-ignore-next-line` on the line after it. Either may be followed by
//! rule identifiers, separated by commas or blanks, to switch off only those:
//! `var X = 1  # gdlint-ignore variable-name`. The directive is read from the
//! first `#` of a line, after any blanks.

use vstd::prelude::*;
use crate::issue::IssueView;
use crate::text::{chars_of, find_break, line_at, next_break};

verus! {

/// Rules switched off on one line: all of them, or those named.
pub struct Suppression {
    pub line: u128,
    pub all: bool,
    pub rules: Vec<Vec<char>>,
}

pub struct SuppressionView {
    pub line: int,
    pub all: bool,
    pub rules: Seq<Seq<char>>,
}

impl View for Suppression {
    type V = SuppressionView;

    open spec fn view(&self) -> SuppressionView {
        SuppressionView {
            line: self.line as int,
            all: self.all,
            rules: self.rules@.map_values(|r: Vec<char>| r@),
        }
    }
}

/// Every suppression that the comments of one source file ask for.
pub struct SuppressionMap {
    pub entries: Vec<Suppression>,
}

impl View for SuppressionMap {
    type V = Seq<SuppressionView>;

    open spec fn view(&self) -> Seq<SuppressionView> {
        self.entries@.map_values(|e: Suppression| e@)
    }
}

/// What a directive comment says: whether it aims at the next line, and the
/// rules it names (none: all rules).
pub struct DirectiveView {
    pub next_line: bool,
    pub rules: Seq<Seq<char>>,
}

pub open spec fn is_blank(c: char) -> bool {
    c == ' ' || c == '\t'
}

pub open spec fn is_separator(c: char) -> bool {
    c == ' ' || c == '\t' || c == ','
}

/// The first index at or after `i` that holds `#`, or the length of `l`.
pub open spec fn hash_index(l: Seq<char>, i: int) -> int
    decreases l.len() - i,
{
    if i >= l.len() || i < 0 {
        l.len() as int
    } else if l[i] == '#' {
        i
    } else {
        hash_index(l, i + 1)
    }
}

/// The first index at or after `i` that is not blank, or the length of `l`.
pub open spec fn skip_blanks(l: Seq<char>, i: int) -> int
    decreases l.len() - i,
{
    if i >= l.len() || i < 0 {
        l.len() as int
    } else if !is_blank(l[i]) {
        i
    } else {
        skip_blanks(l, i + 1)
    }
}

/// The first index at or after `i` that is a separator, or the length of `l`.
pub open spec fn word_end(l: Seq<char>, i: int) -> int
    decreases l.len() - i,
{
    if i >= l.len() || i < 0 {
        l.len() as int
    } else if is_separator(l[i]) {
        i
    } else {
        word_end(l, i + 1)
    }
}

/// `l` holds the word `w` at index `i`.
pub open spec fn has_word_at(l: Seq<char>, i: int, w: Seq<char>) -> bool {
    0 <= i && i + w.len() <= l.len() && l.subrange(i, i + w.len()) == w
}

/// A word ends at index `i` of `l`.
pub open spec fn ends_word(l: Seq<char>, i: int) -> bool {
    i == l.len() || (0 <= i < l.len() && is_separator(l[i]))
}

/// The rule identifiers listed in `l` from index `i` on.
pub open spec fn rule_list(l: Seq<char>, i: int) -> Seq<Seq<char>>
    decreases l.len() - i,
{
    if i >= l.len() || i < 0 {
        seq![]
    } else if is_separator(l[i]) {
        rule_list(l, i + 1)
    } else {
        let e = word_end(l, i);
        if e <= i || e > l.len() {
            seq![]
        } else {
            seq![l.subrange(i, e)] + rule_list(l, e)
        }
    }
}

/// The directive that the line `l` holds, if any.
pub open spec fn directive(l: Seq<char>) -> Option<DirectiveView> {
    let h = hash_index(l, 0);
    let p = skip_blanks(l, h + 1);
    let q = p + "gdlint-ignore"@.len();
    let r = q + "-next-line"@.len();
    if h >= l.len() || !has_word_at(l, p, "gdlint-ignore"@) {
        None
    } else if has_word_at(l, q, "-next-line"@) {
        if ends_word(l, r) {
            Some(DirectiveView { next_line: true, rules: rule_list(l, r) })
        } else {
            None
        }
    } else if ends_word(l, q) {
        Some(DirectiveView { next_line: false, rules: rule_list(l, q) })
    } else {
        None
    }
}

/// The suppression that the directive `d` on line number `line` asks for.
pub open spec fn suppression_of(d: DirectiveView, line: int) -> SuppressionView {
    SuppressionView {
        line: if d.next_line {
            line + 1
        } else {
            line
        },
        all: d.rules.len() == 0,
        rules: d.rules,
    }
}

/// The suppressions asked for by the lines of `s` from index `start` on, the
/// first of them being line number `line`.
pub open spec fn suppressions_from(s: Seq<char>, start: int, line: int) -> Seq<SuppressionView>
    decreases s.len() - start,
{
    let e = next_break(s, start);
    if start >= s.len() || start < 0 || e < start {
        seq![]
    } else {
        (match directive(line_at(s, start)) {
            Some(d) => seq![suppression_of(d, line)],
            None => seq![],
        }) + if e < s.len() {
            suppressions_from(s, e + 1, line + 1)
        } else {
            seq![]
        }
    }
}

/// The suppressions that the source text `s` asks for.
pub open spec fn suppressions_of(s: Seq<char>) -> Seq<SuppressionView> {
    suppressions_from(s, 0, 1)
}

/// An issue of rule `rule` on line `line` is switched off by `m`.
pub open spec fn is_suppressed(m: Seq<SuppressionView>, line: usize, rule: Seq<char>) -> bool {
    exists|k: int|
        0 <= k < m.len() && (#[trigger] m[k]).line == line as int && (m[k].all || m[k].rules.contains(
            rule,
        ))
}

/// The first `n` issues of `v` that `m` does not switch off, in order.
pub open spec fn unsuppressed(v: Seq<IssueView>, m: Seq<SuppressionView>, n: int) -> Seq<IssueView>
    decreases n,
{
    if n <= 0 || n > v.len() {
        seq![]
    } else {
        unsuppressed(v, m, n - 1) + if is_suppressed(m, v[n - 1].line, v[n - 1].rule) {
            seq![]
        } else {
            seq![v[n - 1]]
        }
    }
}

fn copy_range(s: &Vec<char>, start: usize, stop: usize) -> (r: Vec<char>)
    requires
        start <= stop <= s@.len(),
    ensures
        r@ == s@.subrange(start as int, stop as int),
{
    let mut out: Vec<char> = Vec::new();
    let mut k = start;
    while k < stop
        invariant
            start <= k <= stop <= s@.len(),
            out@ == s@.subrange(start as int, k as int),
        decreases stop - k,
    {
        out.push(s[k]);
        assert(out@ =~= s@.subrange(start as int, k + 1));
        k = k + 1;
    }
    out
}

fn find_hash(l: &Vec<char>, i: usize) -> (r: usize)
    requires
        i <= l@.len(),
    ensures
        r as int == hash_index(l@, i as int),
        i <= r <= l@.len(),
{
    let mut k = i;
    while k < l.len() && l[k] != '#'
        invariant
            i <= k <= l@.len(),
            hash_index(l@, i as int) == hash_index(l@, k as int),
        decreases l.len() - k,
    {
        k = k + 1;
    }
    k
}

fn find_non_blank(l: &Vec<char>, i: usize) -> (r: usize)
    requires
        i <= l@.len(),
    ensures
        r as int == skip_blanks(l@, i as int),
        i <= r <= l@.len(),
{
    let mut k = i;
    while k < l.len() && (l[k] == ' ' || l[k] == '\t')
        invariant
            i <= k <= l@.len(),
            skip_blanks(l@, i as int) == skip_blanks(l@, k as int),
        decreases l.len() - k,
    {
        k = k + 1;
    }
    k
}

fn find_word_end(l: &Vec<char>, i: usize) -> (r: usize)
    requires
        i <= l@.len(),
    ensures
        r as int == word_end(l@, i as int),
        i <= r <= l@.len(),
        i < l@.len() && !is_separator(l@[i as int]) ==> r > i,
{
    let mut k = i;
    while k < l.len() && !(l[k] == ' ' || l[k] == '\t' || l[k] == ',')
        invariant
            i <= k <= l@.len(),
            word_end(l@, i as int) == word_end(l@, k as int),
        decreases l.len() - k,
    {
        k = k + 1;
    }
    k
}

fn word_at(l: &Vec<char>, i: usize, w: &Vec<char>) -> (r: bool)
    ensures
        r == has_word_at(l@, i as int, w@),
{
    if i > l.len() || w.len() > l.len() - i {
        return false;
    }
    let mut k: usize = 0;
    while k < w.len()
        invariant
            i <= l.len(),
            i + w.len() <= l.len(),
            k <= w@.len(),
            forall|j: int| 0 <= j < k ==> l@[i + j] == w@[j],
        decreases w.len() - k,
    {
        assert(i + k < l.len());
        if l[i + k] != w[k] {
            assert(l@.subrange(i as int, i + w@.len())[k as int] != w@[k as int]);
            return false;
        }
        k = k + 1;
    }
    assert(l@.subrange(i as int, i + w@.len()) =~= w@);
    true
}

fn at_word_end(l: &Vec<char>, i: usize) -> (r: bool)
    ensures
        r == ends_word(l@, i as int),
{
    i == l.len() || (i < l.len() && (l[i] == ' ' || l[i] == '\t' || l[i] == ','))
}

fn list_rules(l: &Vec<char>, i: usize) -> (r: Vec<Vec<char>>)
    requires
        i <= l@.len(),
    ensures
        r@.map_values(|x: Vec<char>| x@) == rule_list(l@, i as int),
{
    let mut out: Vec<Vec<char>> = Vec::new();
    let mut k = i;
    assert(out@.map_values(|x: Vec<char>| x@) =~= Seq::<Seq<char>>::empty());
    while k < l.len()
        invariant
            i <= k <= l@.len(),
            out@.map_values(|x: Vec<char>| x@) + rule_list(l@, k as int) == rule_list(l@, i as int),
        decreases l.len() - k,
    {
        if l[k] == ' ' || l[k] == '\t' || l[k] == ',' {
            k = k + 1;
        } else {
            let e = find_word_end(l, k);
            let word = copy_range(l, k, e);
            let ghost prev = out@;
            out.push(word);
            assert(out@.map_values(|x: Vec<char>| x@) =~= prev.map_values(|x: Vec<char>| x@).push(
                l@.subrange(k as int, e as int),
            ));
            k = e;
        }
    }
    out
}

/// The directive that the line `l` holds, if any.
fn read_directive(l: &Vec<char>) -> (r: Option<(bool, Vec<Vec<char>>)>)
    ensures
        match (r, directive(l@)) {
            (Some((next, rules)), Some(d)) => next == d.next_line && rules@.map_values(
                |x: Vec<char>| x@,
            ) == d.rules,
            (None, None) => true,
            _ => false,
        },
{
    let keyword = chars_of("gdlint-ignore");
    let next_word = chars_of("-next-line");
    let h = find_hash(l, 0);
    if h >= l.len() {
        return None;
    }
    let p = find_non_blank(l, h + 1);
    if !word_at(l, p, &keyword) {
        return None;
    }
    let q = p + keyword.len();
    if word_at(l, q, &next_word) {
        let r = q + next_word.len();
        if at_word_end(l, r) {
            return Some((true, list_rules(l, r)));
        }
        None
    } else if at_word_end(l, q) {
        Some((false, list_rules(l, q)))
    } else {
        None
    }
}

/// Reads every suppression comment of `source`.
pub fn parse_suppressions(source: &str) -> (r: SuppressionMap)
    ensures
        r@ == suppressions_of(source@),
{
    let s = chars_of(source);
    let mut entries: Vec<Suppression> = Vec::new();
    let mut start: usize = 0;
    let mut line: u128 = 1;
    while start < s.len()
        invariant
            s@ == source@,
            1 <= line <= start + 1,
            start <= s@.len(),
            entries@.map_values(|e: Suppression| e@) + suppressions_from(
                s@,
                start as int,
                line as int,
            ) == suppressions_from(s@, 0, 1),
        decreases s.len() - start,
    {
        let e = find_break(&s, start);
        let stop = if e < s.len() && e > start && s[e - 1] == '\r' {
            e - 1
        } else {
            e
        };
        let l = copy_range(&s, start, stop);
        assert(line_at(s@, start as int) == l@);
        match read_directive(&l) {
            Some((next, rules)) => {
                let target = if next {
                    line + 1
                } else {
                    line
                };
                let all = rules.len() == 0;
                let ghost prev = entries@;
                entries.push(Suppression { line: target, all, rules });
                assert(entries@.map_values(|e: Suppression| e@) =~= prev.map_values(
                    |e: Suppression| e@,
                ).push(suppression_of(directive(l@)->Some_0, line as int)));
            },
            None => {},
        }
        if e >= s.len() {
            assert(suppressions_from(s@, s@.len() as int, line + 1) =~= Seq::<
                SuppressionView,
            >::empty());
            start = s.len();
        } else {
            start = e + 1;
        }
        line = line + 1;
    }
    SuppressionMap { entries }
}

} // verus!
