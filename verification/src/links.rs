//! The link encoder/decoder.
//!
//! A note body is scanned line by line for bracket references: a span is
//! `[label]`, optionally immediately followed by `(target)`; a span whose
//! opening bracket is immediately preceded by a backtick is not recognized.
//! Every recognized span is assigned a short code drawn from the lowercase
//! alphabet minus the reserved page shortcuts: single-letter codes while the
//! document's span count fits the alphabet, two-letter codes for the whole
//! document otherwise, and an explicit error beyond the two-letter capacity.

use vstd::prelude::*;

use crate::text::{chars_of, chars_range_to_string, contains_char, sub_vec};

verus! {

/// Least index `j >= i` with `s[j] == c`, or `s.len()` if there is none.
pub open spec fn find_char(s: Seq<char>, i: int, c: char) -> int
    decreases s.len() - i,
{
    if i < 0 || i >= s.len() {
        s.len() as int
    } else if s[i] == c {
        i
    } else {
        find_char(s, i + 1, c)
    }
}

pub proof fn lemma_find_char(s: Seq<char>, i: int, c: char)
    requires
        0 <= i <= s.len(),
    ensures
        i <= find_char(s, i, c) <= s.len(),
        find_char(s, i, c) < s.len() ==> s[find_char(s, i, c)] == c,
        forall|j: int| i <= j < find_char(s, i, c) ==> s[j] != c,
    decreases s.len() - i,
{
    if i < s.len() && s[i] != c {
        lemma_find_char(s, i + 1, c);
    }
}

/// `find_char` is pinned down by its characterization: no occurrence before
/// `j`, and an occurrence (or the end) at `j`.
pub proof fn lemma_find_char_at(s: Seq<char>, i: int, c: char, j: int)
    requires
        0 <= i <= j <= s.len(),
        j < s.len() ==> s[j] == c,
        forall|k: int| i <= k < j ==> s[k] != c,
    ensures
        find_char(s, i, c) == j,
    decreases j - i,
{
    if i < j {
        lemma_find_char_at(s, i + 1, c, j);
    }
}

/// One recognized link span: `start` indexes the opening bracket, `label_end`
/// is just past the closing bracket, `end` is just past the whole span
/// (including a parenthesized target if one follows), and `target` is the
/// parenthesized value if present, else the label.
pub struct SpecMatch {
    pub start: int,
    pub label_end: int,
    pub end: int,
    pub target: Seq<char>,
}

/// The span recognized at position `i` of line `l`, if any: an opening
/// bracket not preceded by a backtick, a non-empty label closed on the same
/// line, and optionally an immediately following non-empty `(target)`.
pub open spec fn match_at(l: Seq<char>, i: int) -> Option<SpecMatch> {
    if 0 <= i < l.len() && l[i] == '[' && (i == 0 || l[i - 1] != '`') {
        let j = find_char(l, i + 1, ']');
        if j < l.len() && j > i + 1 {
            if j + 1 < l.len() && l[j + 1] == '(' {
                let k = find_char(l, j + 2, ')');
                if k < l.len() && k > j + 2 {
                    Some(
                        SpecMatch {
                            start: i,
                            label_end: j + 1,
                            end: k + 1,
                            target: l.subrange(j + 2, k),
                        },
                    )
                } else {
                    Some(
                        SpecMatch {
                            start: i,
                            label_end: j + 1,
                            end: j + 1,
                            target: l.subrange(i + 1, j),
                        },
                    )
                }
            } else {
                Some(
                    SpecMatch {
                        start: i,
                        label_end: j + 1,
                        end: j + 1,
                        target: l.subrange(i + 1, j),
                    },
                )
            }
        } else {
            None
        }
    } else {
        None
    }
}

pub proof fn lemma_match_at_bounds(l: Seq<char>, i: int)
    requires
        match_at(l, i) is Some,
    ensures
        ({
            let m = match_at(l, i)->0;
            &&& m.start == i
            &&& 0 <= i
            &&& i + 1 < m.label_end <= m.end <= l.len()
        }),
{
    let j = find_char(l, i + 1, ']');
    lemma_find_char(l, i + 1, ']');
    if j + 1 < l.len() && l[j + 1] == '(' {
        lemma_find_char(l, j + 2, ')');
    }
}

/// All spans of line `l`, scanning left to right from position `i`; spans do
/// not overlap because scanning resumes where the previous span ended.
pub open spec fn scan_links(l: Seq<char>, i: int) -> Seq<SpecMatch>
    decreases l.len() - i,
{
    if i < 0 || i >= l.len() {
        Seq::empty()
    } else {
        match match_at(l, i) {
            Some(m) => {
                proof {
                    lemma_match_at_bounds(l, i);
                }
                seq![m] + scan_links(l, m.end)
            },
            None => scan_links(l, i + 1),
        }
    }
}

/// Every span of a scan is a genuine match of `match_at`, spans lie between
/// `i` and the end of the line, and consecutive spans do not overlap.
pub proof fn lemma_scan_wf(l: Seq<char>, i: int)
    requires
        0 <= i,
    ensures
        forall|k: int|
            0 <= k < scan_links(l, i).len() ==> {
                let m = #[trigger] scan_links(l, i)[k];
                &&& i <= m.start
                &&& match_at(l, m.start) == Some(m)
                &&& m.start < m.end <= l.len()
                &&& k + 1 < scan_links(l, i).len() ==> m.end <= scan_links(l, i)[k + 1].start
            },
    decreases l.len() - i,
{
    if i < l.len() {
        match match_at(l, i) {
            Some(m) => {
                lemma_match_at_bounds(l, i);
                lemma_scan_wf(l, m.end);
                assert forall|k: int| 0 <= k < scan_links(l, i).len() implies {
                    let m2 = #[trigger] scan_links(l, i)[k];
                    &&& i <= m2.start
                    &&& match_at(l, m2.start) == Some(m2)
                    &&& m2.start < m2.end <= l.len()
                    &&& k + 1 < scan_links(l, i).len() ==> m2.end <= scan_links(l, i)[k + 1].start
                } by {
                    if k > 0 {
                        assert(scan_links(l, i)[k] == scan_links(l, m.end)[k - 1]);
                    }
                }
            },
            None => {
                lemma_scan_wf(l, i + 1);
            },
        }
    }
}

/// A scan finds at most one span per remaining character.
pub proof fn lemma_scan_count_le(l: Seq<char>, i: int)
    requires
        0 <= i,
    ensures
        scan_links(l, i).len() <= l.len() - i || (i >= l.len() && scan_links(l, i).len() == 0),
    decreases l.len() - i,
{
    if i < l.len() {
        match match_at(l, i) {
            Some(m) => {
                lemma_match_at_bounds(l, i);
                lemma_scan_count_le(l, m.end);
            },
            None => {
                lemma_scan_count_le(l, i + 1);
            },
        }
    }
}

/// The lines of a body, split as the scanner walks them: pieces between
/// newlines, each stripped of one carriage return before the newline, with
/// no empty trailing line when the body ends in a newline.
pub open spec fn spec_lines(s: Seq<char>) -> Seq<Seq<char>>
    decreases s.len(),
{
    if s.len() == 0 {
        Seq::empty()
    } else {
        let j = find_char(s, 0, '\n');
        proof {
            lemma_find_char(s, 0, '\n');
        }
        if j == s.len() {
            seq![s]
        } else {
            let piece = s.subrange(0, j);
            let line = if piece.len() > 0 && piece.last() == '\r' {
                piece.drop_last()
            } else {
                piece
            };
            seq![line] + spec_lines(s.subrange(j + 1, s.len() as int))
        }
    }
}

/// Total number of recognized spans on the lines from index `i` on.
pub open spec fn total_links(ls: Seq<Seq<char>>, i: int) -> int
    decreases ls.len() - i,
{
    if i < 0 || i >= ls.len() {
        0
    } else {
        scan_links(ls[i], 0).len() + total_links(ls, i + 1)
    }
}

pub proof fn lemma_total_links_nonneg(ls: Seq<Seq<char>>, i: int)
    ensures
        total_links(ls, i) >= 0,
    decreases ls.len() - i,
{
    if 0 <= i < ls.len() {
        lemma_total_links_nonneg(ls, i + 1);
    }
}

/// The targets of a list of spans, in order.
pub open spec fn targets_of(ms: Seq<SpecMatch>) -> Seq<Seq<char>> {
    ms.map_values(|m: SpecMatch| m.target)
}

/// The targets of the whole document from line `i` on, in reading order.
pub open spec fn doc_targets(ls: Seq<Seq<char>>, i: int) -> Seq<Seq<char>>
    decreases ls.len() - i,
{
    if i < 0 || i >= ls.len() {
        Seq::empty()
    } else {
        targets_of(scan_links(ls[i], 0)) + doc_targets(ls, i + 1)
    }
}

pub proof fn lemma_doc_targets_len(ls: Seq<Seq<char>>, i: int)
    ensures
        doc_targets(ls, i).len() == total_links(ls, i) || i >= ls.len(),
        i < ls.len() ==> doc_targets(ls, i).len() == total_links(ls, i),
        i >= ls.len() ==> doc_targets(ls, i).len() == 0,
    decreases ls.len() - i,
{
    if 0 <= i < ls.len() {
        lemma_doc_targets_len(ls, i + 1);
        lemma_total_links_nonneg(ls, i + 1);
    }
}

/// The number of recognized spans in a body never exceeds its length.
pub proof fn lemma_total_links_le(s: Seq<char>)
    ensures
        total_links(spec_lines(s), 0) <= s.len(),
    decreases s.len(),
{
    if s.len() > 0 {
        let j = find_char(s, 0, '\n');
        lemma_find_char(s, 0, '\n');
        if j == s.len() {
            lemma_scan_count_le(s, 0);
            assert(total_links(seq![s], 0) == scan_links(s, 0).len() + total_links(seq![s], 1));
        } else {
            let piece = s.subrange(0, j);
            let line = if piece.len() > 0 && piece.last() == '\r' {
                piece.drop_last()
            } else {
                piece
            };
            let rest = s.subrange(j + 1, s.len() as int);
            lemma_scan_count_le(line, 0);
            lemma_total_links_le(rest);
            lemma_total_links_shift(line, spec_lines(rest), 0);
            let ls = seq![line] + spec_lines(rest);
            assert(ls[0] == line);
            assert(total_links(ls, 0) == scan_links(line, 0).len() + total_links(ls, 1));
        }
    }
}

/// Prepending one line shifts the tail sum by one index.
pub proof fn lemma_total_links_shift(l: Seq<char>, ls: Seq<Seq<char>>, i: int)
    requires
        0 <= i,
    ensures
        total_links(seq![l] + ls, i + 1) == total_links(ls, i),
    decreases ls.len() - i,
{
    if i < ls.len() {
        assert((seq![l] + ls)[i + 1] == ls[i]);
        lemma_total_links_shift(l, ls, i + 1);
    }
}

/// The full lowercase alphabet codes are drawn from.
pub open spec fn lowercase_letters() -> Seq<char> {
    seq![
        'a',
        'b',
        'c',
        'd',
        'e',
        'f',
        'g',
        'h',
        'i',
        'j',
        'k',
        'l',
        'm',
        'n',
        'o',
        'p',
        'q',
        'r',
        's',
        't',
        'u',
        'v',
        'w',
        'x',
        'y',
        'z',
    ]
}

/// The characters of `cs` that are not reserved, in order.
pub open spec fn filtered_alphabet(cs: Seq<char>, reserved: Seq<char>) -> Seq<char>
    decreases cs.len(),
{
    if cs.len() == 0 {
        Seq::empty()
    } else {
        let rest = filtered_alphabet(cs.drop_first(), reserved);
        if reserved.contains(cs[0]) {
            rest
        } else {
            seq![cs[0]] + rest
        }
    }
}

/// The code alphabet for a page: lowercase letters minus the reserved
/// single-key shortcuts.
pub open spec fn spec_alphabet(reserved: Seq<char>) -> Seq<char> {
    filtered_alphabet(lowercase_letters(), reserved)
}

pub proof fn lemma_filtered_alphabet(cs: Seq<char>, reserved: Seq<char>)
    ensures
        filtered_alphabet(cs, reserved).len() <= cs.len(),
        forall|c: char|
            #[trigger] filtered_alphabet(cs, reserved).contains(c) ==> cs.contains(c)
                && !reserved.contains(c),
        cs.no_duplicates() ==> filtered_alphabet(cs, reserved).no_duplicates(),
    decreases cs.len(),
{
    if cs.len() > 0 {
        let rest = filtered_alphabet(cs.drop_first(), reserved);
        lemma_filtered_alphabet(cs.drop_first(), reserved);
        assert forall|c: char| #[trigger] filtered_alphabet(cs, reserved).contains(c) implies cs.contains(c)
            && !reserved.contains(c) by {
            if c == cs[0] {
                assert(cs.contains(c)) by {
                    assert(cs[0] == c);
                }
            } else {
                assert(rest.contains(c)) by {
                    let i = choose|i: int|
                        0 <= i < filtered_alphabet(cs, reserved).len() && filtered_alphabet(
                            cs,
                            reserved,
                        )[i] == c;
                    if !reserved.contains(cs[0]) {
                        assert(rest[i - 1] == c);
                    }
                }
                assert(cs.drop_first().contains(c));
                let i = choose|i: int| 0 <= i < cs.drop_first().len() && cs.drop_first()[i] == c;
                assert(cs[i + 1] == c);
            }
        }
        if cs.no_duplicates() {
            assert(cs.drop_first().no_duplicates()) by {
                assert forall|i: int, j: int|
                    0 <= i < cs.drop_first().len() && 0 <= j < cs.drop_first().len() && i
                        != j implies cs.drop_first()[i] != cs.drop_first()[j] by {
                    assert(cs.drop_first()[i] == cs[i + 1]);
                    assert(cs.drop_first()[j] == cs[j + 1]);
                }
            }
            if !reserved.contains(cs[0]) {
                assert(!rest.contains(cs[0])) by {
                    if rest.contains(cs[0]) {
                        assert(cs.drop_first().contains(cs[0]));
                        let i = choose|i: int|
                            0 <= i < cs.drop_first().len() && cs.drop_first()[i] == cs[0];
                        assert(cs[i + 1] == cs[0]);
                    }
                }
                let whole = seq![cs[0]] + rest;
                assert forall|i: int, j: int|
                    0 <= i < whole.len() && 0 <= j < whole.len() && i != j implies whole[i]
                    != whole[j] by {
                    if i == 0 {
                        assert(rest.contains(whole[j])) by {
                            assert(whole[j] == rest[j - 1]);
                        }
                    } else if j == 0 {
                        assert(rest.contains(whole[i])) by {
                            assert(whole[i] == rest[i - 1]);
                        }
                    } else {
                        assert(whole[i] == rest[i - 1] && whole[j] == rest[j - 1]);
                    }
                }
            }
        }
    }
}

pub proof fn lemma_alphabet_no_dup(reserved: Seq<char>)
    ensures
        spec_alphabet(reserved).no_duplicates(),
        spec_alphabet(reserved).len() <= 26,
{
    assert(lowercase_letters().no_duplicates());
    lemma_filtered_alphabet(lowercase_letters(), reserved);
}

/// The code assigned to the `k`-th recognized span of a document: a single
/// letter, or two letters whose outer index increments slowest.
pub open spec fn spec_code(alpha: Seq<char>, size: int, k: int) -> Seq<char> {
    if size == 1 {
        seq![alpha[k]]
    } else {
        seq![alpha[k / alpha.len() as int], alpha[k % alpha.len() as int]]
    }
}

/// Distinct spans get distinct codes, for either code length.
pub proof fn lemma_codes_distinct(alpha: Seq<char>, size: int, k1: int, k2: int)
    requires
        alpha.no_duplicates(),
        size == 1 || size == 2,
        0 <= k1 < if size == 1 {
            alpha.len() as int
        } else {
            alpha.len() * alpha.len() as int
        },
        0 <= k2 < if size == 1 {
            alpha.len() as int
        } else {
            alpha.len() * alpha.len() as int
        },
        k1 != k2,
    ensures
        spec_code(alpha, size, k1) != spec_code(alpha, size, k2),
{
    let ln = alpha.len() as int;
    if size == 1 {
        assert(spec_code(alpha, size, k1)[0] == alpha[k1]);
        assert(spec_code(alpha, size, k2)[0] == alpha[k2]);
    } else {
        assert(ln > 0) by (nonlinear_arith)
            requires
                0 <= k1 < ln * ln,
                ln >= 0,
        ;
        lemma_div_mod_in_range(k1, ln);
        lemma_div_mod_in_range(k2, ln);
        vstd::arithmetic::div_mod::lemma_fundamental_div_mod(k1, ln);
        vstd::arithmetic::div_mod::lemma_fundamental_div_mod(k2, ln);
        if k1 / ln == k2 / ln && k1 % ln == k2 % ln {
            assert(k1 == ln * (k1 / ln) + k1 % ln);
            assert(k2 == ln * (k2 / ln) + k2 % ln);
            assert(false);
        }
        assert(spec_code(alpha, size, k1)[0] == alpha[k1 / ln]);
        assert(spec_code(alpha, size, k1)[1] == alpha[k1 % ln]);
        assert(spec_code(alpha, size, k2)[0] == alpha[k2 / ln]);
        assert(spec_code(alpha, size, k2)[1] == alpha[k2 % ln]);
    }
}

/// For `0 <= k < ln * ln`, both letter indices of a two-letter code are in
/// range of the alphabet.
pub proof fn lemma_div_mod_in_range(k: int, ln: int)
    requires
        ln > 0,
        0 <= k < ln * ln,
    ensures
        0 <= k / ln < ln,
        0 <= k % ln < ln,
{
    vstd::arithmetic::div_mod::lemma_fundamental_div_mod(k, ln);
    vstd::arithmetic::div_mod::lemma_mod_pos_bound(k, ln);
    let q = k / ln;
    let r = k % ln;
    assert(0 <= q) by (nonlinear_arith)
        requires
            k == ln * q + r,
            0 <= k,
            0 <= r < ln,
    ;
    assert(q < ln) by (nonlinear_arith)
        requires
            k == ln * q + r,
            k < ln * ln,
            0 <= r < ln,
            ln > 0,
    ;
}

/// How a piece of rendered text is styled.
#[derive(Clone, Copy, PartialEq, Eq, Structural, Debug)]
pub enum SpanKind {
    Raw,
    Link,
    LinkHighlight,
}

/// A styled piece of one rendered line.
pub struct RenderSpan {
    pub text: String,
    pub kind: SpanKind,
}

/// The mathematical value of a rendered span.
pub struct SpecSpan {
    pub text: Seq<char>,
    pub kind: SpanKind,
}

impl View for RenderSpan {
    type V = SpecSpan;

    open spec fn view(&self) -> SpecSpan {
        SpecSpan { text: self.text@, kind: self.kind }
    }
}

/// One rendered line of the note body.
pub struct RenderLine {
    pub spans: Vec<RenderSpan>,
}

impl View for RenderLine {
    type V = Seq<SpecSpan>;

    open spec fn view(&self) -> Seq<SpecSpan> {
        self.spans@.map_values(|s: RenderSpan| s@)
    }
}

/// One assignment of a code to a link target.
pub struct LinkEntry {
    pub code: String,
    pub target: String,
}

/// The mathematical value of a code assignment.
pub struct SpecLink {
    pub code: Seq<char>,
    pub target: Seq<char>,
}

impl View for LinkEntry {
    type V = SpecLink;

    open spec fn view(&self) -> SpecLink {
        SpecLink { code: self.code@, target: self.target@ }
    }
}

/// The target recorded for `code`, scanning assignments in document order.
pub open spec fn spec_lookup(links: Seq<SpecLink>, code: Seq<char>) -> Option<Seq<char>>
    decreases links.len(),
{
    if links.len() == 0 {
        None
    } else if links[0].code == code {
        Some(links[0].target)
    } else {
        spec_lookup(links.drop_first(), code)
    }
}

/// When codes are distinct, looking up the `k`-th code returns the `k`-th
/// target.
pub proof fn lemma_lookup_distinct(links: Seq<SpecLink>, k: int)
    requires
        0 <= k < links.len(),
        forall|k1: int, k2: int|
            0 <= k1 < links.len() && 0 <= k2 < links.len() && k1 != k2 ==> (
            #[trigger] links[k1]).code != (#[trigger] links[k2]).code,
    ensures
        spec_lookup(links, links[k].code) == Some(links[k].target),
    decreases links.len(),
{
    if k > 0 {
        assert(links[0].code != links[k].code);
        assert(links.drop_first()[k - 1] == links[k]);
        lemma_lookup_distinct(links.drop_first(), k - 1);
    }
}

/// The rendered spans of line `l` from position `pos` on, given the spans
/// `ms` still ahead, with codes numbered from `base`. With the overlay on,
/// each span shows its highlighted `[code]` over the first characters of the
/// bracketed label; raw text between and after spans is kept as it stands.
pub open spec fn spans_of(
    l: Seq<char>,
    pos: int,
    ms: Seq<SpecMatch>,
    alpha: Seq<char>,
    size: int,
    base: int,
    overlay: bool,
) -> Seq<SpecSpan>
    decreases ms.len(),
{
    if ms.len() == 0 {
        if pos < l.len() {
            seq![SpecSpan { text: l.subrange(pos, l.len() as int), kind: SpanKind::Raw }]
        } else {
            Seq::empty()
        }
    } else {
        let m = ms[0];
        let pre: Seq<SpecSpan> = if pos < m.start {
            seq![SpecSpan { text: l.subrange(pos, m.start), kind: SpanKind::Raw }]
        } else {
            Seq::empty()
        };
        let body: Seq<SpecSpan> = if overlay {
            let code = spec_code(alpha, size, base);
            let skip = if m.label_end - m.start < size + 2 {
                m.label_end - m.start
            } else {
                size + 2
            };
            seq![
                SpecSpan { text: seq!['['] + code + seq![']'], kind: SpanKind::LinkHighlight },
                SpecSpan { text: l.subrange(m.start + skip, m.label_end), kind: SpanKind::Link },
            ]
        } else {
            seq![SpecSpan { text: l.subrange(m.start, m.label_end), kind: SpanKind::Link }]
        };
        pre + body + spans_of(l, m.end, ms.drop_first(), alpha, size, base + 1, overlay)
    }
}

/// One span as the executable scanner records it; `target` is already
/// extracted from the line.
pub struct LinkMatch {
    pub start: usize,
    pub label_end: usize,
    pub end: usize,
    pub target: String,
}

impl View for LinkMatch {
    type V = SpecMatch;

    open spec fn view(&self) -> SpecMatch {
        SpecMatch {
            start: self.start as int,
            label_end: self.label_end as int,
            end: self.end as int,
            target: self.target@,
        }
    }
}

/// The mathematical values of a list of recorded spans.
pub open spec fn match_views(ms: Seq<LinkMatch>) -> Seq<SpecMatch> {
    ms.map_values(|m: LinkMatch| m@)
}

/// Least index of `c` in `l` at or after `from`, or the length of `l`.
fn find_char_exec(l: &Vec<char>, from: usize, c: char) -> (r: usize)
    requires
        from <= l@.len(),
    ensures
        r == find_char(l@, from as int, c),
        from <= r <= l@.len(),
{
    let mut i: usize = from;
    while i < l.len()
        invariant
            from <= i <= l@.len(),
            find_char(l@, from as int, c) == find_char(l@, i as int, c),
        decreases l@.len() - i,
    {
        if l[i] == c {
            return i;
        }
        i = i + 1;
    }
    i
}

/// The span recognized at position `i` of the line, if any.
fn try_match_at(l: &Vec<char>, i: usize) -> (r: Option<LinkMatch>)
    requires
        i < l@.len(),
    ensures
        match r {
            Some(m) => {
                &&& match_at(l@, i as int) == Some(m@)
                &&& m.start == i
                &&& i < m.end <= l@.len()
            },
            None => match_at(l@, i as int) is None,
        },
{
    let n = l.len();
    if l[i] != '[' {
        return None;
    }
    if i > 0 && l[i - 1] == '`' {
        return None;
    }
    let j = find_char_exec(l, i + 1, ']');
    if j >= n || j <= i + 1 {
        return None;
    }
    if j + 1 < n && l[j + 1] == '(' {
        let k = find_char_exec(l, j + 2, ')');
        if k < n && k > j + 2 {
            let target = chars_range_to_string(l, j + 2, k);
            return Some(LinkMatch { start: i, label_end: j + 1, end: k + 1, target });
        }
    }
    let target = chars_range_to_string(l, i + 1, j);
    Some(LinkMatch { start: i, label_end: j + 1, end: j + 1, target })
}

/// All spans of one line, left to right.
fn scan_line(l: &Vec<char>) -> (r: Vec<LinkMatch>)
    ensures
        match_views(r@) == scan_links(l@, 0),
{
    let mut r: Vec<LinkMatch> = Vec::new();
    let mut i: usize = 0;
    while i < l.len()
        invariant
            i <= l@.len(),
            match_views(r@) + scan_links(l@, i as int) == scan_links(l@, 0),
        decreases l@.len() - i,
    {
        let ghost prev = r@;
        match try_match_at(l, i) {
            Some(m) => {
                let end = m.end;
                let ghost sm = m@;
                r.push(m);
                proof {
                    assert(match_views(r@) =~= match_views(prev).push(sm));
                    assert(scan_links(l@, i as int) == seq![sm] + scan_links(l@, end as int));
                    assert(match_views(r@) + scan_links(l@, end as int) =~= match_views(prev) + (
                    seq![sm] + scan_links(l@, end as int)));
                }
                i = end;
            },
            None => {
                proof {
                    assert(scan_links(l@, i as int) == scan_links(l@, i + 1));
                }
                i = i + 1;
            },
        }
    }
    proof {
        assert(scan_links(l@, i as int) =~= Seq::<SpecMatch>::empty());
        assert(match_views(r@) =~= match_views(r@) + Seq::<SpecMatch>::empty());
    }
    r
}

/// The lines of the body, split as `spec_lines` describes.
fn split_lines(v: &Vec<char>) -> (r: Vec<Vec<char>>)
    ensures
        r.deep_view() == spec_lines(v@),
{
    let n = v.len();
    let mut r: Vec<Vec<char>> = Vec::new();
    let mut start: usize = 0;
    let mut i: usize = 0;
    proof {
        assert(v@.subrange(0, n as int) =~= v@);
        assert(r.deep_view() =~= Seq::<Seq<char>>::empty());
        assert(Seq::<Seq<char>>::empty() + spec_lines(v@) =~= spec_lines(v@));
    }
    while i < n
        invariant
            start <= i <= n == v@.len(),
            forall|j: int| start <= j < i ==> v@[j] != '\n',
            r.deep_view() + spec_lines(v@.subrange(start as int, n as int)) == spec_lines(v@),
        decreases n - i,
    {
        if v[i] == '\n' {
            let mut end = i;
            if end > start && v[end - 1] == '\r' {
                end = end - 1;
            }
            let line = sub_vec(v, start, end);
            let ghost old_deep = r.deep_view();
            let ghost lv = line@;
            r.push(line);
            proof {
                let suf = v@.subrange(start as int, n as int);
                assert forall|k: int| 0 <= k < i - start implies suf[k] != '\n' by {
                    assert(suf[k] == v@[start + k]);
                }
                lemma_find_char_at(suf, 0, '\n', i - start);
                let piece = suf.subrange(0, i - start);
                assert(piece =~= v@.subrange(start as int, i as int));
                if i > start && v@[i - 1] == '\r' {
                    assert(piece.len() > 0 && piece.last() == '\r');
                    assert(piece.drop_last() =~= v@.subrange(start as int, i - 1));
                    assert(lv == piece.drop_last());
                } else {
                    assert(!(piece.len() > 0 && piece.last() == '\r'));
                    assert(lv == piece);
                }
                assert(suf.subrange(i - start + 1, suf.len() as int) =~= v@.subrange(
                    i + 1,
                    n as int,
                ));
                assert(spec_lines(suf) == seq![lv] + spec_lines(v@.subrange(i + 1, n as int)));
                assert(r.deep_view() =~~= old_deep.push(lv));
                assert(old_deep.push(lv) + spec_lines(v@.subrange(i + 1, n as int)) =~= old_deep + (
                seq![lv] + spec_lines(v@.subrange(i + 1, n as int))));
            }
            start = i + 1;
        }
        i = i + 1;
    }
    if start < n {
        let line = sub_vec(v, start, n);
        let ghost old_deep = r.deep_view();
        let ghost lv = line@;
        r.push(line);
        proof {
            let suf = v@.subrange(start as int, n as int);
            assert forall|k: int| 0 <= k < suf.len() implies suf[k] != '\n' by {
                assert(suf[k] == v@[start + k]);
            }
            lemma_find_char_at(suf, 0, '\n', suf.len() as int);
            assert(spec_lines(suf) == seq![suf]);
            assert(lv == suf);
            assert(r.deep_view() =~~= old_deep.push(lv));
            assert(old_deep.push(lv) =~= old_deep + seq![lv]);
        }
    } else {
        proof {
            assert(v@.subrange(start as int, n as int).len() == 0);
            assert(r.deep_view() + spec_lines(v@.subrange(start as int, n as int)) =~= r.deep_view());
        }
    }
    r
}

/// The 26 lowercase letters.
fn letters_vec() -> (r: Vec<char>)
    ensures
        r@ == lowercase_letters(),
{
    let r: Vec<char> = vec![
        'a', 'b', 'c', 'd', 'e', 'f', 'g', 'h', 'i', 'j', 'k', 'l', 'm', 'n', 'o', 'p', 'q', 'r',
        's', 't', 'u', 'v', 'w', 'x', 'y', 'z',
    ];
    proof {
        assert(r@ =~= lowercase_letters());
    }
    r
}

/// The code alphabet: lowercase letters minus the reserved shortcuts.
fn alphabet(reserved: &Vec<char>) -> (r: Vec<char>)
    ensures
        r@ == spec_alphabet(reserved@),
{
    let letters = letters_vec();
    let mut r: Vec<char> = Vec::new();
    let mut i: usize = 0;
    proof {
        assert(letters@.skip(0) =~= letters@);
    }
    while i < letters.len()
        invariant
            i <= letters@.len(),
            letters@ == lowercase_letters(),
            r@ + filtered_alphabet(letters@.skip(i as int), reserved@) == spec_alphabet(reserved@),
        decreases letters@.len() - i,
    {
        let ghost suf = letters@.skip(i as int);
        let ghost old_r = r@;
        proof {
            assert(suf[0] == letters@[i as int]);
            assert(suf.drop_first() =~= letters@.skip(i + 1));
        }
        if !contains_char(reserved, letters[i]) {
            r.push(letters[i]);
            proof {
                assert(filtered_alphabet(suf, reserved@) == seq![suf[0]] + filtered_alphabet(
                    suf.drop_first(),
                    reserved@,
                ));
                assert(r@ + filtered_alphabet(letters@.skip(i + 1), reserved@) =~= old_r + (
                seq![suf[0]] + filtered_alphabet(suf.drop_first(), reserved@)));
            }
        } else {
            proof {
                assert(filtered_alphabet(suf, reserved@) == filtered_alphabet(
                    suf.drop_first(),
                    reserved@,
                ));
            }
        }
        i = i + 1;
    }
    proof {
        assert(letters@.skip(letters@.len() as int) =~= Seq::<char>::empty());
        assert(r@ =~= r@ + filtered_alphabet(Seq::<char>::empty(), reserved@));
    }
    r
}

/// Draws codes from a filtered alphabet: one letter each, or two letters
/// with the outer index incrementing slowest.
pub enum NamingScheme {
    Single { idx: usize, chars: Vec<char> },
    Double { first_idx: usize, second_idx: usize, chars: Vec<char> },
}

impl NamingScheme {
    /// The counters never run past the alphabet.
    pub open spec fn wf(&self) -> bool {
        match self {
            NamingScheme::Single { idx, chars } => idx <= chars@.len(),
            NamingScheme::Double { first_idx, second_idx, chars } => {
                &&& first_idx <= chars@.len()
                &&& if chars@.len() == 0 {
                    second_idx == 0
                } else {
                    second_idx < chars@.len()
                }
            },
        }
    }

    /// The alphabet the codes are drawn from.
    pub open spec fn alpha(&self) -> Seq<char> {
        match self {
            NamingScheme::Single { chars, .. } => chars@,
            NamingScheme::Double { chars, .. } => chars@,
        }
    }

    /// How many codes were handed out so far.
    pub open spec fn emitted(&self) -> int {
        match self {
            NamingScheme::Single { idx, .. } => *idx as int,
            NamingScheme::Double { first_idx, second_idx, chars } => *first_idx as int
                * chars@.len() as int + *second_idx as int,
        }
    }

    /// How many codes the scheme can hand out in all.
    pub open spec fn capacity(&self) -> int {
        match self {
            NamingScheme::Single { chars, .. } => chars@.len() as int,
            NamingScheme::Double { chars, .. } => chars@.len() * chars@.len() as int,
        }
    }

    /// The length of every code of this scheme.
    pub open spec fn code_size(&self) -> int {
        match self {
            NamingScheme::Single { .. } => 1,
            NamingScheme::Double { .. } => 2,
        }
    }

    /// A scheme of single-letter codes.
    pub fn single(chars: Vec<char>) -> (r: Self)
        ensures
            r == (NamingScheme::Single { idx: 0usize, chars }),
            r.wf(),
            r.emitted() == 0,
            r.code_size() == 1,
            r.alpha() == chars@,
            r.capacity() == chars@.len(),
    {
        NamingScheme::Single { idx: 0, chars }
    }

    /// A scheme of two-letter codes.
    pub fn double(chars: Vec<char>) -> (r: Self)
        ensures
            r == (NamingScheme::Double { first_idx: 0usize, second_idx: 0usize, chars }),
            r.wf(),
            r.emitted() == 0,
            r.code_size() == 2,
            r.alpha() == chars@,
            r.capacity() == chars@.len() * chars@.len(),
    {
        NamingScheme::Double { first_idx: 0, second_idx: 0, chars }
    }

    /// How many characters each code of this scheme has.
    pub fn link_char_size(&self) -> (r: usize)
        ensures
            r == self.code_size(),
    {
        match self {
            NamingScheme::Single { .. } => 1,
            NamingScheme::Double { .. } => 2,
        }
    }

    /// The next unused code, in assignment order, or `None` once the scheme
    /// is exhausted.
    pub fn next(&mut self) -> (r: Option<String>)
        requires
            old(self).wf(),
        ensures
            final(self).wf(),
            final(self).alpha() == old(self).alpha(),
            final(self).code_size() == old(self).code_size(),
            final(self).capacity() == old(self).capacity(),
            old(self).emitted() < old(self).capacity() ==> {
                &&& r matches Some(code) && code@ == spec_code(
                    old(self).alpha(),
                    old(self).code_size(),
                    old(self).emitted(),
                )
                &&& final(self).emitted() == old(self).emitted() + 1
            },
            old(self).emitted() >= old(self).capacity() ==> r is None && *final(self) == *old(
                self,
            ),
    {
        match self {
            NamingScheme::Single { idx, chars } => {
                if *idx < chars.len() {
                    let mut code = String::new();
                    crate::text::push_char(&mut code, chars[*idx]);
                    proof {
                        assert(code@ =~= spec_code(chars@, 1, *idx as int));
                    }
                    *idx = *idx + 1;
                    Some(code)
                } else {
                    None
                }
            },
            NamingScheme::Double { first_idx, second_idx, chars } => {
                let ln = chars.len();
                proof {
                    let fi = *first_idx as int;
                    let si = *second_idx as int;
                    let lni = ln as int;
                    if *first_idx >= ln {
                        assert(fi * lni >= lni * lni) by (nonlinear_arith)
                            requires
                                fi >= lni,
                                lni >= 0,
                        ;
                    } else {
                        assert(fi * lni + si < lni * lni) by (nonlinear_arith)
                            requires
                                fi < lni,
                                0 <= si < lni,
                        ;
                    }
                }
                if *first_idx >= ln {
                    return None;
                }
                let ghost k = *first_idx as int * ln as int + *second_idx as int;
                proof {
                    vstd::arithmetic::div_mod::lemma_fundamental_div_mod_converse(
                        k,
                        ln as int,
                        *first_idx as int,
                        *second_idx as int,
                    );
                }
                let mut code = String::new();
                crate::text::push_char(&mut code, chars[*first_idx]);
                crate::text::push_char(&mut code, chars[*second_idx]);
                proof {
                    assert(code@ =~= spec_code(chars@, 2, k));
                }
                *second_idx = *second_idx + 1;
                if *second_idx >= ln {
                    *second_idx = 0;
                    *first_idx = *first_idx + 1;
                    proof {
                        let fi = *first_idx as int;
                        let lni = ln as int;
                        assert(fi * lni == (fi - 1) * lni + lni) by (nonlinear_arith);
                    }
                }
                Some(code)
            },
        }
    }
}

/// The code-space of a document is exhausted: more recognized spans than
/// two-letter codes over the filtered alphabet. This is an explicit, fatal
/// condition; nothing is truncated silently.
#[derive(Clone, Copy, PartialEq, Eq, Structural, Debug)]
pub enum LinkError {
    TooManyLinks { count: usize, capacity: usize },
}

/// Total number of recognized spans in a body.
pub open spec fn link_total(body: Seq<char>) -> int {
    total_links(spec_lines(body), 0)
}

/// Number of recognized spans on the lines before line `i`.
pub open spec fn links_before(ls: Seq<Seq<char>>, i: int) -> int {
    total_links(ls, 0) - total_links(ls, i)
}

/// The uniform code length of a document: one letter while the span count
/// fits the alphabet, else two.
pub open spec fn code_size_for(body: Seq<char>, reserved: Seq<char>) -> int {
    if link_total(body) <= spec_alphabet(reserved).len() {
        1
    } else {
        2
    }
}

/// The mathematical values of a list of rendered spans.
pub open spec fn span_views(ss: Seq<RenderSpan>) -> Seq<SpecSpan> {
    ss.map_values(|s: RenderSpan| s@)
}

/// The targets of a list of code assignments, in order.
pub open spec fn entry_targets(es: Seq<LinkEntry>) -> Seq<Seq<char>> {
    es.map_values(|e: LinkEntry| e@.target)
}

/// A note body parsed for rendering: the code assignments in document order,
/// the uniform code length, and the styled lines.
pub struct ParsedZettel {
    pub links: Vec<LinkEntry>,
    pub link_char_size: usize,
    pub lines: Vec<RenderLine>,
}

/// Renders one line: pushes a code assignment for every span of the line
/// and returns the styled spans, raw text kept between and after them.
#[verifier::loop_isolation(false)]
#[verifier::rlimit(60)]
fn render_line(
    line: &Vec<char>,
    ms: &Vec<LinkMatch>,
    scheme: &mut NamingScheme,
    links: &mut Vec<LinkEntry>,
    overlay: bool,
) -> (rl: RenderLine)
    requires
        match_views(ms@) == scan_links(line@, 0),
        old(scheme).wf(),
        old(links)@.len() == old(scheme).emitted(),
        old(scheme).emitted() + ms@.len() <= old(scheme).capacity(),
    ensures
        final(scheme).wf(),
        final(scheme).alpha() == old(scheme).alpha(),
        final(scheme).code_size() == old(scheme).code_size(),
        final(scheme).capacity() == old(scheme).capacity(),
        final(scheme).emitted() == old(scheme).emitted() + ms@.len(),
        final(links)@.len() == old(links)@.len() + ms@.len(),
        final(links)@.subrange(0, old(links)@.len() as int) == old(links)@,
        forall|k: int|
            old(links)@.len() <= k < final(links)@.len() ==> (#[trigger] final(links)@[k])@.code
                == spec_code(old(scheme).alpha(), old(scheme).code_size(), k),
        entry_targets(final(links)@) == entry_targets(old(links)@) + targets_of(match_views(ms@)),
        rl@ == spans_of(
            line@,
            0,
            scan_links(line@, 0),
            old(scheme).alpha(),
            old(scheme).code_size(),
            old(scheme).emitted(),
            overlay,
        ),
{
    let ghost lv = line@;
    let ghost msv = match_views(ms@);
    let ghost av = old(scheme).alpha();
    let ghost size = old(scheme).code_size();
    let ghost base0 = old(scheme).emitted();
    let ghost n0 = old(links)@.len() as int;
    let char_size = scheme.link_char_size();
    proof {
        lemma_scan_wf(lv, 0);
        assert(msv.skip(0) =~= msv);
        assert(Seq::<SpecSpan>::empty() + spans_of(lv, 0, msv, av, size, base0, overlay)
            =~= spans_of(lv, 0, msv, av, size, base0, overlay));
        assert(entry_targets(links@) + Seq::<Seq<char>>::empty() =~= entry_targets(links@));
        assert(targets_of(msv.subrange(0, 0)) =~= Seq::<Seq<char>>::empty());
    }
    let mut spans: Vec<RenderSpan> = Vec::new();
    let mut pos: usize = 0;
    let mut mi: usize = 0;
    while mi < ms.len()
        invariant
            mi <= msv.len(),
            scheme.wf(),
            scheme.alpha() == av,
            scheme.code_size() == size,
            scheme.capacity() == old(scheme).capacity(),
            scheme.emitted() == base0 + mi,
            links@.len() == n0 + mi,
            links@.subrange(0, n0) == old(links)@,
            if mi == 0 {
                pos == 0
            } else {
                pos as int == msv[mi - 1].end
            },
            pos <= lv.len(),
            forall|k: int|
                n0 <= k < links@.len() ==> (#[trigger] links@[k])@.code == spec_code(
                    av,
                    size,
                    k,
                ),
            entry_targets(links@) == entry_targets(old(links)@) + targets_of(
                msv.subrange(0, mi as int),
            ),
            span_views(spans@) + spans_of(
                lv,
                pos as int,
                msv.skip(mi as int),
                av,
                size,
                base0 + mi,
                overlay,
            ) == spans_of(lv, 0, msv, av, size, base0, overlay),
        decreases msv.len() - mi,
    {
        let m = &ms[mi];
        let ghost smv = msv[mi as int];
        let ghost suffix = msv.skip(mi as int);
        let ghost old_spans = spans@;
        let ghost old_links = links@;
        let ghost base = base0 + mi;
        proof {
            lemma_scan_wf(lv, 0);
            assert(m@ == smv);
            lemma_match_at_bounds(lv, smv.start);
            assert(suffix[0] == smv);
            assert(suffix.drop_first() =~= msv.skip(mi + 1));
            if mi > 0 {
                assert(msv[mi - 1].end <= msv[mi as int].start);
            }
        }
        if m.start > pos {
            spans.push(
                RenderSpan {
                    text: chars_range_to_string(line, pos, m.start),
                    kind: SpanKind::Raw,
                },
            );
        }
        let code = scheme.next().unwrap();
        let ghost code_v = code@;
        if overlay {
            let mut hl = String::new();
            crate::text::push_char(&mut hl, '[');
            hl.append(code.as_str());
            crate::text::push_char(&mut hl, ']');
            proof {
                assert(hl@ =~= seq!['['] + code_v + seq![']']);
            }
            spans.push(RenderSpan { text: hl, kind: SpanKind::LinkHighlight });
            let span_len = m.label_end - m.start;
            let skip_n = char_size + 2;
            let skip = if span_len < skip_n {
                span_len
            } else {
                skip_n
            };
            spans.push(
                RenderSpan {
                    text: chars_range_to_string(line, m.start + skip, m.label_end),
                    kind: SpanKind::Link,
                },
            );
        } else {
            spans.push(
                RenderSpan {
                    text: chars_range_to_string(line, m.start, m.label_end),
                    kind: SpanKind::Link,
                },
            );
        }
        links.push(LinkEntry { code, target: m.target.clone() });
        proof {
            let pre: Seq<SpecSpan> = if (pos as int) < smv.start {
                seq![SpecSpan { text: lv.subrange(pos as int, smv.start), kind: SpanKind::Raw }]
            } else {
                Seq::empty()
            };
            let body: Seq<SpecSpan> = if overlay {
                let sk = if smv.label_end - smv.start < size + 2 {
                    smv.label_end - smv.start
                } else {
                    size + 2
                };
                seq![
                    SpecSpan {
                        text: seq!['['] + spec_code(av, size, base) + seq![']'],
                        kind: SpanKind::LinkHighlight,
                    },
                    SpecSpan {
                        text: lv.subrange(smv.start + sk, smv.label_end),
                        kind: SpanKind::Link,
                    },
                ]
            } else {
                seq![
                    SpecSpan { text: lv.subrange(smv.start, smv.label_end), kind: SpanKind::Link },
                ]
            };
            assert(spans_of(lv, pos as int, suffix, av, size, base, overlay) == pre + body
                + spans_of(lv, smv.end, msv.skip(mi + 1), av, size, base + 1, overlay));
            assert(span_views(spans@) =~= span_views(old_spans) + pre + body);
            assert(span_views(old_spans) + pre + body + spans_of(
                lv,
                smv.end,
                msv.skip(mi + 1),
                av,
                size,
                base + 1,
                overlay,
            ) =~= span_views(old_spans) + (pre + body + spans_of(
                lv,
                smv.end,
                msv.skip(mi + 1),
                av,
                size,
                base + 1,
                overlay,
            )));
            assert(links@.subrange(0, n0) =~= old_links.subrange(0, n0));
            assert(msv.subrange(0, mi + 1) =~= msv.subrange(0, mi as int).push(smv));
            assert(targets_of(msv.subrange(0, mi + 1)) =~= targets_of(
                msv.subrange(0, mi as int),
            ).push(smv.target));
            assert(entry_targets(links@) =~= entry_targets(old_links).push(smv.target));
        }
        pos = m.end;
        mi = mi + 1;
    }
    let ghost old_spans = spans@;
    if pos < line.len() {
        spans.push(
            RenderSpan {
                text: chars_range_to_string(line, pos, line.len()),
                kind: SpanKind::Raw,
            },
        );
    }
    let rl = RenderLine { spans };
    proof {
        assert(msv.skip(msv.len() as int) =~= Seq::<SpecMatch>::empty());
        assert(rl@ =~= old_spans.map_values(|s: RenderSpan| s@) + spans_of(
            lv,
            pos as int,
            Seq::<SpecMatch>::empty(),
            av,
            size,
            base0 + msv.len(),
            overlay,
        ));
        assert(rl@ == spans_of(lv, 0, msv, av, size, base0, overlay));
        assert(msv.subrange(0, msv.len() as int) =~= msv);
    }
    rl
}

/// What `parse` promises of a successful result: codes are assigned in
/// document order over the filtered alphabet, targets are recorded at their
/// occurrence, and each rendered line carries exactly the spans that
/// `spans_of` describes.
pub open spec fn parse_ok(
    p: ParsedZettel,
    body: Seq<char>,
    reserved: Seq<char>,
    overlay: bool,
) -> bool {
    let ls = spec_lines(body);
    let alpha = spec_alphabet(reserved);
    let n = link_total(body);
    let size = code_size_for(body, reserved);
    &&& p.link_char_size as int == size
    &&& p.links@.len() == n
    &&& forall|k: int| 0 <= k < n ==> (#[trigger] p.links@[k])@.code == spec_code(alpha, size, k)
    &&& forall|k: int| 0 <= k < n ==> (#[trigger] p.links@[k])@.target == doc_targets(ls, 0)[k]
    &&& p.lines@.len() == ls.len()
    &&& forall|i: int|
        0 <= i < ls.len() ==> (#[trigger] p.lines@[i])@ == spans_of(
            ls[i],
            0,
            scan_links(ls[i], 0),
            alpha,
            size,
            links_before(ls, i),
            overlay,
        )
}

impl ParsedZettel {
    /// Scans the note body and assigns a code to every recognized span.
    ///
    /// Codes are drawn from the lowercase alphabet minus `disallowed`, in
    /// strictly increasing order of first occurrence; with `render_links`
    /// the lines carry each code as a highlighted overlay. Fails exactly
    /// when the document holds more spans than two-letter codes exist.
    #[verifier::loop_isolation(false)]
    #[verifier::rlimit(60)]
    pub fn parse(zettel: &crate::storage::Zettel, disallowed: &Vec<char>, render_links: bool) -> (r:
        Result<ParsedZettel, LinkError>)
        ensures
            ({
                let n = link_total(zettel.body@);
                let cap = spec_alphabet(disallowed@).len() * spec_alphabet(disallowed@).len();
                match r {
                    Ok(p) => n <= cap && parse_ok(p, zettel.body@, disallowed@, render_links),
                    Err(e) => n > cap && e == (LinkError::TooManyLinks {
                        count: n as usize,
                        capacity: cap as usize,
                    }),
                }
            }),
    {
        let body_chars = chars_of(zettel.body.as_str());
        let lines = split_lines(&body_chars);
        let ghost ls = spec_lines(zettel.body@);
        let alpha = alphabet(disallowed);
        let ghost av = spec_alphabet(disallowed@);
        proof {
            lemma_alphabet_no_dup(disallowed@);
            lemma_total_links_le(zettel.body@);
            lemma_total_links_nonneg(ls, 0);
        }

        // Scan every line for spans.
        let mut all: Vec<Vec<LinkMatch>> = Vec::new();
        let mut li: usize = 0;
        while li < lines.len()
            invariant
                li <= lines@.len(),
                all@.len() == li,
                forall|j: int|
                    0 <= j < li ==> match_views((#[trigger] all@[j])@) == scan_links(ls[j], 0),
            decreases lines@.len() - li,
        {
            proof {
                assert(lines@[li as int]@ =~= lines.deep_view()[li as int]);
            }
            let ms = scan_line(&lines[li]);
            all.push(ms);
            li = li + 1;
        }

        // Count the spans of the whole document.
        let body_len = body_chars.len();
        let mut count: usize = 0;
        let mut lc: usize = 0;
        while lc < all.len()
            invariant
                lc <= all@.len(),
                count as int + total_links(ls, lc as int) == total_links(ls, 0),
            decreases all@.len() - lc,
        {
            proof {
                lemma_total_links_le(zettel.body@);
                lemma_total_links_nonneg(ls, lc + 1);
                assert(match_views(all@[lc as int]@).len() == all@[lc as int]@.len());
                assert(total_links(ls, lc as int) == scan_links(ls[lc as int], 0).len()
                    + total_links(ls, lc + 1));
                assert(count as int + all@[lc as int]@.len() <= total_links(ls, 0));
                assert(total_links(ls, 0) <= body_len as int);
            }
            count = count + all[lc].len();
            lc = lc + 1;
        }
        proof {
            assert(total_links(ls, all@.len() as int) == 0);
            assert(count as int == link_total(zettel.body@));
        }

        let alen = alpha.len();
        proof {
            assert(alpha@.len() <= 26);
            assert((alen as int) * (alen as int) <= 676) by (nonlinear_arith)
                requires
                    alen as int <= 26,
                    alen as int >= 0,
            ;
        }
        let capacity = alen * alen;
        if count > capacity {
            return Err(LinkError::TooManyLinks { count, capacity });
        }

        let single = count <= alen;
        let char_size: usize = if single {
            1
        } else {
            2
        };
        let ghost size = char_size as int;
        let mut scheme = if single {
            NamingScheme::single(alpha)
        } else {
            NamingScheme::double(alpha)
        };
        assert(size == code_size_for(zettel.body@, disallowed@));
        assert(scheme.capacity() >= count as int);

        // Assign codes and build the rendered lines.
        let mut links: Vec<LinkEntry> = Vec::new();
        let mut out_lines: Vec<RenderLine> = Vec::new();
        let mut li3: usize = 0;
        proof {
            assert(scheme.emitted() == 0);
            assert(entry_targets(links@) =~= Seq::<Seq<char>>::empty());
            assert(Seq::<Seq<char>>::empty() + doc_targets(ls, 0) =~= doc_targets(ls, 0));
        }
        while li3 < lines.len()
            invariant
                li3 <= lines@.len(),
                out_lines@.len() == li3,
                scheme.wf(),
                scheme.alpha() == av,
                scheme.code_size() == size,
                scheme.capacity() >= count as int,
                scheme.emitted() == links_before(ls, li3 as int),
                links@.len() == scheme.emitted(),
                forall|k: int|
                    0 <= k < links@.len() ==> (#[trigger] links@[k])@.code == spec_code(
                        av,
                        size,
                        k,
                    ),
                entry_targets(links@) + doc_targets(ls, li3 as int) == doc_targets(ls, 0),
                forall|i: int|
                    0 <= i < li3 ==> (#[trigger] out_lines@[i])@ == spans_of(
                        ls[i],
                        0,
                        scan_links(ls[i], 0),
                        av,
                        size,
                        links_before(ls, i),
                        render_links,
                    ),
            decreases lines@.len() - li3,
        {
            let ghost lv = ls[li3 as int];
            let ghost old_links = links@;
            let ghost base0 = scheme.emitted();
            proof {
                assert(lines@[li3 as int]@ =~= lines.deep_view()[li3 as int]);
                lemma_total_links_nonneg(ls, li3 + 1);
                assert(total_links(ls, li3 as int) == scan_links(lv, 0).len() + total_links(
                    ls,
                    li3 + 1,
                ));
                assert(doc_targets(ls, li3 as int) == targets_of(scan_links(lv, 0)) + doc_targets(
                    ls,
                    li3 + 1,
                ));
            }
            let rl = render_line(&lines[li3], &all[li3], &mut scheme, &mut links, render_links);
            out_lines.push(rl);
            proof {
                let new = links@.subrange(old_links.len() as int, links@.len() as int);
                assert(links@ =~= old_links + new);
                assert(entry_targets(links@) =~= entry_targets(old_links) + targets_of(
                    scan_links(lv, 0),
                ));
                assert(entry_targets(links@) + doc_targets(ls, li3 + 1) =~= entry_targets(
                    old_links,
                ) + (targets_of(scan_links(lv, 0)) + doc_targets(ls, li3 + 1)));
            }
            li3 = li3 + 1;
        }
        proof {
            assert(total_links(ls, ls.len() as int) == 0);
            assert(doc_targets(ls, ls.len() as int) =~= Seq::<Seq<char>>::empty());
            assert(entry_targets(links@) + Seq::<Seq<char>>::empty() =~= entry_targets(links@));
            assert(entry_targets(links@) == doc_targets(ls, 0));
            assert(links@.len() == link_total(zettel.body@));
            lemma_doc_targets_len(ls, 0);
            assert forall|k: int| 0 <= k < links@.len() implies (#[trigger] links@[k])@.target
                == doc_targets(ls, 0)[k] by {
                assert(entry_targets(links@)[k] == links@[k]@.target);
            }
        }
        Ok(ParsedZettel { links, link_char_size: char_size, lines: out_lines })
    }
}

/// The mathematical values of a list of code assignments.
pub open spec fn link_views(es: Seq<LinkEntry>) -> Seq<SpecLink> {
    es.map_values(|e: LinkEntry| e@)
}

impl ParsedZettel {
    /// The target recorded for `code`, if `code` was assigned.
    pub fn lookup(&self, code: &str) -> (r: Option<String>)
        ensures
            match r {
                Some(t) => spec_lookup(link_views(self.links@), code@) == Some(t@),
                None => spec_lookup(link_views(self.links@), code@) is None,
            },
    {
        let ghost all = link_views(self.links@);
        let mut i: usize = 0;
        proof {
            assert(all.skip(0) =~= all);
        }
        while i < self.links.len()
            invariant
                i <= self.links@.len(),
                all == link_views(self.links@),
                spec_lookup(all, code@) == spec_lookup(all.skip(i as int), code@),
            decreases self.links@.len() - i,
        {
            let ghost suffix = all.skip(i as int);
            proof {
                assert(suffix[0] == self.links@[i as int]@);
                assert(suffix.drop_first() =~= all.skip(i + 1));
            }
            if crate::text::str_eq(self.links[i].code.as_str(), code) {
                return Some(self.links[i].target.clone());
            }
            i = i + 1;
        }
        proof {
            assert(all.skip(all.len() as int) =~= Seq::<SpecLink>::empty());
        }
        None
    }
}

/// With no more recognized spans than alphabet letters, every assigned code
/// has length one, and codes of distinct spans are distinct.
pub proof fn lemma_single_letter_codes(body: Seq<char>, reserved: Seq<char>)
    requires
        link_total(body) <= spec_alphabet(reserved).len(),
    ensures
        code_size_for(body, reserved) == 1,
        forall|k: int|
            0 <= k < link_total(body) ==> (#[trigger] spec_code(
                spec_alphabet(reserved),
                1,
                k,
            )).len() == 1,
        forall|k1: int, k2: int|
            0 <= k1 < link_total(body) && 0 <= k2 < link_total(body) && k1 != k2 ==> spec_code(
                spec_alphabet(reserved),
                1,
                k1,
            ) != spec_code(spec_alphabet(reserved), 1, k2),
{
    let alpha = spec_alphabet(reserved);
    lemma_alphabet_no_dup(reserved);
    assert forall|k1: int, k2: int|
        0 <= k1 < link_total(body) && 0 <= k2 < link_total(body) && k1 != k2 implies spec_code(
        alpha,
        1,
        k1,
    ) != spec_code(alpha, 1, k2) by {
        lemma_codes_distinct(alpha, 1, k1, k2);
    }
}

/// With more spans than letters but no more than the two-letter capacity,
/// every assigned code has length two, and codes of distinct spans are
/// distinct.
pub proof fn lemma_two_letter_codes(body: Seq<char>, reserved: Seq<char>)
    requires
        spec_alphabet(reserved).len() < link_total(body),
        link_total(body) <= spec_alphabet(reserved).len() * spec_alphabet(reserved).len(),
    ensures
        code_size_for(body, reserved) == 2,
        forall|k: int|
            0 <= k < link_total(body) ==> (#[trigger] spec_code(
                spec_alphabet(reserved),
                2,
                k,
            )).len() == 2,
        forall|k1: int, k2: int|
            0 <= k1 < link_total(body) && 0 <= k2 < link_total(body) && k1 != k2 ==> spec_code(
                spec_alphabet(reserved),
                2,
                k1,
            ) != spec_code(spec_alphabet(reserved), 2, k2),
{
    let alpha = spec_alphabet(reserved);
    lemma_alphabet_no_dup(reserved);
    assert forall|k1: int, k2: int|
        0 <= k1 < link_total(body) && 0 <= k2 < link_total(body) && k1 != k2 implies spec_code(
        alpha,
        2,
        k1,
    ) != spec_code(alpha, 2, k2) by {
        lemma_codes_distinct(alpha, 2, k1, k2);
    }
}

/// Decoding any assigned code returns the target recorded at its occurrence:
/// looking up the `k`-th code of a successful parse yields the `k`-th target
/// of the document.
pub proof fn lemma_decode_assigned(
    p: ParsedZettel,
    body: Seq<char>,
    reserved: Seq<char>,
    overlay: bool,
    k: int,
)
    requires
        parse_ok(p, body, reserved, overlay),
        link_total(body) <= spec_alphabet(reserved).len() * spec_alphabet(reserved).len(),
        0 <= k < link_total(body),
    ensures
        spec_lookup(link_views(p.links@), p.links@[k]@.code) == Some(
            doc_targets(spec_lines(body), 0)[k],
        ),
{
    let alpha = spec_alphabet(reserved);
    let n = link_total(body);
    let size = code_size_for(body, reserved);
    let views = link_views(p.links@);
    lemma_alphabet_no_dup(reserved);
    assert forall|k1: int, k2: int|
        0 <= k1 < views.len() && 0 <= k2 < views.len() && k1 != k2 implies (
    #[trigger] views[k1]).code != (#[trigger] views[k2]).code by {
        assert(views[k1].code == p.links@[k1]@.code);
        assert(views[k2].code == p.links@[k2]@.code);
        if size == 1 {
            lemma_codes_distinct(alpha, 1, k1, k2);
        } else {
            lemma_codes_distinct(alpha, 2, k1, k2);
        }
    }
    lemma_lookup_distinct(views, k);
    assert(views[k].code == p.links@[k]@.code);
    assert(views[k].target == p.links@[k]@.target);
}

/// Parsing is deterministic: two successful parses of one body with the same
/// reserved set and overlay flag agree on every observable value.
pub proof fn lemma_parse_deterministic(
    p1: ParsedZettel,
    p2: ParsedZettel,
    body: Seq<char>,
    reserved: Seq<char>,
    overlay: bool,
)
    requires
        parse_ok(p1, body, reserved, overlay),
        parse_ok(p2, body, reserved, overlay),
    ensures
        p1.link_char_size == p2.link_char_size,
        link_views(p1.links@) == link_views(p2.links@),
        p1.lines@.len() == p2.lines@.len(),
        forall|i: int| 0 <= i < p1.lines@.len() ==> (#[trigger] p1.lines@[i])@ == p2.lines@[i]@,
{
    assert(link_views(p1.links@) =~~= link_views(p2.links@));
}

/// No recognized span starts right after a backtick: the escape works.
pub proof fn lemma_backtick_escape(l: Seq<char>, i: int)
    requires
        0 <= i,
    ensures
        forall|k: int|
            0 <= k < scan_links(l, i).len() ==> {
                let m = #[trigger] scan_links(l, i)[k];
                m.start > 0 ==> l[m.start - 1] != '`'
            },
{
    lemma_scan_wf(l, i);
}

} // verus!
