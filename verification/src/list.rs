//! The note list: every note of the user, a live case-insensitive filter
//! over paths, a movable selection, and grouping of consecutive entries by
//! their shared path-segment prefix.

use vstd::prelude::*;

use crate::keys::Key;
use crate::links::{
    find_char, lemma_find_char, lemma_find_char_at, span_views, RenderLine, RenderSpan, SpanKind,
    SpecSpan,
};
use crate::storage;
use crate::text::{
    all_space, chars_of, chars_range_to_string, eq_ci, is_blank, is_substring, lower_seq,
};

verus! {

/// The note list page.
pub struct List {
    pub user: storage::User,
    pub selected: usize,
    pub search: String,
    pub links: Vec<storage::ZettelHeader>,
}

/// The page-level outcome of the list page.
pub enum Transition {
    NewZettel(crate::zettel::Zettel),
    Pop,
}

/// What one key press asks the surrounding loop to do.
#[derive(Clone, Copy, PartialEq, Eq, Structural, Debug)]
pub enum ListAction {
    Continue,
    Pop,
    Open { id: storage::ZettelId },
}

/// Whether a note's path matches the filter, ignoring ASCII case.
pub open spec fn matches_search(h: storage::ZettelHeader, search: Seq<char>) -> bool {
    is_substring(lower_seq(h.path@), lower_seq(search))
}

/// The entries whose paths match the filter, in order.
pub open spec fn spec_filtered(
    links: Seq<storage::ZettelHeader>,
    search: Seq<char>,
) -> Seq<storage::ZettelHeader>
    decreases links.len(),
{
    if links.len() == 0 {
        Seq::empty()
    } else {
        let rest = spec_filtered(links.drop_first(), search);
        if matches_search(links[0], search) {
            seq![links[0]] + rest
        } else {
            rest
        }
    }
}

impl List {
    /// A fresh list page over the headers the storage collaborator listed,
    /// sorted by path as storage returns them.
    pub fn new(user: storage::User, links: Vec<storage::ZettelHeader>) -> (r: Self)
        ensures
            r.user == user,
            r.selected == 0,
            r.search@ == Seq::<char>::empty(),
            r.links == links,
    {
        List { user, selected: 0, search: String::new(), links }
    }

    /// The rows currently shown: all entries while the filter is blank,
    /// else the entries whose path holds the filter, ignoring ASCII case.
    pub fn filtered(&self) -> (r: Vec<storage::ZettelHeader>)
        ensures
            all_space(self.search@) ==> r@ == self.links@,
            !all_space(self.search@) ==> r@ == spec_filtered(self.links@, self.search@),
    {
        if is_blank(self.search.as_str()) {
            let mut r: Vec<storage::ZettelHeader> = Vec::new();
            let mut i: usize = 0;
            while i < self.links.len()
                invariant
                    i <= self.links@.len(),
                    r@ == self.links@.subrange(0, i as int),
                decreases self.links@.len() - i,
            {
                r.push(self.links[i].clone());
                assert(self.links@.subrange(0, i as int).push(self.links@[i as int])
                    =~= self.links@.subrange(0, i + 1));
                i = i + 1;
            }
            assert(r@ =~= self.links@);
            r
        } else {
            let ghost sv = self.search@;
            let mut r: Vec<storage::ZettelHeader> = Vec::new();
            let mut i: usize = 0;
            proof {
                assert(self.links@.skip(0) =~= self.links@);
            }
            while i < self.links.len()
                invariant
                    i <= self.links@.len(),
                    sv == self.search@,
                    r@ + spec_filtered(self.links@.skip(i as int), sv) == spec_filtered(
                        self.links@,
                        sv,
                    ),
                decreases self.links@.len() - i,
            {
                let ghost suf = self.links@.skip(i as int);
                let ghost old_r = r@;
                proof {
                    assert(suf[0] == self.links@[i as int]);
                    assert(suf.drop_first() =~= self.links@.skip(i + 1));
                }
                if crate::text::contains_ci(self.links[i].path.as_str(), self.search.as_str()) {
                    r.push(self.links[i].clone());
                    proof {
                        assert(spec_filtered(suf, sv) == seq![suf[0]] + spec_filtered(
                            suf.drop_first(),
                            sv,
                        ));
                        assert(r@ + spec_filtered(self.links@.skip(i + 1), sv) =~= old_r + (
                        seq![suf[0]] + spec_filtered(suf.drop_first(), sv)));
                    }
                } else {
                    proof {
                        assert(spec_filtered(suf, sv) == spec_filtered(suf.drop_first(), sv));
                    }
                }
                i = i + 1;
            }
            proof {
                assert(self.links@.skip(self.links@.len() as int)
                    =~= Seq::<storage::ZettelHeader>::empty());
                assert(r@ =~= r@ + spec_filtered(Seq::<storage::ZettelHeader>::empty(), sv));
            }
            r
        }
    }

    /// Keeps the selection inside the filtered rows: no rows resets it, a
    /// shorter list clamps it to the last row.
    pub fn clamp_selection(&mut self, filtered_len: usize)
        ensures
            final(self).user == old(self).user,
            final(self).search == old(self).search,
            final(self).links == old(self).links,
            final(self).selected == (if filtered_len == 0 {
                0int
            } else if old(self).selected >= filtered_len {
                filtered_len - 1
            } else {
                old(self).selected as int
            }),
    {
        if filtered_len == 0 {
            self.selected = 0;
        } else if self.selected >= filtered_len {
            self.selected = filtered_len - 1;
        }
    }

    /// One key press: characters and backspace edit the filter, Enter opens
    /// the highlighted row if any, Esc leaves, Up/Down move the selection
    /// within the rows currently shown.
    pub fn handle_key(&mut self, key: Key, filtered: &Vec<storage::ZettelHeader>) -> (r: ListAction)
        ensures
            ({
                let s = *final(self);
                let o = *old(self);
                match key {
                    Key::Char(c) => {
                        &&& r == ListAction::Continue
                        &&& s.search@ == o.search@.push(c)
                        &&& s.user == o.user
                        &&& s.selected == o.selected
                        &&& s.links == o.links
                    },
                    Key::Backspace => {
                        &&& r == ListAction::Continue
                        &&& s.search@ == (if o.search@.len() > 0 {
                            o.search@.drop_last()
                        } else {
                            o.search@
                        })
                        &&& s.user == o.user
                        &&& s.selected == o.selected
                        &&& s.links == o.links
                    },
                    Key::Esc => r == ListAction::Pop && s == o,
                    Key::Enter => if o.selected < filtered@.len() {
                        r == (ListAction::Open { id: filtered@[o.selected as int].id }) && s == o
                    } else {
                        r == ListAction::Continue && s == o
                    },
                    Key::Up => {
                        &&& r == ListAction::Continue
                        &&& s.selected == (if o.selected >= 1 {
                            (o.selected - 1) as usize
                        } else {
                            o.selected
                        })
                        &&& s.user == o.user
                        &&& s.search == o.search
                        &&& s.links == o.links
                    },
                    Key::Down => {
                        &&& r == ListAction::Continue
                        &&& s.selected == (if o.selected + 1 < filtered@.len() {
                            (o.selected + 1) as usize
                        } else {
                            o.selected
                        })
                        &&& s.user == o.user
                        &&& s.search == o.search
                        &&& s.links == o.links
                    },
                    _ => r == ListAction::Continue && s == o,
                }
            }),
    {
        match key {
            Key::Char(c) => {
                crate::text::push_char(&mut self.search, c);
                ListAction::Continue
            },
            Key::Backspace => {
                let _ = crate::text::pop_char(&mut self.search);
                ListAction::Continue
            },
            Key::Esc => ListAction::Pop,
            Key::Enter => {
                if self.selected < filtered.len() {
                    ListAction::Open { id: filtered[self.selected].id }
                } else {
                    ListAction::Continue
                }
            },
            Key::Up => {
                if self.selected >= 1 {
                    self.selected = self.selected - 1;
                }
                ListAction::Continue
            },
            Key::Down => {
                if filtered.len() > 0 && self.selected < filtered.len() - 1 {
                    self.selected = self.selected + 1;
                }
                ListAction::Continue
            },
            _ => ListAction::Continue,
        }
    }
}

/// The selection marker of a row.
pub open spec fn marker_span(selected: bool) -> SpecSpan {
    SpecSpan {
        text: if selected {
            "> "@
        } else {
            "  "@
        },
        kind: SpanKind::Raw,
    }
}

/// `n` indent steps, one per shared leading segment.
pub open spec fn indent_spans(n: int) -> Seq<SpecSpan>
    decreases n,
{
    if n <= 0 {
        Seq::empty()
    } else {
        seq![SpecSpan { text: "  "@, kind: SpanKind::Raw }] + indent_spans(n - 1)
    }
}

pub proof fn lemma_indent_snoc(n: int)
    requires
        n >= 0,
    ensures
        indent_spans(n + 1) == indent_spans(n) + seq![
            SpecSpan { text: "  "@, kind: SpanKind::Raw },
        ],
    decreases n,
{
    if n == 0 {
        assert(indent_spans(1) =~= indent_spans(0) + seq![
            SpecSpan { text: "  "@, kind: SpanKind::Raw },
        ]);
    } else {
        lemma_indent_snoc(n - 1);
        assert(indent_spans(n + 1) =~= indent_spans(n) + seq![
            SpecSpan { text: "  "@, kind: SpanKind::Raw },
        ]);
    }
}

/// The remaining segments of a row, slash-separated from the second on.
pub open spec fn segment_spans(rem: Seq<Seq<char>>, first: bool) -> Seq<SpecSpan>
    decreases rem.len(),
{
    if rem.len() == 0 {
        Seq::empty()
    } else {
        (if first {
            Seq::empty()
        } else {
            seq![SpecSpan { text: "/"@, kind: SpanKind::Raw }]
        }) + seq![SpecSpan { text: rem[0], kind: SpanKind::Raw }] + segment_spans(
            rem.drop_first(),
            false,
        )
    }
}

/// One rendered row: the selection marker, one indent step per segment
/// shared with the previous row, then this row's remaining segments.
pub open spec fn row_spans(selected: bool, common: int, rem: Seq<Seq<char>>) -> Seq<SpecSpan> {
    seq![marker_span(selected)] + indent_spans(common) + segment_spans(rem, true)
}

/// The segments of the row above row `i`, or nothing for the first row.
pub open spec fn prev_segments(rows: Seq<storage::ZettelHeader>, i: int) -> Seq<Seq<char>> {
    if i == 0 {
        Seq::empty()
    } else {
        spec_split(rows[i - 1].path@, '/')
    }
}

impl List {
    /// The rendered rows: consecutive entries are grouped by indenting the
    /// path segments they share with their predecessor, so a shared prefix
    /// is rendered once.
    pub fn draw(&self, filtered: &Vec<storage::ZettelHeader>) -> (r: Vec<RenderLine>)
        ensures
            r@.len() == filtered@.len(),
            forall|i: int|
                0 <= i < filtered@.len() ==> (#[trigger] r@[i])@ == ({
                    let segs = spec_split(filtered@[i].path@, '/');
                    let common = common_ci_len(segs, prev_segments(filtered@, i));
                    row_spans(i == self.selected, common, segs.skip(common))
                }),
    {
        let mut r: Vec<RenderLine> = Vec::new();
        let mut i: usize = 0;
        let mut previous: Vec<String> = Vec::new();
        proof {
            assert(previous.deep_view() =~= Seq::<Seq<char>>::empty());
        }
        while i < filtered.len()
            invariant
                i <= filtered@.len(),
                r@.len() == i,
                previous.deep_view() == prev_segments(filtered@, i as int),
                forall|j: int|
                    0 <= j < i ==> (#[trigger] r@[j])@ == ({
                        let segs = spec_split(filtered@[j].path@, '/');
                        let common = common_ci_len(segs, prev_segments(filtered@, j));
                        row_spans(j == self.selected, common, segs.skip(common))
                    }),
            decreases filtered@.len() - i,
        {
            let parts = split_path(filtered[i].path.as_str());
            let common = CommonParts::get(&parts, &previous);
            let ghost segs = spec_split(filtered@[i as int].path@, '/');
            let ghost cl = common.common_length as int;
            let selected_row = i == self.selected;

            let mut spans: Vec<RenderSpan> = Vec::new();
            let marker = if selected_row {
                "> "
            } else {
                "  "
            };
            spans.push(RenderSpan { text: marker.to_owned(), kind: SpanKind::Raw });
            proof {
                assert(span_views(spans@) =~= seq![marker_span(selected_row)]);
            }
            let mut k: usize = 0;
            while k < common.common_length
                invariant
                    k <= common.common_length,
                    span_views(spans@) == seq![marker_span(selected_row)] + indent_spans(k as int),
                decreases common.common_length - k,
            {
                let ghost before = spans@;
                spans.push(RenderSpan { text: "  ".to_owned(), kind: SpanKind::Raw });
                proof {
                    lemma_indent_snoc(k as int);
                    assert(span_views(spans@) =~= span_views(before) + seq![
                        SpecSpan { text: "  "@, kind: SpanKind::Raw },
                    ]);
                    assert(seq![marker_span(selected_row)] + indent_spans(k as int) + seq![
                        SpecSpan { text: "  "@, kind: SpanKind::Raw },
                    ] =~= seq![marker_span(selected_row)] + indent_spans(k + 1));
                }
                k = k + 1;
            }
            let ghost head = seq![marker_span(selected_row)] + indent_spans(cl);
            let ghost rem = common.remaining.deep_view();
            proof {
                assert(parts.deep_view() == segs);
                assert(rem =~= segs.skip(cl)) by {
                    assert forall|k: int| 0 <= k < rem.len() implies rem[k] == segs.skip(cl)[k] by {
                        assert(rem[k] == common.remaining@[k]@);
                        assert(common.remaining@[k] == parts@.skip(cl)[k]);
                        assert(parts@.skip(cl)[k] == parts@[cl + k]);
                        assert(parts.deep_view()[cl + k] == parts@[cl + k]@);
                    }
                    assert(rem.len() == segs.skip(cl).len()) by {
                        assert(common.remaining@.len() == parts@.skip(cl).len());
                    }
                }
                assert(rem.skip(0) =~= rem);
                assert(span_views(spans@) + segment_spans(rem.skip(0), true) =~= head
                    + segment_spans(rem, true));
            }
            let mut ridx: usize = 0;
            while ridx < common.remaining.len()
                invariant
                    ridx <= common.remaining.len(),
                    rem == common.remaining.deep_view(),
                    span_views(spans@) + segment_spans(rem.skip(ridx as int), ridx == 0) == head
                        + segment_spans(rem, true),
                decreases common.remaining.len() - ridx,
            {
                let ghost suffix = rem.skip(ridx as int);
                let ghost before = spans@;
                proof {
                    assert(suffix[0] == rem[ridx as int]);
                    assert(rem[ridx as int] == common.remaining@[ridx as int]@);
                    assert(suffix.drop_first() =~= rem.skip(ridx + 1));
                }
                if ridx != 0 {
                    spans.push(RenderSpan { text: "/".to_owned(), kind: SpanKind::Raw });
                }
                spans.push(
                    RenderSpan { text: common.remaining[ridx].clone(), kind: SpanKind::Raw },
                );
                proof {
                    if ridx == 0 {
                        assert(span_views(spans@) =~= span_views(before) + seq![
                            SpecSpan { text: suffix[0], kind: SpanKind::Raw },
                        ]);
                        assert(segment_spans(suffix, true) == seq![
                            SpecSpan { text: suffix[0], kind: SpanKind::Raw },
                        ] + segment_spans(suffix.drop_first(), false)) by {
                            assert(Seq::<SpecSpan>::empty() + seq![
                                SpecSpan { text: suffix[0], kind: SpanKind::Raw },
                            ] =~= seq![SpecSpan { text: suffix[0], kind: SpanKind::Raw }]);
                        }
                        assert(span_views(spans@) + segment_spans(rem.skip(ridx + 1), false)
                            =~= span_views(before) + segment_spans(suffix, true));
                    } else {
                        assert(span_views(spans@) =~= span_views(before) + seq![
                            SpecSpan { text: "/"@, kind: SpanKind::Raw },
                        ] + seq![SpecSpan { text: suffix[0], kind: SpanKind::Raw }]);
                        assert(segment_spans(suffix, false) == seq![
                            SpecSpan { text: "/"@, kind: SpanKind::Raw },
                        ] + seq![SpecSpan { text: suffix[0], kind: SpanKind::Raw }] + segment_spans(
                            suffix.drop_first(),
                            false,
                        )) by {
                            assert(seq![SpecSpan { text: "/"@, kind: SpanKind::Raw }] + seq![
                                SpecSpan { text: suffix[0], kind: SpanKind::Raw },
                            ] + segment_spans(suffix.drop_first(), false) =~= (seq![
                                SpecSpan { text: "/"@, kind: SpanKind::Raw },
                            ] + seq![SpecSpan { text: suffix[0], kind: SpanKind::Raw }])
                                + segment_spans(suffix.drop_first(), false));
                        }
                        assert(span_views(spans@) + segment_spans(rem.skip(ridx + 1), false)
                            =~= span_views(before) + segment_spans(suffix, false));
                    }
                }
                ridx = ridx + 1;
            }
            proof {
                assert(rem.skip(rem.len() as int) =~= Seq::<Seq<char>>::empty());
                assert(segment_spans(Seq::<Seq<char>>::empty(), true)
                    =~= Seq::<SpecSpan>::empty());
                assert(segment_spans(Seq::<Seq<char>>::empty(), false)
                    =~= Seq::<SpecSpan>::empty());
                assert(span_views(spans@) =~= span_views(spans@) + Seq::<SpecSpan>::empty());
            }
            let row = RenderLine { spans };
            let ghost old_r = r@;
            r.push(row);
            proof {
                assert(row@ =~= head + segment_spans(rem, true));
                assert(row@ == row_spans(selected_row, cl, segs.skip(cl)));
            }
            previous = parts;
            i = i + 1;
            proof {
                assert(previous.deep_view() =~= prev_segments(filtered@, i as int));
            }
        }
        r
    }
}

/// The slash-separated pieces of a path, empty pieces kept.
pub open spec fn spec_split(s: Seq<char>, sep: char) -> Seq<Seq<char>>
    decreases s.len(),
{
    let j = find_char(s, 0, sep);
    proof {
        lemma_find_char(s, 0, sep);
    }
    if j == s.len() {
        seq![s]
    } else {
        seq![s.subrange(0, j)] + spec_split(s.subrange(j + 1, s.len() as int), sep)
    }
}

/// Splits a path into its slash-separated segments.
pub fn split_path(path: &str) -> (r: Vec<String>)
    ensures
        r.deep_view() == spec_split(path@, '/'),
{
    let v = chars_of(path);
    let n = v.len();
    let mut r: Vec<String> = Vec::new();
    let mut start: usize = 0;
    let mut i: usize = 0;
    proof {
        assert(v@.subrange(0, n as int) =~= v@);
        assert(r.deep_view() =~= Seq::<Seq<char>>::empty());
        assert(Seq::<Seq<char>>::empty() + spec_split(v@, '/') =~= spec_split(v@, '/'));
    }
    while i < n
        invariant
            start <= i <= n == v@.len(),
            v@ == path@,
            forall|j: int| start <= j < i ==> v@[j] != '/',
            r.deep_view() + spec_split(v@.subrange(start as int, n as int), '/') == spec_split(
                v@,
                '/',
            ),
        decreases n - i,
    {
        if v[i] == '/' {
            let piece = chars_range_to_string(&v, start, i);
            let ghost old_deep = r.deep_view();
            let ghost pv = piece@;
            r.push(piece);
            proof {
                let suf = v@.subrange(start as int, n as int);
                assert forall|k: int| 0 <= k < i - start implies suf[k] != '/' by {
                    assert(suf[k] == v@[start + k]);
                }
                lemma_find_char_at(suf, 0, '/', i - start);
                assert(suf.subrange(0, i - start) =~= v@.subrange(start as int, i as int));
                assert(pv == suf.subrange(0, i - start));
                assert(suf.subrange(i - start + 1, suf.len() as int) =~= v@.subrange(
                    i + 1,
                    n as int,
                ));
                assert(spec_split(suf, '/') == seq![pv] + spec_split(
                    v@.subrange(i + 1, n as int),
                    '/',
                ));
                assert(r.deep_view() =~~= old_deep.push(pv));
                assert(old_deep.push(pv) + spec_split(v@.subrange(i + 1, n as int), '/')
                    =~= old_deep + (seq![pv] + spec_split(v@.subrange(i + 1, n as int), '/')));
            }
            start = i + 1;
        }
        i = i + 1;
    }
    let piece = chars_range_to_string(&v, start, n);
    let ghost old_deep = r.deep_view();
    let ghost pv = piece@;
    r.push(piece);
    proof {
        let suf = v@.subrange(start as int, n as int);
        assert forall|k: int| 0 <= k < suf.len() implies suf[k] != '/' by {
            assert(suf[k] == v@[start + k]);
        }
        lemma_find_char_at(suf, 0, '/', suf.len() as int);
        assert(spec_split(suf, '/') == seq![suf]);
        assert(pv == suf);
        assert(r.deep_view() =~~= old_deep.push(pv));
        assert(old_deep.push(pv) =~= old_deep + seq![pv]);
    }
    r
}

/// How many leading path segments two entries share, ignoring ASCII case.
pub open spec fn common_ci_len(a: Seq<Seq<char>>, b: Seq<Seq<char>>) -> int
    decreases a.len(),
{
    if a.len() == 0 || b.len() == 0 {
        0
    } else if lower_seq(a[0]) == lower_seq(b[0]) {
        1 + common_ci_len(a.drop_first(), b.drop_first())
    } else {
        0
    }
}

/// One list row split against its predecessor: how many leading segments
/// they share, and the segments of this row past the shared prefix.
pub struct CommonParts {
    pub common_length: usize,
    pub remaining: Vec<String>,
}

impl CommonParts {
    /// Splits `current` against `previous`: the shared segment prefix is
    /// rendered as indentation, the remaining segments as text.
    pub fn get(current: &Vec<String>, previous: &Vec<String>) -> (r: CommonParts)
        ensures
            r.common_length <= current@.len(),
            r.common_length == common_ci_len(current.deep_view(), previous.deep_view()),
            r.remaining@ == current@.skip(r.common_length as int),
    {
        let ghost cd = current.deep_view();
        let ghost pd = previous.deep_view();
        let mut i: usize = 0;
        proof {
            assert(cd.skip(0) =~= cd);
            assert(pd.skip(0) =~= pd);
        }
        loop
            invariant
                i <= current@.len(),
                i <= previous@.len(),
                cd == current.deep_view(),
                pd == previous.deep_view(),
                common_ci_len(cd, pd) == i + common_ci_len(
                    cd.skip(i as int),
                    pd.skip(i as int),
                ),
            ensures
                i <= current@.len(),
                common_ci_len(cd, pd) == i,
            decreases current@.len() - i,
        {
            let ghost cs = cd.skip(i as int);
            let ghost ps = pd.skip(i as int);
            proof {
                assert(cs.len() == cd.len() - i);
                assert(ps.len() == pd.len() - i);
                if i < current@.len() {
                    assert(cs[0] == cd[i as int]);
                    assert(cd[i as int] == current@[i as int]@);
                }
                if i < previous@.len() {
                    assert(ps[0] == pd[i as int]);
                    assert(pd[i as int] == previous@[i as int]@);
                }
                if i < current@.len() && i < previous@.len() {
                    assert(cs.drop_first() =~= cd.skip(i + 1));
                    assert(ps.drop_first() =~= pd.skip(i + 1));
                }
            }
            if i >= current.len() || i >= previous.len() {
                proof {
                    assert(common_ci_len(cs, ps) == 0);
                }
                break ;
            }
            if !eq_ci(current[i].as_str(), previous[i].as_str()) {
                proof {
                    assert(common_ci_len(cs, ps) == 0);
                }
                break ;
            }
            proof {
                assert(common_ci_len(cs, ps) == 1 + common_ci_len(cd.skip(i + 1), pd.skip(i + 1)));
            }
            i = i + 1;
        }
        let cl = i;
        let mut remaining: Vec<String> = Vec::new();
        let mut k: usize = cl;
        while k < current.len()
            invariant
                cl <= k <= current@.len(),
                remaining@ == current@.subrange(cl as int, k as int),
            decreases current@.len() - k,
        {
            remaining.push(current[k].clone());
            assert(current@.subrange(cl as int, k as int).push(current@[k as int])
                =~= current@.subrange(cl as int, k + 1));
            k = k + 1;
        }
        proof {
            assert(remaining@ =~= current@.skip(cl as int));
        }
        CommonParts { common_length: cl, remaining }
    }
}

} // verus!
