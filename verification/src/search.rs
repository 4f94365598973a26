//! The search page: a live query re-run on every keystroke, a selectable
//! result list, and opening a result by its id.

use vstd::prelude::*;

use crate::keys::Key;
use crate::links::{RenderLine, RenderSpan, SpanKind, SpecSpan};
use crate::list::marker_span;
use crate::storage;
use crate::text::without_breaks;

verus! {

/// The search page.
pub struct Search {
    pub user: storage::User,
    pub input: String,
    pub selected: usize,
    pub results: Vec<storage::ZettelHeader>,
}

/// The page-level outcome of the search page.
pub enum Transition {
    NewZettel(crate::zettel::Zettel),
    Pop,
}

/// One rendered result row: the selection marker, the path styled as a
/// link, and the break-stripped excerpt if the hit has one.
pub open spec fn search_row(selected: bool, h: storage::ZettelHeader) -> Seq<SpecSpan> {
    seq![marker_span(selected), SpecSpan { text: h.path@, kind: SpanKind::Link }] + (
    match h.highlight_text {
        Some(t) => seq![
            SpecSpan { text: " "@, kind: SpanKind::Raw },
            SpecSpan { text: without_breaks(t@), kind: SpanKind::Raw },
        ],
        None => Seq::<SpecSpan>::empty(),
    })
}

/// What one key press asks the surrounding loop to do.
#[derive(Clone, Copy, PartialEq, Eq, Structural, Debug)]
pub enum SearchAction {
    Continue,
    QueryChanged,
    Pop,
    Open { id: storage::ZettelId },
}

impl Search {
    /// A fresh search page for `user`, with no query and no results.
    pub fn new(user: storage::User) -> (r: Self)
        ensures
            r.user == user,
            r.input@ == Seq::<char>::empty(),
            r.selected == 0,
            r.results@ == Seq::<storage::ZettelHeader>::empty(),
    {
        Search { user, input: String::new(), selected: 0, results: Vec::new() }
    }

    /// One key press: characters and backspace edit the query and ask for a
    /// re-run, Enter opens the highlighted result if any, Esc leaves,
    /// Up/Down move the selection.
    pub fn handle_key(&mut self, key: Key) -> (r: SearchAction)
        ensures
            ({
                let s = *final(self);
                let o = *old(self);
                match key {
                    Key::Char(c) => {
                        &&& r == SearchAction::QueryChanged
                        &&& s.input@ == o.input@.push(c)
                        &&& s.user == o.user
                        &&& s.selected == o.selected
                        &&& s.results == o.results
                    },
                    Key::Backspace => {
                        &&& r == SearchAction::QueryChanged
                        &&& s.input@ == (if o.input@.len() > 0 {
                            o.input@.drop_last()
                        } else {
                            o.input@
                        })
                        &&& s.user == o.user
                        &&& s.selected == o.selected
                        &&& s.results == o.results
                    },
                    Key::Esc => r == SearchAction::Pop && s == o,
                    Key::Enter => if o.selected < o.results@.len() {
                        r == (SearchAction::Open { id: o.results@[o.selected as int].id }) && s == o
                    } else {
                        r == SearchAction::Continue && s == o
                    },
                    Key::Up => {
                        &&& r == SearchAction::Continue
                        &&& s.selected == (if o.selected >= 1 {
                            (o.selected - 1) as usize
                        } else {
                            o.selected
                        })
                        &&& s.user == o.user
                        &&& s.input == o.input
                        &&& s.results == o.results
                    },
                    Key::Down => {
                        &&& r == SearchAction::Continue
                        &&& s.selected == (if o.selected + 1 < o.results@.len() {
                            (o.selected + 1) as usize
                        } else {
                            o.selected
                        })
                        &&& s.user == o.user
                        &&& s.input == o.input
                        &&& s.results == o.results
                    },
                    _ => r == SearchAction::Continue && s == o,
                }
            }),
    {
        match key {
            Key::Char(c) => {
                crate::text::push_char(&mut self.input, c);
                SearchAction::QueryChanged
            },
            Key::Backspace => {
                let _ = crate::text::pop_char(&mut self.input);
                SearchAction::QueryChanged
            },
            Key::Esc => SearchAction::Pop,
            Key::Enter => {
                if self.selected < self.results.len() {
                    SearchAction::Open { id: self.results[self.selected].id }
                } else {
                    SearchAction::Continue
                }
            },
            Key::Up => {
                if self.selected >= 1 {
                    self.selected = self.selected - 1;
                }
                SearchAction::Continue
            },
            Key::Down => {
                if self.results.len() > 0 && self.selected < self.results.len() - 1 {
                    self.selected = self.selected + 1;
                }
                SearchAction::Continue
            },
            _ => SearchAction::Continue,
        }
    }

    /// Whether the query must be re-run against storage: only a non-empty
    /// input is a pattern.
    pub fn wants_query(&self) -> (r: bool)
        ensures
            r == (self.input@.len() > 0),
    {
        !self.input.as_str().is_empty()
    }

    /// Replaces the results with a fresh storage answer and keeps the
    /// selection in range: an empty answer resets it, a shrunken answer
    /// clamps it to the last row.
    pub fn update_search(&mut self, results: Vec<storage::ZettelHeader>)
        requires
            old(self).input@.len() > 0,
        ensures
            final(self).user == old(self).user,
            final(self).input == old(self).input,
            final(self).results == results,
            final(self).selected == (if results@.len() == 0 {
                0int
            } else if old(self).selected >= results@.len() {
                results@.len() - 1
            } else {
                old(self).selected as int
            }),
    {
        self.results = results;
        if self.results.is_empty() {
            self.selected = 0;
        } else if self.selected >= self.results.len() {
            self.selected = self.results.len() - 1;
        }
    }

    /// The rendered result rows: a selection marker, the path as a link,
    /// and the excerpt around the hit with its line breaks stripped.
    pub fn draw(&self) -> (r: Vec<RenderLine>)
        ensures
            r@.len() == self.results@.len(),
            forall|i: int|
                0 <= i < self.results@.len() ==> (#[trigger] r@[i])@ == search_row(
                    i == self.selected,
                    self.results@[i],
                ),
    {
        let mut r: Vec<RenderLine> = Vec::new();
        let mut i: usize = 0;
        while i < self.results.len()
            invariant
                i <= self.results@.len(),
                r@.len() == i,
                forall|j: int|
                    0 <= j < i ==> (#[trigger] r@[j])@ == search_row(
                        j == self.selected,
                        self.results@[j],
                    ),
            decreases self.results@.len() - i,
        {
            let header = &self.results[i];
            let selected_row = i == self.selected;
            let marker = if selected_row {
                "> "
            } else {
                "  "
            };
            let mut spans: Vec<RenderSpan> = Vec::new();
            spans.push(RenderSpan { text: marker.to_owned(), kind: SpanKind::Raw });
            spans.push(RenderSpan { text: header.path.clone(), kind: SpanKind::Link });
            if let Some(text) = &header.highlight_text {
                spans.push(RenderSpan { text: " ".to_owned(), kind: SpanKind::Raw });
                spans.push(
                    RenderSpan { text: crate::text::remove_breaks(text.as_str()), kind: SpanKind::Raw },
                );
            }
            let row = RenderLine { spans };
            r.push(row);
            proof {
                assert(row@ =~= search_row(selected_row, self.results@[i as int]));
            }
            i = i + 1;
        }
        r
    }

    /// Clears the results for an empty query.
    pub fn clear_results(&mut self)
        ensures
            final(self).user == old(self).user,
            final(self).input == old(self).input,
            final(self).results@ == Seq::<storage::ZettelHeader>::empty(),
            final(self).selected == 0,
    {
        self.results = Vec::new();
        self.selected = 0;
    }
}

} // verus!
