//! State of the interactive terminal front-end.
//!
//! The front-end shows the current matches and moves a cursor over them.
//! The selection state and its wrap-around movement are held and proved
//! here; drawing, key handling and rendering of a selected document
//! happen outside this crate.

use crate::document::Document;
use vstd::prelude::*;

verus! {

/// State of the interactive session: the two input boxes, the current
/// matches with the cursor over them, and the text areas shown to the
/// user.
pub struct TerminalApp {
    /// Current value of the query input box.
    pub query_input: String,
    /// Current value of the filter input box.
    pub filter_input: String,
    /// Preview window contents.
    pub output: String,
    /// Query matches.
    pub matches: Vec<Document>,
    /// Index of the selected match, if any.
    pub selected: Option<usize>,
    /// Error messages to display.
    pub error: String,
    /// The serialized payload sent to the server, for display.
    pub debug: String,
    /// The server response, for display.
    pub response: String,
    /// Which input box has the cursor.
    pub inp_idx: usize,
    /// Widths of the editable areas, in entered characters.
    pub inp_widths: [i32; 2],
}

/// The cursor points at a match.
pub open spec fn app_wf(app: TerminalApp) -> bool {
    app.selected matches Some(i) ==> i < app.matches@.len()
}

/// The two states agree on everything but the cursor.
pub open spec fn same_but_selected(a: TerminalApp, b: TerminalApp) -> bool {
    a.query_input == b.query_input && a.filter_input == b.filter_input && a.output == b.output
        && a.matches == b.matches && a.error == b.error && a.debug == b.debug && a.response
        == b.response && a.inp_idx == b.inp_idx && a.inp_widths == b.inp_widths
}

impl TerminalApp {
    /// The document ids of the selection: one id when the cursor is on a
    /// match, none otherwise.
    pub fn get_selected(&mut self) -> (r: Vec<String>)
        requires
            app_wf(*old(self)),
        ensures
            *final(self) == *old(self),
            match old(self).selected {
                Some(i) => r@.len() == 1 && r@[0]@ == old(self).matches@[i as int].id@,
                None => r@.len() == 0,
            },
    {
        let ret: Vec<String> = Vec::new();
        match self.selected {
            Some(i) => {
                let mut one: Vec<String> = Vec::new();
                one.push(self.matches[i].id.clone());
                one
            },
            None => ret,
        }
    }

    /// Move the cursor to the next match, wrapping to the first after the
    /// last; with no cursor yet it goes to the first match.
    pub fn next(&mut self)
        requires
            app_wf(*old(self)),
            old(self).matches@.len() > 0,
        ensures
            app_wf(*final(self)),
            same_but_selected(*old(self), *final(self)),
            final(self).selected matches Some(j) && j as int == match old(self).selected {
                Some(i) => if i + 1 < old(self).matches@.len() {
                    i + 1
                } else {
                    0
                },
                None => 0,
            },
    {
        let i: usize = match self.selected {
            Some(i) => {
                if i >= self.matches.len() - 1 {
                    0
                } else {
                    i + 1
                }
            },
            None => 0,
        };
        self.selected = Some(i);
    }

    /// Move the cursor to the previous match, wrapping to the last before
    /// the first; with no cursor yet it goes to the first match.
    pub fn previous(&mut self)
        requires
            app_wf(*old(self)),
            old(self).matches@.len() > 0,
        ensures
            app_wf(*final(self)),
            same_but_selected(*old(self), *final(self)),
            final(self).selected matches Some(j) && j as int == match old(self).selected {
                Some(i) => if i == 0 {
                    old(self).matches@.len() - 1
                } else {
                    i - 1
                },
                None => 0,
            },
    {
        let i: usize = match self.selected {
            Some(i) => {
                if i == 0 {
                    self.matches.len() - 1
                } else {
                    i - 1
                }
            },
            None => 0,
        };
        self.selected = Some(i);
    }
}

impl Default for TerminalApp {
    /// A fresh session: empty inputs and displays, no matches, no cursor.
    fn default() -> (r: TerminalApp)
        ensures
            r.query_input@ == Seq::<char>::empty(),
            r.filter_input@ == Seq::<char>::empty(),
            r.output@ == Seq::<char>::empty(),
            r.matches@ == Seq::<Document>::empty(),
            r.selected is None,
            r.error@ == Seq::<char>::empty(),
            r.debug@ == Seq::<char>::empty(),
            r.response@ == Seq::<char>::empty(),
            r.inp_idx == 0,
            r.inp_widths == [0i32, 0i32],
            app_wf(r),
    {
        TerminalApp {
            query_input: String::new(),
            filter_input: String::new(),
            output: String::new(),
            matches: Vec::new(),
            selected: None,
            error: String::new(),
            debug: String::new(),
            response: String::new(),
            inp_idx: 0,
            inp_widths: [0, 0],
        }
    }
}

} // verus!
