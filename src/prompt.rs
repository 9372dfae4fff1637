use vstd::prelude::*;
use vstd::string::StrSliceExecFns;
use tui_input::InputRequest as R;

verus! {

/// An editing key for a one-line prompt.
#[derive(Clone, Copy, Debug, PartialEq, Eq, Structural)]
pub enum PromptEdit {
    InsertChar(char),
    DeletePrevChar,
    DeleteNextChar,
    GoToPrevChar,
    GoToNextChar,
    GoToStart,
    GoToEnd,
}

/// A one-line text buffer with a cursor counted in characters.
#[derive(Debug)]
pub struct PromptInput {
    pub value: String,
    pub cursor: usize,
}

/// What holds after an editing key, for every way the text splits into
/// grapheme clusters: `(v, c)` before, `(v2, c2)` after.
pub open spec fn edit_post(e: PromptEdit, v: Seq<char>, c: int, v2: Seq<char>, c2: int) -> bool {
    match e {
        PromptEdit::InsertChar(ch) => v2 == v.subrange(0, c).push(ch) + v.subrange(c, v.len() as int) && c2 == c + 1,
        PromptEdit::DeletePrevChar => 0 <= c2 <= c && v2 == v.subrange(0, c2) + v.subrange(c, v.len() as int)
            && (c == 0 ==> c2 == 0) && (c > 0 ==> c2 < c),
        PromptEdit::DeleteNextChar => c2 == c && (exists|n: int| c <= n <= v.len()
            && v2 == v.subrange(0, c) + v.subrange(n, v.len() as int) && (c < v.len() ==> c < n)),
        PromptEdit::GoToPrevChar => v2 == v && 0 <= c2 <= c && (c > 0 ==> c2 < c),
        PromptEdit::GoToNextChar => v2 == v && c <= c2 <= v.len() && (c < v.len() ==> c < c2),
        PromptEdit::GoToStart => v2 == v && c2 == 0,
        PromptEdit::GoToEnd => v2 == v && c2 == v.len(),
    }
}

/// Relies on `tui_input::Input::handle` (after `Input::new` and `with_cursor`)
/// for the editing keys: inserting at the cursor, moving and deleting by
/// grapheme cluster, jumping to either end.
#[verifier::external_body]
fn edit_line(value: &String, cursor: usize, e: PromptEdit) -> (r: (String, usize))
    requires
        cursor <= value@.len(),
    ensures
        edit_post(e, value@, cursor as int, r.0@, r.1 as int),
{
    let mut input = tui_input::Input::new(value.clone()).with_cursor(cursor);
    input.handle(match e {
        PromptEdit::InsertChar(c) => R::InsertChar(c),
        PromptEdit::DeletePrevChar => R::DeletePrevChar,
        PromptEdit::DeleteNextChar => R::DeleteNextChar,
        PromptEdit::GoToPrevChar => R::GoToPrevChar,
        PromptEdit::GoToNextChar => R::GoToNextChar,
        PromptEdit::GoToStart => R::GoToStart,
        PromptEdit::GoToEnd => R::GoToEnd,
    });
    (input.value().to_string(), input.cursor())
}

impl PromptInput {
    pub open spec fn wf(&self) -> bool {
        self.cursor <= self.value@.len()
    }

    /// A buffer holding `value`, with the cursor at its end.
    pub fn new(value: String) -> (r: Self)
        ensures
            r.wf(),
            r.value@ == value@,
            r.cursor == value@.len(),
    {
        let n = value.as_str().unicode_len();
        PromptInput { value, cursor: n }
    }

    /// Applies one editing key.
    pub fn handle(&mut self, e: PromptEdit)
        requires
            old(self).wf(),
        ensures
            final(self).wf(),
            edit_post(e, old(self).value@, old(self).cursor as int, final(self).value@, final(self).cursor as int),
    {
        let (v, c) = edit_line(&self.value, self.cursor, e);
        self.value = v;
        self.cursor = c;
    }
}

} // verus!
