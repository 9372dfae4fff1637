use vstd::prelude::*;
use vstd::string::StrSliceExecFns;

verus! {

/// The text last yanked, shared by every yank and paste of the session.
pub struct ClipboardHandle {
    pub text: String,
}

impl ClipboardHandle {
    pub open spec fn content(&self) -> Seq<char> {
        self.text@
    }

    /// A copy of the clipboard's text.
    pub fn get_text(&self) -> (r: String)
        ensures
            r@ == self.content(),
    {
        self.text.clone()
    }

    /// Replaces the clipboard's text.
    pub fn set_text(&mut self, text: String)
        ensures
            final(self).content() == text@,
    {
        self.text = text;
    }
}

impl Default for ClipboardHandle {
    fn default() -> (r: Self)
        ensures
            r.content() == Seq::<char>::empty(),
    {
        ClipboardHandle { text: String::new() }
    }
}

/// Relies on `String::push`: appends one character at the end.
#[verifier::external_body]
fn push_char(s: &mut String, c: char)
    ensures
        final(s)@ == old(s)@.push(c),
{
    s.push(c)
}

/// The string made of the characters of `v`.
pub fn string_of(v: &Vec<char>) -> (r: String)
    ensures
        r@ == v@,
{
    let mut s = String::new();
    let mut i: usize = 0;
    while i < v.len()
        invariant
            i <= v.len(),
            s@ == v@.subrange(0, i as int),
        decreases v.len() - i,
    {
        push_char(&mut s, v[i]);
        i += 1;
        assert(s@ =~= v@.subrange(0, i as int));
    }
    assert(v@.subrange(0, v@.len() as int) =~= v@);
    s
}

/// The characters of `s`.
pub fn chars_of(s: &String) -> (r: Vec<char>)
    ensures
        r@ == s@,
{
    let t = s.as_str();
    let n = t.unicode_len();
    let mut v: Vec<char> = Vec::new();
    let mut i: usize = 0;
    while i < n
        invariant
            i <= n == t@.len(),
            t@ == s@,
            v@ == s@.subrange(0, i as int),
        decreases n - i,
    {
        v.push(t.get_char(i));
        i += 1;
        assert(v@ =~= s@.subrange(0, i as int));
    }
    assert(s@.subrange(0, n as int) =~= s@);
    v
}

} // verus!
