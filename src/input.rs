//! A one-line text entry with a cursor.
use vstd::prelude::*;
use vstd::string::StrSliceExecFns;

verus! {

/// Relies on `String::from_iter` over `char`s: the string holds exactly those
/// characters, in order.
#[verifier::external_body]
fn string_from_chars(chars: &Vec<char>) -> (r: String)
    ensures
        r@ == chars@,
{
    String::from_iter(chars.iter())
}

/// The characters with the Unicode White_Space property, those that
/// `char::is_whitespace` and `str::trim` treat as white space.
pub open spec fn is_white_space(c: char) -> bool {
    let u = c as u32;
    (0x9 <= u <= 0xD) || u == 0x20 || u == 0x85 || u == 0xA0 || u == 0x1680 || (0x2000 <= u
        <= 0x200A) || u == 0x2028 || u == 0x2029 || u == 0x202F || u == 0x205F || u == 0x3000
}

fn white_space(c: char) -> (r: bool)
    ensures
        r == is_white_space(c),
{
    let u = c as u32;
    (0x9 <= u && u <= 0xD) || u == 0x20 || u == 0x85 || u == 0xA0 || u == 0x1680 || (0x2000 <= u
        && u <= 0x200A) || u == 0x2028 || u == 0x2029 || u == 0x202F || u == 0x205F || u == 0x3000
}

/// `r` is `s` with the white space at both ends cut off: the longest run
/// from the first to the last character that is not white space, or nothing
/// when every character is.
pub open spec fn trimmed_of(s: Seq<char>, r: Seq<char>) -> bool {
    exists|a: int, b: int|
        0 <= a <= b <= s.len() && r == s.subrange(a, b) && (forall|k: int|
            0 <= k < a ==> is_white_space(#[trigger] s[k])) && (forall|k: int|
            b <= k < s.len() ==> is_white_space(#[trigger] s[k])) && (a < b ==> !is_white_space(s[a])
            && !is_white_space(s[b - 1]))
}

/// Text being typed, and the cursor: the number of characters before it.
pub struct TextInput {
    chars: Vec<char>,
    cursor: usize,
}

impl TextInput {
    /// The characters typed.
    pub closed spec fn text(&self) -> Seq<char> {
        self.chars@
    }

    /// The cursor position.
    pub closed spec fn position(&self) -> nat {
        self.cursor as nat
    }

    /// The cursor lies within the text.
    pub open spec fn wf(&self) -> bool {
        self.position() <= self.text().len()
    }

    /// An empty entry.
    pub fn new() -> (r: Self)
        ensures
            r.wf(),
            r.text() == Seq::<char>::empty(),
            r.position() == 0,
    {
        TextInput { chars: Vec::new(), cursor: 0 }
    }

    /// Empties the entry.
    pub fn clear(&mut self)
        ensures
            final(self).wf(),
            final(self).text() == Seq::<char>::empty(),
            final(self).position() == 0,
    {
        self.chars = Vec::new();
        self.cursor = 0;
    }

    /// Replaces the text by `s`, the cursor at its end.
    pub fn set_text(&mut self, s: &String)
        ensures
            final(self).wf(),
            final(self).text() == s@,
            final(self).position() == s@.len(),
    {
        let st = s.as_str();
        let n = st.unicode_len();
        let mut chars: Vec<char> = Vec::new();
        let mut i: usize = 0;
        while i < n
            invariant
                n == s@.len(),
                st@ == s@,
                i <= n,
                chars@ == s@.subrange(0, i as int),
            decreases n - i,
        {
            chars.push(st.get_char(i));
            i += 1;
            assert(chars@ =~= s@.subrange(0, i as int));
        }
        assert(s@.subrange(0, n as int) =~= s@);
        self.chars = chars;
        self.cursor = n;
    }

    /// Types `c` at the cursor, which moves past it. A text of the largest
    /// size takes nothing more.
    pub fn insert(&mut self, c: char)
        requires
            old(self).wf(),
        ensures
            final(self).wf(),
            old(self).text().len() < usize::MAX ==> final(self).text() == old(self).text().insert(
                old(self).position() as int,
                c,
            ) && final(self).position() == old(self).position() + 1,
            old(self).text().len() == usize::MAX ==> *final(self) == *old(self),
    {
        if self.chars.len() < usize::MAX {
            self.chars.insert(self.cursor, c);
            self.cursor = self.cursor + 1;
        }
    }

    /// Deletes the character before the cursor, if any.
    pub fn backspace(&mut self)
        requires
            old(self).wf(),
        ensures
            final(self).wf(),
            old(self).position() > 0 ==> final(self).text() == old(self).text().remove(
                old(self).position() - 1,
            ) && final(self).position() == old(self).position() - 1,
            old(self).position() == 0 ==> *final(self) == *old(self),
    {
        if self.cursor > 0 {
            self.cursor = self.cursor - 1;
            self.chars.remove(self.cursor);
        }
    }

    /// Moves the cursor one character left, if it can.
    pub fn left(&mut self)
        requires
            old(self).wf(),
        ensures
            final(self).wf(),
            final(self).text() == old(self).text(),
            final(self).position() == if old(self).position() > 0 {
                old(self).position() - 1
            } else {
                0
            },
    {
        if self.cursor > 0 {
            self.cursor = self.cursor - 1;
        }
    }

    /// Moves the cursor one character right, if it can.
    pub fn right(&mut self)
        requires
            old(self).wf(),
        ensures
            final(self).wf(),
            final(self).text() == old(self).text(),
            final(self).position() == if old(self).position() < old(self).text().len() {
                old(self).position() + 1
            } else {
                old(self).position()
            },
    {
        if self.cursor < self.chars.len() {
            self.cursor = self.cursor + 1;
        }
    }

    /// The cursor position.
    pub fn cursor(&self) -> (r: usize)
        ensures
            r == self.position(),
    {
        self.cursor
    }

    /// The text typed.
    pub fn content(&self) -> (r: String)
        ensures
            r@ == self.text(),
    {
        string_from_chars(&self.chars)
    }

    /// The text typed, white space cut from both ends: what a submission
    /// carries.
    pub fn submitted(&self) -> (r: String)
        ensures
            trimmed_of(self.text(), r@),
    {
        let n = self.chars.len();
        let mut a: usize = 0;
        while a < n && white_space(self.chars[a])
            invariant
                n == self.chars@.len(),
                a <= n,
                forall|k: int| 0 <= k < a ==> is_white_space(#[trigger] self.chars@[k]),
            decreases n - a,
        {
            a += 1;
        }
        let mut b: usize = n;
        while b > a && white_space(self.chars[b - 1])
            invariant
                n == self.chars@.len(),
                a <= b <= n,
                forall|k: int| b <= k < n ==> is_white_space(#[trigger] self.chars@[k]),
                a < n ==> !is_white_space(self.chars@[a as int]),
            decreases b - a,
        {
            b -= 1;
        }
        let mut kept: Vec<char> = Vec::new();
        let mut k: usize = a;
        while k < b
            invariant
                a <= k <= b <= n,
                n == self.chars@.len(),
                kept@ == self.chars@.subrange(a as int, k as int),
            decreases b - k,
        {
            kept.push(self.chars[k]);
            k += 1;
            assert(kept@ =~= self.chars@.subrange(a as int, k as int));
        }
        let r = string_from_chars(&kept);
        assert(trimmed_of(self.text(), r@)) by {
            assert(r@ == self.chars@.subrange(a as int, b as int));
        }
        r
    }
}

} // verus!
