//! Incremental text accumulation with line handling, used by every emitter
//! to assemble the final declaration text.

use vstd::prelude::*;

verus! {

/// The text produced by starting a new line holding `s`: on empty content the
/// line is the whole text, otherwise a newline separates it from what stands
/// before.
pub open spec fn spec_ln_push(t: Seq<char>, s: Seq<char>) -> Seq<char> {
    if t.len() == 0 {
        s
    } else {
        t + seq!['\n'] + s
    }
}

/// The text produced by appending one builder's content to another's:
/// nonempty blocks are separated by a newline, an empty block adds nothing.
pub open spec fn spec_push_source(t: Seq<char>, s: Seq<char>) -> Seq<char> {
    if s.len() == 0 {
        t
    } else if t.len() == 0 {
        s
    } else {
        t + seq!['\n'] + s
    }
}

/// An incremental text buffer with deterministic ordering: `push` appends,
/// `ln_push` starts a new line, `push_source` merges a whole block.
pub struct SourceBuilder {
    text: String,
}

impl View for SourceBuilder {
    type V = Seq<char>;

    closed spec fn view(&self) -> Seq<char> {
        self.text@
    }
}

impl Clone for SourceBuilder {
    fn clone(&self) -> (r: Self)
        ensures
            r@ == self@,
    {
        SourceBuilder { text: self.text.clone() }
    }
}

impl Default for SourceBuilder {
    fn default() -> (r: Self)
        ensures
            r@ == Seq::<char>::empty(),
    {
        SourceBuilder { text: String::new() }
    }
}

impl SourceBuilder {
    /// An empty buffer.
    pub fn new() -> (r: Self)
        ensures
            r@ == Seq::<char>::empty(),
    {
        SourceBuilder { text: String::new() }
    }

    /// Whether any content has been written.
    pub fn is_not_empty(&self) -> (r: bool)
        ensures
            r == (self@.len() != 0),
    {
        !self.text.as_str().is_empty()
    }

    /// Appends `s` without starting a new line.
    pub fn push(&mut self, s: &str)
        ensures
            final(self)@ == old(self)@ + s@,
    {
        self.text.append(s);
    }

    /// Starts a new line holding `s`; on empty content no leading newline is
    /// written.
    pub fn ln_push(&mut self, s: &str)
        ensures
            final(self)@ == spec_ln_push(old(self)@, s@),
    {
        if self.is_not_empty() {
            proof {
                reveal_strlit("\n");
            }
            self.text.append("\n");
            self.text.append(s);
            proof {
                assert(self@ =~= spec_ln_push(old(self)@, s@));
            }
        } else {
            self.text.append(s);
            proof {
                assert(self@ =~= spec_ln_push(old(self)@, s@));
            }
        }
    }

    /// Appends another builder's whole content, separating two nonempty
    /// blocks by a newline.
    pub fn push_source(&mut self, other: &SourceBuilder)
        ensures
            final(self)@ == spec_push_source(old(self)@, other@),
    {
        if !other.is_not_empty() {
        } else if self.is_not_empty() {
            proof {
                reveal_strlit("\n");
            }
            self.text.append("\n");
            self.text.append(other.text.as_str());
            proof {
                assert(self@ =~= spec_push_source(old(self)@, other@));
            }
        } else {
            self.text.append(other.text.as_str());
        }
    }

    /// Hands the accumulated text out.
    pub fn build(self) -> (r: String)
        ensures
            r@ == self@,
    {
        self.text
    }
}

} // verus!
