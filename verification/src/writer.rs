//! The block writer: an append-only text buffer with an indent depth.
//!
//! Every rendering rule is a sequence of calls of the primitives defined
//! here. The writer never looks at the text it is given.

use vstd::prelude::*;
use vstd::string::StringExecFns;
use vstd::string::StringSliceAdditionalSpecFns;
use vstd::utf8::encode_utf8;

verus! {

/// Layout preferences. Read by the writer only.
#[derive(Clone, Copy, Debug)]
pub struct Style {
    /// Spaces per nesting level.
    pub indent_width: usize,
}

impl Default for Style {
    /// Two spaces per nesting level.
    fn default() -> (style: Style)
        ensures
            style.indent_width == 2,
    {
        Style { indent_width: 2 }
    }
}

/// A run of `n` spaces.
pub open spec fn spaces(n: nat) -> Seq<char> {
    Seq::new(n, |i: int| ' ')
}

/// The indentation that starts a line at nesting depth `depth`.
pub open spec fn pad(width: nat, depth: nat) -> Seq<char> {
    spaces(width * depth)
}

/// What `start_block` appends: the opening brace and a line terminator.
pub open spec fn block_open() -> Seq<char> {
    seq!['{', '\n']
}

/// What `end_block` appends when it returns to depth `depth`: the closing
/// brace on a line of its own, indented like the line that opened the block.
pub open spec fn block_close(width: nat, depth: nat) -> Seq<char> {
    pad(width, depth) + seq!['}', '\n']
}

/// A text has at least as many bytes as characters.
proof fn lemma_encoding_covers_chars(chars: Seq<char>)
    ensures
        chars.len() <= encode_utf8(chars).len(),
    decreases chars.len(),
{
    if chars.len() > 0 {
        lemma_encoding_covers_chars(chars.drop_first());
    }
}

/// Accumulates text and tracks the nesting depth of the open blocks.
pub struct Formatter {
    buf: String,
    depth: usize,
    style: Style,
    opened: Ghost<nat>,
    closed: Ghost<nat>,
}

impl View for Formatter {
    type V = Seq<char>;

    /// The text written so far.
    closed spec fn view(&self) -> Seq<char> {
        self.buf@
    }
}

impl Formatter {
    /// The invariant of a writer: blocks are closed only after they were
    /// opened, the depth counts the blocks still open, and each of them has
    /// left its opening in the buffer.
    pub closed spec fn wf(&self) -> bool {
        &&& self.closed@ <= self.opened@
        &&& self.depth == self.opened@ - self.closed@
        &&& 2 * self.depth <= self.buf@.len()
    }

    /// The number of blocks that are open.
    pub closed spec fn spec_depth(&self) -> usize {
        self.depth
    }

    /// Spaces per nesting level, fixed when the writer is made.
    pub closed spec fn indent_width(&self) -> nat {
        self.style.indent_width as nat
    }

    /// How many times `start_block` has run on this writer.
    pub closed spec fn blocks_opened(&self) -> nat {
        self.opened@
    }

    /// How many times `end_block` has run on this writer.
    pub closed spec fn blocks_closed(&self) -> nat {
        self.closed@
    }

    /// The writer is where it was `before`: same depth, same style, and no
    /// block was opened or closed in between.
    pub open spec fn at_rest(&self, before: &Formatter) -> bool {
        &&& self.wf()
        &&& self.spec_depth() == before.spec_depth()
        &&& self.indent_width() == before.indent_width()
        &&& self.blocks_opened() == before.blocks_opened()
        &&& self.blocks_closed() == before.blocks_closed()
    }

    /// The writer is back at the depth it had `before`, and since then as
    /// many blocks were closed as were opened.
    pub open spec fn balanced(&self, before: &Formatter) -> bool {
        &&& self.wf()
        &&& self.spec_depth() == before.spec_depth()
        &&& self.indent_width() == before.indent_width()
        &&& self.blocks_opened() >= before.blocks_opened()
        &&& self.blocks_opened() - before.blocks_opened() == self.blocks_closed()
            - before.blocks_closed()
    }

    /// In a well-formed writer the depth is the number of blocks opened and
    /// not yet closed.
    pub proof fn lemma_depth_counts_open_blocks(&self)
        requires
            self.wf(),
        ensures
            self.blocks_closed() <= self.blocks_opened(),
            self.spec_depth() == self.blocks_opened() - self.blocks_closed(),
    {
    }

    /// An empty writer at depth 0.
    pub fn new(style: &Style) -> (f: Formatter)
        ensures
            f.wf(),
            f@ == Seq::<char>::empty(),
            f.spec_depth() == 0,
            f.indent_width() == style.indent_width,
            f.blocks_opened() == 0,
            f.blocks_closed() == 0,
    {
        Formatter {
            buf: String::new(),
            depth: 0,
            style: *style,
            opened: Ghost(0),
            closed: Ghost(0),
        }
    }

    /// The number of blocks that are open.
    #[verifier::when_used_as_spec(spec_depth)]
    pub fn depth(&self) -> (d: usize)
        ensures
            d == self.spec_depth(),
    {
        self.depth
    }

    /// Appends the indentation of the current depth.
    pub fn indent(&mut self)
        requires
            old(self).wf(),
        ensures
            final(self).at_rest(old(self)),
            final(self)@ == old(self)@ + pad(
                old(self).indent_width(),
                old(self).spec_depth() as nat,
            ),
    {
        let width = self.style.indent_width;
        let depth = self.depth;
        let mut level: usize = 0;
        while level < depth
            invariant
                level <= depth,
                depth == old(self).depth,
                width == old(self).style.indent_width,
                self.depth == old(self).depth,
                self.style == old(self).style,
                self.opened == old(self).opened,
                self.closed == old(self).closed,
                self.buf@ == old(self).buf@ + spaces((width * level) as nat),
            decreases depth - level,
        {
            let mut column: usize = 0;
            while column < width
                invariant
                    column <= width,
                    level < depth,
                    self.depth == old(self).depth,
                    self.style == old(self).style,
                    self.opened == old(self).opened,
                    self.closed == old(self).closed,
                    self.buf@ == old(self).buf@ + spaces((width * level + column) as nat),
                decreases width - column,
            {
                proof {
                    reveal_strlit(" ");
                }
                self.buf.append(" ");
                column = column + 1;
                assert(self.buf@ == old(self).buf@ + spaces((width * level + column) as nat));
            }
            level = level + 1;
            assert(width * (level - 1) + width == width * level) by (nonlinear_arith);
        }
    }

    /// Appends `text` as it is: no indentation, no line break.
    pub fn write(&mut self, text: &str)
        requires
            old(self).wf(),
        ensures
            final(self).at_rest(old(self)),
            final(self)@ == old(self)@ + text@,
    {
        self.buf.append(text);
    }

    /// Appends a line terminator.
    pub fn endline(&mut self)
        requires
            old(self).wf(),
        ensures
            final(self).at_rest(old(self)),
            final(self)@ == old(self)@ + seq!['\n'],
    {
        proof {
            reveal_strlit("\n");
        }
        self.buf.append("\n");
        assert(self.buf@ == old(self).buf@ + seq!['\n']);
    }

    /// Opens a block: appends the opening brace and a line terminator, and
    /// goes one level deeper.
    pub fn start_block(&mut self)
        requires
            old(self).wf(),
        ensures
            final(self).wf(),
            final(self)@ == old(self)@ + block_open(),
            final(self).spec_depth() == old(self).spec_depth() + 1,
            final(self).indent_width() == old(self).indent_width(),
            final(self).blocks_opened() == old(self).blocks_opened() + 1,
            final(self).blocks_closed() == old(self).blocks_closed(),
    {
        proof {
            reveal_strlit("{");
            reveal_strlit("\n");
        }
        self.buf.append("{");
        self.buf.append("\n");
        assert(self.buf@ == old(self).buf@ + block_open());
        // The buffer holds two characters for each open block, and its bytes
        // are counted by a `usize`: the depth cannot overflow.
        let bytes = self.buf.as_str().as_bytes();
        proof {
            lemma_encoding_covers_chars(self.buf@);
            vstd::slice::axiom_spec_len(bytes);
        }
        self.depth = self.depth + 1;
        self.opened = Ghost((self.opened@ + 1) as nat);
    }

    /// Closes the innermost block: goes one level up, then appends the
    /// closing brace on an indented line of its own.
    pub fn end_block(&mut self)
        requires
            old(self).wf(),
            old(self).spec_depth() > 0,
        ensures
            final(self).wf(),
            final(self)@ == old(self)@ + block_close(
                old(self).indent_width(),
                (old(self).spec_depth() - 1) as nat,
            ),
            final(self).spec_depth() == old(self).spec_depth() - 1,
            final(self).indent_width() == old(self).indent_width(),
            final(self).blocks_opened() == old(self).blocks_opened(),
            final(self).blocks_closed() == old(self).blocks_closed() + 1,
    {
        self.depth = self.depth - 1;
        self.closed = Ghost((self.closed@ + 1) as nat);
        self.indent();
        proof {
            reveal_strlit("}");
            reveal_strlit("\n");
        }
        self.buf.append("}");
        self.buf.append("\n");
        assert(self.buf@ == old(self).buf@ + block_close(
            old(self).indent_width(),
            (old(self).spec_depth() - 1) as nat,
        ));
    }

    /// Hands out the accumulated text.
    pub fn into_string(self) -> (text: String)
        ensures
            text@ == self@,
    {
        self.buf
    }
}

} // verus!
