use vstd::prelude::*;
use crate::formatter::{
    Formatter, Piece, run, text, opt_text, fmt_opt, open_block, lemma_run_one, lemma_run_concat, lemma_write_after, lemma_put_str_concat,
};

verus! {

/// A brace-delimited region of code, with text before its opening brace and
/// after its closing one.
pub struct Block {
    pub before: Option<String>,
    pub after: Option<String>,
    pub body: Vec<Body>,
}

/// One element of a body: a line of text, or a nested block.
pub enum Body {
    String(String),
    Block(Block),
}

/// A block renders the text before it, its opening brace, its body one
/// level deeper, then the closing brace with the text after it on the same
/// line.
pub open spec fn block_pieces(b: Block) -> Seq<Piece>
    decreases b, 2nat,
{
    text(opt_text(b.before, ""@, ""@)) + open_block() + bodies_pieces(b.body@)
        + seq![Piece::Dedent] + text("}"@ + opt_text(b.after, ""@, ""@) + "\n"@)
}

/// The elements of a body, one after the other.
pub open spec fn bodies_pieces(bs: Seq<Body>) -> Seq<Piece>
    decreases bs, 1nat,
{
    if bs.len() == 0 {
        Seq::empty()
    } else {
        bodies_pieces(bs.drop_last()) + body_pieces(bs[bs.len() - 1])
    }
}

/// A line renders on a line of its own; a block renders as a block.
pub open spec fn body_pieces(b: Body) -> Seq<Piece>
    decreases b, 0nat,
{
    match b {
        Body::String(s) => text(s@ + "\n"@),
        Body::Block(blk) => block_pieces(blk),
    }
}

/// Writes the elements of a body, one after the other.
pub fn fmt_bodies(bs: &Vec<Body>, fmt: &mut Formatter)
    requires
        old(fmt).wf(),
    ensures
        final(fmt).wf(),
        final(fmt)@ == run(old(fmt)@, bodies_pieces(bs@)),
    decreases bs@, 1nat,
{
    let ghost st0 = fmt@;
    let mut i: usize = 0;
    while i < bs.len()
        invariant
            0 <= i <= bs@.len(),
            fmt.wf(),
            fmt@ == run(st0, bodies_pieces(bs@.take(i as int))),
        decreases bs@.len() - i,
    {
        assert(decreases_to!(bs@ => bs@[i as int]));
        bs[i].fmt(fmt);
        proof {
            lemma_run_concat(st0, bodies_pieces(bs@.take(i as int)), body_pieces(bs@[i as int]));
            let t = bs@.take(i + 1);
            assert(t.drop_last() =~= bs@.take(i as int));
            assert(t[t.len() - 1] == bs@[i as int]);
        }
        i = i + 1;
    }
    assert(bs@.take(i as int) =~= bs@);
}

impl Body {
    /// Writes the element.
    pub fn fmt(&self, fmt: &mut Formatter)
        requires
            old(fmt).wf(),
        ensures
            final(fmt).wf(),
            final(fmt)@ == run(old(fmt)@, body_pieces(*self)),
        decreases self, 0nat,
    {
        match self {
            Body::String(s) => {
                let ghost st0 = fmt@;
                fmt.write(s.as_str());
                proof { lemma_run_one(st0, Piece::Text(s@)); }
                fmt.write("\n");
                proof {
                    lemma_write_after(st0, s@, "\n"@);
                    lemma_run_one(st0, Piece::Text(s@ + "\n"@));
                }
            },
            Body::Block(b) => {
                b.fmt(fmt);
            },
        }
    }
}

impl Block {
    /// Returns an empty block with the given text before it.
    pub fn new(before: &str) -> (r: Block)
        ensures
            r.before is Some,
            r.before->0@ == before@,
            r.after is None,
            r.body@.len() == 0,
    {
        Block { before: Some(String::from_str(before)), after: None, body: Vec::new() }
    }

    /// Adds a line to the body.
    pub fn line(&mut self, line: &str) -> (r: &mut Self)
        ensures
            r.before == old(self).before,
            r.after == old(self).after,
            r.body@.drop_last() == old(self).body@,
            r.body@.len() == old(self).body@.len() + 1,
            r.body@.last() is String,
            r.body@.last()->String_0@ == line@,
            *final(self) == *final(r),
    {
        self.body.push(Body::String(String::from_str(line)));
        self
    }

    /// Adds a nested block to the body.
    pub fn push_block(&mut self, block: Block) -> (r: &mut Self)
        ensures
            r.before == old(self).before,
            r.after == old(self).after,
            r.body@ == old(self).body@.push(Body::Block(block)),
            *final(self) == *final(r),
    {
        self.body.push(Body::Block(block));
        self
    }

    /// Sets the text after the closing brace.
    pub fn after(&mut self, after: &str) -> (r: &mut Self)
        ensures
            r.before == old(self).before,
            r.body == old(self).body,
            r.after is Some,
            r.after->0@ == after@,
            *final(self) == *final(r),
    {
        self.after = Some(String::from_str(after));
        self
    }

    /// Writes the block.
    pub fn fmt(&self, fmt: &mut Formatter)
        requires
            old(fmt).wf(),
        ensures
            final(fmt).wf(),
            final(fmt)@ == run(old(fmt)@, block_pieces(*self)),
        decreases self, 2nat,
    {
        let ghost st0 = fmt@;
        fmt_opt(&self.before, "", "", fmt);
        let ghost p1 = text(opt_text(self.before, ""@, ""@));
        proof { lemma_run_one(st0, Piece::Text(opt_text(self.before, ""@, ""@))); }
        fmt.block_start();
        proof { lemma_run_concat(st0, p1, open_block()); }
        fmt_bodies(&self.body, fmt);
        proof { lemma_run_concat(st0, p1 + open_block(), bodies_pieces(self.body@)); }
        fmt.pop_level();
        let ghost p2 = p1 + open_block() + bodies_pieces(self.body@) + seq![Piece::Dedent];
        proof { lemma_run_concat(st0, p1 + open_block() + bodies_pieces(self.body@), seq![Piece::Dedent]); }
        let ghost st1 = fmt@;
        fmt.write("}");
        proof { lemma_run_one(st1, Piece::Text("}"@)); }
        fmt_opt(&self.after, "", "", fmt);
        proof { lemma_put_str_concat(st1, "}"@, opt_text(self.after, ""@, ""@)); }
        fmt.write("\n");
        proof {
            let tail = "}"@ + opt_text(self.after, ""@, ""@) + "\n"@;
            lemma_write_after(st1, "}"@ + opt_text(self.after, ""@, ""@), "\n"@);
            lemma_run_one(st1, Piece::Text(tail));
            lemma_run_concat(st0, p2, text(tail));
        }
    }
}

} // verus!
