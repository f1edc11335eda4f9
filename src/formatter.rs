use vstd::prelude::*;

verus! {

/// One step of rendering. Every node of the model renders as a sequence of
/// pieces; the formatter lays them out.
pub enum Piece {
    /// A text fragment, possibly spanning several lines.
    Text(Seq<char>),
    /// A single space, unless the cursor stands at the start of a line.
    Space,
    /// One indentation level deeper.
    Indent,
    /// Back out of the innermost indentation level.
    Dedent,
}

/// What a formatter holds: the text written so far, the width of each open
/// indentation level, and the width that the next level will have.
pub struct Layout {
    pub buf: Seq<char>,
    pub levels: Seq<usize>,
    pub unit: usize,
}

/// The cursor stands at the start of a line.
pub open spec fn at_line_start(buf: Seq<char>) -> bool {
    buf.len() == 0 || buf.last() == '\n'
}

/// `n` spaces.
pub open spec fn blanks(n: nat) -> Seq<char> {
    Seq::new(n, |i: int| ' ')
}

/// Number of spaces that open the lines written at the given levels.
pub open spec fn depth(levels: Seq<usize>) -> nat
    decreases levels.len(),
{
    if levels.len() == 0 {
        0
    } else {
        (depth(levels.drop_last()) + levels.last()) as nat
    }
}

/// Writes one character: a character other than a newline that starts a line
/// is preceded by the current indentation.
pub open spec fn put_char(st: Layout, c: char) -> Layout {
    if c != '\n' && at_line_start(st.buf) {
        Layout { buf: st.buf + blanks(depth(st.levels)) + seq![c], ..st }
    } else {
        Layout { buf: st.buf.push(c), ..st }
    }
}

/// Writes a text fragment, one character after the other.
pub open spec fn put_str(st: Layout, s: Seq<char>) -> Layout
    decreases s.len(),
{
    if s.len() == 0 {
        st
    } else {
        put_char(put_str(st, s.drop_last()), s.last())
    }
}

/// Lays out one piece.
pub open spec fn step(st: Layout, p: Piece) -> Layout {
    match p {
        Piece::Text(s) => put_str(st, s),
        Piece::Space => if at_line_start(st.buf) {
            st
        } else {
            put_char(st, ' ')
        },
        Piece::Indent => Layout { levels: st.levels.push(st.unit), ..st },
        Piece::Dedent => if st.levels.len() > 0 {
            Layout { levels: st.levels.drop_last(), ..st }
        } else {
            st
        },
    }
}

/// Lays out a sequence of pieces, from the first to the last.
pub open spec fn run(st: Layout, ps: Seq<Piece>) -> Layout
    decreases ps.len(),
{
    if ps.len() == 0 {
        st
    } else {
        step(run(st, ps.drop_last()), ps.last())
    }
}

/// The layout of an empty buffer at depth zero with the given unit.
pub open spec fn fresh(unit: usize) -> Layout {
    Layout { buf: Seq::empty(), levels: Seq::empty(), unit }
}

/// The text that the pieces give from an empty buffer.
pub open spec fn layout(ps: Seq<Piece>, unit: usize) -> Seq<char> {
    run(fresh(unit), ps).buf
}

/// A single text piece.
pub open spec fn text(s: Seq<char>) -> Seq<Piece> {
    seq![Piece::Text(s)]
}

/// Opens a brace block: a space that attaches it to what precedes, the
/// brace, a newline, and one level of indentation.
pub open spec fn open_block() -> Seq<Piece> {
    seq![Piece::Space, Piece::Text("{\n"@), Piece::Indent]
}

/// Closes a brace block opened by `open_block`.
pub open spec fn close_block() -> Seq<Piece> {
    seq![Piece::Dedent, Piece::Text("}\n"@)]
}

/// The pieces of a brace block around the given body.
pub open spec fn braced(body: Seq<Piece>) -> Seq<Piece> {
    open_block() + body + close_block()
}

/// The texts joined with the separator between each two of them.
pub open spec fn joined(items: Seq<Seq<char>>, sep: Seq<char>) -> Seq<char>
    decreases items.len(),
{
    if items.len() == 0 {
        Seq::empty()
    } else if items.len() == 1 {
        items[0]
    } else {
        joined(items.drop_last(), sep) + sep + items.last()
    }
}

/// Laying out `a + b` is laying out `a`, then `b`.
pub proof fn lemma_run_concat(st: Layout, a: Seq<Piece>, b: Seq<Piece>)
    ensures
        run(st, a + b) == run(run(st, a), b),
    decreases b.len(),
{
    if b.len() == 0 {
        assert(a + b =~= a);
    } else {
        lemma_run_concat(st, a, b.drop_last());
        assert((a + b).drop_last() =~= a + b.drop_last());
    }
}

/// Laying out one piece is one step.
pub proof fn lemma_run_one(st: Layout, p: Piece)
    ensures
        run(st, seq![p]) == step(st, p),
{
    let e = seq![p].drop_last();
    assert(e =~= Seq::<Piece>::empty());
    assert(run(st, e) == st);
}

/// Writing `a + b` is writing `a`, then `b`.
pub proof fn lemma_put_str_concat(st: Layout, a: Seq<char>, b: Seq<char>)
    ensures
        put_str(st, a + b) == put_str(put_str(st, a), b),
    decreases b.len(),
{
    if b.len() == 0 {
        assert(a + b =~= a);
    } else {
        lemma_put_str_concat(st, a, b.drop_last());
        assert((a + b).drop_last() =~= a + b.drop_last());
    }
}

/// Laying out three sequences of pieces one after the other is laying out their concatenation.
pub proof fn lemma_run3(st: Layout, a: Seq<Piece>, b: Seq<Piece>, c: Seq<Piece>)
    ensures
        run(run(run(st, a), b), c) == run(st, a + b + c),
{
    lemma_run_concat(st, a, b);
    lemma_run_concat(st, a + b, c);
}

/// Writing `x` after the text `acc` is writing `acc + x`.
pub proof fn lemma_write_after(st: Layout, acc: Seq<char>, x: Seq<char>)
    ensures
        run(put_str(st, acc), text(x)) == put_str(st, acc + x),
{
    lemma_run_one(put_str(st, acc), Piece::Text(x));
    lemma_put_str_concat(st, acc, x);
}

/// The views of the strings.
pub open spec fn views(v: Seq<String>) -> Seq<Seq<char>> {
    v.map_values(|s: String| s@)
}

/// The text of one line per string, each between `pre` and `post`.
pub open spec fn wrapped_lines(v: Seq<Seq<char>>, pre: Seq<char>, post: Seq<char>) -> Seq<char>
    decreases v.len(),
{
    if v.len() == 0 {
        Seq::empty()
    } else {
        wrapped_lines(v.drop_last(), pre, post) + pre + v.last() + post
    }
}

/// What every node of the model can do: render itself into a formatter, as
/// the sequence of pieces that `pieces` gives.
pub trait Format {
    spec fn pieces(&self) -> Seq<Piece>;

    /// The node breaks none of the rules that rendering relies on.
    spec fn renders(&self) -> bool;

    fn fmt(&self, fmt: &mut Formatter)
        requires
            old(fmt).wf(),
            self.renders(),
        ensures
            final(fmt).wf(),
            final(fmt)@ == run(old(fmt)@, self.pieces()),
    ;
}

/// Writing text leaves the indentation as it is.
pub proof fn lemma_put_str_levels(st: Layout, s: Seq<char>)
    ensures
        put_str(st, s).levels == st.levels,
        put_str(st, s).unit == st.unit,
    decreases s.len(),
{
    if s.len() > 0 {
        lemma_put_str_levels(st, s.drop_last());
    }
}

/// Opening a block pushes one level; closing one pops it.
pub proof fn lemma_open_close_levels(st: Layout, lv: Seq<usize>)
    ensures
        st.levels == lv ==> run(st, open_block()).levels == lv.push(st.unit),
        st.levels.len() > 0 ==> run(st, close_block()).levels == st.levels.drop_last(),
        lv.push(st.unit).drop_last() == lv,
{
    lemma_run_concat(st, seq![Piece::Space], seq![Piece::Text("{\n"@), Piece::Indent]);
    assert(open_block() =~= seq![Piece::Space] + seq![Piece::Text("{\n"@), Piece::Indent]);
    lemma_run_one(st, Piece::Space);
    let s1 = step(st, Piece::Space);
    if !at_line_start(st.buf) {
        lemma_put_str_levels(st, seq![' ']);
        lemma_run_one(st, Piece::Text(seq![' ']));
    }
    assert(s1.levels == st.levels && s1.unit == st.unit);
    lemma_run_concat(s1, seq![Piece::Text("{\n"@)], seq![Piece::Indent]);
    assert(seq![Piece::Text("{\n"@), Piece::Indent] =~= seq![Piece::Text("{\n"@)] + seq![Piece::Indent]);
    lemma_run_one(s1, Piece::Text("{\n"@));
    lemma_put_str_levels(s1, "{\n"@);
    lemma_run_one(put_str(s1, "{\n"@), Piece::Indent);
    lemma_run_concat(st, seq![Piece::Dedent], seq![Piece::Text("}\n"@)]);
    assert(close_block() =~= seq![Piece::Dedent] + seq![Piece::Text("}\n"@)]);
    lemma_run_one(st, Piece::Dedent);
    lemma_run_one(step(st, Piece::Dedent), Piece::Text("}\n"@));
    lemma_put_str_levels(step(st, Piece::Dedent), "}\n"@);
    assert(lv.push(st.unit).drop_last() =~= lv);
}

/// Relies on `String::push`: appends one character.
#[verifier::external_body]
pub(crate) fn push_char(s: &mut String, c: char)
    ensures
        final(s)@ == old(s)@.push(c),
{
    s.push(c)
}

/// The indentation-aware text sink that every node renders through.
pub struct Formatter {
    dst: String,
    levels: Vec<usize>,
    indent: usize,
    line_start: bool,
}

impl View for Formatter {
    type V = Layout;

    closed spec fn view(&self) -> Layout {
        Layout { buf: self.dst@, levels: self.levels@, unit: self.indent }
    }
}

impl Formatter {
    /// The cursor flag agrees with the text written so far.
    pub closed spec fn wf(&self) -> bool {
        self.line_start == at_line_start(self.dst@)
    }

    /// Returns a formatter over an empty buffer, with an indentation of four spaces.
    pub fn new() -> (r: Formatter)
        ensures
            r@ == fresh(4),
            r.wf(),
    {
        Formatter { dst: String::new(), levels: Vec::new(), indent: 4, line_start: true }
    }

    /// Sets the number of spaces per indentation level.
    pub fn set_indent(&mut self, indent: usize)
        requires
            old(self).wf(),
        ensures
            final(self).wf(),
            final(self)@ == (Layout { unit: indent, ..old(self)@ }),
    {
        self.indent = indent;
    }

    /// Whether the text written so far is empty or ends with a newline.
    pub fn is_start_of_line(&self) -> (r: bool)
        requires
            self.wf(),
        ensures
            r == at_line_start(self@.buf),
    {
        self.line_start
    }

    /// Gives up the formatter and returns the text written.
    pub fn into_string(self) -> (r: String)
        ensures
            r@ == self@.buf,
    {
        self.dst
    }

    fn push_spaces(&mut self)
        requires
            old(self).wf(),
            at_line_start(old(self)@.buf),
        ensures
            final(self).wf(),
            final(self)@ == (Layout { buf: old(self)@.buf + blanks(depth(old(self)@.levels)), ..old(self)@ }),
    {
        let ghost b0 = self.dst@;
        let ghost lv = self.levels@;
        let mut i: usize = 0;
        while i < self.levels.len()
            invariant
                0 <= i <= lv.len(),
                self.levels@ == lv,
                self.indent == old(self).indent,
                self.line_start == at_line_start(self.dst@),
                self.dst@ == b0 + blanks(depth(lv.take(i as int))),
            decreases lv.len() - i,
        {
            let w = self.levels[i];
            let ghost b1 = self.dst@;
            let mut j: usize = 0;
            while j < w
                invariant
                    0 <= j <= w,
                    self.levels@ == lv,
                    self.indent == old(self).indent,
                    self.line_start == at_line_start(self.dst@),
                    self.dst@ == b1 + blanks(j as nat),
                decreases w - j,
            {
                push_char(&mut self.dst, ' ');
                self.line_start = false;
                assert(b1 + blanks((j + 1) as nat) =~= (b1 + blanks(j as nat)).push(' '));
                j = j + 1;
            }
            assert(lv.take(i + 1).drop_last() =~= lv.take(i as int));
            assert(b0 + blanks(depth(lv.take(i + 1))) =~= b0 + blanks(depth(lv.take(i as int)))
                + blanks(w as nat));
            i = i + 1;
        }
        assert(lv.take(i as int) =~= lv);
    }

    /// Writes a text fragment. Each line of it that is not empty and starts
    /// at the beginning of an output line is indented to the current depth.
    pub fn write(&mut self, s: &str)
        requires
            old(self).wf(),
        ensures
            final(self).wf(),
            final(self)@ == run(old(self)@, text(s@)),
    {
        let ghost st0 = self@;
        for c in it: s.chars()
            invariant
                it.seq() == s@,
                self.wf(),
                self@ == put_str(st0, s@.take(it.index() as int)),
        {
            let ghost before = self@;
            if c != '\n' && self.line_start {
                self.push_spaces();
            }
            push_char(&mut self.dst, c);
            self.line_start = c == '\n';
            proof {
                let t = s@.take(it.index() + 1);
                assert(t.drop_last() =~= s@.take(it.index() as int));
                assert(c == t.last());
                if c != '\n' && at_line_start(before.buf) {
                    assert(self.dst@ =~= before.buf + blanks(depth(before.levels)) + seq![c]);
                } else {
                    assert(self.dst@ =~= before.buf.push(c));
                }
                assert(self@ == put_char(before, c));
            }
        }
        assert(s@.take(s@.len() as int) =~= s@);
        proof { lemma_run_one(st0, Piece::Text(s@)); }
    }

    /// Writes a single space, unless the cursor stands at the start of a line.
    pub fn space(&mut self)
        requires
            old(self).wf(),
        ensures
            final(self).wf(),
            final(self)@ == run(old(self)@, seq![Piece::Space]),
    {
        proof { lemma_run_one(self@, Piece::Space); }
        if !self.line_start {
            push_char(&mut self.dst, ' ');
            self.line_start = false;
        }
    }

    /// Opens one more indentation level, as wide as the current unit.
    pub fn push_level(&mut self)
        requires
            old(self).wf(),
        ensures
            final(self).wf(),
            final(self)@ == run(old(self)@, seq![Piece::Indent]),
    {
        proof { lemma_run_one(self@, Piece::Indent); }
        self.levels.push(self.indent);
    }

    /// Closes the innermost indentation level, if one is open.
    pub fn pop_level(&mut self)
        requires
            old(self).wf(),
        ensures
            final(self).wf(),
            final(self)@ == run(old(self)@, seq![Piece::Dedent]),
    {
        proof { lemma_run_one(self@, Piece::Dedent); }
        let _ = self.levels.pop();
    }

    /// Opens a brace block: attaches `{` to the preceding token, ends the
    /// line, and indents what follows.
    pub fn block_start(&mut self)
        requires
            old(self).wf(),
        ensures
            final(self).wf(),
            final(self)@ == run(old(self)@, open_block()),
    {
        let ghost st0 = self@;
        self.space();
        self.write("{\n");
        self.push_level();
        proof {
            lemma_run_concat(st0, seq![Piece::Space], text("{\n"@));
            lemma_run_concat(st0, seq![Piece::Space] + text("{\n"@), seq![Piece::Indent]);
            assert(seq![Piece::Space] + text("{\n"@) + seq![Piece::Indent] =~= open_block());
        }
    }

    /// Closes a brace block opened by `block_start`.
    pub fn block_end(&mut self)
        requires
            old(self).wf(),
        ensures
            final(self).wf(),
            final(self)@ == run(old(self)@, close_block()),
    {
        let ghost st0 = self@;
        self.pop_level();
        self.write("}\n");
        proof {
            lemma_run_concat(st0, seq![Piece::Dedent], text("}\n"@));
            assert(seq![Piece::Dedent] + text("}\n"@) =~= close_block());
        }
    }
}

impl Formatter {
    /// Runs `body` one indentation level deeper. Whatever `body` writes, the
    /// depth afterwards is the depth before.
    pub fn indent<F: FnOnce(&mut Formatter)>(&mut self, body: F)
        requires
            old(self).wf(),
            forall|g: &mut Formatter| g.wf() ==> body.requires((g,)),
            forall|g: &mut Formatter| #![trigger body.ensures((g,), ())]
                g.wf() && body.ensures((g,), ()) ==> final(g).wf() && final(g)@.levels == g@.levels,
        ensures
            final(self).wf(),
            final(self)@.levels == old(self)@.levels,
            exists|g: &mut Formatter|
                g.wf() && g@ == run(old(self)@, seq![Piece::Indent]) && body.ensures((g,), ())
                    && final(self)@ == run(final(g)@, seq![Piece::Dedent]),
    {
        let ghost lv = self@.levels;
        self.push_level();
        proof {
            lemma_run_one(old(self)@, Piece::Indent);
            assert(lv.push(old(self)@.unit).drop_last() =~= lv);
        }
        let g = &mut *self;
        let ghost gg = g;
        body(g);
        let ghost mid = self@;
        proof { assert(mid == final(gg)@); }
        self.pop_level();
        proof { lemma_run_one(mid, Piece::Dedent); }
    }

    /// Runs `body` inside a brace block: attaches `{` to the preceding
    /// token, indents what `body` writes by one level, and closes the block.
    /// Whatever `body` writes, the depth after the block is the depth before.
    pub fn block<F: FnOnce(&mut Formatter)>(&mut self, body: F)
        requires
            old(self).wf(),
            forall|g: &mut Formatter| g.wf() ==> body.requires((g,)),
            forall|g: &mut Formatter| #![trigger body.ensures((g,), ())]
                g.wf() && body.ensures((g,), ()) ==> final(g).wf() && final(g)@.levels == g@.levels,
        ensures
            final(self).wf(),
            final(self)@.levels == old(self)@.levels,
            exists|g: &mut Formatter|
                g.wf() && g@ == run(old(self)@, open_block()) && body.ensures((g,), ())
                    && final(self)@ == run(final(g)@, close_block()),
    {
        let ghost lv = self@.levels;
        self.block_start();
        proof { lemma_open_close_levels(old(self)@, lv); }
        let g = &mut *self;
        let ghost gg = g;
        body(g);
        let ghost mid = self@;
        proof { assert(mid == final(gg)@); }
        self.block_end();
        proof { lemma_open_close_levels(mid, lv); }
    }
}

/// Writes the strings joined by `sep`.
pub fn fmt_joined(items: &Vec<String>, sep: &str, fmt: &mut Formatter)
    requires
        old(fmt).wf(),
    ensures
        final(fmt).wf(),
        final(fmt)@ == put_str(old(fmt)@, joined(views(items@), sep@)),
{
    let ghost st0 = fmt@;
    let ghost vs = views(items@);
    let mut i: usize = 0;
    while i < items.len()
        invariant
            0 <= i <= items@.len(),
            vs == views(items@),
            fmt.wf(),
            fmt@ == put_str(st0, joined(vs.take(i as int), sep@)),
        decreases items@.len() - i,
    {
        let ghost acc = joined(vs.take(i as int), sep@);
        if i > 0 {
            fmt.write(sep);
            proof { lemma_write_after(st0, acc, sep@); }
        }
        fmt.write(items[i].as_str());
        proof {
            let t = vs.take(i + 1);
            assert(t.drop_last() =~= vs.take(i as int));
            assert(t.last() == items@[i as int]@);
            if i > 0 {
                lemma_write_after(st0, acc + sep@, items@[i as int]@);
            } else {
                assert(acc =~= Seq::<char>::empty());
                assert(Seq::<char>::empty() + items@[i as int]@ =~= items@[i as int]@);
                lemma_write_after(st0, acc, items@[i as int]@);
            }
        }
        i = i + 1;
    }
    assert(vs.take(i as int) =~= vs);
}

/// Writes one line per string, each between `pre` and `post`.
pub fn fmt_wrapped_lines(items: &Vec<String>, pre: &str, post: &str, fmt: &mut Formatter)
    requires
        old(fmt).wf(),
    ensures
        final(fmt).wf(),
        final(fmt)@ == put_str(old(fmt)@, wrapped_lines(views(items@), pre@, post@)),
{
    let ghost st0 = fmt@;
    let ghost vs = views(items@);
    let mut i: usize = 0;
    while i < items.len()
        invariant
            0 <= i <= items@.len(),
            vs == views(items@),
            fmt.wf(),
            fmt@ == put_str(st0, wrapped_lines(vs.take(i as int), pre@, post@)),
        decreases items@.len() - i,
    {
        let ghost acc = wrapped_lines(vs.take(i as int), pre@, post@);
        fmt.write(pre);
        proof { lemma_write_after(st0, acc, pre@); }
        fmt.write(items[i].as_str());
        proof { lemma_write_after(st0, acc + pre@, items@[i as int]@); }
        fmt.write(post);
        proof {
            lemma_write_after(st0, acc + pre@ + items@[i as int]@, post@);
            let t = vs.take(i + 1);
            assert(t.drop_last() =~= vs.take(i as int));
            assert(t.last() == items@[i as int]@);
        }
        i = i + 1;
    }
    assert(vs.take(i as int) =~= vs);
}

/// Writes the generic parameters between angle brackets, or nothing when
/// there are none.
pub fn fmt_generics(generics: &Vec<String>, fmt: &mut Formatter)
    requires
        old(fmt).wf(),
    ensures
        final(fmt).wf(),
        final(fmt)@ == put_str(old(fmt)@, generics_text(generics@)),
{
    if generics.len() > 0 {
        let ghost st0 = fmt@;
        fmt.write("<");
        proof { lemma_write_after(st0, Seq::empty(), "<"@); assert(Seq::<char>::empty() + "<"@ =~= "<"@); }
        fmt_joined(generics, ", ", fmt);
        proof { lemma_put_str_concat(st0, "<"@, joined(views(generics@), ", "@)); }
        fmt.write(">");
        proof { lemma_write_after(st0, "<"@ + joined(views(generics@), ", "@), ">"@); }
    }
}

/// The string between `pre` and `post` when there is one, else nothing.
pub open spec fn opt_text(o: Option<String>, pre: Seq<char>, post: Seq<char>) -> Seq<char> {
    match o {
        Some(s) => pre + s@ + post,
        None => Seq::empty(),
    }
}

/// Writes the string between `pre` and `post` when there is one.
pub fn fmt_opt(o: &Option<String>, pre: &str, post: &str, fmt: &mut Formatter)
    requires
        old(fmt).wf(),
    ensures
        final(fmt).wf(),
        final(fmt)@ == put_str(old(fmt)@, opt_text(*o, pre@, post@)),
{
    if let Some(s) = o {
        let ghost st0 = fmt@;
        fmt.write(pre);
        proof { lemma_write_after(st0, Seq::empty(), pre@); assert(Seq::<char>::empty() + pre@ =~= pre@); }
        fmt.write(s.as_str());
        proof { lemma_write_after(st0, pre@, s@); }
        fmt.write(post);
        proof { lemma_write_after(st0, pre@ + s@, post@); }
    }
}

/// The strings joined by `sep` between `pre` and `post`, or nothing when
/// there are none.
pub open spec fn list_text(v: Seq<String>, pre: Seq<char>, sep: Seq<char>, post: Seq<char>) -> Seq<char> {
    if v.len() == 0 {
        Seq::empty()
    } else {
        pre + joined(views(v), sep) + post
    }
}

/// Writes the strings joined by `sep` between `pre` and `post`, or nothing
/// when there are none.
pub fn fmt_list(v: &Vec<String>, pre: &str, sep: &str, post: &str, fmt: &mut Formatter)
    requires
        old(fmt).wf(),
    ensures
        final(fmt).wf(),
        final(fmt)@ == put_str(old(fmt)@, list_text(v@, pre@, sep@, post@)),
{
    if v.len() > 0 {
        let ghost st0 = fmt@;
        fmt.write(pre);
        proof { lemma_write_after(st0, Seq::empty(), pre@); assert(Seq::<char>::empty() + pre@ =~= pre@); }
        fmt_joined(v, sep, fmt);
        proof { lemma_put_str_concat(st0, pre@, joined(views(v@), sep@)); }
        fmt.write(post);
        proof { lemma_write_after(st0, pre@ + joined(views(v@), sep@), post@); }
    }
}

/// The generic parameters between angle brackets, or nothing.
pub open spec fn generics_text(gs: Seq<String>) -> Seq<char> {
    if gs.len() == 0 {
        Seq::empty()
    } else {
        "<"@ + joined(views(gs), ", "@) + ">"@
    }
}

} // verus!
