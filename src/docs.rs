use vstd::prelude::*;
use crate::formatter::{Formatter, push_char, put_str, lemma_write_after, wrapped_lines};

verus! {

/// The pieces of a text separated by newlines; there is one more piece than
/// there are newlines.
pub open spec fn split_lines(s: Seq<char>) -> Seq<Seq<char>>
    decreases s.len(),
{
    if s.len() == 0 {
        seq![Seq::empty()]
    } else {
        let p = split_lines(s.drop_last());
        if s.last() == '\n' {
            p.push(Seq::empty())
        } else {
            p.update(p.len() - 1, p.last().push(s.last()))
        }
    }
}

/// A line ended by a newline, without the carriage return that may come
/// before that newline.
pub open spec fn strip_cr(l: Seq<char>) -> Seq<char> {
    if l.len() > 0 && l.last() == '\r' {
        l.drop_last()
    } else {
        l
    }
}

pub open spec fn stripped(ls: Seq<Seq<char>>) -> Seq<Seq<char>>
    decreases ls.len(),
{
    if ls.len() == 0 {
        Seq::empty()
    } else {
        stripped(ls.drop_last()).push(strip_cr(ls.last()))
    }
}

/// The lines of a text, as `str::lines` gives them: the pieces between line
/// endings (`\n` or `\r\n`), without the empty one after a final line
/// ending.
pub open spec fn lines_of(s: Seq<char>) -> Seq<Seq<char>> {
    let p = split_lines(s);
    stripped(p.drop_last()) + if p.last().len() == 0 {
        Seq::empty()
    } else {
        seq![p.last()]
    }
}

/// A carriage return, when `pending`.
pub open spec fn cr(pending: bool) -> Seq<char> {
    if pending {
        seq!['\r']
    } else {
        Seq::empty()
    }
}

/// Documentation: one comment line per line of text.
pub struct Docs {
    pub docs: String,
}

/// The comment marker: `//!` for inner documentation, `///` for outer.
pub open spec fn doc_prefix(inner: bool) -> Seq<char> {
    if inner { "//! "@ } else { "/// "@ }
}

/// The documentation as comment lines.
pub open spec fn docs_text(d: Docs, inner: bool) -> Seq<char> {
    wrapped_lines(lines_of(d.docs@), doc_prefix(inner), "\n"@)
}

impl Docs {
    /// Returns the documentation with the given text.
    pub fn new(docs: &str) -> (r: Docs)
        ensures
            r.docs@ == docs@,
    {
        Docs { docs: String::from_str(docs) }
    }

    /// Writes one comment line per line of the documentation.
    pub fn fmt(&self, fmt: &mut Formatter, inner: bool)
        requires
            old(fmt).wf(),
        ensures
            final(fmt).wf(),
            final(fmt)@ == put_str(old(fmt)@, docs_text(*self, inner)),
    {
        let ghost st0 = fmt@;
        let ghost s = self.docs@;
        let prefix = if inner { "//! " } else { "/// " };
        let mut cur = String::new();
        let mut pending = false;
        let ghost mut done: Seq<Seq<char>> = Seq::empty();
        for c in it: self.docs.as_str().chars()
            invariant
                it.seq() == s,
                s == self.docs@,
                prefix@ == doc_prefix(inner),
                fmt.wf(),
                split_lines(s.take(it.index() as int)) == done.push(cur@ + cr(pending)),
                !pending ==> cur@.len() == 0 || cur@.last() != '\r',
                fmt@ == put_str(st0, wrapped_lines(stripped(done), prefix@, "\n"@)),
        {
            let ghost raw = cur@ + cr(pending);
            proof {
                let t = s.take(it.index() + 1);
                assert(t.drop_last() =~= s.take(it.index() as int));
                assert(t.last() == c);
            }
            if c == '\n' {
                let ghost acc = wrapped_lines(stripped(done), prefix@, "\n"@);
                fmt.write(prefix);
                proof { lemma_write_after(st0, acc, prefix@); }
                fmt.write(cur.as_str());
                proof { lemma_write_after(st0, acc + prefix@, cur@); }
                fmt.write("\n");
                proof {
                    lemma_write_after(st0, acc + prefix@ + cur@, "\n"@);
                    if pending {
                        assert(raw.drop_last() =~= cur@);
                    } else {
                        assert(raw =~= cur@);
                    }
                    assert(strip_cr(raw) == cur@);
                    let d2 = done.push(raw);
                    assert(d2.drop_last() =~= done);
                    assert(stripped(d2) == stripped(done).push(cur@));
                    assert(stripped(done).push(cur@).drop_last() =~= stripped(done));
                    done = d2;
                }
                cur = String::new();
                pending = false;
                proof {
                    assert(split_lines(s.take(it.index() + 1)) =~= done.push(cur@ + cr(pending)));
                }
            } else if c == '\r' {
                if pending {
                    push_char(&mut cur, '\r');
                }
                pending = true;
                proof {
                    assert(cur@ + cr(pending) =~= raw.push('\r'));
                    assert(split_lines(s.take(it.index() + 1)) =~= done.push(cur@ + cr(pending)));
                }
            } else {
                if pending {
                    push_char(&mut cur, '\r');
                }
                push_char(&mut cur, c);
                pending = false;
                proof {
                    assert(cur@ + cr(pending) =~= raw.push(c));
                    assert(split_lines(s.take(it.index() + 1)) =~= done.push(cur@ + cr(pending)));
                }
            }
        }
        proof { assert(s.take(s.len() as int) =~= s); }
        if pending {
            push_char(&mut cur, '\r');
        }
        let ghost last = cur@;
        proof {
            let p = split_lines(s);
            assert(p.drop_last() =~= done);
            assert(p.last() == last);
        }
        let ghost acc = wrapped_lines(stripped(done), prefix@, "\n"@);
        if !cur.as_str().is_empty() {
            fmt.write(prefix);
            proof { lemma_write_after(st0, acc, prefix@); }
            fmt.write(cur.as_str());
            proof { lemma_write_after(st0, acc + prefix@, cur@); }
            fmt.write("\n");
            proof {
                lemma_write_after(st0, acc + prefix@ + cur@, "\n"@);
                let ls = stripped(done) + seq![last];
                assert(ls =~= stripped(done).push(last));
                assert(ls.drop_last() =~= stripped(done));
            }
        } else {
            proof { assert(stripped(done) + Seq::<Seq<char>>::empty() =~= stripped(done)); }
        }
    }
}

} // verus!
