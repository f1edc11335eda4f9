use vstd::prelude::*;
use crate::formatter::{Formatter, put_str, lemma_write_after};

verus! {

/// The argument of an attribute.
pub enum AttrArg {
    /// A delimited token tree: `#[name(ARG)]`.
    Delimited(String),
    /// A literal expression: `#[name = EXPR]`.
    Expr(String),
}

/// An attribute, inner or outer.
pub struct Attr {
    pub name: String,
    pub arg: Option<AttrArg>,
}

/// `#[name]`, `#[name(tokens)]` or `#[name = expr]` on a line of its own;
/// the inner form starts with `#!`.
pub open spec fn attr_text(a: Attr, inner: bool) -> Seq<char> {
    (if inner { "#!["@ } else { "#["@ }) + a.name@ + arg_text(a.arg) + "]\n"@
}

/// The argument of an attribute as it is written after the name.
pub open spec fn arg_text(arg: Option<AttrArg>) -> Seq<char> {
    match arg {
        Some(AttrArg::Delimited(d)) => "("@ + d@ + ")"@,
        Some(AttrArg::Expr(e)) => " = "@ + e@,
        None => Seq::empty(),
    }
}

impl Attr {
    /// Returns an attribute with the given name and no argument.
    pub fn new(name: &str) -> (r: Attr)
        ensures
            r.name@ == name@,
            r.arg is None,
    {
        Attr { name: String::from_str(name), arg: None }
    }

    /// Sets the argument.
    pub fn arg(&mut self, arg: AttrArg) -> (r: &mut Self)
        ensures
            r.name == old(self).name,
            r.arg == Some(arg),
            *final(self) == *final(r),
    {
        self.arg = Some(arg);
        self
    }

    /// Sets the argument to a literal expression.
    pub fn arg_expr(&mut self, expr: &str) -> (r: &mut Self)
        ensures
            r.name == old(self).name,
            r.arg matches Some(AttrArg::Expr(e)) && e@ == expr@,
            *final(self) == *final(r),
    {
        self.arg = Some(AttrArg::Expr(String::from_str(expr)));
        self
    }

    /// Sets the argument to a delimited token tree.
    pub fn arg_delimited(&mut self, delim: &str) -> (r: &mut Self)
        ensures
            r.name == old(self).name,
            r.arg matches Some(AttrArg::Delimited(d)) && d@ == delim@,
            *final(self) == *final(r),
    {
        self.arg = Some(AttrArg::Delimited(String::from_str(delim)));
        self
    }

    /// Writes the attribute on a line of its own.
    pub fn fmt(&self, fmt: &mut Formatter, inner: bool)
        requires
            old(fmt).wf(),
        ensures
            final(fmt).wf(),
            final(fmt)@ == put_str(old(fmt)@, attr_text(*self, inner)),
    {
        let ghost st0 = fmt@;
        let prefix = if inner { "#![" } else { "#[" };
        fmt.write(prefix);
        proof {
            lemma_write_after(st0, Seq::empty(), prefix@);
            assert(Seq::<char>::empty() + prefix@ =~= prefix@);
        }
        fmt.write(self.name.as_str());
        proof { lemma_write_after(st0, prefix@, self.name@); }
        let ghost acc = prefix@ + self.name@;
        let ghost arg = arg_text(self.arg);
        match &self.arg {
            Some(AttrArg::Delimited(d)) => {
                fmt.write("(");
                proof { lemma_write_after(st0, acc, "("@); }
                fmt.write(d.as_str());
                proof { lemma_write_after(st0, acc + "("@, d@); }
                fmt.write(")");
                proof {
                    lemma_write_after(st0, acc + "("@ + d@, ")"@);
                    assert(acc + "("@ + d@ + ")"@ =~= acc + arg);
                }
            },
            Some(AttrArg::Expr(e)) => {
                fmt.write(" = ");
                proof { lemma_write_after(st0, acc, " = "@); }
                fmt.write(e.as_str());
                proof {
                    lemma_write_after(st0, acc + " = "@, e@);
                    assert(acc + " = "@ + e@ =~= acc + arg);
                }
            },
            None => {
                proof { assert(acc + arg =~= acc); }
            },
        }
        proof { assert(fmt@ == put_str(st0, acc + arg)); }
        fmt.write("]\n");
        proof {
            lemma_write_after(st0, acc + arg, "]\n"@);
            assert(acc + arg + "]\n"@ =~= attr_text(*self, inner));
        }
    }
}

} // verus!
