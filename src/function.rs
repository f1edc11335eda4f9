use vstd::prelude::*;
use crate::formatter::{
    Formatter, Piece, run, text, views, braced, open_block, close_block, opt_text, fmt_opt,
    wrapped_lines, fmt_wrapped_lines, generics_text, fmt_generics, put_str, lemma_run_one,
    lemma_run3, lemma_write_after, lemma_put_str_concat,
};
use crate::docs::Docs;
use crate::type_def::{opt_docs_text, fmt_opt_docs};
use crate::field::{Field, is_bare_field};
use crate::ty::{Type, type_text};
use crate::bound::{Bound, bounds_text, fmt_bounds, is_simple_bound};
use crate::block::{Block, Body, bodies_pieces, fmt_bodies};

verus! {

/// A function: its signature and, unless it is a declaration inside a
/// trait, its body.
pub struct Function {
    pub name: String,
    pub docs: Option<Docs>,
    /// A lint to allow.
    pub allow: Option<String>,
    pub vis: Option<String>,
    pub generics: Vec<String>,
    /// The receiver: `self`, `&self` or `&mut self`.
    pub arg_self: Option<String>,
    pub args: Vec<Field>,
    pub ret: Option<Type>,
    pub bounds: Vec<Bound>,
    /// The body; none for a declaration.
    pub body: Option<Vec<Body>>,
    /// Attribute lines, without `#[` and `]`.
    pub attributes: Vec<String>,
    /// The ABI of an `extern` function.
    pub extern_abi: Option<String>,
    pub is_async: bool,
}

/// The parameters after the receiver, each `name: type`, separated by
/// commas; `lead` tells whether a receiver comes before them.
pub open spec fn params_text(args: Seq<Field>, lead: bool) -> Seq<char>
    decreases args.len(),
{
    if args.len() == 0 {
        Seq::empty()
    } else {
        params_text(args.drop_last(), lead) + (if args.len() > 1 || lead { ", "@ } else { ""@ })
            + args.last().name@ + ": "@ + type_text(args.last().ty)
    }
}

/// The return type after an arrow, if there is one.
pub open spec fn ret_text(ret: Option<Type>) -> Seq<char> {
    match ret {
        Some(t) => " -> "@ + type_text(t),
        None => Seq::empty(),
    }
}

/// The signature, in its fixed order: documentation, lint allowance,
/// attributes, visibility, ABI, `async`, `fn`, name, generics, parameters,
/// return type and where-clause.
pub open spec fn signature_text(f: Function) -> Seq<char> {
    qualifiers_text(f)
        + "fn "@ + f.name@ + generics_text(f.generics@)
        + "("@ + opt_text(f.arg_self, ""@, ""@) + params_text(f.args@, f.arg_self is Some) + ")"@
        + ret_text(f.ret)
        + bounds_text(f.bounds@)
}

/// What precedes `fn`: documentation, lint allowance, attributes,
/// visibility, ABI and `async`.
pub open spec fn qualifiers_text(f: Function) -> Seq<char> {
    opt_docs_text(f.docs)
        + opt_text(f.allow, "#[allow("@, ")]\n"@)
        + wrapped_lines(views(f.attributes@), "#["@, "]\n"@)
        + opt_text(f.vis, ""@, " "@)
        + opt_text(f.extern_abi, "extern \""@, "\" "@)
        + (if f.is_async { "async "@ } else { ""@ })
}

/// A function renders its signature, then its body as a brace block, or
/// `;` when it has none.
pub open spec fn function_pieces(f: Function) -> Seq<Piece> {
    text(signature_text(f)) + match f.body {
        Some(body) => braced(bodies_pieces(body@)),
        None => text(";\n"@),
    }
}

/// The function can be rendered where it stands: inside a trait it has no
/// visibility, elsewhere it has a body.
pub open spec fn renders_in(f: Function, is_trait: bool) -> bool {
    if is_trait {
        f.vis is None
    } else {
        f.body is Some
    }
}

/// A function named `name` with nothing else; its body is `body`.
pub open spec fn is_bare_fn(f: Function, name: Seq<char>, body: Option<Seq<Body>>) -> bool {
    &&& f.name@ == name
    &&& f.docs is None
    &&& f.allow is None
    &&& f.vis is None
    &&& f.generics@.len() == 0
    &&& f.arg_self is None
    &&& f.args@.len() == 0
    &&& f.ret is None
    &&& f.bounds@.len() == 0
    &&& match f.body {
        Some(b) => body == Some(b@),
        None => body is None,
    }
    &&& f.attributes@.len() == 0
    &&& f.extern_abi is None
    &&& !f.is_async
}

/// The function differs from `f` at most in the body, which has one more
/// element at its end.
pub open spec fn body_extended(f: Function, g: Function, b: Body) -> bool {
    &&& g == Function { body: g.body, ..f }
    &&& g.body is Some
    &&& g.body->0@ == (match f.body { Some(v) => v@, None => Seq::empty() }).push(b)
}

impl Function {
    /// Returns a function with the given name, an empty body and nothing
    /// else.
    pub fn new(name: &str) -> (r: Function)
        ensures
            is_bare_fn(r, name@, Some(Seq::empty())),
    {
        Function {
            name: String::from_str(name),
            docs: None,
            allow: None,
            vis: None,
            generics: Vec::new(),
            arg_self: None,
            args: Vec::new(),
            ret: None,
            bounds: Vec::new(),
            body: Some(Vec::new()),
            attributes: Vec::new(),
            extern_abi: None,
            is_async: false,
        }
    }

    /// Sets the documentation.
    pub fn doc(&mut self, docs: &str) -> (r: &mut Self)
        ensures
            *r == (Function { docs: Some(r.docs->0), ..*old(self) }),
            r.docs->0.docs@ == docs@,
            *final(self) == *final(r),
    {
        self.docs = Some(Docs::new(docs));
        self
    }

    /// Sets the lint to allow.
    pub fn allow(&mut self, allow: &str) -> (r: &mut Self)
        ensures
            *r == (Function { allow: Some(r.allow->0), ..*old(self) }),
            r.allow->0@ == allow@,
            *final(self) == *final(r),
    {
        self.allow = Some(String::from_str(allow));
        self
    }

    /// Sets the visibility.
    pub fn vis(&mut self, vis: &str) -> (r: &mut Self)
        ensures
            *r == (Function { vis: Some(r.vis->0), ..*old(self) }),
            r.vis->0@ == vis@,
            *final(self) == *final(r),
    {
        self.vis = Some(String::from_str(vis));
        self
    }

    /// Sets whether the function is `async`.
    pub fn set_async(&mut self, is_async: bool) -> (r: &mut Self)
        ensures
            *r == (Function { is_async, ..*old(self) }),
            *final(self) == *final(r),
    {
        self.is_async = is_async;
        self
    }

    /// Adds a generic parameter.
    pub fn generic(&mut self, name: &str) -> (r: &mut Self)
        ensures
            *r == (Function { generics: r.generics, ..*old(self) }),
            views(r.generics@) == views(old(self).generics@).push(name@),
            *final(self) == *final(r),
    {
        self.generics.push(String::from_str(name));
        proof { assert(views(self.generics@) =~= views(old(self).generics@).push(name@)); }
        self
    }

    /// Takes `self` by value.
    pub fn arg_self(&mut self) -> (r: &mut Self)
        ensures
            *r == (Function { arg_self: Some(r.arg_self->0), ..*old(self) }),
            r.arg_self->0@ == "self"@,
            *final(self) == *final(r),
    {
        self.arg_self = Some(String::from_str("self"));
        self
    }

    /// Takes `&self`.
    pub fn arg_ref_self(&mut self) -> (r: &mut Self)
        ensures
            *r == (Function { arg_self: Some(r.arg_self->0), ..*old(self) }),
            r.arg_self->0@ == "&self"@,
            *final(self) == *final(r),
    {
        self.arg_self = Some(String::from_str("&self"));
        self
    }

    /// Takes `&mut self`.
    pub fn arg_mut_self(&mut self) -> (r: &mut Self)
        ensures
            *r == (Function { arg_self: Some(r.arg_self->0), ..*old(self) }),
            r.arg_self->0@ == "&mut self"@,
            *final(self) == *final(r),
    {
        self.arg_self = Some(String::from_str("&mut self"));
        self
    }

    /// Adds a parameter.
    pub fn arg(&mut self, name: &str, ty: &str) -> (r: &mut Self)
        ensures
            *r == (Function { args: r.args, ..*old(self) }),
            r.args@.drop_last() == old(self).args@,
            r.args@.len() == old(self).args@.len() + 1,
            is_bare_field(r.args@.last(), name@, ty@),
            *final(self) == *final(r),
    {
        self.args.push(Field::new(name, ty));
        self
    }

    /// Sets the return type.
    pub fn ret(&mut self, ty: &str) -> (r: &mut Self)
        ensures
            *r == (Function { ret: Some(r.ret->0), ..*old(self) }),
            r.ret->0.name@ == ty@,
            r.ret->0.generics@.len() == 0,
            *final(self) == *final(r),
    {
        self.ret = Some(Type::new(ty));
        self
    }

    /// Adds a where-bound.
    pub fn bound(&mut self, name: &str, ty: &str) -> (r: &mut Self)
        ensures
            *r == (Function { bounds: r.bounds, ..*old(self) }),
            r.bounds@.drop_last() == old(self).bounds@,
            r.bounds@.len() == old(self).bounds@.len() + 1,
            is_simple_bound(r.bounds@.last(), name@, ty@),
            *final(self) == *final(r),
    {
        self.bounds.push(Bound::new(name, ty));
        self
    }

    /// Adds a line to the body, giving the function a body if it had none.
    pub fn line(&mut self, line: &str) -> (r: &mut Self)
        ensures
            body_extended(*old(self), *r, Body::String(r.body->0@.last()->String_0)),
            r.body->0@.last()->String_0@ == line@,
            *final(self) == *final(r),
    {
        let b = Body::String(String::from_str(line));
        self.push_body(b);
        self
    }

    /// Adds an attribute line, written between `#[` and `]`.
    pub fn attr(&mut self, attribute: &str) -> (r: &mut Self)
        ensures
            *r == (Function { attributes: r.attributes, ..*old(self) }),
            views(r.attributes@) == views(old(self).attributes@).push(attribute@),
            *final(self) == *final(r),
    {
        self.attributes.push(String::from_str(attribute));
        proof { assert(views(self.attributes@) =~= views(old(self).attributes@).push(attribute@)); }
        self
    }

    /// Makes the function `extern` with the given ABI.
    pub fn extern_abi(&mut self, abi: &str) -> (r: &mut Self)
        ensures
            *r == (Function { extern_abi: Some(r.extern_abi->0), ..*old(self) }),
            r.extern_abi->0@ == abi@,
            *final(self) == *final(r),
    {
        self.extern_abi = Some(String::from_str(abi));
        self
    }

    /// Adds a block to the body, giving the function a body if it had none.
    pub fn push_block(&mut self, block: Block) -> (r: &mut Self)
        ensures
            body_extended(*old(self), *r, Body::Block(block)),
            *final(self) == *final(r),
    {
        self.push_body(Body::Block(block));
        self
    }

    fn push_body(&mut self, b: Body)
        ensures
            body_extended(*old(self), *final(self), b),
    {
        match &mut self.body {
            Some(v) => {
                v.push(b);
            },
            None => {
                let mut v: Vec<Body> = Vec::new();
                v.push(b);
                self.body = Some(v);
            },
        }
    }

    /// Writes the parameter list between parentheses.
    fn fmt_params(&self, fmt: &mut Formatter)
        requires
            old(fmt).wf(),
        ensures
            final(fmt).wf(),
            final(fmt)@ == put_str(old(fmt)@, "("@ + opt_text(self.arg_self, ""@, ""@)
                + params_text(self.args@, self.arg_self is Some) + ")"@),
    {
        let ghost st0 = fmt@;
        let ghost lead = self.arg_self is Some;
        fmt.write("(");
        proof {
            lemma_write_after(st0, Seq::empty(), "("@);
            assert(Seq::<char>::empty() + "("@ =~= "("@);
        }
        fmt_opt(&self.arg_self, "", "", fmt);
        proof { lemma_put_str_concat(st0, "("@, opt_text(self.arg_self, ""@, ""@)); }
        let ghost pre = "("@ + opt_text(self.arg_self, ""@, ""@);
        let mut i: usize = 0;
        while i < self.args.len()
            invariant
                0 <= i <= self.args@.len(),
                lead == (self.arg_self is Some),
                fmt.wf(),
                fmt@ == put_str(st0, pre + params_text(self.args@.take(i as int), lead)),
            decreases self.args@.len() - i,
        {
            let ghost acc = pre + params_text(self.args@.take(i as int), lead);
            let sep = if i != 0 || self.arg_self.is_some() { ", " } else { "" };
            let arg = &self.args[i];
            fmt.write(sep);
            proof { lemma_write_after(st0, acc, sep@); }
            fmt.write(arg.name.as_str());
            proof { lemma_write_after(st0, acc + sep@, arg.name@); }
            fmt.write(": ");
            proof { lemma_write_after(st0, acc + sep@ + arg.name@, ": "@); }
            arg.ty.fmt(fmt);
            proof {
                lemma_put_str_concat(st0, acc + sep@ + arg.name@ + ": "@, type_text(arg.ty));
                let t = self.args@.take(i + 1);
                assert(t.drop_last() =~= self.args@.take(i as int));
                assert(t.last() == *arg);
                assert(acc + sep@ + arg.name@ + ": "@ + type_text(arg.ty)
                    =~= pre + params_text(t, lead));
            }
            i = i + 1;
        }
        proof { assert(self.args@.take(i as int) =~= self.args@); }
        fmt.write(")");
        proof { lemma_write_after(st0, pre + params_text(self.args@, lead), ")"@); }
    }

    /// Writes what precedes `fn`.
    fn fmt_qualifiers(&self, fmt: &mut Formatter)
        requires
            old(fmt).wf(),
        ensures
            final(fmt).wf(),
            final(fmt)@ == put_str(old(fmt)@, qualifiers_text(*self)),
    {
        let ghost st0 = fmt@;
        let ghost mut acc: Seq<char> = Seq::empty();
        fmt_opt_docs(&self.docs, fmt);
        proof {
            lemma_put_str_concat(st0, acc, opt_docs_text(self.docs));
            acc = acc + opt_docs_text(self.docs);
        }
        fmt_opt(&self.allow, "#[allow(", ")]\n", fmt);
        proof {
            lemma_put_str_concat(st0, acc, opt_text(self.allow, "#[allow("@, ")]\n"@));
            acc = acc + opt_text(self.allow, "#[allow("@, ")]\n"@);
        }
        fmt_wrapped_lines(&self.attributes, "#[", "]\n", fmt);
        proof {
            lemma_put_str_concat(st0, acc, wrapped_lines(views(self.attributes@), "#["@, "]\n"@));
            acc = acc + wrapped_lines(views(self.attributes@), "#["@, "]\n"@);
        }
        fmt_opt(&self.vis, "", " ", fmt);
        proof {
            lemma_put_str_concat(st0, acc, opt_text(self.vis, ""@, " "@));
            acc = acc + opt_text(self.vis, ""@, " "@);
        }
        fmt_opt(&self.extern_abi, "extern \"", "\" ", fmt);
        proof {
            lemma_put_str_concat(st0, acc, opt_text(self.extern_abi, "extern \""@, "\" "@));
            acc = acc + opt_text(self.extern_abi, "extern \""@, "\" "@);
        }
        let kw = if self.is_async { "async " } else { "" };
        fmt.write(kw);
        proof {
            lemma_write_after(st0, acc, kw@);
            acc = acc + kw@;
        }
        proof { assert(acc =~= qualifiers_text(*self)); }
    }

    /// Writes the signature, up to and including the where-clause.
    fn fmt_signature(&self, fmt: &mut Formatter)
        requires
            old(fmt).wf(),
        ensures
            final(fmt).wf(),
            final(fmt)@ == put_str(old(fmt)@, signature_text(*self)),
    {
        let ghost st0 = fmt@;
        let ghost mut acc: Seq<char> = Seq::empty();
        self.fmt_qualifiers(fmt);
        proof {
            lemma_put_str_concat(st0, acc, qualifiers_text(*self));
            acc = acc + qualifiers_text(*self);
        }
        fmt.write("fn ");
        proof {
            lemma_write_after(st0, acc, "fn "@);
            acc = acc + "fn "@;
        }
        fmt.write(self.name.as_str());
        proof {
            lemma_write_after(st0, acc, self.name@);
            acc = acc + self.name@;
        }
        fmt_generics(&self.generics, fmt);
        proof {
            lemma_put_str_concat(st0, acc, generics_text(self.generics@));
            acc = acc + generics_text(self.generics@);
        }
        self.fmt_params(fmt);
        let ghost params = "("@ + opt_text(self.arg_self, ""@, ""@)
            + params_text(self.args@, self.arg_self is Some) + ")"@;
        proof {
            lemma_put_str_concat(st0, acc, params);
            acc = acc + params;
        }
        if let Some(ret) = &self.ret {
            fmt.write(" -> ");
            proof { lemma_write_after(st0, acc, " -> "@); }
            ret.fmt(fmt);
            proof { lemma_put_str_concat(st0, acc + " -> "@, type_text(*ret)); }
        }
        proof {
            assert(acc + ret_text(self.ret) =~= match self.ret {
                Some(t) => acc + " -> "@ + type_text(t),
                None => acc,
            });
            acc = acc + ret_text(self.ret);
        }
        fmt_bounds(&self.bounds, fmt);
        proof {
            lemma_put_str_concat(st0, acc, bounds_text(self.bounds@));
            acc = acc + bounds_text(self.bounds@);
            assert(acc =~= signature_text(*self));
        }
    }

    /// Writes the function. Inside a trait (`is_trait`) it must have no
    /// visibility, and may lack a body; elsewhere it must have a body.
    pub fn fmt(&self, is_trait: bool, fmt: &mut Formatter)
        requires
            old(fmt).wf(),
            renders_in(*self, is_trait),
        ensures
            final(fmt).wf(),
            final(fmt)@ == run(old(fmt)@, function_pieces(*self)),
    {
        let ghost st0 = fmt@;
        self.fmt_signature(fmt);
        let ghost sig = text(signature_text(*self));
        proof { lemma_run_one(st0, Piece::Text(signature_text(*self))); }
        match &self.body {
            Some(body) => {
                fmt.block_start();
                fmt_bodies(body, fmt);
                fmt.block_end();
                proof {
                    lemma_run3(run(st0, sig), open_block(), bodies_pieces(body@), close_block());
                    crate::formatter::lemma_run_concat(st0, sig, braced(bodies_pieces(body@)));
                }
            },
            None => {
                fmt.write(";\n");
                proof { crate::formatter::lemma_run_concat(st0, sig, text(";\n"@)); }
            },
        }
    }
}

} // verus!
