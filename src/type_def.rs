use vstd::prelude::*;
use crate::formatter::{
    Formatter, put_str, lemma_write_after, lemma_put_str_concat, opt_text, fmt_opt, list_text,
    fmt_list, wrapped_lines, fmt_wrapped_lines, views,
};
use crate::ty::{Type, type_text, types_text, fmt_types};
use crate::bound::{Bound, bounds_text, fmt_bounds, is_simple_bound};
use crate::docs::{Docs, docs_text};

verus! {

/// What struct, enum and trait declarations have in common: the name with
/// its generics, and the lines and words that come before the keyword.
pub struct TypeDef {
    pub ty: Type,
    pub vis: Option<String>,
    pub docs: Option<Docs>,
    pub derive: Vec<String>,
    pub allow: Option<String>,
    pub repr: Option<String>,
    pub bounds: Vec<Bound>,
    pub macros: Vec<String>,
}

/// Outer documentation, if there is any.
pub open spec fn opt_docs_text(d: Option<Docs>) -> Seq<char> {
    match d {
        Some(d) => docs_text(d, false),
        None => Seq::empty(),
    }
}

/// The supertraits after a colon, joined by ` + `, or nothing.
pub open spec fn parents_text(ps: Seq<Type>) -> Seq<char> {
    if ps.len() == 0 {
        Seq::empty()
    } else {
        ": "@ + types_text(ps, " + "@)
    }
}

/// The attribute lines that precede a declaration, in their fixed order:
/// documentation, lint allowance, derive list, representation, macros.
pub open spec fn attrs_text(td: TypeDef) -> Seq<char> {
    opt_docs_text(td.docs)
        + opt_text(td.allow, "#[allow("@, ")]\n"@)
        + list_text(td.derive@, "#[derive("@, ", "@, ")]\n"@)
        + opt_text(td.repr, "#[repr("@, ")]\n"@)
        + wrapped_lines(views(td.macros@), ""@, "\n"@)
}

/// The head of a declaration: its attribute lines, visibility, keyword,
/// name with generics, supertraits and where-clause.
pub open spec fn head_text(td: TypeDef, keyword: Seq<char>, parents: Seq<Type>) -> Seq<char> {
    attrs_text(td)
        + opt_text(td.vis, ""@, " "@)
        + keyword + " "@
        + type_text(td.ty)
        + parents_text(parents)
        + bounds_text(td.bounds@)
}

/// Writes the documentation, if there is any.
pub fn fmt_opt_docs(d: &Option<Docs>, fmt: &mut Formatter)
    requires
        old(fmt).wf(),
    ensures
        final(fmt).wf(),
        final(fmt)@ == put_str(old(fmt)@, opt_docs_text(*d)),
{
    if let Some(docs) = d {
        docs.fmt(fmt, false);
    }
}

/// The declaration of a type named `name`, without generics, attributes,
/// visibility or bounds.
pub open spec fn is_bare(td: TypeDef, name: Seq<char>) -> bool {
    &&& td.ty.name@ == name
    &&& td.ty.generics@.len() == 0
    &&& td.vis is None
    &&& td.docs is None
    &&& td.derive@.len() == 0
    &&& td.allow is None
    &&& td.repr is None
    &&& td.bounds@.len() == 0
    &&& td.macros@.len() == 0
}

impl TypeDef {
    /// Returns the declaration of a type with the given name and nothing else.
    pub fn new(name: &str) -> (r: TypeDef)
        ensures
            is_bare(r, name@),
    {
        TypeDef {
            ty: Type::new(name),
            vis: None,
            docs: None,
            derive: Vec::new(),
            allow: None,
            repr: None,
            bounds: Vec::new(),
            macros: Vec::new(),
        }
    }

    /// Sets the visibility.
    pub fn vis(&mut self, vis: &str)
        ensures
            *final(self) == (TypeDef { vis: Some(final(self).vis->0), ..*old(self) }),
            final(self).vis->0@ == vis@,
    {
        self.vis = Some(String::from_str(vis));
    }

    /// Adds a where-bound of `name` by `ty`.
    pub fn bound(&mut self, name: &str, ty: &str)
        ensures
            *final(self) == (TypeDef { bounds: final(self).bounds, ..*old(self) }),
            final(self).bounds@.drop_last() == old(self).bounds@,
            final(self).bounds@.len() == old(self).bounds@.len() + 1,
            is_simple_bound(final(self).bounds@.last(), name@, ty@),
    {
        self.bounds.push(Bound::new(name, ty));
    }

    /// Adds a macro attribute line, such as `#[async_trait]`.
    pub fn add_macro(&mut self, m: &str)
        ensures
            *final(self) == (TypeDef { macros: final(self).macros, ..*old(self) }),
            views(final(self).macros@) == views(old(self).macros@).push(m@),
    {
        self.macros.push(String::from_str(m));
        proof { assert(views(self.macros@) =~= views(old(self).macros@).push(m@)); }
    }

    /// Sets the documentation.
    pub fn doc(&mut self, docs: &str)
        ensures
            *final(self) == (TypeDef { docs: Some(final(self).docs->0), ..*old(self) }),
            final(self).docs->0.docs@ == docs@,
    {
        self.docs = Some(Docs::new(docs));
    }

    /// Adds a trait to the derive list.
    pub fn derive(&mut self, name: &str)
        ensures
            *final(self) == (TypeDef { derive: final(self).derive, ..*old(self) }),
            views(final(self).derive@) == views(old(self).derive@).push(name@),
    {
        self.derive.push(String::from_str(name));
        proof { assert(views(self.derive@) =~= views(old(self).derive@).push(name@)); }
    }

    /// Sets the lint to allow.
    pub fn allow(&mut self, allow: &str)
        ensures
            *final(self) == (TypeDef { allow: Some(final(self).allow->0), ..*old(self) }),
            final(self).allow->0@ == allow@,
    {
        self.allow = Some(String::from_str(allow));
    }

    /// Sets the representation.
    pub fn repr(&mut self, repr: &str)
        ensures
            *final(self) == (TypeDef { repr: Some(final(self).repr->0), ..*old(self) }),
            final(self).repr->0@ == repr@,
    {
        self.repr = Some(String::from_str(repr));
    }

    /// Writes the head of the declaration, up to and including the
    /// where-clause.
    pub fn fmt_head(&self, keyword: &str, parents: &Vec<Type>, fmt: &mut Formatter)
        requires
            old(fmt).wf(),
        ensures
            final(fmt).wf(),
            final(fmt)@ == put_str(old(fmt)@, head_text(*self, keyword@, parents@)),
    {
        let ghost st0 = fmt@;
        let ghost mut acc: Seq<char> = Seq::empty();
        fmt_opt_docs(&self.docs, fmt);
        proof {
            lemma_put_str_concat(st0, acc, opt_docs_text(self.docs));
            acc = acc + opt_docs_text(self.docs);
        }
        fmt_opt(&self.allow, "#[allow(", ")]\n", fmt);
        proof {
            lemma_put_str_concat(st0, acc, opt_text(self.allow, "#[allow("@, ")]\n"@));
            acc = acc + opt_text(self.allow, "#[allow("@, ")]\n"@);
        }
        fmt_list(&self.derive, "#[derive(", ", ", ")]\n", fmt);
        proof {
            lemma_put_str_concat(st0, acc, list_text(self.derive@, "#[derive("@, ", "@, ")]\n"@));
            acc = acc + list_text(self.derive@, "#[derive("@, ", "@, ")]\n"@);
        }
        fmt_opt(&self.repr, "#[repr(", ")]\n", fmt);
        proof {
            lemma_put_str_concat(st0, acc, opt_text(self.repr, "#[repr("@, ")]\n"@));
            acc = acc + opt_text(self.repr, "#[repr("@, ")]\n"@);
        }
        fmt_wrapped_lines(&self.macros, "", "\n", fmt);
        proof {
            lemma_put_str_concat(st0, acc, wrapped_lines(views(self.macros@), ""@, "\n"@));
            acc = acc + wrapped_lines(views(self.macros@), ""@, "\n"@);
        }
        fmt_opt(&self.vis, "", " ", fmt);
        proof {
            lemma_put_str_concat(st0, acc, opt_text(self.vis, ""@, " "@));
            acc = acc + opt_text(self.vis, ""@, " "@);
        }
        fmt.write(keyword);
        proof {
            lemma_write_after(st0, acc, keyword@);
            acc = acc + keyword@;
        }
        fmt.write(" ");
        proof {
            lemma_write_after(st0, acc, " "@);
            acc = acc + " "@;
        }
        self.ty.fmt(fmt);
        proof {
            lemma_put_str_concat(st0, acc, type_text(self.ty));
            acc = acc + type_text(self.ty);
        }
        if parents.len() > 0 {
            fmt.write(": ");
            proof { lemma_write_after(st0, acc, ": "@); }
            fmt_types(parents, " + ", fmt);
            proof { lemma_put_str_concat(st0, acc + ": "@, types_text(parents@, " + "@)); }
        }
        proof {
            assert(acc + parents_text(parents@) =~= if parents@.len() == 0 { acc } else {
                acc + ": "@ + types_text(parents@, " + "@)
            });
            acc = acc + parents_text(parents@);
        }
        fmt_bounds(&self.bounds, fmt);
        proof {
            lemma_put_str_concat(st0, acc, bounds_text(self.bounds@));
            acc = acc + bounds_text(self.bounds@);
            assert(acc =~= head_text(*self, keyword@, parents@));
        }
    }
}

} // verus!
