use vstd::prelude::*;
use crate::formatter::{
    Format, Formatter, Piece, run, text, views, braced, open_block, close_block, put_str,
    wrapped_lines, fmt_wrapped_lines, generics_text, fmt_generics, lemma_run_one, lemma_run_concat,
    lemma_run3, lemma_write_after, lemma_put_str_concat,
};
use crate::bound::{Bound, bounds_text, fmt_bounds, is_simple_bound};
use crate::field::{Field, is_bare_field};
use crate::ty::{Type, type_text};
use crate::function::{is_bare_fn, Function, function_pieces, renders_in};

verus! {

/// An `impl` block, inherent or of a trait.
pub struct Impl {
    /// The type being implemented.
    pub target: Type,
    /// Generics of the block itself (`impl<T>`).
    pub generics: Vec<String>,
    /// The trait implemented, if any.
    pub impl_trait: Option<Type>,
    /// Associated type definitions.
    pub assoc_tys: Vec<Field>,
    pub bounds: Vec<Bound>,
    pub fns: Vec<Function>,
    /// Macro attribute lines, such as `#[async_trait]`.
    pub macros: Vec<String>,
}

/// ` Trait for` when a trait is implemented, else nothing.
pub open spec fn impl_trait_text(t: Option<Type>) -> Seq<char> {
    match t {
        Some(t) => " "@ + type_text(t) + " for"@,
        None => Seq::empty(),
    }
}

/// The head: macro lines, `impl`, generics, the trait, the target and the
/// where-clause.
pub open spec fn impl_head_text(i: Impl) -> Seq<char> {
    wrapped_lines(views(i.macros@), ""@, "\n"@) + "impl"@ + generics_text(i.generics@)
        + impl_trait_text(i.impl_trait) + " "@ + type_text(i.target) + bounds_text(i.bounds@)
}

/// `type Name = Type;`
pub open spec fn assoc_def_text(a: Field) -> Seq<char> {
    "type "@ + a.name@ + " = "@ + type_text(a.ty) + ";\n"@
}

/// The associated type definitions, one per line.
pub open spec fn assoc_defs_text(s: Seq<Field>) -> Seq<char>
    decreases s.len(),
{
    if s.len() == 0 {
        Seq::empty()
    } else {
        assoc_defs_text(s.drop_last()) + assoc_def_text(s.last())
    }
}

/// The functions, separated by blank lines; `lead` tells whether something
/// comes before the first, which is then separated from it too.
pub open spec fn impl_fns_pieces(fs: Seq<Function>, lead: bool) -> Seq<Piece>
    decreases fs.len(),
{
    if fs.len() == 0 {
        Seq::empty()
    } else {
        impl_fns_pieces(fs.drop_last(), lead) + (if fs.len() > 1 || lead { text("\n"@) } else { Seq::empty() })
            + function_pieces(fs.last())
    }
}

/// An impl block renders its head, then a brace block with its associated
/// types and its functions.
pub open spec fn impl_pieces(i: Impl) -> Seq<Piece> {
    text(impl_head_text(i)) + braced(
        text(assoc_defs_text(i.assoc_tys@)) + impl_fns_pieces(i.fns@, i.assoc_tys@.len() > 0),
    )
}

/// An inherent impl block for the type named `target`, with no members,
/// generics, bounds or macros.
pub open spec fn is_bare_impl(i: Impl, target: Seq<char>) -> bool {
    &&& i.target.name@ == target
    &&& i.target.generics@.len() == 0
    &&& i.generics@.len() == 0
    &&& i.impl_trait is None
    &&& i.assoc_tys@.len() == 0
    &&& i.bounds@.len() == 0
    &&& i.fns@.len() == 0
    &&& i.macros@.len() == 0
}

impl Impl {
    /// Returns an inherent impl block for the named type, with no members.
    pub fn new(target: &str) -> (r: Impl)
        ensures
            is_bare_impl(r, target@),
    {
        Impl {
            target: Type::new(target),
            generics: Vec::new(),
            impl_trait: None,
            assoc_tys: Vec::new(),
            bounds: Vec::new(),
            fns: Vec::new(),
            macros: Vec::new(),
        }
    }

    /// Adds a generic parameter to the block (`impl<T>`), not to the target.
    pub fn generic(&mut self, name: &str) -> (r: &mut Self)
        ensures
            *r == (Impl { generics: r.generics, ..*old(self) }),
            views(r.generics@) == views(old(self).generics@).push(name@),
            *final(self) == *final(r),
    {
        self.generics.push(String::from_str(name));
        proof { assert(views(self.generics@) =~= views(old(self).generics@).push(name@)); }
        self
    }

    /// Adds a generic argument to the target type.
    pub fn target_generic(&mut self, ty: &str) -> (r: &mut Self)
        requires
            !old(self).target.name@.contains('<'),
        ensures
            *r == (Impl { target: r.target, ..*old(self) }),
            r.target.name == old(self).target.name,
            r.target.generics@.drop_last() == old(self).target.generics@,
            r.target.generics@.len() == old(self).target.generics@.len() + 1,
            r.target.generics@.last().name@ == ty@,
            *final(self) == *final(r),
    {
        self.target.generic(ty);
        self
    }

    /// Sets the trait that the block implements.
    pub fn impl_trait(&mut self, ty: &str) -> (r: &mut Self)
        ensures
            *r == (Impl { impl_trait: Some(r.impl_trait->0), ..*old(self) }),
            r.impl_trait->0.name@ == ty@,
            r.impl_trait->0.generics@.len() == 0,
            *final(self) == *final(r),
    {
        self.impl_trait = Some(Type::new(ty));
        self
    }

    /// Adds a macro attribute line, such as `#[async_trait]`.
    pub fn add_macro(&mut self, m: &str) -> (r: &mut Self)
        ensures
            *r == (Impl { macros: r.macros, ..*old(self) }),
            views(r.macros@) == views(old(self).macros@).push(m@),
            *final(self) == *final(r),
    {
        self.macros.push(String::from_str(m));
        proof { assert(views(self.macros@) =~= views(old(self).macros@).push(m@)); }
        self
    }

    /// Defines an associated type.
    pub fn associate_type(&mut self, name: &str, ty: &str) -> (r: &mut Self)
        ensures
            *r == (Impl { assoc_tys: r.assoc_tys, ..*old(self) }),
            r.assoc_tys@.drop_last() == old(self).assoc_tys@,
            r.assoc_tys@.len() == old(self).assoc_tys@.len() + 1,
            is_bare_field(r.assoc_tys@.last(), name@, ty@),
            *final(self) == *final(r),
    {
        self.assoc_tys.push(Field::new(name, ty));
        self
    }

    /// Adds a where-bound.
    pub fn bound(&mut self, name: &str, ty: &str) -> (r: &mut Self)
        ensures
            *r == (Impl { bounds: r.bounds, ..*old(self) }),
            r.bounds@.drop_last() == old(self).bounds@,
            r.bounds@.len() == old(self).bounds@.len() + 1,
            is_simple_bound(r.bounds@.last(), name@, ty@),
            *final(self) == *final(r),
    {
        self.bounds.push(Bound::new(name, ty));
        self
    }

    /// Adds a function with an empty body and returns it for further
    /// configuration.
    pub fn new_fn(&mut self, name: &str) -> (r: &mut Function)
        ensures
            is_bare_fn(*r, name@, Some(Seq::empty())),
            *final(self) == (Impl { fns: final(self).fns, ..*old(self) }),
            final(self).fns@ == old(self).fns@.push(*final(r)),
    {
        self.fns.push(Function::new(name));
        let n = self.fns.len() - 1;
        &mut self.fns[n]
    }

    /// Adds a function.
    pub fn push_fn(&mut self, item: Function) -> (r: &mut Self)
        ensures
            *r == (Impl { fns: r.fns, ..*old(self) }),
            r.fns@ == old(self).fns@.push(item),
            *final(self) == *final(r),
    {
        self.fns.push(item);
        self
    }

    fn fmt_head(&self, fmt: &mut Formatter)
        requires
            old(fmt).wf(),
        ensures
            final(fmt).wf(),
            final(fmt)@ == put_str(old(fmt)@, impl_head_text(*self)),
    {
        let ghost st0 = fmt@;
        let ghost mut acc: Seq<char> = Seq::empty();
        fmt_wrapped_lines(&self.macros, "", "\n", fmt);
        proof {
            lemma_put_str_concat(st0, acc, wrapped_lines(views(self.macros@), ""@, "\n"@));
            acc = acc + wrapped_lines(views(self.macros@), ""@, "\n"@);
        }
        fmt.write("impl");
        proof {
            lemma_write_after(st0, acc, "impl"@);
            acc = acc + "impl"@;
        }
        fmt_generics(&self.generics, fmt);
        proof {
            lemma_put_str_concat(st0, acc, generics_text(self.generics@));
            acc = acc + generics_text(self.generics@);
        }
        if let Some(t) = &self.impl_trait {
            fmt.write(" ");
            proof { lemma_write_after(st0, acc, " "@); }
            t.fmt(fmt);
            proof { lemma_put_str_concat(st0, acc + " "@, type_text(*t)); }
            fmt.write(" for");
            proof { lemma_write_after(st0, acc + " "@ + type_text(*t), " for"@); }
        }
        proof {
            assert(acc + impl_trait_text(self.impl_trait) =~= match self.impl_trait {
                Some(t) => acc + " "@ + type_text(t) + " for"@,
                None => acc,
            });
            acc = acc + impl_trait_text(self.impl_trait);
        }
        fmt.write(" ");
        proof {
            lemma_write_after(st0, acc, " "@);
            acc = acc + " "@;
        }
        self.target.fmt(fmt);
        proof {
            lemma_put_str_concat(st0, acc, type_text(self.target));
            acc = acc + type_text(self.target);
        }
        fmt_bounds(&self.bounds, fmt);
        proof {
            lemma_put_str_concat(st0, acc, bounds_text(self.bounds@));
            acc = acc + bounds_text(self.bounds@);
            assert(acc =~= impl_head_text(*self));
        }
    }

    /// Writes the associated type definitions.
    fn fmt_assoc(&self, fmt: &mut Formatter)
        requires
            old(fmt).wf(),
        ensures
            final(fmt).wf(),
            final(fmt)@ == put_str(old(fmt)@, assoc_defs_text(self.assoc_tys@)),
    {
        let ghost st0 = fmt@;
        let ghost s = self.assoc_tys@;
        let mut i: usize = 0;
        while i < self.assoc_tys.len()
            invariant
                0 <= i <= s.len(),
                s == self.assoc_tys@,
                fmt.wf(),
                fmt@ == put_str(st0, assoc_defs_text(s.take(i as int))),
            decreases s.len() - i,
        {
            let ghost acc = assoc_defs_text(s.take(i as int));
            let a = &self.assoc_tys[i];
            fmt.write("type ");
            proof { lemma_write_after(st0, acc, "type "@); }
            fmt.write(a.name.as_str());
            proof { lemma_write_after(st0, acc + "type "@, a.name@); }
            fmt.write(" = ");
            proof { lemma_write_after(st0, acc + "type "@ + a.name@, " = "@); }
            a.ty.fmt(fmt);
            proof { lemma_put_str_concat(st0, acc + "type "@ + a.name@ + " = "@, type_text(a.ty)); }
            fmt.write(";\n");
            proof {
                lemma_write_after(st0, acc + "type "@ + a.name@ + " = "@ + type_text(a.ty), ";\n"@);
                let t = s.take(i + 1);
                assert(t.drop_last() =~= s.take(i as int));
                assert(t.last() == *a);
                assert(acc + "type "@ + a.name@ + " = "@ + type_text(a.ty) + ";\n"@ =~= assoc_defs_text(t));
            }
            i = i + 1;
        }
        proof { assert(s.take(i as int) =~= s); }
    }
}

impl Format for Impl {
    open spec fn pieces(&self) -> Seq<Piece> {
        impl_pieces(*self)
    }

    /// Every function of the block has a body.
    open spec fn renders(&self) -> bool {
        forall|i: int| 0 <= i < self.fns@.len() ==> renders_in(#[trigger] self.fns@[i], false)
    }

    fn fmt(&self, fmt: &mut Formatter) {
        let ghost st0 = fmt@;
        self.fmt_head(fmt);
        let ghost head = text(impl_head_text(*self));
        proof { lemma_run_one(st0, Piece::Text(impl_head_text(*self))); }
        fmt.block_start();
        proof { lemma_run_concat(st0, head, open_block()); }
        let ghost st1 = fmt@;
        self.fmt_assoc(fmt);
        let ghost first = text(assoc_defs_text(self.assoc_tys@));
        proof { lemma_run_one(st1, Piece::Text(assoc_defs_text(self.assoc_tys@))); }
        let ghost st2 = fmt@;
        let ghost lead = self.assoc_tys@.len() > 0;
        let mut i: usize = 0;
        while i < self.fns.len()
            invariant
                0 <= i <= self.fns@.len(),
                self.renders(),
                lead == (self.assoc_tys@.len() > 0),
                fmt.wf(),
                fmt@ == run(st2, impl_fns_pieces(self.fns@.take(i as int), lead)),
            decreases self.fns@.len() - i,
        {
            let ghost acc = impl_fns_pieces(self.fns@.take(i as int), lead);
            if i != 0 || self.assoc_tys.len() > 0 {
                fmt.write("\n");
                proof { lemma_run_concat(st2, acc, text("\n"@)); }
            } else {
                proof { assert(acc + Seq::<Piece>::empty() =~= acc); }
            }
            let ghost sep: Seq<Piece> = if i != 0 || lead { text("\n"@) } else { Seq::empty() };
            assert(renders_in(self.fns@[i as int], false));
            self.fns[i].fmt(false, fmt);
            proof {
                lemma_run_concat(st2, acc + sep, function_pieces(self.fns@[i as int]));
                let t = self.fns@.take(i + 1);
                assert(t.drop_last() =~= self.fns@.take(i as int));
            }
            i = i + 1;
        }
        proof { assert(self.fns@.take(i as int) =~= self.fns@); }
        fmt.block_end();
        proof {
            let body = impl_fns_pieces(self.fns@, lead);
            lemma_run3(run(st0, head + open_block()), first, body, close_block());
            lemma_run_concat(st0, head + open_block(), first + body + close_block());
            assert(head + open_block() + (first + body + close_block()) =~= impl_pieces(*self));
        }
    }
}

} // verus!
