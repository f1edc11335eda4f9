use vstd::prelude::*;
use crate::formatter::{
    Format, Formatter, Piece, run, text, braced, open_block, close_block, put_str, lemma_run_one,
    lemma_run_concat, lemma_run3, lemma_write_after, lemma_put_str_concat,
};
use crate::type_def::{TypeDef, head_text, is_bare};
use crate::bound::{Bound, bound_rhs_text, fmt_bound_rhs, is_simple_bound, AssociatedType};
use crate::ty::Type;
use crate::function::{is_bare_fn, Function, function_pieces, renders_in};

verus! {

/// A trait declaration.
pub struct Trait {
    pub type_def: TypeDef,
    /// Supertraits.
    pub parents: Vec<Type>,
    pub associated_tys: Vec<AssociatedType>,
    pub fns: Vec<Function>,
}

/// `type Name;`, or `type Name: A + B;` when it is bounded.
pub open spec fn assoc_decl_text(a: AssociatedType) -> Seq<char> {
    "type "@ + a.0.name@ + (if a.0.bound@.len() == 0 { Seq::empty() } else { ": "@ + bound_rhs_text(a.0.bound@) })
        + ";\n"@
}

/// The associated type declarations, one per line.
pub open spec fn assoc_decls_text(s: Seq<AssociatedType>) -> Seq<char>
    decreases s.len(),
{
    if s.len() == 0 {
        Seq::empty()
    } else {
        assoc_decls_text(s.drop_last()) + assoc_decl_text(s.last())
    }
}

/// The functions of a trait, separated by blank lines.
pub open spec fn trait_fns_pieces(fs: Seq<Function>) -> Seq<Piece>
    decreases fs.len(),
{
    if fs.len() == 0 {
        Seq::empty()
    } else {
        trait_fns_pieces(fs.drop_last()) + (if fs.len() > 1 { text("\n"@) } else { Seq::empty() })
            + function_pieces(fs.last())
    }
}

/// A trait renders its head with its supertraits, then a brace block with
/// its associated types, a blank line when both kinds of member are there,
/// and its functions.
pub open spec fn trait_pieces(t: Trait) -> Seq<Piece> {
    text(head_text(t.type_def, "trait"@, t.parents@)) + braced(
        text(assoc_decls_text(t.associated_tys@)
            + (if t.associated_tys@.len() > 0 && t.fns@.len() > 0 { "\n"@ } else { ""@ }))
            + trait_fns_pieces(t.fns@),
    )
}

/// No function of the trait has a visibility.
pub open spec fn trait_renders(t: Trait) -> bool {
    forall|i: int| 0 <= i < t.fns@.len() ==> renders_in(#[trigger] t.fns@[i], true)
}

impl Trait {
    /// Returns a trait with the given name and no members.
    pub fn new(name: &str) -> (r: Trait)
        ensures
            is_bare(r.type_def, name@),
            r.parents@.len() == 0,
            r.associated_tys@.len() == 0,
            r.fns@.len() == 0,
    {
        Trait { type_def: TypeDef::new(name), parents: Vec::new(), associated_tys: Vec::new(), fns: Vec::new() }
    }

    /// The type that the trait declares.
    pub fn ty(&self) -> (r: &Type)
        ensures
            *r == self.type_def.ty,
    {
        &self.type_def.ty
    }

    /// Sets the visibility.
    pub fn vis(&mut self, vis: &str) -> (r: &mut Self)
        ensures
            *r == (Trait { type_def: r.type_def, ..*old(self) }),
            r.type_def == (TypeDef { vis: Some(r.type_def.vis->0), ..old(self).type_def }),
            r.type_def.vis->0@ == vis@,
            *final(self) == *final(r),
    {
        self.type_def.vis(vis);
        self
    }

    /// Adds a generic parameter to the trait's name.
    pub fn generic(&mut self, name: &str) -> (r: &mut Self)
        requires
            !old(self).type_def.ty.name@.contains('<'),
        ensures
            *r == (Trait { type_def: r.type_def, ..*old(self) }),
            r.type_def == (TypeDef { ty: r.type_def.ty, ..old(self).type_def }),
            r.type_def.ty.name == old(self).type_def.ty.name,
            r.type_def.ty.generics@.drop_last() == old(self).type_def.ty.generics@,
            r.type_def.ty.generics@.len() == old(self).type_def.ty.generics@.len() + 1,
            r.type_def.ty.generics@.last().name@ == name@,
            *final(self) == *final(r),
    {
        self.type_def.ty.generic(name);
        self
    }

    /// Adds a where-bound.
    pub fn bound(&mut self, name: &str, ty: &str) -> (r: &mut Self)
        ensures
            *r == (Trait { type_def: r.type_def, ..*old(self) }),
            r.type_def == (TypeDef { bounds: r.type_def.bounds, ..old(self).type_def }),
            r.type_def.bounds@.drop_last() == old(self).type_def.bounds@,
            r.type_def.bounds@.len() == old(self).type_def.bounds@.len() + 1,
            is_simple_bound(r.type_def.bounds@.last(), name@, ty@),
            *final(self) == *final(r),
    {
        self.type_def.bound(name, ty);
        self
    }

    /// Adds a macro attribute line, such as `#[async_trait]`.
    pub fn add_macro(&mut self, m: &str) -> (r: &mut Self)
        ensures
            *r == (Trait { type_def: r.type_def, ..*old(self) }),
            r.type_def == (TypeDef { macros: r.type_def.macros, ..old(self).type_def }),
            crate::formatter::views(r.type_def.macros@) == crate::formatter::views(old(self).type_def.macros@).push(m@),
            *final(self) == *final(r),
    {
        self.type_def.add_macro(m);
        self
    }

    /// Adds a supertrait.
    pub fn parent(&mut self, ty: &str) -> (r: &mut Self)
        ensures
            *r == (Trait { parents: r.parents, ..*old(self) }),
            r.parents@.drop_last() == old(self).parents@,
            r.parents@.len() == old(self).parents@.len() + 1,
            r.parents@.last().name@ == ty@,
            r.parents@.last().generics@.len() == 0,
            *final(self) == *final(r),
    {
        self.parents.push(Type::new(ty));
        self
    }

    /// Sets the documentation.
    pub fn doc(&mut self, docs: &str) -> (r: &mut Self)
        ensures
            *r == (Trait { type_def: r.type_def, ..*old(self) }),
            r.type_def == (TypeDef { docs: Some(r.type_def.docs->0), ..old(self).type_def }),
            r.type_def.docs->0.docs@ == docs@,
            *final(self) == *final(r),
    {
        self.type_def.doc(docs);
        self
    }

    /// Adds an associated type and returns it for further configuration.
    pub fn associated_type(&mut self, name: &str) -> (r: &mut AssociatedType)
        ensures
            r.0.name@ == name@,
            r.0.bound@.len() == 0,
            *final(self) == (Trait { associated_tys: final(self).associated_tys, ..*old(self) }),
            final(self).associated_tys@ == old(self).associated_tys@.push(*final(r)),
    {
        self.associated_tys.push(AssociatedType(Bound { name: String::from_str(name), bound: Vec::new() }));
        let n = self.associated_tys.len() - 1;
        &mut self.associated_tys[n]
    }

    /// Adds a function declaration, without a body, and returns it for
    /// further configuration.
    pub fn new_fn(&mut self, name: &str) -> (r: &mut Function)
        ensures
            is_bare_fn(*r, name@, None),
            *final(self) == (Trait { fns: final(self).fns, ..*old(self) }),
            final(self).fns@ == old(self).fns@.push(*final(r)),
    {
        let mut func = Function::new(name);
        func.body = None;
        self.fns.push(func);
        let n = self.fns.len() - 1;
        &mut self.fns[n]
    }

    /// Adds a function.
    pub fn push_fn(&mut self, item: Function) -> (r: &mut Self)
        ensures
            *r == (Trait { fns: r.fns, ..*old(self) }),
            r.fns@ == old(self).fns@.push(item),
            *final(self) == *final(r),
    {
        self.fns.push(item);
        self
    }

    /// Writes the associated type declarations.
    fn fmt_assoc(&self, fmt: &mut Formatter)
        requires
            old(fmt).wf(),
        ensures
            final(fmt).wf(),
            final(fmt)@ == put_str(old(fmt)@, assoc_decls_text(self.associated_tys@)),
    {
        let ghost st0 = fmt@;
        let ghost s = self.associated_tys@;
        let mut i: usize = 0;
        while i < self.associated_tys.len()
            invariant
                0 <= i <= s.len(),
                s == self.associated_tys@,
                fmt.wf(),
                fmt@ == put_str(st0, assoc_decls_text(s.take(i as int))),
            decreases s.len() - i,
        {
            let ghost acc = assoc_decls_text(s.take(i as int));
            let a = &self.associated_tys[i];
            fmt.write("type ");
            proof { lemma_write_after(st0, acc, "type "@); }
            fmt.write(a.0.name.as_str());
            proof { lemma_write_after(st0, acc + "type "@, a.0.name@); }
            let ghost mid = acc + "type "@ + a.0.name@;
            if a.0.bound.len() > 0 {
                fmt.write(": ");
                proof { lemma_write_after(st0, mid, ": "@); }
                fmt_bound_rhs(&a.0.bound, fmt);
                proof { lemma_put_str_concat(st0, mid + ": "@, bound_rhs_text(a.0.bound@)); }
            }
            let ghost b = if a.0.bound@.len() == 0 { Seq::<char>::empty() } else { ": "@ + bound_rhs_text(a.0.bound@) };
            proof {
                assert(mid + b =~= if a.0.bound@.len() == 0 { mid } else { mid + ": "@ + bound_rhs_text(a.0.bound@) });
            }
            fmt.write(";\n");
            proof {
                lemma_write_after(st0, mid + b, ";\n"@);
                let t = s.take(i + 1);
                assert(t.drop_last() =~= s.take(i as int));
                assert(t.last() == *a);
                assert(mid + b + ";\n"@ =~= assoc_decls_text(t));
            }
            i = i + 1;
        }
        proof { assert(s.take(i as int) =~= s); }
    }
}

impl Format for Trait {
    open spec fn pieces(&self) -> Seq<Piece> {
        trait_pieces(*self)
    }

    open spec fn renders(&self) -> bool {
        trait_renders(*self)
    }

    fn fmt(&self, fmt: &mut Formatter) {
        let ghost st0 = fmt@;
        self.type_def.fmt_head("trait", &self.parents, fmt);
        let ghost head = text(head_text(self.type_def, "trait"@, self.parents@));
        proof { lemma_run_one(st0, Piece::Text(head_text(self.type_def, "trait"@, self.parents@))); }
        fmt.block_start();
        proof { lemma_run_concat(st0, head, open_block()); }
        let ghost st1 = fmt@;
        self.fmt_assoc(fmt);
        let sep = if self.associated_tys.len() > 0 && self.fns.len() > 0 { "\n" } else { "" };
        fmt.write(sep);
        let ghost first = assoc_decls_text(self.associated_tys@) + sep@;
        proof {
            lemma_write_after(st1, assoc_decls_text(self.associated_tys@), sep@);
            lemma_run_one(st1, Piece::Text(first));
        }
        let ghost st2 = fmt@;
        let mut i: usize = 0;
        while i < self.fns.len()
            invariant
                0 <= i <= self.fns@.len(),
                trait_renders(*self),
                fmt.wf(),
                fmt@ == run(st2, trait_fns_pieces(self.fns@.take(i as int))),
            decreases self.fns@.len() - i,
        {
            let ghost acc = trait_fns_pieces(self.fns@.take(i as int));
            if i != 0 {
                fmt.write("\n");
                proof { lemma_run_concat(st2, acc, text("\n"@)); }
            } else {
                proof { assert(acc + Seq::<Piece>::empty() =~= acc); }
            }
            let ghost sep: Seq<Piece> = if i != 0 { text("\n"@) } else { Seq::empty() };
            assert(renders_in(self.fns@[i as int], true));
            self.fns[i].fmt(true, fmt);
            proof {
                lemma_run_concat(st2, acc + sep, function_pieces(self.fns@[i as int]));
                let t = self.fns@.take(i + 1);
                assert(t.drop_last() =~= self.fns@.take(i as int));
            }
            i = i + 1;
        }
        proof { assert(self.fns@.take(i as int) =~= self.fns@); }
        fmt.block_end();
        proof {
            lemma_run3(run(st0, head + open_block()), text(first), trait_fns_pieces(self.fns@), close_block());
            lemma_run_concat(st0, head + open_block(), text(first) + trait_fns_pieces(self.fns@) + close_block());
            assert(head + open_block() + (text(first) + trait_fns_pieces(self.fns@) + close_block())
                =~= trait_pieces(*self));
        }
    }
}

} // verus!
