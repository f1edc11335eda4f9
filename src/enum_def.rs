use vstd::prelude::*;
use crate::formatter::{
    Format, Formatter, Piece, run, text, views, braced, open_block, close_block, lemma_run_one,
    lemma_run_concat, lemma_run3,
};
use crate::type_def::{TypeDef, head_text, is_bare};
use crate::bound::is_simple_bound;
use crate::ty::Type;
use crate::variant::{EnumVariant, Variant};

verus! {

/// An enum declaration, generic over the kind of its variants.
pub struct Enum<V = Variant> {
    pub type_def: TypeDef,
    pub variants: Vec<V>,
}

/// The pieces of the variants, one after the other.
pub open spec fn variants_pieces<V: EnumVariant>(vs: Seq<V>) -> Seq<Piece>
    decreases vs.len(),
{
    if vs.len() == 0 {
        Seq::empty()
    } else {
        variants_pieces(vs.drop_last()) + vs.last().pieces()
    }
}

/// An enum renders its head, then its variants in a brace block.
pub open spec fn enum_pieces<V: EnumVariant>(e: Enum<V>) -> Seq<Piece> {
    text(head_text(e.type_def, "enum"@, Seq::empty())) + braced(variants_pieces(e.variants@))
}

impl<V: EnumVariant> Enum<V> {
    /// Returns an enum with the given name and no variants.
    pub fn new(name: &str) -> (r: Self)
        ensures
            is_bare(r.type_def, name@),
            r.variants@.len() == 0,
    {
        Enum { type_def: TypeDef::new(name), variants: Vec::new() }
    }

    /// The type that the enum declares.
    pub fn ty(&self) -> (r: &Type)
        ensures
            *r == self.type_def.ty,
    {
        &self.type_def.ty
    }

    /// Sets the visibility.
    pub fn vis(&mut self, vis: &str) -> (r: &mut Self)
        ensures
            r.variants == old(self).variants,
            r.type_def == (TypeDef { vis: Some(r.type_def.vis->0), ..old(self).type_def }),
            r.type_def.vis->0@ == vis@,
            *final(self) == *final(r),
    {
        self.type_def.vis(vis);
        self
    }

    /// Adds a generic parameter to the enum's name.
    pub fn generic(&mut self, name: &str) -> (r: &mut Self)
        requires
            !old(self).type_def.ty.name@.contains('<'),
        ensures
            r.variants == old(self).variants,
            r.type_def == (TypeDef { ty: r.type_def.ty, ..old(self).type_def }),
            r.type_def.ty.name == old(self).type_def.ty.name,
            r.type_def.ty.generics@.drop_last() == old(self).type_def.ty.generics@,
            r.type_def.ty.generics@.len() == old(self).type_def.ty.generics@.len() + 1,
            r.type_def.ty.generics@.last().name@ == name@,
            *final(self) == *final(r),
    {
        self.type_def.ty.generic(name);
        self
    }

    /// Adds a where-bound.
    pub fn bound(&mut self, name: &str, ty: &str) -> (r: &mut Self)
        ensures
            r.variants == old(self).variants,
            r.type_def == (TypeDef { bounds: r.type_def.bounds, ..old(self).type_def }),
            r.type_def.bounds@.drop_last() == old(self).type_def.bounds@,
            r.type_def.bounds@.len() == old(self).type_def.bounds@.len() + 1,
            is_simple_bound(r.type_def.bounds@.last(), name@, ty@),
            *final(self) == *final(r),
    {
        self.type_def.bound(name, ty);
        self
    }

    /// Sets the documentation.
    pub fn doc(&mut self, docs: &str) -> (r: &mut Self)
        ensures
            r.variants == old(self).variants,
            r.type_def == (TypeDef { docs: Some(r.type_def.docs->0), ..old(self).type_def }),
            r.type_def.docs->0.docs@ == docs@,
            *final(self) == *final(r),
    {
        self.type_def.doc(docs);
        self
    }

    /// Adds a trait to the derive list.
    pub fn derive(&mut self, name: &str) -> (r: &mut Self)
        ensures
            r.variants == old(self).variants,
            r.type_def == (TypeDef { derive: r.type_def.derive, ..old(self).type_def }),
            views(r.type_def.derive@) == views(old(self).type_def.derive@).push(name@),
            *final(self) == *final(r),
    {
        self.type_def.derive(name);
        self
    }

    /// Sets the lint to allow.
    pub fn allow(&mut self, allow: &str) -> (r: &mut Self)
        ensures
            r.variants == old(self).variants,
            r.type_def == (TypeDef { allow: Some(r.type_def.allow->0), ..old(self).type_def }),
            r.type_def.allow->0@ == allow@,
            *final(self) == *final(r),
    {
        self.type_def.allow(allow);
        self
    }

    /// Sets the representation.
    pub fn repr(&mut self, repr: &str) -> (r: &mut Self)
        ensures
            r.variants == old(self).variants,
            r.type_def == (TypeDef { repr: Some(r.type_def.repr->0), ..old(self).type_def }),
            r.type_def.repr->0@ == repr@,
            *final(self) == *final(r),
    {
        self.type_def.repr(repr);
        self
    }

    /// Adds a variant with the given name and returns it for further
    /// configuration.
    pub fn new_variant(&mut self, name: &str) -> (r: &mut V)
        ensures
            r.is_bare(name@),
            final(self).type_def == old(self).type_def,
            final(self).variants@ == old(self).variants@.push(*final(r)),
    {
        self.variants.push(V::new(name));
        let n = self.variants.len() - 1;
        &mut self.variants[n]
    }

    /// Adds a variant.
    pub fn push_variant(&mut self, item: V) -> (r: &mut Self)
        ensures
            r.type_def == old(self).type_def,
            r.variants@ == old(self).variants@.push(item),
            *final(self) == *final(r),
    {
        self.variants.push(item);
        self
    }
}

impl<V: EnumVariant> Format for Enum<V> {
    open spec fn pieces(&self) -> Seq<Piece> {
        enum_pieces(*self)
    }

    open spec fn renders(&self) -> bool {
        forall|i: int| 0 <= i < self.variants@.len() ==> (#[trigger] self.variants@[i]).renders()
    }

    fn fmt(&self, fmt: &mut Formatter) {
        let ghost st0 = fmt@;
        let no_parents: Vec<Type> = Vec::new();
        self.type_def.fmt_head("enum", &no_parents, fmt);
        let ghost head = text(head_text(self.type_def, "enum"@, Seq::empty()));
        proof {
            assert(no_parents@ =~= Seq::<Type>::empty());
            lemma_run_one(st0, Piece::Text(head_text(self.type_def, "enum"@, Seq::empty())));
        }
        fmt.block_start();
        let ghost st1 = fmt@;
        let mut i: usize = 0;
        while i < self.variants.len()
            invariant
                0 <= i <= self.variants@.len(),
                self.renders(),
                fmt.wf(),
                fmt@ == run(st1, variants_pieces(self.variants@.take(i as int))),
            decreases self.variants@.len() - i,
        {
            self.variants[i].fmt(fmt);
            proof {
                lemma_run_concat(st1, variants_pieces(self.variants@.take(i as int)), self.variants@[i as int].pieces());
                assert(self.variants@.take(i + 1).drop_last() =~= self.variants@.take(i as int));
            }
            i = i + 1;
        }
        proof { assert(self.variants@.take(i as int) =~= self.variants@); }
        fmt.block_end();
        proof {
            lemma_run_concat(st0, head, open_block());
            lemma_run3(st0 , head + open_block(), variants_pieces(self.variants@), close_block());
            assert(head + open_block() + variants_pieces(self.variants@) + close_block() =~= enum_pieces(*self));
        }
    }
}

} // verus!
