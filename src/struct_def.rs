use vstd::prelude::*;
use crate::formatter::{
    Format, Formatter, Piece, run, text, views, lemma_run_one, lemma_run_concat, lemma_run3,
};
use crate::type_def::{TypeDef, head_text, is_bare};
use crate::fields::{Fields, fields_pieces, named_fields, tuple_fields};
use crate::field::{Field, is_bare_field};
use crate::bound::is_simple_bound;
use crate::ty::Type;

verus! {

/// A struct declaration.
pub struct Struct {
    pub type_def: TypeDef,
    pub fields: Fields,
}

/// A struct renders its head, then its body; a body that is not a brace
/// block is closed by `;`.
pub open spec fn struct_pieces(s: Struct) -> Seq<Piece> {
    text(head_text(s.type_def, "struct"@, Seq::empty())) + fields_pieces(s.fields) + (
    if s.fields is Named {
        Seq::empty()
    } else {
        text(";\n"@)
    })
}

impl Struct {
    /// Returns a struct with the given name, no fields and no attributes.
    pub fn new(name: &str) -> (r: Struct)
        ensures
            is_bare(r.type_def, name@),
            r.fields is Empty,
    {
        Struct { type_def: TypeDef::new(name), fields: Fields::Empty }
    }

    /// The type that the struct declares.
    pub fn ty(&self) -> (r: &Type)
        ensures
            *r == self.type_def.ty,
    {
        &self.type_def.ty
    }

    /// Sets the visibility.
    pub fn vis(&mut self, vis: &str) -> (r: &mut Self)
        ensures
            r.fields == old(self).fields,
            r.type_def == (TypeDef { vis: Some(r.type_def.vis->0), ..old(self).type_def }),
            r.type_def.vis->0@ == vis@,
            *final(self) == *final(r),
    {
        self.type_def.vis(vis);
        self
    }

    /// Adds a generic parameter to the struct's name.
    pub fn generic(&mut self, name: &str) -> (r: &mut Self)
        requires
            !old(self).type_def.ty.name@.contains('<'),
        ensures
            r.fields == old(self).fields,
            r.type_def == (TypeDef { ty: r.type_def.ty, ..old(self).type_def }),
            r.type_def.ty.name == old(self).type_def.ty.name,
            r.type_def.ty.generics@.drop_last() == old(self).type_def.ty.generics@,
            r.type_def.ty.generics@.len() == old(self).type_def.ty.generics@.len() + 1,
            r.type_def.ty.generics@.last().name@ == name@,
            r.type_def.ty.generics@.last().generics@.len() == 0,
            *final(self) == *final(r),
    {
        self.type_def.ty.generic(name);
        self
    }

    /// Adds a where-bound.
    pub fn bound(&mut self, name: &str, ty: &str) -> (r: &mut Self)
        ensures
            r.fields == old(self).fields,
            r.type_def == (TypeDef { bounds: r.type_def.bounds, ..old(self).type_def }),
            r.type_def.bounds@.drop_last() == old(self).type_def.bounds@,
            r.type_def.bounds@.len() == old(self).type_def.bounds@.len() + 1,
            is_simple_bound(r.type_def.bounds@.last(), name@, ty@),
            *final(self) == *final(r),
    {
        self.type_def.bound(name, ty);
        self
    }

    /// Sets the documentation.
    pub fn doc(&mut self, docs: &str) -> (r: &mut Self)
        ensures
            r.fields == old(self).fields,
            r.type_def == (TypeDef { docs: Some(r.type_def.docs->0), ..old(self).type_def }),
            r.type_def.docs->0.docs@ == docs@,
            *final(self) == *final(r),
    {
        self.type_def.doc(docs);
        self
    }

    /// Adds a trait to the derive list.
    pub fn derive(&mut self, name: &str) -> (r: &mut Self)
        ensures
            r.fields == old(self).fields,
            r.type_def == (TypeDef { derive: r.type_def.derive, ..old(self).type_def }),
            views(r.type_def.derive@) == views(old(self).type_def.derive@).push(name@),
            *final(self) == *final(r),
    {
        self.type_def.derive(name);
        self
    }

    /// Sets the lint to allow.
    pub fn allow(&mut self, allow: &str) -> (r: &mut Self)
        ensures
            r.fields == old(self).fields,
            r.type_def == (TypeDef { allow: Some(r.type_def.allow->0), ..old(self).type_def }),
            r.type_def.allow->0@ == allow@,
            *final(self) == *final(r),
    {
        self.type_def.allow(allow);
        self
    }

    /// Sets the representation.
    pub fn repr(&mut self, repr: &str) -> (r: &mut Self)
        ensures
            r.fields == old(self).fields,
            r.type_def == (TypeDef { repr: Some(r.type_def.repr->0), ..old(self).type_def }),
            r.type_def.repr->0@ == repr@,
            *final(self) == *final(r),
    {
        self.type_def.repr(repr);
        self
    }

    /// Adds a named field. A struct with tuple fields takes none.
    pub fn push_field(&mut self, field: Field) -> (r: &mut Self)
        requires
            !(old(self).fields is Tuple),
        ensures
            r.type_def == old(self).type_def,
            r.fields is Named,
            named_fields(r.fields) == named_fields(old(self).fields).push(field),
            *final(self) == *final(r),
    {
        self.fields.push_named(field);
        self
    }

    /// Adds a named field of the given name and type.
    pub fn field(&mut self, name: &str, ty: &str) -> (r: &mut Self)
        requires
            !(old(self).fields is Tuple),
        ensures
            r.type_def == old(self).type_def,
            r.fields is Named,
            named_fields(r.fields).drop_last() == named_fields(old(self).fields),
            named_fields(r.fields).len() == named_fields(old(self).fields).len() + 1,
            is_bare_field(named_fields(r.fields).last(), name@, ty@),
            *final(self) == *final(r),
    {
        let field = Field::new(name, ty);
        self.fields.push_named(field);
        self
    }

    /// Adds a public named field of the given name and type.
    pub fn field_pub(&mut self, name: &str, ty: &str) -> (r: &mut Self)
        requires
            !(old(self).fields is Tuple),
        ensures
            r.type_def == old(self).type_def,
            r.fields is Named,
            named_fields(r.fields).drop_last() == named_fields(old(self).fields),
            named_fields(r.fields).len() == named_fields(old(self).fields).len() + 1,
            named_fields(r.fields).last() == (Field {
                vis: named_fields(r.fields).last().vis,
                ..named_fields(r.fields).last()
            }),
            is_bare_field(
                Field { vis: None, ..named_fields(r.fields).last() },
                name@,
                ty@,
            ),
            named_fields(r.fields).last().vis->0@ == "pub"@,
            *final(self) == *final(r),
    {
        let mut field = Field::new(name, ty);
        field.vis("pub");
        self.fields.push_named(field);
        self
    }

    /// Adds a tuple field of the given type. A struct with named fields
    /// takes none.
    pub fn tuple_field(&mut self, ty: &str) -> (r: &mut Self)
        requires
            !(old(self).fields is Named),
        ensures
            r.type_def == old(self).type_def,
            r.fields is Tuple,
            tuple_fields(r.fields).drop_last() == tuple_fields(old(self).fields),
            tuple_fields(r.fields).len() == tuple_fields(old(self).fields).len() + 1,
            tuple_fields(r.fields).last().name@ == ty@,
            tuple_fields(r.fields).last().generics@.len() == 0,
            *final(self) == *final(r),
    {
        self.fields.tuple(ty);
        self
    }
}

impl Format for Struct {
    open spec fn pieces(&self) -> Seq<Piece> {
        struct_pieces(*self)
    }

    open spec fn renders(&self) -> bool {
        true
    }

    fn fmt(&self, fmt: &mut Formatter) {
        let ghost st0 = fmt@;
        let no_parents: Vec<Type> = Vec::new();
        self.type_def.fmt_head("struct", &no_parents, fmt);
        proof {
            assert(no_parents@ =~= Seq::<Type>::empty());
            lemma_run_one(st0, Piece::Text(head_text(self.type_def, "struct"@, Seq::empty())));
        }
        self.fields.fmt(fmt);
        proof { lemma_run_concat(st0, text(head_text(self.type_def, "struct"@, Seq::empty())), fields_pieces(self.fields)); }
        let ghost st2 = fmt@;
        match self.fields {
            Fields::Named(_) => {
                proof {
                    assert(run(st2, Seq::empty()) == st2);
                }
            },
            _ => {
                fmt.write(";\n");
            },
        }
        proof {
            let tail: Seq<Piece> = if self.fields is Named { Seq::empty() } else { text(";\n"@) };
            lemma_run3(st0, text(head_text(self.type_def, "struct"@, Seq::empty())), fields_pieces(self.fields), tail);
        }
    }
}

} // verus!
