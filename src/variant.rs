use vstd::prelude::*;
use crate::formatter::{
    Format, Formatter, Piece, text, opt_text, fmt_opt, lemma_run_one, lemma_run3,
    lemma_write_after, lemma_put_str_concat,
};
use crate::field::is_bare_field;
use crate::fields::{Fields, fields_pieces, named_fields, tuple_fields};

verus! {

/// What an enum needs of its variants: to be made from a name, and to
/// render themselves.
pub trait EnumVariant: Format + Sized {
    /// The variant is named `name` and has nothing else.
    spec fn is_bare(&self, name: Seq<char>) -> bool;

    /// Returns a variant with the given name and nothing else.
    fn new(name: &str) -> (r: Self)
        ensures
            r.is_bare(name@),
    ;
}

/// An enum variant, with an optional body of fields.
pub struct Variant {
    pub name: String,
    pub fields: Fields,
}

/// A variant renders as its name, its body, then a comma.
pub open spec fn variant_pieces(v: Variant) -> Seq<Piece> {
    text(v.name@) + fields_pieces(v.fields) + text(",\n"@)
}

impl EnumVariant for Variant {
    open spec fn is_bare(&self, name: Seq<char>) -> bool {
        self.name@ == name && self.fields is Empty
    }

    fn new(name: &str) -> (r: Variant) {
        Variant { name: String::from_str(name), fields: Fields::Empty }
    }
}

impl Variant {
    /// Adds a named field. A variant with tuple fields takes none.
    pub fn named(&mut self, name: &str, ty: &str) -> (r: &mut Self)
        requires
            !(old(self).fields is Tuple),
        ensures
            r.name == old(self).name,
            r.fields is Named,
            named_fields(r.fields).drop_last() == named_fields(old(self).fields),
            named_fields(r.fields).len() == named_fields(old(self).fields).len() + 1,
            is_bare_field(named_fields(r.fields).last(), name@, ty@),
            *final(self) == *final(r),
    {
        self.fields.named(name, ty);
        self
    }

    /// Adds a tuple field. A variant with named fields takes none.
    pub fn tuple(&mut self, ty: &str) -> (r: &mut Self)
        requires
            !(old(self).fields is Named),
        ensures
            r.name == old(self).name,
            r.fields is Tuple,
            tuple_fields(r.fields).drop_last() == tuple_fields(old(self).fields),
            tuple_fields(r.fields).len() == tuple_fields(old(self).fields).len() + 1,
            tuple_fields(r.fields).last().name@ == ty@,
            *final(self) == *final(r),
    {
        self.fields.tuple(ty);
        self
    }
}

impl Format for Variant {
    open spec fn pieces(&self) -> Seq<Piece> {
        variant_pieces(*self)
    }

    open spec fn renders(&self) -> bool {
        true
    }

    fn fmt(&self, fmt: &mut Formatter) {
        let ghost st0 = fmt@;
        fmt.write(self.name.as_str());
        self.fields.fmt(fmt);
        fmt.write(",\n");
        proof { lemma_run3(st0, text(self.name@), fields_pieces(self.fields), text(",\n"@)); }
    }
}

/// An enum variant that may carry an explicit discriminant.
pub struct DiscriminantVariant {
    pub name: String,
    pub discriminant: Option<String>,
}

/// The same kind of variant under its shorter name.
pub type DisVariant = DiscriminantVariant;

/// The name, then ` = ` and the discriminant if one was set, then a comma.
/// No value is made up for a variant without one.
pub open spec fn discriminant_text(v: DiscriminantVariant) -> Seq<char> {
    v.name@ + opt_text(v.discriminant, " = "@, ""@) + ",\n"@
}

impl EnumVariant for DiscriminantVariant {
    open spec fn is_bare(&self, name: Seq<char>) -> bool {
        self.name@ == name && self.discriminant is None
    }

    fn new(name: &str) -> (r: DiscriminantVariant) {
        DiscriminantVariant { name: String::from_str(name), discriminant: None }
    }
}

impl DiscriminantVariant {
    /// Sets the discriminant.
    pub fn discriminant(&mut self, dis: &str) -> (r: &mut Self)
        ensures
            r.name == old(self).name,
            r.discriminant is Some,
            r.discriminant->0@ == dis@,
            *final(self) == *final(r),
    {
        self.discriminant = Some(String::from_str(dis));
        self
    }
}

impl Format for DiscriminantVariant {
    open spec fn pieces(&self) -> Seq<Piece> {
        text(discriminant_text(*self))
    }

    open spec fn renders(&self) -> bool {
        true
    }

    fn fmt(&self, fmt: &mut Formatter) {
        let ghost st0 = fmt@;
        fmt.write(self.name.as_str());
        proof { lemma_run_one(st0, Piece::Text(self.name@)); }
        fmt_opt(&self.discriminant, " = ", "", fmt);
        proof { lemma_put_str_concat(st0, self.name@, opt_text(self.discriminant, " = "@, ""@)); }
        fmt.write(",\n");
        proof {
            lemma_write_after(st0, self.name@ + opt_text(self.discriminant, " = "@, ""@), ",\n"@);
            lemma_run_one(st0, Piece::Text(discriminant_text(*self)));
        }
    }
}

} // verus!
