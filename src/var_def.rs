use vstd::prelude::*;
use crate::formatter::{
    Format, Formatter, Piece, text, opt_text, fmt_opt, lemma_run_one, lemma_write_after, lemma_put_str_concat,
};
use crate::ty::{Type, type_text};

verus! {

/// Which keyword a variable definition uses.
pub enum VarDefKind {
    Static,
    Const,
}

/// A `static` or `const` item.
pub struct VarDef {
    pub kind: VarDefKind,
    pub name: String,
    pub ty: Type,
    pub value: String,
    pub vis: Option<String>,
}

/// The keyword of the definition.
pub open spec fn kind_text(k: VarDefKind) -> Seq<char> {
    match k {
        VarDefKind::Static => "static"@,
        VarDefKind::Const => "const"@,
    }
}

/// `[vis ]static NAME: Type = value;` or the same with `const`.
pub open spec fn var_def_text(v: VarDef) -> Seq<char> {
    opt_text(v.vis, ""@, " "@) + kind_text(v.kind) + " "@ + v.name@ + ": "@ + type_text(v.ty) + " = "@
        + v.value@ + ";\n"@
}

/// A definition of the given kind, name and type (without generics), with
/// an empty value and no visibility.
pub open spec fn is_bare_var(v: VarDef, kind: VarDefKind, name: Seq<char>, ty: Seq<char>) -> bool {
    &&& v.kind == kind
    &&& v.name@ == name
    &&& v.ty.name@ == ty
    &&& v.ty.generics@.len() == 0
    &&& v.value@.len() == 0
    &&& v.vis is None
}

impl VarDef {
    /// Returns a definition of the given kind, name and type, with an empty
    /// value.
    pub fn new(kind: VarDefKind, name: &str, ty: &str) -> (r: VarDef)
        ensures
            is_bare_var(r, kind, name@, ty@),
    {
        let value = String::new();
        VarDef { kind, name: String::from_str(name), ty: Type::new(ty), value, vis: None }
    }

    /// Returns a `static` definition.
    pub fn new_static(name: &str, ty: &str) -> (r: VarDef)
        ensures
            is_bare_var(r, VarDefKind::Static, name@, ty@),
    {
        Self::new(VarDefKind::Static, name, ty)
    }

    /// Returns a `const` definition.
    pub fn new_const(name: &str, ty: &str) -> (r: VarDef)
        ensures
            is_bare_var(r, VarDefKind::Const, name@, ty@),
    {
        Self::new(VarDefKind::Const, name, ty)
    }

    /// Sets the visibility.
    pub fn vis(&mut self, vis: &str) -> (r: &mut Self)
        ensures
            *r == (VarDef { vis: Some(r.vis->0), ..*old(self) }),
            r.vis->0@ == vis@,
            *final(self) == *final(r),
    {
        self.vis = Some(String::from_str(vis));
        self
    }

    /// Sets the value expression.
    pub fn value(&mut self, value: &str) -> (r: &mut Self)
        ensures
            *r == (VarDef { value: r.value, ..*old(self) }),
            r.value@ == value@,
            *final(self) == *final(r),
    {
        self.value = String::from_str(value);
        self
    }
}

impl Format for VarDef {
    open spec fn pieces(&self) -> Seq<Piece> {
        text(var_def_text(*self))
    }

    open spec fn renders(&self) -> bool {
        true
    }

    fn fmt(&self, fmt: &mut Formatter) {
        let ghost st0 = fmt@;
        let ghost mut acc: Seq<char> = Seq::empty();
        fmt_opt(&self.vis, "", " ", fmt);
        proof {
            lemma_put_str_concat(st0, acc, opt_text(self.vis, ""@, " "@));
            acc = acc + opt_text(self.vis, ""@, " "@);
        }
        let kw = match self.kind {
            VarDefKind::Static => "static",
            VarDefKind::Const => "const",
        };
        fmt.write(kw);
        proof { lemma_write_after(st0, acc, kw@); acc = acc + kw@; }
        fmt.write(" ");
        proof { lemma_write_after(st0, acc, " "@); acc = acc + " "@; }
        fmt.write(self.name.as_str());
        proof { lemma_write_after(st0, acc, self.name@); acc = acc + self.name@; }
        fmt.write(": ");
        proof { lemma_write_after(st0, acc, ": "@); acc = acc + ": "@; }
        self.ty.fmt(fmt);
        proof { lemma_put_str_concat(st0, acc, type_text(self.ty)); acc = acc + type_text(self.ty); }
        fmt.write(" = ");
        proof { lemma_write_after(st0, acc, " = "@); acc = acc + " = "@; }
        fmt.write(self.value.as_str());
        proof { lemma_write_after(st0, acc, self.value@); acc = acc + self.value@; }
        fmt.write(";\n");
        proof {
            lemma_write_after(st0, acc, ";\n"@);
            acc = acc + ";\n"@;
            assert(acc =~= var_def_text(*self));
            lemma_run_one(st0, Piece::Text(acc));
        }
    }
}

} // verus!
