use vstd::prelude::*;
use crate::formatter::{
    Format, Formatter, Piece, put_str, run, text, braced, open_block, close_block, layout, opt_text,
    fmt_opt, joined, views, lemma_write_after, lemma_put_str_concat, lemma_run_one, lemma_run_concat,
    lemma_run3, fmt_joined, push_char,
};
use crate::type_def::is_bare;
use crate::docs::{Docs, docs_text};
use crate::attr::{Attr, attr_text};
use crate::struct_def::{Struct, struct_pieces};
use crate::function::{is_bare_fn, Function, function_pieces, renders_in};
use crate::trait_def::{Trait, trait_pieces, trait_renders};
use crate::enum_def::{Enum, enum_pieces};
use crate::variant::{DiscriminantVariant};
use crate::impl_block::{is_bare_impl, Impl, impl_pieces};
use crate::var_def::{is_bare_var, VarDefKind, VarDef, var_def_text};
use crate::import::Import;
use crate::import_table::{
    PathTable, NameTable, name_entries, path_entries, key_index, lemma_key_index, new_path_table,
    path_bucket, name_slot, path_count, name_count, path_at, name_at,
};

verus! {

/// A table of imports as plain values: each path with its names and their
/// imports, both in first-seen order.
pub type ImportView = Seq<(Seq<char>, Seq<(Seq<char>, Import)>)>;

/// An entry of the path table with its names as plain values.
pub open spec fn path_view(e: (Seq<char>, NameTable)) -> (Seq<char>, Seq<(Seq<char>, Import)>) {
    (e.0, name_entries(e.1))
}

/// The entries of the path table with their names as plain values.
pub open spec fn entries_view(s: Seq<(Seq<char>, NameTable)>) -> ImportView {
    s.map_values(|e: (Seq<char>, NameTable)| path_view(e))
}

/// The imports of a table as plain values.
pub open spec fn imports_view(m: PathTable) -> ImportView {
    entries_view(path_entries(m))
}

/// Replacing an entry replaces its plain value.
pub proof fn lemma_entries_view_update(s: Seq<(Seq<char>, NameTable)>, i: int, e: (Seq<char>, NameTable))
    requires
        0 <= i < s.len(),
    ensures
        entries_view(s.update(i, e)) == entries_view(s).update(i, path_view(e)),
{
    assert(entries_view(s.update(i, e)) =~= entries_view(s).update(i, path_view(e)));
}

/// Appending an entry appends its plain value.
pub proof fn lemma_entries_view_push(s: Seq<(Seq<char>, NameTable)>, e: (Seq<char>, NameTable))
    ensures
        entries_view(s.push(e)) == entries_view(s).push(path_view(e)),
{
    assert(entries_view(s.push(e)) =~= entries_view(s).push(path_view(e)));
}

/// The characters of a name up to its first `::`, from index `i` on.
pub open spec fn segment_end(s: Seq<char>, i: int) -> int
    decreases s.len() - i,
{
    if i >= s.len() {
        s.len() as int
    } else if i + 1 < s.len() && s[i] == ':' && s[i + 1] == ':' {
        i
    } else {
        segment_end(s, i + 1)
    }
}

/// What an import of `name` brings in: its first segment, before any `::`.
pub open spec fn first_segment(name: Seq<char>) -> Seq<char> {
    name.take(segment_end(name, 0))
}

/// The import of `name` from `path`, if the table has one.
pub open spec fn lookup_import(t: ImportView, path: Seq<char>, name: Seq<char>) -> Option<Import> {
    let i = key_index(t, path);
    if i < 0 {
        None
    } else {
        let j = key_index(t[i].1, name);
        if j < 0 {
            None
        } else {
            Some(t[i].1[j].1)
        }
    }
}

/// The table with `imp` as the import of `name` from `path`: in place of
/// the one there was, or after the other names of the path, or under a new
/// path after the others.
pub open spec fn with_import(t: ImportView, path: Seq<char>, name: Seq<char>, imp: Import) -> ImportView {
    let i = key_index(t, path);
    if i < 0 {
        t.push((path, seq![(name, imp)]))
    } else {
        let names = t[i].1;
        let j = key_index(names, name);
        t.update(i, (path, if j < 0 { names.push((name, imp)) } else { names.update(j, (name, imp)) }))
    }
}

/// The visibility of a string option, as plain text.
pub open spec fn opt_view(o: Option<String>) -> Option<Seq<char>> {
    match o {
        Some(s) => Some(s@),
        None => None,
    }
}

/// The plain values of the options.
pub open spec fn opt_views(v: Seq<Option<String>>) -> Seq<Option<Seq<char>>> {
    v.map_values(|o: Option<String>| opt_view(o))
}

/// The visibilities of the imports of one path, in order.
pub open spec fn path_vis(names: Seq<(Seq<char>, Import)>) -> Seq<Option<Seq<char>>> {
    names.map_values(|e: (Seq<char>, Import)| opt_view(e.1.vis))
}

/// The visibilities of all imports, path by path.
pub open spec fn all_vis(t: ImportView) -> Seq<Option<Seq<char>>>
    decreases t.len(),
{
    if t.len() == 0 {
        Seq::empty()
    } else {
        all_vis(t.drop_last()) + path_vis(t.last().1)
    }
}

/// The distinct values, in the order they are first seen.
pub open spec fn distinct<A>(s: Seq<A>) -> Seq<A>
    decreases s.len(),
{
    if s.len() == 0 {
        Seq::empty()
    } else {
        let d = distinct(s.drop_last());
        if d.contains(s.last()) {
            d
        } else {
            d.push(s.last())
        }
    }
}

/// The names of one path imported with the given visibility, in order.
pub open spec fn names_with(names: Seq<(Seq<char>, Import)>, vis: Option<Seq<char>>) -> Seq<Seq<char>>
    decreases names.len(),
{
    if names.len() == 0 {
        Seq::empty()
    } else {
        names_with(names.drop_last(), vis) + if opt_view(names.last().1.vis) == vis {
            seq![names.last().0]
        } else {
            Seq::empty()
        }
    }
}

/// One `use` statement for the names of one path: nothing for no name,
/// `use path::name;` for one, `use path::{a, b};` for more, each after the
/// visibility if there is one.
pub open spec fn use_text(vis: Option<Seq<char>>, path: Seq<char>, names: Seq<Seq<char>>) -> Seq<char> {
    if names.len() == 0 {
        Seq::empty()
    } else {
        (match vis {
            Some(v) => v + " "@,
            None => Seq::empty(),
        }) + "use "@ + path + "::"@ + if names.len() > 1 {
            "{"@ + joined(names, ", "@) + "};\n"@
        } else {
            names[0] + ";\n"@
        }
    }
}

/// The statements of one visibility, path by path.
pub open spec fn group_text(t: ImportView, vis: Option<Seq<char>>) -> Seq<char>
    decreases t.len(),
{
    if t.len() == 0 {
        Seq::empty()
    } else {
        group_text(t.drop_last(), vis) + use_text(vis, t.last().0, names_with(t.last().1, vis))
    }
}

/// The statements of each of the visibilities, one visibility after the other.
pub open spec fn groups_text(t: ImportView, vs: Seq<Option<Seq<char>>>) -> Seq<char>
    decreases vs.len(),
{
    if vs.len() == 0 {
        Seq::empty()
    } else {
        groups_text(t, vs.drop_last()) + group_text(t, vs.last())
    }
}

/// The import statements: grouped by visibility, in the order the
/// visibilities are first seen, then by path, in first-seen order.
pub open spec fn imports_text(t: ImportView) -> Seq<char> {
    groups_text(t, distinct(all_vis(t)))
}

fn clone_opt(o: &Option<String>) -> (r: Option<String>)
    ensures
        opt_view(r) == opt_view(*o),
{
    match o {
        Some(s) => Some(s.clone()),
        None => None,
    }
}

fn opt_eq(a: &Option<String>, b: &Option<String>) -> (r: bool)
    ensures
        r == (opt_view(*a) == opt_view(*b)),
{
    match (a, b) {
        (Some(x), Some(y)) => *x == *y,
        (None, None) => true,
        _ => false,
    }
}

fn contains_opt(v: &Vec<Option<String>>, x: &Option<String>) -> (r: bool)
    ensures
        r == opt_views(v@).contains(opt_view(*x)),
{
    let mut i: usize = 0;
    while i < v.len()
        invariant
            0 <= i <= v@.len(),
            forall|k: int| 0 <= k < i ==> opt_view(v@[k]) != opt_view(*x),
        decreases v@.len() - i,
    {
        if opt_eq(&v[i], x) {
            proof { assert(opt_views(v@)[i as int] == opt_view(*x)); }
            return true;
        }
        i = i + 1;
    }
    proof {
        if opt_views(v@).contains(opt_view(*x)) {
            let k = choose|k: int| 0 <= k < opt_views(v@).len() && opt_views(v@)[k] == opt_view(*x);
            assert(opt_view(v@[k]) == opt_view(*x));
        }
    }
    false
}

/// What a table of imports holds in a scope.
pub struct Imports {
    pub table: PathTable,
}

impl View for Imports {
    type V = ImportView;

    open spec fn view(&self) -> ImportView {
        imports_view(self.table)
    }
}

impl Imports {
    /// Returns an empty table.
    pub fn new() -> (r: Imports)
        ensures
            r.view() == Seq::<(Seq<char>, Seq<(Seq<char>, Import)>)>::empty(),
    {
        let table = new_path_table();
        let r = Imports { table };
        proof { assert(r.view() =~= Seq::<(Seq<char>, Seq<(Seq<char>, Import)>)>::empty()); }
        r
    }

    /// Returns the import of `name` from `path`, adding a private one first
    /// if there is none. An existing import is returned as it is.
    pub fn import(&mut self, path: &str, name: &str) -> (r: &mut Import)
        ensures
            match lookup_import(old(self).view(), path@, name@) {
                Some(imp) => *r == imp,
                None => r.line@ == path@ + "::"@ + name@ && r.vis is None,
            },
            final(self).view() == with_import(old(self).view(), path@, name@, *final(r)),
    {
        let ghost t0 = self.view();
        let ghost pe0 = path_entries(self.table);
        let fresh = Import::new(path, name);
        let bucket = path_bucket(&mut self.table, String::from_str(path));
        let ghost b0 = *bucket;
        let ghost fb = *final(bucket);
        let r = name_slot(bucket, String::from_str(name), fresh);
        proof {
            lemma_key_index(pe0, path@);
            let i = key_index(pe0, path@);
            assert(key_index(t0, path@) == i) by {
                lemma_key_index(t0, path@);
                assert(forall|k: int| 0 <= k < t0.len() ==> t0[k].0 == pe0[k].0);
            }
            lemma_key_index(name_entries(b0), name@);
            if i >= 0 {
                assert(t0[i].1 == name_entries(b0));
                lemma_entries_view_update(pe0, i, (path@, fb));
            } else {
                lemma_entries_view_push(pe0, (path@, fb));
                assert(seq![(name@, *final(r))] =~= Seq::<(Seq<char>, Import)>::empty().push((name@, *final(r))));
            }
        }
        r
    }
}

/// The names of the table imported with the given visibility, in order.
fn names_with_vis(names: &NameTable, vis: &Option<String>) -> (r: Vec<String>)
    ensures
        views(r@) == names_with(name_entries(*names), opt_view(*vis)),
{
    let ghost ne = name_entries(*names);
    let mut r: Vec<String> = Vec::new();
    let n = name_count(names);
    let mut j: usize = 0;
    while j < n
        invariant
            0 <= j <= n,
            n == ne.len(),
            ne == name_entries(*names),
            views(r@) == names_with(ne.take(j as int), opt_view(*vis)),
        decreases n - j,
    {
        let e = name_at(names, j).unwrap();
        let ghost prev = r@;
        if opt_eq(&e.1.vis, vis) {
            r.push(e.0.clone());
            proof { assert(views(r@) =~= views(prev).push(e.0@)); }
        }
        proof {
            let t = ne.take(j + 1);
            assert(t.drop_last() =~= ne.take(j as int));
            assert(t.last() == ne[j as int]);
            assert(views(r@) =~= names_with(t, opt_view(*vis)));
        }
        j = j + 1;
    }
    proof { assert(ne.take(j as int) =~= ne); }
    r
}

/// Writes one `use` statement for the names, if there are any.
fn fmt_use(vis: &Option<String>, path: &String, names: &Vec<String>, fmt: &mut Formatter)
    requires
        old(fmt).wf(),
    ensures
        final(fmt).wf(),
        final(fmt)@ == put_str(old(fmt)@, use_text(opt_view(*vis), path@, views(names@))),
{
    if names.len() == 0 {
        return;
    }
    let ghost st0 = fmt@;
    let ghost mut acc: Seq<char> = Seq::empty();
    if let Some(v) = vis {
        fmt.write(v.as_str());
        proof { lemma_write_after(st0, acc, v@); acc = acc + v@; }
        fmt.write(" ");
        proof { lemma_write_after(st0, acc, " "@); acc = acc + " "@; }
    }
    proof {
        assert(acc =~= match opt_view(*vis) { Some(v) => v + " "@, None => Seq::<char>::empty() });
    }
    fmt.write("use ");
    proof { lemma_write_after(st0, acc, "use "@); acc = acc + "use "@; }
    fmt.write(path.as_str());
    proof { lemma_write_after(st0, acc, path@); acc = acc + path@; }
    fmt.write("::");
    proof { lemma_write_after(st0, acc, "::"@); acc = acc + "::"@; }
    if names.len() > 1 {
        fmt.write("{");
        proof { lemma_write_after(st0, acc, "{"@); }
        fmt_joined(names, ", ", fmt);
        proof { lemma_put_str_concat(st0, acc + "{"@, joined(views(names@), ", "@)); }
        fmt.write("};\n");
        proof {
            lemma_write_after(st0, acc + "{"@ + joined(views(names@), ", "@), "};\n"@);
            assert(acc + "{"@ + joined(views(names@), ", "@) + "};\n"@
                =~= use_text(opt_view(*vis), path@, views(names@)));
        }
    } else {
        fmt.write(names[0].as_str());
        proof { lemma_write_after(st0, acc, names@[0]@); }
        fmt.write(";\n");
        proof {
            lemma_write_after(st0, acc + names@[0]@, ";\n"@);
            assert(views(names@)[0] == names@[0]@);
            assert(acc + names@[0]@ + ";\n"@ =~= use_text(opt_view(*vis), path@, views(names@)));
        }
    }
}

impl Imports {
    /// Whether there is no import.
    pub fn is_empty(&self) -> (r: bool)
        ensures
            r == (self.view().len() == 0),
    {
        path_count(&self.table) == 0
    }

    /// The distinct visibilities of the imports, in first-seen order.
    fn visibilities(&self) -> (r: Vec<Option<String>>)
        ensures
            opt_views(r@) == distinct(all_vis(self.view())),
    {
        let ghost t = self.view();
        let ghost pe = path_entries(self.table);
        let mut vs: Vec<Option<String>> = Vec::new();
        let n = path_count(&self.table);
        let mut i: usize = 0;
        proof { assert(opt_views(vs@) =~= distinct(all_vis(t.take(0)))); }
        while i < n
            invariant
                0 <= i <= n,
                n == t.len(),
                t == self.view(),
                pe == path_entries(self.table),
                opt_views(vs@) == distinct(all_vis(t.take(i as int))),
            decreases n - i,
        {
            let e = path_at(&self.table, i).unwrap();
            let names = e.1;
            let ghost ne = name_entries(*names);
            let ghost x = all_vis(t.take(i as int));
            proof {
                assert(t[i as int] == path_view(pe[i as int]));
                assert(ne == t[i as int].1);
            }
            let m = name_count(names);
            let mut j: usize = 0;
            proof { assert(x + path_vis(ne.take(0)) =~= x); }
            while j < m
                invariant
                    0 <= j <= m,
                    m == ne.len(),
                    ne == name_entries(*names),
                    opt_views(vs@) == distinct(x + path_vis(ne.take(j as int))),
                decreases m - j,
            {
                let f = name_at(names, j).unwrap();
                let ghost prev = vs@;
                let ghost d = opt_views(prev);
                let seen = contains_opt(&vs, &f.1.vis);
                if !seen {
                    vs.push(clone_opt(&f.1.vis));
                    proof { assert(opt_views(vs@) =~= d.push(opt_view(f.1.vis))); }
                }
                proof {
                    let y = x + path_vis(ne.take(j + 1));
                    assert(y.drop_last() =~= x + path_vis(ne.take(j as int)));
                    assert(y.last() == opt_view(ne[j as int].1.vis));
                }
                j = j + 1;
            }
            proof {
                assert(ne.take(j as int) =~= ne);
                let u = t.take(i + 1);
                assert(u.drop_last() =~= t.take(i as int));
                assert(u.last() == t[i as int]);
            }
            i = i + 1;
        }
        proof { assert(t.take(i as int) =~= t); }
        vs
    }

    /// Writes the statements of one visibility, path by path.
    fn fmt_group(&self, vis: &Option<String>, fmt: &mut Formatter)
        requires
            old(fmt).wf(),
        ensures
            final(fmt).wf(),
            final(fmt)@ == put_str(old(fmt)@, group_text(self.view(), opt_view(*vis))),
    {
        let ghost st0 = fmt@;
        let ghost t = self.view();
        let ghost pe = path_entries(self.table);
        let n = path_count(&self.table);
        let mut i: usize = 0;
        while i < n
            invariant
                0 <= i <= n,
                n == t.len(),
                t == self.view(),
                pe == path_entries(self.table),
                fmt.wf(),
                fmt@ == put_str(st0, group_text(t.take(i as int), opt_view(*vis))),
            decreases n - i,
        {
            let e = path_at(&self.table, i).unwrap();
            proof { assert(t[i as int] == path_view(pe[i as int])); }
            let tys = names_with_vis(e.1, vis);
            fmt_use(vis, e.0, &tys, fmt);
            proof {
                lemma_put_str_concat(st0, group_text(t.take(i as int), opt_view(*vis)),
                    use_text(opt_view(*vis), e.0@, views(tys@)));
                let u = t.take(i + 1);
                assert(u.drop_last() =~= t.take(i as int));
                assert(u.last() == t[i as int]);
            }
            i = i + 1;
        }
        proof { assert(t.take(i as int) =~= t); }
    }

    /// Writes the import statements, grouped by visibility, then by path.
    pub fn fmt(&self, fmt: &mut Formatter)
        requires
            old(fmt).wf(),
        ensures
            final(fmt).wf(),
            final(fmt)@ == put_str(old(fmt)@, imports_text(self.view())),
    {
        let ghost st0 = fmt@;
        let ghost t = self.view();
        let vs = self.visibilities();
        let ghost vv = opt_views(vs@);
        let mut k: usize = 0;
        while k < vs.len()
            invariant
                0 <= k <= vs@.len(),
                vv == opt_views(vs@),
                t == self.view(),
                fmt.wf(),
                fmt@ == put_str(st0, groups_text(t, vv.take(k as int))),
            decreases vs@.len() - k,
        {
            self.fmt_group(&vs[k], fmt);
            proof {
                lemma_put_str_concat(st0, groups_text(t, vv.take(k as int)), group_text(t, opt_view(vs@[k as int])));
                let u = vv.take(k + 1);
                assert(u.drop_last() =~= vv.take(k as int));
                assert(u.last() == opt_view(vs@[k as int]));
            }
            k = k + 1;
        }
        proof { assert(vv.take(k as int) =~= vv); }
    }
}

/// A module named `name`, without visibility, around an empty scope.
pub open spec fn is_bare_module(m: Module, name: Seq<char>) -> bool {
    &&& m.name@ == name
    &&& m.vis is None
    &&& m.scope.docs is None
    &&& m.scope.attrs@.len() == 0
    &&& m.scope.imports@.len() == 0
    &&& m.scope.items@.len() == 0
}

/// One declaration held by a scope.
pub enum Item {
    Module(Module),
    Struct(Struct),
    Function(Function),
    Trait(Trait),
    Enum(Enum),
    DiscriminantEnum(Enum<DiscriminantVariant>),
    Impl(Impl),
    VarDef(VarDef),
    /// Text included verbatim.
    Raw(String),
}

/// A named module around a nested scope.
pub struct Module {
    pub name: String,
    pub vis: Option<String>,
    pub scope: Scope,
}

/// An ordered container of declarations, with its own imports, and
/// optional leading documentation and inner attributes.
pub struct Scope {
    pub docs: Option<Docs>,
    pub attrs: Vec<Attr>,
    pub imports: Imports,
    pub items: Vec<Item>,
}

/// The inner attribute lines, one after the other.
pub open spec fn inner_attrs_text(attrs: Seq<Attr>) -> Seq<char>
    decreases attrs.len(),
{
    if attrs.len() == 0 {
        Seq::empty()
    } else {
        inner_attrs_text(attrs.drop_last()) + attr_text(attrs.last(), true)
    }
}

/// What comes before the items: inner documentation, inner attributes and
/// imports, each part separated from the one before by a blank line, then
/// a blank line before the items.
pub open spec fn preamble_text(s: Scope) -> Seq<char> {
    let has_docs = s.docs is Some;
    let has_attrs = s.attrs@.len() > 0;
    let has_imports = s.imports.view().len() > 0;
    (match s.docs {
        Some(d) => docs_text(d, true),
        None => Seq::empty(),
    }) + (if has_docs && has_attrs { "\n"@ } else { Seq::empty() }) + inner_attrs_text(s.attrs@)
        + (if has_imports && (has_docs || has_attrs) { "\n"@ } else { Seq::empty() })
        + imports_text(s.imports.view()) + (if has_imports || ((has_docs || has_attrs) && s.items@.len() > 0) {
        "\n"@
    } else {
        Seq::empty()
    })
}

/// A scope renders what precedes its items, then its items.
pub open spec fn scope_pieces(s: Scope) -> Seq<Piece>
    decreases s,
{
    text(preamble_text(s)) + items_pieces(s.items@)
}

/// The items, separated by blank lines.
pub open spec fn items_pieces(items: Seq<Item>) -> Seq<Piece>
    decreases items,
{
    if items.len() == 0 {
        Seq::empty()
    } else {
        items_pieces(items.drop_last()) + (if items.len() > 1 { text("\n"@) } else { Seq::empty() })
            + item_pieces(items[items.len() - 1])
    }
}

/// An item renders as the declaration it holds; raw text renders on a line of its own.
pub open spec fn item_pieces(item: Item) -> Seq<Piece>
    decreases item,
{
    match item {
        Item::Module(m) => module_pieces(m),
        Item::Struct(v) => struct_pieces(v),
        Item::Function(v) => function_pieces(v),
        Item::Trait(v) => trait_pieces(v),
        Item::Enum(v) => enum_pieces(v),
        Item::DiscriminantEnum(v) => enum_pieces(v),
        Item::Impl(v) => impl_pieces(v),
        Item::VarDef(v) => text(var_def_text(v)),
        Item::Raw(v) => text(v@ + "\n"@),
    }
}

/// A module renders `[vis ]mod name`, then its scope in a brace block.
pub open spec fn module_pieces(m: Module) -> Seq<Piece>
    decreases m,
{
    text(opt_text(m.vis, ""@, " "@) + "mod "@ + m.name@) + braced(scope_pieces(m.scope))
}

/// Every function outside a trait has a body, and no function inside a
/// trait has a visibility, at any depth.
pub open spec fn scope_renders(s: Scope) -> bool
    decreases s,
{
    items_render(s.items@)
}

/// Each item can be rendered.
pub open spec fn items_render(items: Seq<Item>) -> bool
    decreases items,
{
    if items.len() == 0 {
        true
    } else {
        items_render(items.drop_last()) && item_renders(items[items.len() - 1])
    }
}

/// Each item of items that can be rendered can be rendered.
pub proof fn lemma_items_render(items: Seq<Item>)
    requires
        items_render(items),
    ensures
        forall|k: int| 0 <= k < items.len() ==> item_renders(#[trigger] items[k]),
    decreases items.len(),
{
    if items.len() > 0 {
        let d = items.drop_last();
        lemma_items_render(d);
        assert(forall|k: int| 0 <= k < d.len() ==> d[k] == items[k]);
    }
}

/// The item breaks none of the rules that rendering relies on.
pub open spec fn item_renders(item: Item) -> bool
    decreases item,
{
    match item {
        Item::Module(m) => scope_renders(m.scope),
        Item::Function(f) => renders_in(f, false),
        Item::Trait(t) => trait_renders(t),
        Item::Impl(i) => i.renders(),
        Item::Enum(e) => e.renders(),
        Item::DiscriminantEnum(e) => e.renders(),
        _ => true,
    }
}

/// The item is a module with the given name.
pub open spec fn is_module_named(item: Item, name: Seq<char>) -> bool {
    match item {
        Item::Module(m) => m.name@ == name,
        _ => false,
    }
}

/// The first module of the items with the given name, or -1.
pub open spec fn module_index(items: Seq<Item>, name: Seq<char>) -> int
    decreases items.len(),
{
    if items.len() == 0 {
        -1
    } else {
        let j = module_index(items.drop_last(), name);
        if j >= 0 {
            j
        } else if is_module_named(items.last(), name) {
            items.len() - 1
        } else {
            -1
        }
    }
}

/// What `module_index` finds: the first module with the name, or none.
pub proof fn lemma_module_index(items: Seq<Item>, name: Seq<char>)
    ensures
        -1 <= module_index(items, name) < items.len(),
        module_index(items, name) >= 0 ==> is_module_named(items[module_index(items, name)], name),
        forall|k: int| 0 <= k < items.len() && (k < module_index(items, name) || module_index(items, name) < 0)
            ==> !is_module_named(#[trigger] items[k], name),
    decreases items.len(),
{
    if items.len() > 0 {
        let d = items.drop_last();
        lemma_module_index(d, name);
        assert(forall|k: int| 0 <= k < d.len() ==> d[k] == items[k]);
    }
}

/// Writes one item.
pub fn fmt_item(item: &Item, fmt: &mut Formatter)
    requires
        old(fmt).wf(),
        item_renders(*item),
    ensures
        final(fmt).wf(),
        final(fmt)@ == run(old(fmt)@, item_pieces(*item)),
    decreases item,
{
    match item {
        Item::Module(v) => v.fmt(fmt),
        Item::Struct(v) => v.fmt(fmt),
        Item::Function(v) => v.fmt(false, fmt),
        Item::Trait(v) => v.fmt(fmt),
        Item::Enum(v) => v.fmt(fmt),
        Item::DiscriminantEnum(v) => v.fmt(fmt),
        Item::Impl(v) => v.fmt(fmt),
        Item::VarDef(v) => v.fmt(fmt),
        Item::Raw(v) => {
            let ghost st0 = fmt@;
            fmt.write(v.as_str());
            proof { lemma_run_one(st0, Piece::Text(v@)); }
            fmt.write("\n");
            proof {
                lemma_write_after(st0, v@, "\n"@);
                lemma_run_one(st0, Piece::Text(v@ + "\n"@));
            }
        },
    }
}

impl Module {
    /// Writes the module.
    pub fn fmt(&self, fmt: &mut Formatter)
        requires
            old(fmt).wf(),
            scope_renders(self.scope),
        ensures
            final(fmt).wf(),
            final(fmt)@ == run(old(fmt)@, module_pieces(*self)),
        decreases self,
    {
        let ghost st0 = fmt@;
        fmt_opt(&self.vis, "", " ", fmt);
        proof { lemma_put_str_concat(st0, Seq::empty(), opt_text(self.vis, ""@, " "@)); }
        fmt.write("mod ");
        proof { lemma_write_after(st0, opt_text(self.vis, ""@, " "@), "mod "@); }
        fmt.write(self.name.as_str());
        let ghost head = opt_text(self.vis, ""@, " "@) + "mod "@ + self.name@;
        proof {
            lemma_write_after(st0, opt_text(self.vis, ""@, " "@) + "mod "@, self.name@);
            lemma_run_one(st0, Piece::Text(head));
        }
        fmt.block_start();
        self.scope.fmt(fmt);
        fmt.block_end();
        proof {
            lemma_run3(run(st0, text(head)), open_block(), scope_pieces(self.scope), close_block());
            lemma_run_concat(st0, text(head), braced(scope_pieces(self.scope)));
        }
    }
}

impl Scope {
    /// Writes what precedes the items.
    fn fmt_preamble(&self, fmt: &mut Formatter)
        requires
            old(fmt).wf(),
        ensures
            final(fmt).wf(),
            final(fmt)@ == put_str(old(fmt)@, preamble_text(*self)),
    {
        let ghost st0 = fmt@;
        let ghost mut acc: Seq<char> = Seq::empty();
        let has_docs = self.docs.is_some();
        let has_attrs = self.attrs.len() > 0;
        let has_imports = !self.imports.is_empty();
        if let Some(d) = &self.docs {
            d.fmt(fmt, true);
            proof { lemma_put_str_concat(st0, acc, docs_text(*d, true)); acc = acc + docs_text(*d, true); }
        }
        if has_docs && has_attrs {
            fmt.write("\n");
            proof { lemma_write_after(st0, acc, "\n"@); acc = acc + "\n"@; }
        }
        let mut i: usize = 0;
        let ghost base = acc;
        while i < self.attrs.len()
            invariant
                0 <= i <= self.attrs@.len(),
                fmt.wf(),
                fmt@ == put_str(st0, base + inner_attrs_text(self.attrs@.take(i as int))),
            decreases self.attrs@.len() - i,
        {
            self.attrs[i].fmt(fmt, true);
            proof {
                lemma_put_str_concat(st0, base + inner_attrs_text(self.attrs@.take(i as int)), attr_text(self.attrs@[i as int], true));
                let u = self.attrs@.take(i + 1);
                assert(u.drop_last() =~= self.attrs@.take(i as int));
                assert(base + inner_attrs_text(self.attrs@.take(i as int)) + attr_text(self.attrs@[i as int], true)
                    =~= base + inner_attrs_text(u));
            }
            i = i + 1;
        }
        proof {
            assert(self.attrs@.take(i as int) =~= self.attrs@);
            acc = base + inner_attrs_text(self.attrs@);
        }
        if has_imports && (has_docs || has_attrs) {
            fmt.write("\n");
            proof { lemma_write_after(st0, acc, "\n"@); acc = acc + "\n"@; }
        }
        self.imports.fmt(fmt);
        proof {
            lemma_put_str_concat(st0, acc, imports_text(self.imports.view()));
            acc = acc + imports_text(self.imports.view());
        }
        if has_imports || ((has_docs || has_attrs) && self.items.len() > 0) {
            fmt.write("\n");
            proof { lemma_write_after(st0, acc, "\n"@); acc = acc + "\n"@; }
        }
        proof { assert(acc =~= preamble_text(*self)); }
    }

    /// Writes the scope: what precedes the items, then each item, separated
    /// by blank lines.
    pub fn fmt(&self, fmt: &mut Formatter)
        requires
            old(fmt).wf(),
            scope_renders(*self),
        ensures
            final(fmt).wf(),
            final(fmt)@ == run(old(fmt)@, scope_pieces(*self)),
        decreases self,
    {
        let ghost st0 = fmt@;
        self.fmt_preamble(fmt);
        proof { lemma_run_one(st0, Piece::Text(preamble_text(*self))); }
        let ghost st1 = fmt@;
        proof { lemma_items_render(self.items@); }
        assert(forall|k: int| 0 <= k < self.items@.len() ==> item_renders(#[trigger] self.items@[k]));
        let mut i: usize = 0;
        while i < self.items.len()
            invariant
                0 <= i <= self.items@.len(),
                forall|k: int| 0 <= k < self.items@.len() ==> item_renders(#[trigger] self.items@[k]),
                fmt.wf(),
                fmt@ == run(st1, items_pieces(self.items@.take(i as int))),
            decreases self.items@.len() - i,
        {
            let ghost acc = items_pieces(self.items@.take(i as int));
            if i != 0 {
                fmt.write("\n");
                proof { lemma_run_concat(st1, acc, text("\n"@)); }
            } else {
                proof { assert(acc + Seq::<Piece>::empty() =~= acc); }
            }
            let ghost sep: Seq<Piece> = if i != 0 { text("\n"@) } else { Seq::empty() };
            assert(item_renders(self.items@[i as int]));
            fmt_item(&self.items[i], fmt);
            proof {
                lemma_run_concat(st1, acc + sep, item_pieces(self.items@[i as int]));
                let u = self.items@.take(i + 1);
                assert(u.drop_last() =~= self.items@.take(i as int));
                assert(u[u.len() - 1] == self.items@[i as int]);
            }
            i = i + 1;
        }
        proof {
            assert(self.items@.take(i as int) =~= self.items@);
            lemma_run_concat(st0, text(preamble_text(*self)), items_pieces(self.items@));
        }
    }
}

/// The rendered text of a scope at the default indentation of four
/// spaces, without its final newline.
pub open spec fn rendered(s: Scope) -> Seq<char> {
    trim_newline(layout(scope_pieces(s), 4))
}

/// The text without one final newline, if it ends with one.
pub open spec fn trim_newline(t: Seq<char>) -> Seq<char> {
    if t.len() > 0 && t.last() == '\n' {
        t.drop_last()
    } else {
        t
    }
}

/// The scope differs from `old` only in its items, which have `item` added
/// at their end.
pub open spec fn appended(old: Scope, new: Scope, item: Item) -> bool {
    &&& new == Scope { items: new.items, ..old }
    &&& new.items@ == old.items@.push(item)
}

/// The first segment of a name, before any `::`.
fn first_segment_of(s: &str) -> (r: String)
    ensures
        r@ == first_segment(s@),
{
    let mut cs: Vec<char> = Vec::new();
    for c in it: s.chars()
        invariant
            it.seq() == s@,
            cs@ == s@.take(it.index() as int),
    {
        proof { assert(s@.take(it.index() + 1) =~= s@.take(it.index() as int).push(c)); }
        cs.push(c);
    }
    proof { assert(s@.take(s@.len() as int) =~= s@); }
    let n = cs.len();
    let mut out = String::new();
    let mut i: usize = 0;
    while i < n && !(i + 1 < n && cs[i] == ':' && cs[i + 1] == ':')
        invariant
            0 <= i <= n,
            n == s@.len(),
            cs@ == s@,
            out@ == s@.take(i as int),
            segment_end(s@, 0) == segment_end(s@, i as int),
        decreases n - i,
    {
        push_char(&mut out, cs[i]);
        proof { assert(s@.take(i + 1) =~= s@.take(i as int).push(cs@[i as int])); }
        i = i + 1;
    }
    out
}

impl Scope {
    /// Returns an empty scope.
    pub fn new() -> (r: Scope)
        ensures
            r.docs is None,
            r.attrs@.len() == 0,
            r.imports.view().len() == 0,
            r.items@.len() == 0,
    {
        Scope { docs: None, attrs: Vec::new(), imports: Imports::new(), items: Vec::new() }
    }

    /// Sets the inner documentation of the scope.
    pub fn doc(&mut self, docs: &str) -> (r: &mut Self)
        ensures
            *r == (Scope { docs: Some(r.docs->0), ..*old(self) }),
            r.docs->0.docs@ == docs@,
            *final(self) == *final(r),
    {
        self.docs = Some(Docs::new(docs));
        self
    }

    /// Adds an inner attribute.
    pub fn push_attr(&mut self, attr: Attr) -> (r: &mut Self)
        ensures
            *r == (Scope { attrs: r.attrs, ..*old(self) }),
            r.attrs@ == old(self).attrs@.push(attr),
            *final(self) == *final(r),
    {
        self.attrs.push(attr);
        self
    }

    /// Imports a name from a path, and returns the import. Only the part of
    /// the name before any `::` is imported. Importing a name twice from the
    /// same path returns the first import unchanged.
    pub fn import(&mut self, path: &str, ty: &str) -> (r: &mut Import)
        ensures
            match lookup_import(old(self).imports.view(), path@, first_segment(ty@)) {
                Some(imp) => *r == imp,
                None => r.line@ == path@ + "::"@ + first_segment(ty@) && r.vis is None,
            },
            *final(self) == (Scope { imports: final(self).imports, ..*old(self) }),
            final(self).imports.view() == with_import(old(self).imports.view(), path@, first_segment(ty@), *final(r)),
    {
        let name = first_segment_of(ty);
        self.imports.import(path, name.as_str())
    }

    /// Adds a module with the given name, which no module of the scope may
    /// have yet, and returns it.
    pub fn new_module(&mut self, name: &str) -> (r: &mut Module)
        requires
            module_index(old(self).items@, name@) < 0,
        ensures
            is_bare_module(*r, name@),
            appended(*old(self), *final(self), Item::Module(*final(r))),
    {
        push_module_item(&mut self.items, Module::new(name))
    }

    /// The index of the first module with the given name, if there is one.
    fn find_module(&self, name: &str) -> (r: Option<usize>)
        ensures
            module_index(self.items@, name@) < 0 ==> r is None,
            module_index(self.items@, name@) >= 0 ==> r is Some,
            r is Some ==> r.unwrap() as int == module_index(self.items@, name@),
            r is Some ==> r.unwrap() < self.items@.len(),
    {
        proof { lemma_module_index(self.items@, name@); }
        let key = String::from_str(name);
        let mut i: usize = 0;
        while i < self.items.len()
            invariant
                0 <= i <= self.items@.len(),
                key@ == name@,
                forall|k: int| 0 <= k < i ==> !is_module_named(#[trigger] self.items@[k], name@),
            decreases self.items@.len() - i,
        {
            if let Item::Module(m) = &self.items[i] {
                if m.name == key {
                    proof {
                        assert(is_module_named(self.items@[i as int], name@));
                        lemma_module_index(self.items@, name@);
                    }
                    return Some(i);
                }
            }
            i = i + 1;
        }
        None
    }

    /// Returns the first module with the given name, if there is one.
    pub fn get_module(&self, name: &str) -> (r: Option<&Module>)
        ensures
            module_index(self.items@, name@) < 0 ==> r is None,
            module_index(self.items@, name@) >= 0 ==> r is Some
                && self.items@[module_index(self.items@, name@)] == Item::Module(*r.unwrap()),
    {
        proof { lemma_module_index(self.items@, name@); }
        match self.find_module(name) {
            Some(i) => {
                proof {
                    assert(i as int == module_index(self.items@, name@));
                    assert(is_module_named(self.items@[i as int], name@));
                }
                match &self.items[i] {
                    Item::Module(m) => Some(m),
                    _ => None,
                }
            },
            None => None,
        }
    }

    /// Returns the first module with the given name, if there is one, for
    /// changes.
    pub fn get_module_mut(&mut self, name: &str) -> (r: Option<&mut Module>)
        ensures
            module_index(old(self).items@, name@) < 0 ==> r is None && *final(self) == *old(self),
            module_index(old(self).items@, name@) >= 0 ==> {
                let k = module_index(old(self).items@, name@);
                &&& r is Some
                &&& old(self).items@[k] == Item::Module(*r.unwrap())
                &&& *final(self) == (Scope { items: final(self).items, ..*old(self) })
                &&& final(self).items@ == old(self).items@.update(k, Item::Module(*final(r.unwrap())))
            },
    {
        match self.find_module(name) {
            Some(i) => {
                proof {
                    lemma_module_index(self.items@, name@);
                    assert(i as int == module_index(self.items@, name@));
                    assert(is_module_named(self.items@[i as int], name@));
                }
                Some(module_at_mut(&mut self.items, i))
            },
            None => None,
        }
    }

    /// Returns the first module with the given name, adding one if there is
    /// none.
    pub fn get_or_new_module(&mut self, name: &str) -> (r: &mut Module)
        ensures
            module_index(old(self).items@, name@) >= 0 ==> {
                let k = module_index(old(self).items@, name@);
                &&& old(self).items@[k] == Item::Module(*r)
                &&& *final(self) == (Scope { items: final(self).items, ..*old(self) })
                &&& final(self).items@ == old(self).items@.update(k, Item::Module(*final(r)))
            },
            module_index(old(self).items@, name@) < 0 ==> {
                &&& is_bare_module(*r, name@)
                &&& appended(*old(self), *final(self), Item::Module(*final(r)))
            },
    {
        match self.find_module(name) {
            Some(i) => {
                proof {
                    lemma_module_index(self.items@, name@);
                    assert(i as int == module_index(self.items@, name@));
                    assert(is_module_named(self.items@[i as int], name@));
                }
                module_at_mut(&mut self.items, i)
            },
            None => self.new_module(name),
        }
    }

    /// Adds a module, whose name no module of the scope may have yet.
    pub fn push_module(&mut self, item: Module) -> (r: &mut Self)
        requires
            module_index(old(self).items@, item.name@) < 0,
        ensures
            appended(*old(self), *r, Item::Module(item)),
            *final(self) == *final(r),
    {
        self.items.push(Item::Module(item));
        self
    }

    /// Adds a struct with the given name and returns it.
    pub fn new_struct(&mut self, name: &str) -> (r: &mut Struct)
        ensures
            is_bare(r.type_def, name@),
            r.fields is Empty,
            appended(*old(self), *final(self), Item::Struct(*final(r))),
    {
        push_struct_item(&mut self.items, Struct::new(name))
    }

    /// Adds a struct.
    pub fn push_struct(&mut self, item: Struct) -> (r: &mut Self)
        ensures
            appended(*old(self), *r, Item::Struct(item)),
            *final(self) == *final(r),
    {
        self.items.push(Item::Struct(item));
        self
    }

    /// Adds a function with the given name and an empty body, and returns it.
    pub fn new_fn(&mut self, name: &str) -> (r: &mut Function)
        ensures
            is_bare_fn(*r, name@, Some(Seq::empty())),
            appended(*old(self), *final(self), Item::Function(*final(r))),
    {
        push_function_item(&mut self.items, Function::new(name))
    }

    /// Adds a function.
    pub fn push_fn(&mut self, item: Function) -> (r: &mut Self)
        ensures
            appended(*old(self), *r, Item::Function(item)),
            *final(self) == *final(r),
    {
        self.items.push(Item::Function(item));
        self
    }

    /// Adds a trait with the given name and returns it.
    pub fn new_trait(&mut self, name: &str) -> (r: &mut Trait)
        ensures
            is_bare(r.type_def, name@),
            r.parents@.len() == 0,
            r.associated_tys@.len() == 0,
            r.fns@.len() == 0,
            appended(*old(self), *final(self), Item::Trait(*final(r))),
    {
        push_trait_item(&mut self.items, Trait::new(name))
    }

    /// Adds a trait.
    pub fn push_trait(&mut self, item: Trait) -> (r: &mut Self)
        ensures
            appended(*old(self), *r, Item::Trait(item)),
            *final(self) == *final(r),
    {
        self.items.push(Item::Trait(item));
        self
    }

    /// Adds an enum with the given name and returns it.
    pub fn new_enum(&mut self, name: &str) -> (r: &mut Enum)
        ensures
            is_bare(r.type_def, name@),
            r.variants@.len() == 0,
            appended(*old(self), *final(self), Item::Enum(*final(r))),
    {
        push_enum_item(&mut self.items, Enum::new(name))
    }

    /// Adds an enum.
    pub fn push_enum(&mut self, item: Enum) -> (r: &mut Self)
        ensures
            appended(*old(self), *r, Item::Enum(item)),
            *final(self) == *final(r),
    {
        self.items.push(Item::Enum(item));
        self
    }

    /// Adds an enum whose variants may carry discriminants, and returns it.
    pub fn new_discriminant_enum(&mut self, name: &str) -> (r: &mut Enum<DiscriminantVariant>)
        ensures
            is_bare(r.type_def, name@),
            r.variants@.len() == 0,
            appended(*old(self), *final(self), Item::DiscriminantEnum(*final(r))),
    {
        push_discriminant_enum_item(&mut self.items, Enum::new(name))
    }

    /// Adds an enum whose variants may carry discriminants.
    pub fn push_discriminant_enum(&mut self, item: Enum<DiscriminantVariant>) -> (r: &mut Self)
        ensures
            appended(*old(self), *r, Item::DiscriminantEnum(item)),
            *final(self) == *final(r),
    {
        self.items.push(Item::DiscriminantEnum(item));
        self
    }

    /// Adds an inherent impl block for the named type, and returns it.
    pub fn new_impl(&mut self, target: &str) -> (r: &mut Impl)
        ensures
            is_bare_impl(*r, target@),
            appended(*old(self), *final(self), Item::Impl(*final(r))),
    {
        push_impl_item(&mut self.items, Impl::new(target))
    }

    /// Adds an impl block.
    pub fn push_impl(&mut self, item: Impl) -> (r: &mut Self)
        ensures
            appended(*old(self), *r, Item::Impl(item)),
            *final(self) == *final(r),
    {
        self.items.push(Item::Impl(item));
        self
    }

    /// Adds a `static` item and returns it.
    pub fn new_static(&mut self, name: &str, ty: &str) -> (r: &mut VarDef)
        ensures
            is_bare_var(*r, VarDefKind::Static, name@, ty@),
            appended(*old(self), *final(self), Item::VarDef(*final(r))),
    {
        push_var_def_item(&mut self.items, VarDef::new_static(name, ty))
    }

    /// Adds a `const` item and returns it.
    pub fn new_const(&mut self, name: &str, ty: &str) -> (r: &mut VarDef)
        ensures
            is_bare_var(*r, VarDefKind::Const, name@, ty@),
            appended(*old(self), *final(self), Item::VarDef(*final(r))),
    {
        push_var_def_item(&mut self.items, VarDef::new_const(name, ty))
    }

    /// Adds a `static` or `const` item.
    pub fn push_var_def(&mut self, item: VarDef) -> (r: &mut Self)
        ensures
            appended(*old(self), *r, Item::VarDef(item)),
            *final(self) == *final(r),
    {
        self.items.push(Item::VarDef(item));
        self
    }

    /// Adds text to include verbatim.
    pub fn raw(&mut self, val: &str) -> (r: &mut Self)
        ensures
            *r == (Scope { items: r.items, ..*old(self) }),
            r.items@.len() == old(self).items@.len() + 1,
            r.items@.drop_last() == old(self).items@,
            r.items@.last() matches Item::Raw(v) && v@ == val@,
            *final(self) == *final(r),
    {
        self.items.push(Item::Raw(String::from_str(val)));
        proof { assert(self.items@.drop_last() =~= old(self).items@); }
        self
    }

    /// Renders the scope with an indentation of four spaces, without the
    /// final newline.
    pub fn to_string(&self) -> (r: String)
        requires
            scope_renders(*self),
        ensures
            r@ == rendered(*self),
    {
        let mut fmt = Formatter::new();
        self.fmt(&mut fmt);
        let ends_line = fmt.is_start_of_line();
        let out = fmt.into_string();
        if ends_line && !out.as_str().is_empty() {
            let n = out.as_str().unicode_len();
            String::from_str(out.as_str().substring_char(0, n - 1))
        } else {
            out
        }
    }
}

impl Module {
    /// Returns a module with the given name and an empty scope.
    pub fn new(name: &str) -> (r: Module)
        ensures
            is_bare_module(r, name@),
    {
        Module { name: String::from_str(name), vis: None, scope: Scope::new() }
    }

    /// The module's scope, for changes.
    pub fn scope(&mut self) -> (r: &mut Scope)
        ensures
            *r == old(self).scope,
            *final(self) == (Module { scope: *final(r), ..*old(self) }),
    {
        &mut self.scope
    }

    /// Sets the visibility.
    pub fn vis(&mut self, vis: &str) -> (r: &mut Self)
        ensures
            *r == (Module { vis: Some(r.vis->0), ..*old(self) }),
            r.vis->0@ == vis@,
            *final(self) == *final(r),
    {
        self.vis = Some(String::from_str(vis));
        self
    }

    /// Imports a name into the module's scope; see `Scope::import`.
    pub fn import(&mut self, path: &str, ty: &str) -> (r: &mut Self)
        ensures
            *r == (Module { scope: r.scope, ..*old(self) }),
            r.scope == (Scope { imports: r.scope.imports, ..old(self).scope }),
            exists|imp: Import| r.scope.imports.view() == with_import(old(self).scope.imports.view(), path@, first_segment(ty@), imp)
                && match lookup_import(old(self).scope.imports.view(), path@, first_segment(ty@)) {
                    Some(i) => imp == i,
                    None => imp.line@ == path@ + "::"@ + first_segment(ty@) && imp.vis is None,
                },
            *final(self) == *final(r),
    {
        let imp = self.scope.import(path, ty);
        self
    }

    /// Adds a module to the module's scope; see `Scope::new_module`.
    pub fn new_module(&mut self, name: &str) -> (r: &mut Module)
        requires
            module_index(old(self).scope.items@, name@) < 0,
        ensures
            is_bare_module(*r, name@),
            *final(self) == (Module { scope: final(self).scope, ..*old(self) }),
            appended(old(self).scope, final(self).scope, Item::Module(*final(r))),
    {
        self.scope.new_module(name)
    }

    /// See `Scope::get_module`.
    pub fn get_module(&self, name: &str) -> (r: Option<&Module>)
        ensures
            module_index(self.scope.items@, name@) < 0 ==> r is None,
            module_index(self.scope.items@, name@) >= 0 ==> r is Some
                && self.scope.items@[module_index(self.scope.items@, name@)] == Item::Module(*r.unwrap()),
    {
        self.scope.get_module(name)
    }

    /// See `Scope::get_module_mut`.
    pub fn get_module_mut(&mut self, name: &str) -> (r: Option<&mut Module>)
        ensures
            module_index(old(self).scope.items@, name@) < 0 ==> r is None && *final(self) == *old(self),
            module_index(old(self).scope.items@, name@) >= 0 ==> {
                let k = module_index(old(self).scope.items@, name@);
                &&& r is Some
                &&& old(self).scope.items@[k] == Item::Module(*r.unwrap())
                &&& *final(self) == (Module { scope: final(self).scope, ..*old(self) })
                &&& final(self).scope == (Scope { items: final(self).scope.items, ..old(self).scope })
                &&& final(self).scope.items@ == old(self).scope.items@.update(k, Item::Module(*final(r.unwrap())))
            },
    {
        self.scope.get_module_mut(name)
    }

    /// See `Scope::get_or_new_module`.
    pub fn get_or_new_module(&mut self, name: &str) -> (r: &mut Module)
        ensures
            *final(self) == (Module { scope: final(self).scope, ..*old(self) }),
            module_index(old(self).scope.items@, name@) >= 0 ==> {
                let k = module_index(old(self).scope.items@, name@);
                &&& old(self).scope.items@[k] == Item::Module(*r)
                &&& final(self).scope == (Scope { items: final(self).scope.items, ..old(self).scope })
                &&& final(self).scope.items@ == old(self).scope.items@.update(k, Item::Module(*final(r)))
            },
            module_index(old(self).scope.items@, name@) < 0 ==> {
                &&& is_bare_module(*r, name@)
                &&& appended(old(self).scope, final(self).scope, Item::Module(*final(r)))
            },
    {
        self.scope.get_or_new_module(name)
    }

    /// Adds a module to the module's scope; see `Scope::push_module`.
    pub fn push_module(&mut self, item: Module) -> (r: &mut Self)
        requires
            module_index(old(self).scope.items@, item.name@) < 0,
        ensures
            *r == (Module { scope: r.scope, ..*old(self) }),
            appended(old(self).scope, r.scope, Item::Module(item)),
            *final(self) == *final(r),
    {
        self.scope.push_module(item);
        self
    }

    /// Adds a struct to the module's scope and returns it.
    pub fn new_struct(&mut self, name: &str) -> (r: &mut Struct)
        ensures
            is_bare(r.type_def, name@),
            r.fields is Empty,
            *final(self) == (Module { scope: final(self).scope, ..*old(self) }),
            appended(old(self).scope, final(self).scope, Item::Struct(*final(r))),
    {
        self.scope.new_struct(name)
    }

    /// Adds a struct.
    pub fn push_struct(&mut self, item: Struct) -> (r: &mut Self)
        ensures
            *r == (Module { scope: r.scope, ..*old(self) }),
            appended(old(self).scope, r.scope, Item::Struct(item)),
            *final(self) == *final(r),
    {
        self.scope.push_struct(item);
        self
    }

    /// Adds a function to the module's scope and returns it.
    pub fn new_fn(&mut self, name: &str) -> (r: &mut Function)
        ensures
            is_bare_fn(*r, name@, Some(Seq::empty())),
            *final(self) == (Module { scope: final(self).scope, ..*old(self) }),
            appended(old(self).scope, final(self).scope, Item::Function(*final(r))),
    {
        self.scope.new_fn(name)
    }

    /// Adds a function.
    pub fn push_fn(&mut self, item: Function) -> (r: &mut Self)
        ensures
            *r == (Module { scope: r.scope, ..*old(self) }),
            appended(old(self).scope, r.scope, Item::Function(item)),
            *final(self) == *final(r),
    {
        self.scope.push_fn(item);
        self
    }

    /// Adds an enum to the module's scope and returns it.
    pub fn new_enum(&mut self, name: &str) -> (r: &mut Enum)
        ensures
            is_bare(r.type_def, name@),
            r.variants@.len() == 0,
            *final(self) == (Module { scope: final(self).scope, ..*old(self) }),
            appended(old(self).scope, final(self).scope, Item::Enum(*final(r))),
    {
        self.scope.new_enum(name)
    }

    /// Adds an enum.
    pub fn push_enum(&mut self, item: Enum) -> (r: &mut Self)
        ensures
            *r == (Module { scope: r.scope, ..*old(self) }),
            appended(old(self).scope, r.scope, Item::Enum(item)),
            *final(self) == *final(r),
    {
        self.scope.push_enum(item);
        self
    }

    /// Adds an impl block to the module's scope and returns it.
    pub fn new_impl(&mut self, target: &str) -> (r: &mut Impl)
        ensures
            is_bare_impl(*r, target@),
            *final(self) == (Module { scope: final(self).scope, ..*old(self) }),
            appended(old(self).scope, final(self).scope, Item::Impl(*final(r))),
    {
        self.scope.new_impl(target)
    }

    /// Adds an impl block.
    pub fn push_impl(&mut self, item: Impl) -> (r: &mut Self)
        ensures
            *r == (Module { scope: r.scope, ..*old(self) }),
            appended(old(self).scope, r.scope, Item::Impl(item)),
            *final(self) == *final(r),
    {
        self.scope.push_impl(item);
        self
    }

    /// Adds a trait.
    pub fn push_trait(&mut self, item: Trait) -> (r: &mut Self)
        ensures
            *r == (Module { scope: r.scope, ..*old(self) }),
            appended(old(self).scope, r.scope, Item::Trait(item)),
            *final(self) == *final(r),
    {
        self.scope.push_trait(item);
        self
    }
}

fn push_var_def_item(v: &mut Vec<Item>, x: VarDef) -> (r: &mut VarDef)
    ensures
        *r == x,
        final(v)@ == old(v)@.push(Item::VarDef(*final(r))),
{
    v.push(Item::VarDef(x));
    let n = v.len() - 1;
    let e = &mut v[n];
    let ghost fe = *final(e);
    match e {
        Item::VarDef(d) => {
            proof { assert(fe == Item::VarDef(*final(d))); }
            d
        },
        _ => vstd::pervasive::unreached(),
    }
}

fn push_module_item(v: &mut Vec<Item>, x: Module) -> (r: &mut Module)
    ensures
        *r == x,
        final(v)@ == old(v)@.push(Item::Module(*final(r))),
{
    v.push(Item::Module(x));
    let n = v.len() - 1;
    let e = &mut v[n];
    let ghost fe = *final(e);
    match e {
        Item::Module(d) => {
            proof { assert(fe == Item::Module(*final(d))); }
            d
        },
        _ => vstd::pervasive::unreached(),
    }
}

fn push_struct_item(v: &mut Vec<Item>, x: Struct) -> (r: &mut Struct)
    ensures
        *r == x,
        final(v)@ == old(v)@.push(Item::Struct(*final(r))),
{
    v.push(Item::Struct(x));
    let n = v.len() - 1;
    let e = &mut v[n];
    let ghost fe = *final(e);
    match e {
        Item::Struct(d) => {
            proof { assert(fe == Item::Struct(*final(d))); }
            d
        },
        _ => vstd::pervasive::unreached(),
    }
}

fn push_function_item(v: &mut Vec<Item>, x: Function) -> (r: &mut Function)
    ensures
        *r == x,
        final(v)@ == old(v)@.push(Item::Function(*final(r))),
{
    v.push(Item::Function(x));
    let n = v.len() - 1;
    let e = &mut v[n];
    let ghost fe = *final(e);
    match e {
        Item::Function(d) => {
            proof { assert(fe == Item::Function(*final(d))); }
            d
        },
        _ => vstd::pervasive::unreached(),
    }
}

fn push_trait_item(v: &mut Vec<Item>, x: Trait) -> (r: &mut Trait)
    ensures
        *r == x,
        final(v)@ == old(v)@.push(Item::Trait(*final(r))),
{
    v.push(Item::Trait(x));
    let n = v.len() - 1;
    let e = &mut v[n];
    let ghost fe = *final(e);
    match e {
        Item::Trait(d) => {
            proof { assert(fe == Item::Trait(*final(d))); }
            d
        },
        _ => vstd::pervasive::unreached(),
    }
}

fn push_enum_item(v: &mut Vec<Item>, x: Enum) -> (r: &mut Enum)
    ensures
        *r == x,
        final(v)@ == old(v)@.push(Item::Enum(*final(r))),
{
    v.push(Item::Enum(x));
    let n = v.len() - 1;
    let e = &mut v[n];
    let ghost fe = *final(e);
    match e {
        Item::Enum(d) => {
            proof { assert(fe == Item::Enum(*final(d))); }
            d
        },
        _ => vstd::pervasive::unreached(),
    }
}

fn push_discriminant_enum_item(v: &mut Vec<Item>, x: Enum<DiscriminantVariant>) -> (r: &mut Enum<DiscriminantVariant>)
    ensures
        *r == x,
        final(v)@ == old(v)@.push(Item::DiscriminantEnum(*final(r))),
{
    v.push(Item::DiscriminantEnum(x));
    let n = v.len() - 1;
    let e = &mut v[n];
    let ghost fe = *final(e);
    match e {
        Item::DiscriminantEnum(d) => {
            proof { assert(fe == Item::DiscriminantEnum(*final(d))); }
            d
        },
        _ => vstd::pervasive::unreached(),
    }
}

fn push_impl_item(v: &mut Vec<Item>, x: Impl) -> (r: &mut Impl)
    ensures
        *r == x,
        final(v)@ == old(v)@.push(Item::Impl(*final(r))),
{
    v.push(Item::Impl(x));
    let n = v.len() - 1;
    let e = &mut v[n];
    let ghost fe = *final(e);
    match e {
        Item::Impl(d) => {
            proof { assert(fe == Item::Impl(*final(d))); }
            d
        },
        _ => vstd::pervasive::unreached(),
    }
}

/// Lends the module at the given index.
fn module_at_mut(v: &mut Vec<Item>, i: usize) -> (r: &mut Module)
    requires
        i < old(v)@.len(),
        old(v)@[i as int] is Module,
    ensures
        old(v)@[i as int] == Item::Module(*r),
        final(v)@ == old(v)@.update(i as int, Item::Module(*final(r))),
{
    let e = &mut v[i];
    let ghost fe = *final(e);
    match e {
        Item::Module(d) => {
            proof { assert(fe == Item::Module(*final(d))); }
            d
        },
        _ => vstd::pervasive::unreached(),
    }
}
} // verus!
