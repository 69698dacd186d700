//! Building the model of a Python module from a lowered document.

use crate::ast::{
    declaration_views, field_views, Class, ClassView, Declaration, DeclarationView, Field,
    FieldView, File, FileView, FunctionDeclaration, FunctionView, PyType, PyTypeView, Variable,
};
use crate::ident::{ident, ident_spec};
use crate::paths::{parent, relative_path, relative_spec, AbsPath};
use crate::text::{join_spec, join_strings, views};
use crate::types::{py_type_spec, python_type_name, Enumeration, StructField, Type, TypeError};
use vstd::prelude::*;
use vstd::string::*;

verus! {

/// A public property of a component or a global: its name and type.
#[derive(Debug)]
pub struct PublicProperty {
    pub name: String,
    pub ty: Type,
}

/// A global singleton of the lowered document.
#[derive(Debug)]
pub struct GlobalComponent {
    pub name: String,
    pub public_properties: Vec<PublicProperty>,
    /// Further names under which the same singleton is exported.
    pub aliases: Vec<String>,
    pub exported: bool,
    pub must_generate: bool,
}

/// An instantiable component that the document exports.
#[derive(Debug)]
pub struct PublicComponent {
    pub name: String,
    pub public_properties: Vec<PublicProperty>,
    /// The names of the globals that the component must receive, in order.
    pub global_dependencies: Vec<String>,
}

/// What an export refers to.
#[derive(Debug)]
pub enum ExportTarget {
    Component { id: String, is_global: bool },
    Type(Type),
}

/// One entry of the export table: an external name and what it refers to.
#[derive(Debug)]
pub struct ExportEntry {
    pub name: String,
    pub target: ExportTarget,
}

/// A compiled unit, as lowering hands it to the backend.
#[derive(Debug)]
pub struct Document {
    /// The structs and enumerations that the unit uses, in catalogue order.
    pub used_types: Vec<Type>,
    pub globals: Vec<GlobalComponent>,
    pub public_components: Vec<PublicComponent>,
    pub exports: Vec<ExportEntry>,
    /// The absolute path of the unit's main file, where it is known.
    pub main_file: Option<AbsPath>,
}

/// Why no module was generated.
#[derive(Clone, Copy, Debug, PartialEq, Eq, Structural)]
pub enum GenerateError {
    /// A type could not be mapped.
    Type(TypeError),
    /// The path of the main file is not known.
    MissingMainFile,
}

pub open spec fn ty_err(t: Type) -> Option<TypeError> {
    match py_type_spec(t) {
        Err(e) => Some(e),
        Ok(_) => None,
    }
}

pub open spec fn ty_text(t: Type) -> Seq<char> {
    match py_type_spec(t) {
        Ok(x) => x,
        Err(_) => Seq::empty(),
    }
}

/// A field with a sanitized name and a plain type annotation.
pub open spec fn plain_field(name: Seq<char>, t: Type) -> FieldView {
    FieldView {
        name: ident_spec(name),
        ty: Some(PyTypeView { name: ty_text(t), optional: false }),
        default_value: None,
    }
}

/// A keyword parameter with a sanitized name, an optional type, and
/// `None` as its default.
pub open spec fn keyword_field(name: Seq<char>, t: Type) -> FieldView {
    FieldView {
        name: ident_spec(name),
        ty: Some(PyTypeView { name: ty_text(t), optional: true }),
        default_value: Some("None"@),
    }
}

/// The first error among the types of the struct fields.
pub open spec fn fields_error(fs: Seq<StructField>) -> Option<TypeError>
    decreases fs.len(),
{
    if fs.len() == 0 {
        None
    } else {
        match fields_error(fs.drop_last()) {
            Some(e) => Some(e),
            None => ty_err(fs.last().ty),
        }
    }
}

/// The first error among the types of the properties.
pub open spec fn props_error(ps: Seq<PublicProperty>) -> Option<TypeError>
    decreases ps.len(),
{
    if ps.len() == 0 {
        None
    } else {
        match props_error(ps.drop_last()) {
            Some(e) => Some(e),
            None => ty_err(ps.last().ty),
        }
    }
}

pub open spec fn struct_field_views(fs: Seq<StructField>) -> Seq<FieldView> {
    fs.map_values(|f: StructField| plain_field(f.name@, f.ty))
}

pub open spec fn struct_keyword_views(fs: Seq<StructField>) -> Seq<FieldView> {
    fs.map_values(|f: StructField| keyword_field(f.name@, f.ty))
}

pub open spec fn property_field_views(ps: Seq<PublicProperty>) -> Seq<FieldView> {
    ps.map_values(|p: PublicProperty| plain_field(p.name@, p.ty))
}

/// The class of a named struct: its fields, and a constructor whose
/// parameters are all keyword-only and optional.
pub open spec fn struct_class_view(name: Seq<char>, fs: Seq<StructField>) -> DeclarationView {
    DeclarationView::Class(
        ClassView {
            name: ident_spec(name),
            super_class: None,
            fields: struct_field_views(fs),
            function_declarations: seq![
                FunctionView {
                    name: "__init__"@,
                    positional_parameters: Seq::empty(),
                    keyword_parameters: struct_keyword_views(fs),
                    return_type: None,
                },
            ],
        },
    )
}

pub open spec fn enum_member_view(v: Seq<char>) -> FieldView {
    FieldView { name: ident_spec(v), ty: None, default_value: Some("\""@ + v + "\""@) }
}

/// The string-backed enum class of an enumeration, one member per value.
pub open spec fn enum_class_view(en: Enumeration) -> DeclarationView {
    DeclarationView::Class(
        ClassView {
            name: ident_spec(en.name@),
            super_class: Some("enum.StrEnum"@),
            fields: views(en.values@).map_values(|v: Seq<char>| enum_member_view(v)),
            function_declarations: Seq::empty(),
        },
    )
}

/// The declarations that one catalogue type yields.
pub open spec fn type_decls(t: Type) -> Seq<DeclarationView> {
    match t {
        Type::Struct(s) => match s.name {
            Some(n) => seq![struct_class_view(n@, s.fields@)],
            None => Seq::empty(),
        },
        Type::Enumeration(en) => seq![enum_class_view(en)],
        _ => Seq::empty(),
    }
}

pub open spec fn type_error(t: Type) -> Option<TypeError> {
    match t {
        Type::Struct(s) => if s.name is Some {
            fields_error(s.fields@)
        } else {
            None
        },
        _ => None,
    }
}

pub open spec fn types_decls(ts: Seq<Type>) -> Seq<DeclarationView>
    decreases ts.len(),
{
    if ts.len() == 0 {
        Seq::empty()
    } else {
        types_decls(ts.drop_last()) + type_decls(ts.last())
    }
}

pub open spec fn types_error(ts: Seq<Type>) -> Option<TypeError>
    decreases ts.len(),
{
    if ts.len() == 0 {
        None
    } else {
        match types_error(ts.drop_last()) {
            Some(e) => Some(e),
            None => type_error(ts.last()),
        }
    }
}

pub open spec fn has_enum(ts: Seq<Type>) -> bool {
    exists|i: int| 0 <= i < ts.len() && (#[trigger] ts[i]) is Enumeration
}

} // verus!

verus! {

proof fn lemma_fields_error_persists(fs: Seq<StructField>, k: int)
    requires
        0 <= k <= fs.len(),
        fields_error(fs.take(k)) is Some,
    ensures
        fields_error(fs) == fields_error(fs.take(k)),
    decreases fs.len(),
{
    if k == fs.len() {
        assert(fs.take(k) =~= fs);
    } else {
        assert(fs.drop_last().take(k) =~= fs.take(k));
        lemma_fields_error_persists(fs.drop_last(), k);
    }
}

proof fn lemma_props_error_persists(ps: Seq<PublicProperty>, k: int)
    requires
        0 <= k <= ps.len(),
        props_error(ps.take(k)) is Some,
    ensures
        props_error(ps) == props_error(ps.take(k)),
    decreases ps.len(),
{
    if k == ps.len() {
        assert(ps.take(k) =~= ps);
    } else {
        assert(ps.drop_last().take(k) =~= ps.take(k));
        lemma_props_error_persists(ps.drop_last(), k);
    }
}

/// The type expression of a type known to map.
fn mapped_type_name(t: &Type) -> (r: Result<String, TypeError>)
    ensures
        match r {
            Ok(s) => ty_err(*t) is None && s@ == ty_text(*t),
            Err(e) => ty_err(*t) == Some(e),
        },
{
    python_type_name(t)
}

/// The class of a named struct.
fn struct_class(name: &String, fields: &Vec<StructField>) -> (r: Result<Declaration, TypeError>)
    ensures
        match r {
            Ok(d) => fields_error(fields@) is None && d.view() == struct_class_view(
                name@,
                fields@,
            ),
            Err(e) => fields_error(fields@) == Some(e),
        },
{
    let mut plain: Vec<Field> = Vec::new();
    let mut keyword: Vec<Field> = Vec::new();
    let mut i: usize = 0;
    assert(field_views(plain@) =~= struct_field_views(fields@.take(0)));
    assert(field_views(keyword@) =~= struct_keyword_views(fields@.take(0)));
    while i < fields.len()
        invariant
            0 <= i <= fields.len(),
            fields_error(fields@.take(i as int)) is None,
            field_views(plain@) == struct_field_views(fields@.take(i as int)),
            field_views(keyword@) == struct_keyword_views(fields@.take(i as int)),
        decreases fields.len() - i,
    {
        let f = &fields[i];
        assert(fields@.take(i + 1).drop_last() =~= fields@.take(i as int));
        let ty = match mapped_type_name(&f.ty) {
            Ok(ty) => ty,
            Err(e) => {
                proof {
                    lemma_fields_error_persists(fields@, i + 1);
                }
                return Err(e);
            },
        };
        let ghost p0 = plain@;
        let ghost k0 = keyword@;
        plain.push(
            Field {
                name: ident(f.name.as_str()),
                ty: Some(PyType { name: ty.clone(), optional: false }),
                default_value: None,
            },
        );
        keyword.push(
            Field {
                name: ident(f.name.as_str()),
                ty: Some(PyType { name: ty, optional: true }),
                default_value: Some(String::from_str("None")),
            },
        );
        assert(field_views(plain@) =~= field_views(p0).push(plain_field(f.name@, f.ty)));
        assert(field_views(keyword@) =~= field_views(k0).push(keyword_field(f.name@, f.ty)));
        assert(struct_field_views(fields@.take(i + 1)) =~= struct_field_views(
            fields@.take(i as int),
        ).push(plain_field(f.name@, f.ty)));
        assert(struct_keyword_views(fields@.take(i + 1)) =~= struct_keyword_views(
            fields@.take(i as int),
        ).push(keyword_field(f.name@, f.ty)));
        i += 1;
    }
    assert(fields@.take(i as int) =~= fields@);
    let ctor = FunctionDeclaration {
        name: String::from_str("__init__"),
        positional_parameters: Vec::new(),
        keyword_parameters: keyword,
        return_type: None,
    };
    assert(views(ctor.positional_parameters@) =~= Seq::<Seq<char>>::empty());
    let ghost cv = ctor.view();
    let mut fns: Vec<FunctionDeclaration> = Vec::new();
    fns.push(ctor);
    assert(crate::ast::function_views(fns@) =~= seq![cv]);
    let class = Class { name: ident(name.as_str()), super_class: None, fields: plain, function_declarations: fns };
    let d = Declaration::Class(class);
    assert(d.view() =~~= struct_class_view(name@, fields@));
    Ok(d)
}

/// The string-backed enum class of an enumeration.
fn enum_class(en: &Enumeration) -> (r: Declaration)
    ensures
        r.view() == enum_class_view(*en),
{
    let mut members: Vec<Field> = Vec::new();
    let mut i: usize = 0;
    while i < en.values.len()
        invariant
            0 <= i <= en.values.len(),
            field_views(members@) =~= views(en.values@.take(i as int)).map_values(
                |v: Seq<char>| enum_member_view(v),
            ),
        decreases en.values.len() - i,
    {
        let v = &en.values[i];
        let ghost m0 = members@;
        members.push(
            Field {
                name: ident(v.as_str()),
                ty: None,
                default_value: Some(String::from_str("\"").concat(v.as_str()).concat("\"")),
            },
        );
        assert(field_views(members@) =~= field_views(m0).push(enum_member_view(v@)));
        assert(views(en.values@.take(i + 1)).map_values(|v: Seq<char>| enum_member_view(v))
            =~= views(en.values@.take(i as int)).map_values(|v: Seq<char>| enum_member_view(v)).push(
            enum_member_view(v@),
        ));
        i += 1;
    }
    assert(en.values@.take(i as int) =~= en.values@);
    let fns: Vec<FunctionDeclaration> = Vec::new();
    assert(crate::ast::function_views(fns@) =~= Seq::empty());
    let d = Declaration::Class(
        Class {
            name: ident(en.name.as_str()),
            super_class: Some(String::from_str("enum.StrEnum")),
            fields: members,
            function_declarations: fns,
        },
    );
    assert(d.view() =~~= enum_class_view(*en));
    d
}

/// One field per public property: sanitized name, mapped type.
fn generate_fields_for_public_properties(props: &Vec<PublicProperty>) -> (r: Result<
    Vec<Field>,
    TypeError,
>)
    ensures
        match r {
            Ok(v) => props_error(props@) is None && field_views(v@) == property_field_views(props@),
            Err(e) => props_error(props@) == Some(e),
        },
{
    let mut out: Vec<Field> = Vec::new();
    let mut i: usize = 0;
    assert(field_views(out@) =~= property_field_views(props@.take(0)));
    while i < props.len()
        invariant
            0 <= i <= props.len(),
            props_error(props@.take(i as int)) is None,
            field_views(out@) == property_field_views(props@.take(i as int)),
        decreases props.len() - i,
    {
        let p = &props[i];
        assert(props@.take(i + 1).drop_last() =~= props@.take(i as int));
        let ty = match mapped_type_name(&p.ty) {
            Ok(ty) => ty,
            Err(e) => {
                proof {
                    lemma_props_error_persists(props@, i + 1);
                }
                return Err(e);
            },
        };
        let ghost o0 = out@;
        out.push(
            Field {
                name: ident(p.name.as_str()),
                ty: Some(PyType { name: ty, optional: false }),
                default_value: None,
            },
        );
        assert(field_views(out@) =~= field_views(o0).push(plain_field(p.name@, p.ty)));
        assert(property_field_views(props@.take(i + 1)) =~= property_field_views(
            props@.take(i as int),
        ).push(plain_field(p.name@, p.ty)));
        i += 1;
    }
    assert(props@.take(i as int) =~= props@);
    Ok(out)
}

} // verus!

verus! {

pub open spec fn is_generated(g: GlobalComponent) -> bool {
    g.exported && g.must_generate
}

pub open spec fn alias_view(alias: Seq<char>, target: Seq<char>) -> DeclarationView {
    DeclarationView::Variable { name: ident_spec(alias), value: ident_spec(target) }
}

/// The class of a global, then one alias per further export name.
pub open spec fn global_decls(g: GlobalComponent) -> Seq<DeclarationView> {
    seq![
        DeclarationView::Class(
            ClassView {
                name: ident_spec(g.name@),
                super_class: None,
                fields: property_field_views(g.public_properties@),
                function_declarations: Seq::empty(),
            },
        ),
    ] + views(g.aliases@).map_values(|a: Seq<char>| alias_view(a, g.name@))
}

pub open spec fn globals_decls(gs: Seq<GlobalComponent>) -> Seq<DeclarationView>
    decreases gs.len(),
{
    if gs.len() == 0 {
        Seq::empty()
    } else {
        globals_decls(gs.drop_last()) + if is_generated(gs.last()) {
            global_decls(gs.last())
        } else {
            Seq::empty()
        }
    }
}

pub open spec fn globals_error(gs: Seq<GlobalComponent>) -> Option<TypeError>
    decreases gs.len(),
{
    if gs.len() == 0 {
        None
    } else {
        match globals_error(gs.drop_last()) {
            Some(e) => Some(e),
            None => if is_generated(gs.last()) {
                props_error(gs.last().public_properties@)
            } else {
                None
            },
        }
    }
}

/// The field through which a component reaches a global: named and typed
/// by the global's class.
pub open spec fn global_field(name: Seq<char>) -> FieldView {
    FieldView {
        name: ident_spec(name),
        ty: Some(PyTypeView { name: ident_spec(name), optional: false }),
        default_value: None,
    }
}

pub open spec fn global_fields(names: Seq<Seq<char>>) -> Seq<FieldView> {
    names.map_values(|g: Seq<char>| global_field(g))
}

/// The class of a public component: its properties, then one field per
/// global that it depends on.
pub open spec fn component_decl(c: PublicComponent) -> DeclarationView {
    DeclarationView::Class(
        ClassView {
            name: ident_spec(c.name@),
            super_class: Some("slint.Component"@),
            fields: property_field_views(c.public_properties@) + global_fields(
                views(c.global_dependencies@),
            ),
            function_declarations: Seq::empty(),
        },
    )
}

pub open spec fn components_decls(cs: Seq<PublicComponent>) -> Seq<DeclarationView>
    decreases cs.len(),
{
    if cs.len() == 0 {
        Seq::empty()
    } else {
        components_decls(cs.drop_last()).push(component_decl(cs.last()))
    }
}

pub open spec fn components_error(cs: Seq<PublicComponent>) -> Option<TypeError>
    decreases cs.len(),
{
    if cs.len() == 0 {
        None
    } else {
        match components_error(cs.drop_last()) {
            Some(e) => Some(e),
            None => props_error(cs.last().public_properties@),
        }
    }
}

/// The declared name that an export refers to, where it gets an alias at
/// all: a component that is no global, a declared named struct, or an
/// enumeration.
pub open spec fn internal_name(e: ExportEntry) -> Option<Seq<char>> {
    match e.target {
        ExportTarget::Component { id, is_global } => if !is_global {
            Some(id@)
        } else {
            None
        },
        ExportTarget::Type(t) => match t {
            Type::Struct(s) => if s.name is Some && s.has_declaration {
                Some(s.name->Some_0@)
            } else {
                None
            },
            Type::Enumeration(en) => Some(en.name@),
            _ => None,
        },
    }
}

/// Whether an export's external name differs both from the declared name
/// it refers to and from that name sanitized.
pub open spec fn renamed(external: Seq<char>, internal: Seq<char>) -> bool {
    external != internal && external != ident_spec(internal)
}

/// The alias that an export yields: none where its external name is the
/// declared name, as written or sanitized.
pub open spec fn export_decls(e: ExportEntry) -> Seq<DeclarationView> {
    match internal_name(e) {
        Some(n) => if renamed(e.name@, n) {
            seq![alias_view(e.name@, n)]
        } else {
            Seq::empty()
        },
        None => Seq::empty(),
    }
}

pub open spec fn exports_decls(es: Seq<ExportEntry>) -> Seq<DeclarationView>
    decreases es.len(),
{
    if es.len() == 0 {
        Seq::empty()
    } else {
        exports_decls(es.drop_last()) + export_decls(es.last())
    }
}

/// The first type error met while generating a document.
pub open spec fn doc_error(doc: Document) -> Option<TypeError> {
    match types_error(doc.used_types@) {
        Some(e) => Some(e),
        None => match globals_error(doc.globals@) {
            Some(e) => Some(e),
            None => components_error(doc.public_components@),
        },
    }
}

pub open spec fn opt_path_view(p: Option<&AbsPath>) -> Option<Seq<Seq<char>>> {
    match p {
        Some(p) => Some(p.view()),
        None => None,
    }
}

/// The path, relative to the directory of the destination file, of the
/// main file; `None` where there is no destination or it is the root.
pub open spec fn relative_target(main: Seq<Seq<char>>, dest: Option<Seq<Seq<char>>>) -> Option<
    Seq<Seq<char>>,
> {
    match dest {
        Some(d) => if d.len() > 0 {
            Some(relative_spec(main.drop_last(), d.drop_last()).push(main.last()))
        } else {
            None
        },
        None => None,
    }
}

/// The statement that loads the main file at run time and merges what it
/// declares into the module.
pub open spec fn load_statement_spec(rel: Seq<Seq<char>>) -> Seq<char> {
    "globals().update(vars(slint.load_file(os.path.join(os.path.dirname(__file__), '"@ + join_spec(
        rel,
        "/"@,
    ) + "'))))"@
}

/// The module generated for a document whose main file is `main`.
pub open spec fn expected_file(
    doc: Document,
    main: Seq<Seq<char>>,
    dest: Option<Seq<Seq<char>>>,
) -> FileView {
    let rel = relative_target(main, dest);
    FileView {
        imports: seq!["slint"@, "typing"@] + (if has_enum(doc.used_types@) {
            seq!["enum"@]
        } else {
            Seq::empty()
        }) + (if rel is Some {
            seq!["os"@]
        } else {
            Seq::empty()
        }),
        declarations: types_decls(doc.used_types@) + globals_decls(doc.globals@) + components_decls(doc.public_components@) + exports_decls(doc.exports@),
        trailing_code: match rel {
            Some(r) => seq![load_statement_spec(r)],
            None => Seq::empty(),
        },
    }
}

} // verus!

verus! {

proof fn lemma_types_error_persists(ts: Seq<Type>, k: int)
    requires
        0 <= k <= ts.len(),
        types_error(ts.take(k)) is Some,
    ensures
        types_error(ts) == types_error(ts.take(k)),
    decreases ts.len(),
{
    if k == ts.len() {
        assert(ts.take(k) =~= ts);
    } else {
        assert(ts.drop_last().take(k) =~= ts.take(k));
        lemma_types_error_persists(ts.drop_last(), k);
    }
}

proof fn lemma_globals_error_persists(gs: Seq<GlobalComponent>, k: int)
    requires
        0 <= k <= gs.len(),
        globals_error(gs.take(k)) is Some,
    ensures
        globals_error(gs) == globals_error(gs.take(k)),
    decreases gs.len(),
{
    if k == gs.len() {
        assert(gs.take(k) =~= gs);
    } else {
        assert(gs.drop_last().take(k) =~= gs.take(k));
        lemma_globals_error_persists(gs.drop_last(), k);
    }
}

proof fn lemma_components_error_persists(cs: Seq<PublicComponent>, k: int)
    requires
        0 <= k <= cs.len(),
        components_error(cs.take(k)) is Some,
    ensures
        components_error(cs) == components_error(cs.take(k)),
    decreases cs.len(),
{
    if k == cs.len() {
        assert(cs.take(k) =~= cs);
    } else {
        assert(cs.drop_last().take(k) =~= cs.take(k));
        lemma_components_error_persists(cs.drop_last(), k);
    }
}

/// The class of a global, then one alias per further export name.
pub fn generate_global(global: &GlobalComponent) -> (r: Result<Vec<Declaration>, TypeError>)
    ensures
        match r {
            Ok(v) => props_error(global.public_properties@) is None && declaration_views(v@)
                == global_decls(*global),
            Err(e) => props_error(global.public_properties@) == Some(e),
        },
{
    let global_name = ident(global.name.as_str());
    let fields = generate_fields_for_public_properties(&global.public_properties)?;
    let fns: Vec<FunctionDeclaration> = Vec::new();
    assert(crate::ast::function_views(fns@) =~= Seq::empty());
    let mut out: Vec<Declaration> = Vec::new();
    out.push(
        Declaration::Class(
            Class {
                name: global_name.clone(),
                super_class: None,
                fields: fields,
                function_declarations: fns,
            },
        ),
    );
    let ghost head = declaration_views(out@);
    let mut i: usize = 0;
    while i < global.aliases.len()
        invariant
            0 <= i <= global.aliases.len(),
            global_name@ == ident_spec(global.name@),
            declaration_views(out@) =~= head + views(global.aliases@.take(i as int)).map_values(
                |a: Seq<char>| alias_view(a, global.name@),
            ),
        decreases global.aliases.len() - i,
    {
        let ghost o0 = out@;
        out.push(
            Declaration::Variable(
                Variable { name: ident(global.aliases[i].as_str()), value: global_name.clone() },
            ),
        );
        assert(declaration_views(out@) =~= declaration_views(o0).push(
            alias_view(global.aliases@[i as int]@, global.name@),
        ));
        assert(views(global.aliases@.take(i + 1)).map_values(
            |a: Seq<char>| alias_view(a, global.name@),
        ) =~= views(global.aliases@.take(i as int)).map_values(
            |a: Seq<char>| alias_view(a, global.name@),
        ).push(alias_view(global.aliases@[i as int]@, global.name@)));
        i += 1;
    }
    assert(global.aliases@.take(i as int) =~= global.aliases@);
    assert(declaration_views(out@) =~~= global_decls(*global));
    Ok(out)
}

/// The class of a public component: its properties, then one field per
/// global that it depends on.
fn generate_public_component(component: &PublicComponent) -> (r: Result<Declaration, TypeError>)
    ensures
        match r {
            Ok(d) => props_error(component.public_properties@) is None && d.view()
                == component_decl(*component),
            Err(e) => props_error(component.public_properties@) == Some(e),
        },
{
    let mut fields = generate_fields_for_public_properties(&component.public_properties)?;
    let ghost head = field_views(fields@);
    let deps = &component.global_dependencies;
    let mut i: usize = 0;
    while i < deps.len()
        invariant
            0 <= i <= deps.len(),
            deps@ == component.global_dependencies@,
            field_views(fields@) =~= head + global_fields(views(deps@.take(i as int))),
        decreases deps.len() - i,
    {
        let name = ident(deps[i].as_str());
        let ghost f0 = fields@;
        fields.push(
            Field {
                name: name.clone(),
                ty: Some(PyType { name: name, optional: false }),
                default_value: None,
            },
        );
        assert(field_views(fields@) =~= field_views(f0).push(global_field(deps@[i as int]@)));
        assert(global_fields(views(deps@.take(i + 1))) =~= global_fields(
            views(deps@.take(i as int)),
        ).push(global_field(deps@[i as int]@)));
        i += 1;
    }
    assert(deps@.take(i as int) =~= deps@);
    let fns: Vec<FunctionDeclaration> = Vec::new();
    assert(crate::ast::function_views(fns@) =~= Seq::empty());
    let d = Declaration::Class(
        Class {
            name: ident(component.name.as_str()),
            super_class: Some(String::from_str("slint.Component")),
            fields: fields,
            function_declarations: fns,
        },
    );
    assert(d.view() =~~= component_decl(*component));
    Ok(d)
}

/// One alias per export whose external name differs from the name it
/// refers to; globals and unnamed or undeclared types get none.
pub fn generate_named_exports(exports: &Vec<ExportEntry>) -> (r: Vec<Declaration>)
    ensures
        declaration_views(r@) == exports_decls(exports@),
{
    let mut out: Vec<Declaration> = Vec::new();
    let mut i: usize = 0;
    assert(declaration_views(out@) =~= exports_decls(exports@.take(0)));
    while i < exports.len()
        invariant
            0 <= i <= exports.len(),
            declaration_views(out@) == exports_decls(exports@.take(i as int)),
        decreases exports.len() - i,
    {
        let e = &exports[i];
        assert(exports@.take(i + 1).drop_last() =~= exports@.take(i as int));
        let target: Option<&String> = match &e.target {
            ExportTarget::Component { id, is_global } => if !*is_global {
                Some(id)
            } else {
                None
            },
            ExportTarget::Type(t) => match t {
                Type::Struct(s) => match &s.name {
                    Some(n) => if s.has_declaration {
                        Some(n)
                    } else {
                        None
                    },
                    None => None,
                },
                Type::Enumeration(en) => Some(&en.name),
                _ => None,
            },
        };
        let ghost o0 = out@;
        match target {
            Some(n) => {
                let type_id = ident(n.as_str());
                if !crate::ident::str_eq(e.name.as_str(), n.as_str())
                    && !crate::ident::str_eq(e.name.as_str(), type_id.as_str()) {
                    let export_id = ident(e.name.as_str());
                    out.push(Declaration::Variable(Variable { name: export_id, value: type_id }));
                    assert(declaration_views(out@) =~= declaration_views(o0).push(
                        alias_view(e.name@, n@),
                    ));
                }
            },
            None => {},
        }
        i += 1;
    }
    assert(exports@.take(i as int) =~= exports@);
    out
}

/// The statement that loads the main file, found at `rel` relative to the
/// generated module, at run time.
fn load_statement(rel: &Vec<String>) -> (r: String)
    ensures
        r@ == load_statement_spec(views(rel@)),
{
    String::from_str(
        "globals().update(vars(slint.load_file(os.path.join(os.path.dirname(__file__), '",
    ).concat(join_strings(rel, "/").as_str()).concat("'))))")
}

/// Appends `more` to `v`.
fn append_declarations(v: &mut Vec<Declaration>, more: Vec<Declaration>)
    ensures
        declaration_views(final(v)@) == declaration_views(old(v)@) + declaration_views(more@),
{
    let mut more = more;
    let ghost m = more@;
    v.append(&mut more);
    assert(declaration_views(v@) =~= declaration_views(old(v)@) + declaration_views(m));
}

/// Builds the module for a document: the classes of its structs and
/// enumerations, of its globals (with their aliases) and of its public
/// components, the aliases of its exports and, where the destination is
/// known, a statement that loads the main file at run time.
pub fn generate(doc: &Document, destination_path: Option<&AbsPath>) -> (r: Result<
    File,
    GenerateError,
>)
    requires
        doc.main_file is Some ==> doc.main_file->Some_0.wf()
            && doc.main_file->Some_0.view().len() > 0,
        destination_path is Some ==> destination_path->Some_0.wf(),
    ensures
        match r {
            Ok(f) => doc_error(*doc) is None && doc.main_file is Some && f.view()
                == expected_file(*doc, doc.main_file->Some_0.view(), opt_path_view(destination_path)),
            Err(GenerateError::Type(e)) => doc_error(*doc) == Some(e),
            Err(GenerateError::MissingMainFile) => doc_error(*doc) is None && doc.main_file is None,
        },
{
    let mut imports: Vec<String> = Vec::new();
    imports.push(String::from_str("slint"));
    imports.push(String::from_str("typing"));
    let mut decls: Vec<Declaration> = Vec::new();
    let mut need_enums_import = false;
    let ts = &doc.used_types;
    let mut i: usize = 0;
    assert(declaration_views(decls@) =~= types_decls(ts@.take(0)));
    while i < ts.len()
        invariant
            0 <= i <= ts.len(),
            ts@ == doc.used_types@,
            types_error(ts@.take(i as int)) is None,
            declaration_views(decls@) == types_decls(ts@.take(i as int)),
            need_enums_import == has_enum(ts@.take(i as int)),
        decreases ts.len() - i,
    {
        assert(ts@.take(i + 1).drop_last() =~= ts@.take(i as int));
        let ghost d0 = decls@;
        match &ts[i] {
            Type::Struct(s) => match &s.name {
                Some(name) => {
                    match struct_class(name, &s.fields) {
                        Ok(d) => {
                            decls.push(d);
                            assert(declaration_views(decls@) =~= declaration_views(d0).push(
                                d.view(),
                            ));
                        },
                        Err(e) => {
                            proof {
                                assert(ts@.take(i + 1).last() == ts@[i as int]);
                                assert(types_error(ts@.take(i + 1)) == Some(e));
                                lemma_types_error_persists(ts@, i + 1);
                            }
                            return Err(GenerateError::Type(e));
                        },
                    }
                },
                None => {
                    assert(declaration_views(decls@) =~= declaration_views(d0) + Seq::empty());
                },
            },
            Type::Enumeration(en) => {
                need_enums_import = true;
                decls.push(enum_class(en));
                assert(declaration_views(decls@) =~= declaration_views(d0).push(
                    enum_class_view(*en),
                ));
            },
            _ => {
                assert(declaration_views(decls@) =~= declaration_views(d0) + Seq::empty());
            },
        }
        proof {
            if ts@[i as int] is Enumeration {
                assert(ts@.take(i + 1)[i as int] is Enumeration);
            }
            if has_enum(ts@.take(i + 1)) && !(ts@[i as int] is Enumeration) {
                let j = choose|j: int| 0 <= j < i + 1 && (#[trigger] ts@.take(i + 1)[j]) is Enumeration;
                assert(ts@.take(i as int)[j] is Enumeration);
            }
            if has_enum(ts@.take(i as int)) {
                let j = choose|j: int| 0 <= j < i && (#[trigger] ts@.take(i as int)[j]) is Enumeration;
                assert(ts@.take(i + 1)[j] is Enumeration);
            }
        }
        i += 1;
    }
    assert(ts@.take(i as int) =~= ts@);
    if need_enums_import {
        imports.push(String::from_str("enum"));
    }
    let gs = &doc.globals;
    let ghost after_types = declaration_views(decls@);
    let mut j: usize = 0;
    assert(globals_decls(gs@.take(0)) =~= Seq::empty());
    while j < gs.len()
        invariant
            0 <= j <= gs.len(),
            ts@ == doc.used_types@,
            gs@ == doc.globals@,
            types_error(ts@) is None,
            globals_error(gs@.take(j as int)) is None,
            declaration_views(decls@) =~= after_types + globals_decls(gs@.take(j as int)),
        decreases gs.len() - j,
    {
        let g = &gs[j];
        assert(gs@.take(j + 1).drop_last() =~= gs@.take(j as int));
        if g.exported && g.must_generate {
            match generate_global(g) {
                Ok(v) => append_declarations(&mut decls, v),
                Err(e) => {
                    proof {
                        assert(gs@.take(j + 1).last() == gs@[j as int]);
                        assert(globals_error(gs@.take(j + 1)) == Some(e));
                        lemma_globals_error_persists(gs@, j + 1);
                    }
                    return Err(GenerateError::Type(e));
                },
            }
        }
        j += 1;
    }
    assert(gs@.take(j as int) =~= gs@);
    let cs = &doc.public_components;
    let ghost after_globals = declaration_views(decls@);
    let mut k: usize = 0;
    assert(components_decls(cs@.take(0)) =~= Seq::empty());
    while k < cs.len()
        invariant
            0 <= k <= cs.len(),
            ts@ == doc.used_types@,
            gs@ == doc.globals@,
            cs@ == doc.public_components@,
            types_error(ts@) is None,
            globals_error(gs@) is None,
            components_error(cs@.take(k as int)) is None,
            declaration_views(decls@) =~= after_globals + components_decls(cs@.take(k as int)),
        decreases cs.len() - k,
    {
        assert(cs@.take(k + 1).drop_last() =~= cs@.take(k as int));
        match generate_public_component(&cs[k]) {
            Ok(d) => {
                let ghost d0 = decls@;
                decls.push(d);
                assert(declaration_views(decls@) =~= declaration_views(d0).push(d.view()));
            },
            Err(e) => {
                proof {
                    assert(cs@.take(k + 1).last() == cs@[k as int]);
                    assert(components_error(cs@.take(k + 1)) == Some(e));
                    lemma_components_error_persists(cs@, k + 1);
                }
                return Err(GenerateError::Type(e));
            },
        }
        k += 1;
    }
    assert(cs@.take(k as int) =~= cs@);
    append_declarations(&mut decls, generate_named_exports(&doc.exports));
    let main_file = match &doc.main_file {
        Some(m) => m,
        None => {
            return Err(GenerateError::MissingMainFile);
        },
    };
    let mut trailing_code: Vec<String> = Vec::new();
    if let Some(dest) = destination_path {
        if let Some(dest_dir) = parent(dest) {
            if let Some(main_dir) = parent(main_file) {
                let mut rel = relative_path(&main_dir, &dest_dir);
                let n = main_file.components.len();
                let ghost r0 = rel@;
                rel.push(main_file.components[n - 1].clone());
                assert(views(rel@) =~= views(r0).push(main_file.view().last()));
                imports.push(String::from_str("os"));
                trailing_code.push(load_statement(&rel));
            }
        }
    }
    let f = File { imports: imports, declarations: decls, trailing_code: trailing_code };
    assert(f.view().imports =~= expected_file(
        *doc,
        main_file.view(),
        opt_path_view(destination_path),
    ).imports);
    assert(f.view().declarations =~= expected_file(
        *doc,
        main_file.view(),
        opt_path_view(destination_path),
    ).declarations);
    assert(f.view().trailing_code =~= expected_file(
        *doc,
        main_file.view(),
        opt_path_view(destination_path),
    ).trailing_code);
    Ok(f)
}

} // verus!

verus! {

/// An export whose external name is the very name it refers to yields no
/// alias.
pub proof fn no_alias_for_unchanged_export(e: ExportEntry)
    requires
        internal_name(e) == Some(e.name@),
    ensures
        export_decls(e).len() == 0,
{
}

/// An export whose external name is the sanitized form of the name it
/// refers to yields no alias.
pub proof fn no_alias_for_export_under_sanitized_name(e: ExportEntry)
    requires
        internal_name(e) is Some,
        e.name@ == ident_spec(internal_name(e)->Some_0),
    ensures
        export_decls(e).len() == 0,
{
}

/// An export of a component, a declared struct or an enumeration under a
/// name that is neither the declared name nor its sanitized form yields
/// exactly one alias, from the sanitized external name to the sanitized
/// declared name.
pub proof fn one_alias_for_renamed_export(e: ExportEntry)
    requires
        internal_name(e) is Some,
        renamed(e.name@, internal_name(e)->Some_0),
    ensures
        export_decls(e) == seq![alias_view(e.name@, internal_name(e)->Some_0)],
{
}

/// The number of renamed exports that refer to something that gets an
/// alias.
pub open spec fn renamed_count(es: Seq<ExportEntry>) -> nat
    decreases es.len(),
{
    if es.len() == 0 {
        0
    } else {
        renamed_count(es.drop_last()) + match internal_name(es.last()) {
            Some(n) => if renamed(es.last().name@, n) {
                1nat
            } else {
                0nat
            },
            None => 0nat,
        }
    }
}

/// An export table yields exactly one alias per renamed export.
pub proof fn one_alias_per_renamed_export(es: Seq<ExportEntry>)
    ensures
        exports_decls(es).len() == renamed_count(es),
    decreases es.len(),
{
    if es.len() > 0 {
        one_alias_per_renamed_export(es.drop_last());
    }
}

/// A generated global yields its class, then exactly one alias per further
/// export name, each bound to the global's sanitized name.
pub proof fn one_alias_per_global_export_name(g: GlobalComponent)
    ensures
        global_decls(g).len() == 1 + g.aliases.len(),
        forall|i: int|
            0 <= i < g.aliases.len() ==> #[trigger] global_decls(g)[i + 1] == alias_view(
                g.aliases@[i]@,
                g.name@,
            ),
{
}

/// Rendering depends on the document alone: two modules generated from the
/// same document and destination render to the same text.
pub proof fn rendering_is_deterministic(
    doc: Document,
    main: Seq<Seq<char>>,
    dest: Option<Seq<Seq<char>>>,
    a: File,
    b: File,
)
    requires
        a.view() == expected_file(doc, main, dest),
        b.view() == expected_file(doc, main, dest),
    ensures
        crate::ast::file_text(a.view()) == crate::ast::file_text(b.view()),
{
}

/// Without a destination the module holds no trailing statement, and
/// imports only the runtime, `typing` and, where enumerations are declared,
/// `enum`.
pub proof fn no_destination_no_load_statement(doc: Document, main: Seq<Seq<char>>)
    ensures
        expected_file(doc, main, None).trailing_code.len() == 0,
        expected_file(doc, main, None).imports == seq!["slint"@, "typing"@] + (if has_enum(
            doc.used_types@,
        ) {
            seq!["enum"@]
        } else {
            Seq::empty()
        }),
{
    assert(expected_file(doc, main, None).imports =~= seq!["slint"@, "typing"@] + (if has_enum(
        doc.used_types@,
    ) {
        seq!["enum"@]
    } else {
        Seq::empty()
    }));
}

/// The path in the load statement, walked from the directory of the
/// destination file, arrives at the main file.
pub proof fn load_path_resolves_to_main_file(main: Seq<Seq<char>>, dest: Seq<Seq<char>>)
    requires
        crate::paths::normal_path(main),
        crate::paths::normal_path(dest),
        main.len() > 0,
        dest.len() > 0,
    ensures
        relative_target(main, Some(dest)) is Some,
        crate::paths::resolve(dest.drop_last(), relative_target(main, Some(dest))->Some_0) == main,
{
    assert(crate::paths::normal_path(dest.drop_last())) by {
        assert forall|i: int| 0 <= i < dest.drop_last().len() implies crate::paths::normal_component(
            #[trigger] dest.drop_last()[i],
        ) by {
            assert(crate::paths::normal_component(dest[i]));
        }
    }
    crate::paths::relative_file_path_resolves_back(main, dest.drop_last());
}

} // verus!
