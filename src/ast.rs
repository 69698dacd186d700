//! A structural model of a generated Python module, and its rendering as
//! text. Rendering makes no decisions: every choice is made while the model
//! is built.

use crate::text::{join_spec, join_strings, views};
use vstd::prelude::*;
use vstd::string::*;

verus! {

/// A whole Python module.
#[derive(Debug)]
pub struct File {
    pub imports: Vec<String>,
    pub declarations: Vec<Declaration>,
    pub trailing_code: Vec<String>,
}

/// A top-level declaration.
#[derive(Debug)]
pub enum Declaration {
    Class(Class),
    Variable(Variable),
}

/// A class with its fields and method signatures.
#[derive(Debug)]
pub struct Class {
    pub name: String,
    pub super_class: Option<String>,
    pub fields: Vec<Field>,
    pub function_declarations: Vec<FunctionDeclaration>,
}

/// A module-level assignment `name = value`.
#[derive(Debug)]
pub struct Variable {
    pub name: String,
    pub value: String,
}

/// A type annotation, optionally wrapped in `typing.Optional`.
#[derive(Debug)]
pub struct PyType {
    pub name: String,
    pub optional: bool,
}

/// A class field, or a keyword parameter of a method.
#[derive(Debug)]
pub struct Field {
    pub name: String,
    pub ty: Option<PyType>,
    pub default_value: Option<String>,
}

/// A method signature: positional parameters after `self`, then
/// keyword-only parameters.
#[derive(Debug)]
pub struct FunctionDeclaration {
    pub name: String,
    pub positional_parameters: Vec<String>,
    pub keyword_parameters: Vec<Field>,
    pub return_type: Option<PyType>,
}

/// What a [`PyType`] holds.
pub struct PyTypeView {
    pub name: Seq<char>,
    pub optional: bool,
}

/// What a [`Field`] holds.
pub struct FieldView {
    pub name: Seq<char>,
    pub ty: Option<PyTypeView>,
    pub default_value: Option<Seq<char>>,
}

/// What a [`FunctionDeclaration`] holds.
pub struct FunctionView {
    pub name: Seq<char>,
    pub positional_parameters: Seq<Seq<char>>,
    pub keyword_parameters: Seq<FieldView>,
    pub return_type: Option<PyTypeView>,
}

/// What a [`Class`] holds.
pub struct ClassView {
    pub name: Seq<char>,
    pub super_class: Option<Seq<char>>,
    pub fields: Seq<FieldView>,
    pub function_declarations: Seq<FunctionView>,
}

/// What a [`Declaration`] holds.
pub enum DeclarationView {
    Class(ClassView),
    Variable { name: Seq<char>, value: Seq<char> },
}

/// What a [`File`] holds.
pub struct FileView {
    pub imports: Seq<Seq<char>>,
    pub declarations: Seq<DeclarationView>,
    pub trailing_code: Seq<Seq<char>>,
}

pub open spec fn opt_view(o: Option<String>) -> Option<Seq<char>> {
    match o {
        Some(s) => Some(s@),
        None => None,
    }
}

impl PyType {
    pub open spec fn view(&self) -> PyTypeView {
        PyTypeView { name: self.name@, optional: self.optional }
    }
}

pub open spec fn opt_type_view(o: Option<PyType>) -> Option<PyTypeView> {
    match o {
        Some(t) => Some(t.view()),
        None => None,
    }
}

impl Field {
    pub open spec fn view(&self) -> FieldView {
        FieldView {
            name: self.name@,
            ty: opt_type_view(self.ty),
            default_value: opt_view(self.default_value),
        }
    }
}

pub open spec fn field_views(s: Seq<Field>) -> Seq<FieldView> {
    s.map_values(|f: Field| f.view())
}

impl FunctionDeclaration {
    pub open spec fn view(&self) -> FunctionView {
        FunctionView {
            name: self.name@,
            positional_parameters: views(self.positional_parameters@),
            keyword_parameters: field_views(self.keyword_parameters@),
            return_type: opt_type_view(self.return_type),
        }
    }
}

pub open spec fn function_views(s: Seq<FunctionDeclaration>) -> Seq<FunctionView> {
    s.map_values(|f: FunctionDeclaration| f.view())
}

impl Class {
    pub open spec fn view(&self) -> ClassView {
        ClassView {
            name: self.name@,
            super_class: opt_view(self.super_class),
            fields: field_views(self.fields@),
            function_declarations: function_views(self.function_declarations@),
        }
    }
}

impl Variable {
    pub open spec fn view(&self) -> DeclarationView {
        DeclarationView::Variable { name: self.name@, value: self.value@ }
    }
}

impl Declaration {
    pub open spec fn view(&self) -> DeclarationView {
        match self {
            Declaration::Class(c) => DeclarationView::Class(c.view()),
            Declaration::Variable(v) => v.view(),
        }
    }
}

pub open spec fn declaration_views(s: Seq<Declaration>) -> Seq<DeclarationView> {
    s.map_values(|d: Declaration| d.view())
}

impl File {
    pub open spec fn view(&self) -> FileView {
        FileView {
            imports: views(self.imports@),
            declarations: declaration_views(self.declarations@),
            trailing_code: views(self.trailing_code@),
        }
    }
}

pub open spec fn py_type_text(t: PyTypeView) -> Seq<char> {
    if t.optional {
        "typing.Optional["@ + t.name + "]"@
    } else {
        t.name
    }
}

pub open spec fn field_text(f: FieldView) -> Seq<char> {
    f.name + match f.ty {
        Some(t) => ": "@ + py_type_text(t),
        None => Seq::empty(),
    } + match f.default_value {
        Some(d) => " = "@ + d,
        None => Seq::empty(),
    }
}

pub open spec fn field_texts(s: Seq<FieldView>) -> Seq<Seq<char>> {
    s.map_values(|f: FieldView| field_text(f))
}

/// A method signature as one line, with its line break.
pub open spec fn function_declaration_text(d: FunctionView) -> Seq<char> {
    "def "@ + d.name + "(self"@ + (if d.positional_parameters.len() > 0 {
        ", "@ + join_spec(d.positional_parameters, ","@)
    } else {
        Seq::empty()
    }) + (if d.keyword_parameters.len() > 0 {
        ", *"@ + ", "@ + join_spec(field_texts(d.keyword_parameters), ", "@)
    } else {
        Seq::empty()
    }) + ") -> "@ + match d.return_type {
        Some(t) => py_type_text(t),
        None => "None"@,
    } + ": ..."@ + "\n"@
}

/// The indented lines of the fields.
pub open spec fn field_lines(s: Seq<FieldView>) -> Seq<char>
    decreases s.len(),
{
    if s.len() == 0 {
        Seq::empty()
    } else {
        field_lines(s.drop_last()) + "    "@ + field_text(s.last()) + "\n"@
    }
}

/// The indented method signatures, each followed by an empty line.
pub open spec fn function_lines(s: Seq<FunctionView>) -> Seq<char>
    decreases s.len(),
{
    if s.len() == 0 {
        Seq::empty()
    } else {
        function_lines(s.drop_last()) + "    "@ + function_declaration_text(s.last()) + "\n"@
    }
}

pub open spec fn class_text(c: ClassView) -> Seq<char> {
    "class "@ + c.name + match c.super_class {
        Some(s) => "("@ + s + "):\n"@,
        None => ":\n"@,
    } + if c.fields.len() == 0 && c.function_declarations.len() == 0 {
        "    pass\n"@
    } else {
        field_lines(c.fields) + (if c.fields.len() > 0 {
            "\n"@
        } else {
            Seq::empty()
        }) + function_lines(c.function_declarations)
    }
}

pub open spec fn declaration_text(d: DeclarationView) -> Seq<char> {
    match d {
        DeclarationView::Class(c) => class_text(c),
        DeclarationView::Variable { name, value } => name + " = "@ + value + "\n"@,
    }
}

pub open spec fn import_lines(s: Seq<Seq<char>>) -> Seq<char>
    decreases s.len(),
{
    if s.len() == 0 {
        Seq::empty()
    } else {
        import_lines(s.drop_last()) + "import "@ + s.last() + "\n"@
    }
}

/// The declarations, each followed by a line break.
pub open spec fn declaration_lines(s: Seq<DeclarationView>) -> Seq<char>
    decreases s.len(),
{
    if s.len() == 0 {
        Seq::empty()
    } else {
        declaration_lines(s.drop_last()) + declaration_text(s.last()) + "\n"@
    }
}

pub open spec fn code_lines(s: Seq<Seq<char>>) -> Seq<char>
    decreases s.len(),
{
    if s.len() == 0 {
        Seq::empty()
    } else {
        code_lines(s.drop_last()) + s.last() + "\n"@
    }
}

/// The text of a module: a marker line, the imports, the declarations and
/// the trailing statements, in that order.
pub open spec fn file_text(f: FileView) -> Seq<char> {
    "# This file is auto-generated\n\n"@ + import_lines(f.imports) + "\n"@ + declaration_lines(
        f.declarations,
    ) + code_lines(f.trailing_code)
}

impl PyType {
    pub fn render(&self) -> (r: String)
        ensures
            r@ == py_type_text(self.view()),
    {
        if self.optional {
            String::from_str("typing.Optional[").concat(self.name.as_str()).concat("]")
        } else {
            self.name.clone()
        }
    }
}

impl Field {
    pub fn render(&self) -> (r: String)
        ensures
            r@ == field_text(self.view()),
    {
        let mut r = self.name.clone();
        if let Some(ty) = &self.ty {
            r.append(": ");
            r.append(ty.render().as_str());
        }
        if let Some(d) = &self.default_value {
            r.append(" = ");
            r.append(d.as_str());
        }
        r
    }
}

impl FunctionDeclaration {
    pub fn render(&self) -> (r: String)
        ensures
            r@ == function_declaration_text(self.view()),
    {
        let mut r = String::from_str("def ");
        r.append(self.name.as_str());
        r.append("(self");
        if self.positional_parameters.len() > 0 {
            r.append(", ");
            r.append(join_strings(&self.positional_parameters, ",").as_str());
        }
        if self.keyword_parameters.len() > 0 {
            let mut texts: Vec<String> = Vec::new();
            let mut i: usize = 0;
            while i < self.keyword_parameters.len()
                invariant
                    0 <= i <= self.keyword_parameters.len(),
                    views(texts@) =~= field_texts(field_views(self.keyword_parameters@.take(i as int))),
                decreases self.keyword_parameters.len() - i,
            {
                let ghost before = texts@;
                texts.push(self.keyword_parameters[i].render());
                assert(views(texts@) =~= views(before).push(
                    field_text(self.keyword_parameters@[i as int].view()),
                ));
                assert(field_texts(field_views(self.keyword_parameters@.take(i + 1))) =~= field_texts(
                    field_views(self.keyword_parameters@.take(i as int)),
                ).push(field_text(self.keyword_parameters@[i as int].view())));
                i += 1;
            }
            assert(self.keyword_parameters@.take(i as int) =~= self.keyword_parameters@);
            r.append(", *");
            r.append(", ");
            r.append(join_strings(&texts, ", ").as_str());
        }
        r.append(") -> ");
        match &self.return_type {
            Some(t) => r.append(t.render().as_str()),
            None => r.append("None"),
        }
        r.append(": ...");
        r.append("\n");
        r
    }
}

impl Class {
    pub fn render(&self) -> (r: String)
        ensures
            r@ == class_text(self.view()),
    {
        let mut r = String::from_str("class ");
        r.append(self.name.as_str());
        match &self.super_class {
            Some(s) => {
                r.append("(");
                r.append(s.as_str());
                r.append("):\n");
            },
            None => r.append(":\n"),
        }
        if self.fields.len() == 0 && self.function_declarations.len() == 0 {
            r.append("    pass\n");
            return r;
        }
        let ghost head = r@;
        let mut i: usize = 0;
        while i < self.fields.len()
            invariant
                0 <= i <= self.fields.len(),
                r@ == head + field_lines(field_views(self.fields@.take(i as int))),
            decreases self.fields.len() - i,
        {
            assert(field_views(self.fields@.take(i + 1)).drop_last() =~= field_views(self.fields@.take(i as int)));
            r.append("    ");
            r.append(self.fields[i].render().as_str());
            r.append("\n");
            i += 1;
        }
        assert(field_views(self.fields@.take(i as int)) =~= field_views(self.fields@));
        if self.fields.len() > 0 {
            r.append("\n");
        }
        let ghost mid = r@;
        let mut j: usize = 0;
        while j < self.function_declarations.len()
            invariant
                0 <= j <= self.function_declarations.len(),
                r@ == mid + function_lines(function_views(self.function_declarations@.take(j as int))),
            decreases self.function_declarations.len() - j,
        {
            assert(function_views(self.function_declarations@.take(j + 1)).drop_last()
                =~= function_views(self.function_declarations@.take(j as int)));
            r.append("    ");
            r.append(self.function_declarations[j].render().as_str());
            r.append("\n");
            j += 1;
        }
        assert(function_views(self.function_declarations@.take(j as int)) =~= function_views(self.function_declarations@));
        r
    }
}

impl Variable {
    pub fn render(&self) -> (r: String)
        ensures
            r@ == declaration_text(self.view()),
    {
        self.name.clone().concat(" = ").concat(self.value.as_str()).concat("\n")
    }
}

impl Declaration {
    pub fn render(&self) -> (r: String)
        ensures
            r@ == declaration_text(self.view()),
    {
        match self {
            Declaration::Class(c) => c.render(),
            Declaration::Variable(v) => v.render(),
        }
    }
}

impl File {
    /// The text of the module.
    pub fn render(&self) -> (r: String)
        ensures
            r@ == file_text(self.view()),
    {
        let mut r = String::from_str("# This file is auto-generated\n\n");
        let ghost h0 = r@;
        let mut i: usize = 0;
        while i < self.imports.len()
            invariant
                0 <= i <= self.imports.len(),
                r@ == h0 + import_lines(views(self.imports@.take(i as int))),
            decreases self.imports.len() - i,
        {
            assert(views(self.imports@.take(i + 1)).drop_last() =~= views(self.imports@.take(i as int)));
            r.append("import ");
            r.append(self.imports[i].as_str());
            r.append("\n");
            i += 1;
        }
        assert(views(self.imports@.take(i as int)) =~= views(self.imports@));
        r.append("\n");
        let ghost h1 = r@;
        let mut j: usize = 0;
        while j < self.declarations.len()
            invariant
                0 <= j <= self.declarations.len(),
                r@ == h1 + declaration_lines(declaration_views(self.declarations@.take(j as int))),
            decreases self.declarations.len() - j,
        {
            assert(declaration_views(self.declarations@.take(j + 1)).drop_last() =~= declaration_views(self.declarations@.take(j as int)));
            r.append(self.declarations[j].render().as_str());
            r.append("\n");
            j += 1;
        }
        assert(declaration_views(self.declarations@.take(j as int)) =~= declaration_views(self.declarations@));
        let ghost h2 = r@;
        let mut k: usize = 0;
        while k < self.trailing_code.len()
            invariant
                0 <= k <= self.trailing_code.len(),
                r@ == h2 + code_lines(views(self.trailing_code@.take(k as int))),
            decreases self.trailing_code.len() - k,
        {
            assert(views(self.trailing_code@.take(k + 1)).drop_last() =~= views(self.trailing_code@.take(k as int)));
            r.append(self.trailing_code[k].as_str());
            r.append("\n");
            k += 1;
        }
        assert(views(self.trailing_code@.take(k as int)) =~= views(self.trailing_code@));
        r
    }
}

} // verus!
