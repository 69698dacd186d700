//! The semantic types of the UI language and their Python type expressions.

use crate::ident::{ident, ident_spec};
use crate::text::{join_spec, join_strings, join_with_itertools, views};
use vstd::prelude::*;
use vstd::string::*;

verus! {

/// A semantic type of the UI language.
#[derive(Debug)]
pub enum Type {
    /// Marks a type that an earlier stage failed to resolve.
    Invalid,
    Void,
    InferredProperty,
    InferredCallback,
    Callback(Function),
    Function(Function),
    ComponentFactory,
    Float32,
    Int32,
    String,
    Color,
    Duration,
    PhysicalLength,
    LogicalLength,
    Rem,
    Angle,
    Percent,
    Image,
    Bool,
    Model,
    PathData,
    Easing,
    Brush,
    Array(Box<Type>),
    Struct(StructType),
    Enumeration(Enumeration),
    /// A product of units, such as length per time.
    UnitProduct,
    ElementReference,
    LayoutCache,
}

/// The signature of a callback or a function.
#[derive(Debug)]
pub struct Function {
    pub args: Vec<Type>,
    pub return_type: Box<Type>,
}

/// One field of a struct.
#[derive(Debug)]
pub struct StructField {
    pub name: String,
    pub ty: Type,
}

/// A struct: named and declared in the document, named by the runtime
/// without a declaration, or anonymous.
#[derive(Debug)]
pub struct StructType {
    pub name: Option<String>,
    pub has_declaration: bool,
    pub fields: Vec<StructField>,
}

/// An enumeration and its values, in declaration order.
#[derive(Debug)]
pub struct Enumeration {
    pub name: String,
    pub values: Vec<String>,
}

/// Why a type has no Python type expression.
#[derive(Clone, Copy, Debug, PartialEq, Eq, Structural)]
pub enum TypeError {
    /// The invalid marker reached the mapper: a defect of an earlier stage.
    Invalid,
    /// A type that this backend does not map yet.
    Unsupported,
}

/// The type expressions of the first `n` children of `t` (the fields of a
/// struct, the arguments of a function), or the first error among them.
pub open spec fn parts_spec(t: Type, n: nat) -> Result<Seq<Seq<char>>, TypeError>
    decreases t, 0nat, n,
{
    if n == 0 {
        Ok(Seq::empty())
    } else {
        match parts_spec(t, (n - 1) as nat) {
            Err(e) => Err(e),
            Ok(p) => {
                let child = match t {
                    Type::Struct(s) => if n - 1 < s.fields.len() {
                        py_type_spec(s.fields[n - 1].ty)
                    } else {
                        Err(TypeError::Invalid)
                    },
                    Type::Callback(f) => if n - 1 < f.args.len() {
                        py_type_spec(f.args[n - 1])
                    } else {
                        Err(TypeError::Invalid)
                    },
                    Type::Function(f) => if n - 1 < f.args.len() {
                        py_type_spec(f.args[n - 1])
                    } else {
                        Err(TypeError::Invalid)
                    },
                    _ => Err(TypeError::Invalid),
                };
                match child {
                    Err(e) => Err(e),
                    Ok(x) => Ok(p.push(x)),
                }
            },
        }
    }
}

/// Once an error stands among the first `k` children, it stands among the
/// first `m` for every larger `m`.
proof fn lemma_parts_error_persists(t: Type, k: nat, m: nat)
    requires
        k <= m,
        parts_spec(t, k) is Err,
    ensures
        parts_spec(t, m) == parts_spec(t, k),
    decreases m - k,
{
    if k < m {
        lemma_parts_error_persists(t, k, (m - 1) as nat);
    }
}

/// The Python type expression of a callback or function type whose
/// argument expressions and return expression are given.
pub open spec fn callable_spec(
    args: Result<Seq<Seq<char>>, TypeError>,
    ret: Result<Seq<char>, TypeError>,
) -> Result<Seq<char>, TypeError> {
    match args {
        Err(e) => Err(e),
        Ok(a) => match ret {
            Err(e) => Err(e),
            Ok(r) => Ok("typing.Callable[["@ + join_spec(a, ", "@) + "], "@ + r + "]"@),
        },
    }
}

/// The Python type expression of a type.
pub open spec fn py_type_spec(t: Type) -> Result<Seq<char>, TypeError>
    decreases t, 1nat, 0nat,
{
    match t {
        Type::Invalid => Err(TypeError::Invalid),
        Type::Void => Ok("None"@),
        Type::String => Ok("str"@),
        Type::Color => Ok("slint.Color"@),
        Type::Float32 | Type::Int32 | Type::Duration | Type::Angle | Type::PhysicalLength
        | Type::LogicalLength | Type::Percent | Type::UnitProduct => Ok("float"@),
        Type::Image => Ok("slint.Image"@),
        Type::Bool => Ok("bool"@),
        Type::Brush => Ok("Brush"@),
        Type::Array(elem) => match py_type_spec(*elem) {
            Err(e) => Err(e),
            Ok(x) => Ok("slint.Model["@ + x + "]"@),
        },
        Type::Struct(s) => match s.name {
            Some(name) => if s.has_declaration {
                Ok(ident_spec(name@))
            } else {
                Err(TypeError::Unsupported)
            },
            None => match parts_spec(t, s.fields.len() as nat) {
                Err(e) => Err(e),
                Ok(p) => Ok("typing.Tuple["@ + join_spec(p, ", "@) + "]"@),
            },
        },
        Type::Enumeration(en) => Ok(ident_spec(en.name@)),
        Type::Callback(f) => callable_spec(
            parts_spec(t, f.args.len() as nat),
            py_type_spec(*f.return_type),
        ),
        Type::Function(f) => callable_spec(
            parts_spec(t, f.args.len() as nat),
            py_type_spec(*f.return_type),
        ),
        _ => Err(TypeError::Unsupported),
    }
}

/// Maps a semantic type to its Python type expression.
pub fn python_type_name(ty: &Type) -> (r: Result<String, TypeError>)
    ensures
        match r {
            Ok(s) => py_type_spec(*ty) == Ok::<Seq<char>, TypeError>(s@),
            Err(e) => py_type_spec(*ty) == Err::<Seq<char>, TypeError>(e),
        },
    decreases ty, 1nat,
{
    match ty {
        Type::Invalid => Err(TypeError::Invalid),
        Type::Void => Ok(String::from_str("None")),
        Type::String => Ok(String::from_str("str")),
        Type::Color => Ok(String::from_str("slint.Color")),
        Type::Float32 | Type::Int32 | Type::Duration | Type::Angle | Type::PhysicalLength
        | Type::LogicalLength | Type::Percent | Type::UnitProduct => Ok(String::from_str("float")),
        Type::Image => Ok(String::from_str("slint.Image")),
        Type::Bool => Ok(String::from_str("bool")),
        Type::Brush => Ok(String::from_str("Brush")),
        Type::Array(elem) => {
            let inner = python_type_name(elem)?;
            Ok(String::from_str("slint.Model[").concat(inner.as_str()).concat("]"))
        },
        Type::Struct(s) => match &s.name {
            Some(name) => if s.has_declaration {
                Ok(ident(name.as_str()))
            } else {
                Err(TypeError::Unsupported)
            },
            None => {
                let parts = python_type_names_of_parts(ty, s.fields.len())?;
                let joined = join_strings(&parts, ", ");
                Ok(String::from_str("typing.Tuple[").concat(joined.as_str()).concat("]"))
            },
        },
        Type::Enumeration(en) => Ok(ident(en.name.as_str())),
        Type::Callback(f) | Type::Function(f) => {
            let args = python_type_names_of_parts(ty, f.args.len())?;
            let ret = python_type_name(&f.return_type)?;
            let joined = join_with_itertools(&args, ", ");
            Ok(
                String::from_str("typing.Callable[[").concat(joined.as_str()).concat("], ").concat(
                    ret.as_str(),
                ).concat("]"),
            )
        },
        _ => Err(TypeError::Unsupported),
    }
}

/// The type expressions of the first `n` fields of a struct or arguments
/// of a function.
fn python_type_names_of_parts(ty: &Type, n: usize) -> (r: Result<Vec<String>, TypeError>)
    requires
        match *ty {
            Type::Struct(s) => n <= s.fields.len(),
            Type::Callback(f) => n <= f.args.len(),
            Type::Function(f) => n <= f.args.len(),
            _ => false,
        },
    ensures
        match r {
            Ok(v) => parts_spec(*ty, n as nat) == Ok::<Seq<Seq<char>>, TypeError>(views(v@)),
            Err(e) => parts_spec(*ty, n as nat) == Err::<Seq<Seq<char>>, TypeError>(e),
        },
    decreases ty, 0nat,
{
    let mut v: Vec<String> = Vec::new();
    let mut i: usize = 0;
    assert(views(v@) =~= Seq::empty());
    while i < n
        invariant
            0 <= i <= n,
            match *ty {
                Type::Struct(s) => n <= s.fields.len(),
                Type::Callback(f) => n <= f.args.len(),
                Type::Function(f) => n <= f.args.len(),
                _ => false,
            },
            parts_spec(*ty, i as nat) == Ok::<Seq<Seq<char>>, TypeError>(views(v@)),
        decreases n - i,
    {
        let child = match ty {
            Type::Struct(s) => python_type_name(&s.fields[i].ty),
            Type::Callback(f) | Type::Function(f) => python_type_name(&f.args[i]),
            _ => Err(TypeError::Invalid),
        };
        match child {
            Err(e) => {
                proof {
                    lemma_parts_error_persists(*ty, (i + 1) as nat, n as nat);
                }
                return Err(e);
            },
            Ok(x) => {
                let ghost before = v@;
                v.push(x);
                assert(views(v@) =~= views(before).push(x@));
            },
        }
        i += 1;
    }
    Ok(v)
}

} // verus!

verus! {

/// Whether the name that a type maps to, where it is a named struct or an
/// enumeration, is non-empty.
pub open spec fn has_named_parts(t: Type) -> bool {
    match t {
        Type::Struct(s) => match s.name {
            Some(name) => name@.len() > 0,
            None => true,
        },
        Type::Enumeration(en) => en.name@.len() > 0,
        _ => true,
    }
}

/// Every type that maps at all maps to a non-empty expression, given that
/// its own name, if it is named, is non-empty.
pub proof fn type_expression_non_empty(t: Type)
    requires
        has_named_parts(t),
        py_type_spec(t) is Ok,
    ensures
        py_type_spec(t)->Ok_0.len() > 0,
{
    reveal_strlit("None");
    reveal_strlit("str");
    reveal_strlit("slint.Color");
    reveal_strlit("float");
    reveal_strlit("slint.Image");
    reveal_strlit("bool");
    reveal_strlit("Brush");
    reveal_strlit("slint.Model[");
    reveal_strlit("typing.Tuple[");
    reveal_strlit("typing.Callable[[");
    match t {
        Type::Struct(s) => {
            if let Some(name) = s.name {
                assert(crate::ident::replace_hyphens(name@).len() == name@.len());
            }
        },
        Type::Enumeration(en) => {
            assert(crate::ident::replace_hyphens(en.name@).len() == en.name@.len());
        },
        _ => {},
    }
}

/// An array maps to the model type of its element's expression, and fails
/// exactly as its element does.
pub proof fn array_maps_to_model_of_element(elem: Type)
    ensures
        py_type_spec(Type::Array(Box::new(elem))) == match py_type_spec(elem) {
            Ok(x) => Ok::<Seq<char>, TypeError>("slint.Model["@ + x + "]"@),
            Err(e) => Err::<Seq<char>, TypeError>(e),
        },
{
}

/// An array of a declared, named struct maps to the model type of the
/// struct's sanitized name.
pub proof fn array_of_struct_maps_to_model_of_name(s: StructType)
    requires
        s.name is Some,
        s.has_declaration,
    ensures
        py_type_spec(Type::Array(Box::new(Type::Struct(s)))) == Ok::<Seq<char>, TypeError>(
            "slint.Model["@ + ident_spec(s.name->Some_0@) + "]"@,
        ),
{
    assert(py_type_spec(Type::Struct(s)) == Ok::<Seq<char>, TypeError>(
        ident_spec(s.name->Some_0@),
    ));
}

} // verus!

verus! {

/// Whether the first `n` children of `t` (fields of a struct, arguments of
/// a function) are all supported.
pub open spec fn parts_supported(t: Type, n: nat) -> bool
    decreases t, 0nat, n,
{
    if n == 0 {
        true
    } else {
        parts_supported(t, (n - 1) as nat) && match t {
            Type::Struct(s) => n - 1 < s.fields.len() && is_supported(s.fields[n - 1].ty),
            Type::Callback(f) => n - 1 < f.args.len() && is_supported(f.args[n - 1]),
            Type::Function(f) => n - 1 < f.args.len() && is_supported(f.args[n - 1]),
            _ => false,
        }
    }
}

/// Whether this backend maps a type: it is neither the invalid marker nor
/// a variant the backend does not handle, any named struct in it is
/// declared, and the same holds of every type inside it.
pub open spec fn is_supported(t: Type) -> bool
    decreases t, 1nat, 0nat,
{
    match t {
        Type::Void | Type::String | Type::Color | Type::Float32 | Type::Int32 | Type::Duration
        | Type::Angle | Type::PhysicalLength | Type::LogicalLength | Type::Percent
        | Type::UnitProduct | Type::Image | Type::Bool | Type::Brush | Type::Enumeration(_) => true,
        Type::Array(elem) => is_supported(*elem),
        Type::Struct(s) => match s.name {
            Some(_) => s.has_declaration,
            None => parts_supported(t, s.fields.len() as nat),
        },
        Type::Callback(f) => parts_supported(t, f.args.len() as nat) && is_supported(
            *f.return_type,
        ),
        Type::Function(f) => parts_supported(t, f.args.len() as nat) && is_supported(
            *f.return_type,
        ),
        _ => false,
    }
}

proof fn lemma_supported_parts_map(t: Type, n: nat)
    requires
        parts_supported(t, n),
    ensures
        parts_spec(t, n) is Ok,
    decreases t, 0nat, n,
{
    if n > 0 {
        lemma_supported_parts_map(t, (n - 1) as nat);
        match t {
            Type::Struct(s) => supported_type_maps(s.fields[n - 1].ty),
            Type::Callback(f) => supported_type_maps(f.args[n - 1]),
            Type::Function(f) => supported_type_maps(f.args[n - 1]),
            _ => {},
        }
    }
}

/// Every supported type maps to a type expression.
pub proof fn supported_type_maps(t: Type)
    requires
        is_supported(t),
    ensures
        py_type_spec(t) is Ok,
    decreases t, 1nat, 0nat,
{
    match t {
        Type::Array(elem) => supported_type_maps(*elem),
        Type::Struct(s) => {
            if s.name is None {
                lemma_supported_parts_map(t, s.fields.len() as nat);
            }
        },
        Type::Callback(f) => {
            lemma_supported_parts_map(t, f.args.len() as nat);
            supported_type_maps(*f.return_type);
        },
        Type::Function(f) => {
            lemma_supported_parts_map(t, f.args.len() as nat);
            supported_type_maps(*f.return_type);
        },
        _ => {},
    }
}

/// Every supported type whose own name, if it is named, is non-empty maps
/// to a non-empty type expression.
pub proof fn supported_type_maps_to_non_empty(t: Type)
    requires
        is_supported(t),
        has_named_parts(t),
    ensures
        py_type_spec(t) is Ok,
        py_type_spec(t)->Ok_0.len() > 0,
{
    supported_type_maps(t);
    type_expression_non_empty(t);
}

} // verus!

verus! {

/// Neither `[` nor `]` occurs in the text.
pub open spec fn bracket_free(s: Seq<char>) -> bool {
    !s.contains('[') && !s.contains(']')
}

/// The number of `[` minus the number of `]`.
pub open spec fn bracket_depth(s: Seq<char>) -> int
    decreases s.len(),
{
    if s.len() == 0 {
        0
    } else {
        bracket_depth(s.drop_last()) + if s.last() == '[' {
            1int
        } else if s.last() == ']' {
            -1int
        } else {
            0int
        }
    }
}

/// Every `]` closes an earlier `[`, and every `[` is closed.
pub open spec fn brackets_balanced(s: Seq<char>) -> bool {
    bracket_depth(s) == 0 && forall|k: int|
        0 <= k <= s.len() ==> bracket_depth(#[trigger] s.take(k)) >= 0
}

proof fn lemma_depth_concat(a: Seq<char>, b: Seq<char>)
    ensures
        bracket_depth(a + b) == bracket_depth(a) + bracket_depth(b),
    decreases b.len(),
{
    if b.len() == 0 {
        assert(a + b =~= a);
    } else {
        assert((a + b).drop_last() =~= a + b.drop_last());
        lemma_depth_concat(a, b.drop_last());
    }
}

proof fn lemma_free_depth(s: Seq<char>)
    requires
        bracket_free(s),
    ensures
        bracket_depth(s) == 0,
        forall|k: int| 0 <= k <= s.len() ==> bracket_depth(#[trigger] s.take(k)) == 0,
    decreases s.len(),
{
    if s.len() > 0 {
        if s.last() == '[' || s.last() == ']' {
            assert(s[s.len() - 1] == s.last());
            assert(s.contains(s.last()));
        }
        assert(bracket_free(s.drop_last())) by {
            if s.drop_last().contains('[') {
                let i = choose|i: int| 0 <= i < s.drop_last().len() && s.drop_last()[i] == '[';
                assert(s[i] == '[');
            }
            if s.drop_last().contains(']') {
                let i = choose|i: int| 0 <= i < s.drop_last().len() && s.drop_last()[i] == ']';
                assert(s[i] == ']');
            }
        }
        lemma_free_depth(s.drop_last());
        assert forall|k: int| 0 <= k <= s.len() implies bracket_depth(#[trigger] s.take(k)) == 0 by {
            if k == s.len() {
                assert(s.take(k) =~= s);
            } else {
                assert(s.take(k) =~= s.drop_last().take(k));
            }
        }
    } else {
        assert forall|k: int| 0 <= k <= s.len() implies bracket_depth(#[trigger] s.take(k)) == 0 by {
            assert(s.take(k) =~= Seq::<char>::empty());
        }
    }
}

/// Prefix depths of `a + b`, from those of `a` and `b`.
proof fn lemma_prefix_depths(a: Seq<char>, b: Seq<char>, lo: int)
    requires
        forall|k: int| 0 <= k <= a.len() ==> bracket_depth(#[trigger] a.take(k)) >= lo,
        forall|k: int| 0 <= k <= b.len() ==> bracket_depth(#[trigger] b.take(k)) + bracket_depth(a)
            >= lo,
    ensures
        forall|k: int| 0 <= k <= (a + b).len() ==> bracket_depth(#[trigger] (a + b).take(k)) >= lo,
{
    assert forall|k: int| 0 <= k <= (a + b).len() implies bracket_depth(
        #[trigger] (a + b).take(k),
    ) >= lo by {
        if k <= a.len() {
            assert((a + b).take(k) =~= a.take(k));
        } else {
            assert((a + b).take(k) =~= a + b.take(k - a.len()));
            lemma_depth_concat(a, b.take(k - a.len()));
            assert(b.take(k - a.len()) == b.take(k - a.len()));
        }
    }
}

/// A bracket-free text, `[`, a balanced text, `]` is balanced.
proof fn lemma_wrap(f: Seq<char>, x: Seq<char>)
    requires
        bracket_free(f),
        brackets_balanced(x),
    ensures
        brackets_balanced(f.push('[') + x + seq![']']),
{
    lemma_free_depth(f);
    let o = f.push('[');
    assert(o.drop_last() =~= f);
    assert forall|k: int| 0 <= k <= o.len() implies bracket_depth(#[trigger] o.take(k)) >= 0 by {
        if k == o.len() {
            assert(o.take(k) =~= o);
        } else {
            assert(o.take(k) =~= f.take(k));
        }
    }
    assert(o.take(o.len() as int) =~= o);
    lemma_prefix_depths(o, x, 0);
    lemma_depth_concat(o, x);
    assert(bracket_depth(o) == 1);
    let ox = o + x;
    assert(bracket_depth(ox) == 1);
    let c = seq![']'];
    assert(c.drop_last() =~= Seq::<char>::empty());
    assert(bracket_depth(Seq::<char>::empty()) == 0);
    assert(bracket_depth(c) == -1);
    assert forall|k: int| 0 <= k <= c.len() implies bracket_depth(#[trigger] c.take(k))
        + bracket_depth(ox) >= 0 by {
        if k == 0 {
            assert(c.take(k) =~= Seq::<char>::empty());
        } else {
            assert(c.take(k) =~= c);
        }
    }
    lemma_prefix_depths(ox, c, 0);
    lemma_depth_concat(ox, c);
}

/// Balanced texts joined, and followed, by bracket-free ones stay balanced.
proof fn lemma_concat_balanced(a: Seq<char>, b: Seq<char>)
    requires
        brackets_balanced(a),
        brackets_balanced(b),
    ensures
        brackets_balanced(a + b),
{
    lemma_prefix_depths(a, b, 0);
    lemma_depth_concat(a, b);
}

proof fn lemma_free_balanced(s: Seq<char>)
    requires
        bracket_free(s),
    ensures
        brackets_balanced(s),
{
    lemma_free_depth(s);
}

proof fn lemma_join_balanced(parts: Seq<Seq<char>>, sep: Seq<char>)
    requires
        bracket_free(sep),
        forall|i: int| 0 <= i < parts.len() ==> brackets_balanced(#[trigger] parts[i]),
    ensures
        brackets_balanced(join_spec(parts, sep)),
    decreases parts.len(),
{
    if parts.len() == 0 {
        lemma_free_balanced(Seq::empty());
    } else if parts.len() > 1 {
        lemma_join_balanced(parts.drop_last(), sep);
        lemma_free_balanced(sep);
        assert(brackets_balanced(parts[parts.len() - 1]));
        lemma_concat_balanced(join_spec(parts.drop_last(), sep), sep);
        lemma_concat_balanced(join_spec(parts.drop_last(), sep) + sep, parts.last());
    } else {
        assert(brackets_balanced(parts[0]));
    }
}

} // verus!

verus! {

/// Whether the first `n` children of `t` have bracket-free names
/// throughout.
pub open spec fn parts_names_bracket_free(t: Type, n: nat) -> bool
    decreases t, 0nat, n,
{
    if n == 0 {
        true
    } else {
        parts_names_bracket_free(t, (n - 1) as nat) && match t {
            Type::Struct(s) => n - 1 < s.fields.len() && names_bracket_free(s.fields[n - 1].ty),
            Type::Callback(f) => n - 1 < f.args.len() && names_bracket_free(f.args[n - 1]),
            Type::Function(f) => n - 1 < f.args.len() && names_bracket_free(f.args[n - 1]),
            _ => false,
        }
    }
}

/// Whether the names of the structs and enumerations in a type, at every
/// depth, hold no `[` or `]`.
pub open spec fn names_bracket_free(t: Type) -> bool
    decreases t, 1nat, 0nat,
{
    match t {
        Type::Array(elem) => names_bracket_free(*elem),
        Type::Struct(s) => match s.name {
            Some(n) => bracket_free(n@),
            None => parts_names_bracket_free(t, s.fields.len() as nat),
        },
        Type::Enumeration(en) => bracket_free(en.name@),
        Type::Callback(f) => parts_names_bracket_free(t, f.args.len() as nat) && names_bracket_free(
            *f.return_type,
        ),
        Type::Function(f) => parts_names_bracket_free(t, f.args.len() as nat) && names_bracket_free(
            *f.return_type,
        ),
        _ => true,
    }
}

proof fn lemma_ident_bracket_free(n: Seq<char>)
    requires
        bracket_free(n),
    ensures
        bracket_free(ident_spec(n)),
{
    reveal_strlit("_");
    let t = crate::ident::replace_hyphens(n);
    assert(bracket_free(t)) by {
        if t.contains('[') {
            let i = choose|i: int| 0 <= i < t.len() && t[i] == '[';
            assert(n[i] == '[');
        }
        if t.contains(']') {
            let i = choose|i: int| 0 <= i < t.len() && t[i] == ']';
            assert(n[i] == ']');
        }
    }
    let u = t + "_"@;
    if u.contains('[') {
        let i = choose|i: int| 0 <= i < u.len() && u[i] == '[';
        if i < t.len() {
            assert(t[i] == '[');
        }
    }
    if u.contains(']') {
        let i = choose|i: int| 0 <= i < u.len() && u[i] == ']';
        if i < t.len() {
            assert(t[i] == ']');
        }
    }
}

proof fn lemma_literal_free(s: Seq<char>)
    requires
        forall|i: int| 0 <= i < s.len() ==> #[trigger] s[i] != '[' && s[i] != ']',
    ensures
        bracket_free(s),
{
}

proof fn lemma_parts_balanced(t: Type, n: nat)
    requires
        parts_names_bracket_free(t, n),
        parts_spec(t, n) is Ok,
    ensures
        parts_spec(t, n)->Ok_0.len() == n,
        forall|i: int|
            0 <= i < n ==> brackets_balanced(#[trigger] parts_spec(t, n)->Ok_0[i]),
    decreases t, 0nat, n,
{
    if n > 0 {
        lemma_parts_balanced(t, (n - 1) as nat);
        match t {
            Type::Struct(s) => type_expression_brackets_balanced(s.fields[n - 1].ty),
            Type::Callback(f) => type_expression_brackets_balanced(f.args[n - 1]),
            Type::Function(f) => type_expression_brackets_balanced(f.args[n - 1]),
            _ => {},
        }
        let p = parts_spec(t, (n - 1) as nat)->Ok_0;
        assert forall|i: int| 0 <= i < n implies brackets_balanced(
            #[trigger] parts_spec(t, n)->Ok_0[i],
        ) by {
            if i < n - 1 {
                assert(parts_spec(t, n)->Ok_0[i] == p[i]);
            }
        }
    }
}

/// The type expression of a type whose names hold no brackets has its
/// brackets balanced: every `]` closes an earlier `[`, and every `[` is
/// closed.
pub proof fn type_expression_brackets_balanced(t: Type)
    requires
        names_bracket_free(t),
        py_type_spec(t) is Ok,
    ensures
        brackets_balanced(py_type_spec(t)->Ok_0),
    decreases t, 1nat, 0nat,
{
    reveal_strlit("None");
    reveal_strlit("str");
    reveal_strlit("slint.Color");
    reveal_strlit("float");
    reveal_strlit("slint.Image");
    reveal_strlit("bool");
    reveal_strlit("Brush");
    reveal_strlit("slint.Model[");
    reveal_strlit("typing.Tuple[");
    reveal_strlit("typing.Callable[[");
    reveal_strlit("]");
    reveal_strlit("], ");
    reveal_strlit(", ");
    let close = seq![']'];
    assert("]"@ =~= close);
    lemma_literal_free(", "@);
    match t {
        Type::Void => lemma_free_balanced("None"@),
        Type::String => lemma_free_balanced("str"@),
        Type::Color => lemma_free_balanced("slint.Color"@),
        Type::Float32 | Type::Int32 | Type::Duration | Type::Angle | Type::PhysicalLength
        | Type::LogicalLength | Type::Percent | Type::UnitProduct => lemma_free_balanced("float"@),
        Type::Image => lemma_free_balanced("slint.Image"@),
        Type::Bool => lemma_free_balanced("bool"@),
        Type::Brush => lemma_free_balanced("Brush"@),
        Type::Array(elem) => {
            type_expression_brackets_balanced(*elem);
            let o = "slint.Model["@;
            lemma_literal_free(o.drop_last());
            assert(o =~= o.drop_last().push('['));
            lemma_wrap(o.drop_last(), py_type_spec(*elem)->Ok_0);
        },
        Type::Struct(s) => {
            if let Some(n) = s.name {
                lemma_ident_bracket_free(n@);
                lemma_free_balanced(ident_spec(n@));
            } else {
                lemma_parts_balanced(t, s.fields.len() as nat);
                let p = parts_spec(t, s.fields.len() as nat)->Ok_0;
                lemma_join_balanced(p, ", "@);
                let o = "typing.Tuple["@;
                lemma_literal_free(o.drop_last());
                assert(o =~= o.drop_last().push('['));
                lemma_wrap(o.drop_last(), join_spec(p, ", "@));
            }
        },
        Type::Enumeration(en) => {
            lemma_ident_bracket_free(en.name@);
            lemma_free_balanced(ident_spec(en.name@));
        },
        Type::Callback(f) => {
            lemma_callable_balanced(t, f.args.len() as nat, *f.return_type);
        },
        Type::Function(f) => {
            lemma_callable_balanced(t, f.args.len() as nat, *f.return_type);
        },
        _ => {},
    }
}

proof fn lemma_callable_balanced(t: Type, n: nat, ret: Type)
    requires
        parts_names_bracket_free(t, n),
        names_bracket_free(ret),
        callable_spec(parts_spec(t, n), py_type_spec(ret)) is Ok,
        t is Callback || t is Function,
        ret == match t {
            Type::Callback(f) => *f.return_type,
            Type::Function(f) => *f.return_type,
            _ => ret,
        },
    ensures
        brackets_balanced(callable_spec(parts_spec(t, n), py_type_spec(ret))->Ok_0),
    decreases t, 0nat, n + 1,
{
    reveal_strlit("typing.Callable[[");
    reveal_strlit("], ");
    reveal_strlit("]");
    reveal_strlit(", ");
    lemma_literal_free(", "@);
    lemma_parts_balanced(t, n);
    type_expression_brackets_balanced(ret);
    let p = parts_spec(t, n)->Ok_0;
    let r = py_type_spec(ret)->Ok_0;
    let j = join_spec(p, ", "@);
    lemma_join_balanced(p, ", "@);
    let close = seq![']'];
    lemma_wrap(Seq::empty(), j);
    let inner = Seq::<char>::empty().push('[') + j + close;
    lemma_free_balanced(", "@);
    lemma_concat_balanced(inner, ", "@);
    lemma_concat_balanced(inner + ", "@, r);
    let o = "typing.Callable[["@;
    let f = o.take(o.len() - 2);
    lemma_literal_free(f);
    lemma_wrap(f, inner + ", "@ + r);
    assert(o + j + "], "@ + r + "]"@ =~= f.push('[') + (inner + ", "@ + r) + close);
}

} // verus!

verus! {

/// Every supported type maps to a well-formed type expression: one exists,
/// it is non-empty where the type's own name is, and where no name in the
/// type holds a bracket its brackets are balanced.
pub proof fn supported_type_maps_to_well_formed_expression(t: Type)
    requires
        is_supported(t),
        has_named_parts(t),
        names_bracket_free(t),
    ensures
        py_type_spec(t) is Ok,
        py_type_spec(t)->Ok_0.len() > 0,
        brackets_balanced(py_type_spec(t)->Ok_0),
{
    supported_type_maps_to_non_empty(t);
    type_expression_brackets_balanced(t);
}

} // verus!
