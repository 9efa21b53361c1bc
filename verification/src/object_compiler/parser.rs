//! Turns the tokens of an object schema into definitions.
use vstd::prelude::*;
use crate::text::{views, text_eq, parse_unsigned, parse_unsigned_spec};

verus! {

/// The kind of a type.
#[derive(Debug, Clone, Copy, PartialEq, Eq, Structural)]
pub enum Type {
    INT,
    INT128,
    INT256,
    LONG,
    DOUBLE,
    BYTES,
    VECTOR,
    STRING,
    OBJECT,
    SCHEMA,
}

/// The type of a parameter.
#[derive(Debug)]
pub struct TypeDefinition {
    pub ty: Type,
    /// The element type of a vector.
    pub inner: Option<Box<TypeDefinition>>,
    /// The name of a schema type.
    pub schema_type: Option<String>,
}

/// A named parameter.
#[derive(Debug)]
pub struct Param {
    pub ty: TypeDefinition,
    pub name: String,
}

/// A constructor of the schema.
#[derive(Debug)]
pub struct Definition {
    pub id: i32,
    pub predicate: String,
    pub params: Vec<Param>,
}

/// The model of a [`TypeDefinition`].
pub struct TypeDefinitionView {
    pub ty: Type,
    pub inner: Option<Box<TypeDefinitionView>>,
    pub schema_type: Option<Seq<char>>,
}

/// The model of a [`Param`].
pub struct ParamView {
    pub ty: TypeDefinitionView,
    pub name: Seq<char>,
}

/// The model of a [`Definition`].
pub struct DefinitionView {
    pub id: i32,
    pub predicate: Seq<char>,
    pub params: Seq<ParamView>,
}

/// The model of a type definition.
pub open spec fn tdef_view(t: TypeDefinition) -> TypeDefinitionView
    decreases t,
{
    TypeDefinitionView {
        ty: t.ty,
        inner: match t.inner {
            Some(b) => Some(Box::new(tdef_view(*b))),
            None => None,
        },
        schema_type: match t.schema_type {
            Some(s) => Some(s@),
            None => None,
        },
    }
}

impl View for TypeDefinition {
    type V = TypeDefinitionView;

    open spec fn view(&self) -> TypeDefinitionView {
        tdef_view(*self)
    }
}

impl View for Param {
    type V = ParamView;

    open spec fn view(&self) -> ParamView {
        ParamView { ty: self.ty@, name: self.name@ }
    }
}

/// The models of a list of parameters.
pub open spec fn params_view(ps: Seq<Param>) -> Seq<ParamView> {
    ps.map_values(|p: Param| p@)
}

impl View for Definition {
    type V = DefinitionView;

    open spec fn view(&self) -> DefinitionView {
        DefinitionView { id: self.id, predicate: self.predicate@, params: params_view(self.params@) }
    }
}

/// The models of a list of definitions.
pub open spec fn defs_view(ds: Seq<Definition>) -> Seq<DefinitionView> {
    ds.map_values(|d: Definition| d@)
}

/// An empty definition.
pub open spec fn empty_definition() -> DefinitionView {
    DefinitionView { id: 0, predicate: Seq::empty(), params: Seq::empty() }
}

impl Default for Definition {
    fn default() -> (r: Self)
        ensures
            r@ == empty_definition(),
    {
        let r = Definition { id: 0, predicate: String::new(), params: Vec::new() };
        assert(params_view(r.params@) =~= Seq::<ParamView>::empty());
        r
    }
}

/// The kind a type name stands for.
pub open spec fn resolve_type_spec(t: Seq<char>) -> Type {
    if t == "int"@ {
        Type::INT
    } else if t == "int128"@ {
        Type::INT128
    } else if t == "long"@ {
        Type::LONG
    } else if t == "bytes"@ {
        Type::BYTES
    } else if t == "Vector"@ || t == "vector"@ {
        Type::VECTOR
    } else {
        Type::SCHEMA
    }
}

/// The kind a type name stands for.
fn resolve_type(t: &str) -> (r: Type)
    ensures
        r == resolve_type_spec(t@),
{
    if text_eq(t, "int") {
        Type::INT
    } else if text_eq(t, "int128") {
        Type::INT128
    } else if text_eq(t, "long") {
        Type::LONG
    } else if text_eq(t, "bytes") {
        Type::BYTES
    } else if text_eq(t, "Vector") || text_eq(t, "vector") {
        Type::VECTOR
    } else {
        Type::SCHEMA
    }
}

/// A type named `t`, with its schema name when it is a schema type.
pub open spec fn named_type(t: Seq<char>) -> TypeDefinitionView {
    let ty = resolve_type_spec(t);
    TypeDefinitionView {
        ty: ty,
        inner: None,
        schema_type: if ty == Type::SCHEMA {
            Some(t)
        } else {
            None
        },
    }
}

/// The parser's state: the definition being read and the finished ones.
pub struct ParseState {
    pub definition: DefinitionView,
    pub definitions: Seq<DefinitionView>,
}

/// One token at `i`: the state after it and the index of the next token;
/// `None` when a token it needs is missing or a number cannot be read.
pub open spec fn parse_token(src: Seq<Seq<char>>, i: int, st: ParseState) -> Option<(ParseState, int)> {
    let token = src[i];
    if token == ";"@ {
        Some(
            (
                ParseState {
                    definition: empty_definition(),
                    definitions: st.definitions.push(st.definition),
                },
                i + 1,
            ),
        )
    } else if token == ":"@ {
        if i < 1 || i + 1 >= src.len() {
            None
        } else {
            let name = src[i - 1];
            let t = src[i + 1];
            let base = named_type(t);
            let j = i + 1;
            let step = if base.ty == Type::VECTOR {
                if j + 2 >= src.len() {
                    None
                } else {
                    Some(
                        (
                            TypeDefinitionView {
                                inner: Some(Box::new(named_type(src[j + 2]))),
                                ..base
                            },
                            j + 3,
                        ),
                    )
                }
            } else {
                Some((base, j))
            };
            match step {
                None => None,
                Some((typedef, k)) => Some(
                    (
                        ParseState {
                            definition: DefinitionView {
                                params: st.definition.params.push(
                                    ParamView { name: name, ty: typedef },
                                ),
                                ..st.definition
                            },
                            ..st
                        },
                        k + 1,
                    ),
                ),
            }
        }
    } else if token == "#"@ {
        if i < 1 || i + 1 >= src.len() {
            None
        } else {
            match parse_unsigned_spec(src[i + 1], 16, 0xffff_ffff) {
                None => None,
                Some(v) => Some(
                    (
                        ParseState {
                            definition: DefinitionView {
                                predicate: src[i - 1],
                                id: (if v >= 0x8000_0000 {
                                    v - 0x1_0000_0000
                                } else {
                                    v as int
                                }) as i32,
                                ..st.definition
                            },
                            ..st
                        },
                        i + 2,
                    ),
                ),
            }
        }
    } else {
        Some((st, i + 1))
    }
}

/// Parses the tokens from `i` on; `None` when some token cannot be parsed.
pub open spec fn parse_from(src: Seq<Seq<char>>, i: int, st: ParseState) -> Option<Seq<DefinitionView>>
    decreases src.len() - i,
{
    if i < 0 || i >= src.len() {
        Some(st.definitions)
    } else {
        match parse_token(src, i, st) {
            None => None,
            Some((st2, i2)) => if i2 <= i {
                None
            } else if i2 >= src.len() {
                Some(st2.definitions)
            } else {
                parse_from(src, i2, st2)
            },
        }
    }
}

/// The definitions of the tokens: each `;` ends one.  `None` where the
/// tokens cannot be parsed (a `:` or `#` at an end, a number that is not
/// hexadecimal, a vector without its element type).
pub open spec fn parse_spec(src: Seq<Seq<char>>) -> Option<Seq<DefinitionView>> {
    parse_from(src, 0, ParseState { definition: empty_definition(), definitions: Seq::empty() })
}

/// The type named `t`.
fn read_named_type(t: &String) -> (r: TypeDefinition)
    ensures
        r@ == named_type(t@),
{
    let ty = resolve_type(t.as_str());
    TypeDefinition {
        ty: ty,
        inner: None,
        schema_type: if ty == Type::SCHEMA {
            Some(t.clone())
        } else {
            None
        },
    }
}

/// Parses object schema tokens into definitions, or `None` where they
/// cannot be parsed.
pub fn try_parse(source: &Vec<String>) -> (r: Option<Vec<Definition>>)
    requires
        source@.len() <= isize::MAX,
    ensures
        match parse_spec(views(source@)) {
            Some(defs) => r matches Some(v) && defs_view(v@) == defs,
            None => r is None,
        },
{
    let ghost src = views(source@);
    let mut definition = Definition::default();
    let mut definitions: Vec<Definition> = Vec::new();
    let mut i: usize = 0;
    assert(defs_view(definitions@) =~= Seq::<DefinitionView>::empty());
    while i < source.len()
        invariant
            src == views(source@),
            source@.len() <= isize::MAX,
            parse_spec(src) == parse_from(
                src,
                i as int,
                ParseState { definition: definition@, definitions: defs_view(definitions@) },
            ),
            i <= source@.len() + 4,
        decreases source@.len() + 8 - i,
    {
        let ghost st = ParseState { definition: definition@, definitions: defs_view(definitions@) };
        let ghost step = parse_token(src, i as int, st);
        assert(src[i as int] == source@[i as int]@);
        let token = source[i].as_str();
        if text_eq(token, ";") {
            let mut done = Definition::default();
            std::mem::swap(&mut done, &mut definition);
            definitions.push(done);
            assert(defs_view(definitions@) =~= st.definitions.push(st.definition));
        } else if text_eq(token, ":") {
            if i < 1 || i + 1 >= source.len() {
                return None;
            }
            assert(src[i - 1] == source@[i - 1]@);
            assert(src[i + 1] == source@[i + 1]@);
            let name = source[i - 1].clone();
            let mut typedef = read_named_type(&source[i + 1]);
            i = i + 1;
            if typedef.ty == Type::VECTOR {
                if i + 2 >= source.len() {
                    return None;
                }
                assert(src[i + 2] == source@[i + 2]@);
                typedef.inner = Some(Box::new(read_named_type(&source[i + 2])));
                proof {
                    reveal_with_fuel(tdef_view, 2);
                }
                i = i + 3;
            }
            let ghost old_params = definition.params@;
            let ghost pv = ParamView { ty: typedef@, name: name@ };
            definition.params.push(Param { ty: typedef, name: name });
            assert(params_view(definition.params@) =~= params_view(old_params).push(pv));
        } else if text_eq(token, "#") {
            if i < 1 || i + 1 >= source.len() {
                return None;
            }
            assert(src[i - 1] == source@[i - 1]@);
            assert(src[i + 1] == source@[i + 1]@);
            definition.predicate = source[i - 1].clone();
            let v = match parse_unsigned(source[i + 1].as_str(), 16, 0xffff_ffff) {
                Some(v) => v,
                None => {
                    return None;
                },
            };
            definition.id = if v >= 0x8000_0000 {
                (v as i64 - 0x1_0000_0000) as i32
            } else {
                v as i32
            };
            i = i + 1;
        }
        i = i + 1;
        assert(step is Some);
        assert(ParseState { definition: definition@, definitions: defs_view(definitions@) }
            == (step->0).0);
        assert(i == (step->0).1);
    }
    Some(definitions)
}

/// Parses object schema tokens into definitions.  Each `;` ends a
/// definition; a definition is its name, `#` and its hexadecimal number, and
/// its parameters `name:type`, with `Vector<t>` for vectors.
pub fn parse(source: Vec<String>) -> (r: Vec<Definition>)
    requires
        source@.len() <= isize::MAX,
        parse_spec(views(source@)) is Some,
    ensures
        defs_view(r@) == parse_spec(views(source@))->0,
{
    match try_parse(&source) {
        Some(definitions) => definitions,
        None => {
            assert(false);
            Vec::new()
        },
    }
}

} // verus!
