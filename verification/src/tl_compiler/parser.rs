//! Turns the tokens of a TL schema into constructor and function definitions.
use vstd::prelude::*;
use crate::text::{
    views, text_eq, split_char, split_spec, lemma_split_nonempty, parse_unsigned,
    parse_unsigned_spec, chars_of, string_of,
};

verus! {

/// The kind of a TL type.
#[derive(Debug, Clone, Copy, Default, PartialEq, Eq, Structural)]
pub enum Type {
    #[default]
    UNDEFINED,
    INT,
    INT128,
    INT256,
    BOOL,
    BitBool,
    LONG,
    BYTES,
    DOUBLE,
    VECTOR,
    STRING,
    FLAGS,
    OBJECT,
    SCHEMA,
}

/// The type of a parameter or of a definition's result.
#[derive(Debug)]
pub struct TypeDefinition {
    pub ty: Type,
    /// The element type of a vector.
    pub inner: Option<Box<TypeDefinition>>,
    /// The name of a schema type.
    pub schema_type: Option<String>,
    /// The flags parameter that says whether an optional parameter is present.
    pub flags_name: Option<String>,
    /// The bit of that flags parameter.
    pub flags_bit: Option<u8>,
    /// The schema type has several constructors.
    pub variant: bool,
    /// The vector elements come without constructor numbers.
    pub raw: bool,
}

/// A named parameter.
#[derive(Debug)]
pub struct Param {
    pub ty: TypeDefinition,
    pub name: String,
}

/// A constructor or function of the schema.
#[derive(Debug)]
pub struct Definition {
    pub id: i32,
    pub predicate: String,
    pub params: Vec<Param>,
    pub return_type: TypeDefinition,
    pub function: bool,
}

/// The model of a [`TypeDefinition`].
pub struct TypeDefinitionView {
    pub ty: Type,
    pub inner: Option<Box<TypeDefinitionView>>,
    pub schema_type: Option<Seq<char>>,
    pub flags_name: Option<Seq<char>>,
    pub flags_bit: Option<u8>,
    pub variant: bool,
    pub raw: bool,
}

/// The model of a [`Param`].
pub struct ParamView {
    pub ty: TypeDefinitionView,
    pub name: Seq<char>,
}

/// The model of a [`Definition`].
pub struct DefinitionView {
    pub id: i32,
    pub predicate: Seq<char>,
    pub params: Seq<ParamView>,
    pub return_type: TypeDefinitionView,
    pub function: bool,
}

/// The view of an optional string.
pub open spec fn opt_view(o: Option<String>) -> Option<Seq<char>> {
    match o {
        Some(s) => Some(s@),
        None => None,
    }
}

/// The model of a type definition.
pub open spec fn tdef_view(t: TypeDefinition) -> TypeDefinitionView
    decreases t,
{
    TypeDefinitionView {
        ty: t.ty,
        inner: match t.inner {
            Some(b) => Some(Box::new(tdef_view(*b))),
            None => None,
        },
        schema_type: opt_view(t.schema_type),
        flags_name: opt_view(t.flags_name),
        flags_bit: t.flags_bit,
        variant: t.variant,
        raw: t.raw,
    }
}

impl View for TypeDefinition {
    type V = TypeDefinitionView;

    open spec fn view(&self) -> TypeDefinitionView {
        tdef_view(*self)
    }
}

impl View for Param {
    type V = ParamView;

    open spec fn view(&self) -> ParamView {
        ParamView { ty: self.ty@, name: self.name@ }
    }
}

/// The models of a list of parameters.
pub open spec fn params_view(ps: Seq<Param>) -> Seq<ParamView> {
    ps.map_values(|p: Param| p@)
}

impl View for Definition {
    type V = DefinitionView;

    open spec fn view(&self) -> DefinitionView {
        DefinitionView {
            id: self.id,
            predicate: self.predicate@,
            params: params_view(self.params@),
            return_type: self.return_type@,
            function: self.function,
        }
    }
}

/// A copy of an optional string.
pub fn copy_opt_string(o: &Option<String>) -> (r: Option<String>)
    ensures
        opt_view(r) == opt_view(*o),
{
    match o {
        Some(s) => Some(s.clone()),
        None => None,
    }
}

/// A deep copy of a type definition.
pub fn copy_type(t: &TypeDefinition) -> (r: TypeDefinition)
    ensures
        r@ == t@,
    decreases t,
{
    let inner = match &t.inner {
        Some(b) => Some(Box::new(copy_type(&**b))),
        None => None,
    };
    TypeDefinition {
        ty: t.ty,
        inner: inner,
        schema_type: copy_opt_string(&t.schema_type),
        flags_name: copy_opt_string(&t.flags_name),
        flags_bit: t.flags_bit,
        variant: t.variant,
        raw: t.raw,
    }
}

/// A deep copy of a parameter.
pub fn copy_param(p: &Param) -> (r: Param)
    ensures
        r@ == p@,
{
    Param { ty: copy_type(&p.ty), name: p.name.clone() }
}

/// A deep copy of a definition.
pub fn copy_definition(d: &Definition) -> (r: Definition)
    ensures
        r@ == d@,
{
    let mut params: Vec<Param> = Vec::new();
    let mut i: usize = 0;
    while i < d.params.len()
        invariant
            i <= d.params@.len(),
            params@.len() == i,
            forall|j: int| 0 <= j < i ==> (#[trigger] params@[j])@ == d.params@[j]@,
        decreases d.params@.len() - i,
    {
        params.push(copy_param(&d.params[i]));
        i = i + 1;
    }
    assert(params_view(params@) =~= params_view(d.params@));
    Definition {
        id: d.id,
        predicate: d.predicate.clone(),
        params: params,
        return_type: copy_type(&d.return_type),
        function: d.function,
    }
}

impl Clone for TypeDefinition {
    fn clone(&self) -> (r: Self)
        ensures
            r@ == self@,
    {
        copy_type(self)
    }
}

impl Clone for Param {
    fn clone(&self) -> (r: Self)
        ensures
            r@ == self@,
    {
        copy_param(self)
    }
}

impl Clone for Definition {
    fn clone(&self) -> (r: Self)
        ensures
            r@ == self@,
    {
        copy_definition(self)
    }
}

impl Default for TypeDefinition {
    fn default() -> (r: Self)
        ensures
            r@ == plain_type(Type::UNDEFINED),
    {
        TypeDefinition {
            ty: Type::UNDEFINED,
            inner: None,
            schema_type: None,
            flags_name: None,
            flags_bit: None,
            variant: false,
            raw: false,
        }
    }
}

impl Default for Param {
    fn default() -> (r: Self)
        ensures
            r@ == (ParamView { ty: plain_type(Type::UNDEFINED), name: Seq::empty() }),
    {
        Param { ty: TypeDefinition::default(), name: String::new() }
    }
}

impl Default for Definition {
    fn default() -> (r: Self)
        ensures
            r@ == empty_definition(),
    {
        let r = Definition {
            id: 0,
            predicate: String::new(),
            params: Vec::new(),
            return_type: TypeDefinition::default(),
            function: false,
        };
        assert(params_view(r.params@) =~= Seq::<ParamView>::empty());
        r
    }
}

/// The models of a list of definitions.
pub open spec fn defs_view(ds: Seq<Definition>) -> Seq<DefinitionView> {
    ds.map_values(|d: Definition| d@)
}

/// A type definition of the given kind with every other field empty.
pub open spec fn plain_type(ty: Type) -> TypeDefinitionView {
    TypeDefinitionView {
        ty: ty,
        inner: None,
        schema_type: None,
        flags_name: None,
        flags_bit: None,
        variant: false,
        raw: false,
    }
}

/// An empty definition.
pub open spec fn empty_definition() -> DefinitionView {
    DefinitionView {
        id: 0,
        predicate: Seq::empty(),
        params: Seq::empty(),
        return_type: plain_type(Type::UNDEFINED),
        function: false,
    }
}

/// The kind a type name stands for.
pub open spec fn resolve_type_spec(t: Seq<char>) -> Type {
    if t == "int"@ {
        Type::INT
    } else if t == "int128"@ {
        Type::INT128
    } else if t == "int256"@ {
        Type::INT256
    } else if t == "long"@ {
        Type::LONG
    } else if t == "bytes"@ {
        Type::BYTES
    } else if t == "double"@ {
        Type::DOUBLE
    } else if t == "string"@ {
        Type::STRING
    } else if t == "bool"@ || t == "Bool"@ {
        Type::BOOL
    } else if t == "true"@ {
        Type::BitBool
    } else if t == "#"@ {
        Type::FLAGS
    } else if t == "Vector"@ || t == "vector"@ {
        Type::VECTOR
    } else if t == "Object"@ || t == "X"@ || t == "!X"@ {
        Type::OBJECT
    } else {
        Type::SCHEMA
    }
}

/// The kind a type name stands for.
pub fn resolve_type(t: &str) -> (r: Type)
    ensures
        r == resolve_type_spec(t@),
{
    if text_eq(t, "int") {
        Type::INT
    } else if text_eq(t, "int128") {
        Type::INT128
    } else if text_eq(t, "int256") {
        Type::INT256
    } else if text_eq(t, "long") {
        Type::LONG
    } else if text_eq(t, "bytes") {
        Type::BYTES
    } else if text_eq(t, "double") {
        Type::DOUBLE
    } else if text_eq(t, "string") {
        Type::STRING
    } else if text_eq(t, "bool") || text_eq(t, "Bool") {
        Type::BOOL
    } else if text_eq(t, "true") {
        Type::BitBool
    } else if text_eq(t, "#") {
        Type::FLAGS
    } else if text_eq(t, "Vector") || text_eq(t, "vector") {
        Type::VECTOR
    } else if text_eq(t, "Object") || text_eq(t, "X") || text_eq(t, "!X") {
        Type::OBJECT
    } else {
        Type::SCHEMA
    }
}

/// The constructor number written in hexadecimal, as a signed 32-bit value.
pub open spec fn hex_id_spec(t: Seq<char>) -> Option<i32> {
    match parse_unsigned_spec(t, 16, 0xffff_ffff) {
        Some(v) => Some(
            (if v >= 0x8000_0000 {
                v - 0x1_0000_0000
            } else {
                v as int
            }) as i32,
        ),
        None => None,
    }
}

/// The flags condition of a parameter type `name.bit?type`: the flags name,
/// the bit and the type after the `?`; no condition when there is no `?`.
/// `None` when the condition cannot be read.
pub open spec fn flags_condition(t: Seq<char>) -> Option<(Option<(Seq<char>, u8)>, Seq<char>)> {
    let split = split_spec(t, '?');
    if split.len() == 1 {
        Some((None, t))
    } else {
        let flags_data = split_spec(split[0], '.');
        if flags_data.len() < 2 {
            None
        } else {
            match parse_unsigned_spec(flags_data[1], 10, 255) {
                Some(bit) => Some((Some((flags_data[0], bit as u8)), split[1])),
                None => None,
            }
        }
    }
}

/// A vector element type written with a leading `%` is a raw (bare) type.
pub open spec fn strip_raw(t: Seq<char>) -> (Seq<char>, bool) {
    if t.len() > 0 && t[0] == '%' {
        (t.drop_first(), true)
    } else {
        (t, false)
    }
}

/// The type of a parameter whose type text `t` stands at `j`, with its flags
/// condition, and the index after it; a vector's element type is the token
/// two places further.
pub open spec fn param_type(
    src: Seq<Seq<char>>,
    j: int,
    flags: Option<(Seq<char>, u8)>,
    t: Seq<char>,
) -> Option<(TypeDefinitionView, int)> {
    let ty = resolve_type_spec(t);
    let base = TypeDefinitionView {
        ty: ty,
        inner: None,
        schema_type: if ty == Type::SCHEMA {
            Some(t)
        } else {
            None
        },
        flags_name: match flags {
            Some((n, b)) => Some(n),
            None => None,
        },
        flags_bit: match flags {
            Some((n, b)) => Some(b),
            None => None,
        },
        variant: false,
        raw: false,
    };
    if ty == Type::VECTOR {
        if j + 2 >= src.len() {
            None
        } else {
            let (inner_type, inner_raw) = strip_raw(src[j + 2]);
            let inner_ty = resolve_type_spec(inner_type);
            let inner = TypeDefinitionView {
                ty: inner_ty,
                inner: None,
                schema_type: if inner_ty == Type::SCHEMA {
                    Some(inner_type)
                } else {
                    None
                },
                flags_name: None,
                flags_bit: None,
                variant: false,
                raw: inner_raw,
            };
            Some((TypeDefinitionView { inner: Some(Box::new(inner)), ..base }, j + 3))
        }
    } else {
        Some((base, j))
    }
}

/// The parser's state: the definition being read, the finished ones, and
/// whether the functions section has begun.
pub struct ParseState {
    pub definition: DefinitionView,
    pub definitions: Seq<DefinitionView>,
    pub functions: bool,
}

/// One token at `i`: the state after it and the index of the next token;
/// `None` when a token it needs is missing or a number cannot be read.
pub open spec fn parse_token(src: Seq<Seq<char>>, i: int, st: ParseState) -> Option<(ParseState, int)> {
    let token = src[i];
    if token == "---functions---"@ {
        Some((ParseState { functions: true, ..st }, i + 1))
    } else if token == ";"@ {
        Some(
            (
                ParseState {
                    definition: empty_definition(),
                    definitions: st.definitions.push(
                        DefinitionView { function: st.functions, ..st.definition },
                    ),
                    functions: st.functions,
                },
                i + 1,
            ),
        )
    } else if token == "="@ {
        if i + 1 >= src.len() {
            None
        } else {
            let t = src[i + 1];
            let j = i + 1;
            let def_type = resolve_type_spec(t);
            let rt = st.definition.return_type;
            if def_type == Type::VECTOR {
                if j + 2 >= src.len() {
                    None
                } else {
                    let rt2 = TypeDefinitionView {
                        inner: Some(Box::new(plain_type(resolve_type_spec(src[j + 2])))),
                        ty: def_type,
                        ..rt
                    };
                    Some(
                        (
                            ParseState {
                                definition: DefinitionView { return_type: rt2, ..st.definition },
                                ..st
                            },
                            j + 4,
                        ),
                    )
                }
            } else {
                let rt2 = if def_type == Type::SCHEMA {
                    TypeDefinitionView { schema_type: Some(t), ty: def_type, ..rt }
                } else {
                    TypeDefinitionView { ty: def_type, ..rt }
                };
                Some(
                    (
                        ParseState {
                            definition: DefinitionView { return_type: rt2, ..st.definition },
                            ..st
                        },
                        j + 1,
                    ),
                )
            }
        }
    } else if token == ":"@ {
        if i < 1 || i + 1 >= src.len() {
            None
        } else {
            let name = src[i - 1];
            match flags_condition(src[i + 1]) {
                None => None,
                Some((flags, t)) => match param_type(src, i + 1, flags, t) {
                    None => None,
                    Some((typedef, j)) => Some(
                        (
                            ParseState {
                                definition: DefinitionView {
                                    params: st.definition.params.push(
                                        ParamView { name: name, ty: typedef },
                                    ),
                                    ..st.definition
                                },
                                ..st
                            },
                            j + 1,
                        ),
                    ),
                },
            }
        }
    } else if token == "#"@ {
        if i < 1 || i + 1 >= src.len() {
            None
        } else {
            match hex_id_spec(src[i + 1]) {
                None => None,
                Some(id) => Some(
                    (
                        ParseState {
                            definition: DefinitionView {
                                predicate: src[i - 1],
                                id: id,
                                ..st.definition
                            },
                            ..st
                        },
                        i + 2,
                    ),
                ),
            }
        }
    } else if token == "{"@ {
        Some((st, i + 6))
    } else {
        Some((st, i + 1))
    }
}

/// Parses the tokens from `i` on; `None` when some token cannot be parsed.
pub open spec fn parse_from(src: Seq<Seq<char>>, i: int, st: ParseState) -> Option<Seq<DefinitionView>>
    decreases src.len() - i,
{
    if i < 0 || i >= src.len() {
        Some(st.definitions)
    } else {
        match parse_token(src, i, st) {
            None => None,
            Some((st2, i2)) => if i2 <= i {
                None
            } else if i2 >= src.len() {
                Some(st2.definitions)
            } else {
                parse_from(src, i2, st2)
            },
        }
    }
}

/// The definitions in the tokens before variant marking.
pub open spec fn parse_raw(src: Seq<Seq<char>>) -> Option<Seq<DefinitionView>> {
    parse_from(
        src,
        0,
        ParseState { definition: empty_definition(), definitions: Seq::empty(), functions: false },
    )
}

/// `d` is a constructor whose result is the schema type `k`.
pub open spec fn constructs(d: DefinitionView, k: Seq<char>) -> bool {
    !d.function && d.return_type.schema_type == Some(k)
}

/// The constructors of the schema type `k`, in order.
pub open spec fn members(defs: Seq<DefinitionView>, k: Seq<char>) -> Seq<DefinitionView>
    decreases defs.len(),
{
    if defs.len() == 0 {
        Seq::empty()
    } else {
        let rest = members(defs.drop_last(), k);
        if constructs(defs.last(), k) {
            rest.push(defs.last())
        } else {
            rest
        }
    }
}

/// The schema types with more than one constructor among the first `n`
/// definitions' result types, each once, in order of first appearance.
pub open spec fn variant_keys_upto(defs: Seq<DefinitionView>, n: int) -> Seq<Seq<char>>
    decreases n,
{
    if n <= 0 || n > defs.len() {
        Seq::empty()
    } else {
        let ks = variant_keys_upto(defs, n - 1);
        let d = defs[n - 1];
        if d.function {
            ks
        } else {
            match d.return_type.schema_type {
                Some(s) => if members(defs, s).len() > 1 && !ks.contains(s) {
                    ks.push(s)
                } else {
                    ks
                },
                None => ks,
            }
        }
    }
}

/// The schema types with more than one constructor, in order of first appearance.
pub open spec fn variant_keys(defs: Seq<DefinitionView>) -> Seq<Seq<char>> {
    variant_keys_upto(defs, defs.len() as int)
}

/// Each schema type with more than one constructor, with its constructors.
pub open spec fn variants_spec(defs: Seq<DefinitionView>) -> Seq<(Seq<char>, Seq<DefinitionView>)> {
    variant_keys(defs).map_values(|k: Seq<char>| (k, members(defs, k)))
}

/// Marks a type whose schema type has several constructors.
pub open spec fn mark_type(t: TypeDefinitionView, keys: Seq<Seq<char>>) -> TypeDefinitionView {
    match t.schema_type {
        Some(s) => if keys.contains(s) {
            TypeDefinitionView { variant: true, ..t }
        } else {
            t
        },
        None => t,
    }
}

/// Marks a parameter type, and its element type, whose schema type has
/// several constructors.
pub open spec fn mark_param(p: ParamView, keys: Seq<Seq<char>>) -> ParamView {
    let t = mark_type(p.ty, keys);
    let t2 = match t.inner {
        Some(b) => TypeDefinitionView { inner: Some(Box::new(mark_type(*b, keys))), ..t },
        None => t,
    };
    ParamView { ty: t2, ..p }
}

/// Marks the parameters of every definition.
pub open spec fn mark_variants(defs: Seq<DefinitionView>, keys: Seq<Seq<char>>) -> Seq<DefinitionView> {
    defs.map_values(
        |d: DefinitionView|
            DefinitionView { params: d.params.map_values(|p: ParamView| mark_param(p, keys)), ..d },
    )
}

/// The definitions in the tokens, with variant parameters marked.
pub open spec fn parse_spec(src: Seq<Seq<char>>) -> Option<Seq<DefinitionView>> {
    match parse_raw(src) {
        Some(defs) => Some(mark_variants(defs, variant_keys(defs))),
        None => None,
    }
}

/// The model of the variant table: each schema type with its constructors.
pub open spec fn variants_view(v: Seq<(String, Vec<Definition>)>) -> Seq<(Seq<char>, Seq<DefinitionView>)> {
    v.map_values(|e: (String, Vec<Definition>)| (e.0@, defs_view(e.1@)))
}

/// The schema types of the variant table.
pub open spec fn variant_table_keys(v: Seq<(String, Vec<Definition>)>) -> Seq<Seq<char>> {
    v.map_values(|e: (String, Vec<Definition>)| e.0@)
}

/// Copies of the constructors of the schema type `k`.
fn collect_members(definitions: &Vec<Definition>, k: &String) -> (r: Vec<Definition>)
    ensures
        defs_view(r@) == members(defs_view(definitions@), k@),
{
    let ghost dv = defs_view(definitions@);
    let mut out: Vec<Definition> = Vec::new();
    let mut n: usize = 0;
    assert(dv.take(0) =~= Seq::<DefinitionView>::empty());
    assert(defs_view(out@) =~= Seq::<DefinitionView>::empty());
    while n < definitions.len()
        invariant
            dv == defs_view(definitions@),
            n <= definitions@.len(),
            defs_view(out@) == members(dv.take(n as int), k@),
        decreases definitions@.len() - n,
    {
        let d = &definitions[n];
        assert(dv.take(n + 1).drop_last() =~= dv.take(n as int));
        let is_member = !d.function && match &d.return_type.schema_type {
            Some(s) => text_eq(s.as_str(), k.as_str()),
            None => false,
        };
        if is_member {
            out.push(copy_definition(d));
            assert(defs_view(out@) =~= defs_view(out@.drop_last()).push(d@));
        }
        n = n + 1;
    }
    assert(dv.take(n as int) =~= dv);
    out
}

/// Whether the variant table already holds the schema type `k`.
fn has_key(table: &Vec<(String, Vec<Definition>)>, k: &String) -> (r: bool)
    ensures
        r == variant_table_keys(table@).contains(k@),
{
    let mut j: usize = 0;
    while j < table.len()
        invariant
            j <= table@.len(),
            forall|m: int| 0 <= m < j ==> table@[m].0@ != k@,
        decreases table@.len() - j,
    {
        if text_eq(table[j].0.as_str(), k.as_str()) {
            assert(variant_table_keys(table@)[j as int] == k@);
            return true;
        }
        j = j + 1;
    }
    assert(!variant_table_keys(table@).contains(k@)) by {
        if variant_table_keys(table@).contains(k@) {
            let m = choose|m: int| 0 <= m < variant_table_keys(table@).len() && variant_table_keys(table@)[m] == k@;
            assert(table@[m].0@ == k@);
        }
    }
    false
}

/// Each schema type that more than one constructor returns, with copies of
/// those constructors, in order of the type's first appearance.
pub fn analyze_variant_constructors(definitions: &Vec<Definition>) -> (r: Vec<(String, Vec<Definition>)>)
    ensures
        variants_view(r@) == variants_spec(defs_view(definitions@)),
{
    let ghost dv = defs_view(definitions@);
    let mut table: Vec<(String, Vec<Definition>)> = Vec::new();
    let mut n: usize = 0;
    assert(variant_table_keys(table@) =~= Seq::<Seq<char>>::empty());
    while n < definitions.len()
        invariant
            dv == defs_view(definitions@),
            n <= definitions@.len(),
            variant_table_keys(table@) == variant_keys_upto(dv, n as int),
            forall|j: int| 0 <= j < table@.len() ==> defs_view((#[trigger] table@[j]).1@) == members(dv, table@[j].0@),
        decreases definitions@.len() - n,
    {
        let d = &definitions[n];
        if !d.function {
            match &d.return_type.schema_type {
                Some(s) => {
                    let ms = collect_members(definitions, s);
                    if ms.len() > 1 && !has_key(&table, s) {
                        let ghost before = table@;
                        table.push((s.clone(), ms));
                        assert(variant_table_keys(table@) =~= variant_table_keys(before).push(s@));
                    }
                },
                None => {},
            }
        }
        n = n + 1;
    }
    assert(variants_view(table@) =~= variants_spec(dv));
    table
}

/// The model of a flags condition.
pub open spec fn flags_view(f: Option<(String, u8)>) -> Option<(Seq<char>, u8)> {
    match f {
        Some((n, b)) => Some((n@, b)),
        None => None,
    }
}

/// Reads the flags condition of a parameter type.
fn read_flags_condition(t: &String) -> (r: Option<(Option<(String, u8)>, String)>)
    ensures
        match flags_condition(t@) {
            None => r is None,
            Some((f, t2)) => r matches Some((f2, t3)) && t3@ == t2 && flags_view(f2) == f,
        },
{
    let split = split_char(t.as_str(), '?');
    proof {
        lemma_split_nonempty(t@, '?');
    }
    if split.len() == 1 {
        return Some((None, t.clone()));
    }
    assert(views(split@)[0] == split@[0]@ && views(split@)[1] == split@[1]@);
    let flags_data = split_char(split[0].as_str(), '.');
    if flags_data.len() < 2 {
        return None;
    }
    assert(views(flags_data@)[0] == flags_data@[0]@ && views(flags_data@)[1] == flags_data@[1]@);
    match parse_unsigned(flags_data[1].as_str(), 10, 255) {
        Some(b) => Some((Some((flags_data[0].clone(), b as u8)), split[1].clone())),
        None => None,
    }
}

/// Removes a leading `%` that marks a raw element type.
fn read_raw_marker(t: &String) -> (r: (String, bool))
    ensures
        (r.0@, r.1) == strip_raw(t@),
{
    let chars = chars_of(t.as_str());
    if chars.len() > 0 && chars[0] == '%' {
        let mut rest: Vec<char> = Vec::new();
        let mut k: usize = 1;
        while k < chars.len()
            invariant
                1 <= k <= chars@.len(),
                rest@ == chars@.subrange(1, k as int),
            decreases chars@.len() - k,
        {
            rest.push(chars[k]);
            k = k + 1;
            assert(rest@ =~= chars@.subrange(1, k as int));
        }
        assert(rest@ =~= t@.drop_first());
        (string_of(&rest), true)
    } else {
        (t.clone(), false)
    }
}

/// Builds the type of a parameter whose type text stands at `j`.
fn read_param_type(source: &Vec<String>, j: usize, flags: Option<(String, u8)>, t: String) -> (r: Option<(TypeDefinition, usize)>)
    requires
        j < source@.len(),
        source@.len() <= isize::MAX,
    ensures
        match param_type(views(source@), j as int, flags_view(flags), t@) {
            None => r is None,
            Some((td, k)) => r matches Some((td2, k2)) && td2@ == td && k2 == k,
        },
{
    let ty = resolve_type(t.as_str());
    let (flags_name, flags_bit) = match flags {
        Some((n, b)) => (Some(n), Some(b)),
        None => (None, None),
    };
    let mut typedef = TypeDefinition {
        ty: ty,
        inner: None,
        schema_type: None,
        flags_name: flags_name,
        flags_bit: flags_bit,
        variant: false,
        raw: false,
    };
    if ty == Type::SCHEMA {
        typedef.schema_type = Some(t);
    }
    if ty == Type::VECTOR {
        if j + 2 >= source.len() {
            return None;
        }
        assert(views(source@)[j + 2] == source@[j + 2]@);
        let (inner_type, inner_raw) = read_raw_marker(&source[j + 2]);
        let inner_ty = resolve_type(inner_type.as_str());
        let inner = TypeDefinition {
            ty: inner_ty,
            inner: None,
            schema_type: if inner_ty == Type::SCHEMA {
                Some(inner_type)
            } else {
                None
            },
            flags_name: None,
            flags_bit: None,
            variant: false,
            raw: inner_raw,
        };
        typedef.inner = Some(Box::new(inner));
        proof {
            reveal_with_fuel(tdef_view, 2);
        }
        return Some((typedef, j + 3));
    }
    Some((typedef, j))
}

/// Marks a type whose schema type is in the variant table.
fn mark_type_exec(t: &TypeDefinition, table: &Vec<(String, Vec<Definition>)>) -> (r: TypeDefinition)
    ensures
        r@ == mark_type(t@, variant_table_keys(table@)),
{
    let mut r = copy_type(t);
    match &t.schema_type {
        Some(s) => {
            if has_key(table, s) {
                r.variant = true;
            }
        },
        None => {},
    }
    r
}

/// Marks a parameter type, and its element type, whose schema type is in the
/// variant table.
fn mark_param_exec(p: &Param, table: &Vec<(String, Vec<Definition>)>) -> (r: Param)
    ensures
        r@ == mark_param(p@, variant_table_keys(table@)),
{
    let mut t = mark_type_exec(&p.ty, table);
    match &p.ty.inner {
        Some(b) => {
            t.inner = Some(Box::new(mark_type_exec(&**b, table)));
        },
        None => {},
    }
    Param { ty: t, name: p.name.clone() }
}

/// Marks the parameters of a definition.
fn mark_definition(d: &Definition, table: &Vec<(String, Vec<Definition>)>) -> (r: Definition)
    ensures
        r@ == (DefinitionView {
            params: d@.params.map_values(|p: ParamView| mark_param(p, variant_table_keys(table@))),
            ..d@
        }),
{
    let ghost keys = variant_table_keys(table@);
    let mut params: Vec<Param> = Vec::new();
    let mut i: usize = 0;
    while i < d.params.len()
        invariant
            keys == variant_table_keys(table@),
            i <= d.params@.len(),
            params@.len() == i,
            forall|j: int| 0 <= j < i ==> (#[trigger] params@[j])@ == mark_param(d.params@[j]@, keys),
        decreases d.params@.len() - i,
    {
        params.push(mark_param_exec(&d.params[i], table));
        i = i + 1;
    }
    assert(params_view(params@) =~= d@.params.map_values(|p: ParamView| mark_param(p, keys)));
    Definition {
        id: d.id,
        predicate: d.predicate.clone(),
        params: params,
        return_type: copy_type(&d.return_type),
        function: d.function,
    }
}

/// Parses schema tokens into definitions, or `None` where they cannot be
/// parsed.
pub fn try_parse(source: &Vec<String>) -> (r: Option<Vec<Definition>>)
    requires
        source@.len() <= isize::MAX,
    ensures
        match parse_spec(views(source@)) {
            Some(defs) => r matches Some(v) && defs_view(v@) == defs,
            None => r is None,
        },
{
    let ghost src = views(source@);
    let mut definition = Definition::default();
    let mut definitions: Vec<Definition> = Vec::new();
    let mut i: usize = 0;
    let mut functions: bool = false;
    assert(defs_view(definitions@) =~= Seq::<DefinitionView>::empty());
    while i < source.len()
        invariant
            src == views(source@),
            source@.len() <= isize::MAX,
            parse_raw(src) == parse_from(
                src,
                i as int,
                ParseState { definition: definition@, definitions: defs_view(definitions@), functions },
            ),
            i <= source@.len() + 6,
        decreases source@.len() + 8 - i,
    {
        let ghost st = ParseState { definition: definition@, definitions: defs_view(definitions@), functions };
        let ghost step = parse_token(src, i as int, st);
        assert(src[i as int] == source@[i as int]@);
        let token = source[i].as_str();
        if text_eq(token, "---functions---") {
            functions = true;
            assert(ParseState { definition: definition@, definitions: defs_view(definitions@), functions }
                == (step->0).0);
        } else if text_eq(token, ";") {
            definition.function = functions;
            let mut done = Definition::default();
            std::mem::swap(&mut done, &mut definition);
            definitions.push(done);
            assert(defs_view(definitions@) =~= st.definitions.push(
                DefinitionView { function: st.functions, ..st.definition },
            ));
            assert(ParseState { definition: definition@, definitions: defs_view(definitions@), functions }
                == (step->0).0);
        } else if text_eq(token, "=") {
            if i + 1 >= source.len() {
                return None;
            }
            assert(src[i + 1] == source@[i + 1]@);
            let t = source[i + 1].clone();
            i = i + 1;
            let def_type = resolve_type(t.as_str());
            if def_type == Type::VECTOR {
                if i + 2 >= source.len() {
                    return None;
                }
                assert(src[i + 2] == source@[i + 2]@);
                let inner_ty = resolve_type(source[i + 2].as_str());
                proof {
                    reveal_with_fuel(tdef_view, 2);
                }
                definition.return_type.inner = Some(
                    Box::new(
                        TypeDefinition {
                            ty: inner_ty,
                            inner: None,
                            schema_type: None,
                            flags_name: None,
                            flags_bit: None,
                            variant: false,
                            raw: false,
                        },
                    ),
                );
                i = i + 3;
            } else if def_type == Type::SCHEMA {
                definition.return_type.schema_type = Some(t);
            }
            definition.return_type.ty = def_type;
            assert(ParseState { definition: definition@, definitions: defs_view(definitions@), functions }
                == (step->0).0);
        } else if text_eq(token, ":") {
            if i < 1 || i + 1 >= source.len() {
                return None;
            }
            assert(src[i - 1] == source@[i - 1]@);
            assert(src[i + 1] == source@[i + 1]@);
            let name = source[i - 1].clone();
            let flags_and_type = read_flags_condition(&source[i + 1]);
            i = i + 1;
            let (flags, t) = match flags_and_type {
                Some(ft) => ft,
                None => {
                    return None;
                },
            };
            let (typedef, j) = match read_param_type(&source, i, flags, t) {
                Some(tj) => tj,
                None => {
                    return None;
                },
            };
            i = j;
            let ghost old_params = definition.params@;
            let ghost pv = ParamView { ty: typedef@, name: name@ };
            definition.params.push(Param { ty: typedef, name: name });
            assert(params_view(definition.params@) =~= params_view(old_params).push(pv));
            assert(ParseState { definition: definition@, definitions: defs_view(definitions@), functions }
                == (step->0).0);
        } else if text_eq(token, "#") {
            if i < 1 || i + 1 >= source.len() {
                return None;
            }
            assert(src[i - 1] == source@[i - 1]@);
            assert(src[i + 1] == source@[i + 1]@);
            definition.predicate = source[i - 1].clone();
            let v = match parse_unsigned(source[i + 1].as_str(), 16, 0xffff_ffff) {
                Some(v) => v,
                None => {
                    return None;
                },
            };
            definition.id = if v >= 0x8000_0000 {
                (v as i64 - 0x1_0000_0000) as i32
            } else {
                v as i32
            };
            i = i + 1;
            assert(ParseState { definition: definition@, definitions: defs_view(definitions@), functions }
                == (step->0).0);
        } else if text_eq(token, "{") {
            i = i + 5;
        }
        i = i + 1;
        assert(ParseState { definition: definition@, definitions: defs_view(definitions@), functions }
            == (step->0).0);
        assert(step is Some);
        assert(i == (step->0).1);
    }
    let table = analyze_variant_constructors(&definitions);
    let mut marked: Vec<Definition> = Vec::new();
    let mut k: usize = 0;
    let ghost raw = defs_view(definitions@);
    let ghost keys = variant_table_keys(table@);
    assert(keys =~= variant_keys(raw)) by {
        assert(variants_view(table@).len() == variant_keys(raw).len());
        assert forall|j: int| 0 <= j < keys.len() implies keys[j] == variant_keys(raw)[j] by {
            assert(variants_view(table@)[j] == variants_spec(raw)[j]);
        }
    }
    while k < definitions.len()
        invariant
            raw == defs_view(definitions@),
            keys == variant_table_keys(table@),
            k <= definitions@.len(),
            marked@.len() == k,
            forall|j: int| 0 <= j < k ==> (#[trigger] marked@[j])@ == mark_variants(raw, keys)[j],
        decreases definitions@.len() - k,
    {
        marked.push(mark_definition(&definitions[k], &table));
        k = k + 1;
    }
    assert(defs_view(marked@) =~= mark_variants(raw, keys));
    Some(marked)
}

/// Parses schema tokens into definitions.  Each `;` ends a definition; a
/// definition is its name, `#` and its hexadecimal number, its parameters
/// `name:type` (with `flags.bit?type` for optional ones and `Vector<t>` for
/// vectors) and `= type` for its result.  Definitions after
/// `---functions---` are functions.  Parameters whose schema type has more than
/// one constructor are marked as variants.
pub fn parse(source: Vec<String>) -> (r: Vec<Definition>)
    requires
        source@.len() <= isize::MAX,
        parse_spec(views(source@)) is Some,
    ensures
        defs_view(r@) == parse_spec(views(source@))->0,
{
    match try_parse(&source) {
        Some(definitions) => definitions,
        None => {
            assert(false);
            Vec::new()
        },
    }
}

} // verus!
