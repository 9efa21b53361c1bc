//! Generates the Rust code of a schema: structs with writers, readers,
//! variant enums and the object enum with its reader.
use vstd::prelude::*;
use convert_case::{Case, Casing};
use crate::text::{
    decimal, decimal_spec, push_str, replace_char, replace_spec, text_eq, concat_map, join_map,
    lemma_concat_map_step, lemma_join_map_step,
};
use crate::tl_compiler::parser::{
    Type, TypeDefinition, TypeDefinitionView, ParamView, Definition, DefinitionView, defs_view,
    params_view, analyze_variant_constructors, variants_view, variants_spec, variant_keys,
    copy_definition, members,
};

verus! {

/// What `to_case(Case::UpperCamel)` of convert_case makes of a text.
pub uninterp spec fn upper_camel_case(s: Seq<char>) -> Seq<char>;

/// What `to_case(Case::Snake)` of convert_case makes of a text.
pub uninterp spec fn snake_case(s: Seq<char>) -> Seq<char>;

/// What `str::to_lowercase` makes of a text.
pub uninterp spec fn lowercase(s: Seq<char>) -> Seq<char>;

/// convert_case's `Casing::to_case` with `Case::UpperCamel`: the result is
/// named, as a function of the text alone.
#[verifier::external_body]
fn to_upper_camel(s: &str) -> (r: String)
    ensures
        r@ == upper_camel_case(s@),
{
    s.to_case(Case::UpperCamel)
}

/// convert_case's `Casing::to_case` with `Case::Snake`: the result is named,
/// as a function of the text alone.
#[verifier::external_body]
fn to_snake(s: &str) -> (r: String)
    ensures
        r@ == snake_case(s@),
{
    s.to_case(Case::Snake)
}

/// `str::to_lowercase`: the result is named, as a function of the text alone.
#[verifier::external_body]
fn to_lower(s: &str) -> (r: String)
    ensures
        r@ == lowercase(s@),
{
    s.to_lowercase()
}

/// The Rust type name of a schema name: dots become underscores, then upper camel case.
pub open spec fn struct_name(name: Seq<char>) -> Seq<char> {
    upper_camel_case(replace_spec(name, '.', '_'))
}

/// The Rust function name of a schema name: dots become underscores, then snake case.
pub open spec fn function_name(name: Seq<char>) -> Seq<char> {
    snake_case(replace_spec(name, '.', '_'))
}

/// A name that Rust reserves, renamed.
pub open spec fn filtered_spec(name: Seq<char>) -> Seq<char> {
    if name == "static"@ {
        "is_static"@
    } else if name == "self"@ {
        "is_self"@
    } else if name == "final"@ {
        "is_final"@
    } else if name == "loop"@ {
        "is_loop"@
    } else if name == "type"@ {
        "r#type"@
    } else {
        name
    }
}

/// The Rust variable name of a parameter name: lower case, reserved names renamed.
pub open spec fn variable_name(name: Seq<char>) -> Seq<char> {
    filtered_spec(lowercase(name))
}

/// The Rust type name of a schema name.
pub fn rustify_struct_name(name: &String) -> (r: String)
    ensures
        r@ == struct_name(name@),
{
    let replaced = replace_char(name.as_str(), '.', '_');
    to_upper_camel(replaced.as_str())
}

/// The Rust function name of a schema name.
pub fn rustify_function_name(name: &String) -> (r: String)
    ensures
        r@ == function_name(name@),
{
    let replaced = replace_char(name.as_str(), '.', '_');
    to_snake(replaced.as_str())
}

/// The Rust variable name of a parameter name.
pub fn rustify_variable_name(name: &String) -> (r: String)
    ensures
        r@ == variable_name(name@),
{
    filtered_name(to_lower(name.as_str()))
}

/// Renames the names that Rust reserves: `static`, `self`, `final`, `loop`, `type`.
pub fn filtered_name(name: String) -> (r: String)
    ensures
        r@ == filtered_spec(name@),
{
    if text_eq(name.as_str(), "static") {
        String::from_str("is_static")
    } else if text_eq(name.as_str(), "self") {
        String::from_str("is_self")
    } else if text_eq(name.as_str(), "final") {
        String::from_str("is_final")
    } else if text_eq(name.as_str(), "loop") {
        String::from_str("is_loop")
    } else if text_eq(name.as_str(), "type") {
        String::from_str("r#type")
    } else {
        name
    }
}

/// The first definition whose result is the schema type `s`.
pub open spec fn find_ctor(defs: Seq<DefinitionView>, s: Seq<char>) -> Option<DefinitionView>
    decreases defs.len(),
{
    if defs.len() == 0 {
        None
    } else if defs[0].return_type.schema_type == Some(s) {
        Some(defs[0])
    } else {
        find_ctor(defs.drop_first(), s)
    }
}

/// A copy of the first definition whose result is the schema type `schema_type`.
pub fn find_return_type_constructor(definitions: &Vec<Definition>, schema_type: String) -> (r: Option<Definition>)
    ensures
        match find_ctor(defs_view(definitions@), schema_type@) {
            Some(d) => r matches Some(x) && x@ == d,
            None => r is None,
        },
{
    let ghost dv = defs_view(definitions@);
    let mut i: usize = 0;
    assert(dv.skip(0) =~= dv);
    while i < definitions.len()
        invariant
            dv == defs_view(definitions@),
            i <= definitions@.len(),
            find_ctor(dv, schema_type@) == find_ctor(dv.skip(i as int), schema_type@),
        decreases definitions@.len() - i,
    {
        assert(dv.skip(i as int).drop_first() =~= dv.skip(i + 1));
        assert(dv.skip(i as int)[0] == definitions@[i as int]@);
        let found = match &definitions[i].return_type.schema_type {
            Some(s) => text_eq(s.as_str(), schema_type.as_str()),
            None => false,
        };
        if found {
            return Some(copy_definition(&definitions[i]));
        }
        i = i + 1;
    }
    None
}

/// A type the generator can handle: schema types are named and vectors have
/// an element type.
pub open spec fn type_ok(t: TypeDefinitionView) -> bool
    decreases t,
{
    &&& (t.ty == Type::SCHEMA ==> t.schema_type is Some)
    &&& (t.ty == Type::VECTOR ==> match t.inner {
        Some(b) => type_ok(*b),
        None => false,
    })
}

/// A type the writer can handle: vectors, at any depth, have an element type.
pub open spec fn write_type_ok(t: TypeDefinitionView) -> bool
    decreases t,
{
    t.ty == Type::VECTOR ==> match t.inner {
        Some(b) => write_type_ok(*b),
        None => false,
    }
}

/// Every parameter has a type the writer can handle.
pub open spec fn write_params_ok(ps: Seq<ParamView>) -> bool {
    forall|i: int| 0 <= i < ps.len() ==> write_type_ok(#[trigger] ps[i].ty)
}

/// What the generator can handle the writer can handle.
pub proof fn lemma_type_ok_writes(t: TypeDefinitionView)
    requires
        type_ok(t),
    ensures
        write_type_ok(t),
    decreases t,
{
    if t.ty == Type::VECTOR {
        lemma_type_ok_writes(*t.inner->0);
    }
}

/// Parameters the generator can handle the writer can handle.
pub proof fn lemma_params_ok_writes(ps: Seq<ParamView>)
    requires
        params_ok(ps),
    ensures
        write_params_ok(ps),
{
    assert forall|i: int| 0 <= i < ps.len() implies write_type_ok(#[trigger] ps[i].ty) by {
        lemma_type_ok_writes(ps[i].ty);
    }
}

/// Every parameter has a type the generator can handle.
pub open spec fn params_ok(ps: Seq<ParamView>) -> bool {
    forall|i: int| 0 <= i < ps.len() ==> type_ok(#[trigger] ps[i].ty)
}

/// Every parameter that depends on a flags parameter of `ps` names its bit.
pub open spec fn flag_bits_ok(ps: Seq<ParamView>) -> bool {
    forall|i: int, j: int|
        #![trigger ps[i], ps[j]]
        0 <= i < ps.len() && 0 <= j < ps.len() && ps[j].ty.ty == Type::FLAGS && ps[i].ty.flags_name
            == Some(ps[j].name) ==> ps[i].ty.flags_bit is Some
}

/// Every definition can be generated: its parameter types can be handled and
/// its optional parameters name their bits.
pub open spec fn defs_ok(defs: Seq<DefinitionView>) -> bool {
    forall|i: int|
        0 <= i < defs.len() ==> params_ok(#[trigger] defs[i].params) && flag_bits_ok(defs[i].params)
}

/// The Rust type of a TL type.
pub open spec fn compile_type_spec(defs: Seq<DefinitionView>, t: TypeDefinitionView) -> Seq<char>
    decreases t,
{
    let base = match t.ty {
        Type::INT | Type::FLAGS => "i32"@,
        Type::INT128 => "i128"@,
        Type::LONG => "i64"@,
        Type::DOUBLE => "f64"@,
        Type::BYTES | Type::INT256 => "Vec<u8>"@,
        Type::STRING => "String"@,
        Type::OBJECT => "Box<SchemaObject>"@,
        Type::SCHEMA => {
            let s = t.schema_type->0;
            if t.variant {
                struct_name(s) + "Variant"@
            } else {
                match find_ctor(defs, s) {
                    Some(c) => struct_name(c.predicate),
                    None => struct_name(s),
                }
            }
        },
        Type::BOOL | Type::BitBool => "bool"@,
        Type::VECTOR => match t.inner {
            Some(b) => "Vec<"@ + compile_type_spec(defs, *b) + ">"@,
            None => Seq::empty(),
        },
        Type::UNDEFINED => "/* ERROR: Compilation failed */"@,
    };
    if t.flags_name is Some && t.ty != Type::BitBool {
        "Option<"@ + base + ">"@
    } else {
        base
    }
}

/// The Rust type of a TL type.
fn compile_type(definitions: &Vec<Definition>, t: &TypeDefinition) -> (r: String)
    requires
        type_ok(t@),
    ensures
        r@ == compile_type_spec(defs_view(definitions@), t@),
    decreases t,
{
    let base = match t.ty {
        Type::INT | Type::FLAGS => String::from_str("i32"),
        Type::INT128 => String::from_str("i128"),
        Type::LONG => String::from_str("i64"),
        Type::DOUBLE => String::from_str("f64"),
        Type::BYTES | Type::INT256 => String::from_str("Vec<u8>"),
        Type::STRING => String::from_str("String"),
        Type::OBJECT => String::from_str("Box<SchemaObject>"),
        Type::SCHEMA => {
            let s = match &t.schema_type {
                Some(s) => s,
                None => {
                    assert(false);
                    return String::new();
                },
            };
            if t.variant {
                let mut r = rustify_struct_name(s);
                push_str(&mut r, "Variant");
                r
            } else {
                match find_return_type_constructor(definitions, s.clone()) {
                    Some(c) => rustify_struct_name(&c.predicate),
                    None => rustify_struct_name(s),
                }
            }
        },
        Type::BOOL | Type::BitBool => String::from_str("bool"),
        Type::VECTOR => {
            let b = match &t.inner {
                Some(b) => b,
                None => {
                    assert(false);
                    return String::new();
                },
            };
            let inner = compile_type(definitions, &**b);
            let mut r = String::from_str("Vec<");
            push_str(&mut r, inner.as_str());
            push_str(&mut r, ">");
            r
        },
        Type::UNDEFINED => String::from_str("/* ERROR: Compilation failed */"),
    };
    if t.flags_name.is_some() && t.ty != Type::BitBool {
        let mut r = String::from_str("Option<");
        push_str(&mut r, base.as_str());
        push_str(&mut r, ">");
        r
    } else {
        base
    }
}

/// The call that writes a value of type `t` held in `prefix` + `name`.  An
/// optional value is unwrapped first, by reference for the types that are
/// not `Copy`; `borrow` passes byte strings and strings by reference.
pub open spec fn csw_spec(
    t: TypeDefinitionView,
    name: Seq<char>,
    prefix: Seq<char>,
    inner: bool,
    borrow: bool,
) -> Seq<char>
    decreases t, (if inner {
        0int
    } else {
        1int
    }),
{
    if t.flags_name is Some && !inner {
        if t.ty == Type::BYTES || t.ty == Type::STRING || t.ty == Type::SCHEMA || t.ty == Type::VECTOR {
            "if let Some("@ + name + "_inner) = &"@ + prefix + name + " { "@ + csw_spec(
                t,
                name + "_inner"@,
                ""@,
                true,
                false,
            ) + " }"@
        } else {
            "if let Some("@ + name + "_inner) = "@ + prefix + name + " { "@ + csw_spec(
                t,
                name + "_inner"@,
                ""@,
                true,
                true,
            ) + " }"@
        }
    } else {
        match t.ty {
            Type::LONG => "bytes_buffer.write_long("@ + prefix + name + ")"@,
            Type::DOUBLE => "bytes_buffer.write_double("@ + prefix + name + ")"@,
            Type::INT | Type::FLAGS => "bytes_buffer.write_int("@ + prefix + name + ")"@,
            Type::BOOL => "bytes_buffer.write_bool("@ + prefix + name + ")"@,
            Type::INT128 => "bytes_buffer.write_int128("@ + prefix + name + ")"@,
            Type::INT256 => if borrow {
                "bytes_buffer.write_raw("@ + "&"@ + prefix + name + ")"@
            } else {
                "bytes_buffer.write_raw("@ + prefix + name + ")"@
            },
            Type::BYTES => if borrow {
                "bytes_buffer.write_bytes("@ + "&"@ + prefix + name + ")"@
            } else {
                "bytes_buffer.write_bytes("@ + prefix + name + ")"@
            },
            Type::STRING => if borrow {
                "bytes_buffer.write_string("@ + "&"@ + prefix + name + ")"@
            } else {
                "bytes_buffer.write_string("@ + prefix + name + ")"@
            },
            Type::VECTOR => match t.inner {
                Some(b) => "bytes_buffer.write_int(0x1cb5c415);\nbytes_buffer.write_int("@ + prefix
                    + name + ".len() as i32);\n"@ + prefix + name + ".iter().for_each(|v| "@
                    + csw_spec(
                    *b,
                    if b.ty == Type::LONG || b.ty == Type::INT {
                        "*v"@
                    } else {
                        "v"@
                    },
                    ""@,
                    false,
                    true,
                ) + ")"@,
                None => Seq::empty(),
            },
            Type::OBJECT | Type::SCHEMA => prefix + name + ".write(bytes_buffer)"@,
            _ => "/* ERROR: Compilation failed */"@,
        }
    }
}

/// `prefix` + `name` + `close` after `open`.
fn call_text(open: &str, prefix: &str, name: &str, close: &str) -> (r: String)
    ensures
        r@ == open@ + prefix@ + name@ + close@,
{
    let mut r = String::from_str(open);
    push_str(&mut r, prefix);
    push_str(&mut r, name);
    push_str(&mut r, close);
    r
}

/// The call that writes a value of type `t` held in `prefix` + `name`.
fn compile_single_write(t: &TypeDefinition, name: &str, prefix: &str, inner: bool, borrow: bool) -> (r: String)
    requires
        write_type_ok(t@),
    ensures
        r@ == csw_spec(t@, name@, prefix@, inner, borrow),
    decreases t, (if inner {
        0int
    } else {
        1int
    }),
{
    if t.flags_name.is_some() && !inner {
        let mut inner_name = String::from_str(name);
        push_str(&mut inner_name, "_inner");
        let by_ref = t.ty == Type::BYTES || t.ty == Type::STRING || t.ty == Type::SCHEMA || t.ty
            == Type::VECTOR;
        let body = compile_single_write(t, inner_name.as_str(), "", true, !by_ref);
        let mut r = String::from_str("if let Some(");
        push_str(&mut r, name);
        if by_ref {
            push_str(&mut r, "_inner) = &");
        } else {
            push_str(&mut r, "_inner) = ");
        }
        push_str(&mut r, prefix);
        push_str(&mut r, name);
        push_str(&mut r, " { ");
        push_str(&mut r, body.as_str());
        push_str(&mut r, " }");
        return r;
    }
    match t.ty {
        Type::LONG => call_text("bytes_buffer.write_long(", prefix, name, ")"),
        Type::DOUBLE => call_text("bytes_buffer.write_double(", prefix, name, ")"),
        Type::INT | Type::FLAGS => call_text("bytes_buffer.write_int(", prefix, name, ")"),
        Type::BOOL => call_text("bytes_buffer.write_bool(", prefix, name, ")"),
        Type::INT128 => call_text("bytes_buffer.write_int128(", prefix, name, ")"),
        Type::INT256 | Type::BYTES | Type::STRING => {
            let mut r = if t.ty == Type::INT256 {
                String::from_str("bytes_buffer.write_raw(")
            } else if t.ty == Type::BYTES {
                String::from_str("bytes_buffer.write_bytes(")
            } else {
                String::from_str("bytes_buffer.write_string(")
            };
            if borrow {
                push_str(&mut r, "&");
            }
            push_str(&mut r, prefix);
            push_str(&mut r, name);
            push_str(&mut r, ")");
            r
        },
        Type::VECTOR => {
            let b = match &t.inner {
                Some(b) => b,
                None => {
                    assert(false);
                    return String::new();
                },
            };
            let element = if b.ty == Type::LONG || b.ty == Type::INT {
                "*v"
            } else {
                "v"
            };
            let body = compile_single_write(&**b, element, "", false, true);
            let mut r = String::from_str("bytes_buffer.write_int(0x1cb5c415);\nbytes_buffer.write_int(");
            push_str(&mut r, prefix);
            push_str(&mut r, name);
            push_str(&mut r, ".len() as i32);\n");
            push_str(&mut r, prefix);
            push_str(&mut r, name);
            push_str(&mut r, ".iter().for_each(|v| ");
            push_str(&mut r, body.as_str());
            push_str(&mut r, ")");
            r
        },
        Type::OBJECT | Type::SCHEMA => {
            let mut r = String::from_str(prefix);
            push_str(&mut r, name);
            push_str(&mut r, ".write(bytes_buffer)");
            r
        },
        _ => String::from_str("/* ERROR: Compilation failed */"),
    }
}

/// The statement that sets the flags bit of the optional parameter `q`.
pub open spec fn flag_set_spec(q: ParamView) -> Seq<char> {
    let head = if q.ty.ty == Type::BitBool {
        "if self."@ + variable_name(q.name)
    } else {
        "if self."@ + variable_name(q.name) + ".is_some()"@
    };
    head + " { "@ + variable_name(q.ty.flags_name->0) + " ^= 1 << "@ + decimal_spec(
        q.ty.flags_bit->0 as int,
    ) + " }\n"@
}

/// The statements that set the bits of the flags parameter `fp` for the
/// optional parameters among `ps`.
pub open spec fn flag_sets_spec(ps: Seq<ParamView>, fp: Seq<char>) -> Seq<char>
    decreases ps.len(),
{
    if ps.len() == 0 {
        Seq::empty()
    } else {
        let rest = flag_sets_spec(ps.drop_last(), fp);
        if ps.last().ty.flags_name == Some(fp) {
            rest + flag_set_spec(ps.last())
        } else {
            rest
        }
    }
}

/// The declaration of the flags parameter `fp`, with the statements that set its bits.
pub open spec fn flag_decl_spec(all: Seq<ParamView>, fp: ParamView) -> Seq<char> {
    "#[allow(unused_mut)]\nlet mut "@ + variable_name(fp.name) + ": i32 = 0;\n"@ + flag_sets_spec(
        all,
        fp.name,
    )
}

/// The flags declarations for the flags parameters among `ps`.
pub open spec fn flags_section_spec(all: Seq<ParamView>, ps: Seq<ParamView>) -> Seq<char>
    decreases ps.len(),
{
    if ps.len() == 0 {
        Seq::empty()
    } else {
        let rest = flags_section_spec(all, ps.drop_last());
        if ps.last().ty.ty == Type::FLAGS {
            rest + flag_decl_spec(all, ps.last())
        } else {
            rest
        }
    }
}

/// The statement that writes parameter `p`; flags are written from the local
/// variable, other parameters from `self`.
pub open spec fn param_write_spec(p: ParamView) -> Seq<char> {
    csw_spec(
        p.ty,
        variable_name(p.name),
        if p.ty.ty == Type::FLAGS {
            ""@
        } else {
            "self."@
        },
        false,
        true,
    ) + ";\n"@
}

/// The statements that write the parameters of `ps`, except boolean flags.
pub open spec fn write_section_spec(ps: Seq<ParamView>) -> Seq<char>
    decreases ps.len(),
{
    if ps.len() == 0 {
        Seq::empty()
    } else {
        let rest = write_section_spec(ps.drop_last());
        if ps.last().ty.ty == Type::BitBool {
            rest
        } else {
            rest + param_write_spec(ps.last())
        }
    }
}

/// The `write` method of a definition: the constructor number (unless it is
/// 0 or 1), the flags fields computed from the optional parameters, and each
/// parameter.
pub open spec fn compile_writer_spec(d: DefinitionView) -> Seq<char> {
    let head = if d.id != 0 && d.id != 1 {
        "pub fn write(&self, bytes_buffer: &mut TlBuffer) {\n"@ + "bytes_buffer.write_int("@
            + decimal_spec(d.id as int) + ");\n"@
    } else {
        "pub fn write(&self, bytes_buffer: &mut TlBuffer) {\n"@
    };
    head + flags_section_spec(d.params, d.params) + write_section_spec(d.params) + "}\n"@
}

/// The statement that sets the flags bit of an optional parameter.
fn flag_set(q: &crate::tl_compiler::parser::Param) -> (r: String)
    requires
        q@.ty.flags_name is Some,
        q@.ty.flags_bit is Some,
    ensures
        r@ == flag_set_spec(q@),
{
    let mut r = String::from_str("if self.");
    let v = rustify_variable_name(&q.name);
    push_str(&mut r, v.as_str());
    if q.ty.ty != Type::BitBool {
        push_str(&mut r, ".is_some()");
    }
    push_str(&mut r, " { ");
    let (fname, fbit) = match (&q.ty.flags_name, q.ty.flags_bit) {
        (Some(n), Some(b)) => (n, b),
        _ => {
            assert(false);
            return String::new();
        },
    };
    let fv = rustify_variable_name(fname);
    push_str(&mut r, fv.as_str());
    push_str(&mut r, " ^= 1 << ");
    let dec = decimal(fbit as i64);
    push_str(&mut r, dec.as_str());
    push_str(&mut r, " }\n");
    r
}

/// The declaration of a flags parameter with the statements that set its bits.
fn flag_decl(params: &Vec<crate::tl_compiler::parser::Param>, fp: &crate::tl_compiler::parser::Param) -> (r: String)
    requires
        forall|j: int|
            0 <= j < params@.len() && (#[trigger] params@[j])@.ty.flags_name == Some(fp@.name)
                ==> params@[j]@.ty.flags_bit is Some,
    ensures
        r@ == flag_decl_spec(params_view(params@), fp@),
{
    let ghost all = params_view(params@);
    let mut r = String::from_str("#[allow(unused_mut)]\nlet mut ");
    let v = rustify_variable_name(&fp.name);
    push_str(&mut r, v.as_str());
    push_str(&mut r, ": i32 = 0;\n");
    let ghost head = r@;
    let mut sets = String::new();
    let mut i: usize = 0;
    assert(all.take(0) =~= Seq::<ParamView>::empty());
    while i < params.len()
        invariant
            all == params_view(params@),
            forall|j: int|
                0 <= j < params@.len() && (#[trigger] params@[j])@.ty.flags_name == Some(fp@.name)
                    ==> params@[j]@.ty.flags_bit is Some,
            i <= params@.len(),
            sets@ == flag_sets_spec(all.take(i as int), fp@.name),
        decreases params@.len() - i,
    {
        assert(all.take(i + 1).drop_last() =~= all.take(i as int));
        assert(all[i as int] == params@[i as int]@);
        let matches = match &params[i].ty.flags_name {
            Some(n) => text_eq(n.as_str(), fp.name.as_str()),
            None => false,
        };
        if matches {
            let piece = flag_set(&params[i]);
            push_str(&mut sets, piece.as_str());
        }
        i = i + 1;
    }
    assert(all.take(i as int) =~= all);
    push_str(&mut r, sets.as_str());
    r
}

/// The `write` method of a definition.
pub fn compile_writer(definition: &Definition) -> (r: String)
    requires
        write_params_ok(definition@.params),
        flag_bits_ok(definition@.params),
    ensures
        r@ == compile_writer_spec(definition@),
{
    let ghost all = definition@.params;
    let mut code = String::from_str("pub fn write(&self, bytes_buffer: &mut TlBuffer) {\n");
    if definition.id != 0 && definition.id != 1 {
        push_str(&mut code, "bytes_buffer.write_int(");
        let dec = decimal(definition.id as i64);
        push_str(&mut code, dec.as_str());
        push_str(&mut code, ");\n");
    }
    let mut flags = String::new();
    let mut writes = String::new();
    let mut i: usize = 0;
    assert(all.take(0) =~= Seq::<ParamView>::empty());
    while i < definition.params.len()
        invariant
            all == definition@.params,
            all == params_view(definition.params@),
            write_params_ok(all),
            flag_bits_ok(all),
            i <= definition.params@.len(),
            flags@ == flags_section_spec(all, all.take(i as int)),
            writes@ == write_section_spec(all.take(i as int)),
        decreases definition.params@.len() - i,
    {
        assert(all.take(i + 1).drop_last() =~= all.take(i as int));
        assert(all[i as int] == definition.params@[i as int]@);
        assert(write_type_ok(all[i as int].ty));
        let p = &definition.params[i];
        if p.ty.ty == Type::FLAGS {
            assert forall|j: int|
                0 <= j < definition.params@.len() && (#[trigger] definition.params@[j])@.ty.flags_name
                    == Some(p@.name) implies definition.params@[j]@.ty.flags_bit is Some by {
                assert(all[j] == definition.params@[j]@);
            }
            let decl = flag_decl(&definition.params, p);
            push_str(&mut flags, decl.as_str());
        }
        if p.ty.ty != Type::BitBool {
            let v = rustify_variable_name(&p.name);
            let prefix = if p.ty.ty == Type::FLAGS {
                ""
            } else {
                "self."
            };
            let mut w = compile_single_write(&p.ty, v.as_str(), prefix, false, true);
            push_str(&mut w, ";\n");
            push_str(&mut writes, w.as_str());
        }
        i = i + 1;
    }
    assert(all.take(i as int) =~= all);
    push_str(&mut code, flags.as_str());
    push_str(&mut code, writes.as_str());
    push_str(&mut code, "}\n");
    code
}

/// The fields of the struct of a definition: every parameter but flags.
pub open spec fn struct_fields_spec(defs: Seq<DefinitionView>, ps: Seq<ParamView>) -> Seq<char>
    decreases ps.len(),
{
    if ps.len() == 0 {
        Seq::empty()
    } else {
        let rest = struct_fields_spec(defs, ps.drop_last());
        let p = ps.last();
        if p.ty.ty == Type::FLAGS {
            rest
        } else {
            rest + ("pub "@ + variable_name(p.name) + ": "@ + compile_type_spec(defs, p.ty) + ",\n"@)
        }
    }
}

/// The struct of a definition with its `write` method.
pub open spec fn compile_struct_spec(defs: Seq<DefinitionView>, d: DefinitionView) -> Seq<char> {
    "#[allow(dead_code, unused_variables)]\n"@ + "#[derive(Debug, Clone)]\n"@ + "pub struct "@
        + struct_name(d.predicate) + " {\n"@ + struct_fields_spec(defs, d.params) + "}\n"@
        + "impl "@ + struct_name(d.predicate) + " {\n"@ + compile_writer_spec(d) + "}"@
}

/// The struct of a definition with its `write` method.
pub fn compile_struct(definitions: &Vec<Definition>, definition: &Definition) -> (r: String)
    requires
        params_ok(definition@.params),
        flag_bits_ok(definition@.params),
    ensures
        r@ == compile_struct_spec(defs_view(definitions@), definition@),
{
    let ghost all = definition@.params;
    let ghost dv = defs_view(definitions@);
    let mut fields = String::new();
    let mut i: usize = 0;
    assert(all.take(0) =~= Seq::<ParamView>::empty());
    while i < definition.params.len()
        invariant
            all == definition@.params,
            all == params_view(definition.params@),
            dv == defs_view(definitions@),
            params_ok(all),
            i <= definition.params@.len(),
            fields@ == struct_fields_spec(dv, all.take(i as int)),
        decreases definition.params@.len() - i,
    {
        assert(all.take(i + 1).drop_last() =~= all.take(i as int));
        assert(all[i as int] == definition.params@[i as int]@);
        assert(type_ok(all[i as int].ty));
        let p = &definition.params[i];
        if p.ty.ty != Type::FLAGS {
            let mut f = String::from_str("pub ");
            let v = rustify_variable_name(&p.name);
            push_str(&mut f, v.as_str());
            push_str(&mut f, ": ");
            let t = compile_type(definitions, &p.ty);
            push_str(&mut f, t.as_str());
            push_str(&mut f, ",\n");
            push_str(&mut fields, f.as_str());
        }
        i = i + 1;
    }
    assert(all.take(i as int) =~= all);
    let name = rustify_struct_name(&definition.predicate);
    let mut code = String::from_str("#[allow(dead_code, unused_variables)]\n");
    push_str(&mut code, "#[derive(Debug, Clone)]\n");
    push_str(&mut code, "pub struct ");
    push_str(&mut code, name.as_str());
    push_str(&mut code, " {\n");
    push_str(&mut code, fields.as_str());
    push_str(&mut code, "}\n");
    push_str(&mut code, "impl ");
    push_str(&mut code, name.as_str());
    push_str(&mut code, " {\n");
    proof {
        lemma_params_ok_writes(definition@.params);
    }
    let writer = compile_writer(definition);
    push_str(&mut code, writer.as_str());
    push_str(&mut code, "}");
    code
}

/// The expression that reads a value of type `t`.  Schema objects are read
/// by the reader of their first constructor (or of their variant enum), after
/// a skipped constructor number unless they are variants or bare; errors
/// propagate with `?` except inside vector element closures.
pub open spec fn csr_spec(defs: Seq<DefinitionView>, t: TypeDefinitionView, propagate_error: bool, inside_vector: bool) -> Seq<char>
    decreases t,
{
    let p = if inside_vector {
        ""@
    } else {
        "?"@
    };
    let text = match t.ty {
        Type::LONG => "bytes_buffer.read_long()"@,
        Type::DOUBLE => "bytes_buffer.read_double()"@,
        Type::INT | Type::FLAGS => "bytes_buffer.read_int()"@,
        Type::BOOL => "bytes_buffer.read_bool()"@,
        Type::INT128 => "bytes_buffer.read_int128()"@,
        Type::INT256 => "bytes_buffer.read_raw(32)"@,
        Type::BYTES => "bytes_buffer.read_bytes()"@,
        Type::STRING => "bytes_buffer.read_string()"@,
        Type::VECTOR => match t.inner {
            Some(b) => "{\n    let vector_header = bytes_buffer.read_int()?;\n    let length = if vector_header == 0x1cb5c415 {\n        bytes_buffer.read_int()?\n    } else {\n        vector_header\n    };\n\n    (0..length).into_iter().map(|_| "@ + csr_spec(defs, *b, false, true) + ").collect::<Result<Vec<_>, TlBufferError>>()?\n}"@,
            None => Seq::empty(),
        },
        Type::OBJECT => "Box::new(read(bytes_buffer)?)"@,
        Type::SCHEMA => {
            let s = t.schema_type->0;
            let call = if t.variant {
                "read_"@ + function_name(s) + "_variant(bytes_buffer)"@ + p
            } else {
                match find_ctor(defs, s) {
                    Some(c) => "read_"@ + function_name(c.predicate) + "(bytes_buffer)"@ + p,
                    None => "read_"@ + function_name(s) + "(bytes_buffer)"@ + p,
                }
            };
            if t.variant || t.raw {
                call
            } else {
                "{ bytes_buffer.read_int()?; "@ + call + " }"@
            }
        },
        _ => "/* ERROR: Compilation failed */"@,
    };
    if propagate_error && t.ty != Type::VECTOR && t.ty != Type::OBJECT && t.ty != Type::SCHEMA {
        text + "?"@
    } else {
        text
    }
}

/// The expression that reads a value of type `t`.
fn compile_single_read(definitions: &Vec<Definition>, t: &TypeDefinition, propagate_error: bool, inside_vector: bool) -> (r: String)
    requires
        type_ok(t@),
    ensures
        r@ == csr_spec(defs_view(definitions@), t@, propagate_error, inside_vector),
    decreases t,
{
    let p = if inside_vector {
        ""
    } else {
        "?"
    };
    let text = match t.ty {
        Type::LONG => String::from_str("bytes_buffer.read_long()"),
        Type::DOUBLE => String::from_str("bytes_buffer.read_double()"),
        Type::INT | Type::FLAGS => String::from_str("bytes_buffer.read_int()"),
        Type::BOOL => String::from_str("bytes_buffer.read_bool()"),
        Type::INT128 => String::from_str("bytes_buffer.read_int128()"),
        Type::INT256 => String::from_str("bytes_buffer.read_raw(32)"),
        Type::BYTES => String::from_str("bytes_buffer.read_bytes()"),
        Type::STRING => String::from_str("bytes_buffer.read_string()"),
        Type::VECTOR => {
            let b = match &t.inner {
                Some(b) => b,
                None => {
                    assert(false);
                    return String::new();
                },
            };
            let element = compile_single_read(definitions, &**b, false, true);
            let mut r = String::from_str("{\n    let vector_header = bytes_buffer.read_int()?;\n    let length = if vector_header == 0x1cb5c415 {\n        bytes_buffer.read_int()?\n    } else {\n        vector_header\n    };\n\n    (0..length).into_iter().map(|_| ");
            push_str(&mut r, element.as_str());
            push_str(&mut r, ").collect::<Result<Vec<_>, TlBufferError>>()?\n}");
            r
        },
        Type::OBJECT => String::from_str("Box::new(read(bytes_buffer)?)"),
        Type::SCHEMA => {
            let s = match &t.schema_type {
                Some(s) => s,
                None => {
                    assert(false);
                    return String::new();
                },
            };
            let mut call = String::from_str("read_");
            if t.variant {
                let f = rustify_function_name(s);
                push_str(&mut call, f.as_str());
                push_str(&mut call, "_variant(bytes_buffer)");
            } else {
                let f = match find_return_type_constructor(definitions, s.clone()) {
                    Some(c) => rustify_function_name(&c.predicate),
                    None => rustify_function_name(s),
                };
                push_str(&mut call, f.as_str());
                push_str(&mut call, "(bytes_buffer)");
            }
            push_str(&mut call, p);
            if t.variant || t.raw {
                call
            } else {
                let mut r = String::from_str("{ bytes_buffer.read_int()?; ");
                push_str(&mut r, call.as_str());
                push_str(&mut r, " }");
                r
            }
        },
        _ => String::from_str("/* ERROR: Compilation failed */"),
    };
    if propagate_error && t.ty != Type::VECTOR && t.ty != Type::OBJECT && t.ty != Type::SCHEMA {
        let mut r = text;
        push_str(&mut r, "?");
        r
    } else {
        text
    }
}

/// The statement that reads parameter `p` into a local variable; optional
/// parameters are read when their flags bit is set.
pub open spec fn reader_let_spec(defs: Seq<DefinitionView>, p: ParamView) -> Seq<char> {
    match (p.ty.flags_name, p.ty.flags_bit) {
        (Some(f), Some(bit)) => if p.ty.ty == Type::BitBool {
            "let "@ + variable_name(p.name) + " = if "@ + variable_name(f) + " & (1 << "@
                + decimal_spec(bit as int) + ") != 0 { true } else { false };\n"@
        } else {
            "let "@ + variable_name(p.name) + " = if "@ + variable_name(f) + " & (1 << "@
                + decimal_spec(bit as int) + ") != 0 { "@ + "Some("@ + csr_spec(defs, p.ty, true, false)
                + ") } else { None };\n"@
        },
        _ => "let "@ + variable_name(p.name) + " = "@ + csr_spec(defs, p.ty, true, false) + ";\n"@,
    }
}

/// The statements that read the parameters of `ps`.
pub open spec fn reader_lets_spec(defs: Seq<DefinitionView>, ps: Seq<ParamView>) -> Seq<char>
    decreases ps.len(),
{
    if ps.len() == 0 {
        Seq::empty()
    } else {
        reader_lets_spec(defs, ps.drop_last()) + reader_let_spec(defs, ps.last())
    }
}

/// The field initializers of the struct: every parameter but flags.
pub open spec fn reader_fields_spec(ps: Seq<ParamView>) -> Seq<char>
    decreases ps.len(),
{
    if ps.len() == 0 {
        Seq::empty()
    } else {
        let rest = reader_fields_spec(ps.drop_last());
        if ps.last().ty.ty == Type::FLAGS {
            rest
        } else {
            rest + (variable_name(ps.last().name) + ",\n"@)
        }
    }
}

/// The reader function of a definition.
pub open spec fn compile_reader_spec(defs: Seq<DefinitionView>, d: DefinitionView) -> Seq<char> {
    "#[allow(dead_code, unused_variables)]\n"@ + "pub fn read_"@ + function_name(d.predicate)
        + "(bytes_buffer: &mut TlBuffer) -> Result<"@ + struct_name(d.predicate)
        + ", TlBufferError> {\n"@ + reader_lets_spec(defs, d.params) + "Ok("@ + struct_name(
        d.predicate,
    ) + " {\n"@ + reader_fields_spec(d.params) + "})\n"@ + "}\n"@
}

/// The statement that reads one parameter.
fn reader_let(definitions: &Vec<Definition>, p: &crate::tl_compiler::parser::Param) -> (r: String)
    requires
        type_ok(p@.ty),
    ensures
        r@ == reader_let_spec(defs_view(definitions@), p@),
{
    let v = rustify_variable_name(&p.name);
    let mut r = String::from_str("let ");
    push_str(&mut r, v.as_str());
    match (&p.ty.flags_name, p.ty.flags_bit) {
        (Some(f), Some(bit)) => {
            push_str(&mut r, " = if ");
            let fv = rustify_variable_name(f);
            push_str(&mut r, fv.as_str());
            push_str(&mut r, " & (1 << ");
            let dec = decimal(bit as i64);
            push_str(&mut r, dec.as_str());
            if p.ty.ty == Type::BitBool {
                push_str(&mut r, ") != 0 { true } else { false };\n");
            } else {
                push_str(&mut r, ") != 0 { ");
                push_str(&mut r, "Some(");
                let read = compile_single_read(definitions, &p.ty, true, false);
                push_str(&mut r, read.as_str());
                push_str(&mut r, ") } else { None };\n");
            }
        },
        _ => {
            push_str(&mut r, " = ");
            let read = compile_single_read(definitions, &p.ty, true, false);
            push_str(&mut r, read.as_str());
            push_str(&mut r, ";\n");
        },
    }
    r
}

/// The reader function of a definition: each parameter read into a local,
/// optional ones when their flags bit is set, then the struct built from them.
pub fn compile_reader(definitions: &Vec<Definition>, definition: &Definition) -> (r: String)
    requires
        params_ok(definition@.params),
    ensures
        r@ == compile_reader_spec(defs_view(definitions@), definition@),
{
    let ghost all = definition@.params;
    let ghost dv = defs_view(definitions@);
    let mut lets = String::new();
    let mut fields = String::new();
    let mut i: usize = 0;
    assert(all.take(0) =~= Seq::<ParamView>::empty());
    while i < definition.params.len()
        invariant
            all == definition@.params,
            all == params_view(definition.params@),
            dv == defs_view(definitions@),
            params_ok(all),
            i <= definition.params@.len(),
            lets@ == reader_lets_spec(dv, all.take(i as int)),
            fields@ == reader_fields_spec(all.take(i as int)),
        decreases definition.params@.len() - i,
    {
        assert(all.take(i + 1).drop_last() =~= all.take(i as int));
        assert(all[i as int] == definition.params@[i as int]@);
        assert(type_ok(all[i as int].ty));
        let p = &definition.params[i];
        let l = reader_let(definitions, p);
        push_str(&mut lets, l.as_str());
        if p.ty.ty != Type::FLAGS {
            let mut f = rustify_variable_name(&p.name);
            push_str(&mut f, ",\n");
            push_str(&mut fields, f.as_str());
        }
        i = i + 1;
    }
    assert(all.take(i as int) =~= all);
    let fname = rustify_function_name(&definition.predicate);
    let sname = rustify_struct_name(&definition.predicate);
    let mut code = String::from_str("#[allow(dead_code, unused_variables)]\n");
    push_str(&mut code, "pub fn read_");
    push_str(&mut code, fname.as_str());
    push_str(&mut code, "(bytes_buffer: &mut TlBuffer) -> Result<");
    push_str(&mut code, sname.as_str());
    push_str(&mut code, ", TlBufferError> {\n");
    push_str(&mut code, lets.as_str());
    push_str(&mut code, "Ok(");
    push_str(&mut code, sname.as_str());
    push_str(&mut code, " {\n");
    push_str(&mut code, fields.as_str());
    push_str(&mut code, "})\n");
    push_str(&mut code, "}\n");
    code
}


/// The match arm of a variant reader for the constructor `d` of `v`.
pub open spec fn variant_read_arm(v: Seq<char>) -> spec_fn(DefinitionView) -> Seq<char> {
    |d: DefinitionView|
        decimal_spec(d.id as int) + " => Ok("@ + struct_name(v) + "Variant::"@ + struct_name(d.predicate)
            + "(Box::new(read_"@ + function_name(d.predicate) + "(data)?))),\n"@
}

/// The reader of the variant enum of `v`: it reads the constructor number
/// and dispatches to the reader of that constructor.
pub open spec fn compile_variant_reader_spec(v: Seq<char>, defs: Seq<DefinitionView>) -> Seq<char> {
    "pub fn read_"@ + function_name(v) + "_variant(data: &mut TlBuffer) -> Result<"@ + struct_name(v)
        + "Variant, TlBufferError> {\n"@ + "match data.read_int()? {\n"@ + concat_map(
        defs,
        variant_read_arm(v),
    ) + "i => Err(TlBufferError::Custom(format!(\"no reader for {}\", i))),\n"@ + "}\n"@ + "}"@
}

/// The reader of the variant enum of `variant_name`, whose constructors are `definitions`.
pub fn compile_variant_reader(variant_name: String, definitions: &Vec<Definition>) -> (r: String)
    ensures
        r@ == compile_variant_reader_spec(variant_name@, defs_view(definitions@)),
{
    let ghost dv = defs_view(definitions@);
    let ghost f = variant_read_arm(variant_name@);
    let vs = rustify_struct_name(&variant_name);
    let vf = rustify_function_name(&variant_name);
    let mut arms = String::new();
    let mut i: usize = 0;
    while i < definitions.len()
        invariant
            dv == defs_view(definitions@),
            f == variant_read_arm(variant_name@),
            vs@ == struct_name(variant_name@),
            i <= definitions@.len(),
            arms@ == concat_map(dv.take(i as int), f),
        decreases definitions@.len() - i,
    {
        proof {
            lemma_concat_map_step(dv, i as int, f);
        }
        let d = &definitions[i];
        let mut arm = decimal(d.id as i64);
        push_str(&mut arm, " => Ok(");
        push_str(&mut arm, vs.as_str());
        push_str(&mut arm, "Variant::");
        let ds = rustify_struct_name(&d.predicate);
        push_str(&mut arm, ds.as_str());
        push_str(&mut arm, "(Box::new(read_");
        let df = rustify_function_name(&d.predicate);
        push_str(&mut arm, df.as_str());
        push_str(&mut arm, "(data)?))),\n");
        push_str(&mut arms, arm.as_str());
        i = i + 1;
    }
    assert(dv.take(i as int) =~= dv);
    let mut code = String::from_str("pub fn read_");
    push_str(&mut code, vf.as_str());
    push_str(&mut code, "_variant(data: &mut TlBuffer) -> Result<");
    push_str(&mut code, vs.as_str());
    push_str(&mut code, "Variant, TlBufferError> {\n");
    push_str(&mut code, "match data.read_int()? {\n");
    push_str(&mut code, arms.as_str());
    push_str(&mut code, "i => Err(TlBufferError::Custom(format!(\"no reader for {}\", i))),\n");
    push_str(&mut code, "}\n");
    push_str(&mut code, "}");
    code
}

/// The case of a variant enum for the constructor `d`.
pub open spec fn variant_case(d: DefinitionView) -> Seq<char> {
    struct_name(d.predicate) + "(Box<"@ + struct_name(d.predicate) + ">),\n"@
}

/// The match arm of a variant enum's writer for the constructor `d` of `v`.
pub open spec fn variant_write_arm(v: Seq<char>) -> spec_fn(DefinitionView) -> Seq<char> {
    |d: DefinitionView|
        struct_name(v) + "Variant::"@ + struct_name(d.predicate) + "(inner_obj) => inner_obj.write(data),\n"@
}

/// The enum of the constructors of `v`, with a `write` method that writes
/// whichever constructor it holds.
pub open spec fn compile_variant_enum_spec(v: Seq<char>, defs: Seq<DefinitionView>) -> Seq<char> {
    "#[derive(Debug, Clone)]\n"@ + "pub enum "@ + struct_name(v) + "Variant {\n"@ + concat_map(
        defs,
        |d: DefinitionView| variant_case(d),
    ) + "}\n\n"@ + "impl "@ + struct_name(v) + "Variant {\n"@
        + "   pub fn write(&self, data: &mut TlBuffer) {\n"@ + "       match self {\n"@ + concat_map(
        defs,
        variant_write_arm(v),
    ) + "       }\n"@ + "   }\n"@ + "}\n"@
}

/// The enum of the constructors of `variant_name`.
pub fn compile_variant_enum(variant_name: String, definitions: &Vec<Definition>) -> (r: String)
    ensures
        r@ == compile_variant_enum_spec(variant_name@, defs_view(definitions@)),
{
    let ghost dv = defs_view(definitions@);
    let ghost fc = |d: DefinitionView| variant_case(d);
    let ghost fw = variant_write_arm(variant_name@);
    let vs = rustify_struct_name(&variant_name);
    let mut cases = String::new();
    let mut arms = String::new();
    let mut i: usize = 0;
    while i < definitions.len()
        invariant
            dv == defs_view(definitions@),
            fc == (|d: DefinitionView| variant_case(d)),
            fw == variant_write_arm(variant_name@),
            vs@ == struct_name(variant_name@),
            i <= definitions@.len(),
            cases@ == concat_map(dv.take(i as int), fc),
            arms@ == concat_map(dv.take(i as int), fw),
        decreases definitions@.len() - i,
    {
        proof {
            lemma_concat_map_step(dv, i as int, fc);
            lemma_concat_map_step(dv, i as int, fw);
        }
        let ds = rustify_struct_name(&definitions[i].predicate);
        push_str(&mut cases, ds.as_str());
        push_str(&mut cases, "(Box<");
        push_str(&mut cases, ds.as_str());
        push_str(&mut cases, ">),\n");
        push_str(&mut arms, vs.as_str());
        push_str(&mut arms, "Variant::");
        push_str(&mut arms, ds.as_str());
        push_str(&mut arms, "(inner_obj) => inner_obj.write(data),\n");
        i = i + 1;
    }
    assert(dv.take(i as int) =~= dv);
    let mut code = String::from_str("#[derive(Debug, Clone)]\n");
    push_str(&mut code, "pub enum ");
    push_str(&mut code, vs.as_str());
    push_str(&mut code, "Variant {\n");
    push_str(&mut code, cases.as_str());
    push_str(&mut code, "}\n\n");
    push_str(&mut code, "impl ");
    push_str(&mut code, vs.as_str());
    push_str(&mut code, "Variant {\n");
    push_str(&mut code, "   pub fn write(&self, data: &mut TlBuffer) {\n");
    push_str(&mut code, "       match self {\n");
    push_str(&mut code, arms.as_str());
    push_str(&mut code, "       }\n");
    push_str(&mut code, "   }\n");
    push_str(&mut code, "}\n");
    code
}


/// The case of the object enum for the definition `d`.
pub open spec fn object_case(d: DefinitionView) -> Seq<char> {
    struct_name(d.predicate) + "("@ + struct_name(d.predicate) + "),\n"@
}

/// The case of the object enum for the variant enum of `k`.
pub open spec fn object_variant_case(k: Seq<char>) -> Seq<char> {
    struct_name(k) + "Variant"@ + "("@ + struct_name(k) + "Variant),\n"@
}

/// The arm of the object writer for the definition `d`.
pub open spec fn object_write_arm(d: DefinitionView) -> Seq<char> {
    "SchemaObject::"@ + struct_name(d.predicate) + "("@ + "inner_obj) => inner_obj.write(data),\n"@
}

/// The arm of the object writer for the variant enum of `k`.
pub open spec fn object_variant_write_arm(k: Seq<char>) -> Seq<char> {
    "SchemaObject::"@ + struct_name(k) + "Variant"@ + "("@ + "inner_obj) => inner_obj.write(data),\n"@
}

/// The arm of the object writer for a vector: its number, its length and its items.
pub open spec fn vector_write_arm() -> Seq<char> {
    "SchemaObject::"@ + "Vector"@ + "("@ + "inner_obj) => {\n        data.write_int(0x1cb5c415);\n        data.write_int(inner_obj.len() as i32);\n        inner_obj.iter().for_each(|v| v.write(data));\n    },\n"@
}

/// The arm of the object writer for a bare vector: its length and its items.
pub open spec fn raw_vector_write_arm() -> Seq<char> {
    "SchemaObject::"@ + "RawVector"@ + "("@ + "inner_obj) => {\n        data.write_int(inner_obj.len() as i32);\n        inner_obj.iter().for_each(|v| v.write(data));\n    },\n"@
}

/// The arm of the object writer for a message container: its number, its
/// length, and each message with its identifier, sequence number and length.
pub open spec fn container_write_arm() -> Seq<char> {
    "SchemaObject::"@ + "MsgContainer"@ + "("@ + "inner_obj) => {\n        data.write_int(1945237724);\n        data.write_int(inner_obj.len() as i32);\n        inner_obj\n            .iter()\n            .for_each(|v| {\n                data.write_long(v.0);\n                data.write_int(v.1);\n                let mut tmp = TlBuffer::new(vec![]);\n                v.2.write(&mut tmp);\n                data.write_int(tmp.len() as i32);\n                data.write_raw(tmp.data());\n            });\n    },\n"@
}

/// The arm of the object writer for an undecodable object, which cannot be written.
pub open spec fn error_write_arm() -> Seq<char> {
    "SchemaObject::"@ + "DeserializationError"@ + "("@ + "_) => "@ + "panic!(\"This object is not serializable\")"@
}

/// The case of the object enum for a vector of objects.
pub open spec fn vector_case() -> Seq<char> {
    "Vector"@ + "("@ + "Vec<SchemaObject>),\n"@
}

/// The case of the object enum for an object that could not be decoded.
pub open spec fn error_case() -> Seq<char> {
    "DeserializationError"@ + "("@ + "TlBufferError),\n"@
}

/// The case of the object enum for a bare vector.
pub open spec fn raw_vector_case() -> Seq<char> {
    "RawVector"@ + "("@ + "Vec<SchemaObject>),\n"@
}

/// The case of the object enum for a message container.
pub open spec fn container_case() -> Seq<char> {
    "MsgContainer"@ + "("@ + "Vec<(i64, i32, SchemaObject)>),\n"@
}

/// The cases of the object enum that every schema has.
pub open spec fn fixed_object_cases() -> Seq<char> {
    vector_case() + error_case() + raw_vector_case() + container_case()
}

/// The arms of the object writer that every schema has.
pub open spec fn fixed_write_arms() -> Seq<char> {
    vector_write_arm() + raw_vector_write_arm() + container_write_arm() + error_write_arm()
}

/// The text of the object enum before its cases.
pub open spec fn object_head() -> Seq<char> {
    "#[derive(Debug, Clone)]\n"@ + "pub enum SchemaObject {\n"@
}

/// The text between the object enum's cases and its writer's arms.
pub open spec fn object_middle() -> Seq<char> {
    "}\n\n"@ + "impl SchemaObject {\n"@ + "   pub fn write(&self, data: &mut TlBuffer) {\n"@
        + "       match self {\n"@
}

/// The text after the writer's arms.
pub open spec fn object_tail() -> Seq<char> {
    "       }\n"@ + "   }\n"@ + "}"@
}

/// The enum of every object of the schema: one case per definition, one per
/// variant enum, and the vectors, message containers and undecodable objects;
/// with its `write` method.
pub open spec fn compile_schema_object_spec(defs: Seq<DefinitionView>) -> Seq<char> {
    let keys = variant_keys(defs);
    object_head() + (concat_map(defs, |d: DefinitionView| object_case(d)) + concat_map(
        keys,
        |k: Seq<char>| object_variant_case(k),
    ) + fixed_object_cases()) + object_middle() + (concat_map(defs, |d: DefinitionView| object_write_arm(d))
        + concat_map(keys, |k: Seq<char>| object_variant_write_arm(k)) + fixed_write_arms()) + object_tail()
}

/// The text of two pieces.
fn text2(a: &str, b: &str) -> (r: String)
    ensures
        r@ == a@ + b@,
{
    let mut r = String::from_str(a);
    push_str(&mut r, b);
    r
}

/// The text of three pieces.
fn text3(a: &str, b: &str, c: &str) -> (r: String)
    ensures
        r@ == a@ + b@ + c@,
{
    let mut r = text2(a, b);
    push_str(&mut r, c);
    r
}

/// The text of four pieces.
fn text4(a: &str, b: &str, c: &str, d: &str) -> (r: String)
    ensures
        r@ == a@ + b@ + c@ + d@,
{
    let mut r = text3(a, b, c);
    push_str(&mut r, d);
    r
}

/// The text of the cases of the object enum that every schema has.
fn fixed_object_cases_text() -> (r: String)
    ensures
        r@ == fixed_object_cases(),
{
    let mut r = text3("Vector", "(", "Vec<SchemaObject>),\n");
    let e = text3("DeserializationError", "(", "TlBufferError),\n");
    push_str(&mut r, e.as_str());
    let v = text3("RawVector", "(", "Vec<SchemaObject>),\n");
    push_str(&mut r, v.as_str());
    let c = text3("MsgContainer", "(", "Vec<(i64, i32, SchemaObject)>),\n");
    push_str(&mut r, c.as_str());
    r
}

/// The text of the arms of the object writer that every schema has.
fn fixed_write_arms_text() -> (r: String)
    ensures
        r@ == fixed_write_arms(),
{
    let mut r = text4("SchemaObject::", "Vector", "(", "inner_obj) => {\n        data.write_int(0x1cb5c415);\n        data.write_int(inner_obj.len() as i32);\n        inner_obj.iter().for_each(|v| v.write(data));\n    },\n");
    let v = text4("SchemaObject::", "RawVector", "(", "inner_obj) => {\n        data.write_int(inner_obj.len() as i32);\n        inner_obj.iter().for_each(|v| v.write(data));\n    },\n");
    push_str(&mut r, v.as_str());
    let c = text4("SchemaObject::", "MsgContainer", "(", "inner_obj) => {\n        data.write_int(1945237724);\n        data.write_int(inner_obj.len() as i32);\n        inner_obj\n            .iter()\n            .for_each(|v| {\n                data.write_long(v.0);\n                data.write_int(v.1);\n                let mut tmp = TlBuffer::new(vec![]);\n                v.2.write(&mut tmp);\n                data.write_int(tmp.len() as i32);\n                data.write_raw(tmp.data());\n            });\n    },\n");
    push_str(&mut r, c.as_str());
    let mut e = text4("SchemaObject::", "DeserializationError", "(", "_) => ");
    push_str(&mut e, "panic!(\"This object is not serializable\")");
    push_str(&mut r, e.as_str());
    r
}

/// The enum of every object of the schema, with its `write` method.
pub fn compile_schema_object(definitions: &Vec<Definition>) -> (r: String)
    ensures
        r@ == compile_schema_object_spec(defs_view(definitions@)),
{
    let ghost dv = defs_view(definitions@);
    let ghost fc = |d: DefinitionView| object_case(d);
    let ghost fw = |d: DefinitionView| object_write_arm(d);
    let ghost gc = |k: Seq<char>| object_variant_case(k);
    let ghost gw = |k: Seq<char>| object_variant_write_arm(k);
    let variants = analyze_variant_constructors(definitions);
    let ghost keys = variant_keys(dv);
    assert(variants_view(variants@).len() == keys.len());
    let mut cases = String::new();
    let mut arms = String::new();
    let mut i: usize = 0;
    while i < definitions.len()
        invariant
            dv == defs_view(definitions@),
            fc == (|d: DefinitionView| object_case(d)),
            fw == (|d: DefinitionView| object_write_arm(d)),
            i <= definitions@.len(),
            cases@ == concat_map(dv.take(i as int), fc),
            arms@ == concat_map(dv.take(i as int), fw),
        decreases definitions@.len() - i,
    {
        proof {
            lemma_concat_map_step(dv, i as int, fc);
            lemma_concat_map_step(dv, i as int, fw);
        }
        let ds = rustify_struct_name(&definitions[i].predicate);
        push_str(&mut cases, ds.as_str());
        push_str(&mut cases, "(");
        push_str(&mut cases, ds.as_str());
        push_str(&mut cases, "),\n");
        push_str(&mut arms, "SchemaObject::");
        push_str(&mut arms, ds.as_str());
        push_str(&mut arms, "(");
        push_str(&mut arms, "inner_obj) => inner_obj.write(data),\n");
        i = i + 1;
    }
    assert(dv.take(i as int) =~= dv);
    let mut vcases = String::new();
    let mut varms = String::new();
    let mut j: usize = 0;
    while j < variants.len()
        invariant
            variants_view(variants@) == variants_spec(dv),
            keys == variant_keys(dv),
            variants@.len() == keys.len(),
            gc == (|k: Seq<char>| object_variant_case(k)),
            gw == (|k: Seq<char>| object_variant_write_arm(k)),
            j <= variants@.len(),
            vcases@ == concat_map(keys.take(j as int), gc),
            varms@ == concat_map(keys.take(j as int), gw),
        decreases variants@.len() - j,
    {
        assert(variants_view(variants@)[j as int] == variants_spec(dv)[j as int]);
        proof {
            lemma_concat_map_step(keys, j as int, gc);
            lemma_concat_map_step(keys, j as int, gw);
        }
        let ks = rustify_struct_name(&variants[j].0);
        push_str(&mut vcases, ks.as_str());
        push_str(&mut vcases, "Variant");
        push_str(&mut vcases, "(");
        push_str(&mut vcases, ks.as_str());
        push_str(&mut vcases, "Variant),\n");
        push_str(&mut varms, "SchemaObject::");
        push_str(&mut varms, ks.as_str());
        push_str(&mut varms, "Variant");
        push_str(&mut varms, "(");
        push_str(&mut varms, "inner_obj) => inner_obj.write(data),\n");
        j = j + 1;
    }
    assert(keys.take(j as int) =~= keys);
    let mut all_cases = cases;
    push_str(&mut all_cases, vcases.as_str());
    let fixed_cases = fixed_object_cases_text();
    push_str(&mut all_cases, fixed_cases.as_str());
    let mut all_arms = arms;
    push_str(&mut all_arms, varms.as_str());
    let fixed_arms = fixed_write_arms_text();
    push_str(&mut all_arms, fixed_arms.as_str());
    let mut code = text2("#[derive(Debug, Clone)]\n", "pub enum SchemaObject {\n");
    push_str(&mut code, all_cases.as_str());
    let middle = text4("}\n\n", "impl SchemaObject {\n", "   pub fn write(&self, data: &mut TlBuffer) {\n", "       match self {\n");
    push_str(&mut code, middle.as_str());
    push_str(&mut code, all_arms.as_str());
    let tail = text3("       }\n", "   }\n", "}");
    push_str(&mut code, tail.as_str());
    code
}

/// Whether the schema type `schema_type` has more than one constructor.
pub fn is_variant(definitions: &Vec<Definition>, schema_type: String) -> (r: bool)
    ensures
        r == variant_keys(defs_view(definitions@)).contains(schema_type@),
{
    let ghost dv = defs_view(definitions@);
    let variants = analyze_variant_constructors(definitions);
    let ghost keys = variant_keys(dv);
    assert(variants_view(variants@).len() == keys.len());
    let mut j: usize = 0;
    while j < variants.len()
        invariant
            variants_view(variants@) == variants_spec(dv),
            keys == variant_keys(dv),
            dv == defs_view(definitions@),
            variants@.len() == keys.len(),
            j <= variants@.len(),
            forall|m: int| 0 <= m < j ==> keys[m] != schema_type@,
        decreases variants@.len() - j,
    {
        assert(variants_view(variants@)[j as int] == variants_spec(dv)[j as int]);
        if text_eq(variants[j].0.as_str(), schema_type.as_str()) {
            assert(keys[j as int] == schema_type@);
            assert(keys.contains(schema_type@));
            return true;
        }
        j = j + 1;
    }
    assert(variants_view(variants@).len() == keys.len());
    false
}


/// The struct of the definition `d` and, unless its number is 1, its reader.
pub open spec fn definition_code(defs: Seq<DefinitionView>) -> spec_fn(DefinitionView) -> Seq<char> {
    |d: DefinitionView|
        compile_struct_spec(defs, d) + "\n\n"@ + if d.id != 1 {
            compile_reader_spec(defs, d)
        } else {
            Seq::empty()
        }
}

/// The variant enum of the schema type `k`.
pub open spec fn variant_enum_code(defs: Seq<DefinitionView>) -> spec_fn(Seq<char>) -> Seq<char> {
    |k: Seq<char>| compile_variant_enum_spec(k, members(defs, k))
}

/// The reader of the variant enum of the schema type `k`.
pub open spec fn variant_reader_code(defs: Seq<DefinitionView>) -> spec_fn(Seq<char>) -> Seq<char> {
    |k: Seq<char>| compile_variant_reader_spec(k, members(defs, k))
}

/// The arm of the object reader for the definition `d`; none for numbers 0 and 1.
pub open spec fn object_read_arm(d: DefinitionView) -> Seq<char> {
    if d.id != 0 && d.id != 1 {
        decimal_spec(d.id as int) + " => Ok(SchemaObject::"@ + struct_name(d.predicate) + "(read_"@
            + function_name(d.predicate) + "(data)?)),\n"@
    } else {
        Seq::empty()
    }
}

/// The arm of the object reader for a message container: its objects are
/// read one by one, and one that cannot be read becomes a code-0 error
/// result for its message.
pub open spec fn container_read_arm() -> Seq<char> {
    "\n        1945237724 => {\n            Ok(SchemaObject::MsgContainer(\n                (0..data.read_int()?)\n                    .into_iter()\n                    .map(|_| -> Result<(i64, i32, SchemaObject), TlBufferError> {\n                        let msg_id = data.read_long()?;\n                        let seq_no = data.read_int()?;\n                        let _length = data.read_int()?;\n                        let obj = match read(data) {\n                            Ok(result) => result,\n                            Err(e) => SchemaObject::RpcResult(RpcResult {\n                                req_msg_id: msg_id,\n                                result: Box::new(SchemaObject::RpcError(RpcError {\n                                    error_code: 0,\n                                    error_message: format!(\"deserialization error: {}\", e),\n                                })),\n                            }),\n                        };\n                        Ok((msg_id, seq_no, obj))\n                    })\n                    .collect::<Result<Vec<_>, _>>()?\n            ))\n        },\n"@
}

/// The last arm of the object reader: no reader for any other number.
pub open spec fn fallback_read_arm() -> Seq<char> {
    "        i => Err(TlBufferError::Custom(format!(\"no reader for {}\", i))),\n"@
}

/// The Rust module of a schema: a header, the structs and readers of the
/// definitions, the variant enums and their readers, the object enum, and
/// the object reader that dispatches on the constructor number.
#[verifier::opaque]
pub open spec fn compile_schema_spec(defs: Seq<DefinitionView>) -> Seq<char> {
    let keys = variant_keys(defs);
    "// This is a file generated by catte-tl-compiler, do not modify unless you know what you are doing.\n\n"@ + "use catte_tl_buffer::{TlBuffer, TlBufferError};\n"@ + join_map(
        defs,
        definition_code(defs),
        "\n"@,
    ) + "\n"@ + join_map(keys, variant_enum_code(defs), "\n\n"@) + "\n\n"@ + join_map(
        keys,
        variant_reader_code(defs),
        "\n\n"@,
    ) + "\n\n"@ + compile_schema_object_spec(defs) + "\n\n"@ + "pub fn read(data: &mut TlBuffer) -> Result<SchemaObject, TlBufferError> {\n    match data.read_int()? {\n"@ + concat_map(
        defs,
        |d: DefinitionView| object_read_arm(d),
    ) + container_read_arm() + fallback_read_arm() + "    }\n}"@
}

/// The struct of a definition and, unless its number is 1, its reader.
fn definition_text(definitions: &Vec<Definition>, d: &Definition) -> (r: String)
    requires
        params_ok(d@.params),
        flag_bits_ok(d@.params),
    ensures
        r@ == definition_code(defs_view(definitions@))(d@),
{
    let mut r = compile_struct(definitions, d);
    push_str(&mut r, "\n\n");
    if d.id != 1 {
        let rd = compile_reader(definitions, d);
        push_str(&mut r, rd.as_str());
    }
    r
}

/// The arm of the object reader for a definition.
fn object_read_arm_text(d: &Definition) -> (r: String)
    ensures
        r@ == object_read_arm(d@),
{
    let mut r = String::new();
    if d.id != 0 && d.id != 1 {
        r = decimal(d.id as i64);
        push_str(&mut r, " => Ok(SchemaObject::");
        let ds = rustify_struct_name(&d.predicate);
        push_str(&mut r, ds.as_str());
        push_str(&mut r, "(read_");
        let df = rustify_function_name(&d.predicate);
        push_str(&mut r, df.as_str());
        push_str(&mut r, "(data)?)),\n");
    }
    r
}

/// The Rust module of a schema.
pub fn compile_schema(definitions: &Vec<Definition>) -> (r: String)
    requires
        defs_ok(defs_view(definitions@)),
    ensures
        r@ == compile_schema_spec(defs_view(definitions@)),
{
    proof {
        reveal(compile_schema_spec);
    }
    let ghost dv = defs_view(definitions@);
    let ghost fd = definition_code(dv);
    let ghost fa = |d: DefinitionView| object_read_arm(d);
    let mut body = String::new();
    let mut arms = String::new();
    let mut i: usize = 0;
    while i < definitions.len()
        invariant
            dv == defs_view(definitions@),
            defs_ok(dv),
            fd == definition_code(dv),
            fa == (|d: DefinitionView| object_read_arm(d)),
            i <= definitions@.len(),
            body@ == join_map(dv.take(i as int), fd, "\n"@),
            arms@ == concat_map(dv.take(i as int), fa),
        decreases definitions@.len() - i,
    {
        proof {
            lemma_join_map_step(dv, i as int, fd, "\n"@);
            lemma_concat_map_step(dv, i as int, fa);
        }
        assert(dv[i as int] == definitions@[i as int]@);
        assert(params_ok(dv[i as int].params) && flag_bits_ok(dv[i as int].params));
        let d = &definitions[i];
        if i > 0 {
            push_str(&mut body, "\n");
        }
        let code = definition_text(definitions, d);
        push_str(&mut body, code.as_str());
        let arm = object_read_arm_text(d);
        push_str(&mut arms, arm.as_str());
        i = i + 1;
    }
    assert(dv.take(i as int) =~= dv);
    let variants = analyze_variant_constructors(definitions);
    let ghost keys = variant_keys(dv);
    let ghost ge = variant_enum_code(dv);
    let ghost gr = variant_reader_code(dv);
    assert(variants_view(variants@).len() == keys.len());
    let mut enums = String::new();
    let mut readers = String::new();
    let mut j: usize = 0;
    while j < variants.len()
        invariant
            variants_view(variants@) == variants_spec(dv),
            keys == variant_keys(dv),
            variants@.len() == keys.len(),
            ge == variant_enum_code(dv),
            gr == variant_reader_code(dv),
            j <= variants@.len(),
            enums@ == join_map(keys.take(j as int), ge, "\n\n"@),
            readers@ == join_map(keys.take(j as int), gr, "\n\n"@),
        decreases variants@.len() - j,
    {
        assert(variants_view(variants@)[j as int] == variants_spec(dv)[j as int]);
        proof {
            lemma_join_map_step(keys, j as int, ge, "\n\n"@);
            lemma_join_map_step(keys, j as int, gr, "\n\n"@);
        }
        if j > 0 {
            push_str(&mut enums, "\n\n");
            push_str(&mut readers, "\n\n");
        }
        let e = compile_variant_enum(variants[j].0.clone(), &variants[j].1);
        push_str(&mut enums, e.as_str());
        let rd = compile_variant_reader(variants[j].0.clone(), &variants[j].1);
        push_str(&mut readers, rd.as_str());
        j = j + 1;
    }
    assert(keys.take(j as int) =~= keys);
    let mut code = String::from_str("// This is a file generated by catte-tl-compiler, do not modify unless you know what you are doing.\n\n");
    push_str(&mut code, "use catte_tl_buffer::{TlBuffer, TlBufferError};\n");
    push_str(&mut code, body.as_str());
    push_str(&mut code, "\n");
    push_str(&mut code, enums.as_str());
    push_str(&mut code, "\n\n");
    push_str(&mut code, readers.as_str());
    push_str(&mut code, "\n\n");
    let object = compile_schema_object(definitions);
    push_str(&mut code, object.as_str());
    push_str(&mut code, "\n\n");
    push_str(&mut code, "pub fn read(data: &mut TlBuffer) -> Result<SchemaObject, TlBufferError> {\n    match data.read_int()? {\n");
    push_str(&mut code, arms.as_str());
    push_str(&mut code, "\n        1945237724 => {\n            Ok(SchemaObject::MsgContainer(\n                (0..data.read_int()?)\n                    .into_iter()\n                    .map(|_| -> Result<(i64, i32, SchemaObject), TlBufferError> {\n                        let msg_id = data.read_long()?;\n                        let seq_no = data.read_int()?;\n                        let _length = data.read_int()?;\n                        let obj = match read(data) {\n                            Ok(result) => result,\n                            Err(e) => SchemaObject::RpcResult(RpcResult {\n                                req_msg_id: msg_id,\n                                result: Box::new(SchemaObject::RpcError(RpcError {\n                                    error_code: 0,\n                                    error_message: format!(\"deserialization error: {}\", e),\n                                })),\n                            }),\n                        };\n                        Ok((msg_id, seq_no, obj))\n                    })\n                    .collect::<Result<Vec<_>, _>>()?\n            ))\n        },\n");
    push_str(&mut code, "        i => Err(TlBufferError::Custom(format!(\"no reader for {}\", i))),\n");
    push_str(&mut code, "    }\n}");
    code
}


/// The arm of the request dispatcher for the definition `d`: functions are
/// dispatched to their `rpc_` handler; constructors get no arm.
pub open spec fn invoke_arm(d: DefinitionView) -> Seq<char> {
    if d.function {
        "SchemaObject::"@ + struct_name(d.predicate) + "(obj) => Ok(rpc_"@ + function_name(d.predicate)
            + "(session, Message { msg_id: request.0, seq_no: request.1, obj }).await?),\n"@
    } else {
        Seq::empty()
    }
}

/// The request dispatcher of a server: a match on the request object with
/// an arm per schema function.
pub open spec fn invoke_code_spec(defs: Seq<DefinitionView>) -> Seq<char> {
    "use std::sync::Arc;\nuse tokio::sync::Mutex;\nuse std::error::Error;\nuse catte_tl_schema::SchemaObject;\nuse crate::Session;\n\npub struct Message<T> {\n    pub msg_id: i64,\n    pub seq_no: i32,\n    pub obj: T,\n}\n\npub async fn invoke(\n    session: Arc<Mutex<Session>>,\n    request: (i64, i32, SchemaObject),\n) -> Result<SchemaObject, Box<dyn Error + Send + Sync>> {\n    match request.2 {\n        "@ + concat_map(defs, |d: DefinitionView| invoke_arm(d)) + "\n        _ => Err(\"no rpc function\".into())\n    }\n}"@
}

/// The request dispatcher of a server.
pub fn generate_invoke_code(definitions: &Vec<Definition>) -> (r: String)
    ensures
        r@ == invoke_code_spec(defs_view(definitions@)),
{
    let ghost dv = defs_view(definitions@);
    let ghost f = |d: DefinitionView| invoke_arm(d);
    let mut arms = String::new();
    let mut i: usize = 0;
    while i < definitions.len()
        invariant
            dv == defs_view(definitions@),
            f == (|d: DefinitionView| invoke_arm(d)),
            i <= definitions@.len(),
            arms@ == concat_map(dv.take(i as int), f),
        decreases definitions@.len() - i,
    {
        proof {
            lemma_concat_map_step(dv, i as int, f);
        }
        let d = &definitions[i];
        if d.function {
            push_str(&mut arms, "SchemaObject::");
            let ds = rustify_struct_name(&d.predicate);
            push_str(&mut arms, ds.as_str());
            push_str(&mut arms, "(obj) => Ok(rpc_");
            let df = rustify_function_name(&d.predicate);
            push_str(&mut arms, df.as_str());
            push_str(&mut arms, "(session, Message { msg_id: request.0, seq_no: request.1, obj }).await?),\n");
        }
        i = i + 1;
    }
    assert(dv.take(i as int) =~= dv);
    let mut code = String::from_str("use std::sync::Arc;\nuse tokio::sync::Mutex;\nuse std::error::Error;\nuse catte_tl_schema::SchemaObject;\nuse crate::Session;\n\npub struct Message<T> {\n    pub msg_id: i64,\n    pub seq_no: i32,\n    pub obj: T,\n}\n\npub async fn invoke(\n    session: Arc<Mutex<Session>>,\n    request: (i64, i32, SchemaObject),\n) -> Result<SchemaObject, Box<dyn Error + Send + Sync>> {\n    match request.2 {\n        ");
    push_str(&mut code, arms.as_str());
    push_str(&mut code, "\n        _ => Err(\"no rpc function\".into())\n    }\n}");
    code
}


/// Whether a type can be handled by the generator.
fn type_can_compile(t: &TypeDefinition) -> (r: bool)
    ensures
        r == type_ok(t@),
    decreases t,
{
    if t.ty == Type::SCHEMA && t.schema_type.is_none() {
        return false;
    }
    if t.ty == Type::VECTOR {
        match &t.inner {
            Some(b) => type_can_compile(&**b),
            None => false,
        }
    } else {
        true
    }
}

/// Whether every definition can be generated: the requirement of [`compile_schema`].
pub fn can_compile(definitions: &Vec<Definition>) -> (r: bool)
    ensures
        r == defs_ok(defs_view(definitions@)),
{
    let ghost dv = defs_view(definitions@);
    let mut i: usize = 0;
    while i < definitions.len()
        invariant
            dv == defs_view(definitions@),
            i <= definitions@.len(),
            forall|k: int| 0 <= k < i ==> params_ok(#[trigger] dv[k].params) && flag_bits_ok(dv[k].params),
        decreases definitions@.len() - i,
    {
        let ps = &definitions[i].params;
        let ghost pv = dv[i as int].params;
        assert(pv == params_view(ps@));
        let mut j: usize = 0;
        while j < ps.len()
            invariant
                dv == defs_view(definitions@),
                i < definitions@.len(),
                pv == dv[i as int].params,
                pv == params_view(ps@),
                j <= ps@.len(),
                forall|m: int| 0 <= m < j ==> type_ok(#[trigger] pv[m].ty),
            decreases ps@.len() - j,
        {
            assert(pv[j as int] == ps@[j as int]@);
            let ok = type_can_compile(&ps[j].ty);
            if !ok {
                assert(pv[j as int].ty == ps@[j as int].ty@);
                assert(!type_ok(pv[j as int].ty));
                assert(!params_ok(pv));
                assert(!defs_ok(dv)) by {
                    assert(dv[i as int].params == pv);
                }
                return false;
            }
            j = j + 1;
        }
        let mut a: usize = 0;
        while a < ps.len()
            invariant
                dv == defs_view(definitions@),
                i < definitions@.len(),
                pv == dv[i as int].params,
                forall|k: int| 0 <= k < i ==> params_ok(#[trigger] dv[k].params) && flag_bits_ok(dv[k].params),
                params_ok(pv),
                pv == params_view(ps@),
                a <= ps@.len(),
                forall|x: int, y: int|
                    #![trigger pv[x], pv[y]]
                    0 <= x < a && 0 <= y < pv.len() && pv[y].ty.ty == Type::FLAGS && pv[x].ty.flags_name
                        == Some(pv[y].name) ==> pv[x].ty.flags_bit is Some,
            decreases ps@.len() - a,
        {
            assert(pv[a as int] == ps@[a as int]@);
            if ps[a].ty.flags_bit.is_none() {
                match &ps[a].ty.flags_name {
                    Some(n) => {
                        let mut b: usize = 0;
                        while b < ps.len()
                            invariant
                                dv == defs_view(definitions@),
                                i < definitions@.len(),
                                pv == dv[i as int].params,
                                pv == params_view(ps@),
                                a < ps@.len(),
                                b <= ps@.len(),
                                pv[a as int].ty.flags_bit is None,
                                pv[a as int].ty.flags_name == Some(n@),
                                forall|y: int| 0 <= y < b ==> !(pv[y].ty.ty == Type::FLAGS && pv[y].name == n@),
                            decreases ps@.len() - b,
                        {
                            assert(pv[b as int] == ps@[b as int]@);
                            if ps[b].ty.ty == Type::FLAGS && text_eq(ps[b].name.as_str(), n.as_str()) {
                                assert(pv[b as int].ty.ty == Type::FLAGS && pv[a as int].ty.flags_name
                                    == Some(pv[b as int].name));
                                assert(!flag_bits_ok(pv));
                                assert(!defs_ok(dv)) by {
                                    assert(dv[i as int].params == pv);
                                }
                                return false;
                            }
                            b = b + 1;
                        }
                    },
                    None => {},
                }
            }
            a = a + 1;
        }
        i = i + 1;
    }
    true
}

} // verus!
