//! Generates the Rust code of an object schema: a struct per definition, its
//! `TlObject` implementation, its reader, and the function that registers
//! every reader.
use vstd::prelude::*;
use crate::text::{
    decimal, decimal_spec, push_str, replace_char, replace_spec, concat_map, lemma_concat_map_step,
};
use crate::object_compiler::parser::{
    Type, TypeDefinition, TypeDefinitionView, ParamView, Definition, DefinitionView, defs_view,
    params_view,
};

verus! {

/// A name with dots replaced by underscores.
pub open spec fn normal_name(name: Seq<char>) -> Seq<char> {
    replace_spec(name, '.', '_')
}

/// A name with dots replaced by underscores.
fn normalize(name: &String) -> (r: String)
    ensures
        r@ == normal_name(name@),
{
    replace_char(name.as_str(), '.', '_')
}

/// A type the generator can handle: schema types are named and vectors have
/// an element type.
pub open spec fn type_ok(t: TypeDefinitionView) -> bool
    decreases t,
{
    &&& (t.ty == Type::SCHEMA ==> t.schema_type is Some)
    &&& (t.ty == Type::VECTOR ==> match t.inner {
        Some(b) => type_ok(*b),
        None => false,
    })
}

/// A type the writer can handle: vectors, at any depth, have an element type.
pub open spec fn write_type_ok(t: TypeDefinitionView) -> bool
    decreases t,
{
    t.ty == Type::VECTOR ==> match t.inner {
        Some(b) => write_type_ok(*b),
        None => false,
    }
}

/// Every parameter has a type the writer can handle.
pub open spec fn write_params_ok(ps: Seq<ParamView>) -> bool {
    forall|i: int| 0 <= i < ps.len() ==> write_type_ok(#[trigger] ps[i].ty)
}

/// What the generator can handle the writer can handle.
pub proof fn lemma_type_ok_writes(t: TypeDefinitionView)
    requires
        type_ok(t),
    ensures
        write_type_ok(t),
    decreases t,
{
    if t.ty == Type::VECTOR {
        lemma_type_ok_writes(*t.inner->0);
    }
}

/// Parameters the generator can handle the writer can handle.
pub proof fn lemma_params_ok_writes(ps: Seq<ParamView>)
    requires
        params_ok(ps),
    ensures
        write_params_ok(ps),
{
    assert forall|i: int| 0 <= i < ps.len() implies write_type_ok(#[trigger] ps[i].ty) by {
        lemma_type_ok_writes(ps[i].ty);
    }
}

/// Every parameter has a type the generator can handle.
pub open spec fn params_ok(ps: Seq<ParamView>) -> bool {
    forall|i: int| 0 <= i < ps.len() ==> type_ok(#[trigger] ps[i].ty)
}

/// The Rust type of a type.
pub open spec fn compile_type_spec(t: TypeDefinitionView) -> Seq<char>
    decreases t,
{
    match t.ty {
        Type::INT => "i32"@,
        Type::INT128 => "i128"@,
        Type::LONG => "i64"@,
        Type::BYTES | Type::INT256 => "&'static [u8]"@,
        Type::OBJECT => "Box<dyn TlObject>"@,
        Type::SCHEMA => normal_name(t.schema_type->0),
        Type::VECTOR => match t.inner {
            Some(b) => "Vec<"@ + compile_type_spec(*b) + ">"@,
            None => Seq::empty(),
        },
        _ => "/* ERROR: Compilation failed */"@,
    }
}

/// The Rust type of a type.
fn compile_type(t: &TypeDefinition) -> (r: String)
    requires
        type_ok(t@),
    ensures
        r@ == compile_type_spec(t@),
    decreases t,
{
    match t.ty {
        Type::INT => String::from_str("i32"),
        Type::INT128 => String::from_str("i128"),
        Type::LONG => String::from_str("i64"),
        Type::BYTES | Type::INT256 => String::from_str("&'static [u8]"),
        Type::OBJECT => String::from_str("Box<dyn TlObject>"),
        Type::SCHEMA => match &t.schema_type {
            Some(s) => normalize(s),
            None => {
                assert(false);
                String::new()
            },
        },
        Type::VECTOR => match &t.inner {
            Some(b) => {
                let inner = compile_type(&**b);
                let mut r = String::from_str("Vec<");
                push_str(&mut r, inner.as_str());
                push_str(&mut r, ">");
                r
            },
            None => {
                assert(false);
                String::new()
            },
        },
        _ => String::from_str("/* ERROR: Compilation failed */"),
    }
}

/// The field of the struct for parameter `p`.
pub open spec fn struct_field(p: ParamView) -> Seq<char> {
    "pub "@ + p.name + ": "@ + compile_type_spec(p.ty) + ",\n"@
}

/// The struct of a definition, with a field per parameter.
pub open spec fn compile_struct_spec(d: DefinitionView) -> Seq<char> {
    "#[allow(non_camel_case_types)]\n"@ + "#[derive(Debug, Default)]\n"@ + "pub struct "@ + normal_name(
        d.predicate,
    ) + " {\n"@ + concat_map(d.params, |p: ParamView| struct_field(p)) + "}"@
}

/// The struct of a definition.
pub fn compile_struct(definition: &Definition) -> (r: String)
    requires
        params_ok(definition@.params),
    ensures
        r@ == compile_struct_spec(definition@),
{
    let ghost all = definition@.params;
    let ghost f = |p: ParamView| struct_field(p);
    let mut fields = String::new();
    let mut i: usize = 0;
    while i < definition.params.len()
        invariant
            all == definition@.params,
            all == params_view(definition.params@),
            params_ok(all),
            f == (|p: ParamView| struct_field(p)),
            i <= definition.params@.len(),
            fields@ == concat_map(all.take(i as int), f),
        decreases definition.params@.len() - i,
    {
        proof {
            lemma_concat_map_step(all, i as int, f);
        }
        assert(all[i as int] == definition.params@[i as int]@);
        assert(type_ok(all[i as int].ty));
        let p = &definition.params[i];
        push_str(&mut fields, "pub ");
        push_str(&mut fields, p.name.as_str());
        push_str(&mut fields, ": ");
        let t = compile_type(&p.ty);
        push_str(&mut fields, t.as_str());
        push_str(&mut fields, ",\n");
        i = i + 1;
    }
    assert(all.take(i as int) =~= all);
    let name = normalize(&definition.predicate);
    let mut code = String::from_str("#[allow(non_camel_case_types)]\n");
    push_str(&mut code, "#[derive(Debug, Default)]\n");
    push_str(&mut code, "pub struct ");
    push_str(&mut code, name.as_str());
    push_str(&mut code, " {\n");
    push_str(&mut code, fields.as_str());
    push_str(&mut code, "}");
    code
}

/// The statement that writes the value `name` of type `t`; a vector writes
/// its header and length, then each element.
pub open spec fn csw_spec(t: TypeDefinitionView, name: Seq<char>) -> Seq<char>
    decreases t,
{
    match t.ty {
        Type::LONG => "data.write_long("@ + name + ")"@,
        Type::INT => "data.write_int("@ + name + ")"@,
        Type::INT128 => "data.write_int128("@ + name + ")"@,
        Type::INT256 => "data.write_raw("@ + name + ")"@,
        Type::BYTES => "data.write_bytes("@ + name + ")"@,
        Type::VECTOR => match t.inner {
            Some(b) => "{\n    data.write_int(0x1cb5c415);\n    data.write_int("@ + name
                + ".len() as i32);\n    for element in &"@ + name + " {\n        "@ + csw_spec(
                *b,
                "*element"@,
            ) + ";\n    }\n}"@,
            None => Seq::empty(),
        },
        Type::SCHEMA => name + ".write(data)"@,
        _ => "/* ERROR: Compilation failed */"@,
    }
}

/// The statement that writes the value `name` of type `t`.
fn compile_single_write(t: &TypeDefinition, name: &str) -> (r: String)
    requires
        write_type_ok(t@),
    ensures
        r@ == csw_spec(t@, name@),
    decreases t,
{
    let open = match t.ty {
        Type::LONG => "data.write_long(",
        Type::INT => "data.write_int(",
        Type::INT128 => "data.write_int128(",
        Type::INT256 => "data.write_raw(",
        Type::BYTES => "data.write_bytes(",
        Type::VECTOR => {
            let b = match &t.inner {
                Some(b) => b,
                None => {
                    assert(false);
                    return String::new();
                },
            };
            let element = compile_single_write(&**b, "*element");
            let mut r = String::from_str("{\n    data.write_int(0x1cb5c415);\n    data.write_int(");
            push_str(&mut r, name);
            push_str(&mut r, ".len() as i32);\n    for element in &");
            push_str(&mut r, name);
            push_str(&mut r, " {\n        ");
            push_str(&mut r, element.as_str());
            push_str(&mut r, ";\n    }\n}");
            return r;
        },
        Type::SCHEMA => {
            let mut r = String::from_str(name);
            push_str(&mut r, ".write(data)");
            return r;
        },
        _ => {
            return String::from_str("/* ERROR: Compilation failed */");
        },
    };
    let mut r = String::from_str(open);
    push_str(&mut r, name);
    push_str(&mut r, ")");
    r
}

/// The expression that reads a value of type `t`; a vector reads its
/// header (or takes it as the length when it is not the vector constructor
/// number), then each element.
pub open spec fn csr_spec(t: TypeDefinitionView) -> Seq<char>
    decreases t,
{
    match t.ty {
        Type::LONG => "data.read_long()?"@,
        Type::INT => "data.read_int()?"@,
        Type::INT128 => "data.read_int128()?"@,
        Type::INT256 => "data.read_raw(32)?"@,
        Type::BYTES => "data.read_bytes()?"@,
        Type::VECTOR => match t.inner {
            Some(b) => "{\n    let mut vector_data = vec![];\n    let vector_header = data.read_int()?;\n    let length = if vector_header == 0x1cb5c415 {\n        data.read_int()?\n    } else {\n        vector_header\n    };\n\n    for _ in 0..length {\n        let value = "@
                + csr_spec(*b) + ";\n        vector_data.push(value);\n    }\n\n    vector_data\n}"@,
            None => Seq::empty(),
        },
        Type::SCHEMA => "read_"@ + t.schema_type->0 + "(data)"@,
        _ => "/* ERROR: Compilation failed */"@,
    }
}

/// The expression that reads a value of type `t`.
fn compile_single_read(t: &TypeDefinition) -> (r: String)
    requires
        type_ok(t@),
    ensures
        r@ == csr_spec(t@),
    decreases t,
{
    match t.ty {
        Type::LONG => String::from_str("data.read_long()?"),
        Type::INT => String::from_str("data.read_int()?"),
        Type::INT128 => String::from_str("data.read_int128()?"),
        Type::INT256 => String::from_str("data.read_raw(32)?"),
        Type::BYTES => String::from_str("data.read_bytes()?"),
        Type::VECTOR => match &t.inner {
            Some(b) => {
                let element = compile_single_read(&**b);
                let mut r = String::from_str("{\n    let mut vector_data = vec![];\n    let vector_header = data.read_int()?;\n    let length = if vector_header == 0x1cb5c415 {\n        data.read_int()?\n    } else {\n        vector_header\n    };\n\n    for _ in 0..length {\n        let value = ");
                push_str(&mut r, element.as_str());
                push_str(&mut r, ";\n        vector_data.push(value);\n    }\n\n    vector_data\n}");
                r
            },
            None => {
                assert(false);
                String::new()
            },
        },
        Type::SCHEMA => match &t.schema_type {
            Some(s) => {
                let mut r = String::from_str("read_");
                push_str(&mut r, s.as_str());
                push_str(&mut r, "(data)");
                r
            },
            None => {
                assert(false);
                String::new()
            },
        },
        _ => String::from_str("/* ERROR: Compilation failed */"),
    }
}

/// The statement that writes parameter `p` from `self`.
pub open spec fn param_write(p: ParamView) -> Seq<char> {
    csw_spec(p.ty, "self."@ + p.name) + ";\n"@
}

/// The body of a `write` method: the constructor number, then each parameter.
pub open spec fn compile_writer_spec(d: DefinitionView) -> Seq<char> {
    "data.write_int("@ + decimal_spec(d.id as int) + ");\n"@ + concat_map(
        d.params,
        |p: ParamView| param_write(p),
    )
}

/// The body of the `write` method of a definition.
pub fn compile_writer(definition: &Definition) -> (r: String)
    requires
        write_params_ok(definition@.params),
    ensures
        r@ == compile_writer_spec(definition@),
{
    let ghost all = definition@.params;
    let ghost f = |p: ParamView| param_write(p);
    let mut code = String::from_str("data.write_int(");
    let dec = decimal(definition.id as i64);
    push_str(&mut code, dec.as_str());
    push_str(&mut code, ");\n");
    let ghost head = code@;
    let mut writes = String::new();
    let mut i: usize = 0;
    while i < definition.params.len()
        invariant
            all == definition@.params,
            all == params_view(definition.params@),
            write_params_ok(all),
            f == (|p: ParamView| param_write(p)),
            i <= definition.params@.len(),
            writes@ == concat_map(all.take(i as int), f),
        decreases definition.params@.len() - i,
    {
        proof {
            lemma_concat_map_step(all, i as int, f);
        }
        assert(all[i as int] == definition.params@[i as int]@);
        assert(write_type_ok(all[i as int].ty));
        let p = &definition.params[i];
        let mut field = String::from_str("self.");
        push_str(&mut field, p.name.as_str());
        let mut w = compile_single_write(&p.ty, field.as_str());
        push_str(&mut w, ";\n");
        push_str(&mut writes, w.as_str());
        i = i + 1;
    }
    assert(all.take(i as int) =~= all);
    push_str(&mut code, writes.as_str());
    code
}

/// The `TlObject` implementation of a definition: its number as the hash and
/// its writer.
pub open spec fn compile_tlobject_impl_spec(d: DefinitionView) -> Seq<char> {
    "impl TlObject for "@ + normal_name(d.predicate) + " {\n    fn hash(&self) -> i32 {\n        "@
        + decimal_spec(d.id as int) + "\n    }\n    fn write(&self, data: &mut BytesBuffer) {\n        "@
        + compile_writer_spec(d) + "\n    }\n}"@
}

/// The `TlObject` implementation of a definition.
pub fn compile_tlobject_impl(definition: &Definition) -> (r: String)
    requires
        params_ok(definition@.params),
    ensures
        r@ == compile_tlobject_impl_spec(definition@),
{
    let mut code = String::from_str("impl TlObject for ");
    let name = normalize(&definition.predicate);
    push_str(&mut code, name.as_str());
    push_str(&mut code, " {\n    fn hash(&self) -> i32 {\n        ");
    let dec = decimal(definition.id as i64);
    push_str(&mut code, dec.as_str());
    push_str(&mut code, "\n    }\n    fn write(&self, data: &mut BytesBuffer) {\n        ");
    proof {
        lemma_params_ok_writes(definition@.params);
    }
    let writer = compile_writer(definition);
    push_str(&mut code, writer.as_str());
    push_str(&mut code, "\n    }\n}");
    code
}

/// The statement that reads parameter `p` into the object.
pub open spec fn param_read(p: ParamView) -> Seq<char> {
    "obj."@ + p.name + " = "@ + csr_spec(p.ty) + ";\n"@
}

/// The reader of a definition: a default object whose fields are read one
/// after another.
pub open spec fn compile_reader_spec(d: DefinitionView) -> Seq<char> {
    let n = normal_name(d.predicate);
    "#[allow(non_snake_case)]\n"@ + "pub fn read_"@ + n + "(data: &mut BytesBuffer) -> Result<"@ + n
        + ", TlError> {\n"@ + "let mut obj = "@ + n + "::default();\n"@ + concat_map(
        d.params,
        |p: ParamView| param_read(p),
    ) + "Ok(obj)\n"@ + "}\n"@
}

/// The reader of a definition.
pub fn compile_reader(definition: &Definition) -> (r: String)
    requires
        params_ok(definition@.params),
    ensures
        r@ == compile_reader_spec(definition@),
{
    let ghost all = definition@.params;
    let ghost f = |p: ParamView| param_read(p);
    let mut reads = String::new();
    let mut i: usize = 0;
    while i < definition.params.len()
        invariant
            all == definition@.params,
            all == params_view(definition.params@),
            params_ok(all),
            f == (|p: ParamView| param_read(p)),
            i <= definition.params@.len(),
            reads@ == concat_map(all.take(i as int), f),
        decreases definition.params@.len() - i,
    {
        proof {
            lemma_concat_map_step(all, i as int, f);
        }
        assert(all[i as int] == definition.params@[i as int]@);
        assert(type_ok(all[i as int].ty));
        let p = &definition.params[i];
        push_str(&mut reads, "obj.");
        push_str(&mut reads, p.name.as_str());
        push_str(&mut reads, " = ");
        let rd = compile_single_read(&p.ty);
        push_str(&mut reads, rd.as_str());
        push_str(&mut reads, ";\n");
        i = i + 1;
    }
    assert(all.take(i as int) =~= all);
    let name = normalize(&definition.predicate);
    let mut code = String::from_str("#[allow(non_snake_case)]\n");
    push_str(&mut code, "pub fn read_");
    push_str(&mut code, name.as_str());
    push_str(&mut code, "(data: &mut BytesBuffer) -> Result<");
    push_str(&mut code, name.as_str());
    push_str(&mut code, ", TlError> {\n");
    push_str(&mut code, "let mut obj = ");
    push_str(&mut code, name.as_str());
    push_str(&mut code, "::default();\n");
    push_str(&mut code, reads.as_str());
    push_str(&mut code, "Ok(obj)\n");
    push_str(&mut code, "}\n");
    code
}

/// The registration of the reader of definition `d`.
pub open spec fn reader_registration(d: DefinitionView) -> Seq<char> {
    "reader.add_reader("@ + decimal_spec(d.id as int) + ", |data| read_"@ + normal_name(d.predicate)
        + "(data).map(|o| Box::new(o) as Box<dyn TlObject>));\n"@
}

/// The function that registers the reader of every definition with a `TlReader`.
pub open spec fn compile_extend_reader_spec(defs: Seq<DefinitionView>) -> Seq<char> {
    "pub fn extend_reader(reader: &mut TlReader) {\n"@ + concat_map(
        defs,
        |d: DefinitionView| reader_registration(d),
    ) + "}"@
}

/// The function that registers the reader of every definition.
pub fn compile_extend_reader(definitions: &Vec<Definition>) -> (r: String)
    ensures
        r@ == compile_extend_reader_spec(defs_view(definitions@)),
{
    let ghost dv = defs_view(definitions@);
    let ghost f = |d: DefinitionView| reader_registration(d);
    let mut regs = String::new();
    let mut i: usize = 0;
    while i < definitions.len()
        invariant
            dv == defs_view(definitions@),
            f == (|d: DefinitionView| reader_registration(d)),
            i <= definitions@.len(),
            regs@ == concat_map(dv.take(i as int), f),
        decreases definitions@.len() - i,
    {
        proof {
            lemma_concat_map_step(dv, i as int, f);
        }
        let d = &definitions[i];
        push_str(&mut regs, "reader.add_reader(");
        let dec = decimal(d.id as i64);
        push_str(&mut regs, dec.as_str());
        push_str(&mut regs, ", |data| read_");
        let name = normalize(&d.predicate);
        push_str(&mut regs, name.as_str());
        push_str(&mut regs, "(data).map(|o| Box::new(o) as Box<dyn TlObject>));\n");
        i = i + 1;
    }
    assert(dv.take(i as int) =~= dv);
    let mut code = String::from_str("pub fn extend_reader(reader: &mut TlReader) {\n");
    push_str(&mut code, regs.as_str());
    push_str(&mut code, "}");
    code
}


/// Every definition's parameter types can be handled.
pub open spec fn defs_ok(defs: Seq<DefinitionView>) -> bool {
    forall|i: int| 0 <= i < defs.len() ==> params_ok(#[trigger] defs[i].params)
}

/// The code of one definition: its struct, its `TlObject` implementation and its reader.
pub open spec fn definition_code(d: DefinitionView) -> Seq<char> {
    compile_struct_spec(d) + "\n"@ + compile_tlobject_impl_spec(d) + "\n"@ + compile_reader_spec(d)
        + "\n\n"@
}

/// The Rust module of an object schema: a header with its imports, the code
/// of each definition, and the function that registers every reader.
pub open spec fn compile_module_spec(defs: Seq<DefinitionView>) -> Seq<char> {
    "// This is a file generated by cattlc, do not modify unless you know what you are doing.\n\n"@
        + "use core::any::Any;\n"@ + "use crate::tl_object::TlObject;\n"@
        + "use crate::tl_object::add_reader;\n"@ + "use crate::bytes_buffer::BytesBuffer;\n\n"@
        + concat_map(defs, |d: DefinitionView| definition_code(d)) + compile_extend_reader_spec(defs)
        + "\n"@
}

/// The code of one definition.
fn definition_text(d: &Definition) -> (r: String)
    requires
        params_ok(d@.params),
    ensures
        r@ == definition_code(d@),
{
    let mut r = compile_struct(d);
    push_str(&mut r, "\n");
    let imp = compile_tlobject_impl(d);
    push_str(&mut r, imp.as_str());
    push_str(&mut r, "\n");
    let rd = compile_reader(d);
    push_str(&mut r, rd.as_str());
    push_str(&mut r, "\n\n");
    r
}

/// The Rust module of an object schema.
pub fn compile_module(definitions: &Vec<Definition>) -> (r: String)
    requires
        defs_ok(defs_view(definitions@)),
    ensures
        r@ == compile_module_spec(defs_view(definitions@)),
{
    let ghost dv = defs_view(definitions@);
    let ghost f = |d: DefinitionView| definition_code(d);
    let mut body = String::new();
    let mut i: usize = 0;
    while i < definitions.len()
        invariant
            dv == defs_view(definitions@),
            defs_ok(dv),
            f == (|d: DefinitionView| definition_code(d)),
            i <= definitions@.len(),
            body@ == concat_map(dv.take(i as int), f),
        decreases definitions@.len() - i,
    {
        proof {
            lemma_concat_map_step(dv, i as int, f);
        }
        assert(dv[i as int] == definitions@[i as int]@);
        assert(params_ok(dv[i as int].params));
        let code = definition_text(&definitions[i]);
        push_str(&mut body, code.as_str());
        i = i + 1;
    }
    assert(dv.take(i as int) =~= dv);
    let mut code = String::from_str(
        "// This is a file generated by cattlc, do not modify unless you know what you are doing.\n\n",
    );
    push_str(&mut code, "use core::any::Any;\n");
    push_str(&mut code, "use crate::tl_object::TlObject;\n");
    push_str(&mut code, "use crate::tl_object::add_reader;\n");
    push_str(&mut code, "use crate::bytes_buffer::BytesBuffer;\n\n");
    push_str(&mut code, body.as_str());
    let ext = compile_extend_reader(definitions);
    push_str(&mut code, ext.as_str());
    push_str(&mut code, "\n");
    code
}


/// Whether a type can be handled by the generator.
fn type_can_compile(t: &TypeDefinition) -> (r: bool)
    ensures
        r == type_ok(t@),
    decreases t,
{
    if t.ty == Type::SCHEMA && t.schema_type.is_none() {
        return false;
    }
    if t.ty == Type::VECTOR {
        match &t.inner {
            Some(b) => type_can_compile(&**b),
            None => false,
        }
    } else {
        true
    }
}

/// Whether every definition can be generated: the requirement of [`compile_module`].
pub fn can_compile(definitions: &Vec<Definition>) -> (r: bool)
    ensures
        r == defs_ok(defs_view(definitions@)),
{
    let ghost dv = defs_view(definitions@);
    let mut i: usize = 0;
    while i < definitions.len()
        invariant
            dv == defs_view(definitions@),
            i <= definitions@.len(),
            forall|k: int| 0 <= k < i ==> params_ok(#[trigger] dv[k].params),
        decreases definitions@.len() - i,
    {
        let ps = &definitions[i].params;
        let ghost pv = dv[i as int].params;
        assert(pv == params_view(ps@));
        let mut j: usize = 0;
        while j < ps.len()
            invariant
                dv == defs_view(definitions@),
                i < definitions@.len(),
                pv == dv[i as int].params,
                pv == params_view(ps@),
                j <= ps@.len(),
                forall|m: int| 0 <= m < j ==> type_ok(#[trigger] pv[m].ty),
            decreases ps@.len() - j,
        {
            assert(pv[j as int] == ps@[j as int]@);
            let ok = type_can_compile(&ps[j].ty);
            if !ok {
                assert(pv[j as int].ty == ps@[j as int].ty@);
                assert(!type_ok(pv[j as int].ty));
                assert(!params_ok(pv));
                assert(!defs_ok(dv)) by {
                    assert(dv[i as int].params == pv);
                }
                return false;
            }
            j = j + 1;
        }
        i = i + 1;
    }
    true
}

} // verus!
