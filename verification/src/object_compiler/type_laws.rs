//! What each type name of the object schema stands for, how a vector
//! parameter is read from its tokens, and how the generated code writes and
//! reads a value of each base type.
use vstd::prelude::*;
use crate::object_compiler::parser::{
    Type, TypeDefinitionView, ParamView, ParseState, DefinitionView, resolve_type_spec, named_type,
    parse_token,
};
use crate::object_compiler::compiler::{csw_spec, csr_spec, compile_type_spec};

verus! {

/// Each type name of the object schema stands for its own kind: the integer
/// widths, byte strings and vectors (either spelling); every other name is a
/// schema type.
pub proof fn law_object_type_names()
    ensures
        resolve_type_spec("int"@) == Type::INT,
        resolve_type_spec("int128"@) == Type::INT128,
        resolve_type_spec("long"@) == Type::LONG,
        resolve_type_spec("bytes"@) == Type::BYTES,
        resolve_type_spec("Vector"@) == Type::VECTOR,
        resolve_type_spec("vector"@) == Type::VECTOR,
        forall|t: Seq<char>|
            !(t == "int"@ || t == "int128"@ || t == "long"@ || t == "bytes"@ || t == "Vector"@ || t
                == "vector"@) ==> #[trigger] resolve_type_spec(t) == Type::SCHEMA,
{
    reveal_strlit("int");
    reveal_strlit("int128");
    reveal_strlit("long");
    reveal_strlit("bytes");
    reveal_strlit("Vector");
    reveal_strlit("vector");
    assert("int"@.len() == 3 && "int"@[0] == 'i');
    assert("int128"@.len() == 6 && "int128"@[0] == 'i');
    assert("long"@.len() == 4 && "long"@[0] == 'l');
    assert("bytes"@.len() == 5 && "bytes"@[0] == 'b');
    assert("Vector"@.len() == 6 && "Vector"@[0] == 'V');
    assert("vector"@.len() == 6 && "vector"@[0] == 'v');
}

/// A parameter `name:vector<T>` or `name:Vector<T>` is read as a vector whose
/// element type is that of `T`, two tokens further on, and the parser goes
/// on after the closing bracket; both spellings read the same parameter.
pub proof fn law_vector_parameter(src: Seq<Seq<char>>, i: int, st: ParseState)
    requires
        1 <= i,
        i + 3 < src.len(),
        src[i] == ":"@,
        src[i + 1] == "vector"@ || src[i + 1] == "Vector"@,
    ensures
        parse_token(src, i, st) == Some(
            (
                ParseState {
                    definition: DefinitionView {
                        params: st.definition.params.push(
                            ParamView {
                                name: src[i - 1],
                                ty: TypeDefinitionView {
                                    ty: Type::VECTOR,
                                    inner: Some(Box::new(named_type(src[i + 3]))),
                                    schema_type: None,
                                },
                            },
                        ),
                        ..st.definition
                    },
                    ..st
                },
                i + 5,
            ),
        ),
{
    law_object_type_names();
    reveal_strlit(":");
    reveal_strlit(";");
    assert(":"@[0] != ";"@[0]);
}

/// The statement that writes a value of a base type calls the buffer's
/// writer of that type on it: a 32-byte `int256` is written raw, a byte
/// string with its length, and so on.
pub proof fn law_object_write_statements(t: TypeDefinitionView, name: Seq<char>)
    ensures
        t.ty == Type::LONG ==> csw_spec(t, name) == "data.write_long("@ + name + ")"@,
        t.ty == Type::INT ==> csw_spec(t, name) == "data.write_int("@ + name + ")"@,
        t.ty == Type::INT128 ==> csw_spec(t, name) == "data.write_int128("@ + name + ")"@,
        t.ty == Type::INT256 ==> csw_spec(t, name) == "data.write_raw("@ + name + ")"@,
        t.ty == Type::BYTES ==> csw_spec(t, name) == "data.write_bytes("@ + name + ")"@,
        t.ty == Type::SCHEMA ==> csw_spec(t, name) == name + ".write(data)"@,
{
}

/// The expression that reads a value of a base type calls the buffer's
/// reader of that type: exactly 32 raw bytes for an `int256`, a
/// length-prefixed byte string for `bytes`, and so on.
pub proof fn law_object_read_expressions(t: TypeDefinitionView)
    ensures
        t.ty == Type::LONG ==> csr_spec(t) == "data.read_long()?"@,
        t.ty == Type::INT ==> csr_spec(t) == "data.read_int()?"@,
        t.ty == Type::INT128 ==> csr_spec(t) == "data.read_int128()?"@,
        t.ty == Type::INT256 ==> csr_spec(t) == "data.read_raw(32)?"@,
        t.ty == Type::BYTES ==> csr_spec(t) == "data.read_bytes()?"@,
{
}

/// The Rust type of a field of each base type of the object schema: 32-,
/// 128- and 64-bit integers, static byte slices for `bytes` and `int256`,
/// and a vector of the element's type for a vector.
pub proof fn law_object_field_types(t: TypeDefinitionView)
    ensures
        t.ty == Type::INT ==> compile_type_spec(t) == "i32"@,
        t.ty == Type::INT128 ==> compile_type_spec(t) == "i128"@,
        t.ty == Type::LONG ==> compile_type_spec(t) == "i64"@,
        (t.ty == Type::BYTES || t.ty == Type::INT256) ==> compile_type_spec(t) == "&'static [u8]"@,
        (t.ty == Type::VECTOR && t.inner is Some) ==> compile_type_spec(t) == "Vec<"@ + compile_type_spec(
            *t.inner->0,
        ) + ">"@,
{
}

} // verus!
