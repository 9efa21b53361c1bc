//! What each base type of a schema stands for, and how the generated code
//! writes and reads a value of it: the primitive type names map to their own
//! kinds, and each kind has its own buffer call, so that the generated reader
//! of a type reads back what its writer wrote.
use vstd::prelude::*;
use crate::tl_compiler::parser::{Type, TypeDefinitionView, DefinitionView, resolve_type_spec};
use crate::tl_compiler::compiler::{csw_spec, csr_spec, compile_type_spec};

verus! {

/// Each type name of the schema language stands for its own kind: the
/// integer widths, byte strings, doubles, text, booleans, flag bits, flags,
/// vectors (either spelling) and generic objects; every other name is a
/// schema type.
pub proof fn law_base_type_names()
    ensures
        resolve_type_spec("int"@) == Type::INT,
        resolve_type_spec("int128"@) == Type::INT128,
        resolve_type_spec("int256"@) == Type::INT256,
        resolve_type_spec("long"@) == Type::LONG,
        resolve_type_spec("bytes"@) == Type::BYTES,
        resolve_type_spec("double"@) == Type::DOUBLE,
        resolve_type_spec("string"@) == Type::STRING,
        resolve_type_spec("bool"@) == Type::BOOL,
        resolve_type_spec("Bool"@) == Type::BOOL,
        resolve_type_spec("true"@) == Type::BitBool,
        resolve_type_spec("#"@) == Type::FLAGS,
        resolve_type_spec("Vector"@) == Type::VECTOR,
        resolve_type_spec("vector"@) == Type::VECTOR,
        resolve_type_spec("Object"@) == Type::OBJECT,
        resolve_type_spec("X"@) == Type::OBJECT,
        resolve_type_spec("!X"@) == Type::OBJECT,
        forall|t: Seq<char>|
            !(t == "int"@ || t == "int128"@ || t == "int256"@ || t == "long"@ || t == "bytes"@ || t
                == "double"@ || t == "string"@ || t == "bool"@ || t == "Bool"@ || t == "true"@ || t
                == "#"@ || t == "Vector"@ || t == "vector"@ || t == "Object"@ || t == "X"@ || t
                == "!X"@) ==> #[trigger] resolve_type_spec(t) == Type::SCHEMA,
{
    reveal_strlit("int");
    reveal_strlit("int128");
    reveal_strlit("int256");
    reveal_strlit("long");
    reveal_strlit("bytes");
    reveal_strlit("double");
    reveal_strlit("string");
    reveal_strlit("bool");
    reveal_strlit("Bool");
    reveal_strlit("true");
    reveal_strlit("#");
    reveal_strlit("Vector");
    reveal_strlit("vector");
    reveal_strlit("Object");
    reveal_strlit("X");
    reveal_strlit("!X");
    assert("int"@.len() == 3 && "int"@[0] == 'i');
    assert("int128"@.len() == 6 && "int128"@[0] == 'i');
    assert("int256"@.len() == 6 && "int256"@[0] == 'i');
    assert("long"@.len() == 4 && "long"@[0] == 'l');
    assert("bytes"@.len() == 5 && "bytes"@[0] == 'b');
    assert("double"@.len() == 6 && "double"@[0] == 'd');
    assert("string"@.len() == 6 && "string"@[0] == 's');
    assert("bool"@.len() == 4 && "bool"@[0] == 'b');
    assert("Bool"@.len() == 4 && "Bool"@[0] == 'B');
    assert("true"@.len() == 4 && "true"@[0] == 't');
    assert("#"@.len() == 1 && "#"@[0] == '#');
    assert("Vector"@.len() == 6 && "Vector"@[0] == 'V');
    assert("vector"@.len() == 6 && "vector"@[0] == 'v');
    assert("Object"@.len() == 6 && "Object"@[0] == 'O');
    assert("X"@.len() == 1 && "X"@[0] == 'X');
    assert("!X"@.len() == 2 && "!X"@[0] == '!');
    assert("int128"@[3] == '1' && "int256"@[3] == '2');
    assert("bytes"@[1] == 'y' && "bool"@[1] == 'o');
}

/// The statement that writes a plain (not optional) value of a base type
/// calls the buffer's writer of that type on the value: a 32-byte `int256`
/// is written raw, byte strings with their length, text as a string, and
/// so on; by reference where the value is borrowed and of a type written
/// by reference.
pub proof fn law_plain_write_statements(
    t: TypeDefinitionView,
    name: Seq<char>,
    prefix: Seq<char>,
    inner: bool,
    borrow: bool,
)
    requires
        t.flags_name is None || inner,
    ensures
        t.ty == Type::LONG ==> csw_spec(t, name, prefix, inner, borrow) == "bytes_buffer.write_long("@ + prefix
            + name + ")"@,
        t.ty == Type::DOUBLE ==> csw_spec(t, name, prefix, inner, borrow) == "bytes_buffer.write_double("@
            + prefix + name + ")"@,
        (t.ty == Type::INT || t.ty == Type::FLAGS) ==> csw_spec(t, name, prefix, inner, borrow)
            == "bytes_buffer.write_int("@ + prefix + name + ")"@,
        t.ty == Type::BOOL ==> csw_spec(t, name, prefix, inner, borrow) == "bytes_buffer.write_bool("@ + prefix
            + name + ")"@,
        t.ty == Type::INT128 ==> csw_spec(t, name, prefix, inner, borrow) == "bytes_buffer.write_int128("@
            + prefix + name + ")"@,
        t.ty == Type::INT256 && borrow ==> csw_spec(t, name, prefix, inner, borrow) == "bytes_buffer.write_raw("@
            + "&"@ + prefix + name + ")"@,
        t.ty == Type::INT256 && !borrow ==> csw_spec(t, name, prefix, inner, borrow)
            == "bytes_buffer.write_raw("@ + prefix + name + ")"@,
        t.ty == Type::BYTES && borrow ==> csw_spec(t, name, prefix, inner, borrow) == "bytes_buffer.write_bytes("@
            + "&"@ + prefix + name + ")"@,
        t.ty == Type::BYTES && !borrow ==> csw_spec(t, name, prefix, inner, borrow)
            == "bytes_buffer.write_bytes("@ + prefix + name + ")"@,
        t.ty == Type::STRING && borrow ==> csw_spec(t, name, prefix, inner, borrow)
            == "bytes_buffer.write_string("@ + "&"@ + prefix + name + ")"@,
        t.ty == Type::STRING && !borrow ==> csw_spec(t, name, prefix, inner, borrow)
            == "bytes_buffer.write_string("@ + prefix + name + ")"@,
        (t.ty == Type::OBJECT || t.ty == Type::SCHEMA) ==> csw_spec(t, name, prefix, inner, borrow) == prefix
            + name + ".write(bytes_buffer)"@,
{
}

/// The expression that reads a value of a base type calls the buffer's
/// reader of that type: exactly 32 raw bytes for an `int256`, a
/// length-prefixed byte string for `bytes`, and so on, with `?` after it
/// where errors are passed on.
pub proof fn law_plain_read_expressions(
    defs: Seq<DefinitionView>,
    t: TypeDefinitionView,
    propagate_error: bool,
    inside_vector: bool,
)
    ensures
        ({
            let q = if propagate_error {
                "?"@
            } else {
                Seq::<char>::empty()
            };
            let r = csr_spec(defs, t, propagate_error, inside_vector);
            &&& t.ty == Type::LONG ==> r == "bytes_buffer.read_long()"@ + q
            &&& t.ty == Type::DOUBLE ==> r == "bytes_buffer.read_double()"@ + q
            &&& (t.ty == Type::INT || t.ty == Type::FLAGS) ==> r == "bytes_buffer.read_int()"@ + q
            &&& t.ty == Type::BOOL ==> r == "bytes_buffer.read_bool()"@ + q
            &&& t.ty == Type::INT128 ==> r == "bytes_buffer.read_int128()"@ + q
            &&& t.ty == Type::INT256 ==> r == "bytes_buffer.read_raw(32)"@ + q
            &&& t.ty == Type::BYTES ==> r == "bytes_buffer.read_bytes()"@ + q
            &&& t.ty == Type::STRING ==> r == "bytes_buffer.read_string()"@ + q
            &&& t.ty == Type::OBJECT ==> r == "Box::new(read(bytes_buffer)?)"@
        }),
{
    let q = if propagate_error {
        "?"@
    } else {
        Seq::<char>::empty()
    };
    let r = csr_spec(defs, t, propagate_error, inside_vector);
    if !propagate_error {
        match t.ty {
            Type::LONG => assert(r =~= "bytes_buffer.read_long()"@ + q),
            Type::DOUBLE => assert(r =~= "bytes_buffer.read_double()"@ + q),
            Type::INT => assert(r =~= "bytes_buffer.read_int()"@ + q),
            Type::FLAGS => assert(r =~= "bytes_buffer.read_int()"@ + q),
            Type::BOOL => assert(r =~= "bytes_buffer.read_bool()"@ + q),
            Type::INT128 => assert(r =~= "bytes_buffer.read_int128()"@ + q),
            Type::INT256 => assert(r =~= "bytes_buffer.read_raw(32)"@ + q),
            Type::BYTES => assert(r =~= "bytes_buffer.read_bytes()"@ + q),
            Type::STRING => assert(r =~= "bytes_buffer.read_string()"@ + q),
            _ => {},
        }
    }
}

/// The Rust type of a field of each base type: 32-, 128- and 64-bit
/// integers for `int`/flags, `int128` and `long`, bytes for `bytes` and
/// `int256`, text for `string`, a boolean for `Bool` and flag bits, boxed
/// objects for generic objects, and a vector of the element's type for a
/// vector; an optional field (other than a flag bit) is an `Option` of the
/// same type as when it is not optional.
pub proof fn law_field_types(defs: Seq<DefinitionView>, t: TypeDefinitionView)
    ensures
        t.flags_name is None ==> {
            let r = compile_type_spec(defs, t);
            &&& (t.ty == Type::INT || t.ty == Type::FLAGS) ==> r == "i32"@
            &&& t.ty == Type::INT128 ==> r == "i128"@
            &&& t.ty == Type::LONG ==> r == "i64"@
            &&& t.ty == Type::DOUBLE ==> r == "f64"@
            &&& (t.ty == Type::BYTES || t.ty == Type::INT256) ==> r == "Vec<u8>"@
            &&& t.ty == Type::STRING ==> r == "String"@
            &&& (t.ty == Type::BOOL || t.ty == Type::BitBool) ==> r == "bool"@
            &&& t.ty == Type::OBJECT ==> r == "Box<SchemaObject>"@
            &&& (t.ty == Type::VECTOR && t.inner is Some) ==> r == "Vec<"@ + compile_type_spec(defs, *t.inner->0)
                + ">"@
        },
        t.flags_name is Some && t.ty != Type::BitBool ==> compile_type_spec(defs, t) == "Option<"@
            + compile_type_spec(defs, TypeDefinitionView { flags_name: None, ..t }) + ">"@,
        t.ty == Type::BitBool ==> compile_type_spec(defs, t) == "bool"@,
{
    let plain = TypeDefinitionView { flags_name: None, ..t };
    assert(compile_type_spec(defs, plain) == compile_type_spec(defs, plain));
}

} // verus!
