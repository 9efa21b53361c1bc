//! What the schema compiler promises across its stages: the definitions
//! the parser reads can be generated, unless a vector's element type is
//! itself a vector; the parser marks exactly the types with several
//! constructors; and the generated module and object enum hold every part
//! the definitions call for.
use vstd::prelude::*;
use crate::tl_compiler::parser::{
    Type, TypeDefinitionView, ParamView, DefinitionView, ParseState, parse_token, parse_from,
    parse_raw, parse_spec, param_type, flags_condition, strip_raw, resolve_type_spec, mark_type,
    mark_param, mark_variants, variant_keys, variant_keys_upto, empty_definition, members,
    constructs, variants_spec,
};
use crate::tl_compiler::compiler::{type_ok, params_ok, flag_bits_ok, defs_ok, struct_name,
    object_case, object_variant_case, object_write_arm, object_variant_write_arm, vector_write_arm,
    raw_vector_write_arm, container_write_arm, error_write_arm, compile_schema_object_spec,
    compile_schema_spec, compile_struct_spec, object_head, object_middle, object_tail,
    vector_case, error_case, raw_vector_case, container_case, compile_reader_spec, compile_variant_enum_spec,
    compile_variant_reader_spec, definition_code, variant_enum_code, variant_reader_code,
    object_read_arm, container_read_arm, fallback_read_arm, function_name};
use crate::text::{concat_all, concat_map, join_map, lemma_concat_map_all, lemma_concat_all_append,
    lemma_concat_all_four, contains_text, lemma_contains_self, lemma_contains_within,
    lemma_concat_map_contains, lemma_join_map_contains, lemma_contains_trans, lemma_concat_map_step,
    decimal_spec};

verus! {

/// No parameter type announces a vector whose element type is a vector.
pub open spec fn no_nested_vectors(src: Seq<Seq<char>>) -> bool {
    forall|j: int|
        0 <= j && j + 2 < src.len() && #[trigger] flags_condition(src[j]) is Some && resolve_type_spec(
            (flags_condition(src[j])->0).1,
        ) == Type::VECTOR ==> resolve_type_spec(strip_raw(src[j + 2]).0) != Type::VECTOR
}

/// A parameter the parser builds: a handled type whose flags name comes
/// with its bit.
pub open spec fn param_good(p: ParamView) -> bool {
    type_ok(p.ty) && (p.ty.flags_name is Some ==> p.ty.flags_bit is Some)
}

/// Every parameter of the list is one the parser builds.
pub open spec fn params_good(ps: Seq<ParamView>) -> bool {
    forall|k: int| 0 <= k < ps.len() ==> param_good(#[trigger] ps[k])
}

/// Every definition of the parser's state, finished or not, has good parameters.
pub open spec fn state_good(st: ParseState) -> bool {
    params_good(st.definition.params) && forall|k: int|
        0 <= k < st.definitions.len() ==> params_good(#[trigger] st.definitions[k].params)
}

/// One token keeps the parser's state good.
proof fn lemma_token_keeps_good(src: Seq<Seq<char>>, i: int, st: ParseState)
    requires
        0 <= i < src.len(),
        state_good(st),
        no_nested_vectors(src),
        parse_token(src, i, st) is Some,
    ensures
        state_good((parse_token(src, i, st)->0).0),
{
    let token = src[i];
    let st2 = (parse_token(src, i, st)->0).0;
    if token == "---functions---"@ {
    } else if token == ";"@ {
        assert(params_good(empty_definition().params));
        assert forall|k: int| 0 <= k < st2.definitions.len() implies params_good(
            #[trigger] st2.definitions[k].params,
        ) by {
            if k < st.definitions.len() {
                assert(st2.definitions[k] == st.definitions[k]);
            }
        }
    } else if token == "="@ {
    } else if token == ":"@ {
        let (flags, t) = flags_condition(src[i + 1])->0;
        let (typedef, j) = param_type(src, i + 1, flags, t)->0;
        assert(type_ok(typedef)) by {
            if typedef.ty == Type::VECTOR {
                let b = *typedef.inner->0;
                assert(resolve_type_spec(strip_raw(src[i + 3]).0) != Type::VECTOR);
                assert(type_ok(b));
            }
        }
        let p = ParamView { name: src[i - 1], ty: typedef };
        assert(param_good(p));
        assert forall|k: int| 0 <= k < st2.definition.params.len() implies param_good(
            #[trigger] st2.definition.params[k],
        ) by {
            if k < st.definition.params.len() {
                assert(st2.definition.params[k] == st.definition.params[k]);
            }
        }
    } else if token == "#"@ {
    } else {
    }
}

/// Parsing from a good state yields definitions with good parameters.
proof fn lemma_parse_from_good(src: Seq<Seq<char>>, i: int, st: ParseState)
    requires
        state_good(st),
        no_nested_vectors(src),
        parse_from(src, i, st) is Some,
    ensures
        forall|k: int|
            0 <= k < parse_from(src, i, st)->0.len() ==> params_good(
                #[trigger] parse_from(src, i, st)->0[k].params,
            ),
    decreases src.len() - i,
{
    if i < 0 || i >= src.len() {
    } else {
        let (st2, i2) = parse_token(src, i, st)->0;
        lemma_token_keeps_good(src, i, st);
        if i2 > i && i2 < src.len() {
            lemma_parse_from_good(src, i2, st2);
        }
    }
}

/// Marking variants changes no type's shape and no flags.
proof fn lemma_mark_keeps_good(p: ParamView, keys: Seq<Seq<char>>)
    requires
        param_good(p),
    ensures
        param_good(mark_param(p, keys)),
{
    let t = mark_type(p.ty, keys);
    assert(t.ty == p.ty.ty && t.inner == p.ty.inner && t.schema_type == p.ty.schema_type);
    assert(type_ok(t));
    if t.ty == Type::VECTOR {
        let b = *t.inner->0;
        let mb = mark_type(b, keys);
        assert(type_ok(b));
        assert(mb.ty == b.ty && mb.inner == b.inner && mb.schema_type == b.schema_type);
        assert(type_ok(mb));
    }
}

/// The definitions the parser reads from tokens can all be generated by
/// the compiler, when no vector's element type is a vector.
pub proof fn law_parsed_schema_compiles(src: Seq<Seq<char>>)
    requires
        parse_spec(src) is Some,
        no_nested_vectors(src),
    ensures
        defs_ok(parse_spec(src)->0),
{
    let st0 = ParseState { definition: empty_definition(), definitions: Seq::empty(), functions: false };
    assert(state_good(st0));
    lemma_parse_from_good(src, 0, st0);
    let raw = parse_raw(src)->0;
    let keys = variant_keys(raw);
    let defs = mark_variants(raw, keys);
    assert forall|k: int| 0 <= k < defs.len() implies params_ok(#[trigger] defs[k].params) && flag_bits_ok(
        defs[k].params,
    ) by {
        let ps = defs[k].params;
        assert(params_good(raw[k].params));
        assert forall|m: int| 0 <= m < ps.len() implies param_good(#[trigger] ps[m]) by {
            lemma_mark_keeps_good(raw[k].params[m], keys);
        }
        assert forall|m: int| 0 <= m < ps.len() implies type_ok(#[trigger] ps[m].ty) by {
            assert(param_good(ps[m]));
        }
        assert forall|x: int, y: int|
            #![trigger ps[x], ps[y]]
            0 <= x < ps.len() && 0 <= y < ps.len() && ps[y].ty.ty == Type::FLAGS && ps[x].ty.flags_name
                == Some(ps[y].name) implies ps[x].ty.flags_bit is Some by {
            assert(param_good(ps[x]));
        }
    }
}

/// A definition as the parser builds it before marking: no result type,
/// parameter type or element type is marked as a variant.
pub open spec fn unmarked(d: DefinitionView) -> bool {
    &&& !d.return_type.variant
    &&& forall|j: int|
        0 <= j < d.params.len() ==> !(#[trigger] d.params[j]).ty.variant && (d.params[j].ty.inner matches Some(
            b,
        ) ==> !b.variant)
}

/// Every definition of the parser's state, finished or not, is unmarked.
pub open spec fn state_unmarked(st: ParseState) -> bool {
    unmarked(st.definition) && forall|k: int|
        0 <= k < st.definitions.len() ==> unmarked(#[trigger] st.definitions[k])
}

/// One token keeps the parser's state unmarked.
proof fn lemma_token_keeps_unmarked(src: Seq<Seq<char>>, i: int, st: ParseState)
    requires
        0 <= i < src.len(),
        state_unmarked(st),
        parse_token(src, i, st) is Some,
    ensures
        state_unmarked((parse_token(src, i, st)->0).0),
{
    let token = src[i];
    let st2 = (parse_token(src, i, st)->0).0;
    if token == "---functions---"@ {
    } else if token == ";"@ {
        assert(unmarked(empty_definition()));
        assert forall|k: int| 0 <= k < st2.definitions.len() implies unmarked(
            #[trigger] st2.definitions[k],
        ) by {
            if k < st.definitions.len() {
                assert(st2.definitions[k] == st.definitions[k]);
            } else {
                assert(st2.definitions[k].params == st.definition.params);
                assert(st2.definitions[k].return_type == st.definition.return_type);
            }
        }
    } else if token == "="@ {
        assert(st2.definition.params == st.definition.params);
    } else if token == ":"@ {
        let (flags, t) = flags_condition(src[i + 1])->0;
        let (typedef, j) = param_type(src, i + 1, flags, t)->0;
        assert(!typedef.variant && (typedef.inner matches Some(b) ==> !b.variant));
        assert forall|k: int| 0 <= k < st2.definition.params.len() implies !(
        #[trigger] st2.definition.params[k]).ty.variant && (st2.definition.params[k].ty.inner matches Some(
            b,
        ) ==> !b.variant) by {
            if k < st.definition.params.len() {
                assert(st2.definition.params[k] == st.definition.params[k]);
            }
        }
    } else if token == "#"@ {
        assert(st2.definition.params == st.definition.params);
    } else {
    }
}

/// Parsing from an unmarked state yields unmarked definitions.
proof fn lemma_parse_from_unmarked(src: Seq<Seq<char>>, i: int, st: ParseState)
    requires
        state_unmarked(st),
        parse_from(src, i, st) is Some,
    ensures
        forall|k: int|
            0 <= k < parse_from(src, i, st)->0.len() ==> unmarked(#[trigger] parse_from(src, i, st)->0[k]),
    decreases src.len() - i,
{
    if i < 0 || i >= src.len() {
    } else {
        let (st2, i2) = parse_token(src, i, st)->0;
        lemma_token_keeps_unmarked(src, i, st);
        if i2 > i && i2 < src.len() {
            lemma_parse_from_unmarked(src, i2, st2);
        }
    }
}

/// Marking keeps each definition's kind and result type, so each schema
/// type keeps its number of constructors.
proof fn lemma_mark_keeps_members(defs: Seq<DefinitionView>, keys: Seq<Seq<char>>, k: Seq<char>)
    ensures
        members(mark_variants(defs, keys), k).len() == members(defs, k).len(),
    decreases defs.len(),
{
    if defs.len() > 0 {
        assert(mark_variants(defs, keys).drop_last() =~= mark_variants(defs.drop_last(), keys));
        lemma_mark_keeps_members(defs.drop_last(), keys, k);
        let m = mark_variants(defs, keys);
        assert(m.last().function == defs.last().function);
        assert(m.last().return_type == defs.last().return_type);
        assert(constructs(m.last(), k) == constructs(defs.last(), k));
    }
}

/// Marking keeps the schema types with several constructors.
proof fn lemma_mark_keeps_keys(defs: Seq<DefinitionView>, keys: Seq<Seq<char>>, n: int)
    ensures
        variant_keys_upto(mark_variants(defs, keys), n) == variant_keys_upto(defs, n),
    decreases n,
{
    let m = mark_variants(defs, keys);
    if n <= 0 || n > defs.len() {
    } else {
        lemma_mark_keeps_keys(defs, keys, n - 1);
        let d = defs[n - 1];
        assert(m[n - 1].function == d.function);
        assert(m[n - 1].return_type == d.return_type);
        match d.return_type.schema_type {
            Some(s) => {
                lemma_mark_keeps_members(defs, keys, s);
            },
            None => {},
        }
    }
}

/// `s` names a schema type of the variant table.
pub open spec fn in_variant_table(v: Seq<(Seq<char>, Seq<DefinitionView>)>, s: Seq<char>) -> bool {
    exists|k: int| 0 <= k < v.len() && (#[trigger] v[k]).0 == s
}

/// A type is marked as a variant exactly when its schema type is in the
/// variant table.
pub open spec fn marked_as_table_says(t: TypeDefinitionView, v: Seq<(Seq<char>, Seq<DefinitionView>)>) -> bool {
    t.variant == (t.schema_type matches Some(s) && in_variant_table(v, s))
}

/// In the definitions the parser returns, a parameter's type, and a vector
/// parameter's element type, is marked as a variant exactly when its schema
/// type has more than one constructor, that is, when it is a key of the
/// variant table the same definitions give; no result type is marked.
pub proof fn law_parse_marks_variants(src: Seq<Seq<char>>)
    requires
        parse_spec(src) is Some,
    ensures
        forall|i: int, j: int|
            #![trigger parse_spec(src)->0[i].params[j]]
            0 <= i < parse_spec(src)->0.len() && 0 <= j < parse_spec(src)->0[i].params.len()
                ==> marked_as_table_says(
                parse_spec(src)->0[i].params[j].ty,
                variants_spec(parse_spec(src)->0),
            ) && (parse_spec(src)->0[i].params[j].ty.inner matches Some(b) ==> marked_as_table_says(
                *b,
                variants_spec(parse_spec(src)->0),
            )),
        forall|i: int|
            0 <= i < parse_spec(src)->0.len() ==> !(#[trigger] parse_spec(src)->0[i]).return_type.variant,
{
    let st0 = ParseState { definition: empty_definition(), definitions: Seq::empty(), functions: false };
    assert(unmarked(empty_definition()));
    assert(state_unmarked(st0));
    lemma_parse_from_unmarked(src, 0, st0);
    let raw = parse_raw(src)->0;
    let keys = variant_keys(raw);
    let defs = mark_variants(raw, keys);
    assert(defs == parse_spec(src)->0);
    lemma_mark_keeps_keys(raw, keys, raw.len() as int);
    assert(variant_keys(defs) == keys);
    let v = variants_spec(defs);
    assert forall|s: Seq<char>| in_variant_table(v, s) <==> keys.contains(s) by {
        if keys.contains(s) {
            let k = choose|k: int| 0 <= k < keys.len() && keys[k] == s;
            assert(v[k].0 == s);
        }
        if in_variant_table(v, s) {
            let k = choose|k: int| 0 <= k < v.len() && (#[trigger] v[k]).0 == s;
            assert(keys[k] == s);
        }
    }
    assert forall|i: int, j: int|
        #![trigger defs[i].params[j]]
        0 <= i < defs.len() && 0 <= j < defs[i].params.len() implies marked_as_table_says(
        defs[i].params[j].ty,
        v,
    ) && (defs[i].params[j].ty.inner matches Some(b) ==> marked_as_table_says(*b, v)) by {
        assert(unmarked(raw[i]));
        let rp = raw[i].params[j];
        assert(defs[i].params[j] == mark_param(rp, keys));
        assert(!rp.ty.variant);
        let t = mark_type(rp.ty, keys);
        assert(t.schema_type == rp.ty.schema_type && t.inner == rp.ty.inner);
        match rp.ty.inner {
            Some(b) => {
                assert(!b.variant);
                let mb = mark_type(*b, keys);
                assert(mb.schema_type == b.schema_type);
            },
            None => {},
        }
    }
    assert forall|i: int| 0 <= i < defs.len() implies !(#[trigger] defs[i]).return_type.variant by {
        assert(unmarked(raw[i]));
    }
}

/// The cases of the generated object enum, by name: one per definition, one
/// per variant enum, then the vectors, undecodable objects, bare vectors and
/// message containers.
pub open spec fn object_names(defs: Seq<DefinitionView>) -> Seq<Seq<char>> {
    defs.map_values(|d: DefinitionView| struct_name(d.predicate)) + variant_keys(defs).map_values(
        |k: Seq<char>| struct_name(k) + "Variant"@,
    ) + seq!["Vector"@, "DeserializationError"@, "RawVector"@, "MsgContainer"@]
}

/// The lines of the object enum that declare its cases, in order.
pub open spec fn object_cases(defs: Seq<DefinitionView>) -> Seq<Seq<char>> {
    defs.map_values(|d: DefinitionView| object_case(d)) + variant_keys(defs).map_values(
        |k: Seq<char>| object_variant_case(k),
    ) + seq![vector_case(), error_case(), raw_vector_case(), container_case()]
}

/// The arms of the object writer, in order.
pub open spec fn object_arms(defs: Seq<DefinitionView>) -> Seq<Seq<char>> {
    defs.map_values(|d: DefinitionView| object_write_arm(d)) + variant_keys(defs).map_values(
        |k: Seq<char>| object_variant_write_arm(k),
    ) + seq![vector_write_arm(), raw_vector_write_arm(), container_write_arm(), error_write_arm()]
}

/// Where the writer's arm for the case `i` stands among the arms: the
/// fixed cases come in another order there.
pub open spec fn arm_index(defs: Seq<DefinitionView>, i: int) -> int {
    let n = defs.len() + variant_keys(defs).len() as int;
    if i < n {
        i
    } else if i == n {
        n
    } else if i == n + 1 {
        n + 3
    } else if i == n + 2 {
        n + 1
    } else {
        n + 2
    }
}

/// The generated object enum has exactly one case per definition, one per
/// schema type with several constructors (named after it with `Variant`),
/// and the vector, undecodable-object, bare-vector and message-container
/// cases; its writer has exactly one arm per case, matching on that case,
/// and the arm of undecodable objects panics.
pub proof fn law_schema_object_variants(defs: Seq<DefinitionView>)
    ensures
        compile_schema_object_spec(defs) == object_head() + concat_all(object_cases(defs)) + object_middle()
            + concat_all(object_arms(defs)) + object_tail(),
        object_cases(defs).len() == object_names(defs).len(),
        object_arms(defs).len() == object_names(defs).len(),
        forall|i: int|
            0 <= i < object_names(defs).len() ==> (#[trigger] object_cases(defs)[i]).subrange(
                0,
                (object_names(defs)[i] + "("@).len() as int,
            ) == object_names(defs)[i] + "("@,
        forall|i: int|
            0 <= i < object_names(defs).len() ==> 0 <= #[trigger] arm_index(defs, i) < object_arms(defs).len()
                && object_arms(defs)[arm_index(defs, i)].subrange(
                0,
                ("SchemaObject::"@ + object_names(defs)[i] + "("@).len() as int,
            ) == "SchemaObject::"@ + object_names(defs)[i] + "("@,
        forall|i: int, j: int|
            0 <= i < j < object_names(defs).len() ==> #[trigger] arm_index(defs, i) != #[trigger] arm_index(
                defs,
                j,
            ),
        contains_text(
            object_arms(defs)[arm_index(defs, defs.len() + variant_keys(defs).len() + 1int)],
            "panic!(\"This object is not serializable\")"@,
        ),
{
    lemma_object_text(defs);
    lemma_object_cases(defs);
    lemma_object_arms(defs);
    lemma_error_arm_panics(defs);
}

/// The generated object enum is its cases and its arms between fixed texts.
proof fn lemma_object_text(defs: Seq<DefinitionView>)
    ensures
        compile_schema_object_spec(defs) == object_head() + concat_all(object_cases(defs)) + object_middle()
            + concat_all(object_arms(defs)) + object_tail(),
{
    let keys = variant_keys(defs);
    let fc = |d: DefinitionView| object_case(d);
    let gc = |k: Seq<char>| object_variant_case(k);
    let fw = |d: DefinitionView| object_write_arm(d);
    let gw = |k: Seq<char>| object_variant_write_arm(k);
    lemma_concat_map_all(defs, fc);
    lemma_concat_map_all(keys, gc);
    lemma_concat_map_all(defs, fw);
    lemma_concat_map_all(keys, gw);
    let c4 = seq![vector_case(), error_case(), raw_vector_case(), container_case()];
    let a4 = seq![vector_write_arm(), raw_vector_write_arm(), container_write_arm(), error_write_arm()];
    lemma_concat_all_append(defs.map_values(fc), keys.map_values(gc));
    lemma_concat_all_append(defs.map_values(fc) + keys.map_values(gc), c4);
    lemma_concat_all_append(defs.map_values(fw), keys.map_values(gw));
    lemma_concat_all_append(defs.map_values(fw) + keys.map_values(gw), a4);
    lemma_concat_all_four(c4[0], c4[1], c4[2], c4[3]);
    lemma_concat_all_four(a4[0], a4[1], a4[2], a4[3]);
    assert(object_cases(defs) == defs.map_values(fc) + keys.map_values(gc) + c4);
    assert(object_arms(defs) == defs.map_values(fw) + keys.map_values(gw) + a4);
}

/// Each case line of the object enum begins with its name and a bracket.
proof fn lemma_object_cases(defs: Seq<DefinitionView>)
    ensures
        object_cases(defs).len() == object_names(defs).len(),
        forall|i: int|
            0 <= i < object_names(defs).len() ==> (#[trigger] object_cases(defs)[i]).subrange(
                0,
                (object_names(defs)[i] + "("@).len() as int,
            ) == object_names(defs)[i] + "("@,
{
    let keys = variant_keys(defs);
    let n = defs.len() as int;
    let m = keys.len() as int;
    let names = object_names(defs);
    let cases = object_cases(defs);
    assert forall|i: int| 0 <= i < names.len() implies (#[trigger] cases[i]).subrange(
        0,
        (names[i] + "("@).len() as int,
    ) == names[i] + "("@ by {
        if i < n {
            let sn = struct_name(defs[i].predicate);
            assert(names[i] == sn);
            assert(cases[i] == sn + "("@ + sn + "),\n"@);
        } else if i < n + m {
            let k = keys[i - n];
            assert(names[i] == struct_name(k) + "Variant"@);
            assert(cases[i] == struct_name(k) + "Variant"@ + "("@ + struct_name(k) + "Variant),\n"@);
        } else if i == n + m {
            assert(names[i] == "Vector"@);
            assert(cases[i] == "Vector"@ + "("@ + "Vec<SchemaObject>),\n"@);
        } else if i == n + m + 1 {
            assert(names[i] == "DeserializationError"@);
            assert(cases[i] == "DeserializationError"@ + "("@ + "TlBufferError),\n"@);
        } else if i == n + m + 2 {
            assert(names[i] == "RawVector"@);
            assert(cases[i] == "RawVector"@ + "("@ + "Vec<SchemaObject>),\n"@);
        } else {
            assert(names[i] == "MsgContainer"@);
            assert(cases[i] == "MsgContainer"@ + "("@ + "Vec<(i64, i32, SchemaObject)>),\n"@);
        }
        assert(cases[i].subrange(0, (names[i] + "("@).len() as int) =~= names[i] + "("@);
    }
}

/// Each case has its own arm in the object writer, which matches on it.
proof fn lemma_object_arms(defs: Seq<DefinitionView>)
    ensures
        object_arms(defs).len() == object_names(defs).len(),
        forall|i: int|
            0 <= i < object_names(defs).len() ==> 0 <= #[trigger] arm_index(defs, i) < object_arms(defs).len()
                && object_arms(defs)[arm_index(defs, i)].subrange(
                0,
                ("SchemaObject::"@ + object_names(defs)[i] + "("@).len() as int,
            ) == "SchemaObject::"@ + object_names(defs)[i] + "("@,
        forall|i: int, j: int|
            0 <= i < j < object_names(defs).len() ==> #[trigger] arm_index(defs, i) != #[trigger] arm_index(
                defs,
                j,
            ),
{
    let keys = variant_keys(defs);
    let n = defs.len() as int;
    let m = keys.len() as int;
    let names = object_names(defs);
    let arms = object_arms(defs);
    assert forall|i: int| 0 <= i < names.len() implies 0 <= #[trigger] arm_index(defs, i) < arms.len()
        && arms[arm_index(defs, i)].subrange(0, ("SchemaObject::"@ + names[i] + "("@).len() as int)
        == "SchemaObject::"@ + names[i] + "("@ by {
        let k = arm_index(defs, i);
        if i < n {
            let sn = struct_name(defs[i].predicate);
            assert(names[i] == sn);
            assert(arms[k] == "SchemaObject::"@ + sn + "("@ + "inner_obj) => inner_obj.write(data),\n"@);
        } else if i < n + m {
            let kk = keys[i - n];
            assert(names[i] == struct_name(kk) + "Variant"@);
            assert(arms[k] == "SchemaObject::"@ + struct_name(kk) + "Variant"@ + "("@
                + "inner_obj) => inner_obj.write(data),\n"@);
        } else if i == n + m {
            assert(names[i] == "Vector"@);
            assert(arms[k] == vector_write_arm());
        } else if i == n + m + 1 {
            assert(names[i] == "DeserializationError"@);
            assert(arms[k] == error_write_arm());
        } else if i == n + m + 2 {
            assert(names[i] == "RawVector"@);
            assert(arms[k] == raw_vector_write_arm());
        } else {
            assert(names[i] == "MsgContainer"@);
            assert(arms[k] == container_write_arm());
        }
        assert(arms[k].subrange(0, ("SchemaObject::"@ + names[i] + "("@).len() as int) =~= "SchemaObject::"@
            + names[i] + "("@);
    }
}

/// The writer's arm for undecodable objects panics.
proof fn lemma_error_arm_panics(defs: Seq<DefinitionView>)
    ensures
        contains_text(
            object_arms(defs)[arm_index(defs, defs.len() + variant_keys(defs).len() + 1int)],
            "panic!(\"This object is not serializable\")"@,
        ),
{
    let n = defs.len() + variant_keys(defs).len() as int;
    let panic_text = "panic!(\"This object is not serializable\")"@;
    assert(object_arms(defs)[arm_index(defs, n + 1)] == error_write_arm());
    lemma_contains_self(panic_text);
    let pre = "SchemaObject::"@ + "DeserializationError"@ + "("@ + "_) => "@;
    lemma_contains_within(pre, panic_text, Seq::empty(), panic_text);
    assert(pre + panic_text + Seq::<char>::empty() =~= error_write_arm());
}

/// The first lines of a generated schema module.
pub open spec fn schema_header() -> Seq<char> {
    "// This is a file generated by catte-tl-compiler, do not modify unless you know what you are doing.\n\n"@
        + "use catte_tl_buffer::{TlBuffer, TlBufferError};\n"@
}

/// The parts of a generated schema module, in order.
#[verifier::opaque]
pub open spec fn schema_parts(defs: Seq<DefinitionView>) -> Seq<Seq<char>> {
    let keys = variant_keys(defs);
    seq![
        "// This is a file generated by catte-tl-compiler, do not modify unless you know what you are doing.\n\n"@,
        "use catte_tl_buffer::{TlBuffer, TlBufferError};\n"@,
        join_map(defs, definition_code(defs), "\n"@),
        "\n"@,
        join_map(keys, variant_enum_code(defs), "\n\n"@),
        "\n\n"@,
        join_map(keys, variant_reader_code(defs), "\n\n"@),
        "\n\n"@,
        compile_schema_object_spec(defs),
        "\n\n"@,
        "pub fn read(data: &mut TlBuffer) -> Result<SchemaObject, TlBufferError> {\n    match data.read_int()? {\n"@,
        concat_map(defs, |d: DefinitionView| object_read_arm(d)),
        container_read_arm(),
        fallback_read_arm(),
        "    }\n}"@,
    ]
}

/// A generated schema module is its parts one after another.
#[verifier::rlimit(100)]
#[verifier::spinoff_prover]
proof fn lemma_schema_parts(defs: Seq<DefinitionView>)
    ensures
        compile_schema_spec(defs) == concat_all(schema_parts(defs)),
{
    reveal(compile_schema_spec);
    reveal(schema_parts);
    let ps = schema_parts(defs);
    let id = |t: Seq<char>| t;
    assert(ps.take(0) =~= Seq::<Seq<char>>::empty());
    lemma_concat_map_step(ps, 0, id);
    assert(Seq::<char>::empty() + ps[0] =~= ps[0]);
    lemma_concat_map_step(ps, 1, id);
    lemma_concat_map_step(ps, 2, id);
    lemma_concat_map_step(ps, 3, id);
    lemma_concat_map_step(ps, 4, id);
    lemma_concat_map_step(ps, 5, id);
    lemma_concat_map_step(ps, 6, id);
    lemma_concat_map_step(ps, 7, id);
    lemma_concat_map_step(ps, 8, id);
    lemma_concat_map_step(ps, 9, id);
    lemma_concat_map_step(ps, 10, id);
    lemma_concat_map_step(ps, 11, id);
    lemma_concat_map_step(ps, 12, id);
    lemma_concat_map_step(ps, 13, id);
    lemma_concat_map_step(ps, 14, id);
    assert(ps.take(15) =~= ps);
}

/// A generated schema module begins with its header; holds the struct of
/// every definition, the reader of every definition whose number is not 1,
/// the variant enum and its reader for every schema type with several
/// constructors, and the object enum; and its object reader holds an arm
/// for every definition whose number is neither 0 nor 1, the message
/// container's arm and the arm for unknown numbers.
pub proof fn law_compiled_schema_contents(defs: Seq<DefinitionView>)
    ensures
        compile_schema_spec(defs).subrange(0, schema_header().len() as int) == schema_header(),
        forall|i: int|
            0 <= i < defs.len() ==> contains_text(
                compile_schema_spec(defs),
                compile_struct_spec(defs, #[trigger] defs[i]),
            ),
        forall|i: int|
            0 <= i < defs.len() && (#[trigger] defs[i]).id != 1 ==> contains_text(
                compile_schema_spec(defs),
                compile_reader_spec(defs, defs[i]),
            ),
        forall|i: int|
            0 <= i < defs.len() && (#[trigger] defs[i]).id != 0 && defs[i].id != 1 ==> contains_text(
                compile_schema_spec(defs),
                decimal_spec(defs[i].id as int) + " => Ok(SchemaObject::"@ + struct_name(defs[i].predicate)
                    + "(read_"@ + function_name(defs[i].predicate) + "(data)?)),\n"@,
            ),
        forall|i: int|
            0 <= i < defs.len() && ((#[trigger] defs[i]).id == 0 || defs[i].id == 1) ==> object_read_arm(
                defs[i],
            ) == Seq::<char>::empty(),
        forall|k: int|
            0 <= k < variant_keys(defs).len() ==> contains_text(
                compile_schema_spec(defs),
                compile_variant_enum_spec(#[trigger] variant_keys(defs)[k], members(defs, variant_keys(defs)[k])),
            ) && contains_text(
                compile_schema_spec(defs),
                compile_variant_reader_spec(variant_keys(defs)[k], members(defs, variant_keys(defs)[k])),
            ),
        contains_text(compile_schema_spec(defs), compile_schema_object_spec(defs)),
        contains_text(compile_schema_spec(defs), container_read_arm()),
        contains_text(compile_schema_spec(defs), fallback_read_arm()),
{
    reveal(schema_parts);
    lemma_schema_parts(defs);
    lemma_schema_header(defs);
    lemma_schema_definitions(defs);
    lemma_schema_read_arms(defs);
    lemma_schema_variants(defs);
    let ps = schema_parts(defs);
    let id = |x: Seq<char>| x;
    lemma_concat_map_contains(ps, id, 8);
    lemma_concat_map_contains(ps, id, 12);
    lemma_concat_map_contains(ps, id, 13);
}

/// The first two parts of a generated schema module are its header.
proof fn lemma_schema_header(defs: Seq<DefinitionView>)
    ensures
        concat_all(schema_parts(defs)).subrange(0, schema_header().len() as int) == schema_header(),
{
    reveal(schema_parts);
    let ps = schema_parts(defs);
    let id = |x: Seq<char>| x;
    assert(ps =~= ps.take(2) + ps.skip(2));
    lemma_concat_all_append(ps.take(2), ps.skip(2));
    let p2 = ps.take(2);
    assert(p2.take(0) =~= Seq::<Seq<char>>::empty());
    lemma_concat_map_step(p2, 0, id);
    lemma_concat_map_step(p2, 1, id);
    assert(p2.take(2) =~= p2);
    assert(concat_all(p2) =~= schema_header());
    assert(concat_all(ps).subrange(0, schema_header().len() as int) =~= schema_header());
}

/// A generated schema module holds the struct of every definition and the
/// reader of every definition whose number is not 1.
proof fn lemma_schema_definitions(defs: Seq<DefinitionView>)
    ensures
        forall|i: int|
            0 <= i < defs.len() ==> contains_text(
                concat_all(schema_parts(defs)),
                compile_struct_spec(defs, #[trigger] defs[i]),
            ) && (defs[i].id != 1 ==> contains_text(
                concat_all(schema_parts(defs)),
                compile_reader_spec(defs, defs[i]),
            )),
{
    reveal(schema_parts);
    let ps = schema_parts(defs);
    let t = concat_all(ps);
    let id = |x: Seq<char>| x;
    lemma_concat_map_contains(ps, id, 2);
    let fd = definition_code(defs);
    assert forall|i: int| 0 <= i < defs.len() implies contains_text(t, compile_struct_spec(defs, #[trigger] defs[i]))
        && (defs[i].id != 1 ==> contains_text(t, compile_reader_spec(defs, defs[i]))) by {
        let d = defs[i];
        lemma_join_map_contains(defs, fd, "\n"@, i);
        let st = compile_struct_spec(defs, d);
        let rd = if d.id != 1 {
            compile_reader_spec(defs, d)
        } else {
            Seq::empty()
        };
        assert(fd(d) == st + "\n\n"@ + rd);
        lemma_contains_self(st);
        lemma_contains_within(Seq::empty(), st, "\n\n"@ + rd, st);
        assert(Seq::<char>::empty() + st + ("\n\n"@ + rd) =~= fd(d));
        lemma_contains_trans(ps[2], fd(d), st);
        lemma_contains_trans(t, ps[2], st);
        if d.id != 1 {
            lemma_contains_self(rd);
            lemma_contains_within(st + "\n\n"@, rd, Seq::empty(), rd);
            assert(st + "\n\n"@ + rd + Seq::<char>::empty() =~= fd(d));
            lemma_contains_trans(ps[2], fd(d), rd);
            lemma_contains_trans(t, ps[2], rd);
        }
    }
}

/// The object reader of a generated schema module has an arm for every
/// definition whose number is neither 0 nor 1, and none for the others.
proof fn lemma_schema_read_arms(defs: Seq<DefinitionView>)
    ensures
        forall|i: int|
            0 <= i < defs.len() && (#[trigger] defs[i]).id != 0 && defs[i].id != 1 ==> contains_text(
                concat_all(schema_parts(defs)),
                decimal_spec(defs[i].id as int) + " => Ok(SchemaObject::"@ + struct_name(defs[i].predicate)
                    + "(read_"@ + function_name(defs[i].predicate) + "(data)?)),\n"@,
            ),
        forall|i: int|
            0 <= i < defs.len() && ((#[trigger] defs[i]).id == 0 || defs[i].id == 1) ==> object_read_arm(
                defs[i],
            ) == Seq::<char>::empty(),
{
    reveal(schema_parts);
    let ps = schema_parts(defs);
    let t = concat_all(ps);
    let id = |x: Seq<char>| x;
    lemma_concat_map_contains(ps, id, 11);
    let fa = |d: DefinitionView| object_read_arm(d);
    assert forall|i: int| 0 <= i < defs.len() && (#[trigger] defs[i]).id != 0 && defs[i].id != 1 implies contains_text(
        t,
        decimal_spec(defs[i].id as int) + " => Ok(SchemaObject::"@ + struct_name(defs[i].predicate) + "(read_"@
            + function_name(defs[i].predicate) + "(data)?)),\n"@,
    ) by {
        lemma_concat_map_contains(defs, fa, i);
        lemma_contains_trans(t, ps[11], fa(defs[i]));
    }
}

/// A generated schema module holds the variant enum and its reader for
/// every schema type with several constructors.
proof fn lemma_schema_variants(defs: Seq<DefinitionView>)
    ensures
        forall|k: int|
            0 <= k < variant_keys(defs).len() ==> contains_text(
                concat_all(schema_parts(defs)),
                compile_variant_enum_spec(#[trigger] variant_keys(defs)[k], members(defs, variant_keys(defs)[k])),
            ) && contains_text(
                concat_all(schema_parts(defs)),
                compile_variant_reader_spec(variant_keys(defs)[k], members(defs, variant_keys(defs)[k])),
            ),
{
    reveal(schema_parts);
    let ps = schema_parts(defs);
    let t = concat_all(ps);
    let id = |x: Seq<char>| x;
    let keys = variant_keys(defs);
    lemma_concat_map_contains(ps, id, 4);
    lemma_concat_map_contains(ps, id, 6);
    assert forall|k: int| 0 <= k < keys.len() implies contains_text(
        t,
        compile_variant_enum_spec(#[trigger] keys[k], members(defs, keys[k])),
    ) && contains_text(t, compile_variant_reader_spec(keys[k], members(defs, keys[k]))) by {
        lemma_join_map_contains(keys, variant_enum_code(defs), "\n\n"@, k);
        lemma_join_map_contains(keys, variant_reader_code(defs), "\n\n"@, k);
        lemma_contains_trans(t, ps[4], variant_enum_code(defs)(keys[k]));
        lemma_contains_trans(t, ps[6], variant_reader_code(defs)(keys[k]));
    }
}

} // verus!
