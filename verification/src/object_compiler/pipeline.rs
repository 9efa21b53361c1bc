//! What the object compiler promises across its stages: the definitions
//! the parser reads can be generated, unless a vector's element type is
//! itself a vector.
use vstd::prelude::*;
use crate::object_compiler::parser::{
    Type, ParamView, ParseState, parse_token, parse_from, parse_spec, resolve_type_spec, named_type,
    empty_definition,
};
use crate::object_compiler::compiler::{type_ok, params_ok, defs_ok};

verus! {

/// No parameter type is a vector whose element type is a vector.
pub open spec fn no_nested_vectors(src: Seq<Seq<char>>) -> bool {
    forall|j: int|
        0 <= j && j + 2 < src.len() && resolve_type_spec(#[trigger] src[j]) == Type::VECTOR
            ==> resolve_type_spec(src[j + 2]) != Type::VECTOR
}

/// Every definition of the parser's state, finished or not, has handled
/// parameter types.
pub open spec fn state_good(st: ParseState) -> bool {
    params_ok(st.definition.params) && forall|k: int|
        0 <= k < st.definitions.len() ==> params_ok(#[trigger] st.definitions[k].params)
}

/// One token keeps the parser's state good.
proof fn lemma_token_keeps_good(src: Seq<Seq<char>>, i: int, st: ParseState)
    requires
        0 <= i < src.len(),
        state_good(st),
        no_nested_vectors(src),
        parse_token(src, i, st) is Some,
    ensures
        state_good((parse_token(src, i, st)->0).0),
{
    let token = src[i];
    let st2 = (parse_token(src, i, st)->0).0;
    if token == ";"@ {
        assert(params_ok(empty_definition().params));
        assert forall|k: int| 0 <= k < st2.definitions.len() implies params_ok(
            #[trigger] st2.definitions[k].params,
        ) by {
            if k < st.definitions.len() {
                assert(st2.definitions[k] == st.definitions[k]);
            }
        }
    } else if token == ":"@ {
        let t = src[i + 1];
        let base = named_type(t);
        let typedef = st2.definition.params.last().ty;
        assert(type_ok(typedef)) by {
            if base.ty == Type::VECTOR {
                assert(resolve_type_spec(src[i + 1]) == Type::VECTOR);
                assert(resolve_type_spec(src[i + 3]) != Type::VECTOR);
                assert(type_ok(named_type(src[i + 3])));
            }
        }
        assert forall|k: int| 0 <= k < st2.definition.params.len() implies type_ok(
            #[trigger] st2.definition.params[k].ty,
        ) by {
            if k < st.definition.params.len() {
                assert(st2.definition.params[k] == st.definition.params[k]);
            }
        }
    } else {
    }
}

/// Parsing from a good state yields definitions with handled parameter types.
proof fn lemma_parse_from_good(src: Seq<Seq<char>>, i: int, st: ParseState)
    requires
        state_good(st),
        no_nested_vectors(src),
        parse_from(src, i, st) is Some,
    ensures
        defs_ok(parse_from(src, i, st)->0),
    decreases src.len() - i,
{
    if i < 0 || i >= src.len() {
    } else {
        let (st2, i2) = parse_token(src, i, st)->0;
        lemma_token_keeps_good(src, i, st);
        if i2 > i && i2 < src.len() {
            lemma_parse_from_good(src, i2, st2);
        }
    }
}

/// The definitions the parser reads from tokens can all be generated, when
/// no vector's element type is a vector.
pub proof fn law_parsed_objects_compile(src: Seq<Seq<char>>)
    requires
        parse_spec(src) is Some,
        no_nested_vectors(src),
    ensures
        defs_ok(parse_spec(src)->0),
{
    let st0 = ParseState { definition: empty_definition(), definitions: Seq::empty() };
    assert(state_good(st0));
    lemma_parse_from_good(src, 0, st0);
}

} // verus!
