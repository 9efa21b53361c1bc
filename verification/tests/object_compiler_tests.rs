use catte::object_compiler::compiler::{
    can_compile,
    compile_extend_reader, compile_module, compile_reader, compile_struct, compile_tlobject_impl,
    compile_writer,
};
use catte::object_compiler::parser::{parse, try_parse, Definition, Type};
use catte::object_compiler::tokenizer::tokenize;

const SCHEMA: &str = "req_pq_multi#be7e8ef1 nonce:int128 = ResPQ;\nresPQ#05162463 nonce:int128 server_nonce:int128 pq:bytes server_public_key_fingerprints:Vector<long> = ResPQ;\np_q_inner_data.dc#a9f55f95 pq:bytes dc:int = P_Q_inner_data;\n";

fn definitions() -> Vec<Definition> {
    parse(tokenize(SCHEMA.to_string()))
}

#[test]
fn object_schema_tokens() {
    let expected: Vec<String> = vec!["req_pq_multi", "#", "be7e8ef1", "nonce", ":", "int128", "=", "ResPQ", ";", "resPQ", "#", "05162463", "nonce", ":", "int128", "server_nonce", ":", "int128", "pq", ":", "bytes", "server_public_key_fingerprints", ":", "Vector", "<", "long", ">", "=", "ResPQ", ";", "p_q_inner_data.dc", "#", "a9f55f95", "pq", ":", "bytes", "dc", ":", "int", "=", "P_Q_inner_data", ";"].into_iter().map(|s: &str| s.to_string()).collect();
    assert_eq!(tokenize(SCHEMA.to_string()), expected);
}

#[test]
fn object_tokenizer_reads_every_character() {
    assert_eq!(tokenize("ab;".to_string()), vec!["ab".to_string(), ";".to_string()]);
    assert_eq!(tokenize("{x}".to_string()), vec!["{x}".to_string()]);
}

#[test]
fn object_definitions() {
    let defs = definitions();
    assert_eq!(defs.len(), 3);
    assert_eq!(defs[0].id, -1099002127);
    assert_eq!(defs[1].predicate, "resPQ");
    assert_eq!(defs[1].params.len(), 4);
    assert_eq!(defs[1].params[3].ty.ty, Type::VECTOR);
    assert_eq!(defs[1].params[3].ty.inner.as_ref().unwrap().ty, Type::LONG);
    assert_eq!(defs[2].predicate, "p_q_inner_data.dc");
    assert_eq!(defs[2].params[1].ty.ty, Type::INT);
}

#[test]
fn object_parser_refuses_broken_tokens() {
    let v: Vec<String> = vec!["x".to_string(), ":".to_string(), "Vector".to_string()];
    assert!(try_parse(&v).is_none());
    let unterminated: Vec<String> = vec!["x".to_string(), "#".to_string(), "1".to_string()];
    assert_eq!(try_parse(&unterminated).unwrap().len(), 0);
}

#[test]
fn object_respq_struct() {
    let defs = definitions();
    assert_eq!(compile_struct(&defs[1]), "#[allow(non_camel_case_types)]\n#[derive(Debug, Default)]\npub struct resPQ {\npub nonce: i128,\npub server_nonce: i128,\npub pq: &'static [u8],\npub server_public_key_fingerprints: Vec<i64>,\n}");
}

#[test]
fn object_respq_impl() {
    let defs = definitions();
    assert_eq!(compile_tlobject_impl(&defs[1]), "impl TlObject for resPQ {\n    fn hash(&self) -> i32 {\n        85337187\n    }\n    fn write(&self, data: &mut BytesBuffer) {\n        data.write_int(85337187);\ndata.write_int128(self.nonce);\ndata.write_int128(self.server_nonce);\ndata.write_bytes(self.pq);\n{\n    data.write_int(0x1cb5c415);\n    data.write_int(self.server_public_key_fingerprints.len() as i32);\n    for element in &self.server_public_key_fingerprints {\n        data.write_long(*element);\n    }\n};\n\n    }\n}");
}

#[test]
fn object_respq_reader() {
    let defs = definitions();
    assert_eq!(compile_reader(&defs[1]), "#[allow(non_snake_case)]\npub fn read_resPQ(data: &mut BytesBuffer) -> Result<resPQ, TlError> {\nlet mut obj = resPQ::default();\nobj.nonce = data.read_int128()?;\nobj.server_nonce = data.read_int128()?;\nobj.pq = data.read_bytes()?;\nobj.server_public_key_fingerprints = {\n    let mut vector_data = vec![];\n    let vector_header = data.read_int()?;\n    let length = if vector_header == 0x1cb5c415 {\n        data.read_int()?\n    } else {\n        vector_header\n    };\n\n    for _ in 0..length {\n        let value = data.read_long()?;\n        vector_data.push(value);\n    }\n\n    vector_data\n};\nOk(obj)\n}\n");
}

#[test]
fn object_reader_registration() {
    let defs = definitions();
    assert_eq!(compile_extend_reader(&defs), "pub fn extend_reader(reader: &mut TlReader) {\nreader.add_reader(-1099002127, |data| read_req_pq_multi(data).map(|o| Box::new(o) as Box<dyn TlObject>));\nreader.add_reader(85337187, |data| read_resPQ(data).map(|o| Box::new(o) as Box<dyn TlObject>));\nreader.add_reader(-1443537003, |data| read_p_q_inner_data_dc(data).map(|o| Box::new(o) as Box<dyn TlObject>));\n}");
}

#[test]
fn object_dotted_struct() {
    let defs = definitions();
    assert_eq!(compile_struct(&defs[2]), "#[allow(non_camel_case_types)]\n#[derive(Debug, Default)]\npub struct p_q_inner_data_dc {\npub pq: &'static [u8],\npub dc: i32,\n}");
}

#[test]
fn object_writer_starts_with_the_number() {
    let defs = definitions();
    assert_eq!(compile_writer(&defs[0]), "data.write_int(-1099002127);\ndata.write_int128(self.nonce);\n");
}

#[test]
fn object_module() {
    let defs = definitions();
    let code = compile_module(&defs);
    assert!(code.starts_with("// This is a file generated by cattlc, do not modify unless you know what you are doing.\n\nuse core::any::Any;\n"));
    assert!(code.contains(&format!("{}\n{}\n{}\n\n", compile_struct(&defs[1]), compile_tlobject_impl(&defs[1]), compile_reader(&defs[1]))));
    assert!(code.ends_with(&format!("{}\n", compile_extend_reader(&defs))));
}

#[test]
fn parsed_object_schemas_can_be_compiled() {
    assert!(can_compile(&definitions()));
    let nested = parse(tokenize("a#1 x:Vector<Vector<int>> = A;\n".to_string()));
    assert!(!can_compile(&nested));
}

#[test]
fn object_tokens_never_hold_blanks() {
    let toks = tokenize(SCHEMA.to_string());
    assert!(toks.iter().all(|t| !t.contains(' ') && !t.contains('\n')));
}
