use catte::tl_compiler::compiler::{
    can_compile,
    compile_reader, compile_schema, compile_schema_object, compile_struct, compile_variant_enum,
    compile_variant_reader, compile_writer, filtered_name, find_return_type_constructor,
    generate_invoke_code, is_variant, rustify_function_name, rustify_struct_name,
    rustify_variable_name,
};
use catte::tl_compiler::parser::{analyze_variant_constructors, parse, try_parse, Definition, Type};
use catte::tl_compiler::tokenizer::tokenize;

const SCHEMA: &str = "boolFalse#bc799737 = Bool;\nboolTrue#997275b5 = Bool;\nuser#2e13f4c3 flags:# self:flags.10?true id:long first_name:flags.1?string photo:flags.5?UserProfilePhoto = User;\nuserEmpty#d3bc4b7a id:long = User;\nuserProfilePhoto#82d1f706 photo_id:long = UserProfilePhoto;\ncontacts.found#b3134d9d my_results:Vector<Peer> users:Vector<User> = contacts.Found;\n---functions---\ncontacts.search#11f812d8 q:string limit:int = contacts.Found;\ninvokeWithLayer#da9b0d0d {X:Type} layer:int query:!X = X;\n";

fn definitions() -> Vec<Definition> {
    parse(tokenize(SCHEMA.to_string()))
}

#[test]
fn schema_tokens() {
    let expected: Vec<String> = vec!["boolFalse", "#", "bc799737", "=", "Bool", ";", "boolTrue", "#", "997275b5", "=", "Bool", ";", "user", "#", "2e13f4c3", "flags", ":", "#", "self", ":", "flags.10?true", "id", ":", "long", "first_name", ":", "flags.1?string", "photo", ":", "flags.5?UserProfilePhoto", "=", "User", ";", "userEmpty", "#", "d3bc4b7a", "id", ":", "long", "=", "User", ";", "userProfilePhoto", "#", "82d1f706", "photo_id", ":", "long", "=", "UserProfilePhoto", ";", "contacts.found", "#", "b3134d9d", "my_results", ":", "Vector", "<", "Peer", ">", "users", ":", "Vector", "<", "User", ">", "=", "contacts.Found", ";", "---functions---", "contacts.search", "#", "11f812d8", "q", ":", "string", "limit", ":", "int", "=", "contacts.Found", ";", "invokeWithLayer", "#", "da9b0d0d", "{", "X", ":", "Type", "}", "layer", ":", "int", "query", ":", "!X", "=", "X", ";"].into_iter().map(|s: &str| s.to_string()).collect();
    assert_eq!(tokenize(SCHEMA.to_string()), expected);
}

#[test]
fn tokenizer_never_reads_the_last_character() {
    assert_eq!(tokenize("ab;".to_string()), vec!["ab".to_string()]);
    assert_eq!(tokenize("a b\n".to_string()), vec!["a".to_string(), "b".to_string()]);
}

#[test]
fn parsed_definitions() {
    let defs = definitions();
    assert_eq!(defs.len(), 8);
    assert_eq!(defs[2].predicate, "user");
    assert_eq!(defs[2].id, 0x2e13f4c3);
    assert_eq!(defs[0].id, -1132882121);
    assert_eq!(defs[0].return_type.ty, Type::BOOL);
    assert_eq!(defs[2].params.len(), 5);
    assert_eq!(defs[2].params[0].ty.ty, Type::FLAGS);
    assert_eq!(defs[2].params[1].ty.ty, Type::BitBool);
    assert_eq!(defs[2].params[1].ty.flags_name, Some("flags".to_string()));
    assert_eq!(defs[2].params[1].ty.flags_bit, Some(10));
    assert_eq!(defs[2].params[4].ty.schema_type, Some("UserProfilePhoto".to_string()));
    assert!(!defs[2].function);
    assert!(defs[6].function);
    assert_eq!(defs[7].predicate, "invokeWithLayer");
    assert_eq!(defs[7].params.len(), 2);
    assert_eq!(defs[7].params[1].ty.ty, Type::OBJECT);
    let users = &defs[5].params[1].ty;
    assert_eq!(users.ty, Type::VECTOR);
    assert!(users.inner.as_ref().unwrap().variant);
    assert!(!defs[5].params[0].ty.inner.as_ref().unwrap().variant);
}

#[test]
fn unparsable_tokens_are_refused() {
    let missing_type: Vec<String> = vec!["a".to_string(), ":".to_string()];
    assert!(try_parse(&missing_type).is_none());
    let bad_number: Vec<String> = vec!["a".to_string(), "#".to_string(), "xyz".to_string()];
    assert!(try_parse(&bad_number).is_none());
    let leading_colon: Vec<String> = vec![":".to_string(), "int".to_string()];
    assert!(try_parse(&leading_colon).is_none());
    let fine: Vec<String> = vec!["a".to_string(), "#".to_string(), "+1f".to_string(), ";".to_string()];
    let defs = try_parse(&fine).unwrap();
    assert_eq!(defs[0].id, 0x1f);
}

#[test]
fn variant_table_lists_types_with_several_constructors() {
    let defs = definitions();
    let table = analyze_variant_constructors(&defs);
    assert_eq!(table.len(), 1);
    assert_eq!(table[0].0, "User");
    assert_eq!(table[0].1.len(), 2);
    assert_eq!(table[0].1[1].predicate, "userEmpty");
    assert!(is_variant(&defs, "User".to_string()));
    assert!(!is_variant(&defs, "UserProfilePhoto".to_string()));
    assert!(!is_variant(&defs, "Bool".to_string()));
}

#[test]
fn return_type_constructor_is_the_first() {
    let defs = definitions();
    assert_eq!(find_return_type_constructor(&defs, "User".to_string()).unwrap().predicate, "user");
    assert!(find_return_type_constructor(&defs, "Peer".to_string()).is_none());
}

#[test]
fn rust_names() {
    assert_eq!(rustify_struct_name(&"auth.sentCode".to_string()), "AuthSentCode");
    assert_eq!(rustify_function_name(&"auth.sentCode".to_string()), "auth_sent_code");
    assert_eq!(rustify_struct_name(&"inputPeerSelf".to_string()), "InputPeerSelf");
    assert_eq!(rustify_function_name(&"inputPeerSelf".to_string()), "input_peer_self");
    assert_eq!(rustify_variable_name(&"Self".to_string()), "is_self");
    assert_eq!(rustify_variable_name(&"TYPE".to_string()), "r#type");
    assert_eq!(rustify_variable_name(&"First_Name".to_string()), "first_name");
    assert_eq!(filtered_name("loop".to_string()), "is_loop");
    assert_eq!(filtered_name("final".to_string()), "is_final");
    assert_eq!(filtered_name("static".to_string()), "is_static");
    assert_eq!(filtered_name("name".to_string()), "name");
}

#[test]
fn generated_user_struct() {
    let defs = definitions();
    assert_eq!(compile_struct(&defs, &defs[2]), "#[allow(dead_code, unused_variables)]\n#[derive(Debug, Clone)]\npub struct User {\npub is_self: bool,\npub id: i64,\npub first_name: Option<String>,\npub photo: Option<UserProfilePhoto>,\n}\nimpl User {\npub fn write(&self, bytes_buffer: &mut TlBuffer) {\nbytes_buffer.write_int(773059779);\n#[allow(unused_mut)]\nlet mut flags: i32 = 0;\nif self.is_self { flags ^= 1 << 10 }\nif self.first_name.is_some() { flags ^= 1 << 1 }\nif self.photo.is_some() { flags ^= 1 << 5 }\nbytes_buffer.write_int(flags);\nbytes_buffer.write_long(self.id);\nif let Some(first_name_inner) = &self.first_name { bytes_buffer.write_string(first_name_inner) };\nif let Some(photo_inner) = &self.photo { photo_inner.write(bytes_buffer) };\n}\n}");
}

#[test]
fn generated_user_reader() {
    let defs = definitions();
    assert_eq!(compile_reader(&defs, &defs[2]), "#[allow(dead_code, unused_variables)]\npub fn read_user(bytes_buffer: &mut TlBuffer) -> Result<User, TlBufferError> {\nlet flags = bytes_buffer.read_int()?;\nlet is_self = if flags & (1 << 10) != 0 { true } else { false };\nlet id = bytes_buffer.read_long()?;\nlet first_name = if flags & (1 << 1) != 0 { Some(bytes_buffer.read_string()?) } else { None };\nlet photo = if flags & (1 << 5) != 0 { Some({ bytes_buffer.read_int()?; read_user_profile_photo(bytes_buffer)? }) } else { None };\nOk(User {\nis_self,\nid,\nfirst_name,\nphoto,\n})\n}\n");
}

#[test]
fn generated_vector_struct() {
    let defs = definitions();
    assert_eq!(compile_struct(&defs, &defs[5]), "#[allow(dead_code, unused_variables)]\n#[derive(Debug, Clone)]\npub struct ContactsFound {\npub my_results: Vec<Peer>,\npub users: Vec<UserVariant>,\n}\nimpl ContactsFound {\npub fn write(&self, bytes_buffer: &mut TlBuffer) {\nbytes_buffer.write_int(-1290580579);\nbytes_buffer.write_int(0x1cb5c415);\nbytes_buffer.write_int(self.my_results.len() as i32);\nself.my_results.iter().for_each(|v| v.write(bytes_buffer));\nbytes_buffer.write_int(0x1cb5c415);\nbytes_buffer.write_int(self.users.len() as i32);\nself.users.iter().for_each(|v| v.write(bytes_buffer));\n}\n}");
}

#[test]
fn generated_vector_reader() {
    let defs = definitions();
    assert_eq!(compile_reader(&defs, &defs[5]), "#[allow(dead_code, unused_variables)]\npub fn read_contacts_found(bytes_buffer: &mut TlBuffer) -> Result<ContactsFound, TlBufferError> {\nlet my_results = {\n    let vector_header = bytes_buffer.read_int()?;\n    let length = if vector_header == 0x1cb5c415 {\n        bytes_buffer.read_int()?\n    } else {\n        vector_header\n    };\n\n    (0..length).into_iter().map(|_| { bytes_buffer.read_int()?; read_peer(bytes_buffer) }).collect::<Result<Vec<_>, TlBufferError>>()?\n};\nlet users = {\n    let vector_header = bytes_buffer.read_int()?;\n    let length = if vector_header == 0x1cb5c415 {\n        bytes_buffer.read_int()?\n    } else {\n        vector_header\n    };\n\n    (0..length).into_iter().map(|_| read_user_variant(bytes_buffer)).collect::<Result<Vec<_>, TlBufferError>>()?\n};\nOk(ContactsFound {\nmy_results,\nusers,\n})\n}\n");
}

#[test]
fn generated_object_struct() {
    let defs = definitions();
    assert_eq!(compile_struct(&defs, &defs[7]), "#[allow(dead_code, unused_variables)]\n#[derive(Debug, Clone)]\npub struct InvokeWithLayer {\npub layer: i32,\npub query: Box<SchemaObject>,\n}\nimpl InvokeWithLayer {\npub fn write(&self, bytes_buffer: &mut TlBuffer) {\nbytes_buffer.write_int(-627372787);\nbytes_buffer.write_int(self.layer);\nself.query.write(bytes_buffer);\n}\n}");
}

#[test]
fn generated_invoke_dispatcher() {
    let defs = definitions();
    assert_eq!(generate_invoke_code(&defs), "use std::sync::Arc;\nuse tokio::sync::Mutex;\nuse std::error::Error;\nuse catte_tl_schema::SchemaObject;\nuse crate::Session;\n\npub struct Message<T> {\n    pub msg_id: i64,\n    pub seq_no: i32,\n    pub obj: T,\n}\n\npub async fn invoke(\n    session: Arc<Mutex<Session>>,\n    request: (i64, i32, SchemaObject),\n) -> Result<SchemaObject, Box<dyn Error + Send + Sync>> {\n    match request.2 {\n        SchemaObject::ContactsSearch(obj) => Ok(rpc_contacts_search(session, Message { msg_id: request.0, seq_no: request.1, obj }).await?),\nSchemaObject::InvokeWithLayer(obj) => Ok(rpc_invoke_with_layer(session, Message { msg_id: request.0, seq_no: request.1, obj }).await?),\n\n        _ => Err(\"no rpc function\".into())\n    }\n}");
}

#[test]
fn generated_variant_enum_and_reader() {
    let defs = definitions();
    let table = analyze_variant_constructors(&defs);
    assert_eq!(compile_variant_enum(table[0].0.clone(), &table[0].1), "#[derive(Debug, Clone)]\npub enum UserVariant {\nUser(Box<User>),\nUserEmpty(Box<UserEmpty>),\n}\n\nimpl UserVariant {\n   pub fn write(&self, data: &mut TlBuffer) {\n       match self {\nUserVariant::User(inner_obj) => inner_obj.write(data),\nUserVariant::UserEmpty(inner_obj) => inner_obj.write(data),\n       }\n   }\n}\n");
    assert_eq!(compile_variant_reader(table[0].0.clone(), &table[0].1), "pub fn read_user_variant(data: &mut TlBuffer) -> Result<UserVariant, TlBufferError> {\nmatch data.read_int()? {\n773059779 => Ok(UserVariant::User(Box::new(read_user(data)?))),\n-742634630 => Ok(UserVariant::UserEmpty(Box::new(read_user_empty(data)?))),\ni => Err(TlBufferError::Custom(format!(\"no reader for {}\", i))),\n}\n}");
}

#[test]
fn writer_skips_number_zero_and_one() {
    let defs = parse(tokenize("a#1 x:int = A;\n".to_string()));
    assert_eq!(
        compile_writer(&defs[0]),
        "pub fn write(&self, bytes_buffer: &mut TlBuffer) {\nbytes_buffer.write_int(self.x);\n}\n"
    );
}

#[test]
fn generated_schema_module() {
    let defs = definitions();
    let code = compile_schema(&defs);
    assert!(code.starts_with("// This is a file generated by catte-tl-compiler, do not modify unless you know what you are doing.\n\nuse catte_tl_buffer::{TlBuffer, TlBufferError};\n"));
    assert!(code.contains(&compile_struct(&defs, &defs[2])));
    assert!(code.contains(&compile_reader(&defs, &defs[2])));
    assert!(code.contains(&compile_schema_object(&defs)));
    assert!(code.contains("773059779 => Ok(SchemaObject::User(read_user(data)?)),\n"));
    assert!(code.contains("301470424 => Ok(SchemaObject::ContactsSearch(read_contacts_search(data)?)),\n"));
    assert!(code.ends_with("        i => Err(TlBufferError::Custom(format!(\"no reader for {}\", i))),\n    }\n}"));
}

#[test]
fn generated_object_enum() {
    let defs = definitions();
    let code = compile_schema_object(&defs);
    assert!(code.starts_with("#[derive(Debug, Clone)]\npub enum SchemaObject {\nBoolFalse(BoolFalse),\nBoolTrue(BoolTrue),\nUser(User),\n"));
    assert!(code.contains("InvokeWithLayer(InvokeWithLayer),\nUserVariant(UserVariant),\nVector(Vec<SchemaObject>),\n"));
    assert!(code.contains("SchemaObject::UserVariant(inner_obj) => inner_obj.write(data),\n"));
    assert!(code.ends_with("SchemaObject::DeserializationError(_) => panic!(\"This object is not serializable\")       }\n   }\n}"));
}

#[test]
fn parsed_schemas_can_be_compiled() {
    assert!(can_compile(&definitions()));
    let nested = parse(tokenize("a#1 x:Vector<Vector<int>> = A;\n".to_string()));
    assert!(!can_compile(&nested));
}

#[test]
fn tokens_never_hold_blanks() {
    let toks = tokenize(SCHEMA.to_string());
    assert!(toks.iter().all(|t| !t.contains(' ') && !t.contains('\n')));
    assert_eq!(tokenize("a  b\n".to_string()), vec!["a".to_string(), "".to_string(), "b".to_string()]);
}

#[test]
fn variant_parameters_are_marked() {
    let defs = definitions();
    let user = &defs[2];
    assert_eq!(user.params[4].name, "photo");
    assert!(!user.params[4].ty.variant);
    let found = &defs[5];
    assert_eq!(found.params[1].name, "users");
    assert!(!found.params[1].ty.variant);
    assert!(found.params[1].ty.inner.as_ref().unwrap().variant);
    assert!(!found.params[0].ty.inner.as_ref().unwrap().variant);
    for d in defs.iter() {
        assert!(!d.return_type.variant);
    }
}

#[test]
fn schema_module_holds_every_part() {
    let defs = definitions();
    let code = compile_schema(&defs);
    for d in defs.iter() {
        assert!(code.contains(&compile_struct(&defs, d)));
        if d.id != 1 {
            assert!(code.contains(&compile_reader(&defs, d)));
        }
        if d.id != 0 && d.id != 1 {
            let arm = format!(
                "{} => Ok(SchemaObject::{}(read_{}(data)?)),\n",
                d.id,
                rustify_struct_name(&d.predicate),
                rustify_function_name(&d.predicate)
            );
            assert!(code.contains(&arm));
        }
    }
    assert!(code.contains(&compile_variant_enum("User".to_string(), &analyze_variant_constructors(&defs)[0].1)));
    assert!(code.contains("        1945237724 => {\n"));
}

#[test]
fn object_enum_has_one_arm_per_case() {
    let defs = definitions();
    let code = compile_schema_object(&defs);
    let mut names: Vec<String> = defs.iter().map(|d| rustify_struct_name(&d.predicate)).collect();
    names.push("UserVariant".to_string());
    for n in ["Vector", "DeserializationError", "RawVector", "MsgContainer"] {
        names.push(n.to_string());
    }
    let (cases, arms) = code.split_once("impl SchemaObject {").unwrap();
    for n in names.iter() {
        assert_eq!(cases.matches(&format!("\n{}(", n)).count(), 1, "case {}", n);
        assert_eq!(arms.matches(&format!("SchemaObject::{}(", n)).count(), 1, "arm {}", n);
    }
    assert_eq!(arms.matches("SchemaObject::").count(), names.len());
    assert!(arms.contains("SchemaObject::DeserializationError(_) => panic!("));
}
