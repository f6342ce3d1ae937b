use memlayout::error::CompileError;
use memlayout::prs::compile;
use memlayout::tok::{Token, TokenStream};
use memlayout::types::{make_pointer, GlobalNameSpace, Struct, Type, TypeName, Union};

fn run(text: &str) -> Result<GlobalNameSpace, CompileError> {
    compile(&mut text.to_string())
}

#[test]
fn parse_test_simple_case_for_tokenizer() {
    let mut test = format!("typedef DWORD u32;");
    let rslt = Token::parse(&mut test).unwrap();
    assert_eq!(
        rslt,
        vec![Token::Typedef, Token::DWORD, Token::Ident(format!("u32")), Token::SemiColon]
    )
}

#[test]
fn tests_test_simple_case_for_tokenizer() {
    let mut test = "typedef DWORD u32;".to_string();
    let rslt = Token::parse(&mut test).unwrap();
    assert_eq!(
        rslt,
        vec![Token::Typedef, Token::DWORD, Token::Ident(format!("u32")), Token::SemiColon]
    )
}

#[test]
fn parse_test_simple_case_for_parser() {
    let tests = vec![
        ("typedef DWORD u32;", {
            let mut ns = GlobalNameSpace::new();
            ns.insert(TypeName::Normal(format!("u32")), Type::Primitive(4));
            ns
        }),
        ("struct { BYTE b; };", GlobalNameSpace::new()),
        ("struct s { BYTE b; };", {
            let mut ns = GlobalNameSpace::new();
            let mut s = Struct::new();
            s.insert(format!("b"), 1);
            ns.insert(TypeName::Struct(format!("s")), Type::Struct(s));
            ns
        }),
    ];
    for (s, m) in tests {
        assert_eq!(compile(&mut format!("{}", s)).unwrap(), m)
    }
}

#[test]
fn prs_test_simple_case_for_parser() {
    let tests = vec![
        ("typedef DWORD u32;", {
            let mut ns = GlobalNameSpace::new();
            ns.insert(TypeName::Normal(format!("u32")), Type::Primitive(4));
            ns
        }),
        ("struct { BYTE b; };", GlobalNameSpace::new()),
        ("struct s { BYTE b; };", {
            let mut ns = GlobalNameSpace::new();
            let mut s = Struct::new();
            s.insert(format!("b"), 1);
            ns.insert(TypeName::Struct(format!("s")), Type::Struct(s));
            ns
        }),
        ("typedef struct _s { DWORD val; } s;", {
            let mut structure = Struct::new();
            structure.insert(format!("val"), 4);
            let mut ns = GlobalNameSpace::new();
            ns.insert(TypeName::Struct(format!("_s")), Type::Struct(structure.copy()));
            ns.insert(TypeName::Normal(format!("s")), Type::Struct(structure));
            ns
        }),
    ];
    for (s, m) in tests {
        assert_eq!(compile(&mut format!("{}", s)).unwrap(), m)
    }
}

#[test]
fn tests_test_simple_case_for_parser() {
    let tests = vec![
        ("typedef DWORD u32;", {
            let mut ns = GlobalNameSpace::new();
            ns.insert(TypeName::Normal(format!("u32")), Type::Primitive(4));
            ns
        }),
        ("struct { BYTE b; };", GlobalNameSpace::new()),
        ("struct s { BYTE b; };", {
            let mut ns = GlobalNameSpace::new();
            let mut s = Struct::new();
            s.insert(format!("b"), 1);
            ns.insert(TypeName::Struct(format!("s")), Type::Struct(s));
            ns
        }),
        ("typedef struct _s { DWORD val; } s;", {
            let mut structure = Struct::new();
            structure.insert(format!("val"), 4);
            let mut ns = GlobalNameSpace::new();
            ns.insert(TypeName::Struct(format!("_s")), Type::Struct(structure.copy()));
            ns.insert(TypeName::Normal(format!("s")), Type::Struct(structure));
            ns
        }),
        ("typedef struct { union { DWORD val; WORD word; }; } s;", {
            let mut u = Union::new();
            u.insert(format!("val"), 4);
            u.insert(format!("word"), 2);
            let mut s = Struct::new();
            assert_eq!(s.inject_union(u), Ok(()));
            let mut ns = GlobalNameSpace::new();
            ns.insert(TypeName::Normal(format!("s")), Type::Struct(s));
            ns
        }),
    ];
    for (s, m) in tests {
        assert_eq!(compile(&mut format!("{}", s)).unwrap(), m)
    }
}

#[test]
fn test_parser_output() {
    let cases = vec![(
        format!("typedef struct {{\n\t{:32} word;\n\t{:32} val;\n}} s;\n", "00 - 02", "00 - 04"),
        compile(&mut format!("{}", "typedef struct { union { DWORD val; WORD word; }; } s;"))
            .unwrap(),
    )];
    for (lhs, rhs) in cases {
        assert_eq!(lhs, rhs.render())
    }
}

#[test]
fn typedef_dword_gives_one_binding() {
    let ns = run("typedef DWORD u32;").unwrap();
    assert_eq!(ns.len(), 1);
    let (k, v) = &ns.iter()[0];
    assert_eq!(*k, TypeName::Normal("u32".to_string()));
    assert_eq!(*v, Type::Primitive(4));
}

#[test]
fn anonymous_struct_is_accepted_and_binds_nothing() {
    assert_eq!(run("struct { BYTE b; };").unwrap().len(), 0);
}

#[test]
fn empty_struct_is_rejected() {
    assert_eq!(run("struct s { };"), Err(CompileError::EmptyAggregate));
    assert_eq!(run("union u { };"), Err(CompileError::EmptyAggregate));
}

#[test]
fn forward_declaration_then_definition() {
    let both = run("struct s; struct s { BYTE b; };").unwrap();
    let alone = run("struct s { BYTE b; };").unwrap();
    assert_eq!(both, alone);
    assert_eq!(both.len(), 1);
}

#[test]
fn forward_declaration_alone_is_unresolved() {
    let ns = run("struct s;").unwrap();
    let key = TypeName::Struct("s".to_string());
    assert_eq!(ns.get(&key), Some(&Type::Unknown(key.clone())));
    assert_eq!(ns.render(), "struct s;\n");
}

#[test]
fn forward_declaration_after_definition_changes_nothing() {
    let ns = run("struct s { BYTE b; }; struct s;").unwrap();
    assert_eq!(ns, run("struct s { BYTE b; };").unwrap());
}

#[test]
fn conflicting_redefinition() {
    assert_eq!(
        run("struct s { BYTE b; }; struct s { WORD w; };"),
        Err(CompileError::ConflictingDefinition(TypeName::Struct("s".to_string())))
    );
}

#[test]
fn equal_redefinition_is_accepted() {
    let ns = run("struct s { BYTE b; }; struct s { BYTE b; };").unwrap();
    assert_eq!(ns.len(), 1);
}

#[test]
fn union_redefinition_in_other_order_is_equal() {
    let ns = run("union u { BYTE a; WORD b; }; union u { WORD b; BYTE a; };").unwrap();
    assert_eq!(ns.len(), 1);
}

#[test]
fn anonymous_union_injected_into_struct() {
    let ns = run("typedef struct { union { DWORD val; WORD word; }; } s;").unwrap();
    match ns.get(&TypeName::Normal("s".to_string())) {
        Some(Type::Struct(s)) => {
            let fs = s.layout().fields();
            assert_eq!(fs.len(), 2);
            assert_eq!((fs[0].name.as_str(), fs[0].offset, fs[0].size), ("val", 0, 4));
            assert_eq!((fs[1].name.as_str(), fs[1].offset, fs[1].size), ("word", 0, 2));
        }
        other => panic!("not a struct: {:?}", other),
    }
}

#[test]
fn anonymous_struct_injected_after_existing_fields() {
    let ns = run("struct s { DWORD a; struct { BYTE b; WORD c; }; BYTE d; };").unwrap();
    match ns.get(&TypeName::Struct("s".to_string())) {
        Some(Type::Struct(s)) => {
            let got: Vec<(String, usize, usize)> =
                s.layout().fields().iter().map(|f| (f.name.clone(), f.offset, f.size)).collect();
            assert_eq!(
                got,
                vec![
                    ("a".to_string(), 0, 4),
                    ("b".to_string(), 4, 1),
                    ("c".to_string(), 5, 2),
                    ("d".to_string(), 7, 1)
                ]
            );
            assert_eq!(s.size(), 8);
        }
        other => panic!("not a struct: {:?}", other),
    }
}

#[test]
fn anonymous_struct_in_union_keeps_offsets() {
    let ns = run("union u { DWORD a; struct { BYTE b; WORD c; }; };").unwrap();
    match ns.get(&TypeName::Union("u".to_string())) {
        Some(Type::Union(u)) => {
            let got: Vec<(String, usize, usize)> =
                u.layout().fields().iter().map(|f| (f.name.clone(), f.offset, f.size)).collect();
            assert_eq!(
                got,
                vec![("a".to_string(), 0, 4), ("b".to_string(), 0, 1), ("c".to_string(), 1, 2)]
            );
            assert_eq!(u.size(), 4);
        }
        other => panic!("not a union: {:?}", other),
    }
}

#[test]
fn pointer_fields_are_four_bytes() {
    let ns = run("struct s { BYTE *a; DWORD **b; struct { DWORD x; DWORD y; } ***c; q *d; };")
        .unwrap();
    match ns.get(&TypeName::Struct("s".to_string())) {
        Some(Type::Struct(s)) => {
            let sizes: Vec<usize> = s.layout().fields().iter().map(|f| f.size).collect();
            let offsets: Vec<usize> = s.layout().fields().iter().map(|f| f.offset).collect();
            assert_eq!(sizes, vec![4, 4, 4, 4]);
            assert_eq!(offsets, vec![0, 4, 8, 12]);
        }
        other => panic!("not a struct: {:?}", other),
    }
}

#[test]
fn nested_named_struct_field_takes_its_size() {
    let ns = run("struct s { struct t { DWORD x; WORD y; } inner; BYTE z; };").unwrap();
    match ns.get(&TypeName::Struct("s".to_string())) {
        Some(Type::Struct(s)) => {
            let got: Vec<(usize, usize)> =
                s.layout().fields().iter().map(|f| (f.offset, f.size)).collect();
            assert_eq!(got, vec![(0, 6), (6, 1)]);
        }
        other => panic!("not a struct: {:?}", other),
    }
}

#[test]
fn typedef_declarators_apply_their_own_stars() {
    let ns = run("typedef WORD w, *pw, **ppw;").unwrap();
    assert_eq!(ns.len(), 3);
    assert_eq!(ns.get(&TypeName::Normal("w".to_string())), Some(&Type::Primitive(2)));
    let p = make_pointer(Type::Primitive(2));
    assert_eq!(ns.get(&TypeName::Normal("pw".to_string())), Some(&p));
    let pp = make_pointer(make_pointer(Type::Primitive(2)));
    assert_eq!(ns.get(&TypeName::Normal("ppw".to_string())), Some(&pp));
    assert_eq!(pp.copy(), pp);
}

#[test]
fn typedef_of_unknown_name() {
    let ns = run("typedef foo bar;").unwrap();
    assert_eq!(
        ns.get(&TypeName::Normal("bar".to_string())),
        Some(&Type::Unknown(TypeName::Normal("foo".to_string())))
    );
}

#[test]
fn duplicate_field_detected() {
    assert_eq!(
        run("struct s { BYTE a; BYTE a; };"),
        Err(CompileError::DuplicateField("a".to_string()))
    );
    assert_eq!(
        run("struct s { BYTE a; union { WORD a; }; };"),
        Err(CompileError::DuplicateField("a".to_string()))
    );
}

#[test]
fn duplicate_typedef_name_detected() {
    assert_eq!(
        run("typedef BYTE a, *a;"),
        Err(CompileError::DuplicateTypedefName("a".to_string()))
    );
}

#[test]
fn duplicate_type_name_detected() {
    assert_eq!(
        run("typedef BYTE a; typedef WORD a;"),
        Err(CompileError::DuplicateTypeName(TypeName::Normal("a".to_string())))
    );
    assert_eq!(
        run("struct s; typedef struct s { BYTE b; } t;"),
        Err(CompileError::DuplicateTypeName(TypeName::Struct("s".to_string())))
    );
}

#[test]
fn unexpected_character_detected() {
    assert_eq!(run("typedef BYTE $;"), Err(CompileError::UnexpectedCharacter('$')));
    assert_eq!(run("typedef BYTE 1a;"), Err(CompileError::UnexpectedCharacter('1')));
}

#[test]
fn unexpected_token_detected() {
    assert_eq!(run("BYTE a;"), Err(CompileError::UnexpectedToken(Token::BYTE)));
    assert_eq!(
        run("struct s { BYTE a }"),
        Err(CompileError::UnexpectedToken(Token::RightBrace))
    );
    assert_eq!(
        run("typedef BYTE a b;"),
        Err(CompileError::UnexpectedToken(Token::Ident("b".to_string())))
    );
}

#[test]
fn unexpected_eof_detected() {
    assert_eq!(run("struct s { BYTE a;"), Err(CompileError::UnexpectedEof));
    assert_eq!(run("typedef BYTE a"), Err(CompileError::UnexpectedEof));
    assert_eq!(run("struct s { BYTE a; }"), Err(CompileError::UnexpectedEof));
}

#[test]
fn empty_text_gives_empty_namespace() {
    assert_eq!(run("").unwrap().len(), 0);
}

#[test]
fn compile_twice_gives_same_namespace() {
    let text = "typedef struct _s { DWORD a; union { WORD b; BYTE c; }; } s, *ps;";
    assert_eq!(run(text).unwrap(), run(text).unwrap());
}

#[test]
fn report_lists_fields_by_offset() {
    let ns = run("struct s { BYTE z; foo q; WORD a; };").unwrap();
    let expected = format!(
        "struct s {{\n\t{:32} z;\n\t{:32} q;\n\t{:32} a;\n}};\n",
        "00 - 01", "01 (offset only, size unknown)", "01 - 03"
    );
    assert_eq!(ns.render(), expected);
}

#[test]
fn report_of_pointer_and_primitive() {
    let ns = run("typedef DWORD *pd;").unwrap();
    assert_eq!(ns.render(), "typedef primitive[size: 4]* pd;\n");
}

#[test]
fn report_uses_upper_case_hex() {
    let mut s = Struct::new();
    s.insert("a".to_string(), 10);
    s.insert("b".to_string(), 250);
    assert_eq!(
        s.render(),
        format!("struct {{\n\t{:32} a;\n\t{:32} b;\n}}", "00 - 0A", "0A - 104")
    );
}

#[test]
fn token_stream_reads_in_order() {
    let mut ts = TokenStream::new(vec![Token::Struct, Token::SemiColon]);
    assert_eq!(ts.peek(), Some(Token::Struct));
    assert_eq!(ts.read(), Some(Token::Struct));
    assert_eq!(ts.eat(Token::Comma), Err(CompileError::UnexpectedToken(Token::SemiColon)));
    assert_eq!(ts.read(), None);
    assert_eq!(ts.eat(Token::Comma), Err(CompileError::UnexpectedEof));
}
