use retour_utils::helpers::{fn_arg_names, fn_types};
use retour_utils::signature::{
    bare_fn_type, chain_call_parts, push_decimal, receiver_to_ptr_arg, replace_self_in_type, FnArg, PatType, Receiver, RefToken,
    Signature,
};
use retour_utils::tokens::{Delim, Tok};

fn ident(s: &str, span: usize) -> Tok {
    Tok::Ident { text: s.chars().collect(), span }
}

fn punct(c: char, span: usize) -> Tok {
    Tok::Punct { ch: c, joint: false, span }
}

fn text(t: &Tok) -> String {
    match t {
        Tok::Ident { text, .. } => text.iter().collect(),
        Tok::Lit { text, .. } => text.iter().collect(),
        Tok::Punct { ch, .. } => ch.to_string(),
        Tok::Group { delim, body, .. } => {
            let inner: Vec<String> = body.iter().map(text).collect();
            match delim {
                Delim::Paren => format!("({})", inner.join(" ")),
                Delim::Bracket => format!("[{}]", inner.join(" ")),
                Delim::Brace => format!("{{{}}}", inner.join(" ")),
            }
        },
    }
}

fn joined(v: &[Tok]) -> String {
    v.iter().map(text).collect::<Vec<_>>().join(" ")
}

fn colon2(span: usize) -> Vec<Tok> {
    vec![Tok::Punct { ch: ':', joint: true, span }, punct(':', span)]
}

#[test]
fn self_is_replaced_where_it_stands_alone() {
    let foo = ident("Foo", 99);
    let vec_self = vec![ident("Vec", 1), punct('<', 2), ident("Self", 3), punct('>', 4)];
    assert_eq!(joined(&replace_self_in_type(&vec_self, &foo)), "Vec < Foo >");

    let mut assoc = vec![ident("Self", 1)];
    assoc.extend(colon2(2));
    assoc.push(ident("Output", 3));
    assert_eq!(joined(&replace_self_in_type(&assoc, &foo)), "Self : : Output");

    let tuple = vec![Tok::Group { delim: Delim::Paren, body: vec![ident("Self", 1), punct(',', 2), ident("u8", 3)], span: 4 }];
    assert_eq!(joined(&replace_self_in_type(&tuple, &foo)), "(Foo , u8)");

    let mut qualified = vec![punct('<', 1), ident("Self", 2), ident("as", 3), ident("Tr", 4), punct('>', 5)];
    qualified.extend(colon2(6));
    qualified.push(ident("X", 7));
    assert_eq!(joined(&replace_self_in_type(&qualified, &foo)), "< Foo as Tr > : : X");

    let mac = vec![ident("m", 1), punct('!', 2), Tok::Group { delim: Delim::Paren, body: vec![ident("Self", 3)], span: 4 }];
    assert_eq!(joined(&replace_self_in_type(&mac, &foo)), "m ! (Self)");
}

#[test]
fn receivers_become_pointers() {
    let foo = ident("Foo", 99);
    let shared = Receiver { attrs: vec![], reference: Some(RefToken { and_span: 1 }), mutability: None, self_span: 2 };
    let p = receiver_to_ptr_arg(&shared, &foo);
    assert_eq!(joined(&p.pat), "self_ptr");
    assert_eq!(joined(&p.ty), "* const Foo");
    let unique = Receiver { attrs: vec![], reference: Some(RefToken { and_span: 1 }), mutability: Some(ident("mut", 3)), self_span: 2 };
    assert_eq!(joined(&receiver_to_ptr_arg(&unique, &foo).ty), "* mut Foo");
    let owned = Receiver { attrs: vec![], reference: None, mutability: None, self_span: 2 };
    assert_eq!(joined(&receiver_to_ptr_arg(&owned, &foo).ty), "* mut Foo");
}

fn sig_with_receiver() -> Signature {
    Signature {
        ident: ident("f", 1),
        fn_span: 2,
        paren_span: 3,
        inputs: vec![
            FnArg::Receiver(Receiver { attrs: vec![], reference: Some(RefToken { and_span: 4 }), mutability: None, self_span: 5 }),
            FnArg::Typed(PatType { attrs: vec![], pat: vec![ident("x", 6)], colon: punct(':', 7), ty: vec![ident("u8", 8)] }),
        ],
        variadic: None,
        output: None,
    }
}

#[test]
fn free_functions_lose_their_receiver() {
    let s = sig_with_receiver();
    let t = bare_fn_type(&s, &None, &None, None);
    assert_eq!(t.inputs.iter().map(|a| joined(a)).collect::<Vec<_>>(), vec!["u8"]);
    let with_self = bare_fn_type(&s, &None, &None, Some(&ident("Foo", 9)));
    assert_eq!(with_self.inputs.iter().map(|a| joined(a)).collect::<Vec<_>>(), vec!["* const Foo", "u8"]);

    let parts = chain_call_parts(&s, None);
    assert_eq!(parts.typed_args.iter().map(|a| joined(a)).collect::<Vec<_>>(), vec!["__arg0 : * mut ()", "x : u8"]);
    assert_eq!(parts.arg_names.iter().map(|a| joined(a)).collect::<Vec<_>>(), vec!["__arg0", "x"]);
    assert!(parts.ret_ty.is_empty());

    match fn_arg_names(&s) {
        Err(spans) => assert_eq!(spans, vec![5]),
        Ok(_) => panic!("a receiver is refused"),
    }
    assert!(fn_types(&s).is_err());
}

#[test]
fn argument_types() {
    let s = Signature {
        ident: ident("g", 1),
        fn_span: 2,
        paren_span: 3,
        inputs: vec![
            FnArg::Typed(PatType { attrs: vec![], pat: vec![ident("a", 4)], colon: punct(':', 5), ty: vec![ident("i32", 6)] }),
            FnArg::Typed(PatType { attrs: vec![], pat: vec![ident("b", 7)], colon: punct(':', 8), ty: vec![punct('&', 9), ident("str", 10)] }),
        ],
        variadic: None,
        output: None,
    };
    match fn_types(&s) {
        Ok(v) => assert_eq!(v.iter().map(|a| joined(a)).collect::<Vec<_>>(), vec!["i32", "& str"]),
        Err(_) => panic!("typed arguments only"),
    }
    match fn_arg_names(&s) {
        Ok(v) => assert_eq!(v.iter().map(|a| joined(a)).collect::<Vec<_>>(), vec!["a", "b"]),
        Err(_) => panic!("typed arguments only"),
    }
}

#[test]
fn decimal_spelling() {
    let mut v: Vec<char> = Vec::new();
    push_decimal(&mut v, 0);
    assert_eq!(v.iter().collect::<String>(), "0");
    let mut w: Vec<char> = "__arg".chars().collect();
    push_decimal(&mut w, 1203);
    assert_eq!(w.iter().collect::<String>(), "__arg1203");
}
