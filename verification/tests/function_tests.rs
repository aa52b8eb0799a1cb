use ro_parser::function::CallType;
use ro_parser::function::FuncParser;
use ro_parser::function::FuncSig;
use ro_parser::function::Function;
use ro_parser::function::Operation;
use ro_parser::params::ParamMap;
use ro_parser::tokenizer::tokenize;
use ro_parser::ParseError;

fn sv_fn(vec: Vec<&str>) -> Vec<String> {
    vec.iter().map(|s| String::from(*s)).collect()
}

#[test]
fn parse_fns_test() {
    let string_vec =
        |vec: Vec<&str>| -> Vec<String> { vec.iter().map(|s| String::from(*s)).collect() };
    let parse =
        |tokens: Vec<String>| -> Vec<FuncParser> { FuncParser::vec_from_tokens(tokens).unwrap() };

    // a simple function
    let mut tokens = string_vec(vec!["fn", "main", "(", ")", "{", "println", "(", ")", "}"]);
    let mut signature = string_vec(vec!["main", "(", ")"]);
    let mut code = string_vec(vec!["println", "(", ")"]);
    assert_eq!(parse(tokens)[0], FuncParser { signature, code });

    // a compilcated function
    tokens = string_vec(vec![
        "fn",
        "temp_convert",
        "(",
        "farenheit",
        ":",
        "isize",
        ")",
        "{",
        "var",
        "temp1",
        "=",
        "farenheit",
        "-",
        "32",
        "var",
        "temp2",
        "=",
        "temp1",
        "*",
        "5",
        "var",
        "temp3",
        "=",
        "temp2",
        "/",
        "9",
        "return",
        "temp3",
        "}",
    ]);
    signature = string_vec(vec!["temp_convert", "(", "farenheit", ":", "isize", ")"]);
    code = string_vec(vec![
        "var",
        "temp1",
        "=",
        "farenheit",
        "-",
        "32",
        "var",
        "temp2",
        "=",
        "temp1",
        "*",
        "5",
        "var",
        "temp3",
        "=",
        "temp2",
        "/",
        "9",
        "return",
        "temp3",
    ]);
    assert_eq!(parse(tokens)[0], FuncParser { signature, code });

    // multiple functions
    tokens = string_vec(vec![
        "fn",
        "main",
        "(",
        ")",
        "{",
        "println",
        "(",
        ")",
        "}",
        "fn",
        "temp_convert",
        "(",
        "farenheit",
        ":",
        "isize",
        ")",
        "{",
        "var",
        "temp1",
        "=",
        "farenheit",
        "-",
        "32",
        "var",
        "temp2",
        "=",
        "temp1",
        "*",
        "5",
        "var",
        "temp3",
        "=",
        "temp2",
        "/",
        "9",
        "return",
        "temp3",
        "}",
    ]);
    let fns = parse(tokens);
    assert_eq!(fns.len(), 2);

    signature = string_vec(vec!["main", "(", ")"]);
    code = string_vec(vec!["println", "(", ")"]);
    assert_eq!(fns[0], FuncParser { signature, code });

    signature = string_vec(vec!["temp_convert", "(", "farenheit", ":", "isize", ")"]);
    code = string_vec(vec![
        "var",
        "temp1",
        "=",
        "farenheit",
        "-",
        "32",
        "var",
        "temp2",
        "=",
        "temp1",
        "*",
        "5",
        "var",
        "temp3",
        "=",
        "temp2",
        "/",
        "9",
        "return",
        "temp3",
    ]);
    assert_eq!(fns[1], FuncParser { signature, code });
}

#[test]
fn parse_fn_signature_test() {
    let string_vec =
        |vec: Vec<&str>| -> Vec<String> { vec.iter().map(|s| String::from(*s)).collect() };

    let mut func_parser = FuncParser::default();

    // empty function signature
    assert_eq!(
        func_parser.clone().parse_signature(),
        FuncSig {
            name: None,
            parameters: None,
            return_type: None,
            result: None
        }
    );

    // named function
    func_parser.signature = string_vec(vec!["add"]);
    assert_eq!(
        func_parser.clone().parse_signature(),
        FuncSig {
            name: Some(String::from("add")),
            parameters: None,
            return_type: None,
            result: None
        }
    );

    // named with return type
    func_parser.signature = string_vec(vec!["add", ":", "float"]);
    assert_eq!(
        func_parser.clone().parse_signature(),
        FuncSig {
            name: Some(String::from("add")),
            parameters: None,
            return_type: Some(String::from("float")),
            result: None
        }
    );

    // just return type
    func_parser.signature = string_vec(vec![":", "float"]);
    assert_eq!(
        func_parser.clone().parse_signature(),
        FuncSig {
            name: None,
            parameters: None,
            return_type: Some(String::from("float")),
            result: None
        }
    );

    // named with parameter
    func_parser.signature = string_vec(vec!["add", "(", "one", ":", "float", ")"]);
    let mut parameters = ParamMap::new();
    parameters.insert(String::from("one"), String::from("float"));
    assert_eq!(
        func_parser.clone().parse_signature(),
        FuncSig {
            name: Some(String::from("add")),
            parameters: Some(parameters.clone()),
            return_type: None,
            result: None
        }
    );

    // named with parameters
    func_parser.signature = string_vec(vec![
        "add", "(", "one", ":", "float", ",", "two", ":", "float", ")",
    ]);
    parameters.insert(String::from("two"), String::from("float"));
    assert_eq!(
        func_parser.clone().parse_signature(),
        FuncSig {
            name: Some(String::from("add")),
            parameters: Some(parameters.clone()),
            return_type: None,
            result: None
        }
    );

    // named with parameters and a return type
    func_parser.signature = string_vec(vec![
        "add", "(", "one", ":", "float", ",", "two", ":", "float", ")", ":", "float",
    ]);
    assert_eq!(
        func_parser.clone().parse_signature(),
        FuncSig {
            name: Some(String::from("add")),
            parameters: Some(parameters.clone()),
            return_type: Some(String::from("float")),
            result: None
        }
    );

    // parameters and a return type
    func_parser.signature = string_vec(vec![
        "(", "one", ":", "float", ",", "two", ":", "float", ")", ":", "float",
    ]);
    assert_eq!(
        func_parser.clone().parse_signature(),
        FuncSig {
            name: None,
            parameters: Some(parameters.clone()),
            return_type: Some(String::from("float")),
            result: None
        }
    );

    // standalone function
    func_parser.signature = string_vec(vec![
        "add", "(", "one", ":", "float", ",", "two", ":", "float", ")", ":", "float",
    ]);
    assert_eq!(
        func_parser.clone().parse_signature(),
        FuncSig {
            name: Some(String::from("add")),
            parameters: Some(parameters.clone()),
            return_type: Some(String::from("float")),
            result: None
        }
    );

    // result
    func_parser.signature = string_vec(vec!["=>", "add"]);
    assert_eq!(
        func_parser.clone().parse_signature(),
        FuncSig {
            name: None,
            parameters: None,
            return_type: None,
            result: Some(String::from("add"))
        }
    );

    // name and result
    func_parser.signature = string_vec(vec!["add", "=>", "add"]);
    assert_eq!(
        func_parser.clone().parse_signature(),
        FuncSig {
            name: Some(String::from("add")),
            parameters: None,
            return_type: None,
            result: Some(String::from("add"))
        }
    );

    // return type and result
    func_parser.signature = string_vec(vec![":", "float", "=>", "add"]);
    assert_eq!(
        func_parser.clone().parse_signature(),
        FuncSig {
            name: None,
            parameters: None,
            return_type: Some(String::from("float")),
            result: Some(String::from("add"))
        }
    );

    // parameters and result
    func_parser.signature = string_vec(vec![
        "(", "one", ":", "float", ",", "two", ":", "float", ")", "=>", "add",
    ]);
    assert_eq!(
        func_parser.clone().parse_signature(),
        FuncSig {
            name: None,
            parameters: Some(parameters.clone()),
            return_type: None,
            result: Some(String::from("add"))
        }
    );

    // named function with parameters and result
    func_parser.signature = string_vec(vec![
        "add", "(", "one", ":", "float", ",", "two", ":", "float", ")", "=>", "add",
    ]);
    assert_eq!(
        func_parser.clone().parse_signature(),
        FuncSig {
            name: Some(String::from("add")),
            parameters: Some(parameters.clone()),
            return_type: None,
            result: Some(String::from("add"))
        }
    );

    // complete function signature
    func_parser.signature = string_vec(vec![
        "add", "(", "one", ":", "float", ",", "two", ":", "float", ")", ":", "float", "=>", "add",
    ]);
    assert_eq!(
        func_parser.clone().parse_signature(),
        FuncSig {
            name: Some(String::from("add")),
            parameters: Some(parameters.clone()),
            return_type: Some(String::from("float")),
            result: Some(String::from("add"))
        }
    );

    // complete unnamed function signature
    func_parser.signature = string_vec(vec![
        "(", "one", ":", "float", ",", "two", ":", "float", ")", ":", "float", "=>", "add",
    ]);
    assert_eq!(
        func_parser.parse_signature(),
        FuncSig {
            name: None,
            parameters: Some(parameters),
            return_type: Some(String::from("float")),
            result: Some(String::from("add"))
        }
    );
}

#[test]
fn parse_func_test() {
    let string_vec =
        |vec: Vec<&str>| -> Vec<String> { vec.iter().map(|s| String::from(*s)).collect() };

    // just a return statement
    let code = string_vec(vec!["ret", "0"]);
    assert_eq!(
        CallType::vec_from_tokens(code),
        vec![CallType::Return(String::from("0"))]
    );
}

#[test]
fn parse_fn_signature_from_source_header() {
    // The full header written as source text: tokenized, it parses back to
    // its name, parameters, and owning result.
    let header = tokenize(String::from("add(one:float,two:float)=>add"));
    let sig = FuncSig::from_tokens(header);
    assert_eq!(sig.name, Some(String::from("add")));
    assert_eq!(sig.return_type, None);
    assert_eq!(sig.result, Some(String::from("add")));
    let parameters = sig.parameters.unwrap();
    assert_eq!(parameters.get("one"), Some(&String::from("float")));
    assert_eq!(parameters.get("two"), Some(&String::from("float")));
}

#[test]
fn duplicate_parameter_names_last_write_wins() {
    let sig = FuncSig::from_tokens(sv_fn(vec![
        "(", "x", ":", "alpha", ",", "x", ":", "beta", ")",
    ]));
    let parameters = sig.parameters.unwrap();
    assert_eq!(parameters.get("x"), Some(&String::from("beta")));
    assert_eq!(parameters.get("y"), None);
}

#[test]
fn parse_calls_reduces_assignments() {
    let body = sv_fn(vec![
        "var", "x", "=", "a", "+", "b", "y", "=", "c", "ret", "x",
    ]);
    let parser = FuncParser { signature: Vec::new(), code: body };
    let calls = parser.parse_calls().unwrap();
    assert_eq!(
        calls,
        vec![
            CallType::Init(String::from("x")),
            CallType::Operate(
                String::from("x"),
                String::from("a"),
                Operation::Add,
                String::from("b")
            ),
            CallType::Move(String::from("y"), String::from("c")),
            CallType::Return(String::from("x")),
        ]
    );
}

#[test]
fn parse_calls_collects_invocations() {
    let body = sv_fn(vec!["print", "(", "a", ",", "b", ")"]);
    let calls = CallType::vec_from_tokens(body);
    assert_eq!(
        calls,
        vec![CallType::Call(
            String::from("print"),
            sv_fn(vec!["a", "b"])
        )]
    );
}

#[test]
fn unsupported_expression_shape_is_omitted() {
    // A captured expression span of two tokens is neither a move nor an
    // operation: the call is omitted, not an error.
    let calls = vec![CallType::AssignExpr(
        String::from("x"),
        sv_fn(vec!["a", "+"]),
    )];
    assert_eq!(CallType::sets_to_ops(calls), Ok(vec![]));
}

#[test]
fn vec_from_string_extracts_blocks() {
    let parsers =
        FuncParser::vec_from_string(String::from("fn f(){ret 0} fn g(){ret 1}")).unwrap();
    assert_eq!(parsers.len(), 2);
    assert_eq!(parsers[0].signature, sv_fn(vec!["f", "(", ")"]));
    assert_eq!(parsers[0].code, sv_fn(vec!["ret", "0"]));

    // The same block parsed three ways agrees with itself.
    let sig = FuncSig::from_func_parser(parsers[0].clone());
    assert_eq!(sig, parsers[0].parse_signature());
    let function = Function::from_parser(parsers[0].clone()).unwrap();
    assert_eq!(function, parsers[0].clone().parse().unwrap());
    assert_eq!(
        function,
        Function::new(sig, parsers[0].parse_calls().unwrap())
    );
    assert_eq!(function.signature.name, Some(String::from("f")));
    assert_eq!(function.calls, vec![CallType::Return(String::from("0"))]);

    assert_eq!(
        FuncParser::vec_from_string(String::from("fn broken {")),
        Err(ParseError::UnterminatedBlock)
    );
}

#[test]
fn unknown_operator_is_reported() {
    let calls = vec![CallType::AssignExpr(
        String::from("x"),
        sv_fn(vec!["a", ".", "b"]),
    )];
    assert_eq!(
        CallType::sets_to_ops(calls),
        Err(ParseError::UnknownOperator)
    );
    assert_eq!(
        Operation::from_str(String::from("%")),
        Ok(Operation::Mod)
    );
    assert_eq!(
        Operation::from_str(String::from("=>")),
        Err(ParseError::UnknownOperator)
    );
}
