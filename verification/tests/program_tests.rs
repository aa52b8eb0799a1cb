use ro_parser::function::CallType;
use ro_parser::function::FuncParser;
use ro_parser::params::ParamMap;
use ro_parser::parse;
use ro_parser::program::ProgramParser;
use ro_parser::result::ResultParser;
use ro_parser::result::ResultSig;
use ro_parser::ParseError;

fn sv_prog(vec: Vec<&str>) -> Vec<String> {
    vec.iter().map(|s| String::from(*s)).collect()
}

#[test]
fn parse_results_test() {
    let string_vec =
        |vec: Vec<&str>| -> Vec<String> { vec.iter().map(|s| String::from(*s)).collect() };

    // a basic result
    let mut tokens = string_vec(vec![
        "result", "add", "(", "one", ":", "float", ",", "two", ":", "float", ")", "{", "}",
    ]);
    let mut signature = string_vec(vec![
        "add", "(", "one", ":", "float", ",", "two", ":", "float", ")",
    ]);
    let mut functions: Vec<FuncParser> = vec![];
    assert_eq!(
        ProgramParser::from_tokens(tokens).unwrap(),
        ProgramParser {
            results: vec![ResultParser {
                signature,
                functions: functions.clone()
            }],
            functions
        }
    );

    // a result containing a function
    tokens = string_vec(vec![
        "result", "add", "(", "one", ":", "float", ",", "two", ":", "float", ")", "{", "fn", "{",
        "return", "one", "+", "two", "}", "}",
    ]);
    signature = string_vec(vec![
        "add", "(", "one", ":", "float", ",", "two", ":", "float", ")",
    ]);
    functions = vec![FuncParser {
        signature: vec![],
        code: string_vec(vec!["return", "one", "+", "two"]),
    }];
    assert_eq!(
        ProgramParser::from_tokens(tokens).unwrap(),
        ProgramParser {
            results: vec![ResultParser {
                signature,
                functions: functions.clone()
            }],
            functions: vec![]
        }
    );

    // a result containing two functions
    tokens = string_vec(vec![
        "result", "add", "(", "one", ":", "float", ",", "two", ":", "float", ")", "{", "fn", "{",
        "return", "one", "+", "two", "}", "fn", "{", "return", "one", "+", "two", "}", "}",
    ]);
    signature = string_vec(vec![
        "add", "(", "one", ":", "float", ",", "two", ":", "float", ")",
    ]);
    let mut function = FuncParser {
        signature: vec![],
        code: string_vec(vec!["return", "one", "+", "two"]),
    };
    functions = vec![function.clone(), function.clone()];
    assert_eq!(
        ProgramParser::from_tokens(tokens).unwrap(),
        ProgramParser {
            results: vec![ResultParser {
                signature,
                functions: functions.clone()
            }],
            functions: vec![]
        }
    );

    // a function outside of the result
    tokens = string_vec(vec![
        "result", "add", "(", "one", ":", "float", ",", "two", ":", "float", ")", "{", "fn", "{",
        "return", "one", "+", "two", "}", "}", "fn", "=>", "add", "{", "return", "one", "+", "two",
        "}",
    ]);
    signature = string_vec(vec![
        "add", "(", "one", ":", "float", ",", "two", ":", "float", ")",
    ]);
    function = FuncParser {
        signature: vec![],
        code: string_vec(vec!["return", "one", "+", "two"]),
    };
    functions = vec![function];
    let function1 = FuncParser {
        signature: string_vec(vec!["=>", "add"]),
        code: string_vec(vec!["return", "one", "+", "two"]),
    };
    assert_eq!(
        ProgramParser::from_tokens(tokens).unwrap(),
        ProgramParser {
            results: vec![ResultParser {
                signature,
                functions
            }],
            functions: vec![function1]
        }
    );
}

#[test]
fn parse_result_sig_test() {
    let string_vec =
        |vec: Vec<&str>| -> Vec<String> { vec.iter().map(|s| String::from(*s)).collect() };

    // complicated signature
    let mut signature = string_vec(vec![
        "add", "(", "one", ":", "float", ",", "two", ":", "float", ")", ":", "float",
    ]);
    let mut parameters = ParamMap::new();
    let rt = Some(String::from("float"));
    let name = String::from("add");
    parameters.insert(String::from("one"), String::from("float"));
    parameters.insert(String::from("two"), String::from("float"));
    assert_eq!(
        ResultSig::from_tokens(signature).unwrap(),
        ResultSig {
            name: name.clone(),
            return_type: rt.clone(),
            parameters: parameters.clone()
        }
    );

    // simple signature
    signature = string_vec(vec!["add", "(", ")"]);
    parameters = ParamMap::new();
    assert_eq!(
        ResultSig::from_tokens(signature).unwrap(),
        ResultSig {
            name: name.clone(),
            return_type: None,
            parameters: parameters.clone()
        }
    );

    // return signature
    signature = string_vec(vec!["add", "(", ")", ":", "float"]);
    assert_eq!(
        ResultSig::from_tokens(signature).unwrap(),
        ResultSig {
            name: name.clone(),
            return_type: rt,
            parameters: parameters.clone()
        }
    );

    // one parameter with an unnecessary comma
    signature = string_vec(vec!["add", "(", "one", ":", "float", ",", ")"]);
    parameters.insert(String::from("one"), String::from("float"));
    assert_eq!(
        ResultSig::from_tokens(signature).unwrap(),
        ResultSig {
            name,
            return_type: None,
            parameters
        }
    );
}

#[test]
fn end_to_end_result_program() {
    // A whole source text: one result group holding one anonymous function.
    let program = parse(String::from(
        "result add(one:float,two:float){fn{return one+two}}",
    ))
    .unwrap();
    assert_eq!(program.functions, vec![]);
    assert_eq!(program.results.len(), 1);
    let group = &program.results[0];
    assert_eq!(group.signature.name, String::from("add"));
    assert_eq!(group.signature.return_type, None);
    assert_eq!(
        group.signature.parameters.get("one"),
        Some(&String::from("float"))
    );
    assert_eq!(
        group.signature.parameters.get("two"),
        Some(&String::from("float"))
    );
    assert_eq!(group.functions.len(), 1);
    assert_eq!(group.functions[0].signature.name, None);
    assert_eq!(
        group.functions[0].calls,
        vec![CallType::Return(String::from("one"))]
    );
}

#[test]
fn end_to_end_tagged_function_moves_home() {
    // A tagged top-level function is re-homed into its result group, after
    // the group's own function, and leaves the top level.
    let program = parse(String::from(
        "result add(one:float,two:float){fn{ret one}} fn => add {ret two}",
    ))
    .unwrap();
    assert_eq!(program.functions, vec![]);
    assert_eq!(program.results.len(), 1);
    let group = &program.results[0];
    assert_eq!(group.functions.len(), 2);
    assert_eq!(
        group.functions[0].calls,
        vec![CallType::Return(String::from("one"))]
    );
    assert_eq!(
        group.functions[1].calls,
        vec![CallType::Return(String::from("two"))]
    );
    assert_eq!(
        group.functions[1].signature.result,
        Some(String::from("add"))
    );
}

#[test]
fn end_to_end_top_level_function() {
    let program = parse(String::from("fn main() { print(x) ret 0 }")).unwrap();
    assert_eq!(program.results, vec![]);
    assert_eq!(program.functions.len(), 1);
    let main = &program.functions[0];
    assert_eq!(main.signature.name, Some(String::from("main")));
    assert_eq!(
        main.calls,
        vec![
            CallType::Call(String::from("print"), vec![String::from("x")]),
            CallType::Return(String::from("0")),
        ]
    );
}

#[test]
fn unterminated_block_is_reported() {
    assert_eq!(
        parse(String::from("fn main() { ret 0")),
        Err(ParseError::UnterminatedBlock)
    );
    assert_eq!(
        parse(String::from("fn main()")),
        Err(ParseError::UnterminatedBlock)
    );
    assert_eq!(
        parse(String::from("result add(one:float) { fn { }")),
        Err(ParseError::UnterminatedBlock)
    );
}

#[test]
fn malformed_result_signature_is_reported() {
    // The group's header is too short to carry a parameter list.
    assert_eq!(
        parse(String::from("result add { }")),
        Err(ParseError::MalformedSignature)
    );
}

#[test]
fn unknown_operator_is_reported_end_to_end() {
    assert_eq!(
        parse(String::from("fn f { var x = a . b }")),
        Err(ParseError::UnknownOperator)
    );
}

#[test]
fn unresolved_result_reference_is_reported() {
    assert_eq!(
        parse(String::from("fn => missing { ret 0 }")),
        Err(ParseError::UnresolvedResultReference)
    );
}

#[test]
fn move_funcs_and_group_parsing_work_stepwise() {
    let tokens = sv_prog(vec![
        "result", "r", "(", "x", ":", "float", ")", "{", "}", "fn", "a", "=>", "r", "{", "ret",
        "x", "}", "fn", "keep", "{", "}",
    ]);
    let mut pp = ProgramParser::from_tokens(tokens).unwrap();
    assert_eq!(pp.functions.len(), 2);
    assert_eq!(pp.results.len(), 1);

    // The group's signature parses on its own.
    let sig = ResultSig::from_result_parser(pp.results[0].clone()).unwrap();
    assert_eq!(sig, pp.results[0].parse_signature().unwrap());
    assert_eq!(sig.name, String::from("r"));
    assert_eq!(sig.parameters.get("x"), Some(&String::from("float")));

    // The move re-homes the tagged function and keeps the other.
    assert_eq!(pp.move_funcs(), Ok(()));
    assert_eq!(pp.functions.len(), 1);
    assert_eq!(pp.results[0].functions.len(), 1);
    assert_eq!(
        pp.results[0].functions[0].signature,
        sv_prog(vec!["a", "=>", "r"])
    );

    // Each half then parses independently.
    let groups = pp.results[0].parse().unwrap();
    assert_eq!(groups.functions.len(), 1);
    assert_eq!(
        groups.functions[0].calls,
        vec![CallType::Return(String::from("x"))]
    );
    let kept = pp.parse_funcs().unwrap();
    assert_eq!(kept.len(), 1);
    assert_eq!(kept[0].signature.name, Some(String::from("keep")));
    let parsed_groups = pp.parse_results().unwrap();
    assert_eq!(parsed_groups, vec![groups]);
}

#[test]
fn move_funcs_appends_in_encounter_order() {
    let tokens = sv_prog(vec![
        "result", "r", "(", ")", "{", "}", "fn", "a", "=>", "r", "{", "ret", "1", "}", "fn", "b",
        "=>", "r", "{", "ret", "2", "}",
    ]);
    let mut pp = ProgramParser::from_tokens(tokens).unwrap();
    let program = pp.parse().unwrap();
    assert_eq!(program.functions, vec![]);
    assert_eq!(program.results.len(), 1);
    let group = &program.results[0];
    assert_eq!(group.functions.len(), 2);
    assert_eq!(group.functions[0].signature.name, Some(String::from("a")));
    assert_eq!(group.functions[1].signature.name, Some(String::from("b")));
}
