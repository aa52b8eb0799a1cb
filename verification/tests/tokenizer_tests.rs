use ro_parser::tokenizer::remove_block_comments;
use ro_parser::tokenizer::tokenize;
use ro_parser::tokenizer::tokenize_with_block_comments;

fn sv_tok(vec: Vec<&str>) -> Vec<String> {
    vec.iter().map(|s| String::from(*s)).collect()
}

#[test]
fn tokenize_test() {
    // test a simple function
    let mut code = String::from("fn main() {\n\t// comment\n\tprint(add(1, 2).to_string())\n}");
    let mut tokens = vec![
        "fn",
        "main",
        "(",
        ")",
        "{",
        "print",
        "(",
        "add",
        "(",
        "1",
        ",",
        "2",
        ")",
        ".",
        "to_string",
        "(",
        ")",
        ")",
        "}",
    ];
    assert_eq!(tokenize_with_block_comments(code), tokens);

    // test a function signature
    code = String::from("result sort(list : float): float");
    tokens = vec![
        "result", "sort", "(", "list", ":", "float", ")", ":", "float",
    ];
    assert_eq!(tokenize_with_block_comments(code), tokens);

    // test operators when there are no spaces
    code = String::from("fn addtwo (one:float, two: float): float {\n\treturn one+two\n}");
    tokens = vec![
        "fn", "addtwo", "(", "one", ":", "float", ",", "two", ":", "float", ")", ":", "float", "{",
        "return", "one", "+", "two", "}",
    ];
    assert_eq!(tokenize_with_block_comments(code), tokens);

    // test operations with no spaces
    code = String::from("fn => Add {\n\tvar one'=one+1-1\n\treturn one' + two}");
    tokens = vec![
        "fn", "=>", "Add", "{", "var", "one'", "=", "one", "+", "1", "-", "1", "return", "one'",
        "+", "two", "}",
    ];
    assert_eq!(tokenize_with_block_comments(code), tokens);

    // test toggleable comment blocks
    code = String::from(
        "fn {\n\t //* a comment that has been toggled off\n\treturn one + two\n\t*/\n}",
    );
    tokens = vec!["fn", "{", "return", "one", "+", "two", "*/", "}"];
    assert_eq!(tokenize_with_block_comments(code), tokens);

    // teat weird spacing
    code =
        String::from("fn add1 {\n\t/// docstring\n\tvar temp :float = one +two\n\treturn temp\n}");
    tokens = vec![
        "fn", "add1", "{", "var", "temp", ":", "float", "=", "one", "+", "two", "return", "temp",
        "}",
    ];
    assert_eq!(tokenize_with_block_comments(code), tokens);
}

#[test]
fn code_block_test() {
    // test a simple block
    let mut code = String::from("fn main() {\n\t/* comment */\n\tprint(add(1, 2).to_string())\n}");
    let mut tokens = vec![
        "fn",
        "main",
        "(",
        ")",
        "{",
        "print",
        "(",
        "add",
        "(",
        "1",
        ",",
        "2",
        ")",
        ".",
        "to_string",
        "(",
        ")",
        ")",
        "}",
    ];
    assert_eq!(tokenize(code), tokens);

    // test a block which removes operators
    code = String::from("result sort(list /*:*/ float): float");
    tokens = vec!["result", "sort", "(", "list", "float", ")", ":", "float"];
    assert_eq!(tokenize(code), tokens);

    // test comment blocks at the end of a word
    code = String::from("fn addtwo (one:floa/*t*/, two: float): float {\n\treturn one+two\n}");
    tokens = vec![
        "fn", "addtwo", "(", "one", ":", "floa", ",", "two", ":", "float", ")", ":", "float", "{",
        "return", "one", "+", "two", "}",
    ];
    assert_eq!(tokenize(code), tokens);

    // test toggle off blocks
    code = String::from(
        "fn {\n\t //* a comment that has been toggled off\n\treturn one + two\n\t*/\n}",
    );
    tokens = vec!["fn", "{", "return", "one", "+", "two", "}"];
    assert_eq!(tokenize(code), tokens);

    // test toggled on blocks
    code =
        String::from("fn {\n\t /* a comment that has been toggled on\n\treturn one + two\n\t*/\n}");
    tokens = vec!["fn", "{", "}"];
    assert_eq!(tokenize(code), tokens);
}

#[test]
fn tokenize_empty_and_whitespace() {
    assert_eq!(tokenize(String::new()), Vec::<String>::new());
    assert_eq!(tokenize(String::from(" \t\r\n  ")), Vec::<String>::new());
}

#[test]
fn tokenize_splits_plain_words_on_whitespace() {
    // No operators, keywords or comments: splitting happens purely on
    // whitespace runs.
    let code = String::from("alpha  beta\tgamma\ndelta\r\nepsilon");
    let tokens = sv_tok(vec!["alpha", "beta", "gamma", "delta", "epsilon"]);
    assert_eq!(tokenize(code), tokens);
}

#[test]
fn remove_block_comments_is_idempotent() {
    let raw = tokenize_with_block_comments(String::from(
        "fn { /* hidden tokens */ return one /* and */ + two }",
    ));
    let once = remove_block_comments(raw);
    let twice = remove_block_comments(once.clone());
    assert_eq!(twice, once);
    assert_eq!(once, sv_tok(vec!["fn", "{", "return", "one", "+", "two", "}"]));
}

#[test]
fn remove_block_comments_toggle_does_not_nest() {
    // A second `/*` while already inside a comment has no effect, so the
    // first `*/` closes the comment and later tokens survive.
    let raw = sv_tok(vec!["a", "/*", "b", "/*", "c", "*/", "d", "*/", "e"]);
    let filtered = remove_block_comments(raw);
    assert_eq!(filtered, sv_tok(vec!["a", "d", "e"]));
}
