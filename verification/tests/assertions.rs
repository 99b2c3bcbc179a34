use uptime_checker::assertions::cache::Cache;
use uptime_checker::assertions::compiled;
use uptime_checker::assertions::compiled::{
    compile, extract_failure_data, Answers, Builds, CompilationError, CompileHalt, EvalPath,
    EvalResult, GlobAnswer, GlobBuild, Halt, Header, JsonNode, PathBuild, PathFault, QueryCost,
    QueryRun, RuntimeError,
};
use uptime_checker::assertions::path_text::has_glob_call;
use uptime_checker::assertions::{
    Assertion, Comparison, GlobPattern, HeaderOperand, JSONPathOperand, Op,
};

const MAX_ASSERTION_OPS: u32 = 16;
const ASSERTION_MAX_GAS: u32 = 100;

/// What a query is metered with.
const QUERY_GAS: u32 = 15;

fn header(name: &str, value: &str) -> Header {
    Header { name: name.to_owned(), value: value.as_bytes().to_vec() }
}

/// Whether a text matches a glob of literal characters, `*` and ranges in brackets.
fn glob_matches(pattern: &[char], text: &[char]) -> bool {
    match pattern.first() {
        None => text.is_empty(),
        Some('*') => (0..=text.len()).any(|n| glob_matches(&pattern[1..], &text[n..])),
        Some('[') => {
            let end = pattern.iter().position(|c| *c == ']').unwrap();
            match text.first() {
                Some(c) if pattern[1] <= *c && *c <= pattern[3] => {
                    glob_matches(&pattern[end + 1..], &text[1..])
                }
                _ => false,
            }
        }
        Some(p) => text.first() == Some(p) && glob_matches(&pattern[1..], &text[1..]),
    }
}

/// The property and the glob of a query `$[?glob(@.property, "glob")]`, and whether the
/// property is asked for behind it.
fn glob_query(path: &str) -> (String, String, bool) {
    let rest = path.strip_prefix("$[?glob(@.").unwrap();
    let (property, rest) = rest.split_once(", \"").unwrap();
    let (glob, rest) = rest.split_once("\")]").unwrap();
    (property.to_owned(), glob.to_owned(), !rest.is_empty())
}

/// What such a query finds.
fn run_glob_query(path: &str, body: &[u8]) -> Vec<JsonNode> {
    let (property, glob, descends) = glob_query(path);
    let glob: Vec<char> = glob.chars().collect();
    let document: serde_json::Value = serde_json::from_slice(body).unwrap();
    let mut found = Vec::new();
    for item in document.as_array().unwrap() {
        let text = item[&property].as_str().unwrap();
        if glob_matches(&glob, &text.chars().collect::<Vec<char>>()) {
            let node = if descends { &item[&property] } else { item };
            found.push(JsonNode {
                number: node.as_f64().map(f64::to_bits),
                integer: node.as_i64(),
                text: node.as_str().map(str::to_owned),
                json: node.to_string(),
            });
        }
    }
    found
}

/// Compiles, building each glob that is asked for and reading each query that calls
/// `glob`; the globs of `broken` cannot be built.
fn try_compile(
    assertion: &Assertion,
    broken: &[&str],
) -> Result<compiled::Assertion, CompilationError> {
    let mut builds = Builds::new();
    loop {
        match compile(assertion, MAX_ASSERTION_OPS, &builds) {
            Ok(compiled) => return Ok(compiled),
            Err(CompileHalt::Failed(e)) => return Err(e),
            Err(CompileHalt::NeedsBuild { pattern }) => {
                let error = if broken.contains(&pattern.as_str()) {
                    Some("unbalanced".to_owned())
                } else {
                    None
                };
                builds.globs.push(GlobBuild { pattern, error });
            }
            Err(CompileHalt::NeedsPath { path }) => {
                let (_, glob, _) = glob_query(&path);
                let fault = if broken.contains(&glob.as_str()) {
                    Some(PathFault::Glob { glob, msg: "unbalanced".to_owned() })
                } else {
                    None
                };
                builds.paths.push(PathBuild { path, fault });
            }
        }
    }
}

fn compiled(assertion: &Assertion) -> compiled::Assertion {
    try_compile(assertion, &[]).unwrap()
}

/// Evaluates, answering each question about a glob or a query.
fn try_eval(
    assertion: &compiled::Assertion,
    status: u16,
    headers: &Vec<Header>,
    body: &[u8],
) -> Result<EvalResult, RuntimeError> {
    let mut answers = Answers::new();
    loop {
        match assertion.eval(status, headers, body, ASSERTION_MAX_GAS, &answers) {
            Ok(result) => return Ok(result),
            Err(Halt::Failed(e)) => return Err(e),
            Err(Halt::NeedsMatch { pattern, text }) => {
                let p: Vec<char> = pattern.chars().collect();
                let t: Vec<char> = text.chars().collect();
                let matched = glob_matches(&p, &t);
                answers.globs.push(GlobAnswer { pattern, text, matched });
            }
            Err(Halt::NeedsCost { path }) => {
                answers.costs.push(QueryCost { path, gas: QUERY_GAS });
            }
            Err(Halt::NeedsRun { path }) => {
                let found = Ok(run_glob_query(&path, body));
                answers.runs.push(QueryRun { path, found });
            }
        }
    }
}

fn eval(
    assertion: &compiled::Assertion,
    status: u16,
    headers: &Vec<Header>,
    body: &[u8],
) -> EvalResult {
    try_eval(assertion, status, headers, body).unwrap()
}

#[test]
fn compiled_test_status_comparators_and() {
    let assert = Assertion {
        root: Op::And {
            children: vec![
                Op::StatusCodeCheck {
                    value: 100,
                    operator: Comparison::GreaterThan,
                },
                Op::StatusCodeCheck {
                    value: 300,
                    operator: Comparison::LessThan,
                },
                Op::StatusCodeCheck {
                    value: 200,
                    operator: Comparison::Equals,
                },
                Op::StatusCodeCheck {
                    value: 400,
                    operator: Comparison::NotEqual,
                },
            ],
        },
    };

    let assert = compiled(&assert);
    assert!(eval(&assert, 200, &Vec::new(), b"").result);
    assert!(!eval(&assert, 105, &Vec::new(), b"").result);
    assert!(!eval(&assert, 95, &Vec::new(), b"").result);
    assert!(!eval(&assert, 299, &Vec::new(), b"").result);
    assert!(!eval(&assert, 305, &Vec::new(), b"").result);
}

#[test]
fn compiled_test_status_comparators_or() {
    let assert = Assertion {
        root: Op::Or {
            children: vec![
                Op::StatusCodeCheck {
                    value: 100,
                    operator: Comparison::LessThan,
                },
                Op::StatusCodeCheck {
                    value: 300,
                    operator: Comparison::GreaterThan,
                },
                Op::StatusCodeCheck {
                    value: 200,
                    operator: Comparison::Equals,
                },
            ],
        },
    };
    let assert = compiled(&assert);
    assert!(eval(&assert, 200, &Vec::new(), b"").result);
    assert!(!eval(&assert, 105, &Vec::new(), b"").result);
    assert!(eval(&assert, 95, &Vec::new(), b"").result);
    assert!(!eval(&assert, 299, &Vec::new(), b"").result);
    assert!(eval(&assert, 305, &Vec::new(), b"").result);
}

#[test]
fn compiled_test_booleans_nesting() {
    let assert = Assertion {
        root: Op::Or {
            children: vec![
                Op::And {
                    children: vec![
                        Op::StatusCodeCheck {
                            value: 0,
                            operator: Comparison::GreaterThan,
                        },
                        Op::StatusCodeCheck {
                            value: 100,
                            operator: Comparison::LessThan,
                        },
                    ],
                },
                Op::Not {
                    operand: Op::And {
                        children: vec![Op::StatusCodeCheck {
                            value: 200,
                            operator: Comparison::NotEqual,
                        }],
                    }
                    .into(),
                },
                Op::Or {
                    children: vec![
                        Op::StatusCodeCheck {
                            value: 201,
                            operator: Comparison::Equals,
                        },
                        Op::StatusCodeCheck {
                            value: 202,
                            operator: Comparison::Equals,
                        },
                    ],
                },
            ],
        },
    };

    let assert = compiled(&assert);
    assert!(!eval(&assert, 0, &Vec::new(), b"").result);
    assert!(eval(&assert, 15, &Vec::new(), b"").result);
    assert!(!eval(&assert, 100, &Vec::new(), b"").result);
    assert!(eval(&assert, 200, &Vec::new(), b"").result);
    assert!(eval(&assert, 201, &Vec::new(), b"").result);
    assert!(eval(&assert, 202, &Vec::new(), b"").result);
    assert!(!eval(&assert, 203, &Vec::new(), b"").result);
}

#[test]
fn test_gas_exhaustion() {
    let mut hmap: Vec<Header> = Vec::new();
    hmap.push(header("x-header-good", "0"));
    hmap.push(header("x-header-good-a", "1"));
    hmap.push(header("x-header-good-1", "2"));
    hmap.push(header("x-header-good-2", "0"));
    hmap.push(header("x-header-good-b", "1"));
    hmap.push(header("x-header-good-3", "2"));

    let body = r#"
  [
{
  "prop1": "aaaaa"
},
{
  "prop1": "aa"
},
{
  "prop1": "aaaa"
},
{
  "prop1": "aaaa"
},
{
  "prop1": "aa"
},
{
  "prop1": "aaaa"
},
{
  "prop1": "aaaaa"
}
  ]
"#;

    let jsonpath = Op::JsonPath {
        value: "$[?length(@.prop1) > 4]".to_owned(),
        operator: Comparison::Always,
        operand: JSONPathOperand::Nothing,
    };
    let headercheck = Op::HeaderCheck {
        key_op: Comparison::Equals,
        key_operand: HeaderOperand::Glob {
            pattern: GlobPattern {
                value: "*-good*".to_owned(),
            },
        },
        value_op: Comparison::Always,
        value_operand: HeaderOperand::Nothing,
    };

    let assert = Assertion {
        root: Op::And {
            children: vec![
                jsonpath.clone(),
                jsonpath.clone(),
                jsonpath.clone(),
                jsonpath.clone(),
                jsonpath.clone(),
                headercheck.clone(),
                headercheck.clone(),
                headercheck.clone(),
                headercheck.clone(),
                headercheck.clone(),
                headercheck.clone(),
            ],
        },
    };

    let assert = compiled(&assert);

    let result = try_eval(&assert, 200, &hmap, body.as_bytes()).err().unwrap();
    assert!(matches!(result, RuntimeError::TookTooLong));
}

#[test]
fn test_json_path() {
    let body = r#"
  [
{
  "prop1": "a"
},
{
  "prop1": "aa"
},
{
  "prop1": "aaaa"
},
{
  "prop1": "aaaaa"
}
  ]
"#;
    let hmap: Vec<Header> = Vec::new();
    let assert = Assertion {
        root: Op::JsonPath {
            value: "$[?length(@.prop1) > 4].prop1".to_owned(),
            operand: JSONPathOperand::Glob {
                pattern: GlobPattern {
                    value: "a*a".into(),
                },
            },
            operator: Comparison::Equals,
        },
    };

    let assert = compiled(&assert);

    assert!(eval(&assert, 200, &hmap, body.as_bytes()).result);

    let assert = Assertion {
        root: Op::JsonPath {
            value: "$[?length(@.prop1) > 10].prop1".to_owned(),
            operand: JSONPathOperand::Glob {
                pattern: GlobPattern {
                    value: "a*a".into(),
                },
            },
            operator: Comparison::Equals,
        },
    };

    let assert = compiled(&assert);

    assert!(!eval(&assert, 200, &hmap, body.as_bytes()).result);

    let assert = Assertion {
        root: Op::JsonPath {
            value: "$[?glob(@.prop1, \"a[a-z]*\")]".to_owned(),
            operand: JSONPathOperand::Nothing,
            operator: Comparison::Always,
        },
    };

    let assert = compiled(&assert);
    assert!(eval(&assert, 200, &hmap, body.as_bytes()).result);

    let assert = Assertion {
        root: Op::JsonPath {
            value: "$[?glob(@.prop1, \"A[A-Z]*\")].prop1".to_owned(),
            operand: JSONPathOperand::Nothing,
            operator: Comparison::Always,
        },
    };

    let assert = compiled(&assert);

    assert!(!eval(&assert, 200, &hmap, body.as_bytes()).result);
}

#[test]
fn test_json_path_object() {
    let body = r#"
{
  "prop1": {
    "id" : "123"
  }
}
"#;
    let hmap: Vec<Header> = Vec::new();
    let assert = Assertion {
        root: Op::JsonPath {
            value: "$.prop1.id".to_owned(),
            operand: JSONPathOperand::Literal {
                value: "123".into(),
            },
            operator: Comparison::Equals,
        },
    };

    let assert = compiled(&assert);

    assert!(eval(&assert, 200, &hmap, body.as_bytes()).result);

    let assert = Assertion {
        root: Op::JsonPath {
            value: "$.prop1.id".to_owned(),
            operand: JSONPathOperand::Literal {
                value: "124".into(),
            },
            operator: Comparison::Equals,
        },
    };

    let assert = compiled(&assert);

    assert!(!eval(&assert, 200, &hmap, body.as_bytes()).result);
}

#[test]
fn test_json_path_coerce() {
    let body = r#"
{
  "prop1": {
    "id1" : 123,
    "id2": 123.1,
    "id3": "123"
  }
}
"#;
    let hmap: Vec<Header> = Vec::new();
    let assert = Assertion {
        root: Op::JsonPath {
            value: "$.prop1.id1".to_owned(),
            operand: JSONPathOperand::Literal {
                value: "123".into(),
            },
            operator: Comparison::Equals,
        },
    };

    let assert = compiled(&assert);

    assert!(eval(&assert, 200, &hmap, body.as_bytes()).result);

    let hmap: Vec<Header> = Vec::new();
    let assert = Assertion {
        root: Op::JsonPath {
            value: "$.prop1.id2".to_owned(),
            operand: JSONPathOperand::Literal {
                value: "123.1".into(),
            },
            operator: Comparison::Equals,
        },
    };

    let assert = compiled(&assert);

    assert!(eval(&assert, 200, &hmap, body.as_bytes()).result);

    let hmap: Vec<Header> = Vec::new();
    let assert = Assertion {
        root: Op::JsonPath {
            value: "$.prop1.id3".to_owned(),
            operand: JSONPathOperand::Literal {
                value: "123".into(),
            },
            operator: Comparison::Equals,
        },
    };

    let assert = compiled(&assert);

    assert!(eval(&assert, 200, &hmap, body.as_bytes()).result);

    let hmap: Vec<Header> = Vec::new();
    let assert = Assertion {
        root: Op::JsonPath {
            value: "$.prop1.id".to_owned(),
            operand: JSONPathOperand::Literal {
                value: "onetwothree".into(),
            },
            operator: Comparison::Equals,
        },
    };

    let assert = compiled(&assert);

    assert!(!eval(&assert, 200, &hmap, body.as_bytes()).result);
}

#[test]
fn test_json_path_arrays() {
    let body = r#"
[
  {
  "prop": {
    "id": "123"
  }
  },
  {
  "prop": {
    "id": "123"
  }
  }
]
"#;
    let hmap: Vec<Header> = Vec::new();
    let assert = Assertion {
        root: Op::JsonPath {
            value: "$[*].prop.id".to_owned(),
            operand: JSONPathOperand::Literal {
                value: "123".into(),
            },
            operator: Comparison::Equals,
        },
    };

    let assert = compiled(&assert);

    assert!(eval(&assert, 200, &hmap, body.as_bytes()).result);

    let body = r#"
[
  {
  "prop": {
    "id": "123"
  }
  },
  {
  "prop": {
    "id": "124"
  }
  }
]
"#;
    let assert = Assertion {
        root: Op::JsonPath {
            value: "$[*].prop.id".to_owned(),
            operand: JSONPathOperand::Literal {
                value: "124".into(),
            },
            operator: Comparison::NotEqual,
        },
    };

    let assert = compiled(&assert);

    assert!(!eval(&assert, 200, &hmap, body.as_bytes()).result);
}

#[test]
fn compiled_test_header_regex() {
    let mut hmap: Vec<Header> = Vec::new();
    hmap.push(header("x-header-good", "0"));
    hmap.push(header("x-header-good-a", "1"));
    hmap.push(header("x-header-good-1", "2"));

    let assert = Assertion {
        root: Op::HeaderCheck {
            key_op: Comparison::Equals,
            key_operand: HeaderOperand::Glob {
                pattern: GlobPattern {
                    value: r"*-good-[0-9]".into(),
                },
            },
            value_op: Comparison::Always,
            value_operand: HeaderOperand::Nothing,
        },
    };
    let assert = compiled(&assert);
    assert!(eval(&assert, 200, &hmap, b"").result);

    let assert = Assertion {
        root: Op::Or {
            children: vec![Op::HeaderCheck {
                key_op: Comparison::Equals,
                key_operand: HeaderOperand::Glob {
                    pattern: GlobPattern {
                        value: r"*-good-[0-9]".into(),
                    },
                },
                value_op: Comparison::Equals,
                value_operand: HeaderOperand::Literal { value: "2".into() },
            }],
        },
    };
    let assert = compiled(&assert);
    assert!(eval(&assert, 200, &hmap, b"").result);

    let assert = Assertion {
        root: Op::HeaderCheck {
            key_op: Comparison::Equals,
            key_operand: HeaderOperand::Glob {
                pattern: GlobPattern {
                    value: r"*-good-[0-9]".into(),
                },
            },

            value_op: Comparison::Equals,
            value_operand: HeaderOperand::Glob {
                pattern: GlobPattern {
                    value: r"[0-9][0-9]".into(),
                },
            },
        },
    };
    let assert = compiled(&assert);
    assert!(!eval(&assert, 200, &hmap, b"").result);
}

#[test]
fn test_broken_jsonpath_glob() {
    let assert = Assertion {
        root: Op::JsonPath {
            value: "$[?glob(@.prop1, \"'a']\")]".to_owned(),
            operand: JSONPathOperand::Nothing,
            operator: Comparison::Always,
        },
    };

    let assert = try_compile(&assert, &["'a']"]).unwrap_err();
    assert!(matches!(
        assert,
        CompilationError::InvalidGlob { msg: _, glob: _ }
    ));
}

#[test]
fn test_broken_header_glob() {
    let assert = Assertion {
        root: Op::HeaderCheck {
            key_op: Comparison::Equals,
            key_operand: HeaderOperand::Glob {
                pattern: GlobPattern {
                    value: "'a']".into(),
                },
            },
            value_op: Comparison::Always,
            value_operand: HeaderOperand::Nothing,
        },
    };

    let assert = try_compile(&assert, &["'a']"]).unwrap_err();
    assert!(matches!(
        assert,
        CompilationError::InvalidGlob { msg: _, glob: _ }
    ));
}
#[test]
fn test_failing_path_or() {
    let mut hmap: Vec<Header> = Vec::new();
    hmap.push(header("4", "*"));
    hmap.push(header("2", "*"));
    hmap.push(header("5", "*"));
    let assert = Assertion {
        root: Op::Not {
            operand: Op::Or {
                children: vec![
                    Op::HeaderCheck {
                        key_op: Comparison::Equals,
                        key_operand: HeaderOperand::Literal { value: "1".into() },
                        value_op: Comparison::Always,
                        value_operand: HeaderOperand::Nothing,
                    },
                    Op::HeaderCheck {
                        key_op: Comparison::Equals,
                        key_operand: HeaderOperand::Literal { value: "2".into() },
                        value_op: Comparison::Always,
                        value_operand: HeaderOperand::Nothing,
                    },
                    Op::HeaderCheck {
                        key_op: Comparison::Equals,
                        key_operand: HeaderOperand::Literal { value: "3".into() },
                        value_op: Comparison::Always,
                        value_operand: HeaderOperand::Nothing,
                    },
                ],
            }
            .into(),
        },
    };
    let c_assert = compiled(&assert);
    let eval = eval(&c_assert, 200, &hmap, b"");
    assert!(!eval.result);
    assert_eq!(
        eval.reason_path,
        EvalPath::ChildIndex {
            index: 0,
            child: EvalPath::ChildIndex {
                index: 1,
                child: EvalPath::Leaf.into()
            }
            .into()
        }
    );

    let extracted_failure = extract_failure_data(&eval.reason_path, &assert.root);
    match extracted_failure {
        Op::Not { operand } => match *operand {
            Op::Or { children } => assert_eq!(
                children[0],
                Op::HeaderCheck {
                    key_op: Comparison::Equals,
                    key_operand: HeaderOperand::Literal { value: "2".into() },
                    value_op: Comparison::Always,
                    value_operand: HeaderOperand::Nothing,
                }
            ),
            _ => panic!(),
        },
        _ => panic!(),
    }
}

#[test]
fn test_failing_path_and() {
    let mut hmap: Vec<Header> = Vec::new();
    hmap.push(header("1", "*"));
    hmap.push(header("2", "*"));
    hmap.push(header("3", "*"));
    let assert = Assertion {
        root: Op::And {
            children: vec![
                Op::HeaderCheck {
                    key_op: Comparison::Equals,
                    key_operand: HeaderOperand::Literal { value: "1".into() },
                    value_op: Comparison::Always,
                    value_operand: HeaderOperand::Nothing,
                },
                Op::HeaderCheck {
                    key_op: Comparison::Equals,
                    key_operand: HeaderOperand::Literal { value: "2".into() },
                    value_op: Comparison::Always,
                    value_operand: HeaderOperand::Nothing,
                },
                Op::HeaderCheck {
                    key_op: Comparison::Equals,
                    key_operand: HeaderOperand::Literal { value: "4".into() },
                    value_op: Comparison::Always,
                    value_operand: HeaderOperand::Nothing,
                },
            ],
        },
    };
    let c_assert = compiled(&assert);
    let eval = eval(&c_assert, 200, &hmap, b"");
    assert!(!eval.result);
    assert_eq!(
        eval.reason_path,
        EvalPath::ChildIndex {
            index: 2,
            child: EvalPath::Leaf.into()
        }
    );

    let extracted_failure = extract_failure_data(&eval.reason_path, &assert.root);
    match extracted_failure {
        Op::And { children } => assert_eq!(
            children[0],
            Op::HeaderCheck {
                key_op: Comparison::Equals,
                key_operand: HeaderOperand::Literal { value: "4".into() },
                value_op: Comparison::Always,
                value_operand: HeaderOperand::Nothing,
            },
        ),
        _ => panic!(),
    }
}

#[test]
fn test_failing_path_nesting() {
    let mut hmap: Vec<Header> = Vec::new();
    hmap.push(header("1", "*"));
    hmap.push(header("2", "*"));
    hmap.push(header("3", "*"));
    let assert = Assertion {
        root: Op::Not {
            operand: Op::Or {
                children: vec![
                    Op::And {
                        children: vec![
                            Op::HeaderCheck {
                                key_op: Comparison::Equals,
                                key_operand: HeaderOperand::Literal { value: "1".into() },
                                value_op: Comparison::Always,
                                value_operand: HeaderOperand::Nothing,
                            },
                            Op::HeaderCheck {
                                key_op: Comparison::NotEqual,
                                key_operand: HeaderOperand::Literal {
                                    value: "123".into(),
                                },
                                value_op: Comparison::Always,
                                value_operand: HeaderOperand::Nothing,
                            },
                        ],
                    },
                    Op::Or {
                        children: vec![
                            Op::Not {
                                operand: Op::StatusCodeCheck {
                                    value: 200,
                                    operator: Comparison::Equals,
                                }
                                .into(),
                            },
                            Op::StatusCodeCheck {
                                value: 201,
                                operator: Comparison::Equals,
                            },
                        ],
                    },
                ],
            }
            .into(),
        },
    };
    let c_assert = compiled(&assert);
    let eval = eval(&c_assert, 200, &hmap, b"");
    assert!(!eval.result);
    assert_eq!(
        eval.reason_path,
        EvalPath::ChildIndex {
            index: 0,
            child: EvalPath::ChildIndex {
                index: 0,
                child: EvalPath::AllChildren.into()
            }
            .into()
        }
    );

    let extracted_failure = extract_failure_data(&eval.reason_path, &assert.root);
    match extracted_failure {
        Op::Not { operand } => match *operand {
            Op::Or { children } => match &children[0] {
                Op::And { children } => assert_eq!(
                    *children,
                    vec![
                        Op::HeaderCheck {
                            key_op: Comparison::Equals,
                            key_operand: HeaderOperand::Literal { value: "1".into() },
                            value_op: Comparison::Always,
                            value_operand: HeaderOperand::Nothing,
                        },
                        Op::HeaderCheck {
                            key_op: Comparison::NotEqual,
                            key_operand: HeaderOperand::Literal {
                                value: "123".into(),
                            },
                            value_op: Comparison::Always,
                            value_operand: HeaderOperand::Nothing,
                        },
                    ],
                ),
                _ => panic!(),
            },
            _ => panic!(),
        },
        _ => panic!(),
    }
}
#[test]
fn test_comparisons() {
    let body = r#"
{
  "prop": {
    "string": "123",
    "int": 123,
    "float": 123.0
  }
}
"#;

    // Equals
    assert!(run_single_jsonpath_assert(
        "$.prop.string",
        "123",
        Comparison::Equals,
        body
    ));
    assert!(run_single_jsonpath_assert(
        "$.prop.int",
        "123",
        Comparison::Equals,
        body
    ));
    assert!(run_single_jsonpath_assert(
        "$.prop.float",
        "123.0",
        Comparison::Equals,
        body
    ));
    // Equals (negation)
    assert!(!run_single_jsonpath_assert(
        "$.prop.string",
        "124",
        Comparison::Equals,
        body
    ));
    assert!(!run_single_jsonpath_assert(
        "$.prop.int",
        "124",
        Comparison::Equals,
        body
    ));
    assert!(!run_single_jsonpath_assert(
        "$.prop.float",
        "123.1",
        Comparison::Equals,
        body
    ));

    // NotEquals
    assert!(run_single_jsonpath_assert(
        "$.prop.string",
        "123a",
        Comparison::NotEqual,
        body
    ));
    assert!(run_single_jsonpath_assert(
        "$.prop.int",
        "124",
        Comparison::NotEqual,
        body
    ));
    assert!(run_single_jsonpath_assert(
        "$.prop.float",
        "123.1",
        Comparison::NotEqual,
        body
    ));
    // NotEquals (negation)
    assert!(!run_single_jsonpath_assert(
        "$.prop.string",
        "123",
        Comparison::NotEqual,
        body
    ));
    assert!(!run_single_jsonpath_assert(
        "$.prop.int",
        "123",
        Comparison::NotEqual,
        body
    ));
    assert!(!run_single_jsonpath_assert(
        "$.prop.float",
        "123.0",
        Comparison::NotEqual,
        body
    ));

    // GreaterThan
    assert!(run_single_jsonpath_assert(
        "$.prop.string",
        "023",
        Comparison::GreaterThan,
        body
    ));
    assert!(run_single_jsonpath_assert(
        "$.prop.int",
        "122",
        Comparison::GreaterThan,
        body
    ));
    assert!(run_single_jsonpath_assert(
        "$.prop.float",
        "122.9",
        Comparison::GreaterThan,
        body
    ));
    // GreaterThan (negation)
    assert!(!run_single_jsonpath_assert(
        "$.prop.string",
        "123",
        Comparison::GreaterThan,
        body
    ));
    assert!(!run_single_jsonpath_assert(
        "$.prop.int",
        "123",
        Comparison::GreaterThan,
        body
    ));
    assert!(!run_single_jsonpath_assert(
        "$.prop.float",
        "123.0",
        Comparison::GreaterThan,
        body
    ));

    // LessThan
    assert!(run_single_jsonpath_assert(
        "$.prop.string",
        "223",
        Comparison::LessThan,
        body
    ));
    assert!(run_single_jsonpath_assert(
        "$.prop.int",
        "124",
        Comparison::LessThan,
        body
    ));
    assert!(run_single_jsonpath_assert(
        "$.prop.float",
        "123.1",
        Comparison::LessThan,
        body
    ));
    // LessThan (negation)
    assert!(!run_single_jsonpath_assert(
        "$.prop.string",
        "123",
        Comparison::LessThan,
        body
    ));
    assert!(!run_single_jsonpath_assert(
        "$.prop.int",
        "123",
        Comparison::LessThan,
        body
    ));
    assert!(!run_single_jsonpath_assert(
        "$.prop.float",
        "123.0",
        Comparison::LessThan,
        body
    ));

    // Always
    assert!(run_single_jsonpath_assert(
        "$.prop.string",
        "",
        Comparison::Always,
        body
    ));
    assert!(run_single_jsonpath_assert(
        "$.prop.int",
        "",
        Comparison::Always,
        body
    ));
    assert!(run_single_jsonpath_assert(
        "$.prop.float",
        "",
        Comparison::Always,
        body
    ));

    // Never
    assert!(!run_single_jsonpath_assert(
        "$.prop.string",
        "",
        Comparison::Never,
        body
    ));
    assert!(!run_single_jsonpath_assert(
        "$.prop.int",
        "",
        Comparison::Never,
        body
    ));
    assert!(!run_single_jsonpath_assert(
        "$.prop.float",
        "",
        Comparison::Never,
        body
    ));
}

fn run_single_jsonpath_assert(
    path: &str,
    operand: &str,
    operator: Comparison,
    body: &str,
) -> bool {
    let hmap: Vec<Header> = Vec::new();
    let assert = Assertion {
        root: Op::JsonPath {
            value: path.to_owned(),
            operand: JSONPathOperand::Literal {
                value: operand.into(),
            },
            operator,
        },
    };
    let assert = compiled(&assert);
    let eval = eval(&assert, 200, &hmap, body.as_bytes());
    eval.result
}

#[test]
fn costs_are_charged_exactly() {
    let one = compiled(&Assertion {
        root: Op::HeaderCheck {
            key_op: Comparison::Equals,
            key_operand: HeaderOperand::Literal { value: "a".to_owned() },
            value_op: Comparison::Always,
            value_operand: HeaderOperand::Nothing,
        },
    });
    let headers = vec![header("b", "1"), header("a", "2")];
    let none = Answers::new();
    assert!(one.eval(200, &headers, b"", 2, &none).unwrap().result);
    assert!(matches!(
        one.eval(200, &headers, b"", 1, &none),
        Err(Halt::Failed(RuntimeError::TookTooLong))
    ));
}

#[test]
fn queries_are_paid_for_as_they_are_metered() {
    let query = |value: &str| {
        compiled(&Assertion {
            root: Op::JsonPath {
                value: value.to_owned(),
                operator: Comparison::Equals,
                operand: JSONPathOperand::Literal { value: "1".to_owned() },
            },
        })
    };
    let plain = query("$.a");
    let body = br#"{"a": "1"}"#;
    let mut answers = Answers::new();
    match plain.eval(200, &Vec::new(), body, 100, &answers) {
        Err(Halt::NeedsCost { path }) => assert_eq!(path, "$.a"),
        other => panic!("{:?}", other),
    }
    answers.costs.push(QueryCost { path: "$.b".to_owned(), gas: 1000 });
    answers.costs.push(QueryCost { path: "$.a".to_owned(), gas: 40 });
    answers.costs.push(QueryCost { path: "$.a".to_owned(), gas: 0 });
    assert!(plain.eval(200, &Vec::new(), body, 41, &answers).unwrap().result);
    for budget in [39, 40] {
        assert!(matches!(
            plain.eval(200, &Vec::new(), body, budget, &answers),
            Err(Halt::Failed(RuntimeError::TookTooLong))
        ));
    }
}

#[test]
fn queries_that_call_glob_are_run_elsewhere() {
    let path = "$[?glob(@.a, \"x*\")].a";
    let assertion = Assertion {
        root: Op::JsonPath {
            value: path.to_owned(),
            operator: Comparison::Equals,
            operand: JSONPathOperand::Literal { value: "xy".to_owned() },
        },
    };
    let mut builds = Builds::new();
    match compile(&assertion, 1, &builds) {
        Err(CompileHalt::NeedsPath { path: asked }) => assert_eq!(asked, path),
        other => panic!("{:?}", other),
    }
    let fault = PathFault::Syntax { msg: "m".to_owned(), line: "l".to_owned(), pos: 3 };
    builds.paths.push(PathBuild { path: path.to_owned(), fault: Some(fault) });
    match compile(&assertion, 1, &builds) {
        Err(CompileHalt::Failed(CompilationError::JSONPathParser { msg, path, pos })) => {
            assert_eq!((msg.as_str(), path.as_str(), pos), ("m", "l", 3));
        }
        other => panic!("{:?}", other),
    }
    builds.paths[0].fault = Some(PathFault::Other { msg: "m".to_owned() });
    assert!(matches!(
        compile(&assertion, 1, &builds),
        Err(CompileHalt::Failed(CompilationError::InvalidJsonPath { .. }))
    ));
    builds.paths[0].fault = None;
    let ready = compile(&assertion, 1, &builds).unwrap();
    let mut answers = Answers::new();
    answers.costs.push(QueryCost { path: path.to_owned(), gas: 2 });
    match ready.eval(200, &Vec::new(), b"[]", 10, &answers) {
        Err(Halt::NeedsRun { path: asked }) => assert_eq!(asked, path),
        other => panic!("{:?}", other),
    }
    answers.runs.push(QueryRun { path: path.to_owned(), found: Err("no".to_owned()) });
    match ready.eval(200, &Vec::new(), b"[]", 10, &answers) {
        Err(Halt::Failed(RuntimeError::InvalidJsonPath { msg })) => assert_eq!(msg, "no"),
        other => panic!("{:?}", other),
    }
    let node = JsonNode {
        number: None,
        integer: None,
        text: Some("xy".to_owned()),
        json: "\"xy\"".to_owned(),
    };
    answers.runs[0].found = Ok(vec![node]);
    assert!(ready.eval(200, &Vec::new(), b"[]", 3, &answers).unwrap().result);
    assert!(matches!(
        ready.eval(200, &Vec::new(), b"[]", 1, &answers),
        Err(Halt::Failed(RuntimeError::TookTooLong))
    ));
}

#[test]
fn calls_of_glob_are_told_from_texts() {
    assert!(has_glob_call("$[?glob(@.a, \"x\")]"));
    assert!(has_glob_call("$['a\\'b'][?!glob(@.a, 'x')]"));
    assert!(!has_glob_call("$[?match(@.a, \"glob(\")]"));
    assert!(!has_glob_call("$['it\\'s glob(']"));
    assert!(!has_glob_call("$.glob"));
    assert!(!has_glob_call("glob"));
    assert!(!has_glob_call(""));
}

#[test]
fn a_body_that_is_no_json_is_an_error() {
    let assert = compiled(&Assertion {
        root: Op::JsonPath {
            value: "$.a".to_owned(),
            operator: Comparison::Always,
            operand: JSONPathOperand::Nothing,
        },
    });
    let err = try_eval(&assert, 200, &Vec::new(), b"{").err().unwrap();
    match &err {
        RuntimeError::InvalidBodyJson { .. } => {}
        other => panic!("{:?}", other),
    }
    assert!(err.message().starts_with("Invalid Body JSON: "));
    assert_eq!(RuntimeError::TookTooLong.message(), "Assertion took too long");
}

#[test]
fn too_many_operations_do_not_compile() {
    let leaf = Op::StatusCodeCheck { value: 200, operator: Comparison::Equals };
    let sixteen = Assertion { root: Op::And { children: vec![leaf.clone(); 15] } };
    assert!(try_compile(&sixteen, &[]).is_ok());
    let seventeen = Assertion { root: Op::And { children: vec![leaf; 16] } };
    let err = try_compile(&seventeen, &[]).unwrap_err();
    assert!(matches!(err, CompilationError::TooManyOperations));
    assert_eq!(err.message(), "Too many assertion operations");
}

#[test]
fn a_path_that_is_none_does_not_compile() {
    let assert = Assertion {
        root: Op::JsonPath {
            value: "$[".to_owned(),
            operator: Comparison::Always,
            operand: JSONPathOperand::Nothing,
        },
    };
    let err = try_compile(&assert, &[]).unwrap_err();
    match &err {
        CompilationError::JSONPathParser { .. } | CompilationError::InvalidJsonPath { .. } => {}
        other => panic!("{:?}", other),
    }
    assert!(err.message().contains("JSONPath"));
}

#[test]
fn a_broken_glob_is_told_in_words() {
    let assert = Assertion {
        root: Op::JsonPath {
            value: "$.a".to_owned(),
            operator: Comparison::Equals,
            operand: JSONPathOperand::Glob { pattern: GlobPattern { value: "[".to_owned() } },
        },
    };
    let err = try_compile(&assert, &["["]).unwrap_err();
    assert_eq!(err.message(), "Invalid glob unbalanced: unbalanced");
}

#[test]
fn header_values_that_are_no_text_are_passed_over() {
    let assert = compiled(&Assertion {
        root: Op::HeaderCheck {
            key_op: Comparison::Always,
            key_operand: HeaderOperand::Nothing,
            value_op: Comparison::Equals,
            value_operand: HeaderOperand::Literal { value: "x".to_owned() },
        },
    });
    let unreadable = Header { name: "a".to_owned(), value: vec![0xff] };
    assert!(!eval(&assert, 200, &vec![unreadable], b"").result);
    let unreadable = Header { name: "a".to_owned(), value: vec![0xff] };
    assert!(eval(&assert, 200, &vec![unreadable, header("b", "x")], b"").result);
}

#[test]
fn only_queries_require_the_body() {
    let status = Op::StatusCodeCheck { value: 200, operator: Comparison::Equals };
    let query = Op::JsonPath {
        value: "$.a".to_owned(),
        operator: Comparison::Always,
        operand: JSONPathOperand::Nothing,
    };
    assert!(!Assertion { root: Op::And { children: vec![status.clone()] } }.requires_body());
    assert!(Assertion {
        root: Op::Not { operand: Box::new(Op::Or { children: vec![status, query] }) }
    }
    .requires_body());
}

#[test]
fn results_are_pruned_to_their_reason() {
    let leaf = |value: u16| Op::StatusCodeCheck { value, operator: Comparison::Equals };
    let op = Op::Or { children: vec![leaf(1), leaf(2)] };
    let path = EvalPath::ChildIndex { index: 1, child: Box::new(EvalPath::Leaf) };
    assert_eq!(extract_failure_data(&path, &op), Op::Or { children: vec![leaf(2)] });
    assert_eq!(extract_failure_data(&EvalPath::AllChildren, &op), op);
}

#[test]
fn the_reason_of_a_result_compiles_within_the_same_limit() {
    let leaf = |value: u16| Op::StatusCodeCheck { value, operator: Comparison::Equals };
    let root = Op::Not {
        operand: Box::new(Op::And {
            children: vec![
                leaf(200),
                Op::Or { children: vec![leaf(200), leaf(404)] },
                Op::Or { children: vec![leaf(1), leaf(2)] },
            ],
        }),
    };
    let none = Builds::new();
    let assertion = Assertion { root };
    assert!(compile(&assertion, 8, &none).is_err());
    let whole = compile(&assertion, 9, &none).unwrap();
    let outcome = whole.eval(200, &Vec::new(), b"", 100, &Answers::new()).unwrap();
    let part =
        Assertion { root: extract_failure_data(&outcome.reason_path, &assertion.root) };
    let alone = compile(&part, 9, &none).unwrap();
    let again = alone.eval(200, &Vec::new(), b"", 100, &Answers::new()).unwrap();
    assert_eq!(again.result, outcome.result);
}

#[test]
fn the_budget_is_kept_where_a_comparison_fails() {
    let number = compiled::HeaderOperand::Literal { value: compiled::LiteralValue::I64(3) };
    let mut gas = compiled::Gas(7);
    let fault = number.eval(&compiled::Comparison::Equal, "three", &Vec::new(), &mut gas);
    assert!(matches!(
        fault,
        Err(Halt::Failed(RuntimeError::InvalidTypeComparison { .. }))
    ));
    assert_eq!(gas.0, 7);
    assert!(number.eval(&compiled::Comparison::Equal, "3", &Vec::new(), &mut gas).unwrap());
    assert_eq!(gas.0, 6);
    let glob = compiled::HeaderOperand::Glob { pattern: "a*".to_owned() };
    let open = glob.eval(&compiled::Comparison::Equal, "ab", &Vec::new(), &mut gas);
    assert!(matches!(open, Err(Halt::NeedsMatch { .. })));
    let left = gas.0;
    let mut short = compiled::Gas(4);
    let fault = glob.eval(&compiled::Comparison::Equal, "ab", &Vec::new(), &mut short);
    assert!(matches!(fault, Err(Halt::Failed(RuntimeError::TookTooLong))));
    assert_eq!(short.0, 4);
    assert_eq!(left, 1);
}

#[test]
fn what_was_compiled_is_kept() {
    let mut cache = Cache::new();
    let status = |value: u16| Assertion {
        root: Op::StatusCodeCheck { value, operator: Comparison::Equals },
    };
    let none = Builds::new();
    let refused = cache.get_or_compile(&status(200), 0, &none);
    assert!(matches!(refused, Err(CompileHalt::Failed(CompilationError::TooManyOperations))));
    let first = cache.get_or_compile(&status(200), 1, &none).unwrap();
    let again = cache.get_or_compile(&status(200), 0, &none).unwrap();
    assert!(std::sync::Arc::ptr_eq(&first, &again));
    let other = cache.get_or_compile(&status(404), 1, &none).unwrap();
    assert!(other.eval(404, &Vec::new(), b"", 10, &Answers::new()).unwrap().result);
    assert!(!first.eval(404, &Vec::new(), b"", 10, &Answers::new()).unwrap().result);
}

#[test]
fn assertions_are_equal_by_what_they_say() {
    let query = |operand: JSONPathOperand| Assertion {
        root: Op::Not {
            operand: Box::new(Op::JsonPath {
                value: "$".to_owned(),
                operator: Comparison::Equals,
                operand,
            }),
        },
    };
    let literal = JSONPathOperand::Literal { value: "1".to_owned() };
    assert_eq!(query(literal.clone()), query(literal.clone()));
    assert_eq!(query(literal.clone()).clone(), query(literal.clone()));
    assert_ne!(query(literal), query(JSONPathOperand::Nothing));
}
