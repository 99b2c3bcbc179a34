use uptime_checker::assertions::compiled::Header;
use uptime_checker::types::assertion::compiled::{compile, Error, HeaderComparison as Compiled};
use uptime_checker::types::assertion::{
    Assertion, Comparison, HeaderComparison, HeaderOperand, Op,
};

fn header(name: &str, value: &str) -> Header {
    Header { name: name.to_owned(), value: value.as_bytes().to_vec() }
}

#[test]
fn assertion_test_status_comparators_and() {
    let assert = Assertion {
        root: Op::And {
            children: vec![
                Op::StatusCodeCheck {
                    value: 100,
                    operator: Comparison::GreaterThan,
                },
                Op::StatusCodeCheck {
                    value: 300,
                    operator: Comparison::LessThan,
                },
                Op::StatusCodeCheck {
                    value: 200,
                    operator: Comparison::Equal,
                },
                Op::StatusCodeCheck {
                    value: 400,
                    operator: Comparison::NotEqual,
                },
            ],
        },
    };
    let assert = compile(&assert).unwrap();
    assert!(assert.eval(200, &Vec::new(), ""));
    assert!(!assert.eval(105, &Vec::new(), ""));
    assert!(!assert.eval(95, &Vec::new(), ""));
    assert!(!assert.eval(299, &Vec::new(), ""));
    assert!(!assert.eval(305, &Vec::new(), ""));
}

#[test]
fn assertion_test_status_comparators_or() {
    let assert = Assertion {
        root: Op::Or {
            children: vec![
                Op::StatusCodeCheck {
                    value: 100,
                    operator: Comparison::LessThan,
                },
                Op::StatusCodeCheck {
                    value: 300,
                    operator: Comparison::GreaterThan,
                },
                Op::StatusCodeCheck {
                    value: 200,
                    operator: Comparison::Equal,
                },
            ],
        },
    };
    let assert = compile(&assert).unwrap();
    assert!(assert.eval(200, &Vec::new(), ""));
    assert!(!assert.eval(105, &Vec::new(), ""));
    assert!(assert.eval(95, &Vec::new(), ""));
    assert!(!assert.eval(299, &Vec::new(), ""));
    assert!(assert.eval(305, &Vec::new(), ""));
}

#[test]
fn assertion_test_booleans_nesting() {
    let assert = Assertion {
        root: Op::Or {
            children: vec![
                Op::And {
                    children: vec![
                        Op::StatusCodeCheck {
                            value: 0,
                            operator: Comparison::GreaterThan,
                        },
                        Op::StatusCodeCheck {
                            value: 100,
                            operator: Comparison::LessThan,
                        },
                    ],
                },
                Op::Not {
                    operand: Op::And {
                        children: vec![Op::StatusCodeCheck {
                            value: 200,
                            operator: Comparison::NotEqual,
                        }],
                    }
                    .into(),
                },
                Op::Or {
                    children: vec![
                        Op::StatusCodeCheck {
                            value: 201,
                            operator: Comparison::Equal,
                        },
                        Op::StatusCodeCheck {
                            value: 202,
                            operator: Comparison::Equal,
                        },
                    ],
                },
            ],
        },
    };

    let assert = compile(&assert).unwrap();
    assert!(!assert.eval(0, &Vec::new(), ""));
    assert!(assert.eval(15, &Vec::new(), ""));
    assert!(!assert.eval(100, &Vec::new(), ""));
    assert!(assert.eval(200, &Vec::new(), ""));
    assert!(assert.eval(201, &Vec::new(), ""));
    assert!(assert.eval(202, &Vec::new(), ""));
    assert!(!assert.eval(203, &Vec::new(), ""));
}

#[test]
fn assertion_test_header_regex() {
    let mut hmap: Vec<Header> = Vec::new();
    hmap.push(header("x-header-good", "0"));
    hmap.push(header("x-header-good-a", "1"));
    hmap.push(header("x-header-good-1", "2"));

    let assert = Assertion {
        root: Op::HeaderCheck {
            key: HeaderComparison::Equals {
                test_value: HeaderOperand::Regex {
                    value: r".*-good-\d".into(),
                },
            },
            value: HeaderComparison::Always,
        },
    };
    let assert = compile(&assert).unwrap();
    assert!(assert.eval(200, &hmap, ""));

    let assert = Assertion {
        root: Op::Or {
            children: vec![Op::HeaderCheck {
                key: HeaderComparison::Equals {
                    test_value: HeaderOperand::Regex {
                        value: r".*-good-\d".into(),
                    },
                },
                value: HeaderComparison::Equals {
                    test_value: HeaderOperand::Literal { value: "2".into() },
                },
            }],
        },
    };
    let assert = compile(&assert).unwrap();
    assert!(assert.eval(200, &hmap, ""));

    let assert = Assertion {
        root: Op::HeaderCheck {
            key: HeaderComparison::Equals {
                test_value: HeaderOperand::Regex {
                    value: r".*-good-\d".into(),
                },
            },
            value: HeaderComparison::Equals {
                test_value: HeaderOperand::Regex {
                    value: r"\d\d".into(),
                },
            },
        },
    };
    let assert = compile(&assert).unwrap();
    assert!(!assert.eval(200, &hmap, ""));
}


fn any_header(value: HeaderComparison) -> Assertion {
    Assertion { root: Op::HeaderCheck { key: HeaderComparison::Always, value } }
}

#[test]
fn broken_and_huge_expressions_do_not_compile() {
    let broken = any_header(HeaderComparison::Equals {
        test_value: HeaderOperand::Regex { value: "(".to_owned() },
    });
    let err = compile(&broken).unwrap_err();
    assert!(matches!(err, Error::InvalidRegex(_)));
    assert_eq!(err.message(), "Invalid regex syntax");
    let huge = any_header(HeaderComparison::NotEquals {
        test_value: HeaderOperand::Regex { value: "(a{100}){100}".to_owned() },
    });
    let err = compile(&huge).unwrap_err();
    assert!(matches!(err, Error::RegexTooBig(65536)));
    assert_eq!(err.message(), "Regex is too complicated");
}

#[test]
fn literals_are_numbers_where_they_can_be() {
    let headers = vec![header("a", "10.0")];
    let eval = |value: HeaderComparison| compile(&any_header(value)).unwrap().eval(200, &headers, "");
    assert!(eval(HeaderComparison::Equals {
        test_value: HeaderOperand::Literal { value: "10".to_owned() }
    }));
    assert!(eval(HeaderComparison::GreaterThan { test_value: "9".to_owned() }));
    assert!(!eval(HeaderComparison::LessThan { test_value: "9".to_owned() }));
    assert!(eval(HeaderComparison::LessThan { test_value: "a".to_owned() }));
    assert!(eval(HeaderComparison::NotEquals {
        test_value: HeaderOperand::Literal { value: "x".to_owned() }
    }));
    assert!(!eval(HeaderComparison::Never));
    assert!(!Compiled::Never.eval("x"));
    assert!(Compiled::Always.eval("x"));
}

#[test]
fn a_value_that_is_no_text_leaves_an_assertion_open() {
    let unreadable = vec![Header { name: "a".to_owned(), value: vec![0xff] }];
    let looking = compile(&any_header(HeaderComparison::Always)).unwrap();
    assert_eq!(looking.try_eval(200, &unreadable), None);
    let not_looking = compile(&Assertion {
        root: Op::HeaderCheck { key: HeaderComparison::Never, value: HeaderComparison::Always },
    })
    .unwrap();
    assert_eq!(not_looking.try_eval(200, &unreadable), Some(false));
}
