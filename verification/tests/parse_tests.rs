use cedarling_pdp::cli::parse::parse_authz;
use cedarling_pdp::cli::parse::parse_cmd;
use cedarling_pdp::cli::parse::parse_variable_assignment;
use cedarling_pdp::cli::parse::ParsedCommand;

#[test]
fn test_parse_authz_valid_cases() {
    assert_eq!(
        parse_authz("authz(var1, var2, var3)"),
        Some(vec![
            "var1".to_string(),
            "var2".to_string(),
            "var3".to_string()
        ])
    );

    assert_eq!(
        parse_authz("authz(var_name_1, var2, var_3, _var4, __var5)"),
        Some(vec![
            "var_name_1".to_string(),
            "var2".to_string(),
            "var_3".to_string(),
            "_var4".to_string(),
            "__var5".to_string(),
        ])
    );

    assert_eq!(
        parse_authz("authz(single_var)"),
        Some(vec!["single_var".to_string()])
    );

    assert_eq!(
        parse_authz("authz(var1,    var2,   var3)"),
        Some(vec![
            "var1".to_string(),
            "var2".to_string(),
            "var3".to_string()
        ])
    );
}

#[test]
fn test_parse_authz_invalid_cases() {
    // invalid format cases
    let invalid_fmt_cases = [
        "authz()",
        "authz(var1, , var3)",
        "authz(var1,,var3)",
        "auth(var1, var2, var3)",
        "authz(var1 var2, var3)",
    ];
    for case in invalid_fmt_cases.iter() {
        assert_eq!(parse_authz(case), None);
    }

    let invalid_var_name_cases = [
        "authz(1var, var2)",
        "authz(var1, !var2)",
        "authz(var1, var 2)",
    ];
    for case in invalid_var_name_cases.iter() {
        assert_eq!(parse_authz(case), None);
    }

    let completely_malformed_cases = [
        "authz()",
        "authz(   )",
        "authz)",
        "authz(",
        "authz(var1",
        "var1, var2, var3",
        "",
    ];
    for case in completely_malformed_cases.iter() {
        assert_eq!(parse_authz(case), None);
    }
}

#[test]
fn test_parse_variable_assignment() {
    let test_cases = vec![
        (
            "var_name2 = value",
            Some(("var_name2".to_string(), "value".to_string())),
            "should successfully parse a valid variable assignment with alphanumeric variable name",
        ),
        (
            "2var_name = value",
            None,
            "should fail parsing variable assignment because variable name starts with a digit",
        ),
        (
            "var_name! = value",
            None,
            "should fail parsing variable assignment because variable name contains invalid character",
        ),
        (
            "<><> = value",
            None,
            "should fail parsing variable assignment because variable name contains invalid characters",
        ),
        (
            "var_name =",
            Some(("var_name".to_string(), "".to_string())),
            "should parse a variable assignment with an empty value",
        ),
        (
            "var_name = value with spaces",
            Some(("var_name".to_string(), "value with spaces".to_string())),
            "should parse a variable assignment where value contains spaces",
        ),
        (
            "var_name=",
            Some(("var_name".to_string(), "".to_string())),
            "should parse a variable assignment with no space before the equals sign and an empty value",
        ),
        (
            "var_name=value",
            Some(("var_name".to_string(), "value".to_string())),
            "should parse a variable assignment with no spaces around the equals sign",
        ),
        (
            "var_name",
            None,
            "should fail parsing because there is no equals sign or value",
        ),
        (
            "var_name = value = extra",
            Some(("var_name".to_string(), "value = extra".to_string())),
            "should parse a variable assignment where the value contains an equals sign",
        ),
    ];

    for (input, expected, description) in test_cases {
        assert_eq!(
            parse_variable_assignment(input),
            expected,
            "{}: input='{}', expected={:?}",
            description,
            input,
            expected
        );
    }
}

#[test]
fn parse_cmd_recognizes_each_command() {
    assert!(matches!(parse_cmd("quit()"), ParsedCommand::Quit));
    assert!(matches!(parse_cmd(""), ParsedCommand::NoOp));
    match parse_cmd("x = 1") {
        ParsedCommand::VariableAssignment(name, value) => {
            assert_eq!(name, "x");
            assert_eq!(value, "1");
        },
        _ => panic!("expected a variable assignment"),
    }
    match parse_cmd("authz(a, b)") {
        ParsedCommand::FnAuthz(args) => {
            assert_eq!(args, vec!["a".to_string(), "b".to_string()]);
        },
        _ => panic!("expected an authz call"),
    }
    match parse_cmd("bare_word") {
        ParsedCommand::UnknownCommand(s) => assert_eq!(s, "bare_word"),
        _ => panic!("expected an unknown command"),
    }
}
