use compile_relay::assembler::{assemble, extract_entry_point, init_expression, AssembleError};
use compile_relay::response::BackendResponse;
use compile_relay::template::{render_page, INIT_MARKER, SCRIPT_MARKER, TEMPLATE};

fn output(script: &str, module: Vec<u8>) -> BackendResponse {
    BackendResponse::Output {
        index_html: String::from("unused"),
        script: String::from(script),
        module,
    }
}

fn expected_page(script: &str, init: &str) -> String {
    let (head, rest) = TEMPLATE.split_once(SCRIPT_MARKER).unwrap();
    let (middle, tail) = rest.split_once(INIT_MARKER).unwrap();
    format!("{}{}{}{}{}", head, script, middle, init, tail)
}

#[test]
fn success_scenario_embeds_script_and_call() {
    let script = "function f(){} export default f;";
    let html = assemble(output(script, vec![1, 2, 3])).unwrap();
    assert!(html.contains(script));
    assert!(html.contains("f((new Int8Array([1, 2, 3])).buffer)"));
    assert_eq!(html, expected_page(script, "f((new Int8Array([1, 2, 3])).buffer)"));
    assert!(!html.contains(SCRIPT_MARKER));
    assert!(!html.contains(INIT_MARKER));
}

#[test]
fn success_scenario_exact_page() {
    let html = assemble(output("function f(){} export default f;", vec![1, 2, 3])).unwrap();
    let expected = "\n<!doctype html>\n<html lang=\"en\">\n<head>\n    <meta charset=\"UTF-8\">\n    <meta name=\"viewport\" content=\"width=device-width, user-scalable=no, initial-scale=1.0, maximum-scale=1.0, minimum-scale=1.0\">\n    <meta http-equiv=\"X-UA-Compatible\" content=\"ie=edge\">\n    <title>Document</title>\n</head>\n<body>\n    <script type=\"module\">\n    function f(){} export default f;\n    f((new Int8Array([1, 2, 3])).buffer)\n    </script>\n</body>\n</html>\n";
    assert_eq!(html, expected);
}

#[test]
fn malformed_scenario_without_marker() {
    assert_eq!(
        assemble(output("function f(){}", vec![1, 2, 3])),
        Err(AssembleError::MalformedScript)
    );
}

#[test]
fn compile_error_scenario_gives_message_unchanged() {
    let response = BackendResponse::CompileError(String::from("syntax error on line 3"));
    assert_eq!(assemble(response), Ok(String::from("syntax error on line 3")));
}

#[test]
fn compile_error_is_not_escaped() {
    let message = "<b>error</b> & \"quotes\" /*INIT_GOES_HERE*/ export default";
    let response = BackendResponse::CompileError(String::from(message));
    assert_eq!(assemble(response), Ok(String::from(message)));
}

#[test]
fn compile_error_may_be_empty() {
    assert_eq!(assemble(BackendResponse::CompileError(String::new())), Ok(String::new()));
}

#[test]
fn assembling_twice_gives_the_same_page() {
    let response = output("let a = 1;\nexport default  start ;", vec![0, 127, 128, 255]);
    let first = assemble(response.clone());
    let second = assemble(response);
    assert!(first.is_ok());
    assert_eq!(first, second);
}

#[test]
fn assembling_twice_gives_the_same_error() {
    let response = output("no marker here", vec![]);
    assert_eq!(assemble(response.clone()), assemble(response));
}

#[test]
fn marker_followed_by_nothing_is_malformed() {
    assert_eq!(assemble(output("export default", vec![1])), Err(AssembleError::MalformedScript));
    assert_eq!(
        assemble(output("export default \n\t  ", vec![1])),
        Err(AssembleError::MalformedScript)
    );
    assert_eq!(assemble(output("", vec![1])), Err(AssembleError::MalformedScript));
}

#[test]
fn entry_point_is_trimmed_and_loses_one_terminator() {
    assert_eq!(extract_entry_point("export default f;"), Some(String::from("f")));
    assert_eq!(extract_entry_point("export default   init  ;  \n"), Some(String::from("init  ")));
    assert_eq!(extract_entry_point("a(); export default\n\tmain;\n"), Some(String::from("main")));
    assert_eq!(extract_entry_point("export default f;;"), Some(String::from("f;")));
}

#[test]
fn entry_point_without_terminator_is_kept() {
    assert_eq!(extract_entry_point("export default f"), Some(String::from("f")));
    let html = assemble(output("export default f", vec![7])).unwrap();
    assert!(html.contains("f((new Int8Array([7])).buffer)"));
}

#[test]
fn entry_point_is_everything_after_the_first_marker() {
    assert_eq!(
        extract_entry_point("export default a; export default b;"),
        Some(String::from("a; export default b"))
    );
}

#[test]
fn lone_terminator_gives_an_empty_entry_point() {
    assert_eq!(extract_entry_point("export default ;"), Some(String::new()));
}

#[test]
fn entry_point_absent() {
    assert_eq!(extract_entry_point("function f(){}"), None);
    assert_eq!(extract_entry_point("export  default f;"), None);
    assert_eq!(extract_entry_point("Export default f;"), None);
    assert_eq!(extract_entry_point("export default"), None);
    assert_eq!(extract_entry_point("export default \u{2003}\u{a0}"), None);
}

#[test]
fn entry_point_with_text_beyond_ascii() {
    assert_eq!(
        extract_entry_point("// h\u{e9}llo \u{1f600}\nexport default d\u{e9}marrer;"),
        Some(String::from("d\u{e9}marrer"))
    );
}

#[test]
fn init_expression_formats_bytes() {
    assert_eq!(init_expression("f", &[1, 2, 3]), "f((new Int8Array([1, 2, 3])).buffer)");
    assert_eq!(init_expression("f", &[]), "f((new Int8Array([])).buffer)");
    assert_eq!(init_expression("go", &[0]), "go((new Int8Array([0])).buffer)");
    assert_eq!(
        init_expression("x", &[0, 9, 10, 99, 100, 101, 199, 200, 255]),
        "x((new Int8Array([0, 9, 10, 99, 100, 101, 199, 200, 255])).buffer)"
    );
}

#[test]
fn init_expression_agrees_with_debug_formatting() {
    let all: Vec<u8> = (0..=255).collect();
    assert_eq!(init_expression("m", &all), format!("{}((new Int8Array({:?})).buffer)", "m", all));
}

#[test]
fn render_page_substitutes_both_markers() {
    assert_eq!(render_page("S", "I"), expected_page("S", "I"));
    assert_eq!(render_page("", ""), expected_page("", ""));
}

#[test]
fn inserted_text_is_never_scanned_for_markers() {
    let script = "/*INIT_GOES_HERE*/ export default f;";
    let html = render_page(script, "CALL");
    assert_eq!(html, expected_page(script, "CALL"));
    assert!(html.contains(script));
    assert_eq!(html.matches("CALL").count(), 1);
    assert_eq!(
        render_page("/*INIT_GOES_HERE*/", "X"),
        expected_page("/*INIT_GOES_HERE*/", "X")
    );
    assert!(render_page("/*INIT_GOES_HERE*/", "X").contains("    /*INIT_GOES_HERE*/\n    X\n"));
}

#[test]
fn script_that_holds_the_markers_stands_verbatim() {
    let script = "/*INIT_GOES_HERE*/ let a = '/*JS_GOES_HERE*/'; export default f; /*INIT_GOES_HERE*/";
    let html = assemble(output(script, vec![1, 2, 3])).unwrap();
    let (head, _) = TEMPLATE.split_once(SCRIPT_MARKER).unwrap();
    assert!(html.starts_with(&format!("{}{}", head, script)));
    let call = "f; /*INIT_GOES_HERE*/((new Int8Array([1, 2, 3])).buffer)";
    assert_eq!(html, expected_page(script, call));
    assert_eq!(html.matches("((new Int8Array([1, 2, 3])).buffer)").count(), 1);
}

#[test]
fn entry_point_that_is_a_marker_stands_verbatim() {
    let script = "export default /*JS_GOES_HERE*/;";
    let html = assemble(output(script, vec![9])).unwrap();
    assert_eq!(
        html,
        expected_page(script, "/*JS_GOES_HERE*/((new Int8Array([9])).buffer)")
    );
}

#[test]
fn markers_inside_script_or_call_stay() {
    let html = render_page("a /*JS_GOES_HERE*/ b", "c /*JS_GOES_HERE*/ /*INIT_GOES_HERE*/");
    assert_eq!(html, expected_page("a /*JS_GOES_HERE*/ b", "c /*JS_GOES_HERE*/ /*INIT_GOES_HERE*/"));
    assert!(html.contains("a /*JS_GOES_HERE*/ b"));
    assert!(html.contains("c /*JS_GOES_HERE*/ /*INIT_GOES_HERE*/"));
}

#[test]
fn page_of_the_markers_is_the_template() {
    assert_eq!(render_page(SCRIPT_MARKER, INIT_MARKER), TEMPLATE);
}

#[test]
fn script_with_partial_markers_is_kept() {
    let script = "x /*INIT_GOES_HERE* /*INIT_ export default f; /*INIT_GOES";
    let html = assemble(output(script, vec![5])).unwrap();
    assert!(html.contains(script));
    assert_eq!(html.matches("((new Int8Array([5])).buffer)").count(), 1);
}

#[test]
fn each_marker_stands_once_in_the_template() {
    assert_eq!(TEMPLATE.matches(SCRIPT_MARKER).count(), 1);
    assert_eq!(TEMPLATE.matches(INIT_MARKER).count(), 1);
    assert!(TEMPLATE.find(SCRIPT_MARKER).unwrap() < TEMPLATE.find(INIT_MARKER).unwrap());
}

#[test]
fn page_for_large_module() {
    let module: Vec<u8> = (0..5000u32).map(|i| (i % 251) as u8).collect();
    let script = "const x = 1;\n".repeat(200) + "export default run;";
    let html = assemble(output(&script, module.clone())).unwrap();
    let init = format!("run((new Int8Array({:?})).buffer)", module);
    assert_eq!(html, expected_page(&script, &init));
}
