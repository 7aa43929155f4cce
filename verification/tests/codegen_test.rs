use oxidase::bindings::{ExportedFunction, InteropMode, ItemSpec};
use oxidase::codegen::{
    plan_module, call_script, decimal_text, ensure_fn_name, epoch_static_name, export_keys, fill_bootstrap_template,
    fill_call_template, fixed_payload, rust_param_names, split_call_template, split_once,
    split_watcher_template, watcher_script,
};

#[test]
fn split_once_cuts_at_the_first_marker() {
    assert_eq!(split_once("a--b--c", "--"), Some(("a".to_string(), "b--c".to_string())));
    assert_eq!(split_once("abc", "--"), None);
    assert_eq!(split_once("--", "--"), Some((String::new(), String::new())));
    assert_eq!(split_once("abc", ""), Some((String::new(), "abc".to_string())));
}

#[test]
fn call_template_is_filled_and_cut() {
    let t = "run('__MODULE_HASH__', '__JS_NAME__', __PAYLOAD__); // __JS_NAME__";
    let js = fill_call_template(t, "h42", "doIt");
    assert_eq!(js, "run('h42', 'doIt', __PAYLOAD__); // doIt");
    let (a, b) = split_call_template(&js).expect("marker present");
    assert_eq!(a, "run('h42', 'doIt', ");
    assert_eq!(b, "); // doIt");
    assert_eq!(split_call_template("no marker"), None);
}

#[test]
fn replacement_is_not_rescanned() {
    assert_eq!(fill_call_template("__JS_NAME__", "x", "__JS_NAME__"), "__JS_NAME__");
    assert_eq!(fill_call_template("__MODULE_HASH__", "__JS_NAME__", "f"), "f");
}

#[test]
fn bootstrap_template_is_filled() {
    let t = "m['__MODULE_HASH__'] = (function(){ __INLINED_JS__; return { __EXPORT_KEYS__ }; })();";
    let js = fill_bootstrap_template(t, "h1", "function a(){}", "a, b");
    assert_eq!(js, "m['h1'] = (function(){ function a(){}; return { a, b }; })();");
}

#[test]
fn watcher_template_is_cut_at_both_markers() {
    let js = "w(__PAYLOAD__, __SUB_ID__);";
    assert_eq!(
        split_watcher_template(js),
        Some(("w(".to_string(), ", ".to_string(), ");".to_string()))
    );
    assert_eq!(split_watcher_template("w(__SUB_ID__, __PAYLOAD__)"), None);
    assert_eq!(split_watcher_template("w(__PAYLOAD__)"), None);
    assert_eq!(watcher_script("w(", "[1]", ", ", 42, ");"), "w([1], 42);");
}

#[test]
fn generated_item_names() {
    assert_eq!(ensure_fn_name("ab12"), "__oxidase_ensure_module_ab12");
    assert_eq!(epoch_static_name("ab12"), "__OXIDASE_LOADED_EPOCH_ab12");
    assert_eq!(export_keys(&vec!["a".to_string(), "bC".to_string(), "d".to_string()]), "a, bC, d");
    assert_eq!(export_keys(&vec![]), "");
}

#[test]
fn payload_without_parameters_is_an_empty_array() {
    assert_eq!(fixed_payload(0), Some("[]".to_string()));
    assert_eq!(fixed_payload(2), None);
    assert_eq!(call_script("f(", "[]", ")"), "f([])");
}

#[test]
fn parameter_names_in_snake_case() {
    assert_eq!(
        rust_param_names(&vec!["elementId".to_string(), "HTMLNode".to_string(), "x".to_string()]),
        vec!["element_id".to_string(), "html_node".to_string(), "x".to_string()]
    );
}

#[test]
fn decimal_notation() {
    assert_eq!(decimal_text(0), "0");
    assert_eq!(decimal_text(7), "7");
    assert_eq!(decimal_text(1234567890), "1234567890");
    assert_eq!(decimal_text(u64::MAX), u64::MAX.to_string());
}

#[test]
fn module_plan_names_its_bootstrap() {
    let exports = vec![
        ExportedFunction { name: "getSize".to_string(), mode: InteropMode::Query },
        ExportedFunction { name: "log".to_string(), mode: InteropMode::Command },
    ];
    let items = vec![ItemSpec { original_name: "get_size".to_string(), mode: None, rename_as: None }];
    let plan = plan_module(&exports, &items, false, "web/x.js", "9f3a").expect("the item matches");
    assert_eq!(plan.ensure_fn, "__oxidase_ensure_module_9f3a");
    assert_eq!(plan.epoch_static, "__OXIDASE_LOADED_EPOCH_9f3a");
    assert_eq!(plan.bindings.len(), 1);
    assert_eq!(plan.bindings[0].rust_name, "get_size");
    let all = plan_module(&exports, &vec![], true, "web/x.js", "9f3a").unwrap();
    assert_eq!(all.bindings.len(), 2);
    assert_eq!(all.ensure_fn, "__oxidase_ensure_module_9f3a");
    let missing = vec![ItemSpec { original_name: "nope".to_string(), mode: None, rename_as: None }];
    let err = plan_module(&exports, &missing, false, "web/x.js", "9f3a").unwrap_err();
    assert_eq!(err.message, "Function 'nope' was not found in exported functions of 'web/x.js'");
}
