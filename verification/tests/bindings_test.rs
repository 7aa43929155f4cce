use oxidase::bindings::{
    classify_export, generate_bindings, ClassifyError, ExportedFunction, InteropMode, ItemSpec,
    ReturnShape,
};

fn export(name: &str, mode: InteropMode) -> ExportedFunction {
    ExportedFunction { name: name.into(), mode }
}

fn item(name: &str, mode: Option<InteropMode>, rename: Option<&str>) -> ItemSpec {
    ItemSpec { original_name: name.into(), mode, rename_as: rename.map(|s| s.into()) }
}

fn exports() -> Vec<ExportedFunction> {
    vec![
        export("focusElement", InteropMode::Command),
        export("measureElement", InteropMode::Query),
        export("watchResize", InteropMode::Watcher { is_raf: false }),
    ]
}

#[test]
fn wildcard_binds_every_export_in_snake_case() {
    let plans = generate_bindings(&exports(), &vec![], true, "src/dom.ts").unwrap();
    let names: Vec<&str> = plans.iter().map(|p| p.rust_name.as_str()).collect();
    assert_eq!(names, vec!["focus_element", "measure_element", "watch_resize"]);
    assert_eq!(plans[1].mode, InteropMode::Query);
    assert_eq!(plans[2].export_index, 2);
}

#[test]
fn selected_items_match_across_casings_with_overrides() {
    let items = vec![
        item("measure_element", None, Some("getElementRect")),
        item("focusElement", Some(InteropMode::Query), None),
    ];
    let plans = generate_bindings(&exports(), &items, false, "src/dom.ts").unwrap();
    assert_eq!(plans.len(), 2);
    assert_eq!(plans[0].export_index, 0);
    assert_eq!(plans[0].rust_name, "focus_element");
    assert_eq!(plans[0].mode, InteropMode::Query);
    assert_eq!(plans[1].export_index, 1);
    assert_eq!(plans[1].rust_name, "get_element_rect");
    assert_eq!(plans[1].mode, InteropMode::Query);
}

#[test]
fn unknown_item_is_reported() {
    let items = vec![item("watch_resize", None, None), item("scrollWindow", None, None)];
    let err = generate_bindings(&exports(), &items, false, "src/dom.ts").unwrap_err();
    assert_eq!(err.item_index, 1);
    assert_eq!(err.message, "Function 'scrollWindow' was not found in exported functions of 'src/dom.ts'");
}

#[test]
fn classification_tiers() {
    let watcher = InteropMode::Watcher { is_raf: false };
    assert_eq!(classify_export(None, None, ReturnShape::Void), Ok(InteropMode::Command));
    assert_eq!(classify_export(None, None, ReturnShape::Promise), Ok(InteropMode::Query));
    assert_eq!(classify_export(None, None, ReturnShape::Value), Ok(InteropMode::Query));
    assert_eq!(classify_export(None, Some(InteropMode::Command), ReturnShape::Promise), Ok(InteropMode::Command));
    assert_eq!(classify_export(None, Some(InteropMode::Query), ReturnShape::Void), Ok(InteropMode::Query));
    assert_eq!(classify_export(None, Some(watcher), ReturnShape::Function), Ok(watcher));
    assert_eq!(classify_export(Some(watcher), None, ReturnShape::Function), Ok(watcher));
    assert_eq!(
        classify_export(Some(InteropMode::Query), Some(InteropMode::Command), ReturnShape::Void),
        Ok(InteropMode::Query)
    );
    assert_eq!(classify_export(None, None, ReturnShape::Function), Err(ClassifyError::HigherOrderFunction));
    assert_eq!(
        classify_export(Some(InteropMode::Command), None, ReturnShape::Function),
        Err(ClassifyError::HigherOrderFunction)
    );
    assert!(ClassifyError::HigherOrderFunction.message().starts_with("Higher-order functions returning functions"));
}
