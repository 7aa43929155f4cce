//! Planning the Rust bindings of a JS/TS module: which exported functions
//! are bound, under which interaction model and under which Rust name.
//! Names match across casing conventions (`camelCase` in JS, `snake_case`
//! in Rust), through the case conversions of the `heck` crate.

use vstd::prelude::*;

verus! {

/// The text that `heck`'s `to_lower_camel_case` gives for `s`.
pub uninterp spec fn lower_camel_case(s: Seq<char>) -> Seq<char>;

/// The text that `heck`'s `to_snake_case` gives for `s`.
pub uninterp spec fn snake_case(s: Seq<char>) -> Seq<char>;

/// `heck::ToLowerCamelCase::to_lower_camel_case`: `s` in lowerCamelCase.
#[verifier::external_body]
fn to_lower_camel(s: &str) -> (r: String)
    ensures
        r@ == lower_camel_case(s@),
{
    heck::ToLowerCamelCase::to_lower_camel_case(s)
}

/// `heck::ToSnakeCase::to_snake_case`: `s` in snake_case.
#[verifier::external_body]
pub(crate) fn to_snake(s: &str) -> (r: String)
    ensures
        r@ == snake_case(s@),
{
    heck::ToSnakeCase::to_snake_case(s)
}

/// How a bound function interacts with the browser.
#[derive(Clone, Copy, Debug, PartialEq, Eq, Structural)]
pub enum InteropMode {
    /// Synchronous, fire-and-forget dispatch.
    Command,
    /// Asynchronous call that yields a typed result.
    Query,
    /// Continuous event subscription; `is_raf` batches events per frame.
    Watcher { is_raf: bool },
}

/// The shape of an exported function's return, as its declaration shows it.
#[derive(Clone, Copy, Debug, PartialEq, Eq, Structural)]
pub enum ReturnShape {
    /// `void`, or no return at all.
    Void,
    /// A `Promise`.
    Promise,
    /// A concrete value.
    Value,
    /// A function (a closure factory or a cleanup returner).
    Function,
}

/// Why an export cannot be bound.
#[derive(Clone, Copy, Debug, PartialEq, Eq, Structural)]
pub enum ClassifyError {
    /// It yields a function without a `#[watcher]` annotation.
    HigherOrderFunction,
}

impl ClassifyError {
    /// The diagnostic text.
    pub open spec fn message_text(self) -> Seq<char> {
        "Higher-order functions returning functions are not supported in bind_js!. Return concrete serializable data or use a Watcher callback (annotated with #[watcher])."@
    }

    /// The diagnostic text.
    pub fn message(&self) -> (r: String)
        ensures
            r@ == self.message_text(),
    {
        String::from_str(
            "Higher-order functions returning functions are not supported in bind_js!. Return concrete serializable data or use a Watcher callback (annotated with #[watcher]).",
        )
    }
}

/// Whether a mode annotation is `#[watcher]`.
pub open spec fn is_watcher(mode: Option<InteropMode>) -> bool {
    mode matches Some(InteropMode::Watcher { .. })
}

/// The mode inferred from a declaration: `void` makes a Command, a
/// `Promise` or a value makes a Query. A Watcher is never inferred.
pub open spec fn inferred_mode(shape: ReturnShape) -> InteropMode {
    match shape {
        ReturnShape::Void => InteropMode::Command,
        _ => InteropMode::Query,
    }
}

/// The classification of a binding target: the `bind_js!` annotation
/// (first tier) overrides the doc-comment annotation (second tier), which
/// overrides the inference from the declaration (third tier); a target that
/// yields a function is refused unless one of the two annotations is
/// `#[watcher]`.
pub open spec fn classification(
    macro_mode: Option<InteropMode>,
    doc_mode: Option<InteropMode>,
    shape: ReturnShape,
) -> Result<InteropMode, ClassifyError> {
    if shape == ReturnShape::Function && !is_watcher(macro_mode) && !is_watcher(doc_mode) {
        Err(ClassifyError::HigherOrderFunction)
    } else {
        Ok(
            match macro_mode {
                Some(m) => m,
                None => match doc_mode {
                    Some(m) => m,
                    None => inferred_mode(shape),
                },
            },
        )
    }
}

/// Classifies a binding target by the three-tier precedence.
pub fn classify_export(
    macro_mode: Option<InteropMode>,
    doc_mode: Option<InteropMode>,
    shape: ReturnShape,
) -> (r: Result<InteropMode, ClassifyError>)
    ensures
        r == classification(macro_mode, doc_mode, shape),
{
    let macro_watcher = match macro_mode {
        Some(InteropMode::Watcher { .. }) => true,
        _ => false,
    };
    let doc_watcher = match doc_mode {
        Some(InteropMode::Watcher { .. }) => true,
        _ => false,
    };
    let returns_function = match shape {
        ReturnShape::Function => true,
        _ => false,
    };
    if returns_function && !macro_watcher && !doc_watcher {
        return Err(ClassifyError::HigherOrderFunction);
    }
    match macro_mode {
        Some(m) => Ok(m),
        None => match doc_mode {
            Some(m) => Ok(m),
            None => match shape {
                ReturnShape::Void => Ok(InteropMode::Command),
                _ => Ok(InteropMode::Query),
            },
        },
    }
}

/// A Watcher is never inferred: without annotations, classification gives
/// a Command or a Query, or refuses the target.
pub proof fn law_watcher_never_inferred(shape: ReturnShape)
    ensures
        !(classification(None, None, shape) matches Ok(InteropMode::Watcher { .. })),
        shape == ReturnShape::Void ==> classification(None, None, shape) == Ok::<
            InteropMode,
            ClassifyError,
        >(InteropMode::Command),
        shape == ReturnShape::Promise || shape == ReturnShape::Value ==> classification(
            None,
            None,
            shape,
        ) == Ok::<InteropMode, ClassifyError>(InteropMode::Query),
{
}

/// The `bind_js!` annotation takes precedence over everything, and the
/// doc-comment annotation over inference, whenever the target is accepted.
pub proof fn law_annotation_precedence(
    macro_mode: Option<InteropMode>,
    doc_mode: Option<InteropMode>,
    shape: ReturnShape,
)
    ensures
        macro_mode is Some && classification(macro_mode, doc_mode, shape) is Ok ==> classification(
            macro_mode,
            doc_mode,
            shape,
        ) == Ok::<InteropMode, ClassifyError>(macro_mode->0),
        macro_mode is None && doc_mode is Some && classification(macro_mode, doc_mode, shape) is Ok
            ==> classification(macro_mode, doc_mode, shape) == Ok::<InteropMode, ClassifyError>(
            doc_mode->0,
        ),
        shape != ReturnShape::Function ==> classification(macro_mode, doc_mode, shape) is Ok,
        is_watcher(macro_mode) ==> classification(macro_mode, doc_mode, shape) is Ok,
{
}

/// A target that yields a function is bound only as a Watcher: it is
/// refused with the higher-order-function error unless the `bind_js!`
/// annotation or the doc-comment annotation is `#[watcher]`, whatever other
/// annotation it carries; with a `#[watcher]` annotation it is accepted.
pub proof fn law_function_target_needs_watcher(
    macro_mode: Option<InteropMode>,
    doc_mode: Option<InteropMode>,
)
    ensures
        !(macro_mode matches Some(InteropMode::Watcher { .. }))
            && !(doc_mode matches Some(InteropMode::Watcher { .. })) ==> classification(
            macro_mode,
            doc_mode,
            ReturnShape::Function,
        ) == Err::<InteropMode, ClassifyError>(ClassifyError::HigherOrderFunction),
        (macro_mode matches Some(InteropMode::Watcher { .. })) || (doc_mode matches Some(
            InteropMode::Watcher { .. },
        )) ==> classification(macro_mode, doc_mode, ReturnShape::Function) is Ok,
        forall|shape: ReturnShape| #[trigger] classification(macro_mode, doc_mode, shape) is Err
            ==> shape == ReturnShape::Function,
{
}

/// A function that the JS/TS module exports, with the interaction model
/// that its declaration implies.
#[derive(Clone, Debug)]
pub struct ExportedFunction {
    pub name: String,
    pub mode: InteropMode,
}

/// A function requested in `bind_js!`, with its optional mode annotation
/// and optional `as` rename.
#[derive(Clone, Debug)]
pub struct ItemSpec {
    pub original_name: String,
    pub mode: Option<InteropMode>,
    pub rename_as: Option<String>,
}

/// One binding to generate: the export it binds, its interaction model and
/// the name of the Rust function.
#[derive(Clone, Debug)]
pub struct BindingPlan {
    pub export_index: usize,
    pub mode: InteropMode,
    pub rust_name: String,
}

/// A binding taken by its plain values.
pub struct PlanView {
    pub export_index: int,
    pub mode: InteropMode,
    pub rust_name: Seq<char>,
}

impl BindingPlan {
    pub open spec fn plan_view(self) -> PlanView {
        PlanView { export_index: self.export_index as int, mode: self.mode, rust_name: self.rust_name@ }
    }
}

/// A requested function that no export matches.
#[derive(Clone, Debug)]
pub struct BindingError {
    /// Its position among the requested functions.
    pub item_index: usize,
    /// The diagnostic reported for it.
    pub message: String,
}

/// Two names denote the same function when their lowerCamelCase forms or
/// their snake_case forms agree.
pub open spec fn names_match(a: Seq<char>, b: Seq<char>) -> bool {
    lower_camel_case(a) == lower_camel_case(b) || snake_case(a) == snake_case(b)
}

/// `k` is the first requested item that matches `name`.
pub open spec fn first_match(items: Seq<ItemSpec>, name: Seq<char>, k: int) -> bool {
    &&& 0 <= k < items.len()
    &&& names_match(items[k].original_name@, name)
    &&& forall|j: int| 0 <= j < k ==> !names_match(#[trigger] items[j].original_name@, name)
}

/// Some requested item matches `name`.
pub open spec fn has_match(items: Seq<ItemSpec>, name: Seq<char>) -> bool {
    exists|k: int| first_match(items, name, k)
}

/// The binding for export `e`: through its first matching item, whose mode
/// annotation and rename take precedence; with no matching item, through
/// its own mode and snake_case name when all exports are bound, and none
/// otherwise.
pub open spec fn binding_for(
    exports: Seq<ExportedFunction>,
    items: Seq<ItemSpec>,
    wildcard: bool,
    e: int,
) -> Option<PlanView> {
    let name = exports[e].name@;
    if has_match(items, name) {
        let k = choose|k: int| first_match(items, name, k);
        Some(
            PlanView {
                export_index: e,
                mode: match items[k].mode {
                    Some(m) => m,
                    None => exports[e].mode,
                },
                rust_name: match items[k].rename_as {
                    Some(r) => snake_case(r@),
                    None => snake_case(name),
                },
            },
        )
    } else if wildcard {
        Some(PlanView { export_index: e, mode: exports[e].mode, rust_name: snake_case(name) })
    } else {
        None
    }
}

/// The bindings of the first `n` exports, in export order.
pub open spec fn bindings_upto(
    exports: Seq<ExportedFunction>,
    items: Seq<ItemSpec>,
    wildcard: bool,
    n: int,
) -> Seq<PlanView>
    decreases n,
{
    if n <= 0 {
        Seq::empty()
    } else {
        let prev = bindings_upto(exports, items, wildcard, n - 1);
        match binding_for(exports, items, wildcard, n - 1) {
            Some(b) => prev.push(b),
            None => prev,
        }
    }
}

/// Requested item `k` is the first match of some export.
pub open spec fn item_matched(exports: Seq<ExportedFunction>, items: Seq<ItemSpec>, k: int) -> bool {
    exists|e: int| 0 <= e < exports.len() && first_match(items, #[trigger] exports[e].name@, k)
}

/// The diagnostic for a requested function that no export matches.
pub open spec fn not_found_message(name: Seq<char>, file_path: Seq<char>) -> Seq<char> {
    "Function '"@ + name + "' was not found in exported functions of '"@ + file_path + "'"@
}

/// Each planned binding comes from one export, below `n`, whose binding it
/// is.
proof fn lemma_bindings_upto_from(
    exports: Seq<ExportedFunction>,
    items: Seq<ItemSpec>,
    wildcard: bool,
    n: int,
    j: int,
)
    requires
        0 <= j < bindings_upto(exports, items, wildcard, n).len(),
    ensures
        exists|e: int|
            0 <= e < n && #[trigger] binding_for(exports, items, wildcard, e) == Some(
                bindings_upto(exports, items, wildcard, n)[j],
            ),
    decreases n,
{
    if n > 0 {
        let prev = bindings_upto(exports, items, wildcard, n - 1);
        if j < prev.len() {
            lemma_bindings_upto_from(exports, items, wildcard, n - 1, j);
            let e = choose|e: int|
                0 <= e < n - 1 && #[trigger] binding_for(exports, items, wildcard, e) == Some(prev[j]);
            assert(binding_for(exports, items, wildcard, e) == Some(
                bindings_upto(exports, items, wildcard, n)[j],
            ));
        } else {
            assert(binding_for(exports, items, wildcard, n - 1) == Some(
                bindings_upto(exports, items, wildcard, n)[j],
            ));
        }
    }
}

/// Every planned binding binds one of the module's exports. Its mode is
/// the mode annotation of the first requested item that matches the export
/// when that item carries one; otherwise, whether an item matches without
/// an annotation or the export is bound by the wildcard, it is the export's
/// own mode: an unannotated item never changes the export's
/// classification. Its Rust name is the item's rename in snake_case when
/// the item has one, else the export's name in snake_case.
pub proof fn law_planned_binding_modes(
    exports: Seq<ExportedFunction>,
    items: Seq<ItemSpec>,
    wildcard: bool,
    j: int,
)
    requires
        0 <= j < bindings_upto(exports, items, wildcard, exports.len() as int).len(),
    ensures
        ({
            let b = bindings_upto(exports, items, wildcard, exports.len() as int)[j];
            let e = b.export_index;
            &&& 0 <= e < exports.len()
            &&& forall|k: int|
                #![trigger first_match(items, exports[e].name@, k)]
                first_match(items, exports[e].name@, k) ==> {
                    &&& items[k].mode is None ==> b.mode == exports[e].mode
                    &&& items[k].mode matches Some(m) ==> b.mode == m
                    &&& items[k].rename_as is None ==> b.rust_name == snake_case(exports[e].name@)
                    &&& items[k].rename_as matches Some(r) ==> b.rust_name == snake_case(r@)
                }
            &&& !has_match(items, exports[e].name@) ==> (wildcard && b.mode == exports[e].mode
                && b.rust_name == snake_case(exports[e].name@))
        }),
{
    let n = exports.len() as int;
    lemma_bindings_upto_from(exports, items, wildcard, n, j);
    let b = bindings_upto(exports, items, wildcard, n)[j];
    let e = choose|e: int| 0 <= e < n && #[trigger] binding_for(exports, items, wildcard, e) == Some(b);
    assert(b.export_index == e);
    let name = exports[e].name@;
    assert forall|k: int| #![trigger first_match(items, name, k)] first_match(items, name, k) implies {
        &&& items[k].mode is None ==> b.mode == exports[e].mode
        &&& items[k].mode matches Some(m) ==> b.mode == m
        &&& items[k].rename_as is None ==> b.rust_name == snake_case(name)
        &&& items[k].rename_as matches Some(r) ==> b.rust_name == snake_case(r@)
    } by {
        let k0 = choose|k0: int| first_match(items, name, k0);
        lemma_first_match_unique(items, name, k, k0);
    }
}

/// At most one item is the first match of a name.
proof fn lemma_first_match_unique(items: Seq<ItemSpec>, name: Seq<char>, k1: int, k2: int)
    requires
        first_match(items, name, k1),
        first_match(items, name, k2),
    ensures
        k1 == k2,
{
    if k1 < k2 {
        assert(!names_match(items[k1].original_name@, name));
    } else if k2 < k1 {
        assert(!names_match(items[k2].original_name@, name));
    }
}

/// The first requested item whose name matches `name`, given the
/// lowerCamelCase and snake_case forms of `name`.
fn find_first_match(items: &Vec<ItemSpec>, name_camel: &String, name_snake: &String, Ghost(
    name,
): Ghost<Seq<char>>) -> (r: Option<usize>)
    requires
        name_camel@ == lower_camel_case(name),
        name_snake@ == snake_case(name),
    ensures
        match r {
            Some(k) => first_match(items@, name, k as int),
            None => !has_match(items@, name),
        },
{
    let n = items.len();
    let mut k: usize = 0;
    while k < n
        invariant
            n == items@.len(),
            k <= n,
            name_camel@ == lower_camel_case(name),
            name_snake@ == snake_case(name),
            forall|j: int| 0 <= j < k ==> !names_match(#[trigger] items@[j].original_name@, name),
        decreases n - k,
    {
        let item_camel = to_lower_camel(items[k].original_name.as_str());
        let item_snake = to_snake(items[k].original_name.as_str());
        if item_camel == *name_camel || item_snake == *name_snake {
            return Some(k);
        }
        k = k + 1;
    }
    None
}

/// The diagnostic for a requested function that no export matches.
fn not_found(name: &String, file_path: &str) -> (m: String)
    ensures
        m@ == not_found_message(name@, file_path@),
{
    let mut m = String::from_str("Function '");
    m.append(name.as_str());
    m.append("' was not found in exported functions of '");
    m.append(file_path);
    m.append("'");
    m
}

/// Plans the bindings of a module. Each export, in order, is bound through
/// the first requested item whose name matches it in lowerCamelCase or in
/// snake_case; that item's mode annotation overrides the export's inferred
/// mode and its rename, in snake_case, overrides the export's snake_case
/// name. When `wildcard` is set, exports that no item matches are bound
/// under their own mode and snake_case name; otherwise they are skipped.
/// A requested item that is the first match of no export is an error,
/// reported for the first such item.
pub fn generate_bindings(
    exports: &Vec<ExportedFunction>,
    items: &Vec<ItemSpec>,
    wildcard: bool,
    file_path: &str,
) -> (r: Result<Vec<BindingPlan>, BindingError>)
    ensures
        match r {
            Ok(plans) => {
                &&& forall|k: int| 0 <= k < items@.len() ==> item_matched(exports@, items@, k)
                &&& plans@.map_values(|b: BindingPlan| b.plan_view()) == bindings_upto(
                    exports@,
                    items@,
                    wildcard,
                    exports@.len() as int,
                )
            },
            Err(err) => {
                &&& 0 <= err.item_index < items@.len()
                &&& !item_matched(exports@, items@, err.item_index as int)
                &&& forall|k: int| 0 <= k < err.item_index ==> item_matched(exports@, items@, k)
                &&& err.message@ == not_found_message(
                    items@[err.item_index as int].original_name@,
                    file_path@,
                )
            },
        },
{
    let ni = items.len();
    let mut matched: Vec<bool> = Vec::new();
    while matched.len() < ni
        invariant
            matched@.len() <= ni,
            forall|k: int| 0 <= k < matched@.len() ==> !matched@[k],
        decreases ni - matched@.len(),
    {
        matched.push(false);
    }
    let ne = exports.len();
    let mut plans: Vec<BindingPlan> = Vec::new();
    let mut e: usize = 0;
    while e < ne
        invariant
            ne == exports@.len(),
            ni == items@.len(),
            e <= ne,
            matched@.len() == ni,
            forall|k: int|
                0 <= k < ni ==> (#[trigger] matched@[k] <==> exists|x: int|
                    0 <= x < e && first_match(items@, #[trigger] exports@[x].name@, k)),
            plans@.map_values(|b: BindingPlan| b.plan_view()) == bindings_upto(
                exports@,
                items@,
                wildcard,
                e as int,
            ),
        decreases ne - e,
    {
        let name = &exports[e].name;
        let name_camel = to_lower_camel(name.as_str());
        let name_snake = to_snake(name.as_str());
        let found = find_first_match(items, &name_camel, &name_snake, Ghost(name@));
        let ghost before = plans@;
        match found {
            Some(k) => {
                proof {
                    assert forall|k2: int| first_match(items@, name@, k2) implies k2 == k by {
                        lemma_first_match_unique(items@, name@, k as int, k2);
                    }
                }
                matched.set(k, true);
                let mode = match items[k].mode {
                    Some(m) => m,
                    None => exports[e].mode,
                };
                let rust_name = match &items[k].rename_as {
                    Some(r) => to_snake(r.as_str()),
                    None => name_snake,
                };
                plans.push(BindingPlan { export_index: e, mode, rust_name });
            },
            None => {
                if wildcard {
                    plans.push(BindingPlan { export_index: e, mode: exports[e].mode, rust_name: name_snake });
                }
            },
        }
        proof {
            assert(plans@.map_values(|b: BindingPlan| b.plan_view()) =~= bindings_upto(
                exports@,
                items@,
                wildcard,
                e + 1,
            ));
            assert forall|k: int| 0 <= k < ni implies (#[trigger] matched@[k] <==> exists|x: int|
                0 <= x < e + 1 && first_match(items@, #[trigger] exports@[x].name@, k)) by {
                if matched@[k] && !(exists|x: int| 0 <= x < e && first_match(items@, #[trigger] exports@[x].name@, k)) {
                    assert(first_match(items@, exports@[e as int].name@, k));
                }
                if exists|x: int| 0 <= x < e + 1 && first_match(items@, #[trigger] exports@[x].name@, k) {
                    let x = choose|x: int| 0 <= x < e + 1 && first_match(items@, #[trigger] exports@[x].name@, k);
                    if x == e {
                        lemma_first_match_unique(items@, name@, found->0 as int, k);
                    }
                }
            }
        }
        e = e + 1;
    }
    let mut k: usize = 0;
    while k < ni
        invariant
            ni == items@.len(),
            ne == exports@.len(),
            k <= ni,
            matched@.len() == ni,
            forall|j: int|
                0 <= j < ni ==> (#[trigger] matched@[j] <==> exists|x: int|
                    0 <= x < ne && first_match(items@, #[trigger] exports@[x].name@, j)),
            forall|j: int| 0 <= j < k ==> item_matched(exports@, items@, j),
        decreases ni - k,
    {
        if !matched[k] {
            let message = not_found(&items[k].original_name, file_path);
            return Err(BindingError { item_index: k, message });
        }
        k = k + 1;
    }
    Ok(plans)
}

} // verus!
