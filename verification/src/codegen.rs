//! The text work of binding generation: filling the JS templates, cutting
//! them at their markers, the names of the generated items, the payload of
//! a call without parameters and the Rust names of parameters.

use vstd::prelude::*;
use crate::bindings::{
    bindings_upto, generate_bindings, item_matched, not_found_message, snake_case, to_snake,
    BindingError, BindingPlan, ExportedFunction, ItemSpec,
};

verus! {

/// `pattern` occurs in `text` at position `i`.
pub open spec fn occurs_at(text: Seq<char>, pattern: Seq<char>, i: int) -> bool {
    0 <= i && i + pattern.len() <= text.len() && text.subrange(i, i + pattern.len()) == pattern
}

/// `i` is the first position at which `pattern` occurs in `text`.
pub open spec fn first_occurrence(text: Seq<char>, pattern: Seq<char>, i: int) -> bool {
    &&& occurs_at(text, pattern, i)
    &&& forall|k: int| 0 <= k < i ==> !#[trigger] occurs_at(text, pattern, k)
}

/// `pattern` occurs somewhere in `text`.
pub open spec fn occurs_in(text: Seq<char>, pattern: Seq<char>) -> bool {
    exists|i: int| #[trigger] occurs_at(text, pattern, i)
}

/// Whether `pattern` occurs in `text` at position `i`, char by char.
fn matches_at(text: &str, pattern: &str, i: usize) -> (r: bool)
    requires
        i + pattern@.len() <= text@.len(),
    ensures
        r == occurs_at(text@, pattern@, i as int),
{
    let n = text.unicode_len();
    let m = pattern.unicode_len();
    let mut j: usize = 0;
    while j < m
        invariant
            n == text@.len(),
            m == pattern@.len(),
            i + m <= text@.len(),
            j <= m,
            forall|q: int| 0 <= q < j ==> text@[i + q] == pattern@[q],
        decreases m - j,
    {
        if text.get_char(i + j) != pattern.get_char(j) {
            proof {
                assert(text@.subrange(i as int, i + m)[j as int] == text@[i + j]);
            }
            return false;
        }
        j = j + 1;
    }
    assert(text@.subrange(i as int, i + m) =~= pattern@);
    true
}

/// The first position at which `pattern` occurs in `text`, if any.
fn find_text(text: &str, pattern: &str) -> (r: Option<usize>)
    ensures
        match r {
            Some(i) => first_occurrence(text@, pattern@, i as int),
            None => !occurs_in(text@, pattern@),
        },
{
    let n = text.unicode_len();
    let m = pattern.unicode_len();
    if n < m {
        return None;
    }
    let last = n - m;
    let mut i: usize = 0;
    loop
        invariant
            n == text@.len(),
            m == pattern@.len(),
            last == n - m,
            i <= last,
            forall|k: int| 0 <= k < i ==> !#[trigger] occurs_at(text@, pattern@, k),
        decreases last - i,
    {
        if matches_at(text, pattern, i) {
            return Some(i);
        }
        if i == last {
            return None;
        }
        i = i + 1;
    }
}

/// Cuts `text` at the first occurrence of `marker`: the text before it and
/// the text after it, which with the marker between them give `text` back;
/// `None` when the marker does not occur.
pub fn split_once(text: &str, marker: &str) -> (r: Option<(String, String)>)
    ensures
        r is None <==> !occurs_in(text@, marker@),
        r matches Some((before, after)) ==> {
            &&& first_occurrence(text@, marker@, before@.len() as int)
            &&& before@ + marker@ + after@ == text@
        },
{
    match find_text(text, marker) {
        None => None,
        Some(i) => {
            let n = text.unicode_len();
            let m = marker.unicode_len();
            let before = String::from_str(text.substring_char(0, i));
            let after = String::from_str(text.substring_char(i + m, n));
            proof {
                assert(before@ + marker@ + after@ =~= text@);
            }
            Some((before, after))
        },
    }
}

/// `text` with every occurrence of `pattern` replaced by `rep`, scanning
/// from the left and never looking into a replacement.
pub open spec fn replaced(text: Seq<char>, pattern: Seq<char>, rep: Seq<char>) -> Seq<char>
    decreases text.len(),
{
    if pattern.len() == 0 || text.len() < pattern.len() {
        text
    } else if text.subrange(0, pattern.len() as int) == pattern {
        rep + replaced(text.subrange(pattern.len() as int, text.len() as int), pattern, rep)
    } else {
        seq![text[0]] + replaced(text.subrange(1, text.len() as int), pattern, rep)
    }
}

/// `text` with every occurrence of the non-empty `pattern` replaced by `rep`.
fn replace_all(text: &str, pattern: &str, rep: &str) -> (r: String)
    requires
        pattern@.len() > 0,
    ensures
        r@ == replaced(text@, pattern@, rep@),
{
    let n = text.unicode_len();
    let m = pattern.unicode_len();
    let mut out = String::from_str("");
    let mut i: usize = 0;
    proof {
        reveal_strlit("");
        assert(text@.subrange(0, n as int) =~= text@);
    }
    while i < n
        invariant
            n == text@.len(),
            m == pattern@.len(),
            m > 0,
            i <= n,
            out@ + replaced(text@.subrange(i as int, n as int), pattern@, rep@) == replaced(
                text@,
                pattern@,
                rep@,
            ),
        decreases n - i,
    {
        let ghost rest = text@.subrange(i as int, n as int);
        if m <= n - i && matches_at(text, pattern, i) {
            proof {
                assert(rest.subrange(0, m as int) =~= text@.subrange(i as int, i + m));
                assert(rest.subrange(m as int, rest.len() as int) =~= text@.subrange(i + m, n as int));
                assert(out@ + rep@ + replaced(text@.subrange(i + m, n as int), pattern@, rep@) =~= out@
                    + replaced(rest, pattern@, rep@));
            }
            out.append(rep);
            i = i + m;
        } else {
            let piece = text.substring_char(i, i + 1);
            proof {
                if i + m <= n {
                    assert(rest.subrange(0, m as int) =~= text@.subrange(i as int, i + m));
                }
                assert(rest.subrange(1, rest.len() as int) =~= text@.subrange(i + 1, n as int));
                assert(piece@ =~= seq![rest[0]]) by {
                    assert(rest[0] == text@[i as int]);
                }
                assert(out@ + seq![rest[0]] + replaced(text@.subrange(i + 1, n as int), pattern@, rep@)
                    =~= out@ + replaced(rest, pattern@, rep@));
            }
            out.append(piece);
            i = i + 1;
        }
    }
    proof {
        assert(out@ + replaced(text@.subrange(n as int, n as int), pattern@, rep@) =~= out@);
    }
    out
}

/// The pieces, in order, with `sep` between each two.
pub open spec fn interleaved(pieces: Seq<Seq<char>>, sep: Seq<char>) -> Seq<char>
    decreases pieces.len(),
{
    if pieces.len() == 0 {
        Seq::empty()
    } else if pieces.len() == 1 {
        pieces[0]
    } else {
        pieces[0] + sep + interleaved(pieces.drop_first(), sep)
    }
}

/// `s` does not hold the character `c`.
pub open spec fn free_of(s: Seq<char>, c: char) -> bool {
    forall|i: int| 0 <= i < s.len() ==> s[i] != c
}

/// A prefix at none of whose positions the pattern occurs is kept as it
/// is, and the replacement goes on after it.
proof fn lemma_replaced_skips_prefix(p: Seq<char>, t: Seq<char>, pattern: Seq<char>, rep: Seq<char>)
    requires
        pattern.len() > 0,
        forall|i: int| 0 <= i < p.len() ==> !occurs_at(p + t, pattern, i),
    ensures
        replaced(p + t, pattern, rep) == p + replaced(t, pattern, rep),
    decreases p.len(),
{
    let text = p + t;
    if p.len() > 0 {
        if text.len() < pattern.len() {
            assert(t.len() < pattern.len());
            assert(text =~= p + t);
        } else {
            assert(!occurs_at(text, pattern, 0));
            assert(text.subrange(0, pattern.len() as int) != pattern);
            let p1 = p.drop_first();
            assert(text.subrange(1, text.len() as int) =~= p1 + t);
            assert forall|i: int| 0 <= i < p1.len() implies !occurs_at(p1 + t, pattern, i) by {
                assert(!occurs_at(text, pattern, i + 1));
                if occurs_at(p1 + t, pattern, i) {
                    assert(text.subrange(i + 1, i + 1 + pattern.len()) =~= (p1 + t).subrange(
                        i,
                        i + pattern.len(),
                    ));
                }
            }
            lemma_replaced_skips_prefix(p1, t, pattern, rep);
            assert(seq![text[0]] + (p1 + replaced(t, pattern, rep)) =~= p + replaced(t, pattern, rep));
        }
    } else {
        assert(text =~= t);
    }
}

/// A pattern at the start is replaced, and the replacement goes on after it.
proof fn lemma_replaced_at_start(t: Seq<char>, pattern: Seq<char>, rep: Seq<char>)
    requires
        pattern.len() > 0,
    ensures
        replaced(pattern + t, pattern, rep) == rep + replaced(t, pattern, rep),
{
    let text = pattern + t;
    assert(text.subrange(0, pattern.len() as int) =~= pattern);
    assert(text.subrange(pattern.len() as int, text.len() as int) =~= t);
}

/// Text without the pattern's first character is left as it is.
proof fn lemma_replaced_free(t: Seq<char>, pattern: Seq<char>, rep: Seq<char>)
    requires
        pattern.len() > 0,
        free_of(t, pattern[0]),
    ensures
        replaced(t, pattern, rep) == t,
{
    assert forall|i: int| 0 <= i < t.len() implies !occurs_at(t + Seq::empty(), pattern, i) by {
        assert((t + Seq::<char>::empty())[i] == t[i]);
        if occurs_at(t + Seq::empty(), pattern, i) {
            assert((t + Seq::<char>::empty()).subrange(i, i + pattern.len())[0] == pattern[0]);
        }
    }
    lemma_replaced_skips_prefix(t, Seq::empty(), pattern, rep);
    assert(t + Seq::<char>::empty() =~= t);
    assert(t + replaced(Seq::<char>::empty(), pattern, rep) =~= t);
}

/// Replacing a pattern in pieces joined by it, when no piece holds the
/// pattern's first character, puts the replacement between the pieces.
proof fn lemma_replaced_interleaved(pieces: Seq<Seq<char>>, pattern: Seq<char>, rep: Seq<char>)
    requires
        pattern.len() > 0,
        forall|k: int| 0 <= k < pieces.len() ==> free_of(#[trigger] pieces[k], pattern[0]),
    ensures
        replaced(interleaved(pieces, pattern), pattern, rep) == interleaved(pieces, rep),
    decreases pieces.len(),
{
    if pieces.len() == 0 {
        assert(replaced(Seq::<char>::empty(), pattern, rep) == Seq::<char>::empty());
    } else if pieces.len() == 1 {
        assert(free_of(pieces[0], pattern[0]));
        lemma_replaced_free(pieces[0], pattern, rep);
    } else {
        let p0 = pieces[0];
        assert(free_of(p0, pattern[0]));
        let rest = pieces.drop_first();
        assert forall|k: int| 0 <= k < rest.len() implies free_of(#[trigger] rest[k], pattern[0]) by {
            assert(rest[k] == pieces[k + 1]);
        }
        let tail = pattern + interleaved(rest, pattern);
        assert(interleaved(pieces, pattern) =~= p0 + tail);
        assert forall|i: int| 0 <= i < p0.len() implies !occurs_at(p0 + tail, pattern, i) by {
            if occurs_at(p0 + tail, pattern, i) {
                assert((p0 + tail).subrange(i, i + pattern.len())[0] == pattern[0]);
                assert((p0 + tail)[i] == p0[i]);
            }
        }
        lemma_replaced_skips_prefix(p0, tail, pattern, rep);
        lemma_replaced_at_start(interleaved(rest, pattern), pattern, rep);
        lemma_replaced_interleaved(rest, pattern, rep);
        assert(p0 + (rep + interleaved(rest, rep)) =~= p0 + rep + interleaved(rest, rep));
    }
}

/// Every piece of a sequence is free of a character, and so is what
/// joining them with a separator free of it gives.
proof fn lemma_interleaved_free(pieces: Seq<Seq<char>>, sep: Seq<char>, c: char)
    requires
        free_of(sep, c),
        forall|k: int| 0 <= k < pieces.len() ==> free_of(#[trigger] pieces[k], c),
    ensures
        free_of(interleaved(pieces, sep), c),
    decreases pieces.len(),
{
    if pieces.len() == 1 {
        assert(free_of(pieces[0], c));
    } else if pieces.len() > 1 {
        let rest = pieces.drop_first();
        assert forall|k: int| 0 <= k < rest.len() implies free_of(#[trigger] rest[k], c) by {
            assert(rest[k] == pieces[k + 1]);
        }
        lemma_interleaved_free(rest, sep, c);
        assert(free_of(pieces[0], c));
        let whole = pieces[0] + sep + interleaved(rest, sep);
        assert forall|i: int| 0 <= i < whole.len() implies whole[i] != c by {
            if i < pieces[0].len() {
            } else if i < pieces[0].len() + sep.len() {
                assert(whole[i] == sep[i - pieces[0].len()]);
            } else {
                assert(whole[i] == interleaved(rest, sep)[i - pieces[0].len() - sep.len()]);
            }
        }
    }
}

/// A JS template with the module's hash and the function's JS name filled
/// in, in that order.
pub open spec fn filled_template(template: Seq<char>, module_hash: Seq<char>, js_name: Seq<char>) -> Seq<
    char,
> {
    replaced(replaced(template, "__MODULE_HASH__"@, module_hash), "__JS_NAME__"@, js_name)
}

/// Fills `__MODULE_HASH__` and then `__JS_NAME__` into a call template.
pub fn fill_call_template(template: &str, module_hash: &str, js_name: &str) -> (r: String)
    ensures
        r@ == filled_template(template@, module_hash@, js_name@),
{
    proof {
        reveal_strlit("__MODULE_HASH__");
        reveal_strlit("__JS_NAME__");
    }
    let with_hash = replace_all(template, "__MODULE_HASH__", module_hash);
    replace_all(with_hash.as_str(), "__JS_NAME__", js_name)
}

/// The module bootstrap template with the module's hash, its inlined
/// source and the list of its export names filled in, in that order.
pub open spec fn filled_bootstrap(
    template: Seq<char>,
    module_hash: Seq<char>,
    inlined_js: Seq<char>,
    export_keys: Seq<char>,
) -> Seq<char> {
    replaced(
        replaced(replaced(template, "__MODULE_HASH__"@, module_hash), "__INLINED_JS__"@, inlined_js),
        "__EXPORT_KEYS__"@,
        export_keys,
    )
}

/// Filling a call template replaces every `__MODULE_HASH__` marker with the
/// module's hash and keeps the text between markers, as `str::replace`
/// does: for a template made of text pieces joined by the marker, where
/// neither the pieces, the hash nor the JS name holds an underscore, the
/// result is the same pieces joined by the hash, with no marker left.
pub proof fn law_fill_replaces_every_hash_marker(
    pieces: Seq<Seq<char>>,
    module_hash: Seq<char>,
    js_name: Seq<char>,
)
    requires
        forall|k: int| 0 <= k < pieces.len() ==> free_of(#[trigger] pieces[k], '_'),
        free_of(module_hash, '_'),
        free_of(js_name, '_'),
    ensures
        filled_template(interleaved(pieces, "__MODULE_HASH__"@), module_hash, js_name)
            == interleaved(pieces, module_hash),
        !occurs_in(
            filled_template(interleaved(pieces, "__MODULE_HASH__"@), module_hash, js_name),
            "__MODULE_HASH__"@,
        ),
{
    reveal_strlit("__MODULE_HASH__");
    reveal_strlit("__JS_NAME__");
    let hash = "__MODULE_HASH__"@;
    let name = "__JS_NAME__"@;
    assert(hash[0] == '_');
    assert(name[0] == '_');
    lemma_replaced_interleaved(pieces, hash, module_hash);
    lemma_interleaved_free(pieces, module_hash, '_');
    let out = interleaved(pieces, module_hash);
    lemma_replaced_free(out, name, js_name);
    if occurs_in(out, hash) {
        let i = choose|i: int| occurs_at(out, hash, i);
        assert(out.subrange(i, i + hash.len())[0] == hash[0]);
        assert(out[i] == '_');
    }
}

/// Filling a call template replaces every `__JS_NAME__` marker with the
/// JS name and keeps the text between markers: for a template without the
/// hash marker made of text pieces joined by the name marker, where neither
/// the pieces nor the JS name holds an underscore, the result is the same
/// pieces joined by the JS name, whatever the hash.
pub proof fn law_fill_replaces_every_name_marker(
    pieces: Seq<Seq<char>>,
    module_hash: Seq<char>,
    js_name: Seq<char>,
)
    requires
        forall|k: int| 0 <= k < pieces.len() ==> free_of(#[trigger] pieces[k], '_'),
        free_of(js_name, '_'),
        !occurs_in(interleaved(pieces, "__JS_NAME__"@), "__MODULE_HASH__"@),
    ensures
        filled_template(interleaved(pieces, "__JS_NAME__"@), module_hash, js_name)
            == interleaved(pieces, js_name),
{
    reveal_strlit("__MODULE_HASH__");
    reveal_strlit("__JS_NAME__");
    let hash = "__MODULE_HASH__"@;
    let name = "__JS_NAME__"@;
    let t = interleaved(pieces, name);
    lemma_replaced_absent(t, hash, module_hash);
    lemma_replaced_interleaved(pieces, name, js_name);
}

/// Text in which the pattern does not occur is left as it is.
proof fn lemma_replaced_absent(t: Seq<char>, pattern: Seq<char>, rep: Seq<char>)
    requires
        pattern.len() > 0,
        !occurs_in(t, pattern),
    ensures
        replaced(t, pattern, rep) == t,
{
    assert forall|i: int| 0 <= i < t.len() implies !occurs_at(t + Seq::empty(), pattern, i) by {
        assert(t + Seq::<char>::empty() =~= t);
        if occurs_at(t + Seq::empty(), pattern, i) {
            assert(occurs_at(t, pattern, i));
        }
    }
    lemma_replaced_skips_prefix(t, Seq::empty(), pattern, rep);
    assert(t + Seq::<char>::empty() =~= t);
    assert(t + replaced(Seq::<char>::empty(), pattern, rep) =~= t);
}

/// Replacement reaches every occurrence and keeps the text between them:
/// for text pieces joined by a pattern, where no piece holds the pattern's
/// first character, replacing the pattern gives the same pieces joined by
/// the replacement.
pub proof fn law_replace_every_occurrence(pieces: Seq<Seq<char>>, pattern: Seq<char>, rep: Seq<char>)
    requires
        pattern.len() > 0,
        forall|k: int| 0 <= k < pieces.len() ==> free_of(#[trigger] pieces[k], pattern[0]),
    ensures
        replaced(interleaved(pieces, pattern), pattern, rep) == interleaved(pieces, rep),
{
    lemma_replaced_interleaved(pieces, pattern, rep);
}

/// Filling the module bootstrap template replaces every `__MODULE_HASH__`
/// marker with the module's hash and keeps the text between markers: for a
/// template made of text pieces joined by the marker, where neither the
/// pieces, the hash, the inlined source nor the export list holds an
/// underscore, the result is the same pieces joined by the hash.
pub proof fn law_bootstrap_replaces_every_hash_marker(
    pieces: Seq<Seq<char>>,
    module_hash: Seq<char>,
    inlined_js: Seq<char>,
    export_keys: Seq<char>,
)
    requires
        forall|k: int| 0 <= k < pieces.len() ==> free_of(#[trigger] pieces[k], '_'),
        free_of(module_hash, '_'),
        free_of(inlined_js, '_'),
        free_of(export_keys, '_'),
    ensures
        filled_bootstrap(interleaved(pieces, "__MODULE_HASH__"@), module_hash, inlined_js, export_keys)
            == interleaved(pieces, module_hash),
{
    reveal_strlit("__MODULE_HASH__");
    reveal_strlit("__INLINED_JS__");
    reveal_strlit("__EXPORT_KEYS__");
    let hash = "__MODULE_HASH__"@;
    assert(hash[0] == '_');
    assert("__INLINED_JS__"@[0] == '_');
    assert("__EXPORT_KEYS__"@[0] == '_');
    lemma_replaced_interleaved(pieces, hash, module_hash);
    lemma_interleaved_free(pieces, module_hash, '_');
    let out = interleaved(pieces, module_hash);
    lemma_replaced_free(out, "__INLINED_JS__"@, inlined_js);
    lemma_replaced_free(out, "__EXPORT_KEYS__"@, export_keys);
}

/// Fills `__MODULE_HASH__`, `__INLINED_JS__` and `__EXPORT_KEYS__` into the
/// module bootstrap template.
pub fn fill_bootstrap_template(
    template: &str,
    module_hash: &str,
    inlined_js: &str,
    export_keys: &str,
) -> (r: String)
    ensures
        r@ == filled_bootstrap(template@, module_hash@, inlined_js@, export_keys@),
{
    proof {
        reveal_strlit("__MODULE_HASH__");
        reveal_strlit("__INLINED_JS__");
        reveal_strlit("__EXPORT_KEYS__");
    }
    let a = replace_all(template, "__MODULE_HASH__", module_hash);
    let b = replace_all(a.as_str(), "__INLINED_JS__", inlined_js);
    replace_all(b.as_str(), "__EXPORT_KEYS__", export_keys)
}

/// Cuts a command or query template at its `__PAYLOAD__` marker.
pub fn split_call_template(js: &str) -> (r: Option<(String, String)>)
    ensures
        r is None <==> !occurs_in(js@, "__PAYLOAD__"@),
        r matches Some((before, after)) ==> {
            &&& first_occurrence(js@, "__PAYLOAD__"@, before@.len() as int)
            &&& before@ + "__PAYLOAD__"@ + after@ == js@
        },
{
    split_once(js, "__PAYLOAD__")
}

/// Cuts a watcher template at its `__PAYLOAD__` marker and then, in what
/// follows it, at its `__SUB_ID__` marker; `None` when either is missing.
pub fn split_watcher_template(js: &str) -> (r: Option<(String, String, String)>)
    ensures
        r is None <==> (!occurs_in(js@, "__PAYLOAD__"@) || exists|i: int|
            first_occurrence(js@, "__PAYLOAD__"@, i) && !occurs_in(
                js@.subrange(i + "__PAYLOAD__"@.len(), js@.len() as int),
                "__SUB_ID__"@,
            )),
        r matches Some((a, b, c)) ==> {
            &&& first_occurrence(js@, "__PAYLOAD__"@, a@.len() as int)
            &&& first_occurrence(js@.subrange((a@.len() + "__PAYLOAD__"@.len()) as int, js@.len() as int), "__SUB_ID__"@, b@.len() as int)
            &&& a@ + "__PAYLOAD__"@ + b@ + "__SUB_ID__"@ + c@ == js@
        },
{
    proof {
        reveal_strlit("__PAYLOAD__");
    }
    match split_once(js, "__PAYLOAD__") {
        None => None,
        Some((part1, rest)) => {
            proof {
                assert(rest@ =~= js@.subrange((part1@.len() + "__PAYLOAD__"@.len()) as int, js@.len() as int));
                assert forall|i: int| first_occurrence(js@, "__PAYLOAD__"@, i) implies i == part1@.len() by {
                    if i < part1@.len() {
                        assert(!occurs_at(js@, "__PAYLOAD__"@, i));
                    } else if i > part1@.len() {
                        assert(!occurs_at(js@, "__PAYLOAD__"@, part1@.len() as int));
                    }
                }
            }
            match split_once(rest.as_str(), "__SUB_ID__") {
                None => None,
                Some((part2, part3)) => {
                    proof {
                        assert(part1@ + "__PAYLOAD__"@ + part2@ + "__SUB_ID__"@ + part3@ =~= js@);
                    }
                    Some((part1, part2, part3))
                },
            }
        },
    }
}

/// The name of the generated function that evaluates a module when its
/// last evaluation is stale.
pub open spec fn ensure_fn_name_text(module_hash: Seq<char>) -> Seq<char> {
    "__oxidase_ensure_module_"@ + module_hash
}

/// The name of the generated function that evaluates a module when its
/// last evaluation is stale.
pub fn ensure_fn_name(module_hash: &str) -> (r: String)
    ensures
        r@ == ensure_fn_name_text(module_hash@),
{
    let mut r = String::from_str("__oxidase_ensure_module_");
    r.append(module_hash);
    r
}

/// The name of the generated static that holds the epoch of a module's
/// last evaluation.
pub open spec fn epoch_static_name_text(module_hash: Seq<char>) -> Seq<char> {
    "__OXIDASE_LOADED_EPOCH_"@ + module_hash
}

/// The name of the generated static that holds the epoch of a module's
/// last evaluation.
pub fn epoch_static_name(module_hash: &str) -> (r: String)
    ensures
        r@ == epoch_static_name_text(module_hash@),
{
    let mut r = String::from_str("__OXIDASE_LOADED_EPOCH_");
    r.append(module_hash);
    r
}

/// The names joined with `", "` between them.
pub open spec fn joined(names: Seq<Seq<char>>) -> Seq<char>
    decreases names.len(),
{
    if names.len() == 0 {
        Seq::empty()
    } else if names.len() == 1 {
        names[0]
    } else {
        joined(names.drop_last()) + ", "@ + names.last()
    }
}

/// The list of a module's export names that the bootstrap returns: the
/// names, in order, joined with `", "`.
pub fn export_keys(names: &Vec<String>) -> (r: String)
    ensures
        r@ == joined(names@.map_values(|s: String| s@)),
{
    let ghost views = names@.map_values(|s: String| s@);
    let mut r = String::from_str("");
    proof {
        reveal_strlit("");
        assert(views.subrange(0, 0) =~= Seq::<Seq<char>>::empty());
    }
    let mut k: usize = 0;
    while k < names.len()
        invariant
            views == names@.map_values(|s: String| s@),
            k <= names@.len(),
            r@ == joined(views.subrange(0, k as int)),
        decreases names@.len() - k,
    {
        if k > 0 {
            r.append(", ");
        }
        r.append(names[k].as_str());
        proof {
            reveal_strlit(", ");
            let s = views.subrange(0, k + 1);
            assert(s.drop_last() =~= views.subrange(0, k as int));
            if k == 0 {
                assert(views.subrange(0, 0) =~= Seq::<Seq<char>>::empty());
            }
        }
        k = k + 1;
    }
    proof {
        assert(views.subrange(0, names@.len() as int) =~= views);
    }
    r
}

/// The payload of a call whose function takes no parameters: the empty JSON
/// array `[]`. A call with parameters sends them as a JSON tuple instead,
/// and gets `None` here.
pub fn fixed_payload(param_count: usize) -> (r: Option<String>)
    ensures
        r is Some <==> param_count == 0,
        r matches Some(p) ==> p@ == "[]"@,
{
    if param_count == 0 {
        Some(String::from_str("[]"))
    } else {
        None
    }
}

/// The Rust names of a function's parameters: each JS name in snake_case.
pub fn rust_param_names(params: &Vec<String>) -> (r: Vec<String>)
    ensures
        r@.len() == params@.len(),
        forall|i: int| 0 <= i < params@.len() ==> #[trigger] r@[i]@ == snake_case(params@[i]@),
{
    let mut r: Vec<String> = Vec::new();
    let mut k: usize = 0;
    while k < params.len()
        invariant
            k <= params@.len(),
            r@.len() == k,
            forall|i: int| 0 <= i < k ==> #[trigger] r@[i]@ == snake_case(params@[i]@),
        decreases params@.len() - k,
    {
        r.push(to_snake(params[k].as_str()));
        k = k + 1;
    }
    r
}

/// The digits of decimal notation, in order.
pub open spec fn decimal_digits() -> Seq<char> {
    "0123456789"@
}

/// The decimal notation of `n`, without sign or leading zeros.
pub open spec fn decimal(n: nat) -> Seq<char>
    decreases n,
{
    if n < 10 {
        seq![decimal_digits()[n as int]]
    } else {
        decimal(n / 10).push(decimal_digits()[(n % 10) as int])
    }
}

/// The decimal notation of `n`.
pub fn decimal_text(n: u64) -> (r: String)
    ensures
        r@ == decimal(n as nat),
    decreases n,
{
    let digits = "0123456789";
    proof {
        reveal_strlit("0123456789");
    }
    let d = (n % 10) as usize;
    if n < 10 {
        let r = String::from_str(digits.substring_char(d, d + 1));
        assert(r@ =~= seq![decimal_digits()[n as int]]);
        r
    } else {
        let mut r = decimal_text(n / 10);
        r.append(digits.substring_char(d, d + 1));
        assert(r@ =~= decimal((n / 10) as nat).push(decimal_digits()[(n % 10) as int]));
        r
    }
}

/// The script of a command or query call: the template's part before the
/// payload, the payload, and the part after it.
pub fn call_script(part1: &str, payload: &str, part2: &str) -> (r: String)
    ensures
        r@ == part1@ + payload@ + part2@,
{
    let mut r = String::from_str(part1);
    r.append(payload);
    r.append(part2);
    r
}

/// The script that starts a watcher: the template's parts with the payload
/// and the subscription id, in decimal, in their places.
pub fn watcher_script(part1: &str, payload: &str, part2: &str, sub_id: u64, part3: &str) -> (r: String)
    ensures
        r@ == part1@ + payload@ + part2@ + decimal(sub_id as nat) + part3@,
{
    let mut r = String::from_str(part1);
    r.append(payload);
    r.append(part2);
    let id = decimal_text(sub_id);
    r.append(id.as_str());
    r.append(part3);
    r
}

/// What binding a module produces: the function that evaluates the module
/// when its last evaluation is stale, the static that holds the epoch of
/// that evaluation, and one binding per bound export.
#[derive(Debug)]
pub struct ModulePlan {
    pub ensure_fn: String,
    pub epoch_static: String,
    pub bindings: Vec<BindingPlan>,
}

/// Plans the binding of a module: every plan has the module's ensure
/// function and epoch static, named after its hash, beside the bindings
/// that [`generate_bindings`] plans; a requested function that no export
/// matches is the error that it reports.
pub fn plan_module(
    exports: &Vec<ExportedFunction>,
    items: &Vec<ItemSpec>,
    wildcard: bool,
    file_path: &str,
    module_hash: &str,
) -> (r: Result<ModulePlan, BindingError>)
    ensures
        match r {
            Ok(plan) => {
                &&& plan.ensure_fn@ == ensure_fn_name_text(module_hash@)
                &&& plan.epoch_static@ == epoch_static_name_text(module_hash@)
                &&& forall|k: int| 0 <= k < items@.len() ==> item_matched(exports@, items@, k)
                &&& plan.bindings@.map_values(|b: BindingPlan| b.plan_view()) == bindings_upto(
                    exports@,
                    items@,
                    wildcard,
                    exports@.len() as int,
                )
            },
            Err(err) => {
                &&& 0 <= err.item_index < items@.len()
                &&& !item_matched(exports@, items@, err.item_index as int)
                &&& forall|k: int| 0 <= k < err.item_index ==> item_matched(exports@, items@, k)
                &&& err.message@ == not_found_message(
                    items@[err.item_index as int].original_name@,
                    file_path@,
                )
            },
        },
{
    match generate_bindings(exports, items, wildcard, file_path) {
        Ok(bindings) => Ok(
            ModulePlan {
                ensure_fn: ensure_fn_name(module_hash),
                epoch_static: epoch_static_name(module_hash),
                bindings,
            },
        ),
        Err(e) => Err(e),
    }
}

} // verus!
