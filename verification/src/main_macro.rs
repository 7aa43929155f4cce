//! The decisions of the `#[main]` attribute: which calls it rewrites into
//! a launch through this library, and in which form.

use vstd::prelude::*;

verus! {

/// A callee path names a launch function when its last segment is
/// `launch` (`dioxus::launch`, `oxidase::launch`, a bare `launch`, ...).
pub open spec fn is_launch_path(path: Option<Seq<Seq<char>>>) -> bool {
    match path {
        Some(s) => s.len() > 0 && s.last() == "launch"@,
        None => false,
    }
}

/// The path segments of a callee, as plain text, when it is a path.
pub open spec fn segments_view(path: Option<&Vec<String>>) -> Option<Seq<Seq<char>>> {
    match path {
        Some(v) => Some(v@.map_values(|s: String| s@)),
        None => None,
    }
}

/// Whether a call whose callee has the path `path` (`None` when the callee
/// is not a path) is a launch call that `#[main]` rewrites.
pub fn is_launch_call(path: Option<&Vec<String>>) -> (r: bool)
    ensures
        r == is_launch_path(segments_view(path)),
{
    match path {
        None => false,
        Some(segments) => {
            let n = segments.len();
            let launch = String::from_str("launch");
            let dioxus = String::from_str("dioxus");
            let oxidase = String::from_str("oxidase");
            if n == 2 && segments[0] == dioxus && segments[1] == launch {
                return true;
            }
            if n == 1 && segments[0] == launch {
                return true;
            }
            if n == 2 && segments[0] == oxidase && segments[1] == launch {
                return true;
            }
            if n > 0 && segments[n - 1] == launch {
                return true;
            }
            false
        },
    }
}

/// Whether `text` contains `pattern` at some position.
pub open spec fn contains_text(text: Seq<char>, pattern: Seq<char>) -> bool {
    exists|i: int| 0 <= i && i + pattern.len() <= text.len() && #[trigger] text.subrange(i, i + pattern.len()) == pattern
}

/// Whether `text` contains `pattern`, by a scan of every position.
pub fn text_contains(text: &str, pattern: &str) -> (r: bool)
    ensures
        r == contains_text(text@, pattern@),
{
    let n = text.unicode_len();
    let m = pattern.unicode_len();
    if n < m {
        return false;
    }
    let mut i: usize = 0;
    while i <= n - m
        invariant
            n == text@.len(),
            m == pattern@.len(),
            m <= n,
            i <= n - m + 1,
            forall|k: int| 0 <= k < i && k + m <= n ==> #[trigger] text@.subrange(k, k + m) != pattern@,
        decreases n - i,
    {
        let mut j: usize = 0;
        let mut same = true;
        while j < m
            invariant
                n == text@.len(),
                m == pattern@.len(),
                i + m <= n,
                j <= m,
                same == (forall|q: int| 0 <= q < j ==> text@[i + q] == pattern@[q]),
            decreases m - j,
        {
            if text.get_char(i + j) != pattern.get_char(j) {
                same = false;
            }
            j = j + 1;
        }
        if same {
            assert(text@.subrange(i as int, i + m) =~= pattern@);
            return true;
        }
        proof {
            if text@.subrange(i as int, i + m) == pattern@ {
                assert forall|q: int| 0 <= q < m implies text@[i + q] == pattern@[q] by {
                    assert(text@.subrange(i as int, i + m)[q] == text@[i + q]);
                }
            }
        }
        i = i + 1;
    }
    false
}

/// Whether the attribute arguments of `#[main]` ask for the hosted form:
/// exactly when there are some and their text does not contain `headless`.
/// A bare `#[main]` and `#[main(headless)]` launch through this library.
pub fn is_hosted_attr(attr: &str) -> (r: bool)
    ensures
        r == (attr@.len() > 0 && !contains_text(attr@, "headless"@)),
{
    if attr.unicode_len() == 0 {
        false
    } else {
        !text_contains(attr, "headless")
    }
}

/// The form into which `#[main]` rewrites a launch call.
#[derive(Clone, Copy, Debug, PartialEq, Eq, Structural)]
pub enum LaunchForm {
    /// Call this library's `launch` with the same app.
    Library,
    /// Launch a hosted native window whose redraws drive the frame registry
    /// (a browser launch on web targets).
    Hosted,
}

/// How `#[main]` rewrites a call: a launch call that passes an app is
/// rewritten into this library's `launch`, or into the hosted form when the
/// attribute asks for it; any other call is left as it is.
pub fn launch_rewrite(path: Option<&Vec<String>>, has_app_argument: bool, hosted: bool) -> (r:
    Option<LaunchForm>)
    ensures
        r is Some <==> (is_launch_path(segments_view(path)) && has_app_argument),
        r is Some ==> r == Some(
            if hosted {
                LaunchForm::Hosted
            } else {
                LaunchForm::Library
            },
        ),
{
    if is_launch_call(path) && has_app_argument {
        if hosted {
            Some(LaunchForm::Hosted)
        } else {
            Some(LaunchForm::Library)
        }
    } else {
        None
    }
}

} // verus!
