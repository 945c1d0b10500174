//! Change detection: what a changed file requires to be rebuilt.
use vstd::prelude::*;
use crate::text::{
    chars_find, contains_seq, occurs_at, push_str, split_on, split_to_strings, starts_with,
    str_starts_with, str_to_string, to_chars, chars_to_string,
};

verus! {

/// Rebuild scope.
#[derive(Debug, Clone, PartialEq)]
pub enum RebuildScope {
    AllCss,
    SpecificCss { layout: String, variant: String },
    AllJs,
    SpecificJs { layout: String, variant: String },
    Template { path: String },
    Config { path: String },
    Nothing,
}

/// A rebuild scope with its texts as character sequences.
pub enum ScopeView {
    AllCss,
    SpecificCss { layout: Seq<char>, variant: Seq<char> },
    AllJs,
    SpecificJs { layout: Seq<char>, variant: Seq<char> },
    Template { path: Seq<char> },
    Config { path: Seq<char> },
    Nothing,
}

impl View for RebuildScope {
    type V = ScopeView;

    open spec fn view(&self) -> ScopeView {
        match self {
            RebuildScope::AllCss => ScopeView::AllCss,
            RebuildScope::SpecificCss { layout, variant } => ScopeView::SpecificCss {
                layout: layout@,
                variant: variant@,
            },
            RebuildScope::AllJs => ScopeView::AllJs,
            RebuildScope::SpecificJs { layout, variant } => ScopeView::SpecificJs {
                layout: layout@,
                variant: variant@,
            },
            RebuildScope::Template { path } => ScopeView::Template { path: path@ },
            RebuildScope::Config { path } => ScopeView::Config { path: path@ },
            RebuildScope::Nothing => ScopeView::Nothing,
        }
    }
}

/// The first position where `p` occurs in `s`.
pub open spec fn first_occurrence(s: Seq<char>, p: Seq<char>) -> int {
    choose|i: int| occurs_at(s, p, i) && forall|j: int| 0 <= j < i ==> !occurs_at(s, p, j)
}

/// `(layout, variant)` of `.../assets/<type>/layouts/<layout>/<name>.<variant>.<ext>`.
pub open spec fn layout_variant_spec(path: Seq<char>, asset_type: Seq<char>) -> Option<(Seq<char>, Seq<char>)> {
    let pattern = "assets/"@ + asset_type + "/layouts/"@;
    if !contains_seq(path, pattern) {
        None
    } else {
        let after = path.subrange(first_occurrence(path, pattern) + pattern.len(), path.len() as int);
        let parts = split_on(after, '/');
        if parts.len() < 2 {
            None
        } else {
            let name_parts = split_on(parts[1], '.');
            if name_parts.len() < 3 {
                None
            } else {
                Some((parts[0], name_parts[1]))
            }
        }
    }
}

/// Extracts layout and variant from a file path.
pub fn extract_layout_variant(path: &str, asset_type: &str) -> (r: Option<(String, String)>)
    ensures
        match r {
            Some((l, v)) => layout_variant_spec(path@, asset_type@) == Some((l@, v@)),
            None => layout_variant_spec(path@, asset_type@) is None,
        },
{
    let mut pattern = String::from_str("assets/");
    push_str(&mut pattern, asset_type);
    push_str(&mut pattern, "/layouts/");
    let ghost pat = pattern@;
    assert(pat =~= "assets/"@ + asset_type@ + "/layouts/"@);
    let v = to_chars(path);
    let pv = to_chars(pattern.as_str());
    match chars_find(&v, &pv) {
        None => None,
        Some(start) => {
            assert(forall|j: int| 0 <= j < start ==> !occurs_at(path@, pat, j));
            assert(occurs_at(path@, pat, start as int));
            assert(first_occurrence(path@, pat) == start) by {
                let f = first_occurrence(path@, pat);
                assert(occurs_at(path@, pat, f) && forall|j: int| 0 <= j < f ==> !occurs_at(path@, pat, j));
                if f < start {
                } else if f > start {
                }
            }
            let after = chars_to_string(&v, start + pv.len(), v.len());
            let parts = split_to_strings(after.as_str(), '/');
            if parts.len() < 2 {
                return None;
            }
            let name_parts = split_to_strings(parts[1].as_str(), '.');
            if name_parts.len() < 3 {
                return None;
            }
            Some((str_to_string(parts[0].as_str()), str_to_string(name_parts[1].as_str())))
        },
    }
}

/// What a changed file requires to be rebuilt.
pub open spec fn rebuild_scope_spec(path: Seq<char>) -> ScopeView {
    if starts_with(path, "assets/css/core/"@) || starts_with(path, "assets/css/components/"@) {
        ScopeView::AllCss
    } else if starts_with(path, "assets/css/layouts/"@) {
        match layout_variant_spec(path, "css"@) {
            Some((layout, variant)) => ScopeView::SpecificCss { layout, variant },
            None => ScopeView::AllCss,
        }
    } else if starts_with(path, "assets/js/core/"@) || starts_with(path, "assets/js/components/"@) {
        ScopeView::AllJs
    } else if starts_with(path, "assets/js/layouts/"@) {
        match layout_variant_spec(path, "js"@) {
            Some((layout, variant)) => ScopeView::SpecificJs { layout, variant },
            None => ScopeView::AllJs,
        }
    } else if starts_with(path, "templates/"@) {
        ScopeView::Template { path }
    } else if starts_with(path, ".reed/"@) {
        ScopeView::Config { path }
    } else {
        ScopeView::Nothing
    }
}

/// A changed template or configuration file is reloaded under its own
/// path: a path that begins with `templates/` is a template change, and
/// one that begins with `.reed/` a configuration change, each carrying the
/// path that changed.
pub proof fn lemma_reload_keeps_path(path: Seq<char>)
    ensures
        path.len() >= 10 && path.subrange(0, 10) == "templates/"@ ==> rebuild_scope_spec(path) == (ScopeView::Template {
            path,
        }),
        path.len() >= 6 && path.subrange(0, 6) == ".reed/"@ ==> rebuild_scope_spec(path) == (ScopeView::Config {
            path,
        }),
{
    reveal_strlit("templates/");
    reveal_strlit(".reed/");
    reveal_strlit("assets/css/core/");
    reveal_strlit("assets/css/components/");
    reveal_strlit("assets/css/layouts/");
    reveal_strlit("assets/js/core/");
    reveal_strlit("assets/js/components/");
    reveal_strlit("assets/js/layouts/");
    if path.len() >= 10 && path.subrange(0, 10) == "templates/"@ {
        assert(path[0] == 't') by {
            assert(path.subrange(0, 10)[0] == path[0]);
        }
        assert(!starts_with(path, "assets/css/core/"@)) by {
            if starts_with(path, "assets/css/core/"@) {
                assert(path.subrange(0, 16)[0] == path[0]);
            }
        }
        assert(!starts_with(path, "assets/css/components/"@)) by {
            if starts_with(path, "assets/css/components/"@) {
                assert(path.subrange(0, 22)[0] == path[0]);
            }
        }
        assert(!starts_with(path, "assets/css/layouts/"@)) by {
            if starts_with(path, "assets/css/layouts/"@) {
                assert(path.subrange(0, 19)[0] == path[0]);
            }
        }
        assert(!starts_with(path, "assets/js/core/"@)) by {
            if starts_with(path, "assets/js/core/"@) {
                assert(path.subrange(0, 15)[0] == path[0]);
            }
        }
        assert(!starts_with(path, "assets/js/components/"@)) by {
            if starts_with(path, "assets/js/components/"@) {
                assert(path.subrange(0, 21)[0] == path[0]);
            }
        }
        assert(!starts_with(path, "assets/js/layouts/"@)) by {
            if starts_with(path, "assets/js/layouts/"@) {
                assert(path.subrange(0, 18)[0] == path[0]);
            }
        }
        assert(starts_with(path, "templates/"@));
    }
    if path.len() >= 6 && path.subrange(0, 6) == ".reed/"@ {
        assert(path[0] == '.') by {
            assert(path.subrange(0, 6)[0] == path[0]);
        }
        assert(!starts_with(path, "assets/css/core/"@)) by {
            if starts_with(path, "assets/css/core/"@) {
                assert(path.subrange(0, 16)[0] == path[0]);
            }
        }
        assert(!starts_with(path, "assets/css/components/"@)) by {
            if starts_with(path, "assets/css/components/"@) {
                assert(path.subrange(0, 22)[0] == path[0]);
            }
        }
        assert(!starts_with(path, "assets/css/layouts/"@)) by {
            if starts_with(path, "assets/css/layouts/"@) {
                assert(path.subrange(0, 19)[0] == path[0]);
            }
        }
        assert(!starts_with(path, "assets/js/core/"@)) by {
            if starts_with(path, "assets/js/core/"@) {
                assert(path.subrange(0, 15)[0] == path[0]);
            }
        }
        assert(!starts_with(path, "assets/js/components/"@)) by {
            if starts_with(path, "assets/js/components/"@) {
                assert(path.subrange(0, 21)[0] == path[0]);
            }
        }
        assert(!starts_with(path, "assets/js/layouts/"@)) by {
            if starts_with(path, "assets/js/layouts/"@) {
                assert(path.subrange(0, 18)[0] == path[0]);
            }
        }
        assert(!starts_with(path, "templates/"@)) by {
            if starts_with(path, "templates/"@) {
                assert(path.subrange(0, 10)[0] == path[0]);
            }
        }
        assert(starts_with(path, ".reed/"@));
    }
}

/// Detects what needs rebuilding based on a changed file.
///
/// Core and component CSS/JS rebuild all bundles of their kind; a layout
/// file rebuilds its layout's variant; templates and `.reed/` files are
/// reloaded; anything else needs nothing.
pub fn detect_rebuild_scope(path: &str) -> (r: RebuildScope)
    ensures
        r@ == rebuild_scope_spec(path@),
{
    if str_starts_with(path, "assets/css/core/") || str_starts_with(path, "assets/css/components/") {
        RebuildScope::AllCss
    } else if str_starts_with(path, "assets/css/layouts/") {
        match extract_layout_variant(path, "css") {
            Some((layout, variant)) => RebuildScope::SpecificCss { layout, variant },
            None => RebuildScope::AllCss,
        }
    } else if str_starts_with(path, "assets/js/core/") || str_starts_with(path, "assets/js/components/") {
        RebuildScope::AllJs
    } else if str_starts_with(path, "assets/js/layouts/") {
        match extract_layout_variant(path, "js") {
            Some((layout, variant)) => RebuildScope::SpecificJs { layout, variant },
            None => RebuildScope::AllJs,
        }
    } else if str_starts_with(path, "templates/") {
        RebuildScope::Template { path: str_to_string(path) }
    } else if str_starts_with(path, ".reed/") {
        RebuildScope::Config { path: str_to_string(path) }
    } else {
        RebuildScope::Nothing
    }
}

} // verus!
