//! Route tests: how a URL resolves to a language and a layout, and
//! whether the layout's template is there.
use vstd::prelude::*;
use crate::cli::parser::strings_view;
use crate::report::{bullets, push_bullets};
use crate::text::{byte_len, copy_string, push_str, split_on, split_to_strings, str_byte_len, str_to_string, to_chars, chars_to_string};

verus! {

/// The result of testing one URL.
#[derive(Debug, Clone)]
pub struct RouteTest {
    pub url: String,
    pub matched: bool,
    pub layout: Option<String>,
    pub language: Option<String>,
    pub template_exists: bool,
    pub template_path: String,
    pub errors: Vec<String>,
}

/// `s` without its leading slashes.
pub open spec fn strip_slashes(s: Seq<char>) -> Seq<char>
    decreases s.len(),
{
    if s.len() > 0 && s[0] == '/' { strip_slashes(s.skip(1)) } else { s }
}

/// The language and layout a URL names: `/xx/layout` (two bytes first),
/// else `/layout` in English; neither for an empty path.
pub open spec fn resolve(url: Seq<char>) -> (Option<Seq<char>>, Option<Seq<char>>) {
    let parts = split_on(strip_slashes(url), '/');
    if byte_len(parts[0]) == 2 {
        (Some(parts[0]), if parts.len() > 1 { Some(parts[1]) } else { None })
    } else if parts[0].len() > 0 {
        (Some("en"@), Some(parts[0]))
    } else {
        (None, None)
    }
}

/// The template that a layout is tested with.
pub open spec fn mouse_template(layout: Seq<char>) -> Seq<char> {
    "templates/layouts/"@ + layout + "/"@ + layout + ".mouse.jinja"@
}

fn strip_leading_slashes(url: &str) -> (r: String)
    ensures
        r@ == strip_slashes(url@),
{
    let cs = to_chars(url);
    let mut i: usize = 0;
    assert(url@.skip(0) =~= url@);
    while i < cs.len() && cs[i] == '/'
        invariant
            cs@ == url@,
            i <= cs@.len(),
            strip_slashes(url@) == strip_slashes(url@.skip(i as int)),
        decreases cs.len() - i,
    {
        assert(url@.skip(i as int).skip(1) =~= url@.skip(i + 1));
        i += 1;
    }
    let n = cs.len();
    assert(cs@.subrange(i as int, n as int) =~= url@.skip(i as int));
    chars_to_string(cs.as_slice(), i, n)
}

/// The language and layout that `url` resolves to.
pub fn resolve_url(url: &str) -> (r: (Option<String>, Option<String>))
    ensures
        crate::reedstream::opt_str_view(r.0) == resolve(url@).0,
        crate::reedstream::opt_str_view(r.1) == resolve(url@).1,
{
    let path = strip_leading_slashes(url);
    let parts = split_to_strings(path.as_str(), '/');
    proof {
        crate::text::lemma_split_nonempty(path@, '/');
    }
    if str_byte_len(parts[0].as_str()) == 2 {
        let layout = if parts.len() > 1 { Some(copy_string(&parts[1])) } else { None };
        (Some(copy_string(&parts[0])), layout)
    } else if !parts[0].as_str().is_empty() {
        (Some(str_to_string("en")), Some(copy_string(&parts[0])))
    } else {
        (None, None)
    }
}

/// The template path that testing `url` checks, if a layout resolves.
pub fn route_template_path(url: &str) -> (r: Option<String>)
    ensures
        match resolve(url@).1 {
            Some(l) => r matches Some(p) && p@ == mouse_template(l),
            None => r is None,
        },
{
    let (_lang, layout) = resolve_url(url);
    match layout {
        Some(l) => Some(template_for(l.as_str())),
        None => None,
    }
}

fn template_for(layout: &str) -> (r: String)
    ensures
        r@ == mouse_template(layout@),
{
    let mut p = str_to_string("templates/layouts/");
    push_str(&mut p, layout);
    push_str(&mut p, "/");
    push_str(&mut p, layout);
    push_str(&mut p, ".mouse.jinja");
    p
}

impl RouteTest {
    /// A test of `url` that has not run yet.
    pub fn new(url: &str) -> (r: RouteTest)
        ensures
            r.url@ == url@,
            !r.matched,
            r.layout is None,
            r.language is None,
            !r.template_exists,
            r.template_path@ == Seq::<char>::empty(),
            r.errors@.len() == 0,
    {
        RouteTest {
            url: str_to_string(url),
            matched: false,
            layout: None,
            language: None,
            template_exists: false,
            template_path: String::new(),
            errors: Vec::new(),
        }
    }

    /// Resolves the URL. The language and layout that the URL names
    /// replace those held; a part the URL does not name (no layout after a
    /// language prefix, or an empty path) leaves the one held as it was.
    /// `template_exists` tells whether the template of the layout held
    /// afterwards (see `route_template_path`) is there. A missing template
    /// or layout is recorded as an error.
    pub fn simulate(&mut self, template_exists: bool)
        ensures
            final(self).url == old(self).url,
            crate::reedstream::opt_str_view(final(self).language) == or_held(
                resolve(old(self).url@).0,
                crate::reedstream::opt_str_view(old(self).language),
            ),
            crate::reedstream::opt_str_view(final(self).layout) == or_held(
                resolve(old(self).url@).1,
                crate::reedstream::opt_str_view(old(self).layout),
            ),
            final(self).matched == final(self).layout is Some,
            match crate::reedstream::opt_str_view(final(self).layout) {
                Some(l) => final(self).template_path@ == mouse_template(l) && final(self).template_exists
                    == template_exists && strings_view(final(self).errors@) == if template_exists {
                    strings_view(old(self).errors@)
                } else {
                    strings_view(old(self).errors@).push("Template not found: "@ + mouse_template(l))
                },
                None => final(self).template_path == old(self).template_path && final(self).template_exists
                    == old(self).template_exists && strings_view(final(self).errors@) == strings_view(
                    old(self).errors@,
                ).push("No layout matched for URL"@),
            },
    {
        let (language, layout) = resolve_url(self.url.as_str());
        match language {
            Some(l) => {
                self.language = Some(l);
            },
            None => {},
        }
        match layout {
            Some(l) => {
                self.layout = Some(l);
            },
            None => {},
        }
        self.matched = self.layout.is_some();
        match &self.layout {
            Some(l) => {
                self.template_path = template_for(l.as_str());
                self.template_exists = template_exists;
                if !template_exists {
                    let mut e = str_to_string("Template not found: ");
                    push_str(&mut e, self.template_path.as_str());
                    let ghost before = self.errors@;
                    self.errors.push(e);
                    assert(strings_view(self.errors@) =~= strings_view(before).push(e@));
                }
            },
            None => {
                let ghost before = self.errors@;
                let e = str_to_string("No layout matched for URL");
                self.errors.push(e);
                assert(strings_view(self.errors@) =~= strings_view(before).push(e@));
            },
        }
    }
}

/// What the URL names, else what is held.
pub open spec fn or_held(named: Option<Seq<char>>, held: Option<Seq<char>>) -> Option<Seq<char>> {
    match named {
        Some(x) => Some(x),
        None => held,
    }
}

pub open spec fn opt_line(out: Seq<char>, o: Option<String>, prefix: Seq<char>) -> Seq<char> {
    match o {
        Some(l) => out + prefix + l@ + "\n"@,
        None => out,
    }
}

/// `out` followed by how the URL resolved.
pub open spec fn with_resolution(out: Seq<char>, t: RouteTest) -> Seq<char> {
    if t.matched {
        opt_line(opt_line(out + "  ✓ Route matched\n"@, t.layout, "  Layout: "@), t.language, "  Language: "@)
    } else {
        out + "  ✗ No route match\n"@
    }
}

/// `out` followed by the template part.
pub open spec fn with_template(out: Seq<char>, t: RouteTest) -> Seq<char> {
    if t.template_exists {
        out + "\nTemplate:\n"@ + "  Path: "@ + t.template_path@ + "\n"@ + "  ✓ Template exists\n"@
    } else {
        out + "\nTemplate:\n"@ + "  Path: "@ + t.template_path@ + "\n"@ + "  ✗ Template not found\n"@
    }
}

/// `out` followed by the errors, if any.
pub open spec fn with_errors(out: Seq<char>, t: RouteTest) -> Seq<char> {
    if t.errors@.len() > 0 { out + "\n⚠ Errors:\n"@ + bullets(strings_view(t.errors@)) } else { out }
}

/// The test as the debug command prints it.
pub open spec fn route_test_text(t: RouteTest) -> Seq<char> {
    with_errors(with_template(with_resolution("🛣️  Route Test: "@ + t.url@ + "\n\n"@ + "Resolution:\n"@, t), t), t)
        + "\nNote: For complete route testing, use reed server:start with --debug flag.\n"@
}

impl RouteTest {
    /// The test as text.
    pub fn format(&self) -> (r: String)
        ensures
            r@ == route_test_text(*self),
    {
        let mut out = str_to_string("🛣️  Route Test: ");
        push_str(&mut out, self.url.as_str());
        push_str(&mut out, "\n\n");
        push_str(&mut out, "Resolution:\n");
        if self.matched {
            push_str(&mut out, "  ✓ Route matched\n");
            match &self.layout {
                Some(l) => {
                    push_str(&mut out, "  Layout: ");
                    push_str(&mut out, l.as_str());
                    push_str(&mut out, "\n");
                },
                None => {},
            }
            match &self.language {
                Some(l) => {
                    push_str(&mut out, "  Language: ");
                    push_str(&mut out, l.as_str());
                    push_str(&mut out, "\n");
                },
                None => {},
            }
        } else {
            push_str(&mut out, "  ✗ No route match\n");
        }
        push_str(&mut out, "\nTemplate:\n");
        push_str(&mut out, "  Path: ");
        push_str(&mut out, self.template_path.as_str());
        push_str(&mut out, "\n");
        if self.template_exists {
            push_str(&mut out, "  ✓ Template exists\n");
        } else {
            push_str(&mut out, "  ✗ Template not found\n");
        }
        if self.errors.len() > 0 {
            push_str(&mut out, "\n⚠ Errors:\n");
            proof {
                assert(strings_view(self.errors@).take(self.errors@.len() as int) =~= strings_view(self.errors@));
            }
            push_bullets(&mut out, &self.errors, self.errors.len());
        }
        push_str(&mut out, "\nNote: For complete route testing, use reed server:start with --debug flag.\n");
        out
    }
}

/// Tests how `url` resolves; `template_exists` tells whether the template
/// of its layout (see `route_template_path`) is there.
pub fn test_route(url: &str, template_exists: bool) -> (r: RouteTest)
    ensures
        r.url@ == url@,
        crate::reedstream::opt_str_view(r.language) == resolve(url@).0,
        crate::reedstream::opt_str_view(r.layout) == resolve(url@).1,
        r.matched == resolve(url@).1 is Some,
        match resolve(url@).1 {
            Some(l) => r.template_path@ == mouse_template(l) && r.template_exists == template_exists
                && strings_view(r.errors@) == if template_exists {
                Seq::<Seq<char>>::empty()
            } else {
                seq!["Template not found: "@ + mouse_template(l)]
            },
            None => r.template_path@ == Seq::<char>::empty() && !r.template_exists && strings_view(r.errors@)
                == seq!["No layout matched for URL"@],
        },
{
    let mut t = RouteTest::new(url);
    assert(strings_view(t.errors@) =~= Seq::<Seq<char>>::empty());
    t.simulate(template_exists);
    proof {
        assert(Seq::<Seq<char>>::empty().push("No layout matched for URL"@) =~= seq!["No layout matched for URL"@]);
    }
    t
}

} // verus!
