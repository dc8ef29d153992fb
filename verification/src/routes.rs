//! Paths, route templates and the table of configured routes.

use crate::config::{
    AppConfig, BodySchemaConfig, BodySchemaConfigView, ConfiguredRouteSpec, RouteSensitivity,
    SpecUnknownRouteMode,
};
use crate::text;
use vstd::prelude::*;

verus! {

pub open spec fn is_hex_char(c: char) -> bool {
    ||| '0' <= c && c <= '9'
    ||| 'a' <= c && c <= 'f'
    ||| 'A' <= c && c <= 'F'
}

pub open spec fn is_word_char(c: char) -> bool {
    ||| '0' <= c && c <= '9'
    ||| 'a' <= c && c <= 'z'
    ||| 'A' <= c && c <= 'Z'
    ||| c == '_'
    ||| c == '-'
}

pub open spec fn all_hex(s: Seq<char>) -> bool {
    forall|i: int| 0 <= i < s.len() ==> is_hex_char(#[trigger] s[i])
}

pub open spec fn all_hex_or_dash(s: Seq<char>) -> bool {
    forall|i: int| 0 <= i < s.len() ==> is_hex_char(#[trigger] s[i]) || s[i] == '-'
}

pub open spec fn all_word(s: Seq<char>) -> bool {
    forall|i: int| 0 <= i < s.len() ==> is_word_char(#[trigger] s[i])
}

/// A path segment that names an object: a decimal number, eight or more hexadecimal digits,
/// sixteen or more word characters, or the 36 characters of a UUID.
pub open spec fn is_id_segment(s: Seq<char>) -> bool {
    ||| s.len() >= 1 && text::all_digits(s)
    ||| s.len() >= 8 && all_hex(s)
    ||| s.len() >= 16 && all_word(s)
    ||| s.len() == 36 && all_hex_or_dash(s)
}

pub fn id_segment(s: &str) -> (r: bool)
    ensures
        r == is_id_segment(s@),
{
    let x = text::chars_of(s);
    let mut digits = true;
    let mut hex = true;
    let mut hex_dash = true;
    let mut word = true;
    let mut i: usize = 0;
    while i < x.len()
        invariant
            x@ == s@,
            i <= x@.len(),
            digits == text::all_digits(s@.take(i as int)),
            hex == all_hex(s@.take(i as int)),
            hex_dash == all_hex_or_dash(s@.take(i as int)),
            word == all_word(s@.take(i as int)),
        decreases x@.len() - i,
    {
        let c = x[i];
        let d = '0' <= c && c <= '9';
        let h = d || ('a' <= c && c <= 'f') || ('A' <= c && c <= 'F');
        let w = d || ('a' <= c && c <= 'z') || ('A' <= c && c <= 'Z') || c == '_' || c == '-';
        let ghost before = s@.take(i as int);
        let ghost after = s@.take(i + 1);
        proof {
            assert(after[i as int] == c);
            assert forall|j: int| 0 <= j < i implies after[j] == before[j] by {}
        }
        digits = digits && d;
        hex = hex && h;
        hex_dash = hex_dash && (h || c == '-');
        word = word && w;
        proof {
            lemma_all_step(before, after, i as int);
        }
        i = i + 1;
    }
    assert(s@.take(i as int) =~= s@);
    let n: usize = x.len();
    (n >= 1 && digits) || (n >= 8 && hex) || (n >= 16 && word) || (n == 36 && hex_dash)
}

proof fn lemma_all_step(before: Seq<char>, after: Seq<char>, n: int)
    requires
        before.len() == n,
        after.len() == n + 1,
        forall|j: int| 0 <= j < n ==> after[j] == before[j],
    ensures
        text::all_digits(after) == (text::all_digits(before) && text::is_digit_char(after[n])),
        all_hex(after) == (all_hex(before) && is_hex_char(after[n])),
        all_hex_or_dash(after) == (all_hex_or_dash(before) && (is_hex_char(after[n]) || after[n]
            == '-')),
        all_word(after) == (all_word(before) && is_word_char(after[n])),
{
    assert forall|j: int| 0 <= j < n implies before[j] == after[j] by {}
    if text::all_digits(after) {
        assert forall|j: int| 0 <= j < n implies text::is_digit_char(#[trigger] before[j]) by {
            assert(text::is_digit_char(after[j]));
        }
    }
    if all_hex(after) {
        assert forall|j: int| 0 <= j < n implies is_hex_char(#[trigger] before[j]) by {
            assert(is_hex_char(after[j]));
        }
    }
    if all_hex_or_dash(after) {
        assert forall|j: int| 0 <= j < n implies is_hex_char(#[trigger] before[j]) || before[j]
            == '-' by {
            assert(is_hex_char(after[j]) || after[j] == '-');
        }
    }
    if all_word(after) {
        assert forall|j: int| 0 <= j < n implies is_word_char(#[trigger] before[j]) by {
            assert(is_word_char(after[j]));
        }
    }
}

/// A segment in normal form: the placeholder for an object name, else lower case.
pub open spec fn normal_segment(s: Seq<char>) -> Seq<char> {
    if is_id_segment(s) {
        "{id}"@
    } else {
        text::lower_of(s)
    }
}

/// The normal forms of the segments that are not empty.
pub open spec fn normal_segments(parts: Seq<Seq<char>>) -> Seq<Seq<char>>
    decreases parts.len(),
{
    if parts.len() == 0 {
        Seq::empty()
    } else {
        let before = normal_segments(parts.drop_last());
        if parts.last().len() == 0 {
            before
        } else {
            before.push(normal_segment(parts.last()))
        }
    }
}

/// A path in normal form.
pub open spec fn normal_path(path: Seq<char>) -> Seq<char> {
    "/"@ + text::join_of(normal_segments(text::split_of(path, '/')), "/"@)
}

pub fn normalize_runtime_path(path: &str) -> (r: String)
    ensures
        r@ == normal_path(path@),
{
    let parts = text::split(path, '/');
    let ghost all = parts.deep_view();
    let mut out: Vec<String> = Vec::new();
    let mut i: usize = 0;
    assert(out.deep_view() =~= normal_segments(all.take(0)));
    while i < parts.len()
        invariant
            i <= parts@.len(),
            all == parts.deep_view(),
            out.deep_view() == normal_segments(all.take(i as int)),
        decreases parts@.len() - i,
    {
        let seg = parts[i].as_str();
        assert(all.take(i + 1).drop_last() =~= all.take(i as int));
        if !seg.is_empty() {
            if id_segment(seg) {
                text::push_text(&mut out, "{id}".to_string());
            } else {
                text::push_text(&mut out, text::to_ascii_lowercase(seg));
            }
        }
        i = i + 1;
    }
    assert(all.take(i as int) =~= all);
    let joined = text::join(&out, "/");
    text::cat2("/", joined.as_str())
}

/// The path without the prefix under which requests are proxied.
pub open spec fn canonical_path(path: Seq<char>) -> Seq<char> {
    if path == "/proxy"@ {
        "/"@
    } else if text::has_prefix(path, "/proxy/"@) {
        "/"@ + path.skip("/proxy/"@.len() as int)
    } else {
        path
    }
}

pub fn canonical_security_path(path: &str) -> (r: String)
    ensures
        r@ == canonical_path(path@),
{
    if text::same(path, "/proxy") {
        "/".to_string()
    } else {
        match text::strip_prefix(path, "/proxy/") {
            Some(rest) => text::cat2("/", rest.as_str()),
            None => path.to_string(),
        }
    }
}

/// The normal form of the canonical path: the route under which a request is filed.
pub open spec fn route_of(path: Seq<char>) -> Seq<char> {
    normal_path(canonical_path(path))
}

pub fn security_route(path: &str) -> (r: String)
    ensures
        r@ == route_of(path@),
{
    let canonical = canonical_security_path(path);
    normalize_runtime_path(canonical.as_str())
}

pub fn normalize_path_template(path: &str) -> (r: String)
    ensures
        r@ == normal_path(path@),
{
    normalize_runtime_path(path)
}

/// Whether a template segment stands for any segment.
pub open spec fn is_placeholder(s: Seq<char>) -> bool {
    s.len() > 0 && s[0] == '{' && s.last() == '}'
}

/// Whether a path segment fits a template segment.
pub open spec fn segment_fits(template: Seq<char>, segment: Seq<char>) -> bool {
    is_placeholder(template) || text::lower_of(template) == text::lower_of(segment)
}

/// Whether a path fits a template, segment by segment.
pub open spec fn pattern_fits(template: Seq<char>, path: Seq<char>) -> bool {
    let lhs = text::split_of(text::trim_matches_of(template, '/'), '/');
    let rhs = text::split_of(text::trim_matches_of(path, '/'), '/');
    &&& lhs.len() == rhs.len()
    &&& forall|i: int| 0 <= i < lhs.len() ==> #[trigger] segment_fits(lhs[i], rhs[i])
}

fn placeholder(s: &str) -> (r: bool)
    ensures
        r == is_placeholder(s@),
{
    let x = text::chars_of(s);
    x.len() > 0 && x[0] == '{' && x[x.len() - 1] == '}'
}

pub fn route_pattern_match(template: &str, path: &str) -> (r: bool)
    ensures
        r == pattern_fits(template@, path@),
{
    let t = text::trim_matches(template, '/');
    let p = text::trim_matches(path, '/');
    let lhs = text::split(t.as_str(), '/');
    let rhs = text::split(p.as_str(), '/');
    let ghost l = lhs.deep_view();
    let ghost q = rhs.deep_view();
    if lhs.len() != rhs.len() {
        assert(l.len() != q.len());
        return false;
    }
    let mut i: usize = 0;
    while i < lhs.len()
        invariant
            i <= lhs@.len(),
            lhs@.len() == rhs@.len(),
            l == lhs.deep_view(),
            q == rhs.deep_view(),
            l == text::split_of(text::trim_matches_of(template@, '/'), '/'),
            q == text::split_of(text::trim_matches_of(path@, '/'), '/'),
            forall|j: int| 0 <= j < i ==> #[trigger] segment_fits(l[j], q[j]),
        decreases lhs@.len() - i,
    {
        if !placeholder(lhs[i].as_str()) && !text::eq_ignore_ascii_case(
            lhs[i].as_str(),
            rhs[i].as_str(),
        ) {
            assert(!segment_fits(l[i as int], q[i as int]));
            return false;
        }
        assert(segment_fits(l[i as int], q[i as int]));
        i = i + 1;
    }
    true
}

/// A configured route in the form in which requests are matched against it.
#[derive(Debug)]
pub struct CompiledRouteSpec {
    pub method: String,
    pub path_template: String,
    pub normalized_template: String,
    pub auth_required: bool,
    pub required_headers: Vec<String>,
    pub required_query: Vec<String>,
    pub required_scopes: Vec<String>,
    pub sensitivity: RouteSensitivity,
    pub body: BodySchemaConfig,
}

#[verifier::ext_equal]
pub struct CompiledRouteSpecView {
    pub method: Seq<char>,
    pub path_template: Seq<char>,
    pub normalized_template: Seq<char>,
    pub auth_required: bool,
    pub required_headers: Seq<Seq<char>>,
    pub required_query: Seq<Seq<char>>,
    pub required_scopes: Seq<Seq<char>>,
    pub sensitivity: RouteSensitivity,
    pub body: BodySchemaConfigView,
}

impl DeepView for CompiledRouteSpec {
    type V = CompiledRouteSpecView;

    open spec fn deep_view(&self) -> CompiledRouteSpecView {
        CompiledRouteSpecView {
            method: self.method@,
            path_template: self.path_template@,
            normalized_template: self.normalized_template@,
            auth_required: self.auth_required,
            required_headers: self.required_headers.deep_view(),
            required_query: self.required_query.deep_view(),
            required_scopes: self.required_scopes.deep_view(),
            sensitivity: self.sensitivity,
            body: self.body.deep_view(),
        }
    }
}

impl Clone for CompiledRouteSpec {
    fn clone(&self) -> (r: Self)
        ensures
            r.deep_view() == self.deep_view(),
    {
        CompiledRouteSpec {
            method: self.method.clone(),
            path_template: self.path_template.clone(),
            normalized_template: self.normalized_template.clone(),
            auth_required: self.auth_required,
            required_headers: text::clone_list(&self.required_headers),
            required_query: text::clone_list(&self.required_query),
            required_scopes: text::clone_list(&self.required_scopes),
            sensitivity: self.sensitivity,
            body: self.body.clone(),
        }
    }
}

#[derive(Debug)]
pub struct CompiledSpecDb {
    pub routes: Vec<CompiledRouteSpec>,
    pub unknown_route_mode: SpecUnknownRouteMode,
}

/// A list of texts in lower case.
pub open spec fn lower_list(v: Seq<Seq<char>>) -> Seq<Seq<char>> {
    Seq::new(v.len(), |i: int| text::lower_of(v[i]))
}

/// What a configured route is compiled to.
pub open spec fn compiled_of(route: ConfiguredRouteSpec) -> CompiledRouteSpecView {
    CompiledRouteSpecView {
        method: text::upper_of(route.method@),
        path_template: route.path_template@,
        normalized_template: normal_path(route.path_template@),
        auth_required: route.auth_required,
        required_headers: lower_list(route.required_headers.deep_view()),
        required_query: route.required_query.deep_view(),
        required_scopes: route.required_scopes.deep_view(),
        sensitivity: route.sensitivity,
        body: route.body.deep_view(),
    }
}

pub fn compile_route(route: &ConfiguredRouteSpec) -> (r: CompiledRouteSpec)
    ensures
        r.deep_view() == compiled_of(*route),
{
    let mut required_headers: Vec<String> = Vec::new();
    let ghost all = lower_list(route.required_headers.deep_view());
    let mut i: usize = 0;
    while i < route.required_headers.len()
        invariant
            i <= route.required_headers@.len(),
            all == lower_list(route.required_headers.deep_view()),
            required_headers.deep_view() == all.take(i as int),
        decreases route.required_headers@.len() - i,
    {
        let h = text::to_ascii_lowercase(route.required_headers[i].as_str());
        assert(h@ == all[i as int]);
        text::push_text(&mut required_headers, h);
        i = i + 1;
        assert(required_headers.deep_view() =~= all.take(i as int));
    }
    assert(all.take(i as int) =~= all);
    CompiledRouteSpec {
        method: text::to_ascii_uppercase(route.method.as_str()),
        path_template: route.path_template.clone(),
        normalized_template: normalize_path_template(route.path_template.as_str()),
        auth_required: route.auth_required,
        required_headers,
        required_query: text::clone_list(&route.required_query),
        required_scopes: text::clone_list(&route.required_scopes),
        sensitivity: route.sensitivity,
        body: route.body.clone(),
    }
}

/// All configured routes, compiled.
pub open spec fn compiled_routes(config: AppConfig) -> Seq<CompiledRouteSpecView> {
    Seq::new(config.spec.routes@.len(), |i: int| compiled_of(config.spec.routes@[i]))
}

pub fn compiled_spec_db(config: &AppConfig) -> (r: CompiledSpecDb)
    ensures
        r.routes.deep_view() == compiled_routes(*config),
        r.unknown_route_mode == config.spec.unknown_route_mode,
{
    let mut routes: Vec<CompiledRouteSpec> = Vec::new();
    let mut i: usize = 0;
    while i < config.spec.routes.len()
        invariant
            i <= config.spec.routes@.len(),
            routes.deep_view() == compiled_routes(*config).take(i as int),
        decreases config.spec.routes@.len() - i,
    {
        let ghost before = routes.deep_view();
        let c = compile_route(&config.spec.routes[i]);
        routes.push(c);
        assert(routes.deep_view() =~= before.push(c.deep_view()));
        i = i + 1;
        assert(routes.deep_view() =~= compiled_routes(*config).take(i as int));
    }
    assert(routes.deep_view() =~= compiled_routes(*config));
    CompiledSpecDb { routes, unknown_route_mode: config.spec.unknown_route_mode }
}

/// Whether a route takes requests with this method and normal path.
pub open spec fn route_takes(
    route: CompiledRouteSpecView,
    method: Seq<char>,
    normalized_path: Seq<char>,
) -> bool {
    text::lower_of(route.method) == text::lower_of(method) && pattern_fits(
        route.normalized_template,
        normalized_path,
    )
}

/// The first route that takes a request.
pub open spec fn match_in(
    routes: Seq<CompiledRouteSpecView>,
    method: Seq<char>,
    normalized_path: Seq<char>,
) -> Option<CompiledRouteSpecView>
    decreases routes.len(),
{
    if routes.len() == 0 {
        None
    } else if route_takes(routes[0], method, normalized_path) {
        Some(routes[0])
    } else {
        match_in(routes.drop_first(), method, normalized_path)
    }
}

pub fn spec_match<'a>(
    spec: &'a CompiledSpecDb,
    method: &str,
    normalized_path: &str,
) -> (r: Option<&'a CompiledRouteSpec>)
    ensures
        r.deep_view() == match_in(spec.routes.deep_view(), method@, normalized_path@),
{
    let ghost all = spec.routes.deep_view();
    let mut i: usize = 0;
    assert(all.skip(0) =~= all);
    while i < spec.routes.len()
        invariant
            i <= spec.routes@.len(),
            all == spec.routes.deep_view(),
            match_in(all, method@, normalized_path@) == match_in(
                all.skip(i as int),
                method@,
                normalized_path@,
            ),
        decreases spec.routes@.len() - i,
    {
        let route = &spec.routes[i];
        assert(all.skip(i as int)[0] == route.deep_view());
        if text::eq_ignore_ascii_case(route.method.as_str(), method) && route_pattern_match(
            route.normalized_template.as_str(),
            normalized_path,
        ) {
            return Some(route);
        }
        assert(all.skip(i as int).drop_first() =~= all.skip(i + 1));
        i = i + 1;
    }
    None
}

proof fn lemma_lower_char(c: char)
    ensures
        text::lower_char_of(text::lower_char_of(c)) == text::lower_char_of(c),
        text::is_digit_char(text::lower_char_of(c)) == text::is_digit_char(c),
        is_hex_char(text::lower_char_of(c)) == is_hex_char(c),
        is_word_char(text::lower_char_of(c)) == is_word_char(c),
        (text::lower_char_of(c) == '-') == (c == '-'),
        (text::lower_char_of(c) == '/') == (c == '/'),
{
    if 'A' <= c && c <= 'Z' {
        let l = (c as u32 + 32) as char;
        assert(97 <= l as u32 <= 122);
    }
}

proof fn lemma_lower_segment(s: Seq<char>)
    ensures
        is_id_segment(text::lower_of(s)) == is_id_segment(s),
        text::lower_of(text::lower_of(s)) == text::lower_of(s),
        text::lower_of(s).contains('/') == s.contains('/'),
{
    let l = text::lower_of(s);
    assert forall|i: int| 0 <= i < s.len() implies {
        &&& text::is_digit_char(#[trigger] l[i]) == text::is_digit_char(s[i])
        &&& is_hex_char(l[i]) == is_hex_char(s[i])
        &&& is_word_char(l[i]) == is_word_char(s[i])
        &&& (l[i] == '-') == (s[i] == '-')
        &&& (l[i] == '/') == (s[i] == '/')
        &&& text::lower_char_of(l[i]) == l[i]
    } by {
        lemma_lower_char(s[i]);
    }
    assert(text::all_digits(l) == text::all_digits(s)) by {
        if text::all_digits(l) {
            assert forall|i: int| 0 <= i < s.len() implies text::is_digit_char(
                #[trigger] s[i],
            ) by {
                assert(text::is_digit_char(l[i]));
            }
        }
    }
    assert(all_hex(l) == all_hex(s)) by {
        if all_hex(l) {
            assert forall|i: int| 0 <= i < s.len() implies is_hex_char(#[trigger] s[i]) by {
                assert(is_hex_char(l[i]));
            }
        }
    }
    assert(all_word(l) == all_word(s)) by {
        if all_word(l) {
            assert forall|i: int| 0 <= i < s.len() implies is_word_char(#[trigger] s[i]) by {
                assert(is_word_char(l[i]));
            }
        }
    }
    assert(all_hex_or_dash(l) == all_hex_or_dash(s)) by {
        if all_hex_or_dash(l) {
            assert forall|i: int| 0 <= i < s.len() implies is_hex_char(#[trigger] s[i]) || s[i]
                == '-' by {
                assert(is_hex_char(l[i]) || l[i] == '-');
            }
        }
    }
    assert(text::lower_of(l) =~= l);
    if s.contains('/') {
        let i = choose|i: int| 0 <= i < s.len() && s[i] == '/';
        assert(l[i] == '/');
    }
    if l.contains('/') {
        let i = choose|i: int| 0 <= i < l.len() && l[i] == '/';
        assert(s[i] == '/');
    }
}

/// A segment that is in normal form: not empty, without a slash, and its own normal form.
pub open spec fn is_normal(s: Seq<char>) -> bool {
    s.len() > 0 && !s.contains('/') && normal_segment(s) == s
}

proof fn lemma_normal_segment(s: Seq<char>)
    requires
        s.len() > 0,
        !s.contains('/'),
    ensures
        is_normal(normal_segment(s)),
{
    reveal_strlit("{id}");
    let ph = "{id}"@;
    assert(ph[0] == '{');
    assert(!is_id_segment(ph)) by {
        assert(!text::is_digit_char(ph[0]));
        assert(ph.len() == 4);
    }
    assert(text::lower_of(ph) =~= ph);
    assert forall|i: int| 0 <= i < ph.len() implies ph[i] != '/' by {}
    lemma_lower_segment(s);
}

proof fn lemma_normal_segments(parts: Seq<Seq<char>>)
    requires
        forall|i: int| 0 <= i < parts.len() ==> !(#[trigger] parts[i]).contains('/'),
    ensures
        forall|i: int|
            0 <= i < normal_segments(parts).len() ==> is_normal(#[trigger] normal_segments(parts)[i]),
    decreases parts.len(),
{
    if parts.len() > 0 {
        let d = parts.drop_last();
        assert forall|i: int| 0 <= i < d.len() implies !(#[trigger] d[i]).contains('/') by {
            assert(d[i] == parts[i]);
        }
        lemma_normal_segments(d);
        assert(!parts[parts.len() - 1].contains('/'));
        if parts.last().len() > 0 {
            lemma_normal_segment(parts.last());
        }
        let after = normal_segments(parts);
        let before = normal_segments(d);
        assert forall|i: int| 0 <= i < after.len() implies is_normal(#[trigger] after[i]) by {
            if i < before.len() {
                assert(is_normal(before[i]));
            }
        }
    }
}

proof fn lemma_normal_fixed(parts: Seq<Seq<char>>)
    requires
        forall|i: int| 0 <= i < parts.len() ==> is_normal(#[trigger] parts[i]),
    ensures
        normal_segments(seq![Seq::<char>::empty()] + parts) == parts,
    decreases parts.len(),
{
    let e = Seq::<char>::empty();
    let all = seq![e] + parts;
    if parts.len() == 0 {
        assert(all.drop_last() =~= Seq::empty());
        assert(all.last() == e);
        assert(normal_segments(all.drop_last()) =~= parts);
    } else {
        let d = parts.drop_last();
        assert forall|i: int| 0 <= i < d.len() implies is_normal(#[trigger] d[i]) by {
            assert(d[i] == parts[i]);
        }
        lemma_normal_fixed(d);
        assert(all.drop_last() =~= seq![e] + d);
        assert(all.last() == parts.last());
        assert(is_normal(parts[parts.len() - 1]));
        assert(d.push(parts.last()) =~= parts);
    }
}

/// A path in normal form is its own normal form.
pub proof fn law_normal_path_idempotent(path: Seq<char>)
    ensures
        normal_path(normal_path(path)) == normal_path(path),
{
    reveal_strlit("/");
    let sep = "/"@;
    assert(sep =~= seq!['/']);
    let parts = text::split_of(path, '/');
    text::lemma_split_parts(path, '/');
    lemma_normal_segments(parts);
    let segs = normal_segments(parts);
    let joined = text::join_of(segs, sep);
    text::lemma_split_leading('/', joined);
    let e = Seq::<char>::empty();
    if segs.len() == 0 {
        assert(joined =~= e);
        assert(text::split_of(joined, '/') =~= seq![e]);
        let twice = seq![e] + seq![e];
        assert(twice.drop_last() =~= seq![e]);
        assert(seq![e].drop_last() =~= Seq::<Seq<char>>::empty());
        assert(normal_segments(seq![e].drop_last()) =~= Seq::<Seq<char>>::empty());
        assert(seq![e].last() == e);
        assert(normal_segments(seq![e]) =~= Seq::<Seq<char>>::empty());
        assert(normal_segments(twice) =~= segs);
    } else {
        assert forall|i: int| 0 <= i < segs.len() implies !(#[trigger] segs[i]).contains('/') by {
            assert(is_normal(segs[i]));
        }
        text::law_split_undoes_join(segs, '/');
        lemma_normal_fixed(segs);
    }
}

/// Two paths whose segments agree, up to case and to which objects they name, have one normal
/// form.
pub proof fn law_normal_path_ignores_object_names(a: Seq<char>, b: Seq<char>)
    requires
        text::split_of(a, '/').len() == text::split_of(b, '/').len(),
        forall|i: int|
            #![trigger text::split_of(a, '/')[i]]
            #![trigger text::split_of(b, '/')[i]]
            0 <= i < text::split_of(a, '/').len() ==> {
                let x = text::split_of(a, '/')[i];
                let y = text::split_of(b, '/')[i];
                (is_id_segment(x) && is_id_segment(y)) || text::lower_of(x) == text::lower_of(y)
            },
    ensures
        normal_path(a) == normal_path(b),
{
    lemma_same_segments(text::split_of(a, '/'), text::split_of(b, '/'));
}

proof fn lemma_same_segments(p: Seq<Seq<char>>, q: Seq<Seq<char>>)
    requires
        p.len() == q.len(),
        forall|i: int|
            #![trigger p[i]]
            #![trigger q[i]]
            0 <= i < p.len() ==> (is_id_segment(p[i]) && is_id_segment(q[i])) || text::lower_of(
                p[i],
            ) == text::lower_of(q[i]),
    ensures
        normal_segments(p) == normal_segments(q),
    decreases p.len(),
{
    if p.len() > 0 {
        let dp = p.drop_last();
        let dq = q.drop_last();
        assert forall|i: int|
            #![trigger dp[i]]
            #![trigger dq[i]]
            0 <= i < dp.len() implies (is_id_segment(dp[i]) && is_id_segment(dq[i]))
            || text::lower_of(dp[i]) == text::lower_of(dq[i]) by {
            assert(dp[i] == p[i]);
            assert(dq[i] == q[i]);
        }
        lemma_same_segments(dp, dq);
        let x = p[p.len() - 1];
        let y = q[q.len() - 1];
        lemma_lower_segment(x);
        lemma_lower_segment(y);
        assert(text::lower_of(x).len() == x.len());
        assert(text::lower_of(y).len() == y.len());
    }
}

/// A path has the same normal form whatever the case of its ASCII letters.
pub proof fn law_normal_path_ignores_case(a: Seq<char>, b: Seq<char>)
    requires
        text::lower_of(a) == text::lower_of(b),
    ensures
        normal_path(a) == normal_path(b),
{
    lemma_split_lower(a);
    lemma_split_lower(b);
    let p = text::split_of(a, '/');
    let q = text::split_of(b, '/');
    let low = text::split_of(text::lower_of(a), '/');
    assert forall|i: int|
        #![trigger p[i]]
        #![trigger q[i]]
        0 <= i < p.len() implies (is_id_segment(p[i]) && is_id_segment(q[i])) || text::lower_of(
        p[i],
    ) == text::lower_of(q[i]) by {
        assert(low[i] == text::lower_of(p[i]));
        assert(low[i] == text::lower_of(q[i]));
    }
    lemma_same_segments(p, q);
}

/// The segments of a text in lower case are its segments in lower case.
proof fn lemma_split_lower(s: Seq<char>)
    ensures
        text::split_of(text::lower_of(s), '/').len() == text::split_of(s, '/').len(),
        text::split_of(s, '/').len() > 0,
        forall|i: int|
            0 <= i < text::split_of(s, '/').len() ==> #[trigger] text::split_of(
                text::lower_of(s),
                '/',
            )[i] == text::lower_of(text::split_of(s, '/')[i]),
    decreases s.len(),
{
    let l = text::lower_of(s);
    let e = Seq::<char>::empty();
    let low = text::split_of(l, '/');
    let own = text::split_of(s, '/');
    if s.len() == 0 {
        assert(own =~= seq![e]);
        assert(low =~= seq![e]);
        assert(text::lower_of(e) =~= e);
    } else {
        let front = s.drop_last();
        lemma_split_lower(front);
        lemma_lower_char(s.last());
        assert(l.drop_last() =~= text::lower_of(front));
        assert(l.last() == text::lower_char_of(s.last()));
        let before = text::split_of(front, '/');
        let low_before = text::split_of(l.drop_last(), '/');
        assert(text::lower_of(e) =~= e);
        if s.last() != '/' {
            assert(low_before[before.len() - 1] == text::lower_of(before[before.len() - 1]));
            assert(text::lower_of(before.last().push(s.last())) =~= low_before.last().push(
                l.last(),
            ));
        }
        assert forall|i: int| 0 <= i < own.len() implies #[trigger] low[i] == text::lower_of(
            own[i],
        ) by {
            if i < before.len() - 1 || (s.last() == '/' && i < before.len()) {
                assert(own[i] == before[i]);
                assert(low[i] == low_before[i]);
            }
        }
    }
}

/// The segments of a path that are not empty.
pub open spec fn segments_of(path: Seq<char>) -> Seq<Seq<char>> {
    text::filled_parts(text::split_of(path, '/'))
}

/// A path in normal form starts with a slash, has no two slashes in a row, ends with a slash only
/// where it is nothing else, and holds no capital letter. It has as many segments as the path has
/// that are not empty, and each is the placeholder where the segment names an object, else the
/// segment in lower case.
pub proof fn law_normal_path_shape(path: Seq<char>)
    ensures
        normal_path(path).len() > 0,
        normal_path(path)[0] == '/',
        forall|i: int|
            0 < i < normal_path(path).len() && #[trigger] normal_path(path)[i] == '/'
                ==> normal_path(path)[i - 1] != '/',
        normal_path(path).last() == '/' ==> normal_path(path) == "/"@,
        forall|i: int|
            0 <= i < normal_path(path).len() ==> !('A' <= #[trigger] normal_path(path)[i]
                && normal_path(path)[i] <= 'Z'),
        segments_of(normal_path(path)).len() == segments_of(path).len(),
        forall|i: int|
            0 <= i < segments_of(path).len() ==> #[trigger] segments_of(normal_path(path))[i] == (
            if is_id_segment(segments_of(path)[i]) {
                "{id}"@
            } else {
                text::lower_of(segments_of(path)[i])
            }),
{
    reveal_strlit("/");
    let sep = "/"@;
    assert(sep =~= seq!['/']);
    let parts = text::split_of(path, '/');
    text::lemma_split_parts(path, '/');
    lemma_normal_segments(parts);
    lemma_segments_one_by_one(parts);
    let segs = normal_segments(parts);
    let joined = text::join_of(segs, sep);
    lemma_joined_shape(segs);
    text::lemma_split_leading('/', joined);
    let e = Seq::<char>::empty();
    let r = normal_path(path);
    let again = text::split_of(r, '/');
    if segs.len() == 0 {
        assert(joined =~= e);
        assert(text::split_of(joined, '/') =~= seq![e]);
        assert(again.drop_last() =~= seq![e]);
        assert(seq![e].drop_last() =~= Seq::<Seq<char>>::empty());
        assert(text::filled_parts(seq![e].drop_last()) =~= Seq::<Seq<char>>::empty());
        assert(seq![e].last() == e);
        assert(text::filled_parts(seq![e]) =~= Seq::<Seq<char>>::empty());
        assert(again.last() == e);
        assert(text::filled_parts(again) =~= segs);
    } else {
        assert forall|i: int| 0 <= i < segs.len() implies !(#[trigger] segs[i]).contains('/') by {
            assert(is_normal(segs[i]));
        }
        text::law_split_undoes_join(segs, '/');
        lemma_filled(segs);
    }
}

proof fn lemma_segments_one_by_one(parts: Seq<Seq<char>>)
    ensures
        normal_segments(parts).len() == text::filled_parts(parts).len(),
        forall|i: int|
            0 <= i < normal_segments(parts).len() ==> #[trigger] normal_segments(parts)[i]
                == normal_segment(text::filled_parts(parts)[i]),
    decreases parts.len(),
{
    if parts.len() > 0 {
        lemma_segments_one_by_one(parts.drop_last());
        let before = normal_segments(parts.drop_last());
        let after = normal_segments(parts);
        assert forall|i: int| 0 <= i < after.len() implies #[trigger] after[i] == normal_segment(
            text::filled_parts(parts)[i],
        ) by {
            if i < before.len() {
                assert(after[i] == before[i]);
            }
        }
    }
}

proof fn lemma_filled(parts: Seq<Seq<char>>)
    requires
        forall|i: int| 0 <= i < parts.len() ==> is_normal(#[trigger] parts[i]),
    ensures
        text::filled_parts(seq![Seq::<char>::empty()] + parts) == parts,
    decreases parts.len(),
{
    let e = Seq::<char>::empty();
    let all = seq![e] + parts;
    if parts.len() == 0 {
        assert(all.drop_last() =~= Seq::empty());
        assert(all.last() == e);
        assert(text::filled_parts(all.drop_last()) =~= parts);
    } else {
        let d = parts.drop_last();
        assert forall|i: int| 0 <= i < d.len() implies is_normal(#[trigger] d[i]) by {
            assert(d[i] == parts[i]);
        }
        lemma_filled(d);
        assert(all.drop_last() =~= seq![e] + d);
        assert(all.last() == parts.last());
        assert(is_normal(parts[parts.len() - 1]));
        assert(d.push(parts.last()) =~= parts);
    }
}

/// The characters of segments in normal form, with a slash in front of each.
proof fn lemma_joined_shape(segs: Seq<Seq<char>>)
    requires
        forall|i: int| 0 <= i < segs.len() ==> is_normal(#[trigger] segs[i]),
    ensures
        ({
            let r = "/"@ + text::join_of(segs, "/"@);
            &&& r.len() > 0 && r[0] == '/'
            &&& forall|i: int| 0 < i < r.len() && #[trigger] r[i] == '/' ==> r[i - 1] != '/'
            &&& if segs.len() == 0 {
                r == "/"@
            } else {
                r.last() != '/'
            }
            &&& forall|i: int| 0 <= i < r.len() ==> !('A' <= #[trigger] r[i] && r[i] <= 'Z')
        }),
    decreases segs.len(),
{
    reveal_strlit("/");
    reveal_strlit("{id}");
    let r = "/"@ + text::join_of(segs, "/"@);
    if segs.len() == 0 {
        assert(r =~= "/"@);
    } else {
        let d = segs.drop_last();
        assert forall|i: int| 0 <= i < d.len() implies is_normal(#[trigger] d[i]) by {
            assert(d[i] == segs[i]);
        }
        lemma_joined_shape(d);
        let last = segs.last();
        assert(is_normal(segs[segs.len() - 1]));
        let front = if segs.len() == 1 {
            Seq::<char>::empty()
        } else {
            "/"@ + text::join_of(d, "/"@)
        };
        let n: int = front.len() as int;
        assert(r =~= front + "/"@ + last);
        assert forall|i: int| 0 <= i < last.len() implies last[i] != '/' && !('A' <= #[trigger] last[i]
            && last[i] <= 'Z') by {
            assert(normal_segment(last)[i] == last[i]);
            assert(last.contains(last[i]));
            if !is_id_segment(last) {
                assert(text::lower_char_of(last[i]) == last[i]);
                lemma_lower_char(last[i]);
            }
        }
        assert forall|i: int| 0 <= i < r.len() implies (r[i] == '/' && 0 < i ==> r[i - 1] != '/')
            && !('A' <= #[trigger] r[i] && r[i] <= 'Z') by {
            if i < n {
                assert(r[i] == front[i]);
                if i > 0 {
                    assert(r[i - 1] == front[i - 1]);
                }
            } else if i == n {
                if i > 0 {
                    assert(r[i - 1] == front.last());
                }
            } else {
                assert(r[i] == last[i - n - 1]);
            }
        }
        assert(r.last() == last[last.len() - 1]);
    }
}

} // verus!
