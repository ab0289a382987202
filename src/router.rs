use vstd::prelude::*;

use crate::error::AppError;
use crate::text::{contains_char, split_on, split_str, str_has_char, strings_view};

verus! {

/// One configured routing rule: a method, a path template and a handler name.
pub struct RouteRule {
    pub method: String,
    pub path: String,
    pub handler: String,
}

impl RouteRule {
    pub fn new(method: &str, path: &str, handler: &str) -> (r: RouteRule)
        ensures
            r.method@ == method@,
            r.path@ == path@,
            r.handler@ == handler@,
    {
        RouteRule { method: method.to_owned(), path: path.to_owned(), handler: handler.to_owned() }
    }
}

/// One segment of a parsed path template.
pub enum Segment {
    /// Must equal the path segment exactly.
    Literal(String),
    /// Matches any non-empty path segment and binds it under this name.
    Param(String),
}

impl View for Segment {
    /// `(is a parameter, text or name)`.
    type V = (bool, Seq<char>);

    open spec fn view(&self) -> (bool, Seq<char>) {
        match self {
            Segment::Literal(s) => (false, s@),
            Segment::Param(s) => (true, s@),
        }
    }
}

/// The segments of a path that starts with `/`.
pub open spec fn path_segments(p: Seq<char>) -> Seq<Seq<char>> {
    split_on(p.drop_first(), '/')
}

pub open spec fn is_param_text(s: Seq<char>) -> bool {
    s.len() >= 3 && s[0] == '{' && s.last() == '}'
}

pub open spec fn has_brace(s: Seq<char>) -> bool {
    contains_char(s, '{') || contains_char(s, '}')
}

/// A template segment is `{name}` with a brace-free name, or brace-free text.
pub open spec fn segment_ok(s: Seq<char>) -> bool {
    if is_param_text(s) {
        !has_brace(s.subrange(1, s.len() - 1))
    } else {
        !has_brace(s)
    }
}

pub open spec fn parse_segment(s: Seq<char>) -> (bool, Seq<char>) {
    if is_param_text(s) {
        (true, s.subrange(1, s.len() - 1))
    } else {
        (false, s)
    }
}

/// A well-formed template starts with `/` and all its segments are well-formed.
pub open spec fn template_ok(t: Seq<char>) -> bool {
    &&& t.len() > 0
    &&& t[0] == '/'
    &&& forall|i: int| 0 <= i < path_segments(t).len() ==> segment_ok(#[trigger] path_segments(t)[i])
}

pub open spec fn parse_template(t: Seq<char>) -> Seq<(bool, Seq<char>)> {
    path_segments(t).map_values(|s: Seq<char>| parse_segment(s))
}

pub open spec fn segment_matches(seg: (bool, Seq<char>), s: Seq<char>) -> bool {
    if seg.0 {
        s.len() > 0
    } else {
        seg.1 == s
    }
}

/// Structural match: same segment count, literals equal, parameters non-empty.
pub open spec fn template_matches(t: Seq<(bool, Seq<char>)>, p: Seq<Seq<char>>) -> bool {
    &&& t.len() == p.len()
    &&& forall|i: int| 0 <= i < t.len() ==> segment_matches(#[trigger] t[i], p[i])
}

/// The `(name, value)` bindings of the parameter segments, in template order.
pub open spec fn params_of(t: Seq<(bool, Seq<char>)>, p: Seq<Seq<char>>) -> Seq<(Seq<char>, Seq<char>)>
    decreases t.len(),
{
    if t.len() == 0 || p.len() < t.len() {
        seq![]
    } else {
        let k = t.len() - 1;
        let prev = params_of(t.drop_last(), p.take(k));
        if t[k].0 {
            prev.push((t[k].1, p[k]))
        } else {
            prev
        }
    }
}

pub open spec fn pairs_view(v: Seq<(String, String)>) -> Seq<(Seq<char>, Seq<char>)> {
    v.map_values(|x: (String, String)| (x.0@, x.1@))
}

/// A route of a built table.
pub struct Route {
    pub method: String,
    pub path: String,
    pub segments: Vec<Segment>,
    pub handler: String,
}

impl Route {
    pub open spec fn template(&self) -> Seq<(bool, Seq<char>)> {
        self.segments@.map_values(|s: Segment| s@)
    }

    pub open spec fn wf(&self) -> bool {
        template_ok(self.path@) && self.template() == parse_template(self.path@)
    }

    /// The path has this route's shape, whatever the method.
    pub open spec fn path_hit(&self, path: Seq<char>) -> bool {
        path.len() > 0 && path[0] == '/' && template_matches(self.template(), path_segments(path))
    }

    pub open spec fn hit(&self, method: Seq<char>, path: Seq<char>) -> bool {
        self.path_hit(path) && self.method@ == method
    }
}

/// The result of a successful match.
pub struct Matched {
    pub handler: String,
    pub params: Vec<(String, String)>,
}

impl View for Matched {
    type V = (Seq<char>, Seq<(Seq<char>, Seq<char>)>);

    open spec fn view(&self) -> (Seq<char>, Seq<(Seq<char>, Seq<char>)>) {
        (self.handler@, pairs_view(self.params@))
    }
}

/// An immutable route table.
pub struct AppRouter {
    routes: Vec<Route>,
}

/// Two rules with the same method and the same path template.
pub open spec fn clash(a: RouteRule, b: RouteRule) -> bool {
    a.method@ == b.method@ && a.path@ == b.path@
}

/// Every template is well-formed and no two rules clash.
pub open spec fn rules_valid(rules: Seq<RouteRule>) -> bool {
    &&& forall|i: int| 0 <= i < rules.len() ==> template_ok(#[trigger] rules[i].path@)
    &&& forall|i: int, j: int|
        0 <= i < j < rules.len() ==> !clash(#[trigger] rules[i], #[trigger] rules[j])
}

impl AppRouter {
    pub closed spec fn routes(&self) -> Seq<Route> {
        self.routes@
    }

    pub open spec fn wf(&self) -> bool {
        forall|i: int| 0 <= i < self.routes().len() ==> (#[trigger] self.routes()[i]).wf()
    }

    /// The table was built from exactly these rules, in this order.
    pub open spec fn built_from(&self, rules: Seq<RouteRule>) -> bool {
        &&& self.wf()
        &&& self.routes().len() == rules.len()
        &&& forall|i: int|
            0 <= i < rules.len() ==> {
                &&& (#[trigger] self.routes()[i]).method@ == rules[i].method@
                &&& self.routes()[i].path@ == rules[i].path@
                &&& self.routes()[i].handler@ == rules[i].handler@
            }
    }

    pub open spec fn is_first_hit(&self, i: int, method: Seq<char>, path: Seq<char>) -> bool {
        &&& 0 <= i < self.routes().len()
        &&& self.routes()[i].hit(method, path)
        &&& forall|j: int| 0 <= j < i ==> !(#[trigger] self.routes()[j]).hit(method, path)
    }

    /// What matching `method` and `path` yields: the first route in table order
    /// that fits both, else `MethodNotAllowed` if some route fits the path, else
    /// `NotFound`.
    pub open spec fn outcome(&self, method: Seq<char>, path: Seq<char>) -> Result<
        (Seq<char>, Seq<(Seq<char>, Seq<char>)>),
        AppError,
    > {
        if exists|i: int| self.is_first_hit(i, method, path) {
            let i = choose|i: int| self.is_first_hit(i, method, path);
            Ok(
                (
                    self.routes()[i].handler@,
                    params_of(self.routes()[i].template(), path_segments(path)),
                ),
            )
        } else if exists|i: int|
            0 <= i < self.routes().len() && (#[trigger] self.routes()[i]).path_hit(path) {
            Err(AppError::MethodNotAllowed)
        } else {
            Err(AppError::NotFound)
        }
    }
}

fn parse_segment_exec(s: &str) -> (r: Option<Segment>)
    ensures
        match r {
            Some(seg) => segment_ok(s@) && seg@ == parse_segment(s@),
            None => !segment_ok(s@),
        },
{
    let n = s.unicode_len();
    if n >= 3 && s.get_char(0) == '{' && s.get_char(n - 1) == '}' {
        let name = s.substring_char(1, n - 1);
        if str_has_char(name, '{') || str_has_char(name, '}') {
            None
        } else {
            Some(Segment::Param(name.to_owned()))
        }
    } else {
        if str_has_char(s, '{') || str_has_char(s, '}') {
            None
        } else {
            Some(Segment::Literal(s.to_owned()))
        }
    }
}

/// Parses a path template into segments; `None` where it is malformed.
pub fn parse_path_template(path: &str) -> (r: Option<Vec<Segment>>)
    ensures
        match r {
            Some(v) => template_ok(path@) && v@.map_values(|s: Segment| s@) == parse_template(path@),
            None => !template_ok(path@),
        },
{
    let n = path.unicode_len();
    if n == 0 || path.get_char(0) != '/' {
        return None;
    }
    let rest = path.substring_char(1, n);
    assert(rest@ =~= path@.drop_first());
    let pieces = split_str(rest, '/');
    let ghost ps = path_segments(path@);
    let mut segs: Vec<Segment> = Vec::new();
    let mut i: usize = 0;
    while i < pieces.len()
        invariant
            strings_view(pieces@) == ps,
            ps == path_segments(path@),
            i <= pieces.len(),
            forall|j: int| 0 <= j < i ==> segment_ok(#[trigger] ps[j]),
            segs@.map_values(|s: Segment| s@) == parse_template(path@).take(i as int),
        decreases pieces.len() - i,
    {
        match parse_segment_exec(pieces[i].as_str()) {
            Some(seg) => {
                assert(pieces@[i as int]@ == ps[i as int]);
                assert(parse_template(path@)[i as int] == parse_segment(ps[i as int]));
                assert(segment_ok(ps[i as int]));
                let ghost before = segs@;
                segs.push(seg);
                assert(segs@.map_values(|s: Segment| s@) =~= before.map_values(|s: Segment| s@).push(
                    seg@,
                ));
                assert(segs@.map_values(|s: Segment| s@) =~= parse_template(path@).take(i + 1));
            },
            None => {
                assert(pieces@[i as int]@ == ps[i as int]);
                assert(!segment_ok(ps[i as int]));
                return None;
            },
        }
        i = i + 1;
    }
    assert(parse_template(path@).take(i as int) =~= parse_template(path@));
    Some(segs)
}

/// Matches path segments against a template, collecting the parameter bindings.
fn match_segments(segs: &Vec<Segment>, parts: &Vec<String>) -> (r: Option<Vec<(String, String)>>)
    ensures
        match r {
            Some(v) => template_matches(segs@.map_values(|s: Segment| s@), strings_view(parts@))
                && pairs_view(v@) == params_of(
                segs@.map_values(|s: Segment| s@),
                strings_view(parts@),
            ),
            None => !template_matches(segs@.map_values(|s: Segment| s@), strings_view(parts@)),
        },
{
    let ghost t = segs@.map_values(|s: Segment| s@);
    let ghost p = strings_view(parts@);
    if segs.len() != parts.len() {
        return None;
    }
    let mut out: Vec<(String, String)> = Vec::new();
    let mut i: usize = 0;
    assert(params_of(t.take(0), p.take(0)) =~= seq![]);
    while i < segs.len()
        invariant
            t == segs@.map_values(|s: Segment| s@),
            p == strings_view(parts@),
            segs.len() == parts.len(),
            i <= segs.len(),
            forall|j: int| 0 <= j < i ==> segment_matches(#[trigger] t[j], p[j]),
            pairs_view(out@) == params_of(t.take(i as int), p.take(i as int)),
        decreases segs.len() - i,
    {
        assert(t.take(i + 1).drop_last() =~= t.take(i as int));
        assert(p.take(i + 1).take(i as int) =~= p.take(i as int));
        let ghost before = pairs_view(out@);
        match &segs[i] {
            Segment::Literal(l) => {
                if !(*l == parts[i]) {
                    assert(!segment_matches(t[i as int], p[i as int]));
                    return None;
                }
            },
            Segment::Param(name) => {
                if parts[i].as_str().is_empty() {
                    assert(!segment_matches(t[i as int], p[i as int]));
                    return None;
                }
                out.push((name.clone(), parts[i].clone()));
                assert(pairs_view(out@) =~= before.push((t[i as int].1, p[i as int])));
            },
        }
        i = i + 1;
    }
    assert(t.take(i as int) =~= t);
    assert(p.take(i as int) =~= p);
    Some(out)
}

pub proof fn lemma_first_hit_unique(r: &AppRouter, i: int, k: int, method: Seq<char>, path: Seq<char>)
    requires
        r.is_first_hit(i, method, path),
        r.is_first_hit(k, method, path),
    ensures
        i == k,
{
    if i < k {
        assert(!r.routes()[i].hit(method, path));
    } else if k < i {
        assert(!r.routes()[k].hit(method, path));
    }
}

impl AppRouter {
    /// Builds a table from an ordered rule list. Fails with `ConfigError` when a
    /// template is malformed or two rules share method and template.
    pub fn try_new(rules: &Vec<RouteRule>) -> (r: Result<AppRouter, AppError>)
        ensures
            match r {
                Ok(t) => rules_valid(rules@) && t.built_from(rules@),
                Err(e) => !rules_valid(rules@) && e == AppError::ConfigError,
            },
    {
        let mut routes: Vec<Route> = Vec::new();
        let mut i: usize = 0;
        while i < rules.len()
            invariant
                i <= rules.len(),
                routes@.len() == i,
                forall|a: int| 0 <= a < i ==> template_ok(#[trigger] rules@[a].path@),
                forall|a: int, b: int|
                    0 <= a < b < i ==> !clash(#[trigger] rules@[a], #[trigger] rules@[b]),
                forall|a: int|
                    0 <= a < i ==> {
                        &&& (#[trigger] routes@[a]).wf()
                        &&& routes@[a].method@ == rules@[a].method@
                        &&& routes@[a].path@ == rules@[a].path@
                        &&& routes@[a].handler@ == rules@[a].handler@
                    },
            decreases rules.len() - i,
        {
            let rule = &rules[i];
            let segments = match parse_path_template(rule.path.as_str()) {
                Some(v) => v,
                None => {
                    assert(!template_ok(rules@[i as int].path@));
                    return Err(AppError::ConfigError);
                },
            };
            let mut j: usize = 0;
            while j < i
                invariant
                    i < rules.len(),
                    j <= i,
                    rule == rules@[i as int],
                    forall|a: int| 0 <= a < j ==> !clash(#[trigger] rules@[a], rules@[i as int]),
                decreases i - j,
            {
                if rules[j].method == rule.method && rules[j].path == rule.path {
                    assert(clash(rules@[j as int], rules@[i as int]));
                    return Err(AppError::ConfigError);
                }
                j = j + 1;
            }
            routes.push(
                Route {
                    method: rule.method.clone(),
                    path: rule.path.clone(),
                    segments,
                    handler: rule.handler.clone(),
                },
            );
            i = i + 1;
        }
        let t = AppRouter { routes };
        assert(t.routes() == routes@);
        Ok(t)
    }

    /// Matches a request method and path against the table.
    pub fn match_it(&self, method: &str, path: &str) -> (r: Result<Matched, AppError>)
        ensures
            result_view(r) == self.outcome(method@, path@),
    {
        let n = path.unicode_len();
        if n == 0 || path.get_char(0) != '/' {
            assert(forall|i: int|
                0 <= i < self.routes().len() ==> !(#[trigger] self.routes()[i]).path_hit(path@));
            return Err(AppError::NotFound);
        }
        let rest = path.substring_char(1, n);
        assert(rest@ =~= path@.drop_first());
        let parts = split_str(rest, '/');
        let m = method.to_owned();
        let mut path_seen = false;
        let mut i: usize = 0;
        while i < self.routes.len()
            invariant
                m@ == method@,
                strings_view(parts@) == path_segments(path@),
                path@.len() > 0 && path@[0] == '/',
                i <= self.routes@.len(),
                forall|j: int| 0 <= j < i ==> !(#[trigger] self.routes@[j]).hit(method@, path@),
                path_seen <==> exists|j: int| 0 <= j < i && (#[trigger] self.routes@[j]).path_hit(path@),
            decreases self.routes.len() - i,
        {
            let route = &self.routes[i];
            match match_segments(&route.segments, &parts) {
                Some(params) => {
                    if route.method == m {
                        assert(self.is_first_hit(i as int, method@, path@));
                        proof {
                            let k = choose|k: int| self.is_first_hit(k, method@, path@);
                            lemma_first_hit_unique(self, i as int, k, method@, path@);
                        }
                        let res = Matched { handler: route.handler.clone(), params };
                        assert(res@ == (self.routes()[i as int].handler@, params_of(self.routes()[i as int].template(), path_segments(path@))));
                        assert(result_view(Ok(res)) == self.outcome(method@, path@));
                        return Ok(res);
                    }
                    assert(self.routes@[i as int].path_hit(path@));
                    path_seen = true;
                },
                None => {},
            }
            i = i + 1;
        }
        assert(forall|k: int| !self.is_first_hit(k, method@, path@));
        if path_seen {
            let ghost j = choose|j: int| 0 <= j < i && (#[trigger] self.routes@[j]).path_hit(path@);
            assert(self.routes()[j].path_hit(path@));
            assert(result_view(Err(AppError::MethodNotAllowed)) == self.outcome(method@, path@));
            Err(AppError::MethodNotAllowed)
        } else {
            Err(AppError::NotFound)
        }
    }
}

pub open spec fn result_view(r: Result<Matched, AppError>) -> Result<
    (Seq<char>, Seq<(Seq<char>, Seq<char>)>),
    AppError,
> {
    match r {
        Ok(m) => Ok(m@),
        Err(e) => Err(e),
    }
}

} // verus!
