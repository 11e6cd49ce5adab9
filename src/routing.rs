use vstd::prelude::*;

use crate::text::{join, join_from, non_empty, segments_of, split_all, views};

verus! {

/// How an exact route answers.
#[derive(Clone, Copy, Debug, PartialEq, Eq, Structural)]
pub enum RouteKind {
    /// Its value names an action to run.
    Action,
    /// Its value is sent back verbatim as a JSON body.
    Json,
    /// Its value is sent back as plain text.
    Text,
}

/// The configured value of an exact route.
///
/// `json` is the value as JSON text; `text` holds the string itself when the
/// value is a JSON string, and is `None` otherwise.
#[derive(Debug)]
pub struct RouteValue {
    pub kind: RouteKind,
    pub text: Option<String>,
    pub json: String,
}

/// A route template such as `/users/:id/files/*rest`, tried in registration order.
#[derive(Debug)]
pub struct DynamicRoute {
    pub method: String,
    pub pattern: String,
    pub action: String,
}

/// What a request resolves to.
#[derive(Debug)]
pub enum Resolution {
    /// Run the named action with these path parameters (a later pair with the
    /// same name overrides an earlier one).
    Action { name: String, params: Vec<(String, String)> },
    /// Answer with this JSON text.
    Json(String),
    /// Answer with this text.
    Text(String),
    /// No route matched.
    NotFound,
}

/// The exact routes, keyed by `METHOD:PATH`, and the dynamic routes of a server.
/// Both lists are fixed once the table is built.
#[derive(Debug)]
pub struct RouteTable {
    pub exact: Vec<(String, RouteValue)>,
    pub dynamic: Vec<DynamicRoute>,
}

/// The key under which an exact route is registered.
pub open spec fn route_key(method: Seq<char>, path: Seq<char>) -> Seq<char> {
    method + seq![':'] + path
}

/// The index of the last of the first `n` exact routes registered under `key`.
pub open spec fn last_key_index(exact: Seq<(String, RouteValue)>, key: Seq<char>, n: int) -> Option<
    int,
>
    decreases n,
{
    if n <= 0 {
        None
    } else if exact[n - 1].0@ == key {
        Some(n - 1)
    } else {
        last_key_index(exact, key, n - 1)
    }
}

/// The exact route that answers `method` and `path`, if any.
pub open spec fn exact_index(exact: Seq<(String, RouteValue)>, method: Seq<char>, path: Seq<char>) -> Option<int> {
    last_key_index(exact, route_key(method, path), exact.len() as int)
}

/// The action that an action route names; a value that is not a string names `unknown`.
pub open spec fn action_name_of(v: RouteValue) -> Seq<char> {
    match v.text {
        Some(t) => t@,
        None => "unknown"@,
    }
}

/// The body of a text route: the string itself, or else the value's JSON text.
pub open spec fn text_of(v: RouteValue) -> Seq<char> {
    match v.text {
        Some(t) => t@,
        None => v.json@,
    }
}

/// `r` is the answer of an exact route with value `v`.
pub open spec fn answers_exact(r: Resolution, v: RouteValue) -> bool {
    match v.kind {
        RouteKind::Action => r matches Resolution::Action { name, params } && name@ == action_name_of(
            v,
        ) && params@.len() == 0,
        RouteKind::Json => r matches Resolution::Json(body) && body@ == v.json@,
        RouteKind::Text => r matches Resolution::Text(body) && body@ == text_of(v),
    }
}

pub open spec fn is_capture(seg: Seq<char>) -> bool {
    seg.len() > 0 && seg[0] == ':'
}

pub open spec fn is_wildcard(seg: Seq<char>) -> bool {
    seg.len() > 0 && seg[0] == '*'
}

pub open spec fn ends_in_wildcard(pat: Seq<Seq<char>>) -> bool {
    pat.len() > 0 && is_wildcard(pat.last())
}

/// The number of pattern segments matched one to one against path segments.
pub open spec fn fixed_len(pat: Seq<Seq<char>>) -> int {
    if ends_in_wildcard(pat) {
        pat.len() - 1
    } else {
        pat.len() as int
    }
}

pub open spec fn segment_matches(p: Seq<char>, s: Seq<char>) -> bool {
    is_capture(p) || p == s
}

/// A pattern matches a path when the segment counts agree (a trailing wildcard
/// takes one or more segments) and every literal segment is equal.
pub open spec fn pattern_matches(pat: Seq<Seq<char>>, path: Seq<Seq<char>>) -> bool {
    &&& if ends_in_wildcard(pat) {
        path.len() >= pat.len()
    } else {
        path.len() == pat.len()
    }
    &&& forall|i: int| 0 <= i < fixed_len(pat) ==> segment_matches(#[trigger] pat[i], path[i])
}

/// The `(name, segment)` pairs that the captures among the first `n` segments bind.
pub open spec fn captures(pat: Seq<Seq<char>>, path: Seq<Seq<char>>, n: int) -> Seq<
    (Seq<char>, Seq<char>),
>
    decreases n,
{
    if n <= 0 {
        Seq::empty()
    } else {
        let prev = captures(pat, path, n - 1);
        if is_capture(pat[n - 1]) {
            prev.push((pat[n - 1].drop_first(), path[n - 1]))
        } else {
            prev
        }
    }
}

/// The parameter a trailing wildcard binds: its name, or `*` when it has none.
pub open spec fn wildcard_name(seg: Seq<char>) -> Seq<char> {
    if seg.len() <= 1 {
        seq!['*']
    } else {
        seg.drop_first()
    }
}

/// The parameters a matching pattern binds, in order: the captures, then the
/// wildcard with the remaining segments joined by `/`.
pub open spec fn bindings(pat: Seq<Seq<char>>, path: Seq<Seq<char>>) -> Seq<(Seq<char>, Seq<char>)> {
    let fixed = captures(pat, path, fixed_len(pat));
    if ends_in_wildcard(pat) {
        fixed.push(
            (wildcard_name(pat.last()), join(path.subrange(pat.len() - 1, path.len() as int), seq!['/'])),
        )
    } else {
        fixed
    }
}

/// The non-empty `/`-separated segments of a path.
pub open spec fn path_segments(s: Seq<char>) -> Seq<Seq<char>> {
    non_empty(split_all(s, '/'))
}

pub open spec fn route_matches(r: DynamicRoute, method: Seq<char>, path: Seq<char>) -> bool {
    r.method@ == method && pattern_matches(path_segments(r.pattern@), path_segments(path))
}

/// The first dynamic route at or after `i` that matches.
pub open spec fn first_match_from(routes: Seq<DynamicRoute>, method: Seq<char>, path: Seq<char>, i: int) -> Option<int>
    decreases routes.len() - i,
{
    if i < 0 || i >= routes.len() {
        None
    } else if route_matches(routes[i], method, path) {
        Some(i)
    } else {
        first_match_from(routes, method, path, i + 1)
    }
}

pub open spec fn first_match(routes: Seq<DynamicRoute>, method: Seq<char>, path: Seq<char>) -> Option<int> {
    first_match_from(routes, method, path, 0)
}

pub open spec fn pair_views(v: Seq<(String, String)>) -> Seq<(Seq<char>, Seq<char>)> {
    v.map_values(|p: (String, String)| (p.0@, p.1@))
}

/// `r` is what dynamic route `i` of `routes` gives for `path`.
pub open spec fn answers_dynamic(r: Resolution, routes: Seq<DynamicRoute>, i: int, path: Seq<char>) -> bool {
    r matches Resolution::Action { name, params } && name@ == routes[i].action@ && pair_views(params@)
        == bindings(path_segments(routes[i].pattern@), path_segments(path))
}

/// `r` is how `table` answers `method` and `path`: an exact route first, then
/// the first matching dynamic route, else not found.
pub open spec fn resolves_to(table: RouteTable, method: Seq<char>, path: Seq<char>, r: Resolution) -> bool {
    match exact_index(table.exact@, method, path) {
        Some(i) => answers_exact(r, table.exact@[i].1),
        None => match first_match(table.dynamic@, method, path) {
            Some(j) => answers_dynamic(r, table.dynamic@, j, path),
            None => r is NotFound,
        },
    }
}

pub proof fn lemma_pair_views_push(v: Seq<(String, String)>, p: (String, String))
    ensures
        pair_views(v.push(p)) == pair_views(v).push((p.0@, p.1@)),
{
    assert(pair_views(v.push(p)) =~= pair_views(v).push((p.0@, p.1@)));
}

/// Whether `s` starts with `c`.
fn starts_with_char(s: &str, c: char) -> (r: bool)
    ensures
        r == (s@.len() > 0 && s@[0] == c),
{
    s.unicode_len() > 0 && s.get_char(0) == c
}

/// Matches path segments against pattern segments, giving the bound parameters.
pub fn match_pattern(pat: &Vec<String>, path: &Vec<String>) -> (r: Option<Vec<(String, String)>>)
    ensures
        r is Some <==> pattern_matches(views(pat@), views(path@)),
        r is Some ==> pair_views(r->0@) == bindings(views(pat@), views(path@)),
{
    let ghost p = views(pat@);
    let ghost s = views(path@);
    let k = pat.len();
    let wild = k > 0 && starts_with_char(pat[k - 1].as_str(), '*');
    assert(wild == ends_in_wildcard(p));
    if wild {
        if path.len() < k {
            return None;
        }
    } else if path.len() != k {
        return None;
    }
    let fixed: usize = if wild {
        k - 1
    } else {
        k
    };
    let mut params: Vec<(String, String)> = Vec::new();
    let mut i: usize = 0;
    proof {
        assert(pair_views(params@) =~= captures(p, s, 0));
    }
    while i < fixed
        invariant
            p == views(pat@),
            s == views(path@),
            fixed == fixed_len(p),
            fixed <= path@.len(),
            fixed <= pat@.len(),
            i <= fixed,
            forall|j: int| 0 <= j < i ==> segment_matches(#[trigger] p[j], s[j]),
            pair_views(params@) == captures(p, s, i as int),
        decreases fixed - i,
    {
        let seg = pat[i].as_str();
        if starts_with_char(seg, ':') {
            let name = seg.substring_char(1, seg.unicode_len()).to_owned();
            let value = path[i].clone();
            proof {
                assert(name@ =~= p[i as int].drop_first());
                lemma_pair_views_push(params@, (name, value));
            }
            params.push((name, value));
        } else if pat[i] != path[i] {
            assert(!segment_matches(p[i as int], s[i as int]));
            return None;
        }
        i = i + 1;
    }
    if wild {
        let last = pat[k - 1].as_str();
        let name = if last.unicode_len() <= 1 {
            let star = "*".to_owned();
            proof {
                reveal_strlit("*");
                assert(star@ =~= seq!['*']);
            }
            star
        } else {
            last.substring_char(1, last.unicode_len()).to_owned()
        };
        let rest = join_from(path, k - 1, "/");
        proof {
            reveal_strlit("/");
            assert("/"@ =~= seq!['/']);
            if last@.len() > 1 {
                assert(name@ =~= last@.drop_first());
            }
            lemma_pair_views_push(params@, (name, rest));
        }
        params.push((name, rest));
    }
    Some(params)
}

/// The first dynamic route that matches `method` and `path`, in registration
/// order, with the parameters it binds.
pub fn match_dynamic_route(method: &str, path: &str, routes: &Vec<DynamicRoute>) -> (r: Option<
    (String, Vec<(String, String)>),
>)
    ensures
        match first_match(routes@, method@, path@) {
            None => r is None,
            Some(i) => r matches Some(found) && found.0@ == routes@[i].action@ && pair_views(
                found.1@,
            ) == bindings(path_segments(routes@[i].pattern@), path_segments(path@)),
        },
{
    let wanted = method.to_owned();
    let path_segs = segments_of(path, '/');
    let mut i: usize = 0;
    while i < routes.len()
        invariant
            i <= routes@.len(),
            wanted@ == method@,
            views(path_segs@) == path_segments(path@),
            first_match(routes@, method@, path@) == first_match_from(routes@, method@, path@, i as int),
        decreases routes@.len() - i,
    {
        let route = &routes[i];
        if route.method == wanted {
            let pat_segs = segments_of(route.pattern.as_str(), '/');
            match match_pattern(&pat_segs, &path_segs) {
                Some(params) => {
                    return Some((route.action.clone(), params));
                },
                None => {},
            }
        }
        i = i + 1;
    }
    None
}

impl RouteTable {
    pub fn new(exact: Vec<(String, RouteValue)>, dynamic: Vec<DynamicRoute>) -> (r: Self)
        ensures
            r.exact@ == exact@,
            r.dynamic@ == dynamic@,
    {
        RouteTable { exact, dynamic }
    }

    /// The value of the exact route registered for `method` and `path`; where a
    /// key was registered twice, the later registration counts.
    pub fn resolve_exact(&self, method: &str, path: &str) -> (r: Option<&RouteValue>)
        ensures
            match exact_index(self.exact@, method@, path@) {
                None => r is None,
                Some(i) => r == Some(&self.exact@[i].1),
            },
    {
        let mut key = method.to_owned();
        key.append(":");
        key.append(path);
        proof {
            reveal_strlit(":");
            assert(key@ =~= route_key(method@, path@));
        }
        let mut n: usize = self.exact.len();
        while n > 0
            invariant
                n <= self.exact@.len(),
                key@ == route_key(method@, path@),
                exact_index(self.exact@, method@, path@) == last_key_index(self.exact@, key@, n as int),
            decreases n,
        {
            if self.exact[n - 1].0 == key {
                return Some(&self.exact[n - 1].1);
            }
            n = n - 1;
        }
        None
    }

    /// The first dynamic route that matches, with the parameters it binds.
    pub fn resolve_dynamic(&self, method: &str, path: &str) -> (r: Option<(String, Vec<(String, String)>)>)
        ensures
            match first_match(self.dynamic@, method@, path@) {
                None => r is None,
                Some(i) => r matches Some(found) && found.0@ == self.dynamic@[i].action@ && pair_views(
                    found.1@,
                ) == bindings(path_segments(self.dynamic@[i].pattern@), path_segments(path@)),
            },
    {
        match_dynamic_route(method, path, &self.dynamic)
    }

    /// Resolves a request: an exact route always answers first, then the first
    /// matching dynamic route; otherwise the request is not found.
    pub fn resolve(&self, method: &str, path: &str) -> (r: Resolution)
        ensures
            resolves_to(*self, method@, path@, r),
    {
        match self.resolve_exact(method, path) {
            Some(v) => answer_of(v),
            None => match self.resolve_dynamic(method, path) {
                Some((name, params)) => Resolution::Action { name, params },
                None => Resolution::NotFound,
            },
        }
    }
}

proof fn lemma_last_key_index(exact: Seq<(String, RouteValue)>, key: Seq<char>, n: int, i: int)
    requires
        0 <= i < n <= exact.len(),
        exact[i].0@ == key,
        forall|j: int| i < j < n ==> exact[j].0@ != key,
    ensures
        last_key_index(exact, key, n) == Some(i),
    decreases n,
{
    if n - 1 > i {
        lemma_last_key_index(exact, key, n - 1, i);
    }
}

/// Resolving the method and path of a registered exact route gives that
/// route's configured value, whenever no later registration reuses its key.
pub proof fn lemma_exact_route_answers(
    table: RouteTable,
    i: int,
    method: Seq<char>,
    path: Seq<char>,
    r: Resolution,
)
    requires
        0 <= i < table.exact@.len(),
        table.exact@[i].0@ == route_key(method, path),
        forall|j: int| i < j < table.exact@.len() ==> table.exact@[j].0@ != table.exact@[i].0@,
        resolves_to(table, method, path, r),
    ensures
        answers_exact(r, table.exact@[i].1),
{
    lemma_last_key_index(table.exact@, route_key(method, path), table.exact@.len() as int, i);
}

proof fn lemma_first_match_from_bound(
    routes: Seq<DynamicRoute>,
    method: Seq<char>,
    path: Seq<char>,
    start: int,
    i: int,
)
    requires
        0 <= start <= i < routes.len(),
        route_matches(routes[i], method, path),
    ensures
        first_match_from(routes, method, path, start) matches Some(k) && start <= k <= i,
    decreases i - start,
{
    if !route_matches(routes[start], method, path) {
        lemma_first_match_from_bound(routes, method, path, start + 1, i);
    }
}

/// Of two dynamic routes that both match a request, the one registered first
/// wins: the route chosen comes no later than it, and is never the other one.
pub proof fn lemma_first_registered_wins(
    routes: Seq<DynamicRoute>,
    method: Seq<char>,
    path: Seq<char>,
    i: int,
    j: int,
)
    requires
        0 <= i < j < routes.len(),
        route_matches(routes[i], method, path),
        route_matches(routes[j], method, path),
    ensures
        first_match(routes, method, path) matches Some(k) && k <= i,
        first_match(routes, method, path) != Some(j),
{
    lemma_first_match_from_bound(routes, method, path, 0, i);
}

/// The answer of an exact route with value `v`.
pub fn answer_of(v: &RouteValue) -> (r: Resolution)
    ensures
        answers_exact(r, *v),
{
    match v.kind {
        RouteKind::Action => {
            let name = match &v.text {
                Some(t) => t.clone(),
                None => "unknown".to_owned(),
            };
            Resolution::Action { name, params: Vec::new() }
        },
        RouteKind::Json => Resolution::Json(v.json.clone()),
        RouteKind::Text => match &v.text {
            Some(t) => Resolution::Text(t.clone()),
            None => Resolution::Text(v.json.clone()),
        },
    }
}

} // verus!
