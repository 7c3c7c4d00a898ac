//! Routes and routers: path templates, structural matching with captured
//! parameters, registration under a base path, and lookup with the
//! precedence rule that literal segments beat parameter segments, which
//! beat a trailing wildcard.

use vstd::prelude::*;

use crate::middleware::Middleware;
use crate::strutil::{
    join_spec, join_str, lemma_canonical_segments, lemma_segments_good, path_segments,
    segments_spec, split_once_str, split_spec, split_str, str_eq, views_of,
};

verus! {

/// A segment of a path template, at the specification level.
pub enum GSeg {
    /// Matches exactly this text.
    Lit(Seq<char>),
    /// Matches any one nonempty segment, capturing it under this name.
    Param(Seq<char>),
    /// Matches the whole remainder of the path, capturing it under this
    /// name; only allowed as the last segment.
    Wild(Seq<char>),
}

/// A segment of a path template.
pub enum TplSeg {
    Lit(String),
    Param(String),
    Wild(String),
}

impl View for TplSeg {
    type V = GSeg;

    open spec fn view(&self) -> GSeg {
        match self {
            TplSeg::Lit(s) => GSeg::Lit(s@),
            TplSeg::Param(s) => GSeg::Param(s@),
            TplSeg::Wild(s) => GSeg::Wild(s@),
        }
    }
}

/// The views of a template's segments.
pub open spec fn segs_view(v: Seq<TplSeg>) -> Seq<GSeg> {
    v.map_values(|t: TplSeg| t@)
}

/// The views of a list of captured parameter pairs.
pub open spec fn pairs_view(v: Seq<(String, String)>) -> Seq<(Seq<char>, Seq<char>)> {
    v.map_values(|p: (String, String)| (p.0@, p.1@))
}

/// How one nonempty path segment reads as a template segment: `{name}` is
/// a parameter, `{*name}` a trailing wildcard, anything else a literal.
pub open spec fn parse_seg_spec(s: Seq<char>) -> GSeg {
    if s.len() >= 2 && s[0] == '{' && s[s.len() - 1] == '}' {
        let inner = s.subrange(1, s.len() - 1);
        if inner.len() >= 1 && inner[0] == '*' {
            GSeg::Wild(inner.skip(1))
        } else {
            GSeg::Param(inner)
        }
    } else {
        GSeg::Lit(s)
    }
}

/// The template segments that a list of path segments denotes.
pub open spec fn parsed_segs(seg_strs: Seq<Seq<char>>) -> Seq<GSeg> {
    seg_strs.map_values(|s: Seq<char>| parse_seg_spec(s))
}

/// The template that a path string denotes: its nonempty segments, each
/// read as a template segment.
pub open spec fn template_spec(path: Seq<char>) -> Seq<GSeg> {
    parsed_segs(segments_spec(path))
}

/// Structural matching of a template against the pieces between the `/`
/// separators of a path, exactly as they stand: literal segments must be
/// equal (an empty piece from a doubled or trailing slash matches no
/// literal), a parameter matches any one nonempty piece, and a trailing
/// wildcard matches a remainder whose joined text is nonempty.
pub open spec fn tpl_matches(tpl: Seq<GSeg>, path: Seq<Seq<char>>) -> bool
    decreases tpl.len(),
{
    if tpl.len() == 0 {
        path.len() == 0
    } else {
        match tpl[0] {
            GSeg::Lit(l) => path.len() > 0 && path[0] == l && tpl_matches(
                tpl.drop_first(),
                path.drop_first(),
            ),
            GSeg::Param(_) => path.len() > 0 && path[0].len() > 0 && tpl_matches(
                tpl.drop_first(),
                path.drop_first(),
            ),
            GSeg::Wild(_) => tpl.len() == 1 && path.len() >= 1 && !(path.len() == 1
                && path[0].len() == 0),
        }
    }
}

/// The parameters a matching template captures from a path: each
/// parameter segment binds its name to the path segment at its position,
/// and a wildcard binds its name to the remainder, joined back with `/`.
pub open spec fn tpl_params(tpl: Seq<GSeg>, path: Seq<Seq<char>>) -> Seq<(Seq<char>, Seq<char>)>
    decreases tpl.len(),
{
    if tpl.len() == 0 {
        Seq::<(Seq<char>, Seq<char>)>::empty()
    } else {
        match tpl[0] {
            GSeg::Lit(_) => tpl_params(tpl.drop_first(), path.drop_first()),
            GSeg::Param(name) => seq![(name, path[0])] + tpl_params(
                tpl.drop_first(),
                path.drop_first(),
            ),
            GSeg::Wild(name) => seq![(name, join_spec(path, seq!['/']))],
        }
    }
}

/// Matches a template against path segments, returning the captured
/// parameters exactly when the match succeeds.
pub fn match_segs(tpl: &Vec<TplSeg>, path: &Vec<String>) -> (r: Option<Vec<(String, String)>>)
    ensures
        r is Some <==> tpl_matches(segs_view(tpl@), views_of(path@)),
        r matches Some(ps) ==> pairs_view(ps@) == tpl_params(segs_view(tpl@), views_of(path@)),
{
    let ghost tv = segs_view(tpl@);
    let ghost pv = views_of(path@);
    let nt = tpl.len();
    let np = path.len();
    let mut pairs: Vec<(String, String)> = Vec::new();
    let mut i: usize = 0;
    proof {
        assert(tv.skip(0) =~= tv);
        assert(pv.skip(0) =~= pv);
        assert(pairs_view(pairs@) + tpl_params(tv, pv) =~= tpl_params(tv, pv));
    }
    while i < nt
        invariant
            i <= nt,
            nt == tpl@.len(),
            np == path@.len(),
            i <= np,
            tv == segs_view(tpl@),
            pv == views_of(path@),
            tpl_matches(tv, pv) == tpl_matches(tv.skip(i as int), pv.skip(i as int)),
            tpl_matches(tv, pv) ==> tpl_params(tv, pv) =~= pairs_view(pairs@) + tpl_params(
                tv.skip(i as int),
                pv.skip(i as int),
            ),
        decreases nt - i,
    {
        let ghost tsuf = tv.skip(i as int);
        let ghost psuf = pv.skip(i as int);
        proof {
            assert(tsuf[0] == tv[i as int]);
            assert(tsuf.drop_first() =~= tv.skip(i + 1));
            if (i as int) < pv.len() {
                assert(psuf[0] == pv[i as int]);
                assert(psuf.drop_first() =~= pv.skip(i + 1));
            }
        }
        match &tpl[i] {
            TplSeg::Lit(l) => {
                if i >= np || !str_eq(l.as_str(), path[i].as_str()) {
                    assert(!tpl_matches(tsuf, psuf));
                    return None;
                }
            },
            TplSeg::Param(name) => {
                if i >= np || path[i].as_str().is_empty() {
                    assert(!tpl_matches(tsuf, psuf));
                    return None;
                }
                pairs.push((name.clone(), path[i].clone()));
                proof {
                    assert(pairs_view(pairs@) =~= pairs_view(pairs@.drop_last()) + seq![
                        (name@, path@[i as int]@),
                    ]);
                }
            },
            TplSeg::Wild(name) => {
                if i + 1 != nt || i >= np {
                    assert(!tpl_matches(tsuf, psuf));
                    return None;
                }
                if i + 1 == np && path[i].as_str().is_empty() {
                    proof {
                        assert(psuf.len() == 1 && psuf[0].len() == 0);
                        assert(!tpl_matches(tsuf, psuf));
                    }
                    return None;
                }
                let mut remainder: Vec<String> = Vec::new();
                let mut k: usize = i;
                while k < np
                    invariant
                        i <= k <= np,
                        np == path@.len(),
                        views_of(remainder@) =~= views_of(path@).subrange(i as int, k as int),
                    decreases np - k,
                {
                    remainder.push(path[k].clone());
                    proof {
                        assert(views_of(remainder@) =~= views_of(remainder@.drop_last()) + seq![
                            path@[k as int]@,
                        ]);
                        assert(views_of(path@).subrange(i as int, k + 1) =~= views_of(
                            path@,
                        ).subrange(i as int, k as int) + seq![path@[k as int]@]);
                    }
                    k = k + 1;
                }
                let joined = join_str(&remainder, "/");
                proof {
                    reveal_strlit("/");
                    assert("/"@ =~= seq!['/']);
                    assert(views_of(path@).subrange(i as int, np as int) =~= psuf);
                    assert(tpl_matches(tsuf, psuf));
                    assert(tv.skip(nt as int) =~= Seq::<GSeg>::empty());
                }
                pairs.push((name.clone(), joined));
                proof {
                    assert(pairs_view(pairs@) =~= pairs_view(pairs@.drop_last()) + seq![
                        (name@, join_spec(psuf, seq!['/'])),
                    ]);
                    if tpl_matches(tv, pv) {
                        assert(tpl_params(tsuf, psuf) =~= seq![
                            (name@, join_spec(psuf, seq!['/'])),
                        ]);
                    }
                }
                return Some(pairs);
            },
        }
        i = i + 1;
    }
    proof {
        assert(tv.skip(nt as int) =~= Seq::<GSeg>::empty());
    }
    if i == np {
        proof {
            assert(pv.skip(np as int) =~= Seq::<Seq<char>>::empty());
            assert(tpl_matches(tv, pv));
            if tpl_matches(tv, pv) {
                assert(tpl_params(tv, pv) =~= pairs_view(pairs@));
            }
        }
        Some(pairs)
    } else {
        proof {
            assert(pv.skip(i as int).len() > 0);
            assert(!tpl_matches(tv.skip(i as int), pv.skip(i as int)));
        }
        None
    }
}

/// The precedence rank of a template segment: literals bind tightest,
/// then parameters, then a wildcard.
pub open spec fn seg_kind(g: GSeg) -> int {
    match g {
        GSeg::Lit(_) => 0,
        GSeg::Param(_) => 1,
        GSeg::Wild(_) => 2,
    }
}

/// The precedence ranks of a template's segments.
pub open spec fn kinds(tpl: Seq<GSeg>) -> Seq<int> {
    tpl.map_values(|g: GSeg| seg_kind(g))
}

/// Strict lexicographic order on rank sequences; a strict prefix comes
/// first.
pub open spec fn lex_less(a: Seq<int>, b: Seq<int>) -> bool
    decreases a.len(),
{
    if a.len() == 0 {
        b.len() > 0
    } else if b.len() == 0 {
        false
    } else if a[0] < b[0] {
        true
    } else if a[0] > b[0] {
        false
    } else {
        lex_less(a.drop_first(), b.drop_first())
    }
}

/// Nothing is lexicographically below itself.
pub proof fn lemma_lex_less_irrefl(a: Seq<int>)
    ensures
        !lex_less(a, a),
    decreases a.len(),
{
    if a.len() > 0 {
        lemma_lex_less_irrefl(a.drop_first());
    }
}

/// Lexicographic order is transitive.
pub proof fn lemma_lex_less_trans(a: Seq<int>, b: Seq<int>, c: Seq<int>)
    requires
        lex_less(a, b),
        lex_less(b, c),
    ensures
        lex_less(a, c),
    decreases a.len(),
{
    if a.len() > 0 && b.len() > 0 && c.len() > 0 {
        if a[0] == b[0] && b[0] == c[0] {
            lemma_lex_less_trans(a.drop_first(), b.drop_first(), c.drop_first());
        }
    }
}

/// Compares two templates by precedence rank.
pub fn tpl_lex_less(a: &Vec<TplSeg>, b: &Vec<TplSeg>) -> (r: bool)
    ensures
        r == lex_less(kinds(segs_view(a@)), kinds(segs_view(b@))),
{
    let na = a.len();
    let nb = b.len();
    let ghost ka = kinds(segs_view(a@));
    let ghost kb = kinds(segs_view(b@));
    let mut i: usize = 0;
    proof {
        assert(ka.skip(0) =~= ka);
        assert(kb.skip(0) =~= kb);
    }
    while i < na && i < nb
        invariant
            i <= na,
            i <= nb,
            na == a@.len(),
            nb == b@.len(),
            ka == kinds(segs_view(a@)),
            kb == kinds(segs_view(b@)),
            lex_less(ka, kb) == lex_less(ka.skip(i as int), kb.skip(i as int)),
            forall|j: int| 0 <= j < i ==> ka[j] == kb[j],
        decreases na - i,
    {
        let ra: u8 = match &a[i] {
            TplSeg::Lit(_) => 0,
            TplSeg::Param(_) => 1,
            TplSeg::Wild(_) => 2,
        };
        let rb: u8 = match &b[i] {
            TplSeg::Lit(_) => 0,
            TplSeg::Param(_) => 1,
            TplSeg::Wild(_) => 2,
        };
        proof {
            assert(ka.skip(i as int)[0] == ka[i as int]);
            assert(kb.skip(i as int)[0] == kb[i as int]);
            assert(ka.skip(i as int).drop_first() =~= ka.skip(i + 1));
            assert(kb.skip(i as int).drop_first() =~= kb.skip(i + 1));
            assert(ka[i as int] == ra as int);
            assert(kb[i as int] == rb as int);
        }
        if ra < rb {
            return true;
        }
        if ra > rb {
            return false;
        }
        i = i + 1;
    }
    proof {
        if i >= na {
            assert(ka.skip(i as int).len() == 0);
        } else {
            assert(kb.skip(i as int).len() == 0);
            assert(ka.skip(i as int).len() > 0);
        }
    }
    na < nb
}

/// A route: an HTTP method, a path template, and the identifier of the
/// handler that serves it. Handlers themselves live outside the library;
/// a route refers to one by number.
#[derive(Clone)]
pub struct Route {
    pub method: String,
    pub path: String,
    pub handler: u64,
}

impl Route {
    /// A route for the given path and method; the method defaults to GET.
    pub fn new(path: String, method: Option<String>) -> (r: Route)
        ensures
            r.path == path,
            r.handler == 0,
            match method {
                Some(m) => r.method == m,
                None => r.method@ == "GET"@,
            },
    {
        let m = match method {
            Some(m) => m,
            None => "GET".to_owned(),
        };
        Route { method: m, path, handler: 0 }
    }

    /// An equal copy of this route.
    pub fn dup(&self) -> (r: Route)
        ensures
            r == *self,
    {
        Route { method: self.method.clone(), path: self.path.clone(), handler: self.handler }
    }

    /// The same route bound to the given handler.
    pub fn with_handler(&self, handler: u64) -> (r: Route)
        ensures
            r.method == self.method,
            r.path == self.path,
            r.handler == handler,
    {
        Route { method: self.method.clone(), path: self.path.clone(), handler }
    }
}

/// A registered route: the route as given, the full path it was
/// registered under, and that path's parsed template.
pub struct RouteEntry {
    pub route: Route,
    pub full_path: String,
    pub segs: Vec<TplSeg>,
}

impl RouteEntry {
    /// The entry's template is the one its full path denotes.
    pub open spec fn wf(&self) -> bool {
        segs_view(self.segs@) == template_spec(self.full_path@)
    }
}

/// A successful lookup: the matched route and its captured parameters.
pub struct FoundRoute {
    pub route: Route,
    pub params: Vec<(String, String)>,
}

/// The request path that a URI denotes: everything before the first `?`.
pub open spec fn strip_query(uri: Seq<char>) -> Seq<char> {
    split_spec(uri, '?')[0]
}

/// Drops the query component of a URI, if any.
pub fn strip_query_str(uri: &str) -> (r: String)
    ensures
        r@ == strip_query(uri@),
{
    match split_once_str(uri, '?') {
        Some(pair) => {
            proof {
                let i = choose|i: int|
                    {
                        &&& 0 <= i < uri@.len()
                        &&& uri@[i] == '?'
                        &&& (forall|j: int| 0 <= j < i ==> uri@[j] != '?')
                        &&& pair.0@ == uri@.take(i)
                        &&& pair.1@ == uri@.skip(i + 1)
                    };
                crate::strutil::lemma_split_at_first(uri@, '?', i);
                assert(split_spec(uri@, '?')[0] == uri@.take(i));
            }
            pair.0
        },
        None => {
            proof {
                crate::strutil::lemma_split_no_sep(uri@, '?');
            }
            uri.to_owned()
        },
    }
}

/// Parses one path segment as a template segment.
pub fn parse_seg(s: &str) -> (r: TplSeg)
    ensures
        r@ == parse_seg_spec(s@),
{
    let n = s.unicode_len();
    if n >= 2 && s.get_char(0) == '{' && s.get_char(n - 1) == '}' {
        let inner = s.substring_char(1, n - 1);
        if inner.unicode_len() >= 1 && inner.get_char(0) == '*' {
            let name = inner.substring_char(1, inner.unicode_len());
            proof {
                assert(name@ =~= s@.subrange(1, n - 1).skip(1));
            }
            TplSeg::Wild(name.to_owned())
        } else {
            TplSeg::Param(inner.to_owned())
        }
    } else {
        TplSeg::Lit(s.to_owned())
    }
}

/// Parses each path segment as a template segment.
pub fn parse_template(seg_strs: &Vec<String>) -> (r: Vec<TplSeg>)
    ensures
        segs_view(r@) == parsed_segs(views_of(seg_strs@)),
{
    let n = seg_strs.len();
    let mut out: Vec<TplSeg> = Vec::new();
    let mut i: usize = 0;
    while i < n
        invariant
            i <= n,
            n == seg_strs@.len(),
            segs_view(out@) =~= parsed_segs(views_of(seg_strs@).take(i as int)),
        decreases n - i,
    {
        out.push(parse_seg(seg_strs[i].as_str()));
        proof {
            assert(segs_view(out@) =~= segs_view(out@.drop_last()) + seq![
                parse_seg_spec(seg_strs@[i as int]@),
            ]);
            assert(parsed_segs(views_of(seg_strs@).take(i + 1)) =~= parsed_segs(
                views_of(seg_strs@).take(i as int),
            ) + seq![parse_seg_spec(seg_strs@[i as int]@)]);
        }
        i = i + 1;
    }
    proof {
        assert(views_of(seg_strs@).take(n as int) =~= views_of(seg_strs@));
    }
    out
}

/// Whether two template segments claim the same position in the same way:
/// equal literals, or both parameters, or both wildcards.
pub open spec fn seg_shape_eq(a: GSeg, b: GSeg) -> bool {
    match (a, b) {
        (GSeg::Lit(x), GSeg::Lit(y)) => x == y,
        (GSeg::Param(_), GSeg::Param(_)) => true,
        (GSeg::Wild(_), GSeg::Wild(_)) => true,
        _ => false,
    }
}

/// Whether two templates claim exactly the same paths, segment by segment.
pub open spec fn same_shape(a: Seq<GSeg>, b: Seq<GSeg>) -> bool {
    a.len() == b.len() && forall|i: int| 0 <= i < a.len() ==> seg_shape_eq(a[i], b[i])
}

/// Whether a template is well formed: a wildcard may only stand last.
pub open spec fn tpl_wf(tpl: Seq<GSeg>) -> bool {
    forall|i: int| 0 <= i < tpl.len() - 1 ==> !((#[trigger] tpl[i]) is Wild)
}

/// Compares two templates segment by segment for equal shape.
#[verifier::loop_isolation(false)]
pub fn same_shape_exec(a: &Vec<TplSeg>, b: &Vec<TplSeg>) -> (r: bool)
    ensures
        r == same_shape(segs_view(a@), segs_view(b@)),
{
    let na = a.len();
    let nb = b.len();
    if na != nb {
        return false;
    }
    let mut i: usize = 0;
    while i < na
        invariant
            i <= na,
            na == a@.len(),
            na == b@.len(),
            forall|j: int| 0 <= j < i ==> seg_shape_eq(segs_view(a@)[j], segs_view(b@)[j]),
        decreases na - i,
    {
        let eq = match (&a[i], &b[i]) {
            (TplSeg::Lit(x), TplSeg::Lit(y)) => str_eq(x.as_str(), y.as_str()),
            (TplSeg::Param(_), TplSeg::Param(_)) => true,
            (TplSeg::Wild(_), TplSeg::Wild(_)) => true,
            _ => false,
        };
        proof {
            assert(eq == seg_shape_eq(segs_view(a@)[i as int], segs_view(b@)[i as int]));
        }
        if !eq {
            return false;
        }
        i = i + 1;
    }
    true
}

/// Why a route cannot be registered.
#[derive(Clone, Copy, Debug, PartialEq, Eq, Structural)]
pub enum RouteError {
    /// The path and method pair is already claimed by a route whose
    /// template has the same shape.
    Conflict,
    /// The template holds a wildcard segment that is not last.
    BadTemplate,
}

/// The full path a route is registered under: the router's base path and
/// the route's path, joined with single `/` separators and empty segments
/// collapsed; without a base path, the route's path as given.
pub open spec fn full_path_of(base: Option<String>, path: Seq<char>) -> Seq<char> {
    match base {
        Some(bp) => seq!['/'] + join_spec(segments_spec(bp@) + segments_spec(path), seq!['/']),
        None => path,
    }
}

/// Whether some already registered route with this method claims the same
/// shape as the given template.
pub open spec fn has_conflict(entries: Seq<RouteEntry>, method: Seq<char>, tpl: Seq<GSeg>) -> bool {
    exists|j: int|
        0 <= j < entries.len() && (#[trigger] entries[j]).route.method@ == method && same_shape(
            segs_view(entries[j].segs@),
            tpl,
        )
}

/// The registration-relevant shape of a router's entries: each one's
/// method and template.
pub open spec fn tpl_table(entries: Seq<RouteEntry>) -> Seq<(Seq<char>, Seq<GSeg>)> {
    entries.map_values(|e: RouteEntry| (e.route.method@, segs_view(e.segs@)))
}

/// Whether the table already claims this method and template shape.
pub open spec fn table_conflict(
    table: Seq<(Seq<char>, Seq<GSeg>)>,
    method: Seq<char>,
    tpl: Seq<GSeg>,
) -> bool {
    exists|j: int|
        0 <= j < table.len() && (#[trigger] table[j]).0 == method && same_shape(table[j].1, tpl)
}

/// A conflict against the entries is a conflict against their table.
pub proof fn lemma_table_conflict(entries: Seq<RouteEntry>, method: Seq<char>, tpl: Seq<GSeg>)
    ensures
        has_conflict(entries, method, tpl) == table_conflict(tpl_table(entries), method, tpl),
{
    if has_conflict(entries, method, tpl) {
        let j = choose|j: int|
            0 <= j < entries.len() && (#[trigger] entries[j]).route.method@ == method
                && same_shape(segs_view(entries[j].segs@), tpl);
        assert((#[trigger] tpl_table(entries)[j]).0 == method && same_shape(
            tpl_table(entries)[j].1,
            tpl,
        ));
    }
    if table_conflict(tpl_table(entries), method, tpl) {
        let j = choose|j: int|
            0 <= j < tpl_table(entries).len() && (#[trigger] tpl_table(entries)[j]).0 == method
                && same_shape(tpl_table(entries)[j].1, tpl);
        assert((#[trigger] entries[j]).route.method@ == method && same_shape(
            segs_view(entries[j].segs@),
            tpl,
        ));
    }
}

/// How many of the routes register, taken in order, before the first
/// failure: each must have a well-formed template and no conflict
/// against the table as it stands when its turn comes. All of them
/// register exactly when this count is their number.
pub open spec fn routes_accepted(
    base: Option<String>,
    table: Seq<(Seq<char>, Seq<GSeg>)>,
    routes: Seq<Route>,
) -> int
    decreases routes.len(),
{
    if routes.len() == 0 {
        0
    } else {
        let t = template_spec(full_path_of(base, routes[0].path@));
        if tpl_wf(t) && !table_conflict(table, routes[0].method@, t) {
            1 + routes_accepted(base, table.push((routes[0].method@, t)), routes.drop_first())
        } else {
            0
        }
    }
}

/// What registration records for a route: the route as given, under the
/// joined full path, with that path's template.
pub open spec fn entry_for(e: RouteEntry, base: Option<String>, route: Route) -> bool {
    &&& e.route == route
    &&& e.full_path@ == full_path_of(base, route.path@)
    &&& segs_view(e.segs@) == template_spec(e.full_path@)
}

/// Route lookup is exact: where exactly one registered route matches a
/// path, a successful lookup returns that route and the parameters its
/// template captures — so a route is returned if and only if the path
/// matches its template. (With overlapping templates, such as a literal
/// and a parameter claiming the same path, lookup returns the match of
/// highest precedence instead.)
pub proof fn lemma_found_unique(
    router: Router,
    method: Seq<char>,
    pv: Seq<Seq<char>>,
    f: FoundRoute,
    i: int,
)
    requires
        found_in(router, method, pv, f),
        0 <= i < router.entries@.len(),
        entry_is_match(router.entries@[i], method, pv),
        forall|j: int|
            0 <= j < router.entries@.len() && j != i ==> !entry_is_match(
                #[trigger] router.entries@[j],
                method,
                pv,
            ),
    ensures
        f.route == router.entries@[i].route,
        pairs_view(f.params@) == tpl_params(segs_view(router.entries@[i].segs@), pv.drop_first()),
{
    let k = choose|k: int|
        {
            &&& 0 <= k < router.entries@.len()
            &&& entry_is_match(#[trigger] router.entries@[k], method, pv)
            &&& f.route == router.entries@[k].route
            &&& pairs_view(f.params@) == tpl_params(
                segs_view(router.entries@[k].segs@),
                pv.drop_first(),
            )
            &&& forall|j: int|
                0 <= j < router.entries@.len() && entry_is_match(
                    #[trigger] router.entries@[j],
                    method,
                    pv,
                ) ==> !lex_less(
                    kinds(segs_view(router.entries@[j].segs@)),
                    kinds(segs_view(router.entries@[k].segs@)),
                )
        };
    assert(k == i);
}

/// A route serving files under a directory: a GET route whose template
/// takes the whole remainder of the path as the file's relative name.
pub fn static_file(path: &str, handler: u64) -> (r: Route)
    ensures
        r.method@ == "GET"@,
        r.handler == handler,
        r.path@ == seq!['/'] + path@ + "/{*path}"@,
{
    let mut p = "/".to_owned();
    p.append(path);
    p.append("/{*path}");
    proof {
        reveal_strlit("/");
        assert("/"@ =~= seq!['/']);
    }
    Route { method: "GET".to_owned(), path: p, handler }
}

/// Joining a base path and a route path collapses every run of slashes:
/// the segments of the joined path are exactly the base path's segments
/// followed by the route path's segments, so a repeated or trailing slash
/// in either part leaves no empty segment behind, and joining an already
/// canonical path changes nothing.
pub proof fn lemma_full_path_segments(base: String, path: Seq<char>)
    ensures
        segments_spec(full_path_of(Some(base), path)) == segments_spec(base@) + segments_spec(
            path,
        ),
{
    lemma_segments_good(base@);
    lemma_segments_good(path);
    let pieces = segments_spec(base@) + segments_spec(path);
    assert forall|i: int|
        0 <= i < pieces.len() implies (#[trigger] pieces[i]).len() > 0 && crate::strutil::no_sep(
        pieces[i],
        '/',
    ) by {
        if i < segments_spec(base@).len() {
            assert(pieces[i] == segments_spec(base@)[i]);
        } else {
            assert(pieces[i] == segments_spec(path)[i - segments_spec(base@).len()]);
        }
    }
    lemma_canonical_segments(pieces);
}

/// The pieces of a request path, split on `/` exactly as they stand:
/// the query component goes, but nothing is collapsed — a doubled or
/// trailing slash leaves an empty piece behind.
pub open spec fn request_pieces(uri: Seq<char>) -> Seq<Seq<char>> {
    split_spec(strip_query(uri), '/')
}

/// Whether a template matches the exact pieces of a request path: the
/// path must begin with a slash (an empty leading piece), and what
/// follows it must match the template piece for piece. The empty
/// template — a registered root path — matches exactly the one-slash
/// path.
pub open spec fn path_matches(tpl: Seq<GSeg>, pieces: Seq<Seq<char>>) -> bool {
    &&& pieces.len() >= 1
    &&& pieces[0].len() == 0
    &&& if tpl.len() == 0 {
        pieces.len() == 2 && pieces[1].len() == 0
    } else {
        tpl_matches(tpl, pieces.drop_first())
    }
}

/// Whether the entry serves `method` and its template matches the exact
/// pieces of the request path.
pub open spec fn entry_is_match(e: RouteEntry, method: Seq<char>, pv: Seq<Seq<char>>) -> bool {
    e.route.method@ == method && path_matches(segs_view(e.segs@), pv)
}

/// Whether no route registered with the router matches.
pub open spec fn no_match(router: Router, method: Seq<char>, pv: Seq<Seq<char>>) -> bool {
    forall|i: int|
        0 <= i < router.entries@.len() ==> !entry_is_match(
            #[trigger] router.entries@[i],
            method,
            pv,
        )
}

/// What a successful lookup returns: some registered route that matches,
/// over which no other match takes precedence, with the parameters its
/// template captures.
pub open spec fn found_in(
    router: Router,
    method: Seq<char>,
    pv: Seq<Seq<char>>,
    f: FoundRoute,
) -> bool {
    exists|i: int|
        {
            &&& 0 <= i < router.entries@.len()
            &&& entry_is_match(#[trigger] router.entries@[i], method, pv)
            &&& f.route == router.entries@[i].route
            &&& pairs_view(f.params@) == tpl_params(
                segs_view(router.entries@[i].segs@),
                pv.drop_first(),
            )
            &&& forall|j: int|
                0 <= j < router.entries@.len() && entry_is_match(
                    #[trigger] router.entries@[j],
                    method,
                    pv,
                ) ==> !lex_less(
                    kinds(segs_view(router.entries@[j].segs@)),
                    kinds(segs_view(router.entries@[i].segs@)),
                )
        }
}

/// A collection of routes under a shared base path and middleware list,
/// possibly with nested sub-routers.
pub struct Router {
    pub base_path: Option<String>,
    pub entries: Vec<RouteEntry>,
    pub middlewares: Vec<Middleware>,
    pub services: Vec<Router>,
}

impl Router {
    /// Every registered entry's template belongs to its full path.
    pub open spec fn wf(&self) -> bool {
        forall|i: int| 0 <= i < self.entries@.len() ==> (#[trigger] self.entries@[i]).wf()
    }

    /// A router with no routes and no middleware, under the given base
    /// path.
    pub fn new(base_path: Option<String>) -> (r: Router)
        ensures
            r.base_path == base_path,
            r.entries@.len() == 0,
            r.middlewares@.len() == 0,
            r.services@.len() == 0,
            r.wf(),
    {
        Router { base_path, entries: Vec::new(), middlewares: Vec::new(), services: Vec::new() }
    }

    /// Nests a sub-router as a service.
    pub fn service(&mut self, service: Router)
        ensures
            final (self).services@ == old(self).services@.push(service),
            final (self).base_path == old(self).base_path,
            final (self).entries == old(self).entries,
            final (self).middlewares == old(self).middlewares,
    {
        self.services.push(service);
    }

    /// Appends a middleware; middlewares run in registration order.
    pub fn middleware(&mut self, handler: u64)
        ensures
            final (self).middlewares@ == old(self).middlewares@.push(Middleware { handler }),
            final (self).entries == old(self).entries,
            final (self).base_path == old(self).base_path,
            final (self).services == old(self).services,
    {
        self.middlewares.push(Middleware::new(handler));
    }

    fn joined_path(&self, route: &Route) -> (r: (String, Vec<String>))
        ensures
            r.0@ == full_path_of(self.base_path, route.path@),
            views_of(r.1@) == segments_spec(r.0@),
    {
        match &self.base_path {
            Some(bp) => {
                let mut ss = path_segments(bp.as_str());
                let ps = path_segments(route.path.as_str());
                let np = ps.len();
                let mut k: usize = 0;
                proof {
                    assert(views_of(ss@) + views_of(ps@).take(0) =~= views_of(ss@));
                }
                while k < np
                    invariant
                        k <= np,
                        np == ps@.len(),
                        views_of(ps@) == segments_spec(route.path@),
                        views_of(ss@) =~= segments_spec(bp@) + views_of(ps@).take(k as int),
                    decreases np - k,
                {
                    ss.push(ps[k].clone());
                    proof {
                        assert(views_of(ss@) =~= views_of(ss@.drop_last()) + seq![
                            ps@[k as int]@,
                        ]);
                        assert(segments_spec(bp@) + views_of(ps@).take(k + 1) =~= (segments_spec(
                            bp@,
                        ) + views_of(ps@).take(k as int)) + seq![ps@[k as int]@]);
                    }
                    k = k + 1;
                }
                proof {
                    assert(views_of(ps@).take(np as int) =~= views_of(ps@));
                }
                let joined = join_str(&ss, "/");
                let mut f = "/".to_owned();
                f.append(joined.as_str());
                proof {
                    reveal_strlit("/");
                    assert("/"@ =~= seq!['/']);
                    lemma_segments_good(bp@);
                    lemma_segments_good(route.path@);
                    assert forall|i: int| 0 <= i < views_of(ss@).len() implies (#[trigger] views_of(
                        ss@,
                    )[i]).len() > 0 && crate::strutil::no_sep(views_of(ss@)[i], '/') by {
                        if i < segments_spec(bp@).len() {
                            assert(views_of(ss@)[i] == segments_spec(bp@)[i]);
                        } else {
                            assert(views_of(ss@)[i] == segments_spec(route.path@)[i
                                - segments_spec(bp@).len()]);
                        }
                    }
                    lemma_canonical_segments(views_of(ss@));
                }
                (f, ss)
            },
            None => {
                let f = route.path.clone();
                let ss = path_segments(route.path.as_str());
                (f, ss)
            },
        }
    }

    /// Registers a route under the joined full path. Fails with
    /// `Conflict` exactly when a route of the same method already claims a
    /// template of the same shape, and with `BadTemplate` exactly when the
    /// template has a wildcard that is not last.
    #[verifier::loop_isolation(false)]
    pub fn route(&mut self, route: &Route) -> (r: Result<(), RouteError>)
        ensures
            ({
                let t = template_spec(full_path_of(old(self).base_path, route.path@));
                &&& (r == Ok::<(), RouteError>(()) <==> tpl_wf(t) && !has_conflict(
                    old(self).entries@,
                    route.method@,
                    t,
                ))
                &&& (r == Err::<(), RouteError>(RouteError::BadTemplate) <==> !tpl_wf(t))
                &&& (r == Err::<(), RouteError>(RouteError::Conflict) <==> tpl_wf(t)
                    && has_conflict(old(self).entries@, route.method@, t))
            }),
            r is Ok ==> {
                &&& final (self).entries@.len() == old(self).entries@.len() + 1
                &&& final (self).entries@.take(old(self).entries@.len() as int) == old(
                    self,
                ).entries@
                &&& entry_for(final (self).entries@.last(), old(self).base_path, *route)
            },
            r is Err ==> final (self).entries == old(self).entries,
            final (self).base_path == old(self).base_path,
            final (self).middlewares == old(self).middlewares,
            final (self).services == old(self).services,
            old(self).wf() ==> final (self).wf(),
    {
        let (full_path, seg_strs) = self.joined_path(route);
        let segs = parse_template(&seg_strs);
        let ghost t = segs_view(segs@);
        proof {
            assert(t == template_spec(full_path_of(old(self).base_path, route.path@)));
        }
        let n = segs.len();
        let mut i: usize = 0;
        while n > 0 && i < n - 1
            invariant
                i <= n,
                n == segs@.len(),
                t == segs_view(segs@),
                forall|j: int| 0 <= j < i ==> !((#[trigger] t[j]) is Wild),
            decreases n - i,
        {
            let bad = match &segs[i] {
                TplSeg::Wild(_) => true,
                _ => false,
            };
            if bad {
                proof {
                    assert(t[i as int] is Wild);
                    assert(!tpl_wf(t));
                }
                return Err(RouteError::BadTemplate);
            }
            i = i + 1;
        }
        assert(tpl_wf(t));
        let ne = self.entries.len();
        let mut j: usize = 0;
        while j < ne
            invariant
                j <= ne,
                ne == self.entries@.len(),
                t == segs_view(segs@),
                forall|k: int|
                    0 <= k < j ==> !((#[trigger] self.entries@[k]).route.method@ == route.method@
                        && same_shape(segs_view(self.entries@[k].segs@), t)),
        decreases ne - j,
        {
            if str_eq(self.entries[j].route.method.as_str(), route.method.as_str())
                && same_shape_exec(&self.entries[j].segs, &segs) {
                proof {
                    assert(has_conflict(self.entries@, route.method@, t));
                }
                return Err(RouteError::Conflict);
            }
            j = j + 1;
        }
        let entry = RouteEntry { route: route.dup(), full_path, segs };
        self.entries.push(entry);
        proof {
            assert(final (self).entries@.take(old(self).entries@.len() as int) =~= old(
                self,
            ).entries@);
        }
        Ok(())
    }

    /// Looks up the route serving `method` on the path of `uri`, ignoring
    /// any query component but nothing else: the path's pieces between
    /// slashes must match a registered template exactly as they stand, so
    /// a doubled or trailing slash is not the registered path. Of the
    /// matching routes, returns one over which no other match takes
    /// precedence, together with its captured parameters; returns nothing
    /// exactly when no registered route matches.
    #[verifier::loop_isolation(false)]
    pub fn find(&self, method: &str, uri: &str) -> (r: Option<FoundRoute>)
        ensures
            ({
                let pv = request_pieces(uri@);
                match r {
                    None => no_match(*self, method@, pv),
                    Some(f) => found_in(*self, method@, pv, f),
                }
            }),
    {
        let path = strip_query_str(uri);
        let mut pieces = split_str(path.as_str(), '/');
        let ghost pv = views_of(pieces@);
        proof {
            crate::strutil::lemma_split_len_pos(path@, '/');
            assert(pv == request_pieces(uri@));
        }
        if !pieces[0].as_str().is_empty() {
            proof {
                assert(pv[0].len() != 0);
            }
            return None;
        }
        let _lead = pieces.remove(0);
        let ghost rest = pv.drop_first();
        proof {
            assert(views_of(pieces@) =~= rest);
        }
        let n = self.entries.len();
        let mut found = false;
        let mut best_i: usize = 0;
        let mut best_params: Vec<(String, String)> = Vec::new();
        let mut i: usize = 0;
        while i < n
            invariant
                i <= n,
                !found ==> forall|j: int|
                    0 <= j < i ==> !entry_is_match(#[trigger] self.entries@[j], method@, pv),
                found ==> {
                    &&& best_i < i
                    &&& entry_is_match(self.entries@[best_i as int], method@, pv)
                    &&& pairs_view(best_params@) == tpl_params(
                        segs_view(self.entries@[best_i as int].segs@),
                        rest,
                    )
                    &&& forall|j: int|
                        0 <= j < i && entry_is_match(#[trigger] self.entries@[j], method@, pv)
                            ==> !lex_less(
                            kinds(segs_view(self.entries@[j].segs@)),
                            kinds(segs_view(self.entries@[best_i as int].segs@)),
                        )
                },
            decreases n - i,
        {
            if str_eq(self.entries[i].route.method.as_str(), method) {
                let m: Option<Vec<(String, String)>> = if self.entries[i].segs.len() == 0 {
                    if pieces.len() == 1 && pieces[0].as_str().is_empty() {
                        proof {
                            assert(pv[1] == rest[0]);
                            assert(path_matches(segs_view(self.entries@[i as int].segs@), pv));
                            assert(pairs_view(Seq::<(String, String)>::empty()) =~= tpl_params(
                                segs_view(self.entries@[i as int].segs@),
                                rest,
                            ));
                        }
                        Some(Vec::new())
                    } else {
                        proof {
                            if pv.len() == 2 {
                                assert(pv[1] == rest[0]);
                            }
                            assert(!path_matches(segs_view(self.entries@[i as int].segs@), pv));
                        }
                        None
                    }
                } else {
                    match_segs(&self.entries[i].segs, &pieces)
                };
                match m {
                    Some(ps) => {
                        if !found || tpl_lex_less(&self.entries[i].segs, &self.entries[best_i].segs)
                        {
                            proof {
                                lemma_lex_less_irrefl(
                                    kinds(segs_view(self.entries@[i as int].segs@)),
                                );
                                if found {
                                    let kb = kinds(segs_view(self.entries@[best_i as int].segs@));
                                    let kn = kinds(segs_view(self.entries@[i as int].segs@));
                                    assert forall|j: int|
                                        0 <= j < i && entry_is_match(
                                            #[trigger] self.entries@[j],
                                            method@,
                                            pv,
                                        ) implies !lex_less(
                                        kinds(segs_view(self.entries@[j].segs@)),
                                        kn,
                                    ) by {
                                        let kj = kinds(segs_view(self.entries@[j].segs@));
                                        if lex_less(kj, kn) {
                                            lemma_lex_less_trans(kj, kn, kb);
                                        }
                                    }
                                }
                            }
                            found = true;
                            best_i = i;
                            best_params = ps;
                        }
                    },
                    None => {
                        proof {
                            assert(!entry_is_match(self.entries@[i as int], method@, pv));
                        }
                    },
                }
            }
            i = i + 1;
        }
        if found {
            let f = FoundRoute {
                route: self.entries[best_i].route.dup(),
                params: best_params,
            };
            proof {
                let bi = best_i as int;
                assert(0 <= bi < self.entries@.len() && entry_is_match(
                    #[trigger] self.entries@[bi],
                    method@,
                    pv,
                ) && f.route == self.entries@[bi].route && pairs_view(f.params@) == tpl_params(
                    segs_view(self.entries@[bi].segs@),
                    pv.drop_first(),
                ) && (forall|j: int|
                    0 <= j < self.entries@.len() && entry_is_match(
                        #[trigger] self.entries@[j],
                        method@,
                        pv,
                    ) ==> !lex_less(
                        kinds(segs_view(self.entries@[j].segs@)),
                        kinds(segs_view(self.entries@[bi].segs@)),
                    )));
            }
            Some(f)
        } else {
            None
        }
    }

    /// Registers each of the routes in order, stopping at the first
    /// failure; the routes registered before the failure stay.
    /// Succeeds exactly when every route, taken in order, has a
    /// well-formed template and no conflict against what then stands
    /// registered.
    #[verifier::loop_isolation(false)]
    pub fn routes(&mut self, routes: &Vec<Route>) -> (r: Result<(), RouteError>)
        ensures
            final (self).base_path == old(self).base_path,
            final (self).middlewares == old(self).middlewares,
            final (self).services == old(self).services,
            old(self).wf() ==> final (self).wf(),
            ({
                let acc = routes_accepted(
                    old(self).base_path,
                    tpl_table(old(self).entries@),
                    routes@,
                );
                &&& (r is Ok <==> acc == routes@.len())
                &&& final (self).entries@.len() == old(self).entries@.len() + acc
                &&& final (self).entries@.take(old(self).entries@.len() as int) == old(
                    self,
                ).entries@
                &&& forall|k: int|
                    0 <= k < acc ==> entry_for(
                        #[trigger] final (self).entries@[old(self).entries@.len() + k],
                        old(self).base_path,
                        routes@[k],
                    )
                &&& (r matches Err(e) ==> acc < routes@.len() && e == (if !tpl_wf(
                    template_spec(full_path_of(old(self).base_path, routes@[acc].path@)),
                ) {
                    RouteError::BadTemplate
                } else {
                    RouteError::Conflict
                }))
            }),
    {
        let ghost base = old(self).entries@.len() as int;
        let ghost bp = old(self).base_path;
        let ghost table0 = tpl_table(old(self).entries@);
        let ghost acc = routes_accepted(bp, table0, routes@);
        let n = routes.len();
        let mut i: usize = 0;
        proof {
            assert(self.entries@.take(base) =~= old(self).entries@);
            assert(routes@.skip(0) =~= routes@);
        }
        while i < n
            invariant
                i <= n,
                n == routes@.len(),
                self.base_path == old(self).base_path,
                self.middlewares == old(self).middlewares,
                self.services == old(self).services,
                old(self).wf() ==> self.wf(),
                base == old(self).entries@.len(),
                self.entries@.len() == base + i,
                self.entries@.take(base) == old(self).entries@,
                forall|k: int|
                    0 <= k < i ==> entry_for(
                        #[trigger] self.entries@[base + k],
                        old(self).base_path,
                        routes@[k],
                    ),
                acc == i + routes_accepted(bp, tpl_table(self.entries@), routes@.skip(i as int)),
            decreases n - i,
        {
            let ghost pre = self.entries@;
            let ghost suf = routes@.skip(i as int);
            let ghost t_i = template_spec(full_path_of(bp, routes@[i as int].path@));
            proof {
                assert(suf[0] == routes@[i as int]);
                assert(suf.drop_first() =~= routes@.skip(i + 1));
                lemma_table_conflict(pre, routes@[i as int].method@, t_i);
            }
            let res = self.route(&routes[i]);
            if let Err(e) = res {
                proof {
                    assert(self.entries@.take(base) =~= old(self).entries@);
                    assert(routes_accepted(bp, tpl_table(pre), suf) == 0);
                    assert(acc == i);
                }
                return Err(e);
            }
            proof {
                assert(self.entries@.take(self.entries@.len() - 1) == pre);
                assert(self.entries@.take(base) =~= pre.take(base));
                assert(forall|k: int|
                    0 <= k < i ==> #[trigger] self.entries@[base + k] == pre[base + k]);
                let entry = self.entries@.last();
                assert(entry.route == routes@[i as int]);
                assert(segs_view(entry.segs@) == t_i);
                assert(tpl_table(self.entries@) =~= tpl_table(pre).push(
                    (routes@[i as int].method@, t_i),
                ));
                assert(routes_accepted(bp, tpl_table(pre), suf) == 1 + routes_accepted(
                    bp,
                    tpl_table(self.entries@),
                    routes@.skip(i + 1),
                ));
            }
            i = i + 1;
        }
        proof {
            assert(routes@.skip(n as int).len() == 0);
            assert(acc == n);
        }
        Ok(())
    }
}

} // verus!
