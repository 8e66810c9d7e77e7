use vstd::prelude::*;
use vstd::string::*;
use crate::http::{Method, RequestHead};

verus! {

/// One segment of a path template: a literal that must be equal to the
/// request's segment, or a named capture that takes any non-empty segment.
pub enum PathSegment {
    Literal(String),
    Capture(String),
}

/// Splits `s` on every `sep`: the result always has one more element than
/// `s` has separators.
pub open spec fn split_on(s: Seq<char>, sep: char) -> Seq<Seq<char>>
    decreases s.len(),
{
    if s.len() == 0 {
        seq![Seq::<char>::empty()]
    } else {
        let init = split_on(s.drop_last(), sep);
        if s.last() == sep {
            init.push(Seq::<char>::empty())
        } else {
            init.update(init.len() - 1, init.last().push(s.last()))
        }
    }
}

/// The segments of a request path: one leading '/' is dropped, and what is
/// left is split on '/'; the root path has no segment at all.
pub open spec fn path_segments(p: Seq<char>) -> Seq<Seq<char>> {
    let q = if p.len() > 0 && p[0] == '/' { p.drop_first() } else { p };
    if q.len() == 0 {
        Seq::empty()
    } else {
        split_on(q, '/')
    }
}

pub open spec fn segment_matches(seg: PathSegment, s: Seq<char>) -> bool {
    match seg {
        PathSegment::Literal(l) => l@ == s,
        PathSegment::Capture(_) => s.len() > 0,
    }
}

/// Segment-by-segment agreement of a template with request segments of the same count.
pub open spec fn segments_match(pat: Seq<PathSegment>, segs: Seq<Seq<char>>) -> bool {
    &&& pat.len() == segs.len()
    &&& forall|i: int| 0 <= i < pat.len() ==> #[trigger] segment_matches(pat[i], segs[i])
}

/// The (name, value) pairs that the first `n` segments of a template capture,
/// in template order.
pub open spec fn captures_upto(pat: Seq<PathSegment>, segs: Seq<Seq<char>>, n: nat) -> Seq<
    (Seq<char>, Seq<char>),
>
    decreases n,
{
    if n == 0 {
        Seq::empty()
    } else {
        let prev = captures_upto(pat, segs, (n - 1) as nat);
        match pat[n - 1] {
            PathSegment::Capture(name) => prev.push((name@, segs[n - 1])),
            PathSegment::Literal(_) => prev,
        }
    }
}

pub open spec fn captures(pat: Seq<PathSegment>, segs: Seq<Seq<char>>) -> Seq<
    (Seq<char>, Seq<char>),
> {
    captures_upto(pat, segs, pat.len())
}

/// The value bound to `name` in a list of captures: the first one so named.
pub open spec fn lookup(entries: Seq<(Seq<char>, Seq<char>)>, name: Seq<char>) -> Option<
    Seq<char>,
>
    decreases entries.len(),
{
    if entries.len() == 0 {
        None
    } else if entries[0].0 == name {
        Some(entries[0].1)
    } else {
        lookup(entries.drop_first(), name)
    }
}

/// The named captures of a successful match.
pub struct PathMatch {
    pub entries: Vec<(String, String)>,
}

impl View for PathMatch {
    type V = Seq<(Seq<char>, Seq<char>)>;

    open spec fn view(&self) -> Seq<(Seq<char>, Seq<char>)> {
        self.entries@.map_values(|e: (String, String)| (e.0@, e.1@))
    }
}

impl PathMatch {
    pub fn len(&self) -> (r: usize)
        ensures
            r == self@.len(),
    {
        self.entries.len()
    }

    /// The value captured under `name`.
    pub fn get(&self, name: &str) -> (r: Option<String>)
        ensures
            r matches Some(v) ==> lookup(self@, name@) == Some(v@),
            r is None ==> lookup(self@, name@) is None,
    {
        let key = String::from_str(name);
        let mut i: usize = 0;
        assert(self@.skip(0) =~= self@);
        while i < self.entries.len()
            invariant
                i <= self.entries@.len(),
                key@ == name@,
                lookup(self@, name@) == lookup(self@.skip(i as int), name@),
            decreases self.entries@.len() - i,
        {
            let ghost rest = self@.skip(i as int);
            assert(rest.drop_first() =~= self@.skip(i + 1));
            assert(rest[0] == (self.entries@[i as int].0@, self.entries@[i as int].1@));
            if self.entries[i].0 == key {
                return Some(self.entries[i].1.clone());
            }
            i = i + 1;
        }
        assert(self@.skip(i as int).len() == 0);
        None
    }
}

/// The pieces of `p` between the occurrences of `sep`.
pub fn split_on_char(p: &str, sep: char) -> (r: Vec<String>)
    ensures
        r@.map_values(|s: String| s@) == split_on(p@, sep),
{
    let n = p.unicode_len();
    let mut out: Vec<String> = Vec::new();
    let mut start: usize = 0;
    let mut i: usize = 0;
    proof {
        assert(p@.subrange(0, 0) =~= Seq::<char>::empty());
        assert(split_on(Seq::<char>::empty(), sep) == seq![Seq::<char>::empty()]);
        assert(out@.map_values(|s: String| s@) =~= Seq::<Seq<char>>::empty());
    }
    while i < n
        invariant
            n == p@.len(),
            start <= i <= n,
            split_on(p@.subrange(0, i as int), sep) =~= out@.map_values(|s: String| s@).push(
                p@.subrange(start as int, i as int),
            ),
        decreases n - i,
    {
        let c = p.get_char(i);
        let ghost pre = p@.subrange(0, i as int);
        let ghost nxt = p@.subrange(0, i + 1);
        assert(nxt.drop_last() =~= pre);
        if c == sep {
            let seg = p.substring_char(start, i);
            let ghost old_out = out@.map_values(|s: String| s@);
            out.push(String::from_str(seg));
            assert(out@.map_values(|s: String| s@) =~= old_out.push(p@.subrange(start as int, i as int)));
            assert(p@.subrange(i + 1, i + 1) =~= Seq::<char>::empty());
            start = i + 1;
        } else {
            assert(p@.subrange(start as int, i + 1) =~= p@.subrange(start as int, i as int).push(c));
        }
        i = i + 1;
    }
    let last = p.substring_char(start, n);
    out.push(String::from_str(last));
    assert(p@.subrange(0, n as int) =~= p@);
    assert(out@.map_values(|s: String| s@) =~= split_on(p@, sep));
    out
}

/// The path segments of `p`, as defined by `path_segments`.
pub fn split_path(p: &str) -> (r: Vec<String>)
    ensures
        r@.map_values(|s: String| s@) == path_segments(p@),
{
    let n = p.unicode_len();
    let start: usize = if n > 0 && p.get_char(0) == '/' { 1 } else { 0 };
    let q = p.substring_char(start, n);
    assert(q@ =~= (if p@.len() > 0 && p@[0] == '/' { p@.drop_first() } else { p@ }));
    if start == n {
        let out: Vec<String> = Vec::new();
        assert(out@.map_values(|s: String| s@) =~= path_segments(p@));
        return out;
    }
    split_on_char(q, '/')
}

} // verus!

verus! {

/// A route's method agrees with a request's: the route names no method, or
/// names the request's one.
pub open spec fn method_matches(want: Option<Method>, got: Option<Method>) -> bool {
    want is None || want == got
}

/// A method (or any method) and a path template.
pub struct Route {
    pub method: Option<Method>,
    pub segments: Vec<PathSegment>,
}

pub open spec fn route_matches(r: Route, req: RequestHead) -> bool {
    &&& method_matches(r.method, req.method)
    &&& segments_match(r.segments@, path_segments(req.path@))
}

pub open spec fn route_captures(r: Route, req: RequestHead) -> Seq<(Seq<char>, Seq<char>)> {
    captures(r.segments@, path_segments(req.path@))
}

impl Route {
    pub fn new(method: Option<Method>, segments: Vec<PathSegment>) -> (r: Route)
        ensures
            r.method == method,
            r.segments == segments,
    {
        Route { method, segments }
    }

    /// Matches `req` against this route: the method first, then the path
    /// segment by segment, with as many segments on both sides.
    pub fn matches(&self, req: &RequestHead) -> (r: Option<PathMatch>)
        ensures
            r is Some <==> route_matches(*self, *req),
            r matches Some(m) ==> m@ == route_captures(*self, *req),
    {
        let method_ok = match self.method {
            None => true,
            Some(m) => match req.method {
                Some(g) => m == g,
                None => false,
            },
        };
        if !method_ok {
            return None;
        }
        let segs = split_path(req.path.as_str());
        let ghost ss = path_segments(req.path@);
        assert(segs@.len() == ss.len());
        if segs.len() != self.segments.len() {
            return None;
        }
        let ghost pat = self.segments@;
        let mut entries: Vec<(String, String)> = Vec::new();
        let mut i: usize = 0;
        while i < segs.len()
            invariant
                segs@.map_values(|s: String| s@) == ss,
                ss == path_segments(req.path@),
                segs@.len() == pat.len(),
                pat == self.segments@,
                i <= segs@.len(),
                forall|k: int| 0 <= k < i ==> #[trigger] segment_matches(pat[k], ss[k]),
                entries@.map_values(|e: (String, String)| (e.0@, e.1@)) =~= captures_upto(
                    pat,
                    ss,
                    i as nat,
                ),
            decreases segs@.len() - i,
        {
            assert(ss[i as int] == segs@[i as int]@);
            match &self.segments[i] {
                PathSegment::Literal(l) => {
                    if *l != segs[i] {
                        assert(!segment_matches(pat[i as int], ss[i as int]));
                        return None;
                    }
                },
                PathSegment::Capture(name) => {
                    if segs[i].as_str().unicode_len() == 0 {
                        assert(!segment_matches(pat[i as int], ss[i as int]));
                        return None;
                    }
                    entries.push((name.clone(), segs[i].clone()));
                },
            }
            i = i + 1;
        }
        Some(PathMatch { entries })
    }
}

} // verus!
