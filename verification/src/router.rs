//! Path templates and the patterns compiled from them.

pub use crate::registry::{register_route, Route, RouteRegistry};

use crate::engine::{
    captured_groups, group_text, regex_compiles, regex_groups, regex_matches, regex_source,
};
use crate::http::{Method, PathParams};
use crate::text::{from_chars, join, push_chars, split, split_chars, texts, to_chars, views};
use regex::{Captures, Regex};
use vstd::prelude::*;

verus! {

/// Whether a segment of a template stands for a parameter: whether it starts
/// with `{` and ends with `}`.
pub open spec fn is_param(segment: Seq<char>) -> bool {
    segment.len() > 0 && segment.first() == '{' && segment.last() == '}'
}

/// The name of the parameter that a segment stands for: the text between its
/// braces.
pub open spec fn param_name(segment: Seq<char>) -> Seq<char> {
    segment.subrange(1, segment.len() - 1)
}

/// What a segment of a template becomes in the matcher: a named group of one
/// or more word characters or hyphens for a parameter, and the segment itself,
/// as it stands, for any other.
pub open spec fn fragment(segment: Seq<char>) -> Seq<char> {
    if is_param(segment) {
        "(?P<"@ + param_name(segment) + ">[\\w-]+)"@
    } else {
        segment
    }
}

/// The names of the parameters among the segments, from left to right.
pub open spec fn segment_names(segments: Seq<Seq<char>>) -> Seq<Seq<char>>
    decreases segments.len(),
{
    if segments.len() == 0 {
        Seq::empty()
    } else if is_param(segments.last()) {
        segment_names(segments.drop_last()).push(param_name(segments.last()))
    } else {
        segment_names(segments.drop_last())
    }
}

/// The regular expression for a template: the fragments of its segments with
/// `/` between them, anchored at both ends.
pub open spec fn matcher_source(template: Seq<char>) -> Seq<char> {
    "^"@ + join(split(template, '/').map_values(|s: Seq<char>| fragment(s)), "/"@) + "$"@
}

/// The names of the parameters of a template, from left to right.
pub open spec fn template_names(template: Seq<char>) -> Seq<Seq<char>> {
    segment_names(split(template, '/'))
}

/// The groups among `found` that `names` asks for.
pub open spec fn bound(names: Seq<Seq<char>>, found: Map<Seq<char>, Seq<char>>) -> Map<
    Seq<char>,
    Seq<char>,
> {
    Map::new(|n: Seq<char>| names.contains(n) && found.contains_key(n), |n: Seq<char>| found[n])
}

/// Asking for one more name adds the group of that name, where it was found.
pub proof fn lemma_bound_push(
    names: Seq<Seq<char>>,
    name: Seq<char>,
    found: Map<Seq<char>, Seq<char>>,
)
    ensures
        bound(names.push(name), found) == if found.contains_key(name) {
            bound(names, found).insert(name, found[name])
        } else {
            bound(names, found)
        },
{
    let more = names.push(name);
    assert forall|n: Seq<char>| more.contains(n) <==> (names.contains(n) || n == name) by {
        if names.contains(n) {
            let k = choose|k: int| 0 <= k < names.len() && names[k] == n;
            assert(more[k] == n);
        }
        if n == name {
            assert(more[names.len() as int] == n);
        }
        if more.contains(n) {
            let k = choose|k: int| 0 <= k < more.len() && more[k] == n;
            if k < names.len() {
                assert(names[k] == n);
            }
        }
    }
    if found.contains_key(name) {
        assert(bound(more, found) =~= bound(names, found).insert(name, found[name]));
    } else {
        assert(bound(more, found) =~= bound(names, found));
    }
}

/// Where no name occurs twice and a group was found for each name, the
/// parameters are exactly the names, each bound to the text of its group.
pub proof fn lemma_bound_complete(names: Seq<Seq<char>>, found: Map<Seq<char>, Seq<char>>)
    requires
        names.no_duplicates(),
        forall|i: int| 0 <= i < names.len() ==> found.contains_key(#[trigger] names[i]),
    ensures
        bound(names, found).dom() == names.to_set(),
        bound(names, found).len() == names.len(),
        forall|i: int|
            0 <= i < names.len() ==> bound(names, found)[#[trigger] names[i]] == found[names[i]],
{
    assert(bound(names, found).dom() =~= names.to_set());
    names.unique_seq_to_set();
}

/// A compiled route pattern, seen as plain values.
pub ghost struct PatternModel {
    pub template: Seq<char>,
    pub regex: Regex,
    pub names: Seq<Seq<char>>,
    pub method: Method,
}

impl PatternModel {
    /// Whether the matcher accepts the path, whatever the method.
    pub open spec fn path_matches(self, path: Seq<char>) -> bool {
        regex_matches(self.regex, path)
    }

    /// Whether the pattern accepts a request for `path` with `method`.
    pub open spec fn accepts(self, method: Method, path: Seq<char>) -> bool {
        self.method == method && regex_matches(self.regex, path)
    }

    /// The parameters that the pattern takes from a path that it matches.
    pub open spec fn params(self, path: Seq<char>) -> Map<Seq<char>, Seq<char>> {
        bound(self.names, regex_groups(self.regex, path))
    }

    /// Whether matcher and names are those of the template.
    pub open spec fn wf(self) -> bool {
        &&& regex_source(self.regex) == matcher_source(self.template)
        &&& self.names == template_names(self.template)
    }
}

/// A path template compiled into a matcher, bound to one method.
pub struct RoutePattern {
    pub pattern: String,
    pub regex: Regex,
    pub param_names: Vec<String>,
    pub method: Method,
}

impl View for RoutePattern {
    type V = PatternModel;

    open spec fn view(&self) -> PatternModel {
        PatternModel {
            template: self.pattern@,
            regex: self.regex,
            names: texts(self.param_names@),
            method: self.method,
        }
    }
}

/// The matcher and the parameter names of a template.
pub fn compile_template(template: &str) -> (r: (String, Vec<String>))
    ensures
        r.0@ == matcher_source(template@),
        texts(r.1@) == template_names(template@),
{
    let chars = to_chars(template);
    let segments = split_chars(&chars, '/');
    let mut names: Vec<String> = Vec::new();
    let mut out = String::new();
    out.append("^");
    let ghost fragments = views(segments@).map_values(|s: Seq<char>| fragment(s));
    let mut i: usize = 0;
    while i < segments.len()
        invariant
            i <= segments.len(),
            fragments == views(segments@).map_values(|s: Seq<char>| fragment(s)),
            out@ == "^"@ + join(fragments.take(i as int), "/"@),
            texts(names@) == segment_names(views(segments@).take(i as int)),
        decreases segments.len() - i,
    {
        let segment = &segments[i];
        let n = segment.len();
        let ghost done = views(segments@).take(i + 1);
        proof {
            assert(done.drop_last() == views(segments@).take(i as int));
            assert(done.last() == segment@);
            assert(fragments.take(i + 1).drop_last() == fragments.take(i as int));
            assert(fragments.take(i + 1).last() == fragment(segment@));
        }
        if i > 0 {
            out.append("/");
        }
        if n > 0 && segment[0] == '{' && segment[n - 1] == '}' {
            let mut inner: Vec<char> = Vec::new();
            let mut j: usize = 1;
            while j < n - 1
                invariant
                    1 <= j <= n - 1,
                    n == segment.len(),
                    inner@ == segment@.subrange(1, j as int),
                decreases n - j,
            {
                inner.push(segment[j]);
                j += 1;
            }
            out.append("(?P<");
            push_chars(&mut out, &inner);
            out.append(">[\\w-]+)");
            let ghost before = names@;
            names.push(from_chars(&inner));
            assert(texts(names@) =~= texts(before).push(inner@));
        } else {
            push_chars(&mut out, segment);
        }
        assert(out@ =~= "^"@ + join(fragments.take(i + 1), "/"@));
        i += 1;
    }
    assert(fragments.take(segments.len() as int) == fragments);
    assert(views(segments@).take(segments.len() as int) == views(segments@));
    out.append("$");
    (out, names)
}

impl RoutePattern {
    /// Compiles a template whose matcher the engine accepts, and binds it to
    /// the method that the token names.
    pub fn new(pattern: &str, method: &str) -> (p: RoutePattern)
        requires
            regex_compiles(matcher_source(pattern@)),
        ensures
            p@.wf(),
            p@.template == pattern@,
            p@.method == Method::of_token(method@),
    {
        let (source, names) = compile_template(pattern);
        let compiled = Regex::new(source.as_str());
        let regex = match compiled {
            Ok(regex) => regex,
            Err(_) => vstd::pervasive::unreached(),
        };
        RoutePattern {
            pattern: pattern.to_owned(),
            regex,
            param_names: names,
            method: Method::from(method),
        }
    }

    /// Compiles a template and binds it to the method that the token names, or
    /// hands back the engine's error where it does not accept the matcher.
    /// The matcher is compiled twice where the engine accepts it: once to ask
    /// the engine, and once by `new`.
    pub fn try_new(pattern: &str, method: &str) -> (r: Result<RoutePattern, regex::Error>)
        ensures
            r is Ok == regex_compiles(matcher_source(pattern@)),
            r is Ok ==> r->Ok_0@.wf() && r->Ok_0@.template == pattern@ && r->Ok_0@.method
                == Method::of_token(method@),
    {
        let (source, _) = compile_template(pattern);
        match Regex::new(source.as_str()) {
            Ok(_) => Ok(RoutePattern::new(pattern, method)),
            Err(e) => Err(e),
        }
    }

    /// The text of the matcher that the pattern was compiled to.
    pub fn matcher(&self) -> (s: &str)
        ensures
            s@ == regex_source(self.regex),
    {
        self.regex.as_str()
    }

    /// Matches a request against the pattern. The result is `None` where the
    /// method differs or the matcher rejects the path, and else the
    /// parameters that the matcher took from the path.
    pub fn matches(&self, path: &str, method: &Method) -> (r: Option<PathParams>)
        ensures
            r is Some == self@.accepts(*method, path@),
            r is Some ==> r->Some_0@ == self@.params(path@),
    {
        if self.method != *method {
            return None;
        }
        match self.regex.captures(path) {
            None => None,
            Some(caps) => Some(bind_params(&self.param_names, &caps)),
        }
    }
}

/// The parameters for `names` out of the groups of a match: each name that
/// names a group of the match, bound to the text that the group captured.
pub fn bind_params(names: &Vec<String>, caps: &Captures) -> (params: PathParams)
    ensures
        params@ == bound(texts(names@), captured_groups(*caps)),
{
    let mut params = PathParams::new();
    let ghost found = captured_groups(*caps);
    let ghost all = texts(names@);
    let mut i: usize = 0;
    assert(params@ =~= bound(all.take(0), found));
    while i < names.len()
        invariant
            i <= names.len(),
            found == captured_groups(*caps),
            all == texts(names@),
            params@ == bound(all.take(i as int), found),
        decreases names.len() - i,
    {
        let name = &names[i];
        proof {
            assert(all.take(i + 1) == all.take(i as int).push(name@));
            lemma_bound_push(all.take(i as int), name@, found);
        }
        match group_text(caps, name.as_str()) {
            Some(value) => {
                params.insert(name.clone(), value);
            },
            None => {},
        }
        i += 1;
    }
    assert(all.take(names.len() as int) == all);
    params
}

impl Clone for RoutePattern {
    fn clone(&self) -> (p: RoutePattern)
        ensures
            p@ == self@,
    {
        let mut names: Vec<String> = Vec::new();
        let mut i: usize = 0;
        while i < self.param_names.len()
            invariant
                i <= self.param_names.len(),
                names@ == self.param_names@.take(i as int),
            decreases self.param_names.len() - i,
        {
            names.push(self.param_names[i].clone());
            i += 1;
        }
        assert(self.param_names@.take(self.param_names.len() as int) == self.param_names@);
        RoutePattern {
            pattern: self.pattern.clone(),
            regex: self.regex.clone(),
            param_names: names,
            method: self.method,
        }
    }
}

} // verus!
