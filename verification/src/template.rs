//! Template strings: an optional `proto://` prefix followed by static text,
//! `{variable}` lookups, and `$ENVIRONMENT` references.

use vstd::prelude::*;
use vstd::string::StrSliceExecFns;

use crate::environment::{EnvError, Environment};

verus! {

/// A single part of a template string.
#[derive(Debug, Clone, PartialEq, Eq)]
pub enum Part {
    /// Protocol part, written `proto://`.
    Protocol(String),
    /// Static text.
    Static(String),
    /// A variable to look up, written `{name}`.
    Variable(String),
    /// An environment variable, written `$NAME`.
    Environ(String),
}

/// The mathematical content of a template part.
pub enum PartModel {
    Protocol(Seq<char>),
    Static(Seq<char>),
    Variable(Seq<char>),
    Environ(Seq<char>),
}

impl View for Part {
    type V = PartModel;

    open spec fn view(&self) -> PartModel {
        match self {
            Part::Protocol(s) => PartModel::Protocol(s@),
            Part::Static(s) => PartModel::Static(s@),
            Part::Variable(s) => PartModel::Variable(s@),
            Part::Environ(s) => PartModel::Environ(s@),
        }
    }
}

impl DeepView for Part {
    type V = PartModel;

    open spec fn deep_view(&self) -> PartModel {
        self.view()
    }
}

/// Why a template cannot render as a relative path.
#[derive(Debug, Clone, PartialEq, Eq)]
pub enum RelativePathError {
    /// Relative paths do not support protocols.
    Protocol,
    /// An environment lookup failed.
    Environment(EnvError),
}

/// An error raised when a template string cannot be parsed.
#[derive(Debug, Clone, Copy, PartialEq, Eq, Structural)]
pub enum ParseError {
    /// The input ended where one more character was needed.
    MissingChar,
    /// A `{` was never closed by `}`.
    MissingClose,
}

/// Trait to access variables during rendering.
pub trait Vars {
    /// The value this source holds for a key, if any.
    spec fn get_spec(&self, k: Seq<char>) -> Option<Seq<char>>;

    /// Access a variable used for expansion.
    fn get(&self, k: &str) -> (r: Option<&str>)
        ensures
            match r {
                Some(v) => self.get_spec(k@) == Some(v@),
                None => self.get_spec(k@) is None,
            },
    ;
}

/// Whether a character opens a variable or environment reference.
pub open spec fn is_special(c: char) -> bool {
    c == '{' || c == '$'
}

/// Whether the character is uppercase.
pub uninterp spec fn upper_of(c: char) -> bool;

/// Relies on char::is_uppercase: whether the character is uppercase, a
/// function of the character alone.
#[verifier::external_body]
pub(crate) fn char_is_uppercase(c: char) -> (r: bool)
    ensures
        r == upper_of(c),
{
    c.is_uppercase()
}

/// Whether a character may continue an environment variable name.
pub open spec fn env_name_char(c: char) -> bool {
    upper_of(c) || c == '_'
}

/// The first index at or after `from` holding a special character.
pub open spec fn first_special(s: Seq<char>, from: int) -> Option<int>
    decreases s.len() - from,
    when from >= 0
{
    if from >= s.len() {
        None
    } else if is_special(s[from]) {
        Some(from)
    } else {
        first_special(s, from + 1)
    }
}

/// The first index at or after `from` holding a closing brace.
pub open spec fn first_close(s: Seq<char>, from: int) -> Option<int>
    decreases s.len() - from,
    when from >= 0
{
    if from >= s.len() {
        None
    } else if s[from] == '}' {
        Some(from)
    } else {
        first_close(s, from + 1)
    }
}

/// The first index at or after `from` that cannot continue an environment
/// variable name.
pub open spec fn first_nonenv(s: Seq<char>, from: int) -> Option<int>
    decreases s.len() - from,
    when from >= 0
{
    if from >= s.len() {
        None
    } else if !env_name_char(s[from]) {
        Some(from)
    } else {
        first_nonenv(s, from + 1)
    }
}

/// Characterization of `first_special`.
proof fn lemma_first_special_bounds(s: Seq<char>, from: int)
    requires
        from >= 0,
    ensures
        match first_special(s, from) {
            Some(j) => from <= j < s.len() && is_special(s[j]) && (forall|k: int|
                from <= k < j ==> !is_special(#[trigger] s[k])),
            None => forall|k: int| from <= k < s.len() ==> !is_special(#[trigger] s[k]),
        },
    decreases s.len() - from,
{
    if from < s.len() && !is_special(s[from]) {
        lemma_first_special_bounds(s, from + 1);
    }
}

/// Characterization of `first_close`.
proof fn lemma_first_close_bounds(s: Seq<char>, from: int)
    requires
        from >= 0,
    ensures
        match first_close(s, from) {
            Some(j) => from <= j < s.len() && s[j] == '}' && (forall|k: int|
                from <= k < j ==> #[trigger] s[k] != '}'),
            None => forall|k: int| from <= k < s.len() ==> #[trigger] s[k] != '}',
        },
    decreases s.len() - from,
{
    if from < s.len() && s[from] != '}' {
        lemma_first_close_bounds(s, from + 1);
    }
}

/// Characterization of `first_nonenv`.
proof fn lemma_first_nonenv_bounds(s: Seq<char>, from: int)
    requires
        from >= 0,
    ensures
        match first_nonenv(s, from) {
            Some(j) => from <= j < s.len() && !env_name_char(s[j]) && (forall|k: int|
                from <= k < j ==> env_name_char(#[trigger] s[k])),
            None => forall|k: int| from <= k < s.len() ==> env_name_char(#[trigger] s[k]),
        },
    decreases s.len() - from,
{
    if from < s.len() && env_name_char(s[from]) {
        lemma_first_nonenv_bounds(s, from + 1);
    }
}

/// The parts that parsing the body of a template yields, starting the next
/// static chunk at `start` and scanning for special characters from `scan`.
/// The two differ when the character just before `start` was consumed while
/// closing the previous part: that character is kept literally but never
/// treated as special.
pub open spec fn body_parts(s: Seq<char>, start: int, scan: int) -> Result<
    Seq<PartModel>,
    ParseError,
>
    decreases s.len() - scan,
    when 0 <= start <= scan <= s.len()
    via body_parts_decreases
{
    match first_special(s, scan) {
        None => Ok(
            if start < s.len() {
                seq![PartModel::Static(s.subrange(start, s.len() as int))]
            } else {
                Seq::empty()
            },
        ),
        Some(j) => {
            let stat: Seq<PartModel> = if j > start {
                seq![PartModel::Static(s.subrange(start, j))]
            } else {
                Seq::empty()
            };
            if s[j] == '{' {
                if j + 1 >= s.len() {
                    Err(ParseError::MissingChar)
                } else {
                    match first_close(s, j + 2) {
                        None => Err(ParseError::MissingClose),
                        Some(k) => if k + 1 >= s.len() {
                            Err(ParseError::MissingChar)
                        } else {
                            match body_parts(s, k + 1, k + 2) {
                                Ok(rest) => Ok(
                                    stat + seq![PartModel::Variable(s.subrange(j + 1, k))] + rest,
                                ),
                                Err(e) => Err(e),
                            }
                        },
                    }
                }
            } else {
                if j + 1 >= s.len() {
                    Err(ParseError::MissingChar)
                } else {
                    match first_nonenv(s, j + 2) {
                        None => Ok(
                            stat + seq![PartModel::Environ(s.subrange(j + 1, s.len() as int))],
                        ),
                        Some(m) => match body_parts(s, m, m + 1) {
                            Ok(rest) => Ok(
                                stat + seq![PartModel::Environ(s.subrange(j + 1, m))] + rest,
                            ),
                            Err(e) => Err(e),
                        },
                    }
                }
            }
        },
    }
}

#[via_fn]
proof fn body_parts_decreases(s: Seq<char>, start: int, scan: int) {
    lemma_first_special_bounds(s, scan);
    match first_special(s, scan) {
        Some(j) => {
            lemma_first_close_bounds(s, j + 2);
            lemma_first_nonenv_bounds(s, j + 2);
        },
        None => {},
    }
}

/// Whether index `i` starts a `://` protocol separator.
pub open spec fn proto_at(s: Seq<char>, i: int) -> bool {
    0 <= i && i + 3 <= s.len() && s[i] == ':' && s[i + 1] == '/' && s[i + 2] == '/'
}

/// The first index at or after `from` starting a `://` separator.
pub open spec fn find_proto(s: Seq<char>, from: int) -> Option<int>
    decreases s.len() - from,
    when from >= 0
{
    if from + 3 > s.len() {
        None
    } else if proto_at(s, from) {
        Some(from)
    } else {
        find_proto(s, from + 1)
    }
}

/// Characterization of `find_proto`.
proof fn lemma_find_proto_bounds(s: Seq<char>, from: int)
    requires
        from >= 0,
    ensures
        match find_proto(s, from) {
            Some(j) => from <= j && proto_at(s, j) && (forall|k: int|
                from <= k < j ==> !proto_at(s, k)),
            None => forall|k: int| from <= k ==> !proto_at(s, k),
        },
    decreases s.len() - from,
{
    if from + 3 <= s.len() && !proto_at(s, from) {
        lemma_find_proto_bounds(s, from + 1);
    }
}

/// The parts a whole template string parses to: an optional protocol taken
/// at the first `://`, then the body.
pub open spec fn template_model(s: Seq<char>) -> Result<Seq<PartModel>, ParseError> {
    match find_proto(s, 0) {
        Some(i) => match body_parts(s.subrange(i + 3, s.len() as int), 0, 0) {
            Ok(rest) => Ok(seq![PartModel::Protocol(s.subrange(0, i))] + rest),
            Err(e) => Err(e),
        },
        None => body_parts(s, 0, 0),
    }
}


/// The text one part stands for, written back out.
pub open spec fn unparse_part(p: PartModel) -> Seq<char> {
    match p {
        PartModel::Protocol(t) => t + "://"@,
        PartModel::Static(t) => t,
        PartModel::Variable(t) => "{"@ + t + "}"@,
        PartModel::Environ(t) => "$"@ + t,
    }
}

/// The text a sequence of parts stands for, written back out.
pub open spec fn unparse(ps: Seq<PartModel>) -> Seq<char>
    decreases ps.len(),
{
    if ps.len() == 0 {
        Seq::empty()
    } else {
        unparse_part(ps[0]) + unparse(ps.subrange(1, ps.len() as int))
    }
}

/// A single part writes back out as itself.
proof fn lemma_unparse_single(p: PartModel)
    ensures
        unparse(seq![p]) == unparse_part(p),
{
    assert(seq![p].subrange(1, 1) =~= Seq::<PartModel>::empty());
    assert(unparse(seq![p].subrange(1, 1)) =~= Seq::<char>::empty());
    assert(unparse(seq![p]) =~= unparse_part(p) + Seq::<char>::empty());
    assert(unparse_part(p) + Seq::<char>::empty() =~= unparse_part(p));
}

/// Writing parts back out distributes over concatenation.
proof fn lemma_unparse_append(a: Seq<PartModel>, b: Seq<PartModel>)
    ensures
        unparse(a + b) == unparse(a) + unparse(b),
    decreases a.len(),
{
    if a.len() == 0 {
        assert(a + b =~= b);
        assert(unparse(a) + unparse(b) =~= unparse(b));
    } else {
        assert((a + b).subrange(1, (a + b).len() as int) =~= a.subrange(1, a.len() as int) + b);
        lemma_unparse_append(a.subrange(1, a.len() as int), b);
        assert((a + b)[0] == a[0]);
        assert(unparse_part(a[0]) + (unparse(a.subrange(1, a.len() as int)) + unparse(b)) =~= (
        unparse_part(a[0]) + unparse(a.subrange(1, a.len() as int))) + unparse(b));
    }
}

/// Parsing loses nothing: the parts a template body parses to concatenate
/// back to the text from the start of the pending static chunk.
proof fn lemma_body_parts_concat(s: Seq<char>, start: int, scan: int)
    requires
        0 <= start <= scan <= s.len(),
    ensures
        body_parts(s, start, scan) matches Ok(ps) ==> unparse(ps) == s.subrange(
            start,
            s.len() as int,
        ),
    decreases s.len() - scan,
{
    reveal_strlit("{");
    reveal_strlit("}");
    reveal_strlit("$");
    lemma_first_special_bounds(s, scan);
    match first_special(s, scan) {
        None => {
            match body_parts(s, start, scan) {
                Ok(ps) => {
                    if start < s.len() {
                        assert(ps =~= seq![
                            PartModel::Static(s.subrange(start, s.len() as int)),
                        ]);
                        lemma_unparse_single(PartModel::Static(s.subrange(start, s.len() as int)));
                    } else {
                        assert(unparse(ps) =~= s.subrange(start, s.len() as int));
                    }
                },
                Err(_) => {},
            }
        },
        Some(j) => {
            let stat: Seq<PartModel> = if j > start {
                seq![PartModel::Static(s.subrange(start, j))]
            } else {
                Seq::empty()
            };
            if j > start {
                lemma_unparse_single(PartModel::Static(s.subrange(start, j)));
            } else {
                assert(s.subrange(start, j) =~= Seq::<char>::empty());
            }
            assert(unparse(stat) =~= s.subrange(start, j));
            if s[j] == '{' {
                if j + 1 < s.len() {
                    lemma_first_close_bounds(s, j + 2);
                    match first_close(s, j + 2) {
                        Some(k) => {
                            if k + 1 < s.len() {
                                lemma_body_parts_concat(s, k + 1, k + 2);
                                match body_parts(s, k + 1, k + 2) {
                                    Ok(rest) => {
                                        let mid = seq![
                                            PartModel::Variable(s.subrange(j + 1, k)),
                                        ];
                                        lemma_unparse_append(stat + mid, rest);
                                        lemma_unparse_append(stat, mid);
                                        lemma_unparse_single(
                                            PartModel::Variable(s.subrange(j + 1, k)),
                                        );
                                        assert(s.subrange(start, j) + ("{"@ + s.subrange(
                                            j + 1,
                                            k,
                                        ) + "}"@) + s.subrange(k + 1, s.len() as int)
                                            =~= s.subrange(start, s.len() as int));
                                    },
                                    Err(_) => {},
                                }
                            }
                        },
                        None => {},
                    }
                }
            } else {
                assert(s[j] == '$');
                if j + 1 < s.len() {
                    lemma_first_nonenv_bounds(s, j + 2);
                    match first_nonenv(s, j + 2) {
                        None => {
                            let mid = seq![
                                PartModel::Environ(s.subrange(j + 1, s.len() as int)),
                            ];
                            lemma_unparse_append(stat, mid);
                            lemma_unparse_single(
                                PartModel::Environ(s.subrange(j + 1, s.len() as int)),
                            );
                            assert(s.subrange(start, j) + ("$"@ + s.subrange(
                                j + 1,
                                s.len() as int,
                            )) =~= s.subrange(start, s.len() as int));
                        },
                        Some(m) => {
                            lemma_body_parts_concat(s, m, m + 1);
                            match body_parts(s, m, m + 1) {
                                Ok(rest) => {
                                    let mid = seq![PartModel::Environ(s.subrange(j + 1, m))];
                                    lemma_unparse_append(stat + mid, rest);
                                    lemma_unparse_append(stat, mid);
                                    lemma_unparse_single(
                                        PartModel::Environ(s.subrange(j + 1, m)),
                                    );
                                    assert(s.subrange(start, j) + ("$"@ + s.subrange(j + 1, m))
                                        + s.subrange(m, s.len() as int) =~= s.subrange(
                                        start,
                                        s.len() as int,
                                    ));
                                },
                                Err(_) => {},
                            }
                        },
                    }
                }
            }
        },
    }
}

/// Parsing loses nothing: the parts a whole template parses to concatenate
/// back to the input.
pub proof fn lemma_template_round_trip(s: Seq<char>)
    ensures
        template_model(s) matches Ok(ps) ==> unparse(ps) == s,
{
    reveal_strlit("://");
    lemma_find_proto_bounds(s, 0);
    match find_proto(s, 0) {
        Some(i) => {
            lemma_body_parts_concat(s.subrange(i + 3, s.len() as int), 0, 0);
            match body_parts(s.subrange(i + 3, s.len() as int), 0, 0) {
                Ok(rest) => {
                    let proto = seq![PartModel::Protocol(s.subrange(0, i))];
                    lemma_unparse_append(proto, rest);
                    lemma_unparse_single(PartModel::Protocol(s.subrange(0, i)));
                    let tail = s.subrange(i + 3, s.len() as int);
                    assert(tail.subrange(0, tail.len() as int) =~= tail);
                    assert((s.subrange(0, i) + "://"@) + tail =~= s);
                },
                Err(_) => {},
            }
        },
        None => {
            lemma_body_parts_concat(s, 0, 0);
            assert(s.subrange(0, s.len() as int) =~= s);
        },
    }
}

/// The outcome of rendering a sequence of parts: an environment failure, a
/// missing variable, or the rendered text.
pub enum RenderOutcome {
    /// An environment lookup failed.
    Failure,
    /// A variable or environment value was absent.
    Missing,
    /// Everything resolved to this text.
    Done(Seq<char>),
}

/// Prepend text to a successful outcome; failures pass through.
pub open spec fn prepend(t: Seq<char>, r: RenderOutcome) -> RenderOutcome {
    match r {
        RenderOutcome::Done(u) => RenderOutcome::Done(t + u),
        _ => r,
    }
}

/// Prepending in two steps is prepending the concatenation.
proof fn lemma_prepend_assoc(a: Seq<char>, b: Seq<char>, r: RenderOutcome)
    ensures
        prepend(a + b, r) == prepend(a, prepend(b, r)),
{
    match r {
        RenderOutcome::Done(u) => {
            assert((a + b) + u =~= a + (b + u));
        },
        _ => {},
    }
}

/// What rendering the given parts yields: parts resolve left to right, the
/// first absent variable makes the whole render absent, and the first
/// failing environment lookup fails it. Protocol parts render as nothing.
pub open spec fn render_model<V: Vars + ?Sized, E: Environment + ?Sized>(
    parts: Seq<PartModel>,
    vars: &V,
    env: &E,
) -> RenderOutcome
    decreases parts.len(),
{
    if parts.len() == 0 {
        RenderOutcome::Done(Seq::empty())
    } else {
        let rest = parts.subrange(1, parts.len() as int);
        match parts[0] {
            PartModel::Protocol(_) => render_model(rest, vars, env),
            PartModel::Static(t) => prepend(t, render_model(rest, vars, env)),
            PartModel::Variable(v) => match vars.get_spec(v) {
                None => RenderOutcome::Missing,
                Some(val) => prepend(val, render_model(rest, vars, env)),
            },
            PartModel::Environ(e) => if !env.var_ok(e) {
                RenderOutcome::Failure
            } else {
                match env.var_spec(e) {
                    None => RenderOutcome::Missing,
                    Some(val) => prepend(val, render_model(rest, vars, env)),
                }
            },
        }
    }
}

/// A loaded template string.
#[derive(Debug, Clone, PartialEq, Eq)]
pub struct Template {
    /// The parsed parts, in order.
    pub parts: Vec<Part>,
}

/// Find the first special character at or after `scan`.
fn scan_special(s: &str, scan: usize, n: usize) -> (r: Option<usize>)
    requires
        n == s@.len(),
        scan <= n,
    ensures
        match r {
            Some(j) => first_special(s@, scan as int) == Some(j as int) && scan <= j < n,
            None => first_special(s@, scan as int) is None,
        },
{
    let mut i: usize = scan;
    while i < n
        invariant
            scan <= i <= n,
            n == s@.len(),
            first_special(s@, scan as int) == first_special(s@, i as int),
        decreases n - i,
    {
        let c = s.get_char(i);
        if c == '{' || c == '$' {
            return Some(i);
        }
        proof {
            assert(first_special(s@, i as int) == first_special(s@, i + 1));
        }
        i = i + 1;
    }
    None
}

/// Find the first closing brace at or after `scan`.
fn scan_close(s: &str, scan: usize, n: usize) -> (r: Option<usize>)
    requires
        n == s@.len(),
        scan <= n,
    ensures
        match r {
            Some(j) => first_close(s@, scan as int) == Some(j as int) && scan <= j < n,
            None => first_close(s@, scan as int) is None,
        },
{
    let mut i: usize = scan;
    while i < n
        invariant
            scan <= i <= n,
            n == s@.len(),
            first_close(s@, scan as int) == first_close(s@, i as int),
        decreases n - i,
    {
        let c = s.get_char(i);
        if c == '}' {
            return Some(i);
        }
        proof {
            assert(first_close(s@, i as int) == first_close(s@, i + 1));
        }
        i = i + 1;
    }
    None
}

/// Find the first character at or after `scan` that cannot continue an
/// environment variable name.
fn scan_env_end(s: &str, scan: usize, n: usize) -> (r: Option<usize>)
    requires
        n == s@.len(),
        scan <= n,
    ensures
        match r {
            Some(j) => first_nonenv(s@, scan as int) == Some(j as int) && scan <= j < n,
            None => first_nonenv(s@, scan as int) is None,
        },
{
    let mut i: usize = scan;
    while i < n
        invariant
            scan <= i <= n,
            n == s@.len(),
            first_nonenv(s@, scan as int) == first_nonenv(s@, i as int),
        decreases n - i,
    {
        let c = s.get_char(i);
        if !(char_is_uppercase(c) || c == '_') {
            return Some(i);
        }
        proof {
            assert(first_nonenv(s@, i as int) == first_nonenv(s@, i + 1));
        }
        i = i + 1;
    }
    None
}

/// Find the first `://` separator, if any.
fn scan_proto(s: &str, n: usize) -> (r: Option<usize>)
    requires
        n == s@.len(),
    ensures
        match r {
            Some(j) => find_proto(s@, 0) == Some(j as int) && j + 3 <= n,
            None => find_proto(s@, 0) is None,
        },
{
    if n < 3 {
        return None;
    }
    let mut i: usize = 0;
    while i <= n - 3
        invariant
            0 <= i <= n - 2,
            n == s@.len(),
            3 <= n,
            find_proto(s@, 0) == find_proto(s@, i as int),
        decreases n - i,
    {
        if s.get_char(i) == ':' && s.get_char(i + 1) == '/' && s.get_char(i + 2) == '/' {
            return Some(i);
        }
        proof {
            assert(!proto_at(s@, i as int));
            assert(find_proto(s@, i as int) == find_proto(s@, i + 1));
        }
        i = i + 1;
    }
    proof {
        assert(find_proto(s@, i as int) is None);
    }
    None
}

/// The parts the parts vector stands for.
pub open spec fn parts_view(v: Seq<Part>) -> Seq<PartModel> {
    v.map_values(|p: Part| p@)
}

impl Template {
    /// Parse a template string: an optional protocol prefix at the first
    /// `://`, then static text, `{variable}` parts, and `$NAME` environment
    /// parts. The exact decomposition is `template_model`; on success the
    /// parts concatenate back to the input.
    #[verifier::rlimit(50)]
    #[verifier::spinoff_prover]
    pub fn parse(input: &str) -> (r: Result<Template, ParseError>)
        ensures
            match r {
                Ok(t) => template_model(input@) == Ok::<Seq<PartModel>, ParseError>(parts_view(t.parts@)),
                Err(e) => template_model(input@) == Err::<Seq<PartModel>, ParseError>(e),
            },
    {
        let n = input.unicode_len();
        let mut parts: Vec<Part> = Vec::new();

        let rest: &str = match scan_proto(input, n) {
            Some(i) => {
                let proto = input.substring_char(0, i).to_owned();
                parts.push(Part::Protocol(proto));
                input.substring_char(i + 3, n)
            },
            None => input,
        };
        let m = rest.unicode_len();
        let ghost rs = rest@;
        let ghost base = parts_view(parts@);

        proof {
            assert(parts_view(Seq::<Part>::empty()) =~= Seq::<PartModel>::empty());
            match find_proto(input@, 0) {
                Some(i) => {
                    assert(base =~= seq![PartModel::Protocol(input@.subrange(0, i))]);
                },
                None => {
                    assert(base =~= Seq::<PartModel>::empty());
                },
            }
        }

        let mut start: usize = 0;
        let mut scan: usize = 0;

        loop
            invariant
                0 <= start <= scan <= m,
                m == rs.len(),
                rs == rest@,
                ({
                    let tail = body_parts(rs, start as int, scan as int);
                    match tail {
                        Ok(rest_parts) => template_model(input@) == Ok::<
                            Seq<PartModel>,
                            ParseError,
                        >(parts_view(parts@) + rest_parts),
                        Err(e) => template_model(input@) == Err::<Seq<PartModel>, ParseError>(e),
                    }
                }),
            decreases m - scan,
        {
            let ghost prev_start = start as int;
            let ghost prev_scan = scan as int;
            let ghost pv0 = parts_view(parts@);
            let ghost tail0 = body_parts(rs, prev_start, prev_scan);

            match scan_special(rest, scan, m) {
                None => {
                    proof {
                        assert(tail0 == Ok::<Seq<PartModel>, ParseError>(
                            if prev_start < rs.len() {
                                seq![PartModel::Static(rs.subrange(prev_start, rs.len() as int))]
                            } else {
                                Seq::empty()
                            },
                        ));
                    }
                    if start < m {
                        let tail = rest.substring_char(start, m).to_owned();
                        let ghost before = parts@;
                        parts.push(Part::Static(tail));
                        proof {
                            assert(parts_view(parts@) =~= pv0 + seq![
                                PartModel::Static(rs.subrange(prev_start, m as int)),
                            ]);
                        }
                    } else {
                        proof {
                            assert(pv0 + Seq::<PartModel>::empty() =~= pv0);
                        }
                    }
                    return Ok(Template { parts });
                },
                Some(j) => {
                    proof {
                        lemma_first_special_bounds(rs, prev_scan);
                    }
                    let ghost stat: Seq<PartModel> = if j > start {
                        seq![PartModel::Static(rs.subrange(prev_start, j as int))]
                    } else {
                        Seq::empty()
                    };
                    if j > start {
                        let stat_text = rest.substring_char(start, j).to_owned();
                        let ghost before = parts@;
                        parts.push(Part::Static(stat_text));
                        proof {
                            assert(parts_view(parts@) =~= pv0 + stat);
                        }
                    } else {
                        proof {
                            assert(parts_view(parts@) =~= pv0 + stat);
                        }
                    }
                    let c = rest.get_char(j);
                    if c == '{' {
                        if j + 1 >= m {
                            proof {
                                assert(tail0 == Err::<Seq<PartModel>, ParseError>(
                                    ParseError::MissingChar,
                                ));
                            }
                            return Err(ParseError::MissingChar);
                        }
                        match scan_close(rest, j + 2, m) {
                            None => {
                                proof {
                                    assert(tail0 == Err::<Seq<PartModel>, ParseError>(
                                        ParseError::MissingClose,
                                    ));
                                }
                                return Err(ParseError::MissingClose);
                            },
                            Some(k) => {
                                if k + 1 >= m {
                                    proof {
                                        assert(tail0 == Err::<Seq<PartModel>, ParseError>(
                                            ParseError::MissingChar,
                                        ));
                                    }
                                    return Err(ParseError::MissingChar);
                                }
                                let var = rest.substring_char(j + 1, k).to_owned();
                                let ghost before = parts@;
                                parts.push(Part::Variable(var));
                                proof {
                                    let ghost mid = seq![
                                        PartModel::Variable(rs.subrange(j + 1, k as int)),
                                    ];
                                    assert(parts_view(parts@) =~= pv0 + stat + mid);
                                    assert(tail0 == match body_parts(rs, k + 1, k + 2) {
                                        Ok(rest_parts) => Ok::<Seq<PartModel>, ParseError>(
                                            stat + mid + rest_parts,
                                        ),
                                        Err(e) => Err::<Seq<PartModel>, ParseError>(e),
                                    });
                                    assert(body_parts(rs, k + 1, k + 2) matches Ok(rest_parts)
                                        ==> pv0 + (stat + mid + rest_parts) =~= (pv0 + stat + mid)
                                        + rest_parts);
                                }
                                start = k + 1;
                                scan = k + 2;
                            },
                        }
                    } else {
                        if j + 1 >= m {
                            proof {
                                assert(tail0 == Err::<Seq<PartModel>, ParseError>(
                                    ParseError::MissingChar,
                                ));
                            }
                            return Err(ParseError::MissingChar);
                        }
                        match scan_env_end(rest, j + 2, m) {
                            None => {
                                let env = rest.substring_char(j + 1, m).to_owned();
                                let ghost before = parts@;
                                parts.push(Part::Environ(env));
                                proof {
                                    let ghost mid = seq![
                                        PartModel::Environ(rs.subrange(j + 1, m as int)),
                                    ];
                                    assert(parts_view(parts@) =~= pv0 + stat + mid);
                                    assert(tail0 == Ok::<Seq<PartModel>, ParseError>(stat + mid));
                                    assert(pv0 + (stat + mid) =~= (pv0 + stat + mid)
                                        + Seq::<PartModel>::empty());
                                    assert((pv0 + stat + mid) + Seq::<PartModel>::empty()
                                        =~= pv0 + stat + mid);
                                }
                                return Ok(Template { parts });
                            },
                            Some(e) => {
                                let env = rest.substring_char(j + 1, e).to_owned();
                                let ghost before = parts@;
                                parts.push(Part::Environ(env));
                                proof {
                                    let ghost mid = seq![
                                        PartModel::Environ(rs.subrange(j + 1, e as int)),
                                    ];
                                    assert(parts_view(parts@) =~= pv0 + stat + mid);
                                    assert(tail0 == match body_parts(rs, e as int, e + 1) {
                                        Ok(rest_parts) => Ok::<Seq<PartModel>, ParseError>(
                                            stat + mid + rest_parts,
                                        ),
                                        Err(err) => Err::<Seq<PartModel>, ParseError>(err),
                                    });
                                    assert(body_parts(rs, e as int, e + 1) matches Ok(rest_parts)
                                        ==> pv0 + (stat + mid + rest_parts) =~= (pv0 + stat + mid)
                                        + rest_parts);
                                }
                                start = e;
                                scan = e + 1;
                            },
                        }
                    }
                },
            }
        }
    }

    /// Render the template: variables through `vars`, environment references
    /// through `environment`, protocol parts as nothing. Yields no value as
    /// soon as a variable or environment value is absent, and fails exactly
    /// when an environment lookup fails.
    pub fn render<V: Vars, E: Environment>(&self, vars: &V, environment: &E) -> (r: Result<
        Option<String>,
        EnvError,
    >)
        ensures
            match r {
                Ok(Some(out)) => render_model(parts_view(self.parts@), vars, environment)
                    == RenderOutcome::Done(out@),
                Ok(None) => render_model(parts_view(self.parts@), vars, environment)
                    is Missing,
                Err(_) => render_model(parts_view(self.parts@), vars, environment) is Failure,
            },
    {
        let ghost whole = parts_view(self.parts@);
        let mut out = String::new();
        let mut i: usize = 0;
        let n = self.parts.len();

        proof {
            assert(whole.subrange(0, whole.len() as int) =~= whole);
        }

        while i < n
            invariant
                0 <= i <= n,
                n == self.parts@.len(),
                whole == parts_view(self.parts@),
                render_model(whole, vars, environment) == prepend(
                    out@,
                    render_model(
                        whole.subrange(i as int, whole.len() as int),
                        vars,
                        environment,
                    ),
                ),
            decreases n - i,
        {
            let ghost suffix = whole.subrange(i as int, whole.len() as int);
            let ghost suffix_rest = whole.subrange(i + 1, whole.len() as int);
            let ghost out0 = out@;
            proof {
                assert(suffix[0] == whole[i as int]);
                assert(whole[i as int] == self.parts@[i as int]@);
                assert(suffix.subrange(1, suffix.len() as int) =~= suffix_rest);
            }
            match &self.parts[i] {
                Part::Protocol(_) => {
                    proof {
                        assert(render_model(suffix, vars, environment) == render_model(
                            suffix_rest,
                            vars,
                            environment,
                        ));
                    }
                },
                Part::Static(t) => {
                    out.append(t.as_str());
                    proof {
                        lemma_prepend_assoc(
                            out0,
                            t@,
                            render_model(suffix_rest, vars, environment),
                        );
                    }
                },
                Part::Variable(v) => {
                    match vars.get(v.as_str()) {
                        Some(val) => {
                            out.append(val);
                            proof {
                                lemma_prepend_assoc(
                                    out0,
                                    val@,
                                    render_model(suffix_rest, vars, environment),
                                );
                            }
                        },
                        None => {
                            return Ok(None);
                        },
                    }
                },
                Part::Environ(e) => {
                    match environment.var(e.as_str()) {
                        Ok(Some(val)) => {
                            out.append(val.as_str());
                            proof {
                                lemma_prepend_assoc(
                                    out0,
                                    val@,
                                    render_model(suffix_rest, vars, environment),
                                );
                            }
                        },
                        Ok(None) => {
                            return Ok(None);
                        },
                        Err(err) => {
                            return Err(err);
                        },
                    }
                },
            }
            i = i + 1;
        }
        proof {
            assert(whole.subrange(n as int, whole.len() as int) =~= Seq::<PartModel>::empty());
            assert(out@ + Seq::<char>::empty() =~= out@);
        }
        Ok(Some(out))
    }

    /// Whether any part is a protocol part.
    pub fn has_protocol(&self) -> (r: bool)
        ensures
            r == exists|i: int|
                0 <= i < self.parts@.len() && (#[trigger] parts_view(self.parts@)[i]) is Protocol,
    {
        let mut i: usize = 0;
        let n = self.parts.len();
        while i < n
            invariant
                0 <= i <= n,
                n == self.parts@.len(),
                forall|k: int| 0 <= k < i ==> !((#[trigger] parts_view(self.parts@)[k]) is Protocol),
            decreases n - i,
        {
            match &self.parts[i] {
                Part::Protocol(_) => {
                    proof {
                        assert(parts_view(self.parts@)[i as int] is Protocol);
                    }
                    return true;
                },
                _ => {},
            }
            i = i + 1;
        }
        false
    }

    /// Render the template as a relative path string: a template with a
    /// protocol part does not render as a relative path; otherwise as
    /// `render`.
    pub fn as_relative_path<V: Vars, E: Environment>(&self, vars: &V, environment: &E) -> (r:
        Result<Option<String>, RelativePathError>)
        ensures
            (exists|i: int|
                0 <= i < self.parts@.len() && (#[trigger] parts_view(self.parts@)[i]) is Protocol)
                ==> r == Err::<Option<String>, RelativePathError>(RelativePathError::Protocol),
            !(exists|i: int|
                0 <= i < self.parts@.len() && (#[trigger] parts_view(self.parts@)[i]) is Protocol)
                ==> match r {
                Ok(Some(out)) => render_model(parts_view(self.parts@), vars, environment)
                    == RenderOutcome::Done(out@),
                Ok(None) => render_model(parts_view(self.parts@), vars, environment) is Missing,
                Err(RelativePathError::Environment(_)) => render_model(
                    parts_view(self.parts@),
                    vars,
                    environment,
                ) is Failure,
                Err(RelativePathError::Protocol) => false,
            },
    {
        if self.has_protocol() {
            return Err(RelativePathError::Protocol);
        }
        match self.render(vars, environment) {
            Ok(value) => Ok(value),
            Err(e) => Err(RelativePathError::Environment(e)),
        }
    }

    /// Render the template as a string; protocol parts are ignored.
    pub fn as_string<V: Vars, E: Environment>(&self, vars: &V, environment: &E) -> (r: Result<
        Option<String>,
        EnvError,
    >)
        ensures
            match r {
                Ok(Some(out)) => render_model(parts_view(self.parts@), vars, environment)
                    == RenderOutcome::Done(out@),
                Ok(None) => render_model(parts_view(self.parts@), vars, environment)
                    is Missing,
                Err(_) => render_model(parts_view(self.parts@), vars, environment) is Failure,
            },
    {
        self.render(vars, environment)
    }
}

} // verus!
