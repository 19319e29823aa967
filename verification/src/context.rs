//! The execution context: initial inputs, per-step outputs, template
//! rendering and condition evaluation.
//!
//! Templates are plain text with `{{ ... }}` placeholders. A placeholder
//! holds a dotted path whose first segment names a table (`inputs` or
//! `outputs`), whose second segment names an entry of it, and whose
//! remaining segments walk object fields. A placeholder resolving to a
//! string, integer or boolean is replaced by that scalar's text; anything
//! else is an error. Text outside placeholders passes through unchanged.
//!
//! A condition is the literal `true` or `false`, or a template rendering
//! to one of those two words.

use vstd::prelude::*;
use crate::json::{JsonValue, JsonSpec, jv_model_fields, first_binding, spec_get_field,
    lemma_first_binding_skip, lemma_jv_model_fields_len, lemma_jv_model_fields_index};
use crate::errors::RenderError;
use crate::strutil::{str_eq, push_char, copy_str};

verus! {

/// The model of a rendering failure: which rule rejected the template.
pub enum RenderErrSpec {
    Unclosed,
    Unknown,
    NotScalar,
    NotBoolean,
}

impl View for RenderError {
    type V = RenderErrSpec;

    open spec fn view(&self) -> RenderErrSpec {
        match self {
            RenderError::UnclosedPlaceholder => RenderErrSpec::Unclosed,
            RenderError::UnknownVariable(_) => RenderErrSpec::Unknown,
            RenderError::NotAScalar(_) => RenderErrSpec::NotScalar,
            RenderError::NotABoolean(_) => RenderErrSpec::NotBoolean,
        }
    }
}

/// The decimal digit character of a value below ten.
pub open spec fn spec_digit_char(d: int) -> char {
    if d == 0 { '0' }
    else if d == 1 { '1' }
    else if d == 2 { '2' }
    else if d == 3 { '3' }
    else if d == 4 { '4' }
    else if d == 5 { '5' }
    else if d == 6 { '6' }
    else if d == 7 { '7' }
    else if d == 8 { '8' }
    else { '9' }
}

/// The decimal text of a natural number.
pub open spec fn spec_nat_chars(n: nat) -> Seq<char>
    decreases n,
{
    if n < 10 {
        seq![spec_digit_char(n as int)]
    } else {
        spec_nat_chars(n / 10).push(spec_digit_char((n % 10) as int))
    }
}

/// The decimal text of a signed integer.
pub open spec fn spec_i64_chars(i: int) -> Seq<char> {
    if i < 0 {
        seq!['-'] + spec_nat_chars((-i) as nat)
    } else {
        spec_nat_chars(i as nat)
    }
}

/// The text a scalar renders to; `None` for null, arrays and objects.
pub open spec fn spec_scalar_chars(v: JsonSpec) -> Option<Seq<char>> {
    match v {
        JsonSpec::Str(s) => Some(s),
        JsonSpec::Int(i) => Some(spec_i64_chars(i)),
        JsonSpec::Bool(b) => Some(if b { "true"@ } else { "false"@ }),
        _ => None,
    }
}

/// The value at the end of a field path, walking from `from`.
pub open spec fn spec_walk_path(v: JsonSpec, path: Seq<Seq<char>>, from: int) -> Option<JsonSpec>
    decreases path.len() - from,
{
    if from < 0 || from >= path.len() {
        Some(v)
    } else {
        match spec_get_field(v, path[from]) {
            Option::None => Option::None,
            Option::Some(x) => spec_walk_path(x, path, from + 1),
        }
    }
}

/// The text with leading spaces removed.
pub open spec fn spec_trim_front(s: Seq<char>) -> Seq<char>
    decreases s.len(),
{
    if s.len() > 0 && s[0] == ' ' {
        spec_trim_front(s.drop_first())
    } else {
        s
    }
}

/// The text with trailing spaces removed.
pub open spec fn spec_trim_back(s: Seq<char>) -> Seq<char>
    decreases s.len(),
{
    if s.len() > 0 && s[s.len() - 1] == ' ' {
        spec_trim_back(s.drop_last())
    } else {
        s
    }
}

/// The text with surrounding spaces removed.
pub open spec fn spec_trim(s: Seq<char>) -> Seq<char> {
    spec_trim_back(spec_trim_front(s))
}

/// The segments of a dotted path: splitting on `.`, empty segments kept.
pub open spec fn spec_split_dots(s: Seq<char>) -> Seq<Seq<char>>
    decreases s.len(),
{
    if s.len() == 0 {
        seq![Seq::<char>::empty()]
    } else if s[0] == '.' {
        seq![Seq::<char>::empty()] + spec_split_dots(s.drop_first())
    } else {
        let rest = spec_split_dots(s.drop_first());
        seq![seq![s[0]] + rest[0]] + rest.drop_first()
    }
}

/// A split always yields at least one segment.
pub proof fn lemma_split_dots_nonempty(s: Seq<char>)
    ensures
        spec_split_dots(s).len() >= 1,
    decreases s.len(),
{
    if s.len() == 0 {
    } else {
        lemma_split_dots_nonempty(s.drop_first());
    }
}

/// What a placeholder's inner text resolves to: trim, split on dots, pick
/// the table named by the first segment, look the second segment up in
/// it, walk the remaining segments, and render the scalar reached.
pub open spec fn spec_resolve(
    inner: Seq<char>,
    ins: Seq<(Seq<char>, JsonSpec)>,
    outs: Seq<(Seq<char>, JsonSpec)>,
) -> Result<Seq<char>, RenderErrSpec> {
    let path = spec_split_dots(spec_trim(inner));
    if path.len() < 2 {
        Result::Err(RenderErrSpec::Unknown)
    } else {
        let table = if path[0] == "inputs"@ {
            Option::Some(ins)
        } else if path[0] == "outputs"@ {
            Option::Some(outs)
        } else {
            Option::None
        };
        match table {
            Option::None => Result::Err(RenderErrSpec::Unknown),
            Option::Some(t) => match first_binding(t, path[1]) {
                Option::None => Result::Err(RenderErrSpec::Unknown),
                Option::Some(base) => match spec_walk_path(base, path, 2) {
                    Option::None => Result::Err(RenderErrSpec::Unknown),
                    Option::Some(v) => match spec_scalar_chars(v) {
                        Option::None => Result::Err(RenderErrSpec::NotScalar),
                        Option::Some(cs) => Result::Ok(cs),
                    },
                },
            },
        }
    }
}

/// The position of the first `}}` at or after `j`, if any.
pub open spec fn spec_close_at(tpl: Seq<char>, j: int) -> Option<int>
    decreases tpl.len() - j,
{
    if j < 0 || j + 1 >= tpl.len() {
        Option::None
    } else if tpl[j] == '}' && tpl[j + 1] == '}' {
        Option::Some(j)
    } else {
        spec_close_at(tpl, j + 1)
    }
}

/// A found closing marker lies at or after where the search began.
pub proof fn lemma_close_at_bounds(tpl: Seq<char>, j: int)
    ensures
        match spec_close_at(tpl, j) {
            Option::Some(r) => j <= r && r + 1 < tpl.len()
                && tpl[r] == '}' && tpl[r + 1] == '}',
            Option::None => true,
        },
    decreases tpl.len() - j,
{
    if j < 0 || j + 1 >= tpl.len() {
    } else if tpl[j] == '}' && tpl[j + 1] == '}' {
    } else {
        lemma_close_at_bounds(tpl, j + 1);
    }
}

/// `r` with `prefix` prepended to a success.
pub open spec fn spec_prepend(prefix: Seq<char>, r: Result<Seq<char>, RenderErrSpec>) -> Result<Seq<char>, RenderErrSpec> {
    match r {
        Result::Ok(s) => Result::Ok(prefix + s),
        Result::Err(e) => Result::Err(e),
    }
}

/// The rendering of the template from position `i` on.
pub open spec fn spec_render_from(
    tpl: Seq<char>,
    i: int,
    ins: Seq<(Seq<char>, JsonSpec)>,
    outs: Seq<(Seq<char>, JsonSpec)>,
) -> Result<Seq<char>, RenderErrSpec>
    decreases tpl.len() - i,
    via spec_render_from_dec
{
    if i < 0 || i >= tpl.len() {
        Result::Ok(Seq::empty())
    } else if i + 1 < tpl.len() && tpl[i] == '{' && tpl[i + 1] == '{' {
        match spec_close_at(tpl, i + 2) {
            Option::None => Result::Err(RenderErrSpec::Unclosed),
            Option::Some(j) => match spec_resolve(tpl.subrange(i + 2, j), ins, outs) {
                Result::Err(e) => Result::Err(e),
                Result::Ok(val) => spec_prepend(val, spec_render_from(tpl, j + 2, ins, outs)),
            },
        }
    } else {
        spec_prepend(seq![tpl[i]], spec_render_from(tpl, i + 1, ins, outs))
    }
}

#[via_fn]
proof fn spec_render_from_dec(
    tpl: Seq<char>,
    i: int,
    ins: Seq<(Seq<char>, JsonSpec)>,
    outs: Seq<(Seq<char>, JsonSpec)>,
) {
    if 0 <= i < tpl.len() && i + 1 < tpl.len() && tpl[i] == '{' && tpl[i + 1] == '{' {
        lemma_close_at_bounds(tpl, i + 2);
    }
}

/// The rendering of a whole template.
pub open spec fn spec_render(
    tpl: Seq<char>,
    ins: Seq<(Seq<char>, JsonSpec)>,
    outs: Seq<(Seq<char>, JsonSpec)>,
) -> Result<Seq<char>, RenderErrSpec> {
    spec_render_from(tpl, 0, ins, outs)
}

/// What a condition evaluates to: the literal words `true` and `false`,
/// or a template rendering to one of them; all else is an error.
pub open spec fn spec_eval_condition(
    expr: Seq<char>,
    ins: Seq<(Seq<char>, JsonSpec)>,
    outs: Seq<(Seq<char>, JsonSpec)>,
) -> Result<bool, RenderErrSpec> {
    if expr == "true"@ {
        Result::Ok(true)
    } else if expr == "false"@ {
        Result::Ok(false)
    } else {
        match spec_render(expr, ins, outs) {
            Result::Err(e) => Result::Err(e),
            Result::Ok(s) => if s == "true"@ {
                Result::Ok(true)
            } else if s == "false"@ {
                Result::Ok(false)
            } else {
                Result::Err(RenderErrSpec::NotBoolean)
            },
        }
    }
}

/// Appends one digit character.
fn push_digit(s: &mut String, d: u64)
    requires
        d < 10,
    ensures
        final(s)@ == old(s)@.push(spec_digit_char(d as int)),
{
    let c: char = if d == 0 { '0' }
    else if d == 1 { '1' }
    else if d == 2 { '2' }
    else if d == 3 { '3' }
    else if d == 4 { '4' }
    else if d == 5 { '5' }
    else if d == 6 { '6' }
    else if d == 7 { '7' }
    else if d == 8 { '8' }
    else { '9' };
    push_char(s, c);
}

/// Appends the decimal text of a natural number.
pub fn push_u64_chars(s: &mut String, n: u64)
    ensures
        final(s)@ == old(s)@ + spec_nat_chars(n as nat),
    decreases n,
{
    if n < 10 {
        push_digit(s, n);
        proof {
            assert(old(s)@.push(spec_digit_char(n as int))
                =~= old(s)@ + seq![spec_digit_char(n as int)]);
        }
    } else {
        push_u64_chars(s, n / 10);
        push_digit(s, n % 10);
        proof {
            assert((old(s)@ + spec_nat_chars((n / 10) as nat)).push(
                spec_digit_char((n % 10) as int))
                =~= old(s)@ + spec_nat_chars(n as nat));
        }
    }
}

/// Appends the decimal text of a signed integer.
fn push_i64_chars(s: &mut String, v: i64)
    ensures
        final(s)@ == old(s)@ + spec_i64_chars(v as int),
{
    if v < 0 {
        push_char(s, '-');
        let mag: u64 = if v == i64::MIN {
            9223372036854775808u64
        } else {
            (-v) as u64
        };
        proof {
            assert(mag as int == -(v as int));
        }
        push_u64_chars(s, mag);
        proof {
            assert(old(s)@.push('-') + spec_nat_chars(mag as nat)
                =~= old(s)@ + (seq!['-'] + spec_nat_chars((-(v as int)) as nat)));
        }
    } else {
        push_u64_chars(s, v as u64);
    }
}

/// The text with leading spaces removed.
fn trim_front(s: &str) -> (r: &str)
    ensures
        r@ == spec_trim_front(s@),
    decreases s@.len(),
{
    let n = s.unicode_len();
    if n > 0 && s.get_char(0) == ' ' {
        trim_front(s.substring_char(1, n))
    } else {
        s
    }
}

/// The text with trailing spaces removed.
fn trim_back(s: &str) -> (r: &str)
    ensures
        r@ == spec_trim_back(s@),
    decreases s@.len(),
{
    let n = s.unicode_len();
    if n > 0 && s.get_char(n - 1) == ' ' {
        proof {
            assert(s@.subrange(0, s@.len() - 1) =~= s@.drop_last());
        }
        trim_back(s.substring_char(0, n - 1))
    } else {
        s
    }
}

/// The dotted-path segments of a text.
fn split_dots(s: &str) -> (r: Vec<String>)
    ensures
        r@.len() == spec_split_dots(s@).len(),
        forall|k: int| 0 <= k < r@.len() ==> #[trigger] r@[k]@ == spec_split_dots(s@)[k],
    decreases s@.len(),
{
    let n = s.unicode_len();
    if n == 0 {
        let mut out: Vec<String> = Vec::new();
        out.push(String::new());
        out
    } else if s.get_char(0) == '.' {
        let rest = split_dots(s.substring_char(1, n));
        let mut out: Vec<String> = Vec::new();
        out.push(String::new());
        let m = rest.len();
        let mut k: usize = 0;
        while k < m
            invariant
                0 <= k <= m,
                m == rest@.len(),
                out@.len() == k + 1,
                out@[0]@ == Seq::<char>::empty(),
                forall|c: int| 0 <= c < k ==> #[trigger] out@[c + 1]@ == rest@[c]@,
            decreases m - k,
        {
            out.push(rest[k].clone());
            k = k + 1;
        }
        proof {
            let sd = spec_split_dots(s@);
            assert(sd == seq![Seq::<char>::empty()] + spec_split_dots(s@.drop_first()));
            assert(s@.subrange(1, s@.len() as int) =~= s@.drop_first());
            assert forall|c: int| 0 <= c < out@.len() implies #[trigger] out@[c]@ == sd[c] by {
                if c > 0 {
                    assert(out@[(c - 1) + 1]@ == rest@[c - 1]@);
                }
            }
        }
        out
    } else {
        let mut rest = split_dots(s.substring_char(1, n));
        proof {
            assert(s@.subrange(1, s@.len() as int) =~= s@.drop_first());
            lemma_split_dots_nonempty(s@.drop_first());
        }
        let mut head = String::new();
        push_char(&mut head, s.get_char(0));
        head.append(rest[0].as_str());
        let ghost old_rest = rest@;
        rest.set(0, head);
        proof {
            let sd = spec_split_dots(s@);
            assert(sd == seq![seq![s@[0]] + spec_split_dots(s@.drop_first())[0]]
                + spec_split_dots(s@.drop_first()).drop_first());
            assert(rest@[0]@ == seq![s@[0]] + old_rest[0]@) by {
                assert(Seq::<char>::empty().push(s@[0]) =~= seq![s@[0]]);
            }
            assert forall|k: int| 0 <= k < rest@.len() implies #[trigger] rest@[k]@ == sd[k] by {
                if k > 0 {
                    assert(old_rest[k]@ == spec_split_dots(s@.drop_first())[k]);
                    assert(sd[k] == spec_split_dots(s@.drop_first()).drop_first()[k - 1]);
                }
            }
        }
        rest
    }
}

/// Looks a key up in an association list: the first binding wins.
pub(crate) fn lookup_first<'a>(entries: &'a Vec<(String, JsonValue)>, key: &str) -> (r: Option<&'a JsonValue>)
    ensures
        match r {
            Option::Some(v) => first_binding(jv_model_fields(entries@), key@) == Option::Some(v@),
            Option::None => first_binding(jv_model_fields(entries@), key@) is None,
        },
{
    let ghost fs = jv_model_fields(entries@);
    proof {
        broadcast use lemma_jv_model_fields_len, lemma_jv_model_fields_index;
        assert(fs =~= fs.skip(0));
    }
    let n = entries.len();
    let mut i: usize = 0;
    while i < n
        invariant
            0 <= i <= n,
            n == entries@.len(),
            fs == jv_model_fields(entries@),
            fs.len() == n,
            forall|k: int| 0 <= k < n ==> #[trigger] fs[k] == (entries@[k].0@, entries@[k].1@),
            first_binding(fs, key@) == first_binding(fs.skip(i as int), key@),
        decreases n - i,
    {
        if str_eq(entries[i].0.as_str(), key) {
            proof {
                assert(fs.skip(i as int)[0] == fs[i as int]);
            }
            return Some(&entries[i].1);
        }
        proof {
            assert(fs.skip(i as int)[0] == fs[i as int]);
            lemma_first_binding_skip(fs, key@, i as int);
        }
        i = i + 1;
    }
    None
}

/// The state one workflow execution reads templates against: the immutable
/// initial inputs and the outputs published by finished steps.
pub struct ExecutionContext {
    inputs: Vec<(String, JsonValue)>,
    outputs: Vec<(String, JsonValue)>,
}

impl ExecutionContext {
    /// The model of the input table.
    pub closed spec fn inputs_view(self) -> Seq<(Seq<char>, JsonSpec)> {
        jv_model_fields(self.inputs@)
    }

    /// The model of the output table.
    pub closed spec fn outputs_view(self) -> Seq<(Seq<char>, JsonSpec)> {
        jv_model_fields(self.outputs@)
    }

    /// A context over the given initial inputs, with no outputs yet.
    pub fn new(inputs: Vec<(String, JsonValue)>) -> (r: ExecutionContext)
        ensures
            r.inputs_view() == jv_model_fields(inputs@),
            r.outputs_view() == Seq::<(Seq<char>, JsonSpec)>::empty(),
    {
        let r = ExecutionContext { inputs, outputs: Vec::new() };
        proof {
            broadcast use lemma_jv_model_fields_len;
            assert(r.outputs_view() =~= Seq::<(Seq<char>, JsonSpec)>::empty());
        }
        r
    }

    /// Publishes a step's outputs, at most once per step.
    pub fn set_output(&mut self, step_id: &str, outputs: JsonValue)
        requires
            first_binding(old(self).outputs_view(), step_id@) is None,
        ensures
            final(self).inputs_view() == old(self).inputs_view(),
            final(self).outputs_view() == old(self).outputs_view().push((step_id@, outputs@)),
    {
        let ghost o0 = self.outputs@;
        let key = copy_str(step_id);
        self.outputs.push((key, outputs));
        proof {
            broadcast use lemma_jv_model_fields_len, lemma_jv_model_fields_index;
            assert(jv_model_fields(self.outputs@)
                =~= jv_model_fields(o0).push((step_id@, self.outputs@[o0.len() as int].1@)));
        }
    }

    /// The input stored under a name, if any.
    pub fn get_input<'a>(&'a self, name: &str) -> (r: Option<&'a JsonValue>)
        ensures
            match r {
                Option::Some(v) => first_binding(self.inputs_view(), name@) == Option::Some(v@),
                Option::None => first_binding(self.inputs_view(), name@) is None,
            },
    {
        lookup_first(&self.inputs, name)
    }

    /// The outputs a step published, if any.
    pub fn get_output<'a>(&'a self, step_id: &str) -> (r: Option<&'a JsonValue>)
        ensures
            match r {
                Option::Some(v) => first_binding(self.outputs_view(), step_id@) == Option::Some(v@),
                Option::None => first_binding(self.outputs_view(), step_id@) is None,
            },
    {
        lookup_first(&self.outputs, step_id)
    }

    /// Resolves one placeholder's inner text to its scalar's rendering.
    fn resolve_placeholder(&self, inner: &str) -> (r: Result<String, RenderError>)
        ensures
            match r {
                Result::Ok(s) => spec_resolve(inner@, self.inputs_view(), self.outputs_view())
                    == Result::<Seq<char>, RenderErrSpec>::Ok(s@),
                Result::Err(e) => spec_resolve(inner@, self.inputs_view(), self.outputs_view())
                    == Result::<Seq<char>, RenderErrSpec>::Err(e@),
            },
    {
        let trimmed = trim_back(trim_front(inner));
        let path = split_dots(trimmed);
        proof {
            lemma_split_dots_nonempty(trimmed@);
        }
        if path.len() < 2 {
            return Err(RenderError::UnknownVariable(copy_str(inner)));
        }
        let table: &Vec<(String, JsonValue)> = if str_eq(path[0].as_str(), "inputs") {
            &self.inputs
        } else if str_eq(path[0].as_str(), "outputs") {
            &self.outputs
        } else {
            return Err(RenderError::UnknownVariable(copy_str(inner)));
        };
        let ghost sd = spec_split_dots(spec_trim(inner@));
        let ghost ins = self.inputs_view();
        let ghost outs = self.outputs_view();
        proof {
            assert(path@[0]@ == sd[0]);
            assert(path@[1]@ == sd[1]);
        }
        let base = match lookup_first(table, path[1].as_str()) {
            Option::Some(v) => v,
            Option::None => {
                return Err(RenderError::UnknownVariable(copy_str(inner)));
            },
        };
        let mut cur: &JsonValue = base;
        let plen = path.len();
        let mut k: usize = 2;
        while k < plen
            invariant
                2 <= k <= plen,
                plen == path@.len(),
                sd == spec_split_dots(spec_trim(inner@)),
                ins == self.inputs_view(),
                outs == self.outputs_view(),
                plen == sd.len(),
                forall|c: int| 0 <= c < plen ==> #[trigger] path@[c]@ == sd[c],
                sd[0] == "inputs"@ || sd[0] == "outputs"@,
                first_binding(if sd[0] == "inputs"@ { ins } else { outs }, sd[1])
                    == Option::Some(base@),
                spec_walk_path(base@, sd, 2) == spec_walk_path(cur@, sd, k as int),
            decreases plen - k,
        {
            match cur.get_field(path[k].as_str()) {
                Option::Some(v) => {
                    proof {
                        assert(path@[k as int]@ == sd[k as int]);
                        assert(spec_get_field(cur@, sd[k as int]) == Option::Some(v@));
                    }
                    cur = v;
                },
                Option::None => {
                    proof {
                        assert(path@[k as int]@ == sd[k as int]);
                        assert(spec_get_field(cur@, sd[k as int]) is None);
                        assert(spec_walk_path(cur@, sd, k as int) is None);
                    }
                    return Err(RenderError::UnknownVariable(copy_str(inner)));
                },
            }
            k = k + 1;
        }
        proof {
            assert(spec_walk_path(cur@, sd, plen as int) == Option::Some(cur@));
        }
        match cur {
            JsonValue::Str(s) => Ok(s.clone()),
            JsonValue::Int(v) => {
                let mut out = String::new();
                push_i64_chars(&mut out, *v);
                proof {
                    assert(out@ =~= spec_i64_chars(*v as int));
                }
                Ok(out)
            },
            JsonValue::Bool(b) => {
                if *b {
                    Ok(copy_str("true"))
                } else {
                    Ok(copy_str("false"))
                }
            },
            JsonValue::Null => Err(RenderError::NotAScalar(copy_str(inner))),
            JsonValue::Arr(_) => Err(RenderError::NotAScalar(copy_str(inner))),
            JsonValue::Obj(_) => Err(RenderError::NotAScalar(copy_str(inner))),
        }
    }

    /// Renders a template over the context: placeholder substitution with
    /// literal passthrough, exactly as [`spec_render`] says.
    pub fn render_template(&self, tpl: &str) -> (r: Result<String, RenderError>)
        ensures
            match r {
                Result::Ok(s) => spec_render(tpl@, self.inputs_view(), self.outputs_view())
                    == Result::<Seq<char>, RenderErrSpec>::Ok(s@),
                Result::Err(e) => spec_render(tpl@, self.inputs_view(), self.outputs_view())
                    == Result::<Seq<char>, RenderErrSpec>::Err(e@),
            },
    {
        let ghost ins = self.inputs_view();
        let ghost outs = self.outputs_view();
        let n = tpl.unicode_len();
        let mut out = String::new();
        let mut i: usize = 0;
        while i < n
            invariant
                0 <= i <= n,
                n == tpl@.len(),
                ins == self.inputs_view(),
                outs == self.outputs_view(),
                spec_render(tpl@, ins, outs)
                    == spec_prepend(out@, spec_render_from(tpl@, i as int, ins, outs)),
            decreases n - i,
        {
            if i + 1 < n && tpl.get_char(i) == '{' && tpl.get_char(i + 1) == '{' {
                // find the closing marker
                let mut j: usize = i + 2;
                let mut close: usize = 0;
                let mut found = false;
                while j < n - 1 && !found
                    invariant
                        i + 2 <= j <= n,
                        n == tpl@.len(),
                        spec_close_at(tpl@, i + 2) == spec_close_at(tpl@, j as int),
                        found ==> i + 2 <= close && (close as int) + 1 < n
                            && tpl@[close as int] == '}' && tpl@[close as int + 1] == '}'
                            && spec_close_at(tpl@, i + 2) == Option::Some(close as int),
                    decreases n - j + if found { 0int } else { 1int },
                {
                    if tpl.get_char(j) == '}' && tpl.get_char(j + 1) == '}' {
                        close = j;
                        found = true;
                    } else {
                        j = j + 1;
                    }
                }
                if !found {
                    proof {
                        assert(spec_close_at(tpl@, j as int) is None);
                    }
                    return Err(RenderError::UnclosedPlaceholder);
                }
                let inner = tpl.substring_char(i + 2, close);
                match self.resolve_placeholder(inner) {
                    Result::Err(e) => {
                        proof {
                            assert(inner@ =~= tpl@.subrange(i as int + 2, close as int));
                        }
                        return Err(e);
                    },
                    Result::Ok(val) => {
                        proof {
                            assert(inner@ =~= tpl@.subrange(i as int + 2, close as int));
                        }
                        let ghost out0 = out@;
                        out.append(val.as_str());
                        proof {
                            lemma_prepend_assoc(out0, val@,
                                spec_render_from(tpl@, close as int + 2, ins, outs));
                        }
                        i = close + 2;
                    },
                }
            } else {
                let c = tpl.get_char(i);
                let ghost out0 = out@;
                push_char(&mut out, c);
                proof {
                    assert(out@ =~= out0 + seq![c]);
                    lemma_prepend_assoc(out0, seq![c],
                        spec_render_from(tpl@, i as int + 1, ins, outs));
                }
                i = i + 1;
            }
        }
        proof {
            assert(spec_render_from(tpl@, n as int, ins, outs)
                == Result::<Seq<char>, RenderErrSpec>::Ok(Seq::empty()));
            assert(out@ + Seq::<char>::empty() =~= out@);
        }
        Ok(out)
    }

    /// Evaluates a boolean condition over the context: the literals `true`
    /// and `false`, or a template rendering to one of them.
    pub fn evaluate_condition(&self, expr: &str) -> (r: Result<bool, RenderError>)
        ensures
            match r {
                Result::Ok(b) => spec_eval_condition(expr@, self.inputs_view(), self.outputs_view())
                    == Result::<bool, RenderErrSpec>::Ok(b),
                Result::Err(e) => spec_eval_condition(expr@, self.inputs_view(), self.outputs_view())
                    == Result::<bool, RenderErrSpec>::Err(e@),
            },
    {
        if str_eq(expr, "true") {
            return Ok(true);
        }
        if str_eq(expr, "false") {
            return Ok(false);
        }
        match self.render_template(expr) {
            Result::Err(e) => Err(e),
            Result::Ok(s) => {
                if str_eq(s.as_str(), "true") {
                    Ok(true)
                } else if str_eq(s.as_str(), "false") {
                    Ok(false)
                } else {
                    Err(RenderError::NotABoolean(s))
                }
            },
        }
    }
}

/// Prepending commutes with splitting a prefix off.
proof fn lemma_prepend_assoc(a: Seq<char>, b: Seq<char>, r: Result<Seq<char>, RenderErrSpec>)
    ensures
        spec_prepend(a, spec_prepend(b, r)) == spec_prepend(a + b, r),
{
    match r {
        Result::Ok(s) => {
            assert(a + (b + s) =~= (a + b) + s);
        },
        Result::Err(_) => {},
    }
}

} // verus!
