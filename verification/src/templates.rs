//! What the system prompt is made from.

use handlebars::{
    Context, Handlebars, Helper, HelperResult, Output, RenderContext, RenderErrorReason,
};
use vstd::prelude::*;

use crate::json;
use crate::json::Json;
use crate::text;
use crate::thread;
use crate::thread::Thread;

verus! {

/// What is known of a project.
#[derive(Debug)]
pub struct ProjectContext {
    pub worktrees: Json,
    pub has_rules: bool,
    pub user_rules: Json,
    pub has_user_rules: bool,
    pub os: String,
    pub arch: String,
    pub shell: String,
}

/// What the system prompt says. `usage_pct` is a number, as it is written.
#[derive(Debug)]
pub struct SystemPromptTemplate {
    pub project: ProjectContext,
    pub available_tools: Vec<String>,
    pub active_tokens: Option<usize>,
    pub max_tokens: Option<usize>,
    pub usage_pct: Option<String>,
    pub memory_segment_count: Option<usize>,
    pub memory_saved_tokens: Option<u64>,
}

/// The name of the template of the system prompt.
pub fn template_name() -> (r: &'static str)
    ensures
        r@ == "system_prompt.hbs"@,
{
    "system_prompt.hbs"
}

/// A number, if there is one.
pub open spec fn count_value(n: Option<usize>) -> Option<json::JsonView> {
    match n {
        Some(n) => Some(json::JsonView::Unsigned(n as u64)),
        None => None,
    }
}

/// The fields of the project.
pub open spec fn project_fields(p: ProjectContext) -> Seq<(Seq<char>, json::JsonView)> {
    seq![
        ("worktrees"@, p.worktrees@),
        ("has_rules"@, json::JsonView::Bool(p.has_rules)),
        ("user_rules"@, p.user_rules@),
        ("has_user_rules"@, json::JsonView::Bool(p.has_user_rules)),
        ("os"@, json::JsonView::Text(p.os@)),
        ("arch"@, json::JsonView::Text(p.arch@)),
        ("shell"@, json::JsonView::Text(p.shell@)),
    ]
}

/// The fields that the template reads. Those that say nothing are left out.
pub open spec fn template_fields(t: SystemPromptTemplate) -> Seq<(Seq<char>, json::JsonView)> {
    (project_fields(t.project).push(
        ("available_tools"@, json::texts_view(text::views(t.available_tools@))),
    ) + json::optional_field("active_tokens"@, count_value(t.active_tokens)) + json::optional_field(
        "max_tokens"@,
        count_value(t.max_tokens),
    ) + json::optional_field(
        "usage_pct"@,
        match t.usage_pct {
            Some(p) => Some(json::JsonView::Decimal(p@)),
            None => None,
        },
    ) + json::optional_field("memory_segment_count"@, count_value(t.memory_segment_count))
        + json::optional_field(
        "memory_saved_tokens"@,
        match t.memory_saved_tokens {
            Some(n) => Some(json::JsonView::Unsigned(n)),
            None => None,
        },
    )).push(
        ("has_available_tools"@, json::JsonView::Bool(t.available_tools@.len() > 0)),
    ).push(
        (
            "has_active_usage"@,
            json::JsonView::Bool(
                t.active_tokens is Some || t.max_tokens is Some || t.usage_pct is Some,
            ),
        ),
    ).push(
        (
            "has_memory_stats"@,
            json::JsonView::Bool(t.memory_segment_count is Some || t.memory_saved_tokens is Some),
        ),
    )
}

fn count_json(n: Option<usize>) -> (r: Option<Json>)
    ensures
        match r {
            Some(j) => count_value(n) == Some(j@),
            None => count_value(n) is None,
        },
{
    match n {
        Some(n) => Some(Json::Unsigned(n as u64)),
        None => None,
    }
}

fn project_values(p: &ProjectContext) -> (fields: Vec<(String, Json)>)
    ensures
        json::fields_view(fields@) == project_fields(*p),
{
    let mut fields: Vec<(String, Json)> = Vec::new();
    json::push_field(&mut fields, "worktrees", p.worktrees.copy());
    json::push_field(&mut fields, "has_rules", Json::Bool(p.has_rules));
    json::push_field(&mut fields, "user_rules", p.user_rules.copy());
    json::push_field(&mut fields, "has_user_rules", Json::Bool(p.has_user_rules));
    json::push_field(&mut fields, "os", Json::Text(p.os.clone()));
    json::push_field(&mut fields, "arch", Json::Text(p.arch.clone()));
    json::push_field(&mut fields, "shell", Json::Text(p.shell.clone()));
    assert(json::fields_view(fields@) =~= project_fields(*p));
    fields
}

impl SystemPromptTemplate {
    /// The value that the template is filled in from.
    pub fn to_value(&self) -> (r: Json)
        ensures
            r@ == json::JsonView::Object(template_fields(*self)),
    {
        broadcast use json::object_view;

        let mut fields = project_values(&self.project);
        json::push_field(&mut fields, "available_tools", json::texts_value(&self.available_tools));
        json::push_optional(&mut fields, "active_tokens", count_json(self.active_tokens));
        json::push_optional(&mut fields, "max_tokens", count_json(self.max_tokens));
        let pct = match &self.usage_pct {
            Some(p) => Some(Json::Decimal(p.clone())),
            None => None,
        };
        json::push_optional(&mut fields, "usage_pct", pct);
        json::push_optional(&mut fields, "memory_segment_count", count_json(self.memory_segment_count));
        let saved = match self.memory_saved_tokens {
            Some(n) => Some(Json::Unsigned(n)),
            None => None,
        };
        json::push_optional(&mut fields, "memory_saved_tokens", saved);
        json::push_field(
            &mut fields,
            "has_available_tools",
            Json::Bool(self.available_tools.len() > 0),
        );
        json::push_field(
            &mut fields,
            "has_active_usage",
            Json::Bool(
                self.active_tokens.is_some() || self.max_tokens.is_some()
                    || self.usage_pct.is_some(),
            ),
        );
        json::push_field(
            &mut fields,
            "has_memory_stats",
            Json::Bool(self.memory_segment_count.is_some() || self.memory_saved_tokens.is_some()),
        );
        Json::Object(fields)
    }
}

// ---------------------------------------------------------------------------
// Filling in
// ---------------------------------------------------------------------------

/// Whether a list holds a value.
pub open spec fn is_listed(items: Seq<json::JsonView>, query: json::JsonView) -> bool {
    exists|i: int| 0 <= i < items.len() && json::equal_json(#[trigger] items[i], query)
}

/// What the helper `contains` writes, given a list and a value: `true` where the list holds the
/// value, else nothing.
pub open spec fn contains_answer(given: Seq<json::JsonView>) -> Result<Seq<char>, Seq<char>> {
    if given.len() == 0 || !(given[0] is Array) {
        Err("contains: missing or invalid list parameter"@)
    } else if given.len() == 1 {
        Err("contains: missing or invalid query parameter"@)
    } else if is_listed(given[0]->Array_0, given[1]) {
        Ok("true"@)
    } else {
        Ok(""@)
    }
}

/// What the helper `contains` writes.
pub fn contains(given: &Vec<Json>) -> (r: Result<&'static str, String>)
    ensures
        match r {
            Ok(t) => contains_answer(json::items_view(given@)) == Ok::<Seq<char>, Seq<char>>(t@),
            Err(e) => contains_answer(json::items_view(given@)) == Err::<Seq<char>, Seq<char>>(e@),
        },
{
    broadcast use json::array_view;

    let ghost all = json::items_view(given@);
    assert(all.len() == given@.len());
    if given.len() == 0 {
        return Err("contains: missing or invalid list parameter".to_owned());
    }
    assert(all[0] == given@[0]@);
    let items = match &given[0] {
        Json::Array(items) => items,
        _ => return Err("contains: missing or invalid list parameter".to_owned()),
    };
    if given.len() == 1 {
        return Err("contains: missing or invalid query parameter".to_owned());
    }
    assert(all[1] == given@[1]@);
    let ghost listed = json::items_view(items@);
    for i in 0..items.len()
        invariant
            listed == json::items_view(items@),
            1 < given@.len(),
            forall|k: int| 0 <= k < i ==> !json::equal_json(#[trigger] listed[k], given@[1]@),
            all == json::items_view(given@),
            all.len() == given@.len(),
            all[0] == json::JsonView::Array(listed),
            all[1] == given@[1]@,
    {
        assert(listed[i as int] == items@[i as int]@);
        if json::equal(&items[i], &given[1]) {
            assert(is_listed(listed, all[1]));
            return Ok("true");
        }
    }
    assert(!is_listed(listed, all[1]));
    Ok("")
}

/// Whether a character may stand between the braces of a tag and the sign that says its kind: white
/// space, the sign that takes white space away, and the sign of a block.
pub open spec fn is_filler(c: char) -> bool {
    c == ' ' || c == '\t' || c == '\n' || c == '\r' || c == '~' || c == '#'
}

/// The first character of a text that is no filler.
pub open spec fn first_sign(s: Seq<char>) -> Option<char>
    decreases s.len(),
{
    if s.len() == 0 {
        None
    } else if is_filler(s[0]) {
        first_sign(s.drop_first())
    } else {
        Some(s[0])
    }
}

/// Whether braces that open a tag at a position open one that takes in a partial template or that
/// defines one.
pub open spec fn opens_partial(source: Seq<char>, i: int) -> bool {
    &&& source[i] == '{'
    &&& source[i + 1] == '{'
    &&& first_sign(source.skip(i + 2)) == Some('>') || first_sign(source.skip(i + 2)) == Some('*')
}

/// Whether a template stands alone: it takes in no partial template and defines none.
pub open spec fn is_plain(source: Seq<char>) -> bool {
    forall|i: int| 0 <= i < source.len() - 1 ==> !(#[trigger] opens_partial(source, i))
}

fn sign_from(chars: &Vec<char>, from: usize) -> (r: Option<char>)
    requires
        from <= chars@.len(),
    ensures
        r == first_sign(chars@.skip(from as int)),
{
    let mut i: usize = from;
    while i < chars.len()
        invariant
            from <= i <= chars@.len(),
            first_sign(chars@.skip(i as int)) == first_sign(chars@.skip(from as int)),
        decreases chars@.len() - i,
    {
        let c = chars[i];
        assert(chars@.skip(i as int)[0] == c);
        if c == ' ' || c == '\t' || c == '\n' || c == '\r' || c == '~' || c == '#' {
            assert(chars@.skip(i as int).drop_first() =~= chars@.skip(i + 1));
            i = i + 1;
        } else {
            return Some(c);
        }
    }
    None
}

/// Whether a template stands alone: it takes in no partial template and defines none.
pub fn stands_alone(source: &str) -> (r: bool)
    ensures
        r == is_plain(source@),
{
    let chars = text::to_chars(source);
    let mut i: usize = 0;
    while i < chars.len()
        invariant
            chars@ == source@,
            i <= chars@.len(),
            forall|k: int|
                0 <= k < i && k < source@.len() - 1 ==> !(#[trigger] opens_partial(source@, k)),
        decreases chars@.len() - i,
    {
        if i + 1 < chars.len() && chars[i] == '{' && chars[i + 1] == '{' {
            match sign_from(&chars, i + 2) {
                Some(c) => {
                    if c == '>' || c == '*' {
                        assert(opens_partial(source@, i as int));
                        return false;
                    }
                },
                None => {},
            }
        }
        i = i + 1;
    }
    true
}

/// The text that the crate `handlebars` makes of a template that stands alone, by its name and its
/// source, and of a value, in strict mode and with the helper `contains`; none, where it reports an
/// error.
pub uninterp spec fn filled(name: Seq<char>, source: Seq<char>, value: json::JsonView) -> Option<
    Seq<char>,
>;

/// Fills in a template with `handlebars::Handlebars::register_template_string` and
/// `handlebars::Handlebars::render`, in strict mode. The helper `contains` writes what the function
/// of that name says. Whether there is a text, and the text, have the name `filled`. Templates that
/// take in partial ones are left out: their named arguments are walked in an order that each process
/// chooses anew, and two that take in each other never end. Of the message of an error nothing is
/// said: which of two wrong named arguments of a helper is reported depends on such an order too.
#[verifier::external_body]
fn fill_in(name: &str, source: &str, value: &Json) -> (r: Result<String, String>)
    requires
        is_plain(source@),
    ensures
        match r {
            Ok(t) => filled(name@, source@, value@) == Some(t@),
            Err(_) => filled(name@, source@, value@) is None,
        },
{
    let mut templates = Handlebars::new();
    templates.set_strict_mode(true);
    let helper = |h: &Helper, _: &Handlebars, _: &Context, _: &mut RenderContext, out: &mut dyn Output| -> HelperResult {
        let given = h.params().iter().map(|p| json::from_value(p.value().clone())).collect();
        let text = contains(&given).map_err(RenderErrorReason::Other)?;
        Ok(out.write(text)?)
    };
    templates.register_helper("contains", Box::new(helper));
    templates.register_template_string(name, source).map_err(|e| e.to_string())?;
    templates.render(name, &json::to_value(value)).map_err(|e| e.to_string())
}

impl SystemPromptTemplate {
    /// The system prompt, from the source of its template. Of the message of an error nothing is said.
    pub fn render(&self, source: &str) -> (r: Result<String, String>)
        requires
            is_plain(source@),
        ensures
            match r {
                Ok(t) => filled(
                    "system_prompt.hbs"@,
                    source@,
                    json::JsonView::Object(template_fields(*self)),
                ) == Some(t@),
                Err(_) => filled(
                    "system_prompt.hbs"@,
                    source@,
                    json::JsonView::Object(template_fields(*self)),
                ) is None,
            },
    {
        fill_in(template_name(), source, &self.to_value())
    }
}

/// What the system prompt says of a thread. Its tokens are named where they were counted;
/// `usage_pct` says then which part of the room for them is taken, in percent.
pub open spec fn describes(
    t: SystemPromptTemplate,
    thread: thread::ThreadView,
    project: ProjectContext,
    usage_pct: Seq<char>,
) -> bool {
    &&& t.project == project
    &&& text::views(t.available_tools@) == thread.tools
    &&& match (thread.active_tokens, thread.max_tokens) {
        (Some(active), Some(max)) => t.active_tokens == Some(active as usize) && t.max_tokens
            == Some(max as usize) && text::opt_view(t.usage_pct) == Some(usage_pct),
        _ => t.active_tokens is None && t.max_tokens is None && t.usage_pct is None,
    }
    &&& t.memory_segment_count == Some(thread.segments.len() as usize)
    &&& t.memory_saved_tokens is None
}

/// Whether a result is what the template of the system prompt gives, filled in from what is said of a
/// thread.
pub open spec fn prompted(
    r: Result<String, String>,
    thread: thread::ThreadView,
    project: ProjectContext,
    usage_pct: Seq<char>,
    source: Seq<char>,
) -> bool {
    exists|t: SystemPromptTemplate| #[trigger]
        describes(t, thread, project, usage_pct) && filled(
            "system_prompt.hbs"@,
            source,
            json::JsonView::Object(template_fields(t)),
        ) == (match r {
            Ok(prompt) => Some(prompt@),
            Err(_) => None,
        })
}

impl Thread {
    /// What the system prompt says of the thread.
    pub fn system_prompt_template(&self, project: ProjectContext, usage_pct: &str) -> (r:
        SystemPromptTemplate)
        ensures
            describes(r, self@, project, usage_pct@),
    {
        let mut active: Option<usize> = None;
        let mut max: Option<usize> = None;
        let mut pct: Option<String> = None;
        if let Some(a) = self.precise_active_tokens {
            if let Some(m) = self.precise_max_tokens {
                active = Some(a as usize);
                max = Some(m as usize);
                pct = Some(usage_pct.to_owned());
            }
        }
        SystemPromptTemplate {
            project,
            available_tools: text::copy_strings(&self.tools),
            active_tokens: active,
            max_tokens: max,
            usage_pct: pct,
            memory_segment_count: Some(self.memory_segments.len()),
            memory_saved_tokens: None,
        }
    }

    /// The system prompt, from the source of its template. Of the message of an error nothing is said.
    pub fn build_system_prompt(&self, project: ProjectContext, usage_pct: &str, source: &str) -> (r:
        Result<String, String>)
        requires
            is_plain(source@),
        ensures
            prompted(r, self@, project, usage_pct@, source@),
    {
        let template = self.system_prompt_template(project, usage_pct);
        template.render(source)
    }

    /// The system prompt, from the source of its template; none, where the template does not stand
    /// alone.
    pub fn try_build_system_prompt(
        &self,
        project: ProjectContext,
        usage_pct: &str,
        source: &str,
    ) -> (r: Option<Result<String, String>>)
        ensures
            r is Some <==> is_plain(source@),
            r matches Some(prompt) ==> prompted(prompt, self@, project, usage_pct@, source@),
    {
        if stands_alone(source) {
            Some(self.build_system_prompt(project, usage_pct, source))
        } else {
            None
        }
    }
}

// ---------------------------------------------------------------------------
// Laws
// ---------------------------------------------------------------------------

proof fn found_in_front(
    a: Seq<(Seq<char>, json::JsonView)>,
    b: Seq<(Seq<char>, json::JsonView)>,
    f: (Seq<char>, json::JsonView),
)
    ensures
        a.contains(f) ==> (a + b).contains(f),
        b.contains(f) ==> (a + b).contains(f),
        forall|g: (Seq<char>, json::JsonView)| a.contains(f) ==> #[trigger] a.push(g).contains(f),
{
    if a.contains(f) {
        let i = choose|i: int| 0 <= i < a.len() && a[i] == f;
        assert((a + b)[i] == f);
        assert forall|g: (Seq<char>, json::JsonView)| #[trigger] a.push(g).contains(f) by {
            assert(a.push(g)[i] == f);
        }
    }
    if b.contains(f) {
        let i = choose|i: int| 0 <= i < b.len() && b[i] == f;
        assert((a + b)[a.len() + i] == f);
    }
}

/// The template reads whether there are tools, whether tokens were counted, and whether anything is told
/// of the archive.
pub proof fn templates_know_what_there_is(t: SystemPromptTemplate)
    ensures
        ({
            let fields = template_fields(t);
            let n = fields.len() as int;
            &&& n >= 3
            &&& fields[n - 3] == (
                "has_available_tools"@,
                json::JsonView::Bool(t.available_tools@.len() > 0),
            )
            &&& fields[n - 2] == (
                "has_active_usage"@,
                json::JsonView::Bool(
                    t.active_tokens is Some || t.max_tokens is Some || t.usage_pct is Some,
                ),
            )
            &&& fields[n - 1] == (
                "has_memory_stats"@,
                json::JsonView::Bool(
                    t.memory_segment_count is Some || t.memory_saved_tokens is Some,
                ),
            )
        }),
{
}

/// The template reads what is known of the project, and the tools that are there, in order.
pub proof fn templates_know_the_project(t: SystemPromptTemplate)
    ensures
        ({
            let fields = template_fields(t);
            &&& fields.len() >= 8
            &&& fields[0] == ("worktrees"@, t.project.worktrees@)
            &&& fields[1] == ("has_rules"@, json::JsonView::Bool(t.project.has_rules))
            &&& fields[2] == ("user_rules"@, t.project.user_rules@)
            &&& fields[3] == ("has_user_rules"@, json::JsonView::Bool(t.project.has_user_rules))
            &&& fields[4] == ("os"@, json::JsonView::Text(t.project.os@))
            &&& fields[5] == ("arch"@, json::JsonView::Text(t.project.arch@))
            &&& fields[6] == ("shell"@, json::JsonView::Text(t.project.shell@))
            &&& fields[7].0 == "available_tools"@
            &&& fields[7].1 matches json::JsonView::Array(tools) && tools.len()
                == t.available_tools@.len() && forall|i: int|
                0 <= i < tools.len() ==> #[trigger] tools[i] == json::JsonView::Text(
                    t.available_tools@[i]@,
                )
        }),
{
}

/// The numbers that are known are told as they are.
pub proof fn templates_know_the_numbers(t: SystemPromptTemplate)
    ensures
        ({
            let fields = template_fields(t);
            &&& t.active_tokens is Some ==> fields.contains(
                ("active_tokens"@, json::JsonView::Unsigned(t.active_tokens->0 as u64)),
            )
            &&& t.max_tokens is Some ==> fields.contains(
                ("max_tokens"@, json::JsonView::Unsigned(t.max_tokens->0 as u64)),
            )
            &&& t.usage_pct is Some ==> fields.contains(
                ("usage_pct"@, json::JsonView::Decimal(t.usage_pct->0@)),
            )
            &&& t.memory_segment_count is Some ==> fields.contains(
                (
                    "memory_segment_count"@,
                    json::JsonView::Unsigned(t.memory_segment_count->0 as u64),
                ),
            )
            &&& t.memory_saved_tokens is Some ==> fields.contains(
                ("memory_saved_tokens"@, json::JsonView::Unsigned(t.memory_saved_tokens->0)),
            )
        }),
{
    let f0 = project_fields(t.project).push(
        ("available_tools"@, json::texts_view(text::views(t.available_tools@))),
    );
    let a = json::optional_field("active_tokens"@, count_value(t.active_tokens));
    let b = json::optional_field("max_tokens"@, count_value(t.max_tokens));
    let c = json::optional_field(
        "usage_pct"@,
        match t.usage_pct {
            Some(p) => Some(json::JsonView::Decimal(p@)),
            None => None,
        },
    );
    let d = json::optional_field("memory_segment_count"@, count_value(t.memory_segment_count));
    let e = json::optional_field(
        "memory_saved_tokens"@,
        match t.memory_saved_tokens {
            Some(n) => Some(json::JsonView::Unsigned(n)),
            None => None,
        },
    );
    let all = f0 + a + b + c + d + e;
    let fields = template_fields(t);
    assert(fields.take(all.len() as int) =~= all);
    assert forall|f: (Seq<char>, json::JsonView)| all.contains(f) implies fields.contains(f) by {
        let i = choose|i: int| 0 <= i < all.len() && all[i] == f;
        assert(fields[i] == all[i]);
    }
    if t.active_tokens is Some {
        let f = a[0];
        assert(a.contains(f));
        found_in_front(f0, a, f);
        found_in_front(f0 + a, b, f);
        found_in_front(f0 + a + b, c, f);
        found_in_front(f0 + a + b + c, d, f);
        found_in_front(f0 + a + b + c + d, e, f);
    }
    if t.max_tokens is Some {
        let f = b[0];
        assert(b.contains(f));
        found_in_front(f0 + a, b, f);
        found_in_front(f0 + a + b, c, f);
        found_in_front(f0 + a + b + c, d, f);
        found_in_front(f0 + a + b + c + d, e, f);
    }
    if t.usage_pct is Some {
        let f = c[0];
        assert(c.contains(f));
        found_in_front(f0 + a + b, c, f);
        found_in_front(f0 + a + b + c, d, f);
        found_in_front(f0 + a + b + c + d, e, f);
    }
    if t.memory_segment_count is Some {
        let f = d[0];
        assert(d.contains(f));
        found_in_front(f0 + a + b + c, d, f);
        found_in_front(f0 + a + b + c + d, e, f);
    }
    if t.memory_saved_tokens is Some {
        let f = e[0];
        assert(e.contains(f));
        found_in_front(f0 + a + b + c + d, e, f);
    }
}

/// What the system prompt says of a thread: its tools, the tokens that were counted, where they were, and
/// how many segments its archive has.
pub proof fn prompts_know_the_thread(
    t: SystemPromptTemplate,
    thread: thread::ThreadView,
    project: ProjectContext,
    usage_pct: Seq<char>,
)
    requires
        describes(t, thread, project, usage_pct),
        thread.segments.len() <= usize::MAX,
    ensures
        t.project == project,
        t.available_tools@.len() == thread.tools.len(),
        forall|i: int|
            0 <= i < thread.tools.len() ==> (#[trigger] t.available_tools@[i])@ == thread.tools[i],
        t.memory_segment_count is Some && t.memory_segment_count->0 == thread.segments.len(),
        (thread.active_tokens is Some && thread.max_tokens is Some && thread.active_tokens->0
            <= usize::MAX && thread.max_tokens->0 <= usize::MAX) ==> t.active_tokens is Some
            && t.active_tokens->0 == thread.active_tokens->0 && t.max_tokens is Some
            && t.max_tokens->0 == thread.max_tokens->0 && t.usage_pct is Some && t.usage_pct->0@
            == usage_pct,
        thread.active_tokens is None || thread.max_tokens is None ==> t.active_tokens is None
            && t.max_tokens is None && t.usage_pct is None,
{
    let names = text::views(t.available_tools@);
    assert(names.len() == t.available_tools@.len());
    assert forall|i: int| 0 <= i < thread.tools.len() implies (
    #[trigger] t.available_tools@[i])@ == thread.tools[i] by {
        assert(names[i] == t.available_tools@[i]@);
    }
}

/// The helper says `true` exactly where the list holds a value that is equal to the other, and nothing
/// where it does not; without a list or without a value it fails.
pub proof fn the_helper_looks_into_the_list(given: Seq<json::JsonView>)
    ensures
        contains_answer(given) is Ok <==> given.len() >= 2 && given[0] is Array,
        contains_answer(given) is Ok ==> contains_answer(given)->Ok_0 == (if exists|i: int|
            0 <= i < given[0]->Array_0.len() && json::equal_json(
                #[trigger] given[0]->Array_0[i],
                given[1],
            ) {
            "true"@
        } else {
            ""@
        }),
{
}

} // verus!
