//! The deterministic command schema: the rigid shapes that free-form
//! directives are normalized into before anything executes them.

use vstd::prelude::*;
use crate::clock::now_rfc3339;

verus! {

// ---------------------------------------------------------------------------
// Intent
// ---------------------------------------------------------------------------

/// The four intent categories a directive can be classified into.
#[derive(Debug, Clone, Copy, PartialEq, Eq, Structural)]
pub enum Intent {
    /// Manage workflows, coordinate agents, spawn tasks.
    Orchestrate,
    /// Search code, gather context, read documentation.
    Research,
    /// Generate, edit, refactor code.
    Code,
    /// Run tests, debug failures, fix issues.
    Test,
}

/// The upper-case display name of an intent.
pub open spec fn intent_name(i: Intent) -> Seq<char> {
    match i {
        Intent::Orchestrate => "ORCHESTRATE"@,
        Intent::Research => "RESEARCH"@,
        Intent::Code => "CODE"@,
        Intent::Test => "TEST"@,
    }
}

/// The human-readable description of an intent.
pub open spec fn intent_description(i: Intent) -> Seq<char> {
    match i {
        Intent::Orchestrate => "Manage workflows, coordinate agents, spawn tasks"@,
        Intent::Research => "Search code, gather context, read documentation"@,
        Intent::Code => "Generate, edit, refactor code"@,
        Intent::Test => "Run tests, debug failures, fix issues"@,
    }
}

impl Intent {
    /// All intents, in classification priority order.
    pub fn all() -> (r: Vec<Intent>)
        ensures
            r@ == seq![Intent::Orchestrate, Intent::Research, Intent::Code, Intent::Test],
    {
        let mut v: Vec<Intent> = Vec::new();
        v.push(Intent::Orchestrate);
        v.push(Intent::Research);
        v.push(Intent::Code);
        v.push(Intent::Test);
        assert(v@ =~= seq![Intent::Orchestrate, Intent::Research, Intent::Code, Intent::Test]);
        v
    }

    /// The upper-case display name.
    pub fn as_str(&self) -> (r: &'static str)
        ensures
            r@ == intent_name(*self),
    {
        match self {
            Intent::Orchestrate => "ORCHESTRATE",
            Intent::Research => "RESEARCH",
            Intent::Code => "CODE",
            Intent::Test => "TEST",
        }
    }

    /// A human-readable description.
    pub fn description(&self) -> (r: &'static str)
        ensures
            r@ == intent_description(*self),
    {
        match self {
            Intent::Orchestrate => "Manage workflows, coordinate agents, spawn tasks",
            Intent::Research => "Search code, gather context, read documentation",
            Intent::Code => "Generate, edit, refactor code",
            Intent::Test => "Run tests, debug failures, fix issues",
        }
    }
}

// ---------------------------------------------------------------------------
// Context maps: ordered key-value pairs with unique keys
// ---------------------------------------------------------------------------

/// Some pair in `m` has key `k`.
pub open spec fn ctx_has_key(m: Seq<(Seq<char>, Seq<char>)>, k: Seq<char>) -> bool {
    exists|i: int| 0 <= i < m.len() && m[i].0 == k
}

/// All keys of `m` are distinct.
pub open spec fn ctx_unique_keys(m: Seq<(Seq<char>, Seq<char>)>) -> bool {
    forall|i: int, j: int| 0 <= i < j < m.len() ==> m[i].0 != m[j].0
}

/// `m` with key `k` bound to `v`: the first pair with key `k` is replaced
/// in place, or a new pair is appended if the key is absent.
pub open spec fn ctx_set(
    m: Seq<(Seq<char>, Seq<char>)>,
    k: Seq<char>,
    v: Seq<char>,
) -> Seq<(Seq<char>, Seq<char>)>
    decreases m.len(),
{
    if m.len() == 0 {
        seq![(k, v)]
    } else if m[0].0 == k {
        seq![(k, v)] + m.skip(1)
    } else {
        seq![m[0]] + ctx_set(m.skip(1), k, v)
    }
}

/// `m` after binding every pair of `ps` in order.
pub open spec fn ctx_set_all(
    m: Seq<(Seq<char>, Seq<char>)>,
    ps: Seq<(Seq<char>, Seq<char>)>,
) -> Seq<(Seq<char>, Seq<char>)>
    decreases ps.len(),
{
    if ps.len() == 0 {
        m
    } else {
        ctx_set_all(ctx_set(m, ps[0].0, ps[0].1), ps.skip(1))
    }
}

/// When the key is bound at position `i`, `ctx_set` is an in-place update.
proof fn lemma_ctx_set_found(m: Seq<(Seq<char>, Seq<char>)>, k: Seq<char>, v: Seq<char>, i: int)
    requires
        0 <= i < m.len(),
        m[i].0 == k,
        forall|j: int| 0 <= j < i ==> m[j].0 != k,
    ensures
        ctx_set(m, k, v) == m.update(i, (k, v)),
    decreases i,
{
    if i == 0 {
        assert(ctx_set(m, k, v) =~= m.update(0, (k, v)));
    } else {
        lemma_ctx_set_found(m.skip(1), k, v, i - 1);
        assert(m.skip(1)[i - 1].0 == k);
        assert(ctx_set(m, k, v) == seq![m[0]] + ctx_set(m.skip(1), k, v));
        assert(seq![m[0]] + m.skip(1).update(i - 1, (k, v)) =~= m.update(i, (k, v)));
    }
}

/// When the key is absent, `ctx_set` appends the new pair.
proof fn lemma_ctx_set_absent(m: Seq<(Seq<char>, Seq<char>)>, k: Seq<char>, v: Seq<char>)
    requires
        !ctx_has_key(m, k),
    ensures
        ctx_set(m, k, v) == m.push((k, v)),
    decreases m.len(),
{
    if m.len() == 0 {
        assert(ctx_set(m, k, v) =~= m.push((k, v)));
    } else {
        assert(m[0].0 != k);
        assert(!ctx_has_key(m.skip(1), k)) by {
            if ctx_has_key(m.skip(1), k) {
                let j = choose|j: int| 0 <= j < m.skip(1).len() && m.skip(1)[j].0 == k;
                assert(m[j + 1].0 == k);
            }
        }
        lemma_ctx_set_absent(m.skip(1), k, v);
        assert(seq![m[0]] + m.skip(1).push((k, v)) =~= m.push((k, v)));
    }
}

/// Binds `key` to `value` in an ordered pair list, replacing the first
/// pair with that key or appending a new one.
fn ctx_insert(ctx: &mut Vec<(String, String)>, key: &str, value: &str)
    requires
        ctx_unique_keys(old(ctx).deep_view()),
    ensures
        final(ctx).deep_view() == ctx_set(old(ctx).deep_view(), key@, value@),
        ctx_unique_keys(final(ctx).deep_view()),
{
    let ghost m = ctx.deep_view();
    let n = ctx.len();
    assert(m.len() == n);
    let mut i: usize = 0;
    while i < n
        invariant
            n == ctx@.len(),
            m == ctx.deep_view(),
            m == old(ctx).deep_view(),
            m.len() == n,
            i <= n,
            ctx_unique_keys(m),
            forall|j: int| 0 <= j < i ==> m[j].0 != key@,
        decreases n - i,
    {
        assert(m[i as int] == (ctx@[i as int].0@, ctx@[i as int].1@));
        if chars_of_eq(&ctx[i].0, key) {
            let ghost ii = i as int;
            ctx[i] = (key.to_owned(), value.to_owned());
            proof {
                assert(ctx.deep_view() =~~= m.update(ii, (key@, value@)));
                lemma_ctx_set_found(m, key@, value@, ii);
                assert(ctx_unique_keys(ctx.deep_view()));
            }
            return ;
        }
        i = i + 1;
    }
    assert(!ctx_has_key(m, key@));
    ctx.push((key.to_owned(), value.to_owned()));
    proof {
        assert(ctx.deep_view() =~~= m.push((key@, value@)));
        lemma_ctx_set_absent(m, key@, value@);
        assert(ctx_unique_keys(ctx.deep_view()));
    }
}

/// Compares a stored string against a string slice.
fn chars_of_eq(a: &String, b: &str) -> (r: bool)
    ensures
        r == (a@ == b@),
{
    let bs = b.to_owned();
    a.eq(&bs)
}

// ---------------------------------------------------------------------------
// Command
// ---------------------------------------------------------------------------

/// One context line of a prompt: `"\n- key: value"`.
pub open spec fn ctx_line(p: (Seq<char>, Seq<char>)) -> Seq<char> {
    "\n- "@ + p.0 + ": "@ + p.1
}

/// All context lines of a prompt, concatenated in order.
pub open spec fn ctx_lines(ps: Seq<(Seq<char>, Seq<char>)>) -> Seq<char>
    decreases ps.len(),
{
    if ps.len() == 0 {
        Seq::empty()
    } else {
        ctx_line(ps[0]) + ctx_lines(ps.skip(1))
    }
}

/// The prompt text handed to the executor: the directive, followed by the
/// context lines under a `Context:` header when any context is present.
pub open spec fn prompt_of(directive: Seq<char>, ps: Seq<(Seq<char>, Seq<char>)>) -> Seq<char> {
    if ps.len() == 0 {
        directive
    } else {
        directive + "\n\nContext:"@ + ctx_lines(ps)
    }
}

/// Appending one more pair extends the context lines by that pair's line.
proof fn lemma_ctx_lines_push(ps: Seq<(Seq<char>, Seq<char>)>, p: (Seq<char>, Seq<char>))
    ensures
        ctx_lines(ps.push(p)) == ctx_lines(ps) + ctx_line(p),
    decreases ps.len(),
{
    if ps.len() == 0 {
        assert(ps.push(p)[0] == p);
        assert(ps.push(p).skip(1) =~= ps);
        assert(ctx_lines(ps.push(p)) =~= ctx_lines(ps) + ctx_line(p));
    } else {
        assert(ps.push(p)[0] == ps[0]);
        assert(ps.push(p).skip(1) =~= ps.skip(1).push(p));
        lemma_ctx_lines_push(ps.skip(1), p);
        assert(ctx_line(ps[0]) + (ctx_lines(ps.skip(1)) + ctx_line(p)) =~= (ctx_line(ps[0])
            + ctx_lines(ps.skip(1))) + ctx_line(p));
    }
}

/// The normalized output of intent extraction.
pub struct Command {
    /// Intent category.
    pub intent: Intent,
    /// Cleaned, unambiguous directive text.
    pub directive: String,
    /// Extracted entities, in extraction order; duplicates allowed.
    pub entities: Vec<String>,
    /// Context key-value pairs, unique keys, in insertion order.
    pub context: Vec<(String, String)>,
    /// Confidence score in hundredths, between 0 and 100.
    pub confidence: u32,
    /// RFC 3339 timestamp taken when the command was created.
    pub created_at: String,
}

impl Command {
    /// The confidence is a scaled fraction and the context keys are unique.
    pub open spec fn wf(&self) -> bool {
        self.confidence <= 100 && ctx_unique_keys(self.context.deep_view())
    }

    /// Creates a command with empty context, stamped with the current time.
    pub fn new(intent: Intent, directive: &str, entities: Vec<String>, confidence: u32) -> (r:
        Command)
        requires
            confidence <= 100,
        ensures
            r.wf(),
            r.intent == intent,
            r.directive@ == directive@,
            r.entities == entities,
            r.context.deep_view() == Seq::<(Seq<char>, Seq<char>)>::empty(),
            r.confidence == confidence,
            r.created_at@.len() > 0,
    {
        let r = Command {
            intent,
            directive: directive.to_owned(),
            entities,
            context: Vec::new(),
            confidence,
            created_at: now_rfc3339(),
        };
        assert(r.context.deep_view() =~= Seq::<(Seq<char>, Seq<char>)>::empty());
        r
    }

    /// Adds one context pair, replacing the value if the key is present.
    pub fn with_context(self, key: &str, value: &str) -> (r: Command)
        requires
            self.wf(),
        ensures
            r.wf(),
            r.intent == self.intent,
            r.directive == self.directive,
            r.entities == self.entities,
            r.confidence == self.confidence,
            r.created_at == self.created_at,
            r.context.deep_view() == ctx_set(self.context.deep_view(), key@, value@),
    {
        let mut r = self;
        ctx_insert(&mut r.context, key, value);
        r
    }

    /// Adds several context pairs, in order.
    pub fn with_contexts(self, contexts: Vec<(String, String)>) -> (r: Command)
        requires
            self.wf(),
        ensures
            r.wf(),
            r.intent == self.intent,
            r.directive == self.directive,
            r.entities == self.entities,
            r.confidence == self.confidence,
            r.created_at == self.created_at,
            r.context.deep_view() == ctx_set_all(self.context.deep_view(), contexts.deep_view()),
    {
        let ghost ps = contexts.deep_view();
        let mut r = self;
        let n = contexts.len();
        let mut i: usize = 0;
        proof {
            assert(ps.skip(0) =~= ps);
        }
        while i < n
            invariant
                n == contexts@.len(),
                ps == contexts.deep_view(),
                ps.len() == n,
                i <= n,
                r.wf(),
                r.intent == self.intent,
                r.directive == self.directive,
                r.entities == self.entities,
                r.confidence == self.confidence,
                r.created_at == self.created_at,
                ctx_set_all(self.context.deep_view(), ps) == ctx_set_all(
                    r.context.deep_view(),
                    ps.skip(i as int),
                ),
            decreases n - i,
        {
            proof {
                assert(ps[i as int] == (contexts@[i as int].0@, contexts@[i as int].1@));
                assert(ps.skip(i as int)[0] == ps[i as int]);
                assert(ps.skip(i as int).skip(1) =~= ps.skip(i as int + 1));
            }
            ctx_insert(&mut r.context, contexts[i].0.as_str(), contexts[i].1.as_str());
            i = i + 1;
        }
        proof {
            assert(ps.skip(n as int) =~= Seq::<(Seq<char>, Seq<char>)>::empty());
        }
        r
    }

    /// Whether the confidence meets the given threshold (in hundredths).
    pub fn is_confident(&self, threshold: u32) -> (r: bool)
        ensures
            r == (self.confidence >= threshold),
    {
        self.confidence >= threshold
    }

    /// Renders the prompt handed to the executor: the directive, plus one
    /// line per context pair when context is present.
    pub fn to_claude_prompt(&self) -> (r: String)
        ensures
            r@ == prompt_of(self.directive@, self.context.deep_view()),
    {
        let ghost ps = self.context.deep_view();
        let mut prompt = self.directive.clone();
        if self.context.len() > 0 {
            prompt.append("\n\nContext:");
            let n = self.context.len();
            let mut i: usize = 0;
            proof {
                assert(ps.take(0) =~= Seq::<(Seq<char>, Seq<char>)>::empty());
            }
            while i < n
                invariant
                    n == self.context@.len(),
                    ps == self.context.deep_view(),
                    ps.len() == n,
                    i <= n,
                    prompt@ == self.directive@ + "\n\nContext:"@ + ctx_lines(ps.take(i as int)),
                decreases n - i,
            {
                proof {
                    assert(ps[i as int] == (self.context@[i as int].0@, self.context@[i as int].1@));
                    assert(ps.take(i as int + 1) =~= ps.take(i as int).push(ps[i as int]));
                    lemma_ctx_lines_push(ps.take(i as int), ps[i as int]);
                }
                prompt.append("\n- ");
                prompt.append(self.context[i].0.as_str());
                prompt.append(": ");
                prompt.append(self.context[i].1.as_str());
                proof {
                    let pre = self.directive@ + "\n\nContext:"@;
                    assert(((pre + ctx_lines(ps.take(i as int)) + "\n- "@) + ps[i as int].0 + ": "@)
                        + ps[i as int].1 =~= pre + (ctx_lines(ps.take(i as int)) + ctx_line(
                        ps[i as int],
                    )));
                }
                i = i + 1;
            }
            proof {
                assert(ps.take(n as int) =~= ps);
            }
        }
        prompt
    }
}

// ---------------------------------------------------------------------------
// Ambiguity records
// ---------------------------------------------------------------------------

/// Record of an ambiguity resolved during intent extraction.
pub struct AmbiguityResolution {
    /// Original ambiguous phrase.
    pub from_phrase: String,
    /// Resolved entity or concept.
    pub to_entity: String,
    /// Context that enabled the resolution.
    pub context: String,
    /// Confidence in the resolution, in hundredths.
    pub confidence: u32,
}

impl AmbiguityResolution {
    /// Creates an ambiguity-resolution record.
    pub fn new(from_phrase: &str, to_entity: &str, context: &str, confidence: u32) -> (r:
        AmbiguityResolution)
        ensures
            r.from_phrase@ == from_phrase@,
            r.to_entity@ == to_entity@,
            r.context@ == context@,
            r.confidence == confidence,
    {
        AmbiguityResolution {
            from_phrase: from_phrase.to_owned(),
            to_entity: to_entity.to_owned(),
            context: context.to_owned(),
            confidence,
        }
    }
}

/// The result of one intent-extraction run.
pub struct IntentExtractionResult {
    /// The extracted command.
    pub command: Command,
    /// The raw transcript that was processed.
    pub transcript: String,
    /// Processing time in milliseconds.
    pub processing_time_ms: u64,
    /// Ambiguities that were resolved along the way.
    pub ambiguities_resolved: Vec<AmbiguityResolution>,
}

} // verus!
