//! The intent processor: a deterministic mapping from a raw transcript to a
//! normalized command, by keyword classification, entity extraction,
//! filler-phrase removal and context detection.

use vstd::prelude::*;
use crate::clock::now_rfc3339;
use crate::schema::{Command, Intent, ctx_unique_keys};
use crate::text::{
    chars_to_string, chars_eq_lit, contains_lit, is_substring, join_sp, lower, remove_all,
    remove_lit, split_ws, str_to_chars, to_lower, tokenize,
};

verus! {

// ---------------------------------------------------------------------------
// Keyword classification
// ---------------------------------------------------------------------------

/// The transcript mentions an orchestration keyword.
pub open spec fn has_orchestrate_kw(t: Seq<char>) -> bool {
    ||| is_substring(t, "run"@)
    ||| is_substring(t, "execute"@)
    ||| is_substring(t, "start"@)
    ||| is_substring(t, "launch"@)
    ||| is_substring(t, "deploy"@)
    ||| is_substring(t, "build"@)
}

/// The transcript mentions a research keyword.
pub open spec fn has_research_kw(t: Seq<char>) -> bool {
    ||| is_substring(t, "find"@)
    ||| is_substring(t, "search"@)
    ||| is_substring(t, "look"@)
    ||| is_substring(t, "where"@)
    ||| is_substring(t, "what"@)
    ||| is_substring(t, "show"@)
    ||| is_substring(t, "list"@)
}

/// The transcript mentions a testing keyword.
pub open spec fn has_test_kw(t: Seq<char>) -> bool {
    ||| is_substring(t, "test"@)
    ||| is_substring(t, "debug"@)
    ||| is_substring(t, "fix"@)
    ||| is_substring(t, "check"@)
    ||| is_substring(t, "verify"@)
}

/// The transcript mentions a coding keyword.
pub open spec fn has_code_kw(t: Seq<char>) -> bool {
    ||| is_substring(t, "create"@)
    ||| is_substring(t, "add"@)
    ||| is_substring(t, "write"@)
    ||| is_substring(t, "update"@)
    ||| is_substring(t, "refactor"@)
    ||| is_substring(t, "implement"@)
    ||| is_substring(t, "generate"@)
}

/// The intent of a lowercased transcript: the keyword sets are tested in a
/// fixed priority order and the first match wins; with no match the
/// transcript defaults to a coding intent.
pub open spec fn intent_of(t: Seq<char>) -> Intent {
    if has_orchestrate_kw(t) {
        Intent::Orchestrate
    } else if has_research_kw(t) {
        Intent::Research
    } else if has_test_kw(t) {
        Intent::Test
    } else {
        Intent::Code
    }
}

/// The confidence (in hundredths) of a classification: 85 on a keyword
/// match, 60 for the default.
pub open spec fn confidence_of(t: Seq<char>) -> u32 {
    if has_orchestrate_kw(t) || has_research_kw(t) || has_test_kw(t) || has_code_kw(t) {
        85
    } else {
        60
    }
}

// ---------------------------------------------------------------------------
// Filler-phrase removal and directive cleaning
// ---------------------------------------------------------------------------

/// `s` with every occurrence of the fixed filler phrases removed, one
/// phrase after the other. Removal is literal substring removal, not
/// word-boundary-aware.
pub open spec fn remove_fillers(s: Seq<char>) -> Seq<char> {
    let s1 = remove_all(s, "um"@);
    let s2 = remove_all(s1, "uh"@);
    let s3 = remove_all(s2, "like"@);
    let s4 = remove_all(s3, "you know"@);
    let s5 = remove_all(s4, "actually"@);
    let s6 = remove_all(s5, "basically"@);
    let s7 = remove_all(s6, "just"@);
    let s8 = remove_all(s7, "please"@);
    let s9 = remove_all(s8, "can you"@);
    let s10 = remove_all(s9, "could you"@);
    let s11 = remove_all(s10, "i want"@);
    remove_all(s11, "i need"@)
}

/// `s` contains none of the filler phrases.
pub open spec fn filler_free(s: Seq<char>) -> bool {
    &&& !is_substring(s, "um"@)
    &&& !is_substring(s, "uh"@)
    &&& !is_substring(s, "like"@)
    &&& !is_substring(s, "you know"@)
    &&& !is_substring(s, "actually"@)
    &&& !is_substring(s, "basically"@)
    &&& !is_substring(s, "just"@)
    &&& !is_substring(s, "please"@)
    &&& !is_substring(s, "can you"@)
    &&& !is_substring(s, "could you"@)
    &&& !is_substring(s, "i want"@)
    &&& !is_substring(s, "i need"@)
}

/// The cleaned directive: fillers removed, whitespace runs collapsed to
/// single spaces, and the ends trimmed.
pub open spec fn cleaned(s: Seq<char>) -> Seq<char> {
    join_sp(split_ws(remove_fillers(s)))
}

// ---------------------------------------------------------------------------
// Entity extraction
// ---------------------------------------------------------------------------

/// The transcript mentions one of the filename extensions that trigger
/// file-token extraction.
pub open spec fn has_file_marker(t: Seq<char>) -> bool {
    is_substring(t, ".rs"@) || is_substring(t, ".php"@) || is_substring(t, ".js"@)
}

/// A word that looks like a filename: contains a dot and does not end
/// with one.
pub open spec fn is_file_token(w: Seq<char>) -> bool {
    w.contains('.') && w.len() > 0 && w[w.len() - 1] != '.'
}

/// The file-token filter as a reusable spec closure.
pub open spec fn file_token_pred() -> spec_fn(Seq<char>) -> bool {
    |w: Seq<char>| is_file_token(w)
}

/// The filename-like words of the transcript, in order, when an extension
/// marker is present.
pub open spec fn file_entities(t: Seq<char>) -> Seq<Seq<char>> {
    if has_file_marker(t) {
        split_ws(t).filter(file_token_pred())
    } else {
        Seq::empty()
    }
}

/// The literal test-kind entities, for a testing intent.
pub open spec fn test_entities(t: Seq<char>, intent: Intent) -> Seq<Seq<char>> {
    if intent == Intent::Test {
        (if is_substring(t, "unit"@) {
            seq!["unit"@]
        } else {
            Seq::empty()
        }) + (if is_substring(t, "integration"@) {
            seq!["integration"@]
        } else {
            Seq::empty()
        })
    } else {
        Seq::empty()
    }
}

/// A code-structure keyword that announces a named construct.
pub open spec fn is_struct_kw(w: Seq<char>) -> bool {
    w == "class"@ || w == "function"@ || w == "method"@
}

/// The transcript mentions a code-structure keyword.
pub open spec fn has_struct_kw(t: Seq<char>) -> bool {
    is_substring(t, "class"@) || is_substring(t, "function"@) || is_substring(t, "method"@)
}

/// The entity contributed by position `i` of the word list: the word after
/// a structure keyword, skipping a literal `for` connector.
pub open spec fn struct_entry(ws: Seq<Seq<char>>, i: int) -> Seq<Seq<char>> {
    if is_struct_kw(ws[i]) && i + 1 < ws.len() {
        if ws[i + 1] == "for"@ {
            if i + 2 < ws.len() {
                seq![ws[i + 2]]
            } else {
                Seq::empty()
            }
        } else {
            seq![ws[i + 1]]
        }
    } else {
        Seq::empty()
    }
}

/// The code-structure entities contributed by positions `i` onward.
pub open spec fn struct_entities_from(ws: Seq<Seq<char>>, i: int) -> Seq<Seq<char>>
    decreases ws.len() - i,
{
    if 0 <= i < ws.len() {
        struct_entry(ws, i) + struct_entities_from(ws, i + 1)
    } else {
        Seq::empty()
    }
}

/// The code-structure entities of the transcript.
pub open spec fn struct_entities(t: Seq<char>) -> Seq<Seq<char>> {
    if has_struct_kw(t) {
        struct_entities_from(split_ws(t), 0)
    } else {
        Seq::empty()
    }
}

/// All entities extracted from a lowercased transcript, in extraction
/// order: file tokens, then test kinds, then code-structure names.
pub open spec fn entities_of(t: Seq<char>, intent: Intent) -> Seq<Seq<char>> {
    file_entities(t) + test_entities(t, intent) + struct_entities(t)
}

// ---------------------------------------------------------------------------
// Context detection
// ---------------------------------------------------------------------------

/// The transcript mentions an urgency keyword.
pub open spec fn has_urgency_kw(t: Seq<char>) -> bool {
    ||| is_substring(t, "urgent"@)
    ||| is_substring(t, "asap"@)
    ||| is_substring(t, "quick"@)
    ||| is_substring(t, "fast"@)
    ||| is_substring(t, "now"@)
}

/// The transcript mentions a broad-scope keyword.
pub open spec fn has_broad_kw(t: Seq<char>) -> bool {
    ||| is_substring(t, "all"@)
    ||| is_substring(t, "every"@)
    ||| is_substring(t, "entire"@)
    ||| is_substring(t, "whole"@)
}

/// The transcript mentions a narrow-scope keyword.
pub open spec fn has_narrow_kw(t: Seq<char>) -> bool {
    ||| is_substring(t, "this"@)
    ||| is_substring(t, "that"@)
    ||| is_substring(t, "single"@)
    ||| is_substring(t, "one"@)
}

/// The context pairs derived from a lowercased transcript; the broad-scope
/// check takes priority over the narrow one.
pub open spec fn context_of(t: Seq<char>) -> Seq<(Seq<char>, Seq<char>)> {
    (if has_urgency_kw(t) {
        seq![("urgency"@, "high"@)]
    } else {
        Seq::empty()
    }) + (if has_broad_kw(t) {
        seq![("scope"@, "broad"@)]
    } else if has_narrow_kw(t) {
        seq![("scope"@, "narrow"@)]
    } else {
        Seq::empty()
    })
}

// ---------------------------------------------------------------------------
// The processor
// ---------------------------------------------------------------------------

/// Deterministic intent processor; pure text transformation, no failures.
pub struct IntentProcessor {
    /// Confidence threshold (in hundredths) configured for downstream
    /// confirmation decisions.
    pub confidence_threshold: u32,
}

impl IntentProcessor {
    /// Creates a processor with the given confidence threshold.
    pub fn new(confidence_threshold: u32) -> (r: IntentProcessor)
        ensures
            r.confidence_threshold == confidence_threshold,
    {
        IntentProcessor { confidence_threshold }
    }

    /// Processes a raw transcript into a command: classification and
    /// extraction read the lowercased text, while the directive keeps the
    /// original casing, minus fillers and collapsed whitespace.
    pub fn process(&self, transcript: &str) -> (r: Command)
        ensures
            r.wf(),
            r.intent == intent_of(lower(transcript@)),
            r.confidence == confidence_of(lower(transcript@)),
            r.directive@ == cleaned(transcript@),
            r.entities.deep_view() == entities_of(lower(transcript@), r.intent),
            r.context.deep_view() == context_of(lower(transcript@)),
            r.created_at@.len() > 0,
    {
        let chars = str_to_chars(transcript);
        let lowered = to_lower(&chars);
        let (intent, confidence) = self.detect_intent(&lowered);
        let entities = self.extract_entities(&lowered, &intent);
        let directive_chars = self.clean_directive(&chars);
        let directive = chars_to_string(&directive_chars);
        let context = self.build_context(&lowered);
        Command { intent, directive, entities, context, confidence, created_at: now_rfc3339() }
    }

    /// Classifies a lowercased transcript, first keyword set wins.
    fn detect_intent(&self, text: &Vec<char>) -> (r: (Intent, u32))
        ensures
            r.0 == intent_of(text@),
            r.1 == confidence_of(text@),
    {
        if self.has_any_orchestrate(text) {
            (Intent::Orchestrate, 85)
        } else if self.has_any_research(text) {
            (Intent::Research, 85)
        } else if self.has_any_test(text) {
            (Intent::Test, 85)
        } else if self.has_any_code(text) {
            (Intent::Code, 85)
        } else {
            (Intent::Code, 60)
        }
    }

    fn has_any_orchestrate(&self, t: &Vec<char>) -> (r: bool)
        ensures
            r == has_orchestrate_kw(t@),
    {
        contains_lit(t, "run") || contains_lit(t, "execute") || contains_lit(t, "start")
            || contains_lit(t, "launch") || contains_lit(t, "deploy") || contains_lit(t, "build")
    }

    fn has_any_research(&self, t: &Vec<char>) -> (r: bool)
        ensures
            r == has_research_kw(t@),
    {
        contains_lit(t, "find") || contains_lit(t, "search") || contains_lit(t, "look")
            || contains_lit(t, "where") || contains_lit(t, "what") || contains_lit(t, "show")
            || contains_lit(t, "list")
    }

    fn has_any_test(&self, t: &Vec<char>) -> (r: bool)
        ensures
            r == has_test_kw(t@),
    {
        contains_lit(t, "test") || contains_lit(t, "debug") || contains_lit(t, "fix")
            || contains_lit(t, "check") || contains_lit(t, "verify")
    }

    fn has_any_code(&self, t: &Vec<char>) -> (r: bool)
        ensures
            r == has_code_kw(t@),
    {
        contains_lit(t, "create") || contains_lit(t, "add") || contains_lit(t, "write")
            || contains_lit(t, "update") || contains_lit(t, "refactor") || contains_lit(
            t,
            "implement",
        ) || contains_lit(t, "generate")
    }

    /// Extracts entities from the lowercased transcript.
    fn extract_entities(&self, text: &Vec<char>, intent: &Intent) -> (r: Vec<String>)
        ensures
            r.deep_view() == entities_of(text@, *intent),
    {
        let ghost t = text@;
        let mut out: Vec<String> = Vec::new();
        proof {
            assert(out.deep_view() =~~= Seq::<Seq<char>>::empty());
        }

        // Filename-like tokens, when an extension marker is present.
        if contains_lit(text, ".rs") || contains_lit(text, ".php") || contains_lit(text, ".js") {
            let toks = tokenize(text);
            let ghost ws = split_ws(t);
            let n = toks.len();
            let mut k: usize = 0;
            proof {
                assert(ws.take(0) =~= Seq::<Seq<char>>::empty());
                reveal(Seq::filter);
                assert(out.deep_view() =~~= ws.take(0).filter(file_token_pred()));
            }
            while k < n
                invariant
                    n == toks@.len(),
                    ws == toks.deep_view(),
                    ws.len() == n,
                    k <= n,
                    out.deep_view() == ws.take(k as int).filter(file_token_pred()),
                decreases n - k,
            {
                let ghost out0 = out.deep_view();
                let w = &toks[k];
                proof {
                    assert(ws[k as int] == toks@[k as int].deep_view());
                    assert(toks@[k as int].deep_view() =~= toks@[k as int]@);
                }
                if is_file_token_exec(w) {
                    out.push(chars_to_string(w));
                    proof {
                        assert(out.deep_view() =~~= out0.push(w@));
                    }
                }
                proof {
                    reveal(Seq::filter);
                    assert(ws.take(k as int + 1).drop_last() =~= ws.take(k as int));
                    assert(ws.take(k as int + 1).last() == ws[k as int]);
                }
                k = k + 1;
            }
            proof {
                assert(ws.take(n as int) =~= ws);
            }
        }
        let ghost phase1 = out.deep_view();
        proof {
            assert(phase1 =~= file_entities(t));
        }

        // Literal test kinds for a testing intent.
        if *intent == Intent::Test {
            if contains_lit(text, "unit") {
                let ghost out0 = out.deep_view();
                out.push(String::from_str("unit"));
                proof {
                    assert(out.deep_view() =~~= out0.push("unit"@));
                }
            }
            if contains_lit(text, "integration") {
                let ghost out0 = out.deep_view();
                out.push(String::from_str("integration"));
                proof {
                    assert(out.deep_view() =~~= out0.push("integration"@));
                }
            }
        }
        proof {
            assert(out.deep_view() =~= phase1 + test_entities(t, *intent));
        }
        let ghost phase2 = out.deep_view();

        // Names following code-structure keywords.
        if contains_lit(text, "class") || contains_lit(text, "function") || contains_lit(
            text,
            "method",
        ) {
            let toks = tokenize(text);
            let ghost ws = split_ws(t);
            let n = toks.len();
            let mut k: usize = 0;
            while k < n
                invariant
                    n == toks@.len(),
                    ws == toks.deep_view(),
                    ws.len() == n,
                    k <= n,
                    phase2 + struct_entities_from(ws, 0) == out.deep_view()
                        + struct_entities_from(ws, k as int),
                decreases n - k,
            {
                let ghost out0 = out.deep_view();
                proof {
                    assert(ws[k as int] == toks@[k as int].deep_view());
                    assert(toks@[k as int].deep_view() =~= toks@[k as int]@);
                }
                let w = &toks[k];
                if chars_eq_lit(w, "class") || chars_eq_lit(w, "function") || chars_eq_lit(
                    w,
                    "method",
                ) {
                    if k + 1 < n {
                        proof {
                            assert(ws[k as int + 1] == toks@[k as int + 1].deep_view());
                            assert(toks@[k as int + 1].deep_view() =~= toks@[k as int + 1]@);
                        }
                        let next = &toks[k + 1];
                        if chars_eq_lit(next, "for") {
                            if k + 2 < n {
                                proof {
                                    assert(ws[k as int + 2] == toks@[k as int + 2].deep_view());
                                    assert(toks@[k as int + 2].deep_view() =~= toks@[k as int + 2]@);
                                }
                                out.push(chars_to_string(&toks[k + 2]));
                                proof {
                                    assert(out.deep_view() =~~= out0.push(ws[k as int + 2]));
                                }
                            }
                        } else {
                            out.push(chars_to_string(next));
                            proof {
                                assert(out.deep_view() =~~= out0.push(ws[k as int + 1]));
                            }
                        }
                    }
                }
                proof {
                    assert(out0 + (struct_entry(ws, k as int) + struct_entities_from(
                        ws,
                        k as int + 1,
                    )) =~= (out0 + struct_entry(ws, k as int)) + struct_entities_from(
                        ws,
                        k as int + 1,
                    ));
                    assert(out.deep_view() =~= out0 + struct_entry(ws, k as int));
                }
                k = k + 1;
            }
            proof {
                assert(struct_entities_from(ws, n as int) == Seq::<Seq<char>>::empty());
                assert(out.deep_view() + Seq::<Seq<char>>::empty() =~= out.deep_view());
                assert(out.deep_view() =~= phase2 + struct_entities(t));
            }
        } else {
            proof {
                assert(out.deep_view() =~= phase2 + struct_entities(t));
            }
        }
        proof {
            assert(phase2 + struct_entities(t) =~= (phase1 + test_entities(t, *intent))
                + struct_entities(t));
            assert(out.deep_view() =~= entities_of(t, *intent));
        }
        out
    }

    /// Cleans the directive: removes the filler phrases, collapses
    /// whitespace runs and trims the ends.
    fn clean_directive(&self, text: &Vec<char>) -> (r: Vec<char>)
        ensures
            r@ == cleaned(text@),
    {
        proof {
            reveal_strlit("um");
            reveal_strlit("uh");
            reveal_strlit("like");
            reveal_strlit("you know");
            reveal_strlit("actually");
            reveal_strlit("basically");
            reveal_strlit("just");
            reveal_strlit("please");
            reveal_strlit("can you");
            reveal_strlit("could you");
            reveal_strlit("i want");
            reveal_strlit("i need");
        }
        let s1 = remove_lit(text, "um");
        let s2 = remove_lit(&s1, "uh");
        let s3 = remove_lit(&s2, "like");
        let s4 = remove_lit(&s3, "you know");
        let s5 = remove_lit(&s4, "actually");
        let s6 = remove_lit(&s5, "basically");
        let s7 = remove_lit(&s6, "just");
        let s8 = remove_lit(&s7, "please");
        let s9 = remove_lit(&s8, "can you");
        let s10 = remove_lit(&s9, "could you");
        let s11 = remove_lit(&s10, "i want");
        let s12 = remove_lit(&s11, "i need");
        assert(s12@ == remove_fillers(text@));
        let toks = tokenize(&s12);
        crate::text::join_words(&toks)
    }

    /// Builds the context pairs from the lowercased transcript.
    fn build_context(&self, text: &Vec<char>) -> (r: Vec<(String, String)>)
        ensures
            r.deep_view() == context_of(text@),
            ctx_unique_keys(r.deep_view()),
    {
        let mut out: Vec<(String, String)> = Vec::new();
        if contains_lit(text, "urgent") || contains_lit(text, "asap") || contains_lit(
            text,
            "quick",
        ) || contains_lit(text, "fast") || contains_lit(text, "now") {
            out.push((String::from_str("urgency"), String::from_str("high")));
        }
        if contains_lit(text, "all") || contains_lit(text, "every") || contains_lit(
            text,
            "entire",
        ) || contains_lit(text, "whole") {
            out.push((String::from_str("scope"), String::from_str("broad")));
        } else if contains_lit(text, "this") || contains_lit(text, "that") || contains_lit(
            text,
            "single",
        ) || contains_lit(text, "one") {
            out.push((String::from_str("scope"), String::from_str("narrow")));
        }
        proof {
            assert(out.deep_view() =~~= context_of(text@));
            reveal_strlit("urgency");
            reveal_strlit("scope");
            assert("urgency"@.len() == 7);
            assert("scope"@.len() == 5);
            assert("urgency"@ != "scope"@);
            assert(ctx_unique_keys(out.deep_view()));
        }
        out
    }
}

/// Whether a word looks like a filename.
fn is_file_token_exec(w: &Vec<char>) -> (r: bool)
    ensures
        r == is_file_token(w@),
{
    let n = w.len();
    if n == 0 {
        return false;
    }
    if w[n - 1] == '.' {
        return false;
    }
    let mut i: usize = 0;
    while i < n
        invariant
            n == w@.len(),
            1 <= n,
            w@[n - 1] != '.',
            i <= n,
            forall|k: int| 0 <= k < i ==> w@[k] != '.',
        decreases n - i,
    {
        if w[i] == '.' {
            assert(w@.contains('.'));
            return true;
        }
        i = i + 1;
    }
    assert(!w@.contains('.'));
    false
}

// ---------------------------------------------------------------------------
// Classification priority law
// ---------------------------------------------------------------------------

/// A transcript that mentions an orchestration keyword is always classified
/// as orchestration, at confidence 85: the orchestration set is checked
/// first, so no other keyword can take priority over it.
pub proof fn lemma_orchestrate_keyword_wins(t: Seq<char>)
    requires
        has_orchestrate_kw(lower(t)),
    ensures
        intent_of(lower(t)) == Intent::Orchestrate,
        confidence_of(lower(t)) == 85,
{
}

/// Cleaning is idempotent on already-clean directives: text that contains
/// no filler phrase and whose whitespace is already collapsed to single
/// interior spaces comes back from cleaning unchanged.
pub proof fn lemma_clean_noop_on_clean(s: Seq<char>)
    requires
        filler_free(s),
        crate::text::ws_canonical(s),
    ensures
        cleaned(s) == s,
{
    reveal_strlit("um");
    reveal_strlit("uh");
    reveal_strlit("like");
    reveal_strlit("you know");
    reveal_strlit("actually");
    reveal_strlit("basically");
    reveal_strlit("just");
    reveal_strlit("please");
    reveal_strlit("can you");
    reveal_strlit("could you");
    reveal_strlit("i want");
    reveal_strlit("i need");
    crate::text::lemma_remove_all_absent(s, "um"@);
    crate::text::lemma_remove_all_absent(s, "uh"@);
    crate::text::lemma_remove_all_absent(s, "like"@);
    crate::text::lemma_remove_all_absent(s, "you know"@);
    crate::text::lemma_remove_all_absent(s, "actually"@);
    crate::text::lemma_remove_all_absent(s, "basically"@);
    crate::text::lemma_remove_all_absent(s, "just"@);
    crate::text::lemma_remove_all_absent(s, "please"@);
    crate::text::lemma_remove_all_absent(s, "can you"@);
    crate::text::lemma_remove_all_absent(s, "could you"@);
    crate::text::lemma_remove_all_absent(s, "i want"@);
    crate::text::lemma_remove_all_absent(s, "i need"@);
    assert(remove_fillers(s) == s);
    crate::text::lemma_join_split_canonical(s);
}

} // verus!
