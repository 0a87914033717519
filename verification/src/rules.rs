//! The rule compiler: raw `FIELD=PATTERN` strings become compiled blacklist
//! rules. A string without `=`, or one whose pattern does not compile, is
//! skipped with a diagnostic and never aborts compilation.

use vstd::prelude::*;

use crate::model::Diagnostic;
use crate::model::DiagnosticView;
use crate::model::diags_view;

verus! {

/// Whether `regex::Regex::new` accepts the pattern. Compilation success
/// depends on the pattern text alone.
pub uninterp spec fn pattern_ok(pat: Seq<char>) -> bool;

/// Whether the regular expression compiled from `pat` finds a match
/// anywhere in `text`. The result depends on the two texts alone.
pub uninterp spec fn pattern_matches(pat: Seq<char>, text: Seq<char>) -> bool;

#[verifier::external_type_specification]
#[verifier::external_body]
pub struct ExRegex(regex::Regex);

#[verifier::external_type_specification]
#[verifier::external_body]
pub struct ExRegexError(regex::Error);

/// One compiled blacklist rule: the field it applies to, the pattern text,
/// and the regular expression compiled from that exact text.
pub struct CompiledRule {
    field: String,
    pattern: String,
    regex: regex::Regex,
}

/// Mathematical image of a compiled rule: the field name and pattern text.
pub struct RuleView {
    pub field: Seq<char>,
    pub pattern: Seq<char>,
}

impl View for CompiledRule {
    type V = RuleView;

    closed spec fn view(&self) -> RuleView {
        RuleView { field: self.field@, pattern: self.pattern@ }
    }
}

/// Splitting a rule string at its first `=`: the part before it and
/// everything after it, or nothing when the string has no `=`.
pub open spec fn spec_split_rule(s: Seq<char>) -> Option<(Seq<char>, Seq<char>)>
    decreases s.len(),
{
    if s.len() == 0 {
        None
    } else if s[0] == '=' {
        Some((Seq::empty(), s.drop_first()))
    } else {
        match spec_split_rule(s.drop_first()) {
            None => None,
            Some(kv) => Some((seq![s[0]] + kv.0, kv.1)),
        }
    }
}

/// Relies on str::split_once: splits at the first occurrence of `=`,
/// returning the prefix before it and the suffix after it, or nothing
/// when the separator does not occur.
#[verifier::external_body]
fn split_rule(s: &str) -> (r: Option<(String, String)>)
    ensures
        match r {
            Some(kv) => spec_split_rule(s@) == Some((kv.0@, kv.1@)),
            None => spec_split_rule(s@) is None,
        },
{
    match s.split_once('=') {
        Some((k, v)) => Some((k.to_string(), v.to_string())),
        None => None,
    }
}

/// Relies on regex::Regex::new: compiles the pattern, failing exactly on
/// pattern texts the crate rejects; on success the compiled expression is
/// paired with the very texts it was built from.
#[verifier::external_body]
fn compile_rule(field: String, pattern: String) -> (r: Result<CompiledRule, regex::Error>)
    ensures
        r is Ok <==> pattern_ok(pattern@),
        r matches Ok(c) ==> c@ == (RuleView { field: field@, pattern: pattern@ }),
{
    match regex::Regex::new(&pattern) {
        Ok(regex) => Ok(CompiledRule { field, pattern, regex }),
        Err(e) => Err(e),
    }
}

/// Relies on regex::Regex::is_match: true iff the pattern, as compiled by
/// `compile_rule` from this rule's pattern text, matches anywhere in
/// `text`; the result is a function of the two texts alone.
#[verifier::external_body]
fn rule_is_match(rule: &CompiledRule, text: &str) -> (r: bool)
    ensures
        r == pattern_matches(rule@.pattern, text@),
{
    rule.regex.is_match(text)
}

/// The compiled rules a sequence of rule strings yields: each string that
/// splits on `=` and whose pattern compiles contributes one rule, in order;
/// the rest contribute nothing.
pub open spec fn spec_compile(rules: Seq<Seq<char>>) -> Seq<RuleView>
    decreases rules.len(),
{
    if rules.len() == 0 {
        Seq::empty()
    } else {
        let init = spec_compile(rules.drop_last());
        match spec_split_rule(rules.last()) {
            None => init,
            Some(kv) => if pattern_ok(kv.1) {
                init.push(RuleView { field: kv.0, pattern: kv.1 })
            } else {
                init
            },
        }
    }
}

/// The diagnostics rule compilation yields: one per skipped string, in order.
pub open spec fn spec_compile_diags(rules: Seq<Seq<char>>) -> Seq<DiagnosticView>
    decreases rules.len(),
{
    if rules.len() == 0 {
        Seq::empty()
    } else {
        let init = spec_compile_diags(rules.drop_last());
        match spec_split_rule(rules.last()) {
            None => init.push(DiagnosticView::InvalidRule { rule: rules.last() }),
            Some(kv) => if pattern_ok(kv.1) {
                init
            } else {
                init.push(DiagnosticView::InvalidPattern { pattern: kv.1 })
            },
        }
    }
}

/// The view of a sequence of rule strings.
pub open spec fn strings_view(s: Seq<String>) -> Seq<Seq<char>> {
    s.map_values(|x: String| x@)
}

/// An ordered collection of compiled blacklist rules.
pub struct RuleSet {
    rules: Vec<CompiledRule>,
}

impl View for RuleSet {
    type V = Seq<RuleView>;

    closed spec fn view(&self) -> Seq<RuleView> {
        self.rules@.map_values(|r: CompiledRule| r@)
    }
}

impl RuleSet {
    /// Compile a sequence of `FIELD=PATTERN` rule strings. Malformed
    /// strings and invalid patterns are skipped, each with one diagnostic;
    /// compilation itself always succeeds.
    pub fn compile(blacklist: &Vec<String>) -> (r: (RuleSet, Vec<Diagnostic>))
        ensures
            r.0@ == spec_compile(strings_view(blacklist@)),
            diags_view(r.1@) == spec_compile_diags(strings_view(blacklist@)),
    {
        let mut rules: Vec<CompiledRule> = Vec::new();
        let mut diags: Vec<Diagnostic> = Vec::new();
        let mut i: usize = 0;
        while i < blacklist.len()
            invariant
                0 <= i <= blacklist.len(),
                rules@.map_values(|r: CompiledRule| r@) == spec_compile(
                    strings_view(blacklist@).take(i as int),
                ),
                diags_view(diags@) == spec_compile_diags(strings_view(blacklist@).take(i as int)),
            decreases blacklist.len() - i,
        {
            let ghost prefix = strings_view(blacklist@).take(i as int);
            let ghost next = strings_view(blacklist@).take(i + 1);
            proof {
                assert(next.drop_last() =~= prefix);
                assert(next.last() == blacklist@[i as int]@);
            }
            let entry = &blacklist[i];
            match split_rule(entry.as_str()) {
                None => {
                    diags.push(Diagnostic::InvalidRule { rule: entry.clone() });
                    proof {
                        assert(diags_view(diags@) =~= spec_compile_diags(next));
                    }
                },
                Some((field, pattern)) => {
                    let ghost pat = pattern@;
                    match compile_rule(field, pattern.clone()) {
                        Ok(rule) => {
                            rules.push(rule);
                            proof {
                                assert(rules@.map_values(|r: CompiledRule| r@) =~= spec_compile(
                                    next,
                                ));
                                assert(diags_view(diags@) =~= spec_compile_diags(next));
                            }
                        },
                        Err(_) => {
                            diags.push(Diagnostic::InvalidPattern { pattern });
                            proof {
                                assert(diags_view(diags@) =~= spec_compile_diags(next));
                            }
                        },
                    }
                },
            }
            i = i + 1;
        }
        proof {
            assert(strings_view(blacklist@).take(blacklist@.len() as int) =~= strings_view(
                blacklist@,
            ));
        }
        (RuleSet { rules }, diags)
    }

    /// The number of compiled rules held.
    pub fn len(&self) -> (n: usize)
        ensures
            n == self@.len(),
    {
        self.rules.len()
    }

    /// Whether some rule names this property's name and its pattern matches
    /// the property's value, an absent value matching as the empty string.
    pub fn rejects_property(&self, name: &String, value: &Option<String>) -> (r: bool)
        ensures
            r == spec_rejects_property(self@, name@, crate::model::opt_view(*value)),
    {
        let mut i: usize = 0;
        while i < self.rules.len()
            invariant
                0 <= i <= self.rules.len(),
                forall|j: int|
                    0 <= j < i ==> !(self@[j].field == name@ && pattern_matches(
                        self@[j].pattern,
                        value_or_empty(crate::model::opt_view(*value)),
                    )),
            decreases self.rules.len() - i,
        {
            let rule = &self.rules[i];
            if crate::model::str_eq(&rule.field, name.as_str()) {
                let matched = match value {
                    Some(v) => rule_is_match(rule, v.as_str()),
                    None => {
                        let r = rule_is_match(rule, "");
                        proof {
                            reveal_strlit("");
                            assert(""@ =~= value_or_empty(crate::model::opt_view(*value)));
                        }
                        r
                    },
                };
                if matched {
                    assert(self@[i as int].field == name@ && pattern_matches(
                        self@[i as int].pattern,
                        value_or_empty(crate::model::opt_view(*value)),
                    ));
                    return true;
                }
            }
            i = i + 1;
        }
        false
    }
}

/// A property value for matching: an absent value matches as the empty string.
pub open spec fn value_or_empty(v: Option<Seq<char>>) -> Seq<char> {
    match v {
        Some(s) => s,
        None => Seq::empty(),
    }
}

/// Whether a property with this name and value falls to some rule: its name
/// is a rule's field and that rule's pattern matches its value.
pub open spec fn spec_rejects_property(
    rules: Seq<RuleView>,
    name: Seq<char>,
    value: Option<Seq<char>>,
) -> bool {
    exists|j: int|
        0 <= j < rules.len() && rules[j].field == name && pattern_matches(
            rules[j].pattern,
            value_or_empty(value),
        )
}

} // verus!
