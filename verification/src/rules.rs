//! Rule evaluation.
//!
//! Every library, native, and modern-argument entry is kept or dropped here. Rules
//! come in two dialects, both understood against a single [`Ctx`]: the
//! arch-in-name token (`os.name == "osx-arm64"`) and the classic
//! `name`/`arch`/`version`-regex form, plus the `features` gate.

use vstd::prelude::*;

use crate::model::patch::{Os, OsView, Rule, RuleView};
use crate::pattern::{regex_matches, regex_verdict};
use crate::platform::{Ctx, CtxView};
use crate::text::same_text;

verus! {

/// Whether an `os` predicate holds, given what its version pattern says of the
/// version of the platform. Each present field must match; `name` matches the
/// token *or* the classic name.
pub open spec fn os_holds_given(os: OsView, ctx: CtxView, verdict: Option<bool>) -> bool {
    &&& os.name matches Some(name) ==> name == ctx.os_token || name == ctx.os_name
    &&& os.arch matches Some(arch) ==> arch == ctx.arch
    &&& os.version is Some ==> verdict == Some(true)
}

/// Whether an `os` predicate holds. A malformed version pattern matches nothing.
pub open spec fn os_holds(os: OsView, ctx: CtxView) -> bool {
    os_holds_given(
        os,
        ctx,
        match os.version {
            Some(pattern) => regex_verdict(pattern, ctx.version),
            None => None,
        },
    )
}

/// Whether every feature that is asked for has the wanted state.
pub open spec fn features_hold(features: Seq<(Seq<char>, bool)>, ctx: CtxView) -> bool {
    forall|i: int|
        0 <= i < features.len() ==> ctx.has_feature((#[trigger] features[i]).0) == features[i].1
}

/// Whether all predicates of a rule hold. A rule without predicates applies
/// unconditionally.
pub open spec fn rule_holds(rule: RuleView, ctx: CtxView) -> bool {
    &&& rule.os matches Some(os) ==> os_holds(os, ctx)
    &&& rule.features matches Some(features) ==> features_hold(features, ctx)
}

/// For each rule, whether it applies.
pub open spec fn applicable(rules: Seq<RuleView>, ctx: CtxView) -> Seq<bool> {
    Seq::new(rules.len(), |i: int| rule_holds(rules[i], ctx))
}

/// What the last rule that applies says. Without one the answer is no.
pub open spec fn last_word(rules: Seq<RuleView>, applies: Seq<bool>) -> bool
    decreases rules.len(),
{
    if rules.len() == 0 {
        false
    } else if applies[rules.len() - 1] {
        rules.last().action == "allow"@
    } else {
        last_word(rules.drop_last(), applies)
    }
}

/// Whether a rule list permits a platform. No rules permit everything.
pub open spec fn permits(rules: Seq<RuleView>, ctx: CtxView) -> bool {
    rules.len() == 0 || last_word(rules, applicable(rules, ctx))
}

/// Decide whether a rule list permits `ctx`.
///
/// Empty rules allow by default. Otherwise every rule is evaluated in order and
/// the last applicable one decides - so an `allow` followed by a more specific
/// `disallow` correctly excludes.
#[must_use]
pub fn allowed(rules: &[Rule], ctx: &Ctx) -> (yes: bool)
    ensures
        yes == permits(rules.deep_view(), ctx.deep_view()),
{
    if rules.len() == 0 {
        return true;
    }
    let mut applies: Vec<bool> = Vec::new();
    for i in 0..rules.len()
        invariant
            applies@ == applicable(rules.deep_view(), ctx.deep_view()).take(i as int),
    {
        let ghost before = applies@;
        applies.push(rule_applies(&rules[i], ctx));
        proof {
            let all = applicable(rules.deep_view(), ctx.deep_view());
            assert(all.take(i + 1) =~= before.push(all[i as int]));
        }
    }
    proof {
        let all = applicable(rules.deep_view(), ctx.deep_view());
        assert(all.take(rules.len() as int) =~= all);
    }
    decide(rules, &applies)
}

/// Let the last rule that applies decide.
pub fn decide(rules: &[Rule], applies: &Vec<bool>) -> (yes: bool)
    requires
        applies.len() == rules@.len(),
    ensures
        yes == last_word(rules.deep_view(), applies@),
{
    let mut decision = false;
    let ghost all = rules.deep_view();
    for i in 0..rules.len()
        invariant
            applies.len() == rules@.len(),
            all == rules.deep_view(),
            decision == last_word(all.take(i as int), applies@),
    {
        proof {
            assert(all.take(i + 1).drop_last() =~= all.take(i as int));
            assert(all.take(i + 1).last() == rules@[i as int].deep_view());
        }
        if applies[i] {
            decision = same_text(rules[i].action.as_str(), "allow");
        }
    }
    proof {
        assert(all.take(rules@.len() as int) =~= all);
    }
    decision
}

/// Whether the predicates of a single rule all match `ctx`.
pub fn rule_applies(rule: &Rule, ctx: &Ctx) -> (yes: bool)
    ensures
        yes == rule_holds(rule.deep_view(), ctx.deep_view()),
{
    let os_ok = match &rule.os {
        Some(os) => os_matches(os, ctx),
        None => true,
    };
    let features_ok = match &rule.features {
        Some(features) => {
            let mut all_match = true;
            let count: usize = features.len();
            for i in 0..count
                invariant
                    count == features.deep_view().len(),
                    all_match == (forall|j: int|
                        0 <= j < i ==> ctx.deep_view().has_feature(
                            (#[trigger] features.deep_view()[j]).0,
                        ) == features.deep_view()[j].1),
            {
                if ctx.feature(features.key_at(i)) != *features.value_at(i) {
                    all_match = false;
                }
            }
            all_match
        },
        None => true,
    };
    os_ok && features_ok
}

/// Match an `os` predicate in either dialect.
pub fn os_matches(os: &Os, ctx: &Ctx) -> (yes: bool)
    ensures
        yes == os_holds(os.deep_view(), ctx.deep_view()),
{
    let verdict = match &os.version {
        Some(pattern) => regex_matches(pattern.as_str(), ctx.version.as_str()),
        None => None,
    };
    os_matches_given(os, ctx, verdict)
}

/// Match an `os` predicate, given what its version pattern says of the version of
/// the platform (`None` if it is malformed).
pub fn os_matches_given(os: &Os, ctx: &Ctx, verdict: Option<bool>) -> (yes: bool)
    ensures
        yes == os_holds_given(os.deep_view(), ctx.deep_view(), verdict),
{
    let name_ok = match &os.name {
        Some(name) => {
            same_text(name.as_str(), ctx.os_token.as_str()) || same_text(
                name.as_str(),
                ctx.os_name.as_str(),
            )
        },
        None => true,
    };
    let arch_ok = match &os.arch {
        Some(arch) => same_text(arch.as_str(), ctx.arch.as_str()),
        None => true,
    };
    let version_ok = match &os.version {
        Some(_) => match verdict {
            Some(matched) => matched,
            None => false,
        },
        None => true,
    };
    name_ok && arch_ok && version_ok
}

// ---------------------------------------------------------------------------
// Laws
// ---------------------------------------------------------------------------

/// The last rule that applies decides, whatever the rules before it say.
pub proof fn last_applicable_rule_decides(rules: Seq<RuleView>, ctx: CtxView, i: int)
    requires
        0 <= i < rules.len(),
        rule_holds(rules[i], ctx),
        forall|j: int| i < j < rules.len() ==> !rule_holds(#[trigger] rules[j], ctx),
    ensures
        permits(rules, ctx) <==> rules[i].action == "allow"@,
{
    last_word_is(rules, applicable(rules, ctx), rules.len() as int, i);
    assert(rules.take(rules.len() as int) =~= rules);
}

proof fn last_word_is(rules: Seq<RuleView>, applies: Seq<bool>, n: int, i: int)
    requires
        0 <= i < n <= rules.len(),
        applies.len() == rules.len(),
        applies[i],
        forall|j: int| i < j < n ==> !applies[j],
    ensures
        last_word(rules.take(n), applies) == (rules[i].action == "allow"@),
    decreases n,
{
    assert(rules.take(n).drop_last() =~= rules.take(n - 1));
    assert(rules.take(n).last() == rules[n - 1]);
    if n - 1 > i {
        last_word_is(rules, applies, n - 1, i);
    }
}

/// A list of rules none of which applies permits nothing.
pub proof fn no_applicable_rule_excludes(rules: Seq<RuleView>, ctx: CtxView)
    requires
        rules.len() > 0,
        forall|j: int| 0 <= j < rules.len() ==> !rule_holds(#[trigger] rules[j], ctx),
    ensures
        !permits(rules, ctx),
{
    no_word(rules, applicable(rules, ctx), rules.len() as int);
    assert(rules.take(rules.len() as int) =~= rules);
}

proof fn no_word(rules: Seq<RuleView>, applies: Seq<bool>, n: int)
    requires
        0 <= n <= rules.len(),
        applies.len() == rules.len(),
        forall|j: int| 0 <= j < n ==> !applies[j],
    ensures
        !last_word(rules.take(n), applies),
    decreases n,
{
    if n > 0 {
        assert(rules.take(n).drop_last() =~= rules.take(n - 1));
        no_word(rules, applies, n - 1);
    }
}

/// Both dialects name a platform: a rule that asks only for the token or only for
/// the classic name of a platform applies to it.
pub proof fn either_dialect_matches(rule: RuleView, ctx: CtxView, name: Seq<char>)
    requires
        name == ctx.os_token || name == ctx.os_name,
        rule.os == Some(OsView { name: Some(name), arch: None, version: None }),
        rule.features is None,
    ensures
        rule_holds(rule, ctx),
{
}

/// A rule that asks for a feature does not apply to a platform that sets none.
pub proof fn unset_feature_excludes(rule: RuleView, ctx: CtxView, i: int)
    requires
        ctx.features.len() == 0,
        rule.features matches Some(features) && 0 <= i < features.len() && features[i].1,
    ensures
        !rule_holds(rule, ctx),
{
    let features = rule.features->0;
    assert(!ctx.has_feature(features[i].0));
}

/// A rule whose `os` predicate names an arch other than the platform's never applies,
/// whatever else the rule says.
pub proof fn other_arch_excludes(rule: RuleView, ctx: CtxView, os: OsView, arch: Seq<char>)
    requires
        rule.os == Some(os),
        os.arch == Some(arch),
        arch != ctx.arch,
    ensures
        !rule_holds(rule, ctx),
{
}

/// A rule whose `os` predicate names neither the token nor the classic name of the
/// platform never applies, whatever else the rule says.
pub proof fn other_name_excludes(rule: RuleView, ctx: CtxView, os: OsView, name: Seq<char>)
    requires
        rule.os == Some(os),
        os.name == Some(name),
        name != ctx.os_token,
        name != ctx.os_name,
    ensures
        !rule_holds(rule, ctx),
{
}

/// A rule whose version pattern does not match the platform's version, or is no pattern,
/// never applies, whatever else the rule says.
pub proof fn unmatched_version_excludes(
    rule: RuleView,
    ctx: CtxView,
    os: OsView,
    pattern: Seq<char>,
)
    requires
        rule.os == Some(os),
        os.version == Some(pattern),
        regex_verdict(pattern, ctx.version) != Some(true),
    ensures
        !rule_holds(rule, ctx),
{
}

/// A rule that asks for a feature to be on or off does not apply where it is otherwise.
pub proof fn other_feature_excludes(
    rule: RuleView,
    ctx: CtxView,
    features: Seq<(Seq<char>, bool)>,
    i: int,
)
    requires
        rule.features == Some(features),
        0 <= i < features.len(),
        ctx.has_feature(features[i].0) != features[i].1,
    ensures
        !rule_holds(rule, ctx),
{
}

/// A rule none of whose predicates speaks against the platform applies.
pub proof fn unopposed_rule_applies(rule: RuleView, ctx: CtxView)
    requires
        rule.os matches Some(os) ==> {
            &&& os.name is None || os.name == Some(ctx.os_token) || os.name == Some(ctx.os_name)
            &&& os.arch is None || os.arch == Some(ctx.arch)
            &&& os.version matches Some(pattern) ==> regex_verdict(pattern, ctx.version) == Some(
                true,
            )
        },
        rule.features matches Some(features) ==> forall|i: int|
            0 <= i < features.len() ==> ctx.has_feature((#[trigger] features[i]).0)
                == features[i].1,
    ensures
        rule_holds(rule, ctx),
{
}

/// Without rules every platform is permitted.
pub proof fn no_rules_permit_everything(ctx: CtxView)
    ensures
        permits(Seq::empty(), ctx),
{
}

/// A rule that does not apply has no say: with or without it the others decide alike.
pub proof fn inapplicable_rule_has_no_say(rules: Seq<RuleView>, rule: RuleView, ctx: CtxView)
    requires
        rules.len() > 0,
        !rule_holds(rule, ctx),
    ensures
        permits(rules.push(rule), ctx) == permits(rules, ctx),
{
    let more = rules.push(rule);
    assert(more.drop_last() =~= rules);
    assert(applicable(more, ctx)[rules.len() as int] == rule_holds(rule, ctx));
    same_word(rules, applicable(more, ctx), applicable(rules, ctx), rules.len() as int);
    assert(rules.take(rules.len() as int) =~= rules);
}

/// The last word depends only on which of the rules apply.
proof fn same_word(rules: Seq<RuleView>, a: Seq<bool>, b: Seq<bool>, n: int)
    requires
        0 <= n <= rules.len(),
        forall|j: int| 0 <= j < n ==> a[j] == b[j],
    ensures
        last_word(rules.take(n), a) == last_word(rules.take(n), b),
    decreases n,
{
    if n > 0 {
        assert(rules.take(n).drop_last() =~= rules.take(n - 1));
        same_word(rules, a, b, n - 1);
    }
}

/// A rule that applies and stands last decides, whatever stands before it.
pub proof fn last_rule_overrides(rules: Seq<RuleView>, rule: RuleView, ctx: CtxView)
    requires
        rule_holds(rule, ctx),
    ensures
        permits(rules.push(rule), ctx) <==> rule.action == "allow"@,
{
    let more = rules.push(rule);
    assert(more[rules.len() as int] == rule);
    last_applicable_rule_decides(more, ctx, rules.len() as int);
}

} // verus!
