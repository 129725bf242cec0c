//! Rule-based classification of the foreground application.
//!
//! Rules come from the `classification_rules` table; this module only
//! answers "given these rules and this app, which category?".
//!
//! Case handling: the app's field values are lower-cased, and so is every
//! pattern except a regular expression, which keeps its own case.

use vstd::prelude::*;
use crate::text::{
    lowercase, opt_chars, seq_starts_with, seq_ends_with, seq_contains, str_eq, str_to_chars,
    to_lowercase, chars_starts_with, chars_ends_with, chars_contains,
};
use crate::pattern::{regex_compiles, regex_finds, compile_pattern, pattern_is_match};

verus! {

/// Raw information about the foreground application.
#[derive(Debug, Clone)]
pub struct RawApp {
    pub name: String,
    pub process_name: String,
    pub exe_path: Option<String>,
    pub bundle_id: Option<String>,
    /// Title of the foreground window, when the platform exposes it.
    pub window_title: Option<String>,
}

/// One classification rule (one row of `classification_rules`).
#[derive(Debug, Clone)]
pub struct Rule {
    pub id: i64,
    /// process_name | window_title | exe_path | bundle_id | name
    pub field: String,
    /// contains | equals | prefix | suffix | regex (anything else: contains)
    pub match_type: String,
    pub pattern: String,
    /// Category assigned on a hit.
    pub category_id: String,
    /// Higher priorities are tried first.
    pub priority: i32,
    pub enabled: bool,
}

/// The lower-cased value of the field that `field` names, or `None` for an
/// unknown field name.
pub open spec fn field_value(app: RawApp, field: Seq<char>) -> Option<Seq<char>> {
    if field == "process_name"@ {
        Some(lowercase(app.process_name@))
    } else if field == "window_title"@ {
        Some(lowercase(opt_chars(app.window_title)))
    } else if field == "exe_path"@ {
        Some(lowercase(opt_chars(app.exe_path)))
    } else if field == "bundle_id"@ {
        Some(lowercase(opt_chars(app.bundle_id)))
    } else if field == "name"@ {
        Some(lowercase(app.name@))
    } else {
        None
    }
}

/// Whether `rule` matches the (already lower-cased) field value `value`.
pub open spec fn spec_rule_matches(rule: Rule, value: Seq<char>) -> bool {
    let p = lowercase(rule.pattern@);
    if rule.match_type@ == "equals"@ {
        value == p
    } else if rule.match_type@ == "prefix"@ {
        seq_starts_with(value, p)
    } else if rule.match_type@ == "suffix"@ {
        seq_ends_with(value, p)
    } else if rule.match_type@ == "regex"@ {
        regex_compiles(rule.pattern@) && regex_finds(rule.pattern@, value)
    } else {
        seq_contains(value, p)
    }
}

/// Rule `r` is enabled, names a known field, and matches that field.
pub open spec fn rule_hits(app: RawApp, r: Rule) -> bool {
    r.enabled && match field_value(app, r.field@) {
        Some(v) => spec_rule_matches(r, v),
        None => false,
    }
}

/// Rule `i` is evaluated no later than rule `j`: higher priority first, and
/// among equal priorities the earlier rule first.
pub open spec fn goes_first(rules: Seq<Rule>, i: int, j: int) -> bool {
    rules[i].priority > rules[j].priority || (rules[i].priority == rules[j].priority && i <= j)
}

/// Rule `i` is the one that decides the category.
pub open spec fn is_deciding_rule(app: RawApp, rules: Seq<Rule>, i: int) -> bool {
    &&& 0 <= i < rules.len()
    &&& rule_hits(app, rules[i])
    &&& forall|j: int| 0 <= j < rules.len() && rule_hits(app, rules[j]) ==> goes_first(rules, i, j)
}

/// At most one rule decides: the deciding rule is unique.
pub proof fn law_deciding_rule_unique(app: RawApp, rules: Seq<Rule>, i: int, j: int)
    requires
        is_deciding_rule(app, rules, i),
        is_deciding_rule(app, rules, j),
    ensures
        i == j,
{
    assert(goes_first(rules, i, j));
    assert(goes_first(rules, j, i));
}

/// The category an application gets: that of the deciding rule, or
/// `other` when no enabled rule matches.
pub open spec fn spec_classify(app: RawApp, rules: Seq<Rule>) -> Seq<char> {
    if exists|i: int| is_deciding_rule(app, rules, i) {
        rules[choose|i: int| is_deciding_rule(app, rules, i)].category_id@
    } else {
        "other"@
    }
}

/// Two descriptions of an application that agree once lower-cased, field
/// by field (they differ at most in letter case).
pub open spec fn same_up_to_case(a: RawApp, b: RawApp) -> bool {
    &&& lowercase(a.name@) == lowercase(b.name@)
    &&& lowercase(a.process_name@) == lowercase(b.process_name@)
    &&& lowercase(opt_chars(a.exe_path)) == lowercase(opt_chars(b.exe_path))
    &&& lowercase(opt_chars(a.bundle_id)) == lowercase(opt_chars(b.bundle_id))
    &&& lowercase(opt_chars(a.window_title)) == lowercase(opt_chars(b.window_title))
}

/// Classification ignores letter case in the application's fields: two
/// descriptions that agree once lower-cased get the same category.
pub proof fn law_classify_ignores_case(a: RawApp, b: RawApp, rules: Seq<Rule>)
    requires
        same_up_to_case(a, b),
    ensures
        spec_classify(a, rules) == spec_classify(b, rules),
{
    assert forall|r: Rule| rule_hits(a, r) == rule_hits(b, r) by {
        assert(field_value(a, r.field@) == field_value(b, r.field@));
    }
    assert forall|i: int| is_deciding_rule(a, rules, i) == is_deciding_rule(b, rules, i) by {
        assert forall|j: int| rule_hits(a, rules[j]) == rule_hits(b, rules[j]) by {
            assert(field_value(a, rules[j].field@) == field_value(b, rules[j].field@));
        }
        assert(rule_hits(a, rules[i]) == rule_hits(b, rules[i]));
    }
    if exists|i: int| is_deciding_rule(a, rules, i) {
        let ia = choose|i: int| is_deciding_rule(a, rules, i);
        let ib = choose|i: int| is_deciding_rule(b, rules, i);
        assert(is_deciding_rule(b, rules, ia));
        assert(is_deciding_rule(a, rules, ib));
        law_deciding_rule_unique(a, rules, ia, ib);
    }
}

/// The enabled rules, in their order.
pub open spec fn enabled_rules(rules: Seq<Rule>) -> Seq<Rule>
    decreases rules.len(),
{
    if rules.len() == 0 {
        rules
    } else if rules.last().enabled {
        enabled_rules(rules.drop_last()).push(rules.last())
    } else {
        enabled_rules(rules.drop_last())
    }
}

/// Where each enabled rule sits among all the rules.
pub open spec fn enabled_positions(rules: Seq<Rule>) -> Seq<int>
    decreases rules.len(),
{
    if rules.len() == 0 {
        Seq::empty()
    } else if rules.last().enabled {
        enabled_positions(rules.drop_last()).push(rules.len() - 1)
    } else {
        enabled_positions(rules.drop_last())
    }
}

proof fn lemma_enabled_positions(rules: Seq<Rule>)
    ensures
        enabled_positions(rules).len() == enabled_rules(rules).len(),
        forall|i: int|
            0 <= i < enabled_positions(rules).len() ==> 0 <= #[trigger] enabled_positions(rules)[i]
                < rules.len() && enabled_rules(rules)[i] == rules[enabled_positions(rules)[i]],
        forall|i: int, j: int|
            0 <= i < j < enabled_positions(rules).len() ==> #[trigger] enabled_positions(rules)[i]
                < #[trigger] enabled_positions(rules)[j],
        forall|r: int|
            0 <= r < rules.len() && rules[r].enabled ==> exists|i: int|
                0 <= i < enabled_positions(rules).len() && #[trigger] enabled_positions(rules)[i] == r,
    decreases rules.len(),
{
    if rules.len() > 0 {
        let t = rules.drop_last();
        lemma_enabled_positions(t);
        let x = enabled_positions(rules);
        let x0 = enabled_positions(t);
        let e = enabled_rules(rules);
        let e0 = enabled_rules(t);
        if rules.last().enabled {
            assert forall|i: int| 0 <= i < x.len() implies 0 <= #[trigger] x[i] < rules.len() && e[i]
                == rules[x[i]] by {
                if i < x0.len() {
                    assert(x[i] == x0[i] && e[i] == e0[i]);
                    assert(t[x0[i]] == rules[x0[i]]);
                }
            }
            assert forall|i: int, j: int| 0 <= i < j < x.len() implies #[trigger] x[i] < #[trigger] x[j] by {
                assert(x[i] == x0[i]);
                if j < x0.len() {
                    assert(x[j] == x0[j]);
                }
            }
            assert forall|r: int| 0 <= r < rules.len() && rules[r].enabled implies exists|i: int|
                0 <= i < x.len() && #[trigger] x[i] == r by {
                if r == rules.len() - 1 {
                    assert(x[x.len() - 1] == r);
                } else {
                    assert(t[r] == rules[r]);
                    let i = choose|i: int| 0 <= i < x0.len() && x0[i] == r;
                    assert(x[i] == r);
                }
            }
        } else {
            assert forall|i: int| 0 <= i < x.len() implies 0 <= #[trigger] x[i] < rules.len() && e[i]
                == rules[x[i]] by {
                assert(t[x0[i]] == rules[x0[i]]);
            }
            assert forall|r: int| 0 <= r < rules.len() && rules[r].enabled implies exists|i: int|
                0 <= i < x.len() && #[trigger] x[i] == r by {
                assert(r != rules.len() - 1);
                assert(t[r] == rules[r]);
                let i = choose|i: int| 0 <= i < x0.len() && x0[i] == r;
            }
        }
    }
}

/// Disabled rules play no part: dropping them all leaves every
/// application's category as it was.
pub proof fn law_classify_ignores_disabled(app: RawApp, rules: Seq<Rule>)
    ensures
        spec_classify(app, enabled_rules(rules)) == spec_classify(app, rules),
{
    lemma_enabled_positions(rules);
    let e = enabled_rules(rules);
    let x = enabled_positions(rules);
    if exists|d: int| is_deciding_rule(app, rules, d) {
        let d = choose|d: int| is_deciding_rule(app, rules, d);
        let i = choose|i: int| 0 <= i < x.len() && #[trigger] x[i] == d;
        assert(e[i] == rules[d]);
        assert forall|j: int| 0 <= j < e.len() && rule_hits(app, e[j]) implies goes_first(e, i, j) by {
            assert(e[j] == rules[x[j]]);
            assert(goes_first(rules, d, x[j]));
            if j < i {
                assert(x[j] < x[i]);
            }
        }
        assert(is_deciding_rule(app, e, i));
        let i2 = choose|i2: int| is_deciding_rule(app, e, i2);
        law_deciding_rule_unique(app, e, i, i2);
    } else if exists|i: int| is_deciding_rule(app, e, i) {
        let i = choose|i: int| is_deciding_rule(app, e, i);
        let d = x[i];
        assert(e[i] == rules[d]);
        assert(0 <= d < rules.len());
        assert(rule_hits(app, rules[d]));
        assert forall|j: int| 0 <= j < rules.len() && rule_hits(app, rules[j]) implies goes_first(
            rules,
            d,
            j,
        ) by {
            let m = choose|m: int| 0 <= m < x.len() && #[trigger] x[m] == j;
            assert(e[m] == rules[j]);
            assert(goes_first(e, i, m));
            if m < i {
                assert(x[m] < x[i]);
            } else if i < m {
                assert(x[i] < x[m]);
            }
        }
        assert(is_deciding_rule(app, rules, d));
    }
}

/// The field names are pairwise different.
proof fn lemma_field_names_distinct()
    ensures
        "name"@ != "process_name"@,
        "name"@ != "window_title"@,
        "name"@ != "exe_path"@,
        "name"@ != "bundle_id"@,
        "process_name"@ != "window_title"@,
        "process_name"@ != "exe_path"@,
        "process_name"@ != "bundle_id"@,
        "window_title"@ != "exe_path"@,
        "window_title"@ != "bundle_id"@,
        "exe_path"@ != "bundle_id"@,
{
    reveal_strlit("name");
    reveal_strlit("process_name");
    reveal_strlit("window_title");
    reveal_strlit("exe_path");
    reveal_strlit("bundle_id");
    assert("name"@.len() != "process_name"@.len());
    assert("name"@.len() != "window_title"@.len());
    assert("name"@.len() != "exe_path"@.len());
    assert("name"@.len() != "bundle_id"@.len());
    assert("process_name"@[0] != "window_title"@[0]);
    assert("process_name"@.len() != "exe_path"@.len());
    assert("process_name"@.len() != "bundle_id"@.len());
    assert("window_title"@.len() != "exe_path"@.len());
    assert("window_title"@.len() != "bundle_id"@.len());
    assert("exe_path"@.len() != "bundle_id"@.len());
}

/// With a single enabled rule, the application gets the rule's category
/// exactly when the rule matches the lower-cased value of the field it
/// names: `name` is the display name, `process_name` the process name,
/// and `window_title`, `exe_path`, `bundle_id` those texts (empty when
/// absent); a rule on any other field never matches.
pub proof fn law_single_rule_reads_its_field(app: RawApp, r: Rule)
    requires
        r.enabled,
    ensures
        r.field@ == "name"@ ==> spec_classify(app, seq![r]) == (if spec_rule_matches(r, lowercase(app.name@)) {
            r.category_id@
        } else {
            "other"@
        }),
        r.field@ == "process_name"@ ==> spec_classify(app, seq![r]) == (if spec_rule_matches(
            r,
            lowercase(app.process_name@),
        ) {
            r.category_id@
        } else {
            "other"@
        }),
        r.field@ == "window_title"@ ==> spec_classify(app, seq![r]) == (if spec_rule_matches(
            r,
            lowercase(opt_chars(app.window_title)),
        ) {
            r.category_id@
        } else {
            "other"@
        }),
        r.field@ == "exe_path"@ ==> spec_classify(app, seq![r]) == (if spec_rule_matches(
            r,
            lowercase(opt_chars(app.exe_path)),
        ) {
            r.category_id@
        } else {
            "other"@
        }),
        r.field@ == "bundle_id"@ ==> spec_classify(app, seq![r]) == (if spec_rule_matches(
            r,
            lowercase(opt_chars(app.bundle_id)),
        ) {
            r.category_id@
        } else {
            "other"@
        }),
        r.field@ != "name"@ && r.field@ != "process_name"@ && r.field@ != "window_title"@ && r.field@
            != "exe_path"@ && r.field@ != "bundle_id"@ ==> spec_classify(app, seq![r]) == "other"@,
{
    lemma_field_names_distinct();
    let rules = seq![r];
    if rule_hits(app, r) {
        assert(goes_first(rules, 0, 0));
        assert(is_deciding_rule(app, rules, 0));
        let i = choose|i: int| is_deciding_rule(app, rules, i);
        assert(i == 0);
    } else {
        assert forall|i: int| !is_deciding_rule(app, rules, i) by {
            if 0 <= i < 1 {
                assert(rules[i] == r);
            }
        }
    }
}

/// What each match type asks of the lower-cased field value `v`: `equals`
/// the lower-cased pattern, `prefix` and `suffix` it at the start or end,
/// `regex` a match of the pattern as written, and any other type (such as
/// `contains`) the lower-cased pattern anywhere.
pub proof fn law_match_types(r: Rule, v: Seq<char>)
    ensures
        r.match_type@ == "equals"@ ==> (spec_rule_matches(r, v) <==> v == lowercase(r.pattern@)),
        r.match_type@ == "prefix"@ ==> (spec_rule_matches(r, v) <==> seq_starts_with(v, lowercase(r.pattern@))),
        r.match_type@ == "suffix"@ ==> (spec_rule_matches(r, v) <==> seq_ends_with(v, lowercase(r.pattern@))),
        r.match_type@ == "regex"@ ==> (spec_rule_matches(r, v) <==> regex_compiles(r.pattern@) && regex_finds(
            r.pattern@,
            v,
        )),
        r.match_type@ == "contains"@ ==> (spec_rule_matches(r, v) <==> seq_contains(v, lowercase(r.pattern@))),
{
    lemma_match_types_distinct();
    reveal_strlit("contains");
    reveal_strlit("regex");
    reveal_strlit("equals");
    reveal_strlit("prefix");
    reveal_strlit("suffix");
    assert("contains"@.len() != "regex"@.len());
    assert("contains"@.len() != "equals"@.len());
    assert("contains"@.len() != "prefix"@.len());
    assert("contains"@.len() != "suffix"@.len());
}

/// The match-type names are pairwise different.
proof fn lemma_match_types_distinct()
    ensures
        "regex"@ != "equals"@,
        "regex"@ != "prefix"@,
        "regex"@ != "suffix"@,
        "equals"@ != "prefix"@,
        "equals"@ != "suffix"@,
        "prefix"@ != "suffix"@,
{
    reveal_strlit("regex");
    reveal_strlit("equals");
    reveal_strlit("prefix");
    reveal_strlit("suffix");
    assert("regex"@.len() != "equals"@.len());
    assert("regex"@.len() != "prefix"@.len());
    assert("regex"@.len() != "suffix"@.len());
    assert("equals"@[0] != "prefix"@[0]);
    assert("equals"@[0] != "suffix"@[0]);
    assert("prefix"@[0] != "suffix"@[0]);
}

/// Matches one rule against a field value that is already lower-cased;
/// the pattern is lower-cased here (a regular expression keeps its case,
/// and an invalid one never matches).
pub fn rule_matches(rule: &Rule, value: &str) -> (r: bool)
    ensures
        r == spec_rule_matches(*rule, value@),
{
    proof {
        lemma_match_types_distinct();
    }
    let mt = rule.match_type.as_str();
    if str_eq(mt, "regex") {
        return match compile_pattern(rule.pattern.as_str()) {
            Some(re) => pattern_is_match(&re, value),
            None => false,
        };
    }
    let p = str_to_chars(to_lowercase(rule.pattern.as_str()).as_str());
    let v = str_to_chars(value);
    if str_eq(mt, "equals") {
        let same = v.len() == p.len() && chars_starts_with(&v, &p);
        proof {
            assert(v@.subrange(0, v@.len() as int) =~= v@);
        }
        same
    } else if str_eq(mt, "prefix") {
        chars_starts_with(&v, &p)
    } else if str_eq(mt, "suffix") {
        chars_ends_with(&v, &p)
    } else {
        chars_contains(&v, &p)
    }
}

/// The lower-cased text of an optional field (empty when absent).
fn lower_opt(o: &Option<String>) -> (s: String)
    ensures
        s@ == lowercase(opt_chars(*o)),
{
    proof {
        reveal_strlit("");
    }
    match o {
        Some(x) => to_lowercase(x.as_str()),
        None => {
            assert(""@ =~= Seq::<char>::empty());
            to_lowercase("")
        },
    }
}

/// The lower-cased value of the field named `field` (see [`field_value`]).
fn field_value_of(app: &RawApp, field: &str) -> (r: Option<String>)
    ensures
        match r {
            Some(s) => field_value(*app, field@) == Some(s@),
            None => field_value(*app, field@) is None,
        },
{
    if str_eq(field, "process_name") {
        Some(to_lowercase(app.process_name.as_str()))
    } else if str_eq(field, "window_title") {
        Some(lower_opt(&app.window_title))
    } else if str_eq(field, "exe_path") {
        Some(lower_opt(&app.exe_path))
    } else if str_eq(field, "bundle_id") {
        Some(lower_opt(&app.bundle_id))
    } else if str_eq(field, "name") {
        Some(to_lowercase(app.name.as_str()))
    } else {
        None
    }
}

/// Classifies `app`: among the enabled rules that match, the one with the
/// highest priority decides (the earlier rule on a tie); with no match the
/// category is `"other"`.
pub fn classify_app(app: &RawApp, rules: &[Rule]) -> (r: String)
    ensures
        (exists|i: int| 0 <= i < rules@.len() && rule_hits(*app, rules@[i])) ==> (exists|i: int|
            is_deciding_rule(*app, rules@, i) && r@ == rules@[i].category_id@),
        !(exists|i: int| 0 <= i < rules@.len() && rule_hits(*app, rules@[i])) ==> r@ == "other"@,
        r@ == spec_classify(*app, rules@),
{
    let mut best: Option<usize> = None;
    let mut i: usize = 0;
    while i < rules.len()
        invariant
            i <= rules@.len(),
            match best {
                Some(b) => {
                    &&& b < i
                    &&& rule_hits(*app, rules@[b as int])
                    &&& forall|j: int|
                        0 <= j < i && rule_hits(*app, rules@[j]) ==> goes_first(rules@, b as int, j)
                },
                None => forall|j: int| 0 <= j < i ==> !rule_hits(*app, rules@[j]),
            },
        decreases rules.len() - i,
    {
        let rule = &rules[i];
        let better = match best {
            Some(b) => rule.priority > rules[b].priority,
            None => true,
        };
        if rule.enabled && better {
            let hit = match field_value_of(app, rule.field.as_str()) {
                Some(v) => rule_matches(rule, v.as_str()),
                None => false,
            };
            assert(hit == rule_hits(*app, rules@[i as int]));
            if hit {
                proof {
                    assert forall|j: int|
                        0 <= j < i + 1 && rule_hits(*app, rules@[j]) implies goes_first(
                        rules@,
                        i as int,
                        j,
                    ) by {
                        if j < i {
                            if let Some(b) = best {
                                assert(goes_first(rules@, b as int, j));
                            }
                        }
                    }
                }
                best = Some(i);
            }
        } else {
            proof {
                if rule.enabled && rule_hits(*app, rules@[i as int]) {
                    let b = best.unwrap();
                    assert(goes_first(rules@, b as int, i as int));
                }
            }
        }
        i = i + 1;
    }
    match best {
        Some(b) => {
            assert(is_deciding_rule(*app, rules@, b as int));
            proof {
                let c = choose|i: int| is_deciding_rule(*app, rules@, i);
                law_deciding_rule_unique(*app, rules@, b as int, c);
            }
            rules[b].category_id.clone()
        },
        None => {
            assert(!exists|i: int| is_deciding_rule(*app, rules@, i));
            "other".to_string()
        },
    }
}

/// An application row as stored: id, display name, process name,
/// executable path and current category.
pub struct StoredApp {
    pub id: i64,
    pub name: String,
    pub process_name: String,
    pub exe_path: Option<String>,
    pub category_id: String,
}

/// The sample an application row stands for (no bundle id, no title).
pub open spec fn stored_as_raw(a: StoredApp) -> RawApp {
    RawApp {
        name: a.name,
        process_name: a.process_name,
        exe_path: a.exe_path,
        bundle_id: None,
        window_title: None,
    }
}

/// The rows whose category changes under `rules`, in order, with their
/// new category.
pub open spec fn spec_reclassified(apps: Seq<StoredApp>, rules: Seq<Rule>) -> Seq<(i64, Seq<char>)>
    decreases apps.len(),
{
    if apps.len() == 0 {
        Seq::empty()
    } else {
        let prev = spec_reclassified(apps.drop_last(), rules);
        let a = apps.last();
        let c = spec_classify(stored_as_raw(a), rules);
        if c != a.category_id@ {
            prev.push((a.id, c))
        } else {
            prev
        }
    }
}

/// Re-applies the rules to every stored application and lists the rows
/// whose category changes, with the new category.
pub fn reclassify_changes(apps: &Vec<StoredApp>, rules: &[Rule]) -> (r: Vec<(i64, String)>)
    ensures
        r@.map_values(|p: (i64, String)| (p.0, p.1@)) == spec_reclassified(apps@, rules@),
{
    let mut out: Vec<(i64, String)> = Vec::new();
    let mut k: usize = 0;
    while k < apps.len()
        invariant
            k <= apps@.len(),
            out@.map_values(|p: (i64, String)| (p.0, p.1@)) == spec_reclassified(
                apps@.subrange(0, k as int),
                rules@,
            ),
        decreases apps.len() - k,
    {
        assert(apps@.subrange(0, k + 1).drop_last() =~= apps@.subrange(0, k as int));
        let a = &apps[k];
        let raw = RawApp {
            name: a.name.clone(),
            process_name: a.process_name.clone(),
            exe_path: match &a.exe_path {
                Some(e) => Some(e.clone()),
                None => None,
            },
            bundle_id: None,
            window_title: None,
        };
        assert(raw == stored_as_raw(*a));
        let cat = classify_app(&raw, rules);
        if !str_eq(cat.as_str(), a.category_id.as_str()) {
            let ghost before = out@;
            out.push((a.id, cat));
            assert(out@.map_values(|p: (i64, String)| (p.0, p.1@)) =~= before.map_values(
                |p: (i64, String)| (p.0, p.1@),
            ).push((a.id, cat@)));
        }
        k = k + 1;
    }
    assert(apps@.subrange(0, apps@.len() as int) =~= apps@);
    out
}

} // verus!
