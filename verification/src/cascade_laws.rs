//! What holds of the cascade, proved from its definition.

use vstd::prelude::*;
use crate::assoc::{lemma_map_of_put, put};
use crate::ast::{specificity_of, weight_sum, ExprModel, RuleModel, SelectorModel};
use crate::attribute_tree::NodeModel;
use crate::ir_types::{cascade_ready, MetaModel};
use crate::style::{
    canonical_value, inherit_key, is_inheritable, is_known, law_set_keeps_others,
    law_set_then_get, lemma_known_names_differ, lookup, PageBreak, StyleModel,
};
use crate::style_resolver::{
    apply_declarations, apply_inline, apply_rules, cascade, cascade_order, cascade_order_upto,
    computed_style, insert_sorted, lemma_cascade_order_bounds, resolved, rule_matches,
    selector_matches, set_entries, sorted_rules,
};

verus! {

// ---------------------------------------------------------------------------
// Names
// ---------------------------------------------------------------------------

/// No inheritable property is one of the typed properties.
pub proof fn lemma_inheritable_is_open(p: Seq<char>)
    requires
        is_inheritable(p),
    ensures
        !is_known(p),
{
    reveal_strlit("id");
    reveal_strlit("margin");
    reveal_strlit("padding");
    reveal_strlit("align");
    reveal_strlit("hidden");
    reveal_strlit("page_break");
    reveal_strlit("role");
    reveal_strlit("font-family");
    reveal_strlit("font-size");
    reveal_strlit("font-weight");
    reveal_strlit("color");
    reveal_strlit("line-height");
    assert("id"@.len() == 2);
    assert("margin"@.len() == 6 && "margin"@[0] == 'm');
    assert("padding"@.len() == 7 && "padding"@[0] == 'p');
    assert("align"@.len() == 5 && "align"@[0] == 'a');
    assert("hidden"@.len() == 6 && "hidden"@[0] == 'h');
    assert("page_break"@.len() == 10);
    assert("role"@.len() == 4);
    assert("font-family"@.len() == 11);
    assert("font-size"@.len() == 9);
    assert("font-weight"@.len() == 11);
    assert("color"@.len() == 5 && "color"@[0] == 'c');
    assert("line-height"@.len() == 11);
}

/// The inheritable properties have five different names.
pub proof fn lemma_inheritable_names_differ()
    ensures
        "font-family"@ != "font-size"@,
        "font-family"@ != "font-weight"@,
        "font-family"@ != "color"@,
        "font-family"@ != "line-height"@,
        "font-size"@ != "font-weight"@,
        "font-size"@ != "color"@,
        "font-size"@ != "line-height"@,
        "font-weight"@ != "color"@,
        "font-weight"@ != "line-height"@,
        "color"@ != "line-height"@,
{
    reveal_strlit("font-family");
    reveal_strlit("font-size");
    reveal_strlit("font-weight");
    reveal_strlit("color");
    reveal_strlit("line-height");
    assert("font-family"@.len() == 11 && "font-family"@[5] == 'f' && "font-family"@[0] == 'f');
    assert("font-size"@.len() == 9);
    assert("font-weight"@.len() == 11 && "font-weight"@[5] == 'w' && "font-weight"@[0] == 'f');
    assert("color"@.len() == 5);
    assert("line-height"@.len() == 11 && "line-height"@[0] == 'l');
}

// ---------------------------------------------------------------------------
// Declarations and rules
// ---------------------------------------------------------------------------

/// The text of the last of the first `n` declarations that names `p`.
pub open spec fn last_value(declarations: Seq<(Seq<char>, ExprModel)>, p: Seq<char>, n: int) -> Option<
    Seq<char>,
>
    decreases n,
{
    if n <= 0 {
        None
    } else if declarations[n - 1].0 == p {
        Some(declarations[n - 1].1.text())
    } else {
        last_value(declarations, p, n - 1)
    }
}

/// The value that a rule declares for `p`: that of its last declaration of `p`.
pub open spec fn declared(rule: RuleModel, p: Seq<char>) -> Option<Seq<char>> {
    last_value(rule.declarations, p, rule.declarations.len() as int)
}

/// Whether a typed property has no entry of its name in the open map.
pub open spec fn unshadowed(m: StyleModel, p: Seq<char>) -> bool {
    is_known(p) ==> lookup(m.style, p) is None
}

/// Setting a property puts no typed property's name into the open map.
pub proof fn lemma_set_keeps_unshadowed(m: StyleModel, q: Seq<char>, v: Seq<char>, p: Seq<char>)
    requires
        unshadowed(m, p),
    ensures
        unshadowed(m.set(q, v), p),
{
    lemma_known_names_differ();
    if !is_known(q) {
        lemma_map_of_put(m.style, q, v);
    }
}

/// What a run of declarations leaves of `p`: the value of the last
/// declaration of `p`, where there is one that `p` takes, and else what was there.
pub proof fn lemma_declarations_get(
    base: StyleModel,
    declarations: Seq<(Seq<char>, ExprModel)>,
    n: int,
    p: Seq<char>,
)
    requires
        0 <= n <= declarations.len(),
        unshadowed(base, p),
    ensures
        unshadowed(apply_declarations(base, declarations, n), p),
        last_value(declarations, p, n) is None ==> apply_declarations(base, declarations, n).get(p)
            == base.get(p),
        last_value(declarations, p, n) matches Some(v) ==> canonical_value(p, v) is Some
            ==> apply_declarations(base, declarations, n).get(p) == canonical_value(p, v),
    decreases n,
{
    if n > 0 {
        lemma_declarations_get(base, declarations, n - 1, p);
        let before = apply_declarations(base, declarations, n - 1);
        let q = declarations[n - 1].0;
        let v = declarations[n - 1].1.text();
        lemma_set_keeps_unshadowed(before, q, v, p);
        if q == p {
            if canonical_value(p, v) is Some {
                law_set_then_get(before, p, v);
            }
        } else {
            law_set_keeps_others(before, q, v, p);
        }
    }
}

/// A run of declarations that does not name `p` leaves the open map's entry of `p` as it was.
pub proof fn lemma_declarations_keep_entry(
    base: StyleModel,
    declarations: Seq<(Seq<char>, ExprModel)>,
    n: int,
    p: Seq<char>,
)
    requires
        0 <= n <= declarations.len(),
        last_value(declarations, p, n) is None,
    ensures
        lookup(apply_declarations(base, declarations, n).style, p) == lookup(base.style, p),
    decreases n,
{
    if n > 0 {
        lemma_declarations_keep_entry(base, declarations, n - 1, p);
        let before = apply_declarations(base, declarations, n - 1);
        let q = declarations[n - 1].0;
        if !is_known(q) {
            lemma_map_of_put(before.style, q, declarations[n - 1].1.text());
        }
    }
}

/// A run of declarations that does not name a typed property leaves it as it was.
pub proof fn lemma_declarations_keep_typed(
    base: StyleModel,
    declarations: Seq<(Seq<char>, ExprModel)>,
    n: int,
)
    requires
        0 <= n <= declarations.len(),
    ensures
        last_value(declarations, "margin"@, n) is None ==> apply_declarations(
            base,
            declarations,
            n,
        ).margin == base.margin,
        last_value(declarations, "padding"@, n) is None ==> apply_declarations(
            base,
            declarations,
            n,
        ).padding == base.padding,
    decreases n,
{
    if n > 0 {
        lemma_declarations_keep_typed(base, declarations, n - 1);
        lemma_known_names_differ();
    }
}

/// Rules that do not match the element leave the style as it was.
pub proof fn lemma_no_match_no_change(
    base: StyleModel,
    rules: Seq<RuleModel>,
    meta: MetaModel,
    n: int,
)
    requires
        0 <= n <= rules.len(),
        forall|k: int| 0 <= k < n ==> !rule_matches(#[trigger] rules[k], meta),
    ensures
        apply_rules(base, rules, meta, n) == base,
    decreases n,
{
    if n > 0 {
        lemma_no_match_no_change(base, rules, meta, n - 1);
    }
}

/// Among the first `n` rules in the order of the cascade, the last
/// matching rule that declares `p` decides `p`.
pub proof fn lemma_last_rule_wins(
    base: StyleModel,
    rules: Seq<RuleModel>,
    meta: MetaModel,
    n: int,
    k: int,
    p: Seq<char>,
)
    requires
        0 <= k < n <= rules.len(),
        unshadowed(base, p),
        rule_matches(rules[k], meta),
        declared(rules[k], p) is Some,
        canonical_value(p, declared(rules[k], p)->0) is Some,
        forall|j: int|
            k < j < n && rule_matches(#[trigger] rules[j], meta) ==> declared(rules[j], p) is None,
    ensures
        apply_rules(base, rules, meta, n).get(p) == canonical_value(p, declared(rules[k], p)->0),
        unshadowed(apply_rules(base, rules, meta, n), p),
    decreases n,
{
    lemma_rules_keep_unshadowed(base, rules, meta, n - 1, p);
    let before = apply_rules(base, rules, meta, n - 1);
    if k == n - 1 {
        lemma_declarations_get(before, rules[k].declarations, rules[k].declarations.len() as int, p);
    } else {
        lemma_last_rule_wins(base, rules, meta, n - 1, k, p);
        if rule_matches(rules[n - 1], meta) {
            lemma_declarations_get(
                before,
                rules[n - 1].declarations,
                rules[n - 1].declarations.len() as int,
                p,
            );
        }
    }
}

/// Rules put no typed property's name into the open map.
pub proof fn lemma_rules_keep_unshadowed(
    base: StyleModel,
    rules: Seq<RuleModel>,
    meta: MetaModel,
    n: int,
    p: Seq<char>,
)
    requires
        0 <= n <= rules.len(),
        unshadowed(base, p),
    ensures
        unshadowed(apply_rules(base, rules, meta, n), p),
    decreases n,
{
    if n > 0 {
        lemma_rules_keep_unshadowed(base, rules, meta, n - 1, p);
        if rule_matches(rules[n - 1], meta) {
            lemma_declarations_get(
                apply_rules(base, rules, meta, n - 1),
                rules[n - 1].declarations,
                rules[n - 1].declarations.len() as int,
                p,
            );
        }
    }
}

/// Rules of which none that matches declares `p` leave the open map's entry of `p` as it was.
pub proof fn lemma_silent_rules_keep_entry(
    base: StyleModel,
    rules: Seq<RuleModel>,
    meta: MetaModel,
    n: int,
    p: Seq<char>,
)
    requires
        0 <= n <= rules.len(),
        forall|j: int|
            0 <= j < n && rule_matches(#[trigger] rules[j], meta) ==> declared(rules[j], p) is None,
    ensures
        lookup(apply_rules(base, rules, meta, n).style, p) == lookup(base.style, p),
    decreases n,
{
    if n > 0 {
        lemma_silent_rules_keep_entry(base, rules, meta, n - 1, p);
        if rule_matches(rules[n - 1], meta) {
            lemma_declarations_keep_entry(
                apply_rules(base, rules, meta, n - 1),
                rules[n - 1].declarations,
                rules[n - 1].declarations.len() as int,
                p,
            );
        }
    }
}

/// Rules of which none that matches declares a margin leave the margin as it was.
pub proof fn lemma_silent_rules_keep_margin(
    base: StyleModel,
    rules: Seq<RuleModel>,
    meta: MetaModel,
    n: int,
)
    requires
        0 <= n <= rules.len(),
        forall|j: int|
            0 <= j < n && rule_matches(#[trigger] rules[j], meta) ==> declared(rules[j], "margin"@)
                is None,
    ensures
        apply_rules(base, rules, meta, n).margin == base.margin,
    decreases n,
{
    if n > 0 {
        lemma_silent_rules_keep_margin(base, rules, meta, n - 1);
        if rule_matches(rules[n - 1], meta) {
            lemma_declarations_keep_typed(
                apply_rules(base, rules, meta, n - 1),
                rules[n - 1].declarations,
                rules[n - 1].declarations.len() as int,
            );
        }
    }
}

// ---------------------------------------------------------------------------
// Inline attributes
// ---------------------------------------------------------------------------

/// What the entries of an inline map leave in the open map for a
/// property that is not typed: the inline value, where there is one, and
/// else what was there.
pub proof fn lemma_set_entries_entry(
    base: StyleModel,
    entries: Seq<(Seq<char>, Seq<char>)>,
    n: int,
    p: Seq<char>,
)
    requires
        0 <= n <= entries.len(),
        !is_known(p),
    ensures
        lookup(set_entries(base, entries, n).style, p) == if lookup(entries.take(n), p) is Some {
            lookup(entries.take(n), p)
        } else {
            lookup(base.style, p)
        },
    decreases n,
{
    if n > 0 {
        lemma_set_entries_entry(base, entries, n - 1, p);
        let before = set_entries(base, entries, n - 1);
        let q = entries[n - 1].0;
        let v = entries[n - 1].1;
        assert(entries.take(n).drop_last() =~= entries.take(n - 1));
        assert(entries.take(n).last() == entries[n - 1]);
        if !is_known(q) {
            lemma_map_of_put(before.style, q, v);
        }
    } else {
        assert(entries.take(0) =~= Seq::<(Seq<char>, Seq<char>)>::empty());
    }
}

/// Entries of which none names the margin leave the margin as it was.
pub proof fn lemma_set_entries_margin(
    base: StyleModel,
    entries: Seq<(Seq<char>, Seq<char>)>,
    n: int,
)
    requires
        0 <= n <= entries.len(),
        forall|j: int| 0 <= j < n ==> (#[trigger] entries[j]).0 != "margin"@,
    ensures
        set_entries(base, entries, n).margin == base.margin,
    decreases n,
{
    if n > 0 {
        lemma_set_entries_margin(base, entries, n - 1);
        lemma_known_names_differ();
    }
}

/// Inline attributes outrank every rule: a property that the element's
/// inline attributes give has the inline value in the element's style,
/// whatever the rules gave it.
pub proof fn law_inline_wins(base: StyleModel, inline: StyleModel, p: Seq<char>)
    ensures
        !is_known(p) && lookup(inline.style, p) is Some ==> lookup(
            apply_inline(base, inline).style,
            p,
        ) == lookup(inline.style, p),
        !is_known(p) && lookup(inline.style, p) is Some ==> apply_inline(base, inline).get(p)
            == lookup(inline.style, p),
        inline.id is Some ==> apply_inline(base, inline).id == inline.id,
        inline.class.len() > 0 ==> apply_inline(base, inline).class == inline.class,
        inline.margin is Some ==> apply_inline(base, inline).margin == inline.margin,
        inline.padding is Some ==> apply_inline(base, inline).padding == inline.padding,
        inline.align is Some ==> apply_inline(base, inline).align == inline.align,
        inline.hidden ==> apply_inline(base, inline).hidden,
        inline.page_break != PageBreak::NoBreak ==> apply_inline(base, inline).page_break
            == inline.page_break,
        inline.role is Some ==> apply_inline(base, inline).role == inline.role,
{
    if !is_known(p) {
        lemma_set_entries_entry(base, inline.style, inline.style.len() as int, p);
        assert(inline.style.take(inline.style.len() as int) =~= inline.style);
    }
}

/// Inline attributes that say nothing leave the style as the rules made it.
pub proof fn lemma_empty_inline(base: StyleModel)
    ensures
        apply_inline(base, StyleModel::empty()) == base,
{
}

// ---------------------------------------------------------------------------
// An element that nothing is said about
// ---------------------------------------------------------------------------

/// An element that no rule matches, that has no inline attributes and that
/// inherits nothing has the default style.
pub proof fn law_unstyled_is_default(
    parent: Option<StyleModel>,
    rules: Seq<RuleModel>,
    meta: MetaModel,
    inline: StyleModel,
)
    requires
        forall|k: int| 0 <= k < rules.len() ==> !rule_matches(#[trigger] rules[k], meta),
        inline == StyleModel::empty(),
        parent matches Some(p) ==> StyleModel::empty().apply_inherited(p) == StyleModel::empty(),
    ensures
        cascade(parent, rules, meta, inline) == StyleModel::empty(),
{
    let inherited = match parent {
        Some(p) => StyleModel::empty().apply_inherited(p),
        None => StyleModel::empty(),
    };
    lemma_no_match_no_change(inherited, rules, meta, rules.len() as int);
    lemma_empty_inline(inherited);
}

/// After resolving, the node of an element without a parent that no rule
/// matches and that has no inline attributes holds the default style.
pub proof fn law_unstyled_root_is_default(
    metadata: Seq<MetaModel>,
    rules: Seq<RuleModel>,
    before: Seq<NodeModel>,
    after: Seq<NodeModel>,
    i: int,
)
    requires
        0 <= i < metadata.len(),
        cascade_ready(metadata, before),
        resolved(metadata, rules, before, after, metadata.len() as int),
        metadata[i].parent is None,
        forall|k: int| 0 <= k < rules.len() ==> !rule_matches(#[trigger] rules[k], metadata[i]),
        before[metadata[i].attributes_ref - 1].inline == StyleModel::empty(),
    ensures
        after[metadata[i].attributes_ref - 1].computed == StyleModel::empty(),
{
    let sorted = sorted_rules(rules);
    lemma_cascade_order_bounds(rules, rules.len());
    assert forall|k: int| 0 <= k < sorted.len() implies !rule_matches(
        #[trigger] sorted[k],
        metadata[i],
    ) by {
        assert(sorted[k] == rules[cascade_order(rules)[k] as int]);
    }
    law_unstyled_is_default(
        None,
        sorted,
        metadata[i],
        before[metadata[i].attributes_ref - 1].inline,
    );
}


// ---------------------------------------------------------------------------
// The order of the cascade
// ---------------------------------------------------------------------------

/// Whether the rule `x` is applied before the rule `y`: it has the lower
/// specificity, or the same and was declared earlier.
pub open spec fn precedes(rules: Seq<RuleModel>, x: int, y: int) -> bool {
    rules[x].specificity < rules[y].specificity || (rules[x].specificity == rules[y].specificity
        && x < y)
}

/// Whether `order` lists rules so that each is applied before the next.
pub open spec fn ascending(rules: Seq<RuleModel>, order: Seq<usize>) -> bool {
    forall|a: int, b: int|
        0 <= a < b < order.len() ==> precedes(rules, #[trigger] order[a] as int, #[trigger] order[b] as int)
}

/// Where `insert_sorted` puts the new rule.
proof fn lemma_insert_position(order: Seq<usize>, rules: Seq<RuleModel>, k: usize) -> (pos: int)
    ensures
        0 <= pos <= order.len(),
        insert_sorted(order, rules, k) == order.insert(pos, k),
        forall|j: int|
            pos <= j < order.len() ==> rules[(#[trigger] order[j]) as int].specificity
                > rules[k as int].specificity,
        pos > 0 ==> rules[order[pos - 1] as int].specificity <= rules[k as int].specificity,
    decreases order.len(),
{
    if order.len() == 0 {
        assert(order.insert(0, k) =~= seq![k]);
        0
    } else if rules[order.last() as int].specificity <= rules[k as int].specificity {
        assert(order.insert(order.len() as int, k) =~= order.push(k));
        order.len() as int
    } else {
        let shorter = order.drop_last();
        let pos = lemma_insert_position(shorter, rules, k);
        assert(shorter.insert(pos, k).push(order.last()) =~= order.insert(pos, k));
        assert forall|j: int| pos <= j < order.len() implies rules[(
        #[trigger] order[j]) as int].specificity > rules[k as int].specificity by {
            if j < order.len() - 1 {
                assert(shorter[j] == order[j]);
            }
        }
        if pos > 0 {
            assert(shorter[pos - 1] == order[pos - 1]);
        }
        pos
    }
}

/// The order of the cascade is ascending: by specificity, and among rules
/// of one specificity by the order of their declaration.
pub proof fn lemma_cascade_order_sorted(rules: Seq<RuleModel>, n: nat)
    requires
        n <= rules.len(),
        n <= usize::MAX,
    ensures
        ascending(rules, cascade_order_upto(rules, n)),
    decreases n,
{
    if n > 0 {
        let shorter = cascade_order_upto(rules, (n - 1) as nat);
        let k = (n - 1) as usize;
        lemma_cascade_order_sorted(rules, (n - 1) as nat);
        lemma_cascade_order_bounds(rules, (n - 1) as nat);
        let pos = lemma_insert_position(shorter, rules, k);
        let longer = shorter.insert(pos, k);
        assert forall|a: int, b: int| 0 <= a < b < longer.len() implies precedes(
            rules,
            #[trigger] longer[a] as int,
            #[trigger] longer[b] as int,
        ) by {
            if b < pos {
                assert(longer[a] == shorter[a] && longer[b] == shorter[b]);
            } else if b == pos {
                assert(longer[a] == shorter[a]);
                if a < pos - 1 {
                    assert(precedes(rules, shorter[a] as int, shorter[pos - 1] as int));
                }
            } else if a < pos {
                assert(longer[a] == shorter[a] && longer[b] == shorter[b - 1]);
                if a < b - 1 {
                    assert(precedes(rules, shorter[a] as int, shorter[b - 1] as int));
                }
            } else if a == pos {
                assert(longer[b] == shorter[b - 1]);
            } else {
                assert(longer[a] == shorter[a - 1] && longer[b] == shorter[b - 1]);
            }
        }
    }
}

/// The order of the cascade holds every rule.
pub proof fn lemma_cascade_order_has(rules: Seq<RuleModel>, n: nat, k: int) -> (pos: int)
    requires
        0 <= k < n <= usize::MAX,
    ensures
        0 <= pos < n,
        cascade_order_upto(rules, n).len() == n,
        cascade_order_upto(rules, n)[pos] == k,
    decreases n,
{
    let shorter = cascade_order_upto(rules, (n - 1) as nat);
    lemma_cascade_order_bounds(rules, (n - 1) as nat);
    lemma_cascade_order_bounds(rules, n);
    let at = lemma_insert_position(shorter, rules, (n - 1) as usize);
    if k == n - 1 {
        at
    } else {
        let pos = lemma_cascade_order_has(rules, (n - 1) as nat, k);
        if pos < at {
            pos
        } else {
            pos + 1
        }
    }
}

/// The specificity of a rule with one selector: 100 for an id selector,
/// 10 for a class selector, 1 for a type selector.
pub proof fn lemma_single_selector_specificity(s: SelectorModel)
    ensures
        specificity_of(seq![s]) == match s {
            SelectorModel::Id(_) => 100nat,
            SelectorModel::Class(_) => 10nat,
            SelectorModel::Type(_) => 1nat,
        },
{
    assert(seq![s].drop_last() =~= Seq::<SelectorModel>::empty());
    assert(weight_sum(seq![s].drop_last()) == 0);
    assert(seq![s].last() == s);
}

/// Specificity decides between rules: of the rules that match an element
/// and declare a property, the one that every other one precedes gives
/// the property its value. A rule precedes another where its specificity
/// is lower, or is the same and the rule was declared earlier.
pub proof fn law_specificity_precedence(
    base: StyleModel,
    rules: Seq<RuleModel>,
    meta: MetaModel,
    w: int,
    p: Seq<char>,
)
    requires
        0 <= w < rules.len() <= usize::MAX,
        unshadowed(base, p),
        rule_matches(rules[w], meta),
        declared(rules[w], p) is Some,
        canonical_value(p, declared(rules[w], p)->0) is Some,
        forall|r: int|
            0 <= r < rules.len() && r != w && rule_matches(#[trigger] rules[r], meta) && declared(
                rules[r],
                p,
            ) is Some ==> precedes(rules, r, w),
    ensures
        apply_rules(base, sorted_rules(rules), meta, rules.len() as int).get(p) == canonical_value(
            p,
            declared(rules[w], p)->0,
        ),
{
    let n = rules.len();
    let order = cascade_order(rules);
    let sorted = sorted_rules(rules);
    lemma_cascade_order_bounds(rules, n);
    lemma_cascade_order_sorted(rules, n);
    let pos = lemma_cascade_order_has(rules, n, w);
    assert(sorted[pos] == rules[w]);
    assert forall|j: int| pos < j < n && rule_matches(#[trigger] sorted[j], meta) implies declared(
        sorted[j],
        p,
    ) is None by {
        let r = order[j] as int;
        assert(sorted[j] == rules[r]);
        assert(precedes(rules, order[pos] as int, order[j] as int));
        if declared(rules[r], p) is Some {
            assert(r != w);
            assert(precedes(rules, r, w));
        }
    }
    lemma_last_rule_wins(base, sorted, meta, n as int, pos, p);
}

/// In the style that the cascade gives an element, a property of the
/// open map that the element's inline attributes do not give has the
/// value of the matching rule that every other matching rule that
/// declares it precedes, whatever the element inherits.
pub proof fn law_rule_decides(
    parent: Option<StyleModel>,
    rules: Seq<RuleModel>,
    meta: MetaModel,
    inline: StyleModel,
    w: int,
    p: Seq<char>,
)
    requires
        0 <= w < rules.len() <= usize::MAX,
        !is_known(p),
        rule_matches(rules[w], meta),
        declared(rules[w], p) is Some,
        forall|r: int|
            0 <= r < rules.len() && r != w && rule_matches(#[trigger] rules[r], meta) && declared(
                rules[r],
                p,
            ) is Some ==> precedes(rules, r, w),
        lookup(inline.style, p) is None,
    ensures
        lookup(cascade(parent, sorted_rules(rules), meta, inline).style, p) == declared(
            rules[w],
            p,
        ),
{
    let inherited = match parent {
        Some(q) => StyleModel::empty().apply_inherited(q),
        None => StyleModel::empty(),
    };
    let sorted = sorted_rules(rules);
    law_specificity_precedence(inherited, rules, meta, w, p);
    let ruled = apply_rules(inherited, sorted, meta, sorted.len() as int);
    lemma_set_entries_entry(ruled, inline.style, inline.style.len() as int, p);
    assert(inline.style.take(inline.style.len() as int) =~= inline.style);
}

/// A rule with an id selector alone outranks a rule with a class
/// selector alone, which outranks a rule with a type selector alone,
/// wherever they stand in the style section.
pub proof fn law_id_over_class_over_type(rules: Seq<RuleModel>, a: int, b: int)
    requires
        0 <= a < rules.len(),
        0 <= b < rules.len(),
        rules[a].selectors.len() == 1,
        rules[b].selectors.len() == 1,
        rules[a].specificity == specificity_of(rules[a].selectors),
        rules[b].specificity == specificity_of(rules[b].selectors),
        (rules[a].selectors[0] is Id && !(rules[b].selectors[0] is Id)) || (
        rules[a].selectors[0] is Class && rules[b].selectors[0] is Type),
    ensures
        precedes(rules, b, a),
{
    assert(rules[a].selectors =~= seq![rules[a].selectors[0]]);
    assert(rules[b].selectors =~= seq![rules[b].selectors[0]]);
    lemma_single_selector_specificity(rules[a].selectors[0]);
    lemma_single_selector_specificity(rules[b].selectors[0]);
}

// ---------------------------------------------------------------------------
// What a computed style depends on
// ---------------------------------------------------------------------------

/// Two lists of rules that come to the same order of the cascade give
/// every element the same computed style.
pub proof fn law_rule_order(
    metadata: Seq<MetaModel>,
    before: Seq<NodeModel>,
    rules1: Seq<RuleModel>,
    after1: Seq<NodeModel>,
    rules2: Seq<RuleModel>,
    after2: Seq<NodeModel>,
    i: int,
)
    requires
        0 <= i < metadata.len(),
        resolved(metadata, rules1, before, after1, metadata.len() as int),
        resolved(metadata, rules2, before, after2, metadata.len() as int),
        sorted_rules(rules1) == sorted_rules(rules2),
    ensures
        after1[metadata[i].attributes_ref - 1].computed == after2[metadata[i].attributes_ref
            - 1].computed,
{
}

/// Whether the element `i` of the one document and the element `j` of the
/// other are alike in themselves and in their ancestors: in id, classes,
/// kind and inline attributes, all the way up.
pub open spec fn same_lineage(
    metadata1: Seq<MetaModel>,
    nodes1: Seq<NodeModel>,
    i: int,
    metadata2: Seq<MetaModel>,
    nodes2: Seq<NodeModel>,
    j: int,
) -> bool
    decreases i,
{
    &&& 0 <= i < metadata1.len()
    &&& 0 <= j < metadata2.len()
    &&& metadata1[i].id == metadata2[j].id
    &&& metadata1[i].classes == metadata2[j].classes
    &&& metadata1[i].element_type == metadata2[j].element_type
    &&& nodes1[metadata1[i].attributes_ref - 1].inline == nodes2[metadata2[j].attributes_ref
        - 1].inline
    &&& match (metadata1[i].parent, metadata2[j].parent) {
        (Some(p), Some(q)) => p < i && q < j && same_lineage(
            metadata1,
            nodes1,
            p as int,
            metadata2,
            nodes2,
            q as int,
        ),
        (None, None) => true,
        _ => false,
    }
}

/// Whether a rule matches depends on the element's id, classes and kind alone.
proof fn lemma_match_depends(rule: RuleModel, m1: MetaModel, m2: MetaModel)
    requires
        m1.id == m2.id,
        m1.classes == m2.classes,
        m1.element_type == m2.element_type,
    ensures
        rule_matches(rule, m1) == rule_matches(rule, m2),
{
    if rule_matches(rule, m1) {
        let k = choose|k: int|
            0 <= k < rule.selectors.len() && selector_matches(#[trigger] rule.selectors[k], m1);
        assert(selector_matches(rule.selectors[k], m2));
    }
    if rule_matches(rule, m2) {
        let k = choose|k: int|
            0 <= k < rule.selectors.len() && selector_matches(#[trigger] rule.selectors[k], m2);
        assert(selector_matches(rule.selectors[k], m1));
    }
}

proof fn lemma_rules_depend(
    base: StyleModel,
    rules: Seq<RuleModel>,
    m1: MetaModel,
    m2: MetaModel,
    n: int,
)
    requires
        0 <= n <= rules.len(),
        m1.id == m2.id,
        m1.classes == m2.classes,
        m1.element_type == m2.element_type,
    ensures
        apply_rules(base, rules, m1, n) == apply_rules(base, rules, m2, n),
    decreases n,
{
    if n > 0 {
        lemma_rules_depend(base, rules, m1, m2, n - 1);
        lemma_match_depends(rules[n - 1], m1, m2);
    }
}

/// The computed style of an element depends on nothing but the rules,
/// the element itself and its ancestors: elements that are alike in
/// themselves and in their ancestors have the same computed style, whatever
/// siblings and other elements stand beside them and in whatever order.
pub proof fn law_style_depends_on_lineage(
    rules: Seq<RuleModel>,
    metadata1: Seq<MetaModel>,
    nodes1: Seq<NodeModel>,
    i: int,
    metadata2: Seq<MetaModel>,
    nodes2: Seq<NodeModel>,
    j: int,
)
    requires
        same_lineage(metadata1, nodes1, i, metadata2, nodes2, j),
    ensures
        computed_style(metadata1, nodes1, rules, i) == computed_style(metadata2, nodes2, rules, j),
    decreases i,
{
    match (metadata1[i].parent, metadata2[j].parent) {
        (Some(p), Some(q)) => {
            law_style_depends_on_lineage(rules, metadata1, nodes1, p as int, metadata2, nodes2, q as int);
        },
        _ => {},
    }
    let parent = match metadata1[i].parent {
        Some(p) => Some(computed_style(metadata1, nodes1, rules, p as int)),
        None => None,
    };
    let inherited = match parent {
        Some(p) => StyleModel::empty().apply_inherited(p),
        None => StyleModel::empty(),
    };
    lemma_rules_depend(inherited, rules, metadata1[i], metadata2[j], rules.len() as int);
}

/// An element of a document is alike to itself in two attribute trees
/// that hold the same inline attributes.
proof fn lemma_same_lineage_self(
    metadata: Seq<MetaModel>,
    nodes1: Seq<NodeModel>,
    nodes2: Seq<NodeModel>,
    i: int,
)
    requires
        0 <= i < metadata.len(),
        cascade_ready(metadata, nodes1),
        nodes1.len() == nodes2.len(),
        forall|k: int| 0 <= k < nodes1.len() ==> (#[trigger] nodes1[k]).inline == nodes2[k].inline,
    ensures
        same_lineage(metadata, nodes1, i, metadata, nodes2, i),
    decreases i,
{
    assert(nodes1[metadata[i].attributes_ref - 1].inline == nodes2[metadata[i].attributes_ref
        - 1].inline);
    match metadata[i].parent {
        Some(p) => {
            lemma_same_lineage_self(metadata, nodes1, nodes2, p as int);
        },
        None => {},
    }
}

/// Resolving is idempotent: where the rules and the inline attributes
/// are as they were, resolving again gives every element the computed
/// style that it has.
pub proof fn law_resolve_idempotent(
    metadata: Seq<MetaModel>,
    rules: Seq<RuleModel>,
    before: Seq<NodeModel>,
    once: Seq<NodeModel>,
    twice: Seq<NodeModel>,
    i: int,
)
    requires
        0 <= i < metadata.len(),
        cascade_ready(metadata, before),
        resolved(metadata, rules, before, once, metadata.len() as int),
        resolved(metadata, rules, once, twice, metadata.len() as int),
    ensures
        twice[metadata[i].attributes_ref - 1].computed == once[metadata[i].attributes_ref
            - 1].computed,
{
    assert forall|k: int| 0 <= k < before.len() implies (#[trigger] before[k]).inline
        == once[k].inline by {
        assert(once[k].inline == before[k].inline);
    }
    lemma_same_lineage_self(metadata, before, once, i);
    law_style_depends_on_lineage(sorted_rules(rules), metadata, before, i, metadata, once, i);
}

// ---------------------------------------------------------------------------
// Inheritance
// ---------------------------------------------------------------------------

proof fn lemma_inherit_key_lookup(
    style: Seq<(Seq<char>, Seq<char>)>,
    parent: Seq<(Seq<char>, Seq<char>)>,
    k: Seq<char>,
    q: Seq<char>,
)
    ensures
        lookup(inherit_key(style, parent, k), q) == if q == k && lookup(style, k) is None {
            lookup(parent, k)
        } else {
            lookup(style, q)
        },
{
    if lookup(style, k) is None && lookup(parent, k) is Some {
        lemma_map_of_put(style, k, lookup(parent, k)->0);
    }
}

/// What a style that starts empty takes from a parent: the parent's
/// values of the inheritable properties and its alignment, and nothing else.
pub proof fn lemma_inherited(parent: StyleModel, q: Seq<char>)
    ensures
        lookup(StyleModel::empty().apply_inherited(parent).style, q) == if is_inheritable(q) {
            lookup(parent.style, q)
        } else {
            None
        },
        StyleModel::empty().apply_inherited(parent).margin is None,
        StyleModel::empty().apply_inherited(parent).padding is None,
        StyleModel::empty().apply_inherited(parent).id is None,
        StyleModel::empty().apply_inherited(parent).role is None,
        StyleModel::empty().apply_inherited(parent).align == parent.align,
        !StyleModel::empty().apply_inherited(parent).hidden,
{
    lemma_inheritable_names_differ();
    let e = StyleModel::empty();
    let s1 = inherit_key(e.style, parent.style, "font-family"@);
    let s2 = inherit_key(s1, parent.style, "font-size"@);
    let s3 = inherit_key(s2, parent.style, "font-weight"@);
    let s4 = inherit_key(s3, parent.style, "color"@);
    let s5 = inherit_key(s4, parent.style, "line-height"@);
    lemma_inherit_key_lookup(e.style, parent.style, "font-family"@, q);
    lemma_inherit_key_lookup(s1, parent.style, "font-size"@, q);
    lemma_inherit_key_lookup(s2, parent.style, "font-weight"@, q);
    lemma_inherit_key_lookup(s3, parent.style, "color"@, q);
    lemma_inherit_key_lookup(s4, parent.style, "line-height"@, q);
    lemma_inherit_key_lookup(e.style, parent.style, "font-family"@, "font-size"@);
    lemma_inherit_key_lookup(e.style, parent.style, "font-family"@, "font-weight"@);
    lemma_inherit_key_lookup(e.style, parent.style, "font-family"@, "color"@);
    lemma_inherit_key_lookup(e.style, parent.style, "font-family"@, "line-height"@);
    lemma_inherit_key_lookup(s1, parent.style, "font-size"@, "font-weight"@);
    lemma_inherit_key_lookup(s1, parent.style, "font-size"@, "color"@);
    lemma_inherit_key_lookup(s1, parent.style, "font-size"@, "line-height"@);
    lemma_inherit_key_lookup(s2, parent.style, "font-weight"@, "color"@);
    lemma_inherit_key_lookup(s2, parent.style, "font-weight"@, "line-height"@);
    lemma_inherit_key_lookup(s3, parent.style, "color"@, "line-height"@);
}

/// Whether nothing of an element's own gives it the open-map property
/// `p`: no matching rule declares it and its inline map does not hold it.
pub open spec fn has_no_own_value(
    rules: Seq<RuleModel>,
    meta: MetaModel,
    inline: StyleModel,
    p: Seq<char>,
) -> bool {
    &&& forall|k: int|
        0 <= k < rules.len() && rule_matches(#[trigger] rules[k], meta) ==> declared(rules[k], p)
            is None
    &&& lookup(inline.style, p) is None
}

/// A child takes an inheritable property from its parent: where nothing
/// of the child's own gives it the property, the child has the parent's
/// value of it, or none where the parent has none.
pub proof fn law_child_inherits(
    parent: StyleModel,
    rules: Seq<RuleModel>,
    meta: MetaModel,
    inline: StyleModel,
    p: Seq<char>,
)
    requires
        is_inheritable(p),
        has_no_own_value(rules, meta, inline, p),
    ensures
        lookup(cascade(Some(parent), rules, meta, inline).style, p) == lookup(parent.style, p),
{
    lemma_inheritable_is_open(p);
    lemma_inherited(parent, p);
    let inherited = StyleModel::empty().apply_inherited(parent);
    lemma_silent_rules_keep_entry(inherited, rules, meta, rules.len() as int, p);
    let ruled = apply_rules(inherited, rules, meta, rules.len() as int);
    lemma_set_entries_entry(ruled, inline.style, inline.style.len() as int, p);
    assert(inline.style.take(inline.style.len() as int) =~= inline.style);
}

/// Whether `d` is `a` or a descendant of `a` such that nothing of its
/// own gives `d`, or any element between the two, the property `p`.
pub open spec fn inherits_from(
    metadata: Seq<MetaModel>,
    nodes: Seq<NodeModel>,
    rules: Seq<RuleModel>,
    d: int,
    a: int,
    p: Seq<char>,
) -> bool
    decreases d,
{
    d == a || (0 <= d < metadata.len() && has_no_own_value(
        rules,
        metadata[d],
        nodes[metadata[d].attributes_ref - 1].inline,
        p,
    ) && match metadata[d].parent {
        Some(q) => q < d && inherits_from(metadata, nodes, rules, q as int, a, p),
        None => false,
    })
}

/// An inheritable property of an element appears identically on every
/// descendant that, like the elements between them, has no value of its
/// own for it.
pub proof fn law_descendants_inherit(
    metadata: Seq<MetaModel>,
    nodes: Seq<NodeModel>,
    rules: Seq<RuleModel>,
    d: int,
    a: int,
    p: Seq<char>,
)
    requires
        is_inheritable(p),
        inherits_from(metadata, nodes, rules, d, a, p),
    ensures
        lookup(computed_style(metadata, nodes, rules, d).style, p) == lookup(
            computed_style(metadata, nodes, rules, a).style,
            p,
        ),
    decreases d,
{
    if d != a {
        let q = metadata[d].parent->0 as int;
        law_descendants_inherit(metadata, nodes, rules, q, a, p);
        law_child_inherits(
            computed_style(metadata, nodes, rules, q),
            rules,
            metadata[d],
            nodes[metadata[d].attributes_ref - 1].inline,
            p,
        );
    }
}

/// A property that is not inheritable does not pass from parent to
/// child: an element that no rule and no inline attribute gives a margin
/// has none, whatever margin its parent has, and an open-map property
/// that is not inheritable and that nothing of the element's own gives it
/// is absent from its style.
pub proof fn law_not_inherited(
    parent: Option<StyleModel>,
    rules: Seq<RuleModel>,
    meta: MetaModel,
    inline: StyleModel,
    p: Seq<char>,
)
    ensures
        inline.margin is None && has_no_own_value(rules, meta, inline, "margin"@) ==> cascade(
            parent,
            rules,
            meta,
            inline,
        ).margin is None,
        !is_inheritable(p) && !is_known(p) && has_no_own_value(rules, meta, inline, p) ==> lookup(
            cascade(parent, rules, meta, inline).style,
            p,
        ) is None,
{
    let inherited = match parent {
        Some(q) => StyleModel::empty().apply_inherited(q),
        None => StyleModel::empty(),
    };
    let ruled = apply_rules(inherited, rules, meta, rules.len() as int);
    match parent {
        Some(q) => {
            lemma_inherited(q, p);
        },
        None => {},
    }
    if inline.margin is None && has_no_own_value(rules, meta, inline, "margin"@) {
        lemma_silent_rules_keep_margin(inherited, rules, meta, rules.len() as int);
        assert forall|j: int| 0 <= j < inline.style.len() implies (#[trigger] inline.style[j]).0
            != "margin"@ by {
            if inline.style[j].0 == "margin"@ {
                lemma_entry_is_mapped(inline.style, j);
            }
        }
        lemma_set_entries_margin(ruled, inline.style, inline.style.len() as int);
    }
    if !is_inheritable(p) && !is_known(p) && has_no_own_value(rules, meta, inline, p) {
        lemma_silent_rules_keep_entry(inherited, rules, meta, rules.len() as int, p);
        lemma_set_entries_entry(ruled, inline.style, inline.style.len() as int, p);
        assert(inline.style.take(inline.style.len() as int) =~= inline.style);
    }
}

/// The name of an entry is a name that the map holds.
proof fn lemma_entry_is_mapped(entries: Seq<(Seq<char>, Seq<char>)>, j: int)
    requires
        0 <= j < entries.len(),
    ensures
        lookup(entries, entries[j].0) is Some,
    decreases entries.len(),
{
    if entries.last().0 != entries[j].0 {
        assert(j < entries.len() - 1);
        assert(entries.drop_last()[j] == entries[j]);
        lemma_entry_is_mapped(entries.drop_last(), j);
    }
}

} // verus!
