//! The style cascade: for each element, the style that inheritance, the
//! matching rules in the order of their specificity, and the element's own
//! inline attributes give it.

use vstd::prelude::*;
use crate::ast::{expr_to_string, ExprModel, KeyValue, RuleModel, Selector, SelectorModel, StyleRule};
use crate::attribute_tree::{AttributeTree, NodeModel};
use crate::ir_types::{
    cascade_ready, meta_models, rule_models, ElementMetadata, HLIRModule, MetaModel, ModuleModel,
};
use crate::style::{PageBreak, StyleAttributes, StyleModel};
use crate::text::str_eq;

verus! {

// ---------------------------------------------------------------------------
// What the cascade computes
// ---------------------------------------------------------------------------

/// Whether a selector matches an element: an id selector where the
/// element has that id, a class selector where that class is among the
/// element's classes, a type selector where the element is of that kind.
pub open spec fn selector_matches(s: SelectorModel, meta: MetaModel) -> bool {
    match s {
        SelectorModel::Id(id) => meta.id == Some(id),
        SelectorModel::Class(class) => meta.classes.contains(class),
        SelectorModel::Type(ty) => meta.element_type == ty,
    }
}

/// Whether a rule matches an element: one of its selectors does.
pub open spec fn rule_matches(rule: RuleModel, meta: MetaModel) -> bool {
    exists|i: int| 0 <= i < rule.selectors.len() && selector_matches(#[trigger] rule.selectors[i], meta)
}

/// `base` after the first `n` declarations are set on it, in order.
pub open spec fn apply_declarations(
    base: StyleModel,
    declarations: Seq<(Seq<char>, ExprModel)>,
    n: int,
) -> StyleModel
    decreases n,
{
    if n <= 0 {
        base
    } else {
        apply_declarations(base, declarations, n - 1).set(
            declarations[n - 1].0,
            declarations[n - 1].1.text(),
        )
    }
}

/// `base` after the declarations of those of the first `n` rules that
/// match the element are set on it, rule by rule in order.
pub open spec fn apply_rules(base: StyleModel, rules: Seq<RuleModel>, meta: MetaModel, n: int) -> StyleModel
    decreases n,
{
    if n <= 0 {
        base
    } else {
        let before = apply_rules(base, rules, meta, n - 1);
        if rule_matches(rules[n - 1], meta) {
            apply_declarations(
                before,
                rules[n - 1].declarations,
                rules[n - 1].declarations.len() as int,
            )
        } else {
            before
        }
    }
}

/// `base` after the first `n` entries are set on it, in order.
pub open spec fn set_entries(base: StyleModel, entries: Seq<(Seq<char>, Seq<char>)>, n: int) -> StyleModel
    decreases n,
{
    if n <= 0 {
        base
    } else {
        set_entries(base, entries, n - 1).set(entries[n - 1].0, entries[n - 1].1)
    }
}

/// `base` with the element's inline attributes on top: the entries of
/// the inline map are set, and each typed property that is present inline
/// takes its inline value.
pub open spec fn apply_inline(base: StyleModel, inline: StyleModel) -> StyleModel {
    let s = set_entries(base, inline.style, inline.style.len() as int);
    StyleModel {
        id: if inline.id is Some {
            inline.id
        } else {
            s.id
        },
        class: if inline.class.len() > 0 {
            inline.class
        } else {
            s.class
        },
        style: s.style,
        margin: if inline.margin is Some {
            inline.margin
        } else {
            s.margin
        },
        padding: if inline.padding is Some {
            inline.padding
        } else {
            s.padding
        },
        align: if inline.align is Some {
            inline.align
        } else {
            s.align
        },
        hidden: inline.hidden || s.hidden,
        condition: s.condition,
        page_break: if inline.page_break != PageBreak::NoBreak {
            inline.page_break
        } else {
            s.page_break
        },
        role: if inline.role is Some {
            inline.role
        } else {
            s.role
        },
    }
}

/// The order after the rule `k` is put into `order`: behind every rule
/// whose specificity is not more than its own.
pub open spec fn insert_sorted(order: Seq<usize>, rules: Seq<RuleModel>, k: usize) -> Seq<usize>
    decreases order.len(),
{
    if order.len() == 0 {
        seq![k]
    } else if rules[order.last() as int].specificity <= rules[k as int].specificity {
        order.push(k)
    } else {
        insert_sorted(order.drop_last(), rules, k).push(order.last())
    }
}

/// The first `n` rules in the order of the cascade.
pub open spec fn cascade_order_upto(rules: Seq<RuleModel>, n: nat) -> Seq<usize>
    decreases n,
{
    if n == 0 {
        Seq::empty()
    } else {
        insert_sorted(cascade_order_upto(rules, (n - 1) as nat), rules, (n - 1) as usize)
    }
}

/// The indices of the rules in the order in which the cascade applies
/// them: by rising specificity, and rules of one specificity in the order
/// in which they were declared.
pub open spec fn cascade_order(rules: Seq<RuleModel>) -> Seq<usize> {
    cascade_order_upto(rules, rules.len())
}

/// The rules in the order in which the cascade applies them.
pub open spec fn sorted_rules(rules: Seq<RuleModel>) -> Seq<RuleModel> {
    Seq::new(rules.len(), |i: int| rules[cascade_order(rules)[i] as int])
}

/// The style that the cascade gives an element: what it inherits from
/// its parent's style, then the matching rules, then its inline attributes.
pub open spec fn cascade(
    parent: Option<StyleModel>,
    rules: Seq<RuleModel>,
    meta: MetaModel,
    inline: StyleModel,
) -> StyleModel {
    let inherited = match parent {
        Some(p) => StyleModel::empty().apply_inherited(p),
        None => StyleModel::empty(),
    };
    apply_inline(apply_rules(inherited, rules, meta, rules.len() as int), inline)
}

/// The computed style of the element `i`, where `rules` are the rules in
/// the order of the cascade and `nodes` holds the inline attributes.
pub open spec fn computed_style(
    metadata: Seq<MetaModel>,
    nodes: Seq<NodeModel>,
    rules: Seq<RuleModel>,
    i: int,
) -> StyleModel
    decreases i,
{
    if 0 <= i < metadata.len() {
        let meta = metadata[i];
        let parent = match meta.parent {
            Some(p) => if p < i {
                Some(computed_style(metadata, nodes, rules, p as int))
            } else {
                None
            },
            None => None,
        };
        cascade(parent, rules, meta, nodes[meta.attributes_ref - 1].inline)
    } else {
        StyleModel::empty()
    }
}

// ---------------------------------------------------------------------------
// The order of the cascade
// ---------------------------------------------------------------------------

proof fn lemma_insert_sorted(order: Seq<usize>, rules: Seq<RuleModel>, k: usize, pos: int)
    requires
        0 <= pos <= order.len(),
        forall|j: int|
            pos <= j < order.len() ==> rules[(#[trigger] order[j]) as int].specificity
                > rules[k as int].specificity,
        pos > 0 ==> rules[order[pos - 1] as int].specificity <= rules[k as int].specificity,
    ensures
        insert_sorted(order, rules, k) == order.insert(pos, k),
    decreases order.len(),
{
    if order.len() == 0 {
        assert(order.insert(pos, k) =~= seq![k]);
    } else if pos == order.len() {
        assert(order.insert(pos, k) =~= order.push(k));
    } else {
        assert(order.last() == order[order.len() - 1]);
        let shorter = order.drop_last();
        assert forall|j: int| pos <= j < shorter.len() implies rules[(
        #[trigger] shorter[j]) as int].specificity > rules[k as int].specificity by {
            assert(shorter[j] == order[j]);
        }
        lemma_insert_sorted(shorter, rules, k, pos);
        assert(shorter.insert(pos, k).push(order.last()) =~= order.insert(pos, k));
    }
}

/// The indices of `rules` in the order of the cascade.
pub fn cascade_order_of(rules: &Vec<StyleRule>) -> (order: Vec<usize>)
    ensures
        order@ == cascade_order(rule_models(rules@)),
        order@.len() == rules@.len(),
        forall|j: int| 0 <= j < order@.len() ==> (#[trigger] order@[j]) < rules@.len(),
{
    let ghost models = rule_models(rules@);
    let mut order: Vec<usize> = Vec::new();
    let mut k: usize = 0;
    while k < rules.len()
        invariant
            k <= rules@.len(),
            models == rule_models(rules@),
            order@ == cascade_order_upto(models, k as nat),
            order@.len() == k,
            forall|j: int| 0 <= j < order@.len() ==> (#[trigger] order@[j]) < k,
        decreases rules@.len() - k,
    {
        let mut pos: usize = order.len();
        while pos > 0 && rules[order[pos - 1]].specificity > rules[k].specificity
            invariant
                pos <= order@.len(),
                k < rules@.len(),
                models == rule_models(rules@),
                forall|j: int| 0 <= j < order@.len() ==> (#[trigger] order@[j]) < k,
                forall|j: int|
                    pos <= j < order@.len() ==> models[(#[trigger] order@[j]) as int].specificity
                        > models[k as int].specificity,
            decreases pos,
        {
            pos -= 1;
        }
        proof {
            lemma_insert_sorted(order@, models, k, pos as int);
        }
        order.insert(pos, k);
        k += 1;
    }
    order
}

// ---------------------------------------------------------------------------
// The resolver
// ---------------------------------------------------------------------------

/// Whether `selector` matches the element that `metadata` describes.
pub fn selector_matches_element(selector: &Selector, metadata: &ElementMetadata) -> (r: bool)
    ensures
        r == selector_matches(selector@, metadata@),
{
    match selector {
        Selector::Id(id) => match &metadata.id {
            Some(own) => str_eq(own.as_str(), id.as_str()),
            None => false,
        },
        Selector::Class(class) => {
            let mut i: usize = 0;
            while i < metadata.classes.len()
                invariant
                    i <= metadata.classes@.len(),
                    selector@ == SelectorModel::Class(class@),
                    forall|j: int| 0 <= j < i ==> metadata@.classes[j] != class@,
                decreases metadata.classes@.len() - i,
            {
                if str_eq(metadata.classes[i].as_str(), class.as_str()) {
                    assert(metadata@.classes[i as int] == class@);
                    assert(metadata@.classes.contains(class@));
                    return true;
                }
                i += 1;
            }
            false
        },
        Selector::Type(ty) => str_eq(metadata.element_type.as_str(), ty.as_str()),
    }
}

/// Whether one of the selectors of `rule` matches the element.
pub fn rule_matches_element(rule: &StyleRule, metadata: &ElementMetadata) -> (r: bool)
    ensures
        r == rule_matches(rule@, metadata@),
{
    let mut i: usize = 0;
    while i < rule.selector_list.len()
        invariant
            i <= rule.selector_list@.len(),
            forall|j: int| 0 <= j < i ==> !selector_matches(#[trigger] rule@.selectors[j], metadata@),
        decreases rule.selector_list@.len() - i,
    {
        if selector_matches_element(&rule.selector_list[i], metadata) {
            assert(selector_matches(rule@.selectors[i as int], metadata@));
            return true;
        }
        i += 1;
    }
    false
}

/// Sets each declaration of a rule on `computed`, in order.
pub fn apply_rule_declarations(computed: &mut StyleAttributes, declarations: &Vec<KeyValue>)
    ensures
        final(computed)@ == apply_declarations(
            old(computed)@,
            crate::ast::declaration_models(declarations@),
            declarations@.len() as int,
        ),
{
    let ghost models = crate::ast::declaration_models(declarations@);
    let mut i: usize = 0;
    while i < declarations.len()
        invariant
            i <= declarations@.len(),
            models == crate::ast::declaration_models(declarations@),
            computed@ == apply_declarations(old(computed)@, models, i as int),
        decreases declarations@.len() - i,
    {
        let value = expr_to_string(&declarations[i].value);
        computed.set(declarations[i].key.as_str(), value);
        i += 1;
    }
}

/// Lays the inline attributes of an element over `computed`.
pub fn apply_inline_styles(computed: &mut StyleAttributes, inline: &StyleAttributes)
    ensures
        final(computed)@ == apply_inline(old(computed)@, inline@),
{
    let mut i: usize = 0;
    while i < inline.style.entries.len()
        invariant
            i <= inline.style.entries@.len(),
            computed@ == set_entries(old(computed)@, inline.style.pairs(), i as int),
        decreases inline.style.entries@.len() - i,
    {
        computed.set(inline.style.entries[i].0.as_str(), inline.style.entries[i].1.clone());
        i += 1;
    }
    match &inline.id {
        Some(id) => {
            computed.id = Some(id.clone());
        },
        None => {},
    }
    if inline.class.len() > 0 {
        computed.class = crate::style::clone_strings(&inline.class);
    }
    match &inline.margin {
        Some(margin) => {
            computed.margin = Some(margin.clone());
        },
        None => {},
    }
    match &inline.padding {
        Some(padding) => {
            computed.padding = Some(padding.clone());
        },
        None => {},
    }
    match inline.align {
        Some(align) => {
            computed.align = Some(align);
        },
        None => {},
    }
    if inline.hidden {
        computed.hidden = true;
    }
    if inline.page_break != PageBreak::NoBreak {
        computed.page_break = inline.page_break;
    }
    match &inline.role {
        Some(role) => {
            computed.role = Some(role.clone());
        },
        None => {},
    }
}

/// The style that the cascade gives the element `element_idx`, from the
/// computed style of its parent as the tree holds it now.
fn compute_element_styles(
    metadata: &Vec<ElementMetadata>,
    rules: &Vec<StyleRule>,
    order: &Vec<usize>,
    tree: &AttributeTree,
    element_idx: usize,
) -> (computed: StyleAttributes)
    requires
        element_idx < metadata@.len(),
        order@ == cascade_order(rule_models(rules@)),
        order@.len() == rules@.len(),
        forall|j: int| 0 <= j < order@.len() ==> (#[trigger] order@[j]) < rules@.len(),
        cascade_ready(meta_models(metadata@), tree@),
    ensures
        computed@ == cascade(
            match metadata@[element_idx as int].parent {
                Some(p) => Some(
                    tree@[meta_models(metadata@)[p as int].attributes_ref - 1].computed,
                ),
                None => None,
            },
            sorted_rules(rule_models(rules@)),
            meta_models(metadata@)[element_idx as int],
            tree@[metadata@[element_idx as int].attributes_ref - 1].inline,
        ),
{
    let meta = &metadata[element_idx];
    let ghost metas = meta_models(metadata@);
    let ghost sorted = sorted_rules(rule_models(rules@));
    assert(metas[element_idx as int] == meta@);
    let mut computed = StyleAttributes::default();
    match meta.parent {
        Some(parent_idx) => {
            assert(parent_idx < element_idx);
            let parent_meta = &metadata[parent_idx];
            assert(metas[parent_idx as int] == parent_meta@);
            match tree.find_node(parent_meta.attributes_ref) {
                Some(parent_node) => {
                    computed.apply_inherited(&parent_node.computed);
                },
                None => {
                    assert(false);
                },
            }
        },
        None => {},
    }
    let ghost start = computed@;
    let mut k: usize = 0;
    while k < order.len()
        invariant
            k <= order@.len(),
            order@ == cascade_order(rule_models(rules@)),
            order@.len() == rules@.len(),
            forall|j: int| 0 <= j < order@.len() ==> (#[trigger] order@[j]) < rules@.len(),
            sorted == sorted_rules(rule_models(rules@)),
            computed@ == apply_rules(start, sorted, meta@, k as int),
        decreases order@.len() - k,
    {
        let rule = &rules[order[k]];
        assert(sorted[k as int] == rule@);
        if rule_matches_element(rule, meta) {
            apply_rule_declarations(&mut computed, &rule.declaration_block);
        }
        k += 1;
    }
    match tree.find_node(meta.attributes_ref) {
        Some(node) => {
            apply_inline_styles(&mut computed, &node.inline);
        },
        None => {
            assert(false);
        },
    }
    computed
}

/// What resolving leaves in the attribute tree: each element's node holds
/// the element's computed style, and nothing else has changed.
pub open spec fn resolved(
    metadata: Seq<MetaModel>,
    rules: Seq<RuleModel>,
    before: Seq<NodeModel>,
    after: Seq<NodeModel>,
    n: int,
) -> bool {
    &&& after.len() == before.len()
    &&& forall|k: int|
        0 <= k < after.len() ==> (#[trigger] after[k]).inline == before[k].inline && after[k].id
            == before[k].id && after[k].parent == before[k].parent
    &&& forall|i: int|
        0 <= i < n ==> after[(#[trigger] metadata[i]).attributes_ref - 1].computed
            == computed_style(metadata, before, sorted_rules(rules), i)
    &&& forall|k: int|
        0 <= k < after.len() && (forall|i: int|
            0 <= i < n ==> (#[trigger] metadata[i]).attributes_ref != k + 1) ==> (
        #[trigger] after[k]).computed == before[k].computed
}

/// Holds the order of the cascade for one module's rules.
pub struct StyleResolver {
    pub order: Vec<usize>,
}

impl StyleResolver {
    /// A resolver for the rules of `hlir`.
    pub fn new(hlir: &HLIRModule) -> (r: Self)
        ensures
            r.order@ == cascade_order(hlir@.css_rules),
    {
        let order = cascade_order_of(&hlir.css_rules);
        StyleResolver { order }
    }

    /// Computes the style of every element of `hlir`, in the order of
    /// their indices, and writes it into the element's node.
    pub fn resolve(&self, hlir: &mut HLIRModule)
        requires
            self.order@ == cascade_order(old(hlir)@.css_rules),
            cascade_ready(old(hlir)@.metadata, old(hlir)@.attributes),
        ensures
            resolved(
                old(hlir)@.metadata,
                old(hlir)@.css_rules,
                old(hlir)@.attributes,
                final(hlir)@.attributes,
                old(hlir)@.metadata.len() as int,
            ),
            cascade_ready(final(hlir)@.metadata, final(hlir)@.attributes),
            old(hlir).wf() ==> final(hlir).wf(),
            final(hlir).globals == old(hlir).globals,
            final(hlir).functions == old(hlir).functions,
            final(hlir).css_rules == old(hlir).css_rules,
            final(hlir).elements == old(hlir).elements,
            final(hlir).element_metadata == old(hlir).element_metadata,
    {
        proof {
            lemma_cascade_order_bounds(hlir@.css_rules, hlir@.css_rules.len());
        }
        resolve_all(&hlir.element_metadata, &hlir.css_rules, &self.order, &mut hlir.attributes);
        proof {
            if old(hlir).wf() {
                lemma_resolved_keeps_wf(old(hlir)@, hlir@);
            }
        }
    }
}

/// Resolving leaves a module as lowering leaves it.
pub proof fn lemma_resolved_keeps_wf(before: ModuleModel, after: ModuleModel)
    requires
        before.wf(),
        resolved(
            before.metadata,
            before.css_rules,
            before.attributes,
            after.attributes,
            before.metadata.len() as int,
        ),
        cascade_ready(after.metadata, after.attributes),
        after.metadata == before.metadata,
        after.elements == before.elements,
        after.globals == before.globals,
        after.functions == before.functions,
    ensures
        after.wf(),
{
    assert forall|i: int| 0 <= i < after.metadata.len() implies #[trigger] after.recorded(i) by {
        assert(before.recorded(i));
        assert(after.attributes[i + 1].inline == before.attributes[i + 1].inline);
    }
}

/// One more element resolved: its node takes its computed style.
proof fn lemma_resolved_step(
    metas: Seq<MetaModel>,
    rules: Seq<RuleModel>,
    before: Seq<NodeModel>,
    current: Seq<NodeModel>,
    after: Seq<NodeModel>,
    idx: int,
)
    requires
        0 <= idx < metas.len(),
        cascade_ready(metas, before),
        cascade_ready(metas, current),
        resolved(metas, rules, before, current, idx),
        after == current.update(
            metas[idx].attributes_ref - 1,
            NodeModel {
                computed: computed_style(metas, before, sorted_rules(rules), idx),
                ..current[metas[idx].attributes_ref - 1]
            },
        ),
    ensures
        resolved(metas, rules, before, after, idx + 1),
        cascade_ready(metas, after),
{
    let slot = metas[idx].attributes_ref - 1;
    assert forall|i: int| 0 <= i < idx + 1 implies after[(#[trigger] metas[i]).attributes_ref
        - 1].computed == computed_style(metas, before, sorted_rules(rules), i) by {
        if i < idx {
            assert(metas[i].attributes_ref != metas[idx].attributes_ref);
        }
    }
    assert forall|k: int|
        0 <= k < after.len() && (forall|i: int|
            0 <= i < idx + 1 ==> (#[trigger] metas[i]).attributes_ref != k + 1) implies (
    #[trigger] after[k]).computed == before[k].computed by {
        assert(metas[idx].attributes_ref != k + 1);
        assert(after[k] == current[k]);
        assert forall|i: int| 0 <= i < idx implies (#[trigger] metas[i]).attributes_ref != k
            + 1 by {}
    }
    assert forall|k: int| 0 <= k < after.len() implies (#[trigger] after[k]).inline
        == before[k].inline && after[k].id == before[k].id && after[k].parent
        == before[k].parent by {
        assert(current[k].inline == before[k].inline);
    }
    assert forall|i: int| 1 <= i < after.len() implies (#[trigger] after[i]).parent is Some && 1
        <= after[i].parent->0 <= i by {
        assert(current[i].parent is Some);
    }
    assert forall|i: int| 0 <= i < after.len() implies (#[trigger] after[i]).id == i + 1 by {
        assert(current[i].id == i + 1);
    }
}

/// Computes the style of each element, in the order of the indices, and
/// writes it into the element's node of `tree`.
fn resolve_all(
    metadata: &Vec<ElementMetadata>,
    rules: &Vec<StyleRule>,
    order: &Vec<usize>,
    tree: &mut AttributeTree,
)
    requires
        order@ == cascade_order(rule_models(rules@)),
        order@.len() == rules@.len(),
        forall|j: int| 0 <= j < order@.len() ==> (#[trigger] order@[j]) < rules@.len(),
        cascade_ready(meta_models(metadata@), old(tree)@),
    ensures
        resolved(
            meta_models(metadata@),
            rule_models(rules@),
            old(tree)@,
            final(tree)@,
            metadata@.len() as int,
        ),
        cascade_ready(meta_models(metadata@), final(tree)@),
{
    let ghost metas = meta_models(metadata@);
    let ghost models = rule_models(rules@);
    let ghost before = tree@;
    let n = metadata.len();
    let mut element_idx: usize = 0;
    while element_idx < n
        invariant
            element_idx <= n == metas.len(),
            metas == meta_models(metadata@),
            models == rule_models(rules@),
            order@ == cascade_order(models),
            order@.len() == rules@.len(),
            forall|j: int| 0 <= j < order@.len() ==> (#[trigger] order@[j]) < rules@.len(),
            cascade_ready(metas, before),
            cascade_ready(metas, tree@),
            resolved(metas, models, before, tree@, element_idx as int),
        decreases n - element_idx,
    {
        let ghost current = tree@;
        let computed = compute_element_styles(metadata, rules, order, tree, element_idx);
        let attributes_ref = metadata[element_idx].attributes_ref;
        proof {
            let meta = metas[element_idx as int];
            assert(meta == metadata@[element_idx as int]@);
            assert(current[meta.attributes_ref - 1].inline == before[meta.attributes_ref
                - 1].inline);
            match meta.parent {
                Some(p) => {
                    assert(p < element_idx);
                    assert(current[metas[p as int].attributes_ref - 1].computed == computed_style(
                        metas,
                        before,
                        sorted_rules(models),
                        p as int,
                    ));
                },
                None => {},
            }
            assert(computed@ == computed_style(
                metas,
                before,
                sorted_rules(models),
                element_idx as int,
            ));
        }
        tree.set_computed(attributes_ref, computed);
        proof {
            lemma_resolved_step(metas, models, before, current, tree@, element_idx as int);
        }
        element_idx += 1;
    }
}

/// Each entry of the order of the cascade is the index of a rule.
pub proof fn lemma_cascade_order_bounds(rules: Seq<RuleModel>, n: nat)
    ensures
        cascade_order_upto(rules, n).len() == n,
        forall|j: int| 0 <= j < n ==> (#[trigger] cascade_order_upto(rules, n)[j]) < n,
    decreases n,
{
    if n > 0 {
        let shorter = cascade_order_upto(rules, (n - 1) as nat);
        lemma_cascade_order_bounds(rules, (n - 1) as nat);
        lemma_insert_sorted_entries(shorter, rules, (n - 1) as usize);
        let longer = insert_sorted(shorter, rules, (n - 1) as usize);
        assert forall|j: int| 0 <= j < n implies (#[trigger] longer[j]) < n by {
            if longer[j] != (n - 1) as usize {
                let i = choose|i: int| 0 <= i < shorter.len() && shorter[i] == longer[j];
                assert(shorter[i] < n - 1);
            }
        }
    }
}

/// What `insert_sorted` holds: the new rule, and the rules that were there.
proof fn lemma_insert_sorted_entries(order: Seq<usize>, rules: Seq<RuleModel>, k: usize)
    ensures
        insert_sorted(order, rules, k).len() == order.len() + 1,
        forall|j: int|
            0 <= j < order.len() + 1 ==> (#[trigger] insert_sorted(order, rules, k)[j]) == k || (
            exists|i: int| 0 <= i < order.len() && order[i] == insert_sorted(order, rules, k)[j]),
    decreases order.len(),
{
    let longer = insert_sorted(order, rules, k);
    if order.len() == 0 {
    } else if rules[order.last() as int].specificity <= rules[k as int].specificity {
        assert forall|j: int| 0 <= j < order.len() + 1 implies (#[trigger] longer[j]) == k || (
        exists|i: int| 0 <= i < order.len() && order[i] == longer[j]) by {
            if j < order.len() {
                assert(order[j] == longer[j]);
            }
        }
    } else {
        let shorter = order.drop_last();
        lemma_insert_sorted_entries(shorter, rules, k);
        let inner = insert_sorted(shorter, rules, k);
        assert forall|j: int| 0 <= j < order.len() + 1 implies (#[trigger] longer[j]) == k || (
        exists|i: int| 0 <= i < order.len() && order[i] == longer[j]) by {
            if j < order.len() {
                assert(longer[j] == inner[j]);
                if inner[j] != k {
                    let i = choose|i: int| 0 <= i < shorter.len() && shorter[i] == inner[j];
                    assert(order[i] == longer[j]);
                }
            } else {
                assert(order[order.len() - 1] == longer[j]);
            }
        }
    }
}

/// Computes the style of every element of `hlir` and writes it into the
/// element's node of the attribute tree.
pub fn resolve_styles(hlir: &mut HLIRModule)
    requires
        cascade_ready(old(hlir)@.metadata, old(hlir)@.attributes),
    ensures
        resolved(
            old(hlir)@.metadata,
            old(hlir)@.css_rules,
            old(hlir)@.attributes,
            final(hlir)@.attributes,
            old(hlir)@.metadata.len() as int,
        ),
        cascade_ready(final(hlir)@.metadata, final(hlir)@.attributes),
        old(hlir).wf() ==> final(hlir).wf(),
        final(hlir).globals == old(hlir).globals,
        final(hlir).functions == old(hlir).functions,
        final(hlir).css_rules == old(hlir).css_rules,
        final(hlir).elements == old(hlir).elements,
        final(hlir).element_metadata == old(hlir).element_metadata,
{
    let resolver = StyleResolver::new(hlir);
    resolver.resolve(hlir);
}

/// Computes the style of every element of `hlir` where the module is
/// ready for the cascade, and says whether it was. A module that is not
/// ready stays as it is.
pub fn try_resolve_styles(hlir: &mut HLIRModule) -> (ready: bool)
    ensures
        ready == cascade_ready(old(hlir)@.metadata, old(hlir)@.attributes),
        ready ==> resolved(
            old(hlir)@.metadata,
            old(hlir)@.css_rules,
            old(hlir)@.attributes,
            final(hlir)@.attributes,
            old(hlir)@.metadata.len() as int,
        ),
        !ready ==> final(hlir)@.attributes == old(hlir)@.attributes,
        old(hlir).wf() ==> final(hlir).wf(),
        final(hlir).globals == old(hlir).globals,
        final(hlir).functions == old(hlir).functions,
        final(hlir).css_rules == old(hlir).css_rules,
        final(hlir).elements == old(hlir).elements,
        final(hlir).element_metadata == old(hlir).element_metadata,
{
    if hlir.is_cascade_ready() {
        resolve_styles(hlir);
        true
    } else {
        false
    }
}

impl crate::hlir::HLIRPass {
    /// Runs the style cascade on a lowered module.
    pub fn style_pass(&mut self, hlir: &mut HLIRModule)
        requires
            cascade_ready(old(hlir)@.metadata, old(hlir)@.attributes),
        ensures
            final(self)@ == old(self)@,
            resolved(
                old(hlir)@.metadata,
                old(hlir)@.css_rules,
                old(hlir)@.attributes,
                final(hlir)@.attributes,
                old(hlir)@.metadata.len() as int,
            ),
            cascade_ready(final(hlir)@.metadata, final(hlir)@.attributes),
            old(hlir).wf() ==> final(hlir).wf(),
            final(hlir).globals == old(hlir).globals,
            final(hlir).functions == old(hlir).functions,
            final(hlir).css_rules == old(hlir).css_rules,
            final(hlir).elements == old(hlir).elements,
            final(hlir).element_metadata == old(hlir).element_metadata,
    {
        resolve_styles(hlir);
    }
}

} // verus!
