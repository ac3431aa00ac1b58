//! Style attributes: a few typed properties and an open map of named ones,
//! with the operations that the cascade is made of.

use vstd::prelude::*;
use crate::assoc::{lemma_map_of_put, map_of, put};
use crate::ast::{AttributeMap, ExprModel};
use crate::decimal::{decimal_of_text, Decimal};
use crate::style_map::StyleMap;
use crate::text::{
    find_char, find_in, joined, lemma_find_char_is, split_whitespace, str_eq, string_from_chars,
    to_chars, trim, trim_range, words,
};

verus! {

// ---------------------------------------------------------------------------
// Alignment and page breaks
// ---------------------------------------------------------------------------

/// How an element is aligned.
#[derive(Debug, Clone, Copy, PartialEq, Eq, Structural)]
pub enum Align {
    Left,
    Center,
    Right,
}

/// The alignment that `s` names: `left`, `center` or `right`.
pub open spec fn align_of_text(s: Seq<char>) -> Option<Align> {
    if s == "left"@ {
        Some(Align::Left)
    } else if s == "center"@ {
        Some(Align::Center)
    } else if s == "right"@ {
        Some(Align::Right)
    } else {
        None
    }
}

/// The text that an alignment is read back as.
pub open spec fn align_text(a: Align) -> Seq<char> {
    match a {
        Align::Left => "Left"@,
        Align::Center => "Center"@,
        Align::Right => "Right"@,
    }
}

impl Align {
    /// The alignment that `s` names.
    pub fn parse(s: &str) -> (r: Option<Align>)
        ensures
            r == align_of_text(s@),
    {
        if str_eq(s, "left") {
            Some(Align::Left)
        } else if str_eq(s, "center") {
            Some(Align::Center)
        } else if str_eq(s, "right") {
            Some(Align::Right)
        } else {
            None
        }
    }

    /// The text that this alignment is read back as.
    pub fn name(self) -> (s: String)
        ensures
            s@ == align_text(self),
    {
        match self {
            Align::Left => "Left".to_owned(),
            Align::Center => "Center".to_owned(),
            Align::Right => "Right".to_owned(),
        }
    }
}

impl std::str::FromStr for Align {
    type Err = String;

    /// The alignment that `s` names, or a message that holds `s`.
    fn from_str(s: &str) -> (r: Result<Self, String>)
        ensures
            match align_of_text(s@) {
                Some(a) => r == Ok::<Align, String>(a),
                None => r matches Err(e) && e@ == "Invalid alignment value: "@ + s@,
            },
    {
        match Align::parse(s) {
            Some(a) => Ok(a),
            None => Err(joined("Invalid alignment value: ", s)),
        }
    }
}

/// Where a page is broken about an element.
#[derive(Debug, Clone, Copy, PartialEq, Eq, Structural)]
pub enum PageBreak {
    Before,
    After,
    /// No forced break; written `none`.
    NoBreak,
}

/// The page-break policy that `s` names: `before`, `after` or `none`.
pub open spec fn page_break_of_text(s: Seq<char>) -> Option<PageBreak> {
    if s == "before"@ {
        Some(PageBreak::Before)
    } else if s == "after"@ {
        Some(PageBreak::After)
    } else if s == "none"@ {
        Some(PageBreak::NoBreak)
    } else {
        None
    }
}

/// The text that a page-break policy is read back as.
pub open spec fn page_break_text(p: PageBreak) -> Seq<char> {
    match p {
        PageBreak::Before => "before"@,
        PageBreak::After => "after"@,
        PageBreak::NoBreak => "none"@,
    }
}

impl PageBreak {
    /// The page-break policy that `s` names.
    pub fn parse(s: &str) -> (r: Option<PageBreak>)
        ensures
            r == page_break_of_text(s@),
    {
        if str_eq(s, "before") {
            Some(PageBreak::Before)
        } else if str_eq(s, "after") {
            Some(PageBreak::After)
        } else if str_eq(s, "none") {
            Some(PageBreak::NoBreak)
        } else {
            None
        }
    }

    /// The text that this policy is read back as.
    pub fn name(self) -> (s: String)
        ensures
            s@ == page_break_text(self),
    {
        match self {
            PageBreak::Before => "before".to_owned(),
            PageBreak::After => "after".to_owned(),
            PageBreak::NoBreak => "none".to_owned(),
        }
    }
}

impl std::str::FromStr for PageBreak {
    type Err = String;

    /// The page-break policy that `s` names, or a message that holds `s`.
    fn from_str(s: &str) -> (r: Result<Self, String>)
        ensures
            match page_break_of_text(s@) {
                Some(p) => r == Ok::<PageBreak, String>(p),
                None => r matches Err(e) && e@ == "Invalid page break value: "@ + s@,
            },
    {
        match PageBreak::parse(s) {
            Some(p) => Ok(p),
            None => Err(joined("Invalid page break value: ", s)),
        }
    }
}

/// The truth value that `s` names: `true` or `false`.
pub open spec fn bool_of_text(s: Seq<char>) -> Option<bool> {
    if s == "true"@ {
        Some(true)
    } else if s == "false"@ {
        Some(false)
    } else {
        None
    }
}

/// The text that a truth value is read back as.
pub open spec fn bool_text(b: bool) -> Seq<char> {
    if b {
        "true"@
    } else {
        "false"@
    }
}

fn parse_bool(s: &str) -> (r: Option<bool>)
    ensures
        r == bool_of_text(s@),
{
    if str_eq(s, "true") {
        Some(true)
    } else if str_eq(s, "false") {
        Some(false)
    } else {
        None
    }
}

// ---------------------------------------------------------------------------
// The model
// ---------------------------------------------------------------------------

/// What a set of style attributes holds.
pub struct StyleModel {
    pub id: Option<Seq<char>>,
    pub class: Seq<Seq<char>>,
    /// The open map, as its entries in order; the last entry of a name counts.
    pub style: Seq<(Seq<char>, Seq<char>)>,
    pub margin: Option<Seq<char>>,
    pub padding: Option<Seq<char>>,
    pub align: Option<Align>,
    pub hidden: bool,
    pub condition: Option<bool>,
    pub page_break: PageBreak,
    pub role: Option<Seq<char>>,
}

/// The value of `k` in the entries `p`.
pub open spec fn lookup(p: Seq<(Seq<char>, Seq<char>)>, k: Seq<char>) -> Option<Seq<char>> {
    if map_of(p).dom().contains(k) {
        Some(map_of(p)[k])
    } else {
        None
    }
}

/// Whether `p` names one of the typed properties that `get` and `set` reach.
pub open spec fn is_known(p: Seq<char>) -> bool {
    p == "id"@ || p == "margin"@ || p == "padding"@ || p == "align"@ || p == "hidden"@ || p
        == "page_break"@ || p == "role"@
}

/// Whether `p` is one of the properties that a child takes from its parent.
pub open spec fn is_inheritable(p: Seq<char>) -> bool {
    p == "font-family"@ || p == "font-size"@ || p == "font-weight"@ || p == "color"@ || p
        == "line-height"@
}

/// `style` with the parent's value of `k`, where the parent has one and `style` has none.
pub open spec fn inherit_key(
    style: Seq<(Seq<char>, Seq<char>)>,
    parent: Seq<(Seq<char>, Seq<char>)>,
    k: Seq<char>,
) -> Seq<(Seq<char>, Seq<char>)> {
    if lookup(style, k) is None && lookup(parent, k) is Some {
        put(style, k, lookup(parent, k)->0)
    } else {
        style
    }
}

/// `mine` with the entries at `0..i` of `theirs` whose names it lacks, the
/// later entries first.
pub open spec fn merge_entries(
    mine: Seq<(Seq<char>, Seq<char>)>,
    theirs: Seq<(Seq<char>, Seq<char>)>,
    i: int,
) -> Seq<(Seq<char>, Seq<char>)>
    decreases i,
{
    if i <= 0 || i > theirs.len() {
        mine
    } else {
        let e = theirs[i - 1];
        merge_entries(
            if lookup(mine, e.0) is None {
                put(mine, e.0, e.1)
            } else {
                mine
            },
            theirs,
            i - 1,
        )
    }
}

impl StyleModel {
    /// The attributes of an element that nothing was said about.
    pub open spec fn empty() -> StyleModel {
        StyleModel {
            id: None,
            class: Seq::empty(),
            style: Seq::empty(),
            margin: None,
            padding: None,
            align: None,
            hidden: false,
            condition: None,
            page_break: PageBreak::NoBreak,
            role: None,
        }
    }

    /// The value of the property `p`: that of the open map where it has one,
    /// else that of the typed property of this name, as text.
    pub open spec fn get(self, p: Seq<char>) -> Option<Seq<char>> {
        if lookup(self.style, p) is Some {
            lookup(self.style, p)
        } else if p == "id"@ {
            self.id
        } else if p == "margin"@ {
            self.margin
        } else if p == "padding"@ {
            self.padding
        } else if p == "align"@ {
            match self.align {
                Some(a) => Some(align_text(a)),
                None => None,
            }
        } else if p == "hidden"@ {
            Some(bool_text(self.hidden))
        } else if p == "page_break"@ {
            Some(page_break_text(self.page_break))
        } else if p == "role"@ {
            self.role
        } else {
            None
        }
    }

    /// The attributes after the property `p` is set to `v`. A typed property
    /// takes the value that `v` writes; a measure or an alignment that `v`
    /// does not write stays as it was. Any other name goes to the open map.
    pub open spec fn set(self, p: Seq<char>, v: Seq<char>) -> StyleModel {
        if p == "id"@ {
            StyleModel { id: Some(v), ..self }
        } else if p == "margin"@ {
            match decimal_of_text(v) {
                Some(d) => StyleModel { margin: Some(d), ..self },
                None => self,
            }
        } else if p == "padding"@ {
            match decimal_of_text(v) {
                Some(d) => StyleModel { padding: Some(d), ..self },
                None => self,
            }
        } else if p == "align"@ {
            match align_of_text(v) {
                Some(a) => StyleModel { align: Some(a), ..self },
                None => self,
            }
        } else if p == "hidden"@ {
            StyleModel { hidden: bool_of_text(v) == Some(true), ..self }
        } else if p == "page_break"@ {
            StyleModel {
                page_break: match page_break_of_text(v) {
                    Some(b) => b,
                    None => PageBreak::NoBreak,
                },
                ..self
            }
        } else if p == "role"@ {
            StyleModel { role: Some(v), ..self }
        } else {
            StyleModel { style: put(self.style, p, v), ..self }
        }
    }

    /// The attributes after those of `other` are laid under them: what is
    /// set here stays, and what is not set here comes from `other`.
    pub open spec fn merge(self, other: StyleModel) -> StyleModel {
        StyleModel {
            id: if self.id is None {
                other.id
            } else {
                self.id
            },
            class: if self.class.len() == 0 {
                other.class
            } else {
                self.class
            },
            style: merge_entries(self.style, other.style, other.style.len() as int),
            margin: if self.margin is None {
                other.margin
            } else {
                self.margin
            },
            padding: if self.padding is None {
                other.padding
            } else {
                self.padding
            },
            align: if self.align is None {
                other.align
            } else {
                self.align
            },
            hidden: self.hidden || other.hidden,
            condition: self.condition,
            page_break: if self.page_break == PageBreak::NoBreak {
                other.page_break
            } else {
                self.page_break
            },
            role: if self.role is None {
                other.role
            } else {
                self.role
            },
        }
    }

    /// The attributes after the inheritable properties that they lack are
    /// taken from `parent`.
    pub open spec fn apply_inherited(self, parent: StyleModel) -> StyleModel {
        let s1 = inherit_key(self.style, parent.style, "font-family"@);
        let s2 = inherit_key(s1, parent.style, "font-size"@);
        let s3 = inherit_key(s2, parent.style, "font-weight"@);
        let s4 = inherit_key(s3, parent.style, "color"@);
        let s5 = inherit_key(s4, parent.style, "line-height"@);
        StyleModel {
            style: s5,
            align: if self.align is None {
                parent.align
            } else {
                self.align
            },
            ..self
        }
    }
}

// ---------------------------------------------------------------------------
// The attributes
// ---------------------------------------------------------------------------

/// The style attributes of an element: the typed properties and the open map.
#[derive(Debug)]
pub struct StyleAttributes {
    pub id: Option<String>,
    pub class: Vec<String>,
    pub style: StyleMap,
    pub margin: Option<Decimal>,
    pub padding: Option<Decimal>,
    pub align: Option<Align>,
    pub hidden: bool,
    pub condition: Option<bool>,
    pub page_break: PageBreak,
    pub role: Option<String>,
}

/// The text of an optional string.
pub open spec fn text_of(o: Option<String>) -> Option<Seq<char>> {
    match o {
        Some(s) => Some(s@),
        None => None,
    }
}

/// The normal form of an optional number.
pub open spec fn number_of(o: Option<Decimal>) -> Option<Seq<char>> {
    match o {
        Some(d) => Some(d@),
        None => None,
    }
}

/// The texts of a sequence of strings.
pub open spec fn texts_of(v: Seq<String>) -> Seq<Seq<char>> {
    Seq::new(v.len(), |i: int| v[i]@)
}

impl View for StyleAttributes {
    type V = StyleModel;

    open spec fn view(&self) -> StyleModel {
        StyleModel {
            id: text_of(self.id),
            class: texts_of(self.class@),
            style: self.style.pairs(),
            margin: number_of(self.margin),
            padding: number_of(self.padding),
            align: self.align,
            hidden: self.hidden,
            condition: self.condition,
            page_break: self.page_break,
            role: text_of(self.role),
        }
    }
}

impl Default for StyleAttributes {
    fn default() -> (r: Self)
        ensures
            r@ == StyleModel::empty(),
    {
        let r = StyleAttributes {
            id: None,
            class: Vec::new(),
            style: StyleMap::new(),
            margin: None,
            padding: None,
            align: None,
            hidden: false,
            condition: None,
            page_break: PageBreak::NoBreak,
            role: None,
        };
        assert(r@.class =~= Seq::<Seq<char>>::empty());
        r
    }
}

fn clone_text(o: &Option<String>) -> (r: Option<String>)
    ensures
        r == *o,
{
    match o {
        Some(s) => Some(s.clone()),
        None => None,
    }
}

fn clone_number(o: &Option<Decimal>) -> (r: Option<Decimal>)
    ensures
        r == *o,
{
    match o {
        Some(d) => Some(d.clone()),
        None => None,
    }
}

/// A copy of each string of `v`.
pub fn clone_strings(v: &Vec<String>) -> (r: Vec<String>)
    ensures
        r@ == v@,
{
    let mut out: Vec<String> = Vec::new();
    let mut i: usize = 0;
    while i < v.len()
        invariant
            i <= v.len(),
            out@.len() == i,
            forall|j: int| 0 <= j < i ==> out@[j] == v@[j],
        decreases v.len() - i,
    {
        out.push(v[i].clone());
        i += 1;
    }
    assert(out@ =~= v@);
    out
}

impl Clone for StyleAttributes {
    fn clone(&self) -> (r: Self)
        ensures
            r@ == self@,
    {
        StyleAttributes {
            id: clone_text(&self.id),
            class: clone_strings(&self.class),
            style: self.style.clone(),
            margin: clone_number(&self.margin),
            padding: clone_number(&self.padding),
            align: self.align,
            hidden: self.hidden,
            condition: self.condition,
            page_break: self.page_break,
            role: clone_text(&self.role),
        }
    }
}

/// Takes the parent's value of `key` where the parent has one and `style` has none.
fn inherit_into(style: &mut StyleMap, parent: &StyleMap, key: &str)
    ensures
        final(style).pairs() == inherit_key(old(style).pairs(), parent.pairs(), key@),
{
    if !style.contains_key(key) {
        match parent.get(key) {
            Some(v) => {
                style.insert(key.to_owned(), v.clone());
            },
            None => {},
        }
    }
}

impl StyleAttributes {
    /// The value of `property`, as text.
    pub fn get(&self, property: &str) -> (r: Option<String>)
        ensures
            text_of(r) == self@.get(property@),
    {
        match self.style.get(property) {
            Some(v) => {
                return Some(v.clone());
            },
            None => {},
        }
        if str_eq(property, "id") {
            clone_text(&self.id)
        } else if str_eq(property, "margin") {
            match &self.margin {
                Some(d) => Some(d.to_string()),
                None => None,
            }
        } else if str_eq(property, "padding") {
            match &self.padding {
                Some(d) => Some(d.to_string()),
                None => None,
            }
        } else if str_eq(property, "align") {
            match self.align {
                Some(a) => Some(a.name()),
                None => None,
            }
        } else if str_eq(property, "hidden") {
            if self.hidden {
                Some("true".to_owned())
            } else {
                Some("false".to_owned())
            }
        } else if str_eq(property, "page_break") {
            Some(self.page_break.name())
        } else if str_eq(property, "role") {
            clone_text(&self.role)
        } else {
            None
        }
    }

    /// Sets `property` to what `value` writes.
    pub fn set(&mut self, property: &str, value: String)
        ensures
            final(self)@ == old(self)@.set(property@, value@),
    {
        if str_eq(property, "id") {
            self.id = Some(value);
        } else if str_eq(property, "margin") {
            match Decimal::parse(value.as_str()) {
                Some(d) => {
                    self.margin = Some(d);
                },
                None => {},
            }
        } else if str_eq(property, "padding") {
            match Decimal::parse(value.as_str()) {
                Some(d) => {
                    self.padding = Some(d);
                },
                None => {},
            }
        } else if str_eq(property, "align") {
            match Align::parse(value.as_str()) {
                Some(a) => {
                    self.align = Some(a);
                },
                None => {},
            }
        } else if str_eq(property, "hidden") {
            self.hidden = match parse_bool(value.as_str()) {
                Some(b) => b,
                None => false,
            };
        } else if str_eq(property, "page_break") {
            self.page_break = match PageBreak::parse(value.as_str()) {
                Some(b) => b,
                None => PageBreak::NoBreak,
            };
        } else if str_eq(property, "role") {
            self.role = Some(value);
        } else {
            self.style.insert(property.to_owned(), value);
        }
    }

    /// Lays the attributes of `other` under these.
    pub fn merge(&mut self, other: &StyleAttributes)
        ensures
            final(self)@ == old(self)@.merge(other@),
    {
        let mut i: usize = other.style.entries.len();
        while i > 0
            invariant
                i <= other.style.entries@.len(),
                merge_entries(self.style.pairs(), other.style.pairs(), i as int) == merge_entries(
                    old(self).style.pairs(),
                    other.style.pairs(),
                    other.style.pairs().len() as int,
                ),
                self.id == old(self).id,
                self.class == old(self).class,
                self.margin == old(self).margin,
                self.padding == old(self).padding,
                self.align == old(self).align,
                self.hidden == old(self).hidden,
                self.condition == old(self).condition,
                self.page_break == old(self).page_break,
                self.role == old(self).role,
            decreases i,
        {
            i -= 1;
            if !self.style.contains_key(other.style.entries[i].0.as_str()) {
                self.style.insert(other.style.entries[i].0.clone(), other.style.entries[i].1.clone());
            }
        }
        if self.id.is_none() {
            self.id = clone_text(&other.id);
        }
        if self.class.len() == 0 {
            self.class = clone_strings(&other.class);
        }
        if self.margin.is_none() {
            self.margin = clone_number(&other.margin);
        }
        if self.padding.is_none() {
            self.padding = clone_number(&other.padding);
        }
        if self.align.is_none() {
            self.align = other.align;
        }
        if self.role.is_none() {
            self.role = clone_text(&other.role);
        }
        self.hidden = self.hidden || other.hidden;
        if self.page_break == PageBreak::NoBreak {
            self.page_break = other.page_break;
        }
    }

    /// Takes from `parent` the inheritable properties that these attributes lack.
    pub fn apply_inherited(&mut self, parent: &StyleAttributes)
        ensures
            final(self)@ == old(self)@.apply_inherited(parent@),
    {
        inherit_into(&mut self.style, &parent.style, "font-family");
        inherit_into(&mut self.style, &parent.style, "font-size");
        inherit_into(&mut self.style, &parent.style, "font-weight");
        inherit_into(&mut self.style, &parent.style, "color");
        inherit_into(&mut self.style, &parent.style, "line-height");
        if self.align.is_none() {
            self.align = parent.align;
        }
    }
}


// ---------------------------------------------------------------------------
// Inline attributes from markup
// ---------------------------------------------------------------------------

/// The declaration that one segment of a `style` attribute writes: the text
/// before its first colon and the text after it, each trimmed. A segment
/// without a colon writes none.
pub open spec fn declaration_of(seg: Seq<char>) -> Option<(Seq<char>, Seq<char>)> {
    let k = find_char(seg, ':', 0);
    if 0 <= k < seg.len() {
        Some((trim(seg.subrange(0, k)), trim(seg.subrange(k + 1, seg.len() as int))))
    } else {
        None
    }
}

/// `acc` after the declarations of the segments of `s` from index `i` on
/// are put into it, where the segments are what lies between semicolons.
pub open spec fn style_pairs_from(
    s: Seq<char>,
    i: int,
    acc: Seq<(Seq<char>, Seq<char>)>,
) -> Seq<(Seq<char>, Seq<char>)>
    decreases s.len() - i,
{
    if 0 <= i <= s.len() {
        let j = find_char(s, ';', i);
        let next = match declaration_of(s.subrange(i, j)) {
            Some(d) => put(acc, d.0, d.1),
            None => acc,
        };
        if i <= j < s.len() {
            style_pairs_from(s, j + 1, next)
        } else {
            next
        }
    } else {
        acc
    }
}

/// The entries that a `style` attribute of the form `key: value; key: value` writes.
pub open spec fn style_pairs(s: Seq<char>) -> Seq<(Seq<char>, Seq<char>)> {
    style_pairs_from(s, 0, Seq::empty())
}

/// The text of the attribute `k`, where markup gave it.
pub open spec fn attribute_text(attrs: Map<Seq<char>, ExprModel>, k: Seq<char>) -> Option<
    Seq<char>,
> {
    if attrs.dom().contains(k) {
        Some(attrs[k].markup_text())
    } else {
        None
    }
}

/// The inline style that the markup attributes of an element write. A
/// typed property whose text does not parse keeps its default.
pub open spec fn inline_style(attrs: Map<Seq<char>, ExprModel>) -> StyleModel {
    StyleModel {
        id: attribute_text(attrs, "id"@),
        class: match attribute_text(attrs, "class"@) {
            Some(t) => words(t),
            None => Seq::empty(),
        },
        style: match attribute_text(attrs, "style"@) {
            Some(t) => style_pairs(t),
            None => Seq::empty(),
        },
        margin: match attribute_text(attrs, "margin"@) {
            Some(t) => decimal_of_text(t),
            None => None,
        },
        padding: match attribute_text(attrs, "padding"@) {
            Some(t) => decimal_of_text(t),
            None => None,
        },
        align: match attribute_text(attrs, "align"@) {
            Some(t) => align_of_text(t),
            None => None,
        },
        hidden: match attribute_text(attrs, "hidden"@) {
            Some(t) => bool_of_text(t) == Some(true),
            None => false,
        },
        condition: match attribute_text(attrs, "condition"@) {
            Some(t) => bool_of_text(t),
            None => None,
        },
        page_break: match attribute_text(attrs, "page_break"@) {
            Some(t) => match page_break_of_text(t) {
                Some(b) => b,
                None => PageBreak::NoBreak,
            },
            None => PageBreak::NoBreak,
        },
        role: attribute_text(attrs, "role"@),
    }
}

/// The text of the attribute `key`, where markup gave it.
pub fn attribute_string(attributes: &AttributeMap, key: &str) -> (r: Option<String>)
    ensures
        text_of(r) == attribute_text(attributes@, key@),
{
    match attributes.get(key) {
        Some(e) => Some(e.to_string()),
        None => None,
    }
}

impl StyleAttributes {
    /// The inline style that the markup attributes of an element write.
    pub fn new_with_attributes(attributes: &AttributeMap) -> (r: Self)
        ensures
            r@ == inline_style(attributes@),
    {
        let mut result = StyleAttributes::default();
        result.id = attribute_string(attributes, "id");
        match attribute_string(attributes, "class") {
            Some(t) => {
                result.class = split_whitespace(t.as_str());
                assert(texts_of(result.class@) =~= words(t@));
            },
            None => {},
        }
        match attribute_string(attributes, "style") {
            Some(t) => {
                result.style = Self::parse_style(t.as_str());
            },
            None => {},
        }
        match attribute_string(attributes, "margin") {
            Some(t) => {
                result.margin = Decimal::parse(t.as_str());
            },
            None => {},
        }
        match attribute_string(attributes, "padding") {
            Some(t) => {
                result.padding = Decimal::parse(t.as_str());
            },
            None => {},
        }
        match attribute_string(attributes, "align") {
            Some(t) => {
                result.align = Align::parse(t.as_str());
            },
            None => {},
        }
        match attribute_string(attributes, "hidden") {
            Some(t) => {
                result.hidden = match parse_bool(t.as_str()) {
                    Some(b) => b,
                    None => false,
                };
            },
            None => {},
        }
        match attribute_string(attributes, "condition") {
            Some(t) => {
                result.condition = parse_bool(t.as_str());
            },
            None => {},
        }
        match attribute_string(attributes, "page_break") {
            Some(t) => {
                result.page_break = match PageBreak::parse(t.as_str()) {
                    Some(b) => b,
                    None => PageBreak::NoBreak,
                };
            },
            None => {},
        }
        result.role = attribute_string(attributes, "role");
        result
    }

    /// The entries that a `style` attribute writes.
    pub fn parse_style(input: &str) -> (r: StyleMap)
        ensures
            r.pairs() == style_pairs(input@),
    {
        let v = to_chars(input);
        let n = v.len();
        let mut out = StyleMap::new();
        let mut i: usize = 0;
        loop
            invariant_except_break
                style_pairs_from(v@, i as int, out.pairs()) == style_pairs(v@),
            invariant
                i <= n == v@.len(),
                v@ == input@,
            ensures
                out.pairs() == style_pairs(v@),
            decreases n - i,
        {
            let j = find_in(&v, ';', i, n);
            let k = find_in(&v, ':', i, j);
            proof {
                lemma_find_char_is(v@, ';', i as int, j as int);
            }
            let ghost seg = v@.subrange(i as int, j as int);
            if k < j {
                let (a, b) = trim_range(&v, i, k);
                let (c, d) = trim_range(&v, k + 1, j);
                proof {
                    assert(seg.subrange(0, k - i) =~= v@.subrange(i as int, k as int));
                    assert(seg.subrange(k - i + 1, seg.len() as int) =~= v@.subrange(
                        k + 1,
                        j as int,
                    ));
                }
                let key = string_from_chars(&v, a, b);
                let value = string_from_chars(&v, c, d);
                out.insert(key, value);
            }
            if j >= n {
                break;
            }
            i = j + 1;
        }
        out
    }
}


// ---------------------------------------------------------------------------
// Laws
// ---------------------------------------------------------------------------

/// The text that `v` is read back as once the property `p` has taken it:
/// `v` itself for a property that holds text, and the normal form of what
/// `v` writes for a typed one. `None` where a typed property does not
/// take `v`.
pub open spec fn canonical_value(p: Seq<char>, v: Seq<char>) -> Option<Seq<char>> {
    if p == "margin"@ || p == "padding"@ {
        decimal_of_text(v)
    } else if p == "align"@ {
        match align_of_text(v) {
            Some(a) => Some(align_text(a)),
            None => None,
        }
    } else if p == "hidden"@ {
        match bool_of_text(v) {
            Some(b) => Some(bool_text(b)),
            None => None,
        }
    } else if p == "page_break"@ {
        match page_break_of_text(v) {
            Some(b) => Some(page_break_text(b)),
            None => None,
        }
    } else {
        Some(v)
    }
}

/// The names of the typed properties differ from one another.
pub proof fn lemma_known_names_differ()
    ensures
        "id"@ != "margin"@,
        "id"@ != "padding"@,
        "id"@ != "align"@,
        "id"@ != "hidden"@,
        "id"@ != "page_break"@,
        "id"@ != "role"@,
        "margin"@ != "padding"@,
        "margin"@ != "align"@,
        "margin"@ != "hidden"@,
        "margin"@ != "page_break"@,
        "margin"@ != "role"@,
        "padding"@ != "align"@,
        "padding"@ != "hidden"@,
        "padding"@ != "page_break"@,
        "padding"@ != "role"@,
        "align"@ != "hidden"@,
        "align"@ != "page_break"@,
        "align"@ != "role"@,
        "hidden"@ != "page_break"@,
        "hidden"@ != "role"@,
        "page_break"@ != "role"@,
{
    reveal_strlit("id");
    reveal_strlit("margin");
    reveal_strlit("padding");
    reveal_strlit("align");
    reveal_strlit("hidden");
    reveal_strlit("page_break");
    reveal_strlit("role");
    assert("id"@.len() == 2);
    assert("margin"@.len() == 6 && "margin"@[0] == 'm');
    assert("padding"@.len() == 7);
    assert("align"@.len() == 5);
    assert("hidden"@.len() == 6 && "hidden"@[0] == 'h');
    assert("page_break"@.len() == 10);
    assert("role"@.len() == 4);
}

/// Setting a property and reading it back gives the value that was set, in
/// the property's normal form. This holds of every property that the open
/// map holds, and of a typed property where the value is one that it takes
/// and the open map has no entry of the same name to read in its place.
pub proof fn law_set_then_get(m: StyleModel, p: Seq<char>, v: Seq<char>)
    requires
        is_known(p) ==> lookup(m.style, p) is None,
        canonical_value(p, v) is Some,
    ensures
        m.set(p, v).get(p) == canonical_value(p, v),
{
    lemma_known_names_differ();
    if !is_known(p) {
        lemma_map_of_put(m.style, p, v);
    }
}

/// Setting one property leaves every other property as it reads.
pub proof fn law_set_keeps_others(m: StyleModel, p: Seq<char>, v: Seq<char>, q: Seq<char>)
    requires
        p != q,
    ensures
        m.set(p, v).get(q) == m.get(q),
{
    lemma_known_names_differ();
    if !is_known(p) {
        lemma_map_of_put(m.style, p, v);
    }
}

} // verus!
