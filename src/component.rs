use vstd::prelude::*;
use crate::json::{Json, JsonView};

verus! {

/// A node of a chat message tree.
#[derive(Debug, PartialEq)]
pub enum Component {
    String(StringComponent),
    Translation(TranslationComponent),
    Keybind(KeybindComponent),
    Score(ScoreComponent),
    Selector(SelectorComponent),
}

/// A literal text fragment: bare, or with attributes.
#[derive(Debug, PartialEq)]
pub enum StringComponent {
    Raw(String),
    Mixed { text: String, fields: ComponentFields },
}

/// A translation key with its ordered arguments.
#[derive(Debug, PartialEq)]
pub struct TranslationComponent {
    pub translate: String,
    pub with: Vec<Component>,
    pub fields: ComponentFields,
}

/// A reference to a keybind.
#[derive(Debug, PartialEq)]
pub struct KeybindComponent {
    pub keybind: String,
    pub fields: ComponentFields,
}

/// A scoreboard reference, kept as an uninterpreted document.
#[derive(Debug, PartialEq)]
pub struct ScoreComponent {
    pub score: Json,
    pub fields: ComponentFields,
}

/// An entity selector, kept as an uninterpreted document.
#[derive(Debug, PartialEq)]
pub struct SelectorComponent {
    pub selector: Json,
    pub fields: ComponentFields,
}

/// The formatting and interactivity attributes of a node, and its children.
#[derive(Debug, PartialEq, Default)]
pub struct ComponentFields {
    pub bold: Option<bool>,
    pub italic: Option<bool>,
    pub underlined: Option<bool>,
    pub strikethrough: Option<bool>,
    pub obfuscated: Option<bool>,
    pub color: Option<String>,
    pub insertion: Option<String>,
    pub click_event: Option<ClickEvent>,
    pub hover_event: Option<HoverEvent>,
    pub extra: Option<Vec<Component>>,
}

/// What happens when a node is clicked.
#[derive(Debug, PartialEq)]
pub enum ClickEvent {
    OpenUrl(String),
    OpenFile(String),
    RunCommand(String),
    TwitchUserInfo(String),
    SuggestCommand(String),
    ChangePage(usize),
}

/// What is shown while the pointer rests on a node.
#[derive(Debug, PartialEq)]
pub enum HoverEvent {
    ShowText(Box<StringComponent>),
    ShowItem(Box<StringComponent>),
    ShowEntity(Box<StringComponent>),
    ShowAchievement(Box<StringComponent>),
}

/// The model of a [`Component`].
pub enum ComponentView {
    Text(TextView),
    Translation { key: Seq<char>, with: Seq<ComponentView>, fields: FieldsView },
    Keybind { keybind: Seq<char>, fields: FieldsView },
    Score { score: JsonView, fields: FieldsView },
    Selector { selector: JsonView, fields: FieldsView },
}

/// The model of a [`StringComponent`].
pub enum TextView {
    Raw(Seq<char>),
    Mixed(Seq<char>, FieldsView),
}

/// The model of [`ComponentFields`].
pub struct FieldsView {
    pub bold: Option<bool>,
    pub italic: Option<bool>,
    pub underlined: Option<bool>,
    pub strikethrough: Option<bool>,
    pub obfuscated: Option<bool>,
    pub color: Option<Seq<char>>,
    pub insertion: Option<Seq<char>>,
    pub click_event: Option<ClickView>,
    pub hover_event: Option<HoverView>,
    pub extra: Option<Seq<ComponentView>>,
}

/// The model of a [`ClickEvent`].
pub enum ClickView {
    OpenUrl(Seq<char>),
    OpenFile(Seq<char>),
    RunCommand(Seq<char>),
    TwitchUserInfo(Seq<char>),
    SuggestCommand(Seq<char>),
    ChangePage(nat),
}

/// The model of a [`HoverEvent`].
pub enum HoverView {
    ShowText(Box<TextView>),
    ShowItem(Box<TextView>),
    ShowEntity(Box<TextView>),
    ShowAchievement(Box<TextView>),
}

/// The fields record with every attribute absent.
pub open spec fn no_fields() -> FieldsView {
    FieldsView {
        bold: None,
        italic: None,
        underlined: None,
        strikethrough: None,
        obfuscated: None,
        color: None,
        insertion: None,
        click_event: None,
        hover_event: None,
        extra: None,
    }
}

pub open spec fn components_view(s: Seq<Component>) -> Seq<ComponentView>
    decreases s,
{
    if s.len() == 0 {
        Seq::empty()
    } else {
        components_view(s.drop_last()).push(s.last().view())
    }
}

pub open spec fn opt_string_view(s: Option<String>) -> Option<Seq<char>> {
    match s {
        Some(t) => Some(t@),
        None => None,
    }
}

impl Component {
    pub open spec fn view(&self) -> ComponentView
        decreases self,
    {
        match self {
            Component::String(s) => ComponentView::Text(s.view()),
            Component::Translation(t) => ComponentView::Translation {
                key: t.translate@,
                with: components_view(t.with@),
                fields: t.fields.view(),
            },
            Component::Keybind(k) => ComponentView::Keybind {
                keybind: k.keybind@,
                fields: k.fields.view(),
            },
            Component::Score(s) => ComponentView::Score { score: s.score.view(), fields: s.fields.view() },
            Component::Selector(s) => ComponentView::Selector {
                selector: s.selector.view(),
                fields: s.fields.view(),
            },
        }
    }
}

impl StringComponent {
    pub open spec fn view(&self) -> TextView
        decreases self,
    {
        match self {
            StringComponent::Raw(t) => TextView::Raw(t@),
            StringComponent::Mixed { text, fields } => TextView::Mixed(text@, fields.view()),
        }
    }
}

impl ComponentFields {
    pub open spec fn view(&self) -> FieldsView
        decreases self,
    {
        FieldsView {
            bold: self.bold,
            italic: self.italic,
            underlined: self.underlined,
            strikethrough: self.strikethrough,
            obfuscated: self.obfuscated,
            color: opt_string_view(self.color),
            insertion: opt_string_view(self.insertion),
            click_event: match self.click_event {
                Some(c) => Some(c.view()),
                None => None,
            },
            hover_event: match self.hover_event {
                Some(h) => Some(h.view()),
                None => None,
            },
            extra: match self.extra {
                Some(x) => Some(components_view(x@)),
                None => None,
            },
        }
    }
}

impl ClickEvent {
    pub open spec fn view(&self) -> ClickView {
        match self {
            ClickEvent::OpenUrl(s) => ClickView::OpenUrl(s@),
            ClickEvent::OpenFile(s) => ClickView::OpenFile(s@),
            ClickEvent::RunCommand(s) => ClickView::RunCommand(s@),
            ClickEvent::TwitchUserInfo(s) => ClickView::TwitchUserInfo(s@),
            ClickEvent::SuggestCommand(s) => ClickView::SuggestCommand(s@),
            ClickEvent::ChangePage(n) => ClickView::ChangePage(*n as nat),
        }
    }
}

impl HoverEvent {
    pub open spec fn view(&self) -> HoverView
        decreases self,
    {
        match self {
            HoverEvent::ShowText(s) => HoverView::ShowText(Box::new(s.view())),
            HoverEvent::ShowItem(s) => HoverView::ShowItem(Box::new(s.view())),
            HoverEvent::ShowEntity(s) => HoverView::ShowEntity(Box::new(s.view())),
            HoverEvent::ShowAchievement(s) => HoverView::ShowAchievement(Box::new(s.view())),
        }
    }
}

pub proof fn lemma_components_view(s: Seq<Component>)
    ensures
        components_view(s).len() == s.len(),
        forall|i: int| 0 <= i < s.len() ==> #[trigger] components_view(s)[i] == s[i].view(),
    decreases s.len(),
{
    if s.len() > 0 {
        lemma_components_view(s.drop_last());
    }
}

pub open spec fn max_nat(a: nat, b: nat) -> nat {
    if a >= b {
        a
    } else {
        b
    }
}

/// How many levels of components a tree has: a node is one level above its
/// arguments, its children and the text of its hover event.
pub open spec fn depth(c: ComponentView) -> nat
    decreases c,
{
    match c {
        ComponentView::Text(t) => text_depth(t),
        ComponentView::Translation { with, fields, .. } => 1 + max_nat(all_depth(with), fields_depth(fields)),
        ComponentView::Keybind { fields, .. } => 1 + fields_depth(fields),
        ComponentView::Score { fields, .. } => 1 + fields_depth(fields),
        ComponentView::Selector { fields, .. } => 1 + fields_depth(fields),
    }
}

pub open spec fn text_depth(t: TextView) -> nat
    decreases t,
{
    match t {
        TextView::Raw(_) => 1,
        TextView::Mixed(_, fields) => 1 + fields_depth(fields),
    }
}

/// The depth of what hangs below a node: its hover text and its children.
pub open spec fn fields_depth(f: FieldsView) -> nat
    decreases f,
{
    max_nat(
        match f.hover_event {
            Some(h) => hover_depth(h),
            None => 0,
        },
        match f.extra {
            Some(children) => all_depth(children),
            None => 0,
        },
    )
}

pub open spec fn hover_depth(h: HoverView) -> nat
    decreases h,
{
    match h {
        HoverView::ShowText(t) => text_depth(*t),
        HoverView::ShowItem(t) => text_depth(*t),
        HoverView::ShowEntity(t) => text_depth(*t),
        HoverView::ShowAchievement(t) => text_depth(*t),
    }
}

/// The greatest depth among `cs`, or 0.
pub open spec fn all_depth(cs: Seq<ComponentView>) -> nat
    decreases cs,
{
    if cs.len() == 0 {
        0
    } else {
        max_nat(all_depth(cs.drop_last()), depth(cs.last()))
    }
}

} // verus!
